use intern_local::audio::Audio;
use intern_local::command::CommandResult;
use intern_local::runner::{epoch_millis, now_ms, LogEvent};
use intern_local::text::{chars_of, parse_i32_at, parse_u64_at, push_i32, push_u64};
use intern_local::tray::build_ico_bytes;

#[test]
fn ico_wraps_the_png() {
    let png = vec![0x89u8, b'P', b'N', b'G', 1, 2, 3];
    let ico = build_ico_bytes(&png);
    assert_eq!(ico.len(), 22 + png.len());
    assert_eq!(&ico[0..6], &[0, 0, 1, 0, 1, 0]);
    assert_eq!(&ico[6..14], &[0, 0, 0, 0, 0, 0, 0, 0]);
    assert_eq!(&ico[14..18], &(png.len() as u32).to_le_bytes());
    assert_eq!(&ico[18..22], &22u32.to_le_bytes());
    assert_eq!(&ico[22..], &png[..]);
}

#[test]
fn ico_of_an_empty_image() {
    let ico = build_ico_bytes(&[]);
    assert_eq!(ico, vec![0, 0, 1, 0, 1, 0, 0, 0, 0, 0, 0, 0, 0, 0, 0, 0, 0, 0, 22, 0, 0, 0]);
}

fn result() -> CommandResult {
    CommandResult {
        index: 3,
        tag: "t".to_string(),
        instruction: "noop".to_string(),
        status: "ok".to_string(),
        detail: "noop".to_string(),
        screenshot_path: None,
        screenshot_data_url: Some("u".to_string()),
    }
}

#[test]
fn log_event_times_the_run() {
    let e = LogEvent::new(result(), 1000, 1250);
    assert_eq!(e.ts_ms, 1250);
    assert_eq!(e.duration_ms, 250);
    assert_eq!(e.index, 3);
    assert_eq!(e.tag, "t");
    assert_eq!(e.instruction, "noop");
    assert_eq!(e.status, "ok");
    assert_eq!(e.detail, "noop");
    assert_eq!(e.screenshot_path, None);
    assert_eq!(e.screenshot_data_url.as_deref(), Some("u"));
}

#[test]
fn log_event_duration_never_negative() {
    let e = LogEvent::new(result(), 2000, 1500);
    assert_eq!(e.ts_ms, 1500);
    assert_eq!(e.duration_ms, 0);
}

#[test]
fn clock_reads_after_the_epoch() {
    let a = now_ms();
    let b = now_ms();
    assert!(a > 1_600_000_000_000);
    assert!(b >= a);
}

#[test]
fn audio_status() {
    assert_eq!(Audio::new().peek(), "audio_ok");
}

#[test]
fn decimal_forms() {
    for v in [0, 7, -7, 10, -10, 2147483647, -2147483648, 1234567] {
        let mut s = String::from("x=");
        push_i32(&mut s, v);
        assert_eq!(s, format!("x={v}"));
        let cs = chars_of(&s);
        assert_eq!(parse_i32_at(&cs, 2, cs.len()), Some(v));
    }
    for n in [0u64, 9, 10, 99, 100, u64::MAX] {
        let mut s = String::new();
        push_u64(&mut s, n);
        assert_eq!(s, n.to_string());
        let cs = chars_of(&s);
        assert_eq!(parse_u64_at(&cs, 0, cs.len()), Some(n));
    }
}

#[test]
fn integer_reading_matches_str_parse() {
    for t in ["", "+", "-", "0", "-0", "+0", "007", "+-1", "1_000", " 1", "2147483647", "2147483648",
        "-2147483648", "-2147483649", "99999999999999999999", "٣"] {
        let cs = chars_of(t);
        assert_eq!(parse_i32_at(&cs, 0, cs.len()), t.parse::<i32>().ok(), "i32 {t:?}");
        assert_eq!(parse_u64_at(&cs, 0, cs.len()), t.parse::<u64>().ok(), "u64 {t:?}");
    }
}

#[test]
fn clock_before_the_epoch_reads_zero() {
    assert_eq!(epoch_millis(None), 0);
    assert_eq!(epoch_millis(Some(1_700_000_000_123)), 1_700_000_000_123);
}
