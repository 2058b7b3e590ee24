use intern_local::instruction::{parse_four_ints, parse_instruction, parse_two_ints, Action};

fn ok(text: &str) -> Action {
    parse_instruction(text).expect("instruction should parse")
}

fn err(text: &str) -> String {
    match parse_instruction(text) {
        Ok(a) => panic!("expected an error for {text:?}, got {a:?}"),
        Err(e) => e,
    }
}

#[test]
fn click_reads_two_coordinates() {
    assert!(matches!(ok("click 100 200"), Action::Click { x: 100, y: 200 }));
    assert!(matches!(ok("click -5 +7"), Action::Click { x: -5, y: 7 }));
    assert!(matches!(ok("click   3\t4  extra words"), Action::Click { x: 3, y: 4 }));
}

#[test]
fn coordinates_cover_the_whole_i32_range() {
    assert!(matches!(
        ok("move -2147483648 2147483647"),
        Action::Move { x: i32::MIN, y: i32::MAX }
    ));
    assert_eq!(err("move 2147483648 0"), "invalid move format; use: move <x> <y>");
    assert_eq!(err("move -2147483649 0"), "invalid move format; use: move <x> <y>");
}

#[test]
fn bad_coordinates_are_refused_with_usage() {
    assert_eq!(err("click 1"), "invalid click format; use: click <x> <y>");
    assert_eq!(err("click a b"), "invalid click format; use: click <x> <y>");
    assert_eq!(err("click 1 -"), "invalid click format; use: click <x> <y>");
    assert_eq!(err("click 1 +"), "invalid click format; use: click <x> <y>");
    assert_eq!(err("click 1 2x"), "invalid click format; use: click <x> <y>");
    assert_eq!(err("doubleclick 1"), "invalid doubleclick format; use: doubleclick <x> <y>");
    assert_eq!(err("mousedown x 1"), "invalid mousedown format; use: mousedown <x> <y>");
    assert_eq!(err("mouseup 1"), "invalid mouseup format; use: mouseup <x> <y>");
    assert_eq!(err("drag 1 2 3"), "invalid drag format; use: drag <x1> <y1> <x2> <y2>");
}

#[test]
fn every_pointer_instruction_is_recognised() {
    assert!(matches!(ok("doubleclick 1 2"), Action::DoubleClick { x: 1, y: 2 }));
    assert!(matches!(ok("mousedown 3 4"), Action::MouseDown { x: 3, y: 4 }));
    assert!(matches!(ok("mouseup 5 6"), Action::MouseUp { x: 5, y: 6 }));
    assert!(matches!(
        ok("drag 1 2 3 4"),
        Action::Drag { x1: 1, y1: 2, x2: 3, y2: 4 }
    ));
}

#[test]
fn scroll_takes_exactly_one_number() {
    assert!(matches!(ok("scroll -3"), Action::Scroll { delta: -3 }));
    assert!(matches!(ok("scroll   12  "), Action::Scroll { delta: 12 }));
    assert_eq!(err("scroll 1 2"), "invalid scroll format; use: scroll <delta>");
    assert_eq!(err("scroll down"), "invalid scroll format; use: scroll <delta>");
}

#[test]
fn text_arguments_are_trimmed() {
    match ok("type:   hello world  ") {
        Action::TypeText { text } => assert_eq!(text, "hello world"),
        other => panic!("{other:?}"),
    }
    match ok("key:ENTER") {
        Action::KeyPress { key } => assert_eq!(key, "ENTER"),
        other => panic!("{other:?}"),
    }
    match ok("hotkey: CTRL+SHIFT+S") {
        Action::Hotkey { combo } => assert_eq!(combo, "CTRL+SHIFT+S"),
        other => panic!("{other:?}"),
    }
    match ok("screenshot  out/shot.png ") {
        Action::Screenshot { path } => assert_eq!(path, "out/shot.png"),
        other => panic!("{other:?}"),
    }
}

#[test]
fn empty_text_arguments_are_refused() {
    assert_eq!(err("type:"), "type requires text; use: type: your text");
    assert_eq!(err("type:    "), "type requires text; use: type: your text");
    assert_eq!(err("key:"), "key requires a name; use: key: ENTER");
    assert_eq!(err("hotkey:  "), "hotkey requires a combo; use: hotkey: CTRL+S");
}

#[test]
fn wait_takes_an_unsigned_number() {
    assert!(matches!(ok("wait 500"), Action::Wait { ms: 500 }));
    assert!(matches!(ok("wait +7"), Action::Wait { ms: 7 }));
    assert!(matches!(
        ok("wait 18446744073709551615"),
        Action::Wait { ms: u64::MAX }
    ));
    assert_eq!(err("wait -1"), "invalid wait format; use: wait <ms>");
    assert_eq!(err("wait 18446744073709551616"), "invalid wait format; use: wait <ms>");
    assert_eq!(err("wait soon"), "invalid wait format; use: wait <ms>");
}

#[test]
fn noop_in_any_case() {
    assert!(matches!(ok("noop"), Action::Noop));
    assert!(matches!(ok("  NoOp "), Action::Noop));
}

#[test]
fn other_text_is_dispatched_trimmed() {
    match ok("  open the browser \n") {
        Action::Dispatch { instruction } => assert_eq!(instruction, "open the browser"),
        other => panic!("{other:?}"),
    }
    // The name alone, without the space that separates arguments, is not an instruction.
    match ok("click") {
        Action::Dispatch { instruction } => assert_eq!(instruction, "click"),
        other => panic!("{other:?}"),
    }
    match ok("noops") {
        Action::Dispatch { instruction } => assert_eq!(instruction, "noops"),
        other => panic!("{other:?}"),
    }
    match ok("") {
        Action::Dispatch { instruction } => assert_eq!(instruction, ""),
        other => panic!("{other:?}"),
    }
}

#[test]
fn surrounding_whitespace_is_ignored() {
    // Unicode whitespace counts too (no-break space, ideographic space).
    assert!(matches!(ok("\u{a0}\u{3000} click 3 4\t\n"), Action::Click { x: 3, y: 4 }));
    assert!(matches!(ok("click\u{2003}3\u{2003}4"), Action::Dispatch { .. }));
    assert!(matches!(ok("click 3\u{2003}4"), Action::Click { x: 3, y: 4 }));
}

#[test]
fn documented_syntax_reads_back() {
    for (x, y) in [(0, 0), (-1, 1), (i32::MIN, i32::MAX), (1920, 1080)] {
        assert!(matches!(ok(&format!("click {x} {y}")), Action::Click { x: a, y: b } if a == x && b == y));
        assert!(matches!(ok(&format!("drag {x} {y} {y} {x}")), Action::Drag { x1, y1, x2, y2 } if x1 == x && y1 == y && x2 == y && y2 == x));
    }
    for ms in [0u64, 1, 999, u64::MAX] {
        assert!(matches!(ok(&format!("wait {ms}")), Action::Wait { ms: m } if m == ms));
    }
}

#[test]
fn number_pairs_and_quadruples() {
    assert_eq!(parse_two_ints("  12   -7 rest"), Some((12, -7)));
    assert_eq!(parse_two_ints("12"), None);
    assert_eq!(parse_two_ints("12 x"), None);
    assert_eq!(parse_two_ints(""), None);
    assert_eq!(parse_four_ints("1 2 3 4 5"), Some((1, 2, 3, 4)));
    assert_eq!(parse_four_ints("1 2 3"), None);
    assert_eq!(parse_four_ints("1 2 3 99999999999"), None);
}
