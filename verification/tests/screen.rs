use intern_local::screen::{
    extension_verdict, normalize_output_path, pick_screen, resolve_output_path, ExtensionVerdict,
    ScreenCapture,
};

#[test]
fn data_url_is_base64_of_the_image() {
    let screen = ScreenCapture::new();
    assert_eq!(screen.data_url(b"hello"), "data:image/png;base64,aGVsbG8=");
    assert_eq!(screen.data_url(b""), "data:image/png;base64,");
    assert_eq!(screen.data_url(&[0xff, 0xfe, 0xfd]), "data:image/png;base64,//79");
    assert_eq!(screen.data_url(b"hell"), "data:image/png;base64,aGVsbA==");
}

#[test]
fn capture_result_reports_the_saved_path() {
    let screen = ScreenCapture::new();
    let r = screen.capture_result("out/shot.png".to_string(), b"hel");
    assert_eq!(r.detail, "screenshot_saved: out/shot.png");
    assert_eq!(r.screenshot_path.as_deref(), Some("out/shot.png"));
    assert_eq!(r.screenshot_data_url.as_deref(), Some("data:image/png;base64,aGVs"));
}

#[test]
fn png_encoding_of_pixels() {
    let screen = ScreenCapture::new();
    let pixels = vec![255u8, 0, 0, 255, 0, 255, 0, 255];
    let png = screen.encode_png(&pixels, 2, 1).expect("encodes");
    assert_eq!(&png[..8], &[0x89, b'P', b'N', b'G', 0x0d, 0x0a, 0x1a, 0x0a]);
    assert_ne!(png, pixels);
}

#[test]
fn png_encoding_refusal_is_reported() {
    let screen = ScreenCapture::new();
    match screen.encode_png(&[], 0, 0) {
        Ok(png) => assert_eq!(&png[..4], &[0x89, b'P', b'N', b'G']),
        Err(e) => assert!(e.starts_with("encode error: ")),
    }
}

#[test]
fn extension_verdicts() {
    assert_eq!(extension_verdict(None), ExtensionVerdict::AddPng);
    assert_eq!(extension_verdict(Some("")), ExtensionVerdict::AddPng);
    assert_eq!(extension_verdict(Some("png")), ExtensionVerdict::Keep);
    assert_eq!(extension_verdict(Some("PnG")), ExtensionVerdict::Keep);
    assert_eq!(extension_verdict(Some("jpg")), ExtensionVerdict::Reject);
    assert_eq!(extension_verdict(Some("pngx")), ExtensionVerdict::Reject);
}

#[test]
fn output_paths() {
    assert_eq!(normalize_output_path("  shot  "), Ok("shot.png".to_string()));
    assert_eq!(normalize_output_path("dir/a.PNG"), Ok("dir/a.PNG".to_string()));
    assert_eq!(normalize_output_path("dir/a."), Ok("dir/a.png".to_string()));
    assert_eq!(
        normalize_output_path("a.jpg"),
        Err("unsupported screenshot format; use .png".to_string())
    );
    assert_eq!(
        normalize_output_path("   "),
        Err("screenshot requires a path; use: screenshot <path>".to_string())
    );
}

#[test]
fn screen_status() {
    assert_eq!(ScreenCapture::new().peek(), "screen_ok");
}

#[test]
fn output_path_keeps_dots_in_directories() {
    assert_eq!(normalize_output_path("  dir.v2/shot  "), Ok("dir.v2/shot.png".to_string()));
    assert_eq!(normalize_output_path("shot.Png"), Ok("shot.Png".to_string()));
}

#[test]
fn resolved_output_paths() {
    assert_eq!(resolve_output_path("a.png", Some("png"), "a.png".to_string()), Ok("a.png".to_string()));
    assert_eq!(resolve_output_path("a.PNG", Some("PNG"), "a.png".to_string()), Ok("a.PNG".to_string()));
    assert_eq!(resolve_output_path("shot", None, "shot.png".to_string()), Ok("shot.png".to_string()));
    assert_eq!(resolve_output_path("a.", Some(""), "a.png".to_string()), Ok("a.png".to_string()));
    assert_eq!(
        resolve_output_path("a.jpg", Some("jpg"), "a.png".to_string()),
        Err("unsupported screenshot format; use .png".to_string())
    );
}

#[test]
fn output_path_of_plain_names() {
    assert_eq!(normalize_output_path(" my shot "), Ok("my shot.png".to_string()));
    assert_eq!(normalize_output_path("my shot.png"), Ok("my shot.png".to_string()));
    assert_eq!(normalize_output_path("my shot.gif"), Err("unsupported screenshot format; use .png".to_string()));
}

#[test]
fn output_path_with_directories() {
    assert_eq!(
        normalize_output_path("shots/a.jpg"),
        Err("unsupported screenshot format; use .png".to_string())
    );
    assert_eq!(normalize_output_path("  dir.v2/shot  "), Ok("dir.v2/shot.png".to_string()));
    assert_eq!(normalize_output_path("shots/a.PNG"), Ok("shots/a.PNG".to_string()));
    assert_eq!(normalize_output_path("a/b/c."), Ok("a/b/c.png".to_string()));
    assert_eq!(normalize_output_path("/tmp/shot"), Ok("/tmp/shot.png".to_string()));
    let saved = normalize_output_path("out.d/x").unwrap();
    assert_eq!(normalize_output_path(&saved), Ok(saved.clone()));
}

#[test]
fn screens_picked() {
    assert_eq!(pick_screen(&vec![]), None);
    assert_eq!(pick_screen(&vec![false, true, true]), Some(1));
    assert_eq!(pick_screen(&vec![false, false]), Some(0));
    assert_eq!(pick_screen(&vec![true]), Some(0));
}
