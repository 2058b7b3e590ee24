use intern_local::body::{Completion, LocalBody, Step};
use intern_local::command::CommandItem;
use intern_local::screen::ScreenCaptureResult;

fn cmd(index: u32, instruction: &str, tag: &str) -> CommandItem {
    CommandItem { index, instruction: instruction.to_string(), tag: tag.to_string() }
}

#[test]
fn parse_errors_are_done_at_once() {
    let mut body = LocalBody::new();
    let c = cmd(4, "click x y", "t");
    match body.execute(&c) {
        Step::Done { outcome } => {
            assert_eq!(outcome, Err("invalid click format; use: click <x> <y>".to_string()))
        }
        other => panic!("{other:?}"),
    }
}

#[test]
fn noop_and_dispatch_are_done_at_once() {
    let mut body = LocalBody::new();
    match body.execute(&cmd(1, "NOOP", "t")) {
        Step::Done { outcome } => assert_eq!(outcome, Ok("noop".to_string())),
        other => panic!("{other:?}"),
    }
    match body.execute(&cmd(1, "  say hi ", "t")) {
        Step::Done { outcome } => assert_eq!(outcome, Ok("dispatched: say hi".to_string())),
        other => panic!("{other:?}"),
    }
}

#[test]
fn device_instructions_become_plans() {
    let mut body = LocalBody::new();
    match body.execute(&cmd(1, "click 10 20", "t")) {
        Step::Input { plan } => {
            assert_eq!(plan.feature, "click");
            assert_eq!(plan.outcome, Ok("click(10, 20)".to_string()));
        }
        other => panic!("{other:?}"),
    }
    match body.execute(&cmd(1, "hotkey: alt+f4", "t")) {
        Step::Input { plan } => assert_eq!(plan.outcome, Ok("hotkey(alt+f4)".to_string())),
        other => panic!("{other:?}"),
    }
    match body.execute(&cmd(1, "type: abc", "t")) {
        Step::Input { plan } => assert_eq!(plan.outcome, Ok("type_text(abc)".to_string())),
        other => panic!("{other:?}"),
    }
}

#[test]
fn wait_and_screenshot_steps() {
    let mut body = LocalBody::new();
    match body.execute(&cmd(1, "wait 250", "t")) {
        Step::Wait { ms, detail } => {
            assert_eq!(ms, 250);
            assert_eq!(detail, "wait(250)");
        }
        other => panic!("{other:?}"),
    }
    match body.execute(&cmd(1, "screenshot  a/b ", "t")) {
        Step::Screenshot { path } => assert_eq!(path, "a/b"),
        other => panic!("{other:?}"),
    }
}

#[test]
fn results_name_their_command() {
    let body = LocalBody::new();
    let c = cmd(7, " click 1 2 ", "grp");
    let ok = body.complete(&c, Ok(Completion::Detail { detail: "click(1, 2)".to_string() }));
    assert_eq!(ok.index, 7);
    assert_eq!(ok.tag, "grp");
    assert_eq!(ok.instruction, " click 1 2 ");
    assert_eq!(ok.status, "ok");
    assert_eq!(ok.detail, "click(1, 2)");
    assert_eq!(ok.screenshot_path, None);
    assert_eq!(ok.screenshot_data_url, None);

    let bad = body.complete(&c, Err("click is only supported on Windows".to_string()));
    assert_eq!(bad.index, 7);
    assert_eq!(bad.tag, "grp");
    assert_eq!(bad.status, "error");
    assert_eq!(bad.detail, "click is only supported on Windows");
    assert_eq!(bad.screenshot_path, None);
}

#[test]
fn screenshot_results_carry_the_capture() {
    let body = LocalBody::new();
    let c = cmd(2, "screenshot x", "s");
    let capture = ScreenCaptureResult {
        detail: "screenshot_saved: x.png".to_string(),
        screenshot_path: Some("x.png".to_string()),
        screenshot_data_url: Some("data:image/png;base64,".to_string()),
    };
    let r = body.complete(&c, Ok(Completion::Capture { capture }));
    assert_eq!(r.status, "ok");
    assert_eq!(r.detail, "screenshot_saved: x.png");
    assert_eq!(r.screenshot_path.as_deref(), Some("x.png"));
    assert_eq!(r.screenshot_data_url.as_deref(), Some("data:image/png;base64,"));
}
