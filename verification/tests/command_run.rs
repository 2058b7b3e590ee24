use intern_local::body::{capture_completion, detail_completion, LocalBody, Step};
use intern_local::command::{CommandItem, CommandResult};
use intern_local::input::{plan_after, plan_start, PlanAction};
use intern_local::screen::ScreenCaptureResult;

fn cmd(instruction: &str) -> CommandItem {
    CommandItem { index: 7, instruction: instruction.to_string(), tag: "t".to_string() }
}

/// Runs `c` as the device driver does, with `results` for the plan's events and `capture`
/// for a screenshot.
fn run(c: &CommandItem, results: &[Result<(), String>], capture: Result<ScreenCaptureResult, String>) -> CommandResult {
    let mut body = LocalBody::new();
    let outcome = match body.execute(c) {
        Step::Done { outcome } => detail_completion(outcome),
        Step::Input { plan } => {
            let mut action = plan_start(&plan);
            let result = loop {
                match action {
                    PlanAction::Perform { index } => {
                        action = plan_after(&plan, index, results[index].clone());
                    }
                    PlanAction::Finish { result } => break result,
                }
            };
            detail_completion(result)
        }
        Step::Wait { detail, .. } => detail_completion(Ok(detail)),
        Step::Screenshot { .. } => capture_completion(capture),
    };
    body.complete(c, outcome)
}

fn shot() -> ScreenCaptureResult {
    ScreenCaptureResult {
        detail: "screenshot_saved: a.png".to_string(),
        screenshot_path: Some("a.png".to_string()),
        screenshot_data_url: Some("data:image/png;base64,".to_string()),
    }
}

#[test]
fn click_command_reports_its_plan() {
    let r = run(&cmd("click 5 6"), &[Ok(()), Ok(())], Ok(shot()));
    assert_eq!(r.status, "ok");
    assert_eq!(r.detail, "click(5, 6)");
    assert_eq!(r.screenshot_path, None);
    assert_eq!(r.screenshot_data_url, None);
    assert_eq!(r.index, 7);
}

#[test]
fn click_command_reports_a_device_error() {
    let r = run(&cmd("mousedown 1 2"), &[Err("no pointer".to_string()), Ok(())], Ok(shot()));
    assert_eq!(r.status, "error");
    assert_eq!(r.detail, "no pointer");
    assert_eq!(r.screenshot_path, None);
}

#[test]
fn screenshot_command_reports_the_capture() {
    let r = run(&cmd("screenshot a.png"), &[], Ok(shot()));
    assert_eq!(r.status, "ok");
    assert_eq!(r.detail, "screenshot_saved: a.png");
    assert_eq!(r.screenshot_path.as_deref(), Some("a.png"));
    assert_eq!(r.screenshot_data_url.as_deref(), Some("data:image/png;base64,"));
    let e = run(&cmd("screenshot a.png"), &[], Err("no screens found".to_string()));
    assert_eq!(e.status, "error");
    assert_eq!(e.detail, "no screens found");
    assert_eq!(e.screenshot_path, None);
    assert_eq!(e.screenshot_data_url, None);
}

#[test]
fn wait_command_reports_its_detail() {
    let r = run(&cmd("wait 5"), &[], Ok(shot()));
    assert_eq!(r.status, "ok");
    assert_eq!(r.detail, "wait(5)");
    assert_eq!(r.screenshot_path, None);
}
