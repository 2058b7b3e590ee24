use intern_local::input::{plan_after, plan_start, Input, InputPlan, PlanAction};

/// Carries `plan` out with the device results `results`, step by step, and returns the
/// result and the indices of the steps sent.
fn drive(plan: &InputPlan, results: &[Result<(), String>]) -> (Result<String, String>, Vec<usize>) {
    let mut sent = Vec::new();
    let mut action = plan_start(plan);
    loop {
        match action {
            PlanAction::Perform { index } => {
                sent.push(index);
                action = plan_after(plan, index, results[index].clone());
            }
            PlanAction::Finish { result } => return (result, sent),
        }
    }
}

#[test]
fn click_succeeds_with_both_events() {
    let plan = Input::new().click(10, 20);
    let (r, sent) = drive(&plan, &[Ok(()), Ok(())]);
    assert_eq!(r, Ok("click(10, 20)".to_string()));
    assert_eq!(sent, vec![0, 1]);
}

#[test]
fn click_stops_at_a_failed_move() {
    let plan = Input::new().click(10, 20);
    let (r, sent) = drive(&plan, &[Err("no pointer".to_string()), Ok(())]);
    assert_eq!(r, Err("no pointer".to_string()));
    assert_eq!(sent, vec![0]);
}

#[test]
fn click_reports_a_failed_button() {
    let plan = Input::new().click(1, 2);
    let (r, sent) = drive(&plan, &[Ok(()), Err("button stuck".to_string())]);
    assert_eq!(r, Err("button stuck".to_string()));
    assert_eq!(sent, vec![0, 1]);
}

#[test]
fn hotkey_ignores_failed_releases() {
    let plan = Input::new().hotkey("CTRL+S");
    let results = [Ok(()), Ok(()), Err("release failed".to_string())];
    let (r, sent) = drive(&plan, &results);
    assert_eq!(r, Ok("hotkey(CTRL+S)".to_string()));
    assert_eq!(sent, vec![0, 1, 2]);
}

#[test]
fn plan_after_steps() {
    let plan = Input::new().click(3, 4);
    assert!(matches!(plan_start(&plan), PlanAction::Perform { index: 0 }));
    assert!(matches!(plan_after(&plan, 0, Ok(())), PlanAction::Perform { index: 1 }));
    match plan_after(&plan, 1, Ok(())) {
        PlanAction::Finish { result } => assert_eq!(result, Ok("click(3, 4)".to_string())),
        other => panic!("unexpected {other:?}"),
    }
}

#[test]
fn plan_without_steps_finishes_at_once() {
    let plan = InputPlan { feature: "none".to_string(), steps: Vec::new(), outcome: Err("refused".to_string()) };
    match plan_start(&plan) {
        PlanAction::Finish { result } => assert_eq!(result, Err("refused".to_string())),
        other => panic!("unexpected {other:?}"),
    }
}
