use intern_local::input::{map_key, windows_only, Direction, Input, InputEvent, InputPlan, KeyName};

fn keys(plan: &InputPlan) -> Vec<(KeyName, Direction, bool)> {
    plan.steps
        .iter()
        .map(|s| match &s.event {
            InputEvent::Key { key, direction } => (*key, *direction, s.must_succeed),
            other => panic!("not a key event: {other:?}"),
        })
        .collect()
}

#[test]
fn hotkey_presses_clicks_then_releases_in_reverse() {
    let plan = Input::new().hotkey("CTRL+SHIFT+S");
    assert_eq!(plan.feature, "hotkey");
    assert_eq!(plan.outcome, Ok("hotkey(CTRL+SHIFT+S)".to_string()));
    assert_eq!(
        keys(&plan),
        vec![
            (KeyName::Control, Direction::Press, true),
            (KeyName::Shift, Direction::Press, true),
            (KeyName::Unicode('S'), Direction::Click, true),
            (KeyName::Shift, Direction::Release, false),
            (KeyName::Control, Direction::Release, false),
        ]
    );
}

#[test]
fn hotkey_parts_are_trimmed_and_any_case() {
    let plan = Input::new().hotkey(" control + alt +  win+super + delete ");
    assert_eq!(
        keys(&plan),
        vec![
            (KeyName::Control, Direction::Press, true),
            (KeyName::Alt, Direction::Press, true),
            (KeyName::Meta, Direction::Press, true),
            (KeyName::Meta, Direction::Press, true),
            (KeyName::Delete, Direction::Click, true),
            (KeyName::Meta, Direction::Release, false),
            (KeyName::Meta, Direction::Release, false),
            (KeyName::Alt, Direction::Release, false),
            (KeyName::Control, Direction::Release, false),
        ]
    );
}

#[test]
fn hotkey_empty_parts_are_dropped() {
    let plan = Input::new().hotkey("CTRL++s+");
    assert_eq!(
        keys(&plan),
        vec![
            (KeyName::Control, Direction::Press, true),
            (KeyName::Unicode('S'), Direction::Click, true),
            (KeyName::Control, Direction::Release, false),
        ]
    );
    let single = Input::new().hotkey("tab");
    assert_eq!(keys(&single), vec![(KeyName::Tab, Direction::Click, true)]);
}

#[test]
fn hotkey_without_parts_is_refused() {
    let plan = Input::new().hotkey("+ +");
    assert!(plan.steps.is_empty());
    assert_eq!(
        plan.outcome,
        Err("hotkey requires a combo; use: hotkey: CTRL+S".to_string())
    );
}

#[test]
fn hotkey_stops_at_an_unknown_modifier() {
    // The modifiers before the unknown one stay pressed, as the device code leaves them.
    let plan = Input::new().hotkey("CTRL+Hyper+S");
    assert_eq!(keys(&plan), vec![(KeyName::Control, Direction::Press, true)]);
    assert_eq!(plan.outcome, Err("unsupported modifier: Hyper".to_string()));
}

#[test]
fn key_names() {
    assert_eq!(map_key("enter"), KeyName::Return);
    assert_eq!(map_key("Tab"), KeyName::Tab);
    assert_eq!(map_key("esc"), KeyName::Escape);
    assert_eq!(map_key("ESCAPE"), KeyName::Escape);
    assert_eq!(map_key("space"), KeyName::Space);
    assert_eq!(map_key("backspace"), KeyName::Backspace);
    assert_eq!(map_key("Delete"), KeyName::Delete);
    assert_eq!(map_key("up"), KeyName::UpArrow);
    assert_eq!(map_key("DOWN"), KeyName::DownArrow);
    assert_eq!(map_key("left"), KeyName::LeftArrow);
    assert_eq!(map_key("Right"), KeyName::RightArrow);
    assert_eq!(map_key("a"), KeyName::Unicode('A'));
    assert_eq!(map_key("zebra"), KeyName::Unicode('Z'));
    assert_eq!(map_key("é"), KeyName::Unicode('é'));
    assert_eq!(map_key(""), KeyName::Unicode(' '));
}

#[test]
fn pointer_plans() {
    let mut input = Input::new();
    let plan = input.click(-3, 40);
    assert_eq!(plan.feature, "click");
    assert_eq!(plan.outcome, Ok("click(-3, 40)".to_string()));
    assert_eq!(plan.steps.len(), 2);
    assert!(matches!(plan.steps[0].event, InputEvent::MoveMouse { x: -3, y: 40 }));
    assert!(matches!(plan.steps[1].event, InputEvent::LeftButton { direction: Direction::Click }));
    assert!(plan.steps.iter().all(|s| s.must_succeed));

    let plan = input.double_click(1, 2);
    assert_eq!(plan.outcome, Ok("doubleclick(1, 2)".to_string()));
    assert_eq!(plan.steps.len(), 3);

    let plan = input.move_mouse(i32::MIN, 0);
    assert_eq!(plan.feature, "mouse_move_to");
    assert_eq!(plan.outcome, Ok("mouse_move_to(-2147483648, 0)".to_string()));

    let plan = input.mouse_down(5, 6);
    assert_eq!(plan.outcome, Ok("mousedown(5, 6)".to_string()));
    assert!(matches!(plan.steps[1].event, InputEvent::LeftButton { direction: Direction::Press }));

    let plan = input.mouse_up(5, 6);
    assert_eq!(plan.outcome, Ok("mouseup(5, 6)".to_string()));
    assert!(matches!(plan.steps[1].event, InputEvent::LeftButton { direction: Direction::Release }));

    let plan = input.drag(1, 2, 30, 40);
    assert_eq!(plan.outcome, Ok("drag(1, 2, 30, 40)".to_string()));
    assert!(matches!(plan.steps[0].event, InputEvent::MoveMouse { x: 1, y: 2 }));
    assert!(matches!(plan.steps[1].event, InputEvent::LeftButton { direction: Direction::Press }));
    assert!(matches!(plan.steps[2].event, InputEvent::MoveMouse { x: 30, y: 40 }));
    assert!(matches!(plan.steps[3].event, InputEvent::LeftButton { direction: Direction::Release }));

    let plan = input.scroll(-120);
    assert_eq!(plan.outcome, Ok("scroll(-120)".to_string()));
    assert!(matches!(plan.steps[0].event, InputEvent::ScrollVertical { delta: -120 }));
}

#[test]
fn keyboard_plans() {
    let mut input = Input::new();
    let plan = input.type_text("hi there");
    assert_eq!(plan.outcome, Ok("type_text(hi there)".to_string()));
    match &plan.steps[0].event {
        InputEvent::Text { text } => assert_eq!(text, "hi there"),
        other => panic!("{other:?}"),
    }
    let plan = input.key_press("enter");
    assert_eq!(plan.outcome, Ok("key_press(enter)".to_string()));
    assert_eq!(keys(&plan), vec![(KeyName::Return, Direction::Click, true)]);
}

#[test]
fn dispatch_and_platform_messages() {
    assert_eq!(Input::new().dispatch("open mail"), "dispatched: open mail");
    assert_eq!(windows_only("click"), "click is only supported on Windows");
    assert_eq!(
        windows_only("capture_to_file"),
        "capture_to_file is only supported on Windows"
    );
}
