//! Keyboard and mouse input: what each input instruction does, as a plan of device events.
//!
//! A plan is carried out in order by whatever drives the devices. A step marked
//! `must_succeed` ends the plan with the device's error when it fails; a step that is not
//! marked has its failure ignored. When every marked step succeeds, the plan's `outcome`
//! is the instruction's result.
use vstd::prelude::*;
use crate::text::{chars_of, dec_int, push_i32, trim, trim_bounds, upper, upper_eq_at};

verus! {

broadcast use vstd::string::group_string_axioms;

/// A key, by the name the instruction text gives it.
#[derive(Debug, Clone, Copy, PartialEq, Eq, Structural)]
pub enum KeyName {
    Return,
    Tab,
    Escape,
    Space,
    Backspace,
    Delete,
    UpArrow,
    DownArrow,
    LeftArrow,
    RightArrow,
    Control,
    Shift,
    Alt,
    Meta,
    /// The key that types this character.
    Unicode(char),
}

/// Whether a key or button goes down, comes up, or both.
#[derive(Debug, Clone, Copy, PartialEq, Eq, Structural)]
pub enum Direction {
    Press,
    Release,
    Click,
}

/// One event sent to the keyboard or mouse.
#[derive(Debug)]
pub enum InputEvent {
    /// Move the pointer to absolute screen coordinates.
    MoveMouse { x: i32, y: i32 },
    /// The left mouse button.
    LeftButton { direction: Direction },
    Key { key: KeyName, direction: Direction },
    /// Type the characters of `text`.
    Text { text: String },
    /// Scroll vertically (positive down, negative up).
    ScrollVertical { delta: i32 },
}

#[derive(Debug)]
pub struct InputStep {
    pub event: InputEvent,
    /// A failure of this event ends the plan with the device's error.
    pub must_succeed: bool,
}

/// The device events of one input instruction and its result.
#[derive(Debug)]
pub struct InputPlan {
    /// The name under which the instruction is reported where input is not supported.
    pub feature: String,
    pub steps: Vec<InputStep>,
    /// The result once every `must_succeed` step has succeeded.
    pub outcome: Result<String, String>,
}

pub enum InputEventView {
    MoveMouse { x: i32, y: i32 },
    LeftButton { direction: Direction },
    Key { key: KeyName, direction: Direction },
    Text { text: Seq<char> },
    ScrollVertical { delta: i32 },
}

pub struct InputStepView {
    pub event: InputEventView,
    pub must_succeed: bool,
}

pub struct InputPlanView {
    pub feature: Seq<char>,
    pub steps: Seq<InputStepView>,
    pub outcome: Result<Seq<char>, Seq<char>>,
}

impl View for InputEvent {
    type V = InputEventView;

    open spec fn view(&self) -> InputEventView {
        match self {
            InputEvent::MoveMouse { x, y } => InputEventView::MoveMouse { x: *x, y: *y },
            InputEvent::LeftButton { direction } => InputEventView::LeftButton {
                direction: *direction,
            },
            InputEvent::Key { key, direction } => InputEventView::Key {
                key: *key,
                direction: *direction,
            },
            InputEvent::Text { text } => InputEventView::Text { text: text@ },
            InputEvent::ScrollVertical { delta } => InputEventView::ScrollVertical {
                delta: *delta,
            },
        }
    }
}

impl View for InputStep {
    type V = InputStepView;

    open spec fn view(&self) -> InputStepView {
        InputStepView { event: self.event@, must_succeed: self.must_succeed }
    }
}

/// The view of a `Result` of strings.
pub open spec fn result_view(r: Result<String, String>) -> Result<Seq<char>, Seq<char>> {
    match r {
        Ok(s) => Ok(s@),
        Err(e) => Err(e@),
    }
}

impl View for InputPlan {
    type V = InputPlanView;

    open spec fn view(&self) -> InputPlanView {
        InputPlanView {
            feature: self.feature@,
            steps: self.steps@.map_values(|s: InputStep| s@),
            outcome: result_view(self.outcome),
        }
    }
}

pub open spec fn strict(e: InputEventView) -> InputStepView {
    InputStepView { event: e, must_succeed: true }
}

pub open spec fn lenient(e: InputEventView) -> InputStepView {
    InputStepView { event: e, must_succeed: false }
}

pub open spec fn left(d: Direction) -> InputEventView {
    InputEventView::LeftButton { direction: d }
}

pub open spec fn key_event(k: KeyName, d: Direction) -> InputEventView {
    InputEventView::Key { key: k, direction: d }
}

/// `name(x, y)`
pub open spec fn point_detail(name: Seq<char>, x: i32, y: i32) -> Seq<char> {
    name + "("@ + dec_int(x as int) + ", "@ + dec_int(y as int) + ")"@
}

/// `name(text)`
pub open spec fn text_detail(name: Seq<char>, text: Seq<char>) -> Seq<char> {
    name + "("@ + text + ")"@
}

/// The key that a name stands for: a few names of special keys (any ASCII case), and
/// otherwise the first character of the name in ASCII upper case (a space for no name).
pub open spec fn spec_map_key(name: Seq<char>) -> KeyName {
    let u = upper(name);
    if u == "ENTER"@ {
        KeyName::Return
    } else if u == "TAB"@ {
        KeyName::Tab
    } else if u == "ESC"@ || u == "ESCAPE"@ {
        KeyName::Escape
    } else if u == "SPACE"@ {
        KeyName::Space
    } else if u == "BACKSPACE"@ {
        KeyName::Backspace
    } else if u == "DELETE"@ {
        KeyName::Delete
    } else if u == "UP"@ {
        KeyName::UpArrow
    } else if u == "DOWN"@ {
        KeyName::DownArrow
    } else if u == "LEFT"@ {
        KeyName::LeftArrow
    } else if u == "RIGHT"@ {
        KeyName::RightArrow
    } else if u.len() > 0 {
        KeyName::Unicode(u[0])
    } else {
        KeyName::Unicode(' ')
    }
}

/// The modifier key that a hotkey part names (any ASCII case), if it names one.
pub open spec fn spec_modifier(part: Seq<char>) -> Option<KeyName> {
    let u = upper(part);
    if u == "CTRL"@ || u == "CONTROL"@ {
        Some(KeyName::Control)
    } else if u == "SHIFT"@ {
        Some(KeyName::Shift)
    } else if u == "ALT"@ {
        Some(KeyName::Alt)
    } else if u == "WIN"@ || u == "META"@ || u == "SUPER"@ {
        Some(KeyName::Meta)
    } else {
        None
    }
}

/// Key and modifier names are read in any ASCII case.
pub proof fn lemma_key_names_ignore_case(a: Seq<char>, b: Seq<char>)
    requires
        upper(a) == upper(b),
    ensures
        spec_map_key(a) == spec_map_key(b),
        spec_modifier(a) == spec_modifier(b),
{
}

/// `str::split('+')`: the pieces of `s` between plus signs (one piece when there is none).
pub open spec fn split_plus(s: Seq<char>) -> Seq<Seq<char>>
    decreases s.len(),
{
    if s.len() == 0 {
        seq![Seq::empty()]
    } else {
        let init = split_plus(s.drop_last());
        if s.last() == '+' {
            init.push(Seq::empty())
        } else {
            init.update(init.len() - 1, init.last().push(s.last()))
        }
    }
}

/// The trimmed pieces that are not empty, in order.
pub open spec fn keep_nonempty(ps: Seq<Seq<char>>) -> Seq<Seq<char>>
    decreases ps.len(),
{
    if ps.len() == 0 {
        Seq::empty()
    } else {
        let init = keep_nonempty(ps.drop_last());
        if trim(ps.last()).len() > 0 {
            init.push(trim(ps.last()))
        } else {
            init
        }
    }
}

/// The parts of a key combination: split at `+`, trimmed, empty parts dropped.
pub open spec fn hotkey_parts(combo: Seq<char>) -> Seq<Seq<char>> {
    keep_nonempty(split_plus(combo))
}

/// How many of `mods`, from the first on, name modifier keys.
pub open spec fn known_prefix(mods: Seq<Seq<char>>) -> nat
    decreases mods.len(),
{
    if mods.len() > 0 && spec_modifier(mods[0]) is Some {
        1 + known_prefix(mods.drop_first())
    } else {
        0
    }
}

/// The modifier keys named by the first `k` parts.
pub open spec fn modifier_keys(mods: Seq<Seq<char>>, k: nat) -> Seq<KeyName> {
    Seq::new(k, |j: int| spec_modifier(mods[j])->0)
}

/// Press each key, in order; each press must succeed.
pub open spec fn press_steps(keys: Seq<KeyName>) -> Seq<InputStepView> {
    keys.map_values(|k: KeyName| strict(key_event(k, Direction::Press)))
}

/// Release each key, last pressed first; failures are ignored.
pub open spec fn release_steps(keys: Seq<KeyName>) -> Seq<InputStepView> {
    keys.reverse().map_values(|k: KeyName| lenient(key_event(k, Direction::Release)))
}

/// The plan of `hotkey: <combo>`: the parts before the last are modifiers, pressed in order;
/// the last part is the key, clicked; then the modifiers are released in reverse order.
/// At the first part that names no modifier, the plan stops with an error, after the presses
/// of the parts before it.
pub open spec fn hotkey_plan(combo: Seq<char>) -> InputPlanView {
    let parts = hotkey_parts(combo);
    let feature = "hotkey"@;
    if parts.len() == 0 {
        InputPlanView {
            feature,
            steps: Seq::empty(),
            outcome: Err("hotkey requires a combo; use: hotkey: CTRL+S"@),
        }
    } else {
        let mods = parts.drop_last();
        let k = known_prefix(mods);
        if k < mods.len() {
            InputPlanView {
                feature,
                steps: press_steps(modifier_keys(mods, k)),
                outcome: Err("unsupported modifier: "@ + mods[k as int]),
            }
        } else {
            let keys = modifier_keys(mods, k);
            InputPlanView {
                feature,
                steps: press_steps(keys).push(
                    strict(key_event(spec_map_key(parts.last()), Direction::Click)),
                ) + release_steps(keys),
                outcome: Ok(text_detail(feature, combo)),
            }
        }
    }
}

proof fn lemma_known_prefix_bound(mods: Seq<Seq<char>>)
    ensures
        known_prefix(mods) <= mods.len(),
        forall|j: int| 0 <= j < known_prefix(mods) ==> spec_modifier(#[trigger] mods[j]) is Some,
    decreases mods.len(),
{
    if mods.len() > 0 && spec_modifier(mods[0]) is Some {
        lemma_known_prefix_bound(mods.drop_first());
        assert forall|j: int| 0 <= j < known_prefix(mods) implies spec_modifier(
            #[trigger] mods[j],
        ) is Some by {
            if j > 0 {
                assert(mods[j] == mods.drop_first()[j - 1]);
            }
        }
    }
}

/// Every modifier that a hotkey presses is released, in reverse order, after the key.
pub proof fn lemma_hotkey_releases_what_it_presses(combo: Seq<char>)
    requires
        hotkey_plan(combo).outcome is Ok,
    ensures
        ({
            let plan = hotkey_plan(combo);
            let n = (hotkey_parts(combo).len() - 1) as int;
            &&& plan.steps.len() == 2 * n + 1
            &&& forall|j: int|
                0 <= j < n ==> {
                    &&& (#[trigger] plan.steps[j]).event == key_event(
                        plan.steps[j].event->key,
                        Direction::Press,
                    )
                    &&& plan.steps[2 * n - j].event == key_event(
                        plan.steps[j].event->key,
                        Direction::Release,
                    )
                }
            &&& plan.steps[n].event == key_event(plan.steps[n].event->key, Direction::Click)
        }),
{
    let parts = hotkey_parts(combo);
    let mods = parts.drop_last();
    let keys = modifier_keys(mods, known_prefix(mods));
    let plan = hotkey_plan(combo);
    let n = mods.len() as int;
    lemma_known_prefix_bound(mods);
    assert(keys.len() == n);
    let head = press_steps(keys).push(strict(key_event(spec_map_key(parts.last()), Direction::Click)));
    assert(plan.steps == head + release_steps(keys));
    assert(head.len() == n + 1);
    assert forall|j: int| 0 <= j < n implies {
        &&& (#[trigger] plan.steps[j]).event == key_event(
            plan.steps[j].event->key,
            Direction::Press,
        )
        &&& plan.steps[2 * n - j].event == key_event(plan.steps[j].event->key, Direction::Release)
    } by {
        assert(plan.steps[j] == press_steps(keys)[j]);
        assert(plan.steps[2 * n - j] == release_steps(keys)[n - 1 - j]);
        assert(keys.reverse()[n - 1 - j] == keys[j]);
    }
    assert(plan.steps[n] == strict(key_event(spec_map_key(parts.last()), Direction::Click)));
}

/// The plan of `move <x> <y>`: move the pointer to `(x, y)`.
pub open spec fn move_plan(x: i32, y: i32) -> InputPlanView {
    InputPlanView {
        feature: "mouse_move_to"@,
        steps: seq![strict(InputEventView::MoveMouse { x, y })],
        outcome: Ok(point_detail("mouse_move_to"@, x, y)),
    }
}

/// The plan of `click <x> <y>`: move the pointer to `(x, y)` and click the left button.
pub open spec fn click_plan(x: i32, y: i32) -> InputPlanView {
    InputPlanView {
        feature: "click"@,
        steps: seq![
            strict(InputEventView::MoveMouse { x, y }),
            strict(left(Direction::Click)),
        ],
        outcome: Ok(point_detail("click"@, x, y)),
    }
}

/// The plan of `doubleclick <x> <y>`: move the pointer to `(x, y)` and click the left button twice.
pub open spec fn double_click_plan(x: i32, y: i32) -> InputPlanView {
    InputPlanView {
        feature: "doubleclick"@,
        steps: seq![
            strict(InputEventView::MoveMouse { x, y }),
            strict(left(Direction::Click)),
            strict(left(Direction::Click)),
        ],
        outcome: Ok(point_detail("doubleclick"@, x, y)),
    }
}

/// The plan of `mousedown <x> <y>`: move the pointer to `(x, y)` and press the left button.
pub open spec fn mouse_down_plan(x: i32, y: i32) -> InputPlanView {
    InputPlanView {
        feature: "mousedown"@,
        steps: seq![
            strict(InputEventView::MoveMouse { x, y }),
            strict(left(Direction::Press)),
        ],
        outcome: Ok(point_detail("mousedown"@, x, y)),
    }
}

/// The plan of `mouseup <x> <y>`: move the pointer to `(x, y)` and release the left button.
pub open spec fn mouse_up_plan(x: i32, y: i32) -> InputPlanView {
    InputPlanView {
        feature: "mouseup"@,
        steps: seq![
            strict(InputEventView::MoveMouse { x, y }),
            strict(left(Direction::Release)),
        ],
        outcome: Ok(point_detail("mouseup"@, x, y)),
    }
}

/// The plan of `drag <x1> <y1> <x2> <y2>`: press the left button at `(x1, y1)`, move to
/// `(x2, y2)` and release it there.
pub open spec fn drag_plan(x1: i32, y1: i32, x2: i32, y2: i32) -> InputPlanView {
    InputPlanView {
        feature: "drag"@,
        steps: seq![
            strict(InputEventView::MoveMouse { x: x1, y: y1 }),
            strict(left(Direction::Press)),
            strict(InputEventView::MoveMouse { x: x2, y: y2 }),
            strict(left(Direction::Release)),
        ],
        outcome: Ok(
            "drag("@ + dec_int(x1 as int) + ", "@ + dec_int(y1 as int) + ", "@ + dec_int(
                x2 as int,
            ) + ", "@ + dec_int(y2 as int) + ")"@,
        ),
    }
}

/// The plan of `scroll <delta>`: scroll vertically by `delta`.
pub open spec fn scroll_plan(delta: i32) -> InputPlanView {
    InputPlanView {
        feature: "scroll"@,
        steps: seq![strict(InputEventView::ScrollVertical { delta })],
        outcome: Ok("scroll("@ + dec_int(delta as int) + ")"@),
    }
}

/// The plan of `type: <text>`: type `text`.
pub open spec fn type_text_plan(text: Seq<char>) -> InputPlanView {
    InputPlanView {
        feature: "type_text"@,
        steps: seq![strict(InputEventView::Text { text: text })],
        outcome: Ok(text_detail("type_text"@, text)),
    }
}

/// The plan of `key: <NAME>`: click the key that `key_name` names.
pub open spec fn key_press_plan(key_name: Seq<char>) -> InputPlanView {
    InputPlanView {
        feature: "key_press"@,
        steps: seq![strict(key_event(spec_map_key(key_name), Direction::Click))],
        outcome: Ok(text_detail("key_press"@, key_name)),
    }
}

/// Where the pointer is just before step `k` of `steps`: the point of the last move before
/// it, `None` when no step before it moves the pointer.
pub open spec fn pointer_before(steps: Seq<InputStepView>, k: int) -> Option<(i32, i32)>
    decreases k,
{
    if k <= 0 {
        None
    } else {
        match steps[k - 1].event {
            InputEventView::MoveMouse { x, y } => Some((x, y)),
            _ => pointer_before(steps, k - 1),
        }
    }
}

/// What `pick` takes from each of the first `k` events of `steps`, in order.
pub open spec fn picked<T>(
    steps: Seq<InputStepView>,
    k: int,
    pick: spec_fn(InputEventView) -> Option<T>,
) -> Seq<T>
    decreases k,
{
    if k <= 0 {
        Seq::empty()
    } else {
        picked(steps, k - 1, pick) + match pick(steps[k - 1].event) {
            Some(v) => seq![v],
            None => Seq::empty(),
        }
    }
}

/// The left-button events of `steps`, in order.
pub open spec fn button_events(steps: Seq<InputStepView>) -> Seq<Direction> {
    picked(
        steps,
        steps.len() as int,
        |e: InputEventView|
            match e {
                InputEventView::LeftButton { direction } => Some(direction),
                _ => None,
            },
    )
}

/// The points the pointer is moved to by `steps`, in order.
pub open spec fn pointer_moves(steps: Seq<InputStepView>) -> Seq<(i32, i32)> {
    picked(
        steps,
        steps.len() as int,
        |e: InputEventView|
            match e {
                InputEventView::MoveMouse { x, y } => Some((x, y)),
                _ => None,
            },
    )
}

/// The key events of `steps`, in order.
pub open spec fn key_events(steps: Seq<InputStepView>) -> Seq<(KeyName, Direction)> {
    picked(
        steps,
        steps.len() as int,
        |e: InputEventView|
            match e {
                InputEventView::Key { key, direction } => Some((key, direction)),
                _ => None,
            },
    )
}

/// The texts typed by `steps`, in order.
pub open spec fn typed_texts(steps: Seq<InputStepView>) -> Seq<Seq<char>> {
    picked(
        steps,
        steps.len() as int,
        |e: InputEventView|
            match e {
                InputEventView::Text { text } => Some(text),
                _ => None,
            },
    )
}

/// The vertical scrolls of `steps` (positive down, negative up), in order.
pub open spec fn scroll_deltas(steps: Seq<InputStepView>) -> Seq<i32> {
    picked(
        steps,
        steps.len() as int,
        |e: InputEventView|
            match e {
                InputEventView::ScrollVertical { delta } => Some(delta),
                _ => None,
            },
    )
}

/// Every left-button event of `steps` happens with the pointer at `(x, y)`.
pub open spec fn buttons_at(steps: Seq<InputStepView>, x: i32, y: i32) -> bool {
    forall|k: int|
        0 <= k < steps.len() && (#[trigger] steps[k]).event is LeftButton ==> pointer_before(
            steps,
            k,
        ) == Some((x, y))
}

/// A double click at `(x, y)` moves the pointer there once and then clicks the left button
/// twice, there, and nothing else: its left-button events are exactly two clicks (those of
/// two single clicks), never a press or release; each event must succeed; its plan is a
/// click's plan with one more click; it reports `doubleclick(x, y)`.
pub proof fn lemma_double_click_clicks_twice(x: i32, y: i32)
    ensures
        button_events(double_click_plan(x, y).steps) == seq![Direction::Click, Direction::Click],
        button_events(double_click_plan(x, y).steps) == button_events(click_plan(x, y).steps)
            + button_events(click_plan(x, y).steps),
        buttons_at(double_click_plan(x, y).steps, x, y),
        pointer_moves(double_click_plan(x, y).steps) == seq![(x, y)],
        key_events(double_click_plan(x, y).steps).len() == 0,
        typed_texts(double_click_plan(x, y).steps).len() == 0,
        scroll_deltas(double_click_plan(x, y).steps).len() == 0,
        forall|k: int|
            0 <= k < double_click_plan(x, y).steps.len() ==> (#[trigger] double_click_plan(
                x,
                y,
            ).steps[k]).must_succeed,
        double_click_plan(x, y).steps == click_plan(x, y).steps.push(strict(left(Direction::Click))),
        double_click_plan(x, y).outcome == Ok::<Seq<char>, Seq<char>>(
            point_detail("doubleclick"@, x, y),
        ),
{
    let s = double_click_plan(x, y).steps;
    let c = click_plan(x, y).steps;
    reveal_with_fuel(picked, 4);
    reveal_with_fuel(pointer_before, 4);
    assert(s =~= c.push(strict(left(Direction::Click))));
    assert(button_events(c) =~= seq![Direction::Click]);
    assert(button_events(s) =~= seq![Direction::Click, Direction::Click]);
    assert(pointer_moves(s) =~= seq![(x, y)]);
    assert(key_events(s) =~= Seq::<(KeyName, Direction)>::empty());
    assert(typed_texts(s) =~= Seq::<Seq<char>>::empty());
    assert(scroll_deltas(s) =~= Seq::<i32>::empty());
    assert forall|k: int| 0 <= k < s.len() && (#[trigger] s[k]).event is LeftButton implies pointer_before(
        s,
        k,
    ) == Some((x, y)) by {
        assert(pointer_before(s, 1) == Some((x, y)));
        assert(pointer_before(s, 2) == Some((x, y)));
    }
}

/// The string `windows_only` reports for a feature that needs Windows.
pub open spec fn windows_only_message(feature: Seq<char>) -> Seq<char> {
    feature + " is only supported on Windows"@
}

/// `<feature> is only supported on Windows`: the result of a device instruction where the
/// devices cannot be driven.
pub fn windows_only(feature: &str) -> (r: String)
    ensures
        r@ == windows_only_message(feature@),
{
    let mut r = String::from_str(feature);
    r.append(" is only supported on Windows");
    r
}

/// What the driver of the devices does next with a plan.
#[derive(Debug)]
pub enum PlanAction {
    /// Send the event of the step at `index`.
    Perform { index: usize },
    /// The plan is over, with `result` as the instruction's result.
    Finish { result: Result<String, String> },
}

pub enum PlanActionView {
    Perform { index: int },
    Finish { result: Result<Seq<char>, Seq<char>> },
}

impl View for PlanAction {
    type V = PlanActionView;

    open spec fn view(&self) -> PlanActionView {
        match self {
            PlanAction::Perform { index } => PlanActionView::Perform { index: *index as int },
            PlanAction::Finish { result } => PlanActionView::Finish { result: result_view(*result) },
        }
    }
}

/// The view of what a device event gave: nothing, or the device's error.
pub open spec fn done_view(done: Result<(), String>) -> Result<(), Seq<char>> {
    match done {
        Ok(()) => Ok(()),
        Err(e) => Err(e@),
    }
}

/// The first action of a plan: its first step, or its outcome when it has no steps.
pub open spec fn spec_plan_start(plan: InputPlanView) -> PlanActionView {
    if plan.steps.len() == 0 {
        PlanActionView::Finish { result: plan.outcome }
    } else {
        PlanActionView::Perform { index: 0 }
    }
}

/// The action after the event of step `index` gave `done`: a failed `must_succeed` step ends
/// the plan with the device's error; otherwise the next step, or the outcome after the last.
pub open spec fn spec_plan_after(
    plan: InputPlanView,
    index: int,
    done: Result<(), Seq<char>>,
) -> PlanActionView {
    match done {
        Err(e) if plan.steps[index].must_succeed => PlanActionView::Finish { result: Err(e) },
        _ => if index + 1 < plan.steps.len() {
            PlanActionView::Perform { index: index + 1 }
        } else {
            PlanActionView::Finish { result: plan.outcome }
        },
    }
}

/// The result of carrying out `plan` from step `i` on, when the event of each step `j` gives
/// `results[j]`: the error of the first failing `must_succeed` step, otherwise the outcome.
pub open spec fn spec_plan_result(
    plan: InputPlanView,
    results: Seq<Result<(), Seq<char>>>,
    i: nat,
) -> Result<Seq<char>, Seq<char>>
    decreases plan.steps.len() - i,
{
    if i >= plan.steps.len() {
        plan.outcome
    } else {
        match results[i as int] {
            Err(e) if plan.steps[i as int].must_succeed => Err(e),
            _ => spec_plan_result(plan, results, i + 1),
        }
    }
}

/// How many steps, counted from the first, are sent to the devices when the plan is carried
/// out from step `i` on with `results` (see [`spec_plan_result`]): every step up to and
/// including the first failing `must_succeed` one.
pub open spec fn spec_plan_sent(plan: InputPlanView, results: Seq<Result<(), Seq<char>>>, i: nat) -> nat
    decreases plan.steps.len() - i,
{
    if i >= plan.steps.len() {
        plan.steps.len()
    } else {
        match results[i as int] {
            Err(_) if plan.steps[i as int].must_succeed => i + 1,
            _ => spec_plan_sent(plan, results, i + 1),
        }
    }
}

fn copy_result(r: &Result<String, String>) -> (c: Result<String, String>)
    ensures
        result_view(c) == result_view(*r),
{
    match r {
        Ok(s) => Ok(s.clone()),
        Err(e) => Err(e.clone()),
    }
}

/// Starts carrying out `plan` (see [`spec_plan_start`]).
pub fn plan_start(plan: &InputPlan) -> (r: PlanAction)
    ensures
        r@ == spec_plan_start(plan@),
{
    if plan.steps.len() == 0 {
        PlanAction::Finish { result: copy_result(&plan.outcome) }
    } else {
        PlanAction::Perform { index: 0 }
    }
}

/// The next action once the event of step `index` gave `done` (see [`spec_plan_after`]).
pub fn plan_after(plan: &InputPlan, index: usize, done: Result<(), String>) -> (r: PlanAction)
    requires
        index < plan.steps@.len(),
    ensures
        r@ == spec_plan_after(plan@, index as int, done_view(done)),
        r matches PlanAction::Perform { index: next } ==> next < plan.steps@.len(),
{
    let n = plan.steps.len();
    let must = plan.steps[index].must_succeed;
    assert(plan@.steps[index as int] == plan.steps@[index as int]@);
    match done {
        Err(e) if must => PlanAction::Finish { result: Err(e) },
        _ => if index + 1 < n {
            PlanAction::Perform { index: index + 1 }
        } else {
            PlanAction::Finish { result: copy_result(&plan.outcome) }
        },
    }
}

/// After step `i` of `plan` gave `results[i]`, the next action is step `i + 1` with the same
/// eventual result and the same steps sent, or the end of the plan with the result and count
/// that [`spec_plan_result`] and [`spec_plan_sent`] give from step `i`.
pub open spec fn plan_after_keeps_run(
    plan: InputPlanView,
    results: Seq<Result<(), Seq<char>>>,
    i: nat,
) -> bool {
    match spec_plan_after(plan, i as int, results[i as int]) {
        PlanActionView::Perform { index } => {
            &&& index == i + 1
            &&& spec_plan_result(plan, results, i) == spec_plan_result(plan, results, i + 1)
            &&& spec_plan_sent(plan, results, i) == spec_plan_sent(plan, results, i + 1)
        },
        PlanActionView::Finish { result } => {
            &&& result == spec_plan_result(plan, results, i)
            &&& spec_plan_sent(plan, results, i) == i + 1
        },
    }
}

/// Carrying a plan out action by action, from [`plan_start`] through [`plan_after`], comes to
/// what the whole run is: for a plan with steps the first action is step 0, and every later
/// action keeps the run's eventual result and count of steps sent (see
/// [`plan_after_keeps_run`]).
pub proof fn lemma_plan_run(plan: InputPlanView, results: Seq<Result<(), Seq<char>>>, i: nat)
    requires
        results.len() == plan.steps.len(),
        i < plan.steps.len(),
    ensures
        spec_plan_start(plan) == (PlanActionView::Perform { index: 0 }),
        plan_after_keeps_run(plan, results, i),
{
    reveal_with_fuel(spec_plan_result, 2);
    reveal_with_fuel(spec_plan_sent, 2);
}

/// A plan with no steps comes to its outcome at once, with nothing sent.
pub proof fn lemma_empty_plan(plan: InputPlanView, results: Seq<Result<(), Seq<char>>>)
    requires
        plan.steps.len() == 0,
    ensures
        spec_plan_start(plan) == (PlanActionView::Finish { result: plan.outcome }),
        spec_plan_result(plan, results, 0) == plan.outcome,
        spec_plan_sent(plan, results, 0) == 0,
{
}

/// The device planner (the devices themselves are driven elsewhere).
pub struct Input;

fn point_text(name: &str, x: i32, y: i32) -> (r: String)
    ensures
        r@ == point_detail(name@, x, y),
{
    let mut r = String::from_str(name);
    r.append("(");
    push_i32(&mut r, x);
    r.append(", ");
    push_i32(&mut r, y);
    r.append(")");
    assert(r@ =~= point_detail(name@, x, y));
    r
}

fn text_text(name: &str, text: &str) -> (r: String)
    ensures
        r@ == text_detail(name@, text@),
{
    let mut r = String::from_str(name);
    r.append("(");
    r.append(text);
    r.append(")");
    assert(r@ =~= text_detail(name@, text@));
    r
}

fn step(event: InputEvent, must_succeed: bool) -> (r: InputStep)
    ensures
        r.event == event,
        r.must_succeed == must_succeed,
{
    InputStep { event, must_succeed }
}

/// The key that `cs[a..b]` names (see [`spec_map_key`]).
fn map_key_at(cs: &Vec<char>, a: usize, b: usize) -> (r: KeyName)
    requires
        a <= b <= cs@.len(),
    ensures
        r == spec_map_key(cs@.subrange(a as int, b as int)),
{
    proof {
        reveal_strlit("ENTER");
        reveal_strlit("ESC");
    }
    if upper_eq_at(cs, a, b, "ENTER") {
        KeyName::Return
    } else if upper_eq_at(cs, a, b, "TAB") {
        KeyName::Tab
    } else if upper_eq_at(cs, a, b, "ESC") || upper_eq_at(cs, a, b, "ESCAPE") {
        KeyName::Escape
    } else if upper_eq_at(cs, a, b, "SPACE") {
        KeyName::Space
    } else if upper_eq_at(cs, a, b, "BACKSPACE") {
        KeyName::Backspace
    } else if upper_eq_at(cs, a, b, "DELETE") {
        KeyName::Delete
    } else if upper_eq_at(cs, a, b, "UP") {
        KeyName::UpArrow
    } else if upper_eq_at(cs, a, b, "DOWN") {
        KeyName::DownArrow
    } else if upper_eq_at(cs, a, b, "LEFT") {
        KeyName::LeftArrow
    } else if upper_eq_at(cs, a, b, "RIGHT") {
        KeyName::RightArrow
    } else if a < b {
        KeyName::Unicode(crate::text::char_upper(cs[a]))
    } else {
        KeyName::Unicode(' ')
    }
}

/// `map_key`: the key that `name` names (see [`spec_map_key`]).
pub fn map_key(name: &str) -> (r: KeyName)
    ensures
        r == spec_map_key(name@),
{
    let cs = chars_of(name);
    assert(cs@.subrange(0, cs@.len() as int) =~= name@);
    map_key_at(&cs, 0, cs.len())
}

/// The modifier key that `cs[a..b]` names, if any.
fn modifier_at(cs: &Vec<char>, a: usize, b: usize) -> (r: Option<KeyName>)
    requires
        a <= b <= cs@.len(),
    ensures
        r == spec_modifier(cs@.subrange(a as int, b as int)),
{
    if upper_eq_at(cs, a, b, "CTRL") || upper_eq_at(cs, a, b, "CONTROL") {
        Some(KeyName::Control)
    } else if upper_eq_at(cs, a, b, "SHIFT") {
        Some(KeyName::Shift)
    } else if upper_eq_at(cs, a, b, "ALT") {
        Some(KeyName::Alt)
    } else if upper_eq_at(cs, a, b, "WIN") || upper_eq_at(cs, a, b, "META") || upper_eq_at(
        cs,
        a,
        b,
        "SUPER",
    ) {
        Some(KeyName::Meta)
    } else {
        None
    }
}

/// The character sequences that index pairs select from `cs`.
pub open spec fn slices(cs: Seq<char>, ps: Seq<(usize, usize)>) -> Seq<Seq<char>> {
    ps.map_values(|p: (usize, usize)| cs.subrange(p.0 as int, p.1 as int))
}

/// The hotkey parts of `cs[lo..hi]`, as bounds into `cs`.
fn plus_parts(cs: &Vec<char>, lo: usize, hi: usize) -> (r: Vec<(usize, usize)>)
    requires
        lo <= hi <= cs@.len(),
    ensures
        slices(cs@, r@) == hotkey_parts(cs@.subrange(lo as int, hi as int)),
        forall|j: int| 0 <= j < r@.len() ==> lo <= (#[trigger] r@[j]).0 <= r@[j].1 <= hi,
{
    let mut parts: Vec<(usize, usize)> = Vec::new();
    let mut start = lo;
    let mut i = lo;
    let ghost mut done: Seq<Seq<char>> = Seq::empty();
    assert(cs@.subrange(lo as int, lo as int) =~= Seq::<char>::empty());
    while i < hi
        invariant
            lo <= start <= i <= hi <= cs@.len(),
            split_plus(cs@.subrange(lo as int, i as int)) == done.push(
                cs@.subrange(start as int, i as int),
            ),
            slices(cs@, parts@) == keep_nonempty(done),
            forall|j: int| 0 <= j < parts@.len() ==> lo <= (#[trigger] parts@[j]).0 <= parts@[j].1 <= hi,
        decreases hi - i,
    {
        let ghost prefix = cs@.subrange(lo as int, i + 1);
        assert(prefix.drop_last() =~= cs@.subrange(lo as int, i as int));
        assert(prefix.last() == cs@[i as int]);
        if cs[i] == '+' {
            let (x, y) = trim_bounds(cs, start, i);
            let ghost piece = cs@.subrange(start as int, i as int);
            if x < y {
                parts.push((x, y));
                assert(slices(cs@, parts@) =~= keep_nonempty(done).push(trim(piece)));
            }
            proof {
                assert(keep_nonempty(done.push(piece)).len() >= 0);
                assert(done.push(piece).drop_last() =~= done);
                assert(done.push(piece).last() == piece);
                done = done.push(piece);
            }
            start = i + 1;
            assert(cs@.subrange(start as int, i + 1) =~= Seq::<char>::empty());
        } else {
            assert(cs@.subrange(start as int, i + 1) =~= cs@.subrange(start as int, i as int).push(
                cs@[i as int],
            ));
        }
        i = i + 1;
    }
    let (x, y) = trim_bounds(cs, start, hi);
    let ghost piece = cs@.subrange(start as int, hi as int);
    if x < y {
        parts.push((x, y));
        assert(slices(cs@, parts@) =~= keep_nonempty(done).push(trim(piece)));
    }
    proof {
        assert(done.push(piece).drop_last() =~= done);
        assert(done.push(piece).last() == piece);
    }
    parts
}

impl Input {
    pub fn new() -> (r: Input) {
        Input
    }

    /// The result of an instruction that names no action: `dispatched: <instruction>`.
    pub fn dispatch(&mut self, instruction: &str) -> (r: String)
        ensures
            *final(self) == *old(self),
            r@ == "dispatched: "@ + instruction@,
    {
        let mut r = String::from_str("dispatched: ");
        r.append(instruction);
        r
    }

    /// `move <x> <y>`: move the pointer to `(x, y)`.
    pub fn move_mouse(&mut self, x: i32, y: i32) -> (r: InputPlan)
        ensures
            *final(self) == *old(self),
            r@ == move_plan(x, y),
    {
        let mut steps = Vec::new();
        steps.push(step(InputEvent::MoveMouse { x, y }, true));
        let r = InputPlan {
            feature: String::from_str("mouse_move_to"),
            steps,
            outcome: Ok(point_text("mouse_move_to", x, y)),
        };
        assert(r@.steps =~= seq![strict(InputEventView::MoveMouse { x, y })]);
        r
    }

    /// `click <x> <y>`: move the pointer to `(x, y)` and click the left button.
    pub fn click(&mut self, x: i32, y: i32) -> (r: InputPlan)
        ensures
            *final(self) == *old(self),
            r@ == click_plan(x, y),
    {
        let mut steps = Vec::new();
        steps.push(step(InputEvent::MoveMouse { x, y }, true));
        steps.push(step(InputEvent::LeftButton { direction: Direction::Click }, true));
        let r = InputPlan {
            feature: String::from_str("click"),
            steps,
            outcome: Ok(point_text("click", x, y)),
        };
        assert(r@.steps =~= seq![
            strict(InputEventView::MoveMouse { x, y }),
            strict(left(Direction::Click)),
        ]);
        r
    }

    /// `doubleclick <x> <y>`: move the pointer to `(x, y)` and click the left button twice.
    pub fn double_click(&mut self, x: i32, y: i32) -> (r: InputPlan)
        ensures
            *final(self) == *old(self),
            r@ == double_click_plan(x, y),
    {
        let mut steps = Vec::new();
        steps.push(step(InputEvent::MoveMouse { x, y }, true));
        steps.push(step(InputEvent::LeftButton { direction: Direction::Click }, true));
        steps.push(step(InputEvent::LeftButton { direction: Direction::Click }, true));
        let r = InputPlan {
            feature: String::from_str("doubleclick"),
            steps,
            outcome: Ok(point_text("doubleclick", x, y)),
        };
        assert(r@.steps =~= seq![
            strict(InputEventView::MoveMouse { x, y }),
            strict(left(Direction::Click)),
            strict(left(Direction::Click)),
        ]);
        r
    }

    /// `mousedown <x> <y>`: move the pointer to `(x, y)` and press the left button.
    pub fn mouse_down(&mut self, x: i32, y: i32) -> (r: InputPlan)
        ensures
            *final(self) == *old(self),
            r@ == mouse_down_plan(x, y),
    {
        let mut steps = Vec::new();
        steps.push(step(InputEvent::MoveMouse { x, y }, true));
        steps.push(step(InputEvent::LeftButton { direction: Direction::Press }, true));
        let r = InputPlan {
            feature: String::from_str("mousedown"),
            steps,
            outcome: Ok(point_text("mousedown", x, y)),
        };
        assert(r@.steps =~= seq![
            strict(InputEventView::MoveMouse { x, y }),
            strict(left(Direction::Press)),
        ]);
        r
    }

    /// `mouseup <x> <y>`: move the pointer to `(x, y)` and release the left button.
    pub fn mouse_up(&mut self, x: i32, y: i32) -> (r: InputPlan)
        ensures
            *final(self) == *old(self),
            r@ == mouse_up_plan(x, y),
    {
        let mut steps = Vec::new();
        steps.push(step(InputEvent::MoveMouse { x, y }, true));
        steps.push(step(InputEvent::LeftButton { direction: Direction::Release }, true));
        let r = InputPlan {
            feature: String::from_str("mouseup"),
            steps,
            outcome: Ok(point_text("mouseup", x, y)),
        };
        assert(r@.steps =~= seq![
            strict(InputEventView::MoveMouse { x, y }),
            strict(left(Direction::Release)),
        ]);
        r
    }

    /// `drag <x1> <y1> <x2> <y2>`: press the left button at `(x1, y1)`, move to `(x2, y2)`
    /// and release it there.
    pub fn drag(&mut self, x1: i32, y1: i32, x2: i32, y2: i32) -> (r: InputPlan)
        ensures
            *final(self) == *old(self),
            r@ == drag_plan(x1, y1, x2, y2),
    {
        let mut steps = Vec::new();
        steps.push(step(InputEvent::MoveMouse { x: x1, y: y1 }, true));
        steps.push(step(InputEvent::LeftButton { direction: Direction::Press }, true));
        steps.push(step(InputEvent::MoveMouse { x: x2, y: y2 }, true));
        steps.push(step(InputEvent::LeftButton { direction: Direction::Release }, true));
        let mut d = String::from_str("drag(");
        push_i32(&mut d, x1);
        d.append(", ");
        push_i32(&mut d, y1);
        d.append(", ");
        push_i32(&mut d, x2);
        d.append(", ");
        push_i32(&mut d, y2);
        d.append(")");
        let r = InputPlan { feature: String::from_str("drag"), steps, outcome: Ok(d) };
        assert(r@.steps =~= seq![
            strict(InputEventView::MoveMouse { x: x1, y: y1 }),
            strict(left(Direction::Press)),
            strict(InputEventView::MoveMouse { x: x2, y: y2 }),
            strict(left(Direction::Release)),
        ]);
        assert(d@ =~= "drag("@ + dec_int(x1 as int) + ", "@ + dec_int(y1 as int) + ", "@ + dec_int(
            x2 as int,
        ) + ", "@ + dec_int(y2 as int) + ")"@);
        r
    }

    /// `scroll <delta>`: scroll vertically by `delta`.
    pub fn scroll(&mut self, delta: i32) -> (r: InputPlan)
        ensures
            *final(self) == *old(self),
            r@ == scroll_plan(delta),
    {
        let mut steps = Vec::new();
        steps.push(step(InputEvent::ScrollVertical { delta }, true));
        let mut d = String::from_str("scroll(");
        push_i32(&mut d, delta);
        d.append(")");
        let r = InputPlan { feature: String::from_str("scroll"), steps, outcome: Ok(d) };
        assert(r@.steps =~= seq![strict(InputEventView::ScrollVertical { delta })]);
        assert(d@ =~= "scroll("@ + dec_int(delta as int) + ")"@);
        r
    }

    /// `type: <text>`: type `text`.
    pub fn type_text(&mut self, text: &str) -> (r: InputPlan)
        ensures
            *final(self) == *old(self),
            r@ == type_text_plan(text@),
    {
        let mut steps = Vec::new();
        steps.push(step(InputEvent::Text { text: String::from_str(text) }, true));
        let r = InputPlan {
            feature: String::from_str("type_text"),
            steps,
            outcome: Ok(text_text("type_text", text)),
        };
        assert(r@.steps =~= seq![strict(InputEventView::Text { text: text@ })]);
        r
    }

    /// `key: <NAME>`: click the key that `key_name` names.
    pub fn key_press(&mut self, key_name: &str) -> (r: InputPlan)
        ensures
            *final(self) == *old(self),
            r@ == key_press_plan(key_name@),
    {
        let key = map_key(key_name);
        let mut steps = Vec::new();
        steps.push(step(InputEvent::Key { key, direction: Direction::Click }, true));
        let r = InputPlan {
            feature: String::from_str("key_press"),
            steps,
            outcome: Ok(text_text("key_press", key_name)),
        };
        assert(r@.steps =~= seq![strict(key_event(spec_map_key(key_name@), Direction::Click))]);
        r
    }

    /// `hotkey: <combo>`: press the modifiers, click the key, release the modifiers
    /// (see [`hotkey_plan`]).
    pub fn hotkey(&mut self, combo: &str) -> (r: InputPlan)
        ensures
            *final(self) == *old(self),
            r@ == hotkey_plan(combo@),
    {
        let cs = chars_of(combo);
        assert(cs@.subrange(0, cs@.len() as int) =~= combo@);
        let parts = plus_parts(&cs, 0, cs.len());
        let ghost ps = slices(cs@, parts@);
        let feature = String::from_str("hotkey");
        if parts.len() == 0 {
            let r = InputPlan {
                feature,
                steps: Vec::new(),
                outcome: Err(String::from_str("hotkey requires a combo; use: hotkey: CTRL+S")),
            };
            assert(r@.steps =~= Seq::<InputStepView>::empty());
            return r;
        }
        let n = parts.len() - 1;
        let ghost mods = ps.drop_last();
        let mut steps: Vec<InputStep> = Vec::new();
        let mut keys: Vec<KeyName> = Vec::new();
        let mut i: usize = 0;
        assert(mods.skip(0) =~= mods);
        assert(keys@ =~= modifier_keys(mods, 0));
        assert(steps@.map_values(|s: InputStep| s@) =~= press_steps(keys@));
        while i < n
            invariant
                n + 1 == parts@.len(),
                cs@ == combo@,
                ps == slices(cs@, parts@),
                ps == hotkey_parts(combo@),
                mods == ps.drop_last(),
                i <= n,
                forall|j: int|
                    0 <= j < parts@.len() ==> 0 <= (#[trigger] parts@[j]).0 <= parts@[j].1
                        <= cs@.len(),
                known_prefix(mods) == i + known_prefix(mods.skip(i as int)),
                keys@ == modifier_keys(mods, i as nat),
                steps@.map_values(|s: InputStep| s@) == press_steps(keys@),
                feature@ == "hotkey"@,
            decreases n - i,
        {
            let (x, y) = parts[i];
            assert(mods[i as int] == cs@.subrange(x as int, y as int));
            assert(mods.skip(i as int)[0] == mods[i as int]);
            assert(mods.skip(i as int).drop_first() =~= mods.skip(i + 1));
            match modifier_at(&cs, x, y) {
                Some(k) => {
                    let ghost prev = steps@;
                    let st = step(InputEvent::Key { key: k, direction: Direction::Press }, true);
                    let ghost sv = st@;
                    steps.push(st);
                    assert(steps@ == prev.push(st));
                    assert(steps@.map_values(|s: InputStep| s@) =~= prev.map_values(
                        |s: InputStep| s@,
                    ).push(sv));
                    keys.push(k);
                    assert(keys@ =~= modifier_keys(mods, (i + 1) as nat));
                    assert(steps@.map_values(|s: InputStep| s@) =~= press_steps(keys@));
                },
                None => {
                    let mut msg = String::from_str("unsupported modifier: ");
                    msg.append(combo.substring_char(x, y));
                    let r = InputPlan { feature, steps, outcome: Err(msg) };
                    return r;
                },
            }
            i = i + 1;
        }
        assert(mods.skip(n as int).len() == 0);
        let (x, y) = parts[n];
        assert(ps.last() == cs@.subrange(x as int, y as int));
        let key = map_key_at(&cs, x, y);
        steps.push(step(InputEvent::Key { key, direction: Direction::Click }, true));
        let ghost head = press_steps(keys@).push(
            strict(key_event(spec_map_key(ps.last()), Direction::Click)),
        );
        assert(steps@.map_values(|s: InputStep| s@) =~= head);
        let mut j = n;
        assert(keys@.subrange(n as int, n as int).reverse() =~= Seq::<KeyName>::empty());
        assert(steps@.map_values(|s: InputStep| s@) =~= head + release_steps(
            keys@.subrange(j as int, n as int),
        ));
        while j > 0
            invariant
                j <= n == keys@.len(),
                steps@.map_values(|s: InputStep| s@) == head + release_steps(
                    keys@.subrange(j as int, n as int),
                ),
            decreases j,
        {
            j = j - 1;
            let k = keys[j];
            let ghost prev = steps@;
            let st = step(InputEvent::Key { key: k, direction: Direction::Release }, false);
            let ghost sv = st@;
            steps.push(st);
            assert(steps@ == prev.push(st));
            assert(steps@.map_values(|s: InputStep| s@) =~= prev.map_values(|s: InputStep| s@).push(
                sv,
            ));
            assert(keys@.subrange(j as int, n as int).reverse() =~= keys@.subrange(
                j + 1,
                n as int,
            ).reverse().push(k));
            assert(steps@.map_values(|s: InputStep| s@) =~= head + release_steps(
                keys@.subrange(j as int, n as int),
            ));
        }
        assert(keys@.subrange(0, n as int) =~= keys@);
        InputPlan { feature, steps, outcome: Ok(text_text("hotkey", combo)) }
    }
}

} // verus!
