//! The local body: runs one command of a sheet.
//!
//! Running a command takes two calls with the device work in between:
//! [`LocalBody::execute`] reads the instruction and says what is to be done (a [`Step`]);
//! whoever drives the devices does it and hands the outcome to [`LocalBody::complete`],
//! which reports the [`CommandResult`].
use vstd::prelude::*;
use crate::audio::Audio;
use crate::command::{CommandItem, CommandItemView, CommandResult, CommandResultView};
use crate::input::{
    click_plan, double_click_plan, drag_plan, hotkey_plan, key_press_plan, mouse_down_plan,
    mouse_up_plan, move_plan, result_view, scroll_plan, spec_plan_result, type_text_plan, Input,
    InputPlan, InputPlanView, button_events, buttons_at, key_events, lemma_double_click_clicks_twice,
    picked, point_detail, pointer_before, pointer_moves, scroll_deltas, spec_map_key, text_detail,
    typed_texts, Direction, InputEventView, KeyName,
};
use crate::instruction::{parse_instruction, spec_parse_instruction, Action, ActionView};
use crate::screen::{ScreenCapture, ScreenCaptureResult, ScreenCaptureResultView};
use crate::text::{dec_int, dec_nat, push_u64};

verus! {

broadcast use vstd::string::group_string_axioms;

/// What is to be done for a command.
#[derive(Debug)]
pub enum Step {
    /// Nothing more: the outcome is known.
    Done { outcome: Result<String, String> },
    /// Drive the keyboard and mouse by `plan`.
    Input { plan: InputPlan },
    /// Sleep `ms` milliseconds; the outcome is then `Ok(detail)`.
    Wait { ms: u64, detail: String },
    /// Capture the screen into `path` (before it is normalized).
    Screenshot { path: String },
}

pub enum StepView {
    Done { outcome: Result<Seq<char>, Seq<char>> },
    Input { plan: InputPlanView },
    Wait { ms: u64, detail: Seq<char> },
    Screenshot { path: Seq<char> },
}

impl View for Step {
    type V = StepView;

    open spec fn view(&self) -> StepView {
        match self {
            Step::Done { outcome } => StepView::Done { outcome: result_view(*outcome) },
            Step::Input { plan } => StepView::Input { plan: plan@ },
            Step::Wait { ms, detail } => StepView::Wait { ms: *ms, detail: detail@ },
            Step::Screenshot { path } => StepView::Screenshot { path: path@ },
        }
    }
}

/// What a step achieved, when it succeeded.
#[derive(Debug)]
pub enum Completion {
    /// What was done.
    Detail { detail: String },
    /// A screenshot was saved.
    Capture { capture: ScreenCaptureResult },
}

pub enum CompletionView {
    Detail { detail: Seq<char> },
    Capture { capture: ScreenCaptureResultView },
}

impl View for Completion {
    type V = CompletionView;

    open spec fn view(&self) -> CompletionView {
        match self {
            Completion::Detail { detail } => CompletionView::Detail { detail: detail@ },
            Completion::Capture { capture } => CompletionView::Capture { capture: capture@ },
        }
    }
}

pub open spec fn outcome_view(o: Result<Completion, String>) -> Result<CompletionView, Seq<char>> {
    match o {
        Ok(c) => Ok(c@),
        Err(e) => Err(e@),
    }
}

/// The step for an instruction text.
pub open spec fn spec_step(instruction: Seq<char>) -> StepView {
    match spec_parse_instruction(instruction) {
        Err(e) => StepView::Done { outcome: Err(e) },
        Ok(a) => match a {
            ActionView::Click { x, y } => StepView::Input { plan: click_plan(x, y) },
            ActionView::DoubleClick { x, y } => StepView::Input { plan: double_click_plan(x, y) },
            ActionView::Move { x, y } => StepView::Input { plan: move_plan(x, y) },
            ActionView::MouseDown { x, y } => StepView::Input { plan: mouse_down_plan(x, y) },
            ActionView::MouseUp { x, y } => StepView::Input { plan: mouse_up_plan(x, y) },
            ActionView::Drag { x1, y1, x2, y2 } => StepView::Input {
                plan: drag_plan(x1, y1, x2, y2),
            },
            ActionView::Scroll { delta } => StepView::Input { plan: scroll_plan(delta) },
            ActionView::TypeText { text } => StepView::Input { plan: type_text_plan(text) },
            ActionView::KeyPress { key } => StepView::Input { plan: key_press_plan(key) },
            ActionView::Hotkey { combo } => StepView::Input { plan: hotkey_plan(combo) },
            ActionView::Screenshot { path } => StepView::Screenshot { path },
            ActionView::Wait { ms } => StepView::Wait {
                ms,
                detail: "wait("@ + dec_nat(ms as nat) + ")"@,
            },
            ActionView::Noop => StepView::Done { outcome: Ok("noop"@) },
            ActionView::Dispatch { instruction } => StepView::Done {
                outcome: Ok("dispatched: "@ + instruction),
            },
        },
    }
}

/// The result reported for `cmd` once its step has the outcome `outcome`: the command's
/// index, tag and instruction; status `ok` with what was done, or `error` with why.
pub open spec fn spec_complete(
    cmd: CommandItemView,
    outcome: Result<CompletionView, Seq<char>>,
) -> CommandResultView {
    match outcome {
        Ok(CompletionView::Detail { detail }) => CommandResultView {
            index: cmd.index,
            tag: cmd.tag,
            instruction: cmd.instruction,
            status: "ok"@,
            detail,
            screenshot_path: None,
            screenshot_data_url: None,
        },
        Ok(CompletionView::Capture { capture }) => CommandResultView {
            index: cmd.index,
            tag: cmd.tag,
            instruction: cmd.instruction,
            status: "ok"@,
            detail: capture.detail,
            screenshot_path: capture.screenshot_path,
            screenshot_data_url: capture.screenshot_data_url,
        },
        Err(e) => CommandResultView {
            index: cmd.index,
            tag: cmd.tag,
            instruction: cmd.instruction,
            status: "error"@,
            detail: e,
            screenshot_path: None,
            screenshot_data_url: None,
        },
    }
}

/// Every result names its command by index, tag and instruction, and its status is `ok`
/// exactly when the step succeeded, with the failure's message as detail otherwise.
pub proof fn lemma_result_names_command(
    cmd: CommandItemView,
    outcome: Result<CompletionView, Seq<char>>,
)
    ensures
        spec_complete(cmd, outcome).index == cmd.index,
        spec_complete(cmd, outcome).tag == cmd.tag,
        spec_complete(cmd, outcome).instruction == cmd.instruction,
        (spec_complete(cmd, outcome).status == "ok"@) <==> outcome is Ok,
        outcome matches Err(e) ==> spec_complete(cmd, outcome).detail == e,
{
    reveal_strlit("ok");
    reveal_strlit("error");
    assert("ok"@ != "error"@) by {
        assert("ok"@.len() != "error"@.len());
    }
}

/// A step's text outcome as what the step achieved.
pub open spec fn detail_outcome(o: Result<Seq<char>, Seq<char>>) -> Result<CompletionView, Seq<char>> {
    match o {
        Ok(detail) => Ok(CompletionView::Detail { detail }),
        Err(e) => Err(e),
    }
}

/// A screen capture's outcome as what the step achieved.
pub open spec fn capture_outcome(o: Result<ScreenCaptureResultView, Seq<char>>) -> Result<
    CompletionView,
    Seq<char>,
> {
    match o {
        Ok(capture) => Ok(CompletionView::Capture { capture }),
        Err(e) => Err(e),
    }
}

/// What a step comes to once carried out, when the event of each step `j` of an input plan
/// gives `results[j]` and a screen capture gives `capture`: a known outcome as it is; a plan
/// its run's result (see [`spec_plan_result`]); a wait its detail; a screenshot the capture.
pub open spec fn spec_step_outcome(
    step: StepView,
    results: Seq<Result<(), Seq<char>>>,
    capture: Result<ScreenCaptureResultView, Seq<char>>,
) -> Result<CompletionView, Seq<char>> {
    match step {
        StepView::Done { outcome } => detail_outcome(outcome),
        StepView::Input { plan } => detail_outcome(spec_plan_result(plan, results, 0)),
        StepView::Wait { detail, .. } => Ok(CompletionView::Detail { detail }),
        StepView::Screenshot { .. } => capture_outcome(capture),
    }
}

/// The result of running `cmd` (see [`spec_step_outcome`] and [`spec_complete`]).
pub open spec fn spec_run_command(
    cmd: CommandItemView,
    results: Seq<Result<(), Seq<char>>>,
    capture: Result<ScreenCaptureResultView, Seq<char>>,
) -> CommandResultView {
    spec_complete(cmd, spec_step_outcome(spec_step(cmd.instruction), results, capture))
}

/// What a step that succeeded with `detail` achieved (see [`detail_outcome`]).
pub fn detail_completion(o: Result<String, String>) -> (r: Result<Completion, String>)
    ensures
        outcome_view(r) == detail_outcome(result_view(o)),
{
    match o {
        Ok(detail) => Ok(Completion::Detail { detail }),
        Err(e) => Err(e),
    }
}

/// What a screenshot step achieved (see [`capture_outcome`]).
pub fn capture_completion(o: Result<ScreenCaptureResult, String>) -> (r: Result<Completion, String>)
    ensures
        outcome_view(r) == capture_outcome(
            match o {
                Ok(c) => Ok(c@),
                Err(e) => Err(e@),
            },
        ),
{
    match o {
        Ok(capture) => Ok(Completion::Capture { capture }),
        Err(e) => Err(e),
    }
}

/// The plan of a pointer instruction (`click`, `doubleclick`, `move`, `mousedown`,
/// `mouseup`), `None` for any other action.
pub open spec fn pointer_plan(a: ActionView) -> Option<InputPlanView> {
    match a {
        ActionView::Click { x, y } => Some(click_plan(x, y)),
        ActionView::DoubleClick { x, y } => Some(double_click_plan(x, y)),
        ActionView::Move { x, y } => Some(move_plan(x, y)),
        ActionView::MouseDown { x, y } => Some(mouse_down_plan(x, y)),
        ActionView::MouseUp { x, y } => Some(mouse_up_plan(x, y)),
        _ => None,
    }
}

/// A pointer command drives the devices by its plan and nothing else, and its result is its
/// plan's: `ok` with the plan's detail, or `error` with the failing event's error, with no
/// screenshot.
pub proof fn lemma_pointer_command(
    cmd: CommandItemView,
    results: Seq<Result<(), Seq<char>>>,
    capture: Result<ScreenCaptureResultView, Seq<char>>,
)
    requires
        spec_parse_instruction(cmd.instruction) matches Ok(a) && pointer_plan(a) is Some,
    ensures
        ({
            let plan = pointer_plan(spec_parse_instruction(cmd.instruction)->Ok_0)->Some_0;
            let r = spec_run_command(cmd, results, capture);
            &&& spec_step(cmd.instruction) == (StepView::Input { plan })
            &&& spec_plan_result(plan, results, 0) matches Ok(d) ==> r.status == "ok"@ && r.detail
                == d
            &&& spec_plan_result(plan, results, 0) matches Err(e) ==> r.status == "error"@
                && r.detail == e
            &&& r.screenshot_path is None && r.screenshot_data_url is None
            &&& r.index == cmd.index && r.tag == cmd.tag && r.instruction == cmd.instruction
        }),
{
}

/// A screenshot command reports the capture: `ok` with its detail, path and data URL, or
/// `error` with the capture's error and no screenshot.
pub proof fn lemma_screenshot_command(
    cmd: CommandItemView,
    results: Seq<Result<(), Seq<char>>>,
    capture: Result<ScreenCaptureResultView, Seq<char>>,
)
    requires
        spec_step(cmd.instruction) is Screenshot,
    ensures
        ({
            let r = spec_run_command(cmd, results, capture);
            &&& capture matches Ok(c) ==> r.status == "ok"@ && r.detail == c.detail
                && r.screenshot_path == c.screenshot_path && r.screenshot_data_url
                == c.screenshot_data_url
            &&& capture matches Err(e) ==> r.status == "error"@ && r.detail == e
                && r.screenshot_path is None && r.screenshot_data_url is None
        }),
{
}

/// Only a screenshot command reports a screenshot: every other command's result has no
/// screenshot path or data URL, whatever its devices gave.
pub proof fn lemma_capture_only_for_screenshots(
    cmd: CommandItemView,
    results: Seq<Result<(), Seq<char>>>,
    capture: Result<ScreenCaptureResultView, Seq<char>>,
)
    requires
        !(spec_step(cmd.instruction) is Screenshot),
    ensures
        spec_run_command(cmd, results, capture).screenshot_path is None,
        spec_run_command(cmd, results, capture).screenshot_data_url is None,
{
}

/// A `doubleclick <x> <y>` command moves the pointer to `(x, y)` and clicks the left button
/// twice there: its left-button events are exactly two clicks, and it reports
/// `doubleclick(x, y)`.
pub proof fn lemma_double_click_command(instruction: Seq<char>, x: i32, y: i32)
    requires
        spec_parse_instruction(instruction) == Ok::<ActionView, Seq<char>>(
            ActionView::DoubleClick { x, y },
        ),
    ensures
        spec_step(instruction) matches StepView::Input { plan } && button_events(plan.steps)
            == seq![Direction::Click, Direction::Click] && buttons_at(plan.steps, x, y)
            && pointer_moves(plan.steps) == seq![(x, y)] && plan.outcome == Ok::<
            Seq<char>,
            Seq<char>,
        >(point_detail("doubleclick"@, x, y)),
{
    lemma_double_click_clicks_twice(x, y);
}

/// A `key: <NAME>` command clicks the one key that `NAME` names and does nothing else: it
/// types no text and sends no pointer or scroll event, and it reports `key_press(NAME)`.
pub proof fn lemma_key_command(instruction: Seq<char>, key: Seq<char>)
    requires
        spec_parse_instruction(instruction) == Ok::<ActionView, Seq<char>>(
            ActionView::KeyPress { key },
        ),
    ensures
        spec_step(instruction) matches StepView::Input { plan } && key_events(plan.steps)
            == seq![(spec_map_key(key), Direction::Click)] && typed_texts(plan.steps).len() == 0
            && button_events(plan.steps).len() == 0 && pointer_moves(plan.steps).len() == 0
            && scroll_deltas(plan.steps).len() == 0 && plan.outcome == Ok::<Seq<char>, Seq<char>>(
            text_detail("key_press"@, key),
        ),
{
    reveal_with_fuel(picked, 2);
    if let StepView::Input { plan } = spec_step(instruction) {
        let s = plan.steps;
        assert(key_events(s) =~= seq![(spec_map_key(key), Direction::Click)]);
        assert(typed_texts(s) =~= Seq::<Seq<char>>::empty());
        assert(button_events(s) =~= Seq::<Direction>::empty());
        assert(pointer_moves(s) =~= Seq::<(i32, i32)>::empty());
        assert(scroll_deltas(s) =~= Seq::<i32>::empty());
    }
}

/// A `drag <x1> <y1> <x2> <y2>` command presses the left button with the pointer at
/// `(x1, y1)` and releases it with the pointer at `(x2, y2)`, where the pointer stays: one
/// press, then one release; it reports `drag(x1, y1, x2, y2)`.
pub proof fn lemma_drag_command(instruction: Seq<char>, x1: i32, y1: i32, x2: i32, y2: i32)
    requires
        spec_parse_instruction(instruction) == Ok::<ActionView, Seq<char>>(
            ActionView::Drag { x1, y1, x2, y2 },
        ),
    ensures
        spec_step(instruction) matches StepView::Input { plan } && button_events(plan.steps)
            == seq![Direction::Press, Direction::Release] && (forall|k: int|
            0 <= k < plan.steps.len() && (#[trigger] plan.steps[k]).event
                == (InputEventView::LeftButton { direction: Direction::Press }) ==> pointer_before(
                plan.steps,
                k,
            ) == Some((x1, y1))) && (forall|k: int|
            0 <= k < plan.steps.len() && (#[trigger] plan.steps[k]).event
                == (InputEventView::LeftButton { direction: Direction::Release }) ==> pointer_before(
                plan.steps,
                k,
            ) == Some((x2, y2))) && pointer_before(plan.steps, plan.steps.len() as int) == Some(
            (x2, y2),
        ) && plan.outcome == Ok::<Seq<char>, Seq<char>>(
            "drag("@ + dec_int(x1 as int) + ", "@ + dec_int(y1 as int) + ", "@ + dec_int(
                x2 as int,
            ) + ", "@ + dec_int(y2 as int) + ")"@,
        ),
{
    reveal_with_fuel(picked, 5);
    reveal_with_fuel(pointer_before, 5);
    if let StepView::Input { plan } = spec_step(instruction) {
        let s = plan.steps;
        assert(button_events(s) =~= seq![Direction::Press, Direction::Release]);
        assert(pointer_before(s, 1) == Some((x1, y1)));
        assert(pointer_before(s, 2) == Some((x1, y1)));
        assert(pointer_before(s, 3) == Some((x2, y2)));
        assert(pointer_before(s, 4) == Some((x2, y2)));
    }
}

/// A `scroll <delta>` command scrolls vertically once, by `delta` with its sign (positive
/// down, negative up), and does nothing else; it reports `scroll(delta)`.
pub proof fn lemma_scroll_command(instruction: Seq<char>, delta: i32)
    requires
        spec_parse_instruction(instruction) == Ok::<ActionView, Seq<char>>(
            ActionView::Scroll { delta },
        ),
    ensures
        spec_step(instruction) matches StepView::Input { plan } && scroll_deltas(plan.steps)
            == seq![delta] && button_events(plan.steps).len() == 0 && pointer_moves(plan.steps).len()
            == 0 && key_events(plan.steps).len() == 0 && typed_texts(plan.steps).len() == 0
            && plan.outcome == Ok::<Seq<char>, Seq<char>>(
            "scroll("@ + dec_int(delta as int) + ")"@,
        ),
{
    reveal_with_fuel(picked, 2);
    if let StepView::Input { plan } = spec_step(instruction) {
        let s = plan.steps;
        assert(scroll_deltas(s) =~= seq![delta]);
        assert(typed_texts(s) =~= Seq::<Seq<char>>::empty());
        assert(button_events(s) =~= Seq::<Direction>::empty());
        assert(pointer_moves(s) =~= Seq::<(i32, i32)>::empty());
        assert(key_events(s) =~= Seq::<(KeyName, Direction)>::empty());
    }
}

/// The parts of the machine that commands act on.
pub struct LocalBody {
    pub screen: ScreenCapture,
    pub input: Input,
    pub audio: Audio,
}

impl LocalBody {
    pub fn new() -> (r: LocalBody) {
        LocalBody { screen: ScreenCapture::new(), input: Input::new(), audio: Audio::new() }
    }

    /// Reads the command's instruction and says what is to be done (see [`spec_step`]).
    pub fn execute(&mut self, cmd: &CommandItem) -> (r: Step)
        ensures
            *final(self) == *old(self),
            r@ == spec_step(cmd.instruction@),
    {
        let _ = self.screen.peek();
        let _ = self.audio.peek();
        match parse_instruction(cmd.instruction.as_str()) {
            Err(e) => Step::Done { outcome: Err(e) },
            Ok(action) => match action {
                Action::Click { x, y } => Step::Input { plan: self.input.click(x, y) },
                Action::DoubleClick { x, y } => Step::Input { plan: self.input.double_click(x, y) },
                Action::Move { x, y } => Step::Input { plan: self.input.move_mouse(x, y) },
                Action::MouseDown { x, y } => Step::Input { plan: self.input.mouse_down(x, y) },
                Action::MouseUp { x, y } => Step::Input { plan: self.input.mouse_up(x, y) },
                Action::Drag { x1, y1, x2, y2 } => Step::Input {
                    plan: self.input.drag(x1, y1, x2, y2),
                },
                Action::Scroll { delta } => Step::Input { plan: self.input.scroll(delta) },
                Action::TypeText { text } => Step::Input {
                    plan: self.input.type_text(text.as_str()),
                },
                Action::KeyPress { key } => Step::Input {
                    plan: self.input.key_press(key.as_str()),
                },
                Action::Hotkey { combo } => Step::Input {
                    plan: self.input.hotkey(combo.as_str()),
                },
                Action::Screenshot { path } => Step::Screenshot { path },
                Action::Wait { ms } => {
                    let mut detail = String::from_str("wait(");
                    push_u64(&mut detail, ms);
                    detail.append(")");
                    Step::Wait { ms, detail }
                },
                Action::Noop => Step::Done { outcome: Ok(String::from_str("noop")) },
                Action::Dispatch { instruction } => Step::Done {
                    outcome: Ok(self.input.dispatch(instruction.as_str())),
                },
            },
        }
    }

    /// Reports the result of `cmd` from the outcome of its step (see [`spec_complete`]).
    pub fn complete(&self, cmd: &CommandItem, outcome: Result<Completion, String>) -> (r:
        CommandResult)
        ensures
            r@ == spec_complete(cmd@, outcome_view(outcome)),
    {
        match outcome {
            Ok(Completion::Detail { detail }) => CommandResult {
                index: cmd.index,
                tag: cmd.tag.clone(),
                instruction: cmd.instruction.clone(),
                status: String::from_str("ok"),
                detail,
                screenshot_path: None,
                screenshot_data_url: None,
            },
            Ok(Completion::Capture { capture }) => CommandResult {
                index: cmd.index,
                tag: cmd.tag.clone(),
                instruction: cmd.instruction.clone(),
                status: String::from_str("ok"),
                detail: capture.detail,
                screenshot_path: capture.screenshot_path,
                screenshot_data_url: capture.screenshot_data_url,
            },
            Err(e) => CommandResult {
                index: cmd.index,
                tag: cmd.tag.clone(),
                instruction: cmd.instruction.clone(),
                status: String::from_str("error"),
                detail: e,
                screenshot_path: None,
                screenshot_data_url: None,
            },
        }
    }
}

} // verus!
