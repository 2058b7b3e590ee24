//! Commands of a command sheet and the results of running them.
use vstd::prelude::*;

verus! {

/// One command of a command sheet.
#[derive(Debug, Clone)]
pub struct CommandItem {
    /// Position of the command (sheets are run in this order).
    pub index: u32,
    /// The instruction text (see the instruction language).
    pub instruction: String,
    /// A label for grouping and filtering.
    pub tag: String,
}

pub struct CommandItemView {
    pub index: u32,
    pub instruction: Seq<char>,
    pub tag: Seq<char>,
}

impl View for CommandItem {
    type V = CommandItemView;

    open spec fn view(&self) -> CommandItemView {
        CommandItemView { index: self.index, instruction: self.instruction@, tag: self.tag@ }
    }
}

/// The outcome of running one command.
#[derive(Debug, Clone)]
pub struct CommandResult {
    pub index: u32,
    pub tag: String,
    pub instruction: String,
    /// `ok` or `error`.
    pub status: String,
    /// What was done, or why it failed.
    pub detail: String,
    /// Where a screenshot was saved.
    pub screenshot_path: Option<String>,
    /// A screenshot as a `data:` URL.
    pub screenshot_data_url: Option<String>,
}

pub struct CommandResultView {
    pub index: u32,
    pub tag: Seq<char>,
    pub instruction: Seq<char>,
    pub status: Seq<char>,
    pub detail: Seq<char>,
    pub screenshot_path: Option<Seq<char>>,
    pub screenshot_data_url: Option<Seq<char>>,
}

/// The view of an optional string.
pub open spec fn opt_view(o: Option<String>) -> Option<Seq<char>> {
    match o {
        Some(s) => Some(s@),
        None => None,
    }
}

impl View for CommandResult {
    type V = CommandResultView;

    open spec fn view(&self) -> CommandResultView {
        CommandResultView {
            index: self.index,
            tag: self.tag@,
            instruction: self.instruction@,
            status: self.status@,
            detail: self.detail@,
            screenshot_path: opt_view(self.screenshot_path),
            screenshot_data_url: opt_view(self.screenshot_data_url),
        }
    }
}

} // verus!
