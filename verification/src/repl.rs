//! The interactive prompt: what each line typed at it asks for.
use vstd::prelude::*;
use crate::text::{chars_of, eq_ignore_case, eq_ignore_case_at, trim, trim_bounds};

verus! {

broadcast use vstd::string::group_string_axioms;

/// What a line typed at the prompt asks for.
#[derive(Debug, PartialEq, Eq)]
pub enum PromptLine {
    /// Leave the prompt.
    Exit,
    /// Nothing to do: ask for the next line.
    Skip,
    /// Run the command written as JSON in `json`.
    Command { json: String },
}

pub enum PromptLineView {
    Exit,
    Skip,
    Command { json: Seq<char> },
}

impl View for PromptLine {
    type V = PromptLineView;

    open spec fn view(&self) -> PromptLineView {
        match self {
            PromptLine::Exit => PromptLineView::Exit,
            PromptLine::Skip => PromptLineView::Skip,
            PromptLine::Command { json } => PromptLineView::Command { json: json@ },
        }
    }
}

/// A line, once trimmed: `exit` (any ASCII case) leaves, an empty line is skipped, and any
/// other line is a command.
pub open spec fn spec_prompt_line(line: Seq<char>) -> PromptLineView {
    let t = trim(line);
    if eq_ignore_case(t, "exit"@) {
        PromptLineView::Exit
    } else if t.len() == 0 {
        PromptLineView::Skip
    } else {
        PromptLineView::Command { json: t }
    }
}

/// Reads a line typed at the prompt (see [`spec_prompt_line`]).
pub fn read_prompt_line(line: &str) -> (r: PromptLine)
    ensures
        r@ == spec_prompt_line(line@),
{
    let cs = chars_of(line);
    assert(cs@.subrange(0, cs@.len() as int) =~= line@);
    let (a, b) = trim_bounds(&cs, 0, cs.len());
    if eq_ignore_case_at(&cs, a, b, "exit") {
        PromptLine::Exit
    } else if a == b {
        PromptLine::Skip
    } else {
        PromptLine::Command { json: String::from_str(line.substring_char(a, b)) }
    }
}

/// A line that ends the session: `exit` (any ASCII case) once trimmed.
pub open spec fn is_exit_line(line: Seq<char>) -> bool {
    eq_ignore_case(trim(line), "exit"@)
}

/// The commands (their JSON texts) that a session at the prompt runs when it is typed
/// `lines`, from line `i` on: one for each line that is neither empty nor `exit`, in order,
/// until the first `exit` line.
pub open spec fn spec_prompt_session(lines: Seq<Seq<char>>, i: nat) -> Seq<Seq<char>>
    decreases lines.len() - i,
{
    if i >= lines.len() {
        Seq::empty()
    } else {
        match spec_prompt_line(lines[i as int]) {
            PromptLineView::Exit => Seq::empty(),
            PromptLineView::Skip => spec_prompt_session(lines, i + 1),
            PromptLineView::Command { json } => seq![json] + spec_prompt_session(lines, i + 1),
        }
    }
}

/// How many lines a session typed `lines` reads from line `i` on: up to and including the
/// first `exit` line, or every line.
pub open spec fn spec_prompt_lines_read(lines: Seq<Seq<char>>, i: nat) -> nat
    decreases lines.len() - i,
{
    if i >= lines.len() {
        lines.len()
    } else {
        match spec_prompt_line(lines[i as int]) {
            PromptLineView::Exit => i + 1,
            _ => spec_prompt_lines_read(lines, i + 1),
        }
    }
}

/// The trimmed lines that are not empty, in order.
pub open spec fn non_empty_trimmed(lines: Seq<Seq<char>>) -> Seq<Seq<char>> {
    lines.map_values(|l: Seq<char>| trim(l)).filter(|t: Seq<char>| t.len() > 0)
}

proof fn lemma_prompt_session_from(lines: Seq<Seq<char>>, k: nat, i: nat)
    requires
        i <= k <= lines.len(),
        k < lines.len() ==> is_exit_line(lines[k as int]),
        forall|j: int| 0 <= j < k ==> !is_exit_line(#[trigger] lines[j]),
    ensures
        spec_prompt_session(lines, i) == non_empty_trimmed(lines.subrange(i as int, k as int)),
        spec_prompt_lines_read(lines, i) == if k < lines.len() {
            k + 1
        } else {
            lines.len()
        },
    decreases k - i,
{
    if i == k {
        assert(lines.subrange(i as int, k as int).map_values(|l: Seq<char>| trim(l)) =~= Seq::<
            Seq<char>,
        >::empty());
        assert(Seq::<Seq<char>>::empty().filter(|t: Seq<char>| t.len() > 0) =~= Seq::<
            Seq<char>,
        >::empty());
    } else {
        lemma_prompt_session_from(lines, k, i + 1);
        let rest = lines.subrange((i + 1) as int, k as int);
        let t = trim(lines[i as int]);
        assert(!is_exit_line(lines[i as int]));
        assert(lines.subrange(i as int, k as int) =~= seq![lines[i as int]] + rest);
        assert((seq![lines[i as int]] + rest).map_values(|l: Seq<char>| trim(l)) =~= seq![t]
            + rest.map_values(|l: Seq<char>| trim(l)));
        rest.map_values(|l: Seq<char>| trim(l)).lemma_filter_prepend(
            t,
            |t: Seq<char>| t.len() > 0,
        );
        if t.len() > 0 {
            assert(non_empty_trimmed(lines.subrange(i as int, k as int)) =~= seq![t]
                + non_empty_trimmed(rest));
        } else {
            assert(non_empty_trimmed(lines.subrange(i as int, k as int)) =~= non_empty_trimmed(
                rest,
            ));
        }
    }
}

/// A session at the prompt runs exactly the non-empty trimmed lines typed before the first
/// `exit` line (the `k`-th, or none when `k` is the number of lines), in order, and reads no
/// line after that `exit`.
pub proof fn lemma_prompt_session(lines: Seq<Seq<char>>, k: nat)
    requires
        k <= lines.len(),
        k < lines.len() ==> is_exit_line(lines[k as int]),
        forall|j: int| 0 <= j < k ==> !is_exit_line(#[trigger] lines[j]),
    ensures
        spec_prompt_session(lines, 0) == non_empty_trimmed(lines.take(k as int)),
        spec_prompt_lines_read(lines, 0) == if k < lines.len() {
            k + 1
        } else {
            lines.len()
        },
{
    lemma_prompt_session_from(lines, k, 0);
    assert(lines.subrange(0, k as int) =~= lines.take(k as int));
}

} // verus!
