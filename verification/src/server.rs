//! What a WebSocket text message asks the agent to do.
use vstd::prelude::*;
use crate::command::{CommandItem, CommandItemView};
use crate::text::{chars_of, eq_ignore_case, eq_ignore_case_at, trim, trim_bounds};

verus! {

broadcast use vstd::string::group_string_axioms;

/// A message's request.
#[derive(Debug)]
pub enum Request {
    /// Answer with a pong.
    Ping,
    /// Run the commands of the JSON array `json`, in its order.
    Batch { json: String },
    /// Run one command.
    Single { command: CommandItem },
    /// Refuse the message with `error`.
    Invalid { error: String },
}

pub enum RequestView {
    Ping,
    Batch { json: Seq<char> },
    Single { command: CommandItemView },
    Invalid { error: Seq<char> },
}

impl View for Request {
    type V = RequestView;

    open spec fn view(&self) -> RequestView {
        match self {
            Request::Ping => RequestView::Ping,
            Request::Batch { json } => RequestView::Batch { json: json@ },
            Request::Single { command } => RequestView::Single { command: command@ },
            Request::Invalid { error } => RequestView::Invalid { error: error@ },
        }
    }
}

/// The request of a message with fields `type`, `index`, `instruction` and `tag`: a ping when
/// its type is `ping` (any ASCII case); otherwise its instruction is required; an instruction
/// that starts with `[` once trimmed is a batch (the trimmed text); any other is one command,
/// with index 0 and tag `ws` when the message gives none.
pub open spec fn spec_request(
    msg_type: Option<Seq<char>>,
    index: Option<u32>,
    instruction: Option<Seq<char>>,
    tag: Option<Seq<char>>,
) -> RequestView {
    if msg_type matches Some(t) && eq_ignore_case(t, "ping"@) {
        RequestView::Ping
    } else {
        match instruction {
            None => RequestView::Invalid { error: "missing instruction"@ },
            Some(text) => {
                let t = trim(text);
                if t.len() > 0 && t[0] == '[' {
                    RequestView::Batch { json: t }
                } else {
                    RequestView::Single {
                        command: CommandItemView {
                            index: match index {
                                Some(i) => i,
                                None => 0,
                            },
                            instruction: text,
                            tag: match tag {
                                Some(g) => g,
                                None => "ws"@,
                            },
                        },
                    }
                }
            },
        }
    }
}

/// Reads the request of a message (see [`spec_request`]).
pub fn read_request(
    msg_type: Option<&str>,
    index: Option<u32>,
    instruction: Option<String>,
    tag: Option<String>,
) -> (r: Request)
    ensures
        r@ == spec_request(
            match msg_type {
                Some(t) => Some(t@),
                None => None,
            },
            index,
            match instruction {
                Some(s) => Some(s@),
                None => None,
            },
            match tag {
                Some(s) => Some(s@),
                None => None,
            },
        ),
{
    if let Some(t) = msg_type {
        let cs = chars_of(t);
        assert(cs@.subrange(0, cs@.len() as int) =~= t@);
        if eq_ignore_case_at(&cs, 0, cs.len(), "ping") {
            return Request::Ping;
        }
    }
    let text = match instruction {
        None => return Request::Invalid { error: String::from_str("missing instruction") },
        Some(s) => s,
    };
    let cs = chars_of(text.as_str());
    assert(cs@.subrange(0, cs@.len() as int) =~= text@);
    let (a, b) = trim_bounds(&cs, 0, cs.len());
    if a < b && cs[a] == '[' {
        let json = String::from_str(text.as_str().substring_char(a, b));
        return Request::Batch { json };
    }
    let index = match index {
        Some(i) => i,
        None => 0,
    };
    let tag = match tag {
        Some(g) => g,
        None => String::from_str("ws"),
    };
    Request::Single { command: CommandItem { index, instruction: text, tag } }
}

/// What reading the next WebSocket message of a connection gave.
#[derive(Debug, Clone, Copy, PartialEq, Eq, Structural)]
pub enum Incoming {
    /// A text message.
    Text,
    /// A ping frame.
    Ping,
    /// The client closed the connection.
    Close,
    /// Any other frame (binary, pong, ...).
    Other,
    /// The read failed: the client is gone.
    Lost,
}

/// What the server does with what it read.
#[derive(Debug, Clone, Copy, PartialEq, Eq, Structural)]
pub enum SessionAction {
    /// Handle the text as a request, answering an error message when it fails.
    HandleText,
    /// Answer with a pong carrying the ping's payload.
    Pong,
    /// Read the next message.
    Ignore,
    /// Stop serving this connection and wait for the next one.
    Disconnect,
}

pub open spec fn spec_session_action(incoming: Incoming) -> SessionAction {
    match incoming {
        Incoming::Text => SessionAction::HandleText,
        Incoming::Ping => SessionAction::Pong,
        Incoming::Close | Incoming::Lost => SessionAction::Disconnect,
        Incoming::Other => SessionAction::Ignore,
    }
}

/// The server's answer to what it read from a connection (see [`spec_session_action`]).
pub fn session_action(incoming: Incoming) -> (r: SessionAction)
    ensures
        r == spec_session_action(incoming),
{
    match incoming {
        Incoming::Text => SessionAction::HandleText,
        Incoming::Ping => SessionAction::Pong,
        Incoming::Close | Incoming::Lost => SessionAction::Disconnect,
        Incoming::Other => SessionAction::Ignore,
    }
}

/// What the server does next with a batch of commands.
#[derive(Debug, PartialEq, Eq)]
pub enum BatchAction {
    /// Run the command at `index` and send its record.
    Run { index: usize },
    /// Stop: the request fails with `error`, and no later command runs.
    Stop { error: String },
    /// Every command ran.
    Done,
}

pub enum BatchActionView {
    Run { index: int },
    Stop { error: Seq<char> },
    Done,
}

impl View for BatchAction {
    type V = BatchActionView;

    open spec fn view(&self) -> BatchActionView {
        match self {
            BatchAction::Run { index } => BatchActionView::Run { index: *index as int },
            BatchAction::Stop { error } => BatchActionView::Stop { error: error@ },
            BatchAction::Done => BatchActionView::Done,
        }
    }
}

/// The first action for a batch of `len` commands: the first command, or done when there is
/// none.
pub open spec fn spec_batch_start(len: nat) -> BatchActionView {
    if len == 0 {
        BatchActionView::Done
    } else {
        BatchActionView::Run { index: 0 }
    }
}

/// The action once the command at `index` (of `len`) was run and sent, `done` being the
/// error that running or sending it gave, if any: stop at that error; otherwise the next
/// command, in the array's order, or done after the last.
pub open spec fn spec_batch_after(len: nat, index: int, done: Result<(), Seq<char>>) -> BatchActionView {
    match done {
        Err(e) => BatchActionView::Stop { error: e },
        Ok(()) => if index + 1 < len {
            BatchActionView::Run { index: index + 1 }
        } else {
            BatchActionView::Done
        },
    }
}

/// Starts a batch of `len` commands (see [`spec_batch_start`]).
pub fn batch_start(len: usize) -> (r: BatchAction)
    ensures
        r@ == spec_batch_start(len as nat),
{
    if len == 0 {
        BatchAction::Done
    } else {
        BatchAction::Run { index: 0 }
    }
}

/// The next action of a batch of `len` commands once the command at `index` gave `done`
/// (see [`spec_batch_after`]).
pub fn batch_after(len: usize, index: usize, done: Result<(), String>) -> (r: BatchAction)
    requires
        index < len,
    ensures
        r@ == spec_batch_after(
            len as nat,
            index as int,
            match done {
                Ok(()) => Ok(()),
                Err(e) => Err(e@),
            },
        ),
        r matches BatchAction::Run { index: next } ==> next < len,
{
    match done {
        Err(e) => BatchAction::Stop { error: e },
        Ok(()) => if index + 1 < len {
            BatchAction::Run { index: index + 1 }
        } else {
            BatchAction::Done
        },
    }
}

/// What a batch comes to from the command at `i` on, when the command at each `j` gives
/// `results[j]`: the first error, or success when every command succeeds.
pub open spec fn spec_batch_result(results: Seq<Result<(), Seq<char>>>, i: nat) -> Result<(), Seq<char>>
    decreases results.len() - i,
{
    if i >= results.len() {
        Ok(())
    } else {
        match results[i as int] {
            Err(e) => Err(e),
            Ok(()) => spec_batch_result(results, i + 1),
        }
    }
}

/// How many commands of a batch run, counted from the first, when the batch is carried out
/// from the command at `i` on with `results`: every one up to and including the first that
/// fails.
pub open spec fn spec_batch_ran(results: Seq<Result<(), Seq<char>>>, i: nat) -> nat
    decreases results.len() - i,
{
    if i >= results.len() {
        results.len()
    } else {
        match results[i as int] {
            Err(_) => i + 1,
            Ok(()) => spec_batch_ran(results, i + 1),
        }
    }
}

/// After the command at `i` gave `results[i]`, the next action is the command at `i + 1`
/// with the same outcome and count of commands run, or the end of the batch (stopped or done)
/// with the outcome and count that [`spec_batch_result`] and [`spec_batch_ran`] give from `i`.
pub open spec fn batch_after_keeps_run(results: Seq<Result<(), Seq<char>>>, i: nat) -> bool {
    match spec_batch_after(results.len(), i as int, results[i as int]) {
        BatchActionView::Run { index } => {
            &&& index == i + 1
            &&& spec_batch_result(results, i) == spec_batch_result(results, i + 1)
            &&& spec_batch_ran(results, i) == spec_batch_ran(results, i + 1)
        },
        BatchActionView::Stop { error } => {
            &&& spec_batch_result(results, i) == Err::<(), Seq<char>>(error)
            &&& spec_batch_ran(results, i) == i + 1
        },
        BatchActionView::Done => {
            &&& spec_batch_result(results, i) == Ok::<(), Seq<char>>(())
            &&& spec_batch_ran(results, i) == results.len()
        },
    }
}

/// The commands of a batch run in the array's order, each once, until the first that fails,
/// whose error the request fails with: carried out from [`batch_start`] through
/// [`batch_after`], the first action is the first command (or done for an empty batch), and
/// every later action keeps what the whole batch comes to (see [`batch_after_keeps_run`]).
pub proof fn lemma_batch_run(results: Seq<Result<(), Seq<char>>>, i: nat)
    requires
        i < results.len(),
    ensures
        spec_batch_start(results.len()) == (BatchActionView::Run { index: 0 }),
        batch_after_keeps_run(results, i),
{
    reveal_with_fuel(spec_batch_result, 2);
    reveal_with_fuel(spec_batch_ran, 2);
}

/// An empty batch is done at once: it succeeds with no command run.
pub proof fn lemma_empty_batch(results: Seq<Result<(), Seq<char>>>)
    requires
        results.len() == 0,
    ensures
        spec_batch_start(results.len()) == BatchActionView::Done,
        spec_batch_result(results, 0) == Ok::<(), Seq<char>>(()),
        spec_batch_ran(results, 0) == 0,
{
}

} // verus!
