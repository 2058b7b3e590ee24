use intern_local::repl::{read_prompt_line, PromptLine};
use intern_local::server::{batch_after, batch_start, session_action, BatchAction, Incoming, SessionAction};

#[test]
fn prompt_lines() {
    assert_eq!(read_prompt_line("exit\n"), PromptLine::Exit);
    assert_eq!(read_prompt_line("  ExIt  "), PromptLine::Exit);
    assert_eq!(read_prompt_line("   \n"), PromptLine::Skip);
    assert_eq!(read_prompt_line(""), PromptLine::Skip);
    assert_eq!(
        read_prompt_line(" {\"index\":1} \n"),
        PromptLine::Command { json: "{\"index\":1}".to_string() }
    );
    assert_eq!(read_prompt_line("exits"), PromptLine::Command { json: "exits".to_string() });
}

#[test]
fn session_actions() {
    assert_eq!(session_action(Incoming::Text), SessionAction::HandleText);
    assert_eq!(session_action(Incoming::Ping), SessionAction::Pong);
    assert_eq!(session_action(Incoming::Close), SessionAction::Disconnect);
    assert_eq!(session_action(Incoming::Lost), SessionAction::Disconnect);
    assert_eq!(session_action(Incoming::Other), SessionAction::Ignore);
}

#[test]
fn batch_runs_in_order_and_stops_at_the_first_error() {
    assert_eq!(batch_start(0), BatchAction::Done);
    assert_eq!(batch_start(3), BatchAction::Run { index: 0 });
    assert_eq!(batch_after(3, 0, Ok(())), BatchAction::Run { index: 1 });
    assert_eq!(batch_after(3, 2, Ok(())), BatchAction::Done);
    assert_eq!(
        batch_after(3, 1, Err("unknown instruction".to_string())),
        BatchAction::Stop { error: "unknown instruction".to_string() }
    );
}

#[test]
fn prompt_session_runs_lines_before_exit() {
    let lines = [" {\"a\":1} ", "", "  ", "{\"b\":2}", " EXIT ", "{\"c\":3}"];
    let mut commands = Vec::new();
    let mut read = 0;
    for line in lines {
        read += 1;
        match read_prompt_line(line) {
            PromptLine::Exit => break,
            PromptLine::Skip => continue,
            PromptLine::Command { json } => commands.push(json),
        }
    }
    assert_eq!(commands, vec!["{\"a\":1}".to_string(), "{\"b\":2}".to_string()]);
    assert_eq!(read, 5);
}
