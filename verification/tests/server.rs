use intern_local::server::{read_request, Request};

#[test]
fn ping_in_any_case() {
    assert!(matches!(read_request(Some("PiNg"), None, None, None), Request::Ping));
    assert!(matches!(
        read_request(Some("ping"), Some(3), Some("click 1 2".to_string()), None),
        Request::Ping
    ));
}

#[test]
fn missing_instruction_is_refused() {
    match read_request(Some("run"), Some(1), None, Some("t".to_string())) {
        Request::Invalid { error } => assert_eq!(error, "missing instruction"),
        other => panic!("{other:?}"),
    }
    match read_request(None, None, None, None) {
        Request::Invalid { error } => assert_eq!(error, "missing instruction"),
        other => panic!("{other:?}"),
    }
}

#[test]
fn bracketed_instruction_is_a_batch() {
    match read_request(None, None, Some("  [ {\"index\":1} ] \n".to_string()), None) {
        Request::Batch { json } => assert_eq!(json, "[ {\"index\":1} ]"),
        other => panic!("{other:?}"),
    }
}

#[test]
fn single_command_defaults() {
    match read_request(None, None, Some(" noop ".to_string()), None) {
        Request::Single { command } => {
            assert_eq!(command.index, 0);
            assert_eq!(command.instruction, " noop ");
            assert_eq!(command.tag, "ws");
        }
        other => panic!("{other:?}"),
    }
    match read_request(Some("exec"), Some(9), Some("wait 1".to_string()), Some("mine".to_string())) {
        Request::Single { command } => {
            assert_eq!(command.index, 9);
            assert_eq!(command.instruction, "wait 1");
            assert_eq!(command.tag, "mine");
        }
        other => panic!("{other:?}"),
    }
}
