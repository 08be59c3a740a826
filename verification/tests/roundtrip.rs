use pipebot::command::{ActivityKind, Command, DispatchCall, Presence};

fn reparses(cmd: Command) {
    let line = cmd.canonical();
    assert_eq!(Command::from_line(&line).unwrap(), cmd);
}

#[test]
fn canonical_message_round_trip() {
    reparses(Command::Message { channel_id: 12345, content: "lorem ipsum".to_string() });
}

#[test]
fn canonical_status_round_trip() {
    reparses(Command::Status { kind: ActivityKind::Playing, name: "a guitar".to_string() });
    reparses(Command::Status { kind: ActivityKind::ListeningTo, name: "x".to_string() });
    reparses(Command::Status { kind: ActivityKind::Watching, name: "a  b".to_string() });
    reparses(Command::Status { kind: ActivityKind::CompetingIn, name: "y z".to_string() });
}

#[test]
fn canonical_clear_round_trip() {
    reparses(Command::ClearStatus);
}

#[test]
fn canonical_message_form() {
    let cmd = Command::Message { channel_id: 907, content: "hi there".to_string() };
    assert_eq!(cmd.canonical(), "message 907 hi there");
}

#[test]
fn canonical_extreme_channel_ids() {
    let cmd = Command::Message { channel_id: 0, content: "x".to_string() };
    assert_eq!(cmd.canonical(), "message 0 x");
    let cmd = Command::Message { channel_id: u64::MAX, content: "x".to_string() };
    assert_eq!(cmd.canonical(), "message 18446744073709551615 x");
    reparses(cmd);
}

#[test]
fn canonical_status_form() {
    let cmd = Command::Status { kind: ActivityKind::CompetingIn, name: "chess".to_string() };
    assert_eq!(cmd.canonical(), "competing_in chess");
    assert_eq!(Command::ClearStatus.canonical(), "clear_status");
}

#[test]
fn normalized_line_reparses_identically() {
    // A line with irregular spacing parses to the same command as its
    // canonical form.
    let cmd = Command::from_line("  message  7   a  b \n").unwrap();
    assert_eq!(cmd.canonical(), "message 7 a  b");
    assert_eq!(Command::from_line(&cmd.canonical()).unwrap(), cmd);
}

#[test]
fn dispatch_say() {
    let cmd = Command::Message { channel_id: 12345, content: "lorem ipsum".to_string() };
    match cmd.dispatch_call() {
        DispatchCall::Say { channel_id, content } => {
            assert_eq!(channel_id, 12345);
            assert_eq!(content, "lorem ipsum");
        }
        _ => panic!("expected a say call"),
    }
}

#[test]
fn dispatch_set_presence() {
    let cmd = Command::Status { kind: ActivityKind::Playing, name: "a guitar".to_string() };
    match cmd.dispatch_call() {
        DispatchCall::SetPresence(Some(Presence { name, kind })) => {
            assert_eq!(name, "a guitar");
            assert_eq!(kind, ActivityKind::Playing);
        }
        _ => panic!("expected a presence update"),
    }
}

#[test]
fn dispatch_clear_presence() {
    match Command::ClearStatus.dispatch_call() {
        DispatchCall::SetPresence(None) => {}
        _ => panic!("expected a cleared presence"),
    }
}
