use pipebot::command::{ActivityKind, Command};
use pipebot::tokenizer::TokenizerError;

fn parse(s: &str) -> Result<Command, TokenizerError> {
    Command::from_line(s)
}

fn bad(s: &str) -> String {
    parse(s).unwrap_err().render()
}

#[test]
fn parse_empty_command() {
    assert_eq!(bad("\n"), "| \n| ^ expected command");
}

#[test]
fn parse_whitespace_only_line() {
    assert_eq!(bad("   \n"), "|    \n| ^ expected command");
}

#[test]
fn parse_unrecognized_command() {
    assert_eq!(
        bad("lorem\n"),
        "| lorem\n| ^^^^^ expected 'message', 'playing', 'listening_to', 'watching', 'competing_in', or 'clear_status'"
    );
}

#[test]
fn parse_message_missing_channel() {
    assert_eq!(bad("message\n"), "| message\n|         ^ expected channel ID");
}

#[test]
fn parse_message_bad_channel() {
    assert_eq!(
        bad("message lorem\n"),
        "| message lorem\n|         ^^^^^ channel ID must be a number"
    );
}

#[test]
fn parse_message_overflowing_channel() {
    assert_eq!(
        bad("message 18446744073709551616 hi\n"),
        "| message 18446744073709551616 hi\n|         ^^^^^^^^^^^^^^^^^^^^ channel ID must be a number"
    );
}

#[test]
fn parse_message_plus_signed_channel() {
    // Unsigned-integer syntax takes one leading plus sign.
    assert_eq!(
        parse("message +12345 lorem ipsum\n").unwrap(),
        Command::Message { channel_id: 12345, content: "lorem ipsum".to_string() }
    );
}

#[test]
fn parse_message_plus_sign_alone_is_no_channel() {
    assert_eq!(
        bad("message + hi\n"),
        "| message + hi\n|         ^ channel ID must be a number"
    );
}

#[test]
fn parse_message_largest_channel() {
    assert_eq!(
        parse("message 18446744073709551615 hi\n").unwrap(),
        Command::Message { channel_id: u64::MAX, content: "hi".to_string() }
    );
}

#[test]
fn parse_message_missing_message() {
    assert_eq!(
        bad("message 12345\n"),
        "| message 12345\n|               ^ expected message"
    );
}

#[test]
fn parse_message_missing_message_trailing_spaces() {
    // The span still sits at the end of the trimmed text, so the caret
    // stands on the first trailing space rather than past the line.
    assert_eq!(
        bad("message 12345  \n"),
        "| message 12345  \n|              ^ expected message"
    );
}

#[test]
fn send_message() {
    assert_eq!(
        parse("message 12345 lorem ipsum\n").unwrap(),
        Command::Message { channel_id: 12345, content: "lorem ipsum".to_string() }
    );
}

#[test]
fn parse_message_normalizes_surrounding_whitespace() {
    assert_eq!(
        parse(" \t message  12345   lorem  ipsum \t \n").unwrap(),
        Command::Message { channel_id: 12345, content: "lorem  ipsum".to_string() }
    );
}

#[test]
fn parse_clear_status_with_args() {
    assert_eq!(
        bad("clear_status lorem ipsum\n"),
        "| clear_status lorem ipsum\n|              ^^^^^^^^^^^ unexpected text"
    );
}

#[test]
fn clear_status() {
    assert_eq!(parse("clear_status\n").unwrap(), Command::ClearStatus);
}

#[test]
fn parse_playing_empty_status() {
    assert_eq!(bad("playing\n"), "| playing\n|         ^ expected text");
}

#[test]
fn set_playing_status() {
    assert_eq!(
        parse("playing a guitar\n").unwrap(),
        Command::Status { kind: ActivityKind::Playing, name: "a guitar".to_string() }
    );
}

#[test]
fn parse_listening_to() {
    assert_eq!(
        parse("listening_to the rain\n").unwrap(),
        Command::Status { kind: ActivityKind::ListeningTo, name: "the rain".to_string() }
    );
}

#[test]
fn parse_watching() {
    assert_eq!(
        parse("watching birds\n").unwrap(),
        Command::Status { kind: ActivityKind::Watching, name: "birds".to_string() }
    );
}

#[test]
fn parse_competing_in() {
    assert_eq!(
        parse("competing_in a chess match\n").unwrap(),
        Command::Status { kind: ActivityKind::CompetingIn, name: "a chess match".to_string() }
    );
}

#[test]
fn parse_without_trailing_newline() {
    assert_eq!(parse("clear_status").unwrap(), Command::ClearStatus);
}

#[test]
fn parse_error_fields() {
    let e = parse("message lorem\n").unwrap_err();
    let line: String = e.line.iter().collect();
    assert_eq!(line, "message lorem");
    assert_eq!((e.start, e.end), (8, 13));
}
