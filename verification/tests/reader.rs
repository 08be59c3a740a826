use pipebot::command::Command;
use pipebot::command_reader::{CommandError, CommandReader, MemoryReader};

fn memory_reader(entries: &[&str]) -> MemoryReader {
    MemoryReader::new(entries.iter().map(|s| s.to_string()).collect())
}

#[test]
fn reads_one_command_per_line() {
    let mut reader = CommandReader::new(memory_reader(&[
        "message 1 first\n",
        "clear_status\n",
    ]));
    assert_eq!(
        reader.next().unwrap(),
        Command::Message { channel_id: 1, content: "first".to_string() }
    );
    assert_eq!(reader.next().unwrap(), Command::ClearStatus);
}

#[test]
fn ignores_eofs() {
    // Zero-length reads before real data never surface: the reader
    // consumes both entries and delivers the one real line.
    let mut reader = CommandReader::new(memory_reader(&["", "clear_status\n"]));
    assert_eq!(reader.next().unwrap(), Command::ClearStatus);
    assert_eq!(reader.inner.calls, vec![0, 13]);
}

#[test]
fn repeated_eofs_never_make_an_empty_command() {
    let mut reader = CommandReader::new(memory_reader(&["", "", "", "playing x\n"]));
    match reader.next().unwrap() {
        Command::Status { .. } => {}
        other => panic!("unexpected command: {:?}", other),
    }
    assert_eq!(reader.inner.calls, vec![0, 0, 0, 10]);
}

#[test]
fn parse_failures_are_recoverable() {
    // A malformed line yields a parse diagnostic, and the reader
    // carries on with the next line untouched by the failed one.
    let mut reader = CommandReader::new(memory_reader(&["lorem\n", "clear_status\n"]));
    match reader.next() {
        Err(CommandError::Parse(e)) => {
            let line: String = e.line.iter().collect();
            assert_eq!(line, "lorem");
        }
        other => panic!("expected a parse failure, got {:?}", other.is_ok()),
    }
    assert_eq!(reader.next().unwrap(), Command::ClearStatus);
}

#[test]
fn exhausted_reader_fails_as_read_error() {
    let mut reader = CommandReader::new(memory_reader(&["clear_status\n"]));
    assert_eq!(reader.next().unwrap(), Command::ClearStatus);
    match reader.next() {
        Err(CommandError::Read(e)) => assert_eq!(e.message, "no further input"),
        other => panic!("expected a read failure, got {:?}", other.is_ok()),
    }
}

#[test]
fn buffer_holds_the_last_line() {
    let mut reader = CommandReader::new(memory_reader(&["clear_status\n"]));
    reader.next().unwrap();
    assert_eq!(reader.buffer, "clear_status\n");
}
