use pipebot::line_source::{LineSource, ReadEvent, SourceAction, SourceKind, SourceStatus};

#[test]
fn stream_retries_on_zero_read() {
    let mut s = LineSource::stream();
    for _ in 0..3 {
        assert_eq!(s.step(ReadEvent::Read { bytes: 0 }), SourceAction::Retry);
        assert_eq!(s.status, SourceStatus::Open);
    }
    assert_eq!(s.step(ReadEvent::Read { bytes: 13 }), SourceAction::Deliver);
}

#[test]
fn file_retries_on_zero_read() {
    let mut s = LineSource::file();
    assert_eq!(s.step(ReadEvent::Read { bytes: 0 }), SourceAction::Retry);
    assert_eq!(s.status, SourceStatus::Open);
}

#[test]
fn pipe_reopens_after_writer_disconnect() {
    // A writer disconnect (zero-length read) asks for a reopen of the
    // same path; once a new writer connects, reading resumes and the
    // next line delivers, with no failure surfacing.
    let mut s = LineSource::pipe("/run/bot.fifo".to_string());
    assert_eq!(s.step(ReadEvent::Read { bytes: 0 }), SourceAction::Reopen);
    assert_eq!(s.status, SourceStatus::AwaitingReopen);
    assert_eq!(s.path.as_deref(), Some("/run/bot.fifo"));
    assert_eq!(s.step(ReadEvent::Reopened), SourceAction::Retry);
    assert_eq!(s.status, SourceStatus::Open);
    assert_eq!(s.step(ReadEvent::Read { bytes: 13 }), SourceAction::Deliver);
    assert_eq!(s.kind, SourceKind::Pipe);
}

#[test]
fn pipe_survives_several_writers() {
    let mut s = LineSource::pipe("p".to_string());
    for _ in 0..3 {
        assert_eq!(s.step(ReadEvent::Read { bytes: 5 }), SourceAction::Deliver);
        assert_eq!(s.step(ReadEvent::Read { bytes: 0 }), SourceAction::Reopen);
        assert_eq!(s.step(ReadEvent::Reopened), SourceAction::Retry);
    }
    assert_eq!(s.status, SourceStatus::Open);
}

#[test]
fn failure_closes_the_source() {
    let mut s = LineSource::stream();
    assert_eq!(s.step(ReadEvent::Failed), SourceAction::Fail);
    assert_eq!(s.status, SourceStatus::Closed);
    assert_eq!(s.step(ReadEvent::Read { bytes: 9 }), SourceAction::Fail);
}

#[test]
fn unexpected_reopen_is_fatal() {
    let mut s = LineSource::stream();
    assert_eq!(s.step(ReadEvent::Reopened), SourceAction::Fail);
    assert_eq!(s.status, SourceStatus::Closed);
}
