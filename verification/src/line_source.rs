//! End-of-input policy for the three kinds of line sources.
//!
//! A line source reads from a standard stream, a regular file, or a
//! named pipe. The underlying read can report a zero-length result
//! without the source being finished: on a plain stream or file that is
//! a transient condition and the read is simply retried; on a named
//! pipe it means the writing peer disconnected, and the pipe must be
//! closed and reopened at the same path, blocking until a new writer
//! connects. This module holds the decision table; the surrounding
//! program performs the reads, reopens and waits, and feeds the
//! outcomes back in as events.

use vstd::prelude::*;

verus! {

/// What a line source reads from.
#[derive(Clone, Copy, Debug, PartialEq, Eq, Structural)]
pub enum SourceKind {
    /// A standard stream.
    Stream,
    /// A regular file.
    File,
    /// A named pipe, reopened when its writer disconnects.
    Pipe,
}

/// Where a line source stands.
#[derive(Clone, Copy, Debug, PartialEq, Eq, Structural)]
pub enum SourceStatus {
    /// The handle is open and readable.
    Open,
    /// The pipe's writer disconnected; the path must be reopened.
    AwaitingReopen,
    /// A fatal failure; no further reads.
    Closed,
}

/// What the surrounding program observed.
#[derive(Clone, Copy, Debug, PartialEq, Eq, Structural)]
pub enum ReadEvent {
    /// A read completed, appending this many bytes (zero means
    /// end-of-input was reported).
    Read { bytes: usize },
    /// The pipe path was reopened and a new writer connected.
    Reopened,
    /// A fatal I/O or encoding failure.
    Failed,
}

/// What the surrounding program must do next.
#[derive(Clone, Copy, Debug, PartialEq, Eq, Structural)]
pub enum SourceAction {
    /// A complete line arrived: hand it to the caller.
    Deliver,
    /// Read again from the same handle.
    Retry,
    /// Close the handle and reopen the source's path.
    Reopen,
    /// Stop: the source failed fatally.
    Fail,
}

/// One line source: its kind, the path a pipe reopens, and its status.
pub struct LineSource {
    pub kind: SourceKind,
    pub path: Option<String>,
    pub status: SourceStatus,
}

/// The transition table. A zero-length read leaves a plain source
/// retrying against the same handle and sends a pipe into reopening;
/// data delivers a line; any protocol mismatch or failure closes the
/// source.
pub open spec fn step_spec(s: LineSource, ev: ReadEvent) -> (LineSource, SourceAction) {
    match ev {
        ReadEvent::Read { bytes } => {
            if s.status != SourceStatus::Open {
                (LineSource { status: SourceStatus::Closed, ..s }, SourceAction::Fail)
            } else if bytes > 0 {
                (s, SourceAction::Deliver)
            } else if s.kind == SourceKind::Pipe {
                (LineSource { status: SourceStatus::AwaitingReopen, ..s }, SourceAction::Reopen)
            } else {
                (s, SourceAction::Retry)
            }
        },
        ReadEvent::Reopened => {
            if s.status == SourceStatus::AwaitingReopen {
                (LineSource { status: SourceStatus::Open, ..s }, SourceAction::Retry)
            } else {
                (LineSource { status: SourceStatus::Closed, ..s }, SourceAction::Fail)
            }
        },
        ReadEvent::Failed => (
            LineSource { status: SourceStatus::Closed, ..s },
            SourceAction::Fail,
        ),
    }
}

impl LineSource {
    /// Only a pipe carries a path or awaits a reopen.
    pub open spec fn wf(&self) -> bool {
        &&& self.path is Some <==> self.kind == SourceKind::Pipe
        &&& self.status == SourceStatus::AwaitingReopen ==> self.kind == SourceKind::Pipe
    }

    pub fn stream() -> (r: LineSource)
        ensures
            r.wf(),
            r.kind == SourceKind::Stream,
            r.status == SourceStatus::Open,
    {
        LineSource { kind: SourceKind::Stream, path: None, status: SourceStatus::Open }
    }

    pub fn file() -> (r: LineSource)
        ensures
            r.wf(),
            r.kind == SourceKind::File,
            r.status == SourceStatus::Open,
    {
        LineSource { kind: SourceKind::File, path: None, status: SourceStatus::Open }
    }

    pub fn pipe(path: String) -> (r: LineSource)
        ensures
            r.wf(),
            r.kind == SourceKind::Pipe,
            r.status == SourceStatus::Open,
            r.path == Some(path),
    {
        LineSource { kind: SourceKind::Pipe, path: Some(path), status: SourceStatus::Open }
    }

    /// Feed one observed event in; the result says what to do next.
    pub fn step(&mut self, ev: ReadEvent) -> (a: SourceAction)
        requires
            old(self).wf(),
        ensures
            final(self).wf(),
            (*final(self), a) == step_spec(*old(self), ev),
    {
        match ev {
            ReadEvent::Read { bytes } => {
                if !matches!(self.status, SourceStatus::Open) {
                    self.status = SourceStatus::Closed;
                    SourceAction::Fail
                } else if bytes > 0 {
                    SourceAction::Deliver
                } else if matches!(self.kind, SourceKind::Pipe) {
                    self.status = SourceStatus::AwaitingReopen;
                    SourceAction::Reopen
                } else {
                    SourceAction::Retry
                }
            },
            ReadEvent::Reopened => {
                if matches!(self.status, SourceStatus::AwaitingReopen) {
                    self.status = SourceStatus::Open;
                    SourceAction::Retry
                } else {
                    self.status = SourceStatus::Closed;
                    SourceAction::Fail
                }
            },
            ReadEvent::Failed => {
                self.status = SourceStatus::Closed;
                SourceAction::Fail
            },
        }
    }
}

/// A plain stream or file source never reacts to a zero-length read
/// with a delivery or a failure: it stays open and retries the same
/// handle, however often end-of-input is reported. No spurious empty
/// line can therefore reach the parser from such a source.
pub proof fn lemma_plain_source_retries(s: LineSource)
    requires
        s.wf(),
        s.status == SourceStatus::Open,
        s.kind != SourceKind::Pipe,
    ensures
        step_spec(s, ReadEvent::Read { bytes: 0 }) == (s, SourceAction::Retry),
{
}

/// After a pipe's writer disconnects (a zero-length read), the source
/// asks for a reopen of the same path, resumes reading once a new
/// writer connected, and the next data read delivers a line — no error
/// surfaces at any of the three steps.
pub proof fn lemma_pipe_reopens(s: LineSource, n: usize)
    requires
        s.wf(),
        s.status == SourceStatus::Open,
        s.kind == SourceKind::Pipe,
        n > 0,
    ensures
        ({
            let (s1, a1) = step_spec(s, ReadEvent::Read { bytes: 0 });
            let (s2, a2) = step_spec(s1, ReadEvent::Reopened);
            let (s3, a3) = step_spec(s2, ReadEvent::Read { bytes: n });
            &&& a1 == SourceAction::Reopen
            &&& s1.status == SourceStatus::AwaitingReopen
            &&& s1.path == s.path
            &&& a2 == SourceAction::Retry
            &&& s2.status == SourceStatus::Open
            &&& s2.path == s.path
            &&& a3 == SourceAction::Deliver
            &&& s3 == s2
        }),
{
}

} // verus!
