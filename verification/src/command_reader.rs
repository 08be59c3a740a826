//! Reading one command per line from a line source.
//!
//! A [`LineReader`] yields complete lines of text; the [`CommandReader`]
//! owns one line buffer and one reader, and turns each delivered line
//! into a [`Command`] or a diagnostic. Reader failures (fatal I/O) and
//! parse failures are kept apart, so a caller can stop on the former
//! and report-and-continue on the latter.

use vstd::prelude::*;
use vstd::string::StringExecFns;

use crate::command::{command_matches, error_matches, strip_newlines, Command};
use crate::tokenizer::TokenizerError;

verus! {

/// A fatal failure of the underlying line source (I/O or encoding).
#[derive(Debug)]
pub struct ReadError {
    pub message: String,
}

/// Everything `next` can fail with: a fatal source failure, or a
/// recoverable positional parse diagnostic for one line.
#[derive(Debug)]
pub enum CommandError {
    Read(ReadError),
    Parse(TokenizerError),
}

/// A source of complete lines of text. An implementation appends the
/// next full line (terminator included) to `buf`, absorbing whatever
/// transient end-of-input conditions its kind of stream produces, and
/// fails only fatally.
pub trait LineReader {
    /// The complete lines this reader still has to deliver, in order.
    spec fn deliveries(&self) -> Seq<Seq<char>>;

    /// Append exactly the next delivery to `buf` and consume it; fail
    /// only when nothing remains to deliver, leaving `buf` untouched.
    fn read_line(&mut self, buf: &mut String) -> (r: Result<(), ReadError>)
        ensures
            match r {
                Ok(_) => {
                    &&& old(self).deliveries().len() > 0
                    &&& final(buf)@ == old(buf)@ + old(self).deliveries()[0]
                    &&& final(self).deliveries() == old(self).deliveries().drop_first()
                },
                Err(_) => {
                    &&& old(self).deliveries().len() == 0
                    &&& final(self).deliveries() == old(self).deliveries()
                    &&& final(buf)@ == old(buf)@
                },
            },
    ;
}

/// Pulls one line from a [`LineReader`] and parses it into a command.
pub struct CommandReader<R> {
    pub buffer: String,
    pub inner: R,
}

impl<R: LineReader> CommandReader<R> {
    pub fn new(inner: R) -> (r: CommandReader<R>)
        ensures
            r.buffer@ == Seq::<char>::empty(),
            r.inner == inner,
    {
        CommandReader { buffer: String::new(), inner }
    }

    /// Clear the buffer, fill it with the reader's next line, and
    /// parse that line (trailing newlines stripped) into a command.
    /// The buffer afterwards holds exactly the delivered line: nothing
    /// from an earlier iteration reaches this one.
    pub fn next(&mut self) -> (r: Result<Command, CommandError>)
        ensures
            match r {
                Ok(c) => {
                    &&& old(self).inner.deliveries().len() > 0
                    &&& final(self).buffer@ == old(self).inner.deliveries()[0]
                    &&& final(self).inner.deliveries() == old(self).inner.deliveries()
                        .drop_first()
                    &&& command_matches(strip_newlines(final(self).buffer@), c)
                },
                Err(CommandError::Parse(e)) => {
                    &&& old(self).inner.deliveries().len() > 0
                    &&& final(self).buffer@ == old(self).inner.deliveries()[0]
                    &&& final(self).inner.deliveries() == old(self).inner.deliveries()
                        .drop_first()
                    &&& error_matches(strip_newlines(final(self).buffer@), e)
                    &&& e.wf()
                },
                Err(CommandError::Read(_)) => {
                    &&& old(self).inner.deliveries().len() == 0
                    &&& final(self).inner.deliveries() == old(self).inner.deliveries()
                    &&& final(self).buffer@ == Seq::<char>::empty()
                },
            },
    {
        self.buffer = String::new();
        let ghost pre = self.inner.deliveries();
        match self.inner.read_line(&mut self.buffer) {
            Err(e) => {
                proof {
                    assert(self.buffer@ =~= Seq::<char>::empty());
                }
                Err(CommandError::Read(e))
            },
            Ok(_) => {
                proof {
                    assert(self.buffer@ =~= pre[0]);
                }
                match Command::from_line(self.buffer.as_str()) {
                    Ok(c) => Ok(c),
                    Err(e) => Err(CommandError::Parse(e)),
                }
            },
        }
    }
}

/// Index of the first non-empty line at or after `i`, or `lines.len()`.
pub open spec fn next_nonempty(lines: Seq<String>, i: int) -> int
    recommends
        0 <= i <= lines.len(),
    decreases lines.len() - i,
{
    if i < 0 || i >= lines.len() {
        lines.len() as int
    } else if lines[i]@.len() > 0 {
        i
    } else {
        next_nonempty(lines, i + 1)
    }
}

/// The lengths of the entries `lines[i..j]`, in order.
pub open spec fn entry_lens(lines: Seq<String>, i: int, j: int) -> Seq<usize> {
    Seq::new((j - i) as nat, |k: int| lines[i + k]@.len() as usize)
}

/// The non-empty entries of `lines` from `i` on: what a reader over
/// these entries still delivers as lines.
pub open spec fn nonempty_views(lines: Seq<String>, i: int) -> Seq<Seq<char>>
    decreases lines.len() - i,
{
    if i < 0 || i >= lines.len() {
        Seq::empty()
    } else if lines[i]@.len() > 0 {
        seq![lines[i]@] + nonempty_views(lines, i + 1)
    } else {
        nonempty_views(lines, i + 1)
    }
}

/// The deliveries from `i` start at the first non-empty entry.
proof fn lemma_nonempty_views_head(lines: Seq<String>, i: int)
    requires
        0 <= i <= lines.len(),
    ensures
        next_nonempty(lines, i) == lines.len() ==> nonempty_views(lines, i)
            == Seq::<Seq<char>>::empty(),
        next_nonempty(lines, i) < lines.len() ==> nonempty_views(lines, i) == seq![
            lines[next_nonempty(lines, i)]@,
        ] + nonempty_views(lines, next_nonempty(lines, i) + 1),
    decreases lines.len() - i,
{
    if i < lines.len() && lines[i]@.len() == 0 {
        lemma_nonempty_views_head(lines, i + 1);
    }
}

/// A line source fed from memory. Each entry stands for one read
/// result from an underlying handle: an empty entry is a transient
/// zero-length read and is absorbed (never delivered as a line), as a
/// plain-stream source absorbs end-of-input; the lengths of all
/// consumed entries are recorded in `calls`.
pub struct MemoryReader {
    pub lines: Vec<String>,
    pub next_idx: usize,
    pub calls: Vec<usize>,
}

impl MemoryReader {
    pub fn new(lines: Vec<String>) -> (r: MemoryReader)
        ensures
            r.lines == lines,
            r.next_idx == 0,
            r.calls@ == Seq::<usize>::empty(),
    {
        MemoryReader { lines, next_idx: 0, calls: Vec::new() }
    }
}

impl LineReader for MemoryReader {
    open spec fn deliveries(&self) -> Seq<Seq<char>> {
        nonempty_views(self.lines@, self.next_idx as int)
    }

    /// Deliver the next non-empty entry, recording the length of every
    /// entry consumed on the way; fail once the entries are exhausted.
    fn read_line(&mut self, buf: &mut String) -> (r: Result<(), ReadError>)
        ensures
            final(self).lines == old(self).lines,
            old(self).next_idx as int <= old(self).lines@.len() ==> ({
                let j = next_nonempty(old(self).lines@, old(self).next_idx as int);
                match r {
                    Ok(_) => {
                        &&& j < old(self).lines@.len()
                        &&& final(buf)@ == old(buf)@ + old(self).lines@[j]@
                        &&& final(self).next_idx == j + 1
                        &&& final(self).calls@ == old(self).calls@ + entry_lens(
                            old(self).lines@,
                            old(self).next_idx as int,
                            j + 1,
                        )
                    },
                    Err(_) => {
                        &&& j == old(self).lines@.len()
                        &&& final(buf)@ == old(buf)@
                        &&& final(self).next_idx == old(self).lines@.len()
                        &&& final(self).calls@ == old(self).calls@ + entry_lens(
                            old(self).lines@,
                            old(self).next_idx as int,
                            j,
                        )
                    },
                }
            }),
    {
        if self.next_idx > self.lines.len() {
            return Err(ReadError { message: String::from_str("no further input") });
        }
        proof {
            lemma_nonempty_views_head(self.lines@, self.next_idx as int);
        }
        let ghost start = self.next_idx as int;
        let ghost j = next_nonempty(self.lines@, self.next_idx as int);
        loop
            invariant
                start <= self.next_idx as int <= self.lines@.len(),
                self.lines == old(self).lines,
                start == old(self).next_idx,
                j == next_nonempty(self.lines@, self.next_idx as int),
                j == next_nonempty(self.lines@, start),
                buf@ == old(buf)@,
                self.calls@ == old(self).calls@ + entry_lens(
                    self.lines@,
                    start,
                    self.next_idx as int,
                ),
                forall|k: int| start <= k < self.next_idx as int ==> self.lines@[k]@.len() == 0,
            decreases self.lines@.len() - self.next_idx,
        {
            if self.next_idx >= self.lines.len() {
                proof {
                    lemma_nonempty_views_head(self.lines@, start);
                    assert(nonempty_views(self.lines@, start) == Seq::<Seq<char>>::empty());
                }
                return Err(ReadError { message: String::from_str("no further input") });
            }
            let line: &String = &self.lines[self.next_idx];
            let len = line.as_str().unicode_len();
            self.calls.push(len);
            self.next_idx = self.next_idx + 1;
            proof {
                assert(self.calls@ =~= old(self).calls@ + entry_lens(
                    self.lines@,
                    start,
                    self.next_idx as int,
                ));
            }
            if len > 0 {
                buf.append(self.lines[self.next_idx - 1].as_str());
                proof {
                    assert(j == self.next_idx - 1);
                    lemma_nonempty_views_head(self.lines@, start);
                    assert(nonempty_views(self.lines@, start) == seq![self.lines@[j]@]
                        + nonempty_views(self.lines@, j + 1));
                    assert(nonempty_views(self.lines@, start).drop_first() =~= nonempty_views(
                        self.lines@,
                        j + 1,
                    ));
                }
                return Ok(());
            }
        }
    }
}

} // verus!
