//! Positional tokenizer for one line of text.
//!
//! A line is split into whitespace-delimited tokens, left to right, with
//! each token carrying its character offset in the original, untrimmed
//! line, so that diagnostics can point a caret at the exact offending
//! span. Leading and trailing whitespace of the line is ignored; the
//! remaining tail of a line can also be taken whole (for free-text
//! arguments that may themselves contain spaces).

use vstd::prelude::*;
use vstd::string::StrSliceExecFns;

use crate::text::copy_chars;

verus! {

/// The delimiter characters: space, tab, carriage return, line feed.
pub open spec fn is_ws(c: char) -> bool {
    c == ' ' || c == '\t' || c == '\r' || c == '\n'
}

/// First position at or after `i` (up to `limit`) holding a
/// non-whitespace character; `limit` if there is none.
pub open spec fn skip_ws(l: Seq<char>, i: int, limit: int) -> int
    recommends
        0 <= i <= limit <= l.len(),
    decreases limit - i
{
    if i >= limit || !is_ws(l[i]) {
        i
    } else {
        skip_ws(l, i + 1, limit)
    }
}

/// First position at or after `i` (up to `limit`) holding a whitespace
/// character; `limit` if there is none. Starting at a token's first
/// character, this is the position one past the token's last character.
pub open spec fn token_end(l: Seq<char>, i: int, limit: int) -> int
    recommends
        0 <= i <= limit <= l.len(),
    decreases limit - i
{
    if i >= limit || is_ws(l[i]) {
        i
    } else {
        token_end(l, i + 1, limit)
    }
}

/// Position after the last non-whitespace character of `l.take(j)`.
pub open spec fn trimmed_end(l: Seq<char>, j: int) -> int
    recommends
        0 <= j <= l.len(),
    decreases j
{
    if j <= 0 || !is_ws(l[j - 1]) {
        j
    } else {
        trimmed_end(l, j - 1)
    }
}

/// The scanning limit of a line: its length with trailing whitespace
/// ignored.
pub open spec fn line_limit(l: Seq<char>) -> int {
    trimmed_end(l, l.len() as int)
}

pub proof fn lemma_skip_ws_bounds(l: Seq<char>, i: int, limit: int)
    requires
        0 <= i <= limit <= l.len(),
    ensures
        i <= skip_ws(l, i, limit) <= limit,
        skip_ws(l, i, limit) < limit ==> !is_ws(l[skip_ws(l, i, limit)]),
        forall|k: int| i <= k < skip_ws(l, i, limit) ==> is_ws(l[k]),
    decreases limit - i,
{
    if i < limit && is_ws(l[i]) {
        lemma_skip_ws_bounds(l, i + 1, limit);
    }
}

pub proof fn lemma_token_end_bounds(l: Seq<char>, i: int, limit: int)
    requires
        0 <= i <= limit <= l.len(),
    ensures
        i <= token_end(l, i, limit) <= limit,
        token_end(l, i, limit) < limit ==> is_ws(l[token_end(l, i, limit)]),
        forall|k: int| i <= k < token_end(l, i, limit) ==> !is_ws(l[k]),
    decreases limit - i,
{
    if i < limit && !is_ws(l[i]) {
        lemma_token_end_bounds(l, i + 1, limit);
    }
}

pub proof fn lemma_trimmed_end_bounds(l: Seq<char>, j: int)
    requires
        0 <= j <= l.len(),
    ensures
        0 <= trimmed_end(l, j) <= j,
        trimmed_end(l, j) > 0 ==> !is_ws(l[trimmed_end(l, j) - 1]),
        forall|k: int| trimmed_end(l, j) <= k < j ==> is_ws(l[k]),
    decreases j,
{
    if j > 0 && is_ws(l[j - 1]) {
        lemma_trimmed_end_bounds(l, j - 1);
    }
}

/// Pins `skip_ws` down: whitespace runs from `i` up to exactly `j`.
pub proof fn lemma_skip_ws_at(l: Seq<char>, i: int, j: int, limit: int)
    requires
        0 <= i <= j <= limit <= l.len(),
        forall|k: int| i <= k < j ==> is_ws(l[k]),
        j == limit || !is_ws(l[j]),
    ensures
        skip_ws(l, i, limit) == j,
    decreases j - i,
{
    if i < j {
        lemma_skip_ws_at(l, i + 1, j, limit);
    }
}

/// Pins `token_end` down: non-whitespace runs from `i` up to exactly `j`.
pub proof fn lemma_token_end_at(l: Seq<char>, i: int, j: int, limit: int)
    requires
        0 <= i <= j <= limit <= l.len(),
        forall|k: int| i <= k < j ==> !is_ws(l[k]),
        j == limit || is_ws(l[j]),
    ensures
        token_end(l, i, limit) == j,
    decreases j - i,
{
    if i < j {
        lemma_token_end_at(l, i + 1, j, limit);
    }
}

/// Pins the line limit down: trailing whitespace starts exactly at `j`.
pub proof fn lemma_line_limit_at(l: Seq<char>, j: int)
    requires
        0 <= j <= l.len(),
        forall|k: int| j <= k < l.len() ==> is_ws(l[k]),
        j == 0 || !is_ws(l[j - 1]),
    ensures
        line_limit(l) == j,
{
    lemma_trimmed_end_at(l, j, l.len() as int);
}

proof fn lemma_trimmed_end_at(l: Seq<char>, j: int, m: int)
    requires
        0 <= j <= m <= l.len(),
        forall|k: int| j <= k < m ==> is_ws(l[k]),
        j == 0 || !is_ws(l[j - 1]),
    ensures
        trimmed_end(l, m) == j,
    decreases m - j,
{
    if j < m {
        lemma_trimmed_end_at(l, j, m - 1);
    }
}

/// A whitespace-free substring of one input line together with the
/// character offset of its first character in that line. A token taken
/// where the line had ended is empty; its offset is then the position
/// immediately after the last real character of the (trimmed) line.
pub struct Token {
    pub text: Vec<char>,
    pub start: usize,
}

impl Token {
    /// Position one past the token's last character.
    pub open spec fn end(&self) -> int {
        self.start + self.text@.len()
    }
}

/// Forward-only scanner over one line. `next` yields the next
/// whitespace-delimited token; `rest` takes the whole remaining tail.
pub struct Tokenizer<'a> {
    pub line: &'a Vec<char>,
    pub pos: usize,
    pub limit: usize,
}

impl<'a> Tokenizer<'a> {
    /// The scanner is between tokens: `pos` is at a token's first
    /// character or at the limit, the limit cuts exactly the trailing
    /// whitespace off.
    pub open spec fn wf(&self) -> bool {
        &&& self.pos <= self.limit <= self.line@.len()
        &&& self.pos < self.limit ==> !is_ws(self.line@[self.pos as int])
        &&& forall|k: int| self.limit <= k < self.line@.len() ==> is_ws(self.line@[k])
        &&& self.limit > 0 ==> !is_ws(self.line@[self.limit - 1])
    }

    pub fn new(line: &'a Vec<char>) -> (t: Tokenizer<'a>)
        ensures
            t.wf(),
            t.line == line,
            t.limit == line_limit(line@),
            t.pos == skip_ws(line@, 0, line_limit(line@)),
    {
        let n = line.len();
        let mut limit: usize = n;
        while limit > 0 && is_ws_char(line[limit - 1])
            invariant
                limit <= n,
                n == line@.len(),
                trimmed_end(line@, n as int) == trimmed_end(line@, limit as int),
            decreases limit,
        {
            limit = limit - 1;
        }
        proof {
            assert(trimmed_end(line@, limit as int) == limit);
            lemma_trimmed_end_bounds(line@, n as int);
        }
        let mut pos: usize = 0;
        while pos < limit && is_ws_char(line[pos])
            invariant
                pos <= limit,
                limit <= n,
                n == line@.len(),
                limit == line_limit(line@),
                skip_ws(line@, 0, limit as int) == skip_ws(line@, pos as int, limit as int),
            decreases limit - pos,
        {
            pos = pos + 1;
        }
        proof {
            assert(skip_ws(line@, pos as int, limit as int) == pos);
        }
        Tokenizer { line, pos, limit }
    }

    /// Advance past the next token and return it. At the end of the
    /// line the returned token is empty and sits at the limit.
    pub fn next(&mut self) -> (tok: Token)
        requires
            old(self).wf(),
        ensures
            final(self).wf(),
            final(self).line == old(self).line,
            final(self).limit == old(self).limit,
            tok.start == old(self).pos,
            tok.end() == token_end(old(self).line@, old(self).pos as int, old(self).limit as int),
            tok.text@ == old(self).line@.subrange(
                old(self).pos as int,
                token_end(old(self).line@, old(self).pos as int, old(self).limit as int),
            ),
            final(self).pos == skip_ws(
                old(self).line@,
                token_end(old(self).line@, old(self).pos as int, old(self).limit as int),
                old(self).limit as int,
            ),
            tok.text@.len() == 0 <==> old(self).pos == old(self).limit,
            forall|k: int| 0 <= k < tok.text@.len() ==> !is_ws(tok.text@[k]),
    {
        let ghost l = self.line@;
        let start = self.pos;
        let mut e: usize = self.pos;
        while e < self.limit && !is_ws_char(self.line[e])
            invariant
                self.pos <= e <= self.limit <= self.line@.len(),
                token_end(l, self.pos as int, self.limit as int)
                    == token_end(l, e as int, self.limit as int),
                l == self.line@,
            decreases self.limit - e,
        {
            e = e + 1;
        }
        proof {
            assert(token_end(l, e as int, self.limit as int) == e);
            lemma_token_end_bounds(l, start as int, self.limit as int);
        }
        let mut text: Vec<char> = Vec::new();
        let mut i: usize = start;
        while i < e
            invariant
                start <= i <= e <= self.line@.len(),
                text@ == l.subrange(start as int, i as int),
                l == self.line@,
            decreases e - i,
        {
            text.push(self.line[i]);
            i = i + 1;
            proof {
                assert(text@ =~= l.subrange(start as int, i as int));
            }
        }
        let mut p: usize = e;
        while p < self.limit && is_ws_char(self.line[p])
            invariant
                e <= p <= self.limit <= self.line@.len(),
                skip_ws(l, e as int, self.limit as int) == skip_ws(l, p as int, self.limit as int),
                l == self.line@,
            decreases self.limit - p,
        {
            p = p + 1;
        }
        proof {
            assert(skip_ws(l, p as int, self.limit as int) == p);
        }
        self.pos = p;
        Token { text, start }
    }

    /// Take the whole remaining tail of the line (trailing whitespace
    /// already cut off by the limit) as one free-text value.
    pub fn rest(self) -> (tok: Token)
        requires
            self.wf(),
        ensures
            tok.start == self.pos,
            tok.end() == self.limit,
            tok.text@ == self.line@.subrange(self.pos as int, self.limit as int),
            tok.text@.len() == 0 <==> self.pos == self.limit,
    {
        let mut text: Vec<char> = Vec::new();
        let mut i: usize = self.pos;
        while i < self.limit
            invariant
                self.pos <= i <= self.limit <= self.line@.len(),
                text@ == self.line@.subrange(self.pos as int, i as int),
            decreases self.limit - i,
        {
            text.push(self.line[i]);
            i = i + 1;
            proof {
                assert(text@ =~= self.line@.subrange(self.pos as int, i as int));
            }
        }
        Token { text, start: self.pos }
    }
}

/// Executable counterpart of [`is_ws`].
pub fn is_ws_char(c: char) -> (r: bool)
    ensures
        r == is_ws(c),
{
    c == ' ' || c == '\t' || c == '\r' || c == '\n'
}

/// What a diagnostic complains about.
#[derive(Clone, Copy, Debug, PartialEq, Eq, Structural)]
pub enum ErrorKind {
    /// The line held no token at all.
    ExpectedCommand,
    /// The first token is none of the six command names.
    UnknownCommand,
    /// `message` came with no channel-ID token.
    ExpectedChannelId,
    /// The channel-ID token is not a decimal `u64`.
    InvalidChannelId,
    /// `message` with a channel ID but no body text.
    ExpectedMessage,
    /// A status verb with no status text.
    ExpectedText,
    /// `clear_status` was followed by more text.
    UnexpectedText,
}

/// The message text shown for each diagnostic kind.
pub open spec fn kind_text(k: ErrorKind) -> Seq<char> {
    match k {
        ErrorKind::ExpectedCommand => "expected command"@,
        ErrorKind::UnknownCommand => "expected 'message', 'playing', 'listening_to', 'watching', 'competing_in', or 'clear_status'"@,
        ErrorKind::ExpectedChannelId => "expected channel ID"@,
        ErrorKind::InvalidChannelId => "channel ID must be a number"@,
        ErrorKind::ExpectedMessage => "expected message"@,
        ErrorKind::ExpectedText => "expected text"@,
        ErrorKind::UnexpectedText => "unexpected text"@,
    }
}

impl ErrorKind {
    pub fn text(&self) -> (r: &'static str)
        ensures
            r@ == kind_text(*self),
    {
        match self {
            ErrorKind::ExpectedCommand => "expected command",
            ErrorKind::UnknownCommand => "expected 'message', 'playing', 'listening_to', 'watching', 'competing_in', or 'clear_status'",
            ErrorKind::ExpectedChannelId => "expected channel ID",
            ErrorKind::InvalidChannelId => "channel ID must be a number",
            ErrorKind::ExpectedMessage => "expected message",
            ErrorKind::ExpectedText => "expected text",
            ErrorKind::UnexpectedText => "unexpected text",
        }
    }
}

/// A positional parse diagnostic: the full original line, the character
/// range of the offending span within it (possibly empty), and what was
/// expected there.
#[derive(Debug)]
pub struct TokenizerError {
    pub line: Vec<char>,
    pub start: usize,
    pub end: usize,
    pub kind: ErrorKind,
}

/// `n` copies of the character `c`.
pub open spec fn repeat_char(c: char, n: int) -> Seq<char> {
    Seq::new(n as nat, |i: int| c)
}

/// Column where the caret row starts. An empty span at the very end of
/// a non-empty line is pushed one column further right, so the caret
/// visibly stands after the last character rather than over it.
pub open spec fn caret_pad(line: Seq<char>, start: int, end: int) -> int {
    if start == end && end == line.len() && start > 0 {
        start + 1
    } else {
        start
    }
}

/// Width of the caret row: the span's width, at least one column.
pub open spec fn caret_width(start: int, end: int) -> int {
    if end > start {
        end - start
    } else {
        1
    }
}

/// The two-line diagnostic display: the original line, then a caret row
/// under the offending span followed by the message.
pub open spec fn render_spec(line: Seq<char>, start: int, end: int, kind: ErrorKind) -> Seq<char> {
    "| "@ + line + "\n| "@ + repeat_char(' ', caret_pad(line, start, end)) + repeat_char(
        '^',
        caret_width(start, end),
    ) + " "@ + kind_text(kind)
}

impl TokenizerError {
    /// The span is a valid sub-range of the stored line.
    pub open spec fn wf(&self) -> bool {
        self.start <= self.end <= self.line@.len()
    }

    /// Render the diagnostic for display: the line as the user typed
    /// it, and a caret row spanning the offending range.
    pub fn render(&self) -> (r: String)
        requires
            self.wf(),
        ensures
            r@ == render_spec(self.line@, self.start as int, self.end as int, self.kind),
    {
        let ghost goal = render_spec(self.line@, self.start as int, self.end as int, self.kind);
        let mut out: Vec<char> = Vec::new();
        out.push('|');
        out.push(' ');
        proof {
            reveal_strlit("| ");
            assert(out@ =~= "| "@);
        }
        let mut i: usize = 0;
        while i < self.line.len()
            invariant
                i <= self.line@.len(),
                out@ == "| "@ + self.line@.subrange(0, i as int),
            decreases self.line@.len() - i,
        {
            out.push(self.line[i]);
            i = i + 1;
            proof {
                assert(out@ =~= "| "@ + self.line@.subrange(0, i as int));
            }
        }
        proof {
            assert(out@ =~= "| "@ + self.line@);
        }
        out.push('\n');
        out.push('|');
        out.push(' ');
        let ghost head = "| "@ + self.line@ + "\n| "@;
        proof {
            reveal_strlit("\n| ");
            assert(out@ =~= head);
        }
        let mut p: usize = 0;
        while p < self.start
            invariant
                p <= self.start,
                out@ == head + repeat_char(' ', p as int),
            decreases self.start - p,
        {
            out.push(' ');
            p = p + 1;
            proof {
                assert(out@ =~= head + repeat_char(' ', p as int));
            }
        }
        if self.start == self.end && self.end == self.line.len() && self.start > 0 {
            out.push(' ');
        }
        let ghost pad = caret_pad(self.line@, self.start as int, self.end as int);
        proof {
            assert(out@ =~= head + repeat_char(' ', pad));
        }
        let width: usize = if self.end > self.start {
            self.end - self.start
        } else {
            1
        };
        let ghost head2 = head + repeat_char(' ', pad as int);
        let mut w: usize = 0;
        while w < width
            invariant
                w <= width,
                out@ == head2 + repeat_char('^', w as int),
            decreases width - w,
        {
            out.push('^');
            w = w + 1;
            proof {
                assert(out@ =~= head2 + repeat_char('^', w as int));
            }
        }
        out.push(' ');
        let ghost head3 = head2 + repeat_char('^', width as int) + " "@;
        proof {
            reveal_strlit(" ");
            assert(out@ =~= head3);
        }
        let msg = self.kind.text();
        let n = msg.unicode_len();
        let mut m: usize = 0;
        while m < n
            invariant
                m <= n,
                n == kind_text(self.kind).len(),
                msg@ == kind_text(self.kind),
                out@ == head3 + kind_text(self.kind).subrange(0, m as int),
            decreases n - m,
        {
            out.push(msg.get_char(m));
            m = m + 1;
            proof {
                assert(out@ =~= head3 + kind_text(self.kind).subrange(0, m as int));
            }
        }
        proof {
            assert(kind_text(self.kind).subrange(0, n as int) =~= kind_text(self.kind));
            assert(out@ =~= goal);
        }
        crate::text::string_of(&out)
    }
}

/// Keep a token's text only if it is non-empty; otherwise report, under
/// the given diagnostic kind, an empty span at the token's position.
pub fn nonempty_str(line: &Vec<char>, tok: Token, kind: ErrorKind) -> (r: Result<
    Vec<char>,
    TokenizerError,
>)
    requires
        tok.end() <= line@.len(),
    ensures
        match r {
            Ok(text) => tok.text@.len() > 0 && text@ == tok.text@,
            Err(e) => {
                &&& tok.text@.len() == 0
                &&& e.wf()
                &&& e.line@ == line@
                &&& e.start == tok.start
                &&& e.end == tok.start
                &&& e.kind == kind
            },
        },
{
    if tok.text.len() > 0 {
        Ok(tok.text)
    } else {
        Err(TokenizerError { line: copy_chars(line), start: tok.start, end: tok.start, kind })
    }
}

/// Demand that a token is empty; otherwise report the whole token as an
/// unexpected trailing span.
pub fn empty_str(line: &Vec<char>, tok: Token) -> (r: Result<(), TokenizerError>)
    requires
        tok.end() <= line@.len(),
    ensures
        match r {
            Ok(_) => tok.text@.len() == 0,
            Err(e) => {
                &&& tok.text@.len() > 0
                &&& e.wf()
                &&& e.line@ == line@
                &&& e.start == tok.start
                &&& e.end == tok.end()
                &&& e.kind == ErrorKind::UnexpectedText
            },
        },
{
    if tok.text.len() == 0 {
        Ok(())
    } else {
        let n = line.len();
        proof {
            assert(tok.end() <= n as int);
        }
        let end = tok.start + tok.text.len();
        Err(TokenizerError { line: copy_chars(line), start: tok.start, end, kind: ErrorKind::UnexpectedText })
    }
}

} // verus!
