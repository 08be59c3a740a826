//! The command grammar: one line of text becomes one of three command
//! variants, or a positional diagnostic.
//!
//! ```text
//! command      := "message" channel_id rest_nonempty      -> Message
//!               | status_verb rest_nonempty               -> Status
//!               | "clear_status" end_of_input             -> ClearStatus
//! status_verb  := "playing" | "listening_to" | "watching" | "competing_in"
//! channel_id   := token parsed as unsigned 64-bit integer
//! ```

use vstd::prelude::*;
use vstd::std_specs::cmp::PartialEqSpec;
use vstd::string::StrSliceExecFns;

use crate::text::{chars_of, copy_chars, string_of, text_eq_str};
use crate::tokenizer::{
    is_ws, line_limit, skip_ws, token_end, ErrorKind, Tokenizer, TokenizerError,
};

verus! {

/// The kind of presence status a status command sets.
#[derive(Clone, Copy, Debug, PartialEq, Eq, Structural)]
pub enum ActivityKind {
    Playing,
    ListeningTo,
    Watching,
    CompetingIn,
}

/// One parsed command.
#[derive(Debug)]
pub enum Command {
    /// Post `content` to the channel with the given ID.
    Message { channel_id: u64, content: String },
    /// Set the presence status to `name`, displayed under `kind`.
    Status { kind: ActivityKind, name: String },
    /// Clear the presence status.
    ClearStatus,
}

// ------------------------------------------------------------------
// Decimal channel IDs
// ------------------------------------------------------------------

pub open spec fn is_digit(c: char) -> bool {
    '0' <= c && c <= '9'
}

pub open spec fn digit_val(c: char) -> int {
    c as int - '0' as int
}

pub open spec fn all_digits(s: Seq<char>) -> bool {
    forall|i: int| 0 <= i < s.len() ==> is_digit(s[i])
}

/// The number written by a sequence of decimal digits.
pub open spec fn digits_val(s: Seq<char>) -> int
    decreases s.len(),
{
    if s.len() == 0 {
        0
    } else {
        digits_val(s.drop_last()) * 10 + digit_val(s.last())
    }
}

/// The digits of a channel-ID token: unsigned-integer syntax allows
/// one optional leading plus sign before the digits.
pub open spec fn channel_digits(s: Seq<char>) -> Seq<char> {
    if s.len() > 0 && s[0] == '+' {
        s.drop_first()
    } else {
        s
    }
}

/// A token is a channel ID when, after an optional leading plus sign,
/// it is one or more decimal digits writing a number that fits in a
/// `u64`.
pub open spec fn is_channel_id(s: Seq<char>) -> bool {
    channel_digits(s).len() > 0 && all_digits(channel_digits(s)) && digits_val(channel_digits(s))
        <= u64::MAX
}

pub proof fn lemma_digits_val_nonneg(s: Seq<char>)
    requires
        all_digits(s),
    ensures
        digits_val(s) >= 0,
    decreases s.len(),
{
    if s.len() > 0 {
        assert(all_digits(s.drop_last())) by {
            assert(forall|i: int| 0 <= i < s.len() - 1 ==> is_digit(s.drop_last()[i]));
        }
        lemma_digits_val_nonneg(s.drop_last());
    }
}

pub proof fn lemma_digits_val_prefix_le(s: Seq<char>, i: int)
    requires
        all_digits(s),
        0 <= i <= s.len(),
    ensures
        digits_val(s.take(i)) <= digits_val(s),
    decreases s.len(),
{
    if i < s.len() {
        assert(all_digits(s.drop_last()));
        assert(s.take(i) =~= s.drop_last().take(i));
        lemma_digits_val_prefix_le(s.drop_last(), i);
        lemma_digits_val_nonneg(s.drop_last());
        assert(digits_val(s.drop_last()) * 10 >= digits_val(s.drop_last()));
        assert(digit_val(s.last()) >= 0);
    } else {
        assert(s.take(i) =~= s);
    }
}

/// Parse a token as a decimal `u64`, exactly when it is a channel ID.
pub fn parse_channel_id(t: &Vec<char>) -> (r: Option<u64>)
    ensures
        r is Some <==> is_channel_id(t@),
        r is Some ==> r->0 as int == digits_val(channel_digits(t@)),
{
    let ghost d_all = channel_digits(t@);
    let start: usize = if t.len() > 0 && t[0] == '+' {
        1
    } else {
        0
    };
    proof {
        assert(d_all =~= t@.skip(start as int));
    }
    if t.len() == start {
        return None;
    }
    let mut acc: u64 = 0;
    let mut i: usize = start;
    while i < t.len()
        invariant
            start as int <= i as int <= t@.len(),
            (start as int) < t@.len(),
            d_all == channel_digits(t@),
            d_all == t@.skip(start as int),
            forall|k: int| start <= k < i ==> is_digit(t@[k]),
            acc as int == digits_val(t@.subrange(start as int, i as int)),
        decreases t@.len() - i,
    {
        let c = t[i];
        if !(c >= '0' && c <= '9') {
            proof {
                assert(d_all[i - start] == t@[i as int]);
                assert(!is_digit(d_all[i - start]));
                assert(!all_digits(d_all));
                assert(!is_channel_id(t@));
            }
            return None;
        }
        let d: u64 = (c as u32 - '0' as u32) as u64;
        proof {
            assert(d as int == digit_val(t@[i as int]));
            assert(t@.subrange(start as int, i + 1).drop_last() =~= t@.subrange(
                start as int,
                i as int,
            ));
            assert(t@.subrange(start as int, i + 1).last() == t@[i as int]);
        }
        let next = match acc.checked_mul(10) {
            Some(x) => x.checked_add(d),
            None => None,
        };
        match next {
            Some(x) => {
                acc = x;
            },
            None => {
                proof {
                    let ghost j = i + 1 - start;
                    assert(d_all.take(j) =~= t@.subrange(start as int, i + 1));
                    assert(digits_val(d_all.take(j)) > u64::MAX);
                    if all_digits(d_all) {
                        lemma_digits_val_prefix_le(d_all, j);
                        assert(digits_val(d_all) > u64::MAX);
                    }
                    assert(!is_channel_id(t@));
                }
                return None;
            },
        }
        i = i + 1;
    }
    proof {
        assert(d_all =~= t@.subrange(start as int, t@.len() as int));
        assert(forall|k: int| 0 <= k < d_all.len() ==> is_digit(d_all[k]));
    }
    Some(acc)
}

// ------------------------------------------------------------------
// Positions of the grammar's pieces within a line
// ------------------------------------------------------------------

/// Start of the command-name token.
pub open spec fn cmd_start(l: Seq<char>) -> int {
    skip_ws(l, 0, line_limit(l))
}

/// End of the command-name token.
pub open spec fn cmd_end(l: Seq<char>) -> int {
    token_end(l, cmd_start(l), line_limit(l))
}

/// The command-name token itself.
pub open spec fn cmd_token(l: Seq<char>) -> Seq<char> {
    l.subrange(cmd_start(l), cmd_end(l))
}

/// Start of the second token (the channel ID for `message`), or the
/// limit if the line ends after the command name.
pub open spec fn arg_start(l: Seq<char>) -> int {
    skip_ws(l, cmd_end(l), line_limit(l))
}

/// End of the second token.
pub open spec fn arg_end(l: Seq<char>) -> int {
    token_end(l, arg_start(l), line_limit(l))
}

/// The second token itself.
pub open spec fn arg_token(l: Seq<char>) -> Seq<char> {
    l.subrange(arg_start(l), arg_end(l))
}

/// Start of the free-text tail after the second token.
pub open spec fn body_start(l: Seq<char>) -> int {
    skip_ws(l, arg_end(l), line_limit(l))
}

/// The whole tail after the command name (status text).
pub open spec fn rest_after_cmd(l: Seq<char>) -> Seq<char> {
    l.subrange(arg_start(l), line_limit(l))
}

/// The whole tail after the second token (message body).
pub open spec fn rest_after_arg(l: Seq<char>) -> Seq<char> {
    l.subrange(body_start(l), line_limit(l))
}

/// Whether a token is one of the four status verbs.
pub open spec fn is_status_verb(t: Seq<char>) -> bool {
    ||| t == "playing"@
    ||| t == "listening_to"@
    ||| t == "watching"@
    ||| t == "competing_in"@
}

/// The activity kind a status verb selects.
pub open spec fn verb_kind(t: Seq<char>) -> ActivityKind {
    if t == "playing"@ {
        ActivityKind::Playing
    } else if t == "listening_to"@ {
        ActivityKind::ListeningTo
    } else if t == "watching"@ {
        ActivityKind::Watching
    } else {
        ActivityKind::CompetingIn
    }
}

// ------------------------------------------------------------------
// Classification of a line under the grammar
// ------------------------------------------------------------------

/// Every line falls in exactly one of these classes.
#[derive(Clone, Copy, Debug, PartialEq, Eq, Structural)]
pub enum LineClass {
    /// No token at all (empty or whitespace-only line).
    Empty,
    /// First token is none of the six command names.
    Unknown,
    /// `message` with nothing after it.
    MessageMissingChannel,
    /// `message` with a second token that is no channel ID.
    MessageBadChannel,
    /// `message` and a channel ID, but no body text.
    MessageMissingBody,
    /// A well-formed `message` command.
    MessageOk,
    /// A status verb with no status text.
    StatusMissingText,
    /// A well-formed status command.
    StatusOk,
    /// A well-formed `clear_status` command.
    ClearOk,
    /// `clear_status` followed by trailing text.
    ClearTrailing,
}

pub open spec fn classify(l: Seq<char>) -> LineClass {
    if cmd_start(l) == line_limit(l) {
        LineClass::Empty
    } else if cmd_token(l) == "message"@ {
        if arg_start(l) == line_limit(l) {
            LineClass::MessageMissingChannel
        } else if !is_channel_id(arg_token(l)) {
            LineClass::MessageBadChannel
        } else if body_start(l) == line_limit(l) {
            LineClass::MessageMissingBody
        } else {
            LineClass::MessageOk
        }
    } else if is_status_verb(cmd_token(l)) {
        if arg_start(l) == line_limit(l) {
            LineClass::StatusMissingText
        } else {
            LineClass::StatusOk
        }
    } else if cmd_token(l) == "clear_status"@ {
        if arg_start(l) == line_limit(l) {
            LineClass::ClearOk
        } else {
            LineClass::ClearTrailing
        }
    } else {
        LineClass::Unknown
    }
}

/// Whether the line parses to a command.
pub open spec fn parse_ok(l: Seq<char>) -> bool {
    classify(l) == LineClass::MessageOk || classify(l) == LineClass::StatusOk || classify(l)
        == LineClass::ClearOk
}

/// The diagnostic kind reported for each failing class.
pub open spec fn error_kind_of(l: Seq<char>) -> ErrorKind {
    match classify(l) {
        LineClass::Empty => ErrorKind::ExpectedCommand,
        LineClass::Unknown => ErrorKind::UnknownCommand,
        LineClass::MessageMissingChannel => ErrorKind::ExpectedChannelId,
        LineClass::MessageBadChannel => ErrorKind::InvalidChannelId,
        LineClass::MessageMissingBody => ErrorKind::ExpectedMessage,
        LineClass::StatusMissingText => ErrorKind::ExpectedText,
        LineClass::ClearTrailing => ErrorKind::UnexpectedText,
        _ => ErrorKind::ExpectedCommand,
    }
}

/// Start of the offending span for each failing class.
pub open spec fn error_start_of(l: Seq<char>) -> int {
    match classify(l) {
        LineClass::Empty => 0,
        LineClass::Unknown => cmd_start(l),
        LineClass::MessageMissingChannel => arg_start(l),
        LineClass::MessageBadChannel => arg_start(l),
        LineClass::MessageMissingBody => body_start(l),
        LineClass::StatusMissingText => arg_start(l),
        LineClass::ClearTrailing => arg_start(l),
        _ => 0,
    }
}

/// End of the offending span for each failing class.
pub open spec fn error_end_of(l: Seq<char>) -> int {
    match classify(l) {
        LineClass::Empty => 0,
        LineClass::Unknown => cmd_end(l),
        LineClass::MessageMissingChannel => arg_start(l),
        LineClass::MessageBadChannel => arg_end(l),
        LineClass::MessageMissingBody => body_start(l),
        LineClass::StatusMissingText => arg_start(l),
        LineClass::ClearTrailing => line_limit(l),
        _ => 0,
    }
}

/// What a successfully parsed command must be for the line `l`.
pub open spec fn command_matches(l: Seq<char>, c: Command) -> bool {
    match c {
        Command::Message { channel_id, content } => {
            &&& classify(l) == LineClass::MessageOk
            &&& channel_id as int == digits_val(channel_digits(arg_token(l)))
            &&& content@ == rest_after_arg(l)
        },
        Command::Status { kind, name } => {
            &&& classify(l) == LineClass::StatusOk
            &&& kind == verb_kind(cmd_token(l))
            &&& name@ == rest_after_cmd(l)
        },
        Command::ClearStatus => classify(l) == LineClass::ClearOk,
    }
}

/// What a parse diagnostic must be for the line `l`.
pub open spec fn error_matches(l: Seq<char>, e: TokenizerError) -> bool {
    &&& !parse_ok(l)
    &&& e.line@ == l
    &&& e.start as int == error_start_of(l)
    &&& e.end as int == error_end_of(l)
    &&& e.kind == error_kind_of(l)
}

impl Command {
    /// Parse one line (newline already stripped) into a command, or
    /// report a diagnostic anchored at the offending span.
    pub fn parse(line: &Vec<char>) -> (r: Result<Command, TokenizerError>)
        ensures
            match r {
                Ok(c) => command_matches(line@, c),
                Err(e) => error_matches(line@, e) && e.wf(),
            },
    {
        let mut tz = Tokenizer::new(line);
        let name_tok = tz.next();
        if name_tok.text.len() == 0 {
            return Err(
                TokenizerError {
                    line: copy_chars(line),
                    start: 0,
                    end: 0,
                    kind: ErrorKind::ExpectedCommand,
                },
            );
        }
        if text_eq_str(&name_tok.text, "message") {
            let chan_tok = tz.next();
            if chan_tok.text.len() == 0 {
                return Err(
                    TokenizerError {
                        line: copy_chars(line),
                        start: chan_tok.start,
                        end: chan_tok.start,
                        kind: ErrorKind::ExpectedChannelId,
                    },
                );
            }
            match parse_channel_id(&chan_tok.text) {
                None => Err(
                    TokenizerError {
                        line: copy_chars(line),
                        start: chan_tok.start,
                        end: chan_tok.start + chan_tok.text.len(),
                        kind: ErrorKind::InvalidChannelId,
                    },
                ),
                Some(channel_id) => {
                    let body = crate::tokenizer::nonempty_str(
                        line,
                        tz.rest(),
                        ErrorKind::ExpectedMessage,
                    )?;
                    Ok(Command::Message { channel_id, content: string_of(&body) })
                },
            }
        } else if text_eq_str(&name_tok.text, "playing") {
            let name = crate::tokenizer::nonempty_str(line, tz.rest(), ErrorKind::ExpectedText)?;
            Ok(Command::Status { kind: ActivityKind::Playing, name: string_of(&name) })
        } else if text_eq_str(&name_tok.text, "listening_to") {
            let name = crate::tokenizer::nonempty_str(line, tz.rest(), ErrorKind::ExpectedText)?;
            Ok(Command::Status { kind: ActivityKind::ListeningTo, name: string_of(&name) })
        } else if text_eq_str(&name_tok.text, "watching") {
            let name = crate::tokenizer::nonempty_str(line, tz.rest(), ErrorKind::ExpectedText)?;
            Ok(Command::Status { kind: ActivityKind::Watching, name: string_of(&name) })
        } else if text_eq_str(&name_tok.text, "competing_in") {
            let name = crate::tokenizer::nonempty_str(line, tz.rest(), ErrorKind::ExpectedText)?;
            Ok(Command::Status { kind: ActivityKind::CompetingIn, name: string_of(&name) })
        } else if text_eq_str(&name_tok.text, "clear_status") {
            crate::tokenizer::empty_str(line, tz.rest())?;
            Ok(Command::ClearStatus)
        } else {
            Err(
                TokenizerError {
                    line: copy_chars(line),
                    start: name_tok.start,
                    end: name_tok.start + name_tok.text.len(),
                    kind: ErrorKind::UnknownCommand,
                },
            )
        }
    }

    /// Parse a borrowed line of text, stripping any trailing newline
    /// characters first (so that the stored diagnostic line reads as
    /// the user typed it).
    pub fn from_line(s: &str) -> (r: Result<Command, TokenizerError>)
        ensures
            match r {
                Ok(c) => command_matches(strip_newlines(s@), c),
                Err(e) => error_matches(strip_newlines(s@), e) && e.wf(),
            },
    {
        let mut v = chars_of(s);
        while v.len() > 0 && v[v.len() - 1] == '\n'
            invariant
                strip_newlines(s@) == strip_newlines(v@),
            decreases v@.len(),
        {
            v.pop();
        }
        proof {
            assert(strip_newlines(v@) == v@);
        }
        Command::parse(&v)
    }
}

/// The sequence with all trailing newline characters removed.
pub open spec fn strip_newlines(l: Seq<char>) -> Seq<char>
    decreases l.len(),
{
    if l.len() > 0 && l.last() == '\n' {
        strip_newlines(l.drop_last())
    } else {
        l
    }
}

impl PartialEq for Command {
    fn eq(&self, other: &Command) -> (r: bool) {
        match (self, other) {
            (
                Command::Message { channel_id: a, content: b },
                Command::Message { channel_id: c, content: d },
            ) => *a == *c && *b == *d,
            (
                Command::Status { kind: a, name: b },
                Command::Status { kind: c, name: d },
            ) => *a == *c && *b == *d,
            (Command::ClearStatus, Command::ClearStatus) => true,
            _ => false,
        }
    }
}

impl vstd::std_specs::cmp::PartialEqSpecImpl for Command {
    open spec fn obeys_eq_spec() -> bool {
        true
    }

    open spec fn eq_spec(&self, other: &Command) -> bool {
        match (self, other) {
            (
                Command::Message { channel_id: a, content: b },
                Command::Message { channel_id: c, content: d },
            ) => a == c && b@ == d@,
            (
                Command::Status { kind: a, name: b },
                Command::Status { kind: c, name: d },
            ) => a == c && b@ == d@,
            (Command::ClearStatus, Command::ClearStatus) => true,
            _ => false,
        }
    }
}

/// A presence status payload for the collaborator interface.
#[derive(Debug)]
pub struct Presence {
    pub name: String,
    pub kind: ActivityKind,
}

/// The one remote call a command turns into: post a message to a
/// channel, or set (`Some`) / clear (`None`) the presence status.
#[derive(Debug)]
pub enum DispatchCall {
    Say { channel_id: u64, content: String },
    SetPresence(Option<Presence>),
}

impl Command {
    /// Decide which collaborator call executes this command. The
    /// caller performs the call against the remote service.
    pub fn dispatch_call(self) -> (r: DispatchCall)
        ensures
            match self {
                Command::Message { channel_id, content } => r == (DispatchCall::Say {
                    channel_id,
                    content,
                }),
                Command::Status { kind, name } => r == DispatchCall::SetPresence(
                    Some(Presence { name, kind }),
                ),
                Command::ClearStatus => r == DispatchCall::SetPresence(None::<Presence>),
            },
    {
        match self {
            Command::Message { channel_id, content } => DispatchCall::Say { channel_id, content },
            Command::Status { kind, name } => DispatchCall::SetPresence(
                Some(Presence { name, kind }),
            ),
            Command::ClearStatus => DispatchCall::SetPresence(None),
        }
    }
}

// ------------------------------------------------------------------
// Canonical line form
// ------------------------------------------------------------------

/// The character writing one decimal digit.
pub open spec fn digit_char(d: int) -> char {
    if d == 0 {
        '0'
    } else if d == 1 {
        '1'
    } else if d == 2 {
        '2'
    } else if d == 3 {
        '3'
    } else if d == 4 {
        '4'
    } else if d == 5 {
        '5'
    } else if d == 6 {
        '6'
    } else if d == 7 {
        '7'
    } else if d == 8 {
        '8'
    } else {
        '9'
    }
}

/// The shortest decimal writing of a non-negative number.
pub open spec fn dec_str(n: int) -> Seq<char>
    decreases n,
{
    if n <= 9 {
        seq![digit_char(n)]
    } else {
        dec_str(n / 10).push(digit_char(n % 10))
    }
}

/// The verb token that selects each activity kind.
pub open spec fn verb_text(k: ActivityKind) -> Seq<char> {
    match k {
        ActivityKind::Playing => "playing"@,
        ActivityKind::ListeningTo => "listening_to"@,
        ActivityKind::Watching => "watching"@,
        ActivityKind::CompetingIn => "competing_in"@,
    }
}

/// The canonical line form of a command: the one line the grammar
/// itself would print, with single spaces between the pieces.
pub open spec fn canonical_spec(c: Command) -> Seq<char> {
    match c {
        Command::Message { channel_id, content } => "message "@ + dec_str(channel_id as int)
            + " "@ + content@,
        Command::Status { kind, name } => verb_text(kind) + " "@ + name@,
        Command::ClearStatus => "clear_status"@,
    }
}

/// Free text as the grammar produces it: non-empty, and neither
/// starting nor ending with whitespace (interior whitespace is kept
/// verbatim).
pub open spec fn wf_text(s: Seq<char>) -> bool {
    s.len() > 0 && !is_ws(s[0]) && !is_ws(s.last())
}

/// A command value that parsing could have produced.
pub open spec fn wf_command(c: Command) -> bool {
    match c {
        Command::Message { channel_id, content } => wf_text(content@),
        Command::Status { kind, name } => wf_text(name@),
        Command::ClearStatus => true,
    }
}

fn digit_char_of(d: u64) -> (c: char)
    requires
        d <= 9,
    ensures
        c == digit_char(d as int),
{
    match d {
        0 => '0',
        1 => '1',
        2 => '2',
        3 => '3',
        4 => '4',
        5 => '5',
        6 => '6',
        7 => '7',
        8 => '8',
        _ => '9',
    }
}

fn push_dec(out: &mut Vec<char>, n: u64)
    ensures
        final(out)@ == old(out)@ + dec_str(n as int),
    decreases n,
{
    if n <= 9 {
        out.push(digit_char_of(n));
        proof {
            assert(out@ =~= old(out)@ + dec_str(n as int));
        }
    } else {
        push_dec(out, n / 10);
        out.push(digit_char_of(n % 10));
        proof {
            assert(out@ =~= old(out)@ + dec_str(n as int));
        }
    }
}

impl ActivityKind {
    /// The verb token for this activity kind.
    pub fn verb(&self) -> (r: &'static str)
        ensures
            r@ == verb_text(*self),
    {
        match self {
            ActivityKind::Playing => "playing",
            ActivityKind::ListeningTo => "listening_to",
            ActivityKind::Watching => "watching",
            ActivityKind::CompetingIn => "competing_in",
        }
    }
}

impl Command {
    /// Write the command back in its canonical line form.
    pub fn canonical(&self) -> (r: String)
        ensures
            r@ == canonical_spec(*self),
    {
        let mut out: Vec<char> = Vec::new();
        match self {
            Command::Message { channel_id, content } => {
                crate::text::push_str_chars(&mut out, "message ");
                push_dec(&mut out, *channel_id);
                crate::text::push_str_chars(&mut out, " ");
                crate::text::push_str_chars(&mut out, content.as_str());
                proof {
                    assert(out@ =~= canonical_spec(*self));
                }
            },
            Command::Status { kind, name } => {
                crate::text::push_str_chars(&mut out, kind.verb());
                crate::text::push_str_chars(&mut out, " ");
                crate::text::push_str_chars(&mut out, name.as_str());
                proof {
                    assert(out@ =~= canonical_spec(*self));
                }
            },
            Command::ClearStatus => {
                crate::text::push_str_chars(&mut out, "clear_status");
            },
        }
        string_of(&out)
    }
}

// ------------------------------------------------------------------
// The grammar round-trips through its canonical line form
// ------------------------------------------------------------------

/// The grammar's positions are ordered within the line.
pub proof fn lemma_grammar_positions(l: Seq<char>)
    ensures
        0 <= cmd_start(l) <= cmd_end(l) <= arg_start(l) <= arg_end(l) <= body_start(l)
            <= line_limit(l) <= l.len(),
{
    crate::tokenizer::lemma_trimmed_end_bounds(l, l.len() as int);
    let limit = line_limit(l);
    crate::tokenizer::lemma_skip_ws_bounds(l, 0, limit);
    crate::tokenizer::lemma_token_end_bounds(l, cmd_start(l), limit);
    crate::tokenizer::lemma_skip_ws_bounds(l, cmd_end(l), limit);
    crate::tokenizer::lemma_token_end_bounds(l, arg_start(l), limit);
    crate::tokenizer::lemma_skip_ws_bounds(l, arg_end(l), limit);
}

/// Whatever parsing produced is a well-formed command: its free text is
/// non-empty and trimmed at both ends.
pub proof fn lemma_parsed_command_wf(l: Seq<char>, c: Command)
    requires
        command_matches(l, c),
    ensures
        wf_command(c),
{
    lemma_grammar_positions(l);
    let limit = line_limit(l);
    crate::tokenizer::lemma_trimmed_end_bounds(l, l.len() as int);
    match c {
        Command::Message { channel_id, content } => {
            crate::tokenizer::lemma_skip_ws_bounds(l, arg_end(l), limit);
            assert(content@[0] == l[body_start(l)]);
            assert(content@.last() == l[limit - 1]);
        },
        Command::Status { kind, name } => {
            crate::tokenizer::lemma_skip_ws_bounds(l, cmd_end(l), limit);
            assert(name@[0] == l[arg_start(l)]);
            assert(name@.last() == l[limit - 1]);
        },
        Command::ClearStatus => {},
    }
}

proof fn lemma_digit_not_ws(c: char)
    requires
        is_digit(c),
    ensures
        !is_ws(c),
{
}

proof fn lemma_dec_str_digits(n: int)
    requires
        n >= 0,
    ensures
        dec_str(n).len() > 0,
        all_digits(dec_str(n)),
        digits_val(dec_str(n)) == n,
    decreases n,
{
    if n <= 9 {
        assert(dec_str(n) =~= seq![digit_char(n)]);
        assert(dec_str(n).drop_last() =~= Seq::<char>::empty());
        assert(digits_val(Seq::<char>::empty()) == 0);
        assert(digit_val(digit_char(n)) == n);
    } else {
        lemma_dec_str_digits(n / 10);
        let s = dec_str(n);
        assert(s == dec_str(n / 10).push(digit_char(n % 10)));
        assert(s.drop_last() =~= dec_str(n / 10));
        assert(s.last() == digit_char(n % 10));
        assert(forall|i: int| 0 <= i < s.len() ==> is_digit(s[i])) by {
            assert(forall|i: int| 0 <= i < s.len() - 1 ==> s[i] == dec_str(n / 10)[i]);
        }
        assert(digits_val(s) == (n / 10) * 10 + (n % 10));
    }
}

proof fn lemma_round_trip_message(channel_id: u64, content: Seq<char>)
    requires
        wf_text(content),
    ensures
        ({
            let l = "message "@ + dec_str(channel_id as int) + " "@ + content;
            &&& classify(l) == LineClass::MessageOk
            &&& digits_val(channel_digits(arg_token(l))) == channel_id as int
            &&& rest_after_arg(l) == content
        }),
{
    reveal_strlit("message ");
    reveal_strlit("message");
    reveal_strlit(" ");
    let pre = "message "@;
    let d = dec_str(channel_id as int);
    lemma_dec_str_digits(channel_id as int);
    let dl = d.len() as int;
    let m = content.len() as int;
    let l = pre + d + " "@ + content;
    assert(pre.len() == 8);
    assert(l.len() == 9 + dl + m);
    assert forall|k: int| 0 <= k < 7 implies !is_ws(l[k]) by {
        assert(l[k] == pre[k]);
    }
    assert(l[7] == ' ');
    assert forall|k: int| 8 <= k < 8 + dl implies !is_ws(l[k]) by {
        assert(l[k] == d[k - 8]);
        assert(is_digit(d[k - 8]));
        lemma_digit_not_ws(d[k - 8]);
    }
    assert(l[8 + dl] == ' ');
    assert forall|k: int| 9 + dl <= k < l.len() implies l[k] == content[k - 9 - dl] by {}
    assert(!is_ws(l[9 + dl]));
    assert(!is_ws(l[l.len() - 1]));
    crate::tokenizer::lemma_line_limit_at(l, l.len() as int);
    let limit = line_limit(l);
    assert(limit == 9 + dl + m);
    crate::tokenizer::lemma_skip_ws_at(l, 0, 0, limit);
    assert(cmd_start(l) == 0);
    crate::tokenizer::lemma_token_end_at(l, 0, 7, limit);
    assert(cmd_end(l) == 7);
    assert(cmd_token(l) =~= "message"@);
    crate::tokenizer::lemma_skip_ws_at(l, 7, 8, limit);
    assert(arg_start(l) == 8);
    crate::tokenizer::lemma_token_end_at(l, 8, 8 + dl, limit);
    assert(arg_end(l) == 8 + dl);
    assert(arg_token(l) =~= d);
    assert(channel_digits(d) == d) by {
        assert(is_digit(d[0]));
    }
    crate::tokenizer::lemma_skip_ws_at(l, 8 + dl, 9 + dl, limit);
    assert(body_start(l) == 9 + dl);
    assert(is_channel_id(arg_token(l)));
    assert(classify(l) == LineClass::MessageOk);
    assert(rest_after_arg(l) =~= content);
}

proof fn lemma_verbs_distinct()
    ensures
        "playing"@ != "message"@,
        "listening_to"@ != "message"@,
        "watching"@ != "message"@,
        "competing_in"@ != "message"@,
        "listening_to"@ != "playing"@,
        "watching"@ != "playing"@,
        "watching"@ != "listening_to"@,
        "competing_in"@ != "playing"@,
        "competing_in"@ != "listening_to"@,
        "competing_in"@ != "watching"@,
{
    reveal_strlit("message");
    reveal_strlit("playing");
    reveal_strlit("listening_to");
    reveal_strlit("watching");
    reveal_strlit("competing_in");
    assert("playing"@[0] == 'p' && "message"@[0] == 'm');
    assert("competing_in"@[0] == 'c' && "listening_to"@[0] == 'l');
}

proof fn lemma_round_trip_status(kind: ActivityKind, name: Seq<char>)
    requires
        wf_text(name),
    ensures
        ({
            let l = verb_text(kind) + " "@ + name;
            &&& classify(l) == LineClass::StatusOk
            &&& verb_kind(cmd_token(l)) == kind
            &&& rest_after_cmd(l) == name
        }),
{
    reveal_strlit(" ");
    reveal_strlit("playing");
    reveal_strlit("listening_to");
    reveal_strlit("watching");
    reveal_strlit("competing_in");
    lemma_verbs_distinct();
    let v = verb_text(kind);
    let vl = v.len() as int;
    let m = name.len() as int;
    let l = v + " "@ + name;
    assert(l.len() == vl + 1 + m);
    match kind {
        ActivityKind::Playing => {
            assert(vl == 7);
            assert forall|k: int| 0 <= k < 7 implies !is_ws(v[k]) by {}
        },
        ActivityKind::ListeningTo => {
            assert(vl == 12);
            assert forall|k: int| 0 <= k < 12 implies !is_ws(v[k]) by {}
        },
        ActivityKind::Watching => {
            assert(vl == 8);
            assert forall|k: int| 0 <= k < 8 implies !is_ws(v[k]) by {}
        },
        ActivityKind::CompetingIn => {
            assert(vl == 12);
            assert forall|k: int| 0 <= k < 12 implies !is_ws(v[k]) by {}
        },
    }
    assert forall|k: int| 0 <= k < vl implies !is_ws(l[k]) by {
        assert(l[k] == v[k]);
    }
    assert(l[vl] == ' ');
    assert forall|k: int| vl + 1 <= k < l.len() implies l[k] == name[k - vl - 1] by {}
    assert(!is_ws(l[vl + 1]));
    assert(!is_ws(l[l.len() - 1]));
    crate::tokenizer::lemma_line_limit_at(l, l.len() as int);
    let limit = line_limit(l);
    crate::tokenizer::lemma_skip_ws_at(l, 0, 0, limit);
    crate::tokenizer::lemma_token_end_at(l, 0, vl, limit);
    assert(cmd_token(l) =~= v);
    crate::tokenizer::lemma_skip_ws_at(l, vl, vl + 1, limit);
    assert(arg_start(l) == vl + 1);
    assert(is_status_verb(cmd_token(l)));
    assert(cmd_token(l) != "message"@);
    assert(classify(l) == LineClass::StatusOk);
    assert(verb_kind(cmd_token(l)) == kind);
    assert(rest_after_cmd(l) =~= name);
}

proof fn lemma_round_trip_clear()
    ensures
        classify("clear_status"@) == LineClass::ClearOk,
{
    reveal_strlit("clear_status");
    reveal_strlit("message");
    reveal_strlit("playing");
    reveal_strlit("listening_to");
    reveal_strlit("watching");
    reveal_strlit("competing_in");
    let l = "clear_status"@;
    assert(l.len() == 12);
    assert forall|k: int| 0 <= k < 12 implies !is_ws(l[k]) by {}
    crate::tokenizer::lemma_line_limit_at(l, 12);
    let limit = line_limit(l);
    crate::tokenizer::lemma_skip_ws_at(l, 0, 0, limit);
    crate::tokenizer::lemma_token_end_at(l, 0, 12, limit);
    assert(cmd_token(l) =~= l);
    assert(cmd_token(l) != "message"@);
    assert(!is_status_verb(cmd_token(l))) by {
        assert("clear_status"@[0] == 'c' && "competing_in"@[0] == 'c');
        assert("clear_status"@[1] == 'l' && "competing_in"@[1] == 'o');
        assert("clear_status"@[0] != "listening_to"@[0]);
    }
    crate::tokenizer::lemma_skip_ws_at(l, 12, 12, limit);
    assert(arg_start(l) == limit);
}

/// One line determines one command: two commands that both match the
/// same line agree on variant, channel ID, kind, and text. Together
/// with [`lemma_canonical_round_trip`], parsing a well-formed line,
/// writing the result back canonically and reparsing yields the same
/// command.
pub proof fn lemma_command_matches_functional(l: Seq<char>, c1: Command, c2: Command)
    requires
        command_matches(l, c1),
        command_matches(l, c2),
    ensures
        c1.eq_spec(&c2),
{
}

/// The grammar is idempotent through its canonical line form: writing
/// any well-formed command back as a line and parsing that line yields
/// the same command again (same variant, channel ID, kind and text).
pub proof fn lemma_canonical_round_trip(c: Command)
    requires
        wf_command(c),
    ensures
        command_matches(canonical_spec(c), c),
{
    match c {
        Command::Message { channel_id, content } => {
            lemma_round_trip_message(channel_id, content@);
        },
        Command::Status { kind, name } => {
            lemma_round_trip_status(kind, name@);
        },
        Command::ClearStatus => {
            lemma_round_trip_clear();
        },
    }
}

/// For every well-formed line: parsing it, re-serializing the result
/// to canonical line form and reparsing yields the same command —
/// whatever whitespace the original line carried.
pub proof fn lemma_reparse_canonical(l: Seq<char>, c1: Command, c2: Command)
    requires
        command_matches(l, c1),
        command_matches(canonical_spec(c1), c2),
    ensures
        c1.eq_spec(&c2),
{
    lemma_parsed_command_wf(l, c1);
    lemma_canonical_round_trip(c1);
    lemma_command_matches_functional(canonical_spec(c1), c1, c2);
}

} // verus!
