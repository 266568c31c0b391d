//! The command grammar.
//!
//! A line is a keyword, compared without regard to case, and then the
//! keyword's arguments, all separated by runs of ASCII whitespace:
//!
//! ```text
//! read     <seek> [count]
//! readhex  <seek> [count]
//! write    <seek> <raw bytes to the end of the line>
//! writehex <seek> <hexbyte>...
//! seek     <seek>
//! help
//! quit
//! ```
//!
//! Words after the last argument that a command takes are ignored.

use crate::repl::errors::ParseError;
use crate::repl::seek::{parse_seek_arg, resolve, SeekDescriptor, PLUS};
use crate::repl::words::{
    lemma_skip_spaces, lemma_skip_spaces_run, lemma_skip_word_run, lemma_spans_are_words,
    lemma_spans_count, lemma_spans_step, next_word, spans, spans_from,
};
use crate::text::{
    ascii_bytes, decimal_value, equals_ignoring_case, hex_digit, hex_digit_value, is_hex_digit,
    is_numeral, is_space, literal_bytes, lowered, parse_numeral,
};
use vstd::prelude::*;
use vstd::slice::slice_subrange;

verus! {

/// What a line asks for.
#[derive(Debug, PartialEq, Eq)]
pub enum Command {
    /// Move the cursor, then read `count` bytes, or to the end of the store
    /// when there is no count, and show them as they are.
    Read { seek: SeekDescriptor, count: Option<usize> },
    /// As `Read`, but show the bytes as a hexdump.
    ReadHex { seek: SeekDescriptor, count: Option<usize> },
    /// Move the cursor, then write the bytes of the line from
    /// `payload_offset` to its end.
    Write { seek: SeekDescriptor, payload_offset: usize },
    /// Move the cursor, then write `bytes`.
    WriteHex { seek: SeekDescriptor, bytes: Vec<u8> },
    /// Move the cursor.
    Seek(SeekDescriptor),
    /// Show the help text.
    Help,
    /// End the session.
    Quit,
    /// Do nothing: the line was empty.
    Nop,
}

/// A command as a mathematical value.
pub enum CommandModel {
    Read { seek: SeekDescriptor, count: Option<nat> },
    ReadHex { seek: SeekDescriptor, count: Option<nat> },
    Write { seek: SeekDescriptor, payload_offset: nat },
    WriteHex { seek: SeekDescriptor, bytes: Seq<u8> },
    Seek(SeekDescriptor),
    Help,
    Quit,
    Nop,
}

/// A count as a mathematical value.
pub open spec fn count_model(count: Option<usize>) -> Option<nat> {
    match count {
        Some(n) => Some(n as nat),
        None => None,
    }
}

impl View for Command {
    type V = CommandModel;

    open spec fn view(&self) -> CommandModel {
        match *self {
            Command::Read { seek, count } => CommandModel::Read { seek, count: count_model(count) },
            Command::ReadHex { seek, count } => CommandModel::ReadHex {
                seek,
                count: count_model(count),
            },
            Command::Write { seek, payload_offset } => CommandModel::Write {
                seek,
                payload_offset: payload_offset as nat,
            },
            Command::WriteHex { seek, bytes } => CommandModel::WriteHex { seek, bytes: bytes@ },
            Command::Seek(seek) => CommandModel::Seek(seek),
            Command::Help => CommandModel::Help,
            Command::Quit => CommandModel::Quit,
            Command::Nop => CommandModel::Nop,
        }
    }
}

/// The commands that a line can begin with.
#[derive(Debug, Clone, Copy, PartialEq, Eq, Structural)]
pub enum Keyword {
    Read,
    ReadHex,
    Write,
    WriteHex,
    Seek,
    Help,
    Quit,
}

/// The keyword that the word `t` spells, in any mix of cases.
pub open spec fn keyword_of(t: Seq<u8>) -> Option<Keyword> {
    let w = lowered(t);
    if w == ascii_bytes("read"@) {
        Some(Keyword::Read)
    } else if w == ascii_bytes("readhex"@) {
        Some(Keyword::ReadHex)
    } else if w == ascii_bytes("write"@) {
        Some(Keyword::Write)
    } else if w == ascii_bytes("writehex"@) {
        Some(Keyword::WriteHex)
    } else if w == ascii_bytes("seek"@) {
        Some(Keyword::Seek)
    } else if w == ascii_bytes("help"@) {
        Some(Keyword::Help)
    } else if w == ascii_bytes("quit"@) {
        Some(Keyword::Quit)
    } else {
        None
    }
}

/// The `k`-th of the words `args` of the line `s`.
pub open spec fn arg(s: Seq<u8>, args: Seq<(int, int)>, k: int) -> Seq<u8> {
    s.subrange(args[k].0, args[k].1)
}

/// The position that a command is given: its first argument.
pub open spec fn seek_argument(s: Seq<u8>, args: Seq<(int, int)>) -> Result<
    SeekDescriptor,
    ParseError,
> {
    if args.len() < 1 {
        Err(ParseError::MissingSeekArgument)
    } else {
        resolve(arg(s, args, 0))
    }
}

/// What the word of a count is worth: a numeral, with or without a `+`
/// before it, whose value fits in a `usize`.
pub open spec fn count_value(t: Seq<u8>) -> Option<nat> {
    let digits = if t.len() > 0 && t[0] == PLUS {
        t.subrange(1, t.len() as int)
    } else {
        t
    };
    if is_numeral(digits) && decimal_value(digits) <= usize::MAX {
        Some(decimal_value(digits))
    } else {
        None
    }
}

/// The count that a read is given: its second argument, if it has one.
pub open spec fn count_argument(s: Seq<u8>, args: Seq<(int, int)>) -> Result<
    Option<nat>,
    ParseError,
> {
    if args.len() < 2 {
        Ok(None)
    } else {
        match count_value(arg(s, args, 1)) {
            Some(n) => Ok(Some(n)),
            None => Err(ParseError::InvalidDigitInCountArgument),
        }
    }
}

/// The arguments of a read: a position, then perhaps a count. A bad
/// position is reported before a bad count.
pub open spec fn read_arguments(s: Seq<u8>, args: Seq<(int, int)>) -> Result<
    (SeekDescriptor, Option<nat>),
    ParseError,
> {
    match seek_argument(s, args) {
        Err(e) => Err(e),
        Ok(seek) => match count_argument(s, args) {
            Err(e) => Err(e),
            Ok(count) => Ok((seek, count)),
        },
    }
}

/// Where the bytes to write begin in the line `s`: at the first byte after
/// the position that is no whitespace, or at the end of the line when
/// there is none.
pub open spec fn payload_offset(s: Seq<u8>, args: Seq<(int, int)>) -> nat {
    if args.len() < 2 {
        s.len()
    } else {
        args[1].0 as nat
    }
}

/// The byte that the word `t` writes: exactly two hexadecimal digits, in
/// either case.
pub open spec fn hex_byte(t: Seq<u8>) -> Option<u8> {
    if t.len() == 2 && is_hex_digit(t[0]) && is_hex_digit(t[1]) {
        Some((16 * hex_digit_value(t[0]) + hex_digit_value(t[1])) as u8)
    } else {
        None
    }
}

/// The bytes that a `writehex` is given: one for each argument after the
/// position, provided that every one of them is a byte.
pub open spec fn byte_arguments(s: Seq<u8>, args: Seq<(int, int)>) -> Result<Seq<u8>, ParseError> {
    if forall|k: int| 1 <= k < args.len() ==> (#[trigger] hex_byte(arg(s, args, k))) is Some {
        Ok(Seq::new((args.len() - 1) as nat, |i: int| hex_byte(arg(s, args, i + 1)).unwrap()))
    } else {
        Err(ParseError::InvalidByteArgument)
    }
}

/// What the keyword `keyword` asks for, given the words `args` after it in
/// the line `s`.
pub open spec fn command_of(keyword: Keyword, s: Seq<u8>, args: Seq<(int, int)>) -> Result<
    CommandModel,
    ParseError,
> {
    match keyword {
        Keyword::Help => Ok(CommandModel::Help),
        Keyword::Quit => Ok(CommandModel::Quit),
        Keyword::Seek => match seek_argument(s, args) {
            Err(e) => Err(e),
            Ok(seek) => Ok(CommandModel::Seek(seek)),
        },
        Keyword::Read => match read_arguments(s, args) {
            Err(e) => Err(e),
            Ok((seek, count)) => Ok(CommandModel::Read { seek, count }),
        },
        Keyword::ReadHex => match read_arguments(s, args) {
            Err(e) => Err(e),
            Ok((seek, count)) => Ok(CommandModel::ReadHex { seek, count }),
        },
        Keyword::Write => match seek_argument(s, args) {
            Err(e) => Err(e),
            Ok(seek) => Ok(CommandModel::Write { seek, payload_offset: payload_offset(s, args) }),
        },
        Keyword::WriteHex => match seek_argument(s, args) {
            Err(e) => Err(e),
            Ok(seek) => match byte_arguments(s, args) {
                Err(e) => Err(e),
                Ok(bytes) => Ok(CommandModel::WriteHex { seek, bytes }),
            },
        },
    }
}

/// What the line `s` asks for. A line of no bytes at all asks for nothing;
/// any other line must begin, after whitespace, with a keyword.
pub open spec fn parse(s: Seq<u8>) -> Result<CommandModel, ParseError> {
    if s.len() == 0 {
        Ok(CommandModel::Nop)
    } else if spans(s).len() == 0 {
        Err(ParseError::UnrecognizedCommand)
    } else {
        match keyword_of(s.subrange(spans(s)[0].0, spans(s)[0].1)) {
            None => Err(ParseError::UnrecognizedCommand),
            Some(keyword) => command_of(keyword, s, spans(s).skip(1)),
        }
    }
}

/// Whether the command `r` that was read is what `expected` says.
pub open spec fn agrees(
    r: Result<Command, ParseError>,
    expected: Result<CommandModel, ParseError>,
) -> bool {
    match r {
        Ok(command) => expected == Ok::<CommandModel, ParseError>(command@),
        Err(e) => expected == Err::<CommandModel, ParseError>(e),
    }
}

/// Tells which keyword a word spells.
pub fn keyword(word: &[u8]) -> (r: Option<Keyword>)
    ensures
        r == keyword_of(word@),
{
    proof {
        reveal_strlit("read");
        reveal_strlit("readhex");
        reveal_strlit("write");
        reveal_strlit("writehex");
        reveal_strlit("seek");
        reveal_strlit("help");
        reveal_strlit("quit");
    }
    if equals_ignoring_case(word, literal_bytes("read")) {
        Some(Keyword::Read)
    } else if equals_ignoring_case(word, literal_bytes("readhex")) {
        Some(Keyword::ReadHex)
    } else if equals_ignoring_case(word, literal_bytes("write")) {
        Some(Keyword::Write)
    } else if equals_ignoring_case(word, literal_bytes("writehex")) {
        Some(Keyword::WriteHex)
    } else if equals_ignoring_case(word, literal_bytes("seek")) {
        Some(Keyword::Seek)
    } else if equals_ignoring_case(word, literal_bytes("help")) {
        Some(Keyword::Help)
    } else if equals_ignoring_case(word, literal_bytes("quit")) {
        Some(Keyword::Quit)
    } else {
        None
    }
}

/// Reads a line.
pub fn parse_input(input: &[u8]) -> (r: Result<Command, ParseError>)
    ensures
        agrees(r, parse(input@)),
        r matches Ok(Command::Write { payload_offset, .. }) ==> payload_offset <= input@.len(),
{
    if input.len() == 0 {
        return Ok(Command::Nop);
    }
    let (start, end) = next_word(input, 0);
    proof {
        lemma_spans_step(input@, 0);
        assert(start < input@.len() ==> spans(input@).skip(1) =~= spans_from(input@, end as int));
    }
    if start == end {
        return Err(ParseError::UnrecognizedCommand);
    }
    match keyword(slice_subrange(input, start, end)) {
        None => Err(ParseError::UnrecognizedCommand),
        Some(Keyword::Read) => parse_read_command(input, end),
        Some(Keyword::ReadHex) => parse_readb_command(input, end),
        Some(Keyword::Write) => {
            let r = parse_write_command(input, end);
            proof {
                if r is Ok {
                    lemma_payload_offset_is_in_line(input@);
                }
            }
            r
        },
        Some(Keyword::WriteHex) => parse_writeb_command(input, end),
        Some(Keyword::Seek) => parse_seek_command(input, end),
        Some(Keyword::Help) => Ok(Command::Help),
        Some(Keyword::Quit) => Ok(Command::Quit),
    }
}

/// Reads the position that begins the arguments of a command. The
/// arguments are the words of `line` from `from` on. Also tells where the
/// word of the position ends.
pub fn parse_seek_argument(line: &[u8], from: usize) -> (r: Result<
    (SeekDescriptor, usize),
    ParseError,
>)
    requires
        from <= line@.len(),
    ensures
        match r {
            Ok((seek, end)) => {
                &&& seek_argument(line@, spans_from(line@, from as int)) == Ok::<
                    SeekDescriptor,
                    ParseError,
                >(seek)
                &&& spans_from(line@, from as int).len() >= 1
                &&& end == spans_from(line@, from as int)[0].1
                &&& end <= line@.len()
                &&& spans_from(line@, from as int).skip(1) == spans_from(line@, end as int)
            },
            Err(e) => seek_argument(line@, spans_from(line@, from as int)) == Err::<
                SeekDescriptor,
                ParseError,
            >(e),
        },
{
    let (start, end) = next_word(line, from);
    proof {
        lemma_spans_step(line@, from as int);
        assert(start < line@.len() ==> spans_from(line@, from as int).skip(1) =~= spans_from(
            line@,
            end as int,
        ));
    }
    if start == end {
        return Err(ParseError::MissingSeekArgument);
    }
    match parse_seek_arg(slice_subrange(line, start, end)) {
        Ok(seek) => Ok((seek, end)),
        Err(e) => Err(e),
    }
}

/// Reads the word of a count.
pub fn parse_count(word: &[u8]) -> (r: Option<usize>)
    ensures
        count_model(r) == count_value(word@),
{
    let digits = if word.len() > 0 && word[0] == PLUS {
        slice_subrange(word, 1, word.len())
    } else {
        word
    };
    match parse_numeral(digits) {
        Some(v) => {
            if v <= usize::MAX as u64 {
                Some(v as usize)
            } else {
                None
            }
        },
        None => None,
    }
}

/// Reads a position and, if one follows, a count: the arguments of both
/// kinds of read.
pub fn parse_read_arguments(line: &[u8], from: usize) -> (r: Result<
    (SeekDescriptor, Option<usize>),
    ParseError,
>)
    requires
        from <= line@.len(),
    ensures
        match r {
            Ok((seek, count)) => read_arguments(line@, spans_from(line@, from as int)) == Ok::<
                (SeekDescriptor, Option<nat>),
                ParseError,
            >((seek, count_model(count))),
            Err(e) => read_arguments(line@, spans_from(line@, from as int)) == Err::<
                (SeekDescriptor, Option<nat>),
                ParseError,
            >(e),
        },
{
    let (seek, end) = match parse_seek_argument(line, from) {
        Ok(found) => found,
        Err(e) => {
            return Err(e);
        },
    };
    let (start, stop) = next_word(line, end);
    proof {
        lemma_spans_step(line@, end as int);
        let args = spans_from(line@, from as int);
        assert(start < line@.len() ==> args[1] == args.skip(1)[0]);
    }
    if start == stop {
        return Ok((seek, None));
    }
    match parse_count(slice_subrange(line, start, stop)) {
        Some(n) => Ok((seek, Some(n))),
        None => Err(ParseError::InvalidDigitInCountArgument),
    }
}

/// Reads the arguments of `read`: the words of `line` from `from` on.
pub fn parse_read_command(line: &[u8], from: usize) -> (r: Result<Command, ParseError>)
    requires
        from <= line@.len(),
    ensures
        agrees(r, command_of(Keyword::Read, line@, spans_from(line@, from as int))),
{
    match parse_read_arguments(line, from) {
        Ok((seek, count)) => Ok(Command::Read { seek, count }),
        Err(e) => Err(e),
    }
}

/// Reads the arguments of `readhex`, which are those of `read`.
pub fn parse_readb_command(line: &[u8], from: usize) -> (r: Result<Command, ParseError>)
    requires
        from <= line@.len(),
    ensures
        agrees(r, command_of(Keyword::ReadHex, line@, spans_from(line@, from as int))),
{
    match parse_read_arguments(line, from) {
        Ok((seek, count)) => Ok(Command::ReadHex { seek, count }),
        Err(e) => Err(e),
    }
}

/// Reads the arguments of `write`: a position, and then the rest of the
/// line as it stands, from the first byte that is no whitespace.
pub fn parse_write_command(line: &[u8], from: usize) -> (r: Result<Command, ParseError>)
    requires
        from <= line@.len(),
    ensures
        agrees(r, command_of(Keyword::Write, line@, spans_from(line@, from as int))),
{
    let (seek, end) = match parse_seek_argument(line, from) {
        Ok(found) => found,
        Err(e) => {
            return Err(e);
        },
    };
    let (start, _) = next_word(line, end);
    proof {
        lemma_spans_step(line@, end as int);
        let args = spans_from(line@, from as int);
        assert(start < line@.len() ==> args[1] == args.skip(1)[0]);
    }
    Ok(Command::Write { seek, payload_offset: start })
}

/// Reads a word of two hexadecimal digits.
pub fn parse_hex_byte(word: &[u8]) -> (r: Option<u8>)
    ensures
        r == hex_byte(word@),
{
    if word.len() != 2 {
        return None;
    }
    match (hex_digit(word[0]), hex_digit(word[1])) {
        (Some(high), Some(low)) => Some(16 * high + low),
        _ => None,
    }
}

/// Reads the arguments of `writehex`: a position, and then any number of
/// bytes, two hexadecimal digits each. One word that is no such byte
/// spoils the command.
pub fn parse_writeb_command(line: &[u8], from: usize) -> (r: Result<Command, ParseError>)
    requires
        from <= line@.len(),
    ensures
        agrees(r, command_of(Keyword::WriteHex, line@, spans_from(line@, from as int))),
{
    let (seek, end) = match parse_seek_argument(line, from) {
        Ok(found) => found,
        Err(e) => {
            return Err(e);
        },
    };
    let ghost args = spans_from(line@, from as int);
    let mut bytes: Vec<u8> = Vec::with_capacity(1024);
    let mut at: usize = end;
    let ghost mut k: int = 1;
    loop
        invariant
            at <= line@.len(),
            args == spans_from(line@, from as int),
            1 <= k <= args.len(),
            args.skip(k) == spans_from(line@, at as int),
            bytes@.len() == k - 1,
            forall|j: int| 1 <= j < k ==> hex_byte(arg(line@, args, j)) == Some(bytes@[j - 1]),
            seek_argument(line@, args) == Ok::<SeekDescriptor, ParseError>(seek),
        ensures
            k == args.len(),
        decreases line@.len() - at,
    {
        let (start, stop) = next_word(line, at);
        proof {
            lemma_spans_step(line@, at as int);
            assert(args.skip(k).len() == args.len() - k);
            if start < line@.len() {
                assert(args[k] == args.skip(k)[0]);
                assert(args.skip(k + 1) =~= args.skip(k).skip(1));
                assert(args.skip(k).skip(1) =~= spans_from(line@, stop as int));
            } else {
                assert(args.skip(k).len() == 0);
            }
        }
        if start == stop {
            break;
        }
        match parse_hex_byte(slice_subrange(line, start, stop)) {
            Some(byte) => {
                bytes.push(byte);
            },
            None => {
                assert(hex_byte(arg(line@, args, k)) is None);
                return Err(ParseError::InvalidByteArgument);
            },
        }
        at = stop;
        proof {
            k = k + 1;
        }
    }
    proof {
        assert(k == args.len());
        let expected = Seq::new(
            (args.len() - 1) as nat,
            |i: int| hex_byte(arg(line@, args, i + 1)).unwrap(),
        );
        assert(bytes@ =~= expected);
    }
    Ok(Command::WriteHex { seek, bytes })
}

/// Reads the argument of `seek`: a position.
pub fn parse_seek_command(line: &[u8], from: usize) -> (r: Result<Command, ParseError>)
    requires
        from <= line@.len(),
    ensures
        agrees(r, command_of(Keyword::Seek, line@, spans_from(line@, from as int))),
{
    match parse_seek_argument(line, from) {
        Ok((seek, _)) => Ok(Command::Seek(seek)),
        Err(e) => Err(e),
    }
}

/// Whether every byte of `s` is whitespace.
pub open spec fn all_spaces(s: Seq<u8>) -> bool {
    forall|i: int| 0 <= i < s.len() ==> is_space(#[trigger] s[i])
}

/// Whether no byte of `s` is whitespace.
pub open spec fn no_spaces(s: Seq<u8>) -> bool {
    forall|i: int| 0 <= i < s.len() ==> !is_space(#[trigger] s[i])
}

/// The offset that a `write` command carries is a place in its line, at
/// most the line's length. It stands on the first byte after the position
/// that is no whitespace, or at the end of the line when there is none.
pub proof fn lemma_payload_offset_is_in_line(s: Seq<u8>)
    requires
        parse(s) is Ok,
        parse(s)->Ok_0 is Write,
    ensures
        ({
            let offset = parse(s)->Ok_0->payload_offset;
            let position_end = spans(s)[1].1;
            &&& spans(s).len() >= 2
            &&& position_end <= offset <= s.len()
            &&& forall|i: int| position_end <= i < offset ==> is_space(#[trigger] s[i])
            &&& offset < s.len() ==> !is_space(s[offset as int])
        }),
{
    let all = spans(s);
    lemma_spans_step(s, 0);
    let first_end = all[0].1;
    let args = all.skip(1);
    assert(args =~= spans_from(s, first_end));
    lemma_spans_step(s, first_end);
    assert(args.len() >= 1);
    assert(all[1] == args[0]);
    let position_end = args[0].1;
    lemma_spans_step(s, position_end);
    lemma_skip_spaces(s, position_end);
    assert(args.skip(1) =~= spans_from(s, position_end));
    if args.len() >= 2 {
        assert(args[1] == args.skip(1)[0]);
    } else {
        assert(args.skip(1).len() == 0);
    }
}

/// A `write` line read back part by part. Put a line together from
/// leading whitespace, the keyword, whitespace, the word of a position,
/// whitespace, and bytes to write that do not begin with whitespace. Then
/// the line is read as a write to that position, its offset is the place
/// where those bytes begin, and the line from that place to its end is
/// those bytes, untouched.
pub proof fn lemma_write_payload_round_trip(
    lead: Seq<u8>,
    keyword: Seq<u8>,
    gap: Seq<u8>,
    position: Seq<u8>,
    run: Seq<u8>,
    payload: Seq<u8>,
)
    requires
        all_spaces(lead),
        keyword_of(keyword) == Some(Keyword::Write),
        all_spaces(gap) && gap.len() > 0,
        no_spaces(position) && position.len() > 0,
        all_spaces(run),
        payload.len() > 0 ==> run.len() > 0 && !is_space(payload[0]),
    ensures
        ({
            let line = lead + keyword + gap + position + run + payload;
            let offset = lead.len() + keyword.len() + gap.len() + position.len() + run.len();
            &&& parse(line) == match resolve(position) {
                Ok(seek) => Ok::<CommandModel, ParseError>(
                    CommandModel::Write { seek, payload_offset: offset },
                ),
                Err(e) => Err::<CommandModel, ParseError>(e),
            }
            &&& line.subrange(offset as int, line.len() as int) == payload
        }),
{
    let line = lead + keyword + gap + position + run + payload;
    let a0 = lead.len() as int;
    let b0 = a0 + keyword.len();
    let a1 = b0 + gap.len();
    let b1 = a1 + position.len();
    let offset = b1 + run.len();
    reveal_strlit("read");
    reveal_strlit("readhex");
    reveal_strlit("write");
    assert(keyword.len() == 5) by {
        assert(lowered(keyword).len() == keyword.len());
    }
    assert forall|i: int| 0 <= i < keyword.len() implies !is_space(#[trigger] keyword[i]) by {
        assert(lowered(keyword)[i] == ascii_bytes("write"@)[i]);
    }
    assert forall|i: int| 0 <= i < line.len() implies #[trigger] line[i] == (if i < a0 {
        lead[i]
    } else if i < b0 {
        keyword[i - a0]
    } else if i < a1 {
        gap[i - b0]
    } else if i < b1 {
        position[i - a1]
    } else if i < offset {
        run[i - b1]
    } else {
        payload[i - offset]
    }) by {}
    assert(line.subrange(a0, b0) =~= keyword);
    assert(line.subrange(a1, b1) =~= position);
    assert(line.subrange(offset, line.len() as int) =~= payload);
    lemma_skip_spaces_run(line, 0, a0);
    lemma_skip_word_run(line, a0, b0);
    lemma_spans_step(line, 0);
    let args = spans(line).skip(1);
    assert(args =~= spans_from(line, b0));
    lemma_skip_spaces_run(line, b0, a1);
    lemma_skip_word_run(line, a1, b1);
    lemma_spans_step(line, b0);
    assert(args[0] == (a1, b1));
    lemma_skip_spaces_run(line, b1, offset);
    lemma_spans_step(line, b1);
    assert(args.skip(1) =~= spans_from(line, b1));
    if offset < line.len() {
        assert(args[1] == args.skip(1)[0]);
    } else {
        assert(args.skip(1).len() == 0);
    }
}

/// A `writehex` line spells fewer bytes than it is long.
pub proof fn lemma_bytes_are_fewer_than_the_line(s: Seq<u8>)
    requires
        parse(s) is Ok,
        parse(s)->Ok_0 is WriteHex,
    ensures
        parse(s)->Ok_0->bytes.len() < s.len(),
{
    lemma_spans_are_words(s, 0);
    lemma_spans_count(s, 0);
}

/// One word that is no byte spoils a `writehex`: whatever the other words
/// are, no bytes come of the line, only the error.
pub proof fn lemma_one_bad_byte_spoils_the_command(s: Seq<u8>, args: Seq<(int, int)>, k: int)
    requires
        seek_argument(s, args) is Ok,
        1 <= k < args.len(),
        hex_byte(arg(s, args, k)) is None,
    ensures
        command_of(Keyword::WriteHex, s, args) == Err::<CommandModel, ParseError>(
            ParseError::InvalidByteArgument,
        ),
{
}

} // verus!
