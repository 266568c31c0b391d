//! The session engine: what to do next, given what just happened.
//!
//! The engine never touches the store or the terminal. It is told what
//! happened (an `Event`, with the bytes that came with it) and answers
//! with what to show and what to do next (a `Reply`). The program around
//! it does what the reply asks and comes back with the next event:
//!
//! ```text
//! Prompting --Position--> AwaitingLine --Line--> Seeking --Sought--> Reading --Bytes--> Prompting
//!                                                                   Writing --Written--> Prompting
//! ```
//!
//! A line that asks for nothing of the store leads straight back to
//! `Prompting`; the end of the input and `quit` lead to `Stopped`.
//! `Seeking`, `Reading` and `Writing` are the steps of dispatching one
//! command.

use crate::repl::hexdump::{hexdump, render_hexdump};
use crate::repl::parser::{
    lemma_bytes_are_fewer_than_the_line, lemma_payload_offset_is_in_line, parse, parse_input,
    Command, CommandModel,
};
use crate::repl::report::{
    error_notice, not_seekable_message, prompt, prompt_text, push_error_notice,
    push_not_seekable_notice, push_usage_notice, usage_message, NEWLINE,
};
use crate::repl::seek::SeekDescriptor;
use vstd::prelude::*;
use vstd::slice::{slice_subrange, slice_to_vec};

verus! {

/// What a command does once its seek is done.
#[derive(Debug, Clone, Copy, PartialEq, Eq)]
pub enum Follow {
    /// Nothing: the command was a seek.
    Nothing,
    /// Read `count` bytes, or to the end of the store, and show them raw
    /// or, if `hex`, as a hexdump.
    Read { count: Option<usize>, hex: bool },
    /// Write the bytes that the engine holds.
    Write,
}

/// Where the session stands.
#[derive(Debug, Clone, Copy, PartialEq, Eq)]
pub enum Phase {
    /// About to prompt: the engine waits to be told where the cursor is.
    Prompting,
    /// The prompt is out: the engine waits for a line.
    AwaitingLine,
    /// A command's seek is under way. `stay` tells whether it is the seek
    /// that moves nothing, the only one that may fail without an error.
    Seeking { stay: bool, follow: Follow },
    /// A read is under way. `start` is where the cursor stood before it,
    /// if the store could tell.
    Reading { hex: bool, start: Option<u64> },
    /// A write of `len` bytes is under way.
    Writing { len: usize },
    /// The session is over.
    Stopped,
}

/// What happened. The bytes that came with it are handed over beside it.
#[derive(Debug, Clone, Copy, PartialEq, Eq)]
pub enum Event {
    /// The store told where its cursor stands, or could not.
    Position(Option<u64>),
    /// A line was read; it comes with the event, its line feed included.
    /// No bytes at all mean that the input has ended.
    Line,
    /// No line could be read; the reason comes with the event.
    LineFailed,
    /// The seek ended: at this position, or not at all.
    Sought(Option<u64>),
    /// A read ended. The buffer that was read into comes with the event,
    /// and this many bytes at its front are what the store gave.
    Bytes(usize),
    /// The write ended well.
    Written,
    /// The read or the write failed; the reason comes with the event.
    Failed,
}

/// What to do next.
#[derive(Debug, Clone, Copy, PartialEq, Eq)]
pub enum Action {
    /// Ask the store where its cursor stands; answer with `Position`.
    QueryPosition,
    /// Read a line; answer with `Line` or `LineFailed`.
    ReadLine,
    /// Move the cursor; answer with `Sought`.
    Seek(SeekDescriptor),
    /// Read so many bytes, or to the end of the store; answer with
    /// `Bytes` or `Failed`.
    Read(Option<usize>),
    /// Write the reply's payload in full; answer with `Written` or
    /// `Failed`.
    Write,
    /// Flush the store and leave.
    Stop,
}

/// What the engine answers to an event. The output goes out first, then
/// the notice, then the help text if asked for; then the action is due.
#[derive(Debug, PartialEq, Eq)]
pub struct Reply {
    /// Bytes for the output stream.
    pub output: Vec<u8>,
    /// Bytes for the diagnostic stream.
    pub notice: Vec<u8>,
    /// Whether to show the help text.
    pub help: bool,
    /// What to do next.
    pub action: Action,
    /// The bytes to write, when the action is `Write`.
    pub payload: Vec<u8>,
}

/// A reply as a mathematical value.
pub struct ReplyModel {
    pub output: Seq<u8>,
    pub notice: Seq<u8>,
    pub help: bool,
    pub action: Action,
    pub payload: Seq<u8>,
}

impl View for Reply {
    type V = ReplyModel;

    open spec fn view(&self) -> ReplyModel {
        ReplyModel {
            output: self.output@,
            notice: self.notice@,
            help: self.help,
            action: self.action,
            payload: self.payload@,
        }
    }
}

/// The session: its phase, the bytes it holds for a write that waits for
/// its seek, and how many bytes the last command read and wrote.
pub struct Engine {
    phase: Phase,
    payload: Vec<u8>,
    read_count: usize,
    write_count: usize,
}

/// A session as a mathematical value.
pub struct EngineModel {
    pub phase: Phase,
    pub payload: Seq<u8>,
    pub read_count: nat,
    pub write_count: nat,
}

impl View for Engine {
    type V = EngineModel;

    closed spec fn view(&self) -> EngineModel {
        EngineModel {
            phase: self.phase,
            payload: self.payload@,
            read_count: self.read_count as nat,
            write_count: self.write_count as nat,
        }
    }
}

/// A reply that shows `notice` and asks for `action`.
pub open spec fn say(action: Action, notice: Seq<u8>) -> ReplyModel {
    ReplyModel { output: Seq::empty(), notice, help: false, action, payload: Seq::empty() }
}

/// The session `e` back at the prompt, holding nothing.
pub open spec fn resting(e: EngineModel) -> EngineModel {
    EngineModel { phase: Phase::Prompting, payload: Seq::empty(), ..e }
}

/// The session `e` in the phase `phase`, holding nothing.
pub open spec fn moved(e: EngineModel, phase: Phase) -> EngineModel {
    EngineModel { phase, payload: Seq::empty(), ..e }
}

/// A count as a machine value.
pub open spec fn count_of(count: Option<nat>) -> Option<usize> {
    match count {
        Some(n) => Some(n as usize),
        None => None,
    }
}

/// A line as it was typed: without the line feed that ended it.
pub open spec fn typed(data: Seq<u8>) -> Seq<u8> {
    if data.len() > 0 && data.last() == NEWLINE {
        data.drop_last()
    } else {
        data
    }
}

/// The line feed that the terminal still owes when a line came without
/// one, as the last line of the input may.
pub open spec fn owed_line_feed(data: Seq<u8>) -> Seq<u8> {
    if data.len() > 0 && data.last() == NEWLINE {
        Seq::empty()
    } else {
        seq![NEWLINE]
    }
}

/// The bytes that a command writes: for `write`, the line from the
/// command's offset to its end; for `writehex`, the bytes it spells.
pub open spec fn payload_of(command: CommandModel, line: Seq<u8>) -> Seq<u8> {
    match command {
        CommandModel::Write { payload_offset, .. } => line.subrange(
            payload_offset as int,
            line.len() as int,
        ),
        CommandModel::WriteHex { bytes, .. } => bytes,
        _ => Seq::empty(),
    }
}

/// The session `e` as it waits for the seek of a command, holding
/// `payload`, and the reply that asks for that seek.
pub open spec fn seeking(
    e: EngineModel,
    seek: SeekDescriptor,
    follow: Follow,
    payload: Seq<u8>,
    lead: Seq<u8>,
) -> (EngineModel, ReplyModel) {
    (
        EngineModel { phase: Phase::Seeking { stay: seek.is_stay(), follow }, payload, ..e },
        say(Action::Seek(seek), lead),
    )
}

/// What the command of the line `line` leads to, with `lead` to show
/// first. `quit` ends the session; `help` and the empty line lead back to
/// the prompt; every other command begins with its seek, but for a `write`
/// of no bytes, which does nothing at all.
pub open spec fn dispatch(e: EngineModel, command: CommandModel, line: Seq<u8>, lead: Seq<u8>) -> (
    EngineModel,
    ReplyModel,
) {
    match command {
        CommandModel::Nop => (resting(e), say(Action::QueryPosition, lead)),
        CommandModel::Quit => (moved(e, Phase::Stopped), say(Action::Stop, lead)),
        CommandModel::Help => (
            resting(e),
            ReplyModel { help: true, ..say(Action::QueryPosition, lead) },
        ),
        CommandModel::Seek(seek) => seeking(e, seek, Follow::Nothing, Seq::empty(), lead),
        CommandModel::Read { seek, count } => seeking(
            e,
            seek,
            Follow::Read { count: count_of(count), hex: false },
            Seq::empty(),
            lead,
        ),
        CommandModel::ReadHex { seek, count } => seeking(
            e,
            seek,
            Follow::Read { count: count_of(count), hex: true },
            Seq::empty(),
            lead,
        ),
        CommandModel::Write { seek, .. } => if payload_of(command, line).len() == 0 {
            (resting(e), say(Action::QueryPosition, lead))
        } else {
            seeking(e, seek, Follow::Write, payload_of(command, line), lead)
        },
        CommandModel::WriteHex { seek, bytes } => seeking(e, seek, Follow::Write, bytes, lead),
    }
}

/// What a line leads to. No bytes end the session. A line that is not
/// understood is reported, and nothing else happens. Any other line is a
/// command, which is dispatched.
pub open spec fn on_line(e: EngineModel, data: Seq<u8>) -> (EngineModel, ReplyModel) {
    let lead = owed_line_feed(data);
    if data.len() == 0 {
        (moved(e, Phase::Stopped), say(Action::Stop, lead))
    } else {
        match parse(typed(data)) {
            Err(err) => (
                resting(e),
                say(Action::QueryPosition, lead + error_notice(usage_message(err))),
            ),
            Ok(command) => dispatch(e, command, typed(data), lead),
        }
    }
}

/// What the end of a seek leads to. A seek that failed is an error, and
/// the command is given up; but the seek that moves nothing may fail, and
/// then the position is merely not known. After the seek comes what the
/// command is for.
pub open spec fn on_sought(e: EngineModel, stay: bool, follow: Follow, landed: Option<u64>) -> (
    EngineModel,
    ReplyModel,
) {
    if landed is None && !stay {
        (resting(e), say(Action::QueryPosition, error_notice(not_seekable_message())))
    } else {
        match follow {
            Follow::Nothing => (resting(e), say(Action::QueryPosition, Seq::empty())),
            Follow::Read { count, hex } => (
                moved(e, Phase::Reading { hex, start: landed }),
                say(Action::Read(count), Seq::empty()),
            ),
            Follow::Write => (
                moved(e, Phase::Writing { len: e.payload.len() as usize }),
                ReplyModel { payload: e.payload, ..say(Action::Write, Seq::empty()) },
            ),
        }
    }
}

/// The bytes that a read obtained: the front of the buffer, as far as the
/// store filled it.
pub open spec fn obtained_bytes(data: Seq<u8>, obtained: usize) -> Seq<u8> {
    if obtained <= data.len() {
        data.take(obtained as int)
    } else {
        data
    }
}

/// What the end of a read leads to. The bytes obtained are shown, raw or
/// as a hexdump, and counted; what the store did not fill is not shown.
/// Raw bytes are followed by a line feed on the diagnostic stream, unless
/// there are none.
pub open spec fn on_bytes(
    e: EngineModel,
    hex: bool,
    start: Option<u64>,
    obtained: usize,
    data: Seq<u8>,
) -> (EngineModel, ReplyModel) {
    let got = obtained_bytes(data, obtained);
    (
        EngineModel { read_count: got.len(), ..resting(e) },
        ReplyModel {
            output: if hex {
                hexdump(
                    match start {
                        Some(p) => p as nat,
                        None => 0,
                    },
                    got,
                )
            } else {
                got
            },
            notice: if !hex && got.len() > 0 {
                seq![NEWLINE]
            } else {
                Seq::empty()
            },
            help: false,
            action: Action::QueryPosition,
            payload: Seq::empty(),
        },
    )
}

/// The session after `event`, which came with `data`, and the reply to
/// it; or `None` when the event is not one that the phase waits for.
pub open spec fn transition(e: EngineModel, event: Event, data: Seq<u8>) -> Option<
    (EngineModel, ReplyModel),
> {
    match (e.phase, event) {
        (Phase::Prompting, Event::Position(pos)) => Some(
            (
                EngineModel {
                    phase: Phase::AwaitingLine,
                    payload: Seq::empty(),
                    read_count: 0,
                    write_count: 0,
                },
                say(Action::ReadLine, prompt(e.read_count, e.write_count, pos)),
            ),
        ),
        (Phase::AwaitingLine, Event::Line) => Some(on_line(e, data)),
        (Phase::AwaitingLine, Event::LineFailed) => Some(
            (resting(e), say(Action::QueryPosition, error_notice(data))),
        ),
        (Phase::Seeking { stay, follow }, Event::Sought(landed)) => Some(
            on_sought(e, stay, follow, landed),
        ),
        (Phase::Reading { hex, start }, Event::Bytes(obtained)) => Some(
            on_bytes(e, hex, start, obtained, data),
        ),
        (Phase::Reading { .. }, Event::Failed) => Some(
            (resting(e), say(Action::QueryPosition, error_notice(data))),
        ),
        (Phase::Writing { len }, Event::Written) => Some(
            (
                EngineModel { write_count: len as nat, ..resting(e) },
                say(Action::QueryPosition, Seq::empty()),
            ),
        ),
        (Phase::Writing { .. }, Event::Failed) => Some(
            (resting(e), say(Action::QueryPosition, error_notice(data))),
        ),
        _ => None,
    }
}

impl Engine {
    /// A session that is about to prompt for the first time. Its first
    /// action is `QueryPosition`.
    pub fn new() -> (engine: Engine)
        ensures
            engine@ == (EngineModel {
                phase: Phase::Prompting,
                payload: Seq::empty(),
                read_count: 0,
                write_count: 0,
            }),
            well_formed(engine@),
    {
        Engine { phase: Phase::Prompting, payload: Vec::new(), read_count: 0, write_count: 0 }
    }

    /// Where the session stands.
    pub fn phase(&self) -> (phase: Phase)
        ensures
            phase == self@.phase,
    {
        self.phase
    }

    /// How many bytes the last command read.
    pub fn read_count(&self) -> (n: usize)
        ensures
            n == self@.read_count,
    {
        self.read_count
    }

    /// How many bytes the last command wrote.
    pub fn write_count(&self) -> (n: usize)
        ensures
            n == self@.write_count,
    {
        self.write_count
    }

    /// Whether the session is over.
    pub fn stopped(&self) -> (r: bool)
        ensures
            r == (self@.phase == Phase::Stopped),
    {
        match self.phase {
            Phase::Stopped => true,
            _ => false,
        }
    }

    /// Goes back to the prompt with `notice` to show.
    fn rest(&mut self, notice: Vec<u8>) -> (reply: Reply)
        ensures
            final(self)@ == resting(old(self)@),
            reply@ == say(Action::QueryPosition, notice@),
    {
        self.phase = Phase::Prompting;
        self.payload = Vec::new();
        Reply {
            output: Vec::new(),
            notice,
            help: false,
            action: Action::QueryPosition,
            payload: Vec::new(),
        }
    }

    /// Goes to `phase`, holding nothing, with `notice` to show and
    /// `action` to do.
    fn go(&mut self, phase: Phase, action: Action, notice: Vec<u8>) -> (reply: Reply)
        ensures
            final(self)@ == moved(old(self)@, phase),
            reply@ == say(action, notice@),
    {
        self.phase = phase;
        self.payload = Vec::new();
        Reply { output: Vec::new(), notice, help: false, action, payload: Vec::new() }
    }

    /// Goes back to the prompt with the error `message` to show.
    fn fail(&mut self, message: &[u8]) -> (reply: Reply)
        ensures
            final(self)@ == resting(old(self)@),
            reply@ == say(Action::QueryPosition, error_notice(message@)),
    {
        let mut notice: Vec<u8> = Vec::new();
        push_error_notice(&mut notice, message);
        assert(notice@ =~= error_notice(message@));
        self.rest(notice)
    }

    /// Takes a line.
    fn accept_line(&mut self, data: Vec<u8>) -> (reply: Reply)
        ensures
            (final(self)@, reply@) == on_line(old(self)@, data@),
    {
        let n = data.len();
        let mut notice: Vec<u8> = Vec::new();
        if n == 0 {
            notice.push(NEWLINE);
            assert(notice@ =~= owed_line_feed(data@));
            return self.go(Phase::Stopped, Action::Stop, notice);
        }
        let ended = data[n - 1] == NEWLINE;
        let end: usize = if ended {
            n - 1
        } else {
            n
        };
        if !ended {
            notice.push(NEWLINE);
        }
        assert(notice@ =~= owed_line_feed(data@));
        let line = slice_subrange(data.as_slice(), 0, end);
        assert(line@ =~= typed(data@));
        match parse_input(line) {
            Err(e) => {
                push_usage_notice(&mut notice, e);
                self.rest(notice)
            },
            Ok(Command::Nop) => self.rest(notice),
            Ok(Command::Quit) => self.go(Phase::Stopped, Action::Stop, notice),
            Ok(Command::Help) => {
                let mut reply = self.rest(notice);
                reply.help = true;
                reply
            },
            Ok(Command::Seek(seek)) => self.go(
                Phase::Seeking { stay: seek.stays(), follow: Follow::Nothing },
                Action::Seek(seek),
                notice,
            ),
            Ok(Command::Read { seek, count }) => self.go(
                Phase::Seeking { stay: seek.stays(), follow: Follow::Read { count, hex: false } },
                Action::Seek(seek),
                notice,
            ),
            Ok(Command::ReadHex { seek, count }) => self.go(
                Phase::Seeking { stay: seek.stays(), follow: Follow::Read { count, hex: true } },
                Action::Seek(seek),
                notice,
            ),
            Ok(Command::Write { seek, payload_offset }) => {
                if payload_offset == end {
                    self.rest(notice)
                } else {
                    let payload = slice_to_vec(slice_subrange(line, payload_offset, end));
                    let reply = self.go(
                        Phase::Seeking { stay: seek.stays(), follow: Follow::Write },
                        Action::Seek(seek),
                        notice,
                    );
                    self.payload = payload;
                    reply
                }
            },
            Ok(Command::WriteHex { seek, bytes }) => {
                let reply = self.go(
                    Phase::Seeking { stay: seek.stays(), follow: Follow::Write },
                    Action::Seek(seek),
                    notice,
                );
                self.payload = bytes;
                reply
            },
        }
    }

    /// Takes the end of a seek.
    fn accept_sought(&mut self, stay: bool, follow: Follow, landed: Option<u64>) -> (reply: Reply)
        ensures
            (final(self)@, reply@) == on_sought(old(self)@, stay, follow, landed),
    {
        if landed.is_none() && !stay {
            let mut notice: Vec<u8> = Vec::new();
            push_not_seekable_notice(&mut notice);
            assert(notice@ =~= error_notice(not_seekable_message()));
            return self.rest(notice);
        }
        match follow {
            Follow::Nothing => self.rest(Vec::new()),
            Follow::Read { count, hex } => self.go(
                Phase::Reading { hex, start: landed },
                Action::Read(count),
                Vec::new(),
            ),
            Follow::Write => {
                let mut payload: Vec<u8> = Vec::new();
                std::mem::swap(&mut payload, &mut self.payload);
                let mut reply = self.go(
                    Phase::Writing { len: payload.len() },
                    Action::Write,
                    Vec::new(),
                );
                reply.payload = payload;
                reply
            },
        }
    }

    /// Takes the end of a read.
    fn accept_bytes(
        &mut self,
        hex: bool,
        start: Option<u64>,
        obtained: usize,
        data: Vec<u8>,
    ) -> (reply: Reply)
        ensures
            (final(self)@, reply@) == on_bytes(old(self)@, hex, start, obtained, data@),
    {
        let mut data = data;
        data.truncate(obtained);
        let count = data.len();
        let mut reply = self.rest(Vec::new());
        self.read_count = count;
        if hex {
            reply.output = render_hexdump(start, data.as_slice());
        } else {
            if count > 0 {
                reply.notice.push(NEWLINE);
            }
            reply.output = data;
        }
        assert(reply@.notice =~= on_bytes(old(self)@, hex, start, obtained, data@).1.notice);
        reply
    }

    /// Takes what happened and tells what to show and what to do next. An
    /// event that the phase does not wait for is turned away with `None`,
    /// and changes nothing; once the session is over, every event is.
    pub fn step(&mut self, event: Event, data: Vec<u8>) -> (r: Option<Reply>)
        ensures
            match transition(old(self)@, event, data@) {
                Some((next, reply)) => r is Some && r->0@ == reply && final(self)@ == next,
                None => r is None && final(self)@ == old(self)@,
            },
            well_formed(old(self)@) ==> well_formed(final(self)@),
    {
        let size = data.len();
        proof {
            if well_formed(self@) && transition(self@, event, data@) is Some {
                assert(data@.len() == size);
                lemma_steps_keep_well_formed(self@, event, data@);
            }
        }
        match (self.phase, event) {
            (Phase::Prompting, Event::Position(pos)) => {
                let notice = prompt_text(self.read_count, self.write_count, pos);
                self.read_count = 0;
                self.write_count = 0;
                Some(self.go(Phase::AwaitingLine, Action::ReadLine, notice))
            },
            (Phase::AwaitingLine, Event::Line) => Some(self.accept_line(data)),
            (Phase::AwaitingLine, Event::LineFailed) => Some(self.fail(data.as_slice())),
            (Phase::Seeking { stay, follow }, Event::Sought(landed)) => Some(
                self.accept_sought(stay, follow, landed),
            ),
            (Phase::Reading { hex, start }, Event::Bytes(obtained)) => Some(
                self.accept_bytes(hex, start, obtained, data),
            ),
            (Phase::Reading { .. }, Event::Failed) => Some(self.fail(data.as_slice())),
            (Phase::Writing { len }, Event::Written) => {
                let reply = self.rest(Vec::new());
                self.write_count = len;
                Some(reply)
            },
            (Phase::Writing { .. }, Event::Failed) => Some(self.fail(data.as_slice())),
            _ => None,
        }
    }
}

/// What holds of every session that began with `Engine::new` and went on
/// by `step`. While a line is awaited and while its command is under way,
/// both counts are zero: they are cleared when the prompt goes out, and set
/// when the command ends. The session holds bytes only while a write waits
/// for its seek.
pub open spec fn well_formed(e: EngineModel) -> bool {
    &&& !(e.phase is Prompting) && !(e.phase is Stopped) ==> e.read_count == 0 && e.write_count
        == 0
    &&& e.payload.len() > 0 ==> e.phase is Seeking && e.phase->follow == Follow::Write
    &&& e.payload.len() <= usize::MAX
    &&& e.read_count <= usize::MAX
    &&& e.write_count <= usize::MAX
}

/// Every step keeps the session well formed.
pub proof fn lemma_steps_keep_well_formed(e: EngineModel, event: Event, data: Seq<u8>)
    requires
        well_formed(e),
        data.len() <= usize::MAX,
        transition(e, event, data) is Some,
    ensures
        ({
            let (next, reply) = transition(e, event, data)->0;
            well_formed(next)
        }),
{
    let (next, reply) = transition(e, event, data)->0;
    if e.phase is AwaitingLine && event is Line && data.len() > 0 {
        match parse(typed(data)) {
            Ok(CommandModel::WriteHex { seek, bytes }) => {
                lemma_bytes_are_fewer_than_the_line(typed(data));
            },
            Ok(CommandModel::Write { seek, payload_offset }) => {
                lemma_payload_offset_is_in_line(typed(data));
            },
            _ => {},
        }
    }
}

/// Once the session is over, it stays over: no event is taken.
pub proof fn lemma_stopped_is_final(e: EngineModel, event: Event, data: Seq<u8>)
    requires
        e.phase == Phase::Stopped,
    ensures
        transition(e, event, data) is None,
{
}

/// A line that is not understood leaves the session as it was, but for
/// sending it back to the prompt: nothing is asked of the store, nothing
/// is counted, and the error is what is shown.
pub proof fn lemma_bad_line_changes_nothing(e: EngineModel, data: Seq<u8>)
    requires
        e.phase == Phase::AwaitingLine,
        data.len() > 0,
        parse(typed(data)) is Err,
    ensures
        ({
            let (next, reply) = transition(e, Event::Line, data)->0;
            &&& next == resting(e)
            &&& reply.action == Action::QueryPosition
            &&& reply.output.len() == 0
            &&& reply.payload.len() == 0
            &&& !reply.help
            &&& reply.notice == owed_line_feed(data) + error_notice(
                usage_message(parse(typed(data))->Err_0),
            )
        }),
{
}

/// The counts are cleared when the prompt goes out, and after that only
/// the end of a read sets the count of bytes read, and only the end of a
/// write that went well sets the count of bytes written.
pub proof fn lemma_counts_follow_the_store(e: EngineModel, event: Event, data: Seq<u8>)
    requires
        transition(e, event, data) is Some,
    ensures
        ({
            let (next, reply) = transition(e, event, data)->0;
            &&& event is Position ==> next.read_count == 0 && next.write_count == 0
            &&& !(event is Position) && !(event is Bytes) ==> next.read_count == e.read_count
            &&& !(event is Position) && !(event is Written) ==> next.write_count
                == e.write_count
            &&& event is Written ==> e.phase is Writing && next.write_count == e.phase->len
        }),
{
}

/// A read counts and shows the bytes that the store gave, and no others:
/// never more than the store said, never more than the buffer holds, and
/// nothing of what the buffer held behind them.
pub proof fn lemma_read_shows_what_was_obtained(
    e: EngineModel,
    start: Option<u64>,
    obtained: usize,
    data: Seq<u8>,
)
    requires
        e.phase == (Phase::Reading { hex: false, start }),
    ensures
        ({
            let (next, reply) = transition(e, Event::Bytes(obtained), data)->0;
            &&& transition(e, Event::Bytes(obtained), data) is Some
            &&& next.read_count == reply.output.len()
            &&& next.read_count <= obtained
            &&& next.read_count <= data.len()
            &&& obtained <= data.len() ==> next.read_count == obtained
            &&& forall|i: int| 0 <= i < reply.output.len() ==> reply.output[i] == data[i]
            &&& next.phase == Phase::Prompting
        }),
{
}

/// A `write` of no bytes is silent: it asks nothing of the store and
/// counts nothing.
pub proof fn lemma_empty_write_is_silent(e: EngineModel, command: CommandModel, line: Seq<u8>)
    requires
        command is Write,
        payload_of(command, line).len() == 0,
    ensures
        dispatch(e, command, line, Seq::empty()) == (
            resting(e),
            say(Action::QueryPosition, Seq::empty()),
        ),
{
}

} // verus!
