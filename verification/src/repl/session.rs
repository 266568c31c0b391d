//! The engine at work on a store.
//!
//! The engine only says what to do; what comes of it depends on the store.
//! Here a store is taken to be what a file is: bytes in a row and a
//! cursor. Of the engine and such a store together one can say what a
//! command does, and so what a session is good for: that a read gives
//! what is there, and that what was written is read back.

use crate::repl::engine::{
    dispatch, transition, well_formed, Action, EngineModel, Event, Phase,
};
use crate::repl::parser::CommandModel;
use crate::repl::seek::SeekDescriptor;
use vstd::prelude::*;

verus! {

/// A store: its bytes, and where its cursor stands. The cursor may stand
/// past the end.
pub struct StoreModel {
    pub bytes: Seq<u8>,
    pub cursor: nat,
}

/// The place that a seek aims at.
pub open spec fn seek_target(s: StoreModel, to: SeekDescriptor) -> int {
    match to {
        SeekDescriptor::Absolute(n) => n as int,
        SeekDescriptor::Relative(d) => s.cursor + d,
        SeekDescriptor::FromEnd(d) => s.bytes.len() + d,
    }
}

/// Whether the store can tell of the place `at`: places are counted from
/// zero, in sixty-four bits.
pub open spec fn is_place(at: int) -> bool {
    0 <= at <= u64::MAX
}

/// How many bytes a read of `count` bytes, or to the end, obtains: those
/// that are left after the cursor, and no more than were asked for.
pub open spec fn readable(s: StoreModel, count: Option<usize>) -> nat {
    let left: nat = if s.cursor < s.bytes.len() {
        (s.bytes.len() - s.cursor) as nat
    } else {
        0
    };
    match count {
        Some(c) => if c <= left {
            c as nat
        } else {
            left
        },
        None => left,
    }
}

/// The buffer that a read comes back with: the bytes obtained, and behind
/// them, when a count was given, zeros up to the count.
pub open spec fn read_buffer(s: StoreModel, count: Option<usize>) -> Seq<u8> {
    let n = readable(s, count);
    let got = s.bytes.subrange(s.cursor as int, (s.cursor + n) as int);
    match count {
        Some(c) => got + Seq::new((c - n) as nat, |i: int| 0u8),
        None => got,
    }
}

/// The bytes of the store after `payload` is written at the cursor. What
/// lies between the old end and a cursor past it becomes zeros.
pub open spec fn written(s: StoreModel, payload: Seq<u8>) -> Seq<u8> {
    let end = s.cursor + payload.len();
    Seq::new(
        if end > s.bytes.len() {
            end
        } else {
            s.bytes.len()
        },
        |i: int|
            if s.cursor <= i < end {
                payload[i - s.cursor]
            } else if i < s.bytes.len() {
                s.bytes[i]
            } else {
                0u8
            },
    )
}

/// What the store makes of an action: how it is afterwards, and the event
/// that it answers with, with the bytes that come with the event. A seek
/// to no place fails and moves nothing.
pub open spec fn perform(s: StoreModel, action: Action, payload: Seq<u8>) -> (
    StoreModel,
    Event,
    Seq<u8>,
) {
    match action {
        Action::QueryPosition => (
            s,
            Event::Position(
                if is_place(s.cursor as int) {
                    Some(s.cursor as u64)
                } else {
                    None
                },
            ),
            Seq::empty(),
        ),
        Action::Seek(to) => if is_place(seek_target(s, to)) {
            (
                StoreModel { cursor: seek_target(s, to) as nat, ..s },
                Event::Sought(Some(seek_target(s, to) as u64)),
                Seq::empty(),
            )
        } else {
            (s, Event::Sought(None), Seq::empty())
        },
        Action::Read(count) => (
            StoreModel { cursor: s.cursor + readable(s, count), ..s },
            Event::Bytes(readable(s, count) as usize),
            read_buffer(s, count),
        ),
        Action::Write => (
            StoreModel { bytes: written(s, payload), cursor: s.cursor + payload.len() },
            Event::Written,
            Seq::empty(),
        ),
        Action::ReadLine => (s, Event::Line, Seq::empty()),
        Action::Stop => (s, Event::Line, Seq::empty()),
    }
}

/// What comes of one command: the session and the store after it, and
/// what went to the output stream.
pub struct Outcome {
    pub engine: EngineModel,
    pub store: StoreModel,
    pub output: Seq<u8>,
}

/// One round between the engine and the store: the store performs what
/// the engine asked for, and the engine takes the answer.
pub open spec fn round(e: EngineModel, s: StoreModel, action: Action, payload: Seq<u8>) -> (
    EngineModel,
    StoreModel,
    Action,
    Seq<u8>,
    Seq<u8>,
) {
    let (store, event, data) = perform(s, action, payload);
    match transition(e, event, data) {
        Some((engine, reply)) => (engine, store, reply.action, reply.payload, reply.output),
        None => (e, store, Action::Stop, Seq::empty(), Seq::empty()),
    }
}

/// What the command `command` of the line `line` does to the session `e`
/// and the store `s`: its seek, and then its read or its write, each
/// performed by the store and taken up by the engine.
pub open spec fn execute(
    e: EngineModel,
    s: StoreModel,
    command: CommandModel,
    line: Seq<u8>,
) -> Outcome {
    let (begun, first) = dispatch(e, command, line, Seq::empty());
    if first.action is Seek {
        let (sought, moved, next, payload, shown) = round(begun, s, first.action, first.payload);
        if next is Read || next is Write {
            let (done, kept, after, rest, more) = round(sought, moved, next, payload);
            Outcome { engine: done, store: kept, output: shown + more }
        } else {
            Outcome { engine: sought, store: moved, output: shown }
        }
    } else {
        Outcome { engine: begun, store: s, output: first.output }
    }
}

/// A read gives what is there. When more bytes are asked for than are
/// left after the place read from, the output is the bytes that are left,
/// with nothing put behind them; the count of bytes read is their number;
/// and the store is as it was, with the cursor at its end.
pub proof fn lemma_read_gives_what_is_there(
    e: EngineModel,
    s: StoreModel,
    at: u64,
    count: usize,
)
    requires
        at <= s.bytes.len(),
        count >= s.bytes.len() - at,
    ensures
        ({
            let command = CommandModel::Read {
                seek: SeekDescriptor::Absolute(at),
                count: Some(count as nat),
            };
            let after = execute(e, s, command, Seq::empty());
            &&& after.output == s.bytes.subrange(at as int, s.bytes.len() as int)
            &&& after.engine.read_count == s.bytes.len() - at
            &&& after.engine.phase == Phase::Prompting
            &&& after.store.bytes == s.bytes
            &&& after.store.cursor == s.bytes.len()
        }),
{
    let command = CommandModel::Read {
        seek: SeekDescriptor::Absolute(at),
        count: Some(count as nat),
    };
    let sought = StoreModel { cursor: at as nat, ..s };
    let n = readable(sought, Some(count));
    assert(n == s.bytes.len() - at);
    let buffer = read_buffer(sought, Some(count));
    assert(buffer.take(n as int) =~= s.bytes.subrange(at as int, s.bytes.len() as int));
    let after = execute(e, s, command, Seq::empty());
    assert(after.output =~= s.bytes.subrange(at as int, s.bytes.len() as int));
}

/// What was written is read back. Write the bytes `payload` at a place,
/// by `write` or by `writehex`; then read as many bytes from the same
/// place. The output of the read is `payload`, and the count of bytes read
/// is its length.
pub proof fn lemma_written_bytes_are_read_back(
    e: EngineModel,
    s: StoreModel,
    at: u64,
    write: CommandModel,
    line: Seq<u8>,
    payload: Seq<u8>,
)
    requires
        well_formed(e),
        e.phase == Phase::AwaitingLine,
        write matches CommandModel::Write { seek, payload_offset } ==> seek
            == SeekDescriptor::Absolute(at) && payload_offset <= line.len() && payload
            == line.subrange(payload_offset as int, line.len() as int),
        write matches CommandModel::WriteHex { seek, bytes } ==> seek == SeekDescriptor::Absolute(
            at,
        ) && payload == bytes,
        write is Write || write is WriteHex,
        payload.len() <= usize::MAX,
    ensures
        ({
            let wrote = execute(e, s, write, line);
            let read = CommandModel::Read {
                seek: SeekDescriptor::Absolute(at),
                count: Some(payload.len()),
            };
            let after = execute(wrote.engine, wrote.store, read, Seq::empty());
            &&& wrote.engine.write_count == payload.len()
            &&& wrote.output.len() == 0
            &&& after.output == payload
            &&& after.engine.read_count == payload.len()
            &&& after.store.bytes == wrote.store.bytes
        }),
{
    let wrote = execute(e, s, write, line);
    let read = CommandModel::Read {
        seek: SeekDescriptor::Absolute(at),
        count: Some(payload.len()),
    };
    if payload.len() == 0 {
        let after = execute(wrote.engine, wrote.store, read, Seq::empty());
        assert(after.output =~= payload);
    } else {
        let sought = StoreModel { cursor: at as nat, ..s };
        let bytes = written(sought, payload);
        assert(wrote.store.bytes == bytes);
        let back = StoreModel { bytes, cursor: at as nat };
        let n = readable(back, Some(payload.len() as usize));
        assert(n == payload.len());
        let buffer = read_buffer(back, Some(payload.len() as usize));
        assert(buffer.take(n as int) =~= payload);
        let after = execute(wrote.engine, wrote.store, read, Seq::empty());
        assert(after.output =~= payload);
    }
}

} // verus!
