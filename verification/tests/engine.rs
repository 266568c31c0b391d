use tapehead::repl::engine::{Action, Engine, Event, Follow, Phase, Reply};
use tapehead::repl::seek::SeekDescriptor;

/// A store held in memory, with a cursor, that answers as a file would.
struct Store {
    bytes: Vec<u8>,
    cursor: u64,
    seekable: bool,
}

impl Store {
    fn new(bytes: &[u8]) -> Store {
        Store { bytes: bytes.to_vec(), cursor: 0, seekable: true }
    }

    fn seek(&mut self, to: SeekDescriptor) -> Option<u64> {
        if !self.seekable {
            return None;
        }
        let target: i128 = match to {
            SeekDescriptor::Absolute(n) => n as i128,
            SeekDescriptor::Relative(d) => self.cursor as i128 + d as i128,
            SeekDescriptor::FromEnd(d) => self.bytes.len() as i128 + d as i128,
        };
        if target < 0 || target > u64::MAX as i128 {
            return None;
        }
        self.cursor = target as u64;
        Some(self.cursor)
    }

    fn read(&mut self, count: Option<usize>) -> (Vec<u8>, usize) {
        let from = (self.cursor as usize).min(self.bytes.len());
        let left = self.bytes.len() - from;
        match count {
            None => {
                let got = self.bytes[from..].to_vec();
                self.cursor += left as u64;
                (got, left)
            }
            Some(count) => {
                let mut buffer = vec![0u8; count];
                let n = count.min(left);
                buffer[..n].copy_from_slice(&self.bytes[from..from + n]);
                self.cursor += n as u64;
                (buffer, n)
            }
        }
    }

    fn write(&mut self, payload: &[u8]) {
        let from = self.cursor as usize;
        if self.bytes.len() < from + payload.len() {
            self.bytes.resize(from + payload.len(), 0);
        }
        self.bytes[from..from + payload.len()].copy_from_slice(payload);
        self.cursor += payload.len() as u64;
    }
}

/// Runs a session over `store`, feeding it `input`, and returns what went
/// to the output stream and to the diagnostic stream.
fn session(store: &mut Store, input: &[u8]) -> (Vec<u8>, Vec<u8>) {
    let mut engine = Engine::new();
    let mut rest = input;
    let mut output = Vec::new();
    let mut notices = Vec::new();
    let mut action = Action::QueryPosition;
    let mut payload = Vec::new();
    loop {
        let (event, data) = match action {
            Action::QueryPosition => {
                let pos = if store.seekable { Some(store.cursor) } else { None };
                (Event::Position(pos), Vec::new())
            }
            Action::ReadLine => {
                let end = rest.iter().position(|b| *b == b'\n').map_or(rest.len(), |i| i + 1);
                let line = rest[..end].to_vec();
                rest = &rest[end..];
                (Event::Line, line)
            }
            Action::Seek(to) => (Event::Sought(store.seek(to)), Vec::new()),
            Action::Read(count) => {
                let (buffer, n) = store.read(count);
                (Event::Bytes(n), buffer)
            }
            Action::Write => {
                store.write(&payload);
                (Event::Written, Vec::new())
            }
            Action::Stop => break,
        };
        let reply = engine.step(event, data).unwrap();
        output.extend_from_slice(&reply.output);
        notices.extend_from_slice(&reply.notice);
        if reply.help {
            notices.extend_from_slice(b"<help>");
        }
        action = reply.action;
        payload = reply.payload;
    }
    assert!(engine.stopped());
    (output, notices)
}

fn quiet(action: Action) -> Reply {
    Reply { output: vec![], notice: vec![], help: false, action, payload: vec![] }
}

#[test]
fn a_new_session_is_about_to_prompt() {
    let engine = Engine::new();
    assert_eq!(engine.phase(), Phase::Prompting);
    assert_eq!(engine.read_count(), 0);
    assert_eq!(engine.write_count(), 0);
    assert!(!engine.stopped());
}

#[test]
fn the_prompt_comes_with_the_position() {
    let mut engine = Engine::new();
    let reply = engine.step(Event::Position(Some(12)), vec![]).unwrap();
    assert_eq!(
        reply,
        Reply { notice: b"[pos:12]> ".to_vec(), ..quiet(Action::ReadLine) }
    );
    assert_eq!(engine.phase(), Phase::AwaitingLine);

    let mut engine = Engine::new();
    let reply = engine.step(Event::Position(None), vec![]).unwrap();
    assert_eq!(reply.notice, b"[pos:*]> ".to_vec());
}

#[test]
fn the_end_of_the_input_stops_the_session() {
    let mut engine = Engine::new();
    engine.step(Event::Position(Some(0)), vec![]).unwrap();
    let reply = engine.step(Event::Line, vec![]).unwrap();
    assert_eq!(reply, Reply { notice: b"\n".to_vec(), ..quiet(Action::Stop) });
    assert_eq!(engine.phase(), Phase::Stopped);
    assert!(engine.stopped());
}

#[test]
fn a_stopped_session_turns_every_event_away() {
    let mut engine = Engine::new();
    engine.step(Event::Position(Some(0)), vec![]).unwrap();
    engine.step(Event::Line, b"quit\n".to_vec()).unwrap();
    assert!(engine.stopped());
    let events = [
        Event::Position(Some(0)),
        Event::Position(None),
        Event::Line,
        Event::LineFailed,
        Event::Sought(Some(0)),
        Event::Sought(None),
        Event::Bytes(0),
        Event::Written,
        Event::Failed,
    ];
    for event in events {
        assert_eq!(engine.step(event, b"help\n".to_vec()), None);
        assert!(engine.stopped());
    }
}

#[test]
fn an_event_out_of_turn_changes_nothing() {
    let mut engine = Engine::new();
    assert_eq!(engine.step(Event::Line, b"quit\n".to_vec()), None);
    assert_eq!(engine.step(Event::Sought(Some(3)), vec![]), None);
    assert_eq!(engine.step(Event::Bytes(3), b"abc".to_vec()), None);
    assert_eq!(engine.step(Event::Written, vec![]), None);
    assert_eq!(engine.step(Event::Failed, b"no".to_vec()), None);
    assert_eq!(engine.phase(), Phase::Prompting);
    engine.step(Event::Position(Some(0)), vec![]).unwrap();
    assert_eq!(engine.step(Event::Position(Some(0)), vec![]), None);
    assert_eq!(engine.phase(), Phase::AwaitingLine);
    engine.step(Event::Line, b"read 0 4\n".to_vec()).unwrap();
    assert_eq!(engine.step(Event::Line, b"quit\n".to_vec()), None);
    assert_eq!(engine.step(Event::Bytes(4), b"abcd".to_vec()), None);
    assert_eq!(
        engine.phase(),
        Phase::Seeking { stay: false, follow: Follow::Read { count: Some(4), hex: false } }
    );
}

#[test]
fn a_line_not_understood_is_reported_and_nothing_else_happens() {
    let mut engine = Engine::new();
    engine.step(Event::Position(Some(5)), vec![]).unwrap();
    let reply = engine.step(Event::Line, b"frobnicate\n".to_vec()).unwrap();
    assert_eq!(
        reply,
        Reply {
            notice: b"error: Unrecognized command. Enter \"help\" for usage.\n".to_vec(),
            ..quiet(Action::QueryPosition)
        }
    );
    assert_eq!(engine.phase(), Phase::Prompting);
    assert_eq!(engine.read_count(), 0);
    assert_eq!(engine.write_count(), 0);
}

#[test]
fn a_line_without_its_line_feed_is_taken_as_it_is() {
    let mut engine = Engine::new();
    engine.step(Event::Position(Some(0)), vec![]).unwrap();
    let reply = engine.step(Event::Line, b"seek 3".to_vec()).unwrap();
    assert_eq!(
        reply,
        Reply {
            notice: b"\n".to_vec(),
            ..quiet(Action::Seek(SeekDescriptor::Absolute(3)))
        }
    );

    let mut engine = Engine::new();
    engine.step(Event::Position(Some(0)), vec![]).unwrap();
    let reply = engine.step(Event::Line, b"seek".to_vec()).unwrap();
    assert_eq!(
        reply.notice,
        b"\nerror: Missing seek argument. Enter \"help\" for usage.\n".to_vec()
    );
}

#[test]
fn only_the_last_line_feed_is_taken_off() {
    let mut engine = Engine::new();
    engine.step(Event::Position(Some(0)), vec![]).unwrap();
    engine.step(Event::Line, b"write 0 ab\n\n".to_vec()).unwrap();
    let reply = engine.step(Event::Sought(Some(0)), vec![]).unwrap();
    assert_eq!(reply.payload, b"ab\n".to_vec());

    let mut engine = Engine::new();
    engine.step(Event::Position(Some(0)), vec![]).unwrap();
    let reply = engine.step(Event::Line, b"\n".to_vec()).unwrap();
    assert_eq!(reply, quiet(Action::QueryPosition));
    assert_eq!(engine.phase(), Phase::Prompting);
}

#[test]
fn help_is_asked_for_and_quit_stops() {
    let mut engine = Engine::new();
    engine.step(Event::Position(Some(0)), vec![]).unwrap();
    let reply = engine.step(Event::Line, b"help\n".to_vec()).unwrap();
    assert_eq!(reply, Reply { help: true, ..quiet(Action::QueryPosition) });
    assert_eq!(engine.phase(), Phase::Prompting);
    engine.step(Event::Position(Some(0)), vec![]).unwrap();
    let reply = engine.step(Event::Line, b"QUIT\n".to_vec()).unwrap();
    assert_eq!(reply, quiet(Action::Stop));
    assert!(engine.stopped());
}

#[test]
fn a_failed_line_is_reported_and_the_session_goes_on() {
    let mut engine = Engine::new();
    engine.step(Event::Position(Some(0)), vec![]).unwrap();
    let reply = engine.step(Event::LineFailed, b"stream closed".to_vec()).unwrap();
    assert_eq!(
        reply,
        Reply { notice: b"error: stream closed\n".to_vec(), ..quiet(Action::QueryPosition) }
    );
    assert_eq!(engine.phase(), Phase::Prompting);
}

#[test]
fn a_seek_that_fails_is_an_error_unless_it_stays() {
    let mut engine = Engine::new();
    engine.step(Event::Position(None), vec![]).unwrap();
    let reply = engine.step(Event::Line, b"read 4 2\n".to_vec()).unwrap();
    assert_eq!(reply.action, Action::Seek(SeekDescriptor::Absolute(4)));
    let reply = engine.step(Event::Sought(None), vec![]).unwrap();
    assert_eq!(
        reply,
        Reply {
            notice: b"error: File not seekable. Use `.` in seek argument.\n".to_vec(),
            ..quiet(Action::QueryPosition)
        }
    );
    assert_eq!(engine.phase(), Phase::Prompting);

    engine.step(Event::Position(None), vec![]).unwrap();
    let reply = engine.step(Event::Line, b"read . 2\n".to_vec()).unwrap();
    assert_eq!(reply.action, Action::Seek(SeekDescriptor::Relative(0)));
    let reply = engine.step(Event::Sought(None), vec![]).unwrap();
    assert_eq!(reply, quiet(Action::Read(Some(2))));
    assert_eq!(engine.phase(), Phase::Reading { hex: false, start: None });

    let mut engine = Engine::new();
    engine.step(Event::Position(None), vec![]).unwrap();
    engine.step(Event::Line, b"seek +0\n".to_vec()).unwrap();
    let reply = engine.step(Event::Sought(None), vec![]).unwrap();
    assert_eq!(reply, quiet(Action::QueryPosition));

    let mut engine = Engine::new();
    engine.step(Event::Position(None), vec![]).unwrap();
    engine.step(Event::Line, b"seek <\n".to_vec()).unwrap();
    let reply = engine.step(Event::Sought(None), vec![]).unwrap();
    assert_eq!(
        reply.notice,
        b"error: File not seekable. Use `.` in seek argument.\n".to_vec()
    );
}

#[test]
fn a_read_shows_what_the_store_gave_and_no_more() {
    let mut engine = Engine::new();
    engine.step(Event::Position(Some(0)), vec![]).unwrap();
    engine.step(Event::Line, b"read 2 8\n".to_vec()).unwrap();
    let reply = engine.step(Event::Sought(Some(2)), vec![]).unwrap();
    assert_eq!(reply, quiet(Action::Read(Some(8))));
    let reply = engine
        .step(Event::Bytes(3), vec![b'c', b'd', b'e', 0, 0, 0, 0, 0])
        .unwrap();
    assert_eq!(
        reply,
        Reply {
            output: b"cde".to_vec(),
            notice: b"\n".to_vec(),
            ..quiet(Action::QueryPosition)
        }
    );
    assert_eq!(engine.read_count(), 3);
    assert_eq!(engine.write_count(), 0);
    let reply = engine.step(Event::Position(Some(5)), vec![]).unwrap();
    assert_eq!(reply.notice, b"[in:3, pos:5]> ".to_vec());
    assert_eq!(engine.read_count(), 0);
}

#[test]
fn a_count_beyond_the_buffer_is_cut_to_the_buffer() {
    let mut engine = Engine::new();
    engine.step(Event::Position(Some(0)), vec![]).unwrap();
    engine.step(Event::Line, b"read .\n".to_vec()).unwrap();
    engine.step(Event::Sought(Some(0)), vec![]).unwrap();
    let reply = engine.step(Event::Bytes(100), b"abc".to_vec()).unwrap();
    assert_eq!(reply.output, b"abc".to_vec());
    assert_eq!(engine.read_count(), 3);
}

#[test]
fn a_read_of_nothing_shows_nothing() {
    let mut engine = Engine::new();
    engine.step(Event::Position(Some(9)), vec![]).unwrap();
    engine.step(Event::Line, b"read . 4\n".to_vec()).unwrap();
    engine.step(Event::Sought(Some(9)), vec![]).unwrap();
    let reply = engine.step(Event::Bytes(0), vec![0, 0, 0, 0]).unwrap();
    assert_eq!(reply, quiet(Action::QueryPosition));
    assert_eq!(engine.read_count(), 0);

    engine.step(Event::Position(Some(9)), vec![]).unwrap();
    engine.step(Event::Line, b"readhex . 4\n".to_vec()).unwrap();
    engine.step(Event::Sought(Some(9)), vec![]).unwrap();
    let reply = engine.step(Event::Bytes(0), vec![0, 0, 0, 0]).unwrap();
    assert_eq!(reply, quiet(Action::QueryPosition));
}

#[test]
fn a_hex_read_shows_a_hexdump_from_where_it_began() {
    let mut engine = Engine::new();
    engine.step(Event::Position(Some(0)), vec![]).unwrap();
    engine.step(Event::Line, b"readhex 32 2\n".to_vec()).unwrap();
    let reply = engine.step(Event::Sought(Some(32)), vec![]).unwrap();
    assert_eq!(reply, quiet(Action::Read(Some(2))));
    assert_eq!(engine.phase(), Phase::Reading { hex: true, start: Some(32) });
    let reply = engine.step(Event::Bytes(2), b"ab".to_vec()).unwrap();
    assert_eq!(
        reply,
        Reply {
            output: format!("  32: 6162{}  ab\n", " ".repeat(35)).into_bytes(),
            ..quiet(Action::QueryPosition)
        }
    );
    assert_eq!(engine.read_count(), 2);
}

#[test]
fn a_failed_read_or_write_is_reported_and_counts_nothing() {
    let mut engine = Engine::new();
    engine.step(Event::Position(Some(0)), vec![]).unwrap();
    engine.step(Event::Line, b"read 0\n".to_vec()).unwrap();
    engine.step(Event::Sought(Some(0)), vec![]).unwrap();
    let reply = engine.step(Event::Failed, b"Bad file descriptor".to_vec()).unwrap();
    assert_eq!(
        reply,
        Reply {
            notice: b"error: Bad file descriptor\n".to_vec(),
            ..quiet(Action::QueryPosition)
        }
    );
    assert_eq!(engine.read_count(), 0);

    engine.step(Event::Position(Some(0)), vec![]).unwrap();
    engine.step(Event::Line, b"write 0 abc\n".to_vec()).unwrap();
    engine.step(Event::Sought(Some(0)), vec![]).unwrap();
    let reply = engine.step(Event::Failed, b"read-only".to_vec()).unwrap();
    assert_eq!(reply.notice, b"error: read-only\n".to_vec());
    assert_eq!(engine.write_count(), 0);
    assert_eq!(engine.phase(), Phase::Prompting);
}

#[test]
fn a_write_hands_over_the_rest_of_the_line() {
    let mut engine = Engine::new();
    engine.step(Event::Position(Some(0)), vec![]).unwrap();
    let reply = engine
        .step(Event::Line, b"  write 10   two  words \n".to_vec())
        .unwrap();
    assert_eq!(reply, quiet(Action::Seek(SeekDescriptor::Absolute(10))));
    assert_eq!(
        engine.phase(),
        Phase::Seeking { stay: false, follow: Follow::Write }
    );
    let reply = engine.step(Event::Sought(Some(10)), vec![]).unwrap();
    assert_eq!(
        reply,
        Reply { payload: b"two  words ".to_vec(), ..quiet(Action::Write) }
    );
    assert_eq!(engine.phase(), Phase::Writing { len: 11 });
    let reply = engine.step(Event::Written, vec![]).unwrap();
    assert_eq!(reply, quiet(Action::QueryPosition));
    assert_eq!(engine.write_count(), 11);
    let reply = engine.step(Event::Position(Some(21)), vec![]).unwrap();
    assert_eq!(reply.notice, b"[out:11, pos:21]> ".to_vec());
    assert_eq!(engine.write_count(), 0);
}

#[test]
fn a_write_of_nothing_does_nothing() {
    for line in [&b"write 10\n"[..], b"write 10   \n", b"write 10"] {
        let mut engine = Engine::new();
        engine.step(Event::Position(Some(0)), vec![]).unwrap();
        let reply = engine.step(Event::Line, line.to_vec()).unwrap();
        assert_eq!(reply.action, Action::QueryPosition);
        assert_eq!(reply.output, Vec::<u8>::new());
        assert_eq!(engine.phase(), Phase::Prompting);
        assert_eq!(engine.write_count(), 0);
    }
}

#[test]
fn a_hex_write_of_nothing_still_seeks() {
    let mut engine = Engine::new();
    engine.step(Event::Position(Some(0)), vec![]).unwrap();
    let reply = engine.step(Event::Line, b"writehex 10\n".to_vec()).unwrap();
    assert_eq!(reply, quiet(Action::Seek(SeekDescriptor::Absolute(10))));
    let reply = engine.step(Event::Sought(Some(10)), vec![]).unwrap();
    assert_eq!(reply, quiet(Action::Write));
    engine.step(Event::Written, vec![]).unwrap();
    assert_eq!(engine.write_count(), 0);
}

#[test]
fn what_is_written_is_read_back() {
    let mut store = Store::new(b"0123456789");
    let (output, notices) = session(&mut store, b"write 3 hello\nread 3 5\n");
    assert_eq!(output, b"hello".to_vec());
    assert_eq!(store.bytes, b"012hello89".to_vec());
    assert_eq!(
        notices,
        b"[pos:0]> [out:5, pos:8]> \n[in:5, pos:8]> \n".to_vec()
    );

    let mut store = Store::new(b"");
    let (output, _) = session(&mut store, b"writehex 4 de ad be ef\nread 4 4\nquit\n");
    assert_eq!(output, vec![0xde, 0xad, 0xbe, 0xef]);
    assert_eq!(store.bytes, vec![0, 0, 0, 0, 0xde, 0xad, 0xbe, 0xef]);
}

#[test]
fn a_read_past_the_end_gives_what_is_there() {
    let mut store = Store::new(b"abcdef");
    let (output, notices) = session(&mut store, b"read 4 100\n");
    assert_eq!(output, b"ef".to_vec());
    assert_eq!(notices, b"[pos:0]> \n[in:2, pos:6]> \n".to_vec());

    let mut store = Store::new(b"abcdef");
    let (output, notices) = session(&mut store, b"read 2<\nread . 3\n");
    assert_eq!(output, b"ef".to_vec());
    assert_eq!(notices, b"[pos:0]> \n[in:2, pos:6]> [pos:6]> \n".to_vec());
}

#[test]
fn a_whole_session() {
    let mut store = Store::new(b"The quick brown fox jumps");
    let input = b"readhex 0 17\nseek 4\nwrite . slow \nread 0 15\nbogus\n\nhelp\nseek 3<\nread\nquit\nread 0\n";
    let (output, notices) = session(&mut store, input);
    let expected_output = [
        &b"   0: 5468 6520 7175 6963 6b20 6272 6f77 6e20  The quick brown \n"[..],
        b"  16: 66                                       f\n",
        b"The slow  brown",
    ]
    .concat();
    assert_eq!(String::from_utf8(output).unwrap(), String::from_utf8(expected_output).unwrap());
    let expected_notices = [
        &b"[pos:0]> "[..],
        b"[in:17, pos:17]> ",
        b"[pos:4]> ",
        b"[out:5, pos:9]> ",
        b"\n[in:15, pos:15]> ",
        b"error: Unrecognized command. Enter \"help\" for usage.\n[pos:15]> ",
        b"[pos:15]> ",
        b"<help>[pos:15]> ",
        b"[pos:22]> ",
        b"error: Missing seek argument. Enter \"help\" for usage.\n[pos:22]> ",
    ]
    .concat();
    assert_eq!(String::from_utf8(notices).unwrap(), String::from_utf8(expected_notices).unwrap());
    assert_eq!(store.bytes, b"The slow  brown fox jumps".to_vec());
}

#[test]
fn a_store_that_cannot_seek_still_reads_where_it_stands() {
    let mut store = Store::new(b"stream of bytes");
    store.seekable = false;
    let (output, notices) = session(&mut store, b"read 0 6\nread . 6\nreadhex . 2\n");
    assert_eq!(
        String::from_utf8(output).unwrap(),
        format!("stream   0: 206f{}   o\n", " ".repeat(35))
    );
    assert_eq!(
        String::from_utf8(notices).unwrap(),
        "[pos:*]> error: File not seekable. Use `.` in seek argument.\n[pos:*]> \n[in:6, pos:*]> [in:2, pos:*]> \n"
    );
}
