//! What the session says on its diagnostic stream: the prompt, the errors
//! and the line that names the store.

use crate::repl::errors::ParseError;
use crate::repl::FileMode;
use crate::text::{ascii_bytes, decimal_digits, decimal_of, push_bytes, push_literal};
use vstd::prelude::*;

verus! {

/// The line feed.
pub const NEWLINE: u8 = 0x0a;

/// The prompt. Between square brackets it tells how many bytes the last
/// command read, if any, how many it wrote, if any, and where the cursor
/// stands, with a star when the store cannot tell:
/// `[in:4, out:2, pos:16]> `.
pub open spec fn prompt(read_count: nat, write_count: nat, pos: Option<u64>) -> Seq<u8> {
    ascii_bytes("["@) + (if read_count > 0 {
        ascii_bytes("in:"@) + decimal_digits(read_count) + ascii_bytes(", "@)
    } else {
        Seq::empty()
    }) + (if write_count > 0 {
        ascii_bytes("out:"@) + decimal_digits(write_count) + ascii_bytes(", "@)
    } else {
        Seq::empty()
    }) + ascii_bytes("pos:"@) + (match pos {
        Some(p) => decimal_digits(p as nat),
        None => ascii_bytes("*"@),
    }) + ascii_bytes("]> "@)
}

/// Makes the prompt.
pub fn prompt_text(read_count: usize, write_count: usize, pos: Option<u64>) -> (out: Vec<u8>)
    ensures
        out@ == prompt(read_count as nat, write_count as nat, pos),
{
    proof {
        reveal_strlit("[");
        reveal_strlit("in:");
        reveal_strlit("out:");
        reveal_strlit(", ");
        reveal_strlit("pos:");
        reveal_strlit("*");
        reveal_strlit("]> ");
    }
    let mut out: Vec<u8> = Vec::new();
    push_literal(&mut out, "[");
    if read_count > 0 {
        push_literal(&mut out, "in:");
        push_bytes(&mut out, decimal_of(read_count as u128).as_slice());
        push_literal(&mut out, ", ");
    }
    if write_count > 0 {
        push_literal(&mut out, "out:");
        push_bytes(&mut out, decimal_of(write_count as u128).as_slice());
        push_literal(&mut out, ", ");
    }
    push_literal(&mut out, "pos:");
    match pos {
        Some(p) => {
            push_bytes(&mut out, decimal_of(p as u128).as_slice());
        },
        None => {
            push_literal(&mut out, "*");
        },
    }
    push_literal(&mut out, "]> ");
    assert(out@ =~= prompt(read_count as nat, write_count as nat, pos));
    out
}

/// The line that reports an error whose message is `message`.
pub open spec fn error_notice(message: Seq<u8>) -> Seq<u8> {
    ascii_bytes("error: "@) + message + seq![NEWLINE]
}

/// Appends the line that reports an error.
pub fn push_error_notice(out: &mut Vec<u8>, message: &[u8])
    ensures
        final(out)@ == old(out)@ + error_notice(message@),
{
    proof {
        reveal_strlit("error: ");
    }
    let ghost before = out@;
    push_literal(out, "error: ");
    push_bytes(out, message);
    out.push(NEWLINE);
    assert(out@ =~= before + error_notice(message@));
}

/// What is said of a line that was not understood: the error, and how to
/// learn more.
pub open spec fn usage_message(e: ParseError) -> Seq<u8> {
    ascii_bytes(e.text()) + ascii_bytes(" "@) + ascii_bytes("Enter \"help\" for usage."@)
}

/// Appends the line that reports a line that was not understood.
pub fn push_usage_notice(out: &mut Vec<u8>, e: ParseError)
    ensures
        final(out)@ == old(out)@ + error_notice(usage_message(e)),
{
    proof {
        reveal_strlit("Missing seek argument.");
        reveal_strlit("Invalid seek argument.");
        reveal_strlit("Invalid digit in seek argument.");
        reveal_strlit("Invalid digit in count argument.");
        reveal_strlit("Invalid byte argument.");
        reveal_strlit("Unrecognized command.");
        reveal_strlit(" ");
        reveal_strlit("Enter \"help\" for usage.");
    }
    let mut message: Vec<u8> = Vec::new();
    push_literal(&mut message, e.message());
    push_literal(&mut message, " ");
    push_literal(&mut message, "Enter \"help\" for usage.");
    assert(message@ =~= usage_message(e));
    push_error_notice(out, message.as_slice());
}

/// What is said when a store that cannot seek is asked to.
pub open spec fn not_seekable_message() -> Seq<u8> {
    ascii_bytes("File not seekable. Use `.` in seek argument."@)
}

/// Appends the line that reports a store that cannot seek.
pub fn push_not_seekable_notice(out: &mut Vec<u8>)
    ensures
        final(out)@ == old(out)@ + error_notice(not_seekable_message()),
{
    proof {
        reveal_strlit("File not seekable. Use `.` in seek argument.");
    }
    let mut message: Vec<u8> = Vec::new();
    push_literal(&mut message, "File not seekable. Use `.` in seek argument.");
    assert(message@ =~= not_seekable_message());
    push_error_notice(out, message.as_slice());
}

/// The line that names the store when a session begins, with its size and
/// how it was opened, and an empty line after it:
/// `File: "disk.img" (512 bytes) [RW]`.
pub open spec fn banner(path: Seq<u8>, size: nat, mode: FileMode) -> Seq<u8> {
    ascii_bytes("File: \""@) + path + ascii_bytes("\" ("@) + decimal_digits(size) + (if size == 1 {
        ascii_bytes(" byte"@)
    } else {
        ascii_bytes(" bytes"@)
    }) + ascii_bytes(") ["@) + ascii_bytes(mode.letters()) + ascii_bytes("]\n\n"@)
}

/// Makes the line that names the store.
pub fn banner_text(path: &[u8], size: u64, mode: FileMode) -> (out: Vec<u8>)
    ensures
        out@ == banner(path@, size as nat, mode),
{
    proof {
        reveal_strlit("File: \"");
        reveal_strlit("\" (");
        reveal_strlit(" byte");
        reveal_strlit(" bytes");
        reveal_strlit(") [");
        reveal_strlit("RW");
        reveal_strlit("RO");
        reveal_strlit("WO");
        reveal_strlit("]\n\n");
    }
    let mut out: Vec<u8> = Vec::new();
    push_literal(&mut out, "File: \"");
    push_bytes(&mut out, path);
    push_literal(&mut out, "\" (");
    push_bytes(&mut out, decimal_of(size as u128).as_slice());
    if size == 1 {
        push_literal(&mut out, " byte");
    } else {
        push_literal(&mut out, " bytes");
    }
    push_literal(&mut out, ") [");
    push_literal(&mut out, mode.label());
    push_literal(&mut out, "]\n\n");
    assert(out@ =~= banner(path@, size as nat, mode));
    out
}

} // verus!
