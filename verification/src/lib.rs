//! The core of an interactive byte editor: the command grammar, the seek
//! resolver, the session engine and the hexdump renderer.
//!
//! Nothing here touches a file or a terminal. The program around this
//! library reads lines, performs the seeks, reads and writes that the
//! engine asks for, and prints what it hands back.

pub mod repl;
pub mod text;
