//! A line-wise text reverser.
//!
//! The characters of every line of a text are put in the opposite order,
//! the lines stay where they are, and the last line is dropped. The text
//! comes from the standard input or from files named on the command line,
//! and goes to one output shared by all of them.
//!
//! Everything here works on text held in memory, so that each function has
//! an exact contract: the caller reads the streams and files into strings,
//! and carries away what was written.
//!
//! - [`text`]: lines and terminators, as mathematics.
//! - [`manipulate`]: the reversal and what holds of it.
//! - [`io`]: the streams of a run and one pass over a source.
//! - [`cli`]: the path arguments.
//! - [`dispatch`]: a whole run, path by path, and its exit status.
//! - [`strings`]: what is taken on trust of the standard library.

pub mod cli;
pub mod dispatch;
pub mod io;
pub mod manipulate;
pub mod strings;
pub mod text;
