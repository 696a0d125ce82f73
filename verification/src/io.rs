use crate::manipulate::{reverse, reverse_text};
use crate::text::TERMINATOR;
use vstd::prelude::*;

verus! {

/// The two standard streams of one run, as text held in memory. The caller
/// fills `stdin` with what the input stream holds and carries `stdout` to
/// the output stream; in between, every source of the run works on this
/// one value.
#[derive(Debug)]
pub struct IoBounds {
    /// The text written to the output and not yet carried away.
    pub stdout: String,
    /// The text of the input that has not been read yet.
    pub stdin: String,
}

impl IoBounds {
    /// The streams of a run: `stdout` is what the output holds so far,
    /// `stdin` what the input has to give.
    pub fn new(stdout: String, stdin: String) -> (bounds: IoBounds)
        ensures
            bounds.stdout == stdout,
            bounds.stdin == stdin,
    {
        IoBounds { stdout, stdin }
    }
}

/// Where the text of one pass comes from.
#[derive(Debug)]
pub enum IoMode {
    /// The standard input of the run.
    UnixPipe,
    /// An opened file, given as the text still to be read from it.
    FileStream(String),
}

impl IoMode {
    /// What one pass in this mode writes, `stdin` being the unread input:
    /// the reversed text of its source, followed by one terminator when the
    /// source is the standard input and by nothing when it is a file.
    pub open spec fn output(self, stdin: Seq<char>) -> Seq<char> {
        match self {
            IoMode::UnixPipe => reverse_text(stdin).push(TERMINATOR),
            IoMode::FileStream(file) => reverse_text(file@),
        }
    }

    /// What one pass in this mode leaves of the unread input `stdin`:
    /// nothing when it reads the standard input, all of it otherwise.
    pub open spec fn unread(self, stdin: Seq<char>) -> Seq<char> {
        match self {
            IoMode::UnixPipe => Seq::<char>::empty(),
            IoMode::FileStream(_) => stdin,
        }
    }

    /// One pass: reads the whole source, reverses its lines and writes the
    /// result after what the output already holds.
    pub fn feed(mode: IoMode, bounds: &mut IoBounds)
        ensures
            final(bounds).stdout@ == old(bounds).stdout@ + mode.output(old(bounds).stdin@),
            final(bounds).stdin@ == mode.unread(old(bounds).stdin@),
    {
        let mut buf = String::new();
        match mode {
            IoMode::UnixPipe => {
                read(&mut bounds.stdin, &mut buf);
                reverse(&mut buf);
                buf.push(TERMINATOR);
                write(&mut bounds.stdout, buf.as_str());
            },
            IoMode::FileStream(mut file) => {
                read(&mut file, &mut buf);
                reverse(&mut buf);
                write(&mut bounds.stdout, buf.as_str());
            },
        }
    }
}

/// Writes `s` after what `writeable` holds.
pub fn write(writeable: &mut String, s: &str)
    ensures
        final(writeable)@ == old(writeable)@ + s@,
{
    writeable.append(s);
}

/// Reads `readable` to its end: all of its text goes after what `buf`
/// holds, and nothing is left to read.
pub fn read(readable: &mut String, buf: &mut String)
    ensures
        final(buf)@ == old(buf)@ + old(readable)@,
        final(readable)@ == Seq::<char>::empty(),
{
    buf.append(readable.as_str());
    *readable = String::new();
}

} // verus!
