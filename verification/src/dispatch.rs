use crate::io::{IoBounds, IoMode};
use crate::manipulate::reverse_text;
use crate::text::TERMINATOR;
use vstd::prelude::*;

verus! {

/// Why a path could not be opened.
#[derive(Debug)]
pub struct OpenFailure {
    /// The platform's code for the error, where it has one.
    pub code: Option<i32>,
    /// The platform's description of the error.
    pub description: String,
}

impl OpenFailure {
    /// The exit status that this failure asks for: the platform's code, or
    /// 1 where the platform gave none.
    pub open spec fn exit_code(self) -> i32 {
        match self.code {
            Some(code) => code,
            None => 1,
        }
    }

    /// The line that reports this failure: the description and a
    /// terminator.
    pub open spec fn report(self) -> Seq<char> {
        self.description@.push(TERMINATOR)
    }
}

/// What opening one path adds to the output: the reversed text of the file,
/// or nothing where the path could not be opened.
pub open spec fn path_output(opening: Result<String, OpenFailure>) -> Seq<char> {
    match opening {
        Ok(file) => reverse_text(file@),
        Err(_) => Seq::<char>::empty(),
    }
}

/// What opening one path adds to the error stream: the report of the
/// failure, or nothing where the path was opened.
pub open spec fn path_report(opening: Result<String, OpenFailure>) -> Seq<char> {
    match opening {
        Ok(_) => Seq::<char>::empty(),
        Err(failure) => failure.report(),
    }
}

/// The exit status after one more path: that of the failure, or the status
/// before where the path was opened.
pub open spec fn path_status(status: i32, opening: Result<String, OpenFailure>) -> i32 {
    match opening {
        Ok(_) => status,
        Err(failure) => failure.exit_code(),
    }
}

/// What the paths of a run add to the output, taken in order.
pub open spec fn paths_output(openings: Seq<Result<String, OpenFailure>>) -> Seq<char>
    decreases openings.len(),
{
    if openings.len() == 0 {
        Seq::<char>::empty()
    } else {
        paths_output(openings.drop_last()) + path_output(openings.last())
    }
}

/// What the paths of a run add to the error stream, taken in order.
pub open spec fn paths_report(openings: Seq<Result<String, OpenFailure>>) -> Seq<char>
    decreases openings.len(),
{
    if openings.len() == 0 {
        Seq::<char>::empty()
    } else {
        paths_report(openings.drop_last()) + path_report(openings.last())
    }
}

/// The exit status after the paths of a run, begun at success.
pub open spec fn paths_status(openings: Seq<Result<String, OpenFailure>>) -> i32
    decreases openings.len(),
{
    if openings.len() == 0 {
        0
    } else {
        path_status(paths_status(openings.drop_last()), openings.last())
    }
}

/// What a whole run writes to the output, `stdin` being its input: with no
/// path, what one pass over the input writes; else what its paths add.
pub open spec fn run_output(
    openings: Seq<Result<String, OpenFailure>>,
    stdin: Seq<char>,
) -> Seq<char> {
    if openings.len() == 0 {
        IoMode::UnixPipe.output(stdin)
    } else {
        paths_output(openings)
    }
}

/// What a whole run leaves unread of its input `stdin`: nothing when it has
/// no path, all of it otherwise.
pub open spec fn run_unread(
    openings: Seq<Result<String, OpenFailure>>,
    stdin: Seq<char>,
) -> Seq<char> {
    if openings.len() == 0 {
        Seq::<char>::empty()
    } else {
        stdin
    }
}

/// Handles one path argument after the attempt to open it. An opened file
/// is read, reversed and written to the output; a failure is reported on
/// `stderr` and becomes the exit status. Returns the exit status so far.
pub fn dispatch_path(
    opening: Result<String, OpenFailure>,
    status: i32,
    bounds: &mut IoBounds,
    stderr: &mut String,
) -> (next: i32)
    ensures
        next == path_status(status, opening),
        final(bounds).stdout@ == old(bounds).stdout@ + path_output(opening),
        final(bounds).stdin@ == old(bounds).stdin@,
        final(stderr)@ == old(stderr)@ + path_report(opening),
{
    match opening {
        Ok(file) => {
            IoMode::feed(IoMode::FileStream(file), bounds);
            assert(stderr@ + Seq::<char>::empty() =~= stderr@);
            status
        },
        Err(failure) => {
            crate::io::write(stderr, failure.description.as_str());
            stderr.push(TERMINATOR);
            assert(bounds.stdout@ + Seq::<char>::empty() =~= bounds.stdout@);
            match failure.code {
                Some(code) => code,
                None => 1,
            }
        },
    }
}

/// A whole run. `openings` holds, for each path argument in order, what
/// the attempt to open it gave. With no path argument the standard input
/// is read, reversed and written with a terminator after it, and the run
/// succeeds. Otherwise each path is handled in turn, a failure never
/// keeping the later paths from their turn, and the exit status is that of
/// the last failure, or success where there was none.
pub fn run(
    openings: Vec<Result<String, OpenFailure>>,
    bounds: &mut IoBounds,
    stderr: &mut String,
) -> (status: i32)
    ensures
        status == paths_status(openings@),
        final(bounds).stdout@ == old(bounds).stdout@ + run_output(openings@, old(bounds).stdin@),
        final(bounds).stdin@ == run_unread(openings@, old(bounds).stdin@),
        final(stderr)@ == old(stderr)@ + paths_report(openings@),
{
    if openings.len() == 0 {
        IoMode::feed(IoMode::UnixPipe, bounds);
        assert(stderr@ + Seq::<char>::empty() =~= stderr@);
        return 0;
    }
    let ghost all = openings@;
    let mut status: i32 = 0;
    let turns = openings.into_iter();
    for opening in it: turns
        invariant
            it.seq() == all,
            status == paths_status(all.take(it.index())),
            bounds.stdout@ == old(bounds).stdout@ + paths_output(all.take(it.index())),
            bounds.stdin@ == old(bounds).stdin@,
            stderr@ == old(stderr)@ + paths_report(all.take(it.index())),
    {
        assert(all.take(it.index() + 1).drop_last() =~= all.take(it.index()));
        status = dispatch_path(opening, status, bounds, stderr);
    }
    assert(all.take(all.len() as int) =~= all);
    status
}

/// A run whose paths were all opened succeeds.
pub proof fn lemma_status_without_failure(openings: Seq<Result<String, OpenFailure>>)
    requires
        forall|i: int| 0 <= i < openings.len() ==> openings[i] is Ok,
    ensures
        paths_status(openings) == 0,
    decreases openings.len(),
{
    if openings.len() > 0 {
        lemma_status_without_failure(openings.drop_last());
    }
}

/// The exit status of a run is that of its last failure, whatever failed
/// before it and however many paths were opened after it.
pub proof fn lemma_status_of_last_failure(openings: Seq<Result<String, OpenFailure>>, last: int)
    requires
        0 <= last < openings.len(),
        openings[last] is Err,
        forall|i: int| last < i < openings.len() ==> openings[i] is Ok,
    ensures
        paths_status(openings) == openings[last]->Err_0.exit_code(),
    decreases openings.len(),
{
    if last < openings.len() - 1 {
        lemma_status_of_last_failure(openings.drop_last(), last);
    }
}

/// The paths of a run are handled in order and each on its own: what a
/// run adds to the output and to the error stream is what its first paths
/// add, followed by what the others add.
pub proof fn lemma_paths_in_order(
    first: Seq<Result<String, OpenFailure>>,
    others: Seq<Result<String, OpenFailure>>,
)
    ensures
        paths_output(first + others) == paths_output(first) + paths_output(others),
        paths_report(first + others) == paths_report(first) + paths_report(others),
    decreases others.len(),
{
    if others.len() == 0 {
        assert(first + others =~= first);
        assert(paths_output(first) + paths_output(others) =~= paths_output(first));
        assert(paths_report(first) + paths_report(others) =~= paths_report(first));
    } else {
        lemma_paths_in_order(first, others.drop_last());
        assert((first + others).drop_last() =~= first + others.drop_last());
        assert(paths_output(first + others) =~= paths_output(first) + paths_output(others));
        assert(paths_report(first + others) =~= paths_report(first) + paths_report(others));
    }
}

} // verus!
