use vstd::prelude::*;

verus! {

/// The path arguments that a command line holds: every word of it but the
/// first, which names the program, in the order they were given.
pub open spec fn path_arguments(argv: Seq<String>) -> Seq<Seq<char>> {
    Seq::new(
        if argv.len() == 0 {
            0
        } else {
            (argv.len() - 1) as nat
        },
        |i: int| argv[i + 1]@,
    )
}

/// The path arguments of one run, in order.
#[derive(Debug)]
pub struct Args {
    total: Vec<String>,
}

impl View for Args {
    type V = Seq<Seq<char>>;

    closed spec fn view(&self) -> Seq<Seq<char>> {
        Seq::new(self.total@.len(), |i: int| self.total@[i]@)
    }
}

impl Clone for Args {
    /// A copy that holds the same paths in the same order.
    fn clone(&self) -> (copy: Args)
        ensures
            copy@ == self@,
    {
        let copy = Args { total: self.total.clone() };
        assert(copy@ =~= self@);
        copy
    }
}

impl Args {
    /// Keeps the path arguments of the command line `argv` and drops the
    /// program's name in front of them.
    pub fn new(argv: Vec<String>) -> (args: Args)
        ensures
            args@ == path_arguments(argv@),
    {
        let mut total = argv;
        if total.len() > 0 {
            total.remove(0);
        }
        let args = Args { total };
        assert(args@ =~= path_arguments(argv@));
        args
    }

    /// How many path arguments there are.
    pub fn len(&self) -> (n: usize)
        ensures
            n == self@.len(),
    {
        self.total.len()
    }

    /// The path argument at `index`, counted from zero, if there is one.
    pub fn get(&self, index: usize) -> (path: Option<&String>)
        ensures
            match path {
                Some(p) => index < self@.len() && p@ == self@[index as int],
                None => index >= self@.len(),
            },
    {
        if index < self.total.len() {
            Some(&self.total[index])
        } else {
            None
        }
    }
}

} // verus!
