//! A host command line as plain values: the program and its arguments.
//! The library decides what to run; the caller spawns it.
use vstd::prelude::*;

verus! {

/// A program and the arguments it is started with.
#[derive(Debug, Clone, PartialEq, Eq)]
pub struct CommandLine {
    pub program: String,
    pub args: Vec<String>,
}

/// The contents of a [`CommandLine`].
pub struct CommandView {
    pub program: Seq<char>,
    pub args: Seq<Seq<char>>,
}

impl View for CommandLine {
    type V = CommandView;

    open spec fn view(&self) -> CommandView {
        CommandView { program: self.program@, args: self.args.deep_view() }
    }
}

/// The command `program` with no arguments.
pub open spec fn cmd(program: Seq<char>) -> CommandView {
    CommandView { program, args: Seq::empty() }
}

impl CommandView {
    /// This command with `a` appended to its arguments.
    pub open spec fn with(self, a: Seq<char>) -> CommandView {
        CommandView { program: self.program, args: self.args.push(a) }
    }
}

impl CommandLine {
    /// A command that runs `program` with no arguments.
    pub fn new(program: &str) -> (c: CommandLine)
        ensures
            c@ == cmd(program@),
    {
        let c = CommandLine { program: String::from_str(program), args: Vec::new() };
        assert(c.args.deep_view() =~= Seq::<Seq<char>>::empty());
        c
    }

    /// This command with one more argument.
    pub fn arg(self, a: &str) -> (c: CommandLine)
        ensures
            c@ == self@.with(a@),
    {
        let mut c = self;
        let ghost before = c.args.deep_view();
        c.args.push(String::from_str(a));
        assert(c.args.deep_view() =~= before.push(a@));
        c
    }
}

} // verus!
