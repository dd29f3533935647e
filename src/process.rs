//! External commands, described as values for the caller to run.
use vstd::prelude::*;

verus! {

/// A program and its arguments.
pub struct ProcessCommand {
    pub program: String,
    pub args: Vec<String>,
}

pub struct CommandView {
    pub program: Seq<char>,
    pub args: Seq<Seq<char>>,
}

impl View for ProcessCommand {
    type V = CommandView;

    open spec fn view(&self) -> CommandView {
        CommandView { program: self.program@, args: self.args@.map_values(|a: String| a@) }
    }
}

impl ProcessCommand {
    /// A command with no arguments yet.
    pub fn new(program: &str) -> (r: ProcessCommand)
        ensures
            r@.program == program@,
            r@.args == Seq::<Seq<char>>::empty(),
    {
        let r = ProcessCommand { program: program.to_owned(), args: Vec::new() };
        assert(r@.args =~= Seq::<Seq<char>>::empty());
        r
    }

    /// Appends one argument.
    pub fn arg(&mut self, a: &str)
        ensures
            final(self)@.program == old(self)@.program,
            final(self)@.args == old(self)@.args.push(a@),
    {
        self.args.push(a.to_owned());
        assert(self@.args =~= old(self)@.args.push(a@));
    }

    /// Appends each of `extra`, in order.
    pub fn extend_args(&mut self, extra: &Vec<String>)
        ensures
            final(self)@.program == old(self)@.program,
            final(self)@.args == old(self)@.args + extra@.map_values(|a: String| a@),
    {
        let mut i: usize = 0;
        while i < extra.len()
            invariant
                i <= extra@.len(),
                self@.program == old(self)@.program,
                self@.args == old(self)@.args + extra@.map_values(|a: String| a@).take(i as int),
            decreases extra@.len() - i,
        {
            self.arg(extra[i].as_str());
            assert(extra@.map_values(|a: String| a@).take(i + 1) =~= extra@.map_values(
                |a: String| a@,
            ).take(i as int).push(extra@[i as int]@));
            i = i + 1;
            assert(self@.args =~= old(self)@.args + extra@.map_values(|a: String| a@).take(
                i as int,
            ));
        }
        assert(extra@.map_values(|a: String| a@).take(extra@.len() as int) =~= extra@.map_values(
            |a: String| a@,
        ));
    }
}

} // verus!
