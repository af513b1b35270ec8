//! A call of an external program.
use crate::text;
use vstd::prelude::*;
use vstd::string::*;

verus! {

/// A program and its arguments.
#[derive(Debug)]
pub struct Invocation {
    pub program: String,
    pub args: Vec<String>,
}

/// The texts of a program and its arguments.
pub struct Call {
    pub program: Seq<char>,
    pub args: Seq<Seq<char>>,
}

impl View for Invocation {
    type V = Call;

    open spec fn view(&self) -> Call {
        Call { program: self.program@, args: text::texts(self.args@) }
    }
}

/// The texts of a list grow with it.
pub proof fn lemma_texts_push(v: Seq<String>, s: String)
    ensures
        text::texts(v.push(s)) == text::texts(v).push(s@),
{
    assert(text::texts(v.push(s)) =~= text::texts(v).push(s@));
}

impl Invocation {
    /// A call without arguments.
    pub fn new(program: &str) -> (res: Self)
        ensures
            res@ == (Call { program: program@, args: Seq::empty() }),
    {
        let args: Vec<String> = Vec::new();
        assert(text::texts(args@) =~= Seq::empty());
        Invocation { program: program.to_owned(), args }
    }

    /// Adds an argument behind those that are there.
    pub fn arg(&mut self, arg: &str)
        ensures
            final(self)@ == (Call { program: old(self)@.program, args: old(self)@.args.push(arg@) }),
    {
        let s = arg.to_owned();
        proof {
            lemma_texts_push(self.args@, s);
        }
        self.args.push(s);
    }
}

/// A call is seen as its program and its arguments, in order.
pub proof fn call_is_seen(call: Invocation)
    ensures
        call@.program == call.program@,
        call@.args.len() == call.args@.len(),
        forall|i: int| 0 <= i < call.args@.len() ==> #[trigger] call@.args[i] == call.args@[i]@,
{
}

} // verus!
