//! The command that joins selectors into one that holds where any of them
//! holds.
use vstd::prelude::*;
use crate::command::Command as Starts;
use crate::command::{CommandType, Selector, Tasks, Type, Value};
use crate::fstream;
use crate::vecs::reversed;

verus! {

#[derive(Debug)]
pub struct Command(CommandType);

/// The command that joins selectors: it takes any number of selectors and
/// gives a selector.
pub fn new_command() -> (r: Command)
    ensures
        r.signature().is(Seq::empty(), Some(Type::Selector), Type::Selector),
{
    Command(CommandType::new(Vec::new(), Some(Type::Selector), Type::Selector))
}

impl Command {
    #[verifier::type_invariant]
    spec fn inv(self) -> bool {
        self.0.is(Seq::empty(), Some(Type::Selector), Type::Selector)
    }
}

/// The selectors that the values hold, in their order.
fn selectors(values: Vec<Value>) -> (r: Vec<Selector>)
    requires
        forall|i: int| 0 <= i < values@.len() ==> #[trigger] values@[i] is Selector,
    ensures
        r@.len() == values@.len(),
        forall|i: int| 0 <= i < r@.len() ==> r@[i] == #[trigger] values@[i]->Selector_0,
{
    let ghost all = values@;
    let mut back = reversed(values);
    let mut r: Vec<Selector> = Vec::new();
    while back.len() > 0
        invariant
            r@.len() + back@.len() == all.len(),
            forall|j: int| 0 <= j < all.len() ==> #[trigger] all[j] is Selector,
            forall|j: int| 0 <= j < back@.len() ==> back@[j] == all[all.len() - 1 - j],
            forall|j: int| 0 <= j < r@.len() ==> r@[j] == #[trigger] all[j]->Selector_0,
        decreases back.len(),
    {
        let ghost at = r@.len() as int;
        assert(back@[back@.len() - 1] == all[at]);
        assert(all[at] is Selector);
        match back.pop() {
            Some(Value::Selector(s)) => r.push(s),
            _ => vstd::pervasive::unreached(),
        }
    }
    r
}

impl Starts for Command {
    closed spec fn signature(&self) -> CommandType {
        self.0
    }

    fn fs_type(&self) -> (r: &CommandType)
        ensures
            r.is(Seq::empty(), Some(Type::Selector), Type::Selector),
    {
        proof {
            use_type_invariant(self);
        }
        &self.0
    }

    /// Joins the selectors that are its arguments.
    fn start(&self, tasks: &mut Tasks, flags: Vec<String>, args: Vec<Value>, rest: Vec<Value>) -> (r:
        Result<Value, fstream::Error>)
        ensures
            final(tasks)@ == old(tasks)@,
            r matches Ok(Value::Selector(Selector::Any(v))) && v@.len() == args@.len() && forall|
                i: int,
            |
                0 <= i < v@.len() ==> v@[i] == #[trigger] args@[i]->Selector_0,
    {
        proof {
            use_type_invariant(self);
            assert forall|i: int| 0 <= i < args@.len() implies #[trigger] args@[i] is Selector by {
                assert(self.signature().expects(i) == Some(args@[i].kind()));
            }
        }
        Ok(Value::Selector(Selector::Any(selectors(args))))
    }
}

} // verus!
