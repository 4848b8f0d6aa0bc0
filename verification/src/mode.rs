//! The command that makes a selector from the name of a mode.
use vstd::prelude::*;
use crate::command::Command as Starts;
use crate::command::{CommandType, Selector, Tasks, Type, Value};
use crate::fstream;

verus! {

#[derive(Debug)]
pub struct Command(CommandType);

/// The command that makes a selector from the name of a mode: it takes a
/// string and gives a selector.
pub fn new_command() -> (r: Command)
    ensures
        r.signature().is(seq![Type::String], None, Type::Selector),
{
    let mut args: Vec<Type> = Vec::new();
    args.push(Type::String);
    assert(args@ =~= seq![Type::String]);
    Command(CommandType::new(args, None, Type::Selector))
}

impl Command {
    #[verifier::type_invariant]
    spec fn inv(self) -> bool {
        self.0.is(seq![Type::String], None, Type::Selector)
    }
}

/// The selector that a mode names, or the complaint about a name that is
/// none.
pub fn selector(mode: String) -> (r: Result<Selector, fstream::Error>)
    ensures
        mode@ == seq!['d'] ==> r matches Ok(Selector::IsDir),
        mode@ != seq!['d'] ==> (r matches Err(fstream::Error::ErrUsage { msg }) && msg@
            == "invalid mode "@ + mode@),
{
    let d = String::from_str("d");
    proof {
        reveal_strlit("d");
        assert("d"@ =~= seq!['d']);
    }
    if mode == d {
        Ok(Selector::IsDir)
    } else {
        let mut msg = String::from_str("invalid mode ");
        msg.append(mode.as_str());
        Err(fstream::Error::ErrUsage { msg })
    }
}

impl Starts for Command {
    closed spec fn signature(&self) -> CommandType {
        self.0
    }

    fn fs_type(&self) -> (r: &CommandType)
        ensures
            r.is(seq![Type::String], None, Type::Selector),
    {
        proof {
            use_type_invariant(self);
        }
        &self.0
    }

    /// Makes the selector that its argument names: `d` names the one that
    /// holds of directories.
    fn start(&self, tasks: &mut Tasks, flags: Vec<String>, args: Vec<Value>, rest: Vec<Value>) -> (r:
        Result<Value, fstream::Error>)
        ensures
            final(tasks)@ == old(tasks)@,
            args@.last()->String_0@ == seq!['d'] <==> r is Ok,
            r matches Ok(v) ==> v matches Value::Selector(Selector::IsDir),
            r matches Err(e) ==> (e matches fstream::Error::ErrUsage { msg } && msg@
                == "invalid mode "@ + args@.last()->String_0@),
    {
        proof {
            use_type_invariant(self);
            self.0.lemma_admits_one(Type::String, Type::Selector, args@);
        }
        let mut args = args;
        match args.pop() {
            Some(Value::String(mode)) => match selector(mode) {
                Ok(s) => Ok(Value::Selector(s)),
                Err(e) => Err(e),
            },
            _ => vstd::pervasive::unreached(),
        }
    }
}

} // verus!
