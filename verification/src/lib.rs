//! A flow-controlled streaming protocol for directory trees, and the
//! producer, transducer and consumer built on it.
//!
//! Every operation on a protocol state is split at the points where the
//! running program has to wait for its peer: the half before the wait yields
//! the message or the decision to hand over, the half after it takes what the
//! peer answered and yields the next state.
use vstd::prelude::*;

pub mod command;
pub mod compile;
pub mod filter;
pub mod fstream;
pub mod lex;
pub mod mode;
pub mod or;
pub mod order;
pub mod parse;
pub mod pipeline;
pub mod print;
mod vecs;
pub mod walk;

pub use command::Command;
pub use command::CommandType;
pub use command::Error;
pub use command::Selector;
pub use command::Task;
pub use command::Tasks;
pub use command::Type;
pub use command::Value;

verus! {

} // verus!
