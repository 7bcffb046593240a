//! A small stack-based virtual machine.
//!
//! A program is a flat sequence of values: literals, which are put on the
//! operand stack, and instructions, which take their operands from it. One
//! dynamically typed [`value::Value`] stands for numbers, strings, lists,
//! functions, instances, instructions and recoverable problems alike.
//!
//! - [`number`]: decimal numbers; the arithmetic is the `decimal` crate's.
//! - [`table`]: the insertion-ordered table behind attributes and scopes.
//! - [`object`]: the tags of a value.
//! - [`value`]: the value itself, its arithmetic, attributes and printing.
//! - [`stack`]: scopes, stack frames and the execution engine.
//! - [`literals`]: short constructors for writing programs.
//! - [`error`]: the fatal faults.
//!
//! Every function states in its contract what it returns and changes, over
//! the plain mathematical views of the types ([`value::ValueView`],
//! [`stack::ScopeView`], [`stack::FrameView`]).
pub mod error;
pub mod literals;
pub mod number;
pub mod object;
pub mod stack;
pub mod table;
pub mod value;
