//! The fatal faults of the machine.
use vstd::prelude::*;

verus! {

/// Why the machine stopped. A fault ends the whole run, not only the frame
/// that met it.
#[derive(Debug, Copy, Clone, PartialEq, Eq, Structural)]
pub enum FaultKind {
    /// A value was taken from an empty stack that has no parent to lend one.
    StackUnderflow,
    /// An attribute was asked for and the stack holds no instance.
    MissingInstance,
    /// An attribute was to be set and nothing lies beneath the instance.
    TooFewItems,
    /// An attribute was asked for without any name.
    EmptyAttributeChain,
    /// A frame borrowed more arguments than its counter can hold.
    ArgumentLimit,
    /// The step budget of the run is used up.
    BudgetExhausted,
}

/// The line that reports a fault.
pub open spec fn fault_text(kind: FaultKind) -> Seq<char> {
    match kind {
        FaultKind::StackUnderflow => "Could not pop off of stack"@,
        FaultKind::MissingInstance => "No instance to set attribute of"@,
        FaultKind::TooFewItems => "Too few items on stack to set attribute"@,
        FaultKind::EmptyAttributeChain =>
            "Could not set attribute of object without the attribute name"@,
        FaultKind::ArgumentLimit => "Too many arguments taken from the calling stack"@,
        FaultKind::BudgetExhausted => "Step budget exhausted"@,
    }
}

impl FaultKind {
    /// The line that reports this fault.
    pub fn message(&self) -> (r: &'static str)
        ensures
            r@ == fault_text(*self),
    {
        match self {
            FaultKind::StackUnderflow => "Could not pop off of stack",
            FaultKind::MissingInstance => "No instance to set attribute of",
            FaultKind::TooFewItems => "Too few items on stack to set attribute",
            FaultKind::EmptyAttributeChain =>
                "Could not set attribute of object without the attribute name",
            FaultKind::ArgumentLimit => "Too many arguments taken from the calling stack",
            FaultKind::BudgetExhausted => "Step budget exhausted",
        }
    }
}

} // verus!
