//! Scopes, stack frames and the execution engine.
use crate::error::FaultKind;
use crate::number::{decimal_greater, decimal_less, push_char, Number};
use crate::object::{Instruction, Type};
use crate::table::{
    assign, lemma_assign_other, lemma_assign_same, lemma_same_names, lookup, Entries, Table,
};
use crate::value::{
    add_values, div_values, mul_values, not_value, nothing, num, rem_values, sub_values, texts,
    value_equal, views, Value, ValueView,
};
use std::ops::Not;
use vstd::prelude::*;
use vstd::string::*;

verus! {

/// Two things side by side.
#[derive(Debug, Clone)]
pub struct Pair<A, B> {
    pub first: A,
    pub second: B,
}

/// A value together with the scope it was bound in.
pub type Slot = (ValueView, ScopeView);

/// What a scope is, as plain mathematics.
pub struct ScopeView {
    /// The names bound in this scope, in the order they were first bound.
    pub table: Entries<Slot>,
    /// The scope around this one.
    pub outer: Option<Box<ScopeView>>,
}

/// The scope that binds nothing and has nothing around it.
pub open spec fn terminal() -> ScopeView {
    ScopeView { table: Seq::empty(), outer: None }
}

/// A binding as a scope keeps it: a function keeps the scope it came with,
/// any other value is bound beside the terminal scope.
pub open spec fn closure(slot: Slot) -> Slot {
    if slot.0.tag == Type::Function {
        slot
    } else {
        (slot.0, terminal())
    }
}

impl ScopeView {
    /// The scope with `name` bound to `slot` in the scope itself, not around it.
    pub open spec fn define(self, name: Seq<char>, slot: Slot) -> ScopeView {
        ScopeView { table: assign(self.table, name, slot), ..self }
    }

    /// The innermost binding of `name`, if it is bound here or further out.
    pub open spec fn find(self, name: Seq<char>) -> Option<Slot>
        decreases self,
    {
        match lookup(self.table, name) {
            Some(slot) => Some(slot),
            None => match self.outer {
                Some(o) => o.find(name),
                None => None,
            },
        }
    }

    /// Whether `name` is bound here or further out.
    pub open spec fn bound(self, name: Seq<char>) -> bool {
        self.find(name).is_some()
    }

    /// What `name` stands for: its innermost binding, a function with the
    /// scope it was bound with, any other value with the terminal scope;
    /// the empty value with the terminal scope where the name is not bound.
    pub open spec fn get(self, name: Seq<char>) -> Slot {
        match self.find(name) {
            Some(slot) => closure(slot),
            None => (nothing(), terminal()),
        }
    }
}

/// The view of a value and its scope.
pub open spec fn slot_view(pair: Pair<Value, Scope>) -> Slot {
    (pair.first@, pair.second@)
}

/// The views of a sequence of values with their scopes.
pub open spec fn slot_views(items: Seq<Pair<Value, Scope>>) -> Seq<Slot> {
    Seq::new(items.len(), |i: int| slot_view(items[i]))
}

/// The views of a table of bindings.
pub open spec fn binding_views(entries: Seq<(String, Pair<Value, Scope>)>) -> Entries<Slot> {
    Seq::new(entries.len(), |i: int| (entries[i].0@, slot_view(entries[i].1)))
}

/// A scope: the names bound in it and the scope around it.
#[derive(Debug)]
pub struct Scope {
    /// The names bound in this scope. The table is made when the first name
    /// is bound; until then `None` stands for the empty table.
    table: Option<Table<Pair<Value, Scope>>>,
    /// The scope around this one.
    outer_scope: Option<Box<Scope>>,
}

impl View for Scope {
    type V = ScopeView;

    closed spec fn view(&self) -> ScopeView {
        self.model()
    }
}

impl Scope {
    spec fn model(&self) -> ScopeView
        decreases self,
    {
        ScopeView {
            table: match self.table {
                Some(t) => Seq::new(
                    t.entries@.len(),
                    |i: int|
                        if 0 <= i < t.entries@.len() {
                            (
                                t.entries@[i].0@,
                                (t.entries@[i].1.first@, t.entries@[i].1.second.model()),
                            )
                        } else {
                            (Seq::empty(), (nothing(), terminal()))
                        },
                ),
                None => Seq::empty(),
            },
            outer: match self.outer_scope {
                Some(o) => Some(Box::new(o.model())),
                None => None,
            },
        }
    }

    spec fn stored(&self) -> Seq<(String, Pair<Value, Scope>)> {
        match self.table {
            Some(t) => t.entries@,
            None => Seq::empty(),
        }
    }

    proof fn lemma_view(&self)
        ensures
            self@.table == binding_views(self.stored()),
            self@.outer == match self.outer_scope {
                Some(o) => Some(Box::new(o@)),
                None => None::<Box<ScopeView>>,
            },
    {
    }

    /// A scope that binds nothing yet, inside `outer_scope`.
    pub fn new(outer_scope: Option<Box<Scope>>) -> (r: Self)
        ensures
            r@ == (ScopeView {
                table: Seq::empty(),
                outer: match outer_scope {
                    Some(o) => Some(Box::new(o@)),
                    None => None::<Box<ScopeView>>,
                },
            }),
    {
        let r = Scope { table: None, outer_scope };
        r
    }

    /// Binds `name` in this scope, over what it was bound to here before.
    pub fn define(&mut self, name: String, object: Pair<Value, Scope>)
        ensures
            final(self)@ == old(self)@.define(name@, slot_view(object)),
    {
        let mut table: Table<Pair<Value, Scope>> = match self.table.take() {
            Some(t) => t,
            None => Table::new(),
        };
        let ghost before = table.entries();
        proof {
            lemma_same_names(before, old(self)@.table, name@);
        }
        table.set(name, object);
        proof {
            assert(table.entries@.len() == table.entries().len());
            assert forall|i: int| 0 <= i < table.entries@.len() implies (
            #[trigger] table.entries@[i]).0@ == table.entries()[i].0 && table.entries@[i].1
                == table.entries()[i].1 by {}
        }
        self.table = Some(table);
        proof {
            assert(self@.table =~= assign(old(self)@.table, name@, slot_view(object)));
        }
    }

    /// The innermost binding of `name` as it is stored.
    fn find(&self, name: &String) -> (r: Option<&Pair<Value, Scope>>)
        ensures
            match r {
                Some(p) => self@.find(name@) == Some(slot_view(*p)),
                None => self@.find(name@).is_none(),
            },
        decreases self,
    {
        let here = match &self.table {
            Some(t) => {
                proof {
                    lemma_same_names(t.entries(), self@.table, name@);
                }
                t.get(name)
            },
            None => {
                None
            },
        };
        match here {
            Some(p) => Some(p),
            None => match &self.outer_scope {
                Some(o) => o.find(name),
                None => None,
            },
        }
    }

    /// Whether `name` is bound here or further out.
    pub fn contains(&self, name: &String) -> (r: bool)
        ensures
            r == self@.bound(name@),
    {
        self.find(name).is_some()
    }

    /// What `name` stands for. A function comes with the scope it was bound
    /// with; any other value, and the empty value of a name that is not
    /// bound, comes with a fresh terminal scope.
    pub fn get(&mut self, name: String) -> (r: Pair<Value, Scope>)
        ensures
            final(self)@ == old(self)@,
            slot_view(r) == old(self)@.get(name@),
    {
        match self.find(&name) {
            Some(p) => {
                let first = p.first.clone();
                match first.get_type() {
                    Type::Function => Pair { first, second: p.second.clone() },
                    _ => Pair { first, second: Scope::new(None) },
                }
            },
            None => Pair { first: Value::from_nothing(), second: Scope::new(None) },
        }
    }
}

fn clone_bindings(items: &Vec<(String, Pair<Value, Scope>)>) -> (r: Vec<
    (String, Pair<Value, Scope>),
>)
    ensures
        binding_views(r@) == binding_views(items@),
    decreases items,
{
    let mut out: Vec<(String, Pair<Value, Scope>)> = Vec::new();
    let mut i: usize = 0;
    while i < items.len()
        invariant
            i <= items.len(),
            out@.len() == i,
            forall|j: int|
                0 <= j < i ==> (#[trigger] out@[j]).0@ == items@[j].0@ && slot_view(out@[j].1)
                    == slot_view(items@[j].1),
        decreases items.len() - i,
    {
        let pair = Pair { first: items[i].1.first.clone(), second: items[i].1.second.clone() };
        out.push((items[i].0.clone(), pair));
        i += 1;
    }
    out
}

impl Clone for Scope {
    /// A copy that shares nothing with the scope it was made from.
    fn clone(&self) -> (r: Self)
        ensures
            r@ == self@,
        decreases self,
    {
        let table = match &self.table {
            Some(t) => Some(Table { entries: clone_bindings(&t.entries) }),
            None => None,
        };
        let outer_scope = match &self.outer_scope {
            Some(o) => Some(Box::new((**o).clone())),
            None => None,
        };
        let r = Scope { table, outer_scope };
        proof {
            self.lemma_view();
            r.lemma_view();
        }
        r
    }
}

/// What a fault is, as plain mathematics.
pub struct FaultView {
    /// Why the machine stopped.
    pub kind: FaultKind,
    /// The operand stack of the frame that met the fault.
    pub stack: Seq<Slot>,
}

/// A fatal fault: why the machine stopped, and the operand stack of the
/// frame that met it.
#[derive(Debug)]
pub struct Fault {
    /// Why the machine stopped.
    pub kind: FaultKind,
    /// The operand stack of the frame that met the fault, bottom first.
    pub stack: Vec<Pair<Value, Scope>>,
}

impl View for Fault {
    type V = FaultView;

    open spec fn view(&self) -> FaultView {
        FaultView { kind: self.kind, stack: slot_views(self.stack@) }
    }
}

/// What a stack frame is, as plain mathematics.
pub struct FrameView {
    /// The variables of the frame.
    pub scope: ScopeView,
    /// The operand stack, bottom first.
    pub contents: Seq<Slot>,
    /// The function or list whose instructions the frame runs.
    pub instructions: ValueView,
    /// How many values the frame has taken from the stacks of its ancestors.
    pub taken: nat,
    /// The frame that called this one.
    pub outer: Option<Box<FrameView>>,
    /// How many steps the run may still take.
    pub budget: nat,
    /// What has been printed so far.
    pub output: Seq<char>,
}

/// The fault of the given kind, met by `frame`.
pub open spec fn fault_of(kind: FaultKind, frame: FrameView) -> FaultView {
    FaultView { kind, stack: frame.contents }
}

impl FrameView {
    /// The frame with `slot` on top of its stack.
    pub open spec fn push(self, slot: Slot) -> FrameView {
        FrameView { contents: self.contents.push(slot), ..self }
    }

    /// The frame with `value` on top of its stack, beside the frame's scope.
    pub open spec fn push_value(self, value: ValueView) -> FrameView {
        self.push((value, self.scope))
    }

    /// Taking the topmost value: the frame afterwards, and the value taken
    /// or the fault met. A frame whose own stack is empty takes from its
    /// parent and counts that; the outermost frame has nobody to take from.
    pub open spec fn pop(self) -> (FrameView, Result<Slot, FaultView>)
        decreases self,
    {
        if self.contents.len() > 0 {
            (FrameView { contents: self.contents.drop_last(), ..self }, Ok(self.contents.last()))
        } else {
            match self.outer {
                None => (self, Err(fault_of(FaultKind::StackUnderflow, self))),
                Some(o) => if self.taken >= usize::MAX {
                    (self, Err(fault_of(FaultKind::ArgumentLimit, self)))
                } else {
                    match o.pop().1 {
                        Ok(slot) => (
                            FrameView {
                                outer: Some(Box::new(o.pop().0)),
                                taken: self.taken + 1,
                                ..self
                            },
                            Ok(slot),
                        ),
                        Err(fault) => (
                            FrameView { outer: Some(Box::new(o.pop().0)), ..self },
                            Err(fault),
                        ),
                    }
                },
            }
        }
    }

    /// Taking the topmost value without its scope.
    pub open spec fn pop_value(self) -> (FrameView, Result<ValueView, FaultView>) {
        (
            self.pop().0,
            match self.pop().1 {
                Ok(slot) => Ok(slot.0),
                Err(fault) => Err(fault),
            },
        )
    }

    /// The frame with `name` bound to `slot` in its own scope.
    pub open spec fn store(self, name: Seq<char>, slot: Slot) -> FrameView {
        FrameView { scope: self.scope.define(name, closure(slot)), ..self }
    }

    /// Resolving `name`: the frame afterwards, and what the name stands for
    /// or the fault met. A name that no scope binds takes the topmost value
    /// as its own and is bound to it in the frame's scope.
    pub open spec fn load(self, name: Seq<char>) -> (FrameView, Result<Slot, FaultView>) {
        if self.scope.bound(name) {
            (self, Ok(self.scope.get(name)))
        } else {
            match self.pop().1 {
                Ok(slot) => (
                    self.pop().0.store(name, slot),
                    Ok(self.pop().0.store(name, slot).scope.get(name)),
                ),
                Err(fault) => (self.pop().0, Err(fault)),
            }
        }
    }
}

/// The view of the result of taking a value with its scope.
pub open spec fn slot_result(r: Result<Pair<Value, Scope>, Fault>) -> Result<Slot, FaultView> {
    match r {
        Ok(pair) => Ok(slot_view(pair)),
        Err(fault) => Err(fault@),
    }
}

/// The view of the result of taking a value.
pub open spec fn value_result(r: Result<Value, Fault>) -> Result<ValueView, FaultView> {
    match r {
        Ok(value) => Ok(value@),
        Err(fault) => Err(fault@),
    }
}

/// One activation of a function: its operand stack, its scope, the
/// instructions it runs, and the frame that called it.
#[derive(Debug)]
pub struct StackFrame {
    /// The variables of the frame.
    scope: Scope,
    /// The operand stack, bottom first.
    contents: Vec<Pair<Value, Scope>>,
    /// The function or list whose instructions the frame runs.
    instructions: Value,
    /// How many values the frame has taken from the stacks of its ancestors.
    number_of_args_taken: usize,
    /// The frame that called this one.
    outer_stack: Option<Box<StackFrame>>,
    /// How many steps the run may still take.
    budget: u64,
    /// What has been printed so far.
    output: String,
}

impl View for StackFrame {
    type V = FrameView;

    closed spec fn view(&self) -> FrameView {
        self.model()
    }
}

fn clone_slots(items: &Vec<Pair<Value, Scope>>) -> (r: Vec<Pair<Value, Scope>>)
    ensures
        slot_views(r@) == slot_views(items@),
{
    let mut out: Vec<Pair<Value, Scope>> = Vec::new();
    let mut i: usize = 0;
    while i < items.len()
        invariant
            i <= items.len(),
            out@.len() == i,
            forall|j: int| 0 <= j < i ==> slot_view(#[trigger] out@[j]) == slot_view(items@[j]),
        decreases items.len() - i,
    {
        out.push(Pair { first: items[i].first.clone(), second: items[i].second.clone() });
        i += 1;
    }
    out
}

impl Clone for StackFrame {
    /// A copy that shares nothing with the frame it was made from.
    fn clone(&self) -> (r: Self)
        ensures
            r@ == self@,
        decreases self,
    {
        let outer_stack = match &self.outer_stack {
            Some(o) => Some(Box::new((**o).clone())),
            None => None,
        };
        let r = StackFrame {
            scope: self.scope.clone(),
            contents: clone_slots(&self.contents),
            instructions: self.instructions.clone(),
            number_of_args_taken: self.number_of_args_taken,
            outer_stack,
            budget: self.budget,
            output: self.output.clone(),
        };
        r
    }
}

impl StackFrame {
    spec fn model(&self) -> FrameView
        decreases self,
    {
        FrameView {
            scope: self.scope@,
            contents: slot_views(self.contents@),
            instructions: self.instructions@,
            taken: self.number_of_args_taken as nat,
            outer: match self.outer_stack {
                Some(o) => Some(Box::new(o.model())),
                None => None,
            },
            budget: self.budget as nat,
            output: self.output@,
        }
    }

    proof fn lemma_view(&self)
        ensures
            self@.scope == self.scope@,
            self@.contents == slot_views(self.contents@),
            self@.instructions == self.instructions@,
            self@.taken == self.number_of_args_taken,
            self@.outer == match self.outer_stack {
                Some(o) => Some(Box::new(o@)),
                None => None::<Box<FrameView>>,
            },
            self@.budget == self.budget,
            self@.output == self.output@,
    {
    }

    /// A frame that runs `instructions` in `scope`, called by `outer_stack`.
    /// Its stack is empty, it has printed nothing, and its budget is the
    /// largest there is.
    pub fn new(outer_stack: Option<Box<StackFrame>>, scope: Scope, instructions: Value) -> (r:
        Self)
        ensures
            r@ == (FrameView {
                scope: scope@,
                contents: Seq::empty(),
                instructions: instructions@,
                taken: 0,
                outer: match outer_stack {
                    Some(o) => Some(Box::new(o@)),
                    None => None::<Box<FrameView>>,
                },
                budget: u64::MAX as nat,
                output: Seq::empty(),
            }),
    {
        let r = StackFrame {
            scope,
            contents: Vec::new(),
            instructions,
            number_of_args_taken: 0,
            outer_stack,
            budget: u64::MAX,
            output: String::new(),
        };
        proof {
            assert(r@.contents =~= Seq::empty());
        }
        r
    }

    /// The outermost frame of a program: it runs `instructions` in a scope
    /// that binds nothing.
    pub fn from_instructions(instructions: Value) -> (r: Self)
        ensures
            r@ == (FrameView {
                scope: terminal(),
                contents: Seq::empty(),
                instructions: instructions@,
                taken: 0,
                outer: None,
                budget: u64::MAX as nat,
                output: Seq::empty(),
            }),
    {
        StackFrame::new(None, Scope::new(None), instructions)
    }

    /// Limits the steps that the run may still take.
    pub fn set_budget(&mut self, budget: u64)
        ensures
            final(self)@ == (FrameView { budget: budget as nat, ..old(self)@ }),
    {
        self.budget = budget;
    }

    /// How many steps the run may still take.
    pub fn budget(&self) -> (r: u64)
        ensures
            r == self@.budget,
    {
        self.budget
    }

    /// What has been printed so far.
    pub fn output(&self) -> (r: String)
        ensures
            r@ == self@.output,
    {
        self.output.clone()
    }

    /// How many values the frame has taken from the stacks of its ancestors.
    pub fn number_of_args_taken(&self) -> (r: usize)
        ensures
            r == self@.taken,
    {
        self.number_of_args_taken
    }

    /// A copy of the operand stack, bottom first.
    pub fn contents(&self) -> (r: Vec<Pair<Value, Scope>>)
        ensures
            slot_views(r@) == self@.contents,
    {
        clone_slots(&self.contents)
    }

    /// A copy of the frame's scope.
    pub fn scope(&self) -> (r: Scope)
        ensures
            r@ == self@.scope,
    {
        self.scope.clone()
    }

    /// Whether the frame's own stack is empty.
    pub fn is_empty(&self) -> (r: bool)
        ensures
            r == (self@.contents.len() == 0),
    {
        self.contents.len() == 0
    }

    /// Whether a frame called this one.
    pub fn has_outer_stack(&self) -> (r: bool)
        ensures
            r == self@.outer.is_some(),
    {
        match self.outer_stack {
            Some(_) => true,
            None => false,
        }
    }

    /// The fault of the given kind, with a copy of this frame's stack.
    fn fault(&self, kind: FaultKind) -> (r: Fault)
        ensures
            r@ == fault_of(kind, self@),
    {
        Fault { kind, stack: clone_slots(&self.contents) }
    }

    /// Puts a value with its scope on top of the stack.
    pub fn push(&mut self, object_and_scope: Pair<Value, Scope>)
        ensures
            final(self)@ == old(self)@.push(slot_view(object_and_scope)),
    {
        self.contents.push(object_and_scope);
        proof {
            assert(self@.contents =~= old(self)@.contents.push(slot_view(object_and_scope)));
        }
    }

    /// Puts a value on top of the stack, beside a copy of the frame's scope.
    pub fn push_value(&mut self, object: Value)
        ensures
            final(self)@ == old(self)@.push_value(object@),
    {
        let second = self.scope.clone();
        self.push(Pair { first: object, second });
    }

    /// Takes the topmost value with its scope. Where the frame's own stack
    /// is empty the value comes from the calling frame, and the frame counts
    /// it. Where no frame up the chain holds a value, the result is the
    /// fault `StackUnderflow`, never a value made up.
    pub fn pop(&mut self) -> (r: Result<Pair<Value, Scope>, Fault>)
        ensures
            final(self)@ == old(self)@.pop().0,
            slot_result(r) == old(self)@.pop().1,
            old(self)@.contents.len() == 0 && old(self)@.outer.is_none() ==> r.is_err()
                && r.unwrap_err().kind == FaultKind::StackUnderflow,
            r.is_err() ==> old(self)@.contents.len() == 0,
        decreases *old(self),
    {
        if self.contents.len() > 0 {
            let r = self.contents.pop();
            proof {
                assert(self@.contents =~= old(self)@.contents.drop_last());
            }
            match r {
                Some(pair) => Ok(pair),
                None => Err(self.fault(FaultKind::StackUnderflow)),
            }
        } else {
            if self.outer_stack.is_none() {
                return Err(self.fault(FaultKind::StackUnderflow));
            }
            if self.number_of_args_taken == usize::MAX {
                return Err(self.fault(FaultKind::ArgumentLimit));
            }
            let mut outer = self.outer_stack.take().unwrap();
            let r = outer.pop();
            self.outer_stack = Some(outer);
            if r.is_ok() {
                self.number_of_args_taken = self.number_of_args_taken + 1;
            }
            r
        }
    }

    /// Takes the topmost value without its scope; see `pop`.
    pub fn pop_value(&mut self) -> (r: Result<Value, Fault>)
        ensures
            final(self)@ == old(self)@.pop_value().0,
            value_result(r) == old(self)@.pop_value().1,
            old(self)@.contents.len() == 0 && old(self)@.outer.is_none() ==> r.is_err()
                && r.unwrap_err().kind == FaultKind::StackUnderflow,
    {
        match self.pop() {
            Ok(pair) => Ok(pair.first),
            Err(fault) => Err(fault),
        }
    }

    /// Binds `name` in the frame's scope: to a function with the scope it
    /// came with, to any other value beside the terminal scope.
    pub fn store(&mut self, name: String, object: Pair<Value, Scope>)
        ensures
            final(self)@ == old(self)@.store(name@, slot_view(object)),
    {
        match object.first.get_type() {
            Type::Function => self.scope.define(name, object),
            _ => self.scope.define(name, Pair { first: object.first, second: Scope::new(None) }),
        }
    }

    /// What `name` stands for. A name that no scope binds takes the topmost
    /// value as its own: the value is taken off the stack and bound to the
    /// name in the frame's scope.
    pub fn load(&mut self, name: String) -> (r: Result<Pair<Value, Scope>, Fault>)
        ensures
            final(self)@ == old(self)@.load(name@).0,
            slot_result(r) == old(self)@.load(name@).1,
    {
        if !self.scope.contains(&name) {
            match self.pop() {
                Ok(v) => {
                    self.store(name.clone(), v);
                },
                Err(fault) => {
                    return Err(fault);
                },
            }
        }
        let r = self.scope.get(name);
        Ok(r)
    }
}

/// How a step, or a run of steps, ended: the frame as it was left, and the
/// fault that ended the run, if one did.
pub struct Outcome {
    /// The frame as it was left.
    pub frame: FrameView,
    /// The fault that ended the run, if one did.
    pub fault: Option<FaultView>,
}

/// Holds of every outcome. The relations below name the outcomes in between
/// through it, so that a proof can point at the one it means.
pub open spec fn witness(o: Outcome) -> bool {
    true
}

/// The outcome of a step that went through.
pub open spec fn done(frame: FrameView) -> Outcome {
    Outcome { frame, fault: None }
}

/// The outcome of a step that met a fault.
pub open spec fn failed(frame: FrameView, fault: FaultView) -> Outcome {
    Outcome { frame, fault: Some(fault) }
}

/// The outcome that a frame and a result stand for.
pub open spec fn outcome(frame: FrameView, r: Result<(), Fault>) -> Outcome {
    Outcome {
        frame,
        fault: match r {
            Ok(_) => None,
            Err(fault) => Some(fault@),
        },
    }
}

/// A value that ends a loop and sends `If` to its second branch: the number
/// zero, or the empty value.
pub open spec fn is_false(v: ValueView) -> bool {
    value_equal(v, num("0"@)) || value_equal(v, nothing())
}

/// One or zero, as a number value.
pub open spec fn truth(b: bool) -> ValueView {
    if b {
        num("1"@)
    } else {
        num("0"@)
    }
}

/// Whether a stack holds an instance.
pub open spec fn has_instance(contents: Seq<Slot>) -> bool {
    exists|i: int| 0 <= i < contents.len() && (#[trigger] contents[i]).0.tag == Type::Instance
}

impl FrameView {
    /// The frame with one step less to take.
    pub open spec fn charge(self) -> FrameView {
        FrameView { budget: (self.budget - 1) as nat, ..self }
    }

    /// The frame with `text` printed.
    pub open spec fn print(self, text: Seq<char>) -> FrameView {
        FrameView { output: self.output + text, ..self }
    }

    /// Taking two operands, the topmost first.
    pub open spec fn operands(self) -> (FrameView, Result<(ValueView, ValueView), FaultView>) {
        match self.pop_value().1 {
            Err(fault) => (self.pop_value().0, Err(fault)),
            Ok(a) => match self.pop_value().0.pop_value().1 {
                Err(fault) => (self.pop_value().0.pop_value().0, Err(fault)),
                Ok(b) => (self.pop_value().0.pop_value().0, Ok((a, b))),
            },
        }
    }

    /// An instruction that takes one operand and leaves `result` of it.
    pub open spec fn unary(self, result: spec_fn(ValueView) -> ValueView) -> Outcome {
        match self.pop_value().1 {
            Ok(a) => done(self.pop_value().0.push_value(result(a))),
            Err(fault) => failed(self.pop_value().0, fault),
        }
    }

    /// An instruction that takes two operands, the topmost first, and
    /// leaves `result` of them.
    pub open spec fn binary(self, result: spec_fn(ValueView, ValueView) -> ValueView) -> Outcome {
        match self.operands().1 {
            Ok((a, b)) => done(self.operands().0.push_value(result(a, b))),
            Err(fault) => failed(self.operands().0, fault),
        }
    }

    /// `Print` and `Println`: takes a value and prints it, with `ending` behind it.
    pub open spec fn show(self, ending: Seq<char>) -> Outcome {
        match self.pop_value().1 {
            Ok(a) => done(self.pop_value().0.print(a.format() + ending)),
            Err(fault) => failed(self.pop_value().0, fault),
        }
    }

    /// `If`: takes a condition and two branches, and leaves the first branch
    /// unless the condition is false.
    pub open spec fn branch(self) -> Outcome {
        match self.pop_value().1 {
            Err(fault) => failed(self.pop_value().0, fault),
            Ok(c) => {
                let f1 = self.pop_value().0;
                match f1.pop().1 {
                    Err(fault) => failed(f1.pop().0, fault),
                    Ok(a) => {
                        let f2 = f1.pop().0;
                        match f2.pop().1 {
                            Err(fault) => failed(f2.pop().0, fault),
                            Ok(b) => done(
                                f2.pop().0.push(
                                    if is_false(c) {
                                        b
                                    } else {
                                        a
                                    },
                                ),
                            ),
                        }
                    },
                }
            },
        }
    }

    /// `Load`: takes a name and leaves what it stands for.
    pub open spec fn load_name(self) -> Outcome {
        match self.pop_value().1 {
            Err(fault) => failed(self.pop_value().0, fault),
            Ok(name) => {
                let f1 = self.pop_value().0;
                match f1.load(name.as_string()).1 {
                    Err(fault) => failed(f1.load(name.as_string()).0, fault),
                    Ok(slot) => done(f1.load(name.as_string()).0.push(slot)),
                }
            },
        }
    }

    /// `Store`: takes a name and a value, and binds the name to the value.
    pub open spec fn store_name(self) -> Outcome {
        match self.pop_value().1 {
            Err(fault) => failed(self.pop_value().0, fault),
            Ok(name) => {
                let f1 = self.pop_value().0;
                match f1.pop().1 {
                    Err(fault) => failed(f1.pop().0, fault),
                    Ok(slot) => done(f1.pop().0.store(name.as_string(), slot)),
                }
            },
        }
    }

    /// Takes names off the frame's own stack until an instance is on top,
    /// and puts each in front of `names`, so that the path reads from the
    /// instance outwards. A stack without instance is a fault; so is a stack
    /// that is left with fewer than `floor` values after a name came off.
    pub open spec fn collect(self, names: Seq<Seq<char>>, floor: nat) -> (
        FrameView,
        Result<Seq<Seq<char>>, FaultView>,
    )
        decreases self.contents.len(),
    {
        if !has_instance(self.contents) {
            (self, Err(fault_of(FaultKind::MissingInstance, self)))
        } else if self.contents.len() == 0 || self.contents.last().0.tag == Type::Instance {
            (self, Ok(names))
        } else {
            let next = FrameView { contents: self.contents.drop_last(), ..self };
            let name = self.contents.last().0.as_string();
            if next.contents.len() < floor {
                (next, Err(fault_of(FaultKind::TooFewItems, next)))
            } else {
                next.collect(seq![name] + names, floor)
            }
        }
    }

    /// `GetAttr`: takes a path and the instance beneath it, and leaves what
    /// lies at the end of the path.
    pub open spec fn get_attribute(self) -> Outcome {
        match self.collect(Seq::empty(), 1).1 {
            Err(fault) => failed(self.collect(Seq::empty(), 1).0, fault),
            Ok(names) => {
                let f1 = self.collect(Seq::empty(), 1).0;
                if names.len() == 0 {
                    failed(f1, fault_of(FaultKind::EmptyAttributeChain, f1))
                } else {
                    match f1.pop_value().1 {
                        Err(fault) => failed(f1.pop_value().0, fault),
                        Ok(object) => done(
                            f1.pop_value().0.push_value(object.get_attr_recursive(names)),
                        ),
                    }
                }
            },
        }
    }

    /// `SetAttr`: takes a path, the instance beneath it and the value beneath
    /// that, and leaves the instance with the value at the end of the path.
    pub open spec fn set_attribute(self) -> Outcome {
        match self.collect(Seq::empty(), 2).1 {
            Err(fault) => failed(self.collect(Seq::empty(), 2).0, fault),
            Ok(names) => {
                let f1 = self.collect(Seq::empty(), 2).0;
                if names.len() == 0 {
                    failed(f1, fault_of(FaultKind::EmptyAttributeChain, f1))
                } else {
                    match f1.operands().1 {
                        Err(fault) => failed(f1.operands().0, fault),
                        Ok((object, data)) => done(
                            f1.operands().0.push_value(object.set_attr_recursive(names, data)),
                        ),
                    }
                }
            },
        }
    }

    /// What an instruction that runs no other instructions and calls no
    /// host routine does to the frame. `literal` is the value that holds the
    /// instruction; a value that holds none counts as `Pass` and is put on
    /// the stack.
    pub open spec fn apply(self, instruction: Instruction, literal: ValueView) -> Outcome {
        match instruction {
            Instruction::Print => self.show(Seq::empty()),
            Instruction::Println => self.show(seq!['\n']),
            Instruction::If => self.branch(),
            Instruction::Append => self.binary(|list: ValueView, value: ValueView| list.list_push(value)),
            Instruction::Pop => self.unary(|list: ValueView| list.list_last()),
            Instruction::Index => self.binary(|list: ValueView, index: ValueView| list.index(index)),
            Instruction::Equal => self.binary(|a: ValueView, b: ValueView| truth(value_equal(a, b))),
            Instruction::Greater => self.binary(
                |a: ValueView, b: ValueView| truth(decimal_greater(a.as_number(), b.as_number())),
            ),
            Instruction::Less => self.binary(
                |a: ValueView, b: ValueView| truth(decimal_less(a.as_number(), b.as_number())),
            ),
            Instruction::Not => self.unary(|a: ValueView| not_value(a)),
            Instruction::Add => self.binary(|a: ValueView, b: ValueView| add_values(a, b)),
            Instruction::Mul => self.binary(|a: ValueView, b: ValueView| mul_values(a, b)),
            Instruction::Sub => self.binary(|a: ValueView, b: ValueView| sub_values(a, b)),
            Instruction::Div => self.binary(|a: ValueView, b: ValueView| div_values(a, b)),
            Instruction::Mod => self.binary(|a: ValueView, b: ValueView| rem_values(a, b)),
            Instruction::Load => self.load_name(),
            Instruction::Store => self.store_name(),
            Instruction::GetAttr => self.get_attribute(),
            Instruction::SetAttr => self.set_attribute(),
            _ => done(self.push_value(literal)),
        }
    }

    /// Taking `n` values and dropping them.
    pub open spec fn discard(self, n: nat) -> Outcome
        decreases n,
    {
        if n == 0 {
            done(self)
        } else {
            match self.pop().1 {
                Ok(_) => self.pop().0.discard((n - 1) as nat),
                Err(fault) => failed(self.pop().0, fault),
            }
        }
    }

    /// The frame that a call of `slot` starts in: it runs the callable in
    /// the scope the callable came with, whatever the caller's scope is, and
    /// has the caller as its parent.
    pub open spec fn callee(self, slot: Slot) -> FrameView {
        FrameView {
            scope: slot.1,
            contents: Seq::empty(),
            instructions: slot.0,
            taken: 0,
            outer: Some(Box::new(self)),
            budget: self.budget,
            output: self.output,
        }
    }

    /// The caller after the frame it called has ended as `end`: it has the
    /// budget and the output that the callee left.
    pub open spec fn resume(self, end: FrameView) -> FrameView {
        FrameView { budget: end.budget, output: end.output, ..self }
    }

    /// The caller after a call that went through: it drops as many values as
    /// the callee took, and gets what the callee left, in the callee's order.
    pub open spec fn returned(self, end: FrameView) -> Outcome {
        let dropped = self.resume(end).discard(end.taken);
        if dropped.fault.is_some() {
            dropped
        } else {
            done(FrameView { contents: dropped.frame.contents + end.contents, ..dropped.frame })
        }
    }
}

/// `ret` is something that the host routine `id` may return for `arg`.
pub open spec fn native_returns<H: Fn(u64, Value) -> Value>(
    host: H,
    id: u64,
    arg: ValueView,
    ret: ValueView,
) -> bool {
    exists|a: Value, r: Value| a@ == arg && r@ == ret && call_ensures(host, (id, a), r)
}

/// `Execute`: takes a native function and an argument, and leaves what the
/// host routine returns for the argument; a value that stands for no host
/// routine leaves the argument.
pub open spec fn execute_rel<H: Fn(u64, Value) -> Value>(
    host: H,
    pre: FrameView,
    post: Outcome,
) -> bool {
    match pre.operands().1 {
        Err(fault) => post == failed(pre.operands().0, fault),
        Ok((function, arg)) => match function.native {
            Some(id) => exists|ret: ValueView|
                native_returns(host, id, arg, ret) && post == done(
                    pre.operands().0.push_value(ret),
                ),
            None => post == done(pre.operands().0.push_value(arg)),
        },
    }
}

/// One step: `post` is how the frame `pre` may be left by the instruction
/// that `instruction` holds. Every step costs one unit of the budget; a
/// frame without budget meets the fault `BudgetExhausted`.
pub open spec fn step_rel<H: Fn(u64, Value) -> Value>(
    host: H,
    pre: FrameView,
    instruction: ValueView,
    post: Outcome,
) -> bool
    decreases pre.budget, 0nat, 0nat,
{
    if pre.budget == 0 {
        post == failed(pre, fault_of(FaultKind::BudgetExhausted, pre))
    } else {
        let f = pre.charge();
        match instruction.as_instruction() {
            Instruction::While => match f.operands().1 {
                Ok((condition, body)) => while_rel(host, f.operands().0, condition, body, post),
                Err(fault) => post == failed(f.operands().0, fault),
            },
            Instruction::Call => match f.pop().1 {
                Ok(slot) => call_rel(host, f.pop().0, slot, post),
                Err(fault) => post == failed(f.pop().0, fault),
            },
            Instruction::Execute => execute_rel(host, f, post),
            i => post == f.apply(i, instruction),
        }
    }
}

/// A run: `post` is how the frame `pre` may be left by the instructions
/// `instructions`, taken in order. A fault ends the run where it is met.
pub open spec fn run_rel<H: Fn(u64, Value) -> Value>(
    host: H,
    pre: FrameView,
    instructions: Seq<ValueView>,
    post: Outcome,
) -> bool
    decreases pre.budget, 1nat, instructions.len(),
{
    if instructions.len() == 0 {
        post == done(pre)
    } else {
        exists|mid: Outcome|
            #![trigger witness(mid)]
            witness(mid) && run_rel(host, pre, instructions.drop_last(), mid) && mid.frame.budget <= pre.budget
                && if mid.fault.is_some() {
                post == mid
            } else {
                step_rel(host, mid.frame, instructions.last(), post)
            }
    }
}

/// A loop: `post` is how the frame `pre` may be left by running `condition`
/// and, as long as that leaves a value that is not false, `body` and
/// `condition` again. Every turn costs one unit of the budget.
pub open spec fn while_rel<H: Fn(u64, Value) -> Value>(
    host: H,
    pre: FrameView,
    condition: ValueView,
    body: ValueView,
    post: Outcome,
) -> bool
    decreases pre.budget, 2nat, 0nat,
{
    if pre.budget == 0 {
        post == failed(pre, fault_of(FaultKind::BudgetExhausted, pre))
    } else {
        exists|tested: Outcome|
            #![trigger witness(tested)]
            witness(tested) && run_rel(host, pre.charge(), condition.list, tested) && tested.frame.budget
                < pre.budget && if tested.fault.is_some() {
                post == tested
            } else {
                match tested.frame.pop_value().1 {
                    Err(fault) => post == failed(tested.frame.pop_value().0, fault),
                    Ok(result) => if is_false(result) {
                        post == done(tested.frame.pop_value().0)
                    } else {
                        exists|turned: Outcome|
                            #![trigger witness(turned)]
                            witness(turned) && tested.frame.pop_value().0.budget < pre.budget && run_rel(
                                host,
                                tested.frame.pop_value().0,
                                body.list,
                                turned,
                            ) && turned.frame.budget < pre.budget && if turned.fault.is_some() {
                                post == turned
                            } else {
                                while_rel(host, turned.frame, condition, body, post)
                            }
                    },
                }
            }
    }
}

/// A call: `post` is how the caller `pre` may be left by running the
/// callable `slot` in a frame of its own.
pub open spec fn call_rel<H: Fn(u64, Value) -> Value>(
    host: H,
    pre: FrameView,
    slot: Slot,
    post: Outcome,
) -> bool
    decreases pre.budget, 2nat, 0nat,
{
    exists|end: Outcome|
        #![trigger witness(end)]
        witness(end) && run_rel(host, pre.callee(slot), slot.0.list, end) && end.frame.budget <= pre.budget
            && if end.fault.is_some() {
            post == Outcome { frame: pre.resume(end.frame), fault: end.fault }
        } else {
            post == pre.returned(end.frame)
        }
}

/// A function that is stored keeps the scope it was stored with: loading
/// its name gives the function beside that scope, also after the frame has
/// bound other names. A call of the function runs in that scope, whatever
/// the caller's scope holds, so a name that the function's scope binds
/// resolves to what it is bound to there.
pub proof fn lemma_function_resolves_in_its_scope(
    frame: FrameView,
    name: Seq<char>,
    function: ValueView,
    defining: ScopeView,
    other: Seq<char>,
    later: Slot,
    caller: FrameView,
    free: Seq<char>,
)
    requires
        function.tag == Type::Function,
        other != name,
    ensures
        frame.store(name, (function, defining)).load(name).1 == Ok::<Slot, FaultView>(
            (function, defining),
        ),
        frame.store(name, (function, defining)).store(other, later).load(name).1 == Ok::<
            Slot,
            FaultView,
        >((function, defining)),
        caller.callee((function, defining)).scope == defining,
        defining.bound(free) ==> caller.callee((function, defining)).load(free).1 == Ok::<
            Slot,
            FaultView,
        >(defining.get(free)),
{
    let stored = frame.store(name, (function, defining));
    lemma_assign_same(frame.scope.table, name, (function, defining));
}

/// A name that was bound in a scope stands for what it was bound to: a
/// function beside the scope it was bound with, any other value beside the
/// terminal scope. Binding one name leaves what every other name stands for.
pub proof fn lemma_define_get(scope: ScopeView, name: Seq<char>, slot: Slot, other: Seq<char>)
    ensures
        scope.define(name, slot).get(name) == closure(slot),
        scope.define(name, slot).bound(name),
        other != name ==> scope.define(name, slot).get(other) == scope.get(other),
{
    lemma_assign_same(scope.table, name, slot);
    if other != name {
        lemma_assign_other(scope.table, name, slot, other);
    }
}

/// Taking a value gives back what was put there last, and leaves the frame
/// as it was before that.
pub proof fn lemma_push_pop(frame: FrameView, slot: Slot)
    ensures
        frame.push(slot).pop() == (frame, Ok::<Slot, FaultView>(slot)),
{
    assert(frame.push(slot).contents.drop_last() =~= frame.contents);
}

/// What a scope hands out for a name is a function beside the scope it was
/// bound with, or another value beside the terminal scope.
pub proof fn lemma_get_keeps_closures_only(scope: ScopeView, name: Seq<char>)
    ensures
        scope.get(name).0.tag != Type::Function ==> scope.get(name).1 == terminal(),
        scope.find(name).is_some() && scope.find(name).unwrap().0.tag == Type::Function
            ==> scope.get(name) == scope.find(name).unwrap(),
        !scope.bound(name) ==> scope.get(name) == (nothing(), terminal()),
{
}

/// Taking the names of a path costs no budget.
proof fn lemma_collect_keeps_budget(f: FrameView, names: Seq<Seq<char>>, floor: nat)
    ensures
        f.collect(names, floor).0.budget == f.budget,
    decreases f.contents.len(),
{
    if has_instance(f.contents) && f.contents.len() > 0 && f.contents.last().0.tag
        != Type::Instance {
        let next = FrameView { contents: f.contents.drop_last(), ..f };
        if next.contents.len() >= floor {
            lemma_collect_keeps_budget(next, seq![f.contents.last().0.as_string()] + names, floor);
        }
    }
}

/// An instruction that runs no other instructions costs no budget of its own.
proof fn lemma_apply_keeps_budget(f: FrameView, instruction: Instruction, literal: ValueView)
    ensures
        f.apply(instruction, literal).frame.budget == f.budget,
{
    lemma_collect_keeps_budget(f, Seq::empty(), 1);
    lemma_collect_keeps_budget(f, Seq::empty(), 2);
}

/// A fault ends a run: what holds of the instructions up to it holds of all.
proof fn lemma_fault_ends_run<H: Fn(u64, Value) -> Value>(
    host: H,
    pre: FrameView,
    instructions: Seq<ValueView>,
    k: int,
    post: Outcome,
)
    requires
        0 <= k <= instructions.len(),
        run_rel(host, pre, instructions.take(k), post),
        post.fault.is_some(),
        post.frame.budget <= pre.budget,
    ensures
        run_rel(host, pre, instructions, post),
    decreases instructions.len() - k,
{
    if k == instructions.len() {
        assert(instructions.take(k) =~= instructions);
    } else {
        assert(instructions.take(k + 1).drop_last() =~= instructions.take(k));
        assert(witness(post));
        lemma_fault_ends_run(host, pre, instructions, k + 1, post);
    }
}

/// Whether a value ends a loop and sends `If` to its second branch.
fn counts_as_false(v: &Value) -> (r: bool)
    ensures
        r == is_false(v@),
{
    v.equals(&Value::from_number(Number::from_str("0"))) || v.equals(&Value::from_nothing())
}

/// One or zero, as a number value.
fn truth_value(b: bool) -> (r: Value)
    ensures
        r@ == truth(b),
{
    if b {
        Value::from_number(Number::from_str("1"))
    } else {
        Value::from_number(Number::from_str("0"))
    }
}

impl StackFrame {
    /// Takes two operands, the topmost first.
    fn operands(&mut self) -> (r: Result<(Value, Value), Fault>)
        ensures
            final(self)@ == old(self)@.operands().0,
            match r {
                Ok((a, b)) => old(self)@.operands().1 == Ok::<(ValueView, ValueView), FaultView>(
                    (a@, b@),
                ),
                Err(fault) => old(self)@.operands().1 == Err::<(ValueView, ValueView), FaultView>(
                    fault@,
                ),
            },
    {
        let a = match self.pop_value() {
            Ok(a) => a,
            Err(fault) => {
                return Err(fault);
            },
        };
        let b = match self.pop_value() {
            Ok(b) => b,
            Err(fault) => {
                return Err(fault);
            },
        };
        Ok((a, b))
    }

    /// Takes a value and prints it, with a line end behind it if asked.
    fn show(&mut self, newline: bool) -> (r: Result<(), Fault>)
        ensures
            outcome(final(self)@, r) == old(self)@.show(
                if newline {
                    seq!['\n']
                } else {
                    Seq::empty()
                },
            ),
    {
        let a = match self.pop_value() {
            Ok(a) => a,
            Err(fault) => {
                return Err(fault);
            },
        };
        let ghost before = self@;
        let text = a.format();
        self.output.append(text.as_str());
        if newline {
            push_char(&mut self.output, '\n');
        }
        proof {
            assert(self@.output =~= before.output + (a@.format() + if newline {
                seq!['\n']
            } else {
                Seq::empty()
            }));
        }
        Ok(())
    }

    /// Takes a condition and two branches, and leaves one of the branches.
    fn branch(&mut self) -> (r: Result<(), Fault>)
        ensures
            outcome(final(self)@, r) == old(self)@.branch(),
    {
        let c = match self.pop_value() {
            Ok(c) => c,
            Err(fault) => {
                return Err(fault);
            },
        };
        let a = match self.pop() {
            Ok(a) => a,
            Err(fault) => {
                return Err(fault);
            },
        };
        let b = match self.pop() {
            Ok(b) => b,
            Err(fault) => {
                return Err(fault);
            },
        };
        if counts_as_false(&c) {
            self.push(b);
        } else {
            self.push(a);
        }
        Ok(())
    }

    /// Takes a name and leaves what it stands for.
    fn load_name(&mut self) -> (r: Result<(), Fault>)
        ensures
            outcome(final(self)@, r) == old(self)@.load_name(),
    {
        let name = match self.pop_value() {
            Ok(name) => name.as_string(),
            Err(fault) => {
                return Err(fault);
            },
        };
        let value = match self.load(name) {
            Ok(value) => value,
            Err(fault) => {
                return Err(fault);
            },
        };
        self.push(value);
        Ok(())
    }

    /// Takes a name and a value, and binds the name to the value.
    fn store_name(&mut self) -> (r: Result<(), Fault>)
        ensures
            outcome(final(self)@, r) == old(self)@.store_name(),
    {
        let name = match self.pop_value() {
            Ok(name) => name.as_string(),
            Err(fault) => {
                return Err(fault);
            },
        };
        let value = match self.pop() {
            Ok(value) => value,
            Err(fault) => {
                return Err(fault);
            },
        };
        self.store(name, value);
        Ok(())
    }

    /// Whether the frame's own stack holds an instance.
    fn holds_instance(&self) -> (r: bool)
        ensures
            r == has_instance(self@.contents),
    {
        let mut i: usize = 0;
        while i < self.contents.len()
            invariant
                i <= self.contents.len(),
                self@.contents == slot_views(self.contents@),
                forall|j: int| 0 <= j < i ==> (#[trigger] self@.contents[j]).0.tag != Type::Instance,
            decreases self.contents.len() - i,
        {
            if self.contents[i].first.get_type() == Type::Instance {
                assert(self@.contents[i as int].0.tag == Type::Instance);
                return true;
            }
            i += 1;
        }
        false
    }

    /// Takes the names of a path off the stack; see `FrameView::collect`.
    fn collect(&mut self, floor: usize) -> (r: Result<Vec<String>, Fault>)
        ensures
            final(self)@ == old(self)@.collect(Seq::empty(), floor as nat).0,
            match r {
                Ok(names) => old(self)@.collect(Seq::empty(), floor as nat).1 == Ok::<
                    Seq<Seq<char>>,
                    FaultView,
                >(texts(names@)),
                Err(fault) => old(self)@.collect(Seq::empty(), floor as nat).1 == Err::<
                    Seq<Seq<char>>,
                    FaultView,
                >(fault@),
            },
    {
        let mut names: Vec<String> = Vec::new();
        assert(texts(names@) =~= Seq::empty());
        loop
            invariant
                self@.collect(texts(names@), floor as nat) == old(self)@.collect(
                    Seq::empty(),
                    floor as nat,
                ),
            decreases self@.contents.len(),
        {
            if !self.holds_instance() {
                return Err(self.fault(FaultKind::MissingInstance));
            }
            let n = self.contents.len();
            if n == 0 {
                return Ok(names);
            }
            if self.contents[n - 1].first.get_type() == Type::Instance {
                return Ok(names);
            }
            let ghost before = self@;
            let ghost path = texts(names@);
            let top = self.contents.pop();
            let name = match top {
                Some(pair) => pair.first.as_string(),
                None => String::new(),
            };
            proof {
                assert(self@.contents =~= before.contents.drop_last());
            }
            if self.contents.len() < floor {
                return Err(self.fault(FaultKind::TooFewItems));
            }
            names.insert(0, name);
            proof {
                assert(texts(names@) =~= seq![name@] + path);
            }
        }
    }

    /// Takes a path and the instance beneath it, and leaves what lies at the
    /// end of the path.
    fn get_attribute(&mut self) -> (r: Result<(), Fault>)
        ensures
            outcome(final(self)@, r) == old(self)@.get_attribute(),
    {
        let names = match self.collect(1) {
            Ok(names) => names,
            Err(fault) => {
                return Err(fault);
            },
        };
        if names.len() < 1 {
            return Err(self.fault(FaultKind::EmptyAttributeChain));
        }
        let mut object = match self.pop_value() {
            Ok(object) => object,
            Err(fault) => {
                return Err(fault);
            },
        };
        match object.get_attr_recursive(names) {
            Ok(found) => {
                self.push_value(found);
                Ok(())
            },
            Err(kind) => Err(self.fault(kind)),
        }
    }

    /// Takes a path, the instance beneath it and the value beneath that, and
    /// leaves the instance with the value at the end of the path.
    fn set_attribute(&mut self) -> (r: Result<(), Fault>)
        ensures
            outcome(final(self)@, r) == old(self)@.set_attribute(),
    {
        let names = match self.collect(2) {
            Ok(names) => names,
            Err(fault) => {
                return Err(fault);
            },
        };
        if names.len() < 1 {
            return Err(self.fault(FaultKind::EmptyAttributeChain));
        }
        let (mut object, data) = match self.operands() {
            Ok(pair) => pair,
            Err(fault) => {
                return Err(fault);
            },
        };
        match object.set_attr_recursive(names, data) {
            Ok(whole) => {
                self.push_value(whole);
                Ok(())
            },
            Err(kind) => Err(self.fault(kind)),
        }
    }

    /// Does what an instruction does that runs no other instructions and
    /// calls no host routine.
    fn apply(&mut self, instruction: Instruction, literal: Value) -> (r: Result<(), Fault>)
        ensures
            outcome(final(self)@, r) == old(self)@.apply(instruction, literal@),
    {
        match instruction {
            Instruction::Print => self.show(false),
            Instruction::Println => self.show(true),
            Instruction::If => self.branch(),
            Instruction::Append => match self.operands() {
                Ok((list, value)) => {
                    let mut list = list;
                    list.list_push(value);
                    self.push_value(list);
                    Ok(())
                },
                Err(fault) => Err(fault),
            },
            Instruction::Pop => match self.pop_value() {
                Ok(list) => {
                    let mut list = list;
                    let value = list.list_pop();
                    self.push_value(value);
                    Ok(())
                },
                Err(fault) => Err(fault),
            },
            Instruction::Index => match self.operands() {
                Ok((list, index)) => {
                    let mut list = list;
                    let found = list.index(index);
                    self.push_value(found);
                    Ok(())
                },
                Err(fault) => Err(fault),
            },
            Instruction::Equal => match self.operands() {
                Ok((a, b)) => {
                    self.push_value(truth_value(a.equals(&b)));
                    Ok(())
                },
                Err(fault) => Err(fault),
            },
            Instruction::Greater => match self.operands() {
                Ok((a, b)) => {
                    self.push_value(truth_value(a.as_number().greater_than(&b.as_number())));
                    Ok(())
                },
                Err(fault) => Err(fault),
            },
            Instruction::Less => match self.operands() {
                Ok((a, b)) => {
                    self.push_value(truth_value(a.as_number().less_than(&b.as_number())));
                    Ok(())
                },
                Err(fault) => Err(fault),
            },
            Instruction::Not => match self.pop_value() {
                Ok(a) => {
                    self.push_value(a.not());
                    Ok(())
                },
                Err(fault) => Err(fault),
            },
            Instruction::Add => match self.operands() {
                Ok((a, b)) => {
                    self.push_value(a + b);
                    Ok(())
                },
                Err(fault) => Err(fault),
            },
            Instruction::Mul => match self.operands() {
                Ok((a, b)) => {
                    self.push_value(a * b);
                    Ok(())
                },
                Err(fault) => Err(fault),
            },
            Instruction::Sub => match self.operands() {
                Ok((a, b)) => {
                    self.push_value(a - b);
                    Ok(())
                },
                Err(fault) => Err(fault),
            },
            Instruction::Div => match self.operands() {
                Ok((a, b)) => {
                    self.push_value(a / b);
                    Ok(())
                },
                Err(fault) => Err(fault),
            },
            Instruction::Mod => match self.operands() {
                Ok((a, b)) => {
                    self.push_value(a % b);
                    Ok(())
                },
                Err(fault) => Err(fault),
            },
            Instruction::Load => self.load_name(),
            Instruction::Store => self.store_name(),
            Instruction::GetAttr => self.get_attribute(),
            Instruction::SetAttr => self.set_attribute(),
            _ => {
                self.push_value(literal);
                Ok(())
            },
        }
    }
}

impl StackFrame {
    /// `Execute`: takes a native function and an argument, hands the
    /// argument to the host routine, and leaves what comes back.
    fn execute<H: Fn(u64, Value) -> Value>(&mut self, host: &H) -> (r: Result<(), Fault>)
        requires
            forall|id: u64, v: Value| call_requires(*host, (id, v)),
        ensures
            execute_rel(*host, old(self)@, outcome(final(self)@, r)),
            final(self)@.budget == old(self)@.budget,
    {
        let (mut function, argument) = match self.operands() {
            Ok(pair) => pair,
            Err(fault) => {
                return Err(fault);
            },
        };
        let ghost arg = argument@;
        let returned = function.call_foreign_function(host, argument);
        proof {
            if function@.native.is_some() {
                assert(native_returns(*host, function@.native.unwrap(), arg, returned@));
            }
        }
        self.push_value(returned);
        Ok(())
    }

    /// Takes `n` values and drops them.
    fn discard(&mut self, n: usize) -> (r: Result<(), Fault>)
        ensures
            outcome(final(self)@, r) == old(self)@.discard(n as nat),
            final(self)@.budget == old(self)@.budget,
            final(self)@.output == old(self)@.output,
    {
        let mut left: usize = n;
        while left > 0
            invariant
                self@.discard(left as nat) == old(self)@.discard(n as nat),
                self@.budget == old(self)@.budget,
                self@.output == old(self)@.output,
            decreases left,
        {
            match self.pop() {
                Ok(_) => {},
                Err(fault) => {
                    return Err(fault);
                },
            }
            left -= 1;
        }
        Ok(())
    }

    /// Runs the frame's instructions in order. A fault ends the run where
    /// it is met; the frame then stays as the fault left it.
    pub fn run<H: Fn(u64, Value) -> Value>(&mut self, host: &H) -> (r: Result<(), Fault>)
        requires
            forall|id: u64, v: Value| call_requires(*host, (id, v)),
        ensures
            run_rel(*host, old(self)@, old(self)@.instructions.list, outcome(final(self)@, r)),
            final(self)@.budget <= old(self)@.budget,
        decreases old(self)@.budget, 1nat, old(self)@.instructions.list.len() + 1,
    {
        let instructions = self.instructions.as_list();
        self.run_list(host, &instructions)
    }

    /// Runs the given instructions in order in this frame.
    fn run_list<H: Fn(u64, Value) -> Value>(&mut self, host: &H, instructions: &Vec<Value>) -> (r:
        Result<(), Fault>)
        requires
            forall|id: u64, v: Value| call_requires(*host, (id, v)),
        ensures
            run_rel(*host, old(self)@, views(instructions@), outcome(final(self)@, r)),
            final(self)@.budget <= old(self)@.budget,
        decreases old(self)@.budget, 1nat, instructions@.len(),
    {
        let ghost start = self@;
        let ghost all = views(instructions@);
        let mut i: usize = 0;
        while i < instructions.len()
            invariant
                forall|id: u64, v: Value| call_requires(*host, (id, v)),
                i <= instructions.len(),
                all == views(instructions@),
                start == old(self)@,
                self@.budget <= start.budget,
                run_rel(*host, start, all.take(i as int), done(self@)),
            decreases instructions.len() - i,
        {
            let ghost mid = done(self@);
            let ghost longer = all.take(i + 1);
            let instruction = instructions[i].clone();
            let r = self.step(host, instruction);
            proof {
                let post = outcome(self@, r);
                assert(longer.drop_last() =~= all.take(i as int));
                assert(witness(mid));
                if r.is_err() {
                    lemma_fault_ends_run(*host, start, all, i + 1, post);
                }
            }
            match r {
                Ok(_) => {},
                Err(fault) => {
                    return Err(fault);
                },
            }
            i += 1;
        }
        assert(all.take(i as int) =~= all);
        Ok(())
    }

    /// Does one step: what the instruction that `instruction` holds does.
    /// A value that holds no instruction is put on the stack.
    pub fn step<H: Fn(u64, Value) -> Value>(&mut self, host: &H, instruction: Value) -> (r: Result<
        (),
        Fault,
    >)
        requires
            forall|id: u64, v: Value| call_requires(*host, (id, v)),
        ensures
            step_rel(*host, old(self)@, instruction@, outcome(final(self)@, r)),
            final(self)@.budget <= old(self)@.budget,
        decreases old(self)@.budget, 0nat, 0nat,
    {
        if self.budget == 0 {
            return Err(self.fault(FaultKind::BudgetExhausted));
        }
        self.budget = self.budget - 1;
        match instruction.as_instruction() {
            Instruction::While => match self.operands() {
                Ok((condition, body)) => self.while_function(host, condition, body),
                Err(fault) => Err(fault),
            },
            Instruction::Call => match self.pop() {
                Ok(f) => self.call(host, f),
                Err(fault) => Err(fault),
            },
            Instruction::Execute => self.execute(host),
            i => {
                proof {
                    lemma_apply_keeps_budget(self@, i, instruction@);
                }
                self.apply(i, instruction)
            },
        }
    }

    /// Runs `condition` and, as long as that leaves a value that is not
    /// false, `body` and `condition` again, all in this frame.
    pub fn while_function<H: Fn(u64, Value) -> Value>(
        &mut self,
        host: &H,
        condition: Value,
        body: Value,
    ) -> (r: Result<(), Fault>)
        requires
            forall|id: u64, v: Value| call_requires(*host, (id, v)),
        ensures
            while_rel(*host, old(self)@, condition@, body@, outcome(final(self)@, r)),
            final(self)@.budget <= old(self)@.budget,
        decreases old(self)@.budget, 2nat, 0nat,
    {
        let tests = condition.as_list();
        let turns = body.as_list();
        let ghost start = self@;
        loop
            invariant
                forall|id: u64, v: Value| call_requires(*host, (id, v)),
                views(tests@) == condition@.list,
                views(turns@) == body@.list,
                start == old(self)@,
                self@.budget <= start.budget,
                forall|post: Outcome|
                    while_rel(*host, self@, condition@, body@, post) ==> #[trigger] while_rel(
                        *host,
                        start,
                        condition@,
                        body@,
                        post,
                    ),
            decreases self@.budget,
        {
            if self.budget == 0 {
                return Err(self.fault(FaultKind::BudgetExhausted));
            }
            self.budget = self.budget - 1;
            let r = self.run_list(host, &tests);
            let ghost tested = outcome(self@, r);
            proof {
                assert(witness(tested));
            }
            match r {
                Ok(_) => {},
                Err(fault) => {
                    return Err(fault);
                },
            }
            let result = match self.pop_value() {
                Ok(result) => result,
                Err(fault) => {
                    return Err(fault);
                },
            };
            if counts_as_false(&result) {
                return Ok(());
            }
            let r = self.run_list(host, &turns);
            let ghost turned = outcome(self@, r);
            proof {
                assert(witness(turned));
            }
            match r {
                Ok(_) => {},
                Err(fault) => {
                    return Err(fault);
                },
            }
            proof {
                assert forall|post: Outcome|
                    while_rel(*host, self@, condition@, body@, post) implies #[trigger] while_rel(
                    *host,
                    start,
                    condition@,
                    body@,
                    post,
                ) by {
                }
            }
        }
    }

    /// Calls `object_and_scope.first` in a frame of its own, whose scope is
    /// `object_and_scope.second` and whose parent is a copy of this frame.
    /// Afterwards this frame drops as many values as the callee took from
    /// it, and gets what the callee left on its stack, in the callee's order.
    pub fn call<H: Fn(u64, Value) -> Value>(
        &mut self,
        host: &H,
        object_and_scope: Pair<Value, Scope>,
    ) -> (r: Result<(), Fault>)
        requires
            forall|id: u64, v: Value| call_requires(*host, (id, v)),
        ensures
            call_rel(*host, old(self)@, slot_view(object_and_scope), outcome(final(self)@, r)),
            final(self)@.budget <= old(self)@.budget,
        decreases old(self)@.budget, 2nat, 0nat,
    {
        let mut s = StackFrame::new(
            Some(Box::new(self.clone())),
            object_and_scope.second,
            object_and_scope.first,
        );
        s.budget = self.budget;
        s.output = self.output.clone();
        let r = s.run(host);
        let ghost end = outcome(s@, r);
        proof {
            assert(witness(end));
        }
        let StackFrame { contents, number_of_args_taken, budget, output, .. } = s;
        let mut contents = contents;
        self.budget = budget;
        self.output = output;
        match r {
            Ok(_) => {},
            Err(fault) => {
                return Err(fault);
            },
        }
        match self.discard(number_of_args_taken) {
            Ok(_) => {},
            Err(fault) => {
                return Err(fault);
            },
        }
        let ghost dropped = self@;
        self.contents.append(&mut contents);
        proof {
            assert(self@.contents =~= dropped.contents + end.frame.contents);
        }
        Ok(())
    }
}

} // verus!
