//! Short constructors for the values that a program is made of.
use crate::number::Number;
use crate::object::Instruction;
use crate::value::{
    command, empty_instance, function_value, list_value, native_value, nothing, string_value,
    views, Value,
};
use vstd::prelude::*;

verus! {

/// A copy of each value of a slice.
fn copies(arr: &[Value]) -> (r: Vec<Value>)
    ensures
        views(r@) == views(arr@),
{
    let mut out: Vec<Value> = Vec::new();
    let mut i: usize = 0;
    while i < arr.len()
        invariant
            i <= arr.len(),
            out@.len() == i,
            forall|j: int| 0 <= j < i ==> (#[trigger] out@[j])@ == arr@[j]@,
        decreases arr.len() - i,
    {
        out.push(arr[i].clone());
        i += 1;
    }
    out
}

/// An instance without attributes.
pub fn empty_obj() -> (r: Value)
    ensures
        r@ == empty_instance(),
{
    Value::empty_instance()
}

/// The string value of `s`.
pub fn string(s: &str) -> (r: Value)
    ensures
        r@ == string_value(s@),
{
    Value::from_str(s)
}

/// The number value that the text `n` reads as.
pub fn num(n: &str) -> (r: Value)
    ensures
        r@ == crate::value::num(n@),
{
    Value::from_number(Number::from_str(n))
}

/// The empty value.
pub fn none() -> (r: Value)
    ensures
        r@ == nothing(),
{
    Value::from_nothing()
}

/// The list of the given values.
pub fn list(arr: &[Value]) -> (r: Value)
    ensures
        r@ == list_value(views(arr@)),
{
    Value::from_vector(copies(arr))
}

/// The function whose body is the given values.
pub fn fun(arr: &[Value]) -> (r: Value)
    ensures
        r@ == function_value(views(arr@)),
{
    Value::from_function(copies(arr))
}

/// The value of an instruction.
pub fn ins(i: Instruction) -> (r: Value)
    ensures
        r@ == command(i),
{
    Value::from_instruction(i)
}

/// The function that stands for the host routine `handle`.
pub fn foreign_function(handle: u64) -> (r: Value)
    ensures
        r@ == native_value(handle),
{
    Value::from_foreign_function(handle)
}

} // verus!
