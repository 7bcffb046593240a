//! The tags of a value: its kind, the instructions, and the recoverable problems.
use crate::number::{decimal_digits, decimal_text, Number};
use vstd::prelude::*;

verus! {

/// One instruction of the machine.
#[derive(Debug, Copy, Clone, PartialEq, Eq, Structural)]
pub enum Instruction {
    Print,
    Println,
    While,
    If,
    Append,
    Pop,
    Index,
    Equal,
    Greater,
    Less,
    Not,
    Add,
    Mul,
    Sub,
    Div,
    Mod,
    Call,
    Load,
    Store,
    GetAttr,
    SetAttr,
    Execute,
    Pass,
}

/// A recoverable problem: an ordinary value that a program may inspect or ignore.
#[derive(Debug, Copy, Clone, PartialEq, Eq, Structural)]
pub enum Problem {
    IncompatibleTypes,
    ValueError,
    OutOfRange,
}

/// The kind of a value.
#[derive(Debug, Copy, Clone, PartialEq, Eq, Structural)]
pub enum Type {
    Str,
    Num,
    List,
    Function,
    Instance,
    Problem(Problem),
    Nothing,
    Command(Instruction),
}

/// The numbers that stand for the characters of `s`: for each character the
/// backend's reading of its code.
pub open spec fn string_contents(s: Seq<char>) -> Seq<Seq<char>> {
    Seq::new(s.len(), |i: int| decimal_text(decimal_digits(s[i] as nat)))
}

/// The texts of a sequence of numbers.
pub open spec fn number_texts(items: Seq<Number>) -> Seq<Seq<char>> {
    Seq::new(items.len(), |i: int| items[i]@)
}

/// The contents of a string value: one number per character.
pub fn from_string(string: &str) -> (r: Vec<Number>)
    ensures
        number_texts(r@) == string_contents(string@),
{
    let mut result: Vec<Number> = Vec::new();
    for ch in it: string.chars()
        invariant
            it.seq() == string@,
            result@.len() == it.index(),
            forall|j: int|
                0 <= j < result@.len() ==> (#[trigger] result@[j])@ == decimal_text(
                    decimal_digits(string@[j] as nat),
                ),
    {
        result.push(Number::from_char(ch));
    }
    result
}

/// The contents of a number value: the number alone.
pub fn from_number(number: Number) -> (r: Vec<Number>)
    ensures
        number_texts(r@) == seq![number@],
{
    let mut result: Vec<Number> = Vec::new();
    result.push(number);
    result
}

/// Reads a number from text.
pub fn string_to_number(n: String) -> (r: Number)
    ensures
        r@ == decimal_text(n@),
{
    Number::from_str(n.as_str())
}

/// The name of an instruction, as it is printed.
pub open spec fn instruction_text(i: Instruction) -> Seq<char> {
    match i {
        Instruction::Print => "Print"@,
        Instruction::Println => "Println"@,
        Instruction::While => "While"@,
        Instruction::If => "If"@,
        Instruction::Append => "Append"@,
        Instruction::Pop => "Pop"@,
        Instruction::Index => "Index"@,
        Instruction::Equal => "Equal"@,
        Instruction::Greater => "Greater"@,
        Instruction::Less => "Less"@,
        Instruction::Not => "Not"@,
        Instruction::Add => "Add"@,
        Instruction::Mul => "Mul"@,
        Instruction::Sub => "Sub"@,
        Instruction::Div => "Div"@,
        Instruction::Mod => "Mod"@,
        Instruction::Call => "Call"@,
        Instruction::Load => "Load"@,
        Instruction::Store => "Store"@,
        Instruction::GetAttr => "GetAttr"@,
        Instruction::SetAttr => "SetAttr"@,
        Instruction::Execute => "Execute"@,
        Instruction::Pass => "Pass"@,
    }
}

/// The name of a problem, as it is printed.
pub open spec fn problem_text(p: Problem) -> Seq<char> {
    match p {
        Problem::IncompatibleTypes => "IncompatibleTypes"@,
        Problem::ValueError => "ValueError"@,
        Problem::OutOfRange => "OutOfRange"@,
    }
}

/// The name of an instruction.
pub fn instruction_name(i: Instruction) -> (r: &'static str)
    ensures
        r@ == instruction_text(i),
{
    match i {
        Instruction::Print => "Print",
        Instruction::Println => "Println",
        Instruction::While => "While",
        Instruction::If => "If",
        Instruction::Append => "Append",
        Instruction::Pop => "Pop",
        Instruction::Index => "Index",
        Instruction::Equal => "Equal",
        Instruction::Greater => "Greater",
        Instruction::Less => "Less",
        Instruction::Not => "Not",
        Instruction::Add => "Add",
        Instruction::Mul => "Mul",
        Instruction::Sub => "Sub",
        Instruction::Div => "Div",
        Instruction::Mod => "Mod",
        Instruction::Call => "Call",
        Instruction::Load => "Load",
        Instruction::Store => "Store",
        Instruction::GetAttr => "GetAttr",
        Instruction::SetAttr => "SetAttr",
        Instruction::Execute => "Execute",
        Instruction::Pass => "Pass",
    }
}

/// The name of a problem.
pub fn problem_name(p: Problem) -> (r: &'static str)
    ensures
        r@ == problem_text(p),
{
    match p {
        Problem::IncompatibleTypes => "IncompatibleTypes",
        Problem::ValueError => "ValueError",
        Problem::OutOfRange => "OutOfRange",
    }
}

} // verus!
