//! The one datatype of the machine: every number, string, list, function,
//! instance, instruction and problem is a `Value`.
use crate::error::FaultKind;
use crate::number::{
    char_of_integer, decimal_difference, decimal_equal, decimal_integer, decimal_product,
    decimal_quotient, decimal_remainder, decimal_sum, decimal_text, position_of_integer,
    push_char, Number,
};
use crate::object::{
    from_number, from_string, instruction_name, instruction_text, number_texts, problem_name,
    problem_text, string_contents, Instruction, Problem, Type,
};
use crate::table::{
    assign, distinct, lemma_assign_distinct, lemma_assign_same, lemma_position_cases,
    lemma_same_names, lookup, position, Entries, Table,
};
use std::ops::{Add, Div, Mul, Not, Rem, Sub};
use vstd::prelude::*;
use vstd::std_specs::cmp::PartialEqSpecImpl;
use vstd::std_specs::ops::{
    AddSpecImpl, DivSpecImpl, MulSpecImpl, NotSpecImpl, RemSpecImpl, SubSpecImpl,
};
use vstd::string::*;

verus! {

/// What a value is, as plain mathematics.
pub struct ValueView {
    /// The kind of the value.
    pub tag: Type,
    /// The handle of the host routine that a native function stands for.
    pub native: Option<u64>,
    /// The numbers held: one per character of a string, one for a number.
    pub contents: Seq<Seq<char>>,
    /// The elements of a list, or the instructions of a function.
    pub list: Seq<ValueView>,
    /// The attributes of an instance, in insertion order.
    pub attributes: Entries<ValueView>,
}

/// A value of kind `tag` that holds `contents` and nothing else.
pub open spec fn plain(tag: Type, contents: Seq<Seq<char>>) -> ValueView {
    ValueView { tag, native: None, contents, list: Seq::empty(), attributes: Seq::empty() }
}

/// The empty value.
pub open spec fn nothing() -> ValueView {
    plain(Type::Nothing, Seq::empty())
}

/// An instance without attributes.
pub open spec fn empty_instance() -> ValueView {
    plain(Type::Instance, Seq::empty())
}

/// The value of a recoverable problem.
pub open spec fn problem(p: Problem) -> ValueView {
    plain(Type::Problem(p), Seq::empty())
}

/// The value of an instruction.
pub open spec fn command(i: Instruction) -> ValueView {
    plain(Type::Command(i), Seq::empty())
}

/// The string value of `s`.
pub open spec fn string_value(s: Seq<char>) -> ValueView {
    plain(Type::Str, string_contents(s))
}

/// The number value whose text is `n`.
pub open spec fn number_value(n: Seq<char>) -> ValueView {
    plain(Type::Num, seq![n])
}

/// The number value read from the text `s`.
pub open spec fn num(s: Seq<char>) -> ValueView {
    number_value(decimal_text(s))
}

/// The list of `items`.
pub open spec fn list_value(items: Seq<ValueView>) -> ValueView {
    ValueView { list: items, ..plain(Type::List, Seq::empty()) }
}

/// The function whose body is `items`.
pub open spec fn function_value(items: Seq<ValueView>) -> ValueView {
    ValueView { list: items, ..plain(Type::Function, Seq::empty()) }
}

/// The function that stands for the host routine `handle`.
pub open spec fn native_value(handle: u64) -> ValueView {
    ValueView { native: Some(handle), ..plain(Type::Function, Seq::empty()) }
}

/// The views of a sequence of values.
pub open spec fn views(items: Seq<Value>) -> Seq<ValueView> {
    Seq::new(items.len(), |i: int| items[i]@)
}

/// The texts of a sequence of strings.
pub open spec fn texts(items: Seq<String>) -> Seq<Seq<char>> {
    Seq::new(items.len(), |i: int| items[i]@)
}

/// The views of a table's entries.
pub open spec fn entry_views(entries: Seq<(String, Value)>) -> Entries<ValueView> {
    Seq::new(entries.len(), |i: int| (entries[i].0@, entries[i].1@))
}

/// A value of the machine.
#[derive(Debug)]
pub struct Value {
    /// The kind of the value.
    value_type: Type,
    /// The handle of the host routine, where the value is a native function.
    function: Option<u64>,
    /// One number per character of a string, one number for a number.
    contents: Vec<Number>,
    /// The elements of a list, or the instructions of a function.
    list: Vec<Value>,
    /// The attributes of an instance. The table is made when the first
    /// attribute is set; until then `None` stands for the empty table.
    attributes: Option<Table<Value>>,
}

impl View for Value {
    type V = ValueView;

    closed spec fn view(&self) -> ValueView {
        self.model()
    }
}

impl Value {
    spec fn model(&self) -> ValueView
        decreases self,
    {
        ValueView {
            tag: self.value_type,
            native: self.function,
            contents: number_texts(self.contents@),
            list: Seq::new(
                self.list@.len(),
                |i: int|
                    if 0 <= i < self.list@.len() {
                        self.list@[i].model()
                    } else {
                        nothing()
                    },
            ),
            attributes: match self.attributes {
                Some(t) => Seq::new(
                    t.entries@.len(),
                    |i: int|
                        if 0 <= i < t.entries@.len() {
                            (t.entries@[i].0@, t.entries@[i].1.model())
                        } else {
                            (Seq::empty(), nothing())
                        },
                ),
                None => Seq::empty(),
            },
        }
    }
}

impl Value {
    /// The attribute entries as they are stored.
    spec fn stored(&self) -> Seq<(String, Value)> {
        match self.attributes {
            Some(t) => t.entries@,
            None => Seq::empty(),
        }
    }

    proof fn lemma_view(&self)
        ensures
            self@.tag == self.value_type,
            self@.native == self.function,
            self@.contents == number_texts(self.contents@),
            self@.list == views(self.list@),
            self@.attributes == entry_views(self.stored()),
    {
    }
}

fn clone_numbers(items: &Vec<Number>) -> (r: Vec<Number>)
    ensures
        number_texts(r@) == number_texts(items@),
{
    let mut out: Vec<Number> = Vec::new();
    let mut i: usize = 0;
    while i < items.len()
        invariant
            i <= items.len(),
            out@.len() == i,
            forall|j: int| 0 <= j < i ==> (#[trigger] out@[j])@ == items@[j]@,
        decreases items.len() - i,
    {
        out.push(items[i].clone());
        i += 1;
    }
    out
}

fn clone_values(items: &Vec<Value>) -> (r: Vec<Value>)
    ensures
        views(r@) == views(items@),
    decreases items,
{
    let mut out: Vec<Value> = Vec::new();
    let mut i: usize = 0;
    while i < items.len()
        invariant
            i <= items.len(),
            out@.len() == i,
            forall|j: int| 0 <= j < i ==> (#[trigger] out@[j])@ == items@[j]@,
        decreases items.len() - i,
    {
        out.push(items[i].clone());
        i += 1;
    }
    out
}

fn clone_entries(items: &Vec<(String, Value)>) -> (r: Vec<(String, Value)>)
    ensures
        entry_views(r@) == entry_views(items@),
    decreases items,
{
    let mut out: Vec<(String, Value)> = Vec::new();
    let mut i: usize = 0;
    while i < items.len()
        invariant
            i <= items.len(),
            out@.len() == i,
            forall|j: int|
                0 <= j < i ==> (#[trigger] out@[j]).0@ == items@[j].0@ && out@[j].1@ == items@[j].1@,
        decreases items.len() - i,
    {
        out.push((items[i].0.clone(), items[i].1.clone()));
        i += 1;
    }
    out
}

impl Clone for Value {
    /// A copy that shares nothing with the value it was made from.
    fn clone(&self) -> (r: Self)
        ensures
            r@ == self@,
        decreases self,
    {
        let attributes = match &self.attributes {
            Some(t) => Some(Table { entries: clone_entries(&t.entries) }),
            None => None,
        };
        let r = Value {
            value_type: self.value_type,
            function: self.function,
            contents: clone_numbers(&self.contents),
            list: clone_values(&self.list),
            attributes,
        };
        proof {
            self.lemma_view();
            r.lemma_view();
        }
        r
    }
}

impl ValueView {
    /// The number that the value stands for: its first number, or zero.
    pub open spec fn as_number(self) -> Seq<char> {
        if self.contents.len() > 0 {
            self.contents[0]
        } else {
            decimal_text("0"@)
        }
    }

    /// The position that the value stands for: that of its first number, or zero.
    pub open spec fn as_usize(self) -> int {
        if self.contents.len() > 0 {
            position_of_integer(decimal_integer(self.contents[0]))
        } else {
            0
        }
    }

    /// The string that the value stands for: one character per number.
    pub open spec fn as_string(self) -> Seq<char> {
        Seq::new(self.contents.len(), |i: int| char_of_integer(decimal_integer(self.contents[i])))
    }

    /// The instruction that the value stands for: `Pass` unless it is a command.
    pub open spec fn as_instruction(self) -> Instruction {
        match self.tag {
            Type::Command(i) => i,
            _ => Instruction::Pass,
        }
    }

    /// The attribute `name`, or the empty value where there is none.
    pub open spec fn get_attr(self, name: Seq<char>) -> ValueView {
        match lookup(self.attributes, name) {
            Some(v) => v,
            None => nothing(),
        }
    }

    /// The value with the attribute `name` set to `object`.
    pub open spec fn set_attr(self, name: Seq<char>, object: ValueView) -> ValueView {
        ValueView { attributes: assign(self.attributes, name, object), ..self }
    }

    /// The attribute `name` as the next level of a path: an empty instance
    /// where there is none.
    pub open spec fn child(self, name: Seq<char>) -> ValueView {
        match lookup(self.attributes, name) {
            Some(v) => v,
            None => empty_instance(),
        }
    }

    /// What lies at the end of the path `names`, which is not empty.
    pub open spec fn get_attr_recursive(self, names: Seq<Seq<char>>) -> ValueView
        decreases names.len(),
    {
        if names.len() <= 1 {
            self.get_attr(names[0])
        } else {
            self.child(names[0]).get_attr_recursive(names.drop_first())
        }
    }

    /// The value after `object` is put at the end of the path `names`, which
    /// is not empty; levels that are missing on the way are made.
    pub open spec fn set_attr_recursive(self, names: Seq<Seq<char>>, object: ValueView) -> ValueView
        decreases names.len(),
    {
        if names.len() <= 1 {
            self.set_attr(names[0], object)
        } else {
            self.set_attr(
                names[0],
                self.child(names[0]).set_attr_recursive(names.drop_first(), object),
            )
        }
    }

    /// The element at the position that `index` stands for.
    pub open spec fn index(self, index: ValueView) -> ValueView {
        let i = index.as_usize();
        match self.tag {
            Type::Str => if i < self.contents.len() {
                string_value(seq![self.as_string()[i]])
            } else {
                problem(Problem::OutOfRange)
            },
            Type::List | Type::Function => if i < self.list.len() {
                self.list[i]
            } else {
                problem(Problem::OutOfRange)
            },
            _ => problem(Problem::ValueError),
        }
    }

    /// The value turned into a list with `object` at its end.
    pub open spec fn list_push(self, object: ValueView) -> ValueView {
        ValueView { tag: Type::List, list: self.list.push(object), ..self }
    }

    /// The value without the last element of its list.
    pub open spec fn list_pop(self) -> ValueView {
        if self.list.len() > 0 {
            ValueView { list: self.list.drop_last(), ..self }
        } else {
            self
        }
    }

    /// The last element of the list, or the empty value.
    pub open spec fn list_last(self) -> ValueView {
        if self.list.len() > 0 {
            self.list.last()
        } else {
            nothing()
        }
    }
}

impl Value {
    /// A value of the given kind that holds `contents` and nothing else.
    pub fn new(value_type: Type, contents: Vec<Number>) -> (r: Self)
        ensures
            r@ == plain(value_type, number_texts(contents@)),
    {
        let r = Value { value_type, function: None, contents, list: Vec::new(), attributes: None };
        proof {
            assert(r@.list =~= Seq::empty());
        }
        r
    }

    /// An instance without attributes.
    pub fn empty_instance() -> (r: Self)
        ensures
            r@ == empty_instance(),
    {
        let r = Value::new(Type::Instance, Vec::new());
        assert(r@.contents =~= Seq::empty());
        r
    }

    /// The string value of `string`.
    pub fn from_string(string: String) -> (r: Self)
        ensures
            r@ == string_value(string@),
    {
        Value::new(Type::Str, from_string(string.as_str()))
    }

    /// The string value of `string`.
    pub fn from_str(string: &str) -> (r: Self)
        ensures
            r@ == string_value(string@),
    {
        Value::new(Type::Str, from_string(string))
    }

    /// The number value of `n`.
    pub fn from_number(n: Number) -> (r: Self)
        ensures
            r@ == number_value(n@),
    {
        Value::new(Type::Num, from_number(n))
    }

    /// The value of an instruction.
    pub fn from_instruction(instruction: Instruction) -> (r: Self)
        ensures
            r@ == command(instruction),
    {
        let r = Value::new(Type::Command(instruction), Vec::new());
        assert(r@.contents =~= Seq::empty());
        r
    }

    /// The value of a recoverable problem.
    pub fn from_problem(p: Problem) -> (r: Self)
        ensures
            r@ == problem(p),
    {
        let r = Value::new(Type::Problem(p), Vec::new());
        assert(r@.contents =~= Seq::empty());
        r
    }

    /// The list of the given elements.
    pub fn from_vector(vector: Vec<Self>) -> (r: Self)
        ensures
            r@ == list_value(views(vector@)),
    {
        let mut instance = Value::new(Type::List, Vec::new());
        assert(instance@.contents =~= Seq::empty());
        instance.set_list(vector);
        instance
    }

    /// The empty value.
    pub fn from_nothing() -> (r: Self)
        ensures
            r@ == nothing(),
    {
        let r = Value::new(Type::Nothing, Vec::new());
        assert(r@.contents =~= Seq::empty());
        r
    }

    /// The function whose body is the given sequence.
    pub fn from_function(vector: Vec<Self>) -> (r: Self)
        ensures
            r@ == function_value(views(vector@)),
    {
        let mut instance = Value::new(Type::Function, Vec::new());
        assert(instance@.contents =~= Seq::empty());
        instance.set_list(vector);
        instance
    }

    /// The function that stands for the host routine `handle`.
    pub fn from_foreign_function(handle: u64) -> (r: Self)
        ensures
            r@ == native_value(handle),
    {
        let mut instance = Value::new(Type::Function, Vec::new());
        assert(instance@.contents =~= Seq::empty());
        instance.set_foreign_function(Some(handle));
        instance
    }

    /// The kind of the value.
    pub fn get_type(&self) -> (r: Type)
        ensures
            r == self@.tag,
    {
        self.value_type
    }

    /// A copy of the list.
    pub fn get_list(&self) -> (r: Vec<Self>)
        ensures
            views(r@) == self@.list,
    {
        clone_values(&self.list)
    }

    /// A copy of the numbers.
    pub fn get_contents(&self) -> (r: Vec<Number>)
        ensures
            number_texts(r@) == self@.contents,
    {
        clone_numbers(&self.contents)
    }

    /// A copy of the attributes.
    pub fn get_attributes(&self) -> (r: Table<Self>)
        ensures
            entry_views(r.entries@) == self@.attributes,
    {
        match &self.attributes {
            Some(t) => Table { entries: clone_entries(&t.entries) },
            None => {
                let t: Table<Value> = Table::new();
                assert(t.entries@.len() == t.entries().len());
                t
            },
        }
    }

    /// The handle of the host routine, if the value stands for one.
    pub fn get_foreign_function(&self) -> (r: Option<u64>)
        ensures
            r == self@.native,
    {
        self.function
    }

    /// Changes the kind of the value.
    pub fn set_type(&mut self, value_type: Type)
        ensures
            final(self)@ == (ValueView { tag: value_type, ..old(self)@ }),
    {
        self.value_type = value_type;
    }

    /// Replaces the list.
    pub fn set_list(&mut self, list: Vec<Self>)
        ensures
            final(self)@ == (ValueView { list: views(list@), ..old(self)@ }),
    {
        self.list = list;
        proof {
            self.lemma_view();
        }
    }

    /// Replaces the numbers.
    pub fn set_contents(&mut self, contents: Vec<Number>)
        ensures
            final(self)@ == (ValueView { contents: number_texts(contents@), ..old(self)@ }),
    {
        self.contents = contents;
    }

    /// Replaces the attributes.
    pub fn set_attributes(&mut self, attributes: Table<Self>)
        ensures
            final(self)@ == (ValueView {
                attributes: entry_views(attributes.entries@),
                ..old(self)@
            }),
    {
        self.attributes = Some(attributes);
        proof {
            self.lemma_view();
        }
    }

    /// Replaces the handle of the host routine.
    pub fn set_foreign_function(&mut self, function: Option<u64>)
        ensures
            final(self)@ == (ValueView { native: function, ..old(self)@ }),
    {
        self.function = function;
    }

    /// The attribute as it is stored, if it is there.
    fn attr(&self, name: &String) -> (r: Option<&Value>)
        ensures
            match r {
                Some(v) => lookup(self@.attributes, name@) == Some(v@),
                None => lookup(self@.attributes, name@).is_none(),
            },
    {
        match &self.attributes {
            Some(t) => {
                proof {
                    lemma_same_names(t.entries(), self@.attributes, name@);
                }
                t.get(name)
            },
            None => {
                None
            },
        }
    }

    /// The attribute `name`, or the empty value where there is none.
    pub fn get_attr(&self, name: String) -> (r: Self)
        ensures
            r@ == self@.get_attr(name@),
    {
        match self.attr(&name) {
            Some(s) => s.clone(),
            None => Value::from_nothing(),
        }
    }

    /// The number that the value stands for.
    pub fn as_number(&self) -> (r: Number)
        ensures
            r@ == self@.as_number(),
    {
        if self.contents.len() > 0 {
            self.contents[0].clone()
        } else {
            Number::from_str("0")
        }
    }

    /// The position that the value stands for.
    pub fn as_usize(&self) -> (r: usize)
        ensures
            r as int == self@.as_usize(),
    {
        if self.contents.len() > 0 {
            self.contents[0].to_usize()
        } else {
            0
        }
    }

    /// The string that the value stands for.
    pub fn as_string(&self) -> (r: String)
        ensures
            r@ == self@.as_string(),
    {
        let mut result = String::new();
        let mut i: usize = 0;
        while i < self.contents.len()
            invariant
                i <= self.contents.len(),
                self@.contents == number_texts(self.contents@),
                result@ == self@.as_string().take(i as int),
            decreases self.contents.len() - i,
        {
            let character = self.contents[i].to_char();
            push_char(&mut result, character);
            i += 1;
        }
        result
    }

    /// A copy of the list.
    pub fn as_list(&self) -> (r: Vec<Self>)
        ensures
            views(r@) == self@.list,
    {
        self.get_list()
    }

    /// The instruction that the value stands for.
    pub fn as_instruction(&self) -> (r: Instruction)
        ensures
            r == self@.as_instruction(),
    {
        match self.get_type() {
            Type::Command(i) => i,
            _ => Instruction::Pass,
        }
    }

    /// A copy of the attributes.
    pub fn as_instance(&self) -> (r: Table<Self>)
        ensures
            entry_views(r.entries@) == self@.attributes,
    {
        self.get_attributes()
    }

    /// The handle of the host routine, if the value stands for one.
    pub fn as_foreign_function(&self) -> (r: Option<u64>)
        ensures
            r == self@.native,
    {
        self.get_foreign_function()
    }

    /// Sets the attribute `name` to `object`.
    pub fn set_attr(&mut self, name: String, object: Self)
        ensures
            final(self)@ == old(self)@.set_attr(name@, object@),
    {
        let mut table: Table<Value> = match self.attributes.take() {
            Some(t) => t,
            None => Table::new(),
        };
        let ghost before = table.entries();
        proof {
            lemma_same_names(before, old(self)@.attributes, name@);
        }
        table.set(name, object);
        proof {
            assert(table.entries@.len() == table.entries().len());
            assert forall|i: int| 0 <= i < table.entries@.len() implies (#[trigger] table.entries@[i]).0@
                == table.entries()[i].0 && table.entries@[i].1 == table.entries()[i].1 by {}
        }
        self.attributes = Some(table);
        proof {
            assert(self@.attributes =~= assign(old(self)@.attributes, name@, object@));
        }
    }
}

/// The parts, with a comma and a blank between each two.
pub open spec fn join(parts: Seq<Seq<char>>) -> Seq<char>
    decreases parts.len(),
{
    if parts.len() == 0 {
        Seq::empty()
    } else if parts.len() == 1 {
        parts[0]
    } else {
        join(parts.drop_last()) + seq![',', ' '] + parts.last()
    }
}

/// Two values are equal: same kind, same host routine, numbers that the
/// backend finds equal one by one, equal elements one by one, and the same
/// attributes in the same order.
pub open spec fn value_equal(a: ValueView, b: ValueView) -> bool
    decreases a,
{
    &&& a.tag == b.tag
    &&& a.native == b.native
    &&& a.contents.len() == b.contents.len()
    &&& forall|i: int|
        0 <= i < a.contents.len() ==> decimal_equal(#[trigger] a.contents[i], b.contents[i])
    &&& a.list.len() == b.list.len()
    &&& forall|i: int| 0 <= i < a.list.len() ==> value_equal(#[trigger] a.list[i], b.list[i])
    &&& a.attributes.len() == b.attributes.len()
    &&& forall|i: int|
        0 <= i < a.attributes.len() ==> (#[trigger] a.attributes[i]).0 == b.attributes[i].0
            && value_equal(a.attributes[i].1, b.attributes[i].1)
}

/// The sum of two values: of two numbers their sum, of two strings the one
/// followed by the other; a problem otherwise.
pub open spec fn add_values(a: ValueView, b: ValueView) -> ValueView {
    if a.tag != b.tag {
        problem(Problem::IncompatibleTypes)
    } else {
        match a.tag {
            Type::Num => number_value(decimal_sum(a.as_number(), b.as_number())),
            Type::Str => string_value(a.as_string() + b.as_string()),
            _ => problem(Problem::ValueError),
        }
    }
}

/// What an operation on numbers alone gives for `a` and `b`, where `result`
/// is what it gives for two numbers.
pub open spec fn numeric(a: ValueView, b: ValueView, result: Seq<char>) -> ValueView {
    if a.tag != b.tag {
        problem(Problem::IncompatibleTypes)
    } else if a.tag != Type::Num {
        problem(Problem::ValueError)
    } else {
        number_value(result)
    }
}

/// `a - b`.
pub open spec fn sub_values(a: ValueView, b: ValueView) -> ValueView {
    numeric(a, b, decimal_difference(a.as_number(), b.as_number()))
}

/// `a * b`.
pub open spec fn mul_values(a: ValueView, b: ValueView) -> ValueView {
    numeric(a, b, decimal_product(a.as_number(), b.as_number()))
}

/// `a / b`.
pub open spec fn div_values(a: ValueView, b: ValueView) -> ValueView {
    numeric(a, b, decimal_quotient(a.as_number(), b.as_number()))
}

/// `a % b`.
pub open spec fn rem_values(a: ValueView, b: ValueView) -> ValueView {
    numeric(a, b, decimal_remainder(a.as_number(), b.as_number()))
}

/// The negation of a value: one for the number zero, zero for everything else.
pub open spec fn not_value(a: ValueView) -> ValueView {
    if a.tag == Type::Num && value_equal(a, num("0"@)) {
        num("1"@)
    } else {
        num("0"@)
    }
}

impl ValueView {
    /// The text that the value is printed as.
    pub open spec fn format(self) -> Seq<char>
        decreases self,
    {
        match self.tag {
            Type::Str => self.as_string(),
            Type::Num => self.as_number(),
            Type::List => seq!['['] + join(self.list_parts()) + seq![']'],
            Type::Instance => seq!['<'] + join(self.attribute_parts()) + seq!['>'],
            Type::Function => "Function"@,
            Type::Nothing => "None"@,
            Type::Problem(p) => problem_text(p),
            Type::Command(c) => instruction_text(c),
        }
    }

    /// The printed elements of the list.
    pub open spec fn list_parts(self) -> Seq<Seq<char>>
        decreases self, 0nat,
    {
        Seq::new(
            self.list.len(),
            |i: int|
                if 0 <= i < self.list.len() {
                    self.list[i].format()
                } else {
                    Seq::empty()
                },
        )
    }

    /// The printed attributes, each as its name, a colon and its value.
    pub open spec fn attribute_parts(self) -> Seq<Seq<char>>
        decreases self, 0nat,
    {
        Seq::new(
            self.attributes.len(),
            |i: int|
                if 0 <= i < self.attributes.len() {
                    self.attributes[i].0 + seq![':'] + self.attributes[i].1.format()
                } else {
                    Seq::empty()
                },
        )
    }
}

proof fn lemma_join_push(parts: Seq<Seq<char>>, part: Seq<char>)
    ensures
        join(parts.push(part)) == if parts.len() == 0 {
            part
        } else {
            join(parts) + seq![',', ' '] + part
        },
{
    assert(parts.push(part).drop_last() =~= parts);
}

fn numbers_equal(a: &Vec<Number>, b: &Vec<Number>) -> (r: bool)
    ensures
        r == (a@.len() == b@.len() && forall|i: int|
            0 <= i < a@.len() ==> decimal_equal(#[trigger] a@[i]@, b@[i]@)),
{
    if a.len() != b.len() {
        return false;
    }
    let mut i: usize = 0;
    while i < a.len()
        invariant
            i <= a.len(),
            a.len() == b.len(),
            forall|j: int| 0 <= j < i ==> decimal_equal(#[trigger] a@[j]@, b@[j]@),
        decreases a.len() - i,
    {
        if !a[i].equals(&b[i]) {
            return false;
        }
        i += 1;
    }
    true
}

fn values_equal(a: &Vec<Value>, b: &Vec<Value>) -> (r: bool)
    ensures
        r == (a@.len() == b@.len() && forall|i: int|
            0 <= i < a@.len() ==> value_equal(#[trigger] a@[i]@, b@[i]@)),
    decreases a,
{
    if a.len() != b.len() {
        return false;
    }
    let mut i: usize = 0;
    while i < a.len()
        invariant
            i <= a.len(),
            a.len() == b.len(),
            forall|j: int| 0 <= j < i ==> value_equal(#[trigger] a@[j]@, b@[j]@),
        decreases a.len() - i,
    {
        if !a[i].equals(&b[i]) {
            return false;
        }
        i += 1;
    }
    true
}

fn entries_equal(a: &Vec<(String, Value)>, b: &Vec<(String, Value)>) -> (r: bool)
    ensures
        r == (a@.len() == b@.len() && forall|i: int|
            0 <= i < a@.len() ==> (#[trigger] a@[i]).0@ == b@[i].0@ && value_equal(
                a@[i].1@,
                b@[i].1@,
            )),
    decreases a,
{
    if a.len() != b.len() {
        return false;
    }
    let mut i: usize = 0;
    while i < a.len()
        invariant
            i <= a.len(),
            a.len() == b.len(),
            forall|j: int|
                0 <= j < i ==> (#[trigger] a@[j]).0@ == b@[j].0@ && value_equal(
                    a@[j].1@,
                    b@[j].1@,
                ),
        decreases a.len() - i,
    {
        if !(a[i].0 == b[i].0) {
            return false;
        }
        if !a[i].1.equals(&b[i].1) {
            return false;
        }
        i += 1;
    }
    true
}

impl Value {
    /// Whether the two values are equal.
    pub fn equals(&self, other: &Value) -> (r: bool)
        ensures
            r == value_equal(self@, other@),
        decreases self,
    {
        if self.value_type != other.value_type {
            return false;
        }
        if self.function != other.function {
            return false;
        }
        if !numbers_equal(&self.contents, &other.contents) {
            assert(!value_equal(self@, other@)) by {
                if value_equal(self@, other@) {
                    assert forall|i: int| 0 <= i < self.contents@.len() implies decimal_equal(
                        #[trigger] self.contents@[i]@,
                        other.contents@[i]@,
                    ) by {
                        assert(decimal_equal(self@.contents[i], other@.contents[i]));
                    }
                }
            }
            return false;
        }
        if !values_equal(&self.list, &other.list) {
            assert(!value_equal(self@, other@)) by {
                if value_equal(self@, other@) {
                    assert forall|i: int| 0 <= i < self.list@.len() implies value_equal(
                        #[trigger] self.list@[i]@,
                        other.list@[i]@,
                    ) by {
                        assert(value_equal(self@.list[i], other@.list[i]));
                    }
                }
            }
            return false;
        }
        let same = match (&self.attributes, &other.attributes) {
            (Some(s), Some(o)) => entries_equal(&s.entries, &o.entries),
            (Some(s), None) => s.entries.len() == 0,
            (None, Some(o)) => o.entries.len() == 0,
            (None, None) => true,
        };
        proof {
            let a = self.stored();
            let b = other.stored();
            if same {
                assert forall|i: int| 0 <= i < self@.attributes.len() implies (
                #[trigger] self@.attributes[i]).0 == other@.attributes[i].0 && value_equal(
                    self@.attributes[i].1,
                    other@.attributes[i].1,
                ) by {
                }
                assert forall|i: int| 0 <= i < self@.contents.len() implies decimal_equal(
                    #[trigger] self@.contents[i],
                    other@.contents[i],
                ) by {
                }
                assert forall|i: int| 0 <= i < self@.list.len() implies value_equal(
                    #[trigger] self@.list[i],
                    other@.list[i],
                ) by {
                    assert(value_equal(self.list@[i]@, other.list@[i]@));
                }
            } else {
                if value_equal(self@, other@) {
                    assert forall|i: int| 0 <= i < a.len() implies (#[trigger] a[i]).0@ == b[i].0@
                        && value_equal(a[i].1@, b[i].1@) by {
                        assert(self@.attributes[i].0 == other@.attributes[i].0);
                    }
                }
            }
        }
        same
    }

    /// What lies at the end of the path that starts at `names[from]`.
    fn get_path(&self, names: &Vec<String>, from: usize) -> (r: Value)
        requires
            from < names.len(),
        ensures
            r@ == self@.get_attr_recursive(texts(names@).skip(from as int)),
        decreases names.len() - from,
    {
        let ghost path = texts(names@).skip(from as int);
        let found = self.attr(&names[from]);
        if from + 1 == names.len() {
            match found {
                Some(o) => o.clone(),
                None => Value::from_nothing(),
            }
        } else {
            assert(path.drop_first() =~= texts(names@).skip(from + 1));
            match found {
                Some(o) => o.get_path(names, from + 1),
                None => Value::empty_instance().get_path(names, from + 1),
            }
        }
    }

    /// Puts `object` at the end of the path that starts at `names[from]`.
    fn set_path(&mut self, names: &Vec<String>, from: usize, object: Value)
        requires
            from < names.len(),
        ensures
            final(self)@ == old(self)@.set_attr_recursive(
                texts(names@).skip(from as int),
                object@,
            ),
        decreases names.len() - from,
    {
        let ghost path = texts(names@).skip(from as int);
        if from + 1 == names.len() {
            self.set_attr(names[from].clone(), object);
        } else {
            assert(path.drop_first() =~= texts(names@).skip(from + 1));
            let mut child = match self.attr(&names[from]) {
                Some(o) => o.clone(),
                None => Value::empty_instance(),
            };
            child.set_path(names, from + 1, object);
            self.set_attr(names[from].clone(), child);
        }
    }

    /// What lies at the end of the path `names`. Levels that are missing on
    /// the way count as empty instances. An empty path is a fault.
    pub fn get_attr_recursive(&mut self, names: Vec<String>) -> (r: Result<Self, FaultKind>)
        ensures
            final(self)@ == old(self)@,
            names@.len() == 0 ==> r == Err::<Self, FaultKind>(FaultKind::EmptyAttributeChain),
            names@.len() > 0 ==> r.is_ok() && r.unwrap()@ == old(self)@.get_attr_recursive(
                texts(names@),
            ),
    {
        if names.len() < 1 {
            return Err(FaultKind::EmptyAttributeChain);
        }
        assert(texts(names@).skip(0) =~= texts(names@));
        Ok(self.get_path(&names, 0))
    }

    /// Puts `object` at the end of the path `names`, making the levels that
    /// are missing on the way, and returns a copy of the whole. An empty path
    /// is a fault and changes nothing.
    pub fn set_attr_recursive(&mut self, names: Vec<String>, object: Self) -> (r: Result<
        Self,
        FaultKind,
    >)
        ensures
            names@.len() == 0 ==> r == Err::<Self, FaultKind>(FaultKind::EmptyAttributeChain)
                && final(self)@ == old(self)@,
            names@.len() > 0 ==> r.is_ok() && r.unwrap()@ == final(self)@ && final(self)@ == old(
                self,
            )@.set_attr_recursive(texts(names@), object@),
    {
        if names.len() < 1 {
            return Err(FaultKind::EmptyAttributeChain);
        }
        assert(texts(names@).skip(0) =~= texts(names@));
        self.set_path(&names, 0, object);
        Ok(self.clone())
    }

    /// The element at the position that `index` stands for: of a string the
    /// character there, of a list or a function the element there. A position
    /// past the end gives the problem `OutOfRange`, a value of another kind
    /// the problem `ValueError`.
    pub fn index(&mut self, index: Self) -> (r: Self)
        ensures
            final(self)@ == old(self)@,
            r@ == old(self)@.index(index@),
    {
        let i = index.as_usize();
        match self.value_type {
            Type::Str => {
                if i < self.contents.len() {
                    let c = self.contents[i].to_char();
                    let mut string = String::new();
                    push_char(&mut string, c);
                    Value::from_string(string)
                } else {
                    Value::from_problem(Problem::OutOfRange)
                }
            },
            Type::List | Type::Function => {
                if i < self.list.len() {
                    self.list[i].clone()
                } else {
                    Value::from_problem(Problem::OutOfRange)
                }
            },
            _ => Value::from_problem(Problem::ValueError),
        }
    }

    /// Turns the value into a list and puts `object` at its end.
    pub fn list_push(&mut self, object: Self)
        ensures
            final(self)@ == old(self)@.list_push(object@),
    {
        self.value_type = Type::List;
        self.list.push(object);
        proof {
            assert(self@.list =~= old(self)@.list.push(object@));
        }
    }

    /// Takes the last element off the list and returns it; on an empty list
    /// returns the empty value and changes nothing.
    pub fn list_pop(&mut self) -> (r: Self)
        ensures
            final(self)@ == old(self)@.list_pop(),
            r@ == old(self)@.list_last(),
    {
        let r = match self.list.pop() {
            Some(e) => e,
            None => Value::from_nothing(),
        };
        proof {
            assert(self@.list =~= old(self)@.list_pop().list);
        }
        r
    }

    /// Hands `parameter` to the host routine that the value stands for and
    /// returns what comes back; a value that stands for none returns the
    /// parameter as it is.
    pub fn call_foreign_function<H: Fn(u64, Value) -> Value>(
        &mut self,
        host: &H,
        parameter: Self,
    ) -> (r: Self)
        requires
            forall|id: u64, v: Value| call_requires(*host, (id, v)),
        ensures
            final(self)@ == old(self)@,
            match old(self)@.native {
                Some(id) => call_ensures(*host, (id, parameter), r),
                None => r == parameter,
            },
    {
        match self.function {
            Some(id) => host(id, parameter),
            None => parameter,
        }
    }

    /// The text that the value is printed as: a string as it is, a number in
    /// decimal, a list in square brackets, an instance in angle brackets with
    /// its attributes in insertion order.
    pub fn format(&self) -> (r: String)
        ensures
            r@ == self@.format(),
        decreases self,
    {
        match self.value_type {
            Type::Str => self.as_string(),
            Type::Num => self.as_number().to_text(),
            Type::List => {
                let mut result = String::new();
                push_char(&mut result, '[');
                let ghost parts = self@.list_parts();
                let mut i: usize = 0;
                while i < self.list.len()
                    invariant
                        i <= self.list.len(),
                        self@.list == views(self.list@),
                        parts == self@.list_parts(),
                        result@ == seq!['['] + join(parts.take(i as int)),
                    decreases self.list.len() - i,
                {
                    if i > 0 {
                        push_char(&mut result, ',');
                        push_char(&mut result, ' ');
                    }
                    let item = self.list[i].format();
                    result.append(item.as_str());
                    proof {
                        assert(parts.take(i + 1) =~= parts.take(i as int).push(parts[i as int]));
                        lemma_join_push(parts.take(i as int), parts[i as int]);
                    }
                    i += 1;
                }
                assert(parts.take(i as int) =~= parts);
                push_char(&mut result, ']');
                result
            },
            Type::Instance => {
                let mut result = String::new();
                push_char(&mut result, '<');
                let ghost parts = self@.attribute_parts();
                match &self.attributes {
                    Some(t) => {
                        let mut i: usize = 0;
                        while i < t.entries.len()
                            invariant
                                i <= t.entries.len(),
                                self.attributes == Some(*t),
                                self@.attributes == entry_views(t.entries@),
                                parts == self@.attribute_parts(),
                                result@ == seq!['<'] + join(parts.take(i as int)),
                            decreases t.entries.len() - i,
                        {
                            if i > 0 {
                                push_char(&mut result, ',');
                                push_char(&mut result, ' ');
                            }
                            result.append(t.entries[i].0.as_str());
                            push_char(&mut result, ':');
                            let item = t.entries[i].1.format();
                            result.append(item.as_str());
                            proof {
                                assert(parts.take(i + 1) =~= parts.take(i as int).push(
                                    parts[i as int],
                                ));
                                lemma_join_push(parts.take(i as int), parts[i as int]);
                            }
                            i += 1;
                        }
                        assert(parts.take(i as int) =~= parts);
                    },
                    None => {
                    },
                }
                push_char(&mut result, '>');
                result
            },
            Type::Function => String::from_str("Function"),
            Type::Nothing => String::from_str("None"),
            Type::Problem(p) => String::from_str(problem_name(p)),
            Type::Command(c) => String::from_str(instruction_name(c)),
        }
    }
}

/// `==` on values is `equals`.
impl PartialEq for Value {
    fn eq(&self, other: &Value) -> (r: bool) {
        self.equals(other)
    }
}

impl PartialEqSpecImpl for Value {
    open spec fn obeys_eq_spec() -> bool {
        true
    }

    open spec fn eq_spec(&self, other: &Value) -> bool {
        value_equal(self@, other@)
    }
}

impl Add for Value {
    type Output = Value;

    /// The sum of two values.
    fn add(self, rhs: Value) -> (r: Value)
        ensures
            r@ == add_values(self@, rhs@),
    {
        if self.get_type() != rhs.get_type() {
            return Value::from_problem(Problem::IncompatibleTypes);
        }
        match self.get_type() {
            Type::Num => Value::from_number(self.as_number() + rhs.as_number()),
            Type::Str => {
                let right = rhs.as_string();
                Value::from_string(self.as_string().concat(right.as_str()))
            },
            _ => Value::from_problem(Problem::ValueError),
        }
    }
}

/// What `add` returns is stated in its contract, over the views of the
/// values; nothing is claimed of the operator inside specifications.
impl AddSpecImpl for Value {
    open spec fn obeys_add_spec() -> bool {
        false
    }

    open spec fn add_req(self, rhs: Value) -> bool {
        true
    }

    open spec fn add_spec(self, rhs: Value) -> Value {
        self
    }
}

impl Sub for Value {
    type Output = Value;

    /// The difference of two numbers.
    fn sub(self, rhs: Value) -> (r: Value)
        ensures
            r@ == sub_values(self@, rhs@),
    {
        if self.get_type() != rhs.get_type() {
            return Value::from_problem(Problem::IncompatibleTypes);
        }
        if self.get_type() != Type::Num {
            return Value::from_problem(Problem::ValueError);
        }
        Value::from_number(self.as_number() - rhs.as_number())
    }
}

/// What `sub` returns is stated in its contract, over the views of the
/// values; nothing is claimed of the operator inside specifications.
impl SubSpecImpl for Value {
    open spec fn obeys_sub_spec() -> bool {
        false
    }

    open spec fn sub_req(self, rhs: Value) -> bool {
        true
    }

    open spec fn sub_spec(self, rhs: Value) -> Value {
        self
    }
}

impl Mul for Value {
    type Output = Value;

    /// The product of two numbers.
    fn mul(self, rhs: Value) -> (r: Value)
        ensures
            r@ == mul_values(self@, rhs@),
    {
        if self.get_type() != rhs.get_type() {
            return Value::from_problem(Problem::IncompatibleTypes);
        }
        if self.get_type() != Type::Num {
            return Value::from_problem(Problem::ValueError);
        }
        Value::from_number(self.as_number() * rhs.as_number())
    }
}

/// What `mul` returns is stated in its contract, over the views of the
/// values; nothing is claimed of the operator inside specifications.
impl MulSpecImpl for Value {
    open spec fn obeys_mul_spec() -> bool {
        false
    }

    open spec fn mul_req(self, rhs: Value) -> bool {
        true
    }

    open spec fn mul_spec(self, rhs: Value) -> Value {
        self
    }
}

impl Div for Value {
    type Output = Value;

    /// The quotient of two numbers.
    fn div(self, rhs: Value) -> (r: Value)
        ensures
            r@ == div_values(self@, rhs@),
    {
        if self.get_type() != rhs.get_type() {
            return Value::from_problem(Problem::IncompatibleTypes);
        }
        if self.get_type() != Type::Num {
            return Value::from_problem(Problem::ValueError);
        }
        Value::from_number(self.as_number() / rhs.as_number())
    }
}

/// What `div` returns is stated in its contract, over the views of the
/// values; nothing is claimed of the operator inside specifications.
impl DivSpecImpl for Value {
    open spec fn obeys_div_spec() -> bool {
        false
    }

    open spec fn div_req(self, rhs: Value) -> bool {
        true
    }

    open spec fn div_spec(self, rhs: Value) -> Value {
        self
    }
}

impl Rem for Value {
    type Output = Value;

    /// The remainder of two numbers.
    fn rem(self, rhs: Value) -> (r: Value)
        ensures
            r@ == rem_values(self@, rhs@),
    {
        if self.get_type() != rhs.get_type() {
            return Value::from_problem(Problem::IncompatibleTypes);
        }
        if self.get_type() != Type::Num {
            return Value::from_problem(Problem::ValueError);
        }
        Value::from_number(self.as_number() % rhs.as_number())
    }
}

/// What `rem` returns is stated in its contract, over the views of the
/// values; nothing is claimed of the operator inside specifications.
impl RemSpecImpl for Value {
    open spec fn obeys_rem_spec() -> bool {
        false
    }

    open spec fn rem_req(self, rhs: Value) -> bool {
        true
    }

    open spec fn rem_spec(self, rhs: Value) -> Value {
        self
    }
}

impl Not for Value {
    type Output = Value;

    /// One for the number zero, zero for every other value.
    fn not(self) -> (r: Value)
        ensures
            r@ == not_value(self@),
    {
        match self.get_type() {
            Type::Num => {
                if self.equals(&Value::from_number(Number::from_str("0"))) {
                    Value::from_number(Number::from_str("1"))
                } else {
                    Value::from_number(Number::from_str("0"))
                }
            },
            _ => Value::from_number(Number::from_str("0")),
        }
    }
}

/// What `not` returns is stated in its contract, over the views of the
/// values; nothing is claimed of the operator inside specifications.
impl NotSpecImpl for Value {
    open spec fn obeys_not_spec() -> bool {
        false
    }

    open spec fn not_req(self) -> bool {
        true
    }

    open spec fn not_spec(self) -> Value {
        self
    }
}

/// Two values of one kind, number or string, add up to a value of that
/// kind: two numbers to the number of their sum, two strings to the string
/// of the one followed by the other. Two values of another kind add up to
/// the problem `ValueError`, two values of different kinds to the problem
/// `IncompatibleTypes`.
pub proof fn lemma_add_kinds(a: ValueView, b: ValueView)
    ensures
        a.tag == b.tag && a.tag == Type::Num ==> add_values(a, b).tag == Type::Num && add_values(
            a,
            b,
        ).contents == seq![decimal_sum(a.as_number(), b.as_number())],
        a.tag == b.tag && a.tag == Type::Str ==> add_values(a, b).tag == Type::Str && add_values(
            a,
            b,
        ) == string_value(a.as_string() + b.as_string()),
        a.tag == b.tag && a.tag != Type::Num && a.tag != Type::Str ==> add_values(a, b) == problem(
            Problem::ValueError,
        ),
        a.tag != b.tag ==> add_values(a, b) == problem(Problem::IncompatibleTypes),
{
}

/// What was put at the end of a path lies at the end of that path.
pub proof fn lemma_get_after_set(v: ValueView, names: Seq<Seq<char>>, object: ValueView)
    requires
        names.len() > 0,
    ensures
        v.set_attr_recursive(names, object).get_attr_recursive(names) == object,
    decreases names.len(),
{
    if names.len() == 1 {
        lemma_assign_same(v.attributes, names[0], object);
    } else {
        let below = v.child(names[0]).set_attr_recursive(names.drop_first(), object);
        lemma_assign_same(v.attributes, names[0], below);
        lemma_get_after_set(v.child(names[0]), names.drop_first(), object);
    }
}

/// Setting one name twice leaves what setting it once to the second value
/// leaves: one attribute under that name, at the place the name had first,
/// holding the second value.
pub proof fn lemma_set_attr_twice(
    v: ValueView,
    name: Seq<char>,
    first: ValueView,
    second: ValueView,
)
    requires
        distinct(v.attributes),
    ensures
        ({
            let once = v.set_attr_recursive(seq![name], first);
            let twice = once.set_attr_recursive(seq![name], second);
            &&& distinct(twice.attributes)
            &&& twice.attributes.len() == once.attributes.len()
            &&& position(twice.attributes, name) == position(once.attributes, name)
            &&& position(v.attributes, name) matches Some(i) ==> position(twice.attributes, name)
                == Some(i)
            &&& lookup(twice.attributes, name) == Some(second)
            &&& twice == v.set_attr_recursive(seq![name], second)
        }),
{
    let once = v.set_attr_recursive(seq![name], first);
    let twice = once.set_attr_recursive(seq![name], second);
    lemma_assign_same(v.attributes, name, second);
    lemma_assign_distinct(once.attributes, name, second);
    lemma_position_cases(once.attributes, name);
    assert(twice.attributes =~= v.set_attr_recursive(seq![name], second).attributes);
}

} // verus!
