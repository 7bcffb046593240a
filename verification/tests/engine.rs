use stackvm::error::FaultKind;
use stackvm::literals::{empty_obj, foreign_function, fun, ins, list, none, num, string};
use stackvm::object::{Instruction, Problem, Type};
use stackvm::stack::{Pair, Scope, StackFrame};
use stackvm::value::Value;

fn no_host(_id: u64, v: Value) -> Value {
    v
}

fn run(program: &[Value]) -> StackFrame {
    let mut frame = StackFrame::from_instructions(fun(program));
    frame.run(&no_host).unwrap();
    frame
}

fn output(program: &[Value]) -> String {
    run(program).output()
}

fn fault(program: &[Value]) -> FaultKind {
    let mut frame = StackFrame::from_instructions(fun(program));
    frame.run(&no_host).unwrap_err().kind
}

fn top(frame: &StackFrame) -> Value {
    let contents = frame.contents();
    contents[contents.len() - 1].first.clone()
}

#[test]
fn a_new_frame_is_empty() {
    let frame = StackFrame::from_instructions(fun(&[]));
    assert!(frame.is_empty());
    assert!(!frame.has_outer_stack());
    assert_eq!(frame.number_of_args_taken(), 0);
    assert_eq!(frame.output(), "");
    assert_eq!(frame.budget(), u64::MAX);
    let inner = StackFrame::new(Some(Box::new(frame)), Scope::new(None), fun(&[]));
    assert!(inner.has_outer_stack());
    assert!(inner.is_empty());
}

#[test]
fn literals_are_put_on_the_stack() {
    let frame = run(&[num("1"), string("a"), none(), ins(Instruction::Pass)]);
    let contents = frame.contents();
    assert_eq!(contents.len(), 4);
    assert!(contents[0].first == num("1"));
    assert!(contents[1].first == string("a"));
    assert!(contents[2].first == none());
    assert!(contents[3].first == ins(Instruction::Pass));
}

#[test]
fn print_and_println() {
    assert_eq!(output(&[string("a"), ins(Instruction::Print), num("1"), ins(Instruction::Println)]), "a1\n");
    assert_eq!(output(&[list(&[string("a"), num("1")]), ins(Instruction::Println)]), "[a, 1]\n");
}

#[test]
fn arithmetic_takes_the_topmost_operand_first() {
    assert_eq!(output(&[num("2"), num("5"), ins(Instruction::Sub), ins(Instruction::Print)]), "3");
    assert_eq!(output(&[num("2"), num("6"), ins(Instruction::Div), ins(Instruction::Print)]), "3");
    assert_eq!(output(&[num("4"), num("7"), ins(Instruction::Mod), ins(Instruction::Print)]), "3");
    assert_eq!(output(&[num("2"), num("5"), ins(Instruction::Add), ins(Instruction::Print)]), "7");
    assert_eq!(output(&[num("2"), num("5"), ins(Instruction::Mul), ins(Instruction::Print)]), "10");
    assert_eq!(output(&[string("b"), string("a"), ins(Instruction::Add), ins(Instruction::Print)]), "ab");
}

#[test]
fn mismatched_arithmetic_leaves_a_problem() {
    let frame = run(&[string("b"), num("1"), ins(Instruction::Add)]);
    assert_eq!(top(&frame).get_type(), Type::Problem(Problem::IncompatibleTypes));
    let frame = run(&[none(), none(), ins(Instruction::Add)]);
    assert_eq!(top(&frame).get_type(), Type::Problem(Problem::ValueError));
}

#[test]
fn comparisons() {
    assert_eq!(output(&[num("1"), num("1.0"), ins(Instruction::Equal), ins(Instruction::Print)]), "1");
    assert_eq!(output(&[num("1"), num("2"), ins(Instruction::Equal), ins(Instruction::Print)]), "0");
    assert_eq!(output(&[num("1"), num("2"), ins(Instruction::Greater), ins(Instruction::Print)]), "1");
    assert_eq!(output(&[num("2"), num("1"), ins(Instruction::Greater), ins(Instruction::Print)]), "0");
    assert_eq!(output(&[num("2"), num("1"), ins(Instruction::Less), ins(Instruction::Print)]), "1");
    assert_eq!(output(&[num("1"), num("2"), ins(Instruction::Less), ins(Instruction::Print)]), "0");
    assert_eq!(output(&[num("2"), num("2"), ins(Instruction::Less), ins(Instruction::Print)]), "0");
}

#[test]
fn not() {
    assert_eq!(output(&[num("0"), ins(Instruction::Not), ins(Instruction::Print)]), "1");
    assert_eq!(output(&[num("3"), ins(Instruction::Not), ins(Instruction::Print)]), "0");
    assert_eq!(output(&[string("x"), ins(Instruction::Not), ins(Instruction::Print)]), "0");
}

#[test]
fn if_leaves_one_branch() {
    assert_eq!(output(&[string("no"), string("yes"), num("1"), ins(Instruction::If), ins(Instruction::Print)]), "yes");
    assert_eq!(output(&[string("no"), string("yes"), num("0"), ins(Instruction::If), ins(Instruction::Print)]), "no");
    assert_eq!(output(&[string("no"), string("yes"), none(), ins(Instruction::If), ins(Instruction::Print)]), "no");
    assert_eq!(output(&[string("no"), string("yes"), string(""), ins(Instruction::If), ins(Instruction::Print)]), "yes");
    let frame = run(&[string("no"), string("yes"), num("1"), ins(Instruction::If)]);
    assert_eq!(frame.contents().len(), 1);
}

#[test]
fn append_pop_index() {
    assert_eq!(output(&[num("3"), list(&[num("1")]), ins(Instruction::Append), ins(Instruction::Print)]), "[1, 3]");
    assert_eq!(output(&[list(&[num("1"), num("2")]), ins(Instruction::Pop), ins(Instruction::Print)]), "2");
    assert_eq!(output(&[list(&[]), ins(Instruction::Pop), ins(Instruction::Print)]), "None");
    assert_eq!(output(&[num("1"), list(&[num("7"), num("8")]), ins(Instruction::Index), ins(Instruction::Print)]), "8");
    assert_eq!(output(&[num("1"), string("abc"), ins(Instruction::Index), ins(Instruction::Print)]), "b");
    assert_eq!(output(&[num("9"), string("abc"), ins(Instruction::Index), ins(Instruction::Print)]), "OutOfRange");
    assert_eq!(output(&[num("9"), list(&[]), ins(Instruction::Index), ins(Instruction::Print)]), "OutOfRange");
    assert_eq!(output(&[num("0"), num("5"), ins(Instruction::Index), ins(Instruction::Print)]), "ValueError");
}

#[test]
fn store_and_load() {
    assert_eq!(
        output(&[num("5"), string("x"), ins(Instruction::Store), string("x"), ins(Instruction::Load), ins(Instruction::Print)]),
        "5"
    );
    let frame = run(&[num("5"), string("x"), ins(Instruction::Store)]);
    assert!(frame.is_empty());
    assert!(frame.scope().contains(&"x".to_string()));
}

#[test]
fn load_of_a_name_that_is_not_bound_takes_the_topmost_value() {
    let frame = run(&[num("7"), string("x"), ins(Instruction::Load)]);
    assert_eq!(frame.contents().len(), 1);
    assert!(top(&frame) == num("7"));
    assert!(frame.scope().get("x".to_string()).first == num("7"));
}

#[test]
fn load_of_a_name_that_is_not_bound_on_an_empty_stack_is_a_fault() {
    assert_eq!(fault(&[string("x"), ins(Instruction::Load)]), FaultKind::StackUnderflow);
}

#[test]
fn pop_on_an_empty_stack_without_parent_is_a_fault() {
    let mut frame = StackFrame::from_instructions(fun(&[]));
    let r = frame.pop();
    assert_eq!(r.unwrap_err().kind, FaultKind::StackUnderflow);
    let r = frame.pop_value();
    assert_eq!(r.unwrap_err().kind, FaultKind::StackUnderflow);
    assert!(frame.is_empty());
    assert_eq!(fault(&[ins(Instruction::Print)]), FaultKind::StackUnderflow);
    assert_eq!(fault(&[num("1"), ins(Instruction::Add)]), FaultKind::StackUnderflow);
}

#[test]
fn push_and_pop() {
    let mut frame = StackFrame::from_instructions(fun(&[]));
    frame.push_value(num("1"));
    frame.push(Pair { first: num("2"), second: Scope::new(None) });
    assert_eq!(frame.contents().len(), 2);
    assert!(frame.pop().unwrap().first == num("2"));
    assert!(frame.pop_value().unwrap() == num("1"));
    assert!(frame.is_empty());
    assert_eq!(frame.number_of_args_taken(), 0);
}

#[test]
fn pop_on_an_empty_stack_takes_from_the_parent() {
    let mut parent = StackFrame::from_instructions(fun(&[]));
    parent.push_value(num("1"));
    parent.push_value(num("2"));
    let mut child = StackFrame::new(Some(Box::new(parent)), Scope::new(None), fun(&[]));
    assert!(child.pop_value().unwrap() == num("2"));
    assert_eq!(child.number_of_args_taken(), 1);
    child.push_value(num("9"));
    assert!(child.pop_value().unwrap() == num("9"));
    assert_eq!(child.number_of_args_taken(), 1);
    assert!(child.pop().unwrap().first == num("1"));
    assert_eq!(child.number_of_args_taken(), 2);
    assert_eq!(child.pop().unwrap_err().kind, FaultKind::StackUnderflow);
    assert_eq!(child.number_of_args_taken(), 2);
}

#[test]
fn pop_reaches_through_a_chain_of_parents() {
    let mut root = StackFrame::from_instructions(fun(&[]));
    root.push_value(num("1"));
    let middle = StackFrame::new(Some(Box::new(root)), Scope::new(None), fun(&[]));
    let mut child = StackFrame::new(Some(Box::new(middle)), Scope::new(None), fun(&[]));
    assert!(child.pop_value().unwrap() == num("1"));
    assert_eq!(child.number_of_args_taken(), 1);
}

#[test]
fn a_callee_that_loads_two_names_takes_two_values_of_the_caller() {
    let body = fun(&[
        string("a"),
        ins(Instruction::Load),
        string("r"),
        ins(Instruction::Store),
        string("b"),
        ins(Instruction::Load),
        string("s"),
        ins(Instruction::Store),
    ]);
    let mut caller = StackFrame::from_instructions(fun(&[]));
    caller.push_value(num("1"));
    caller.push_value(num("2"));
    let mut callee = StackFrame::new(Some(Box::new(caller.clone())), Scope::new(None), body.clone());
    callee.run(&no_host).unwrap();
    assert_eq!(callee.number_of_args_taken(), 2);
    assert!(callee.is_empty());
    assert!(callee.scope().get("r".to_string()).first == num("2"));
    assert!(callee.scope().get("s".to_string()).first == num("1"));

    caller.push_value(num("3"));
    let before = caller.contents().len();
    caller.call(&no_host, Pair { first: body, second: Scope::new(None) }).unwrap();
    assert_eq!(caller.contents().len(), before - 2);
    assert!(top(&caller) == num("1"));
}

#[test]
fn call_gives_the_caller_what_the_callee_left_in_order() {
    let frame = run(&[num("0"), fun(&[num("1"), num("2"), num("3")]), ins(Instruction::Call)]);
    let contents = frame.contents();
    assert_eq!(contents.len(), 4);
    assert!(contents[0].first == num("0"));
    assert!(contents[1].first == num("1"));
    assert!(contents[2].first == num("2"));
    assert!(contents[3].first == num("3"));
}

#[test]
fn call_with_arguments() {
    let add = fun(&[ins(Instruction::Add)]);
    assert_eq!(output(&[num("2"), num("3"), add, ins(Instruction::Call), ins(Instruction::Print)]), "5");
    let frame = run(&[num("9"), num("2"), num("3"), fun(&[ins(Instruction::Add)]), ins(Instruction::Call)]);
    assert_eq!(frame.contents().len(), 2);
    assert!(top(&frame) == num("5"));
}

#[test]
fn output_of_a_callee_reaches_the_caller() {
    assert_eq!(
        output(&[string("a"), ins(Instruction::Print), fun(&[string("b"), ins(Instruction::Print)]), ins(Instruction::Call), string("c"), ins(Instruction::Print)]),
        "abc"
    );
}

#[test]
fn a_function_resolves_names_in_the_scope_it_was_stored_with() {
    let program = [
        num("1"),
        string("x"),
        ins(Instruction::Store),
        fun(&[string("x"), ins(Instruction::Load)]),
        string("f"),
        ins(Instruction::Store),
        num("2"),
        string("x"),
        ins(Instruction::Store),
        string("f"),
        ins(Instruction::Load),
        ins(Instruction::Call),
        ins(Instruction::Println),
        string("x"),
        ins(Instruction::Load),
        ins(Instruction::Println),
    ];
    assert_eq!(output(&program), "1\n2\n");
}

#[test]
fn a_value_that_is_no_function_is_stored_without_scope() {
    let frame = run(&[num("1"), string("x"), ins(Instruction::Store), num("2"), string("y"), ins(Instruction::Store)]);
    let mut scope = frame.scope();
    let y = scope.get("y".to_string());
    assert!(y.first == num("2"));
    assert!(!y.second.contains(&"x".to_string()));
}

#[test]
fn while_runs_until_the_condition_is_false() {
    let condition = fun(&[string("x"), ins(Instruction::Load)]);
    let body = fun(&[
        string("x"),
        ins(Instruction::Load),
        ins(Instruction::Println),
        num("1"),
        string("x"),
        ins(Instruction::Load),
        ins(Instruction::Sub),
        string("x"),
        ins(Instruction::Store),
    ]);
    let program = [num("3"), string("x"), ins(Instruction::Store), body, condition, ins(Instruction::While)];
    let frame = run(&program);
    assert_eq!(frame.output(), "3\n2\n1\n");
    assert!(frame.is_empty());
}

#[test]
fn while_stops_at_once_on_zero_and_on_nothing() {
    let body = fun(&[string("turn"), ins(Instruction::Print)]);
    assert_eq!(output(&[body.clone(), fun(&[num("0")]), ins(Instruction::While)]), "");
    assert_eq!(output(&[body, fun(&[none()]), ins(Instruction::While)]), "");
}

#[test]
fn while_function_runs_in_the_frame_itself() {
    let mut frame = StackFrame::from_instructions(fun(&[]));
    frame.push_value(num("0"));
    frame.push_value(num("5"));
    frame.while_function(&no_host, fun(&[]), fun(&[string("t"), ins(Instruction::Print)])).unwrap();
    assert_eq!(frame.output(), "t");
    assert!(frame.is_empty());
}

#[test]
fn a_loop_without_end_uses_up_the_budget() {
    let mut frame = StackFrame::from_instructions(fun(&[fun(&[]), fun(&[num("1")]), ins(Instruction::While)]));
    frame.set_budget(100);
    let r = frame.run(&no_host);
    assert_eq!(r.unwrap_err().kind, FaultKind::BudgetExhausted);
    assert_eq!(frame.budget(), 0);
}

#[test]
fn a_callee_shares_the_budget_of_its_caller() {
    let program = [fun(&[num("1"), num("2")]), ins(Instruction::Call)];
    let mut frame = StackFrame::from_instructions(fun(&program));
    frame.set_budget(3);
    let r = frame.run(&no_host);
    assert_eq!(r.unwrap_err().kind, FaultKind::BudgetExhausted);
    assert_eq!(frame.budget(), 0);
    let mut frame = StackFrame::from_instructions(fun(&program));
    frame.set_budget(5);
    frame.run(&no_host).unwrap();
    assert_eq!(frame.budget(), 1);
    assert_eq!(frame.contents().len(), 2);
}

#[test]
fn a_function_does_not_see_names_bound_after_it_was_made() {
    let program = [
        fun(&[string("f"), ins(Instruction::Load)]),
        string("f"),
        ins(Instruction::Store),
        string("f"),
        ins(Instruction::Load),
        ins(Instruction::Call),
    ];
    assert_eq!(fault(&program), FaultKind::StackUnderflow);
}

#[test]
fn every_step_costs_one_unit_of_budget() {
    let mut frame = StackFrame::from_instructions(fun(&[num("1"), num("2"), ins(Instruction::Add)]));
    frame.set_budget(10);
    frame.run(&no_host).unwrap();
    assert_eq!(frame.budget(), 7);
    let mut frame = StackFrame::from_instructions(fun(&[num("1"), num("2"), ins(Instruction::Add)]));
    frame.set_budget(2);
    let r = frame.run(&no_host);
    assert_eq!(r.unwrap_err().kind, FaultKind::BudgetExhausted);
    assert_eq!(frame.contents().len(), 2);
}

#[test]
fn step_does_one_instruction() {
    let mut frame = StackFrame::from_instructions(fun(&[]));
    frame.step(&no_host, num("4")).unwrap();
    frame.step(&no_host, num("5")).unwrap();
    frame.step(&no_host, ins(Instruction::Add)).unwrap();
    assert!(top(&frame) == num("9"));
    assert_eq!(frame.contents().len(), 1);
}

#[test]
fn get_attr_walks_a_path() {
    let mut inner = empty_obj();
    inner.set_attr("b".to_string(), num("5"));
    let mut instance = empty_obj();
    instance.set_attr("a".to_string(), inner);
    let frame = run(&[instance, string("a"), string("b"), ins(Instruction::GetAttr)]);
    assert_eq!(frame.contents().len(), 1);
    assert!(top(&frame) == num("5"));
}

#[test]
fn set_attr_puts_the_value_at_the_end_of_a_path() {
    let mut inner = empty_obj();
    inner.set_attr("b".to_string(), num("5"));
    let mut instance = empty_obj();
    instance.set_attr("a".to_string(), inner);
    let frame = run(&[num("9"), instance, string("a"), string("b"), ins(Instruction::SetAttr)]);
    assert_eq!(frame.contents().len(), 1);
    let mut result = top(&frame);
    assert_eq!(result.format(), "<a:<b:9>>");
    assert!(result.get_attr_recursive(vec!["a".to_string(), "b".to_string()]).unwrap() == num("9"));
}

#[test]
fn attribute_paths_in_a_program() {
    let program = [
        string("hey jude"),
        empty_obj(),
        string("a"),
        string("b"),
        string("c"),
        string("d"),
        ins(Instruction::SetAttr),
        string("self"),
        ins(Instruction::Store),
        string("self"),
        ins(Instruction::Load),
        ins(Instruction::Println),
        string("self"),
        ins(Instruction::Load),
        string("a"),
        string("b"),
        string("c"),
        string("d"),
        ins(Instruction::GetAttr),
        ins(Instruction::Println),
    ];
    assert_eq!(output(&program), "<a:<b:<c:<d:hey jude>>>>\nhey jude\n");
}

#[test]
fn get_attr_without_instance_is_a_fault() {
    assert_eq!(fault(&[string("a"), ins(Instruction::GetAttr)]), FaultKind::MissingInstance);
    assert_eq!(fault(&[ins(Instruction::GetAttr)]), FaultKind::MissingInstance);
    assert_eq!(fault(&[num("1"), string("a"), ins(Instruction::SetAttr)]), FaultKind::MissingInstance);
}

#[test]
fn a_fault_carries_the_stack_of_its_frame() {
    let mut frame = StackFrame::from_instructions(fun(&[num("1"), string("a"), ins(Instruction::GetAttr)]));
    let fault = frame.run(&no_host).unwrap_err();
    assert_eq!(fault.kind, FaultKind::MissingInstance);
    assert_eq!(fault.stack.len(), 2);
    assert!(fault.stack[0].first == num("1"));
    assert!(fault.stack[1].first == string("a"));
}

#[test]
fn get_attr_without_name_is_a_fault() {
    assert_eq!(fault(&[empty_obj(), ins(Instruction::GetAttr)]), FaultKind::EmptyAttributeChain);
    assert_eq!(fault(&[num("1"), empty_obj(), ins(Instruction::SetAttr)]), FaultKind::EmptyAttributeChain);
}

#[test]
fn set_attr_without_value_beneath_the_instance_is_a_fault() {
    assert_eq!(fault(&[empty_obj(), string("a"), ins(Instruction::SetAttr)]), FaultKind::TooFewItems);
}

#[test]
fn a_fault_in_a_callee_ends_the_run() {
    let mut frame = StackFrame::from_instructions(fun(&[
        string("before"),
        ins(Instruction::Print),
        fun(&[string("a"), ins(Instruction::GetAttr)]),
        ins(Instruction::Call),
        string("after"),
        ins(Instruction::Print),
    ]));
    let fault = frame.run(&no_host).unwrap_err();
    assert_eq!(fault.kind, FaultKind::MissingInstance);
    assert_eq!(frame.output(), "before");
}

#[test]
fn messages_of_the_faults() {
    assert_eq!(FaultKind::StackUnderflow.message(), "Could not pop off of stack");
    assert_eq!(FaultKind::MissingInstance.message(), "No instance to set attribute of");
    assert_eq!(FaultKind::TooFewItems.message(), "Too few items on stack to set attribute");
    assert_eq!(
        FaultKind::EmptyAttributeChain.message(),
        "Could not set attribute of object without the attribute name"
    );
    assert_eq!(FaultKind::BudgetExhausted.message(), "Step budget exhausted");
    assert_eq!(FaultKind::ArgumentLimit.message(), "Too many arguments taken from the calling stack");
}

#[test]
fn execute_hands_the_argument_to_the_host() {
    let host = |id: u64, v: Value| if id == 1 { v + num("1") } else { string("other") };
    let mut frame = StackFrame::from_instructions(fun(&[num("4"), foreign_function(1), ins(Instruction::Execute), ins(Instruction::Print)]));
    frame.run(&host).unwrap();
    assert_eq!(frame.output(), "5");
    let mut frame = StackFrame::from_instructions(fun(&[num("4"), foreign_function(2), ins(Instruction::Execute), ins(Instruction::Print)]));
    frame.run(&host).unwrap();
    assert_eq!(frame.output(), "other");
}

#[test]
fn execute_of_a_value_that_is_no_native_function_leaves_the_argument() {
    assert_eq!(output(&[num("4"), num("0"), ins(Instruction::Execute), ins(Instruction::Print)]), "4");
}

#[test]
fn a_copy_of_a_frame_shares_nothing() {
    let mut a = StackFrame::from_instructions(fun(&[]));
    a.push_value(num("1"));
    let b = a.clone();
    a.push_value(num("2"));
    assert_eq!(a.contents().len(), 2);
    assert_eq!(b.contents().len(), 1);
}

#[test]
fn load_and_store_on_a_frame() {
    let mut frame = StackFrame::from_instructions(fun(&[]));
    frame.store("n".to_string(), Pair { first: num("3"), second: Scope::new(None) });
    assert!(frame.load("n".to_string()).unwrap().first == num("3"));
    frame.push_value(string("arg"));
    assert!(frame.load("p".to_string()).unwrap().first == string("arg"));
    assert!(frame.is_empty());
    assert!(frame.load("p".to_string()).unwrap().first == string("arg"));
    assert_eq!(frame.load("q".to_string()).unwrap_err().kind, FaultKind::StackUnderflow);
}
