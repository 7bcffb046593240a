use stackvm::literals::{fun, none, num, string};
use stackvm::object::Type;
use stackvm::stack::{Pair, Scope};
use stackvm::value::Value;

fn terminal() -> Scope {
    Scope::new(None)
}

fn scope_with(name: &str, value: Value) -> Scope {
    let mut s = Scope::new(None);
    s.define(name.to_string(), Pair { first: value, second: terminal() });
    s
}

#[test]
fn get_of_a_name_that_is_not_bound() {
    let mut s = Scope::new(None);
    let r = s.get("x".to_string());
    assert!(r.first == none());
    assert!(!r.second.contains(&"x".to_string()));
    assert!(!s.contains(&"x".to_string()));
}

#[test]
fn define_then_get() {
    let mut s = Scope::new(None);
    s.define("x".to_string(), Pair { first: num("1"), second: terminal() });
    assert!(s.contains(&"x".to_string()));
    assert!(s.get("x".to_string()).first == num("1"));
    s.define("x".to_string(), Pair { first: num("2"), second: terminal() });
    assert!(s.get("x".to_string()).first == num("2"));
}

#[test]
fn a_name_bound_to_nothing_is_bound() {
    let mut s = Scope::new(None);
    s.define("x".to_string(), Pair { first: none(), second: terminal() });
    assert!(s.contains(&"x".to_string()));
}

#[test]
fn get_walks_outwards() {
    let outer = scope_with("x", num("1"));
    let mut inner = Scope::new(Some(Box::new(outer)));
    assert!(inner.contains(&"x".to_string()));
    assert!(inner.get("x".to_string()).first == num("1"));
    inner.define("x".to_string(), Pair { first: num("2"), second: terminal() });
    assert!(inner.get("x".to_string()).first == num("2"));
}

#[test]
fn define_binds_in_the_scope_itself() {
    let outer = scope_with("x", num("1"));
    let mut inner = Scope::new(Some(Box::new(outer.clone())));
    inner.define("y".to_string(), Pair { first: num("2"), second: terminal() });
    assert!(inner.contains(&"y".to_string()));
    assert!(!outer.contains(&"y".to_string()));
}

#[test]
fn get_keeps_the_scope_of_a_function() {
    let captured = scope_with("free", string("kept"));
    let mut s = Scope::new(None);
    s.define("f".to_string(), Pair { first: fun(&[]), second: captured });
    let mut r = s.get("f".to_string());
    assert_eq!(r.first.get_type(), Type::Function);
    assert!(r.second.contains(&"free".to_string()));
    assert!(r.second.get("free".to_string()).first == string("kept"));
}

#[test]
fn get_drops_the_scope_of_a_value_that_is_no_function() {
    let stale = scope_with("free", string("stale"));
    let mut s = Scope::new(None);
    s.define("d".to_string(), Pair { first: num("1"), second: stale });
    let r = s.get("d".to_string());
    assert!(r.first == num("1"));
    assert!(!r.second.contains(&"free".to_string()));
}

#[test]
fn a_copy_of_a_scope_shares_nothing() {
    let mut a = scope_with("x", num("1"));
    let mut b = a.clone();
    a.define("x".to_string(), Pair { first: num("2"), second: terminal() });
    assert!(a.get("x".to_string()).first == num("2"));
    assert!(b.get("x".to_string()).first == num("1"));
}
