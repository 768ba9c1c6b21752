use semantic_core::memory::Memory;
use semantic_core::types::Type;

#[test]
fn shadowing_inner_scope_wins_and_pop_restores() {
    let mut m = Memory::new();
    m.push_scope();
    m.add_variable("x", Type::Num, false);
    m.push_scope();
    m.add_variable("x", Type::Text, false);
    let inner = m.get_variable("x").expect("x visible in inner scope");
    assert_eq!(inner.kind, Type::Text);
    let popped = m.pop_scope();
    assert!(popped.is_some());
    let outer = m.get_variable("x").expect("x visible again after pop");
    assert_eq!(outer.kind, Type::Num);
}

#[test]
fn global_ids_monotonic_and_non_global_consumes_none() {
    let mut m = Memory::new();
    m.push_scope();
    assert_eq!(m.add_variable("a", Type::Num, true), Some(0));
    assert_eq!(m.add_variable("b", Type::Text, true), Some(1));
    assert_eq!(m.add_variable("local", Type::Bool, false), None);
    assert_eq!(m.add_variable("c", Type::Bool, true), Some(2));
    assert_eq!(m.get_variable("a").unwrap().global_id, Some(0));
    assert_eq!(m.get_variable("b").unwrap().global_id, Some(1));
    assert_eq!(m.get_variable("c").unwrap().global_id, Some(2));
    assert_eq!(m.get_variable("local").unwrap().global_id, None);
}

#[test]
fn global_id_survives_shadowing_in_nested_scope() {
    let mut m = Memory::new();
    m.push_scope();
    assert_eq!(m.add_variable("x", Type::Num, true), Some(0));
    m.push_scope();
    assert_eq!(m.add_variable("x", Type::Num, true), Some(1));
    m.pop_scope();
    assert_eq!(m.get_variable("x").unwrap().global_id, Some(0));
}

#[test]
fn pop_scope_on_empty_stack_reports_nothing() {
    let mut m = Memory::new();
    assert!(m.pop_scope().is_none());
    assert_eq!(m.get_depth(), 0);
}

#[test]
fn depth_tracks_push_and_pop() {
    let mut m = Memory::new();
    assert_eq!(m.get_depth(), 0);
    m.push_scope();
    m.push_scope();
    assert_eq!(m.get_depth(), 2);
    m.pop_scope();
    assert_eq!(m.get_depth(), 1);
}

#[test]
fn unresolved_variable_is_absent() {
    let mut m = Memory::new();
    m.push_scope();
    m.add_variable("x", Type::Num, false);
    assert!(m.get_variable("y").is_none());
}

#[test]
fn popped_scope_bindings_are_gone() {
    let mut m = Memory::new();
    m.push_scope();
    m.push_scope();
    m.add_variable("only_inner", Type::Num, false);
    m.pop_scope();
    assert!(m.get_variable("only_inner").is_none());
}

#[test]
fn redeclaring_variable_in_one_scope_overwrites() {
    let mut m = Memory::new();
    m.push_scope();
    m.add_variable("x", Type::Num, false);
    m.add_variable("x", Type::Bool, false);
    assert_eq!(m.get_variable("x").unwrap().kind, Type::Bool);
}

#[test]
fn available_variables_union_without_duplicates() {
    let mut m = Memory::new();
    m.push_scope();
    m.add_variable("a", Type::Num, false);
    m.add_variable("b", Type::Num, false);
    m.push_scope();
    m.add_variable("b", Type::Text, false);
    m.add_variable("c", Type::Text, false);
    let names = m.get_available_variables();
    assert_eq!(names, vec!["a".to_string(), "b".to_string(), "c".to_string()]);
}

#[test]
fn available_variables_come_sorted_by_name() {
    let mut m = Memory::new();
    m.push_scope();
    m.add_variable("zeta", Type::Num, false);
    m.add_variable("alpha", Type::Num, false);
    m.push_scope();
    m.add_variable("mid", Type::Text, false);
    let names = m.get_available_variables();
    assert_eq!(
        names,
        vec!["alpha".to_string(), "mid".to_string(), "zeta".to_string()],
    );
}
