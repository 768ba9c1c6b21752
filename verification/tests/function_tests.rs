use semantic_core::block::Block;
use semantic_core::decl::{FunctionDecl, FunctionDeclSyntax};
use semantic_core::memory::Memory;
use semantic_core::metadata::ParserMetadata;
use semantic_core::types::Type;

fn sample_decl(name: &str, is_public: bool, id: usize) -> FunctionDecl {
    FunctionDecl {
        name: name.to_string(),
        args: vec![("x".to_string(), Type::Num)],
        return_type: Type::Num,
        body: vec![],
        meta: ParserMetadata::new(vec![]),
        typed: true,
        is_public,
        id,
    }
}

fn sample_syntax(name: &str, arg_kind: Type, is_public: bool) -> FunctionDeclSyntax {
    FunctionDeclSyntax {
        name: name.to_string(),
        args: vec![("x".to_string(), arg_kind)],
        return_type: Type::Num,
        body: vec![],
        is_public,
    }
}

#[test]
fn add_existing_declaration_reports_new_then_conflict() {
    let mut m = Memory::new();
    m.push_scope();
    assert!(m.add_existing_function_declaration(sample_decl("f", false, 0)));
    assert!(!m.add_existing_function_declaration(sample_decl("f", false, 1)));
}

#[test]
fn redeclaration_overwrites_at_storage_layer() {
    let mut m = Memory::new();
    m.push_scope();
    m.add_existing_function_declaration(sample_decl("f", false, 0));
    m.add_existing_function_declaration(sample_decl("f", false, 7));
    assert_eq!(m.get_function("f").unwrap().id, 7);
}

#[test]
fn add_function_declaration_returns_fresh_ids() {
    let mut m = Memory::new();
    m.push_scope();
    let id_f = m.add_function_declaration(ParserMetadata::new(vec![]), sample_syntax("f", Type::Num, false));
    let id_g = m.add_function_declaration(ParserMetadata::new(vec![]), sample_syntax("g", Type::Num, false));
    assert_eq!(id_f, Some(0));
    assert_eq!(id_g, Some(1));
}

#[test]
fn add_function_declaration_conflict_reports_none() {
    let mut m = Memory::new();
    m.push_scope();
    assert_eq!(
        m.add_function_declaration(ParserMetadata::new(vec![]), sample_syntax("f", Type::Num, false)),
        Some(0),
    );
    assert_eq!(
        m.add_function_declaration(ParserMetadata::new(vec![]), sample_syntax("f", Type::Num, false)),
        None,
    );
}

#[test]
fn typed_flag_false_iff_some_parameter_is_generic() {
    let mut m = Memory::new();
    m.push_scope();
    m.add_function_declaration(ParserMetadata::new(vec![]), sample_syntax("generic", Type::Generic, false));
    m.add_function_declaration(ParserMetadata::new(vec![]), sample_syntax("concrete", Type::Num, false));
    assert!(!m.get_function("generic").unwrap().typed);
    assert!(m.get_function("concrete").unwrap().typed);
}

#[test]
fn function_shadowing_across_scopes() {
    let mut m = Memory::new();
    m.push_scope();
    m.add_existing_function_declaration(sample_decl("f", false, 0));
    m.push_scope();
    m.add_existing_function_declaration(sample_decl("f", false, 1));
    assert_eq!(m.get_function("f").unwrap().id, 1);
    m.pop_scope();
    assert_eq!(m.get_function("f").unwrap().id, 0);
}

#[test]
fn unresolved_function_is_absent() {
    let mut m = Memory::new();
    m.push_scope();
    assert!(m.get_function("missing").is_none());
}

#[test]
fn instance_cache_one_entry_per_signature() {
    let mut m = Memory::new();
    m.push_scope();
    let id = m
        .add_function_declaration(ParserMetadata::new(vec![]), sample_syntax("f", Type::Generic, false))
        .unwrap();

    // first call site: f(1) — a miss for (Num), so an instance is stored
    let num_args = vec![Type::Num];
    assert_eq!(m.function_map.find_instance(id, &num_args), None);
    m.add_function_instance(id, &num_args, Type::Num, Block::new());

    // second call site: f(2) — same signature hits the cache, nothing stored
    assert_eq!(m.function_map.find_instance(id, &num_args), Some(0));

    // third call site: f("a") — a distinct signature misses and is stored
    let text_args = vec![Type::Text];
    assert_eq!(m.function_map.find_instance(id, &text_args), None);
    m.add_function_instance(id, &text_args, Type::Text, Block::new());

    let instances = m.get_function_instances(id).unwrap();
    assert_eq!(instances.len(), 2);
    assert_eq!(instances[0].args, vec![Type::Num]);
    assert_eq!(instances[1].args, vec![Type::Text]);
}

#[test]
fn instance_indices_count_per_id() {
    let mut m = Memory::new();
    m.push_scope();
    let f = m
        .add_function_declaration(ParserMetadata::new(vec![]), sample_syntax("f", Type::Generic, false))
        .unwrap();
    let g = m
        .add_function_declaration(ParserMetadata::new(vec![]), sample_syntax("g", Type::Generic, false))
        .unwrap();
    assert_eq!(m.add_function_instance(f, &vec![Type::Num], Type::Num, Block::new()), 0);
    assert_eq!(m.add_function_instance(f, &vec![Type::Text], Type::Text, Block::new()), 1);
    assert_eq!(m.add_function_instance(g, &vec![Type::Num], Type::Num, Block::new()), 0);
    assert_eq!(m.get_function_instances(f).unwrap().len(), 2);
    assert_eq!(m.get_function_instances(g).unwrap().len(), 1);
}

#[test]
fn instances_of_unknown_id_are_absent() {
    let m = Memory::new();
    assert!(m.get_function_instances(3).is_none());
}

#[test]
fn public_function_exported_exactly_once() {
    let mut m = Memory::new();
    m.push_scope();
    m.add_existing_function_declaration(sample_decl("api", true, 0));
    assert_eq!(m.exports.functions.len(), 1);
    assert_eq!(m.exports.functions[0].name, "api");
}

#[test]
fn private_function_never_exported() {
    let mut m = Memory::new();
    m.push_scope();
    m.add_existing_function_declaration(sample_decl("helper", false, 0));
    // redeclaring and shadowing a private function adds nothing either
    m.add_existing_function_declaration(sample_decl("helper", false, 1));
    m.push_scope();
    m.add_existing_function_declaration(sample_decl("helper", false, 2));
    assert_eq!(m.exports.functions.len(), 0);
}

#[test]
fn exports_accumulate_across_scopes() {
    let mut m = Memory::new();
    m.push_scope();
    m.add_function_declaration(ParserMetadata::new(vec![]), sample_syntax("a", Type::Num, true));
    m.push_scope();
    m.add_function_declaration(ParserMetadata::new(vec![]), sample_syntax("b", Type::Num, true));
    m.pop_scope();
    assert_eq!(m.exports.functions.len(), 2);
}

#[test]
fn set_function_map_copies_other_context() {
    let mut outer = Memory::new();
    outer.push_scope();
    let id = outer
        .add_function_declaration(ParserMetadata::new(vec![]), sample_syntax("f", Type::Generic, false))
        .unwrap();
    outer.add_function_instance(id, &vec![Type::Num], Type::Num, Block::new());

    let mut nested = Memory::new();
    nested.set_function_map(&outer);
    assert_eq!(nested.get_function_instances(id).unwrap().len(), 1);
}

#[test]
fn available_functions_union_without_duplicates() {
    let mut m = Memory::new();
    m.push_scope();
    m.add_existing_function_declaration(sample_decl("f", false, 0));
    m.push_scope();
    m.add_existing_function_declaration(sample_decl("f", false, 1));
    m.add_existing_function_declaration(sample_decl("g", false, 2));
    let names = m.get_available_functions();
    assert_eq!(names, vec!["f".to_string(), "g".to_string()]);
}

#[test]
fn available_functions_come_sorted_by_name() {
    let mut m = Memory::new();
    m.push_scope();
    m.add_existing_function_declaration(sample_decl("walk", false, 0));
    m.add_existing_function_declaration(sample_decl("eat", false, 1));
    m.push_scope();
    m.add_existing_function_declaration(sample_decl("sleep", false, 2));
    let names = m.get_available_functions();
    assert_eq!(
        names,
        vec!["eat".to_string(), "sleep".to_string(), "walk".to_string()],
    );
}
