//! The function registry, the linkage rewrites, the bitcode naming rule,
//! the string-ABI constants and the primitive symbol names.

use filter_jit::abi::{emit_literal_globals, SeparatedStr};
use filter_jit::bitcode_files::{dep_bitcode_package_name, find_package_bitcode};
use filter_jit::jit::exec_engine::JitExecutionEngine;
use filter_jit::symbols::{comparator_symbol, field_accessor_symbol};
use filter_jit::transformations::{
    mark_all_as_private, mark_all_module_items_for_linking, replace_linked_with_private,
    Linkage, SymbolInfo, SymbolKind,
};
use filter_jit::{Field, FilterKind};

#[test]
fn registry_lifecycle() {
    let mut engine: JitExecutionEngine<u64> = JitExecutionEngine::new();
    assert!(!engine.contains_function("execute"));

    engine.add_function("execute".to_string(), 11);
    assert!(engine.contains_function("execute"));
    assert_eq!(*engine.get_function_ptr("execute"), 11);

    let removed = engine.remove_group_fn("execute");
    assert_eq!(removed, 11);
    assert!(!engine.contains_function("execute"));

    // Re-adding a function of the same name succeeds and behaves the same.
    engine.add_function("execute".to_string(), 12);
    assert!(engine.contains_function("execute"));
    assert_eq!(*engine.get_function_ptr("execute"), 12);
}

#[test]
fn registry_holds_several_names() {
    let mut engine: JitExecutionEngine<u64> = JitExecutionEngine::new();
    engine.add_function("execute".to_string(), 1);
    engine.add_function("filter".to_string(), 2);
    assert_eq!(*engine.get_function_ptr("execute"), 1);
    assert_eq!(*engine.get_function_ptr("filter"), 2);
    // Adding under a held name replaces the entry.
    engine.add_function("filter".to_string(), 3);
    assert_eq!(*engine.get_function_ptr("filter"), 3);
    assert_eq!(engine.remove_group_fn("execute"), 1);
    assert!(!engine.contains_function("execute"));
    assert!(engine.contains_function("filter"));
}

fn symbol(kind: SymbolKind, linkage: Linkage, is_declaration: bool) -> SymbolInfo {
    SymbolInfo { kind, linkage, is_declaration }
}

#[test]
fn promotion_marks_everything_linkonce() {
    let mut syms = vec![
        symbol(SymbolKind::Global, Linkage::External, false),
        symbol(SymbolKind::Function, Linkage::Private, false),
        symbol(SymbolKind::GlobalAlias, Linkage::Other, false),
        symbol(SymbolKind::Function, Linkage::External, true),
    ];
    mark_all_module_items_for_linking(&mut syms);
    for s in &syms {
        assert_eq!(s.linkage, Linkage::LinkOnceAny);
    }
}

#[test]
fn demotion_turns_linked_private_and_keeps_the_rest() {
    let mut syms = vec![
        symbol(SymbolKind::Global, Linkage::LinkOnceAny, false),
        symbol(SymbolKind::Function, Linkage::External, false),
        symbol(SymbolKind::GlobalIFunc, Linkage::Other, false),
        symbol(SymbolKind::Function, Linkage::LinkOnceAny, true),
    ];
    replace_linked_with_private(&mut syms);
    assert_eq!(syms[0].linkage, Linkage::Private);
    assert_eq!(syms[1].linkage, Linkage::External);
    assert_eq!(syms[2].linkage, Linkage::Other);
    assert_eq!(syms[3].linkage, Linkage::Private);
}

#[test]
fn internalisation_keeps_only_external_hooks() {
    let mut syms = vec![
        // a defined function: always private afterwards
        symbol(SymbolKind::Function, Linkage::External, false),
        // a declared function: left for the host to satisfy
        symbol(SymbolKind::Function, Linkage::External, true),
        // an external global: preserved
        symbol(SymbolKind::Global, Linkage::External, false),
        // an internal global: private
        symbol(SymbolKind::Global, Linkage::Other, false),
        symbol(SymbolKind::GlobalAlias, Linkage::LinkOnceAny, false),
    ];
    mark_all_as_private(&mut syms);
    assert_eq!(syms[0].linkage, Linkage::Private);
    assert_eq!(syms[1].linkage, Linkage::External);
    assert_eq!(syms[2].linkage, Linkage::External);
    assert_eq!(syms[3].linkage, Linkage::Private);
    assert_eq!(syms[4].linkage, Linkage::Private);
}

#[test]
fn bitcode_name_is_recognised() {
    assert_eq!(
        dep_bitcode_package_name("functions-0123456789abcdef.bc"),
        Some("functions".to_string())
    );
    assert_eq!(
        dep_bitcode_package_name("x-aaaaaaaaaaaaaaaa.bc"),
        Some("x".to_string())
    );
    // a name with its own dashes keeps everything before the hash
    assert_eq!(
        dep_bitcode_package_name("my-lib-0123456789abcdef.bc"),
        Some("my-lib".to_string())
    );
}

#[test]
fn bitcode_name_with_multibyte_package() {
    assert_eq!(
        dep_bitcode_package_name("caf\u{e9}-0123456789abcdef.bc"),
        Some("caf\u{e9}".to_string())
    );
}

#[test]
fn linkage_passes_accept_empty_modules() {
    let mut syms: Vec<SymbolInfo> = Vec::new();
    mark_all_module_items_for_linking(&mut syms);
    replace_linked_with_private(&mut syms);
    mark_all_as_private(&mut syms);
    assert!(syms.is_empty());
}

#[test]
fn bitcode_name_is_rejected() {
    assert_eq!(dep_bitcode_package_name("functions.bc"), None);
    assert_eq!(dep_bitcode_package_name("-0123456789abcdef.bc"), None);
    assert_eq!(dep_bitcode_package_name("functions-0123456789abcdef.ll"), None);
    assert_eq!(dep_bitcode_package_name("functions-0123456789abcde.bc"), None);
    assert_eq!(dep_bitcode_package_name(""), None);
}

#[test]
fn package_bitcode_is_found_among_deps() {
    let files = vec![
        "core-aaaaaaaaaaaaaaaa.bc".to_string(),
        "alloc-bbbbbbbbbbbbbbbb.bc".to_string(),
        "functions-cccccccccccccccc.bc".to_string(),
        "shared-dddddddddddddddd.bc".to_string(),
    ];
    assert_eq!(find_package_bitcode(&files, "functions"), Some(2));
    assert_eq!(find_package_bitcode(&files, "runner"), None);
}

#[test]
fn separated_str_carries_utf8_bytes() {
    let s = SeparatedStr::from_literal("example.com");
    assert_eq!(s.len, 11);
    assert_eq!(s.bytes, b"example.com".to_vec());

    let empty = SeparatedStr::from_literal("");
    assert_eq!(empty.len, 0);
    assert!(empty.bytes.is_empty());

    // a two-byte character counts two bytes, not one
    let accented = SeparatedStr::from_literal("caf\u{e9}");
    assert_eq!(accented.len, 5);
}

#[test]
fn literal_globals_follow_emission_order() {
    let lits = vec!["one".to_string(), "".to_string(), "three".to_string()];
    let globals = emit_literal_globals(&lits);
    assert_eq!(globals.len(), 3);
    assert_eq!(globals[0].bytes, b"one".to_vec());
    assert_eq!(globals[1].len, 0);
    assert_eq!(globals[2].bytes, b"three".to_vec());
}

#[test]
fn primitive_symbols_by_field_and_kind() {
    assert_eq!(field_accessor_symbol(Field::Email), "user_get_field_email");
    assert_eq!(field_accessor_symbol(Field::PhoneNumber), "user_get_field_phone_number");
    assert_eq!(
        field_accessor_symbol(Field::LocationStreet),
        "user_get_field_location_street"
    );
    assert_eq!(field_accessor_symbol(Field::Picture), "user_get_field_picture");
    assert_eq!(comparator_symbol(FilterKind::StrContains), "filter_str_contains");
    assert_eq!(comparator_symbol(FilterKind::StrEquals), "filter_str_equals");
    assert_eq!(comparator_symbol(FilterKind::StrStartsWith), "filter_str_starts_with");
    assert_eq!(comparator_symbol(FilterKind::StrEndsWith), "filter_str_ends_with");
}
