use cranelift_codegen::ir::Signature;
use cranelift_codegen::isa::{lookup_by_name, CallConv, TargetFrontendConfig};
use cranelift_codegen::settings;
use cranelift_module::{DataId, FuncId, FuncOrDataId, ModuleDeclarations};
use lucetc_decls::backend::{Linkage, SymbolId};
use lucetc_decls::bindings::Bindings;
use lucetc_decls::decls::{DeclError, EntityKind, ModuleDecls, Refusal};
use lucetc_decls::module_info::{Exportable, FunctionBody, ModuleInfo, Table};

fn target() -> TargetFrontendConfig {
    let isa = lookup_by_name("x86_64-unknown-linux-gnu")
        .unwrap()
        .finish(settings::Flags::new(settings::builder()))
        .unwrap();
    isa.frontend_config()
}

fn strings(v: &[&str]) -> Vec<String> {
    v.iter().map(|s| s.to_string()).collect()
}

fn import(pair: Option<(&str, &str)>) -> Option<(String, String)> {
    pair.map(|(m, f)| (m.to_string(), f.to_string()))
}

/// A module whose functions are given as (import pair, export names), all of
/// one signature, each defined function with a one-byte body; and whose
/// tables are given likewise.
fn module(
    funcs: &[(Option<(&str, &str)>, &[&str])],
    tables: &[(Option<(&str, &str)>, &[&str])],
) -> ModuleInfo {
    let mut info = ModuleInfo {
        target_config: target(),
        signatures: vec![Signature::new(CallConv::SystemV)],
        functions: Vec::new(),
        imported_funcs: Vec::new(),
        tables: Vec::new(),
        imported_tables: Vec::new(),
        function_bodies: Vec::new(),
    };
    for (ix, (imp, exports)) in funcs.iter().enumerate() {
        info.functions.push(Exportable { entity: 0, export_names: strings(exports) });
        info.imported_funcs.push(import(*imp));
        if imp.is_none() {
            info.function_bodies.push(FunctionBody { index: ix, code: vec![ix as u8], offset: 10 * ix });
        }
    }
    for (imp, exports) in tables.iter() {
        info.tables.push(Exportable {
            entity: Table { minimum: 1, maximum: Some(8) },
            export_names: strings(exports),
        });
        info.imported_tables.push(import(*imp));
    }
    info
}

fn env_bindings(pairs: &[(&str, &str, &str)]) -> Bindings {
    let mut b = Bindings::new();
    for (m, f, s) in pairs {
        b.add(m.to_string(), f.to_string(), s.to_string());
    }
    b
}

fn function_symbols(m: &ModuleDecls, n: usize) -> Vec<String> {
    (0..n).map(|i| m.get_func(i).unwrap().name.symbol).collect()
}

fn table_symbols(m: &ModuleDecls, n: usize) -> Vec<(String, String)> {
    (0..n)
        .map(|j| {
            let t = m.get_table(j).unwrap();
            (t.contents_name.symbol, t.len_name.symbol)
        })
        .collect()
}

#[test]
fn functions_are_queried_in_module_order() {
    let info = module(
        &[(Some(("env", "a")), &[]), (None, &[]), (None, &["start"]), (Some(("env", "b")), &[])],
        &[],
    );
    let b = env_bindings(&[("env", "a", "host_a"), ("env", "b", "host_b")]);
    let mut decls = ModuleDeclarations::default();
    let m = match ModuleDecls::declare(info, &mut decls, &b) {
        Ok(m) => m,
        Err(e) => panic!("{:?}", e),
    };
    assert_eq!(
        function_symbols(&m, 4),
        strings(&["host_a", "guest_func_1", "guest_func_start", "host_b"])
    );
}

#[test]
fn imported_function_uses_bound_symbol() {
    let info = module(&[(Some(("env", "foo")), &[])], &[]);
    let b = env_bindings(&[("env", "foo", "host_foo")]);
    let mut decls = ModuleDeclarations::default();
    let m = ModuleDecls::declare(info, &mut decls, &b).ok().unwrap();
    let f = m.get_func(0).ok().unwrap();
    assert_eq!(f.name.symbol, "host_foo");
    assert!(f.imported());
    assert!(!f.defined());
    assert!(!f.exported());
    assert_eq!(f.import_name, Some(("env".to_string(), "foo".to_string())));
}

#[test]
fn unexported_function_is_named_by_index() {
    let info = module(
        &[
            (Some(("env", "f0")), &[]),
            (Some(("env", "f1")), &[]),
            (Some(("env", "f2")), &[]),
            (None, &[]),
        ],
        &[],
    );
    let b = env_bindings(&[("env", "f0", "h0"), ("env", "f1", "h1"), ("env", "f2", "h2")]);
    let mut decls = ModuleDeclarations::default();
    let m = ModuleDecls::declare(info, &mut decls, &b).ok().unwrap();
    let f = m.get_func(3).ok().unwrap();
    assert_eq!(f.name.symbol, "guest_func_3");
    assert!(f.defined());
    assert!(!f.imported());
    assert!(!f.exported());
}

#[test]
fn exported_function_is_named_by_first_export() {
    let info = module(&[(None, &[]), (None, &["run", "main"])], &[]);
    let mut decls = ModuleDeclarations::default();
    let m = ModuleDecls::declare(info, &mut decls, &Bindings::new()).ok().unwrap();
    let f = m.get_func(1).ok().unwrap();
    assert_eq!(f.name.symbol, "guest_func_run");
    assert_eq!(f.export_names, strings(&["run", "main"]));
    assert!(f.exported());
    assert!(f.defined());
    assert!(decls.get_name("guest_func_main").is_none());
}

#[test]
fn indices_of_several_digits() {
    let funcs: Vec<(Option<(&str, &str)>, &[&str])> = (0..11).map(|_| (None, &[][..])).collect();
    let tables: Vec<(Option<(&str, &str)>, &[&str])> = (0..12).map(|_| (None, &[][..])).collect();
    let info = module(&funcs, &tables);
    let mut decls = ModuleDeclarations::default();
    let m = ModuleDecls::declare(info, &mut decls, &Bindings::new()).ok().unwrap();
    assert_eq!(m.get_func(10).ok().unwrap().name.symbol, "guest_func_10");
    assert_eq!(m.get_func(0).ok().unwrap().name.symbol, "guest_func_0");
    let t = m.get_table(11).ok().unwrap();
    assert_eq!(t.contents_name.symbol, "guest_table_11");
    assert_eq!(t.len_name.symbol, "guest_table_11_len");
}

#[test]
fn tables_are_named_by_index_whatever_their_status() {
    let info = module(
        &[],
        &[(Some(("env", "tbl")), &[]), (None, &["exported_table"]), (None, &[])],
    );
    let mut decls = ModuleDeclarations::default();
    let m = ModuleDecls::declare(info, &mut decls, &Bindings::new()).ok().unwrap();
    assert_eq!(
        table_symbols(&m, 3),
        vec![
            ("guest_table_0".to_string(), "guest_table_0_len".to_string()),
            ("guest_table_1".to_string(), "guest_table_1_len".to_string()),
            ("guest_table_2".to_string(), "guest_table_2_len".to_string()),
        ]
    );
    let t0 = m.get_table(0).ok().unwrap();
    assert_eq!(t0.import_name, Some(("env".to_string(), "tbl".to_string())));
    assert_eq!(*t0.table, Table { minimum: 1, maximum: Some(8) });
    let t1 = m.get_table(1).ok().unwrap();
    assert_eq!(t1.export_names, strings(&["exported_table"]));
}

#[test]
fn out_of_range_queries_fail_and_leave_the_store_intact() {
    let info = module(&[(None, &[]), (None, &[])], &[(None, &[])]);
    let mut decls = ModuleDeclarations::default();
    let m = ModuleDecls::declare(info, &mut decls, &Bindings::new()).ok().unwrap();
    match m.get_func(2) {
        Err(DeclError::IndexOutOfBounds { kind, index }) => {
            assert_eq!(kind, EntityKind::Function);
            assert_eq!(index, 2);
        }
        _ => panic!("expected an out-of-bounds error"),
    }
    match m.get_table(1) {
        Err(DeclError::IndexOutOfBounds { kind, index }) => {
            assert_eq!(kind, EntityKind::Table);
            assert_eq!(index, 1);
        }
        _ => panic!("expected an out-of-bounds error"),
    }
    assert!(matches!(m.get_func(usize::MAX), Err(DeclError::IndexOutOfBounds { .. })));
    assert_eq!(function_symbols(&m, 2), strings(&["guest_func_0", "guest_func_1"]));
    assert_eq!(m.get_table(0).ok().unwrap().contents_name.symbol, "guest_table_0");
}

#[test]
fn repeated_declaration_gives_the_same_symbols() {
    let shape: &[(Option<(&str, &str)>, &[&str])] =
        &[(Some(("env", "x")), &[]), (None, &["go"]), (None, &[])];
    let b = env_bindings(&[("env", "x", "host_x")]);
    let mut d1 = ModuleDeclarations::default();
    let mut d2 = ModuleDeclarations::default();
    let m1 = ModuleDecls::declare(module(shape, &[(None, &[])]), &mut d1, &b).ok().unwrap();
    let m2 = ModuleDecls::declare(module(shape, &[(None, &[])]), &mut d2, &b).ok().unwrap();
    assert_eq!(function_symbols(&m1, 3), function_symbols(&m2, 3));
    assert_eq!(table_symbols(&m1, 1), table_symbols(&m2, 1));
    assert_eq!(function_symbols(&m1, 3), strings(&["host_x", "guest_func_go", "guest_func_2"]));
}

#[test]
fn unresolved_import_fails_before_anything_is_declared() {
    let info = module(
        &[(None, &[]), (Some(("env", "foo")), &[]), (Some(("env", "bar")), &[])],
        &[(None, &[])],
    );
    let b = env_bindings(&[("env", "foo", "host_foo")]);
    let mut decls = ModuleDeclarations::default();
    match ModuleDecls::declare(info, &mut decls, &b) {
        Err(DeclError::UnresolvedImportBinding { module, field }) => {
            assert_eq!(module, "env");
            assert_eq!(field, "bar");
        }
        _ => panic!("expected an unresolved import"),
    }
    assert!(decls.get_name("guest_func_0").is_none());
    assert!(decls.get_name("host_foo").is_none());
    assert!(decls.get_name("guest_table_0").is_none());
    assert_eq!(decls.get_functions().count(), 0);
}

#[test]
fn backend_refusal_names_the_symbol() {
    let info = module(&[(Some(("env", "t")), &[])], &[(None, &[])]);
    let b = env_bindings(&[("env", "t", "guest_table_0")]);
    let mut decls = ModuleDeclarations::default();
    match ModuleDecls::declare(info, &mut decls, &b) {
        Err(DeclError::BackendDeclarationFailure { symbol, cause }) => {
            assert_eq!(symbol, "guest_table_0");
            assert_eq!(cause, Refusal::HeldByFunction);
        }
        _ => panic!("expected a backend failure"),
    }
    assert_eq!(decls.get_functions().count(), 0);
    assert_eq!(decls.get_data_objects().count(), 0);
}

#[test]
fn refusal_by_the_table_leaves_it_unchanged() {
    let info = module(&[(None, &[]), (None, &["run"])], &[(None, &[])]);
    let mut decls = ModuleDeclarations::default();
    decls.declare_data("guest_func_run", cranelift_module::Linkage::Local, false, false).unwrap();
    match ModuleDecls::declare(info, &mut decls, &Bindings::new()) {
        Err(DeclError::BackendDeclarationFailure { symbol, cause }) => {
            assert_eq!(symbol, "guest_func_run");
            assert_eq!(cause, Refusal::HeldByData);
        }
        _ => panic!("expected a backend failure"),
    }
    assert!(decls.get_name("guest_func_0").is_none());
    assert_eq!(decls.get_functions().count(), 0);
    assert_eq!(decls.get_data_objects().count(), 1);
}

#[test]
fn same_symbol_with_another_signature_is_refused() {
    let mut info = module(&[(Some(("env", "a")), &[]), (Some(("env", "b")), &[])], &[]);
    let mut other = Signature::new(CallConv::SystemV);
    other.params.push(cranelift_codegen::ir::AbiParam::new(cranelift_codegen::ir::types::I32));
    info.signatures.push(other);
    info.functions[1].entity = 1;
    let b = env_bindings(&[("env", "a", "host"), ("env", "b", "host")]);
    let mut decls = ModuleDeclarations::default();
    match ModuleDecls::declare(info, &mut decls, &b) {
        Err(DeclError::BackendDeclarationFailure { symbol, cause }) => {
            assert_eq!(symbol, "host");
            assert_eq!(cause, Refusal::OtherSignature);
        }
        _ => panic!("expected a backend failure"),
    }
    assert_eq!(decls.get_functions().count(), 0);
}

#[test]
fn identifiers_are_those_of_the_backend() {
    let info = module(&[(None, &[]), (None, &["e"])], &[(None, &[])]);
    let mut decls = ModuleDeclarations::default();
    let m = ModuleDecls::declare(info, &mut decls, &Bindings::new()).ok().unwrap();
    for i in 0..2 {
        let name = m.get_func(i).ok().unwrap().name;
        match name.id {
            SymbolId::Func(id) => assert_eq!(
                decls.get_name(&name.symbol),
                Some(FuncOrDataId::Func(FuncId::from_u32(id)))
            ),
            SymbolId::Data(_) => panic!("a function was declared as data"),
        }
    }
    assert_eq!(m.get_func(1).ok().unwrap().name.id, SymbolId::Func(1));
    let t = m.get_table(0).ok().unwrap();
    assert_eq!(t.contents_name.id, SymbolId::Data(0));
    assert_eq!(t.len_name.id, SymbolId::Data(1));
    assert_eq!(decls.get_name("guest_table_0_len"), Some(FuncOrDataId::Data(DataId::from_u32(1))));
}

#[test]
fn function_bodies_come_with_their_declarations() {
    let info = module(&[(Some(("env", "a")), &[]), (None, &[]), (None, &["x"])], &[]);
    let b = env_bindings(&[("env", "a", "host_a")]);
    let mut decls = ModuleDeclarations::default();
    let m = ModuleDecls::declare(info, &mut decls, &b).ok().unwrap();
    let bodies = m.function_bodies();
    assert_eq!(bodies.len(), 2);
    assert_eq!(bodies[0].0.name.symbol, "guest_func_1");
    assert_eq!(bodies[0].1.code, vec![1u8]);
    assert_eq!(bodies[1].0.name.symbol, "guest_func_x");
    assert_eq!(bodies[1].1.offset, 20);
    assert!(bodies.iter().all(|(f, _)| f.defined()));
    assert_eq!(m.function_bodies().len(), 2);
}

#[test]
fn target_config_is_kept() {
    let info = module(&[], &[]);
    let mut decls = ModuleDeclarations::default();
    let m = ModuleDecls::declare(info, &mut decls, &Bindings::new()).ok().unwrap();
    assert_eq!(m.target_config().pointer_bits(), 64);
}

#[test]
fn first_matching_binding_wins() {
    let b = env_bindings(&[("env", "f", "first"), ("env", "f", "second"), ("other", "f", "third")]);
    assert_eq!(b.translate(&"env".to_string(), &"f".to_string()), Some("first".to_string()));
    assert_eq!(b.translate(&"other".to_string(), &"f".to_string()), Some("third".to_string()));
    assert_eq!(b.translate(&"env".to_string(), &"g".to_string()), None);
}

#[test]
fn function_declarations_follow_the_naming_rules() {
    let info = module(&[(Some(("env", "a")), &[]), (None, &[]), (None, &["x", "y"])], &[]);
    let b = env_bindings(&[("env", "a", "host_a")]);
    let plan = ModuleDecls::function_declarations(&info, &b).ok().unwrap();
    assert_eq!(
        plan,
        vec![
            ("host_a".to_string(), Linkage::Import),
            ("guest_func_1".to_string(), Linkage::Local),
            ("guest_func_x".to_string(), Linkage::Export),
        ]
    );
}

#[test]
fn well_formedness_is_checked() {
    let mut info = module(&[(None, &[])], &[(None, &[])]);
    assert!(info.is_well_formed());
    info.functions[0].entity = 1;
    assert!(!info.is_well_formed());
    let mut info = module(&[(Some(("env", "a")), &[])], &[]);
    info.function_bodies.push(FunctionBody { index: 0, code: vec![], offset: 0 });
    assert!(!info.is_well_formed());
    let mut info = module(&[(None, &[])], &[]);
    info.imported_tables.push(None);
    assert!(!info.is_well_formed());
}

#[test]
fn thread_local_table_symbol_is_reported() {
    let info = module(&[], &[(None, &[])]);
    let mut decls = ModuleDeclarations::default();
    decls.declare_data("guest_table_0", cranelift_module::Linkage::Local, false, true).unwrap();
    match ModuleDecls::declare(info, &mut decls, &Bindings::new()) {
        Err(DeclError::BackendDeclarationFailure { symbol, cause }) => {
            assert_eq!(symbol, "guest_table_0");
            assert_eq!(cause, Refusal::ThreadLocalData);
        }
        _ => panic!("expected a thread-local conflict"),
    }
}

#[test]
fn import_bound_twice_is_accepted() {
    let info = module(&[(Some(("env", "a")), &[]), (Some(("env", "b")), &[])], &[]);
    let b = env_bindings(&[("env", "a", "host"), ("env", "b", "host")]);
    let mut decls = ModuleDeclarations::default();
    let m = ModuleDecls::declare(info, &mut decls, &b).ok().unwrap();
    assert_eq!(m.get_func(0).ok().unwrap().name.id, m.get_func(1).ok().unwrap().name.id);
    assert_eq!(decls.get_functions().count(), 1);
}

#[test]
fn linkage_and_writability_reach_the_backend() {
    let info = module(
        &[(Some(("env", "a")), &[]), (None, &[]), (None, &["run"])],
        &[(Some(("env", "t")), &["tbl"])],
    );
    let b = env_bindings(&[("env", "a", "host_a")]);
    let mut decls = ModuleDeclarations::default();
    let m = ModuleDecls::declare(info, &mut decls, &b).ok().unwrap();
    let expected = [
        cranelift_module::Linkage::Import,
        cranelift_module::Linkage::Local,
        cranelift_module::Linkage::Export,
    ];
    for (i, linkage) in expected.iter().enumerate() {
        match m.get_func(i).ok().unwrap().name.id {
            SymbolId::Func(id) => {
                assert_eq!(decls.get_function_decl(FuncId::from_u32(id)).linkage, *linkage)
            }
            SymbolId::Data(_) => panic!("a function was declared as data"),
        }
    }
    for id in 0..2 {
        let d = decls.get_data_decl(DataId::from_u32(id));
        assert_eq!(d.linkage, cranelift_module::Linkage::Local);
        assert!(d.writable);
        assert!(!d.tls);
    }
    assert_eq!(decls.get_functions().count(), 3);
    assert_eq!(decls.get_data_objects().count(), 2);
}
