use tsresolve::ModuleId;
use tsresolve::ast::{
    AstModule, AstRef, Binding, Decl, DefaultDecl, FnDecl, Ident, ImportDecl, ImportSpecifier,
    InterfaceDecl, ModuleItem, NamespaceBody, Range, TsModuleDecl, TsModuleName, VarDeclarator,
    VarDecls,
};
use tsresolve::loader::{LoadOutcome, Loader};
use tsresolve::object::{
    CheckState, DiagnosticKind, NSData, ObjectId, ObjectKind, Reexport, TypeRef,
};
use tsresolve::resolve::ResolveState;
use tsresolve::writers::BlockingWriter;

fn rng(start: u32, end: u32) -> Range {
    Range { start, end }
}

fn ident(id: u64, sym: &str) -> Ident {
    Ident { id, sym: sym.to_string(), range: rng(0, 0) }
}

fn module(id: u64, file: &str, items: Vec<ModuleItem>) -> AstModule {
    AstModule {
        id,
        file_name: file.to_string(),
        pkg_path: None,
        items,
        range: rng(0, 100),
    }
}

fn empty_universe() -> AstModule {
    module(0, "universe.ts", vec![])
}

fn default_fn(name: Option<&str>, range: Range) -> ModuleItem {
    ModuleItem::ExportDefaultDecl(DefaultDecl::Fn {
        ident: name.map(|n| ident(90, n)),
        function: AstRef(500),
        range,
    })
}

/// Two `export default` declarations: the first is kept, the second is
/// reported at its own range.
#[test]
fn duplicate_default_export_keeps_first() {
    let second_range = rng(50, 70);
    let items = vec![default_fn(Some("one"), rng(0, 10)), default_fn(Some("two"), second_range)];
    let mut loader = Loader::new(empty_universe());
    assert!(loader.add_module(module(1, "m.ts", items)));
    let mut st = ResolveState::new(loader);
    st.get_or_init_module(ModuleId(1));

    let d = st.resolve_module_default_export(ModuleId(1));
    assert!(d.is_some());
    let obj = st.object(d.unwrap()).unwrap();
    assert_eq!(obj.name.as_deref(), Some("one"));

    let diags = st.diagnostics();
    assert_eq!(diags.len(), 1);
    assert_eq!(diags[0].range, second_range);
    assert!(matches!(diags[0].kind, DiagnosticKind::DuplicateDefaultExport));
}

/// Two import bindings under the same local identity: the first wins, the
/// second is reported, and the table holds exactly one entry.
#[test]
fn duplicate_import_is_rejected() {
    let second_range = rng(30, 40);
    let imp = |src: &str, range: Range| {
        ModuleItem::Import(ImportDecl {
            src: src.to_string(),
            specifiers: vec![ImportSpecifier::Named {
                local: ident(20, "a"),
                imported: None,
                range,
            }],
            range,
        })
    };
    let mut loader = Loader::new(empty_universe());
    assert!(loader.add_module(module(1, "m.ts", vec![imp("./m1", rng(0, 10)), imp("./m2", second_range)])));
    let mut st = ResolveState::new(loader);
    st.get_or_init_module(ModuleId(1));

    let diags = st.diagnostics();
    assert_eq!(diags.len(), 1);
    assert_eq!(diags[0].range, second_range);
    match &diags[0].kind {
        DiagnosticKind::AlreadyImported { name } => assert_eq!(name, "a"),
        other => panic!("unexpected diagnostic: {other:?}"),
    }
    // the first import won: its path resolves through "./m1"
    let m = st.lookup_module(ModuleId(1)).unwrap();
    let key = tsresolve::ast::AstId::of_ident(&ident(20, "a"));
    let entry = m.data.imports.get(&key).unwrap();
    assert_eq!(entry.import_path, "./m1");
}

/// A variable statement binding several names: each bound name gets its own
/// object, and a repeated declaration under one identity keeps the first.
#[test]
fn variable_bindings_and_overloads() {
    let decl = Decl::Var(VarDecls {
        decls: vec![VarDeclarator {
            bindings: vec![
                Binding { id: 30, name: "p".to_string(), type_ann: Some(AstRef(1)) },
                Binding { id: 31, name: "q".to_string(), type_ann: None },
            ],
            init: Some(AstRef(2)),
            range: rng(3, 9),
        }],
        range: rng(3, 9),
    });
    let again = Decl::Fn(FnDecl { ident: ident(30, "p"), function: AstRef(7), range: rng(10, 12) });
    let items = vec![ModuleItem::ExportDecl(decl), ModuleItem::Stmt(tsresolve::ast::Stmt::Decl(again))];
    let mut loader = Loader::new(empty_universe());
    assert!(loader.add_module(module(1, "m.ts", items)));
    let mut st = ResolveState::new(loader);
    st.get_or_init_module(ModuleId(1));

    let p = st.resolve_module_ident(ModuleId(1), &ident(30, "p")).unwrap();
    let q = st.resolve_module_ident(ModuleId(1), &ident(31, "q")).unwrap();
    assert_ne!(p, q);
    let po = st.object(p).unwrap();
    match &po.kind {
        ObjectKind::Var(v) => {
            assert_eq!(v.type_ann, Some(AstRef(1)));
            assert_eq!(v.expr, Some(AstRef(2)));
        },
        other => panic!("unexpected kind: {other:?}"),
    }
    // the second declaration under identity (30, "p") was an overload:
    // the table kept the first object
    assert!(matches!(st.object(p).unwrap().kind, ObjectKind::Var(_)));
}

/// A namespace declaration wraps its own scope table as one object under
/// the enclosing top level.
#[test]
fn namespace_declaration_nests_scope() {
    let inner = ModuleItem::ExportDecl(Decl::Fn(FnDecl {
        ident: ident(40, "inner"),
        function: AstRef(8),
        range: rng(5, 6),
    }));
    let ns_decl = Decl::TsModule(TsModuleDecl {
        id: TsModuleName::Ident(ident(41, "Space")),
        body: Some(NamespaceBody::Block(vec![inner])),
        range: rng(4, 9),
    });
    let mut loader = Loader::new(empty_universe());
    assert!(loader.add_module(module(1, "m.ts", vec![ModuleItem::ExportDecl(ns_decl)])));
    let mut st = ResolveState::new(loader);
    st.get_or_init_module(ModuleId(1));

    let ns_obj = st.resolve_module_ident(ModuleId(1), &ident(41, "Space")).unwrap();
    let obj = st.object(ns_obj).unwrap();
    match &obj.kind {
        ObjectKind::Namespace(ns) => {
            assert!(ns.data.default_export.is_none());
            // the inner declaration is registered as a named export of the
            // namespace scope
            assert!(ns.data.named_exports.get(&"inner".to_string()).is_some());
        },
        other => panic!("unexpected kind: {other:?}"),
    }
}

/// Named-export lookup on a detached scope: the default name prefers the
/// default export, a direct named export wins over re-exports, and a
/// wildcard re-export chases into its source module.
#[test]
fn named_export_lookup_on_scope() {
    let mut loader = Loader::new(empty_universe());
    assert!(loader.add_module(module(1, "a.ts", vec![
        ModuleItem::ExportDecl(Decl::Fn(FnDecl {
            ident: ident(10, "x"),
            function: AstRef(100),
            range: rng(1, 2),
        })),
    ])));
    assert!(loader.add_import_edge(
        "m.ts".to_string(),
        "./a".to_string(),
        LoadOutcome::Found(ModuleId(1)),
    ));
    let mut st = ResolveState::new(loader);
    st.get_or_init_module(ModuleId(1));
    let orig = st.resolve_module_ident(ModuleId(1), &ident(10, "x"));

    let mut ns = NSData::new();
    ns.default_export = Some(ObjectId(7));
    ns.reexports.push(Reexport::All { import_path: "./a".to_string() });

    let d = ns.get_named_export(&mut st, &"m.ts".to_string(), &"default".to_string());
    assert_eq!(d, Some(ObjectId(7)));
    let x = ns.get_named_export(&mut st, &"m.ts".to_string(), &"x".to_string());
    assert_eq!(x, orig);
    let missing = ns.get_named_export(&mut st, &"m.ts".to_string(), &"nope".to_string());
    assert!(missing.is_none());
}

/// The check-state slot walks not-started, in-progress, completed; entering
/// an in-progress computation again is a reported cycle.
#[test]
fn check_state_lifecycle_and_cycle_guard() {
    let mut loader = Loader::new(empty_universe());
    assert!(loader.add_module(module(1, "a.ts", vec![
        ModuleItem::ExportDecl(Decl::Fn(FnDecl {
            ident: ident(10, "x"),
            function: AstRef(100),
            range: rng(1, 2),
        })),
    ])));
    let mut st = ResolveState::new(loader);
    st.get_or_init_module(ModuleId(1));
    let oid = st.resolve_module_ident(ModuleId(1), &ident(10, "x")).unwrap();

    assert_eq!(st.check_state(oid), Some(&CheckState::NotStarted));
    assert!(st.begin_check(oid));
    assert_eq!(st.check_state(oid), Some(&CheckState::InProgress));
    // re-entering is a cycle: refused and reported
    assert!(!st.begin_check(oid));
    assert_eq!(st.diagnostics().len(), 1);
    assert!(matches!(st.diagnostics()[0].kind, DiagnosticKind::TypeCheckCycle));
    assert!(st.complete_check(oid, TypeRef(42)));
    assert_eq!(st.check_state(oid), Some(&CheckState::Completed(TypeRef(42))));
    // a completed computation neither restarts nor completes again
    assert!(!st.begin_check(oid));
    assert!(!st.complete_check(oid, TypeRef(43)));
    assert_eq!(st.diagnostics().len(), 1);
}

/// Type parameters come back for interfaces and type aliases, and for
/// nothing else.
#[test]
fn type_params_only_for_type_names() {
    let kind = ObjectKind::TypeName(tsresolve::object::TypeName {
        decl: tsresolve::object::TypeNameDecl::Interface(InterfaceDecl {
            id: ident(1, "I"),
            type_params: vec![AstRef(1), AstRef(2)],
            body: AstRef(3),
            range: rng(0, 1),
        }),
    });
    assert_eq!(kind.type_params(), vec![AstRef(1), AstRef(2)]);
    let other = ObjectKind::Class(tsresolve::object::Class { decl: AstRef(9) });
    assert!(other.type_params().is_empty());
}

/// The loader rejects a second module under one identity and an edge to an
/// unloaded module.
#[test]
fn loader_rejects_inconsistencies() {
    let mut loader = Loader::new(empty_universe());
    assert!(loader.add_module(module(1, "a.ts", vec![])));
    assert!(!loader.add_module(module(1, "other.ts", vec![])));
    assert!(!loader.add_import_edge(
        "a.ts".to_string(),
        "./b".to_string(),
        LoadOutcome::Found(ModuleId(9)),
    ));
    assert!(loader.add_import_edge(
        "a.ts".to_string(),
        "./b".to_string(),
        LoadOutcome::NotFound,
    ));
}

/// Objects compare by identity, never by name.
#[test]
fn object_equality_is_identity_based() {
    let mut loader = Loader::new(empty_universe());
    assert!(loader.add_module(module(1, "a.ts", vec![
        ModuleItem::ExportDecl(Decl::Fn(FnDecl {
            ident: ident(10, "same"),
            function: AstRef(1),
            range: rng(1, 2),
        })),
    ])));
    assert!(loader.add_module(module(2, "b.ts", vec![
        ModuleItem::ExportDecl(Decl::Fn(FnDecl {
            ident: ident(10, "same"),
            function: AstRef(1),
            range: rng(1, 2),
        })),
    ])));
    let mut st = ResolveState::new(loader);
    st.get_or_init_module(ModuleId(1));
    st.get_or_init_module(ModuleId(2));
    let a = st.resolve_module_ident(ModuleId(1), &ident(10, "same")).unwrap();
    let b = st.resolve_module_ident(ModuleId(2), &ident(10, "same")).unwrap();
    assert_ne!(a, b);
    let oa = st.object(a).unwrap();
    let ob = st.object(b).unwrap();
    assert_eq!(oa.name, ob.name);
    assert!(oa != ob);
}

/// The blocking writer wraps its sink whole.
#[test]
fn blocking_writer_wraps_sink() {
    let w: BlockingWriter<Vec<u8>> = BlockingWriter::new(vec![1u8, 2, 3]);
    assert_eq!(w.into_inner(), vec![1u8, 2, 3]);
}

/// The universe scope is built lazily, exactly once: repeated queries
/// return the same module and add nothing.
#[test]
fn universe_is_initialized_once() {
    let universe = module(0, "universe.ts", vec![ModuleItem::ExportDecl(Decl::Fn(FnDecl {
        ident: ident(5, "global"),
        function: AstRef(900),
        range: rng(1, 2),
    }))]);
    let mut loader = Loader::new(universe);
    assert!(loader.add_module(module(1, "a.ts", vec![])));
    let mut st = ResolveState::new(loader);
    st.get_or_init_module(ModuleId(1));
    let u1 = st.universe();
    let u2 = st.universe();
    assert_eq!(u1, u2);
    assert!(st.is_universe(ModuleId(0)));
    assert_eq!(st.diagnostics().len(), 0);
}
