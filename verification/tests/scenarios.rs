use tsresolve::ModuleId;
use tsresolve::ast::{
    AstId, AstModule, AstRef, ExportAll, ExportSpecifier, FnDecl, Ident, ImportDecl,
    ImportSpecifier, ModuleExportName, ModuleItem, NamedExport, Range, Decl, TsModuleDecl,
    TsModuleName,
};
use tsresolve::loader::{LoadOutcome, Loader};
use tsresolve::object::{DiagnosticKind, ObjectKind};
use tsresolve::resolve::ResolveState;

fn rng(start: u32, end: u32) -> Range {
    Range { start, end }
}

fn ident(id: u64, sym: &str) -> Ident {
    Ident { id, sym: sym.to_string(), range: rng(0, 0) }
}

fn export_fn(bind: u64, name: &str, handle: u64) -> ModuleItem {
    ModuleItem::ExportDecl(Decl::Fn(FnDecl {
        ident: ident(bind, name),
        function: AstRef(handle),
        range: rng(1, 2),
    }))
}

fn named_import(local_bind: u64, local: &str, src: &str, range: Range) -> ModuleItem {
    ModuleItem::Import(ImportDecl {
        src: src.to_string(),
        specifiers: vec![ImportSpecifier::Named {
            local: ident(local_bind, local),
            imported: None,
            range,
        }],
        range,
    })
}

fn module(id: u64, file: &str, pkg: Option<&str>, items: Vec<ModuleItem>) -> AstModule {
    AstModule {
        id,
        file_name: file.to_string(),
        pkg_path: pkg.map(|p| p.to_string()),
        items,
        range: rng(0, 100),
    }
}

fn empty_universe() -> AstModule {
    module(0, "universe.ts", None, vec![])
}

/// Module `a.ts` declares `export function f() {}`; `b.ts` imports and calls
/// it. Resolving `f` at the call site in `b.ts` yields the very object
/// created for the declaration in `a.ts`, and `is_module_path` reports
/// `b.ts`'s own path.
#[test]
fn cross_module_import_resolves_to_declaration() {
    let mut loader = Loader::new(empty_universe());
    assert!(loader.add_module(module(1, "a.ts", Some("a"), vec![export_fn(10, "f", 100)])));
    assert!(loader.add_module(module(
        2,
        "b.ts",
        Some("b"),
        vec![named_import(20, "f", "./a", rng(5, 25))],
    )));
    assert!(loader.add_import_edge(
        "b.ts".to_string(),
        "./a".to_string(),
        LoadOutcome::Found(ModuleId(1)),
    ));
    let mut st = ResolveState::new(loader);

    assert!(st.get_or_init_module(ModuleId(2)).is_some());
    assert!(st.get_or_init_module(ModuleId(1)).is_some());

    let in_a = st.resolve_module_ident(ModuleId(1), &ident(10, "f"));
    let in_b = st.resolve_module_ident(ModuleId(2), &ident(20, "f"));
    assert!(in_a.is_some());
    assert_eq!(in_a, in_b);

    let obj = st.object(in_a.unwrap()).unwrap();
    assert_eq!(obj.name.as_deref(), Some("f"));
    assert!(matches!(obj.kind, ObjectKind::Func(_)));
    assert_eq!(obj.module_id, ModuleId(1));

    assert!(st.is_module_path(ModuleId(2), "b"));
    assert!(!st.is_module_path(ModuleId(2), "a"));
    assert_eq!(st.diagnostics().len(), 0);
}

/// Resolving the same identifier node twice yields objects with equal ids.
#[test]
fn identity_stable_across_repeated_resolution() {
    let mut loader = Loader::new(empty_universe());
    assert!(loader.add_module(module(1, "a.ts", None, vec![export_fn(10, "f", 100)])));
    assert!(loader.add_module(module(
        2,
        "b.ts",
        None,
        vec![named_import(20, "f", "./a", rng(5, 25))],
    )));
    assert!(loader.add_import_edge(
        "b.ts".to_string(),
        "./a".to_string(),
        LoadOutcome::Found(ModuleId(1)),
    ));
    let mut st = ResolveState::new(loader);
    st.get_or_init_module(ModuleId(2));

    let first = st.resolve_module_ident(ModuleId(2), &ident(20, "f"));
    let second = st.resolve_module_ident(ModuleId(2), &ident(20, "f"));
    assert!(first.is_some());
    assert_eq!(first, second);

    // and for a local declaration
    let da = st.resolve_module_ident(ModuleId(1), &ident(10, "f"));
    let db = st.resolve_module_ident(ModuleId(1), &ident(10, "f"));
    assert_eq!(da, db);
    assert_eq!(da, first);
}

/// `get_or_init_module` is idempotent per file identity: the same module
/// index comes back and no duplicate side-effect diagnostics appear.
#[test]
fn module_materialization_is_memoized() {
    let dup_range = rng(40, 60);
    let mut loader = Loader::new(empty_universe());
    // a module whose construction reports one diagnostic (duplicate import)
    let items = vec![
        named_import(20, "a", "./m", rng(10, 20)),
        named_import(20, "a", "./m", dup_range),
    ];
    assert!(loader.add_module(module(1, "m.ts", None, items)));
    let mut st = ResolveState::new(loader);

    let first = st.get_or_init_module(ModuleId(1));
    assert!(first.is_some());
    assert_eq!(st.diagnostics().len(), 1);

    let second = st.get_or_init_module(ModuleId(1));
    assert_eq!(first, second);
    // no duplicate construction: still exactly one diagnostic
    assert_eq!(st.diagnostics().len(), 1);
}

/// Re-export chase order: A exports `x`; B does `export * from "A"` and
/// `export {x as y} from "A"`. Resolving `y` through B yields the same
/// object as `x` in A, and so does resolving `x` through B's wildcard.
#[test]
fn reexport_chase_reaches_original_object() {
    let mut loader = Loader::new(empty_universe());
    assert!(loader.add_module(module(1, "a.ts", None, vec![export_fn(10, "x", 100)])));
    let b_items = vec![
        ModuleItem::ExportAll(ExportAll { src: "A".to_string(), range: rng(0, 5) }),
        ModuleItem::ExportNamed(NamedExport {
            src: Some("A".to_string()),
            specifiers: vec![ExportSpecifier::Named {
                orig: ModuleExportName::Ident(ident(10, "x")),
                exported: Some(ModuleExportName::Ident(ident(11, "y"))),
            }],
            range: rng(6, 30),
        }),
    ];
    assert!(loader.add_module(module(2, "b.ts", None, b_items)));
    // C imports both names from B
    let c_items = vec![
        named_import(30, "y", "./b", rng(0, 10)),
        named_import(31, "x", "./b", rng(11, 20)),
    ];
    assert!(loader.add_module(module(3, "c.ts", None, c_items)));
    assert!(loader.add_import_edge(
        "b.ts".to_string(),
        "A".to_string(),
        LoadOutcome::Found(ModuleId(1)),
    ));
    assert!(loader.add_import_edge(
        "c.ts".to_string(),
        "./b".to_string(),
        LoadOutcome::Found(ModuleId(2)),
    ));
    let mut st = ResolveState::new(loader);
    st.get_or_init_module(ModuleId(3));
    st.get_or_init_module(ModuleId(1));

    let orig = st.resolve_module_ident(ModuleId(1), &ident(10, "x"));
    assert!(orig.is_some());
    let via_rename = st.resolve_module_ident(ModuleId(3), &ident(30, "y"));
    let via_wildcard = st.resolve_module_ident(ModuleId(3), &ident(31, "x"));
    assert_eq!(via_rename, orig);
    assert_eq!(via_wildcard, orig);
    assert_eq!(st.diagnostics().len(), 0);
}

/// A missing import: `import {missing} from "./a"` where `a.ts` exports no
/// such name. Resolution yields nothing and exactly one diagnostic sits at
/// the import's range.
#[test]
fn missing_import_reports_one_diagnostic() {
    let import_range = rng(7, 33);
    let mut loader = Loader::new(empty_universe());
    assert!(loader.add_module(module(1, "a.ts", None, vec![export_fn(10, "f", 100)])));
    assert!(loader.add_module(module(
        2,
        "b.ts",
        None,
        vec![named_import(20, "missing", "./a", import_range)],
    )));
    assert!(loader.add_import_edge(
        "b.ts".to_string(),
        "./a".to_string(),
        LoadOutcome::Found(ModuleId(1)),
    ));
    let mut st = ResolveState::new(loader);
    st.get_or_init_module(ModuleId(2));

    let r = st.resolve_module_ident(ModuleId(2), &ident(20, "missing"));
    assert!(r.is_none());
    let diags = st.diagnostics();
    assert_eq!(diags.len(), 1);
    assert_eq!(diags[0].range, import_range);
    match &diags[0].kind {
        DiagnosticKind::ExportNotFound { name } => assert_eq!(name, "missing"),
        other => panic!("unexpected diagnostic: {other:?}"),
    }
}

/// An unresolved identifier falls back to the universe scope's named
/// exports.
#[test]
fn universe_scope_is_the_terminal_fallback() {
    let universe = module(0, "universe.ts", None, vec![export_fn(5, "console", 900)]);
    let mut loader = Loader::new(universe);
    assert!(loader.add_module(module(1, "a.ts", None, vec![])));
    let mut st = ResolveState::new(loader);
    st.get_or_init_module(ModuleId(1));

    // binding identity unknown to the module: falls through to the universe
    let r = st.resolve_module_ident(ModuleId(1), &ident(77, "console"));
    assert!(r.is_some());
    let obj = st.object(r.unwrap()).unwrap();
    assert_eq!(obj.name.as_deref(), Some("console"));
    assert!(st.is_universe(ModuleId(0)));
    assert!(!st.is_universe(ModuleId(1)));
}

/// An import into a module the loader cannot resolve: a loader error is
/// reported at the import's range; a clean miss is silent.
#[test]
fn loader_error_and_miss_channels_differ() {
    let err_range = rng(1, 9);
    let miss_range = rng(10, 19);
    let items = vec![
        named_import(20, "a", "./gone", err_range),
        named_import(21, "b", "./quiet", miss_range),
    ];
    let mut loader = Loader::new(empty_universe());
    assert!(loader.add_module(module(1, "m.ts", None, items)));
    assert!(loader.add_import_edge(
        "m.ts".to_string(),
        "./gone".to_string(),
        LoadOutcome::Error("no such file".to_string()),
    ));
    assert!(loader.add_import_edge(
        "m.ts".to_string(),
        "./quiet".to_string(),
        LoadOutcome::NotFound,
    ));
    let mut st = ResolveState::new(loader);
    st.get_or_init_module(ModuleId(1));

    assert!(st.resolve_module_ident(ModuleId(1), &ident(20, "a")).is_none());
    assert!(st.resolve_module_ident(ModuleId(1), &ident(21, "b")).is_none());
    let diags = st.diagnostics();
    assert_eq!(diags.len(), 1);
    assert_eq!(diags[0].range, err_range);
    match &diags[0].kind {
        DiagnosticKind::ImportNotFound { detail } => assert_eq!(detail, "no such file"),
        other => panic!("unexpected diagnostic: {other:?}"),
    }
}

/// A namespace import (`import * as ns`) resolves to the target module's
/// own wrapping object.
#[test]
fn namespace_import_yields_module_object() {
    let mut loader = Loader::new(empty_universe());
    assert!(loader.add_module(module(1, "a.ts", None, vec![export_fn(10, "f", 100)])));
    let b_items = vec![ModuleItem::Import(ImportDecl {
        src: "./a".to_string(),
        specifiers: vec![ImportSpecifier::Namespace { local: ident(20, "ns"), range: rng(0, 9) }],
        range: rng(0, 9),
    })];
    assert!(loader.add_module(module(2, "b.ts", None, b_items)));
    assert!(loader.add_import_edge(
        "b.ts".to_string(),
        "./a".to_string(),
        LoadOutcome::Found(ModuleId(1)),
    ));
    let mut st = ResolveState::new(loader);
    st.get_or_init_module(ModuleId(2));

    let r = st.resolve_module_ident(ModuleId(2), &ident(20, "ns"));
    assert!(r.is_some());
    let obj = st.object(r.unwrap()).unwrap();
    match obj.kind {
        ObjectKind::Module(mid) => assert_eq!(mid, ModuleId(1)),
        ref other => panic!("unexpected kind: {other:?}"),
    }
}

/// `AstId`s with the same number but different names are distinct binding
/// identities.
#[test]
fn binding_identity_uses_number_and_name() {
    let mut loader = Loader::new(empty_universe());
    let items = vec![export_fn(10, "f", 100), export_fn(10, "g", 101)];
    assert!(loader.add_module(module(1, "a.ts", None, items)));
    let mut st = ResolveState::new(loader);
    st.get_or_init_module(ModuleId(1));
    let f = st.resolve_module_ident(ModuleId(1), &ident(10, "f"));
    let g = st.resolve_module_ident(ModuleId(1), &ident(10, "g"));
    assert!(f.is_some());
    assert!(g.is_some());
    assert_ne!(f, g);
    let _ = AstId::of_ident(&ident(10, "f"));
}

/// Re-export scan order: a matching list entry whose source module cannot
/// be resolved ends the whole lookup with nothing — later directives are
/// not consulted for that name.
#[test]
fn matching_list_reexport_aborts_on_unresolvable_module() {
    let mut loader = Loader::new(empty_universe());
    assert!(loader.add_module(module(1, "a.ts", None, vec![export_fn(10, "x", 100)])));
    let b_items = vec![
        ModuleItem::ExportNamed(NamedExport {
            src: Some("./gone".to_string()),
            specifiers: vec![ExportSpecifier::Named {
                orig: ModuleExportName::Ident(ident(10, "x")),
                exported: None,
            }],
            range: rng(0, 5),
        }),
        ModuleItem::ExportAll(ExportAll { src: "./a".to_string(), range: rng(6, 10) }),
    ];
    assert!(loader.add_module(module(2, "b.ts", None, b_items)));
    assert!(loader.add_module(module(
        3,
        "c.ts",
        None,
        vec![named_import(30, "x", "./b", rng(0, 9))],
    )));
    assert!(loader.add_import_edge(
        "b.ts".to_string(),
        "./gone".to_string(),
        LoadOutcome::NotFound,
    ));
    assert!(loader.add_import_edge(
        "b.ts".to_string(),
        "./a".to_string(),
        LoadOutcome::Found(ModuleId(1)),
    ));
    assert!(loader.add_import_edge(
        "c.ts".to_string(),
        "./b".to_string(),
        LoadOutcome::Found(ModuleId(2)),
    ));
    let mut st = ResolveState::new(loader);
    st.get_or_init_module(ModuleId(3));
    // the matching list entry wins the scan and its failure is final
    assert!(st.resolve_module_ident(ModuleId(3), &ident(30, "x")).is_none());
}

/// Re-export scan order: a wildcard whose source module cannot be resolved
/// is skipped, and the scan continues to the next directive.
#[test]
fn unresolvable_wildcard_reexport_is_skipped() {
    let mut loader = Loader::new(empty_universe());
    assert!(loader.add_module(module(1, "a.ts", None, vec![export_fn(10, "x", 100)])));
    let b_items = vec![
        ModuleItem::ExportAll(ExportAll { src: "./gone".to_string(), range: rng(0, 5) }),
        ModuleItem::ExportAll(ExportAll { src: "./a".to_string(), range: rng(6, 10) }),
    ];
    assert!(loader.add_module(module(2, "b.ts", None, b_items)));
    assert!(loader.add_module(module(
        3,
        "c.ts",
        None,
        vec![named_import(30, "x", "./b", rng(0, 9))],
    )));
    assert!(loader.add_import_edge(
        "b.ts".to_string(),
        "./gone".to_string(),
        LoadOutcome::NotFound,
    ));
    assert!(loader.add_import_edge(
        "b.ts".to_string(),
        "./a".to_string(),
        LoadOutcome::Found(ModuleId(1)),
    ));
    assert!(loader.add_import_edge(
        "c.ts".to_string(),
        "./b".to_string(),
        LoadOutcome::Found(ModuleId(2)),
    ));
    let mut st = ResolveState::new(loader);
    st.get_or_init_module(ModuleId(3));
    st.get_or_init_module(ModuleId(1));
    let orig = st.resolve_module_ident(ModuleId(1), &ident(10, "x"));
    let chased = st.resolve_module_ident(ModuleId(3), &ident(30, "x"));
    assert!(orig.is_some());
    assert_eq!(chased, orig);
    assert_eq!(st.diagnostics().len(), 0);
}

/// A string-named ambient module declaration is silently skipped, and an
/// `export default <expr>` is intentionally left unresolved.
#[test]
fn skipped_module_level_constructs() {
    let items = vec![
        ModuleItem::ExportDecl(Decl::TsModule(TsModuleDecl {
            id: TsModuleName::Str("ambient".to_string()),
            body: None,
            range: rng(0, 5),
        })),
        ModuleItem::ExportDefaultExpr(rng(6, 9)),
        ModuleItem::TsImportEquals(rng(10, 12)),
    ];
    let mut loader = Loader::new(empty_universe());
    assert!(loader.add_module(module(1, "m.ts", None, items)));
    let mut st = ResolveState::new(loader);
    st.get_or_init_module(ModuleId(1));
    assert!(st.resolve_module_default_export(ModuleId(1)).is_none());
    assert_eq!(st.diagnostics().len(), 0);
}
