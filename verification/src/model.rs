//! The mathematical model of a resolve session and the transition functions
//! every state-changing operation is specified against.
//!
//! Each executable operation of the engine is proved to take its state model
//! to exactly the model these functions compute.

use vstd::prelude::*;
use crate::ast::{
    Decl, DefaultDecl, ExportSpecifier, ImportDecl, ImportSpecifier, ModuleItem,
    NamespaceBody, Range, Stmt, VarDeclarator, decl_size, body_size, item_size, items_size_from,
    stmt_size, stmts_size_from,
};
use crate::loader::{LoadOutcome, Loader};
use crate::object::{
    CheckState, DiagKindModel, DiagModel, ImpKindModel, ImpModel, KindModel, ModModel, NsModel,
    ObjModel, ObjectId, ReexItemModel, ReexModel, TypeNameModel,
};

verus! {

/// Model of the mutable state of a resolve session.
pub struct StateModel {
    /// The object arena; the object with identity `i` sits at index `i`.
    pub objects: Seq<ObjModel>,
    /// The materialized modules, in materialization order.
    pub modules: Seq<ModModel>,
    /// For each materialized module, its wrapping object.
    pub module_objects: Map<u64, ObjectId>,
    /// The module identities whose scopes are being materialized.
    pub stack: Seq<u64>,
    /// The identity of the universe module, once initialized.
    pub universe: Option<u64>,
    /// The diagnostics reported so far, in order.
    pub diags: Seq<DiagModel>,
    /// The check-state slot of each object.
    pub checks: Map<u64, CheckState>,
}

impl StateModel {
    /// The state of a fresh session.
    pub open spec fn init() -> StateModel {
        StateModel {
            objects: Seq::empty(),
            modules: Seq::empty(),
            module_objects: Map::empty(),
            stack: Seq::empty(),
            universe: None,
            diags: Seq::empty(),
            checks: Map::empty(),
        }
    }
}

/// Index of the materialized module with identity `mid`, scanning from `i`.
pub open spec fn find_mod_from(mods: Seq<ModModel>, mid: u64, i: int) -> Option<int>
    decreases mods.len() - i,
{
    if i < 0 || i >= mods.len() {
        None
    } else if mods[i].module_id == mid {
        Some(i)
    } else {
        find_mod_from(mods, mid, i + 1)
    }
}

/// Index of the materialized module with identity `mid`, if any.
pub open spec fn find_mod(mods: Seq<ModModel>, mid: u64) -> Option<int> {
    find_mod_from(mods, mid, 0)
}

/// The name of the default export.
pub open spec fn default_name() -> Seq<char> {
    "default"@
}

/// Allocation of a fresh object: the next identity, attributed to the module
/// on top of the context stack, with a not-started check state.
pub open spec fn spec_new_obj(
    s: StateModel,
    name: Option<Seq<char>>,
    range: Range,
    kind: KindModel,
) -> (StateModel, ObjectId) {
    let id = ObjectId(s.objects.len() as usize);
    let o = ObjModel { id, range, name, kind, module_id: s.stack.last() };
    (
        StateModel {
            objects: s.objects.push(o),
            checks: s.checks.insert(id.0 as u64, CheckState::NotStarted),
            ..s
        },
        id,
    )
}

/// Registration of a top-level declaration: a second declaration under the
/// same binding identity leaves the table unchanged.
pub open spec fn spec_add_top_level(ns: NsModel, key: (u64, Seq<char>), obj: ObjectId) -> NsModel {
    if ns.top_level.contains_key(key) {
        ns
    } else {
        NsModel { top_level: ns.top_level.insert(key, obj), ..ns }
    }
}

/// Recording of one import binding: a duplicate local identity is reported
/// and dropped.
pub open spec fn spec_add_import(
    s: StateModel,
    ns: NsModel,
    key: (u64, Seq<char>),
    imp: ImpModel,
) -> (StateModel, NsModel) {
    if ns.imports.contains_key(key) {
        (
            StateModel {
                diags: s.diags.push(
                    DiagModel { range: imp.range, kind: DiagKindModel::AlreadyImported(key.1) },
                ),
                ..s
            },
            ns,
        )
    } else {
        (s, NsModel { imports: ns.imports.insert(key, imp), ..ns })
    }
}

/// Processing of the specifiers of one import declaration, from index `i`.
pub open spec fn spec_process_import_from(
    s: StateModel,
    ns: NsModel,
    imp: ImportDecl,
    i: int,
) -> (StateModel, NsModel)
    decreases imp.specifiers@.len() - i,
{
    if i < 0 || i >= imp.specifiers@.len() {
        (s, ns)
    } else {
        let (s1, ns1) = match imp.specifiers@[i] {
            ImportSpecifier::Named { local, imported, range } => {
                let export_name = match imported {
                    Some(men) => men.chars(),
                    None => local.sym@,
                };
                spec_add_import(
                    s,
                    ns,
                    (local.id, local.sym@),
                    ImpModel { range, path: imp.src@, kind: ImpKindModel::Named(export_name) },
                )
            },
            ImportSpecifier::Default { local, range } => spec_add_import(
                s,
                ns,
                (local.id, local.sym@),
                ImpModel { range, path: imp.src@, kind: ImpKindModel::Default },
            ),
            ImportSpecifier::Namespace { local, range } => spec_add_import(
                s,
                ns,
                (local.id, local.sym@),
                ImpModel { range, path: imp.src@, kind: ImpKindModel::Namespace },
            ),
        };
        spec_process_import_from(s1, ns1, imp, i + 1)
    }
}

/// The re-export list items named by the specifiers from index `i` on:
/// named specifiers become items, default and namespace specifiers are
/// placeholders and dropped.
pub open spec fn spec_reex_items_from(specs: Seq<ExportSpecifier>, i: int) -> Seq<ReexItemModel>
    decreases specs.len() - i,
{
    if i < 0 || i >= specs.len() {
        Seq::empty()
    } else {
        let rest = spec_reex_items_from(specs, i + 1);
        match specs[i] {
            ExportSpecifier::Named { orig, exported } => Seq::empty().push(
                ReexItemModel {
                    orig: orig.chars(),
                    renamed: match exported {
                        Some(e) => Some(e.chars()),
                        None => None,
                    },
                },
            ) + rest,
            _ => rest,
        }
    }
}

/// Processing of the bound names of one variable/using declarator, from
/// binding index `bi`.
pub open spec fn spec_process_bindings_from(
    s: StateModel,
    ns: NsModel,
    d: VarDeclarator,
    using: bool,
    objs: Seq<ObjectId>,
    bi: int,
) -> (StateModel, NsModel, Seq<ObjectId>)
    decreases d.bindings@.len() - bi,
{
    if bi < 0 || bi >= d.bindings@.len() {
        (s, ns, objs)
    } else {
        let b = d.bindings@[bi];
        let kind = if using {
            KindModel::Using { type_ann: b.type_ann, expr: d.init }
        } else {
            KindModel::Var { type_ann: b.type_ann, expr: d.init }
        };
        let (s1, obj) = spec_new_obj(s, Some(b.name@), d.range, kind);
        let ns1 = spec_add_top_level(ns, (b.id, b.name@), obj);
        spec_process_bindings_from(s1, ns1, d, using, objs.push(obj), bi + 1)
    }
}

/// Processing of the declarators of one variable/using statement, from
/// declarator index `di`.
pub open spec fn spec_process_var_from(
    s: StateModel,
    ns: NsModel,
    decls: Seq<VarDeclarator>,
    using: bool,
    objs: Seq<ObjectId>,
    di: int,
) -> (StateModel, NsModel, Seq<ObjectId>)
    decreases decls.len() - di,
{
    if di < 0 || di >= decls.len() {
        (s, ns, objs)
    } else {
        let (s1, ns1, objs1) = spec_process_bindings_from(s, ns, decls[di], using, objs, 0);
        spec_process_var_from(s1, ns1, decls, using, objs1, di + 1)
    }
}

/// Processing of one top-level declaration: each declared binding allocates
/// one object and registers it under the scope's top level. Returns the
/// freshly allocated objects.
pub open spec fn spec_process_decl(s: StateModel, ns: NsModel, d: Decl) -> (
    StateModel,
    NsModel,
    Seq<ObjectId>,
)
    decreases decl_size(d), 0int,
{
    match d {
        Decl::Class(c) => {
            let (s1, obj) = spec_new_obj(
                s,
                Some(c.ident.sym@),
                c.range,
                KindModel::Class(c.class),
            );
            (s1, spec_add_top_level(ns, (c.ident.id, c.ident.sym@), obj), seq![obj])
        },
        Decl::Fn(f) => {
            let (s1, obj) = spec_new_obj(
                s,
                Some(f.ident.sym@),
                f.range,
                KindModel::Func(f.function),
            );
            (s1, spec_add_top_level(ns, (f.ident.id, f.ident.sym@), obj), seq![obj])
        },
        Decl::Var(v) => spec_process_var_from(s, ns, v.decls@, false, Seq::empty(), 0),
        Decl::Using(v) => spec_process_var_from(s, ns, v.decls@, true, Seq::empty(), 0),
        Decl::TsInterface(it) => {
            let (s1, obj) = spec_new_obj(
                s,
                Some(it.id.sym@),
                it.range,
                KindModel::TypeName(
                    TypeNameModel::Interface {
                        bind: it.id.id,
                        name: it.id.sym@,
                        type_params: it.type_params@,
                        body: it.body,
                        range: it.range,
                    },
                ),
            );
            (s1, spec_add_top_level(ns, (it.id.id, it.id.sym@), obj), seq![obj])
        },
        Decl::TsTypeAlias(al) => {
            let (s1, obj) = spec_new_obj(
                s,
                Some(al.id.sym@),
                al.range,
                KindModel::TypeName(
                    TypeNameModel::TypeAlias {
                        bind: al.id.id,
                        name: al.id.sym@,
                        type_params: al.type_params@,
                        alias: al.alias,
                        range: al.range,
                    },
                ),
            );
            (s1, spec_add_top_level(ns, (al.id.id, al.id.sym@), obj), seq![obj])
        },
        Decl::TsEnum(e) => {
            let (s1, obj) = spec_new_obj(
                s,
                Some(e.id.sym@),
                e.range,
                KindModel::Enum(e.members@),
            );
            (s1, spec_add_top_level(ns, (e.id.id, e.id.sym@), obj), seq![obj])
        },
        Decl::TsModule(m) => {
            match m.id {
                crate::ast::TsModuleName::Ident(id) => {
                    let (s1, inner) = match m.body {
                        Some(b) => spec_process_namespace_body(s, NsModel::empty(), b),
                        None => (s, NsModel::empty()),
                    };
                    let (s2, obj) = spec_new_obj(
                        s1,
                        Some(id.sym@),
                        m.range,
                        KindModel::Namespace(inner),
                    );
                    (s2, spec_add_top_level(ns, (id.id, id.sym@), obj), seq![obj])
                },
                crate::ast::TsModuleName::Str(_) => (s, ns, Seq::empty()),
            }
        },
    }
}

/// Processing of the declaration following `export default`: it allocates
/// one object, named only when the declaration names itself.
pub open spec fn spec_process_default_decl(s: StateModel, d: DefaultDecl) -> (
    StateModel,
    ObjectId,
) {
    match d {
        DefaultDecl::Class { ident, class, range } => spec_new_obj(
            s,
            match ident {
                Some(i) => Some(i.sym@),
                None => None,
            },
            range,
            KindModel::Class(class),
        ),
        DefaultDecl::Fn { ident, function, range } => spec_new_obj(
            s,
            match ident {
                Some(i) => Some(i.sym@),
                None => None,
            },
            range,
            KindModel::Func(function),
        ),
        DefaultDecl::TsInterface(it) => spec_new_obj(
            s,
            Some(it.id.sym@),
            it.range,
            KindModel::TypeName(
                TypeNameModel::Interface {
                    bind: it.id.id,
                    name: it.id.sym@,
                    type_params: it.type_params@,
                    body: it.body,
                    range: it.range,
                },
            ),
        ),
    }
}

/// The source range of a default-export declaration.
pub open spec fn default_decl_range(d: DefaultDecl) -> Range {
    match d {
        DefaultDecl::Class { range, .. } => range,
        DefaultDecl::Fn { range, .. } => range,
        DefaultDecl::TsInterface(it) => it.range,
    }
}

/// Registration of the named ones among freshly declared objects as named
/// exports, from index `i`.
pub open spec fn spec_register_exports_from(
    s: StateModel,
    ns: NsModel,
    objs: Seq<ObjectId>,
    i: int,
) -> NsModel
    decreases objs.len() - i,
{
    if i < 0 || i >= objs.len() {
        ns
    } else {
        let o = s.objects[objs[i].0 as int];
        let ns1 = match o.name {
            Some(n) => NsModel { named_exports: ns.named_exports.insert(n, objs[i]), ..ns },
            None => ns,
        };
        spec_register_exports_from(s, ns1, objs, i + 1)
    }
}

/// Processing of one statement: only declarations (possibly inside blocks)
/// declare anything at the scope level.
pub open spec fn spec_process_stmt(s: StateModel, ns: NsModel, st: Stmt) -> (
    StateModel,
    NsModel,
    Seq<ObjectId>,
)
    decreases stmt_size(st), 0int,
{
    match st {
        Stmt::Decl(d) => spec_process_decl(s, ns, d),
        Stmt::Block(v, _) => spec_process_stmts_from(s, ns, v@, Seq::empty(), 0),
        Stmt::Other(_) => (s, ns, Seq::empty()),
    }
}

/// Processing of the statements of a block, from index `i`.
pub open spec fn spec_process_stmts_from(
    s: StateModel,
    ns: NsModel,
    stmts: Seq<Stmt>,
    objs: Seq<ObjectId>,
    i: int,
) -> (StateModel, NsModel, Seq<ObjectId>)
    decreases stmts_size_from(stmts, i), 1int,
{
    if i < 0 || i >= stmts.len() {
        (s, ns, objs)
    } else {
        let (s1, ns1, objs1) = spec_process_stmt(s, ns, stmts[i]);
        proof {
            assert(stmts_size_from(stmts, i) == stmt_size(stmts[i]) + stmts_size_from(
                stmts,
                i + 1,
            ));
            assert(stmt_size(stmts[i]) >= 1);
        }
        spec_process_stmts_from(s1, ns1, stmts, objs + objs1, i + 1)
    }
}

/// Processing of a namespace body: a block fills the namespace's own table;
/// a directly nested namespace declaration wraps its own table recursively.
pub open spec fn spec_process_namespace_body(s: StateModel, ns: NsModel, b: NamespaceBody) -> (
    StateModel,
    NsModel,
)
    decreases body_size(b), 0int,
{
    match b {
        NamespaceBody::Block(v) => spec_process_module_items_from(s, ns, v@, 0),
        NamespaceBody::Decl(nd) => {
            let (s1, inner) = spec_process_namespace_body(s, NsModel::empty(), *nd.body);
            let (s2, obj) = spec_new_obj(
                s1,
                Some(nd.id.sym@),
                nd.range,
                KindModel::Namespace(inner),
            );
            (s2, spec_add_top_level(ns, (nd.id.id, nd.id.sym@), obj))
        },
    }
}

/// Processing of one top-level item.
pub open spec fn spec_process_item(s: StateModel, ns: NsModel, it: ModuleItem) -> (
    StateModel,
    NsModel,
)
    decreases item_size(it), 0int,
{
    match it {
        ModuleItem::Import(imp) => spec_process_import_from(s, ns, imp, 0),
        ModuleItem::ExportDecl(d) => {
            let (s1, ns1, objs) = spec_process_decl(s, ns, d);
            (s1, spec_register_exports_from(s1, ns1, objs, 0))
        },
        ModuleItem::ExportDefaultDecl(dd) => {
            let (s1, obj) = spec_process_default_decl(s, dd);
            if ns.default_export is Some {
                (
                    StateModel {
                        diags: s1.diags.push(
                            DiagModel {
                                range: default_decl_range(dd),
                                kind: DiagKindModel::DuplicateDefaultExport,
                            },
                        ),
                        ..s1
                    },
                    ns,
                )
            } else {
                (s1, NsModel { default_export: Some(obj), ..ns })
            }
        },
        ModuleItem::ExportDefaultExpr(_) => (s, ns),
        ModuleItem::ExportNamed(ne) => {
            match ne.src {
                Some(src) => (
                    s,
                    NsModel {
                        reexports: ns.reexports.push(
                            ReexModel::List {
                                items: spec_reex_items_from(ne.specifiers@, 0),
                                path: src@,
                            },
                        ),
                        ..ns
                    },
                ),
                None => (s, ns),
            }
        },
        ModuleItem::ExportAll(ea) => (
            s,
            NsModel { reexports: ns.reexports.push(ReexModel::All { path: ea.src@ }), ..ns },
        ),
        ModuleItem::TsImportEquals(_) => (s, ns),
        ModuleItem::TsExportAssignment(_) => (s, ns),
        ModuleItem::TsNamespaceExport(_) => (s, ns),
        ModuleItem::Stmt(st) => {
            let (s1, ns1, _objs) = spec_process_stmt(s, ns, st);
            (s1, ns1)
        },
    }
}

/// Processing of the top-level items of a scope, from index `i`: a single
/// forward pass.
pub open spec fn spec_process_module_items_from(
    s: StateModel,
    ns: NsModel,
    items: Seq<ModuleItem>,
    i: int,
) -> (StateModel, NsModel)
    decreases items_size_from(items, i), 1int,
{
    if i < 0 || i >= items.len() {
        (s, ns)
    } else {
        let (s1, ns1) = spec_process_item(s, ns, items[i]);
        proof {
            assert(items_size_from(items, i) == item_size(items[i]) + items_size_from(
                items,
                i + 1,
            ));
            assert(item_size(items[i]) >= 1);
        }
        spec_process_module_items_from(s1, ns1, items, i + 1)
    }
}

// Module materialization and resolution.

/// Memoized materialization of the module with identity `mid`: an already
/// materialized module is returned as is; otherwise its top-level items are
/// processed once, the module is appended, and its wrapping object
/// allocated. Yields the module's index in the materialized-module arena.
pub open spec fn spec_get_or_init(ldr: Loader, s: StateModel, mid: u64) -> (
    StateModel,
    Option<int>,
) {
    match find_mod(s.modules, mid) {
        Some(i) => (s, Some(i)),
        None => match ldr.spec_module_index(mid) {
            None => (s, None),
            Some(li) => {
                let ast = ldr.modules@[li];
                let s1 = StateModel { stack: s.stack.push(mid), ..s };
                let (s2, nsm) = spec_process_module_items_from(s1, NsModel::empty(), ast.items@, 0);
                let s3 = StateModel { stack: s2.stack.drop_last(), ..s2 };
                let modl = ModModel {
                    module_id: mid,
                    file: ast.file_name@,
                    pkg: match ast.pkg_path {
                        Some(p) => Some(p@),
                        None => None,
                    },
                    ns: nsm,
                };
                let midx = s3.modules.len() as int;
                let s4 = StateModel { modules: s3.modules.push(modl), ..s3 };
                let s5 = StateModel { stack: s4.stack.push(mid), ..s4 };
                let (s6, oid) = spec_new_obj(s5, None, ast.range, KindModel::Module(mid));
                let s7 = StateModel { stack: s6.stack.drop_last(), ..s6 };
                let s8 = StateModel { module_objects: s7.module_objects.insert(mid, oid), ..s7 };
                (s8, Some(midx))
            },
        },
    }
}

/// Resolution of an import path to a materialized module: a recorded hit is
/// materialized; a miss or a loader error yields nothing, silently.
pub open spec fn spec_resolve_module_import(
    ldr: Loader,
    s: StateModel,
    file: Seq<char>,
    path: Seq<char>,
) -> (StateModel, Option<int>) {
    match ldr.spec_resolve(file, path) {
        Some(out) => match out {
            LoadOutcome::Found(mid) => spec_get_or_init(ldr, s, mid.0),
            LoadOutcome::NotFound => (s, None),
            LoadOutcome::Error(_) => (s, None),
        },
        None => (s, None),
    }
}

/// First item of a re-export list whose effective exported name is `needle`,
/// scanning from `k`.
pub open spec fn spec_find_reex_item(
    items: Seq<ReexItemModel>,
    needle: Seq<char>,
    k: int,
) -> Option<int>
    decreases items.len() - k,
{
    if k < 0 || k >= items.len() {
        None
    } else if items[k].effective() == needle {
        Some(k)
    } else {
        spec_find_reex_item(items, needle, k + 1)
    }
}

/// Named-export lookup in the module at index `midx`: the default export for
/// the name `default`, else a direct named export, else the first match
/// along the re-export directives in declaration order. `fuel` bounds the
/// chase through re-export chains; an exhausted budget gives up with
/// nothing.
pub open spec fn spec_chase(
    ldr: Loader,
    s: StateModel,
    midx: int,
    file: Seq<char>,
    needle: Seq<char>,
    fuel: nat,
) -> (StateModel, Option<ObjectId>)
    decreases fuel, 0int, 0int,
{
    if fuel == 0 {
        (s, None)
    } else {
        let ns = s.modules[midx].ns;
        if needle == default_name() && ns.default_export is Some {
            (s, Some(ns.default_export->0))
        } else if ns.named_exports.contains_key(needle) {
            (s, Some(ns.named_exports[needle]))
        } else {
            spec_chase_reexports(ldr, s, ns.reexports, 0, file, needle, (fuel - 1) as nat)
        }
    }
}

/// The scan over a scope's re-export directives, from directive `j`. A
/// matching list entry resolves its source module and chases the original
/// name there, adopting the source module's own file for further
/// resolution; failure to resolve that module ends the scan with nothing. A
/// wildcard entry chases the same name in its source module, keeping the
/// current file, and a miss there continues the scan.
pub open spec fn spec_chase_reexports(
    ldr: Loader,
    s: StateModel,
    rexps: Seq<ReexModel>,
    j: int,
    file: Seq<char>,
    needle: Seq<char>,
    fuel: nat,
) -> (StateModel, Option<ObjectId>)
    decreases fuel, 1int, rexps.len() - j,
{
    if j < 0 || j >= rexps.len() {
        (s, None)
    } else {
        match rexps[j] {
            ReexModel::List { items, path } => {
                match spec_find_reex_item(items, needle, 0) {
                    Some(k) => {
                        let (s1, om) = spec_resolve_module_import(ldr, s, file, path);
                        match om {
                            None => (s1, None),
                            Some(tidx) => spec_chase(
                                ldr,
                                s1,
                                tidx,
                                s1.modules[tidx].file,
                                items[k].orig,
                                fuel,
                            ),
                        }
                    },
                    None => spec_chase_reexports(ldr, s, rexps, j + 1, file, needle, fuel),
                }
            },
            ReexModel::All { path } => {
                let (s1, om) = spec_resolve_module_import(ldr, s, file, path);
                match om {
                    None => spec_chase_reexports(ldr, s1, rexps, j + 1, file, needle, fuel),
                    Some(tidx) => {
                        let (s2, or) = spec_chase(ldr, s1, tidx, file, needle, fuel);
                        match or {
                            Some(o) => (s2, Some(o)),
                            None => spec_chase_reexports(ldr, s2, rexps, j + 1, file, needle, fuel),
                        }
                    },
                }
            },
        }
    }
}

/// Combined item count of the loader's modules from index `i` on.
pub open spec fn spec_total_items_from(ldr: Loader, i: int) -> nat
    decreases ldr.modules@.len() - i,
{
    if i < 0 || i >= ldr.modules@.len() {
        0
    } else {
        ldr.modules@[i].items@.len() + spec_total_items_from(ldr, i + 1)
    }
}

/// The chase budget: comfortably larger than any acyclic chain of re-export
/// steps through the loaded modules, so only a true cycle (or a pathological
/// graph) exhausts it.
pub open spec fn spec_budget(ldr: Loader) -> nat {
    let n = if ldr.modules@.len() < 0x1_0000_0000 {
        ldr.modules@.len() as nat
    } else {
        0x1_0000_0000 as nat
    };
    let t = if spec_total_items_from(ldr, 0) < 0x1_0000_0000 {
        spec_total_items_from(ldr, 0)
    } else {
        0x1_0000_0000 as nat
    };
    let p = (n + 1) * (t + 1) * (t + 1);
    if p < 0xffff_ffff_ffff_ffff {
        p
    } else {
        0xffff_ffff_ffff_ffff as nat
    }
}

/// Lazy initialization of the universe scope: built through the ordinary
/// module materialization, exactly once per session.
pub open spec fn spec_universe(ldr: Loader, s: StateModel) -> (StateModel, Option<int>) {
    match s.universe {
        Some(umid) => (s, find_mod(s.modules, umid)),
        None => {
            let umid = ldr.modules@[ldr.universe_index as int].id;
            let (s1, oi) = spec_get_or_init(ldr, s, umid);
            (StateModel { universe: Some(umid), ..s1 }, oi)
        },
    }
}

/// Resolution of one recorded import binding, from the importing file: the
/// loader failure channel reports at the import's range; a named or default
/// import chases the target's exports and reports a miss; a namespace
/// import yields the target module's wrapping object.
pub open spec fn spec_resolve_import(
    ldr: Loader,
    s: StateModel,
    file: Seq<char>,
    imp: ImpModel,
) -> (StateModel, Option<ObjectId>) {
    match ldr.spec_resolve(file, imp.path) {
        None => (s, None),
        Some(out) => match out {
            LoadOutcome::NotFound => (s, None),
            LoadOutcome::Error(msg) => (
                StateModel {
                    diags: s.diags.push(
                        DiagModel { range: imp.range, kind: DiagKindModel::ImportNotFound(msg@) },
                    ),
                    ..s
                },
                None,
            ),
            LoadOutcome::Found(mid) => {
                let (s1, oi) = spec_get_or_init(ldr, s, mid.0);
                match oi {
                    None => (s1, None),
                    Some(tidx) => match imp.kind {
                        ImpKindModel::Named(name) => {
                            let (s2, o) = spec_chase(
                                ldr,
                                s1,
                                tidx,
                                s1.modules[tidx].file,
                                name,
                                spec_budget(ldr),
                            );
                            match o {
                                Some(obj) => (s2, Some(obj)),
                                None => (
                                    StateModel {
                                        diags: s2.diags.push(
                                            DiagModel {
                                                range: imp.range,
                                                kind: DiagKindModel::ExportNotFound(name),
                                            },
                                        ),
                                        ..s2
                                    },
                                    None,
                                ),
                            }
                        },
                        ImpKindModel::Default => {
                            let (s2, o) = spec_chase(
                                ldr,
                                s1,
                                tidx,
                                s1.modules[tidx].file,
                                default_name(),
                                spec_budget(ldr),
                            );
                            match o {
                                Some(obj) => (s2, Some(obj)),
                                None => (
                                    StateModel {
                                        diags: s2.diags.push(
                                            DiagModel {
                                                range: imp.range,
                                                kind: DiagKindModel::DefaultExportNotFound,
                                            },
                                        ),
                                        ..s2
                                    },
                                    None,
                                ),
                            }
                        },
                        ImpKindModel::Namespace => {
                            if s1.module_objects.contains_key(mid.0) {
                                (s1, Some(s1.module_objects[mid.0]))
                            } else {
                                (
                                    StateModel {
                                        diags: s1.diags.push(
                                            DiagModel {
                                                range: imp.range,
                                                kind: DiagKindModel::NamespaceObjectNotFound,
                                            },
                                        ),
                                        ..s1
                                    },
                                    None,
                                )
                            }
                        },
                    },
                }
            },
        },
    }
}

/// Resolution of an identifier occurrence in a materialized module: its own
/// top level first, then its imports, then the universe scope's named
/// exports, else nothing.
pub open spec fn spec_resolve_ident(
    ldr: Loader,
    s: StateModel,
    mid: u64,
    bind: u64,
    sym: Seq<char>,
) -> (StateModel, Option<ObjectId>) {
    match find_mod(s.modules, mid) {
        None => (s, None),
        Some(midx) => {
            let ns = s.modules[midx].ns;
            let key = (bind, sym);
            if ns.top_level.contains_key(key) {
                (s, Some(ns.top_level[key]))
            } else if ns.imports.contains_key(key) {
                spec_resolve_import(ldr, s, s.modules[midx].file, ns.imports[key])
            } else {
                let (s1, uo) = spec_universe(ldr, s);
                match uo {
                    Some(uidx) => {
                        if s1.modules[uidx].ns.named_exports.contains_key(sym) {
                            (s1, Some(s1.modules[uidx].ns.named_exports[sym]))
                        } else {
                            (s1, None)
                        }
                    },
                    None => (s1, None),
                }
            }
        },
    }
}

/// A `None` scan from `i` means no index at or after `i` matches.
pub proof fn lemma_find_mod_scan(mods: Seq<ModModel>, mid: u64, i: int)
    requires
        0 <= i,
        find_mod_from(mods, mid, i) is None,
    ensures
        forall|j: int| i <= j < mods.len() ==> mods[j].module_id != mid,
    decreases mods.len() - i,
{
    if i < mods.len() {
        lemma_find_mod_scan(mods, mid, i + 1);
    }
}

/// Appending a module leaves a successful scan unchanged.
pub proof fn lemma_find_mod_extend(mods: Seq<ModModel>, m: ModModel, mid: u64, i: int)
    requires
        0 <= i,
        find_mod_from(mods, mid, i) is Some,
    ensures
        find_mod_from(mods.push(m), mid, i) == find_mod_from(mods, mid, i),
    decreases mods.len() - i,
{
    if i < mods.len() {
        assert(mods.push(m)[i] == mods[i]);
        if mods[i].module_id != mid {
            lemma_find_mod_extend(mods, m, mid, i + 1);
        }
    }
}

/// Appending the module with a hitherto absent identity makes that identity
/// findable at the end.
pub proof fn lemma_find_mod_push_new(mods: Seq<ModModel>, m: ModModel, mid: u64, i: int)
    requires
        0 <= i <= mods.len(),
        find_mod_from(mods, mid, i) is None,
        m.module_id == mid,
    ensures
        find_mod_from(mods.push(m), mid, i) == Some(mods.len() as int),
    decreases mods.len() - i,
{
    if i < mods.len() {
        assert(mods.push(m)[i] == mods[i]);
        lemma_find_mod_push_new(mods, m, mid, i + 1);
    } else {
        assert(mods.push(m)[i] == m);
    }
}

/// Appending a module under a different identity leaves a failed scan
/// failed.
pub proof fn lemma_find_mod_push_other(mods: Seq<ModModel>, m: ModModel, mid: u64, i: int)
    requires
        0 <= i <= mods.len(),
        find_mod_from(mods, mid, i) is None,
        m.module_id != mid,
    ensures
        find_mod_from(mods.push(m), mid, i) is None,
    decreases mods.len() - i,
{
    if i < mods.len() {
        assert(mods.push(m)[i] == mods[i]);
        lemma_find_mod_push_other(mods, m, mid, i + 1);
    } else {
        assert(mods.push(m)[i] == m);
        assert(find_mod_from(mods.push(m), mid, i + 1) is None);
    }
}

/// Named-export lookup in a scope table standing on its own: the default
/// export for the name `default`, else a direct named export, else the
/// first match along the scope's re-export directives.
pub open spec fn spec_ns_get_named_export(
    ldr: Loader,
    s: StateModel,
    ns: NsModel,
    file: Seq<char>,
    needle: Seq<char>,
) -> (StateModel, Option<ObjectId>) {
    if needle == default_name() && ns.default_export is Some {
        (s, Some(ns.default_export->0))
    } else if ns.named_exports.contains_key(needle) {
        (s, Some(ns.named_exports[needle]))
    } else {
        spec_chase_reexports(ldr, s, ns.reexports, 0, file, needle, spec_budget(ldr))
    }
}

/// A successful scan reports an in-range position carrying the identity.
pub proof fn lemma_find_mod_bounds(mods: Seq<ModModel>, mid: u64, i: int)
    requires
        0 <= i,
        find_mod_from(mods, mid, i) is Some,
    ensures
        ({
            let k = find_mod_from(mods, mid, i)->Some_0;
            i <= k < mods.len() && mods[k].module_id == mid
        }),
    decreases mods.len() - i,
{
    if i < mods.len() && mods[i].module_id != mid {
        lemma_find_mod_bounds(mods, mid, i + 1);
    }
}

} // verus!
