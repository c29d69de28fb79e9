//! Session-wide laws of the resolution engine, stated over the transition
//! model of [`crate::model`] and proved once and for all.

use vstd::prelude::*;
use crate::ast::{
    Decl, DefaultDecl, ImportDecl, ModuleItem, NamespaceBody, Stmt, VarDeclarator, body_size,
    decl_size, item_size, items_size_from, stmt_size, stmts_size_from,
};
use crate::loader::Loader;
use crate::model::{
    StateModel, default_decl_range, find_mod, spec_add_import, spec_get_or_init, spec_new_obj,
    spec_process_bindings_from, spec_process_namespace_body, spec_process_decl, spec_process_default_decl,
    spec_process_import_from, spec_process_item, spec_process_module_items_from, spec_process_stmt,
    spec_process_stmts_from, spec_process_var_from, spec_resolve_ident,
};
use crate::model::{
    find_mod_from, lemma_find_mod_push_new, spec_chase, spec_chase_reexports,
    spec_resolve_module_import,
};
use crate::object::{DiagKindModel, DiagModel, ImpModel, NsModel, ObjectId};

verus! {

/// Whether two session states agree on everything but the object arena, the
/// check states and the diagnostics: the parts a namespace-construction
/// pass never touches.
pub open spec fn same_session_shape(a: StateModel, b: StateModel) -> bool {
    &&& a.modules == b.modules
    &&& a.stack == b.stack
    &&& a.module_objects == b.module_objects
    &&& a.universe == b.universe
}

/// A construction pass over a scope's items touches only the object arena,
/// the check states and the diagnostics.
pub proof fn lemma_items_shape(s: StateModel, ns: NsModel, items: Seq<ModuleItem>, i: int)
    ensures
        same_session_shape(s, spec_process_module_items_from(s, ns, items, i).0),
    decreases items_size_from(items, i), 1int,
{
    if 0 <= i < items.len() {
        let (s1, ns1) = spec_process_item(s, ns, items[i]);
        crate::ast::lemma_item_size_le(items, i, i);
        assert(items_size_from(items, i) == item_size(items[i]) + items_size_from(items, i + 1));
        assert(item_size(items[i]) >= 1);
        lemma_item_shape(s, ns, items[i]);
        lemma_items_shape(s1, ns1, items, i + 1);
    }
}

/// Processing one item keeps the session shape.
pub proof fn lemma_item_shape(s: StateModel, ns: NsModel, it: ModuleItem)
    ensures
        same_session_shape(s, spec_process_item(s, ns, it).0),
    decreases item_size(it), 0int,
{
    match it {
        ModuleItem::Import(imp) => {
            lemma_import_shape(s, ns, imp, 0);
        },
        ModuleItem::ExportDecl(d) => {
            lemma_decl_shape(s, ns, d);
        },
        ModuleItem::ExportDefaultDecl(_) => {},
        ModuleItem::Stmt(st) => {
            lemma_stmt_shape(s, ns, st);
        },
        _ => {},
    }
}

/// Recording import specifiers keeps the session shape.
pub proof fn lemma_import_shape(s: StateModel, ns: NsModel, imp: ImportDecl, i: int)
    ensures
        same_session_shape(s, spec_process_import_from(s, ns, imp, i).0),
    decreases imp.specifiers@.len() - i,
{
    if 0 <= i < imp.specifiers@.len() {
        let stepped = match imp.specifiers@[i] {
            crate::ast::ImportSpecifier::Named { local, imported, range } => spec_add_import(
                s,
                ns,
                (local.id, local.sym@),
                ImpModel {
                    range,
                    path: imp.src@,
                    kind: crate::object::ImpKindModel::Named(
                        match imported {
                            Some(men) => men.chars(),
                            None => local.sym@,
                        },
                    ),
                },
            ),
            crate::ast::ImportSpecifier::Default { local, range } => spec_add_import(
                s,
                ns,
                (local.id, local.sym@),
                ImpModel { range, path: imp.src@, kind: crate::object::ImpKindModel::Default },
            ),
            crate::ast::ImportSpecifier::Namespace { local, range } => spec_add_import(
                s,
                ns,
                (local.id, local.sym@),
                ImpModel { range, path: imp.src@, kind: crate::object::ImpKindModel::Namespace },
            ),
        };
        lemma_import_shape(stepped.0, stepped.1, imp, i + 1);
    }
}

/// Processing one declaration keeps the session shape.
pub proof fn lemma_decl_shape(s: StateModel, ns: NsModel, d: Decl)
    ensures
        same_session_shape(s, spec_process_decl(s, ns, d).0),
    decreases decl_size(d), 0int,
{
    match d {
        Decl::Var(v) => {
            lemma_var_shape(s, ns, v.decls@, false, Seq::empty(), 0);
        },
        Decl::Using(v) => {
            lemma_var_shape(s, ns, v.decls@, true, Seq::empty(), 0);
        },
        Decl::TsModule(m) => {
            match m.id {
                crate::ast::TsModuleName::Ident(_) => {
                    match m.body {
                        Some(b) => {
                            lemma_body_shape(s, NsModel::empty(), b);
                        },
                        None => {},
                    }
                },
                crate::ast::TsModuleName::Str(_) => {},
            }
        },
        _ => {},
    }
}

/// Processing variable declarators keeps the session shape.
pub proof fn lemma_var_shape(
    s: StateModel,
    ns: NsModel,
    decls: Seq<VarDeclarator>,
    using: bool,
    objs: Seq<ObjectId>,
    di: int,
)
    ensures
        same_session_shape(s, spec_process_var_from(s, ns, decls, using, objs, di).0),
    decreases decls.len() - di,
{
    if 0 <= di < decls.len() {
        let (s1, ns1, objs1) = spec_process_bindings_from(s, ns, decls[di], using, objs, 0);
        lemma_bindings_shape(s, ns, decls[di], using, objs, 0);
        lemma_var_shape(s1, ns1, decls, using, objs1, di + 1);
    }
}

/// Processing the bindings of one declarator keeps the session shape.
pub proof fn lemma_bindings_shape(
    s: StateModel,
    ns: NsModel,
    d: VarDeclarator,
    using: bool,
    objs: Seq<ObjectId>,
    bi: int,
)
    ensures
        same_session_shape(s, spec_process_bindings_from(s, ns, d, using, objs, bi).0),
    decreases d.bindings@.len() - bi,
{
    if 0 <= bi < d.bindings@.len() {
        let b = d.bindings@[bi];
        let kind = if using {
            crate::object::KindModel::Using { type_ann: b.type_ann, expr: d.init }
        } else {
            crate::object::KindModel::Var { type_ann: b.type_ann, expr: d.init }
        };
        let (s1, obj) = spec_new_obj(s, Some(b.name@), d.range, kind);
        let ns1 = crate::model::spec_add_top_level(ns, (b.id, b.name@), obj);
        lemma_bindings_shape(s1, ns1, d, using, objs.push(obj), bi + 1);
    }
}

/// Processing one statement keeps the session shape.
pub proof fn lemma_stmt_shape(s: StateModel, ns: NsModel, st: Stmt)
    ensures
        same_session_shape(s, spec_process_stmt(s, ns, st).0),
    decreases stmt_size(st), 0int,
{
    match st {
        Stmt::Decl(d) => {
            lemma_decl_shape(s, ns, d);
        },
        Stmt::Block(v, _) => {
            lemma_stmts_shape(s, ns, v@, Seq::empty(), 0);
        },
        Stmt::Other(_) => {},
    }
}

/// Processing a block's statements keeps the session shape.
pub proof fn lemma_stmts_shape(
    s: StateModel,
    ns: NsModel,
    stmts: Seq<Stmt>,
    objs: Seq<ObjectId>,
    i: int,
)
    ensures
        same_session_shape(s, spec_process_stmts_from(s, ns, stmts, objs, i).0),
    decreases stmts_size_from(stmts, i), 1int,
{
    if 0 <= i < stmts.len() {
        let (s1, ns1, objs1) = spec_process_stmt(s, ns, stmts[i]);
        crate::ast::lemma_stmt_size_le(stmts, i, i);
        assert(stmts_size_from(stmts, i) == stmt_size(stmts[i]) + stmts_size_from(stmts, i + 1));
        assert(stmt_size(stmts[i]) >= 1);
        lemma_stmt_shape(s, ns, stmts[i]);
        lemma_stmts_shape(s1, ns1, stmts, objs + objs1, i + 1);
    }
}

/// Processing a namespace body keeps the session shape.
pub proof fn lemma_body_shape(s: StateModel, ns: NsModel, b: NamespaceBody)
    ensures
        same_session_shape(s, spec_process_namespace_body(s, ns, b).0),
    decreases body_size(b), 0int,
{
    match b {
        NamespaceBody::Block(v) => {
            lemma_items_shape(s, ns, v@, 0);
        },
        NamespaceBody::Decl(nd) => {
            lemma_body_shape(s, NsModel::empty(), *nd.body);
        },
    }
}

/// Memoization: materializing an already materialized module returns it as
/// it is and changes nothing — in particular, no namespace table is built a
/// second time and no diagnostic is repeated.
pub proof fn lemma_memoization(ldr: Loader, s: StateModel, mid: u64)
    requires
        find_mod(s.modules, mid) is Some,
    ensures
        spec_get_or_init(ldr, s, mid) == (s, find_mod(s.modules, mid)),
{
}

/// Memoization across two calls: whenever materialization succeeds, a
/// second materialization of the same identity returns the same module
/// index and leaves the session state untouched.
pub proof fn lemma_memoization_twice(ldr: Loader, s: StateModel, mid: u64)
    ensures
        ({
            let (s1, r) = spec_get_or_init(ldr, s, mid);
            r is Some ==> spec_get_or_init(ldr, s1, mid) == (s1, r)
        }),
{
    let (s1, r) = spec_get_or_init(ldr, s, mid);
    if r is Some {
        match find_mod(s.modules, mid) {
            Some(_) => {},
            None => {
                match ldr.spec_module_index(mid) {
                    None => {},
                    Some(li) => {
                        let ast = ldr.modules@[li];
                        let sa = StateModel { stack: s.stack.push(mid), ..s };
                        let (sb, nsm) = spec_process_module_items_from(
                            sa,
                            NsModel::empty(),
                            ast.items@,
                            0,
                        );
                        lemma_items_shape(sa, NsModel::empty(), ast.items@, 0);
                        assert(sb.modules == s.modules);
                        let modl = crate::object::ModModel {
                            module_id: mid,
                            file: ast.file_name@,
                            pkg: match ast.pkg_path {
                                Some(p) => Some(p@),
                                None => None,
                            },
                            ns: nsm,
                        };
                        lemma_find_mod_push_new(s.modules, modl, mid, 0);
                        assert(s1.modules == s.modules.push(modl));
                        assert(find_mod(s1.modules, mid) == Some(s.modules.len() as int));
                        assert(r == Some(s.modules.len() as int));
                    },
                }
            },
        }
    }
}

/// Identity stability for names declared in a module's own top level:
/// resolving such an identifier changes nothing, and resolving it twice
/// yields the same object identity both times.
pub proof fn lemma_identity_stability_top_level(
    ldr: Loader,
    s: StateModel,
    mid: u64,
    bind: u64,
    sym: Seq<char>,
)
    requires
        find_mod(s.modules, mid) is Some,
        s.modules[find_mod(s.modules, mid)->Some_0].ns.top_level.contains_key((bind, sym)),
    ensures
        ({
            let i = find_mod(s.modules, mid)->Some_0;
            let target = s.modules[i].ns.top_level[(bind, sym)];
            &&& spec_resolve_ident(ldr, s, mid, bind, sym) == (s, Some(target))
            &&& spec_resolve_ident(ldr, s, mid, bind, sym) == spec_resolve_ident(
                ldr,
                spec_resolve_ident(ldr, s, mid, bind, sym).0,
                mid,
                bind,
                sym,
            )
        }),
{
}

/// Default-export uniqueness: of two `export default` declarations in one
/// scope, the first is kept as the scope's default export and the second is
/// reported as a duplicate at its own range — and nothing else is reported.
pub proof fn lemma_default_export_uniqueness(
    s: StateModel,
    ns: NsModel,
    d1: DefaultDecl,
    d2: DefaultDecl,
)
    requires
        ns.default_export is None,
    ensures
        ({
            let items = seq![
                ModuleItem::ExportDefaultDecl(d1),
                ModuleItem::ExportDefaultDecl(d2),
            ];
            let (s2, ns2) = spec_process_module_items_from(s, ns, items, 0);
            let first = spec_process_default_decl(s, d1).1;
            &&& ns2.default_export == Some(first)
            &&& s2.diags == s.diags.push(
                DiagModel {
                    range: default_decl_range(d2),
                    kind: DiagKindModel::DuplicateDefaultExport,
                },
            )
        }),
{
    let items = seq![ModuleItem::ExportDefaultDecl(d1), ModuleItem::ExportDefaultDecl(d2)];
    let (sa, nsa) = spec_process_item(s, ns, items[0]);
    let (sb, nsb) = spec_process_item(sa, nsa, items[1]);
    assert(items[0] == ModuleItem::ExportDefaultDecl(d1));
    assert(items[1] == ModuleItem::ExportDefaultDecl(d2));
    assert(spec_process_module_items_from(sa, nsa, items, 1) == spec_process_module_items_from(sb, nsb, items, 2));
    assert(spec_process_module_items_from(s, ns, items, 0) == (sb, nsb));
}

/// Duplicate-import rejection: of two import bindings under the same local
/// identity, the first wins, the second is reported at its own range and
/// dropped, and the table holds exactly one entry for that identity.
pub proof fn lemma_duplicate_import_rejection(
    s: StateModel,
    ns: NsModel,
    key: (u64, Seq<char>),
    first: ImpModel,
    second: ImpModel,
)
    requires
        !ns.imports.contains_key(key),
    ensures
        ({
            let (s1, ns1) = spec_add_import(s, ns, key, first);
            let (s2, ns2) = spec_add_import(s1, ns1, key, second);
            &&& ns2.imports == ns.imports.insert(key, first)
            &&& ns2.imports.dom() == ns.imports.dom().insert(key)
            &&& ns2 == ns1
            &&& s2.diags == s.diags.push(
                DiagModel { range: second.range, kind: DiagKindModel::AlreadyImported(key.1) },
            )
        }),
{
    let (s1, ns1) = spec_add_import(s, ns, key, first);
    let (s2, ns2) = spec_add_import(s1, ns1, key, second);
    assert(ns2.imports.dom() =~= ns.imports.dom().insert(key));
}

/// Identity stability for names answered by a scope's own export table:
/// the lookup changes nothing, and looking the name up twice yields the
/// same object identity both times.
pub proof fn lemma_identity_stability_named_export(
    ldr: Loader,
    s: StateModel,
    ns: NsModel,
    file: Seq<char>,
    needle: Seq<char>,
)
    requires
        ns.named_exports.contains_key(needle),
        needle == crate::model::default_name() ==> ns.default_export is Some,
    ensures
        ({
            let (s1, r1) = crate::model::spec_ns_get_named_export(ldr, s, ns, file, needle);
            &&& s1 == s
            &&& r1 is Some
            &&& crate::model::spec_ns_get_named_export(ldr, s1, ns, file, needle) == (s1, r1)
        }),
{
}

// Stability of repeated resolution. A resolution query materializes
// modules; the lemmas below show that the state only ever grows (modules
// are appended, wrapping objects only added), and that re-running a query
// from the state it produced changes nothing and returns the same object.

/// `b`'s materialized modules extend `a`'s: `a`'s are a prefix.
pub open spec fn mods_prefix(a: Seq<crate::object::ModModel>, b: Seq<crate::object::ModModel>) -> bool {
    a.len() <= b.len() && forall|i: int| 0 <= i < a.len() ==> b[i] == a[i]
}

/// `b` extends `a` in everything an export chase reads across queries: the
/// materialized modules, by position.
pub open spec fn st_extends(a: StateModel, b: StateModel) -> bool {
    mods_prefix(a.modules, b.modules)
}

/// Extension is transitive.
pub proof fn lemma_extends_trans(a: StateModel, b: StateModel, c: StateModel)
    requires
        st_extends(a, b),
        st_extends(b, c),
    ensures
        st_extends(a, c),
{
}

/// A module found among a prefix is found at the same place in the whole.
pub proof fn lemma_find_mod_prefix(
    a: Seq<crate::object::ModModel>,
    b: Seq<crate::object::ModModel>,
    mid: u64,
    i: int,
)
    requires
        mods_prefix(a, b),
        0 <= i,
        find_mod_from(a, mid, i) is Some,
    ensures
        find_mod_from(b, mid, i) == find_mod_from(a, mid, i),
    decreases a.len() - i,
{
    if i < a.len() {
        assert(b[i] == a[i]);
        if a[i].module_id != mid {
            lemma_find_mod_prefix(a, b, mid, i + 1);
        }
    }
}

/// The scan finds the first position carrying the identity.
pub proof fn lemma_find_mod_exact(mods: Seq<crate::object::ModModel>, mid: u64, k: int, i: int)
    requires
        0 <= i <= k < mods.len(),
        mods[k].module_id == mid,
        forall|j: int| 0 <= j < k ==> mods[j].module_id != mid,
    ensures
        find_mod_from(mods, mid, i) == Some(k),
    decreases k - i,
{
    if i < k {
        lemma_find_mod_exact(mods, mid, k, i + 1);
    }
}

/// Materialization only extends the session.
pub proof fn lemma_goi_extends(ldr: Loader, s: StateModel, mid: u64)
    ensures
        st_extends(s, spec_get_or_init(ldr, s, mid).0),
        ({
            let (s1, r) = spec_get_or_init(ldr, s, mid);
            r matches Some(i) ==> 0 <= i < s1.modules.len() && s1.modules[i].module_id == mid
                && find_mod(s1.modules, mid) == Some(i)
        }),
{
    match find_mod(s.modules, mid) {
        Some(i) => {
            crate::model::lemma_find_mod_bounds(s.modules, mid, 0);
        },
        None => {
            match ldr.spec_module_index(mid) {
                None => {},
                Some(li) => {
                    let ast = ldr.modules@[li];
                    let sa = StateModel { stack: s.stack.push(mid), ..s };
                    let (sb, nsm) = crate::model::spec_process_module_items_from(
                        sa,
                        NsModel::empty(),
                        ast.items@,
                        0,
                    );
                    lemma_items_shape(sa, NsModel::empty(), ast.items@, 0);
                    assert(sb.modules == s.modules);
                    let modl = crate::object::ModModel {
                        module_id: mid,
                        file: ast.file_name@,
                        pkg: match ast.pkg_path {
                            Some(p) => Some(p@),
                            None => None,
                        },
                        ns: nsm,
                    };
                    let (s1, r) = spec_get_or_init(ldr, s, mid);
                    assert(s1.modules == s.modules.push(modl));
                    crate::model::lemma_find_mod_scan(s.modules, mid, 0);
                    assert(s1.modules[s.modules.len() as int] == modl);
                    assert(forall|j: int|
                        0 <= j < s.modules.len() ==> s1.modules[j] == s.modules[j]);
                    lemma_find_mod_exact(s1.modules, mid, s.modules.len() as int, 0);
                },
            }
        },
    }
}

/// Import-path resolution only extends the session, and a hit names a
/// module sitting at its reported index.
pub proof fn lemma_rmi_extends(ldr: Loader, s: StateModel, file: Seq<char>, path: Seq<char>)
    ensures
        st_extends(s, spec_resolve_module_import(ldr, s, file, path).0),
        ({
            let (s1, r) = spec_resolve_module_import(ldr, s, file, path);
            r matches Some(i) ==> 0 <= i < s1.modules.len()
        }),
{
    match ldr.spec_resolve(file, path) {
        Some(out) => match out {
            crate::loader::LoadOutcome::Found(mid) => {
                lemma_goi_extends(ldr, s, mid.0);
            },
            _ => {},
        },
        None => {},
    }
}

/// An export chase only extends the session.
pub proof fn lemma_chase_extends(
    ldr: Loader,
    s: StateModel,
    midx: int,
    file: Seq<char>,
    needle: Seq<char>,
    fuel: nat,
)
    ensures
        st_extends(s, spec_chase(ldr, s, midx, file, needle, fuel).0),
    decreases fuel, 0int, 0int,
{
    if fuel != 0 {
        let ns = s.modules[midx].ns;
        if needle == crate::model::default_name() && ns.default_export is Some {
        } else if ns.named_exports.contains_key(needle) {
        } else {
            lemma_chase_rexps_extends(ldr, s, ns.reexports, 0, file, needle, (fuel - 1) as nat);
        }
    }
}

/// A re-export scan only extends the session.
pub proof fn lemma_chase_rexps_extends(
    ldr: Loader,
    s: StateModel,
    rexps: Seq<crate::object::ReexModel>,
    j: int,
    file: Seq<char>,
    needle: Seq<char>,
    fuel: nat,
)
    ensures
        st_extends(s, spec_chase_reexports(ldr, s, rexps, j, file, needle, fuel).0),
    decreases fuel, 1int, rexps.len() - j,
{
    if 0 <= j < rexps.len() {
        match rexps[j] {
            crate::object::ReexModel::List { items, path } => {
                match crate::model::spec_find_reex_item(items, needle, 0) {
                    Some(k) => {
                        let (s1, om) = spec_resolve_module_import(ldr, s, file, path);
                        lemma_rmi_extends(ldr, s, file, path);
                        match om {
                            None => {},
                            Some(tidx) => {
                                lemma_chase_extends(
                                    ldr,
                                    s1,
                                    tidx,
                                    s1.modules[tidx].file,
                                    items[k].orig,
                                    fuel,
                                );
                                lemma_extends_trans(
                                    s,
                                    s1,
                                    spec_chase(
                                        ldr,
                                        s1,
                                        tidx,
                                        s1.modules[tidx].file,
                                        items[k].orig,
                                        fuel,
                                    ).0,
                                );
                            },
                        }
                    },
                    None => {
                        lemma_chase_rexps_extends(ldr, s, rexps, j + 1, file, needle, fuel);
                    },
                }
            },
            crate::object::ReexModel::All { path } => {
                let (s1, om) = spec_resolve_module_import(ldr, s, file, path);
                lemma_rmi_extends(ldr, s, file, path);
                match om {
                    None => {
                        lemma_chase_rexps_extends(ldr, s1, rexps, j + 1, file, needle, fuel);
                        lemma_extends_trans(
                            s,
                            s1,
                            spec_chase_reexports(ldr, s1, rexps, j + 1, file, needle, fuel).0,
                        );
                    },
                    Some(tidx) => {
                        let (s2, or) = spec_chase(ldr, s1, tidx, file, needle, fuel);
                        lemma_chase_extends(ldr, s1, tidx, file, needle, fuel);
                        lemma_extends_trans(s, s1, s2);
                        match or {
                            Some(_) => {},
                            None => {
                                lemma_chase_rexps_extends(ldr, s2, rexps, j + 1, file, needle, fuel);
                                lemma_extends_trans(
                                    s,
                                    s2,
                                    spec_chase_reexports(
                                        ldr,
                                        s2,
                                        rexps,
                                        j + 1,
                                        file,
                                        needle,
                                        fuel,
                                    ).0,
                                );
                            },
                        }
                    },
                }
            },
        }
    }
}

/// A found outcome is the outcome of some recorded edge.
pub proof fn lemma_find_edge_member(
    edges: Seq<crate::loader::ImportEdge>,
    file: Seq<char>,
    path: Seq<char>,
    i: int,
)
    requires
        0 <= i,
        crate::loader::find_edge_from(edges, file, path, i) is Some,
    ensures
        exists|k: int|
            0 <= k < edges.len() && #[trigger] edges[k].outcome == crate::loader::find_edge_from(
                edges,
                file,
                path,
                i,
            )->Some_0,
    decreases edges.len() - i,
{
    if i < edges.len() {
        if edges[i].from_file@ == file && edges[i].path@ == path {
            assert(edges[i].outcome == crate::loader::find_edge_from(edges, file, path, i)->Some_0);
        } else {
            lemma_find_edge_member(edges, file, path, i + 1);
        }
    }
}

/// Under a well-formed loader, every found outcome names a loaded module,
/// so materializing it succeeds.
pub proof fn lemma_goi_found_succeeds(ldr: Loader, s: StateModel, mid: u64)
    requires
        ldr.spec_module_index(mid) is Some,
    ensures
        spec_get_or_init(ldr, s, mid).1 is Some,
{
}

/// Replaying a materialization from any state that extends its outcome
/// changes nothing and returns the same index.
pub proof fn lemma_goi_replay(ldr: Loader, s: StateModel, t: StateModel, mid: u64)
    requires
        spec_get_or_init(ldr, s, mid).1 is Some,
        st_extends(spec_get_or_init(ldr, s, mid).0, t),
    ensures
        spec_get_or_init(ldr, t, mid) == (t, spec_get_or_init(ldr, s, mid).1),
{
    let (s1, r) = spec_get_or_init(ldr, s, mid);
    lemma_goi_extends(ldr, s, mid);
    let i = r->Some_0;
    assert(find_mod(s1.modules, mid) == Some(i));
    lemma_find_mod_prefix(s1.modules, t.modules, mid, 0);
    assert(find_mod(t.modules, mid) == Some(i));
}

/// Replaying an import-path resolution from any state that extends its
/// outcome changes nothing and returns the same index.
pub proof fn lemma_rmi_replay(
    ldr: Loader,
    s: StateModel,
    t: StateModel,
    file: Seq<char>,
    path: Seq<char>,
)
    requires
        ldr.wf(),
        st_extends(spec_resolve_module_import(ldr, s, file, path).0, t),
    ensures
        spec_resolve_module_import(ldr, t, file, path) == (
            t,
            spec_resolve_module_import(ldr, s, file, path).1,
        ),
{
    match ldr.spec_resolve(file, path) {
        Some(out) => match out {
            crate::loader::LoadOutcome::Found(mid) => {
                lemma_find_edge_member(ldr.edges@, file, path, 0);
                let k = choose|k: int|
                    0 <= k < ldr.edges@.len() && #[trigger] ldr.edges@[k].outcome == out;
                assert(ldr.spec_module_index(mid.0) is Some);
                lemma_goi_found_succeeds(ldr, s, mid.0);
                lemma_goi_replay(ldr, s, t, mid.0);
            },
            _ => {},
        },
        None => {},
    }
}

/// Replaying an export chase from any state that extends its outcome
/// changes nothing and returns the same object.
pub proof fn lemma_chase_replay(
    ldr: Loader,
    s: StateModel,
    t: StateModel,
    midx: int,
    file: Seq<char>,
    needle: Seq<char>,
    fuel: nat,
)
    requires
        ldr.wf(),
        0 <= midx < s.modules.len(),
        st_extends(spec_chase(ldr, s, midx, file, needle, fuel).0, t),
    ensures
        spec_chase(ldr, t, midx, file, needle, fuel) == (
            t,
            spec_chase(ldr, s, midx, file, needle, fuel).1,
        ),
    decreases fuel, 0int, 0int,
{
    if fuel != 0 {
        lemma_chase_extends(ldr, s, midx, file, needle, fuel);
        lemma_extends_trans(s, spec_chase(ldr, s, midx, file, needle, fuel).0, t);
        assert(t.modules[midx] == s.modules[midx]);
        let ns = s.modules[midx].ns;
        if needle == crate::model::default_name() && ns.default_export is Some {
        } else if ns.named_exports.contains_key(needle) {
        } else {
            lemma_chase_rexps_replay(ldr, s, t, ns.reexports, 0, file, needle, (fuel - 1) as nat);
        }
    }
}

/// Replaying a re-export scan from any state that extends its outcome
/// changes nothing and returns the same object.
pub proof fn lemma_chase_rexps_replay(
    ldr: Loader,
    s: StateModel,
    t: StateModel,
    rexps: Seq<crate::object::ReexModel>,
    j: int,
    file: Seq<char>,
    needle: Seq<char>,
    fuel: nat,
)
    requires
        ldr.wf(),
        st_extends(spec_chase_reexports(ldr, s, rexps, j, file, needle, fuel).0, t),
    ensures
        spec_chase_reexports(ldr, t, rexps, j, file, needle, fuel) == (
            t,
            spec_chase_reexports(ldr, s, rexps, j, file, needle, fuel).1,
        ),
    decreases fuel, 1int, rexps.len() - j,
{
    if 0 <= j < rexps.len() {
        match rexps[j] {
            crate::object::ReexModel::List { items, path } => {
                match crate::model::spec_find_reex_item(items, needle, 0) {
                    Some(k) => {
                        let (s1, om) = spec_resolve_module_import(ldr, s, file, path);
                        lemma_rmi_extends(ldr, s, file, path);
                        match om {
                            None => {
                                lemma_rmi_replay(ldr, s, t, file, path);
                            },
                            Some(tidx) => {
                                lemma_chase_extends(
                                    ldr,
                                    s1,
                                    tidx,
                                    s1.modules[tidx].file,
                                    items[k].orig,
                                    fuel,
                                );
                                lemma_extends_trans(
                                    s1,
                                    spec_chase(
                                        ldr,
                                        s1,
                                        tidx,
                                        s1.modules[tidx].file,
                                        items[k].orig,
                                        fuel,
                                    ).0,
                                    t,
                                );
                                lemma_rmi_replay(ldr, s, t, file, path);
                                assert(t.modules[tidx] == s1.modules[tidx]);
                                lemma_chase_replay(
                                    ldr,
                                    s1,
                                    t,
                                    tidx,
                                    s1.modules[tidx].file,
                                    items[k].orig,
                                    fuel,
                                );
                            },
                        }
                    },
                    None => {
                        lemma_chase_rexps_replay(ldr, s, t, rexps, j + 1, file, needle, fuel);
                    },
                }
            },
            crate::object::ReexModel::All { path } => {
                let (s1, om) = spec_resolve_module_import(ldr, s, file, path);
                lemma_rmi_extends(ldr, s, file, path);
                match om {
                    None => {
                        lemma_chase_rexps_extends(ldr, s1, rexps, j + 1, file, needle, fuel);
                        lemma_extends_trans(
                            s1,
                            spec_chase_reexports(ldr, s1, rexps, j + 1, file, needle, fuel).0,
                            t,
                        );
                        lemma_rmi_replay(ldr, s, t, file, path);
                        lemma_chase_rexps_replay(ldr, s1, t, rexps, j + 1, file, needle, fuel);
                    },
                    Some(tidx) => {
                        let (s2, or) = spec_chase(ldr, s1, tidx, file, needle, fuel);
                        lemma_chase_extends(ldr, s1, tidx, file, needle, fuel);
                        match or {
                            Some(_) => {
                                lemma_rmi_replay(ldr, s, t, file, path);
                                lemma_chase_replay(ldr, s1, t, tidx, file, needle, fuel);
                            },
                            None => {
                                lemma_chase_rexps_extends(ldr, s2, rexps, j + 1, file, needle, fuel);
                                lemma_extends_trans(
                                    s2,
                                    spec_chase_reexports(
                                        ldr,
                                        s2,
                                        rexps,
                                        j + 1,
                                        file,
                                        needle,
                                        fuel,
                                    ).0,
                                    t,
                                );
                                lemma_extends_trans(
                                    s1,
                                    s2,
                                    t,
                                );
                                lemma_rmi_replay(ldr, s, t, file, path);
                                lemma_chase_replay(ldr, s1, t, tidx, file, needle, fuel);
                                lemma_chase_rexps_replay(
                                    ldr,
                                    s2,
                                    t,
                                    rexps,
                                    j + 1,
                                    file,
                                    needle,
                                    fuel,
                                );
                            },
                        }
                    },
                }
            },
        }
    }
}

/// Resolving one import binding only extends the session.
pub proof fn lemma_ri_extends(ldr: Loader, s: StateModel, file: Seq<char>, imp: ImpModel)
    ensures
        st_extends(s, crate::model::spec_resolve_import(ldr, s, file, imp).0),
{
    match ldr.spec_resolve(file, imp.path) {
        None => {},
        Some(out) => match out {
            crate::loader::LoadOutcome::NotFound => {},
            crate::loader::LoadOutcome::Error(_) => {},
            crate::loader::LoadOutcome::Found(mid) => {
                let (s1, oi) = spec_get_or_init(ldr, s, mid.0);
                lemma_goi_extends(ldr, s, mid.0);
                match oi {
                    None => {},
                    Some(tidx) => match imp.kind {
                        crate::object::ImpKindModel::Named(name) => {
                            lemma_chase_extends(
                                ldr,
                                s1,
                                tidx,
                                s1.modules[tidx].file,
                                name,
                                crate::model::spec_budget(ldr),
                            );
                            lemma_extends_trans(
                                s,
                                s1,
                                spec_chase(
                                    ldr,
                                    s1,
                                    tidx,
                                    s1.modules[tidx].file,
                                    name,
                                    crate::model::spec_budget(ldr),
                                ).0,
                            );
                        },
                        crate::object::ImpKindModel::Default => {
                            lemma_chase_extends(
                                ldr,
                                s1,
                                tidx,
                                s1.modules[tidx].file,
                                crate::model::default_name(),
                                crate::model::spec_budget(ldr),
                            );
                            lemma_extends_trans(
                                s,
                                s1,
                                spec_chase(
                                    ldr,
                                    s1,
                                    tidx,
                                    s1.modules[tidx].file,
                                    crate::model::default_name(),
                                    crate::model::spec_budget(ldr),
                                ).0,
                            );
                        },
                        crate::object::ImpKindModel::Namespace => {},
                    },
                }
            },
        },
    }
}

/// Resolving one import binding twice yields the same object: whenever the
/// first resolution succeeds, repeating it from the state it produced
/// changes nothing and returns the same object identity.
pub proof fn lemma_resolve_import_stability(
    ldr: Loader,
    s: StateModel,
    file: Seq<char>,
    imp: ImpModel,
)
    requires
        ldr.wf(),
    ensures
        ({
            let (s1, r1) = crate::model::spec_resolve_import(ldr, s, file, imp);
            r1 is Some ==> crate::model::spec_resolve_import(ldr, s1, file, imp) == (s1, r1)
        }),
{
    let (s1, r1) = crate::model::spec_resolve_import(ldr, s, file, imp);
    if r1 is Some {
        match ldr.spec_resolve(file, imp.path) {
            None => {},
            Some(out) => match out {
                crate::loader::LoadOutcome::NotFound => {},
                crate::loader::LoadOutcome::Error(_) => {},
                crate::loader::LoadOutcome::Found(mid) => {
                    lemma_find_edge_member(ldr.edges@, file, imp.path, 0);
                    let ke = choose|k: int|
                        0 <= k < ldr.edges@.len() && #[trigger] ldr.edges@[k].outcome == out;
                    assert(ldr.spec_module_index(mid.0) is Some);
                    lemma_goi_found_succeeds(ldr, s, mid.0);
                    let (sg, oi) = spec_get_or_init(ldr, s, mid.0);
                    lemma_goi_extends(ldr, s, mid.0);
                    let tidx = oi->Some_0;
                    match imp.kind {
                        crate::object::ImpKindModel::Named(name) => {
                            let tf = sg.modules[tidx].file;
                            let b = crate::model::spec_budget(ldr);
                            lemma_chase_extends(ldr, sg, tidx, tf, name, b);
                            lemma_goi_replay(ldr, s, s1, mid.0);
                            assert(s1.modules[tidx] == sg.modules[tidx]);
                            lemma_chase_replay(ldr, sg, s1, tidx, tf, name, b);
                        },
                        crate::object::ImpKindModel::Default => {
                            let tf = sg.modules[tidx].file;
                            let b = crate::model::spec_budget(ldr);
                            let dn = crate::model::default_name();
                            lemma_chase_extends(ldr, sg, tidx, tf, dn, b);
                            lemma_goi_replay(ldr, s, s1, mid.0);
                            assert(s1.modules[tidx] == sg.modules[tidx]);
                            lemma_chase_replay(ldr, sg, s1, tidx, tf, dn, b);
                        },
                        crate::object::ImpKindModel::Namespace => {
                            lemma_goi_replay(ldr, s, s1, mid.0);
                        },
                    }
                },
            },
        }
    }
}

/// Identity stability, in full: resolving the same identifier twice yields
/// objects with equal identities — whenever the first resolution succeeds,
/// repeating it from the state it produced changes nothing and returns the
/// same object.
pub proof fn lemma_identity_stability(
    ldr: Loader,
    s: StateModel,
    mid: u64,
    bind: u64,
    sym: Seq<char>,
)
    requires
        ldr.wf(),
    ensures
        ({
            let (s1, r1) = spec_resolve_ident(ldr, s, mid, bind, sym);
            r1 is Some ==> spec_resolve_ident(ldr, s1, mid, bind, sym) == (s1, r1)
        }),
{
    let (s1, r1) = spec_resolve_ident(ldr, s, mid, bind, sym);
    if r1 is Some {
        match find_mod(s.modules, mid) {
            None => {},
            Some(i) => {
                crate::model::lemma_find_mod_bounds(s.modules, mid, 0);
                let ns = s.modules[i].ns;
                let key = (bind, sym);
                if ns.top_level.contains_key(key) {
                } else if ns.imports.contains_key(key) {
                    let file = s.modules[i].file;
                    lemma_ri_extends(ldr, s, file, ns.imports[key]);
                    lemma_find_mod_prefix(s.modules, s1.modules, mid, 0);
                    assert(s1.modules[i] == s.modules[i]);
                    lemma_resolve_import_stability(ldr, s, file, ns.imports[key]);
                } else {
                    match s.universe {
                        Some(u) => {
                            assert(s1 == s);
                        },
                        None => {
                            let umid = ldr.modules@[ldr.universe_index as int].id;
                            crate::loader::lemma_module_index_of_universe(ldr);
                            lemma_goi_found_succeeds(ldr, s, umid);
                            let (sg, uo) = spec_get_or_init(ldr, s, umid);
                            lemma_goi_extends(ldr, s, umid);
                            let uidx = uo->Some_0;
                            assert(s1.modules == sg.modules);
                            assert(find_mod(s1.modules, umid) == Some(uidx));
                            lemma_find_mod_prefix(s.modules, s1.modules, mid, 0);
                            assert(s1.modules[i] == s.modules[i]);
                        },
                    }
                }
            },
        }
    }
}

} // verus!
