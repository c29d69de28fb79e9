//! The resolution engine: the session state that allocates object
//! identities, materializes module namespace tables once each, and answers
//! identifier, import and export lookups, specified against the transition
//! functions of [`crate::model`].

use vstd::prelude::*;
use crate::ModuleId;
use crate::ast::{
    AstId, AstRef, Decl, DefaultDecl, ExportSpecifier, Ident, ImportDecl, ImportSpecifier,
    ModuleExportName, ModuleItem, NamespaceBody, Range, Stmt, VarDeclarator,
};
use crate::loader::{LoadOutcome, Loader};
use crate::maps::IdMap;
use crate::model::{
    StateModel, find_mod, spec_add_import, spec_budget, spec_chase, spec_chase_reexports,
    spec_find_reex_item, spec_get_or_init, spec_new_obj, spec_process_bindings_from,
    spec_process_namespace_body, spec_process_decl, spec_process_default_decl,
    spec_process_import_from, spec_process_item, spec_process_module_items_from,
    spec_process_stmt, spec_process_stmts_from, spec_process_var_from, spec_reex_items_from,
    spec_register_exports_from, spec_resolve_ident, spec_resolve_import,
    spec_resolve_module_import, spec_total_items_from, spec_universe,
};
use crate::object::{
    CheckState, Class, Diagnostic, DiagnosticKind, Enum, Func, ImportKind, ImportedName, Module,
    NSData, NamedReexport, Namespace, ObjModel, Object, ObjectId, ObjectKind, Reexport, TypeName,
    TypeNameDecl, Using, Var, str_opt_model,
};

verus! {

/// Whether a payload's nested namespace table, if it has one, is well
/// formed.
pub open spec fn kind_ns_wf(kind: ObjectKind) -> bool {
    match kind {
        ObjectKind::Namespace(n) => n.data.wf(),
        _ => true,
    }
}

/// The mutable core of a resolve session: the object arena, the
/// materialized modules, the construction context stack, the write-once
/// universe cell, and the reported diagnostics.
pub struct Engine {
    pub objects: Vec<Object>,
    pub modules: Vec<Module>,
    pub module_objects: IdMap<ObjectId>,
    pub module_stack: Vec<ModuleId>,
    pub universe: Option<ModuleId>,
    pub diags: Vec<Diagnostic>,
    pub check_states: IdMap<CheckState>,
}

impl Engine {
    /// Model of this engine state.
    pub open spec fn model(&self) -> StateModel {
        StateModel {
            objects: self.objects@.map_values(|o: Object| o.model()),
            modules: self.modules@.map_values(|m: Module| m.model()),
            module_objects: self.module_objects@,
            stack: self.module_stack@.map_values(|m: ModuleId| m.0),
            universe: match self.universe {
                Some(u) => Some(u.0),
                None => None,
            },
            diags: self.diags@.map_values(|d: Diagnostic| d.model()),
            checks: self.check_states@,
        }
    }

    /// Well-formedness of the object arena and its side tables: object
    /// identities equal their arena positions, nested namespace tables are
    /// well formed, and the check-state table speaks only of allocated
    /// objects.
    pub open spec fn wf_core(&self) -> bool {
        &&& forall|i: int|
            0 <= i < self.objects@.len() ==> (#[trigger] self.objects@[i]).id.0 == i
        &&& forall|i: int|
            0 <= i < self.objects@.len() ==> kind_ns_wf((#[trigger] self.objects@[i]).kind)
        &&& self.module_objects.wf()
        &&& self.check_states.wf()
        &&& forall|k: u64| #[trigger] self.check_states@.contains_key(k) ==> k
            < self.objects@.len()
    }

    /// Well-formedness of the materialized-module arena: module identities
    /// are distinct and in step with the wrapping-object table, and the
    /// universe, once set, names a materialized module.
    pub open spec fn wf_modules(&self) -> bool {
        &&& forall|i: int, j: int|
            0 <= i < j < self.modules@.len() ==> self.modules@[i].module_id
                != self.modules@[j].module_id
        &&& forall|i: int| 0 <= i < self.modules@.len() ==> (#[trigger] self.modules@[i]).data.wf()
        &&& forall|mid: u64|
            #[trigger] self.module_objects@.contains_key(mid) <==> find_mod(
                self.model().modules,
                mid,
            ) is Some
        &&& match self.universe {
            Some(u) => find_mod(self.model().modules, u.0) is Some,
            None => true,
        }
    }

    /// Well-formedness of the whole engine state.
    pub open spec fn wf(&self) -> bool {
        self.wf_core() && self.wf_modules()
    }

    /// A fresh engine.
    pub(crate) fn new() -> (r: Engine)
        ensures
            r.wf(),
            r.model() == StateModel::init(),
    {
        let r = Engine {
            objects: Vec::new(),
            modules: Vec::new(),
            module_objects: IdMap::new(),
            module_stack: Vec::new(),
            universe: None,
            diags: Vec::new(),
            check_states: IdMap::new(),
        };
        proof {
            assert(r.model().objects =~= StateModel::init().objects);
            assert(r.model().modules =~= StateModel::init().modules);
            assert(r.model().stack =~= StateModel::init().stack);
            assert(r.model().diags =~= StateModel::init().diags);
        }
        r
    }

    /// The diagnostics reported so far.
    pub(crate) fn diagnostics(&self) -> (r: &Vec<Diagnostic>)
        ensures
            r@.map_values(|d: Diagnostic| d.model()) == self.model().diags,
    {
        &self.diags
    }

    /// The object with identity `id`, if allocated.
    pub(crate) fn object(&self, id: ObjectId) -> (r: Option<&Object>)
        requires
            self.wf(),
        ensures
            match r {
                Some(o) => id.0 < self.model().objects.len() && o.model() == self.model().objects[
                    id.0 as int
                ] && o.id == id,
                None => id.0 >= self.model().objects.len(),
            },
    {
        if id.0 < self.objects.len() {
            Some(&self.objects[id.0])
        } else {
            None
        }
    }

    /// Index of the materialized module with identity `mid`, if any.
    pub(crate) fn find_module(&self, mid: u64) -> (r: Option<usize>)
        ensures
            match r {
                Some(i) => find_mod(self.model().modules, mid) == Some(i as int) && i
                    < self.modules@.len(),
                None => find_mod(self.model().modules, mid) is None,
            },
    {
        let n = self.modules.len();
        for i in 0..n
            invariant
                n == self.modules@.len(),
                crate::model::find_mod_from(self.model().modules, mid, 0)
                    == crate::model::find_mod_from(self.model().modules, mid, i as int),
        {
            if self.modules[i].module_id.0 == mid {
                return Some(i);
            }
        }
        None
    }

    /// The materialized module at `index`.
    pub(crate) fn module_at(&self, index: usize) -> (r: &Module)
        requires
            index < self.modules@.len(),
        ensures
            *r == self.modules@[index as int],
            r.model() == self.model().modules[index as int],
    {
        &self.modules[index]
    }

    /// Allocates a fresh object, attributed to the module on top of the
    /// context stack. May only be called while a module scope is being
    /// materialized.
    fn new_obj(&mut self, name: Option<String>, range: Range, kind: ObjectKind) -> (r: ObjectId)
        requires
            old(self).wf(),
            old(self).module_stack@.len() > 0,
            kind_ns_wf(kind),
        ensures
            final(self).wf(),
            final(self).wf_core(),
            (final(self).model(), r) == spec_new_obj(
                old(self).model(),
                str_opt_model(name),
                range,
                kind.model(),
            ),
            final(self).modules@ == old(self).modules@,
            final(self).module_objects@ == old(self).module_objects@,
            final(self).module_stack@ == old(self).module_stack@,
            final(self).universe == old(self).universe,
            final(self).diags@ == old(self).diags@,
            r.0 == old(self).model().objects.len(),
            final(self).objects@.len() == old(self).objects@.len() + 1,
    {
        let id = ObjectId(self.objects.len());
        let top = self.module_stack.len() - 1;
        let module_id = self.module_stack[top];
        let ghost name_model = str_opt_model(name);
        let o = Object { id, range, name, kind, module_id };
        let ghost om = o.model();
        self.objects.push(o);
        proof {
            assert(self.check_states@.contains_key(id.0 as u64) ==> (id.0 as u64)
                < old(self).objects@.len());
            assert(!self.check_states@.contains_key(id.0 as u64));
        }
        self.check_states.insert_new(id.0 as u64, CheckState::NotStarted);
        proof {
            assert(self.model().objects =~= old(self).model().objects.push(om));
            assert(self.model().stack == old(self).model().stack);
            assert(self.model().stack.last() == old(self).module_stack@[
                old(self).module_stack@.len() - 1
            ].0);
            assert(om == ObjModel {
                id,
                range,
                name: name_model,
                kind: kind.model(),
                module_id: old(self).model().stack.last(),
            });
            assert(self.model() == spec_new_obj(
                old(self).model(),
                name_model,
                range,
                kind.model(),
            ).0);
            assert forall|i: int|
                0 <= i < self.objects@.len() implies (#[trigger] self.objects@[i]).id.0 == i by {
                if i < old(self).objects@.len() {
                    assert(old(self).objects@[i].id.0 == i);
                }
            }
            assert forall|i: int|
                0 <= i < self.objects@.len() implies kind_ns_wf(
                (#[trigger] self.objects@[i]).kind) by {
                if i < old(self).objects@.len() {
                    assert(kind_ns_wf(old(self).objects@[i].kind));
                }
            }
        }
        id
    }

    /// Processes one import declaration, recording each specifier.
    fn process_import(&mut self, ns: &mut NSData, imp: &ImportDecl)
        requires
            old(self).wf(),
            old(ns).wf(),
        ensures
            final(self).wf(),
            final(ns).wf(),
            (final(self).model(), final(ns).model()) == spec_process_import_from(
                old(self).model(),
                old(ns).model(),
                *imp,
                0,
            ),
            final(self).objects@ == old(self).objects@,
            final(self).modules@ == old(self).modules@,
            final(self).module_objects@ == old(self).module_objects@,
            final(self).module_stack@ == old(self).module_stack@,
            final(self).universe == old(self).universe,
            final(self).check_states@ == old(self).check_states@,
    {
        let n = imp.specifiers.len();
        for i in 0..n
            invariant
                self.wf(),
                ns.wf(),
                n == imp.specifiers@.len(),
                spec_process_import_from(old(self).model(), old(ns).model(), *imp, 0)
                    == spec_process_import_from(self.model(), ns.model(), *imp, i as int),
                self.objects@ == old(self).objects@,
                self.modules@ == old(self).modules@,
                self.module_objects@ == old(self).module_objects@,
                self.module_stack@ == old(self).module_stack@,
                self.universe == old(self).universe,
                self.check_states@ == old(self).check_states@,
        {
            let ghost pre = self.model();
            let ghost pre_ns = ns.model();
            match &imp.specifiers[i] {
                ImportSpecifier::Named { local, imported, range } => {
                    let export_name: String = match imported {
                        Some(men) => match men {
                            ModuleExportName::Ident(id) => id.sym.clone(),
                            ModuleExportName::Str(s) => s.clone(),
                        },
                        None => local.sym.clone(),
                    };
                    let key = AstId::of_ident(local);
                    let item = ImportedName {
                        range: *range,
                        import_path: imp.src.clone(),
                        kind: ImportKind::Named(export_name),
                    };
                    ns.add_import(key, item, &mut self.diags);
                },
                ImportSpecifier::Default { local, range } => {
                    let key = AstId::of_ident(local);
                    let item = ImportedName {
                        range: *range,
                        import_path: imp.src.clone(),
                        kind: ImportKind::Default,
                    };
                    ns.add_import(key, item, &mut self.diags);
                },
                ImportSpecifier::Namespace { local, range } => {
                    let key = AstId::of_ident(local);
                    let item = ImportedName {
                        range: *range,
                        import_path: imp.src.clone(),
                        kind: ImportKind::Namespace,
                    };
                    ns.add_import(key, item, &mut self.diags);
                },
            }
            proof {
                assert((self.model(), ns.model()) == match imp.specifiers@[i as int] {
                    ImportSpecifier::Named { local, imported, range } => {
                        let export_name = match imported {
                            Some(men) => men.chars(),
                            None => local.sym@,
                        };
                        spec_add_import(
                            pre,
                            pre_ns,
                            (local.id, local.sym@),
                            crate::object::ImpModel {
                                range,
                                path: imp.src@,
                                kind: crate::object::ImpKindModel::Named(export_name),
                            },
                        )
                    },
                    ImportSpecifier::Default { local, range } => spec_add_import(
                        pre,
                        pre_ns,
                        (local.id, local.sym@),
                        crate::object::ImpModel {
                            range,
                            path: imp.src@,
                            kind: crate::object::ImpKindModel::Default,
                        },
                    ),
                    ImportSpecifier::Namespace { local, range } => spec_add_import(
                        pre,
                        pre_ns,
                        (local.id, local.sym@),
                        crate::object::ImpModel {
                            range,
                            path: imp.src@,
                            kind: crate::object::ImpKindModel::Namespace,
                        },
                    ),
                });
            }
        }
    }
}

/// The character content of an export name, as an owned string.
fn module_export_name_to_string(name: &ModuleExportName) -> (r: String)
    ensures
        r@ == name.chars(),
{
    match name {
        ModuleExportName::Ident(i) => i.sym.clone(),
        ModuleExportName::Str(s) => s.clone(),
    }
}

/// A fresh vector with the same parser handles.
fn copy_refs(v: &Vec<AstRef>) -> (r: Vec<AstRef>)
    ensures
        r@ == v@,
{
    let mut r: Vec<AstRef> = Vec::new();
    let n = v.len();
    for i in 0..n
        invariant
            n == v@.len(),
            r@ == v@.subrange(0, i as int),
    {
        r.push(v[i]);
        proof {
            assert(r@ =~= v@.subrange(0, i + 1));
        }
    }
    proof {
        assert(v@.subrange(0, n as int) =~= v@);
    }
    r
}

/// The source range of a default-export declaration.
fn default_decl_range_of(d: &DefaultDecl) -> (r: Range)
    ensures
        r == crate::model::default_decl_range(*d),
{
    match d {
        DefaultDecl::Class { range, .. } => *range,
        DefaultDecl::Fn { range, .. } => *range,
        DefaultDecl::TsInterface(it) => it.range,
    }
}

impl Engine {
    /// Processes the bound names of one variable/using declarator.
    fn process_declarator(
        &mut self,
        ns: &mut NSData,
        d: &VarDeclarator,
        using: bool,
        objs: &mut Vec<ObjectId>,
    )
        requires
            old(self).wf(),
            old(self).module_stack@.len() > 0,
            old(ns).wf(),
        ensures
            final(self).wf(),
            final(ns).wf(),
            (final(self).model(), final(ns).model(), final(objs)@) == spec_process_bindings_from(
                old(self).model(),
                old(ns).model(),
                *d,
                using,
                old(objs)@,
                0,
            ),
            final(self).modules@ == old(self).modules@,
            final(self).module_objects@ == old(self).module_objects@,
            final(self).module_stack@ == old(self).module_stack@,
            final(self).universe == old(self).universe,
            final(self).diags@ == old(self).diags@,
            final(self).objects@.len() >= old(self).objects@.len(),
            final(objs)@.len() >= old(objs)@.len(),
            final(objs)@.subrange(0, old(objs)@.len() as int) == old(objs)@,
            forall|k: int|
                old(objs)@.len() <= k < final(objs)@.len() ==> (#[trigger] final(objs)@[k]).0
                    < final(self).objects@.len(),
    {
        let n = d.bindings.len();
        for bi in 0..n
            invariant
                self.wf(),
                ns.wf(),
                n == d.bindings@.len(),
                self.module_stack@.len() > 0,
                spec_process_bindings_from(
                    old(self).model(),
                    old(ns).model(),
                    *d,
                    using,
                    old(objs)@,
                    0,
                ) == spec_process_bindings_from(
                    self.model(),
                    ns.model(),
                    *d,
                    using,
                    objs@,
                    bi as int,
                ),
                self.modules@ == old(self).modules@,
                self.module_objects@ == old(self).module_objects@,
                self.module_stack@ == old(self).module_stack@,
                self.universe == old(self).universe,
                self.diags@ == old(self).diags@,
                self.objects@.len() >= old(self).objects@.len(),
                objs@.len() >= old(objs)@.len(),
                objs@.subrange(0, old(objs)@.len() as int) == old(objs)@,
                forall|k: int|
                    old(objs)@.len() <= k < objs@.len() ==> (#[trigger] objs@[k]).0
                        < self.objects@.len(),
        {
            let b = &d.bindings[bi];
            let ghost pre_objs = objs@;
            let kind = if using {
                ObjectKind::Using(Using { type_ann: b.type_ann, expr: d.init })
            } else {
                ObjectKind::Var(Var { type_ann: b.type_ann, expr: d.init })
            };
            let obj = self.new_obj(Some(b.name.clone()), d.range, kind);
            ns.add_top_level(AstId::of_binding(b), obj);
            objs.push(obj);
            proof {
                assert(objs@.subrange(0, old(objs)@.len() as int) =~= pre_objs.subrange(
                    0,
                    old(objs)@.len() as int,
                ));
            }
        }
    }

    /// Processes one top-level declaration, allocating one object per
    /// declared binding and registering each under the scope's top level.
    /// Returns the freshly allocated objects.
    fn process_decl(&mut self, ns: &mut NSData, d: &Decl) -> (objs: Vec<ObjectId>)
        requires
            old(self).wf(),
            old(self).module_stack@.len() > 0,
            old(ns).wf(),
        ensures
            final(self).wf(),
            final(ns).wf(),
            (final(self).model(), final(ns).model(), objs@) == spec_process_decl(
                old(self).model(),
                old(ns).model(),
                *d,
            ),
            final(self).modules@ == old(self).modules@,
            final(self).module_objects@ == old(self).module_objects@,
            final(self).module_stack@ == old(self).module_stack@,
            final(self).universe == old(self).universe,
            final(self).objects@.len() >= old(self).objects@.len(),
            forall|k: int|
                0 <= k < objs@.len() ==> (#[trigger] objs@[k]).0 < final(self).objects@.len(),
        decreases crate::ast::decl_size(*d), 3int,
    {
        match d {
            Decl::Class(c) => {
                let obj = self.new_obj(
                    Some(c.ident.sym.clone()),
                    c.range,
                    ObjectKind::Class(Class { decl: c.class }),
                );
                ns.add_top_level(AstId::of_ident(&c.ident), obj);
                let mut objs: Vec<ObjectId> = Vec::new();
                objs.push(obj);
                proof {
                    assert(objs@ =~= seq![obj]);
                }
                objs
            },
            Decl::Fn(f) => {
                let obj = self.new_obj(
                    Some(f.ident.sym.clone()),
                    f.range,
                    ObjectKind::Func(Func { decl: f.function }),
                );
                ns.add_top_level(AstId::of_ident(&f.ident), obj);
                let mut objs: Vec<ObjectId> = Vec::new();
                objs.push(obj);
                proof {
                    assert(objs@ =~= seq![obj]);
                }
                objs
            },
            Decl::Var(v) => {
                let mut objs: Vec<ObjectId> = Vec::new();
                let n = v.decls.len();
                for di in 0..n
                    invariant
                        self.wf(),
                        ns.wf(),
                        n == v.decls@.len(),
                        self.module_stack@.len() > 0,
                        spec_process_var_from(
                            old(self).model(),
                            old(ns).model(),
                            v.decls@,
                            false,
                            Seq::empty(),
                            0,
                        ) == spec_process_var_from(
                            self.model(),
                            ns.model(),
                            v.decls@,
                            false,
                            objs@,
                            di as int,
                        ),
                        self.modules@ == old(self).modules@,
                        self.module_objects@ == old(self).module_objects@,
                        self.module_stack@ == old(self).module_stack@,
                        self.universe == old(self).universe,
                        self.diags@ == old(self).diags@,
                        self.objects@.len() >= old(self).objects@.len(),
                        forall|k: int|
                            0 <= k < objs@.len() ==> (#[trigger] objs@[k]).0
                                < self.objects@.len(),
                {
                    let ghost pre_len = objs@.len();
                    self.process_declarator(ns, &v.decls[di], false, &mut objs);
                    proof {
                        assert(forall|k: int|
                            0 <= k < pre_len ==> objs@[k] == objs@.subrange(0, pre_len as int)[k]);
                    }
                }
                objs
            },
            Decl::Using(v) => {
                let mut objs: Vec<ObjectId> = Vec::new();
                let n = v.decls.len();
                for di in 0..n
                    invariant
                        self.wf(),
                        ns.wf(),
                        n == v.decls@.len(),
                        self.module_stack@.len() > 0,
                        spec_process_var_from(
                            old(self).model(),
                            old(ns).model(),
                            v.decls@,
                            true,
                            Seq::empty(),
                            0,
                        ) == spec_process_var_from(
                            self.model(),
                            ns.model(),
                            v.decls@,
                            true,
                            objs@,
                            di as int,
                        ),
                        self.modules@ == old(self).modules@,
                        self.module_objects@ == old(self).module_objects@,
                        self.module_stack@ == old(self).module_stack@,
                        self.universe == old(self).universe,
                        self.diags@ == old(self).diags@,
                        self.objects@.len() >= old(self).objects@.len(),
                        forall|k: int|
                            0 <= k < objs@.len() ==> (#[trigger] objs@[k]).0
                                < self.objects@.len(),
                {
                    let ghost pre_len = objs@.len();
                    self.process_declarator(ns, &v.decls[di], true, &mut objs);
                    proof {
                        assert(forall|k: int|
                            0 <= k < pre_len ==> objs@[k] == objs@.subrange(0, pre_len as int)[k]);
                    }
                }
                objs
            },
            Decl::TsInterface(it) => {
                let id2 = Ident { id: it.id.id, sym: it.id.sym.clone(), range: it.id.range };
                let d2 = crate::ast::InterfaceDecl {
                    id: id2,
                    type_params: copy_refs(&it.type_params),
                    body: it.body,
                    range: it.range,
                };
                let obj = self.new_obj(
                    Some(it.id.sym.clone()),
                    it.range,
                    ObjectKind::TypeName(TypeName { decl: TypeNameDecl::Interface(d2) }),
                );
                ns.add_top_level(AstId::of_ident(&it.id), obj);
                let mut objs: Vec<ObjectId> = Vec::new();
                objs.push(obj);
                proof {
                    assert(objs@ =~= seq![obj]);
                }
                objs
            },
            Decl::TsTypeAlias(al) => {
                let id2 = Ident { id: al.id.id, sym: al.id.sym.clone(), range: al.id.range };
                let d2 = crate::ast::TypeAliasDecl {
                    id: id2,
                    type_params: copy_refs(&al.type_params),
                    alias: al.alias,
                    range: al.range,
                };
                let obj = self.new_obj(
                    Some(al.id.sym.clone()),
                    al.range,
                    ObjectKind::TypeName(TypeName { decl: TypeNameDecl::TypeAlias(d2) }),
                );
                ns.add_top_level(AstId::of_ident(&al.id), obj);
                let mut objs: Vec<ObjectId> = Vec::new();
                objs.push(obj);
                proof {
                    assert(objs@ =~= seq![obj]);
                }
                objs
            },
            Decl::TsEnum(e) => {
                let obj = self.new_obj(
                    Some(e.id.sym.clone()),
                    e.range,
                    ObjectKind::Enum(Enum { members: copy_refs(&e.members) }),
                );
                ns.add_top_level(AstId::of_ident(&e.id), obj);
                let mut objs: Vec<ObjectId> = Vec::new();
                objs.push(obj);
                proof {
                    assert(objs@ =~= seq![obj]);
                }
                objs
            },
            Decl::TsModule(m) => {
                match &m.id {
                    crate::ast::TsModuleName::Ident(id) => {
                        let mut inner = NSData::new();
                        if let Some(body) = &m.body {
                            self.process_namespace_body(&mut inner, body);
                        }
                        let obj = self.new_obj(
                            Some(id.sym.clone()),
                            m.range,
                            ObjectKind::Namespace(Namespace { data: Box::new(inner) }),
                        );
                        ns.add_top_level(AstId::of_ident(id), obj);
                        let mut objs: Vec<ObjectId> = Vec::new();
                        objs.push(obj);
                        proof {
                            assert(objs@ =~= seq![obj]);
                        }
                        objs
                    },
                    crate::ast::TsModuleName::Str(_) => {
                        let objs: Vec<ObjectId> = Vec::new();
                        proof {
                            assert(objs@ =~= Seq::<ObjectId>::empty());
                        }
                        objs
                    },
                }
            },
        }
    }

    /// Processes the declaration following `export default` into one object.
    fn process_default_decl(&mut self, d: &DefaultDecl) -> (r: ObjectId)
        requires
            old(self).wf(),
            old(self).module_stack@.len() > 0,
        ensures
            final(self).wf(),
            (final(self).model(), r) == spec_process_default_decl(old(self).model(), *d),
            final(self).modules@ == old(self).modules@,
            final(self).module_objects@ == old(self).module_objects@,
            final(self).module_stack@ == old(self).module_stack@,
            final(self).universe == old(self).universe,
            final(self).diags@ == old(self).diags@,
            final(self).objects@.len() == old(self).objects@.len() + 1,
    {
        match d {
            DefaultDecl::Class { ident, class, range } => {
                let name: Option<String> = match ident {
                    Some(i) => Some(i.sym.clone()),
                    None => None,
                };
                self.new_obj(name, *range, ObjectKind::Class(Class { decl: *class }))
            },
            DefaultDecl::Fn { ident, function, range } => {
                let name: Option<String> = match ident {
                    Some(i) => Some(i.sym.clone()),
                    None => None,
                };
                self.new_obj(name, *range, ObjectKind::Func(Func { decl: *function }))
            },
            DefaultDecl::TsInterface(it) => {
                let id2 = Ident { id: it.id.id, sym: it.id.sym.clone(), range: it.id.range };
                let d2 = crate::ast::InterfaceDecl {
                    id: id2,
                    type_params: copy_refs(&it.type_params),
                    body: it.body,
                    range: it.range,
                };
                self.new_obj(
                    Some(it.id.sym.clone()),
                    it.range,
                    ObjectKind::TypeName(TypeName { decl: TypeNameDecl::Interface(d2) }),
                )
            },
        }
    }

    /// Processes one statement: declarations, possibly inside blocks,
    /// declare at the scope level; anything else declares nothing.
    fn process_stmt(&mut self, ns: &mut NSData, st: &Stmt) -> (objs: Vec<ObjectId>)
        requires
            old(self).wf(),
            old(self).module_stack@.len() > 0,
            old(ns).wf(),
        ensures
            final(self).wf(),
            final(ns).wf(),
            (final(self).model(), final(ns).model(), objs@) == spec_process_stmt(
                old(self).model(),
                old(ns).model(),
                *st,
            ),
            final(self).modules@ == old(self).modules@,
            final(self).module_objects@ == old(self).module_objects@,
            final(self).module_stack@ == old(self).module_stack@,
            final(self).universe == old(self).universe,
            final(self).objects@.len() >= old(self).objects@.len(),
        decreases crate::ast::stmt_size(*st), 4int,
    {
        match st {
            Stmt::Decl(d) => self.process_decl(ns, d),
            Stmt::Block(v, _) => {
                let mut objs: Vec<ObjectId> = Vec::new();
                let n = v.len();
                proof {
                    assert(objs@ =~= Seq::<ObjectId>::empty());
                }
                for i in 0..n
                    invariant
                        self.wf(),
                        ns.wf(),
                        n == v@.len(),
                        self.module_stack@.len() > 0,
                        spec_process_stmts_from(
                            old(self).model(),
                            old(ns).model(),
                            v@,
                            Seq::empty(),
                            0,
                        ) == spec_process_stmts_from(
                            self.model(),
                            ns.model(),
                            v@,
                            objs@,
                            i as int,
                        ),
                        self.modules@ == old(self).modules@,
                        self.module_objects@ == old(self).module_objects@,
                        self.module_stack@ == old(self).module_stack@,
                        self.universe == old(self).universe,
                        self.objects@.len() >= old(self).objects@.len(),
                        crate::ast::stmt_size(*st) == 1 + crate::ast::stmts_size_from(v@, 0),
                {
                    proof {
                        crate::ast::lemma_stmt_size_le(v@, 0, i as int);
                    }
                    let mut sub = self.process_stmt(ns, &v[i]);
                    let ghost pre_objs = objs@;
                    let ghost sub_objs = sub@;
                    objs.append(&mut sub);
                    proof {
                        assert(objs@ =~= pre_objs + sub_objs);
                    }
                }
                objs
            },
            Stmt::Other(_) => {
                let objs: Vec<ObjectId> = Vec::new();
                proof {
                    assert(objs@ =~= Seq::<ObjectId>::empty());
                }
                objs
            },
        }
    }

    /// Processes a namespace body into the namespace's table.
    fn process_namespace_body(&mut self, ns: &mut NSData, b: &NamespaceBody)
        requires
            old(self).wf(),
            old(self).module_stack@.len() > 0,
            old(ns).wf(),
        ensures
            final(self).wf(),
            final(ns).wf(),
            (final(self).model(), final(ns).model()) == spec_process_namespace_body(
                old(self).model(),
                old(ns).model(),
                *b,
            ),
            final(self).modules@ == old(self).modules@,
            final(self).module_objects@ == old(self).module_objects@,
            final(self).module_stack@ == old(self).module_stack@,
            final(self).universe == old(self).universe,
            final(self).objects@.len() >= old(self).objects@.len(),
        decreases crate::ast::body_size(*b), 2int,
    {
        match b {
            NamespaceBody::Block(v) => {
                self.process_module_items(ns, v);
            },
            NamespaceBody::Decl(nd) => {
                let mut inner = NSData::new();
                self.process_namespace_body(&mut inner, &nd.body);
                let obj = self.new_obj(
                    Some(nd.id.sym.clone()),
                    nd.range,
                    ObjectKind::Namespace(Namespace { data: Box::new(inner) }),
                );
                ns.add_top_level(AstId::of_ident(&nd.id), obj);
            },
        }
    }

    /// Processes one top-level item.
    fn process_item(&mut self, ns: &mut NSData, it: &ModuleItem)
        requires
            old(self).wf(),
            old(self).module_stack@.len() > 0,
            old(ns).wf(),
        ensures
            final(self).wf(),
            final(ns).wf(),
            (final(self).model(), final(ns).model()) == spec_process_item(
                old(self).model(),
                old(ns).model(),
                *it,
            ),
            final(self).modules@ == old(self).modules@,
            final(self).module_objects@ == old(self).module_objects@,
            final(self).module_stack@ == old(self).module_stack@,
            final(self).universe == old(self).universe,
            final(self).objects@.len() >= old(self).objects@.len(),
        decreases crate::ast::item_size(*it), 5int,
    {
        match it {
            ModuleItem::Import(imp) => {
                self.process_import(ns, imp);
            },
            ModuleItem::ExportDecl(d) => {
                let objs = self.process_decl(ns, d);
                let ghost s_after = self.model();
                let ghost ns_after = ns.model();
                let n = objs.len();
                for i in 0..n
                    invariant
                        self.wf(),
                        ns.wf(),
                        n == objs@.len(),
                        self.model() == s_after,
                        self.modules@ == old(self).modules@,
                        self.module_objects@ == old(self).module_objects@,
                        self.module_stack@ == old(self).module_stack@,
                        self.universe == old(self).universe,
                        self.objects@.len() >= old(self).objects@.len(),
                        forall|k: int|
                            0 <= k < objs@.len() ==> (#[trigger] objs@[k]).0
                                < self.objects@.len(),
                        spec_register_exports_from(s_after, ns_after, objs@, 0)
                            == spec_register_exports_from(s_after, ns.model(), objs@, i as int),
                {
                    let oid = objs[i];
                    let nm: Option<String> = match &self.objects[oid.0].name {
                        Some(x) => Some(x.clone()),
                        None => None,
                    };
                    match nm {
                        Some(x) => {
                            ns.named_exports.set(x, oid);
                        },
                        None => {},
                    }
                }
            },
            ModuleItem::ExportDefaultDecl(dd) => {
                let obj = self.process_default_decl(dd);
                if ns.default_export.is_some() {
                    let range = default_decl_range_of(dd);
                    let ghost pre = self.diags@;
                    self.diags.push(
                        Diagnostic { range, kind: DiagnosticKind::DuplicateDefaultExport },
                    );
                    proof {
                        assert(self.diags@.map_values(|dg: Diagnostic| dg.model()) =~= pre
                            .map_values(|dg: Diagnostic| dg.model()).push(
                            crate::object::DiagModel {
                                range,
                                kind: crate::object::DiagKindModel::DuplicateDefaultExport,
                            },
                        ));
                    }
                } else {
                    ns.default_export = Some(obj);
                }
            },
            ModuleItem::ExportDefaultExpr(_) => {},
            ModuleItem::ExportNamed(ne) => {
                if ne.src.is_some() {
                    let mut list: Vec<NamedReexport> = Vec::new();
                    let m = ne.specifiers.len();
                    proof {
                        assert(list@.map_values(|x: NamedReexport| x.model())
                            =~= Seq::<crate::object::ReexItemModel>::empty());
                    }
                    for k in 0..m
                        invariant
                            m == ne.specifiers@.len(),
                            list@.map_values(|x: NamedReexport| x.model()) + spec_reex_items_from(
                                ne.specifiers@,
                                k as int,
                            ) == spec_reex_items_from(ne.specifiers@, 0),
                    {
                        let ghost pre_models = list@.map_values(|x: NamedReexport| x.model());
                        match &ne.specifiers[k] {
                            ExportSpecifier::Named { orig, exported } => {
                                let orig_name = module_export_name_to_string(orig);
                                let renamed: Option<String> = match exported {
                                    Some(e) => Some(module_export_name_to_string(e)),
                                    None => None,
                                };
                                let item = NamedReexport { orig_name, renamed };
                                let ghost im = item.model();
                                list.push(item);
                                proof {
                                    assert(list@.map_values(|x: NamedReexport| x.model())
                                        =~= pre_models.push(im));
                                    assert(pre_models.push(im) + spec_reex_items_from(
                                        ne.specifiers@,
                                        k + 1,
                                    ) =~= pre_models + (Seq::empty().push(im)
                                        + spec_reex_items_from(ne.specifiers@, k + 1)));
                                }
                            },
                            _ => {},
                        }
                    }
                    let src: String = match &ne.src {
                        Some(sv) => sv.clone(),
                        None => String::new(),
                    };
                    let ghost pre_rex = ns.reexports@;
                    let entry = Reexport::List { items: list, import_path: src };
                    let ghost em = entry.model();
                    ns.reexports.push(entry);
                    proof {
                        assert(ns.reexports@.map_values(|r: Reexport| r.model()) =~= pre_rex
                            .map_values(|r: Reexport| r.model()).push(em));
                        assert(spec_reex_items_from(ne.specifiers@, m as int)
                            =~= Seq::<crate::object::ReexItemModel>::empty());
                    }
                }
            },
            ModuleItem::ExportAll(ea) => {
                let ghost pre_rex = ns.reexports@;
                let entry = Reexport::All { import_path: ea.src.clone() };
                let ghost em = entry.model();
                ns.reexports.push(entry);
                proof {
                    assert(ns.reexports@.map_values(|r: Reexport| r.model()) =~= pre_rex
                        .map_values(|r: Reexport| r.model()).push(em));
                }
            },
            ModuleItem::TsImportEquals(_) => {},
            ModuleItem::TsExportAssignment(_) => {},
            ModuleItem::TsNamespaceExport(_) => {},
            ModuleItem::Stmt(st) => {
                let _objs = self.process_stmt(ns, st);
            },
        }
    }

    /// Processes the top-level items of a scope: a single forward pass.
    fn process_module_items(&mut self, ns: &mut NSData, items: &Vec<ModuleItem>)
        requires
            old(self).wf(),
            old(self).module_stack@.len() > 0,
            old(ns).wf(),
        ensures
            final(self).wf(),
            final(ns).wf(),
            (final(self).model(), final(ns).model()) == spec_process_module_items_from(
                old(self).model(),
                old(ns).model(),
                items@,
                0,
            ),
            final(self).modules@ == old(self).modules@,
            final(self).module_objects@ == old(self).module_objects@,
            final(self).module_stack@ == old(self).module_stack@,
            final(self).universe == old(self).universe,
            final(self).objects@.len() >= old(self).objects@.len(),
        decreases crate::ast::items_size_from(items@, 0), 6int,
    {
        let n = items.len();
        for i in 0..n
            invariant
                self.wf(),
                ns.wf(),
                n == items@.len(),
                self.module_stack@.len() > 0,
                spec_process_module_items_from(old(self).model(), old(ns).model(), items@, 0)
                    == spec_process_module_items_from(self.model(), ns.model(), items@, i as int),
                self.modules@ == old(self).modules@,
                self.module_objects@ == old(self).module_objects@,
                self.module_stack@ == old(self).module_stack@,
                self.universe == old(self).universe,
                self.objects@.len() >= old(self).objects@.len(),
        {
            proof {
                crate::ast::lemma_item_size_le(items@, 0, i as int);
            }
            self.process_item(ns, &items[i]);
        }
    }
}

/// Model of an optional arena index.
pub open spec fn idx_model(r: Option<usize>) -> Option<int> {
    match r {
        Some(i) => Some(i as int),
        None => None,
    }
}

/// A value-equal copy of a recorded import binding.
fn dup_imported_name(i: &ImportedName) -> (r: ImportedName)
    ensures
        r == *i,
{
    let kind = match &i.kind {
        ImportKind::Named(s) => ImportKind::Named(s.clone()),
        ImportKind::Default => ImportKind::Default,
        ImportKind::Namespace => ImportKind::Namespace,
    };
    ImportedName { range: i.range, import_path: i.import_path.clone(), kind }
}

/// First item of a re-export list whose effective exported name is
/// `needle`.
fn find_reex_match(items: &Vec<NamedReexport>, needle: &String) -> (r: Option<usize>)
    ensures
        match r {
            Some(k) => k < items@.len() && spec_find_reex_item(
                items@.map_values(|x: NamedReexport| x.model()),
                needle@,
                0,
            ) == Some(k as int),
            None => spec_find_reex_item(
                items@.map_values(|x: NamedReexport| x.model()),
                needle@,
                0,
            ) is None,
        },
{
    let ghost im = items@.map_values(|x: NamedReexport| x.model());
    let n = items.len();
    for k in 0..n
        invariant
            n == items@.len(),
            im == items@.map_values(|x: NamedReexport| x.model()),
            spec_find_reex_item(im, needle@, 0) == spec_find_reex_item(im, needle@, k as int),
    {
        let eff: &String = match &items[k].renamed {
            Some(r) => r,
            None => &items[k].orig_name,
        };
        if *eff == *needle {
            proof {
                assert(im[k as int].effective() == needle@);
            }
            return Some(k);
        }
        proof {
            assert(im[k as int].effective() != needle@);
        }
    }
    None
}

/// The chase budget of the loaded module graph.
fn chase_budget(ldr: &Loader) -> (r: u64)
    ensures
        r as nat == spec_budget(*ldr),
{
    let nm = ldr.modules.len();
    let mut t: u128 = 0;
    for i in 0..nm
        invariant
            nm == ldr.modules@.len(),
            t as nat + spec_total_items_from(*ldr, i as int) == spec_total_items_from(*ldr, 0),
            t <= (i as u128) * 0xffff_ffff_ffff_ffff,
    {
        let more = ldr.modules[i].items.len() as u128;
        proof {
            assert(more <= 0xffff_ffff_ffff_ffff);
            assert((i as u128 + 1) * 0xffff_ffff_ffff_ffff == (i as u128)
                * 0xffff_ffff_ffff_ffff + 0xffff_ffff_ffff_ffff) by (nonlinear_arith);
            assert((i as int + 1) * 0xffff_ffff_ffff_ffff <= (nm as int)
                * 0xffff_ffff_ffff_ffff) by (nonlinear_arith)
                requires
                    i as int + 1 <= nm as int,
            ;
            assert((nm as int) * 0xffff_ffff_ffff_ffff <= 0xffff_ffff_ffff_ffff
                * 0xffff_ffff_ffff_ffff) by (nonlinear_arith)
                requires
                    nm as int <= 0xffff_ffff_ffff_ffff,
            ;
        }
        t = t + more;
    }
    let n32: u128 = if (nm as u128) < 0x1_0000_0000 {
        nm as u128
    } else {
        0x1_0000_0000
    };
    let t32: u128 = if t < 0x1_0000_0000 {
        t
    } else {
        0x1_0000_0000
    };
    proof {
        assert((n32 + 1) * (t32 + 1) <= 0x1_0000_0001 * 0x1_0000_0001) by (nonlinear_arith)
            requires
                n32 + 1 <= 0x1_0000_0001,
                t32 + 1 <= 0x1_0000_0001,
        ;
    }
    let q: u128 = (n32 + 1) * (t32 + 1);
    proof {
        assert(q * (t32 + 1) <= 0x1_0000_0001 * 0x1_0000_0001 * 0x1_0000_0001) by (
        nonlinear_arith)
            requires
                q <= 0x1_0000_0001 * 0x1_0000_0001,
                t32 + 1 <= 0x1_0000_0001,
        ;
    }
    let p: u128 = q * (t32 + 1);
    if p < 0xffff_ffff_ffff_ffff {
        p as u64
    } else {
        0xffff_ffff_ffff_ffff
    }
}

impl Engine {
    /// Memoized materialization of the module with identity `mid`: already
    /// materialized modules are returned as they are; otherwise the
    /// module's items are processed once into a fresh namespace table, and
    /// its wrapping object allocated.
    pub(crate) fn get_or_init(&mut self, ldr: &Loader, mid: u64) -> (r: Option<usize>)
        requires
            old(self).wf(),
            ldr.wf(),
        ensures
            final(self).wf(),
            (final(self).model(), idx_model(r)) == spec_get_or_init(*ldr, old(self).model(), mid),
            match r {
                Some(i) => i < final(self).modules@.len(),
                None => true,
            },
            final(self).modules@.len() >= old(self).modules@.len(),
            final(self).modules@.subrange(0, old(self).modules@.len() as int) == old(
                self,
            ).modules@,
            final(self).module_stack@ == old(self).module_stack@,
    {
        if let Some(i) = self.find_module(mid) {
            proof {
                assert(final(self).modules@.subrange(0, old(self).modules@.len() as int) =~= old(
                    self,
                ).modules@);
            }
            return Some(i);
        }
        let li = match ldr.module_index(mid) {
            Some(li) => li,
            None => {
                proof {
                    assert(self.modules@.subrange(0, old(self).modules@.len() as int) =~= old(
                        self,
                    ).modules@);
                }
                return None;
            },
        };
        let ghost s0 = self.model();
        self.module_stack.push(ModuleId(mid));
        proof {
            assert(self.model().stack =~= s0.stack.push(mid));
            assert(self.model() == StateModel { stack: s0.stack.push(mid), ..s0 });
        }
        let ghost s1 = self.model();
        let mut data = NSData::new();
        let ast = ldr.module_at(li);
        self.process_module_items(&mut data, &ast.items);
        let ghost s2 = self.model();
        self.module_stack.pop();
        proof {
            assert(self.model().stack =~= s2.stack.drop_last());
            assert(self.model() == StateModel { stack: s2.stack.drop_last(), ..s2 });
        }
        let ghost s3 = self.model();
        let m = Module {
            module_id: ModuleId(mid),
            file_name: ast.file_name.clone(),
            pkg_path: match &ast.pkg_path {
                Some(p) => Some(p.clone()),
                None => None,
            },
            data,
        };
        let ghost mm = m.model();
        let midx = self.modules.len();
        proof {
            crate::model::lemma_find_mod_scan(s0.modules, mid, 0);
            assert forall|j: int|
                0 <= j < self.modules@.len() implies (#[trigger] self.modules@[j]).module_id.0
                != mid by {
                assert(s0.modules[j] == self.modules@[j].model());
                assert(s0.modules[j].module_id != mid);
            }
        }
        self.modules.push(m);
        proof {
            assert(self.model().modules =~= s3.modules.push(mm));
            assert(self.model() == StateModel { modules: s3.modules.push(mm), ..s3 });
            assert forall|i: int, j: int|
                0 <= i < j < self.modules@.len() implies self.modules@[i].module_id
                != self.modules@[j].module_id by {
                if j < self.modules@.len() - 1 {
                } else {
                    assert(self.modules@[j].module_id.0 == mid);
                }
            }
            assert forall|i: int|
                0 <= i < self.modules@.len() implies (#[trigger] self.modules@[i]).data.wf() by {
                if i < self.modules@.len() - 1 {
                } else {
                    assert(self.modules@[i].data == m.data);
                }
            }
        }
        let ghost s4 = self.model();
        self.module_stack.push(ModuleId(mid));
        proof {
            assert(self.model().stack =~= s4.stack.push(mid));
            assert(self.model() == StateModel { stack: s4.stack.push(mid), ..s4 });
        }
        let ghost s5 = self.model();
        let obj = self.new_obj_loose(None, ast.range, ObjectKind::Module(ModuleId(mid)));
        let ghost s6 = self.model();
        self.module_stack.pop();
        proof {
            assert(self.model().stack =~= s6.stack.drop_last());
            assert(self.model() == StateModel { stack: s6.stack.drop_last(), ..s6 });
        }
        let ghost s7 = self.model();
        proof {
            assert(!self.module_objects@.contains_key(mid));
        }
        self.module_objects.insert_new(mid, obj);
        proof {
            assert(self.model() == StateModel {
                module_objects: s7.module_objects.insert(mid, obj),
                ..s7
            });
            // the identity link and the universe clause survive the append
            assert forall|k: u64|
                #[trigger] self.module_objects@.contains_key(k) implies find_mod(
                self.model().modules,
                k,
            ) is Some by {
                if k == mid {
                    crate::model::lemma_find_mod_push_new(s3.modules, mm, mid, 0);
                    assert(self.model().modules =~= s3.modules.push(mm));
                } else {
                    assert(old(self).module_objects@.contains_key(k));
                    crate::model::lemma_find_mod_extend(s3.modules, mm, k, 0);
                }
            }
            assert forall|k: u64|
                find_mod(self.model().modules, k) is Some implies #[trigger] self
                .module_objects@.contains_key(k) by {
                if k != mid {
                    if find_mod(s3.modules, k) is Some {
                        assert(old(self).module_objects@.contains_key(k));
                    } else {
                        crate::model::lemma_find_mod_push_other(s3.modules, mm, k, 0);
                        assert(self.model().modules =~= s3.modules.push(mm));
                        assert(false);
                    }
                }
            }
            match self.universe {
                Some(u) => {
                    assert(old(self).module_objects@.contains_key(u.0));
                    crate::model::lemma_find_mod_extend(s3.modules, mm, u.0, 0);
                },
                None => {},
            }
            assert(self.modules@.subrange(0, old(self).modules@.len() as int) =~= old(
                self,
            ).modules@);
        }
        Some(midx)
    }

    /// Allocation without the full module-table invariant: the caller
    /// re-establishes it after pairing the new module with its object.
    fn new_obj_loose(&mut self, name: Option<String>, range: Range, kind: ObjectKind) -> (r:
        ObjectId)
        requires
            old(self).wf_core(),
            old(self).module_stack@.len() > 0,
            kind_ns_wf(kind),
        ensures
            final(self).wf_core(),
            (final(self).model(), r) == spec_new_obj(
                old(self).model(),
                str_opt_model(name),
                range,
                kind.model(),
            ),
            final(self).modules@ == old(self).modules@,
            final(self).module_objects@ == old(self).module_objects@,
            final(self).module_stack@ == old(self).module_stack@,
            final(self).universe == old(self).universe,
            final(self).diags@ == old(self).diags@,
    {
        let id = ObjectId(self.objects.len());
        let top = self.module_stack.len() - 1;
        let module_id = self.module_stack[top];
        let ghost name_model = str_opt_model(name);
        let o = Object { id, range, name, kind, module_id };
        let ghost om = o.model();
        self.objects.push(o);
        proof {
            assert(self.check_states@.contains_key(id.0 as u64) ==> (id.0 as u64)
                < old(self).objects@.len());
            assert(!self.check_states@.contains_key(id.0 as u64));
        }
        self.check_states.insert_new(id.0 as u64, CheckState::NotStarted);
        proof {
            assert(self.model().objects =~= old(self).model().objects.push(om));
            assert(self.model().stack == old(self).model().stack);
            assert(self.model().stack.last() == old(self).module_stack@[
                old(self).module_stack@.len() - 1
            ].0);
            assert(om == ObjModel {
                id,
                range,
                name: name_model,
                kind: kind.model(),
                module_id: old(self).model().stack.last(),
            });
            assert(self.model() == spec_new_obj(
                old(self).model(),
                name_model,
                range,
                kind.model(),
            ).0);
            assert forall|i: int|
                0 <= i < self.objects@.len() implies (#[trigger] self.objects@[i]).id.0 == i by {
                if i < old(self).objects@.len() {
                    assert(old(self).objects@[i].id.0 == i);
                }
            }
            assert forall|i: int|
                0 <= i < self.objects@.len() implies kind_ns_wf(
                (#[trigger] self.objects@[i]).kind) by {
                if i < old(self).objects@.len() {
                    assert(kind_ns_wf(old(self).objects@[i].kind));
                }
            }
        }
        id
    }

    /// Resolution of an import path to a materialized module.
    pub(crate) fn resolve_module_import(&mut self, ldr: &Loader, file: &String, path: &String) -> (r:
        Option<usize>)
        requires
            old(self).wf(),
            ldr.wf(),
        ensures
            final(self).wf(),
            (final(self).model(), idx_model(r)) == spec_resolve_module_import(
                *ldr,
                old(self).model(),
                file@,
                path@,
            ),
            match r {
                Some(i) => i < final(self).modules@.len(),
                None => true,
            },
            final(self).modules@.len() >= old(self).modules@.len(),
            final(self).modules@.subrange(0, old(self).modules@.len() as int) == old(
                self,
            ).modules@,
            final(self).module_stack@ == old(self).module_stack@,
    {
        let out = match ldr.resolve_import(file, path) {
            None => {
                proof {
                    assert(self.modules@.subrange(0, old(self).modules@.len() as int) =~= old(
                        self,
                    ).modules@);
                }
                return None;
            },
            Some(o) => o,
        };
        match out {
            LoadOutcome::Found(mid) => {
                let mid0 = mid.0;
                self.get_or_init(ldr, mid0)
            },
            LoadOutcome::NotFound => {
                proof {
                    assert(self.modules@.subrange(0, old(self).modules@.len() as int) =~= old(
                        self,
                    ).modules@);
                }
                None
            },
            LoadOutcome::Error(_) => {
                proof {
                    assert(self.modules@.subrange(0, old(self).modules@.len() as int) =~= old(
                        self,
                    ).modules@);
                }
                None
            },
        }
    }
}

impl Engine {
    /// Named-export lookup with re-export chasing in the materialized
    /// module at `midx`, with `fuel` bounding the chain length.
    pub(crate) fn chase(&mut self, ldr: &Loader, midx: usize, file: &String, needle: &String, fuel: u64)
        -> (r: Option<ObjectId>)
        requires
            old(self).wf(),
            ldr.wf(),
            midx < old(self).modules@.len(),
        ensures
            final(self).wf(),
            (final(self).model(), r) == spec_chase(
                *ldr,
                old(self).model(),
                midx as int,
                file@,
                needle@,
                fuel as nat,
            ),
            final(self).modules@.len() >= old(self).modules@.len(),
            final(self).modules@.subrange(0, old(self).modules@.len() as int) == old(
                self,
            ).modules@,
            final(self).module_stack@ == old(self).module_stack@,
        decreases fuel,
    {
        if fuel == 0 {
            proof {
                assert(self.modules@.subrange(0, old(self).modules@.len() as int) =~= old(
                    self,
                ).modules@);
            }
            return None;
        }
        let dflt: String = "default".to_owned();
        proof {
            assert(self.modules@.subrange(0, old(self).modules@.len() as int) =~= old(
                self,
            ).modules@);
        }
        if *needle == dflt {
            if let Some(dobj) = self.modules[midx].data.default_export {
                return Some(dobj);
            }
        }
        match self.modules[midx].data.named_exports.get(needle) {
            Some(o) => {
                return Some(*o);
            },
            None => {},
        }
        let ghost s_start = self.model();
        let ghost rexm = self.modules@[midx as int].data.model().reexports;
        let ghost f1 = (fuel - 1) as nat;
        let nrex = self.modules[midx].data.reexports.len();
        proof {
            assert(rexm.len() == nrex);
            assert(spec_chase(*ldr, old(self).model(), midx as int, file@, needle@, fuel as nat)
                == spec_chase_reexports(*ldr, s_start, rexm, 0, file@, needle@, f1));
        }
        for j in 0..nrex
            invariant
                self.wf(),
                ldr.wf(),
                fuel >= 1,
                f1 == (fuel - 1) as nat,
                nrex == rexm.len(),
                midx < self.modules@.len(),
                self.modules@[midx as int].data.model().reexports == rexm,
                self.modules@[midx as int].data.wf(),
                spec_chase(*ldr, old(self).model(), midx as int, file@, needle@, fuel as nat)
                    == spec_chase_reexports(*ldr, s_start, rexm, 0, file@, needle@, f1),
                spec_chase_reexports(*ldr, s_start, rexm, 0, file@, needle@, f1)
                    == spec_chase_reexports(*ldr, self.model(), rexm, j as int, file@, needle@, f1),
                self.modules@.len() >= old(self).modules@.len(),
                self.modules@.subrange(0, old(self).modules@.len() as int) == old(self).modules@,
                self.module_stack@ == old(self).module_stack@,
            decreases nrex - j,
        {
            let mut code: u8 = 0;
            let mut path_s: String = String::new();
            let mut orig_s: String = String::new();
            match &self.modules[midx].data.reexports[j] {
                Reexport::List { items, import_path } => {
                    match find_reex_match(items, needle) {
                        Some(k) => {
                            code = 1;
                            path_s = import_path.clone();
                            orig_s = items[k].orig_name.clone();
                            proof {
                                assert(rexm[j as int] == self.modules@[midx as int]
                                    .data.reexports@[j as int].model());
                                assert(rexm[j as int] matches
                                    crate::object::ReexModel::List { items: im, path: pm }
                                    && spec_find_reex_item(im, needle@, 0) == Some(k as int)
                                    && im[k as int].orig == orig_s@ && pm == path_s@);
                            }
                        },
                        None => {
                            proof {
                                assert(rexm[j as int] == self.modules@[midx as int]
                                    .data.reexports@[j as int].model());
                                assert(rexm[j as int] matches
                                    crate::object::ReexModel::List { items: im, path: pm }
                                    && spec_find_reex_item(im, needle@, 0) is None);
                            }
                        },
                    }
                },
                Reexport::All { import_path } => {
                    code = 2;
                    path_s = import_path.clone();
                    proof {
                        assert(rexm[j as int] == self.modules@[midx as int]
                            .data.reexports@[j as int].model());
                        assert(rexm[j as int] matches crate::object::ReexModel::All { path: pm }
                            && pm == path_s@);
                    }
                },
            }
            let ghost pre = self.model();
            if code == 1 {
                match self.resolve_module_import(ldr, file, &path_s) {
                    None => {
                        return None;
                    },
                    Some(tidx) => {
                        let tfile = self.modules[tidx].file_name.clone();
                        proof {
                            assert(tfile@ == self.model().modules[tidx as int].file);
                        }
                        return self.chase(ldr, tidx, &tfile, &orig_s, fuel - 1);
                    },
                }
            } else if code == 2 {
                match self.resolve_module_import(ldr, file, &path_s) {
                    None => {},
                    Some(tidx) => {
                        match self.chase(ldr, tidx, file, needle, fuel - 1) {
                            Some(o) => {
                                return Some(o);
                            },
                            None => {},
                        }
                    },
                }
                proof {
                    assert(self.modules@.subrange(0, old(self).modules@.len() as int) =~= old(
                        self,
                    ).modules@);
                }
            }
            proof {
                assert(self.modules@[midx as int].data.model().reexports == rexm);
            }
        }
        None
    }

    /// The universe scope, initialized on first use.
    pub(crate) fn universe_idx(&mut self, ldr: &Loader) -> (r: usize)
        requires
            old(self).wf(),
            ldr.wf(),
        ensures
            final(self).wf(),
            (final(self).model(), Some(r as int)) == spec_universe(*ldr, old(self).model()),
            r < final(self).modules@.len(),
            final(self).modules@.len() >= old(self).modules@.len(),
            final(self).modules@.subrange(0, old(self).modules@.len() as int) == old(
                self,
            ).modules@,
            final(self).module_stack@ == old(self).module_stack@,
    {
        match self.universe {
            Some(u) => {
                let u0 = u.0;
                proof {
                    assert(self.modules@.subrange(0, old(self).modules@.len() as int) =~= old(
                        self,
                    ).modules@);
                }
                match self.find_module(u0) {
                    Some(i) => i,
                    None => vstd::pervasive::unreached(),
                }
            },
            None => {
                let umid = ldr.universe().id;
                let r = self.get_or_init(ldr, umid);
                let ghost sg = spec_get_or_init(*ldr, old(self).model(), umid);
                let idx = match r {
                    Some(i) => i,
                    None => {
                        proof {
                            assert(ldr.spec_module_index(umid) == Some(
                                ldr.universe_index as int,
                            )) by {
                                crate::loader::lemma_module_index_of_universe(*ldr);
                            }
                            assert(false);
                        }
                        vstd::pervasive::unreached()
                    },
                };
                let ghost s_after = self.model();
                self.universe = Some(ModuleId(umid));
                proof {
                    assert(self.model() == StateModel { universe: Some(umid), ..s_after });
                    assert(self.module_objects@.contains_key(umid) || find_mod(
                        self.model().modules,
                        umid,
                    ) is Some);
                    assert(self.modules@.subrange(0, old(self).modules@.len() as int) =~= old(
                        self,
                    ).modules@);
                }
                idx
            },
        }
    }

    /// Resolution of one recorded import binding from the given file.
    pub(crate) fn resolve_import_from(&mut self, ldr: &Loader, file: &String, imp: &ImportedName) -> (r:
        Option<ObjectId>)
        requires
            old(self).wf(),
            ldr.wf(),
        ensures
            final(self).wf(),
            (final(self).model(), r) == spec_resolve_import(
                *ldr,
                old(self).model(),
                file@,
                imp.model(),
            ),
            final(self).modules@.len() >= old(self).modules@.len(),
            final(self).modules@.subrange(0, old(self).modules@.len() as int) == old(
                self,
            ).modules@,
            final(self).module_stack@ == old(self).module_stack@,
    {
        proof {
            assert(self.modules@.subrange(0, old(self).modules@.len() as int) =~= old(
                self,
            ).modules@);
        }
        let mid0: u64 = match ldr.resolve_import(file, &imp.import_path) {
            None => {
                return None;
            },
            Some(out) => match out {
                LoadOutcome::NotFound => {
                    return None;
                },
                LoadOutcome::Error(msg) => {
                    let detail = msg.clone();
                    let ghost pre = self.diags@;
                    self.diags.push(
                        Diagnostic {
                            range: imp.range,
                            kind: DiagnosticKind::ImportNotFound { detail },
                        },
                    );
                    proof {
                        assert(self.diags@.map_values(|dg: Diagnostic| dg.model()) =~= pre
                            .map_values(|dg: Diagnostic| dg.model()).push(
                            crate::object::DiagModel {
                                range: imp.range,
                                kind: crate::object::DiagKindModel::ImportNotFound(msg@),
                            },
                        ));
                    }
                    return None;
                },
                LoadOutcome::Found(mid) => mid.0,
            },
        };
        let tidx = match self.get_or_init(ldr, mid0) {
            None => {
                return None;
            },
            Some(t) => t,
        };
        match &imp.kind {
            ImportKind::Named(name) => {
                let tfile = self.modules[tidx].file_name.clone();
                let b = chase_budget(ldr);
                let ghost pre_chase = self.model();
                match self.chase(ldr, tidx, &tfile, name, b) {
                    Some(o) => Some(o),
                    None => {
                        let ghost pre = self.diags@;
                        self.diags.push(
                            Diagnostic {
                                range: imp.range,
                                kind: DiagnosticKind::ExportNotFound { name: name.clone() },
                            },
                        );
                        proof {
                            assert(self.diags@.map_values(|dg: Diagnostic| dg.model()) =~= pre
                                .map_values(|dg: Diagnostic| dg.model()).push(
                                crate::object::DiagModel {
                                    range: imp.range,
                                    kind: crate::object::DiagKindModel::ExportNotFound(name@),
                                },
                            ));
                            assert(self.modules@.subrange(
                                0,
                                old(self).modules@.len() as int,
                            ) =~= old(self).modules@);
                        }
                        None
                    },
                }
            },
            ImportKind::Default => {
                let tfile = self.modules[tidx].file_name.clone();
                let b = chase_budget(ldr);
                let dflt: String = "default".to_owned();
                match self.chase(ldr, tidx, &tfile, &dflt, b) {
                    Some(o) => Some(o),
                    None => {
                        let ghost pre = self.diags@;
                        self.diags.push(
                            Diagnostic {
                                range: imp.range,
                                kind: DiagnosticKind::DefaultExportNotFound,
                            },
                        );
                        proof {
                            assert(self.diags@.map_values(|dg: Diagnostic| dg.model()) =~= pre
                                .map_values(|dg: Diagnostic| dg.model()).push(
                                crate::object::DiagModel {
                                    range: imp.range,
                                    kind: crate::object::DiagKindModel::DefaultExportNotFound,
                                },
                            ));
                            assert(self.modules@.subrange(
                                0,
                                old(self).modules@.len() as int,
                            ) =~= old(self).modules@);
                        }
                        None
                    },
                }
            },
            ImportKind::Namespace => {
                match self.module_objects.get(mid0) {
                    Some(o) => Some(*o),
                    None => {
                        let ghost pre = self.diags@;
                        self.diags.push(
                            Diagnostic {
                                range: imp.range,
                                kind: DiagnosticKind::NamespaceObjectNotFound,
                            },
                        );
                        proof {
                            assert(self.diags@.map_values(|dg: Diagnostic| dg.model()) =~= pre
                                .map_values(|dg: Diagnostic| dg.model()).push(
                                crate::object::DiagModel {
                                    range: imp.range,
                                    kind: crate::object::DiagKindModel::NamespaceObjectNotFound,
                                },
                            ));
                            assert(self.modules@.subrange(
                                0,
                                old(self).modules@.len() as int,
                            ) =~= old(self).modules@);
                        }
                        None
                    },
                }
            },
        }
    }

    /// Resolution of an identifier occurrence in a materialized module.
    pub(crate) fn resolve_module_ident(&mut self, ldr: &Loader, module_id: ModuleId, ident: &Ident) -> (r:
        Option<ObjectId>)
        requires
            old(self).wf(),
            ldr.wf(),
        ensures
            final(self).wf(),
            (final(self).model(), r) == spec_resolve_ident(
                *ldr,
                old(self).model(),
                module_id.0,
                ident.id,
                ident.sym@,
            ),
            final(self).modules@.len() >= old(self).modules@.len(),
            final(self).module_stack@ == old(self).module_stack@,
    {
        let midx = match self.find_module(module_id.0) {
            None => {
                return None;
            },
            Some(i) => i,
        };
        let key = AstId::of_ident(ident);
        match self.modules[midx].data.top_level.get(&key) {
            Some(o) => {
                return Some(*o);
            },
            None => {},
        }
        let imp_opt: Option<ImportedName> = match self.modules[midx].data.imports.get(&key) {
            Some(imp) => Some(dup_imported_name(imp)),
            None => None,
        };
        if let Some(imp) = imp_opt {
            let file = self.modules[midx].file_name.clone();
            proof {
                assert(file@ == self.model().modules[midx as int].file);
            }
            return self.resolve_import_from(ldr, &file, &imp);
        }
        let uidx = self.universe_idx(ldr);
        match self.modules[uidx].data.named_exports.get(&ident.sym) {
            Some(o) => Some(*o),
            None => None,
        }
    }
}

/// The session root handed to consumers: the module loader's knowledge and
/// the engine state, with the resolution queries of this core.
pub struct ResolveState {
    pub loader: Loader,
    pub eng: Engine,
}

impl ResolveState {
    /// Model of the mutable session state.
    pub open spec fn model(&self) -> StateModel {
        self.eng.model()
    }

    /// Well-formedness of the session.
    pub open spec fn wf(&self) -> bool {
        self.eng.wf() && self.loader.wf()
    }

    /// A fresh session over the given loader knowledge.
    pub fn new(loader: Loader) -> (r: ResolveState)
        requires
            loader.wf(),
        ensures
            r.wf(),
            r.model() == StateModel::init(),
            r.loader == loader,
    {
        ResolveState { loader, eng: Engine::new() }
    }

    /// The diagnostics reported so far, in order.
    pub fn diagnostics(&self) -> (r: &Vec<Diagnostic>)
        ensures
            r@.map_values(|d: Diagnostic| d.model()) == self.model().diags,
    {
        self.eng.diagnostics()
    }

    /// The object with identity `id`, if allocated.
    pub fn object(&self, id: ObjectId) -> (r: Option<&Object>)
        requires
            self.wf(),
        ensures
            match r {
                Some(o) => id.0 < self.model().objects.len() && o.model() == self.model().objects[
                    id.0 as int
                ] && o.id == id,
                None => id.0 >= self.model().objects.len(),
            },
    {
        self.eng.object(id)
    }

    /// The materialized module at `index`.
    pub fn module_at(&self, index: usize) -> (r: &Module)
        requires
            index < self.eng.modules@.len(),
        ensures
            r.model() == self.model().modules[index as int],
    {
        self.eng.module_at(index)
    }

    /// The materialized module with identity `id`, if any.
    pub fn lookup_module(&self, id: ModuleId) -> (r: Option<&Module>)
        ensures
            match r {
                Some(m) => exists|i: int|
                    find_mod(self.model().modules, id.0) == Some(i) && m.model()
                        == self.model().modules[i],
                None => find_mod(self.model().modules, id.0) is None,
            },
    {
        match self.eng.find_module(id.0) {
            Some(i) => {
                let m = self.eng.module_at(i);
                proof {
                    assert(find_mod(self.model().modules, id.0) == Some(i as int) && m.model()
                        == self.model().modules[i as int]);
                }
                Some(m)
            },
            None => None,
        }
    }

    /// Memoized materialization of the module with identity `module_id`:
    /// idempotent per identity, with the module's namespace table built
    /// exactly once per session. Yields the module's arena index, or
    /// nothing when the loader does not know the identity.
    pub fn get_or_init_module(&mut self, module_id: ModuleId) -> (r: Option<usize>)
        requires
            old(self).wf(),
        ensures
            final(self).wf(),
            final(self).loader == old(self).loader,
            (final(self).model(), idx_model(r)) == spec_get_or_init(
                old(self).loader,
                old(self).model(),
                module_id.0,
            ),
            match r {
                Some(i) => i < final(self).eng.modules@.len(),
                None => true,
            },
    {
        self.eng.get_or_init(&self.loader, module_id.0)
    }

    /// The universe scope: the ambient/global module, built through the
    /// ordinary materialization exactly once per session.
    pub fn universe(&mut self) -> (r: usize)
        requires
            old(self).wf(),
        ensures
            final(self).wf(),
            final(self).loader == old(self).loader,
            (final(self).model(), Some(r as int)) == spec_universe(
                old(self).loader,
                old(self).model(),
            ),
            r < final(self).eng.modules@.len(),
    {
        self.eng.universe_idx(&self.loader)
    }

    /// Whether `id` is the identity of the universe scope. Forces the
    /// universe's initialization.
    pub fn is_universe(&mut self, id: ModuleId) -> (r: bool)
        requires
            old(self).wf(),
        ensures
            final(self).wf(),
            final(self).loader == old(self).loader,
            ({
                let (s1, uo) = spec_universe(old(self).loader, old(self).model());
                final(self).model() == s1 && uo is Some && r == (s1.modules[uo->Some_0].module_id
                    == id.0)
            }),
    {
        let u = self.eng.universe_idx(&self.loader);
        self.eng.module_at(u).module_id.0 == id.0
    }

    /// Whether the materialized module with identity `id` carries `name` as
    /// its path within its package.
    pub fn is_module_path(&self, id: ModuleId, name: &str) -> (r: bool)
        ensures
            r == match find_mod(self.model().modules, id.0) {
                Some(i) => self.model().modules[i].pkg == Some(name@),
                None => false,
            },
    {
        let owned: String = name.to_owned();
        match self.eng.find_module(id.0) {
            Some(i) => {
                match &self.eng.module_at(i).pkg_path {
                    Some(p) => *p == owned,
                    None => false,
                }
            },
            None => false,
        }
    }

    /// The default export of the materialized module with identity
    /// `module_id`, if both exist. Consults no other scope and reports
    /// nothing.
    pub fn resolve_module_default_export(&self, module_id: ModuleId) -> (r: Option<ObjectId>)
        ensures
            r == match find_mod(self.model().modules, module_id.0) {
                Some(i) => self.model().modules[i].ns.default_export,
                None => None::<ObjectId>,
            },
    {
        match self.eng.find_module(module_id.0) {
            Some(i) => self.eng.module_at(i).data.default_export,
            None => None,
        }
    }

    /// Resolution of an identifier occurrence in the materialized module
    /// with identity `module_id`: the module's own top level first, then
    /// its imports, then the universe scope, else nothing.
    pub fn resolve_module_ident(&mut self, module_id: ModuleId, ident: &Ident) -> (r: Option<
        ObjectId,
    >)
        requires
            old(self).wf(),
        ensures
            final(self).wf(),
            final(self).loader == old(self).loader,
            (final(self).model(), r) == spec_resolve_ident(
                old(self).loader,
                old(self).model(),
                module_id.0,
                ident.id,
                ident.sym@,
            ),
    {
        self.eng.resolve_module_ident(&self.loader, module_id, ident)
    }

    /// Resolution of one recorded import binding of the materialized module
    /// with identity `module_id`. Yields nothing when that module is not
    /// materialized.
    pub fn resolve_import(&mut self, module_id: ModuleId, imp: &ImportedName) -> (r: Option<
        ObjectId,
    >)
        requires
            old(self).wf(),
        ensures
            final(self).wf(),
            final(self).loader == old(self).loader,
            match find_mod(old(self).model().modules, module_id.0) {
                Some(i) => (final(self).model(), r) == spec_resolve_import(
                    old(self).loader,
                    old(self).model(),
                    old(self).model().modules[i].file,
                    imp.model(),
                ),
                None => final(self).model() == old(self).model() && r is None,
            },
    {
        let midx = match self.eng.find_module(module_id.0) {
            Some(i) => i,
            None => {
                return None;
            },
        };
        let file = self.eng.module_at(midx).file_name.clone();
        proof {
            assert(file@ == self.model().modules[midx as int].file);
        }
        self.eng.resolve_import_from(&self.loader, &file, imp)
    }

    /// Resolution of an import path, relative to the given file, to a
    /// materialized module's arena index. A miss or a loader error yields
    /// nothing, silently.
    pub fn resolve_module_import(&mut self, from_file: &String, import_path: &String) -> (r:
        Option<usize>)
        requires
            old(self).wf(),
        ensures
            final(self).wf(),
            final(self).loader == old(self).loader,
            (final(self).model(), idx_model(r)) == spec_resolve_module_import(
                old(self).loader,
                old(self).model(),
                from_file@,
                import_path@,
            ),
            match r {
                Some(i) => i < final(self).eng.modules@.len(),
                None => true,
            },
    {
        self.eng.resolve_module_import(&self.loader, from_file, import_path)
    }

    /// The check state of the object with identity `id`, if allocated.
    pub fn check_state(&self, id: ObjectId) -> (r: Option<&CheckState>)
        requires
            self.wf(),
        ensures
            match r {
                Some(c) => self.model().checks.contains_key(id.0 as u64) && *c == self.model()
                    .checks[id.0 as u64],
                None => !self.model().checks.contains_key(id.0 as u64),
            },
    {
        self.eng.check_states.get(id.0 as u64)
    }

    /// Marks the object's deferred type computation as in progress. Entering
    /// an already in-progress computation is a cycle: it is reported at the
    /// object's range and refused, as is re-entering a completed one or
    /// naming an unallocated object.
    pub fn begin_check(&mut self, id: ObjectId) -> (r: bool)
        requires
            old(self).wf(),
        ensures
            final(self).wf(),
            final(self).loader == old(self).loader,
            r == (old(self).model().checks.contains_key(id.0 as u64) && old(self).model().checks[
                id.0 as u64
            ] == CheckState::NotStarted),
            r ==> final(self).model() == (StateModel {
                checks: old(self).model().checks.insert(id.0 as u64, CheckState::InProgress),
                ..old(self).model()
            }),
            (!r && old(self).model().checks.contains_key(id.0 as u64) && old(self).model().checks[
                id.0 as u64
            ] == CheckState::InProgress) ==> final(self).model() == (StateModel {
                diags: old(self).model().diags.push(
                    crate::object::DiagModel {
                        range: old(self).model().objects[id.0 as int].range,
                        kind: crate::object::DiagKindModel::TypeCheckCycle,
                    },
                ),
                ..old(self).model()
            }),
            (!r && !(old(self).model().checks.contains_key(id.0 as u64) && old(
                self,
            ).model().checks[id.0 as u64] == CheckState::InProgress)) ==> final(self).model()
                == old(self).model(),
    {
        let cur: CheckState = match self.eng.check_states.get(id.0 as u64) {
            Some(c) => *c,
            None => {
                return false;
            },
        };
        match cur {
            CheckState::NotStarted => {
                self.eng.check_states.set(id.0 as u64, CheckState::InProgress);
                true
            },
            CheckState::InProgress => {
                let range = self.eng.objects[id.0].range;
                let ghost pre = self.eng.diags@;
                self.eng.diags.push(
                    Diagnostic { range, kind: DiagnosticKind::TypeCheckCycle },
                );
                proof {
                    assert(self.eng.diags@.map_values(|dg: Diagnostic| dg.model()) =~= pre
                        .map_values(|dg: Diagnostic| dg.model()).push(
                        crate::object::DiagModel {
                            range,
                            kind: crate::object::DiagKindModel::TypeCheckCycle,
                        },
                    ));
                    assert(old(self).model().objects[id.0 as int].range == range);
                }
                false
            },
            CheckState::Completed(_) => false,
        }
    }

    /// Records the result of the object's deferred type computation. Only
    /// an in-progress computation can complete.
    pub fn complete_check(&mut self, id: ObjectId, t: crate::object::TypeRef) -> (r: bool)
        requires
            old(self).wf(),
        ensures
            final(self).wf(),
            final(self).loader == old(self).loader,
            r == (old(self).model().checks.contains_key(id.0 as u64) && old(self).model().checks[
                id.0 as u64
            ] == CheckState::InProgress),
            r ==> final(self).model() == (StateModel {
                checks: old(self).model().checks.insert(id.0 as u64, CheckState::Completed(t)),
                ..old(self).model()
            }),
            !r ==> final(self).model() == old(self).model(),
    {
        let cur: CheckState = match self.eng.check_states.get(id.0 as u64) {
            Some(c) => *c,
            None => {
                return false;
            },
        };
        match cur {
            CheckState::InProgress => {
                self.eng.check_states.set(id.0 as u64, CheckState::Completed(t));
                true
            },
            _ => false,
        }
    }
}

impl NSData {
    /// Named-export lookup in this scope, as seen from `curr_module`: the
    /// default export for the name `default`, else a direct named export,
    /// else the first match along this scope's re-export directives in
    /// declaration order, chasing through `ctx`.
    pub fn get_named_export(
        &self,
        ctx: &mut ResolveState,
        curr_module: &String,
        needle: &String,
    ) -> (r: Option<ObjectId>)
        requires
            self.wf(),
            old(ctx).wf(),
        ensures
            final(ctx).wf(),
            final(ctx).loader == old(ctx).loader,
            (final(ctx).model(), r) == crate::model::spec_ns_get_named_export(
                old(ctx).loader,
                old(ctx).model(),
                self.model(),
                curr_module@,
                needle@,
            ),
    {
        let dflt: String = "default".to_owned();
        if *needle == dflt {
            if let Some(dobj) = self.default_export {
                return Some(dobj);
            }
        }
        match self.named_exports.get(needle) {
            Some(o) => {
                return Some(*o);
            },
            None => {},
        }
        let b = chase_budget(&ctx.loader);
        let ghost s_start = ctx.eng.model();
        let ghost rexm = self.model().reexports;
        let nrex = self.reexports.len();
        proof {
            assert(rexm.len() == nrex);
        }
        for j in 0..nrex
            invariant
                ctx.eng.wf(),
                ctx.loader.wf(),
                ctx.loader == old(ctx).loader,
                self.wf(),
                b as nat == spec_budget(old(ctx).loader),
                nrex == rexm.len(),
                rexm == self.model().reexports,
                crate::model::spec_ns_get_named_export(
                    old(ctx).loader,
                    old(ctx).model(),
                    self.model(),
                    curr_module@,
                    needle@,
                ) == spec_chase_reexports(
                    old(ctx).loader,
                    s_start,
                    rexm,
                    0,
                    curr_module@,
                    needle@,
                    b as nat,
                ),
                spec_chase_reexports(
                    old(ctx).loader,
                    s_start,
                    rexm,
                    0,
                    curr_module@,
                    needle@,
                    b as nat,
                ) == spec_chase_reexports(
                    old(ctx).loader,
                    ctx.eng.model(),
                    rexm,
                    j as int,
                    curr_module@,
                    needle@,
                    b as nat,
                ),
            decreases nrex - j,
        {
            let mut code: u8 = 0;
            let mut path_s: String = String::new();
            let mut orig_s: String = String::new();
            match &self.reexports[j] {
                Reexport::List { items, import_path } => {
                    match find_reex_match(items, needle) {
                        Some(k) => {
                            code = 1;
                            path_s = import_path.clone();
                            orig_s = items[k].orig_name.clone();
                            proof {
                                assert(rexm[j as int] == self.reexports@[j as int].model());
                                assert(rexm[j as int] matches
                                    crate::object::ReexModel::List { items: im, path: pm }
                                    && spec_find_reex_item(im, needle@, 0) == Some(k as int)
                                    && im[k as int].orig == orig_s@ && pm == path_s@);
                            }
                        },
                        None => {
                            proof {
                                assert(rexm[j as int] == self.reexports@[j as int].model());
                                assert(rexm[j as int] matches
                                    crate::object::ReexModel::List { items: im, path: pm }
                                    && spec_find_reex_item(im, needle@, 0) is None);
                            }
                        },
                    }
                },
                Reexport::All { import_path } => {
                    code = 2;
                    path_s = import_path.clone();
                    proof {
                        assert(rexm[j as int] == self.reexports@[j as int].model());
                        assert(rexm[j as int] matches crate::object::ReexModel::All { path: pm }
                            && pm == path_s@);
                    }
                },
            }
            if code == 1 {
                match ctx.eng.resolve_module_import(&ctx.loader, curr_module, &path_s) {
                    None => {
                        return None;
                    },
                    Some(tidx) => {
                        let tfile = ctx.eng.modules[tidx].file_name.clone();
                        proof {
                            assert(tfile@ == ctx.eng.model().modules[tidx as int].file);
                        }
                        return ctx.eng.chase(&ctx.loader, tidx, &tfile, &orig_s, b);
                    },
                }
            } else if code == 2 {
                match ctx.eng.resolve_module_import(&ctx.loader, curr_module, &path_s) {
                    None => {},
                    Some(tidx) => {
                        match ctx.eng.chase(&ctx.loader, tidx, curr_module, needle, b) {
                            Some(o) => {
                                return Some(o);
                            },
                            None => {},
                        }
                    },
                }
            }
        }
        None
    }
}

} // verus!
