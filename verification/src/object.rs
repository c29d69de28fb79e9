//! The semantic entities of the object graph: uniquely identified
//! [`Object`]s, the per-scope namespace table [`NSData`], the per-file
//! [`Module`], and the diagnostics the construction and resolution passes
//! report.
//!
//! Cross-references are small integer identities ([`ObjectId`],
//! [`crate::ModuleId`]); the arenas they index live in the resolve session.

use vstd::prelude::*;
use crate::ModuleId;
use crate::ast::{AstId, AstRef, InterfaceDecl, ModuleItem, Range, TypeAliasDecl};
use crate::maps::{AstIdMap, NameMap, ast_id_key};

verus! {

/// Identity of an [`Object`], unique and never reused within a session.
#[derive(Debug, Clone, Copy, PartialEq, Eq, Structural, Hash)]
pub struct ObjectId(pub usize);

/// Handle to a type computed by an external type-computation pass.
#[derive(Debug, Clone, Copy, PartialEq, Eq, Structural, Hash)]
pub struct TypeRef(pub u64);

/// The lazy memoization status of the deferred type computation attached to
/// an object: not started, in progress (cycle guard), or completed.
#[derive(Debug, Clone, Copy, PartialEq, Eq, Structural)]
pub enum CheckState {
    NotStarted,
    InProgress,
    Completed(TypeRef),
}

/// Payload of a type-name object: the interface or type-alias declaration.
#[derive(Debug)]
pub enum TypeNameDecl {
    Interface(InterfaceDecl),
    TypeAlias(TypeAliasDecl),
}

/// An interface or type-alias entity.
#[derive(Debug)]
pub struct TypeName {
    pub decl: TypeNameDecl,
}

/// A class entity; the declaration body is an opaque parser handle.
#[derive(Debug)]
pub struct Class {
    pub decl: AstRef,
}

/// An enum entity with its ordered member handles.
#[derive(Debug)]
pub struct Enum {
    pub members: Vec<AstRef>,
}

/// A function entity; signature and body are an opaque parser handle.
#[derive(Debug)]
pub struct Func {
    pub decl: AstRef,
}

/// A variable entity: optional type annotation and optional initializer.
#[derive(Debug)]
pub struct Var {
    pub type_ann: Option<AstRef>,
    pub expr: Option<AstRef>,
}

/// A using-binding entity: optional type annotation and optional initializer.
#[derive(Debug)]
pub struct Using {
    pub type_ann: Option<AstRef>,
    pub expr: Option<AstRef>,
}

/// A namespace entity: the namespace's own scope table.
#[derive(Debug)]
pub struct Namespace {
    pub data: Box<NSData>,
}

/// The payload of an object: which kind of entity it is, with the data later
/// passes need to re-derive its type or shape.
#[derive(Debug)]
pub enum ObjectKind {
    TypeName(TypeName),
    Enum(Enum),
    Var(Var),
    Using(Using),
    Func(Func),
    Class(Class),
    /// A whole module as an object; the module lives in the session arena.
    Module(ModuleId),
    Namespace(Namespace),
}

impl ObjectKind {
    /// The declared type parameters, for the payloads that carry them: the
    /// handles of an interface's or type alias's parameter list, empty for
    /// every other kind of entity.
    pub fn type_params(&self) -> (r: Vec<AstRef>)
        ensures
            r@ == match self.model() {
                KindModel::TypeName(TypeNameModel::Interface { type_params, .. }) => type_params,
                KindModel::TypeName(TypeNameModel::TypeAlias { type_params, .. }) => type_params,
                _ => Seq::<AstRef>::empty(),
            },
    {
        match self {
            ObjectKind::TypeName(t) => match &t.decl {
                TypeNameDecl::Interface(d) => copy_param_refs(&d.type_params),
                TypeNameDecl::TypeAlias(d) => copy_param_refs(&d.type_params),
            },
            _ => {
                let r: Vec<AstRef> = Vec::new();
                proof {
                    assert(r@ =~= Seq::<AstRef>::empty());
                }
                r
            },
        }
    }
}

/// A fresh vector with the same parameter handles.
fn copy_param_refs(v: &Vec<AstRef>) -> (r: Vec<AstRef>)
    ensures
        r@ == v@,
{
    let mut r: Vec<AstRef> = Vec::new();
    let n = v.len();
    for i in 0..n
        invariant
            n == v@.len(),
            r@ == v@.subrange(0, i as int),
    {
        r.push(v[i]);
        proof {
            assert(r@ =~= v@.subrange(0, i + 1));
        }
    }
    proof {
        assert(v@.subrange(0, n as int) =~= v@);
    }
    r
}

/// An Object describes a named language entity such as a module, constant,
/// type, variable, function, etc.
#[derive(Debug)]
pub struct Object {
    pub id: ObjectId,
    pub range: Range,
    pub name: Option<String>,
    pub kind: ObjectKind,
    pub module_id: ModuleId,
}

// Equality and hashing of objects are identity-based (by id), never by name
// or structural content: two objects with the same name in different scopes
// are distinct, and a re-exported name resolves to the same object as the
// original declaration.
impl PartialEq for Object {
    fn eq(&self, other: &Object) -> (r: bool) {
        self.id.0 == other.id.0
    }
}

impl vstd::std_specs::cmp::PartialEqSpecImpl for Object {
    open spec fn obeys_eq_spec() -> bool {
        true
    }

    open spec fn eq_spec(&self, other: &Object) -> bool {
        self.id == other.id
    }
}

/// The name under which an import travels: the original exported name, the
/// default export, or the whole module as a namespace object.
#[derive(Debug, Clone)]
pub enum ImportKind {
    Named(String),
    Default,
    Namespace,
}

/// One recorded import binding: where it was written, the unresolved import
/// path, and what it imports.
#[derive(Debug, Clone)]
pub struct ImportedName {
    pub range: Range,
    pub import_path: String,
    pub kind: ImportKind,
}

/// One item of a re-export list: the original name and its optional rename.
#[derive(Debug)]
pub struct NamedReexport {
    pub orig_name: String,
    pub renamed: Option<String>,
}

/// A re-export directive: a named list or a wildcard, from another module.
#[derive(Debug)]
pub enum Reexport {
    List { items: Vec<NamedReexport>, import_path: String },
    All { import_path: String },
}

/// A reported, recoverable resolution problem.
#[derive(Debug)]
pub enum DiagnosticKind {
    /// A second import bound the same local identity.
    AlreadyImported { name: String },
    /// A second `export default` declaration in one module.
    DuplicateDefaultExport,
    /// The module loader failed while resolving an import path.
    ImportNotFound { detail: String },
    /// The imported module has no export under the requested name.
    ExportNotFound { name: String },
    /// The imported module has no default export.
    DefaultExportNotFound,
    /// The wrapping object of a namespace-imported module is missing.
    NamespaceObjectNotFound,
    /// The object's deferred type computation re-entered itself.
    TypeCheckCycle,
}

/// A diagnostic anchored at its precise source range.
#[derive(Debug)]
pub struct Diagnostic {
    pub range: Range,
    pub kind: DiagnosticKind,
}

// Mathematical models. Strings appear as character sequences, imports,
// re-exports, diagnostics and object payloads as plain values over them.

/// Model of an import binding.
pub struct ImpModel {
    pub range: Range,
    pub path: Seq<char>,
    pub kind: ImpKindModel,
}

/// Model of an import kind.
pub enum ImpKindModel {
    Named(Seq<char>),
    Default,
    Namespace,
}

/// Model of one re-export list item.
pub struct ReexItemModel {
    pub orig: Seq<char>,
    pub renamed: Option<Seq<char>>,
}

impl ReexItemModel {
    /// The name under which the item is visible to importers.
    pub open spec fn effective(self) -> Seq<char> {
        match self.renamed {
            Some(r) => r,
            None => self.orig,
        }
    }
}

/// Model of a re-export directive.
pub enum ReexModel {
    List { items: Seq<ReexItemModel>, path: Seq<char> },
    All { path: Seq<char> },
}

/// Model of a namespace table.
pub struct NsModel {
    pub imports: Map<(u64, Seq<char>), ImpModel>,
    pub top_level: Map<(u64, Seq<char>), ObjectId>,
    pub named_exports: Map<Seq<char>, ObjectId>,
    pub default_export: Option<ObjectId>,
    pub reexports: Seq<ReexModel>,
}

impl NsModel {
    /// The empty namespace table.
    pub open spec fn empty() -> NsModel {
        NsModel {
            imports: Map::empty(),
            top_level: Map::empty(),
            named_exports: Map::empty(),
            default_export: None,
            reexports: Seq::empty(),
        }
    }
}

/// Model of a type-name payload.
pub enum TypeNameModel {
    Interface { bind: u64, name: Seq<char>, type_params: Seq<AstRef>, body: AstRef, range: Range },
    TypeAlias { bind: u64, name: Seq<char>, type_params: Seq<AstRef>, alias: AstRef, range: Range },
}

/// Model of an object payload.
pub enum KindModel {
    TypeName(TypeNameModel),
    Enum(Seq<AstRef>),
    Var { type_ann: Option<AstRef>, expr: Option<AstRef> },
    Using { type_ann: Option<AstRef>, expr: Option<AstRef> },
    Func(AstRef),
    Class(AstRef),
    Module(u64),
    Namespace(NsModel),
}

/// Model of an object.
pub struct ObjModel {
    pub id: ObjectId,
    pub range: Range,
    pub name: Option<Seq<char>>,
    pub kind: KindModel,
    pub module_id: u64,
}

/// Model of a diagnostic kind.
pub enum DiagKindModel {
    AlreadyImported(Seq<char>),
    DuplicateDefaultExport,
    ImportNotFound(Seq<char>),
    ExportNotFound(Seq<char>),
    DefaultExportNotFound,
    NamespaceObjectNotFound,
    TypeCheckCycle,
}

/// Model of a diagnostic.
pub struct DiagModel {
    pub range: Range,
    pub kind: DiagKindModel,
}

/// Model of an optional name.
pub open spec fn str_opt_model(o: Option<String>) -> Option<Seq<char>> {
    match o {
        Some(n) => Some(n@),
        None => None,
    }
}

impl ImportKind {
    /// Model of this import kind.
    pub open spec fn model(&self) -> ImpKindModel {
        match self {
            ImportKind::Named(s) => ImpKindModel::Named(s@),
            ImportKind::Default => ImpKindModel::Default,
            ImportKind::Namespace => ImpKindModel::Namespace,
        }
    }
}

impl ImportedName {
    /// Model of this import binding.
    pub open spec fn model(&self) -> ImpModel {
        ImpModel { range: self.range, path: self.import_path@, kind: self.kind.model() }
    }
}

impl NamedReexport {
    /// Model of this re-export list item.
    pub open spec fn model(&self) -> ReexItemModel {
        ReexItemModel {
            orig: self.orig_name@,
            renamed: match &self.renamed {
                Some(r) => Some(r@),
                None => None,
            },
        }
    }
}

impl Reexport {
    /// Model of this re-export directive.
    pub open spec fn model(&self) -> ReexModel {
        match self {
            Reexport::List { items, import_path } => ReexModel::List {
                items: items@.map_values(|it: NamedReexport| it.model()),
                path: import_path@,
            },
            Reexport::All { import_path } => ReexModel::All { path: import_path@ },
        }
    }
}

impl TypeNameDecl {
    /// Model of this type-name payload.
    pub open spec fn model(&self) -> TypeNameModel {
        match self {
            TypeNameDecl::Interface(d) => TypeNameModel::Interface {
                bind: d.id.id,
                name: d.id.sym@,
                type_params: d.type_params@,
                body: d.body,
                range: d.range,
            },
            TypeNameDecl::TypeAlias(d) => TypeNameModel::TypeAlias {
                bind: d.id.id,
                name: d.id.sym@,
                type_params: d.type_params@,
                alias: d.alias,
                range: d.range,
            },
        }
    }
}

impl ObjectKind {
    /// Model of this payload.
    pub open spec fn model(&self) -> KindModel {
        match self {
            ObjectKind::TypeName(t) => KindModel::TypeName(t.decl.model()),
            ObjectKind::Enum(e) => KindModel::Enum(e.members@),
            ObjectKind::Var(v) => KindModel::Var { type_ann: v.type_ann, expr: v.expr },
            ObjectKind::Using(u) => KindModel::Using { type_ann: u.type_ann, expr: u.expr },
            ObjectKind::Func(f) => KindModel::Func(f.decl),
            ObjectKind::Class(c) => KindModel::Class(c.decl),
            ObjectKind::Module(m) => KindModel::Module(m.0),
            ObjectKind::Namespace(n) => KindModel::Namespace(n.data.model()),
        }
    }
}

impl Object {
    /// Model of this object.
    pub open spec fn model(&self) -> ObjModel {
        ObjModel {
            id: self.id,
            range: self.range,
            name: match &self.name {
                Some(n) => Some(n@),
                None => None,
            },
            kind: self.kind.model(),
            module_id: self.module_id.0,
        }
    }
}

impl DiagnosticKind {
    /// Model of this diagnostic kind.
    pub open spec fn model(&self) -> DiagKindModel {
        match self {
            DiagnosticKind::AlreadyImported { name } => DiagKindModel::AlreadyImported(name@),
            DiagnosticKind::DuplicateDefaultExport => DiagKindModel::DuplicateDefaultExport,
            DiagnosticKind::ImportNotFound { detail } => DiagKindModel::ImportNotFound(detail@),
            DiagnosticKind::ExportNotFound { name } => DiagKindModel::ExportNotFound(name@),
            DiagnosticKind::DefaultExportNotFound => DiagKindModel::DefaultExportNotFound,
            DiagnosticKind::NamespaceObjectNotFound => DiagKindModel::NamespaceObjectNotFound,
            DiagnosticKind::TypeCheckCycle => DiagKindModel::TypeCheckCycle,
        }
    }
}

impl Diagnostic {
    /// Model of this diagnostic.
    pub open spec fn model(&self) -> DiagModel {
        DiagModel { range: self.range, kind: self.kind.model() }
    }
}

/// Namespace data: a scope's top-level declarations, imports, exports and
/// re-export directives. Append-only during construction, then read-only.
#[derive(Debug)]
pub struct NSData {
    /// The objects imported by the scope, keyed by local binding identity.
    pub imports: AstIdMap<ImportedName>,

    /// Top-level objects, keyed by binding identity.
    pub top_level: AstIdMap<ObjectId>,

    /// The named exports.
    pub named_exports: NameMap<ObjectId>,

    /// The default export, if any.
    pub default_export: Option<ObjectId>,

    /// Re-exports from other modules, in declaration order.
    pub reexports: Vec<Reexport>,

    /// Export items that have not been processed yet.
    pub unprocessed_exports: Vec<ModuleItem>,
}

impl NSData {
    /// Well-formedness of the backing tables.
    pub open spec fn wf(&self) -> bool {
        self.imports.wf() && self.top_level.wf() && self.named_exports.wf()
    }

    /// Model of this namespace table.
    pub open spec fn model(&self) -> NsModel {
        NsModel {
            imports: self.imports@.map_values(|v: ImportedName| v.model()),
            top_level: self.top_level@,
            named_exports: self.named_exports@,
            default_export: self.default_export,
            reexports: self.reexports@.map_values(|r: Reexport| r.model()),
        }
    }

    /// The empty namespace table.
    pub fn new() -> (r: Self)
        ensures
            r.wf(),
            r.model() == NsModel::empty(),
    {
        let r = NSData {
            imports: AstIdMap::new(),
            top_level: AstIdMap::new(),
            named_exports: NameMap::new(),
            default_export: None,
            reexports: Vec::new(),
            unprocessed_exports: Vec::new(),
        };
        proof {
            assert(r.model().imports =~= NsModel::empty().imports);
            assert(r.model().top_level =~= NsModel::empty().top_level);
            assert(r.model().named_exports =~= NsModel::empty().named_exports);
            assert(r.model().reexports =~= NsModel::empty().reexports);
        }
        r
    }

    /// Registers a top-level declaration. A second declaration under an
    /// already-present binding identity is a no-op that returns the existing
    /// object (an unsupported overload, not an error).
    pub fn add_top_level(&mut self, id: AstId, obj: ObjectId) -> (r: ObjectId)
        requires
            old(self).wf(),
        ensures
            final(self).wf(),
            old(self).model().top_level.contains_key(ast_id_key(id)) ==> {
                &&& r == old(self).model().top_level[ast_id_key(id)]
                &&& *final(self) == *old(self)
            },
            !old(self).model().top_level.contains_key(ast_id_key(id)) ==> {
                &&& r == obj
                &&& final(self).model() == NsModel {
                    top_level: old(self).model().top_level.insert(ast_id_key(id), obj),
                    ..old(self).model()
                }
            },
    {
        if let Some(other) = self.top_level.get(&id) {
            return *other;
        }
        self.top_level.insert_new(id, obj);
        obj
    }

    /// Records an import binding. Re-binding an already-imported local
    /// identity is a reported error and the second import is dropped.
    pub fn add_import(&mut self, id: AstId, import: ImportedName, diags: &mut Vec<Diagnostic>)
        requires
            old(self).wf(),
        ensures
            final(self).wf(),
            old(self).model().imports.contains_key(ast_id_key(id)) ==> {
                &&& *final(self) == *old(self)
                &&& final(diags)@.map_values(|d: Diagnostic| d.model()) == old(diags)@.map_values(
                    |d: Diagnostic| d.model(),
                ).push(
                    DiagModel {
                        range: import.range,
                        kind: DiagKindModel::AlreadyImported(id.name@),
                    },
                )
            },
            !old(self).model().imports.contains_key(ast_id_key(id)) ==> {
                &&& *final(diags) == *old(diags)
                &&& final(self).model() == NsModel {
                    imports: old(self).model().imports.insert(ast_id_key(id), import.model()),
                    ..old(self).model()
                }
            },
    {
        if self.imports.contains_key(&id) {
            let range = import.range;
            diags.push(Diagnostic { range, kind: DiagnosticKind::AlreadyImported { name: id.name } });
            proof {
                assert(diags@.map_values(|d: Diagnostic| d.model()) =~= old(diags)@.map_values(
                    |d: Diagnostic| d.model(),
                ).push(
                    DiagModel {
                        range: import.range,
                        kind: DiagKindModel::AlreadyImported(id.name@),
                    },
                ));
            }
            return;
        }
        self.imports.insert_new(id, import);
        proof {
            assert(self.model().imports =~= old(self).model().imports.insert(
                ast_id_key(id),
                import.model(),
            ));
        }
    }
}

/// A source file's namespace table, together with the identity and paths of
/// the loaded file it was built from (the parsed tree itself stays with the
/// module loader).
#[derive(Debug)]
pub struct Module {
    /// Identity of the loaded file this module was built from.
    pub module_id: ModuleId,
    /// The file path the parser loaded the module from.
    pub file_name: String,
    /// The path of the module within its package, when the file belongs to one.
    pub pkg_path: Option<String>,
    /// The namespace table of the module's top-level scope.
    pub data: NSData,
}

/// Model of a module.
pub struct ModModel {
    pub module_id: u64,
    pub file: Seq<char>,
    pub pkg: Option<Seq<char>>,
    pub ns: NsModel,
}

impl Module {
    /// Model of this module.
    pub open spec fn model(&self) -> ModModel {
        ModModel {
            module_id: self.module_id.0,
            file: self.file_name@,
            pkg: match &self.pkg_path {
                Some(p) => Some(p@),
                None => None,
            },
            ns: self.data.model(),
        }
    }
}

} // verus!
