//! Plain data model of the parsed syntax tree, at the granularity the
//! resolution engine reads it.
//!
//! Parsing is performed by an external collaborator; it hands over values of
//! these types. Payloads that resolution only carries along (class bodies,
//! function bodies, type annotations, initializer expressions, enum members,
//! type parameters) are opaque handles ([`AstRef`]) into the parser's own
//! tree.

use vstd::prelude::*;

verus! {

/// A half-open source range, in byte positions of the original file.
#[derive(Debug, Clone, Copy, PartialEq, Eq, Structural)]
pub struct Range {
    pub start: u32,
    pub end: u32,
}

/// Opaque handle to a node in the external parser's tree (a class body, a
/// function body, a type annotation, an initializer expression, ...).
#[derive(Debug, Clone, Copy, PartialEq, Eq, Structural, Hash)]
pub struct AstRef(pub u64);

/// An identifier occurrence. `id` is the binding identity assigned by the
/// external binder: two occurrences that refer to the same local binding
/// carry the same `id`.
#[derive(Debug, Clone)]
pub struct Ident {
    pub id: u64,
    pub sym: String,
    pub range: Range,
}

/// Stable identity of a local binding, as derived from its binding site in
/// the syntax tree: the binder-assigned number together with the bound name.
/// Repeated references to the same local entity carry the same identity.
#[derive(Debug)]
pub struct AstId {
    pub id: u64,
    pub name: String,
}

impl AstId {
    /// The identity of the binding an identifier occurrence refers to.
    pub fn of_ident(i: &Ident) -> (r: AstId)
        ensures
            r.id == i.id,
            r.name == i.sym,
    {
        AstId { id: i.id, name: i.sym.clone() }
    }

    /// The identity of a bound name of a variable or using declaration.
    pub fn of_binding(b: &Binding) -> (r: AstId)
        ensures
            r.id == b.id,
            r.name == b.name,
    {
        AstId { id: b.id, name: b.name.clone() }
    }
}

/// The name under which an export travels: an identifier or a string literal.
#[derive(Debug, Clone)]
pub enum ModuleExportName {
    Ident(Ident),
    Str(String),
}

impl ModuleExportName {
    /// The character content of the name, whichever form it takes.
    pub open spec fn chars(&self) -> Seq<char> {
        match self {
            ModuleExportName::Ident(i) => i.sym@,
            ModuleExportName::Str(s) => s@,
        }
    }
}

/// One specifier of an `import` declaration.
#[derive(Debug, Clone)]
pub enum ImportSpecifier {
    /// `import {orig as local}`; `imported` is absent when no rename occurs.
    Named { local: Ident, imported: Option<ModuleExportName>, range: Range },
    /// `import local`
    Default { local: Ident, range: Range },
    /// `import * as local`
    Namespace { local: Ident, range: Range },
}

/// An `import ... from "src"` declaration.
#[derive(Debug, Clone)]
pub struct ImportDecl {
    pub src: String,
    pub specifiers: Vec<ImportSpecifier>,
    pub range: Range,
}

/// One name bound by a variable or using declaration (destructuring is
/// already flattened by the external binder).
#[derive(Debug, Clone)]
pub struct Binding {
    pub id: u64,
    pub name: String,
    pub type_ann: Option<AstRef>,
}

/// One declarator of a variable/using statement: its bound names and the
/// shared initializer.
#[derive(Debug, Clone)]
pub struct VarDeclarator {
    pub bindings: Vec<Binding>,
    pub init: Option<AstRef>,
    pub range: Range,
}

/// A `var`/`let`/`const` or `using` statement.
#[derive(Debug, Clone)]
pub struct VarDecls {
    pub decls: Vec<VarDeclarator>,
    pub range: Range,
}

/// A class declaration; the body is carried opaquely.
#[derive(Debug, Clone)]
pub struct ClassDecl {
    pub ident: Ident,
    pub class: AstRef,
    pub range: Range,
}

/// A function declaration; signature and body are carried opaquely.
#[derive(Debug, Clone)]
pub struct FnDecl {
    pub ident: Ident,
    pub function: AstRef,
    pub range: Range,
}

/// An interface declaration.
#[derive(Debug, Clone)]
pub struct InterfaceDecl {
    pub id: Ident,
    pub type_params: Vec<AstRef>,
    pub body: AstRef,
    pub range: Range,
}

/// A type-alias declaration.
#[derive(Debug, Clone)]
pub struct TypeAliasDecl {
    pub id: Ident,
    pub type_params: Vec<AstRef>,
    pub alias: AstRef,
    pub range: Range,
}

/// An enum declaration with its ordered member list.
#[derive(Debug, Clone)]
pub struct EnumDecl {
    pub id: Ident,
    pub members: Vec<AstRef>,
    pub range: Range,
}

/// The name of a namespace/module declaration.
#[derive(Debug, Clone)]
pub enum TsModuleName {
    Ident(Ident),
    Str(String),
}

/// A top-level declaration.
#[derive(Debug)]
pub enum Decl {
    Class(ClassDecl),
    Fn(FnDecl),
    Var(VarDecls),
    Using(VarDecls),
    TsInterface(InterfaceDecl),
    TsTypeAlias(TypeAliasDecl),
    TsEnum(EnumDecl),
    TsModule(TsModuleDecl),
}

/// A namespace (`namespace Foo { ... }` / `module Foo { ... }`) declaration.
#[derive(Debug)]
pub struct TsModuleDecl {
    pub id: TsModuleName,
    pub body: Option<NamespaceBody>,
    pub range: Range,
}

/// The body of a namespace declaration.
#[derive(Debug)]
pub enum NamespaceBody {
    Block(Vec<ModuleItem>),
    Decl(NamespaceDecl),
}

/// A nested namespace declaration appearing directly as a namespace body.
#[derive(Debug)]
pub struct NamespaceDecl {
    pub id: Ident,
    pub body: Box<NamespaceBody>,
    pub range: Range,
}

/// The declaration following `export default`.
#[derive(Debug, Clone)]
pub enum DefaultDecl {
    Class { ident: Option<Ident>, class: AstRef, range: Range },
    Fn { ident: Option<Ident>, function: AstRef, range: Range },
    TsInterface(InterfaceDecl),
}

/// One specifier of an `export {...} from "src"` declaration.
#[derive(Debug, Clone)]
pub enum ExportSpecifier {
    /// `export {orig as exported}`; `exported` is absent when no rename occurs.
    Named { orig: ModuleExportName, exported: Option<ModuleExportName> },
    Default(Range),
    Namespace(Range),
}

/// An `export {...}` declaration, re-exporting from `src` when present.
#[derive(Debug, Clone)]
pub struct NamedExport {
    pub src: Option<String>,
    pub specifiers: Vec<ExportSpecifier>,
    pub range: Range,
}

/// An `export * from "src"` declaration.
#[derive(Debug, Clone)]
pub struct ExportAll {
    pub src: String,
    pub range: Range,
}

/// A statement, at the granularity resolution cares about.
#[derive(Debug)]
pub enum Stmt {
    Decl(Decl),
    Block(Vec<Stmt>, Range),
    /// Any other statement: declares nothing at the module level.
    Other(Range),
}

/// One top-level item of a module.
#[derive(Debug)]
pub enum ModuleItem {
    Import(ImportDecl),
    ExportDecl(Decl),
    ExportDefaultDecl(DefaultDecl),
    /// `export default <expr>`: intentionally unresolved at this layer.
    ExportDefaultExpr(Range),
    ExportNamed(NamedExport),
    ExportAll(ExportAll),
    TsImportEquals(Range),
    TsExportAssignment(Range),
    TsNamespaceExport(Range),
    Stmt(Stmt),
}

/// A loaded source file: its identity, paths, and parsed top-level items.
#[derive(Debug)]
pub struct AstModule {
    pub id: u64,
    /// The file path the parser loaded the module from.
    pub file_name: String,
    /// The path of the module within its package, when the file belongs to one.
    pub pkg_path: Option<String>,
    pub items: Vec<ModuleItem>,
    pub range: Range,
}

// Structural measures, used for termination of the recursive walks.

/// Size of a statement.
pub open spec fn stmt_size(s: Stmt) -> nat
    decreases s, 1int, 0int,
{
    match s {
        Stmt::Decl(d) => 1 + decl_size(d),
        Stmt::Block(v, _) => 1 + stmts_size_from(v@, 0),
        Stmt::Other(_) => 1,
    }
}

/// Combined size of the statements of `s` from index `i` on.
pub open spec fn stmts_size_from(s: Seq<Stmt>, i: int) -> nat
    decreases s, 0int, s.len() - i,
{
    if i < 0 || i >= s.len() {
        0
    } else {
        stmt_size(s[i]) + stmts_size_from(s, i + 1)
    }
}

/// Size of a declaration.
pub open spec fn decl_size(d: Decl) -> nat
    decreases d, 1int, 0int,
{
    match d {
        Decl::TsModule(m) => match m.body {
            Some(b) => 2 + body_size(b),
            None => 2,
        },
        _ => 1,
    }
}

/// Size of a namespace body.
pub open spec fn body_size(b: NamespaceBody) -> nat
    decreases b, 1int, 0int,
{
    match b {
        NamespaceBody::Block(v) => 1 + items_size_from(v@, 0),
        NamespaceBody::Decl(d) => 1 + body_size(*d.body),
    }
}

/// Size of a top-level item.
pub open spec fn item_size(it: ModuleItem) -> nat
    decreases it, 1int, 0int,
{
    match it {
        ModuleItem::ExportDecl(d) => 1 + decl_size(d),
        ModuleItem::Stmt(s) => 1 + stmt_size(s),
        _ => 1,
    }
}

/// Combined size of the items of `s` from index `i` on.
pub open spec fn items_size_from(s: Seq<ModuleItem>, i: int) -> nat
    decreases s, 0int, s.len() - i,
{
    if i < 0 || i >= s.len() {
        0
    } else {
        item_size(s[i]) + items_size_from(s, i + 1)
    }
}

/// Any statement's size is bounded by the block total from any earlier index.
pub proof fn lemma_stmt_size_le(s: Seq<Stmt>, j: int, i: int)
    requires
        0 <= j <= i < s.len(),
    ensures
        stmt_size(s[i]) <= stmts_size_from(s, j),
    decreases i - j,
{
    if j < i {
        lemma_stmt_size_le(s, j + 1, i);
    }
}

/// Any item's size is bounded by the scope total from any earlier index.
pub proof fn lemma_item_size_le(s: Seq<ModuleItem>, j: int, i: int)
    requires
        0 <= j <= i < s.len(),
    ensures
        item_size(s[i]) <= items_size_from(s, j),
    decreases i - j,
{
    if j < i {
        lemma_item_size_le(s, j + 1, i);
    }
}

} // verus!
