//! The declaration tree the model builder walks: the minimal, plain-value
//! form of what an external C++ parser reports per node.

use vstd::prelude::*;

verus! {

/// The `&`/`&&` qualifier on a non-static member function.
#[derive(Clone, Copy, Debug, PartialEq, Eq, Structural)]
pub enum RefQualifier {
    LValue,
    RValue,
}

/// One argument of a method, as the external parser reports it. Source
/// positions are character offsets into the source text of the primary file.
pub struct ArgDecl {
    /// The declared argument name, when the argument has one.
    pub name: Option<String>,
    /// The parser's display name for the argument's type.
    pub type_display: String,
    /// The character range of the argument's declaration: type plus name.
    pub range: Option<(usize, usize)>,
    /// A character offset just after the argument's type text.
    pub location: Option<usize>,
}

/// A method of a class, as the external parser reports it.
pub struct MethodDecl {
    pub name: String,
    /// The parser's display name for the result type.
    pub result_type_display: String,
    pub arguments: Vec<ArgDecl>,
    pub is_const: bool,
    pub is_virtual: bool,
    pub is_pure_virtual: bool,
    pub is_static: bool,
    pub is_noexcept: bool,
    pub ref_qualifier: Option<RefQualifier>,
    /// The character range of the whole method declaration.
    pub range: Option<(usize, usize)>,
}

/// A class declaration node.
pub struct ClassDecl {
    pub name: String,
    /// Whether this node is a definition rather than a forward declaration.
    pub is_definition: bool,
    pub children: Vec<Entity>,
}

/// A namespace node.
pub struct NamespaceDecl {
    pub name: String,
    pub children: Vec<Entity>,
}

/// What a declaration-tree node is.
pub enum EntityData {
    Class(ClassDecl),
    Namespace(NamespaceDecl),
    Method(MethodDecl),
    /// Any other node; only its children matter to the model.
    Other(Vec<Entity>),
}

/// One node of the parsed declaration tree handed to the model builder.
pub struct Entity {
    /// Whether the node lies in the primary file rather than an included one.
    pub in_main_file: bool,
    pub data: EntityData,
}

} // verus!
