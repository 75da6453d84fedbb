//! The part of a parsed Rust source file that discovery reads.
//!
//! Each type mirrors the `syn` node of the same name, holding as plain values
//! exactly what the discovery rules inspect. Lists of visited attributes
//! record, in visiting order, every attribute that a full syntax-tree walk
//! reaches inside the node (nested items, expressions and signatures too).

use vstd::prelude::*;

verus! {

/// One segment of a path.
pub struct PathSegment {
    pub ident: String,
    /// Whether the segment carries generic or parenthesized arguments.
    pub has_arguments: bool,
}

/// An attribute path such as `kotlin_export` or `::ketox::kotlin_export`.
pub struct SynPath {
    pub leading_colon: bool,
    pub segments: Vec<PathSegment>,
}

/// The meta item of an attribute.
pub enum MetaItem {
    /// `#[path]`
    Path(SynPath),
    /// `#[path(...)]`; `nested` holds the contents read as a comma-separated
    /// list of meta items, or nothing when they do not read as one.
    List { path: SynPath, nested: Option<Vec<MetaItem>> },
    /// `#[path = value]`
    NameValue(SynPath),
}

/// An outer or inner attribute.
pub struct SourceAttribute {
    pub meta: MetaItem,
}

/// A Rust type as written.
pub enum TypeExpr {
    /// A path type; `qualified` is a `<T as Trait>::` prefix.
    Path { qualified: bool, leading_colon: bool, segments: Vec<PathSegment> },
    /// `&T`, `&mut T` or `&'a T`.
    Reference { mutable: bool, has_lifetime: bool, elem: Box<TypeExpr> },
    /// A tuple type with this many elements; `()` has none.
    Tuple(usize),
    /// Any other type: slices, arrays, pointers, `impl Trait`, `!` and the like.
    Other,
}

/// The pattern of a typed parameter.
pub enum Pattern {
    /// `name`, `mut name`, `ref name` or `name @ subpattern`.
    Ident { by_ref: bool, has_subpattern: bool, name: String },
    Other,
}

/// A function parameter.
pub enum FnInput {
    /// `self`, `&self` and the like.
    Receiver,
    Typed { attrs: Vec<SourceAttribute>, pattern: Pattern, ty: TypeExpr },
}

/// A function signature.
pub struct FnSignature {
    pub is_const: bool,
    pub is_async: bool,
    pub is_unsafe: bool,
    pub has_abi: bool,
    pub has_generics: bool,
    pub has_where_clause: bool,
    pub is_variadic: bool,
    pub ident: String,
    pub inputs: Vec<FnInput>,
    /// The written return type; nothing when it is omitted.
    pub output: Option<TypeExpr>,
}

/// A free function item.
pub struct FnDecl {
    pub attrs: Vec<SourceAttribute>,
    /// Whether the visibility is an unrestricted `pub`.
    pub is_public: bool,
    pub sig: FnSignature,
}

/// A top-level item of a source file.
pub enum SourceItem {
    Fn {
        function: FnDecl,
        /// The attributes reached when walking the whole item.
        visited: Vec<SourceAttribute>,
        /// The attributes reached when walking only its body.
        body_visited: Vec<SourceAttribute>,
    },
    Other {
        /// The attributes reached when walking the whole item.
        visited: Vec<SourceAttribute>,
    },
}

/// A parsed source file.
pub struct SourceFile {
    /// The inner attributes of the file.
    pub attrs: Vec<SourceAttribute>,
    /// The attributes reached when walking the inner attributes.
    pub attrs_visited: Vec<SourceAttribute>,
    pub items: Vec<SourceItem>,
}

} // verus!
