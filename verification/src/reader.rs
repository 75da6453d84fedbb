//! Reading Rust source text with `syn` into the syntax model that discovery
//! is proved over.
//!
//! Every function here but `read_source` is trusted: each converts one `syn`
//! node into its counterpart in `crate::syntax`, field for field, and none of
//! them decides anything that discovery decides.

use vstd::prelude::*;
use crate::syntax::{
    SourceAttribute, SourceFile, FnInput, SourceItem, FnDecl, MetaItem, PathSegment, Pattern, FnSignature, SynPath, TypeExpr,
};
use syn::visit::Visit;
use syn::Type as SynType;

verus! {

#[verifier::external_type_specification]
#[verifier::external_body]
pub struct ExSynFile(syn::File);

#[verifier::external_type_specification]
#[verifier::external_body]
pub struct ExSynItem(syn::Item);

#[verifier::external_type_specification]
#[verifier::external_body]
pub struct ExSynItemFn(syn::ItemFn);

#[verifier::external_type_specification]
#[verifier::external_body]
pub struct ExSynAttribute(syn::Attribute);

#[verifier::external_type_specification]
#[verifier::external_body]
pub struct ExSynMeta(syn::Meta);

#[verifier::external_type_specification]
#[verifier::external_body]
pub struct ExSynPath(syn::Path);

#[verifier::external_type_specification]
#[verifier::external_body]
pub struct ExSynType(SynType);

#[verifier::external_type_specification]
#[verifier::external_body]
pub struct ExSynFnArg(syn::FnArg);

#[verifier::external_type_specification]
#[verifier::external_body]
pub struct ExSynPat(syn::Pat);

#[verifier::external_type_specification]
#[verifier::external_body]
pub struct ExSynSignature(syn::Signature);

#[verifier::external_type_specification]
#[verifier::external_body]
pub struct ExSynBlock(syn::Block);

/// The model that `syn::parse_file` and the conversions below make of a
/// source text, or the text of syn's parse error. Parsing is deterministic:
/// the same text always gives the same model.
pub uninterp spec fn rust_source_syntax(text: Seq<char>) -> Result<SourceFile, Seq<char>>;

/// Converts a `syn::Path`: its leading `::`, and each segment's name and
/// whether it carries arguments.
#[verifier::external_body]
fn path_of(path: &syn::Path) -> SynPath {
    SynPath {
        leading_colon: path.leading_colon.is_some(),
        segments: path.segments.iter().map(|segment| PathSegment {
            ident: segment.ident.to_string(),
            has_arguments: !segment.arguments.is_none(),
        }).collect(),
    }
}

/// Converts a `syn::Meta`; the contents of a list are read with syn's
/// comma-separated meta parser (`parse_args_with`), nothing when that fails.
#[verifier::external_body]
fn meta_of(meta: &syn::Meta) -> MetaItem {
    match meta {
        syn::Meta::Path(path) => MetaItem::Path(path_of(path)),
        syn::Meta::List(list) => MetaItem::List {
            path: path_of(&list.path),
            nested: list.parse_args_with(
                syn::punctuated::Punctuated::<syn::Meta, syn::token::Comma>::parse_terminated,
            ).ok().map(|arguments| arguments.iter().map(meta_of).collect()),
        },
        syn::Meta::NameValue(name_value) => MetaItem::NameValue(path_of(&name_value.path)),
    }
}

/// Converts a list of `syn::Attribute`s by their meta items.
#[verifier::external_body]
fn attributes_of(attributes: &[syn::Attribute]) -> Vec<SourceAttribute> {
    attributes.iter().map(|attribute| SourceAttribute { meta: meta_of(&attribute.meta) }).collect()
}

/// Converts a `syn::Type`: paths, references and tuples, every other kind as `Other`.
#[verifier::external_body]
fn type_of(ty: &SynType) -> TypeExpr {
    match ty {
        SynType::Path(path) => TypeExpr::Path {
            qualified: path.qself.is_some(),
            leading_colon: path.path.leading_colon.is_some(),
            segments: path_of(&path.path).segments,
        },
        SynType::Reference(reference) => TypeExpr::Reference {
            mutable: reference.mutability.is_some(),
            has_lifetime: reference.lifetime.is_some(),
            elem: Box::new(type_of(&reference.elem)),
        },
        SynType::Tuple(tuple) => TypeExpr::Tuple(tuple.elems.len()),
        _ => TypeExpr::Other,
    }
}

/// Converts a `syn::Pat`: identifier patterns, every other kind as `Other`.
#[verifier::external_body]
fn pattern_of(pattern: &syn::Pat) -> Pattern {
    match pattern {
        syn::Pat::Ident(ident) => Pattern::Ident {
            by_ref: ident.by_ref.is_some(),
            has_subpattern: ident.subpat.is_some(),
            name: ident.ident.to_string(),
        },
        _ => Pattern::Other,
    }
}

/// Converts a `syn::FnArg`.
#[verifier::external_body]
fn argument_of(argument: &syn::FnArg) -> FnInput {
    match argument {
        syn::FnArg::Receiver(_) => FnInput::Receiver,
        syn::FnArg::Typed(typed) => FnInput::Typed {
            attrs: attributes_of(&typed.attrs),
            pattern: pattern_of(&typed.pat),
            ty: type_of(&typed.ty),
        },
    }
}

/// Converts a `syn::Signature`; an omitted return type is nothing.
#[verifier::external_body]
fn signature_of(signature: &syn::Signature) -> FnSignature {
    FnSignature {
        is_const: signature.constness.is_some(),
        is_async: signature.asyncness.is_some(),
        is_unsafe: signature.unsafety.is_some(),
        has_abi: signature.abi.is_some(),
        has_generics: !signature.generics.params.is_empty(),
        has_where_clause: signature.generics.where_clause.is_some(),
        is_variadic: signature.variadic.is_some(),
        ident: signature.ident.to_string(),
        inputs: signature.inputs.iter().map(argument_of).collect(),
        output: match &signature.output {
            syn::ReturnType::Default => None,
            syn::ReturnType::Type(_, ty) => Some(type_of(ty)),
        },
    }
}

/// Converts a `syn::ItemFn`; its visibility is public when it is a bare `pub`.
#[verifier::external_body]
fn item_fn_of(function: &syn::ItemFn) -> FnDecl {
    FnDecl {
        attrs: attributes_of(&function.attrs),
        is_public: matches!(function.vis, syn::Visibility::Public(_)),
        sig: signature_of(&function.sig),
    }
}

/// Gathers the attributes that a walk of a syntax tree reaches, in order.
struct AttributeCollector {
    found: Vec<SourceAttribute>,
}

impl<'ast> Visit<'ast> for AttributeCollector {
    /// Records the attribute, then walks inside it as `syn::visit` does.
    #[verifier::external_body]
    fn visit_attribute(&mut self, attribute: &'ast syn::Attribute) {
        self.found.push(SourceAttribute { meta: meta_of(&attribute.meta) });
        syn::visit::visit_attribute(self, attribute);
    }
}

/// The attributes that `syn::visit::visit_item` reaches in an item.
#[verifier::external_body]
fn reached_in_item(item: &syn::Item) -> Vec<SourceAttribute> {
    let mut collector = AttributeCollector { found: Vec::new() };
    collector.visit_item(item);
    collector.found
}

/// The attributes that `syn::visit::visit_block` reaches in a block.
#[verifier::external_body]
fn reached_in_block(block: &syn::Block) -> Vec<SourceAttribute> {
    let mut collector = AttributeCollector { found: Vec::new() };
    collector.visit_block(block);
    collector.found
}

/// The attributes that `syn::visit::visit_attribute` reaches in each attribute.
#[verifier::external_body]
fn reached_in_attributes(attributes: &[syn::Attribute]) -> Vec<SourceAttribute> {
    let mut collector = AttributeCollector { found: Vec::new() };
    attributes.iter().for_each(|attribute| collector.visit_attribute(attribute));
    collector.found
}

/// Converts a `syn::Item`: a function with the attributes reached in the whole
/// item and in its body alone, any other item with those reached in it.
#[verifier::external_body]
fn item_of(item: &syn::Item) -> SourceItem {
    match item {
        syn::Item::Fn(function) => SourceItem::Fn {
            function: item_fn_of(function),
            visited: reached_in_item(item),
            body_visited: reached_in_block(&function.block),
        },
        _ => SourceItem::Other { visited: reached_in_item(item) },
    }
}

/// Converts a `syn::File`.
#[verifier::external_body]
fn file_of(file: &syn::File) -> SourceFile {
    SourceFile {
        attrs: attributes_of(&file.attrs),
        attrs_visited: reached_in_attributes(&file.attrs),
        items: file.items.iter().map(item_of).collect(),
    }
}

/// Parses source text with `syn::parse_file` and converts the syntax tree.
///
/// Trusted: the contract claims only that the outcome is a function of the
/// text (named `rust_source_syntax`), and that a parse error is reported by
/// syn's own message.
#[verifier::external_body]
fn read_rust_source(text: &str) -> (r: Result<SourceFile, String>)
    ensures
        match r {
            Ok(file) => rust_source_syntax(text@) == Ok::<SourceFile, Seq<char>>(file),
            Err(detail) => rust_source_syntax(text@) == Err::<SourceFile, Seq<char>>(detail@),
        },
{
    match syn::parse_file(text) {
        Ok(file) => Ok(file_of(&file)),
        Err(error) => Err(error.to_string()),
    }
}

/// Read Rust source text into the syntax model; unreadable text is refused
/// with syn's message after `invalid Rust source: `.
pub fn read_source(text: &str) -> (r: Result<SourceFile, String>)
    ensures
        match r {
            Ok(file) => rust_source_syntax(text@) == Ok::<SourceFile, Seq<char>>(file),
            Err(e) => rust_source_syntax(text@) is Err && e@ == "invalid Rust source: "@
                + rust_source_syntax(text@)->Err_0,
        },
{
    match read_rust_source(text) {
        Ok(file) => Ok(file),
        Err(detail) => Err(crate::discover::invalid_source_error(detail.as_str())),
    }
}

} // verus!
