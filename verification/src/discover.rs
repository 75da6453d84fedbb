//! Discovery of exported functions in a parsed Rust source file.

use vstd::prelude::*;
use crate::metadata::{Function, Module, Parameter, SCHEMA_VERSION, Type};
use crate::order::{insert_position, is_text_less, lemma_insert_position, sorted_names, text_less};
use crate::reader::{read_source, rust_source_syntax};
use crate::names::{
    check_kotlin, derive_kotlin_name, kotlin_function_name, lower_camel, unit_view,
    validate_kotlin_identifier,
};
use crate::syntax::{
    SourceAttribute, SourceFile, FnInput, SourceItem, FnDecl, MetaItem, Pattern, SynPath, TypeExpr,
};
use crate::text::{join3, owned, same_text};
use crate::validate::{
    check_function, check_function_parts, check_module, check_module_header,
    duplicate_rust_error, first_problem, function_check, kotlin_collision_error,
    lemma_problem_extends, lemma_problem_persists, validate_function, validate_module,
};

verus! {

/// The view of a result that carries a metadata type.
pub open spec fn type_view(r: Result<Type, String>) -> Result<Type, Seq<char>> {
    match r {
        Ok(t) => Ok(t),
        Err(e) => Err(e@),
    }
}

/// The name of a bare single-segment path type without arguments.
pub open spec fn bare_name(ty: TypeExpr) -> Option<Seq<char>> {
    match ty {
        TypeExpr::Path { qualified, leading_colon, segments } => if !qualified && !leading_colon
            && segments@.len() == 1 && !segments@[0].has_arguments {
            Some(segments@[0].ident@)
        } else {
            None
        },
        _ => None,
    }
}

/// The scalar and string types spelled by a bare name.
pub open spec fn scalar_type(name: Seq<char>) -> Option<Type> {
    if name == "bool"@ {
        Some(Type::Bool)
    } else if name == "i8"@ {
        Some(Type::I8)
    } else if name == "i16"@ {
        Some(Type::I16)
    } else if name == "i32"@ {
        Some(Type::I32)
    } else if name == "i64"@ {
        Some(Type::I64)
    } else if name == "f32"@ {
        Some(Type::F32)
    } else if name == "f64"@ {
        Some(Type::F64)
    } else if name == "String"@ {
        Some(Type::String)
    } else {
        None
    }
}

pub open spec fn unsupported_type_error(is_return: bool) -> Seq<char> {
    if is_return {
        "unsupported export return type: use bool, i8/i16/i32/i64, f32/f64, String, or ()"@
    } else {
        "unsupported export parameter type: use bool, i8/i16/i32/i64, f32/f64, String, or &str"@
    }
}

pub open spec fn borrowed_return_error() -> Seq<char> {
    "borrowed returns are unsupported: return an owned type instead"@
}

/// What an exported parameter type (`is_return` false) or return type means,
/// or why it is refused: the exact spellings `bool`, `i8`, `i16`, `i32`,
/// `i64`, `f32`, `f64` and `String`; `&str` with an elided lifetime as an
/// input; `()` as a result. Qualified paths and aliases are not resolved.
pub open spec fn type_of(ty: TypeExpr, is_return: bool) -> Result<Type, Seq<char>> {
    let unsupported = Err(unsupported_type_error(is_return));
    match ty {
        TypeExpr::Path { .. } => match bare_name(ty) {
            Some(name) => match scalar_type(name) {
                Some(t) => Ok(t),
                None => unsupported,
            },
            None => unsupported,
        },
        TypeExpr::Reference { mutable, has_lifetime, elem } => if mutable || has_lifetime {
            unsupported
        } else if is_return {
            Err(borrowed_return_error())
        } else if bare_name(*elem) == Some("str"@) {
            Ok(Type::Str)
        } else {
            unsupported
        },
        TypeExpr::Tuple(n) => if is_return && n == 0 {
            Ok(Type::Unit)
        } else {
            unsupported
        },
        TypeExpr::Other => unsupported,
    }
}

fn unsupported_type(is_return: bool) -> (r: String)
    ensures
        r@ == unsupported_type_error(is_return),
{
    if is_return {
        owned("unsupported export return type: use bool, i8/i16/i32/i64, f32/f64, String, or ()")
    } else {
        owned("unsupported export parameter type: use bool, i8/i16/i32/i64, f32/f64, String, or &str")
    }
}

/// The name of a bare single-segment path type without arguments.
fn primitive_name(ty: &TypeExpr) -> (r: Option<&str>)
    ensures
        match r {
            Some(s) => bare_name(*ty) == Some(s@),
            None => bare_name(*ty) is None,
        },
{
    match ty {
        TypeExpr::Path { qualified, leading_colon, segments } => {
            if !*qualified && !*leading_colon && segments.len() == 1 && !segments[0].has_arguments {
                Some(segments[0].ident.as_str())
            } else {
                None
            }
        },
        _ => None,
    }
}

fn scalar_of(name: &str) -> (r: Option<Type>)
    ensures
        r == scalar_type(name@),
{
    if same_text(name, "bool") {
        Some(Type::Bool)
    } else if same_text(name, "i8") {
        Some(Type::I8)
    } else if same_text(name, "i16") {
        Some(Type::I16)
    } else if same_text(name, "i32") {
        Some(Type::I32)
    } else if same_text(name, "i64") {
        Some(Type::I64)
    } else if same_text(name, "f32") {
        Some(Type::F32)
    } else if same_text(name, "f64") {
        Some(Type::F64)
    } else if same_text(name, "String") {
        Some(Type::String)
    } else {
        None
    }
}

/// Read an exported parameter type (`is_return` false) or return type.
pub fn parse_type(ty: &TypeExpr, is_return: bool) -> (r: Result<Type, String>)
    ensures
        type_view(r) == type_of(*ty, is_return),
{
    match ty {
        TypeExpr::Path { .. } => match primitive_name(ty) {
            Some(name) => match scalar_of(name) {
                Some(t) => Ok(t),
                None => Err(unsupported_type(is_return)),
            },
            None => Err(unsupported_type(is_return)),
        },
        TypeExpr::Reference { mutable, has_lifetime, elem } => {
            if *mutable || *has_lifetime {
                Err(unsupported_type(is_return))
            } else if is_return {
                Err(owned("borrowed returns are unsupported: return an owned type instead"))
            } else {
                match primitive_name(elem) {
                    Some(name) => {
                        if same_text(name, "str") {
                            Ok(Type::Str)
                        } else {
                            Err(unsupported_type(is_return))
                        }
                    },
                    None => Err(unsupported_type(is_return)),
                }
            }
        },
        TypeExpr::Tuple(n) => {
            if is_return && *n == 0 {
                Ok(Type::Unit)
            } else {
                Err(unsupported_type(is_return))
            }
        },
        TypeExpr::Other => Err(unsupported_type(is_return)),
    }
}

/// `Path::is_ident`: a single bare segment with this name.
pub open spec fn path_is_ident(p: SynPath, name: Seq<char>) -> bool {
    !p.leading_colon && p.segments@.len() == 1 && !p.segments@[0].has_arguments
        && p.segments@[0].ident@ == name
}

pub open spec fn meta_path(m: MetaItem) -> SynPath {
    match m {
        MetaItem::Path(p) => p,
        MetaItem::List { path, .. } => path,
        MetaItem::NameValue(p) => p,
    }
}

/// `kotlin_export`, or a two-segment path `ketox::kotlin_export` (a leading
/// `::` and segment arguments are not inspected).
pub open spec fn export_path(p: SynPath) -> bool {
    path_is_ident(p, "kotlin_export"@) || (p.segments@.len() == 2 && p.segments@[0].ident@
        == "ketox"@ && p.segments@[1].ident@ == "kotlin_export"@)
}

pub open spec fn is_export(a: SourceAttribute) -> bool {
    export_path(meta_path(a.meta))
}

/// `#[cfg(..)]` or `#[cfg_attr(..)]`.
pub open spec fn is_configuration(a: SourceAttribute) -> bool {
    path_is_ident(meta_path(a.meta), "cfg"@) || path_is_ident(meta_path(a.meta), "cfg_attr"@)
}

/// Attributes that leave an exported function's signature unchanged.
pub open spec fn is_passive(a: SourceAttribute) -> bool {
    let p = meta_path(a.meta);
    path_is_ident(p, "doc"@) || path_is_ident(p, "allow"@) || path_is_ident(p, "warn"@)
        || path_is_ident(p, "deny"@) || path_is_ident(p, "forbid"@) || path_is_ident(
        p,
        "expect"@,
    ) || path_is_ident(p, "inline"@) || path_is_ident(p, "cold"@) || path_is_ident(
        p,
        "must_use"@,
    ) || path_is_ident(p, "deprecated"@) || path_is_ident(p, "track_caller"@)
}

pub open spec fn configuration_error() -> Seq<char> {
    "conditional compilation on exported functions or parameters is unsupported: source discovery does not expand cfg"@
}

pub open spec fn unsupported_attribute_error() -> Seq<char> {
    "unsupported attribute on an exported function: only documentation, lint, inline, cold, must_use, deprecated, and track_caller attributes are allowed; source discovery cannot expand procedural attributes"@
}

pub open spec fn qualifier_error() -> Seq<char> {
    "exports must be safe, synchronous, non-const Rust functions without generics, where clauses, an extern ABI, or variadic arguments"@
}

pub open spec fn pattern_error() -> Seq<char> {
    "exported parameters must use simple identifier patterns"@
}

pub open spec fn has_configuration(attrs: Seq<SourceAttribute>) -> bool {
    exists|i: int| 0 <= i < attrs.len() && is_configuration(#[trigger] attrs[i])
}

/// The first problem of an exported function's attributes, visibility and
/// qualifiers, if any.
pub open spec fn header_problem(f: FnDecl) -> Option<Seq<char>> {
    let attrs = f.attrs@;
    let sig = f.sig;
    if has_configuration(attrs) {
        Some(configuration_error())
    } else if exists|i: int| 0 <= i < attrs.len() && !is_export(#[trigger] attrs[i]) && !is_passive(attrs[i]) {
        Some(unsupported_attribute_error())
    } else if exists|i: int, j: int| 0 <= i < j < attrs.len() && is_export(#[trigger] attrs[i]) && is_export(#[trigger] attrs[j]) {
        Some("kotlin_export may appear only once"@)
    } else if exists|i: int| 0 <= i < attrs.len() && is_export(#[trigger] attrs[i]) && !(attrs[i].meta is Path) {
        Some("kotlin_export takes no arguments"@)
    } else if !f.is_public {
        Some("exported functions must use unrestricted pub visibility"@)
    } else if sig.is_async || sig.is_unsafe || sig.is_const || sig.has_abi || sig.is_variadic
        || sig.has_generics || sig.has_where_clause {
        Some(qualifier_error())
    } else {
        None
    }
}

/// What one input of an exported function describes, or its first problem.
pub open spec fn input_outcome(arg: FnInput) -> Result<Parameter, Seq<char>> {
    match arg {
        FnInput::Receiver => Err("only free functions are supported; self parameters are unsupported"@),
        FnInput::Typed { attrs, pattern, ty } => if has_configuration(attrs@) {
            Err(configuration_error())
        } else if attrs@.len() > 0 {
            Err("attributes on exported parameters are unsupported"@)
        } else {
            match pattern {
                Pattern::Ident { by_ref, has_subpattern, name } => if by_ref || has_subpattern {
                    Err(pattern_error())
                } else if check_kotlin(name@, "parameter"@) is Err {
                    Err(check_kotlin(name@, "parameter"@)->Err_0)
                } else {
                    match type_of(ty, false) {
                        Ok(t) => Ok(Parameter { name, ty: t }),
                        Err(e) => Err(e),
                    }
                },
                Pattern::Other => Err(pattern_error()),
            }
        },
    }
}

pub open spec fn input_check() -> spec_fn(FnInput, Seq<FnInput>) -> Result<(), Seq<char>> {
    |arg: FnInput, earlier: Seq<FnInput>| match input_outcome(arg) {
        Ok(_) => Ok(()),
        Err(e) => Err(e),
    }
}

/// The parameters described by the inputs of a function whose inputs all pass.
pub open spec fn expected_parameters(f: FnDecl) -> Seq<Parameter> {
    f.sig.inputs@.map_values(|arg: FnInput| input_outcome(arg)->Ok_0)
}

/// The return type described by a signature; an omitted one is Unit.
pub open spec fn return_outcome(f: FnDecl) -> Result<Type, Seq<char>> {
    match f.sig.output {
        None => Ok(Type::Unit),
        Some(t) => type_of(t, true),
    }
}

/// Whether a function's metadata is the one its declaration describes.
pub open spec fn describes(m: Function, f: FnDecl) -> bool {
    &&& m.rust_name == f.sig.ident
    &&& m.kotlin_name@ == lower_camel(f.sig.ident@)
    &&& m.parameters@ == expected_parameters(f)
    &&& m.return_type == return_outcome(f)->Ok_0
}

/// Whether an exported declaration is accepted, or its first problem: its
/// header, its name, its inputs in order, its return type, and finally the
/// checks that metadata validation applies.
pub open spec fn function_outcome(f: FnDecl) -> Result<(), Seq<char>> {
    let name = f.sig.ident@;
    if header_problem(f) is Some {
        Err(header_problem(f)->Some_0)
    } else if derive_kotlin_name(name) is Err {
        Err(derive_kotlin_name(name)->Err_0)
    } else if first_problem(f.sig.inputs@, input_check()) is Err {
        first_problem(f.sig.inputs@, input_check())
    } else if return_outcome(f) is Err {
        Err(return_outcome(f)->Err_0)
    } else {
        check_function_parts(
            name,
            derive_kotlin_name(name)->Ok_0,
            expected_parameters(f),
            return_outcome(f)->Ok_0,
        )
    }
}

/// `Path::is_ident`.
pub fn path_is(p: &SynPath, name: &str) -> (r: bool)
    ensures
        r == path_is_ident(*p, name@),
{
    !p.leading_colon && p.segments.len() == 1 && !p.segments[0].has_arguments && same_text(
        p.segments[0].ident.as_str(),
        name,
    )
}

fn path_of(m: &MetaItem) -> (r: &SynPath)
    ensures
        *r == meta_path(*m),
{
    match m {
        MetaItem::Path(p) => p,
        MetaItem::List { path, .. } => path,
        MetaItem::NameValue(p) => p,
    }
}

/// Whether a path names the export attribute.
pub fn is_export_path(path: &SynPath) -> (r: bool)
    ensures
        r == export_path(*path),
{
    path_is(path, "kotlin_export") || (path.segments.len() == 2 && same_text(
        path.segments[0].ident.as_str(),
        "ketox",
    ) && same_text(path.segments[1].ident.as_str(), "kotlin_export"))
}

/// Whether an attribute is the export attribute.
pub fn is_export_attribute(attribute: &SourceAttribute) -> (r: bool)
    ensures
        r == is_export(*attribute),
{
    is_export_path(path_of(&attribute.meta))
}

fn is_configuration_attribute(attribute: &SourceAttribute) -> (r: bool)
    ensures
        r == is_configuration(*attribute),
{
    let p = path_of(&attribute.meta);
    path_is(p, "cfg") || path_is(p, "cfg_attr")
}

fn is_passive_attribute(attribute: &SourceAttribute) -> (r: bool)
    ensures
        r == is_passive(*attribute),
{
    let p = path_of(&attribute.meta);
    path_is(p, "doc") || path_is(p, "allow") || path_is(p, "warn") || path_is(p, "deny")
        || path_is(p, "forbid") || path_is(p, "expect") || path_is(p, "inline") || path_is(
        p,
        "cold",
    ) || path_is(p, "must_use") || path_is(p, "deprecated") || path_is(p, "track_caller")
}

/// Refuse conditional compilation among `attributes`.
pub fn reject_configuration(attributes: &Vec<SourceAttribute>) -> (r: Result<(), String>)
    ensures
        r is Err <==> has_configuration(attributes@),
        r matches Err(e) ==> e@ == configuration_error(),
{
    let n = attributes.len();
    let mut i: usize = 0;
    while i < n
        invariant
            n == attributes@.len(),
            i <= n,
            forall|k: int| 0 <= k < i ==> !is_configuration(#[trigger] attributes@[k]),
        decreases n - i,
    {
        if is_configuration_attribute(&attributes[i]) {
            return Err(
                owned(
                    "conditional compilation on exported functions or parameters is unsupported: source discovery does not expand cfg",
                ),
            );
        }
        i = i + 1;
    }
    Ok(())
}

fn has_unsupported_attribute(attrs: &Vec<SourceAttribute>) -> (r: bool)
    ensures
        r == exists|i: int| 0 <= i < attrs@.len() && !is_export(#[trigger] attrs@[i]) && !is_passive(attrs@[i]),
{
    let n = attrs.len();
    let mut i: usize = 0;
    while i < n
        invariant
            n == attrs@.len(),
            i <= n,
            forall|k: int| 0 <= k < i ==> is_export(#[trigger] attrs@[k]) || is_passive(attrs@[k]),
        decreases n - i,
    {
        if !is_export_attribute(&attrs[i]) && !is_passive_attribute(&attrs[i]) {
            return true;
        }
        i = i + 1;
    }
    false
}

fn has_repeated_export(attrs: &Vec<SourceAttribute>) -> (r: bool)
    ensures
        r == exists|i: int, j: int| 0 <= i < j < attrs@.len() && is_export(#[trigger] attrs@[i]) && is_export(#[trigger] attrs@[j]),
{
    let n = attrs.len();
    let mut seen = false;
    let mut i: usize = 0;
    while i < n
        invariant
            n == attrs@.len(),
            i <= n,
            seen == exists|k: int| 0 <= k < i && is_export(#[trigger] attrs@[k]),
            !exists|a: int, b: int| 0 <= a < b < i && is_export(#[trigger] attrs@[a]) && is_export(#[trigger] attrs@[b]),
        decreases n - i,
    {
        if is_export_attribute(&attrs[i]) {
            if seen {
                return true;
            }
            seen = true;
        }
        i = i + 1;
    }
    false
}

fn has_export_with_arguments(attrs: &Vec<SourceAttribute>) -> (r: bool)
    ensures
        r == exists|i: int| 0 <= i < attrs@.len() && is_export(#[trigger] attrs@[i]) && !(attrs@[i].meta is Path),
{
    let n = attrs.len();
    let mut i: usize = 0;
    while i < n
        invariant
            n == attrs@.len(),
            i <= n,
            forall|k: int| 0 <= k < i ==> is_export(#[trigger] attrs@[k]) ==> attrs@[k].meta is Path,
        decreases n - i,
    {
        if is_export_attribute(&attrs[i]) {
            match &attrs[i].meta {
                MetaItem::Path(_) => {},
                _ => {
                    return true;
                },
            }
        }
        i = i + 1;
    }
    false
}

/// The first problem of an exported function's header, if any.
fn check_header(function: &FnDecl) -> (r: Result<(), String>)
    ensures
        match r {
            Ok(_) => header_problem(*function) is None,
            Err(e) => header_problem(*function) == Some(e@),
        },
{
    reject_configuration(&function.attrs)?;
    if has_unsupported_attribute(&function.attrs) {
        return Err(
            owned(
                "unsupported attribute on an exported function: only documentation, lint, inline, cold, must_use, deprecated, and track_caller attributes are allowed; source discovery cannot expand procedural attributes",
            ),
        );
    }
    if has_repeated_export(&function.attrs) {
        return Err(owned("kotlin_export may appear only once"));
    }
    if has_export_with_arguments(&function.attrs) {
        return Err(owned("kotlin_export takes no arguments"));
    }
    if !function.is_public {
        return Err(owned("exported functions must use unrestricted pub visibility"));
    }
    let sig = &function.sig;
    if sig.is_async || sig.is_unsafe || sig.is_const || sig.has_abi || sig.is_variadic
        || sig.has_generics || sig.has_where_clause {
        return Err(
            owned(
                "exports must be safe, synchronous, non-const Rust functions without generics, where clauses, an extern ABI, or variadic arguments",
            ),
        );
    }
    Ok(())
}

fn parse_input(arg: &FnInput) -> (r: Result<Parameter, String>)
    ensures
        match r {
            Ok(p) => input_outcome(*arg) == Ok::<Parameter, Seq<char>>(p),
            Err(e) => input_outcome(*arg) == Err::<Parameter, Seq<char>>(e@),
        },
{
    match arg {
        FnInput::Receiver => Err(owned("only free functions are supported; self parameters are unsupported")),
        FnInput::Typed { attrs, pattern, ty } => {
            reject_configuration(attrs)?;
            if attrs.len() > 0 {
                return Err(owned("attributes on exported parameters are unsupported"));
            }
            match pattern {
                Pattern::Ident { by_ref, has_subpattern, name } => {
                    if *by_ref || *has_subpattern {
                        return Err(owned("exported parameters must use simple identifier patterns"));
                    }
                    validate_kotlin_identifier(name.as_str(), "parameter")?;
                    let t = parse_type(ty, false)?;
                    Ok(Parameter { name: name.clone(), ty: t })
                },
                Pattern::Other => Err(owned("exported parameters must use simple identifier patterns")),
            }
        },
    }
}

/// Validate and describe an exported function.
///
/// Accepts safe, synchronous, non-generic `pub fn` declarations. Borrowed `&str`
/// inputs must have an elided lifetime because generated wrappers own the
/// temporary Rust strings. Borrowed outputs and unit inputs are unsupported.
pub fn parse_function(function: &FnDecl) -> (r: Result<Function, String>)
    ensures
        match r {
            Ok(m) => function_outcome(*function) is Ok && describes(m, *function) && check_function(m) is Ok,
            Err(e) => function_outcome(*function) == Err::<(), Seq<char>>(e@),
        },
{
    check_header(function)?;
    let rust_name = function.sig.ident.clone();
    let kotlin_name = kotlin_function_name(rust_name.as_str())?;
    let ghost inputs = function.sig.inputs@;
    let n = function.sig.inputs.len();
    let mut parameters: Vec<Parameter> = Vec::new();
    let mut i: usize = 0;
    while i < n
        invariant
            n == inputs.len(),
            inputs == function.sig.inputs@,
            i <= n,
            header_problem(*function) is None,
            derive_kotlin_name(function.sig.ident@) == Ok::<Seq<char>, Seq<char>>(kotlin_name@),
            first_problem(inputs.take(i as int), input_check()) is Ok,
            parameters@ == expected_parameters(*function).take(i as int),
        decreases n - i,
    {
        proof {
            lemma_problem_extends(inputs, i as int, input_check());
        }
        let parsed = parse_input(&function.sig.inputs[i]);
        match parsed {
            Ok(p) => {
                parameters.push(p);
                proof {
                    assert(parameters@ =~= expected_parameters(*function).take(i + 1));
                }
            },
            Err(e) => {
                proof {
                    lemma_problem_persists(inputs, i + 1, input_check());
                }
                return Err(e);
            },
        }
        i = i + 1;
    }
    proof {
        assert(inputs.take(n as int) =~= inputs);
        assert(parameters@ =~= expected_parameters(*function));
    }
    let return_type = match &function.sig.output {
        None => Type::Unit,
        Some(t) => parse_type(t, true)?,
    };
    let metadata = Function { rust_name, kotlin_name, parameters, return_type };
    validate_function(&metadata)?;
    Ok(metadata)
}


/// Whether a meta item is the export attribute, possibly behind `cfg_attr`
/// predicates: `cfg_attr(predicate, attributes...)` is searched among its
/// attributes, at any depth.
pub open spec fn conditional_export(m: MetaItem) -> bool
    decreases m,
{
    export_path(meta_path(m)) || match m {
        MetaItem::List { path, nested } => path_is_ident(path, "cfg_attr"@) && match nested {
            Some(args) => exists|i: int| 1 <= i < args@.len() && conditional_export(#[trigger] args@[i]),
            None => false,
        },
        _ => false,
    }
}

pub open spec fn nested_export_error() -> Seq<char> {
    "kotlin_export is supported only on top-level free functions; nested exports and exports on other items are unsupported"@
}

pub open spec fn conditional_export_error() -> Seq<char> {
    "conditional kotlin_export attributes are unsupported: source discovery does not expand cfg_attr"@
}

/// The problem an attribute reached outside an exported function's own
/// attribute list poses, if any.
pub open spec fn nested_problem(a: SourceAttribute) -> Option<Seq<char>> {
    if is_export(a) {
        Some(nested_export_error())
    } else if path_is_ident(meta_path(a.meta), "cfg_attr"@) && conditional_export(a.meta) {
        Some(conditional_export_error())
    } else {
        None
    }
}

pub open spec fn nested_check() -> spec_fn(SourceAttribute, Seq<SourceAttribute>) -> Result<(), Seq<char>> {
    |a: SourceAttribute, earlier: Seq<SourceAttribute>| match nested_problem(a) {
        Some(e) => Err(e),
        None => Ok(()),
    }
}

/// Whether a meta item is the export attribute, possibly behind `cfg_attr`.
#[verifier::loop_isolation(false)]
pub fn contains_conditional_export(meta: &MetaItem) -> (r: bool)
    ensures
        r == conditional_export(*meta),
    decreases meta,
{
    if is_export_path(path_of(meta)) {
        return true;
    }
    match meta {
        MetaItem::List { path, nested } => {
            if !path_is(path, "cfg_attr") {
                return false;
            }
            match nested {
                Some(args) => {
                    let n = args.len();
                    let mut i: usize = 1;
                    while i < n
                        invariant
                            n == args@.len(),
                            1 <= i,
                            forall|k: int| 1 <= k < i && k < n ==> !conditional_export(#[trigger] args@[k]),
                        decreases n - i,
                    {
                        if contains_conditional_export(&args[i]) {
                            return true;
                        }
                        i = i + 1;
                    }
                    false
                },
                None => false,
            }
        },
        _ => false,
    }
}

fn attribute_problem(attribute: &SourceAttribute) -> (r: Option<String>)
    ensures
        match r {
            Some(e) => nested_problem(*attribute) == Some(e@),
            None => nested_problem(*attribute) is None,
        },
{
    if is_export_attribute(attribute) {
        Some(
            owned(
                "kotlin_export is supported only on top-level free functions; nested exports and exports on other items are unsupported",
            ),
        )
    } else if path_is(path_of(&attribute.meta), "cfg_attr") && contains_conditional_export(
        &attribute.meta,
    ) {
        Some(
            owned(
                "conditional kotlin_export attributes are unsupported: source discovery does not expand cfg_attr",
            ),
        )
    } else {
        None
    }
}

/// The problem of the first offending attribute in a visited list, if any.
fn first_nested_problem(attrs: &Vec<SourceAttribute>) -> (r: Option<String>)
    ensures
        match r {
            Some(e) => first_problem(attrs@, nested_check()) == Err::<(), Seq<char>>(e@),
            None => first_problem(attrs@, nested_check()) is Ok,
        },
{
    let n = attrs.len();
    let mut i: usize = 0;
    while i < n
        invariant
            n == attrs@.len(),
            i <= n,
            first_problem(attrs@.take(i as int), nested_check()) is Ok,
        decreases n - i,
    {
        proof {
            lemma_problem_extends(attrs@, i as int, nested_check());
        }
        let problem = attribute_problem(&attrs[i]);
        if let Some(e) = problem {
            proof {
                lemma_problem_persists(attrs@, i + 1, nested_check());
            }
            return Some(e);
        }
        i = i + 1;
    }
    proof {
        assert(attrs@.take(n as int) =~= attrs@);
    }
    None
}


/// Whether a function carries the export attribute.
pub open spec fn exported_fn(f: FnDecl) -> bool {
    exists|i: int| 0 <= i < f.attrs@.len() && is_export(#[trigger] f.attrs@[i])
}

/// The attributes that discovery inspects for misplaced exports in one item:
/// only the body of an exported function, the whole of any other item.
pub open spec fn item_visits(item: SourceItem) -> Seq<SourceAttribute> {
    match item {
        SourceItem::Fn { function, visited, body_visited } => if exported_fn(function) {
            body_visited@
        } else {
            visited@
        },
        SourceItem::Other { visited } => visited@,
    }
}

pub open spec fn items_visits(items: Seq<SourceItem>) -> Seq<SourceAttribute>
    decreases items.len(),
{
    if items.len() == 0 {
        Seq::empty()
    } else {
        items_visits(items.drop_last()) + item_visits(items.last())
    }
}

/// Every attribute inspected for misplaced exports, in the order reached.
pub open spec fn visit_sequence(file: SourceFile) -> Seq<SourceAttribute> {
    file.attrs_visited@ + items_visits(file.items@)
}

/// The exported top-level functions, in source order.
pub open spec fn exported_functions(items: Seq<SourceItem>) -> Seq<FnDecl>
    decreases items.len(),
{
    if items.len() == 0 {
        Seq::empty()
    } else {
        let earlier = exported_functions(items.drop_last());
        match items.last() {
            SourceItem::Fn { function, .. } => if exported_fn(function) {
                earlier.push(function)
            } else {
                earlier
            },
            SourceItem::Other { .. } => earlier,
        }
    }
}

pub open spec fn rust_names(decls: Seq<FnDecl>) -> Seq<Seq<char>> {
    decls.map_values(|d: FnDecl| d.sig.ident@)
}

pub open spec fn function_names(fs: Seq<Function>) -> Seq<Seq<char>> {
    fs.map_values(|f: Function| f.rust_name@)
}

pub open spec fn export_error(f: FnDecl) -> Seq<char> {
    "export "@ + f.sig.ident@ + ": "@ + function_outcome(f)->Err_0
}

pub open spec fn export_check() -> spec_fn(SourceItem, Seq<SourceItem>) -> Result<(), Seq<char>> {
    |item: SourceItem, earlier: Seq<SourceItem>| match item {
        SourceItem::Fn { function, .. } => if exported_fn(function) && function_outcome(function) is Err {
            Err(export_error(function))
        } else {
            Ok(())
        },
        SourceItem::Other { .. } => Ok(()),
    }
}

/// The check of an accepted function's name against those sorted before it.
pub open spec fn name_check() -> spec_fn(Seq<char>, Seq<Seq<char>>) -> Result<(), Seq<char>> {
    |name: Seq<char>, earlier: Seq<Seq<char>>| if exists|j: int| 0 <= j < earlier.len() && #[trigger] earlier[j] == name {
        Err(duplicate_rust_error(name))
    } else if exists|j: int| 0 <= j < earlier.len() && lower_camel(#[trigger] earlier[j]) == lower_camel(name) {
        Err(kotlin_collision_error(lower_camel(name)))
    } else {
        Ok(())
    }
}

/// Whether discovery accepts a source file, or its first problem: a rejected
/// export (in source order), then a misplaced or conditional export, then
/// conditional compilation of a file that exports, then the module settings,
/// and last a repeated name in the sorted list of exports.
pub open spec fn discovery_outcome(
    file: SourceFile,
    package: Seq<char>,
    class_name: Seq<char>,
    library_name: Seq<char>,
) -> Result<(), Seq<char>> {
    let decls = exported_functions(file.items@);
    let header = check_module_header(SCHEMA_VERSION, package, class_name, library_name);
    if first_problem(file.items@, export_check()) is Err {
        first_problem(file.items@, export_check())
    } else if first_problem(visit_sequence(file), nested_check()) is Err {
        first_problem(visit_sequence(file), nested_check())
    } else if decls.len() > 0 && has_configuration(file.attrs@) {
        Err(configuration_error())
    } else if header is Err {
        header
    } else {
        first_problem(sorted_names(rust_names(decls)), name_check())
    }
}

proof fn lemma_nested_append(a: Seq<SourceAttribute>, b: Seq<SourceAttribute>)
    ensures
        first_problem(a + b, nested_check()) == if first_problem(a, nested_check()) is Err {
            first_problem(a, nested_check())
        } else {
            first_problem(b, nested_check())
        },
    decreases b.len(),
{
    if b.len() == 0 {
        assert(a + b =~= a);
    } else {
        assert((a + b).drop_last() =~= a + b.drop_last());
        lemma_nested_append(a, b.drop_last());
    }
}

/// Accepted functions are checked against each other by their names alone.
proof fn lemma_functions_by_names(fs: Seq<Function>)
    requires
        forall|k: int|
            0 <= k < fs.len() ==> check_function(#[trigger] fs[k]) is Ok && fs[k].kotlin_name@
                == lower_camel(fs[k].rust_name@),
    ensures
        first_problem(fs, function_check()) == first_problem(function_names(fs), name_check()),
    decreases fs.len(),
{
    if fs.len() > 0 {
        let earlier = fs.drop_last();
        let f = fs.last();
        assert(function_names(fs).drop_last() =~= function_names(earlier));
        lemma_functions_by_names(earlier);
        let names = function_names(earlier);
        assert(check_function(fs[fs.len() - 1]) is Ok);
        if exists|j: int| 0 <= j < earlier.len() && (#[trigger] earlier[j]).rust_name@ == f.rust_name@ {
            let j = choose|j: int| 0 <= j < earlier.len() && (#[trigger] earlier[j]).rust_name@ == f.rust_name@;
            assert(names[j] == f.rust_name@);
        } else {
            assert forall|j: int| 0 <= j < names.len() implies #[trigger] names[j] != f.rust_name@ by {
                assert(names[j] == earlier[j].rust_name@);
            }
            if exists|j: int| 0 <= j < earlier.len() && (#[trigger] earlier[j]).kotlin_name@ == f.kotlin_name@ {
                let j = choose|j: int| 0 <= j < earlier.len() && (#[trigger] earlier[j]).kotlin_name@ == f.kotlin_name@;
                assert(names[j] == earlier[j].rust_name@);
                assert(fs[j] == earlier[j]);
                assert(lower_camel(names[j]) == lower_camel(f.rust_name@));
            } else {
                assert forall|j: int| 0 <= j < names.len() implies lower_camel(#[trigger] names[j]) != lower_camel(f.rust_name@) by {
                    assert(names[j] == earlier[j].rust_name@);
                    assert(fs[j] == earlier[j]);
                }
            }
        }
    }
}

fn has_export(attrs: &Vec<SourceAttribute>) -> (r: bool)
    ensures
        r == exists|i: int| 0 <= i < attrs@.len() && is_export(#[trigger] attrs@[i]),
{
    let n = attrs.len();
    let mut i: usize = 0;
    while i < n
        invariant
            n == attrs@.len(),
            i <= n,
            forall|k: int| 0 <= k < i ==> !is_export(#[trigger] attrs@[k]),
        decreases n - i,
    {
        if is_export_attribute(&attrs[i]) {
            return true;
        }
        i = i + 1;
    }
    false
}

/// Where a function with this name goes in a list sorted by name.
fn sorted_position(functions: &Vec<Function>, name: &str) -> (r: usize)
    ensures
        r == insert_position(function_names(functions@), name@),
        r <= functions@.len(),
{
    let ghost names = function_names(functions@);
    let n = functions.len();
    let mut k: usize = 0;
    while k < n
        invariant
            n == functions@.len(),
            names == function_names(functions@),
            k <= n,
            forall|j: int| 0 <= j < k ==> !crate::order::text_less(name@, #[trigger] names[j]),
        decreases n - k,
    {
        if is_text_less(name, functions[k].rust_name.as_str()) {
            proof {
                lemma_insert_position(names, name@, k as int);
            }
            return k;
        }
        k = k + 1;
    }
    proof {
        lemma_insert_position(names, name@, n as int);
    }
    n
}

/// The error for source text that does not parse as a Rust file.
pub fn invalid_source_error(detail: &str) -> (r: String)
    ensures
        r@ == "invalid Rust source: "@ + detail@,
{
    crate::text::join2("invalid Rust source: ", detail)
}

/// What discovery promises of an accepted module: its settings, its functions
/// sorted strictly by Rust name, each describing one exported declaration and
/// each exported declaration described by one of them.
pub open spec fn discovered_module(
    file: SourceFile,
    package: Seq<char>,
    class_name: Seq<char>,
    library_name: Seq<char>,
    m: Module,
) -> bool {
    let decls = exported_functions(file.items@);
    &&& discovery_outcome(file, package, class_name, library_name) is Ok
    &&& check_module(m) is Ok
    &&& m.schema_version == SCHEMA_VERSION
    &&& m.package@ == package
    &&& m.class_name@ == class_name
    &&& m.library_name@ == library_name
    &&& function_names(m.functions@) == sorted_names(rust_names(decls))
    &&& forall|i: int, j: int|
        0 <= i < j < m.functions@.len() ==> text_less(
            (#[trigger] m.functions@[i]).rust_name@,
            (#[trigger] m.functions@[j]).rust_name@,
        )
    &&& forall|k: int|
        0 <= k < m.functions@.len() ==> exists|j: int|
            0 <= j < decls.len() && describes(#[trigger] m.functions@[k], decls[j])
    &&& forall|j: int|
        0 <= j < decls.len() ==> exists|k: int|
            0 <= k < m.functions@.len() && describes(m.functions@[k], #[trigger] decls[j])
}

/// The view of discovery's result on a syntax model.
pub open spec fn discovery_result(
    file: SourceFile,
    package: Seq<char>,
    class_name: Seq<char>,
    library_name: Seq<char>,
    r: Result<Module, String>,
) -> bool {
    match r {
        Ok(m) => discovered_module(file, package, class_name, library_name, m),
        Err(e) => discovery_outcome(file, package, class_name, library_name) == Err::<(), Seq<char>>(e@),
    }
}

/// Discover directly declared top-level exports in one Rust source text.
///
/// This does not expand macros, resolve out-of-line modules, or evaluate cfg.
/// Text that does not parse is refused with syn's message.
pub fn parse_source(source: &str, package: &str, class_name: &str, library_name: &str) -> (r: Result<
    Module,
    String,
>)
    ensures
        match rust_source_syntax(source@) {
            Ok(file) => discovery_result(file, package@, class_name@, library_name@, r),
            Err(detail) => r matches Err(e) && e@ == "invalid Rust source: "@ + detail,
        },
{
    let file = read_source(source)?;
    parse_source_file(&file, package, class_name, library_name)
}

/// Inserting the description of one more exported declaration keeps every
/// listed function checked and describing a declaration.
proof fn lemma_inserted_functions_describe(
    old_functions: Seq<Function>,
    functions: Seq<Function>,
    pos: int,
    m: Function,
    decls: Seq<FnDecl>,
    function: FnDecl,
)
    requires
        0 <= pos <= old_functions.len(),
        functions == old_functions.insert(pos, m),
        describes(m, function),
        check_function(m) is Ok,
        forall|k: int| 0 <= k < old_functions.len() ==> {
            &&& check_function(#[trigger] old_functions[k]) is Ok
            &&& old_functions[k].kotlin_name@ == lower_camel(old_functions[k].rust_name@)
            &&& exists|j: int| 0 <= j < decls.len() && describes(old_functions[k], decls[j])
        },
    ensures
        forall|k: int| 0 <= k < functions.len() ==> {
            &&& check_function(#[trigger] functions[k]) is Ok
            &&& functions[k].kotlin_name@ == lower_camel(functions[k].rust_name@)
            &&& exists|j: int| 0 <= j < decls.push(function).len() && describes(functions[k], decls.push(function)[j])
        },
{
    let ex = decls.push(function);
    assert(ex[decls.len() as int] == function);
    assert forall|k: int| 0 <= k < functions.len() implies {
        &&& check_function(#[trigger] functions[k]) is Ok
        &&& functions[k].kotlin_name@ == lower_camel(functions[k].rust_name@)
        &&& exists|j: int| 0 <= j < ex.len() && describes(functions[k], ex[j])
    } by {
        if k < pos {
            assert(functions[k] == old_functions[k]);
            let j = choose|j: int| 0 <= j < decls.len() && describes(old_functions[k], decls[j]);
            assert(ex[j] == decls[j]);
        } else if k == pos {
            assert(describes(functions[k], ex[decls.len() as int]));
        } else {
            assert(functions[k] == old_functions[k - 1]);
            let j = choose|j: int| 0 <= j < decls.len() && describes(old_functions[k - 1], decls[j]);
            assert(ex[j] == decls[j]);
        }
    }
}

/// Inserting the description of one more exported declaration keeps every
/// declaration described.
proof fn lemma_inserted_declarations_described(
    old_functions: Seq<Function>,
    functions: Seq<Function>,
    pos: int,
    m: Function,
    decls: Seq<FnDecl>,
    function: FnDecl,
)
    requires
        0 <= pos <= old_functions.len(),
        functions == old_functions.insert(pos, m),
        describes(m, function),
        forall|j: int| 0 <= j < decls.len() ==> exists|k: int|
            0 <= k < old_functions.len() && describes(old_functions[k], #[trigger] decls[j]),
    ensures
        forall|j: int| 0 <= j < decls.push(function).len() ==> exists|k: int|
            0 <= k < functions.len() && describes(functions[k], #[trigger] decls.push(function)[j]),
{
    let ex = decls.push(function);
    assert forall|j: int| 0 <= j < ex.len() implies exists|k: int|
        0 <= k < functions.len() && describes(functions[k], #[trigger] ex[j]) by {
        if j == decls.len() {
            assert(describes(functions[pos], ex[j]));
        } else {
            assert(ex[j] == decls[j]);
            let k = choose|k: int| 0 <= k < old_functions.len() && describes(old_functions[k], decls[j]);
            if k < pos {
                assert(functions[k] == old_functions[k]);
            } else {
                assert(functions[k + 1] == old_functions[k]);
            }
        }
    }
}

/// Discover directly declared top-level exports in one parsed Rust source file.
///
/// Nested exports and conditional export declarations are rejected
/// explicitly. Accepted functions are listed sorted by Rust name, and the
/// resulting module passes `validate_module`.
#[verifier::spinoff_prover]
#[verifier::rlimit(40)]
pub fn parse_source_file(file: &SourceFile, package: &str, class_name: &str, library_name: &str) -> (r: Result<
    Module,
    String,
>)
    ensures
        discovery_result(*file, package@, class_name@, library_name@, r),
{
    let ghost items = file.items@;
    let ghost visits0 = file.attrs_visited@;
    let mut nested_error = first_nested_problem(&file.attrs_visited);
    let mut functions: Vec<Function> = Vec::new();
    let n = file.items.len();
    let mut i: usize = 0;
    proof {
        assert(items.take(0) =~= Seq::<SourceItem>::empty());
        assert(visits0 + items_visits(items.take(0)) =~= visits0);
        assert(function_names(functions@) =~= sorted_names(rust_names(exported_functions(items.take(0)))));
    }
    while i < n
        invariant
            n == items.len(),
            items == file.items@,
            visits0 == file.attrs_visited@,
            i <= n,
            first_problem(items.take(i as int), export_check()) is Ok,
            match nested_error {
                Some(e) => first_problem(visits0 + items_visits(items.take(i as int)), nested_check()) == Err::<(), Seq<char>>(e@),
                None => first_problem(visits0 + items_visits(items.take(i as int)), nested_check()) is Ok,
            },
            function_names(functions@) == sorted_names(rust_names(exported_functions(items.take(i as int)))),
            forall|k: int| 0 <= k < functions@.len() ==> {
                &&& check_function(#[trigger] functions@[k]) is Ok
                &&& functions@[k].kotlin_name@ == lower_camel(functions@[k].rust_name@)
                &&& exists|j: int| 0 <= j < exported_functions(items.take(i as int)).len() && describes(
                    functions@[k],
                    exported_functions(items.take(i as int))[j],
                )
            },
            forall|j: int| 0 <= j < exported_functions(items.take(i as int)).len() ==> exists|k: int|
                0 <= k < functions@.len() && describes(
                    functions@[k],
                    #[trigger] exported_functions(items.take(i as int))[j],
                ),
        decreases n - i,
    {
        let ghost before = items.take(i as int);
        let ghost after = items.take(i + 1);
        proof {
            assert(after.drop_last() =~= before);
            assert(after.last() == items[i as int]);
            lemma_problem_extends(items, i as int, export_check());
            lemma_nested_append(visits0 + items_visits(before), item_visits(items[i as int]));
            assert(visits0 + items_visits(after) =~= visits0 + items_visits(before) + item_visits(items[i as int]));
        }
        let visited: &Vec<SourceAttribute>;
        match &file.items[i] {
            SourceItem::Fn { function, visited: whole, body_visited } => {
                if has_export(&function.attrs) {
                    match parse_function(function) {
                        Err(e) => {
                            let mut message = join3("export ", function.sig.ident.as_str(), ": ");
                            message.append(e.as_str());
                            proof {
                                lemma_problem_persists(items, i + 1, export_check());
                                assert(items.take(n as int) =~= items);
                            }
                            return Err(message);
                        },
                        Ok(m) => {
                            let ghost old_functions = functions@;
                            let ghost decls = exported_functions(before);
                            let pos = sorted_position(&functions, m.rust_name.as_str());
                            proof {
                                assert(exported_functions(after) =~= decls.push(*function));
                                assert(rust_names(decls.push(*function)).drop_last() =~= rust_names(decls));
                                crate::order::lemma_sorted_names_len(rust_names(decls));
                                assert(check_function(m) is Ok);
                            }
                            functions.insert(pos, m);
                            proof {
                                assert(function_names(functions@) =~= function_names(old_functions).insert(pos as int, m.rust_name@));
                                lemma_inserted_functions_describe(old_functions, functions@, pos as int, m, decls, *function);
                                lemma_inserted_declarations_described(old_functions, functions@, pos as int, m, decls, *function);
                                assert(exported_functions(after) == decls.push(*function));
                            }
                        },
                    }
                    visited = body_visited;
                } else {
                    proof {
                        assert(exported_functions(after) =~= exported_functions(before));
                    }
                    visited = whole;
                }
            },
            SourceItem::Other { visited: whole } => {
                proof {
                    assert(exported_functions(after) =~= exported_functions(before));
                }
                visited = whole;
            },
        }
        if nested_error.is_none() {
            nested_error = first_nested_problem(visited);
        }
        i = i + 1;
    }
    proof {
        assert(items.take(n as int) =~= items);
    }
    if let Some(e) = nested_error {
        return Err(e);
    }
    if functions.len() > 0 {
        reject_configuration(&file.attrs)?;
    }
    let module = Module {
        schema_version: SCHEMA_VERSION,
        package: owned(package),
        class_name: owned(class_name),
        library_name: owned(library_name),
        functions,
    };
    proof {
        crate::order::lemma_sorted_names_len(rust_names(exported_functions(items)));
        lemma_functions_by_names(module.functions@);
    }
    validate_module(&module)?;
    proof {
        let fs = module.functions@;
        let names = sorted_names(rust_names(exported_functions(items)));
        crate::order::sorted_names_are_sorted(rust_names(exported_functions(items)));
        crate::laws::valid_module_names(module);
        assert forall|i: int, j: int| 0 <= i < j < fs.len() implies text_less(
            (#[trigger] fs[i]).rust_name@,
            (#[trigger] fs[j]).rust_name@,
        ) by {
            assert(function_names(fs)[i] == fs[i].rust_name@);
            assert(function_names(fs)[j] == fs[j].rust_name@);
            assert(!text_less(names[j], names[i]));
            crate::order::lemma_text_less_total(fs[i].rust_name@, fs[j].rust_name@);
        }
    }
    Ok(module)
}

} // verus!
