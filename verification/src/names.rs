//! Identifier rules and the Rust-to-Kotlin function renaming.

use vstd::prelude::*;
use crate::text::{join2, join3, push_char, same_text};

verus! {

pub open spec fn ascii_letter(c: char) -> bool {
    ('a' <= c && c <= 'z') || ('A' <= c && c <= 'Z')
}

pub open spec fn ascii_digit(c: char) -> bool {
    '0' <= c && c <= '9'
}

/// A character that may continue an ASCII identifier.
pub open spec fn ident_char(c: char) -> bool {
    ascii_letter(c) || ascii_digit(c) || c == '_'
}

/// ASCII letters, digits and underscores, starting with a letter or an
/// underscore, and holding at least one character other than an underscore.
pub open spec fn ascii_identifier(s: Seq<char>) -> bool {
    &&& s.len() > 0
    &&& (ascii_letter(s[0]) || s[0] == '_')
    &&& forall|i: int| 0 <= i < s.len() ==> ident_char(#[trigger] s[i])
    &&& exists|i: int| 0 <= i < s.len() && #[trigger] s[i] != '_'
}

/// Kotlin's hard keywords, which cannot name anything without escaping.
pub open spec fn kotlin_hard_keyword(s: Seq<char>) -> bool {
    s == "as"@ || s == "break"@ || s == "class"@ || s == "continue"@ || s == "do"@
        || s == "else"@ || s == "false"@ || s == "for"@ || s == "fun"@ || s == "if"@
        || s == "in"@ || s == "interface"@ || s == "is"@ || s == "null"@ || s == "object"@
        || s == "package"@ || s == "return"@ || s == "super"@ || s == "this"@
        || s == "throw"@ || s == "true"@ || s == "try"@ || s == "typealias"@
        || s == "typeof"@ || s == "val"@ || s == "var"@ || s == "when"@ || s == "while"@
}

/// The words that `syn` refuses to parse as an identifier.
pub open spec fn rust_reserved_word(s: Seq<char>) -> bool {
    s == "_"@ || s == "abstract"@ || s == "as"@ || s == "async"@ || s == "await"@
        || s == "become"@ || s == "box"@ || s == "break"@ || s == "const"@
        || s == "continue"@ || s == "crate"@ || s == "do"@ || s == "dyn"@ || s == "else"@
        || s == "enum"@ || s == "extern"@ || s == "false"@ || s == "final"@ || s == "fn"@
        || s == "for"@ || s == "if"@ || s == "impl"@ || s == "in"@ || s == "let"@
        || s == "loop"@ || s == "macro"@ || s == "match"@ || s == "mod"@ || s == "move"@
        || s == "mut"@ || s == "override"@ || s == "priv"@ || s == "pub"@ || s == "ref"@
        || s == "return"@ || s == "Self"@ || s == "self"@ || s == "static"@
        || s == "struct"@ || s == "super"@ || s == "trait"@ || s == "true"@ || s == "try"@
        || s == "type"@ || s == "typeof"@ || s == "unsafe"@ || s == "unsized"@
        || s == "use"@ || s == "virtual"@ || s == "where"@ || s == "while"@ || s == "yield"@
}

/// The method names that every Kotlin/JVM object inherits.
pub open spec fn inherited_object_method(s: Seq<char>) -> bool {
    s == "equals"@ || s == "hashCode"@ || s == "toString"@ || s == "clone"@
        || s == "finalize"@ || s == "getClass"@ || s == "notify"@ || s == "notifyAll"@
        || s == "wait"@
}

pub open spec fn ascii_error(name: Seq<char>, kind: Seq<char>) -> Seq<char> {
    "invalid "@ + kind + " `"@ + name
        + "`: use ASCII letters, digits, and underscores, starting with a letter or underscore; raw identifiers are unsupported"@
}

pub open spec fn kotlin_keyword_error(name: Seq<char>, kind: Seq<char>) -> Seq<char> {
    kind + " `"@ + name + "` is a reserved Kotlin keyword"@
}

pub open spec fn rust_keyword_error(name: Seq<char>, kind: Seq<char>) -> Seq<char> {
    "invalid "@ + kind + " `"@ + name + "`: Rust keywords are unsupported"@
}

pub open spec fn inherited_method_error(name: Seq<char>) -> Seq<char> {
    "Kotlin function name `"@ + name + "` conflicts with an inherited object method"@
}

/// The outcome of checking an ASCII identifier.
pub open spec fn check_ascii(name: Seq<char>, kind: Seq<char>) -> Result<(), Seq<char>> {
    if ascii_identifier(name) {
        Ok(())
    } else {
        Err(ascii_error(name, kind))
    }
}

/// The outcome of checking a name that Kotlin source may use unescaped.
pub open spec fn check_kotlin(name: Seq<char>, kind: Seq<char>) -> Result<(), Seq<char>> {
    if !ascii_identifier(name) {
        Err(ascii_error(name, kind))
    } else if kotlin_hard_keyword(name) {
        Err(kotlin_keyword_error(name, kind))
    } else {
        Ok(())
    }
}

/// The outcome of checking a name that Rust source may use unescaped.
pub open spec fn check_rust(name: Seq<char>, kind: Seq<char>) -> Result<(), Seq<char>> {
    if !ascii_identifier(name) {
        Err(ascii_error(name, kind))
    } else if rust_reserved_word(name) {
        Err(rust_keyword_error(name, kind))
    } else {
        Ok(())
    }
}

/// The view of a check result whose error is a `String`.
pub open spec fn unit_view(r: Result<(), String>) -> Result<(), Seq<char>> {
    match r {
        Ok(_) => Ok(()),
        Err(e) => Err(e@),
    }
}

/// The view of a result that carries a `String` either way.
pub open spec fn text_view(r: Result<String, String>) -> Result<Seq<char>, Seq<char>> {
    match r {
        Ok(s) => Ok(s@),
        Err(e) => Err(e@),
    }
}

pub open spec fn ascii_lower(c: char) -> char {
    if 'A' <= c && c <= 'Z' {
        ((c as int) + 32) as char
    } else {
        c
    }
}

pub open spec fn ascii_upper(c: char) -> char {
    if 'a' <= c && c <= 'z' {
        ((c as int) - 32) as char
    } else {
        c
    }
}

/// The renaming after reading some characters: the name so far, and whether
/// the next character other than `_` starts a new word.
pub open spec fn camel_state(s: Seq<char>) -> (Seq<char>, bool)
    decreases s.len(),
{
    if s.len() == 0 {
        (Seq::empty(), true)
    } else {
        let (done, word_start) = camel_state(s.drop_last());
        let c = s.last();
        if c == '_' {
            (done, true)
        } else if word_start {
            (done.push(if done.len() == 0 { ascii_lower(c) } else { ascii_upper(c) }), false)
        } else {
            (done.push(c), false)
        }
    }
}

/// lowerCamelCase: underscores are removed, every word after the first starts
/// with an upper-case letter and the first word with a lower-case one.
pub open spec fn lower_camel(s: Seq<char>) -> Seq<char> {
    camel_state(s).0
}

/// The pieces of a name between its underscores, empty ones included.
pub open spec fn split_underscores(s: Seq<char>) -> Seq<Seq<char>>
    decreases s.len(),
{
    if s.len() == 0 {
        seq![Seq::empty()]
    } else {
        let parts = split_underscores(s.drop_last());
        if s.last() == '_' {
            parts.push(Seq::empty())
        } else {
            parts.update(parts.len() - 1, parts.last().push(s.last()))
        }
    }
}

pub open spec fn nonempty_word() -> spec_fn(Seq<char>) -> bool {
    |w: Seq<char>| w.len() > 0
}

/// The words of a name: the nonempty pieces between its underscores.
pub open spec fn name_words(s: Seq<char>) -> Seq<Seq<char>> {
    split_underscores(s).filter(nonempty_word())
}

/// A word with its first letter lower-cased (the first word) or upper-cased
/// (every later word), the rest unchanged.
pub open spec fn capitalized_word(w: Seq<char>, first: bool) -> Seq<char> {
    seq![if first { ascii_lower(w[0]) } else { ascii_upper(w[0]) }] + w.drop_first()
}

/// Words written one after another in lowerCamelCase.
pub open spec fn join_camel(words: Seq<Seq<char>>) -> Seq<char>
    decreases words.len(),
{
    if words.len() == 0 {
        Seq::empty()
    } else {
        join_camel(words.drop_last()) + capitalized_word(words.last(), words.len() == 1)
    }
}

/// The outcome of deriving a Kotlin function name from a Rust one.
pub open spec fn derive_kotlin_name(rust_name: Seq<char>) -> Result<Seq<char>, Seq<char>> {
    let kind = "Rust function name"@;
    let name = lower_camel(rust_name);
    if check_rust(rust_name, kind) is Err {
        Err(check_rust(rust_name, kind)->Err_0)
    } else if check_kotlin(name, "Kotlin function name"@) is Err {
        Err(check_kotlin(name, "Kotlin function name"@)->Err_0)
    } else if inherited_object_method(name) {
        Err(inherited_method_error(name))
    } else {
        Ok(name)
    }
}

fn is_ascii_letter(c: char) -> (r: bool)
    ensures
        r == ascii_letter(c),
{
    ('a' <= c && c <= 'z') || ('A' <= c && c <= 'Z')
}

fn is_ident_char(c: char) -> (r: bool)
    ensures
        r == ident_char(c),
{
    is_ascii_letter(c) || ('0' <= c && c <= '9') || c == '_'
}

fn lower_char(c: char) -> (r: char)
    ensures
        r == ascii_lower(c),
{
    if 'A' <= c && c <= 'Z' {
        let b: u8 = c as u8;
        assert(b as int == c as int);
        ((b + 32) as u8) as char
    } else {
        c
    }
}

fn upper_char(c: char) -> (r: char)
    ensures
        r == ascii_upper(c),
{
    if 'a' <= c && c <= 'z' {
        let b: u8 = c as u8;
        assert(b as int == c as int);
        ((b - 32) as u8) as char
    } else {
        c
    }
}

/// Whether `name` is an ASCII identifier.
pub fn is_ascii_identifier(name: &str) -> (r: bool)
    ensures
        r == ascii_identifier(name@),
{
    let n = name.unicode_len();
    if n == 0 {
        return false;
    }
    let first = name.get_char(0);
    if !(is_ascii_letter(first) || first == '_') {
        return false;
    }
    let mut any_other = false;
    let mut i: usize = 0;
    while i < n
        invariant
            n == name@.len(),
            i <= n,
            forall|j: int| 0 <= j < i ==> ident_char(#[trigger] name@[j]),
            any_other == (exists|j: int| 0 <= j < i && #[trigger] name@[j] != '_'),
        decreases n - i,
    {
        let c = name.get_char(i);
        if !is_ident_char(c) {
            return false;
        }
        if c != '_' {
            any_other = true;
        }
        i = i + 1;
    }
    any_other
}

fn is_kotlin_hard_keyword(name: &str) -> (r: bool)
    ensures
        r == kotlin_hard_keyword(name@),
{
    same_text(name, "as") || same_text(name, "break") || same_text(name, "class")
        || same_text(name, "continue") || same_text(name, "do") || same_text(name, "else")
        || same_text(name, "false") || same_text(name, "for") || same_text(name, "fun")
        || same_text(name, "if") || same_text(name, "in") || same_text(name, "interface")
        || same_text(name, "is") || same_text(name, "null") || same_text(name, "object")
        || same_text(name, "package") || same_text(name, "return") || same_text(name, "super")
        || same_text(name, "this") || same_text(name, "throw") || same_text(name, "true")
        || same_text(name, "try") || same_text(name, "typealias") || same_text(name, "typeof")
        || same_text(name, "val") || same_text(name, "var") || same_text(name, "when")
        || same_text(name, "while")
}

fn is_inherited_object_method(name: &str) -> (r: bool)
    ensures
        r == inherited_object_method(name@),
{
    same_text(name, "equals") || same_text(name, "hashCode") || same_text(name, "toString")
        || same_text(name, "clone") || same_text(name, "finalize") || same_text(name, "getClass")
        || same_text(name, "notify") || same_text(name, "notifyAll") || same_text(name, "wait")
}

/// Whether `syn` parses `name` as an identifier, with `syn::parse_str::<syn::Ident>`.
///
/// Trusted: for an ASCII identifier the lexer yields exactly one identifier
/// token, and syn's `Ident` parser refuses it exactly when it is one of the
/// reserved words listed in `rust_reserved_word` (syn's `accept_as_ident`).
#[verifier::external_body]
fn syn_accepts_ident(name: &str) -> (r: bool)
    requires
        ascii_identifier(name@),
    ensures
        r == !rust_reserved_word(name@),
{
    syn::parse_str::<syn::Ident>(name).is_ok()
}

fn ascii_failure(name: &str, kind: &str) -> (r: String)
    ensures
        r@ == ascii_error(name@, kind@),
{
    let mut message = join3("invalid ", kind, " `");
    message.append(name);
    message.append(
        "`: use ASCII letters, digits, and underscores, starting with a letter or underscore; raw identifiers are unsupported",
    );
    message
}

/// Check that `name` is an ASCII identifier; `kind` names it in the error.
pub fn validate_ascii_identifier(name: &str, kind: &str) -> (r: Result<(), String>)
    ensures
        unit_view(r) == check_ascii(name@, kind@),
{
    if is_ascii_identifier(name) {
        Ok(())
    } else {
        Err(ascii_failure(name, kind))
    }
}

/// Check that `name` may stand unescaped in Kotlin source: an ASCII identifier
/// that is not a hard keyword (contextual keywords such as `value` are valid).
pub fn validate_kotlin_identifier(name: &str, kind: &str) -> (r: Result<(), String>)
    ensures
        unit_view(r) == check_kotlin(name@, kind@),
{
    validate_ascii_identifier(name, kind)?;
    if is_kotlin_hard_keyword(name) {
        let mut message = join3(kind, " `", name);
        message.append("` is a reserved Kotlin keyword");
        return Err(message);
    }
    Ok(())
}

/// Check that `name` may stand unescaped in Rust source.
pub fn validate_rust_identifier(name: &str, kind: &str) -> (r: Result<(), String>)
    ensures
        unit_view(r) == check_rust(name@, kind@),
{
    validate_ascii_identifier(name, kind)?;
    if !syn_accepts_ident(name) {
        let mut message = join3("invalid ", kind, " `");
        message.append(name);
        message.append("`: Rust keywords are unsupported");
        return Err(message);
    }
    Ok(())
}

/// Derive the lowerCamelCase Kotlin name of a Rust function.
pub fn kotlin_function_name(rust_name: &str) -> (r: Result<String, String>)
    ensures
        text_view(r) == derive_kotlin_name(rust_name@),
{
    validate_rust_identifier(rust_name, "Rust function name")?;
    let n = rust_name.unicode_len();
    let mut result = String::new();
    let mut word_start = true;
    let mut i: usize = 0;
    while i < n
        invariant
            n == rust_name@.len(),
            i <= n,
            (result@, word_start) == camel_state(rust_name@.take(i as int)),
        decreases n - i,
    {
        let c = rust_name.get_char(i);
        proof {
            assert(rust_name@.take(i + 1).drop_last() =~= rust_name@.take(i as int));
        }
        if c == '_' {
            word_start = true;
        } else if word_start {
            let first = if result.unicode_len() == 0 { lower_char(c) } else { upper_char(c) };
            push_char(&mut result, first);
            word_start = false;
        } else {
            push_char(&mut result, c);
            word_start = false;
        }
        i = i + 1;
    }
    proof {
        assert(rust_name@.take(n as int) =~= rust_name@);
    }
    validate_kotlin_identifier(result.as_str(), "Kotlin function name")?;
    if is_inherited_object_method(result.as_str()) {
        let mut message = join2("Kotlin function name `", result.as_str());
        message.append("` conflicts with an inherited object method");
        return Err(message);
    }
    Ok(result)
}

} // verus!
