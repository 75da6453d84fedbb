//! Validation of metadata before it is used to generate code.

use vstd::prelude::*;
use crate::metadata::{Function, Module, Parameter, SCHEMA_VERSION, Type};
use crate::names::{
    check_ascii, check_kotlin, check_rust, derive_kotlin_name, unit_view,
    kotlin_function_name, validate_ascii_identifier, validate_kotlin_identifier,
    validate_rust_identifier,
};
use crate::text::{join2, join3, push_char};

verus! {

pub open spec fn is_slice(t: Type) -> bool {
    t is ByteSlice || t is IntSlice || t is LongSlice || t is FloatSlice || t is DoubleSlice
        || t is BooleanSlice
}

/// `text` followed by the function name in backticks.
pub open spec fn in_function(text: Seq<char>, f: Seq<char>) -> Seq<char> {
    text + " in `"@ + f + "`"@
}

/// Where a type may stand: the first problem found, outermost first.
pub open spec fn check_position(t: Type, is_return: bool, f: Seq<char>) -> Result<(), Seq<char>>
    decreases t,
{
    match t {
        Type::Unit => if is_return {
            Ok(())
        } else {
            Err("unit parameters are unsupported in `"@ + f + "`"@)
        },
        Type::Str => if is_return {
            Err("borrowed string returns are unsupported in `"@ + f + "`; return String instead"@)
        } else {
            Ok(())
        },
        Type::Option(inner) => if *inner is Unit {
            Err(in_function("Option<Unit> is unsupported"@, f))
        } else if *inner is Option {
            Err(in_function("nested Option<Option<T>> is unsupported"@, f))
        } else if *inner is Result {
            Err(in_function("Option<Result<T, E>> is unsupported"@, f))
        } else {
            check_position(*inner, is_return, f)
        },
        Type::Result { ok, .. } => if !is_return {
            Err(in_function("Result is only supported as a return type"@, f))
        } else if *ok is Result {
            Err(in_function("nested Result<Result<T, E>, E2> is unsupported"@, f))
        } else {
            check_position(*ok, is_return, f)
        },
        _ => if is_slice(t) && is_return {
            Err("borrowed slice returns are unsupported in `"@ + f + "`; return Vec instead"@)
        } else {
            Ok(())
        },
    }
}

/// Check that a type may stand as a parameter (`is_return` false) or as the
/// result of the function named `func_name`.
pub fn validate_type_position(ty: &Type, is_return: bool, func_name: &str) -> (r: Result<(), String>)
    ensures
        unit_view(r) == check_position(*ty, is_return, func_name@),
    decreases ty,
{
    match ty {
        Type::Unit => {
            if is_return {
                Ok(())
            } else {
                Err(join3("unit parameters are unsupported in `", func_name, "`"))
            }
        },
        Type::Str => {
            if is_return {
                Err(join3(
                    "borrowed string returns are unsupported in `",
                    func_name,
                    "`; return String instead",
                ))
            } else {
                Ok(())
            }
        },
        Type::Option(inner) => {
            match &**inner {
                Type::Unit => Err(located("Option<Unit> is unsupported", func_name)),
                Type::Option(_) => Err(located("nested Option<Option<T>> is unsupported", func_name)),
                Type::Result { .. } => Err(located("Option<Result<T, E>> is unsupported", func_name)),
                _ => validate_type_position(inner, is_return, func_name),
            }
        },
        Type::Result { ok, .. } => {
            if !is_return {
                Err(located("Result is only supported as a return type", func_name))
            } else if let Type::Result { .. } = &**ok {
                Err(located("nested Result<Result<T, E>, E2> is unsupported", func_name))
            } else {
                validate_type_position(ok, is_return, func_name)
            }
        },
        Type::ByteSlice | Type::IntSlice | Type::LongSlice | Type::FloatSlice | Type::DoubleSlice
        | Type::BooleanSlice => {
            if is_return {
                Err(join3(
                    "borrowed slice returns are unsupported in `",
                    func_name,
                    "`; return Vec instead",
                ))
            } else {
                Ok(())
            }
        },
        _ => Ok(()),
    }
}

fn located(text: &str, func_name: &str) -> (r: String)
    ensures
        r@ == in_function(text@, func_name@),
{
    let mut message = join3(text, " in `", func_name);
    message.append("`");
    message
}

pub open spec fn kotlin_name_error(k: Seq<char>, rust: Seq<char>, expected: Seq<char>) -> Seq<char> {
    "Kotlin name `"@ + k + "` for Rust function `"@ + rust + "` must be `"@ + expected + "`"@
}

pub open spec fn duplicate_parameter_error(name: Seq<char>, f: Seq<char>) -> Seq<char> {
    "duplicate parameter `"@ + name + "` in `"@ + f + "`"@
}

/// The first problem of the last parameter, given the ones before it.
pub open spec fn check_parameter(p: Parameter, earlier: Seq<Parameter>, f: Seq<char>) -> Result<
    (),
    Seq<char>,
> {
    if check_kotlin(p.name@, "parameter"@) is Err {
        check_kotlin(p.name@, "parameter"@)
    } else if check_rust(p.name@, "parameter"@) is Err {
        check_rust(p.name@, "parameter"@)
    } else if exists|j: int| 0 <= j < earlier.len() && (#[trigger] earlier[j]).name@ == p.name@ {
        Err(duplicate_parameter_error(p.name@, f))
    } else {
        check_position(p.ty, false, f)
    }
}

/// The first problem in a list: each element is checked against the elements
/// before it, in order, and the first failing check decides.
pub open spec fn first_problem<T>(
    xs: Seq<T>,
    check: spec_fn(T, Seq<T>) -> Result<(), Seq<char>>,
) -> Result<(), Seq<char>>
    decreases xs.len(),
{
    if xs.len() == 0 {
        Ok(())
    } else if first_problem(xs.drop_last(), check) is Err {
        first_problem(xs.drop_last(), check)
    } else {
        check(xs.last(), xs.drop_last())
    }
}

/// Once a prefix of a list has a problem, the whole list has the same one.
pub proof fn lemma_problem_persists<T>(
    xs: Seq<T>,
    k: int,
    check: spec_fn(T, Seq<T>) -> Result<(), Seq<char>>,
)
    requires
        0 <= k <= xs.len(),
        first_problem(xs.take(k), check) is Err,
    ensures
        first_problem(xs, check) == first_problem(xs.take(k), check),
    decreases xs.len() - k,
{
    if k == xs.len() {
        assert(xs.take(k) =~= xs);
    } else {
        assert(xs.take(k + 1).drop_last() =~= xs.take(k));
        lemma_problem_persists(xs, k + 1, check);
    }
}

/// In a list without problems, every element passes its check.
pub proof fn lemma_no_problem_each<T>(
    xs: Seq<T>,
    k: int,
    check: spec_fn(T, Seq<T>) -> Result<(), Seq<char>>,
)
    requires
        0 <= k < xs.len(),
        first_problem(xs, check) is Ok,
    ensures
        check(xs[k], xs.take(k)) is Ok,
    decreases xs.len(),
{
    if k == xs.len() - 1 {
        assert(xs.drop_last() =~= xs.take(k));
    } else {
        assert(xs.drop_last().take(k) =~= xs.take(k));
        lemma_no_problem_each(xs.drop_last(), k, check);
    }
}

/// A prefix without problems decides the next element by its own check.
pub proof fn lemma_problem_extends<T>(
    xs: Seq<T>,
    k: int,
    check: spec_fn(T, Seq<T>) -> Result<(), Seq<char>>,
)
    requires
        0 <= k < xs.len(),
        first_problem(xs.take(k), check) is Ok,
    ensures
        first_problem(xs.take(k + 1), check) == check(xs[k], xs.take(k)),
{
    assert(xs.take(k + 1).drop_last() =~= xs.take(k));
}

pub open spec fn parameter_check(f: Seq<char>) -> spec_fn(Parameter, Seq<Parameter>) -> Result<(), Seq<char>> {
    |p: Parameter, earlier: Seq<Parameter>| check_parameter(p, earlier, f)
}

/// The first problem among parameters, in order.
pub open spec fn check_parameters(ps: Seq<Parameter>, f: Seq<char>) -> Result<(), Seq<char>> {
    first_problem(ps, parameter_check(f))
}

/// The first problem of a function's metadata, given its parts: its names,
/// then its parameters in order, then its result type.
pub open spec fn check_function_parts(
    rust_name: Seq<char>,
    kotlin_name: Seq<char>,
    parameters: Seq<Parameter>,
    return_type: Type,
) -> Result<(), Seq<char>> {
    let derived = derive_kotlin_name(rust_name);
    if derived is Err {
        Err(derived->Err_0)
    } else if kotlin_name != derived->Ok_0 {
        Err(kotlin_name_error(kotlin_name, rust_name, derived->Ok_0))
    } else if check_parameters(parameters, rust_name) is Err {
        check_parameters(parameters, rust_name)
    } else {
        check_position(return_type, true, rust_name)
    }
}

/// The first problem of a function's metadata.
pub open spec fn check_function(f: Function) -> Result<(), Seq<char>> {
    check_function_parts(f.rust_name@, f.kotlin_name@, f.parameters@, f.return_type)
}

/// Whether a parameter before position `i` has the name of the one at `i`.
fn name_taken(parameters: &Vec<Parameter>, i: usize) -> (r: bool)
    requires
        i < parameters@.len(),
    ensures
        r == exists|j: int| 0 <= j < i && (#[trigger] parameters@.take(i as int)[j]).name@ == parameters@[i as int].name@,
{
    let mut j: usize = 0;
    while j < i
        invariant
            i < parameters@.len(),
            j <= i,
            forall|k: int| 0 <= k < j ==> parameters@[k].name@ != parameters@[i as int].name@,
        decreases i - j,
    {
        if parameters[j].name == parameters[i].name {
            assert(parameters@.take(i as int)[j as int] == parameters@[j as int]);
            return true;
        }
        j = j + 1;
    }
    assert forall|k: int| 0 <= k < i implies (#[trigger] parameters@.take(i as int)[k]).name@ != parameters@[i as int].name@ by {
        assert(parameters@.take(i as int)[k] == parameters@[k]);
    }
    false
}

/// Check one function's metadata.
pub fn validate_function(function: &Function) -> (r: Result<(), String>)
    ensures
        unit_view(r) == check_function(*function),
{
    let expected = kotlin_function_name(function.rust_name.as_str())?;
    if function.kotlin_name != expected {
        let mut message = join3("Kotlin name `", function.kotlin_name.as_str(), "` for Rust function `");
        message.append(function.rust_name.as_str());
        message.append("` must be `");
        message.append(expected.as_str());
        message.append("`");
        return Err(message);
    }
    let ghost f = function.rust_name@;
    let n = function.parameters.len();
    let mut i: usize = 0;
    while i < n
        invariant
            n == function.parameters@.len(),
            i <= n,
            f == function.rust_name@,
            derive_kotlin_name(f) is Ok,
            function.kotlin_name@ == derive_kotlin_name(f)->Ok_0,
            check_parameters(function.parameters@.take(i as int), f) is Ok,
        decreases n - i,
    {
        let parameter = &function.parameters[i];
        proof {
            lemma_problem_extends(function.parameters@, i as int, parameter_check(f));
        }
        let kotlin_ok = validate_kotlin_identifier(parameter.name.as_str(), "parameter");
        if let Err(e) = kotlin_ok {
            proof {
                lemma_problem_extends(function.parameters@, i as int, parameter_check(f));
                lemma_problem_persists(function.parameters@, i + 1, parameter_check(f));
            }
            return Err(e);
        }
        let rust_ok = validate_rust_identifier(parameter.name.as_str(), "parameter");
        if let Err(e) = rust_ok {
            proof {
                lemma_problem_extends(function.parameters@, i as int, parameter_check(f));
                lemma_problem_persists(function.parameters@, i + 1, parameter_check(f));
            }
            return Err(e);
        }
        if name_taken(&function.parameters, i) {
            let mut message = join3("duplicate parameter `", parameter.name.as_str(), "` in `");
            message.append(function.rust_name.as_str());
            message.append("`");
            proof {
                lemma_problem_extends(function.parameters@, i as int, parameter_check(f));
                lemma_problem_persists(function.parameters@, i + 1, parameter_check(f));
            }
            return Err(message);
        }
        let position = validate_type_position(&parameter.ty, false, function.rust_name.as_str());
        if let Err(e) = position {
            proof {
                lemma_problem_extends(function.parameters@, i as int, parameter_check(f));
                lemma_problem_persists(function.parameters@, i + 1, parameter_check(f));
            }
            return Err(e);
        }
        i = i + 1;
    }
    proof {
        assert(function.parameters@.take(n as int) =~= function.parameters@);
    }
    validate_type_position(&function.return_type, true, function.rust_name.as_str())
}


/// A decimal digit.
pub open spec fn digit_char(d: nat) -> char {
    ((48 + d) as int) as char
}

/// The decimal rendering of a natural number, without leading zeros.
pub open spec fn decimal(n: nat) -> Seq<char>
    decreases n,
{
    if n < 10 {
        seq![digit_char(n)]
    } else {
        decimal(n / 10).push(digit_char(n % 10))
    }
}

/// Render a number in decimal.
pub fn decimal_text(n: u32) -> (r: String)
    ensures
        r@ == decimal(n as nat),
    decreases n,
{
    let digit: u8 = (n % 10) as u8;
    let c: char = (48u8 + digit) as char;
    if n < 10 {
        let mut r = String::new();
        push_char(&mut r, c);
        r
    } else {
        let mut r = decimal_text(n / 10);
        push_char(&mut r, c);
        r
    }
}

/// The pieces of `s` between dots, as `str::split('.')` yields them.
pub open spec fn split_dots(s: Seq<char>) -> Seq<Seq<char>>
    decreases s.len(),
{
    if s.len() == 0 {
        seq![Seq::empty()]
    } else {
        let parts = split_dots(s.drop_last());
        if s.last() == '.' {
            parts.push(Seq::empty())
        } else {
            parts.update(parts.len() - 1, parts.last().push(s.last()))
        }
    }
}

proof fn lemma_split_nonempty(s: Seq<char>)
    ensures
        split_dots(s).len() >= 1,
    decreases s.len(),
{
    if s.len() > 0 {
        lemma_split_nonempty(s.drop_last());
    }
}

pub open spec fn views(v: Seq<String>) -> Seq<Seq<char>> {
    v.map_values(|s: String| s@)
}

/// Split a string at its dots.
fn split_at_dots(s: &str) -> (r: Vec<String>)
    ensures
        views(r@) == split_dots(s@),
{
    let n = s.unicode_len();
    let mut done: Vec<String> = Vec::new();
    let mut current = String::new();
    let mut i: usize = 0;
    proof {
        assert(s@.take(0) =~= Seq::<char>::empty());
        assert(views(done@).push(current@) =~= split_dots(s@.take(0)));
    }
    while i < n
        invariant
            n == s@.len(),
            i <= n,
            views(done@).push(current@) == split_dots(s@.take(i as int)),
        decreases n - i,
    {
        let c = s.get_char(i);
        proof {
            assert(s@.take(i + 1).drop_last() =~= s@.take(i as int));
            lemma_split_nonempty(s@.take(i as int));
        }
        if c == '.' {
            let mut finished = String::new();
            std::mem::swap(&mut finished, &mut current);
            done.push(finished);
            proof {
                assert(views(done@).push(current@) =~= split_dots(s@.take(i + 1)));
            }
        } else {
            push_char(&mut current, c);
            proof {
                assert(views(done@).push(current@) =~= split_dots(s@.take(i + 1)));
            }
        }
        i = i + 1;
    }
    done.push(current);
    proof {
        assert(s@.take(n as int) =~= s@);
        assert(views(done@) =~= split_dots(s@));
    }
    done
}

pub open spec fn segment_check() -> spec_fn(Seq<char>, Seq<Seq<char>>) -> Result<(), Seq<char>> {
    |segment: Seq<char>, earlier: Seq<Seq<char>>| check_kotlin(segment, "package segment"@)
}

pub open spec fn schema_error(version: u32) -> Seq<char> {
    "unsupported metadata schema version "@ + decimal(version as nat) + "; expected 1 or "@
        + decimal(SCHEMA_VERSION as nat)
}

pub open spec fn duplicate_rust_error(name: Seq<char>) -> Seq<char> {
    "duplicate exported Rust function `"@ + name + "`"@
}

pub open spec fn kotlin_collision_error(name: Seq<char>) -> Seq<char> {
    "exported functions collide on Kotlin name `"@ + name + "`"@
}

/// The first problem of the last function, given the ones before it: its own
/// metadata, then a repeated Rust name, then a repeated Kotlin name.
pub open spec fn check_function_entry(f: Function, earlier: Seq<Function>) -> Result<(), Seq<char>> {
    if check_function(f) is Err {
        check_function(f)
    } else if exists|j: int| 0 <= j < earlier.len() && (#[trigger] earlier[j]).rust_name@ == f.rust_name@ {
        Err(duplicate_rust_error(f.rust_name@))
    } else if exists|j: int| 0 <= j < earlier.len() && (#[trigger] earlier[j]).kotlin_name@ == f.kotlin_name@ {
        Err(kotlin_collision_error(f.kotlin_name@))
    } else {
        Ok(())
    }
}

pub open spec fn function_check() -> spec_fn(Function, Seq<Function>) -> Result<(), Seq<char>> {
    |f: Function, earlier: Seq<Function>| check_function_entry(f, earlier)
}

/// The first problem of a module's settings: its schema version, its package
/// segments in order, then its class and library names.
pub open spec fn check_module_header(
    version: u32,
    package: Seq<char>,
    class_name: Seq<char>,
    library_name: Seq<char>,
) -> Result<(), Seq<char>> {
    if version != 1 && version != SCHEMA_VERSION {
        Err(schema_error(version))
    } else if first_problem(split_dots(package), segment_check()) is Err {
        first_problem(split_dots(package), segment_check())
    } else if check_kotlin(class_name, "class name"@) is Err {
        check_kotlin(class_name, "class name"@)
    } else {
        check_ascii(library_name, "library name"@)
    }
}

/// The first problem of a module: its settings, then its functions in order.
pub open spec fn check_module(m: Module) -> Result<(), Seq<char>> {
    let header = check_module_header(m.schema_version, m.package@, m.class_name@, m.library_name@);
    if header is Err {
        header
    } else {
        first_problem(m.functions@, function_check())
    }
}

/// Whether a function before position `i` has the Rust name of the one at `i`.
fn rust_name_taken(functions: &Vec<Function>, i: usize) -> (r: bool)
    requires
        i < functions@.len(),
    ensures
        r == exists|j: int| 0 <= j < i && (#[trigger] functions@.take(i as int)[j]).rust_name@ == functions@[i as int].rust_name@,
{
    let mut j: usize = 0;
    while j < i
        invariant
            i < functions@.len(),
            j <= i,
            forall|k: int| 0 <= k < j ==> functions@[k].rust_name@ != functions@[i as int].rust_name@,
        decreases i - j,
    {
        if functions[j].rust_name == functions[i].rust_name {
            assert(functions@.take(i as int)[j as int] == functions@[j as int]);
            return true;
        }
        j = j + 1;
    }
    assert forall|k: int| 0 <= k < i implies (#[trigger] functions@.take(i as int)[k]).rust_name@ != functions@[i as int].rust_name@ by {
        assert(functions@.take(i as int)[k] == functions@[k]);
    }
    false
}

/// Whether a function before position `i` has the Kotlin name of the one at `i`.
fn kotlin_name_taken(functions: &Vec<Function>, i: usize) -> (r: bool)
    requires
        i < functions@.len(),
    ensures
        r == exists|j: int| 0 <= j < i && (#[trigger] functions@.take(i as int)[j]).kotlin_name@ == functions@[i as int].kotlin_name@,
{
    let mut j: usize = 0;
    while j < i
        invariant
            i < functions@.len(),
            j <= i,
            forall|k: int| 0 <= k < j ==> functions@[k].kotlin_name@ != functions@[i as int].kotlin_name@,
        decreases i - j,
    {
        if functions[j].kotlin_name == functions[i].kotlin_name {
            assert(functions@.take(i as int)[j as int] == functions@[j as int]);
            return true;
        }
        j = j + 1;
    }
    assert forall|k: int| 0 <= k < i implies (#[trigger] functions@.take(i as int)[k]).kotlin_name@ != functions@[i as int].kotlin_name@ by {
        assert(functions@.take(i as int)[k] == functions@[k]);
    }
    false
}

fn validate_functions(functions: &Vec<Function>) -> (r: Result<(), String>)
    ensures
        unit_view(r) == first_problem(functions@, function_check()),
{
    let n = functions.len();
    let mut i: usize = 0;
    while i < n
        invariant
            n == functions@.len(),
            i <= n,
            first_problem(functions@.take(i as int), function_check()) is Ok,
        decreases n - i,
    {
        let function = &functions[i];
        proof {
            lemma_problem_extends(functions@, i as int, function_check());
        }
        let own = validate_function(function);
        if let Err(e) = own {
            proof {
                lemma_problem_persists(functions@, i + 1, function_check());
            }
            return Err(e);
        }
        if rust_name_taken(functions, i) {
            proof {
                lemma_problem_persists(functions@, i + 1, function_check());
            }
            return Err(join3("duplicate exported Rust function `", function.rust_name.as_str(), "`"));
        }
        if kotlin_name_taken(functions, i) {
            proof {
                lemma_problem_persists(functions@, i + 1, function_check());
            }
            return Err(join3(
                "exported functions collide on Kotlin name `",
                function.kotlin_name.as_str(),
                "`",
            ));
        }
        i = i + 1;
    }
    proof {
        assert(functions@.take(n as int) =~= functions@);
    }
    Ok(())
}

fn validate_segments(segments: &Vec<String>) -> (r: Result<(), String>)
    ensures
        unit_view(r) == first_problem(views(segments@), segment_check()),
{
    let ghost parts = views(segments@);
    let n = segments.len();
    let mut i: usize = 0;
    while i < n
        invariant
            n == segments@.len(),
            parts == views(segments@),
            i <= n,
            first_problem(parts.take(i as int), segment_check()) is Ok,
        decreases n - i,
    {
        proof {
            lemma_problem_extends(parts, i as int, segment_check());
        }
        let checked = validate_kotlin_identifier(segments[i].as_str(), "package segment");
        if let Err(e) = checked {
            proof {
                lemma_problem_persists(parts, i + 1, segment_check());
            }
            return Err(e);
        }
        i = i + 1;
    }
    proof {
        assert(parts.take(n as int) =~= parts);
    }
    Ok(())
}

/// Check metadata read from JSON before using it to generate code.
///
/// Unlike source discovery, this does not reorder functions or modify metadata.
pub fn validate_module(module: &Module) -> (r: Result<(), String>)
    ensures
        unit_view(r) == check_module(*module),
{
    if module.schema_version != 1 && module.schema_version != SCHEMA_VERSION {
        let mut message = join2(
            "unsupported metadata schema version ",
            decimal_text(module.schema_version).as_str(),
        );
        message.append("; expected 1 or ");
        message.append(decimal_text(SCHEMA_VERSION).as_str());
        return Err(message);
    }
    let segments = split_at_dots(module.package.as_str());
    validate_segments(&segments)?;
    validate_kotlin_identifier(module.class_name.as_str(), "class name")?;
    validate_ascii_identifier(module.library_name.as_str(), "library name")?;
    validate_functions(&module.functions)
}

} // verus!
