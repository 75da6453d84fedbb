//! Properties that relate the library's operations to each other.

use vstd::prelude::*;
use crate::cli::{
    CliArgument, Command, slots_empty, OptionSlots, Scan, command_outcome, complete_request, flag_slot,
    given_request, no_slots, option_positions, request_text, scan_options, slot_get, slot_set,
    well_formed_options,
};
use crate::arrangement::{
    export_part, lemma_exports_gathered, lemma_gather_permutation, lemma_map_permutation,
    lemma_no_problem_when_each_passes, lemma_visits_gathered,
};
use crate::discover::{
    describes, discovered_module, discovery_outcome, export_check, exported_functions,
    function_names, item_visits, items_visits, nested_check, rust_names, type_of, visit_sequence,
};
use crate::order::{
    lemma_increasing_distinct, lemma_sorted_arrangement_unique, sorted_names,
    sorted_names_are_a_permutation, sorted_names_are_sorted,
};
use crate::metadata::{
    Function, Module, Parameter, Type, descriptor, kotlin_text, method_descriptor,
    parameters_descriptor,
};
use crate::names::{
    ascii_lower, ascii_upper, camel_state, capitalized_word, check_ascii, check_kotlin,
    check_rust,
    derive_kotlin_name, join_camel, lower_camel, name_words, nonempty_word, split_underscores,
};
use crate::runtime::{
    char_units, is_high_surrogate, is_low_surrogate, pair_char, utf16_decode, utf16_encode,
};
use crate::syntax::{FnDecl, SourceFile, SourceItem, TypeExpr};
use crate::validate::{
    check_function, check_function_entry, check_module, check_position, first_problem,
    function_check, lemma_no_problem_each,
    segment_check, split_dots,
};

verus! {

/// Every type that source discovery accepts in a position is one that
/// metadata validation accepts in that position: discovery never produces
/// metadata that validation would refuse for its types.
pub proof fn parsed_types_fit_their_position(ty: TypeExpr, is_return: bool, f: Seq<char>)
    requires
        type_of(ty, is_return) is Ok,
    ensures
        check_position(type_of(ty, is_return)->Ok_0, is_return, f) is Ok,
{
}

proof fn lemma_encode_front(c: char, t: Seq<char>)
    ensures
        utf16_encode(seq![c] + t) == char_units(c) + utf16_encode(t),
    decreases t.len(),
{
    if t.len() == 0 {
        assert(seq![c] + t =~= seq![c]);
        assert(seq![c].drop_last() =~= Seq::<char>::empty());
        assert(utf16_encode(Seq::<char>::empty()) =~= Seq::<u16>::empty());
        assert(utf16_encode(seq![c]) =~= utf16_encode(Seq::<char>::empty()) + char_units(c));
        assert(char_units(c) + utf16_encode(t) =~= char_units(c));
    } else {
        assert((seq![c] + t).drop_last() =~= seq![c] + t.drop_last());
        assert((seq![c] + t).last() == t.last());
        lemma_encode_front(c, t.drop_last());
        assert(char_units(c) + utf16_encode(t.drop_last()) + char_units(t.last()) =~= char_units(c)
            + utf16_encode(t));
    }
}

proof fn lemma_char_units_decode(c: char, rest: Seq<u16>)
    requires
        utf16_decode(rest) is Some,
    ensures
        utf16_decode(char_units(c) + rest) == Some(seq![c] + utf16_decode(rest)->Some_0),
{
    let units = char_units(c) + rest;
    let v = c as u32;
    if v < 0x10000 {
        assert(v < 0xD800 || v > 0xDFFF);
        assert(units[0] == v as u16);
        assert(units.drop_first() =~= rest);
        assert(((v as u16) as u32) as char == c);
    } else {
        let high = (0xD800 + (v - 0x10000) / 0x400) as u16;
        let low = (0xDC00 + (v - 0x10000) % 0x400) as u16;
        assert(units[0] == high);
        assert(units[1] == low);
        assert(is_high_surrogate(high));
        assert(is_low_surrogate(low));
        assert(units.skip(2) =~= rest);
        assert(0x10000 + (high - 0xD800) * 0x400 + (low - 0xDC00) == v) by (nonlinear_arith)
            requires
                high == 0xD800 + (v - 0x10000) / 0x400,
                low == 0xDC00 + (v - 0x10000) % 0x400,
                v >= 0x10000,
        ;
        assert(pair_char(high, low) == c);
    }
}

/// Decoding the UTF-16 encoding of any string gives the string back:
/// embedded NULs and supplementary characters survive the JVM boundary.
pub proof fn utf16_roundtrip(s: Seq<char>)
    ensures
        utf16_decode(utf16_encode(s)) == Some(s),
    decreases s.len(),
{
    if s.len() == 0 {
        assert(utf16_encode(s) =~= Seq::<u16>::empty());
    } else {
        let rest = s.drop_first();
        assert(s =~= seq![s[0]] + rest);
        lemma_encode_front(s[0], rest);
        utf16_roundtrip(rest);
        lemma_char_units_decode(s[0], utf16_encode(rest));
        assert(seq![s[0]] + rest =~= s);
    }
}


/// Encoding what UTF-16 decoding gives back yields the very units decoded:
/// a successful decode loses and changes nothing.
pub proof fn utf16_decode_keeps_units(units: Seq<u16>)
    requires
        utf16_decode(units) is Some,
    ensures
        utf16_encode(utf16_decode(units)->Some_0) == units,
    decreases units.len(),
{
    if units.len() > 0 {
        let u = units[0];
        if !is_high_surrogate(u) && !is_low_surrogate(u) {
            let rest = units.drop_first();
            utf16_decode_keeps_units(rest);
            let c = (u as u32) as char;
            lemma_encode_front(c, utf16_decode(rest)->Some_0);
            assert(c as u32 == u as u32);
            assert(char_units(c) =~= seq![u]);
            assert(units =~= seq![u] + rest);
        } else {
            let w = units[1];
            let rest = units.skip(2);
            utf16_decode_keeps_units(rest);
            let c = pair_char(u, w);
            lemma_encode_front(c, utf16_decode(rest)->Some_0);
            let v: int = 0x10000 + (u - 0xD800) * 0x400 + (w - 0xDC00);
            assert(0x10000 <= v <= 0x10FFFF);
            assert(c as u32 == v);
            assert((v - 0x10000) / 0x400 == u - 0xD800 && (v - 0x10000) % 0x400 == w - 0xDC00) by (nonlinear_arith)
                requires
                    v == 0x10000 + (u - 0xD800) * 0x400 + (w - 0xDC00),
                    0xDC00 <= w <= 0xDFFF,
            ;
            assert(char_units(c) =~= seq![u, w]);
            assert(units =~= seq![u, w] + rest);
        }
    }
}

/// Metadata that passes validation names a package made of Kotlin identifiers
/// separated by dots, a Kotlin class name and an ASCII library name.
pub proof fn valid_module_settings(m: Module)
    requires
        check_module(m) is Ok,
    ensures
        forall|i: int|
            0 <= i < split_dots(m.package@).len() ==> check_kotlin(
                #[trigger] split_dots(m.package@)[i],
                "package segment"@,
            ) is Ok,
        check_kotlin(m.class_name@, "class name"@) is Ok,
        check_ascii(m.library_name@, "library name"@) is Ok,
{
    let parts = split_dots(m.package@);
    assert forall|i: int| 0 <= i < parts.len() implies check_kotlin(#[trigger] parts[i], "package segment"@) is Ok by {
        lemma_no_problem_each(parts, i, segment_check());
    }
}

/// In metadata that passes validation, every Kotlin name is derived from its
/// Rust name, and no two functions share a Rust name or a Kotlin name.
pub proof fn valid_module_names(m: Module)
    requires
        check_module(m) is Ok,
    ensures
        forall|k: int|
            0 <= k < m.functions@.len() ==> derive_kotlin_name((#[trigger] m.functions@[k]).rust_name@)
                == Ok::<Seq<char>, Seq<char>>(m.functions@[k].kotlin_name@),
        forall|i: int, j: int|
            0 <= i < j < m.functions@.len() ==> (#[trigger] m.functions@[i]).rust_name@
                != (#[trigger] m.functions@[j]).rust_name@ && m.functions@[i].kotlin_name@
                != m.functions@[j].kotlin_name@,
{
    let fs = m.functions@;
    assert forall|k: int| 0 <= k < fs.len() implies derive_kotlin_name((#[trigger] fs[k]).rust_name@)
        == Ok::<Seq<char>, Seq<char>>(fs[k].kotlin_name@) by {
        lemma_no_problem_each(fs, k, function_check());
        assert(check_function(fs[k]) is Ok);
    }
    assert forall|i: int, j: int| 0 <= i < j < fs.len() implies (#[trigger] fs[i]).rust_name@
        != (#[trigger] fs[j]).rust_name@ && fs[i].kotlin_name@ != fs[j].kotlin_name@ by {
        lemma_no_problem_each(fs, j, function_check());
        assert(fs.take(j)[i] == fs[i]);
    }
}


/// The Kotlin spelling of a Rust function name holds no underscore and does
/// not start with an upper-case ASCII letter.
pub proof fn kotlin_names_are_lower_camel_case(rust_name: Seq<char>)
    ensures
        forall|i: int| 0 <= i < lower_camel(rust_name).len() ==> #[trigger] lower_camel(rust_name)[i] != '_',
        lower_camel(rust_name).len() > 0 ==> !('A' <= lower_camel(rust_name)[0] <= 'Z'),
    decreases rust_name.len(),
{
    if rust_name.len() > 0 {
        let earlier = rust_name.drop_last();
        kotlin_names_are_lower_camel_case(earlier);
        let c = rust_name.last();
        let done = camel_state(earlier).0;
        if c != '_' {
            assert(ascii_lower(c) != '_');
            assert(ascii_upper(c) != '_');
            if done.len() == 0 {
                assert(!('A' <= ascii_lower(c) <= 'Z'));
            }
        }
        assert(forall|i: int| 0 <= i < done.len() ==> lower_camel(rust_name).len() > i ==> lower_camel(rust_name)[i] == done[i]);
    }
}


proof fn lemma_join_camel_empty(words: Seq<Seq<char>>)
    ensures
        (join_camel(words).len() == 0) == (words.len() == 0),
{
    if words.len() > 0 {
        assert(capitalized_word(words.last(), words.len() == 1).len() > 0);
    }
}

proof fn lemma_split_underscores_nonempty(s: Seq<char>)
    ensures
        split_underscores(s).len() >= 1,
    decreases s.len(),
{
    if s.len() > 0 {
        lemma_split_underscores_nonempty(s.drop_last());
    }
}

/// The renaming state in terms of words: the name so far joins the words
/// read so far, and a new word starts exactly when the current piece is empty.
proof fn lemma_camel_state_words(s: Seq<char>)
    ensures
        camel_state(s).0 == join_camel(name_words(s)),
        camel_state(s).1 == (split_underscores(s).last().len() == 0),
    decreases s.len(),
{
    let p = nonempty_word();
    if s.len() == 0 {
        let parts = split_underscores(s);
        assert(parts == seq![Seq::<char>::empty()]);
        assert(parts =~= Seq::<Seq<char>>::empty().push(Seq::<char>::empty()));
        Seq::<Seq<char>>::empty().lemma_filter_push(Seq::<char>::empty(), p);
        reveal(Seq::filter);
        assert(Seq::<Seq<char>>::empty().filter(p) =~= Seq::<Seq<char>>::empty());
        assert(name_words(s) =~= Seq::<Seq<char>>::empty());
    } else {
        let earlier = s.drop_last();
        lemma_camel_state_words(earlier);
        lemma_split_underscores_nonempty(earlier);
        let c = s.last();
        let parts = split_underscores(earlier);
        let front = parts.drop_last();
        let w = parts.last();
        assert(parts =~= front.push(w));
        front.lemma_filter_push(w, p);
        let before = name_words(earlier);
        let done = camel_state(earlier).0;
        lemma_join_camel_empty(before);
        if c == '_' {
            parts.lemma_filter_push(Seq::<char>::empty(), p);
            assert(name_words(s) == before);
        } else {
            let w2 = w.push(c);
            assert(split_underscores(s) =~= front.push(w2));
            front.lemma_filter_push(w2, p);
            let words = name_words(s);
            if w.len() == 0 {
                assert(before == front.filter(p));
                assert(words == before.push(w2));
                assert(words.drop_last() =~= before);
                assert(w2.drop_first() =~= Seq::<char>::empty());
                assert(capitalized_word(w2, words.len() == 1) =~= seq![
                    if done.len() == 0 { ascii_lower(c) } else { ascii_upper(c) },
                ]);
            } else {
                let rest = front.filter(p);
                assert(before == rest.push(w));
                assert(words == rest.push(w2));
                assert(words.drop_last() =~= rest);
                assert(before.drop_last() =~= rest);
                assert(capitalized_word(w2, words.len() == 1) =~= capitalized_word(w, before.len() == 1).push(c));
                assert(join_camel(words) =~= join_camel(before).push(c));
            }
        }
    }
}

/// The Kotlin spelling of a Rust function name is the name's words (the
/// nonempty pieces between its underscores) joined, the first word's first
/// letter lower-cased and every later word's first letter upper-cased, the
/// rest kept; so `_private_value_` becomes `privateValue`.
pub proof fn kotlin_names_join_the_underscore_words(rust_name: Seq<char>)
    ensures
        lower_camel(rust_name) == join_camel(name_words(rust_name)),
        derive_kotlin_name(rust_name) is Ok ==> derive_kotlin_name(rust_name)->Ok_0 == join_camel(
            name_words(rust_name),
        ),
{
    lemma_camel_state_words(rust_name);
}

/// The metadata that the export attribute records for a declaration and the
/// metadata that source discovery lists for it are the same: both describe
/// the declaration, and a declaration determines its description.
pub proof fn descriptions_agree(a: Function, b: Function, f: FnDecl)
    requires
        describes(a, f),
        describes(b, f),
    ensures
        a.rust_name == b.rust_name,
        a.kotlin_name@ == b.kotlin_name@,
        a.parameters@ == b.parameters@,
        a.return_type == b.return_type,
{
}

/// Scanning well-formed pairs fills each option's slot with the position of
/// its value and leaves the others as they were.
proof fn lemma_scan_well_formed(
    args: Seq<CliArgument>,
    generate: bool,
    command: Seq<char>,
    i: int,
    slots: OptionSlots,
)
    requires
        i >= 1,
        well_formed_options(args, generate, i),
        forall|k: int|
            0 <= k <= 4 && (#[trigger] slot_get(slots, k)) is Some ==> !option_positions(args, generate, i).dom().contains(k),
    ensures
        scan_options(args, generate, command, i, slots) matches Ok(Scan::Options(s)) && forall|k: int|
            0 <= k <= 4 ==> #[trigger] slot_get(s, k) == if option_positions(args, generate, i).dom().contains(k) {
                Some(option_positions(args, generate, i)[k])
            } else {
                slot_get(slots, k)
            },
    decreases args.len() - i,
{
    if i < args.len() {
        let flag = args[i].text@;
        let k = flag_slot(flag, generate);
        reveal_strlit("--source");
        reveal_strlit("--package");
        reveal_strlit("--class");
        reveal_strlit("--library");
        reveal_strlit("--out");
        reveal_strlit("--help");
        reveal_strlit("-h");
        assert(k >= 0);
        assert(flag == "--source"@ || flag == "--package"@ || flag == "--class"@ || flag == "--library"@ || flag == "--out"@);
        assert(flag.len() != 6 && flag.len() != 2);
        assert(flag != "--help"@ && flag != "-h"@);
        let next = slot_set(slots, k, (i + 1) as usize);
        let later = option_positions(args, generate, i + 2);
        let here = option_positions(args, generate, i);
        assert(here == later.insert(k, (i + 1) as usize));
        assert forall|j: int| 0 <= j <= 4 && (#[trigger] slot_get(next, j)) is Some implies !later.dom().contains(j) by {
            if j != k {
                assert(slot_get(slots, j) is Some);
                assert(!here.dom().contains(j));
            }
        }
        lemma_scan_well_formed(args, generate, command, i + 2, next);
    }
}

/// Each value of well-formed pairs stands after its flag, and is valid
/// Unicode where the option asks for it.
proof fn lemma_well_formed_values(args: Seq<CliArgument>, generate: bool, i: int)
    requires
        args.len() <= usize::MAX,
        well_formed_options(args, generate, i),
    ensures
        forall|k: int|
            #[trigger] option_positions(args, generate, i).dom().contains(k) ==> {
                &&& 0 <= k <= 4
                &&& i < option_positions(args, generate, i)[k] < args.len()
                &&& (1 <= k <= 3 ==> args[option_positions(args, generate, i)[k] as int].unicode)
            },
    decreases args.len() - i,
{
    if i < args.len() {
        lemma_well_formed_values(args, generate, i + 2);
    }
}

/// A command line of `generate` or `inspect` with its required options given
/// as well-formed flag/value pairs, in any order, is accepted, and the command
/// holds for each option the value that follows its flag.
pub proof fn options_are_read_in_any_order(args: Seq<CliArgument>)
    requires
        complete_request(args),
    ensures
        command_outcome(args) matches Ok(command) && request_text(args, command) == given_request(args),
{
    let generate = args[0].text@ == "generate"@;
    let command = args[0].text@;
    reveal_strlit("generate");
    reveal_strlit("inspect");
    reveal_strlit("--help");
    reveal_strlit("-h");
    reveal_strlit("--version");
    reveal_strlit("-V");
    assert(command != "--help"@ && command != "-h"@ && command != "--version"@ && command != "-V"@);
    lemma_scan_well_formed(args, generate, command, 1, no_slots());
    lemma_well_formed_values(args, generate, 1);
    let given = option_positions(args, generate, 1);
    assert(given.dom().contains(0) && given.dom().contains(1) && given.dom().contains(2) && given.dom().contains(3));
    let s = scan_options(args, generate, command, 1, no_slots())->Ok_0->Options_0;
    assert(slot_get(s, 0) == Some(given[0]));
    assert(slot_get(s, 1) == Some(given[1]));
    assert(slot_get(s, 2) == Some(given[2]));
    assert(slot_get(s, 3) == Some(given[3]));
    if generate {
        assert(given.dom().contains(4));
        assert(slot_get(s, 4) == Some(given[4]));
    }
}

/// Two complete command lines that give the same command and the same value
/// for each option, whatever the order of their flag/value pairs, ask for the
/// same thing.
pub proof fn option_order_does_not_matter(a: Seq<CliArgument>, b: Seq<CliArgument>)
    requires
        complete_request(a),
        complete_request(b),
        a[0].text@ == b[0].text@,
        given_request(a) == given_request(b),
    ensures
        command_outcome(a) matches Ok(x) && command_outcome(b) matches Ok(y) && request_text(a, x)
            == request_text(b, y),
{
    options_are_read_in_any_order(a);
    options_are_read_in_any_order(b);
}

/// Whether two modules say the same: the same settings and, in the same
/// order, functions with the same names, parameters and return types.
pub open spec fn same_module(m: Module, n: Module) -> bool {
    &&& m.schema_version == n.schema_version
    &&& m.package@ == n.package@
    &&& m.class_name@ == n.class_name@
    &&& m.library_name@ == n.library_name@
    &&& m.functions@.len() == n.functions@.len()
    &&& forall|k: int|
        0 <= k < m.functions@.len() ==> {
            &&& (#[trigger] m.functions@[k]).rust_name == n.functions@[k].rust_name
            &&& m.functions@[k].kotlin_name@ == n.functions@[k].kotlin_name@
            &&& m.functions@[k].parameters@ == n.functions@[k].parameters@
            &&& m.functions@[k].return_type == n.functions@[k].return_type
        }
}

/// The functions that discovery lists are the exported declarations, each
/// described once: as many, and with the same Rust names.
pub proof fn discovered_functions_are_the_exports(
    file: SourceFile,
    package: Seq<char>,
    class_name: Seq<char>,
    library_name: Seq<char>,
    m: Module,
)
    requires
        discovered_module(file, package, class_name, library_name, m),
    ensures
        m.functions@.len() == exported_functions(file.items@).len(),
        function_names(m.functions@).to_multiset() == rust_names(exported_functions(file.items@)).to_multiset(),
{
    let names = rust_names(exported_functions(file.items@));
    sorted_names_are_a_permutation(names);
    crate::order::lemma_sorted_names_len(names);
}

/// Discovery does not depend on the order of a file's top-level items: a
/// file whose items are those of an accepted file in another order is
/// accepted too, and gives the same module.
#[verifier::spinoff_prover]
#[verifier::rlimit(60)]
pub proof fn discovery_ignores_item_order(
    file: SourceFile,
    other: SourceFile,
    package: Seq<char>,
    class_name: Seq<char>,
    library_name: Seq<char>,
    m: Module,
    n: Module,
)
    requires
        other.attrs@ == file.attrs@,
        other.attrs_visited@ == file.attrs_visited@,
        other.items@.to_multiset() == file.items@.to_multiset(),
        discovered_module(file, package, class_name, library_name, m),
    ensures
        discovery_outcome(other, package, class_name, library_name) is Ok,
        discovered_module(other, package, class_name, library_name, n) ==> same_module(m, n),
{
    broadcast use vstd::seq_lib::group_to_multiset_ensures;

    let items = file.items@;
    let moved = other.items@;
    // Each item passes its own export check.
    assert forall|i: int| 0 <= i < moved.len() implies (#[trigger] export_check()(moved[i], moved.take(i))) is Ok by {
        assert(moved.contains(moved[i]));
        assert(items.to_multiset().count(moved[i]) > 0);
        assert(items.contains(moved[i]));
        let j = choose|j: int| 0 <= j < items.len() && items[j] == moved[i];
        lemma_no_problem_each(items, j, export_check());
    }
    lemma_no_problem_when_each_passes(moved, export_check());
    // Every attribute inspected for misplaced exports is inspected in both.
    let visits = visit_sequence(file);
    let moved_visits = visit_sequence(other);
    let front = file.attrs_visited@;
    lemma_visits_gathered(items);
    lemma_visits_gathered(moved);
    lemma_gather_permutation(moved, items, |item: SourceItem| item_visits(item));
    assert forall|i: int| 0 <= i < moved_visits.len() implies (#[trigger] nested_check()(moved_visits[i], moved_visits.take(i))) is Ok by {
        if i < front.len() {
            assert(moved_visits[i] == visits[i]);
            lemma_no_problem_each(visits, i, nested_check());
        } else {
            let later = items_visits(moved);
            let a = moved_visits[i];
            assert(a == later[i - front.len()]);
            assert(later.contains(a));
            assert(later.to_multiset().count(a) > 0);
            assert(items_visits(items).to_multiset().count(a) > 0);
            assert(items_visits(items).contains(a));
            let j = choose|j: int| 0 <= j < items_visits(items).len() && items_visits(items)[j] == a;
            assert(visits[front.len() + j] == a);
            lemma_no_problem_each(visits, front.len() + j, nested_check());
        }
    }
    lemma_no_problem_when_each_passes(moved_visits, nested_check());
    // The same declarations are exported, and so the same names.
    let decls = exported_functions(items);
    let moved_decls = exported_functions(moved);
    lemma_exports_gathered(items);
    lemma_exports_gathered(moved);
    lemma_gather_permutation(moved, items, |item: SourceItem| export_part(item));
    assert(moved_decls.len() == moved_decls.to_multiset().len());
    assert(decls.len() == decls.to_multiset().len());
    let names = rust_names(decls);
    let moved_names = rust_names(moved_decls);
    lemma_map_permutation(moved_decls, decls, |d: FnDecl| d.sig.ident@);
    sorted_names_are_a_permutation(names);
    sorted_names_are_a_permutation(moved_names);
    sorted_names_are_sorted(moved_names);
    lemma_sorted_arrangement_unique(sorted_names(names), sorted_names(moved_names));
    assert(discovery_outcome(other, package, class_name, library_name) == discovery_outcome(
        file,
        package,
        class_name,
        library_name,
    ));
    if discovered_module(other, package, class_name, library_name, n) {
        let fm = m.functions@;
        let fnn = n.functions@;
        assert(function_names(fm) == function_names(fnn));
        assert(fm.len() == function_names(fm).len());
        assert(fnn.len() == function_names(fnn).len());
        // Different exported declarations have different names.
        lemma_increasing_distinct(function_names(fm));
        function_names(fm).lemma_multiset_has_no_duplicates();
        names.lemma_multiset_has_no_duplicates_conv();
        assert forall|k: int| 0 <= k < fm.len() implies {
            &&& (#[trigger] fm[k]).rust_name == fnn[k].rust_name
            &&& fm[k].kotlin_name@ == fnn[k].kotlin_name@
            &&& fm[k].parameters@ == fnn[k].parameters@
            &&& fm[k].return_type == fnn[k].return_type
        } by {
            let j1 = choose|j: int| 0 <= j < decls.len() && describes(fm[k], decls[j]);
            let j2 = choose|j: int| 0 <= j < moved_decls.len() && describes(fnn[k], moved_decls[j]);
            let d = moved_decls[j2];
            assert(moved_decls.contains(d));
            assert(decls.to_multiset().count(d) > 0);
            assert(decls.contains(d));
            let j3 = choose|j: int| 0 <= j < decls.len() && decls[j] == d;
            assert(function_names(fm)[k] == fm[k].rust_name@);
            assert(function_names(fnn)[k] == fnn[k].rust_name@);
            assert(names[j1] == decls[j1].sig.ident@);
            assert(names[j3] == decls[j3].sig.ident@);
            assert(j1 == j3);
            descriptions_agree(fm[k], fnn[k], d);
        }
    }
}

pub open spec fn rust_name_list(fs: Seq<Function>) -> Seq<Seq<char>> {
    fs.map_values(|f: Function| f.rust_name@)
}

pub open spec fn kotlin_name_list(fs: Seq<Function>) -> Seq<Seq<char>> {
    fs.map_values(|f: Function| f.kotlin_name@)
}

/// The functions of a module pass validation exactly when each passes on its
/// own and no two share a Rust name or a Kotlin name.
pub proof fn functions_pass_validation_when(fs: Seq<Function>)
    ensures
        (first_problem(fs, function_check()) is Ok) == {
            &&& forall|k: int| 0 <= k < fs.len() ==> check_function(#[trigger] fs[k]) is Ok
            &&& rust_name_list(fs).no_duplicates()
            &&& kotlin_name_list(fs).no_duplicates()
        },
{
    let rs = rust_name_list(fs);
    let ks = kotlin_name_list(fs);
    if first_problem(fs, function_check()) is Ok {
        assert forall|k: int| 0 <= k < fs.len() implies check_function(#[trigger] fs[k]) is Ok by {
            lemma_no_problem_each(fs, k, function_check());
        }
        assert forall|i: int, j: int| 0 <= i < rs.len() && 0 <= j < rs.len() && i != j implies rs[i] != rs[j] by {
            let (a, b) = if i < j { (i, j) } else { (j, i) };
            lemma_no_problem_each(fs, b, function_check());
            assert(fs.take(b)[a] == fs[a]);
        }
        assert forall|i: int, j: int| 0 <= i < ks.len() && 0 <= j < ks.len() && i != j implies ks[i] != ks[j] by {
            let (a, b) = if i < j { (i, j) } else { (j, i) };
            lemma_no_problem_each(fs, b, function_check());
            assert(fs.take(b)[a] == fs[a]);
        }
    }
    if (forall|k: int| 0 <= k < fs.len() ==> check_function(#[trigger] fs[k]) is Ok) && rs.no_duplicates()
        && ks.no_duplicates() {
        assert forall|i: int| 0 <= i < fs.len() implies (#[trigger] function_check()(fs[i], fs.take(i))) is Ok by {
            let earlier = fs.take(i);
            assert forall|j: int| 0 <= j < earlier.len() implies (#[trigger] earlier[j]).rust_name@ != fs[i].rust_name@
                && earlier[j].kotlin_name@ != fs[i].kotlin_name@ by {
                assert(earlier[j] == fs[j]);
                assert(rs[j] != rs[i]);
                assert(ks[j] != ks[i]);
            }
            assert(check_function_entry(fs[i], earlier) is Ok);
        }
        lemma_no_problem_when_each_passes(fs, function_check());
    }
}

/// Rearranging a list keeps it free of repeats.
proof fn lemma_rearranged_no_duplicates(a: Seq<Seq<char>>, b: Seq<Seq<char>>)
    requires
        a.to_multiset() == b.to_multiset(),
        a.no_duplicates(),
    ensures
        b.no_duplicates(),
{
    a.lemma_multiset_has_no_duplicates();
    b.lemma_multiset_has_no_duplicates_conv();
}

/// Rearranging passing functions keeps them passing.
proof fn lemma_rearranged_functions_pass(a: Seq<Function>, b: Seq<Function>)
    requires
        a.to_multiset() == b.to_multiset(),
        first_problem(a, function_check()) is Ok,
    ensures
        first_problem(b, function_check()) is Ok,
{
    broadcast use vstd::seq_lib::group_to_multiset_ensures;

    functions_pass_validation_when(a);
    functions_pass_validation_when(b);
    assert forall|k: int| 0 <= k < b.len() implies check_function(#[trigger] b[k]) is Ok by {
        assert(b.contains(b[k]));
        assert(a.to_multiset().count(b[k]) > 0);
        assert(a.contains(b[k]));
    }
    lemma_map_permutation(a, b, |f: Function| f.rust_name@);
    lemma_map_permutation(a, b, |f: Function| f.kotlin_name@);
    lemma_rearranged_no_duplicates(rust_name_list(a), rust_name_list(b));
    lemma_rearranged_no_duplicates(kotlin_name_list(a), kotlin_name_list(b));
}

/// Validation does not depend on the order of a module's functions: metadata
/// need not be sorted, and a module passes exactly when any rearrangement of
/// its functions passes.
pub proof fn validation_ignores_function_order(m: Module, n: Module)
    requires
        n.schema_version == m.schema_version,
        n.package@ == m.package@,
        n.class_name@ == m.class_name@,
        n.library_name@ == m.library_name@,
        n.functions@.to_multiset() == m.functions@.to_multiset(),
    ensures
        (check_module(m) is Ok) == (check_module(n) is Ok),
{
    if first_problem(m.functions@, function_check()) is Ok {
        lemma_rearranged_functions_pass(m.functions@, n.functions@);
    }
    if first_problem(n.functions@, function_check()) is Ok {
        lemma_rearranged_functions_pass(n.functions@, m.functions@);
    }
}

/// The element type that an owned array (`Vec<..>`) or a borrowed slice
/// (`&[..]`) type holds.
pub open spec fn array_element(t: Type) -> Option<Type> {
    match t {
        Type::ByteArray | Type::ByteSlice => Some(Type::I8),
        Type::IntArray | Type::IntSlice => Some(Type::I32),
        Type::LongArray | Type::LongSlice => Some(Type::I64),
        Type::FloatArray | Type::FloatSlice => Some(Type::F32),
        Type::DoubleArray | Type::DoubleSlice => Some(Type::F64),
        Type::BooleanArray | Type::BooleanSlice => Some(Type::Bool),
        _ => None,
    }
}

/// Whether a type is one of the JVM's primitive scalars.
pub open spec fn primitive(t: Type) -> bool {
    match t {
        Type::Bool | Type::I8 | Type::I16 | Type::I32 | Type::I64 | Type::F32 | Type::F64 => true,
        _ => false,
    }
}

/// The `java.lang` class that boxes a primitive: its Kotlin name, except that
/// `Int` is boxed by `Integer`.
pub open spec fn boxing_class(t: Type) -> Seq<char> {
    if t is I32 {
        "Integer"@
    } else {
        kotlin_text(t)
    }
}

/// An array or slice type is the Kotlin primitive array of its element: its
/// Kotlin name is the element's followed by `Array`, its JVM descriptor is
/// `[` followed by the element's, and owned and borrowed forms agree. Being
/// a reference already, it is described the same way when nullable.
pub proof fn array_types_follow_their_element(t: Type)
    requires
        array_element(t) is Some,
    ensures
        kotlin_text(t) == kotlin_text(array_element(t)->Some_0) + "Array"@,
        descriptor(t) == "["@ + descriptor(array_element(t)->Some_0),
        descriptor(Type::Option(Box::new(t))) == descriptor(t),
{
    reveal_strlit("Array");
    reveal_strlit("[");
    match t {
        Type::ByteArray | Type::ByteSlice => {
            reveal_strlit("Byte");
            reveal_strlit("ByteArray");
            reveal_strlit("B");
            reveal_strlit("[B");
            assert(kotlin_text(t) =~= "Byte"@ + "Array"@);
            assert(descriptor(t) =~= "["@ + "B"@);
        },
        Type::IntArray | Type::IntSlice => {
            reveal_strlit("Int");
            reveal_strlit("IntArray");
            reveal_strlit("I");
            reveal_strlit("[I");
            assert(kotlin_text(t) =~= "Int"@ + "Array"@);
            assert(descriptor(t) =~= "["@ + "I"@);
        },
        Type::LongArray | Type::LongSlice => {
            reveal_strlit("Long");
            reveal_strlit("LongArray");
            reveal_strlit("J");
            reveal_strlit("[J");
            assert(kotlin_text(t) =~= "Long"@ + "Array"@);
            assert(descriptor(t) =~= "["@ + "J"@);
        },
        Type::FloatArray | Type::FloatSlice => {
            reveal_strlit("Float");
            reveal_strlit("FloatArray");
            reveal_strlit("F");
            reveal_strlit("[F");
            assert(kotlin_text(t) =~= "Float"@ + "Array"@);
            assert(descriptor(t) =~= "["@ + "F"@);
        },
        Type::DoubleArray | Type::DoubleSlice => {
            reveal_strlit("Double");
            reveal_strlit("DoubleArray");
            reveal_strlit("D");
            reveal_strlit("[D");
            assert(kotlin_text(t) =~= "Double"@ + "Array"@);
            assert(descriptor(t) =~= "["@ + "D"@);
        },
        Type::BooleanArray | Type::BooleanSlice => {
            reveal_strlit("Boolean");
            reveal_strlit("BooleanArray");
            reveal_strlit("Z");
            reveal_strlit("[Z");
            assert(kotlin_text(t) =~= "Boolean"@ + "Array"@);
            assert(descriptor(t) =~= "["@ + "Z"@);
        },
        _ => {},
    }
}

/// A nullable primitive is passed as the `java.lang` class that boxes it.
pub proof fn nullable_primitives_are_boxed(t: Type)
    requires
        primitive(t),
    ensures
        descriptor(Type::Option(Box::new(t))) == "Ljava/lang/"@ + boxing_class(t) + ";"@,
{
    reveal_strlit("Ljava/lang/");
    reveal_strlit(";");
    match t {
        Type::Bool => {
            reveal_strlit("Boolean");
            reveal_strlit("Ljava/lang/Boolean;");
            assert(descriptor(Type::Option(Box::new(t))) =~= "Ljava/lang/"@ + "Boolean"@ + ";"@);
        },
        Type::I8 => {
            reveal_strlit("Byte");
            reveal_strlit("Ljava/lang/Byte;");
            assert(descriptor(Type::Option(Box::new(t))) =~= "Ljava/lang/"@ + "Byte"@ + ";"@);
        },
        Type::I16 => {
            reveal_strlit("Short");
            reveal_strlit("Ljava/lang/Short;");
            assert(descriptor(Type::Option(Box::new(t))) =~= "Ljava/lang/"@ + "Short"@ + ";"@);
        },
        Type::I32 => {
            reveal_strlit("Integer");
            reveal_strlit("Ljava/lang/Integer;");
            assert(descriptor(Type::Option(Box::new(t))) =~= "Ljava/lang/"@ + "Integer"@ + ";"@);
        },
        Type::I64 => {
            reveal_strlit("Long");
            reveal_strlit("Ljava/lang/Long;");
            assert(descriptor(Type::Option(Box::new(t))) =~= "Ljava/lang/"@ + "Long"@ + ";"@);
        },
        Type::F32 => {
            reveal_strlit("Float");
            reveal_strlit("Ljava/lang/Float;");
            assert(descriptor(Type::Option(Box::new(t))) =~= "Ljava/lang/"@ + "Float"@ + ";"@);
        },
        Type::F64 => {
            reveal_strlit("Double");
            reveal_strlit("Ljava/lang/Double;");
            assert(descriptor(Type::Option(Box::new(t))) =~= "Ljava/lang/"@ + "Double"@ + ";"@);
        },
        _ => {},
    }
}

/// Different primitives become different types when nullable: no two share a
/// boxing class, and none is boxed as its own primitive descriptor.
pub proof fn nullable_primitives_stay_distinct(t: Type, u: Type)
    requires
        primitive(t),
        primitive(u),
        t != u,
    ensures
        descriptor(Type::Option(Box::new(t))) != descriptor(Type::Option(Box::new(u))),
        descriptor(Type::Option(Box::new(t))) != descriptor(t),
{
    nullable_primitives_are_boxed(t);
    nullable_primitives_are_boxed(u);
    reveal_strlit("Ljava/lang/");
    reveal_strlit("Boolean");
    reveal_strlit("Byte");
    reveal_strlit("Short");
    reveal_strlit("Integer");
    reveal_strlit("Long");
    reveal_strlit("Float");
    reveal_strlit("Double");
    reveal_strlit("Z");
    reveal_strlit("B");
    reveal_strlit("S");
    reveal_strlit("I");
    reveal_strlit("J");
    reveal_strlit("F");
    reveal_strlit("D");
    reveal_strlit(";");
    let a = descriptor(Type::Option(Box::new(t)));
    let b = descriptor(Type::Option(Box::new(u)));
    let x = boxing_class(t);
    let y = boxing_class(u);
    assert(a[11] == x[0] && b[11] == y[0]);
    assert(a.len() == x.len() + 12 && b.len() == y.len() + 12);
    assert(x[0] != y[0] || x.len() != y.len());
    assert(a.len() > 1 && descriptor(t).len() == 1);
}

/// Different primitives have different Kotlin names and different one-letter
/// JVM descriptors.
pub proof fn primitives_are_told_apart(t: Type, u: Type)
    requires
        primitive(t),
        primitive(u),
        t != u,
    ensures
        kotlin_text(t) != kotlin_text(u),
        descriptor(t) != descriptor(u),
        descriptor(t).len() == 1,
{
    reveal_strlit("Boolean");
    reveal_strlit("Byte");
    reveal_strlit("Short");
    reveal_strlit("Int");
    reveal_strlit("Long");
    reveal_strlit("Float");
    reveal_strlit("Double");
    reveal_strlit("Z");
    reveal_strlit("B");
    reveal_strlit("S");
    reveal_strlit("I");
    reveal_strlit("J");
    reveal_strlit("F");
    reveal_strlit("D");
    assert(kotlin_text(t)[0] != kotlin_text(u)[0] || kotlin_text(t).len() != kotlin_text(u).len());
    assert(descriptor(t)[0] != descriptor(u)[0]);
}

/// A function's JVM method descriptor is its parameters' type descriptors, in
/// order, in parentheses, followed by exactly the descriptor of its return
/// type.
pub proof fn method_descriptor_parts(f: Function)
    ensures
        method_descriptor(f) == "("@ + parameters_descriptor(f.parameters@) + ")"@ + descriptor(f.return_type),
        parameters_descriptor(Seq::<Parameter>::empty()) == Seq::<char>::empty(),
        forall|ps: Seq<Parameter>, p: Parameter| #[trigger] parameters_descriptor(ps.push(p)) == parameters_descriptor(ps) + descriptor(p.ty),
{
    assert forall|ps: Seq<Parameter>, p: Parameter| #[trigger] parameters_descriptor(ps.push(p)) == parameters_descriptor(ps) + descriptor(p.ty) by {
        assert(ps.push(p).drop_last() =~= ps);
    }
}

/// Kotlin's hard keywords are never accepted as Kotlin names.
pub proof fn kotlin_hard_keywords_are_refused(name: Seq<char>, kind: Seq<char>)
    requires
        name == "as"@ || name == "break"@ || name == "class"@ || name == "continue"@ || name == "do"@
            || name == "else"@ || name == "false"@ || name == "for"@ || name == "fun"@ || name == "if"@
            || name == "in"@ || name == "interface"@ || name == "is"@ || name == "null"@ || name == "object"@
            || name == "package"@ || name == "return"@ || name == "super"@ || name == "this"@
            || name == "throw"@ || name == "true"@ || name == "try"@ || name == "typealias"@
            || name == "typeof"@ || name == "val"@ || name == "var"@ || name == "when"@ || name == "while"@,
    ensures
        check_kotlin(name, kind) is Err,
{
}

/// A Rust function whose Kotlin spelling is a method that every JVM object
/// inherits from `java.lang.Object` is refused.
pub proof fn inherited_object_methods_are_refused(rust_name: Seq<char>)
    requires
        lower_camel(rust_name) == "equals"@ || lower_camel(rust_name) == "hashCode"@
            || lower_camel(rust_name) == "toString"@ || lower_camel(rust_name) == "clone"@
            || lower_camel(rust_name) == "finalize"@ || lower_camel(rust_name) == "getClass"@
            || lower_camel(rust_name) == "notify"@ || lower_camel(rust_name) == "notifyAll"@
            || lower_camel(rust_name) == "wait"@,
    ensures
        derive_kotlin_name(rust_name) is Err,
{
}

/// After `generate` or `inspect`, either spelling of help given by itself
/// asks for help.
pub proof fn help_after_a_command(args: Seq<CliArgument>)
    requires
        args.len() == 2,
        args[0].unicode,
        args[1].unicode,
        args[0].text@ == "generate"@ || args[0].text@ == "inspect"@,
        args[1].text@ == "--help"@ || args[1].text@ == "-h"@,
    ensures
        command_outcome(args) matches Ok(Command::Help),
{
    reveal_strlit("generate");
    reveal_strlit("inspect");
    reveal_strlit("--help");
    reveal_strlit("-h");
    reveal_strlit("--version");
    reveal_strlit("-V");
    let c = args[0].text@;
    assert(c != "--help"@ && c != "-h"@ && c != "--version"@ && c != "-V"@);
    assert(slots_empty(no_slots()));
}

/// Either spelling of help or of version, given alone, asks for it.
pub proof fn help_and_version_alone(args: Seq<CliArgument>)
    requires
        args.len() == 1,
        args[0].unicode,
        args[0].text@ == "--help"@ || args[0].text@ == "-h"@ || args[0].text@ == "--version"@
            || args[0].text@ == "-V"@,
    ensures
        args[0].text@ == "--help"@ || args[0].text@ == "-h"@ ==> command_outcome(args) matches Ok(Command::Help),
        args[0].text@ == "--version"@ || args[0].text@ == "-V"@ ==> command_outcome(args) matches Ok(Command::Version),
{
    reveal_strlit("--help");
    reveal_strlit("-h");
    reveal_strlit("--version");
    reveal_strlit("-V");
    assert("-V"@[1] != "-h"@[1]);
    assert("-V"@ != "-h"@);
    assert("--version"@.len() != "--help"@.len());
}

} // verus!
