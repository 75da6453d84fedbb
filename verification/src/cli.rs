//! Command-line parsing for the `ketox` tool.

use vstd::prelude::*;
use crate::text::{join2, join3, owned, same_text};

verus! {

/// One command-line argument: its text (invalid Unicode replaced by U+FFFD)
/// and whether it was valid Unicode.
pub struct CliArgument {
    pub text: String,
    pub unicode: bool,
}

/// The settings shared by both commands; `source` is the position of the
/// argument that names the Rust source file.
pub struct Configuration {
    pub source: usize,
    pub package: String,
    pub class_name: String,
    pub library_name: String,
}

/// What the command line asks for; `Generate` also holds the position of the
/// argument that names the output directory.
pub enum Command {
    Generate(Configuration, usize),
    Inspect(Configuration),
    Help,
    Version,
}

/// The positions of the value arguments of the options seen so far.
pub struct OptionSlots {
    pub source: Option<usize>,
    pub package: Option<usize>,
    pub class_name: Option<usize>,
    pub library: Option<usize>,
    pub out: Option<usize>,
}

/// The result of scanning the options: a request for help, or the values.
pub enum Scan {
    Help,
    Options(OptionSlots),
}

pub open spec fn no_slots() -> OptionSlots {
    OptionSlots { source: None, package: None, class_name: None, library: None, out: None }
}

pub open spec fn slots_empty(s: OptionSlots) -> bool {
    s.source is None && s.package is None && s.class_name is None && s.library is None
        && s.out is None
}

/// Which option a flag names: 0 `--source`, 1 `--package`, 2 `--class`,
/// 3 `--library`, 4 `--out` (only for `generate`), otherwise -1.
pub open spec fn flag_slot(flag: Seq<char>, generate: bool) -> int {
    if flag == "--source"@ {
        0
    } else if flag == "--package"@ {
        1
    } else if flag == "--class"@ {
        2
    } else if flag == "--library"@ {
        3
    } else if generate && flag == "--out"@ {
        4
    } else {
        -1
    }
}

pub open spec fn slot_get(s: OptionSlots, k: int) -> Option<usize> {
    if k == 0 {
        s.source
    } else if k == 1 {
        s.package
    } else if k == 2 {
        s.class_name
    } else if k == 3 {
        s.library
    } else {
        s.out
    }
}

pub open spec fn slot_set(s: OptionSlots, k: int, v: usize) -> OptionSlots {
    if k == 0 {
        OptionSlots { source: Some(v), ..s }
    } else if k == 1 {
        OptionSlots { package: Some(v), ..s }
    } else if k == 2 {
        OptionSlots { class_name: Some(v), ..s }
    } else if k == 3 {
        OptionSlots { library: Some(v), ..s }
    } else {
        OptionSlots { out: Some(v), ..s }
    }
}

pub open spec fn starts_with_dashes(s: Seq<char>) -> bool {
    s.len() >= 2 && s[0] == '-' && s[1] == '-'
}

/// Scanning the options from position `i` on, given the values seen before.
pub open spec fn scan_options(
    args: Seq<CliArgument>,
    generate: bool,
    command: Seq<char>,
    i: int,
    slots: OptionSlots,
) -> Result<Scan, Seq<char>>
    decreases args.len() - i,
{
    if i < 0 || i >= args.len() {
        Ok(Scan::Options(slots))
    } else {
        let flag = args[i].text@;
        let k = flag_slot(flag, generate);
        if !args[i].unicode {
            Err("option names must contain valid Unicode"@)
        } else if flag == "--help"@ || flag == "-h"@ {
            if !slots_empty(slots) || i + 1 < args.len() {
                Err("use help by itself: ketox --help"@)
            } else {
                Ok(Scan::Help)
            }
        } else if k < 0 {
            Err("unknown option '"@ + flag + "' for "@ + command + "; run ketox --help"@)
        } else if slot_get(slots, k) is Some {
            Err("option "@ + flag + " was specified more than once"@)
        } else if i + 1 >= args.len() || args[i + 1].text@.len() == 0 || starts_with_dashes(
            args[i + 1].text@,
        ) {
            Err("missing value for "@ + flag)
        } else {
            scan_options(args, generate, command, i + 2, slot_set(slots, k, (i + 1) as usize))
        }
    }
}

pub open spec fn missing_option(flag: Seq<char>) -> Seq<char> {
    "missing required option "@ + flag + "; run ketox --help"@
}

pub open spec fn not_unicode(flag: Seq<char>) -> Seq<char> {
    flag + " must contain valid Unicode"@
}

/// The command described by the option values, or the first missing or
/// invalid one: `--source`, `--package`, `--class`, `--library`, then `--out`.
pub open spec fn assemble(args: Seq<CliArgument>, generate: bool, s: OptionSlots) -> Result<
    Command,
    Seq<char>,
> {
    if s.source is None {
        Err(missing_option("--source"@))
    } else if s.package is None {
        Err(missing_option("--package"@))
    } else if !args[s.package->Some_0 as int].unicode {
        Err(not_unicode("--package"@))
    } else if s.class_name is None {
        Err(missing_option("--class"@))
    } else if !args[s.class_name->Some_0 as int].unicode {
        Err(not_unicode("--class"@))
    } else if s.library is None {
        Err(missing_option("--library"@))
    } else if !args[s.library->Some_0 as int].unicode {
        Err(not_unicode("--library"@))
    } else {
        let configuration = Configuration {
            source: s.source->Some_0,
            package: args[s.package->Some_0 as int].text,
            class_name: args[s.class_name->Some_0 as int].text,
            library_name: args[s.library->Some_0 as int].text,
        };
        if !generate {
            Ok(Command::Inspect(configuration))
        } else if s.out is None {
            Err(missing_option("--out"@))
        } else {
            Ok(Command::Generate(configuration, s.out->Some_0))
        }
    }
}

/// What a command line (without the program name) asks for, or why it is refused.
pub open spec fn command_outcome(args: Seq<CliArgument>) -> Result<Command, Seq<char>> {
    if args.len() == 0 {
        Ok(Command::Help)
    } else if !args[0].unicode {
        Err("command must contain valid Unicode"@)
    } else {
        let c = args[0].text@;
        if c == "--help"@ || c == "-h"@ || c == "--version"@ || c == "-V"@ {
            if args.len() > 1 {
                Err("unexpected arguments after "@ + c)
            } else if c == "--help"@ || c == "-h"@ {
                Ok(Command::Help)
            } else {
                Ok(Command::Version)
            }
        } else if c != "generate"@ && c != "inspect"@ {
            Err("unknown command '"@ + c + "'; run ketox --help"@)
        } else {
            match scan_options(args, c == "generate"@, c, 1, no_slots()) {
                Err(e) => Err(e),
                Ok(Scan::Help) => Ok(Command::Help),
                Ok(Scan::Options(s)) => assemble(args, c == "generate"@, s),
            }
        }
    }
}

/// Where the value of each option stands, by the option's number (see
/// `flag_slot`), for the flag/value pairs from position `i` on.
pub open spec fn option_positions(args: Seq<CliArgument>, generate: bool, i: int) -> Map<int, usize>
    decreases args.len() - i,
{
    if i < 0 || i + 1 >= args.len() {
        Map::empty()
    } else {
        option_positions(args, generate, i + 2).insert(flag_slot(args[i].text@, generate), (i + 1) as usize)
    }
}

/// Flag/value pairs from position `i` to the end: each flag names an option
/// of the command and is given once, and each value is nonempty, does not
/// start with `--`, and is valid Unicode unless it names a path.
pub open spec fn well_formed_options(args: Seq<CliArgument>, generate: bool, i: int) -> bool
    decreases args.len() - i,
{
    if i < 0 {
        false
    } else if i >= args.len() {
        i == args.len()
    } else {
        let k = flag_slot(args[i].text@, generate);
        &&& i + 1 < args.len()
        &&& args[i].unicode
        &&& k >= 0
        &&& !option_positions(args, generate, i + 2).dom().contains(k)
        &&& args[i + 1].text@.len() > 0
        &&& !starts_with_dashes(args[i + 1].text@)
        &&& (1 <= k <= 3 ==> args[i + 1].unicode)
        &&& well_formed_options(args, generate, i + 2)
    }
}

/// A command line of `generate` or `inspect` followed by well-formed
/// flag/value pairs that give every option the command requires.
pub open spec fn complete_request(args: Seq<CliArgument>) -> bool {
    let generate = args[0].text@ == "generate"@;
    let given = option_positions(args, generate, 1).dom();
    &&& 1 <= args.len() <= usize::MAX
    &&& args[0].unicode
    &&& (generate || args[0].text@ == "inspect"@)
    &&& well_formed_options(args, generate, 1)
    &&& given.contains(0) && given.contains(1) && given.contains(2) && given.contains(3)
    &&& (generate ==> given.contains(4))
}

/// What a command asks for in plain text: whether it generates, the texts of
/// the source, package, class and library values, and that of the output
/// directory (empty for `inspect`).
pub open spec fn request_text(args: Seq<CliArgument>, command: Command) -> (
    bool,
    Seq<char>,
    Seq<char>,
    Seq<char>,
    Seq<char>,
    Seq<char>,
) {
    match command {
        Command::Generate(c, out) => (
            true,
            args[c.source as int].text@,
            c.package@,
            c.class_name@,
            c.library_name@,
            args[out as int].text@,
        ),
        Command::Inspect(c) => (
            false,
            args[c.source as int].text@,
            c.package@,
            c.class_name@,
            c.library_name@,
            Seq::empty(),
        ),
        _ => (false, Seq::empty(), Seq::empty(), Seq::empty(), Seq::empty(), Seq::empty()),
    }
}

/// The request that the pairs of a complete command line give, read off the
/// pairs themselves.
pub open spec fn given_request(args: Seq<CliArgument>) -> (
    bool,
    Seq<char>,
    Seq<char>,
    Seq<char>,
    Seq<char>,
    Seq<char>,
) {
    let generate = args[0].text@ == "generate"@;
    let at = option_positions(args, generate, 1);
    (
        generate,
        args[at[0] as int].text@,
        args[at[1] as int].text@,
        args[at[2] as int].text@,
        args[at[3] as int].text@,
        if generate { args[at[4] as int].text@ } else { Seq::empty() },
    )
}

pub open spec fn command_view(r: Result<Command, String>) -> Result<Command, Seq<char>> {
    match r {
        Ok(c) => Ok(c),
        Err(e) => Err(e@),
    }
}

fn flag_position(flag: &str, generate: bool) -> (r: i8)
    ensures
        r as int == flag_slot(flag@, generate),
{
    if same_text(flag, "--source") {
        0
    } else if same_text(flag, "--package") {
        1
    } else if same_text(flag, "--class") {
        2
    } else if same_text(flag, "--library") {
        3
    } else if generate && same_text(flag, "--out") {
        4
    } else {
        -1
    }
}

fn slot_value(s: &OptionSlots, k: i8) -> (r: Option<usize>)
    ensures
        r == slot_get(*s, k as int),
{
    if k == 0 {
        s.source
    } else if k == 1 {
        s.package
    } else if k == 2 {
        s.class_name
    } else if k == 3 {
        s.library
    } else {
        s.out
    }
}

fn fill_slot(s: &mut OptionSlots, k: i8, v: usize)
    ensures
        *final(s) == slot_set(*old(s), k as int, v),
{
    if k == 0 {
        s.source = Some(v);
    } else if k == 1 {
        s.package = Some(v);
    } else if k == 2 {
        s.class_name = Some(v);
    } else if k == 3 {
        s.library = Some(v);
    } else {
        s.out = Some(v);
    }
}

fn dashes(s: &str) -> (r: bool)
    ensures
        r == starts_with_dashes(s@),
{
    s.unicode_len() >= 2 && s.get_char(0) == '-' && s.get_char(1) == '-'
}

fn scan(args: &Vec<CliArgument>, generate: bool, command: &str) -> (r: Result<Scan, String>)
    requires
        args@.len() >= 1,
    ensures
        match r {
            Ok(s) => scan_options(args@, generate, command@, 1, no_slots()) == Ok::<Scan, Seq<char>>(s),
            Err(e) => scan_options(args@, generate, command@, 1, no_slots()) == Err::<Scan, Seq<char>>(e@),
        },
{
    let n = args.len();
    let mut slots = OptionSlots { source: None, package: None, class_name: None, library: None, out: None };
    let mut i: usize = 1;
    while i < n
        invariant
            n == args@.len(),
            1 <= i,
            scan_options(args@, generate, command@, 1, no_slots()) == scan_options(args@, generate, command@, i as int, slots),
        decreases n - i,
    {
        let flag = args[i].text.as_str();
        if !args[i].unicode {
            return Err(owned("option names must contain valid Unicode"));
        }
        if same_text(flag, "--help") || same_text(flag, "-h") {
            let empty = slots.source.is_none() && slots.package.is_none() && slots.class_name.is_none()
                && slots.library.is_none() && slots.out.is_none();
            if !empty || i + 1 < n {
                return Err(owned("use help by itself: ketox --help"));
            }
            return Ok(Scan::Help);
        }
        let k = flag_position(flag, generate);
        if k < 0 {
            let mut message = join3("unknown option '", flag, "' for ");
            message.append(command);
            message.append("; run ketox --help");
            return Err(message);
        }
        if slot_value(&slots, k).is_some() {
            return Err(join3("option ", flag, " was specified more than once"));
        }
        if i + 1 >= n || args[i + 1].text.unicode_len() == 0 || dashes(args[i + 1].text.as_str()) {
            return Err(join2("missing value for ", flag));
        }
        fill_slot(&mut slots, k, i + 1);
        i = i + 2;
    }
    Ok(Scan::Options(slots))
}

fn argument_text(args: &Vec<CliArgument>, position: Option<usize>, flag: &str) -> (r: Result<String, String>)
    requires
        position matches Some(p) ==> p < args@.len(),
    ensures
        match r {
            Ok(t) => position matches Some(p) && args@[p as int].unicode && t == args@[p as int].text,
            Err(e) => match position {
                None => e@ == missing_option(flag@),
                Some(p) => !args@[p as int].unicode && e@ == not_unicode(flag@),
            },
        },
{
    match position {
        None => {
            let mut message = join2("missing required option ", flag);
            message.append("; run ketox --help");
            Err(message)
        },
        Some(p) => {
            if args[p].unicode {
                Ok(args[p].text.clone())
            } else {
                Err(join2(flag, " must contain valid Unicode"))
            }
        },
    }
}

/// Read a command line, without the program name.
pub fn parse_arguments(args: &Vec<CliArgument>) -> (r: Result<Command, String>)
    ensures
        command_view(r) == command_outcome(args@),
{
    if args.len() == 0 {
        return Ok(Command::Help);
    }
    if !args[0].unicode {
        return Err(owned("command must contain valid Unicode"));
    }
    let command = args[0].text.as_str();
    let is_help = same_text(command, "--help") || same_text(command, "-h");
    if is_help || same_text(command, "--version") || same_text(command, "-V") {
        if args.len() > 1 {
            return Err(join2("unexpected arguments after ", command));
        }
        return Ok(if is_help { Command::Help } else { Command::Version });
    }
    let generate = same_text(command, "generate");
    if !generate && !same_text(command, "inspect") {
        return Err(join3("unknown command '", command, "'; run ketox --help"));
    }
    let slots = match scan(args, generate, command)? {
        Scan::Help => {
            return Ok(Command::Help);
        },
        Scan::Options(slots) => slots,
    };
    proof {
        lemma_scan_positions(args@, generate, command@, 1, no_slots());
    }
    let source = match slots.source {
        Some(p) => p,
        None => {
            let mut message = join2("missing required option ", "--source");
            message.append("; run ketox --help");
            return Err(message);
        },
    };
    let package = argument_text(args, slots.package, "--package")?;
    let class_name = argument_text(args, slots.class_name, "--class")?;
    let library_name = argument_text(args, slots.library, "--library")?;
    let configuration = Configuration { source, package, class_name, library_name };
    if generate {
        match slots.out {
            Some(out) => Ok(Command::Generate(configuration, out)),
            None => {
                let mut message = join2("missing required option ", "--out");
                message.append("; run ketox --help");
                Err(message)
            },
        }
    } else {
        Ok(Command::Inspect(configuration))
    }
}

pub open spec fn position_in(p: Option<usize>, n: int) -> bool {
    p matches Some(v) ==> v < n
}

pub open spec fn slots_in_range(s: OptionSlots, n: int) -> bool {
    position_in(s.source, n) && position_in(s.package, n) && position_in(s.class_name, n)
        && position_in(s.library, n) && position_in(s.out, n)
}

/// The option values found by scanning are positions of arguments.
proof fn lemma_scan_positions(args: Seq<CliArgument>, generate: bool, command: Seq<char>, i: int, slots: OptionSlots)
    requires
        i >= 1,
        slots_in_range(slots, args.len() as int),
    ensures
        scan_options(args, generate, command, i, slots) matches Ok(Scan::Options(s)) ==> slots_in_range(s, args.len() as int),
    decreases args.len() - i,
{
    if i < args.len() {
        let k = flag_slot(args[i].text@, generate);
        if k >= 0 && i + 1 < args.len() {
            lemma_scan_positions(args, generate, command, i + 2, slot_set(slots, k, (i + 1) as usize));
        }
    }
}

} // verus!
