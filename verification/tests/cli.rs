use ketox::cli::{CliArgument, Command, parse_arguments};

fn arguments(texts: &[&str]) -> Vec<CliArgument> {
    texts
        .iter()
        .map(|text| CliArgument {
            text: text.to_string(),
            unicode: true,
        })
        .collect()
}

fn error(texts: &[&str]) -> String {
    match parse_arguments(&arguments(texts)) {
        Err(error) => error,
        Ok(_) => panic!("accepted {texts:?}"),
    }
}

#[test]
fn no_arguments_and_help_flags_ask_for_help() {
    assert!(matches!(parse_arguments(&arguments(&[])), Ok(Command::Help)));
    assert!(matches!(parse_arguments(&arguments(&["--help"])), Ok(Command::Help)));
    assert!(matches!(parse_arguments(&arguments(&["-h"])), Ok(Command::Help)));
    assert!(matches!(parse_arguments(&arguments(&["--version"])), Ok(Command::Version)));
    assert!(matches!(parse_arguments(&arguments(&["-V"])), Ok(Command::Version)));
    assert!(matches!(
        parse_arguments(&arguments(&["inspect", "--help"])),
        Ok(Command::Help)
    ));
}

#[test]
fn inspect_collects_its_options() {
    let parsed = parse_arguments(&arguments(&[
        "inspect", "--library", "ketox_test", "--source", "lib.rs", "--package", "dev.ketox.test",
        "--class", "RustApi",
    ]))
    .unwrap();
    match parsed {
        Command::Inspect(configuration) => {
            assert_eq!(configuration.source, 4);
            assert_eq!(configuration.package, "dev.ketox.test");
            assert_eq!(configuration.class_name, "RustApi");
            assert_eq!(configuration.library_name, "ketox_test");
        }
        _ => panic!("expected inspect"),
    }
}

#[test]
fn generate_also_needs_an_output_directory() {
    let parsed = parse_arguments(&arguments(&[
        "generate", "--source", "a.rs", "--package", "p", "--class", "C", "--library", "l",
        "--out", "generated",
    ]))
    .unwrap();
    match parsed {
        Command::Generate(configuration, out) => {
            assert_eq!(configuration.source, 2);
            assert_eq!(out, 10);
        }
        _ => panic!("expected generate"),
    }
    assert_eq!(
        error(&["generate", "--source", "a.rs", "--package", "p", "--class", "C", "--library", "l"]),
        "missing required option --out; run ketox --help"
    );
}

#[test]
fn command_line_errors_name_the_problem() {
    assert_eq!(error(&["unknown"]), "unknown command 'unknown'; run ketox --help");
    assert_eq!(error(&["--help", "extra"]), "unexpected arguments after --help");
    assert_eq!(error(&["generate", "--source"]), "missing value for --source");
    assert_eq!(
        error(&["generate", "--source", "--package"]),
        "missing value for --source"
    );
    assert_eq!(error(&["generate", "--source", ""]), "missing value for --source");
    assert_eq!(
        error(&["inspect", "--surprise", "x"]),
        "unknown option '--surprise' for inspect; run ketox --help"
    );
    assert_eq!(
        error(&["inspect", "--out", "x"]),
        "unknown option '--out' for inspect; run ketox --help"
    );
    assert_eq!(
        error(&["inspect", "--source", "a.rs", "--source", "b.rs"]),
        "option --source was specified more than once"
    );
    assert_eq!(
        error(&["inspect", "--source", "a.rs", "--help"]),
        "use help by itself: ketox --help"
    );
    assert_eq!(
        error(&["inspect", "--help", "--source"]),
        "use help by itself: ketox --help"
    );
    assert_eq!(
        error(&["inspect", "--package", "p"]),
        "missing required option --source; run ketox --help"
    );
}

#[test]
fn non_unicode_arguments_are_refused_where_text_is_needed() {
    let mut command = arguments(&["inspect"]);
    command[0].unicode = false;
    assert_eq!(
        parse_arguments(&command).err().unwrap(),
        "command must contain valid Unicode"
    );
    let mut flag = arguments(&["inspect", "--source", "a.rs"]);
    flag[1].unicode = false;
    assert_eq!(
        parse_arguments(&flag).err().unwrap(),
        "option names must contain valid Unicode"
    );
    let mut values = arguments(&[
        "inspect", "--source", "a\u{fffd}.rs", "--package", "p\u{fffd}", "--class", "C",
        "--library", "l",
    ]);
    values[2].unicode = false;
    values[4].unicode = false;
    assert_eq!(
        parse_arguments(&values).err().unwrap(),
        "--package must contain valid Unicode"
    );
    values[4].unicode = true;
    assert!(matches!(parse_arguments(&values), Ok(Command::Inspect(_))));
}

/// The texts that a parsed command asks for: source, package, class,
/// library and output directory.
fn request(texts: &[&str]) -> (String, String, String, String, Option<String>) {
    match parse_arguments(&arguments(texts)).unwrap() {
        Command::Generate(c, out) => (
            texts[c.source].to_string(),
            c.package,
            c.class_name,
            c.library_name,
            Some(texts[out].to_string()),
        ),
        Command::Inspect(c) => (texts[c.source].to_string(), c.package, c.class_name, c.library_name, None),
        _ => panic!("expected a generate or inspect command"),
    }
}

#[test]
fn option_order_does_not_change_the_request() {
    let first = request(&[
        "generate", "--source", "lib.rs", "--package", "dev.ketox.test", "--class", "RustApi",
        "--library", "ketox_test", "--out", "build",
    ]);
    let second = request(&[
        "generate", "--out", "build", "--library", "ketox_test", "--class", "RustApi", "--source",
        "lib.rs", "--package", "dev.ketox.test",
    ]);
    assert_eq!(first, second);
    assert_eq!(
        first,
        (
            "lib.rs".to_string(),
            "dev.ketox.test".to_string(),
            "RustApi".to_string(),
            "ketox_test".to_string(),
            Some("build".to_string())
        )
    );
}
