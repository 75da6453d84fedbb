use ketox::names::{
    kotlin_function_name, validate_ascii_identifier, validate_kotlin_identifier,
    validate_rust_identifier,
};

#[test]
fn rust_names_become_lower_camel_case() {
    assert_eq!(kotlin_function_name("text_length").unwrap(), "textLength");
    assert_eq!(kotlin_function_name("add").unwrap(), "add");
    assert_eq!(kotlin_function_name("_private_thing").unwrap(), "privateThing");
    assert_eq!(kotlin_function_name("a__b_").unwrap(), "aB");
    assert_eq!(kotlin_function_name("Upper_case").unwrap(), "upperCase");
    assert_eq!(kotlin_function_name("http2_get").unwrap(), "http2Get");
    assert_eq!(kotlin_function_name("fooBar").unwrap(), "fooBar");
}

#[test]
fn renaming_reports_invalid_and_conflicting_names() {
    assert_eq!(
        kotlin_function_name("fn").unwrap_err(),
        "invalid Rust function name `fn`: Rust keywords are unsupported"
    );
    assert_eq!(
        kotlin_function_name("hash_code").unwrap_err(),
        "Kotlin function name `hashCode` conflicts with an inherited object method"
    );
    assert_eq!(
        kotlin_function_name("when").unwrap_err(),
        "Kotlin function name `when` is a reserved Kotlin keyword"
    );
    assert_eq!(
        kotlin_function_name("_1st").unwrap_err(),
        "invalid Kotlin function name `1st`: use ASCII letters, digits, and underscores, starting with a letter or underscore; raw identifiers are unsupported"
    );
}

#[test]
fn identifier_rules() {
    assert!(validate_ascii_identifier("_a1", "name").is_ok());
    assert!(validate_ascii_identifier("__", "name").is_err());
    assert!(validate_ascii_identifier("", "name").is_err());
    assert!(validate_ascii_identifier("1a", "name").is_err());
    assert!(validate_ascii_identifier("café", "name").is_err());
    assert!(validate_kotlin_identifier("value", "parameter").is_ok());
    assert!(validate_kotlin_identifier("get", "parameter").is_ok());
    assert_eq!(
        validate_kotlin_identifier("class", "class name").unwrap_err(),
        "class name `class` is a reserved Kotlin keyword"
    );
    assert!(validate_rust_identifier("union", "parameter").is_ok());
    assert!(validate_rust_identifier("self", "parameter").is_err());
    assert!(validate_rust_identifier("Self", "parameter").is_err());
    assert_eq!(
        validate_ascii_identifier("bad-name", "parameter").unwrap_err(),
        "invalid parameter `bad-name`: use ASCII letters, digits, and underscores, starting with a letter or underscore; raw identifiers are unsupported"
    );
}

#[test]
fn kotlin_names_join_the_words_between_underscores() {
    assert_eq!(kotlin_function_name("_private_value_").unwrap(), "privateValue");
    assert_eq!(kotlin_function_name("x__y__z").unwrap(), "xYZ");
    assert_eq!(kotlin_function_name("read_UTF8_bytes").unwrap(), "readUTF8Bytes");
}
