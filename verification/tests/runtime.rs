use ketox::runtime::{
    ExceptionState, MAX_STRING_UNITS, ReportAction, after_failed_throw, check_string_length,
    check_string_output, conversion_failure, decode_utf16, null_string_argument, panic_failure,
    report_error, string_argument_length,
};

#[test]
fn utf16_preserves_nuls_and_supplementary_characters() {
    let text = "Hello\0 Kotlin 🦀 नमस्ते";
    assert_eq!(
        decode_utf16(&text.encode_utf16().collect::<Vec<_>>()).unwrap(),
        text
    );
}

#[test]
fn malformed_utf16_is_rejected() {
    for units in [&[0xd800][..], &[0xdc00], &[0xd800, 65]] {
        let error = decode_utf16(units).unwrap_err();
        assert_eq!(error.class, "java/lang/IllegalArgumentException");
    }
}

#[test]
fn allocation_limit_has_explicit_boundary() {
    assert!(check_string_length(MAX_STRING_UNITS).is_ok());
    assert!(check_string_length(MAX_STRING_UNITS + 1).is_err());
}

#[test]
fn utf16_round_trips_every_plane() {
    for text in ["", "\u{0}", "\u{ffff}", "\u{10000}", "\u{10ffff}", "a\u{d7ff}\u{e000}b"] {
        let units: Vec<u16> = text.encode_utf16().collect();
        assert_eq!(decode_utf16(&units).unwrap(), text);
    }
}

#[test]
fn surrogate_error_names_the_problem() {
    let error = decode_utf16(&[0xdc00, 0xd800]).unwrap_err();
    assert_eq!(error.class, "java/lang/IllegalArgumentException");
    assert_eq!(error.message, "Ketox String contains unpaired UTF-16 surrogates");
}

#[test]
fn oversized_input_is_refused_before_decoding() {
    let units = vec![0xd800u16; MAX_STRING_UNITS + 1];
    let error = decode_utf16(&units).unwrap_err();
    assert_eq!(error.class, "java/lang/IllegalArgumentException");
    assert_eq!(
        error.message,
        "Ketox string exceeds the 16777216 UTF-16 code unit limit"
    );
}

#[test]
fn output_limit_counts_utf16_code_units() {
    assert!(check_string_output("").is_ok());
    let exact = "a".repeat(MAX_STRING_UNITS);
    assert!(check_string_output(&exact).is_ok());
    let over = "a".repeat(MAX_STRING_UNITS + 1);
    assert!(check_string_output(&over).is_err());
    // A supplementary character takes two code units.
    let pairs = "🦀".repeat(MAX_STRING_UNITS / 2);
    assert!(check_string_output(&pairs).is_ok());
    let pairs_over = format!("{pairs}a");
    assert_eq!(
        check_string_output(&pairs_over).unwrap_err().message,
        "Ketox string exceeds the 16777216 UTF-16 code unit limit"
    );
}

#[test]
fn string_argument_lengths_are_bounded() {
    assert_eq!(string_argument_length(0).unwrap(), 0);
    assert_eq!(string_argument_length(16_777_216).unwrap(), MAX_STRING_UNITS);
    assert!(string_argument_length(16_777_217).is_err());
    let negative = string_argument_length(-1).unwrap_err();
    assert_eq!(negative.class, "java/lang/IllegalArgumentException");
}

#[test]
fn failures_map_to_jvm_exception_classes() {
    let null = null_string_argument();
    assert_eq!(null.class, "java/lang/NullPointerException");
    assert_eq!(null.message, "Ketox String argument must not be null");
    let jni = conversion_failure("boom");
    assert_eq!(jni.class, "java/lang/RuntimeException");
    assert_eq!(jni.message, "Ketox JNI conversion failed: boom");
    let panic = panic_failure(Some("intentional"));
    assert_eq!(panic.message, "Ketox: Rust panic: intentional");
    assert_eq!(
        panic_failure(None).message,
        "Ketox: Rust panic (non-string payload)"
    );
}

#[test]
fn a_pending_exception_is_preserved() {
    assert_eq!(report_error(ExceptionState::Pending), ReportAction::Keep);
    assert_eq!(after_failed_throw(ExceptionState::Pending), ReportAction::Keep);
}

#[test]
fn a_failure_is_thrown_when_nothing_is_pending() {
    assert_eq!(report_error(ExceptionState::Clear), ReportAction::Throw);
}

#[test]
fn an_uninspectable_exception_state_is_fatal() {
    assert_eq!(
        report_error(ExceptionState::Unknown),
        ReportAction::Fatal("Ketox could not inspect the JVM exception state".to_string())
    );
}

#[test]
fn a_failed_throw_without_a_pending_exception_is_fatal() {
    let expected = ReportAction::Fatal("Ketox could not report a native error to the JVM".to_string());
    assert_eq!(after_failed_throw(ExceptionState::Clear), expected);
    assert_eq!(after_failed_throw(ExceptionState::Unknown), expected);
}

#[test]
fn decoded_strings_encode_to_the_same_units() {
    let units: Vec<u16> = vec![0x48, 0x0, 0xD83E, 0xDD80, 0x20AC];
    let text = decode_utf16(&units).unwrap();
    assert_eq!(text.encode_utf16().collect::<Vec<u16>>(), units);
}
