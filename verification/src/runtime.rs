//! String rules of the JNI boundary: size limits, UTF-16 decoding and the
//! JVM exceptions that failures raise.

use vstd::prelude::*;
use crate::text::{join2, owned};

verus! {

/// Maximum string size accepted by this prototype, in UTF-16 code units.
pub const MAX_STRING_UNITS: usize = 16777216;

/// A failure to be raised in the JVM as an exception of the given class.
#[derive(Debug)]
pub struct BridgeError {
    /// The JNI name of the exception class, such as `java/lang/RuntimeException`.
    pub class: &'static str,
    pub message: String,
}

impl BridgeError {
    /// A failure raised as an exception of `class` with `message`.
    pub fn new(class: &'static str, message: String) -> (r: BridgeError)
        ensures
            r.class@ == class@,
            r.message@ == message@,
    {
        BridgeError { class, message }
    }
}

pub open spec fn is_high_surrogate(u: u16) -> bool {
    0xD800 <= u <= 0xDBFF
}

pub open spec fn is_low_surrogate(u: u16) -> bool {
    0xDC00 <= u <= 0xDFFF
}

/// The character of a surrogate pair.
pub open spec fn pair_char(high: u16, low: u16) -> char {
    (0x10000 + (high - 0xD800) * 0x400 + (low - 0xDC00)) as char
}

/// UTF-16 decoding: nothing when a surrogate is unpaired.
pub open spec fn utf16_decode(units: Seq<u16>) -> Option<Seq<char>>
    decreases units.len(),
{
    if units.len() == 0 {
        Some(Seq::empty())
    } else if !is_high_surrogate(units[0]) && !is_low_surrogate(units[0]) {
        match utf16_decode(units.drop_first()) {
            Some(rest) => Some(seq![(units[0] as u32) as char] + rest),
            None => None,
        }
    } else if is_high_surrogate(units[0]) && units.len() >= 2 && is_low_surrogate(units[1]) {
        match utf16_decode(units.skip(2)) {
            Some(rest) => Some(seq![pair_char(units[0], units[1])] + rest),
            None => None,
        }
    } else {
        None
    }
}

/// The UTF-16 code units of one character.
pub open spec fn char_units(c: char) -> Seq<u16> {
    if (c as u32) < 0x10000 {
        seq![(c as u32) as u16]
    } else {
        seq![
            (0xD800 + ((c as u32) - 0x10000) / 0x400) as u16,
            (0xDC00 + ((c as u32) - 0x10000) % 0x400) as u16,
        ]
    }
}

/// UTF-16 encoding.
pub open spec fn utf16_encode(s: Seq<char>) -> Seq<u16>
    decreases s.len(),
{
    if s.len() == 0 {
        Seq::empty()
    } else {
        utf16_encode(s.drop_last()) + char_units(s.last())
    }
}

pub open spec fn too_long_error() -> Seq<char> {
    "Ketox string exceeds the 16777216 UTF-16 code unit limit"@
}

pub open spec fn surrogate_error() -> Seq<char> {
    "Ketox String contains unpaired UTF-16 surrogates"@
}

/// Decode UTF-16 with `String::from_utf16`.
///
/// Trusted: std documents that `from_utf16` decodes UTF-16 and fails exactly
/// when the input holds invalid data, which for UTF-16 is an unpaired
/// surrogate; the contract states that decoding as `utf16_decode`.
#[verifier::external_body]
fn string_from_utf16(units: &[u16]) -> (r: Option<String>)
    ensures
        match r {
            Some(s) => utf16_decode(units@) == Some(s@),
            None => utf16_decode(units@) is None,
        },
{
    String::from_utf16(units).ok()
}

/// Refuse strings longer than `MAX_STRING_UNITS` UTF-16 code units.
pub fn check_string_length(length: usize) -> (r: Result<(), BridgeError>)
    ensures
        r is Ok <==> length <= MAX_STRING_UNITS,
        r matches Err(e) ==> e.class@ == "java/lang/IllegalArgumentException"@ && e.message@
            == too_long_error(),
{
    if length > MAX_STRING_UNITS {
        return Err(
            BridgeError::new(
                "java/lang/IllegalArgumentException",
                owned("Ketox string exceeds the 16777216 UTF-16 code unit limit"),
            ),
        );
    }
    Ok(())
}

/// Copy UTF-16 code units to an owned Rust string, refusing oversized input
/// and unpaired surrogates.
pub fn decode_utf16(units: &[u16]) -> (r: Result<String, BridgeError>)
    ensures
        match r {
            Ok(s) => units@.len() <= MAX_STRING_UNITS && utf16_decode(units@) == Some(s@)
                && utf16_encode(s@) == units@,
            Err(e) => e.class@ == "java/lang/IllegalArgumentException"@ && if units@.len()
                > MAX_STRING_UNITS {
                e.message@ == too_long_error()
            } else {
                utf16_decode(units@) is None && e.message@ == surrogate_error()
            },
        },
{
    check_string_length(units.len())?;
    match string_from_utf16(units) {
        Some(s) => {
            proof {
                crate::laws::utf16_decode_keeps_units(units@);
            }
            Ok(s)
        },
        None => Err(
            BridgeError::new(
                "java/lang/IllegalArgumentException",
                owned("Ketox String contains unpaired UTF-16 surrogates"),
            ),
        ),
    }
}


/// Refuse a string to be returned to the JVM when it exceeds the limit.
pub fn check_string_output(value: &str) -> (r: Result<(), BridgeError>)
    ensures
        r is Ok <==> utf16_encode(value@).len() <= MAX_STRING_UNITS,
        r matches Err(e) ==> e.class@ == "java/lang/IllegalArgumentException"@ && e.message@
            == too_long_error(),
{
    let mut count: usize = 0;
    for c in it: value.chars()
        invariant
            count == utf16_encode(it.seq().take(it.index() as int)).len(),
            it.seq() == value@,
            count <= MAX_STRING_UNITS,
    {
        proof {
            let k = it.index() as int;
            assert(it.seq().take(k + 1).drop_last() =~= it.seq().take(k));
            assert(it.seq().take(k + 1).last() == c);
            lemma_utf16_len_prefix(value@, k + 1);
        }
        let units: usize = if (c as u32) < 0x10000 { 1 } else { 2 };
        count = count + units;
        if count > MAX_STRING_UNITS {
            return check_string_length(count);
        }
    }
    proof {
        assert(value@.take(value@.len() as int) =~= value@);
    }
    check_string_length(count)
}

/// A prefix never needs more UTF-16 code units than the whole sequence.
proof fn lemma_utf16_len_prefix(s: Seq<char>, k: int)
    requires
        0 <= k <= s.len(),
    ensures
        utf16_encode(s.take(k)).len() <= utf16_encode(s).len(),
    decreases s.len() - k,
{
    if k < s.len() {
        assert(s.take(k + 1).drop_last() =~= s.take(k));
        lemma_utf16_len_prefix(s, k + 1);
    } else {
        assert(s.take(k) =~= s);
    }
}


/// The failure for a null JVM string argument.
pub fn null_string_argument() -> (r: BridgeError)
    ensures
        r.class@ == "java/lang/NullPointerException"@,
        r.message@ == "Ketox String argument must not be null"@,
{
    BridgeError::new(
        "java/lang/NullPointerException",
        owned("Ketox String argument must not be null"),
    )
}

/// The number of UTF-16 code units to copy, given the length that the JVM
/// reports for a string argument; negative and oversized lengths are refused.
pub fn string_argument_length(length: i32) -> (r: Result<usize, BridgeError>)
    ensures
        match r {
            Ok(n) => 0 <= length <= MAX_STRING_UNITS && n == length,
            Err(e) => (length < 0 || length > MAX_STRING_UNITS) && e.class@
                == "java/lang/IllegalArgumentException"@ && e.message@ == too_long_error(),
        },
{
    if length < 0 {
        return Err(
            BridgeError::new(
                "java/lang/IllegalArgumentException",
                owned("Ketox string exceeds the 16777216 UTF-16 code unit limit"),
            ),
        );
    }
    let n = length as usize;
    check_string_length(n)?;
    Ok(n)
}

/// The failure for a JNI call that failed with `detail`.
pub fn conversion_failure(detail: &str) -> (r: BridgeError)
    ensures
        r.class@ == "java/lang/RuntimeException"@,
        r.message@ == "Ketox JNI conversion failed: "@ + detail@,
{
    BridgeError::new("java/lang/RuntimeException", join2("Ketox JNI conversion failed: ", detail))
}

/// The failure for a Rust panic, given its payload when that is a string.
pub fn panic_failure(payload: Option<&str>) -> (r: BridgeError)
    ensures
        r.class@ == "java/lang/RuntimeException"@,
        r.message@ == match payload {
            Some(text) => "Ketox: Rust panic: "@ + text@,
            None => "Ketox: Rust panic (non-string payload)"@,
        },
{
    match payload {
        Some(text) => BridgeError::new("java/lang/RuntimeException", join2("Ketox: Rust panic: ", text)),
        None => BridgeError::new(
            "java/lang/RuntimeException",
            owned("Ketox: Rust panic (non-string payload)"),
        ),
    }
}

/// What the JVM's exception state was found to be, when a native call is
/// about to report a failure.
#[derive(Clone, Copy, Debug, PartialEq, Eq, Structural)]
pub enum ExceptionState {
    /// An exception is already pending in the JVM.
    Pending,
    /// No exception is pending.
    Clear,
    /// The exception state could not be inspected.
    Unknown,
}

/// What the boundary does next about a failure.
#[derive(Debug, PartialEq, Eq)]
pub enum ReportAction {
    /// Leave the pending exception in place; it takes precedence.
    Keep,
    /// Raise the failure as a new JVM exception.
    Throw,
    /// Take JNI's fatal-error path with this message.
    Fatal(String),
}

/// The message of the fatal error when the exception state cannot be read.
pub open spec fn inspect_failure_message() -> Seq<char> {
    "Ketox could not inspect the JVM exception state"@
}

/// The message of the fatal error when a failure could not be raised.
pub open spec fn report_failure_message() -> Seq<char> {
    "Ketox could not report a native error to the JVM"@
}

/// The action as plain values: keep, throw, or a fatal message.
pub open spec fn action_view(a: ReportAction) -> Option<Option<Seq<char>>> {
    match a {
        ReportAction::Keep => None,
        ReportAction::Throw => Some(None),
        ReportAction::Fatal(message) => Some(Some(message@)),
    }
}

/// How a failure is reported, given the exception state before raising it:
/// an exception that is already pending is preserved, otherwise the failure
/// is thrown; when the state cannot be inspected the JVM is stopped.
pub fn report_error(state: ExceptionState) -> (a: ReportAction)
    ensures
        action_view(a) == match state {
            ExceptionState::Pending => None,
            ExceptionState::Clear => Some(None),
            ExceptionState::Unknown => Some(Some(inspect_failure_message())),
        },
{
    match state {
        ExceptionState::Pending => ReportAction::Keep,
        ExceptionState::Clear => ReportAction::Throw,
        ExceptionState::Unknown => ReportAction::Fatal(owned("Ketox could not inspect the JVM exception state")),
    }
}

/// What follows a throw that failed, given the exception state afterwards:
/// an exception that the failed throw left pending is kept; with none pending,
/// or none known to be, the JVM is stopped.
pub fn after_failed_throw(state: ExceptionState) -> (a: ReportAction)
    ensures
        action_view(a) == match state {
            ExceptionState::Pending => None::<Option<Seq<char>>>,
            _ => Some(Some(report_failure_message())),
        },
{
    match state {
        ExceptionState::Pending => ReportAction::Keep,
        _ => ReportAction::Fatal(owned("Ketox could not report a native error to the JVM")),
    }
}

} // verus!
