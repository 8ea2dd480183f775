//! Errors of the device client.

use vstd::prelude::*;
use super::types::DeviceState;
use crate::text::{
    chars_of, debug_quoted, debug_str, decimal, decimal_int, dec_i64, dec_u64, digit,
    digit_char, push_chars, push_str, string_from_chars,
};

verus! {

/// Why a device operation failed. Transport and decoding failures carry the
/// underlying error's description.
#[derive(Debug, Clone, PartialEq)]
pub enum DeviceError {
    /// The HTTP request failed.
    Request(String),
    /// The device's reply could not be decoded.
    Parse(String),
    /// The device did not reach Ready within the budget (milliseconds); the
    /// last observed state, if any.
    NotReady(u64, Option<DeviceState>),
    /// After a `show_now` upload the device reports another image than the
    /// one just uploaded: the firmware is serving a stale image.
    DisplayVerificationFailed { expected: String, actual: Option<String> },
    /// `cleanup` refuses to run with an empty `keep` filename.
    CleanupRefused,
    /// The device did not wake within the budget (milliseconds).
    WakeTimeout(u64),
    /// The device answered with a failure and this message.
    Device(String),
}

/// The fraction of a second of a millisecond remainder `r < 1000`, as a
/// `Duration` debug text writes it: a point and the digits without
/// trailing zeros, nothing for zero.
pub open spec fn fraction_text(r: nat) -> Seq<char> {
    if r == 0 {
        Seq::empty()
    } else if r % 100 == 0 {
        seq!['.', digit_char(r / 100)]
    } else if r % 10 == 0 {
        seq!['.', digit_char(r / 100), digit_char((r / 10) % 10)]
    } else {
        seq!['.', digit_char(r / 100), digit_char((r / 10) % 10), digit_char(r % 10)]
    }
}

/// The debug text of a `Duration` of whole milliseconds: `0ns`, `<n>ms`
/// below a second, otherwise seconds with their fraction and `s`.
pub open spec fn millis_debug(ms: nat) -> Seq<char> {
    if ms == 0 {
        "0ns"@
    } else if ms < 1000 {
        decimal(ms) + "ms"@
    } else {
        decimal(ms / 1000) + fraction_text(ms % 1000) + "s"@
    }
}

/// The debug text of a `/state` reading.
pub open spec fn state_debug(s: DeviceState) -> Seq<char> {
    "DeviceState { status: "@ + decimal_int(s.status as int) + ", msg: "@ + debug_quoted(s.msg@)
        + " }"@
}

/// The debug text of an optional `/state` reading.
pub open spec fn option_state_debug(s: Option<DeviceState>) -> Seq<char> {
    match s {
        Some(st) => "Some("@ + state_debug(st) + ")"@,
        None => "None"@,
    }
}

/// The debug text of an optional string.
pub open spec fn option_string_debug(s: Option<String>) -> Seq<char> {
    match s {
        Some(t) => "Some("@ + debug_quoted(t@) + ")"@,
        None => "None"@,
    }
}

/// The message of a device error, as shown to the user.
pub open spec fn device_error_message(e: DeviceError) -> Seq<char> {
    match e {
        DeviceError::Request(m) => "http request failed: "@ + m@,
        DeviceError::Parse(m) => "failed to parse device response: "@ + m@,
        DeviceError::NotReady(ms, last) => "device did not reach Ready within "@ + millis_debug(
            ms as nat,
        ) + " (last state: "@ + option_state_debug(last) + ")"@,
        DeviceError::DisplayVerificationFailed { expected, actual } =>
            "display verification failed: expected image ending in '"@ + expected@
            + "', device reports "@ + option_string_debug(actual),
        DeviceError::CleanupRefused =>
            "cleanup refused: 'keep' filename is empty (did the preceding upload fail?)"@,
        DeviceError::WakeTimeout(ms) => "device did not wake within "@ + millis_debug(ms as nat),
        DeviceError::Device(m) => m@,
    }
}

/// Appends the debug text of a millisecond duration.
fn push_millis(out: &mut Vec<char>, ms: u64)
    ensures
        final(out)@ == old(out)@ + millis_debug(ms as nat),
{
    if ms == 0 {
        push_str(out, "0ns");
    } else if ms < 1000 {
        push_chars(out, &dec_u64(ms));
        push_str(out, "ms");
    } else {
        push_chars(out, &dec_u64(ms / 1000));
        let r = ms % 1000;
        let mut f: Vec<char> = Vec::new();
        if r != 0 {
            f.push('.');
            f.push(digit(r / 100));
            if r % 100 != 0 {
                f.push(digit((r / 10) % 10));
                if r % 10 != 0 {
                    f.push(digit(r % 10));
                }
            }
        }
        assert(f@ =~= fraction_text(r as nat));
        push_chars(out, &f);
        push_str(out, "s");
    }
}

impl DeviceError {
    /// The message of the error, as shown to the user.
    pub fn message(&self) -> (m: String)
        ensures
            m@ == device_error_message(*self),
    {
        let mut out: Vec<char> = Vec::new();
        match self {
            DeviceError::Request(m) => {
                push_str(&mut out, "http request failed: ");
                push_str(&mut out, m.as_str());
                assert(out@ =~= device_error_message(*self));
            },
            DeviceError::Parse(m) => {
                push_str(&mut out, "failed to parse device response: ");
                push_str(&mut out, m.as_str());
                assert(out@ =~= device_error_message(*self));
            },
            DeviceError::NotReady(ms, last) => {
                push_str(&mut out, "device did not reach Ready within ");
                push_millis(&mut out, *ms);
                push_str(&mut out, " (last state: ");
                match last {
                    Some(st) => {
                        push_str(&mut out, "Some(");
                        push_str(&mut out, "DeviceState { status: ");
                        push_chars(&mut out, &dec_i64(st.status));
                        push_str(&mut out, ", msg: ");
                        push_str(&mut out, debug_str(st.msg.as_str()).as_str());
                        push_str(&mut out, " }");
                        push_str(&mut out, ")");
                    },
                    None => {
                        push_str(&mut out, "None");
                    },
                }
                push_str(&mut out, ")");
                assert(out@ =~= device_error_message(*self));
            },
            DeviceError::DisplayVerificationFailed { expected, actual } => {
                push_str(&mut out, "display verification failed: expected image ending in '");
                push_str(&mut out, expected.as_str());
                push_str(&mut out, "', device reports ");
                match actual {
                    Some(a) => {
                        push_str(&mut out, "Some(");
                        push_str(&mut out, debug_str(a.as_str()).as_str());
                        push_str(&mut out, ")");
                    },
                    None => {
                        push_str(&mut out, "None");
                    },
                }
                assert(out@ =~= device_error_message(*self));
            },
            DeviceError::CleanupRefused => {
                push_str(
                    &mut out,
                    "cleanup refused: 'keep' filename is empty (did the preceding upload fail?)",
                );
                assert(out@ =~= device_error_message(*self));
            },
            DeviceError::WakeTimeout(ms) => {
                push_str(&mut out, "device did not wake within ");
                push_millis(&mut out, *ms);
                assert(out@ =~= device_error_message(*self));
            },
            DeviceError::Device(m) => {
                push_str(&mut out, m.as_str());
                assert(out@ =~= device_error_message(*self));
            },
        }
        string_from_chars(&out)
    }
}

} // verus!
