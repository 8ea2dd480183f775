//! How the application starts and when it may exit: the command-line
//! debug modes, and the exit guard that keeps background captures alive.

use vstd::prelude::*;
use crate::text::str_eq;

verus! {

/// What a start of the application does.
#[derive(Debug, Clone, PartialEq, Eq)]
pub enum LaunchMode {
    /// `--capture-spike`: render every widget fixture windowless, then exit.
    CaptureSpike,
    /// `--widgets-e2e <url>`: preview and push against a mock device.
    WidgetsE2e(String),
    /// `--scheduler-e2e <url>`: exercise the scheduler against a mock device.
    SchedulerE2e(String),
    /// The normal windowed application with tray and scheduler.
    Windowed,
}

/// Index of the first argument equal to `flag`.
pub open spec fn flag_position(args: Seq<String>, flag: Seq<char>, from: int) -> Option<int>
    decreases args.len() - from,
{
    if from < 0 || from >= args.len() {
        None
    } else if args[from]@ == flag {
        Some(from)
    } else {
        flag_position(args, flag, from + 1)
    }
}

/// The argument after the first `flag`, when there is one.
pub open spec fn flag_value(args: Seq<String>, flag: Seq<char>) -> Option<Seq<char>> {
    match flag_position(args, flag, 0) {
        Some(i) => if i + 1 < args.len() {
            Some(args[i + 1]@)
        } else {
            None
        },
        None => None,
    }
}

fn find_flag(args: &Vec<String>, flag: &str) -> (r: Option<usize>)
    ensures
        r matches Some(i) ==> flag_position(args@, flag@, 0) == Some(i as int) && i < args.len(),
        r is None ==> flag_position(args@, flag@, 0) is None,
{
    let mut i: usize = 0;
    while i < args.len()
        invariant
            i <= args.len(),
            flag_position(args@, flag@, 0) == flag_position(args@, flag@, i as int),
        decreases args.len() - i,
    {
        if str_eq(args[i].as_str(), flag) {
            return Some(i);
        }
        i = i + 1;
    }
    None
}

fn value_after(args: &Vec<String>, flag: &str) -> (r: Option<String>)
    ensures
        r matches Some(v) ==> flag_value(args@, flag@) == Some(v@),
        r is None ==> flag_value(args@, flag@) is None,
{
    match find_flag(args, flag) {
        Some(i) => if i + 1 < args.len() {
            Some(args[i + 1].clone())
        } else {
            None
        },
        None => None,
    }
}

/// Reads the command line (program name included).
pub fn launch_mode(args: &Vec<String>) -> (m: LaunchMode)
    ensures
        flag_position(args@, "--capture-spike"@, 0) is Some ==> m == LaunchMode::CaptureSpike,
        flag_position(args@, "--capture-spike"@, 0) is None ==> match flag_value(
            args@,
            "--widgets-e2e"@,
        ) {
            Some(u) => m matches LaunchMode::WidgetsE2e(v) && v@ == u,
            None => match flag_value(args@, "--scheduler-e2e"@) {
                Some(u) => m matches LaunchMode::SchedulerE2e(v) && v@ == u,
                None => m == LaunchMode::Windowed,
            },
        },
{
    if find_flag(args, "--capture-spike").is_some() {
        return LaunchMode::CaptureSpike;
    }
    if let Some(url) = value_after(args, "--widgets-e2e") {
        return LaunchMode::WidgetsE2e(url);
    }
    if let Some(url) = value_after(args, "--scheduler-e2e") {
        return LaunchMode::SchedulerE2e(url);
    }
    LaunchMode::Windowed
}

/// Whether a request to exit is held back: only an exit that closing the
/// last window asked for (no explicit exit code), and only while a capture
/// is in flight; an explicit exit always goes through.
pub fn holds_exit(explicit_code: Option<i32>, captures_active: bool) -> (b: bool)
    ensures
        b == (explicit_code is None && captures_active),
{
    explicit_code.is_none() && captures_active
}

/// Whether a character is an ASCII decimal digit.
pub open spec fn is_digit(c: char) -> bool {
    '0' <= c <= '9'
}

/// The value of a run of decimal digits.
pub open spec fn digits_value(d: Seq<char>) -> nat
    decreases d.len(),
{
    if d.len() == 0 {
        0
    } else {
        digits_value(d.drop_last()) * 10 + ((d.last() as int) - ('0' as int)) as nat
    }
}

/// A number text without its optional leading `+`.
pub open spec fn unsigned_digits(s: Seq<char>) -> Seq<char> {
    if s.len() > 0 && s[0] == '+' {
        s.skip(1)
    } else {
        s
    }
}

/// `str::parse::<u16>()`: an optional `+`, then one or more decimal digits
/// whose value fits in 16 bits.
pub open spec fn parsed_u16(s: Seq<char>) -> Option<u16> {
    let d = unsigned_digits(s);
    if d.len() > 0 && (forall|i: int| 0 <= i < d.len() ==> is_digit(#[trigger] d[i]))
        && digits_value(d) <= 65535 {
        Some(digits_value(d) as u16)
    } else {
        None
    }
}

proof fn lemma_digits_value_grows(d: Seq<char>, k: int)
    requires
        0 <= k <= d.len(),
        forall|i: int| 0 <= i < d.len() ==> is_digit(#[trigger] d[i]),
    ensures
        digits_value(d.take(k)) <= digits_value(d),
    decreases d.len() - k,
{
    if k < d.len() {
        lemma_digits_value_grows(d, k + 1);
        assert(d.take(k + 1).drop_last() =~= d.take(k));
    } else {
        assert(d.take(k) =~= d);
    }
}

/// Parses a port number as `str::parse::<u16>` does.
pub fn parse_u16(text: &str) -> (r: Option<u16>)
    ensures
        r == parsed_u16(text@),
{
    let s = crate::text::chars_of(text);
    let start: usize = if s.len() > 0 && s[0] == '+' { 1 } else { 0 };
    let ghost d = unsigned_digits(text@);
    assert(d =~= s@.skip(start as int));
    if start >= s.len() {
        return None;
    }
    let mut value: u32 = 0;
    let mut i: usize = start;
    while i < s.len()
        invariant
            start <= i <= s.len(),
            s@ == text@,
            d == unsigned_digits(text@),
            d =~= s@.skip(start as int),
            forall|j: int| 0 <= j < i - start ==> is_digit(#[trigger] d[j]),
            value == digits_value(d.take(i - start)),
            value <= 65535,
        decreases s.len() - i,
    {
        let c = s[i];
        assert(d[i - start] == c);
        if !('0' <= c && c <= '9') {
            assert(!is_digit(d[i - start]));
            return None;
        }
        let digit = (c as u32) - ('0' as u32);
        assert(d.take(i - start + 1).drop_last() =~= d.take(i - start));
        assert(d.take(i - start + 1).last() == c);
        assert(digits_value(d.take(i - start + 1)) == value * 10 + digit);
        if value > 6553 || value * 10 + digit > 65535 {
            proof {
                assert forall|j: int| 0 <= j < i - start + 1 implies is_digit(#[trigger] d[j]) by {
                    if j == i - start {
                        assert(d[j] == c);
                    }
                }
                if forall|j: int| 0 <= j < d.len() ==> is_digit(#[trigger] d[j]) {
                    lemma_digits_value_grows(d, i - start + 1);
                }
            }
            return None;
        }
        value = value * 10 + digit;
        i = i + 1;
    }
    assert(d.take(d.len() as int) =~= d);
    Some(value as u16)
}

/// The port the mock-device program listens on: the value after the first
/// `--port`, when it parses as a port number.
pub fn parse_port_arg(args: &Vec<String>) -> (r: Option<u16>)
    ensures
        r == (match flag_value(args@, "--port"@) {
            Some(v) => parsed_u16(v),
            None => None,
        }),
{
    match value_after(args, "--port") {
        Some(v) => parse_u16(v.as_str()),
        None => None,
    }
}

} // verus!
