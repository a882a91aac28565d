//! Text forms of the numbers and time spans that appear in reports.

use crate::measure::{Elapsed, NANOS_PER_SEC};
use vstd::prelude::*;
use vstd::string::StringExecFns;

verus! {

/// The character for the decimal digit `d`.
pub open spec fn digit_char(d: nat) -> char
    recommends
        d < 10,
{
    ((48 + d) as u8) as char
}

/// The decimal numeral of `n`, with no sign, separators or leading zeros.
pub open spec fn decimal(n: nat) -> Seq<char>
    decreases n,
{
    if n < 10 {
        seq![digit_char(n)]
    } else {
        decimal(n / 10).push(digit_char(n % 10))
    }
}

/// The text that the `Debug` form of a `std::time::Duration` of `secs` seconds
/// and `subsec_nanos` nanoseconds consists of.
pub uninterp spec fn duration_debug_text(secs: u64, subsec_nanos: u32) -> Seq<char>;

/// The text of a time span: the `Debug` form of the `Duration` of equal length.
pub open spec fn elapsed_text(nanos: nat) -> Seq<char> {
    duration_debug_text((nanos / 1_000_000_000) as u64, (nanos % 1_000_000_000) as u32)
}

/// Formats `Duration::new(secs, subsec_nanos)` with `{:?}`.
/// Trusted: the result is a function of the two numbers alone. With
/// `subsec_nanos` below one second `Duration::new` carries nothing over and
/// cannot overflow.
#[verifier::external_body]
fn duration_debug_string(secs: u64, subsec_nanos: u32) -> (s: String)
    requires
        subsec_nanos < NANOS_PER_SEC,
    ensures
        s@ == duration_debug_text(secs, subsec_nanos),
{
    format!("{:?}", std::time::Duration::new(secs, subsec_nanos))
}

/// The decimal digit `d` as text.
fn digit_text(d: usize) -> (text: &'static str)
    requires
        d < 10,
    ensures
        text@ == seq![digit_char(d as nat)],
{
    proof {
        reveal_strlit("0");
        reveal_strlit("1");
        reveal_strlit("2");
        reveal_strlit("3");
        reveal_strlit("4");
        reveal_strlit("5");
        reveal_strlit("6");
        reveal_strlit("7");
        reveal_strlit("8");
        reveal_strlit("9");
    }
    let text = match d {
        0 => "0",
        1 => "1",
        2 => "2",
        3 => "3",
        4 => "4",
        5 => "5",
        6 => "6",
        7 => "7",
        8 => "8",
        _ => "9",
    };
    assert(text@ =~= seq![digit_char(d as nat)]);
    text
}

/// The decimal numeral of `n`.
pub fn usize_to_string(n: usize) -> (s: String)
    ensures
        s@ == decimal(n as nat),
    decreases n,
{
    if n < 10 {
        String::from_str(digit_text(n))
    } else {
        let mut s = usize_to_string(n / 10);
        let ghost front = s@;
        s.append(digit_text(n % 10));
        assert(s@ =~= front.push(digit_char((n % 10) as nat)));
        s
    }
}

/// The text of a time span.
pub fn elapsed_to_string(e: Elapsed) -> (s: String)
    ensures
        s@ == elapsed_text(e@),
{
    duration_debug_string(e.as_secs(), e.subsec_nanos())
}

} // verus!
