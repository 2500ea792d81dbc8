use vstd::prelude::*;

verus! {

/// True when every character is an ASCII decimal digit and there is at least one.
pub open spec fn all_digits(s: Seq<char>) -> bool {
    s.len() > 0 && forall|i: int| 0 <= i < s.len() ==> '0' <= #[trigger] s[i] <= '9'
}

/// The value of a string of decimal digits, most significant first.
pub open spec fn digits_value(s: Seq<char>) -> nat
    decreases s.len(),
{
    if s.len() == 0 {
        0
    } else {
        digits_value(s.drop_last()) * 10 + ((s.last() as u32 - '0' as u32) as nat)
    }
}

/// What `u64::from_str` accepts: an optional leading `+`, then one or more
/// decimal digits whose value fits in a `u64`.
pub open spec fn decimal_u64(s: Seq<char>) -> Option<u64> {
    let d = if s.len() > 0 && s[0] == '+' { s.drop_first() } else { s };
    if all_digits(d) && digits_value(d) <= u64::MAX {
        Some(digits_value(d) as u64)
    } else {
        None
    }
}

/// Relies on `<u64 as FromStr>::from_str`: an optional `+` followed by decimal
/// digits, without surrounding whitespace, whose value fits in a `u64`.
#[verifier::external_body]
fn parse_u64(s: &str) -> (r: Option<u64>)
    ensures
        r == decimal_u64(s@),
{
    s.parse::<u64>().ok()
}

/// The threshold that a size argument sets: a positive integer, or no threshold.
pub open spec fn threshold_of(arg: Option<Seq<char>>) -> Option<u64> {
    match arg {
        Some(s) => match decimal_u64(s) {
            Some(v) => if v > 0 { Some(v) } else { None },
            None => None,
        },
        None => None,
    }
}

/// Whether a file of `size_bytes` passes the threshold `t`.
pub open spec fn admits_spec(t: Option<u64>, size_bytes: u64) -> bool {
    match t {
        Some(min) => size_bytes > min,
        None => true,
    }
}

/// Parses a size argument into a threshold; zero, negative, fractional and
/// non-numeric values give no threshold.
pub fn threshold_from(arg: Option<&str>) -> (r: Option<u64>)
    ensures
        r == threshold_of(match arg { Some(s) => Some(s@), None => None }),
{
    match arg {
        Some(num) => match parse_u64(num) {
            Some(s) => if s > 0 { Some(s) } else { None },
            None => None,
        },
        None => None,
    }
}

/// A file is admitted when no threshold is set or its size is strictly above it.
pub fn admits(t: Option<u64>, size_bytes: u64) -> (r: bool)
    ensures
        r == admits_spec(t, size_bytes),
        r <==> (t.is_none() || size_bytes > t.unwrap()),
{
    match t {
        Some(min) => size_bytes > min,
        None => true,
    }
}

} // verus!
