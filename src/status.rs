//! HTTP status codes: their decimal text, their success class and their
//! canonical reason phrase.

use vstd::prelude::*;

verus! {

/// The character of a decimal digit.
pub open spec fn digit_char(d: nat) -> char {
    if d == 0 { '0' }
    else if d == 1 { '1' }
    else if d == 2 { '2' }
    else if d == 3 { '3' }
    else if d == 4 { '4' }
    else if d == 5 { '5' }
    else if d == 6 { '6' }
    else if d == 7 { '7' }
    else if d == 8 { '8' }
    else { '9' }
}

/// The decimal text of `n`, without leading zeros.
pub open spec fn decimal(n: nat) -> Seq<char>
    decreases n,
{
    if n < 10 {
        seq![digit_char(n)]
    } else {
        decimal(n / 10).push(digit_char(n % 10))
    }
}

/// A response is counted as "up" when its code is a success or a redirect.
pub open spec fn is_up_code(code: u16) -> bool {
    200 <= code && code < 400
}

/// The canonical reason phrase that the HTTP status registry gives for a
/// code, or the empty text when it has none.
pub uninterp spec fn canonical_reason_of(code: u16) -> Seq<char>;

fn digit_text(d: u16) -> (r: &'static str)
    requires
        d < 10,
    ensures
        r@ == seq![digit_char(d as nat)],
{
    proof {
        reveal_strlit("0");
        reveal_strlit("1");
        reveal_strlit("2");
        reveal_strlit("3");
        reveal_strlit("4");
        reveal_strlit("5");
        reveal_strlit("6");
        reveal_strlit("7");
        reveal_strlit("8");
        reveal_strlit("9");
    }
    match d {
        0 => "0",
        1 => "1",
        2 => "2",
        3 => "3",
        4 => "4",
        5 => "5",
        6 => "6",
        7 => "7",
        8 => "8",
        _ => "9",
    }
}

fn append_decimal(s: &mut String, n: u16)
    ensures
        final(s)@ == old(s)@ + decimal(n as nat),
    decreases n,
{
    if n < 10 {
        s.append(digit_text(n));
    } else {
        append_decimal(s, n / 10);
        s.append(digit_text(n % 10));
        assert(old(s)@ + decimal(n as nat) =~= old(s)@ + decimal((n / 10) as nat) + seq![
            digit_char((n % 10) as nat),
        ]);
    }
}

/// The decimal text of a status code, as it appears in a report ("404").
pub fn status_text(code: u16) -> (r: String)
    ensures
        r@ == decimal(code as nat),
{
    let mut s = String::new();
    append_decimal(&mut s, code);
    assert(s@ =~= decimal(code as nat));
    s
}

/// Whether a response with this code counts as up: a code in [200, 400).
pub fn is_up_status(code: u16) -> (r: bool)
    ensures
        r == is_up_code(code),
{
    200 <= code && code < 400
}

/// Relies on `http::StatusCode::canonical_reason` (re-exported by reqwest):
/// the registry's reason phrase for a valid code, `""` when it has none.
/// `StatusCode::from_u16` only converts the number; it refuses one outside
/// 100..=999, which is no status code and has no phrase.
#[verifier::external_body]
pub(crate) fn canonical_reason(code: u16) -> (r: String)
    ensures
        r@ == canonical_reason_of(code),
        (code < 100 || code > 999) ==> r@.len() == 0,
{
    match reqwest::StatusCode::from_u16(code) {
        Ok(s) => s.canonical_reason().unwrap_or("").to_string(),
        Err(_) => String::new(),
    }
}

} // verus!
