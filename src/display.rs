//! What a report shows of an outcome: the class of its status, and its URL
//! cut to the width of a table column.

use vstd::prelude::*;

verus! {

/// The class of a status, by its first digit.
#[derive(Clone, Copy, Debug, PartialEq, Eq)]
pub enum StatusClass {
    Success,
    Redirect,
    ClientError,
    ServerError,
    Unknown,
}

/// The class of a status text: by its first character, `2` to `5`; any
/// other text (`ERROR` among them) is unknown.
pub open spec fn class_of(status: Seq<char>) -> StatusClass {
    if status.len() == 0 {
        StatusClass::Unknown
    } else if status[0] == '2' {
        StatusClass::Success
    } else if status[0] == '3' {
        StatusClass::Redirect
    } else if status[0] == '4' {
        StatusClass::ClientError
    } else if status[0] == '5' {
        StatusClass::ServerError
    } else {
        StatusClass::Unknown
    }
}

/// The class of a status text.
pub fn classify_status(status: &str) -> (r: StatusClass)
    ensures
        r == class_of(status@),
{
    if status.is_empty() {
        return StatusClass::Unknown;
    }
    let c = status.get_char(0);
    if c == '2' {
        StatusClass::Success
    } else if c == '3' {
        StatusClass::Redirect
    } else if c == '4' {
        StatusClass::ClientError
    } else if c == '5' {
        StatusClass::ServerError
    } else {
        StatusClass::Unknown
    }
}

/// The widest URL shown whole, in characters.
pub const URL_COLUMN_WIDTH: usize = 48;

/// How many characters of a wider URL are kept before the ellipsis.
pub const URL_KEPT_CHARS: usize = 45;

/// A URL as a table shows it: whole when it fits the column, else its first
/// characters followed by `...`.
pub open spec fn shown_url(url: Seq<char>) -> Seq<char> {
    if url.len() <= URL_COLUMN_WIDTH {
        url
    } else {
        url.subrange(0, URL_KEPT_CHARS as int) + seq!['.', '.', '.']
    }
}

/// The URL as a table shows it.
pub fn shorten_url(url: &str) -> (r: String)
    ensures
        r@ == shown_url(url@),
{
    let n = url.unicode_len();
    if n <= URL_COLUMN_WIDTH {
        return String::from_str(url);
    }
    let mut r = String::from_str(url.substring_char(0, URL_KEPT_CHARS));
    r.append("...");
    proof {
        reveal_strlit("...");
    }
    assert(r@ =~= shown_url(url@));
    r
}

} // verus!
