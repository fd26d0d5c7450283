//! The targets of a run, from the lines of its input.

use vstd::prelude::*;

verus! {

/// The text of a line without its leading and trailing whitespace.
pub uninterp spec fn trimmed(s: Seq<char>) -> Seq<char>;

/// The texts of a list of strings.
pub open spec fn texts(v: Seq<String>) -> Seq<Seq<char>> {
    v.map_values(|s: String| s@)
}

/// The lines that are not empty, in their order.
pub open spec fn nonblank(lines: Seq<Seq<char>>) -> Seq<Seq<char>>
    decreases lines.len(),
{
    if lines.len() == 0 {
        Seq::empty()
    } else if lines.last().len() == 0 {
        nonblank(lines.drop_last())
    } else {
        nonblank(lines.drop_last()).push(lines.last())
    }
}

/// The targets named by the lines of an input: each line trimmed, the blank
/// ones dropped.
pub open spec fn targets_of(lines: Seq<Seq<char>>) -> Seq<Seq<char>> {
    nonblank(lines.map_values(|l: Seq<char>| trimmed(l)))
}

/// Relies on `str::trim`: the line without leading and trailing whitespace.
#[verifier::external_body]
fn trim_line(s: &str) -> (r: String)
    ensures
        r@ == trimmed(s@),
{
    s.trim().to_string()
}

/// Keeps the lines that are not empty, in their order.
pub fn keep_nonblank(lines: &Vec<String>) -> (r: Vec<String>)
    ensures
        texts(r@) == nonblank(texts(lines@)),
{
    let mut r: Vec<String> = Vec::new();
    let mut i: usize = 0;
    while i < lines.len()
        invariant
            i <= lines@.len(),
            texts(r@) == nonblank(texts(lines@.take(i as int))),
        decreases lines@.len() - i,
    {
        let ghost before = r@;
        proof {
            assert(texts(lines@.take(i + 1)).drop_last() =~= texts(lines@.take(i as int)));
            assert(texts(lines@.take(i + 1)).last() == lines@[i as int]@);
        }
        if !lines[i].as_str().is_empty() {
            r.push(lines[i].clone());
            assert(texts(r@) =~= texts(before).push(lines@[i as int]@));
        }
        i = i + 1;
    }
    assert(lines@.take(lines@.len() as int) =~= lines@);
    r
}

/// The targets that the lines of an input name: each line trimmed, blank
/// ones dropped, the rest kept in their order.
pub fn targets_from_lines(lines: &Vec<String>) -> (r: Vec<String>)
    ensures
        texts(r@) == targets_of(texts(lines@)),
{
    let mut t: Vec<String> = Vec::new();
    let mut i: usize = 0;
    while i < lines.len()
        invariant
            i <= lines@.len(),
            t@.len() == i,
            forall|j: int| 0 <= j < i ==> #[trigger] t@[j]@ == trimmed(lines@[j]@),
        decreases lines@.len() - i,
    {
        t.push(trim_line(lines[i].as_str()));
        i = i + 1;
    }
    assert(texts(t@) =~= texts(lines@).map_values(|l: Seq<char>| trimmed(l)));
    keep_nonblank(&t)
}

} // verus!
