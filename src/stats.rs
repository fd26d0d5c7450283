//! The reduction of a run's outcomes into its summary statistics.

use vstd::prelude::*;
use crate::outcome::{CheckOutcome, error_token};
use crate::status::{decimal, digit_char, is_up_code};

verus! {

/// The largest `u64`, as a mathematical integer.
pub open spec fn u64_max() -> int {
    0xFFFF_FFFF_FFFF_FFFF
}

/// The summary of one run.
#[derive(Clone, Copy, Debug, PartialEq, Eq)]
pub struct RunStatistics {
    /// How many outcomes there are.
    pub total: usize,
    /// How many of them succeeded.
    pub up: usize,
    /// How many of them did not.
    pub down: usize,
    /// The mean time of the successful outcomes, rounded down; 0 when none.
    pub avg_time_ms: u64,
    /// The least time of a successful outcome; `None` when none succeeded.
    pub min_time_ms: Option<u64>,
    /// The greatest time of a successful outcome; `None` when none succeeded.
    pub max_time_ms: Option<u64>,
    /// The sum of the sizes of all outcomes, successful or not.
    pub total_size_bytes: u128,
}

/// How many outcomes of `s` succeeded.
pub open spec fn up_count(s: Seq<CheckOutcome>) -> nat
    decreases s.len(),
{
    if s.len() == 0 {
        0
    } else {
        up_count(s.drop_last()) + if s.last().success { 1nat } else { 0nat }
    }
}

/// The sum of the sizes of all outcomes of `s`.
pub open spec fn size_sum(s: Seq<CheckOutcome>) -> nat
    decreases s.len(),
{
    if s.len() == 0 {
        0
    } else {
        size_sum(s.drop_last()) + s.last().size_bytes as nat
    }
}

/// The sum of the times of the successful outcomes of `s`.
pub open spec fn up_time_sum(s: Seq<CheckOutcome>) -> nat
    decreases s.len(),
{
    if s.len() == 0 {
        0
    } else {
        up_time_sum(s.drop_last()) + if s.last().success { s.last().time_ms as nat } else { 0nat }
    }
}

/// `t` taken into a running minimum.
pub open spec fn min_with(m: Option<u64>, t: u64) -> Option<u64> {
    match m {
        None => Some(t),
        Some(v) => Some(if t < v { t } else { v }),
    }
}

/// `t` taken into a running maximum.
pub open spec fn max_with(m: Option<u64>, t: u64) -> Option<u64> {
    match m {
        None => Some(t),
        Some(v) => Some(if t > v { t } else { v }),
    }
}

/// The least time of a successful outcome of `s`, if any succeeded.
pub open spec fn up_time_min(s: Seq<CheckOutcome>) -> Option<u64>
    decreases s.len(),
{
    if s.len() == 0 {
        None
    } else if s.last().success {
        min_with(up_time_min(s.drop_last()), s.last().time_ms)
    } else {
        up_time_min(s.drop_last())
    }
}

/// The greatest time of a successful outcome of `s`, if any succeeded.
pub open spec fn up_time_max(s: Seq<CheckOutcome>) -> Option<u64>
    decreases s.len(),
{
    if s.len() == 0 {
        None
    } else if s.last().success {
        max_with(up_time_max(s.drop_last()), s.last().time_ms)
    } else {
        up_time_max(s.drop_last())
    }
}

/// The mean time of the successful outcomes of `s`, rounded down; 0 when
/// none succeeded.
pub open spec fn up_time_avg(s: Seq<CheckOutcome>) -> nat {
    if up_count(s) == 0 {
        0
    } else {
        up_time_sum(s) / up_count(s)
    }
}

/// The statistics of a run whose outcomes are `s`.
pub open spec fn statistics_of(s: Seq<CheckOutcome>) -> RunStatistics {
    RunStatistics {
        total: s.len() as usize,
        up: up_count(s) as usize,
        down: (s.len() - up_count(s)) as usize,
        avg_time_ms: up_time_avg(s) as u64,
        min_time_ms: up_time_min(s),
        max_time_ms: up_time_max(s),
        total_size_bytes: size_sum(s) as u128,
    }
}

/// The running sums of `s` stay within what their counts allow.
pub proof fn lemma_sum_bounds(s: Seq<CheckOutcome>)
    ensures
        up_count(s) <= s.len(),
        up_time_sum(s) <= up_count(s) * u64_max(),
        size_sum(s) <= s.len() * u64_max(),
    decreases s.len(),
{
    if s.len() > 0 {
        lemma_sum_bounds(s.drop_last());
    }
}

/// The mean of the successful times is at most the largest `u64`.
pub proof fn lemma_avg_bound(s: Seq<CheckOutcome>)
    ensures
        up_time_avg(s) <= u64_max(),
{
    lemma_sum_bounds(s);
    let c = up_count(s) as int;
    let t = up_time_sum(s) as int;
    if c > 0 {
        assert(t / c <= u64_max()) by (nonlinear_arith)
            requires
                t <= c * u64_max(),
                c > 0,
        ;
    }
}

/// Reduces a run's outcomes, in one pass, into its statistics.
pub fn summarize(outcomes: &Vec<CheckOutcome>) -> (r: RunStatistics)
    ensures
        r == statistics_of(outcomes@),
        r.total == outcomes.len(),
        r.up + r.down == r.total,
{
    let n = outcomes.len();
    let mut up: usize = 0;
    let mut time_sum: u128 = 0;
    let mut size_total: u128 = 0;
    let mut min_time: Option<u64> = None;
    let mut max_time: Option<u64> = None;
    let mut i: usize = 0;
    while i < n
        invariant
            i <= n,
            n == outcomes.len(),
            up == up_count(outcomes@.take(i as int)),
            time_sum == up_time_sum(outcomes@.take(i as int)),
            size_total == size_sum(outcomes@.take(i as int)),
            min_time == up_time_min(outcomes@.take(i as int)),
            max_time == up_time_max(outcomes@.take(i as int)),
        decreases n - i,
    {
        let ghost prefix = outcomes@.take(i as int);
        let ghost next = outcomes@.take(i + 1);
        proof {
            assert(next.drop_last() =~= prefix);
            lemma_sum_bounds(prefix);
        }
        let o = &outcomes[i];
        size_total = size_total + o.size_bytes as u128;
        if o.success {
            up = up + 1;
            time_sum = time_sum + o.time_ms as u128;
            min_time = match min_time {
                None => Some(o.time_ms),
                Some(m) => Some(if o.time_ms < m { o.time_ms } else { m }),
            };
            max_time = match max_time {
                None => Some(o.time_ms),
                Some(m) => Some(if o.time_ms > m { o.time_ms } else { m }),
            };
        }
        i = i + 1;
    }
    proof {
        assert(outcomes@.take(n as int) =~= outcomes@);
        lemma_sum_bounds(outcomes@);
        lemma_avg_bound(outcomes@);
    }
    let avg: u64 = if up == 0 {
        0
    } else {
        (time_sum / up as u128) as u64
    };
    RunStatistics {
        total: n,
        up,
        down: n - up,
        avg_time_ms: avg,
        min_time_ms: min_time,
        max_time_ms: max_time,
        total_size_bytes: size_total,
    }
}

/// No decimal text spells the error token: its last character is a digit.
proof fn lemma_decimal_is_not_error_token(n: nat)
    ensures
        decimal(n) != error_token(),
{
    let d = decimal(n);
    assert(d.len() > 0 && d.last() == digit_char(n % 10));
    assert(error_token().last() == 'R');
}

/// Whether every outcome of `s` records a failure to get any response.
pub open spec fn all_transport_failures(s: Seq<CheckOutcome>) -> bool {
    forall|i: int| 0 <= i < s.len() ==> #[trigger] s[i].wf() && s[i].is_transport_failure()
}

/// When no target of a run got a response, nothing is up, no time is
/// reported (the minimum and maximum are unavailable, the mean is 0), and
/// the total size is 0.
pub proof fn lemma_all_transport_failures(s: Seq<CheckOutcome>)
    requires
        all_transport_failures(s),
    ensures
        up_count(s) == 0,
        size_sum(s) == 0,
        statistics_of(s).up == 0,
        statistics_of(s).down == statistics_of(s).total,
        statistics_of(s).min_time_ms is None,
        statistics_of(s).max_time_ms is None,
        statistics_of(s).avg_time_ms == 0,
        statistics_of(s).total_size_bytes == 0,
    decreases s.len(),
{
    if s.len() > 0 {
        let p = s.drop_last();
        assert forall|i: int| 0 <= i < p.len() implies #[trigger] p[i].wf()
            && p[i].is_transport_failure() by {
            assert(p[i] == s[i]);
            assert(s[i].wf());
        }
        lemma_all_transport_failures(p);
        let o = s.last();
        assert(s[s.len() - 1].wf());
        if o.status@ != error_token() || o.success || o.size_bytes != 0 {
            let code = choose|code: u16|
                #![trigger decimal(code as nat)]
                o.status@ == decimal(code as nat) && o.success == is_up_code(code);
            lemma_decimal_is_not_error_token(code as nat);
        }
    }
}

/// The count, the number up and down and the total size of a run depend on
/// each outcome's success and size alone: two runs over the same targets
/// that got the same answers agree on them, however their times differ.
pub proof fn lemma_counts_ignore_timing(s: Seq<CheckOutcome>, t: Seq<CheckOutcome>)
    requires
        s.len() == t.len(),
        forall|i: int|
            0 <= i < s.len() ==> #[trigger] s[i].success == t[i].success && s[i].size_bytes
                == t[i].size_bytes,
    ensures
        up_count(s) == up_count(t),
        size_sum(s) == size_sum(t),
        statistics_of(s).total == statistics_of(t).total,
        statistics_of(s).up == statistics_of(t).up,
        statistics_of(s).down == statistics_of(t).down,
        statistics_of(s).total_size_bytes == statistics_of(t).total_size_bytes,
    decreases s.len(),
{
    if s.len() > 0 {
        let (ps, pt) = (s.drop_last(), t.drop_last());
        assert forall|i: int| 0 <= i < ps.len() implies #[trigger] ps[i].success == pt[i].success
            && ps[i].size_bytes == pt[i].size_bytes by {
            assert(ps[i] == s[i] && pt[i] == t[i]);
        }
        lemma_counts_ignore_timing(ps, pt);
        assert(s[s.len() - 1].success == t[t.len() - 1].success);
    }
}

/// The minimum and maximum are taken over the successful outcomes exactly:
/// they exist iff one succeeded, bound every successful time, and are each
/// the time of a successful outcome.
pub proof fn lemma_min_max_over_successes(s: Seq<CheckOutcome>)
    ensures
        up_count(s) == 0 ==> forall|i: int| 0 <= i < s.len() ==> !(#[trigger] s[i].success),
        (up_time_min(s) is Some) == (up_count(s) > 0),
        (up_time_max(s) is Some) == (up_count(s) > 0),
        up_count(s) > 0 ==> forall|i: int|
            0 <= i < s.len() && #[trigger] s[i].success ==> up_time_min(s)->0 <= s[i].time_ms
                <= up_time_max(s)->0,
        up_count(s) > 0 ==> exists|i: int|
            0 <= i < s.len() && #[trigger] s[i].success && s[i].time_ms == up_time_min(s)->0,
        up_count(s) > 0 ==> exists|i: int|
            0 <= i < s.len() && #[trigger] s[i].success && s[i].time_ms == up_time_max(s)->0,
    decreases s.len(),
{
    if s.len() > 0 {
        let p = s.drop_last();
        lemma_min_max_over_successes(p);
        let n = s.len() - 1;
        assert forall|i: int| 0 <= i < p.len() implies #[trigger] p[i] == s[i] by {}
        if up_count(p) > 0 {
            let a = choose|i: int|
                0 <= i < p.len() && #[trigger] p[i].success && p[i].time_ms == up_time_min(p)->0;
            let b = choose|i: int|
                0 <= i < p.len() && #[trigger] p[i].success && p[i].time_ms == up_time_max(p)->0;
            assert(s[a] == p[a] && s[b] == p[b]);
            assert(s[n] == s.last());
        } else {
            assert(s[n] == s.last());
        }
        assert forall|i: int| 0 <= i < s.len() && up_count(s) == 0 implies !(
        #[trigger] s[i].success) by {
            if i < n {
                assert(p[i] == s[i]);
            }
        }
        assert forall|i: int| 0 <= i < s.len() && #[trigger] s[i].success && up_count(s) > 0
            implies up_time_min(s)->0 <= s[i].time_ms <= up_time_max(s)->0 by {
            if i < n {
                assert(p[i] == s[i]);
            }
        }
    }
}

/// An outcome that did not succeed adds one to the count and to those
/// down, adds its size to the total, and leaves the successful count and
/// the times (mean, minimum, maximum) as they were.
pub proof fn lemma_unsuccessful_outcome(s: Seq<CheckOutcome>, o: CheckOutcome)
    requires
        !o.success,
    ensures
        up_count(s.push(o)) == up_count(s),
        s.push(o).len() - up_count(s.push(o)) == s.len() - up_count(s) + 1,
        size_sum(s.push(o)) == size_sum(s) + o.size_bytes,
        up_time_avg(s.push(o)) == up_time_avg(s),
        up_time_min(s.push(o)) == up_time_min(s),
        up_time_max(s.push(o)) == up_time_max(s),
{
    assert(s.push(o).drop_last() =~= s);
}

/// Taking out the outcome at `i` and adding it back last gives the same
/// counts, sums and extremes: each is a fold whose step commutes.
proof fn lemma_remove_then_add(s: Seq<CheckOutcome>, i: int)
    requires
        0 <= i < s.len(),
    ensures
        up_count(s) == up_count(s.remove(i).push(s[i])),
        size_sum(s) == size_sum(s.remove(i).push(s[i])),
        up_time_sum(s) == up_time_sum(s.remove(i).push(s[i])),
        up_time_min(s) == up_time_min(s.remove(i).push(s[i])),
        up_time_max(s) == up_time_max(s.remove(i).push(s[i])),
    decreases s.len(),
{
    let r = s.remove(i).push(s[i]);
    assert(r.drop_last() =~= s.remove(i));
    if i == s.len() - 1 {
        assert(s.remove(i) =~= s.drop_last());
        assert(r =~= s);
    } else {
        let p = s.drop_last();
        lemma_remove_then_add(p, i);
        let q = p.remove(i).push(p[i]);
        assert(q.drop_last() =~= p.remove(i));
        assert(s.remove(i).drop_last() =~= p.remove(i));
        assert(s.remove(i).last() == s.last());
        assert(p[i] == s[i]);
        assert(up_count(s.remove(i)) == up_count(p.remove(i)) + if s.last().success {
            1nat
        } else {
            0nat
        });
        assert(size_sum(s.remove(i)) == size_sum(p.remove(i)) + s.last().size_bytes as nat);
        assert(up_time_sum(s.remove(i)) == up_time_sum(p.remove(i)) + if s.last().success {
            s.last().time_ms as nat
        } else {
            0nat
        });
        assert(up_time_min(s.remove(i)) == if s.last().success {
            min_with(up_time_min(p.remove(i)), s.last().time_ms)
        } else {
            up_time_min(p.remove(i))
        });
        assert(up_time_max(s.remove(i)) == if s.last().success {
            max_with(up_time_max(p.remove(i)), s.last().time_ms)
        } else {
            up_time_max(p.remove(i))
        });
    }
}

/// The statistics of a run do not depend on the order of its outcomes:
/// any two orderings of the same outcomes have the same statistics.
pub proof fn lemma_statistics_ignore_order(s: Seq<CheckOutcome>, t: Seq<CheckOutcome>)
    requires
        s.to_multiset() == t.to_multiset(),
    ensures
        statistics_of(s) == statistics_of(t),
        up_count(s) == up_count(t),
        size_sum(s) == size_sum(t),
        up_time_sum(s) == up_time_sum(t),
        up_time_min(s) == up_time_min(t),
        up_time_max(s) == up_time_max(t),
    decreases t.len(),
{
    broadcast use vstd::seq_lib::group_to_multiset_ensures;

    if t.len() == 0 {
        assert(s.to_multiset().len() == 0);
        assert(s =~= t);
    } else {
        let x = t.last();
        let tp = t.drop_last();
        assert(t =~= tp.push(x));
        assert(t.to_multiset() =~= tp.to_multiset().insert(x));
        assert(t.contains(x)) by {
            assert(t[t.len() - 1] == x);
        }
        assert(s.to_multiset().count(x) > 0);
        assert(s.contains(x));
        let i = choose|i: int| 0 <= i < s.len() && s[i] == x;
        let sp = s.remove(i);
        assert(sp.to_multiset() =~= s.to_multiset().remove(x));
        assert(sp.to_multiset() =~= tp.to_multiset());
        lemma_statistics_ignore_order(sp, tp);
        lemma_remove_then_add(s, i);
        let r = sp.push(x);
        assert(r.drop_last() =~= sp);
        assert(s.to_multiset().len() == s.len());
        assert(t.to_multiset().len() == t.len());
    }
}

} // verus!
