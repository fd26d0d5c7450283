//! The dispatcher: which target to start next, under a cap on how many
//! checks are in flight at once, and where each finished check is kept.
//!
//! The dispatcher makes decisions only. Its driver performs each check it is
//! told to start, and hands each outcome back with `complete`.

use vstd::prelude::*;
use crate::outcome::CheckOutcome;
use crate::stats::{RunStatistics, statistics_of, summarize};

verus! {

/// What the driver of a run does next.
#[derive(Debug, PartialEq, Eq)]
pub enum DispatchAction {
    /// Start checking the target at `index`, whose text is `url`.
    Start { index: usize, url: String },
    /// Every slot is taken: wait for a check in flight to complete.
    Wait,
    /// Every target has been checked.
    Finished,
}

/// The result of a run: one outcome per target, in input order, and their
/// statistics.
#[derive(Debug, PartialEq, Eq)]
pub struct RunReport {
    pub outcomes: Vec<CheckOutcome>,
    pub stats: RunStatistics,
}

/// The admission state of one run over a list of targets.
pub struct Dispatcher {
    targets: Vec<String>,
    limit: usize,
    next: usize,
    in_flight: usize,
    slots: Vec<Option<CheckOutcome>>,
    pending: Ghost<Set<int>>,
}

impl Dispatcher {
    /// The targets of the run, in input order.
    pub closed spec fn spec_targets(&self) -> Seq<String> {
        self.targets@
    }

    /// The most checks that may be in flight at once.
    pub closed spec fn spec_limit(&self) -> nat {
        self.limit as nat
    }

    /// How many targets have been started: the first ones, in order.
    pub closed spec fn spec_started(&self) -> nat {
        self.next as nat
    }

    /// How many checks are in flight: started and not yet completed.
    pub closed spec fn spec_in_flight(&self) -> nat {
        self.in_flight as nat
    }

    /// The indices of the checks in flight.
    pub closed spec fn spec_pending(&self) -> Set<int> {
        self.pending@
    }

    /// For each target, its outcome once its check has completed.
    pub closed spec fn spec_slots(&self) -> Seq<Option<CheckOutcome>> {
        self.slots@
    }

    /// The dispatcher's invariant.
    pub open spec fn wf(&self) -> bool {
        &&& self.spec_limit() >= 1
        &&& self.spec_slots().len() == self.spec_targets().len()
        &&& self.spec_started() <= self.spec_targets().len()
        &&& self.spec_in_flight() <= self.spec_limit()
        &&& self.spec_in_flight() <= self.spec_started()
        &&& self.spec_pending().finite()
        &&& self.spec_in_flight() == self.spec_pending().len()
        &&& forall|i: int|
            #![trigger self.spec_pending().contains(i)]
            self.spec_pending().contains(i) <==> (0 <= i < self.spec_started()
                && self.spec_slots()[i] is None)
        &&& forall|i: int|
            self.spec_started() <= i < self.spec_slots().len() ==> #[trigger] self.spec_slots()[i]
                is None
        &&& forall|i: int|
            0 <= i < self.spec_slots().len() && #[trigger] self.spec_slots()[i] is Some
                ==> self.spec_slots()[i]->0.url@ == self.spec_targets()[i]@
    }

    /// Whether the check of target `index` is in flight.
    pub open spec fn is_pending(&self, index: int) -> bool {
        0 <= index < self.spec_started() && self.spec_slots()[index] is None
    }

    /// What is left to do: two steps for each target not started (its start
    /// and its completion), one for each check in flight.
    pub open spec fn work_left(&self) -> nat {
        2 * (self.spec_targets().len() - self.spec_started()) as nat + self.spec_in_flight()
    }

    /// Whether every target has been started and every check has completed.
    pub open spec fn spec_finished(&self) -> bool {
        self.spec_started() == self.spec_targets().len() && self.spec_in_flight() == 0
    }

    /// A run over `targets` with at most `limit` checks in flight at once;
    /// nothing is started yet.
    pub fn new(targets: Vec<String>, limit: usize) -> (d: Dispatcher)
        requires
            limit >= 1,
        ensures
            d.wf(),
            d.spec_targets() == targets@,
            d.spec_limit() == limit,
            d.spec_started() == 0,
            d.spec_in_flight() == 0,
            forall|i: int| 0 <= i < targets@.len() ==> #[trigger] d.spec_slots()[i] is None,
    {
        let n = targets.len();
        let mut slots: Vec<Option<CheckOutcome>> = Vec::new();
        let mut i: usize = 0;
        while i < n
            invariant
                i <= n,
                slots@.len() == i,
                forall|j: int| 0 <= j < i ==> #[trigger] slots@[j] is None,
            decreases n - i,
        {
            slots.push(None);
            i = i + 1;
        }
        Dispatcher { targets, limit, next: 0, in_flight: 0, slots, pending: Ghost(Set::empty()) }
    }

    /// How many targets the run has.
    pub fn len(&self) -> (r: usize)
        ensures
            r == self.spec_targets().len(),
    {
        self.targets.len()
    }

    /// The cap on checks in flight.
    pub fn limit(&self) -> (r: usize)
        ensures
            r == self.spec_limit(),
    {
        self.limit
    }

    /// How many checks are in flight now; never more than the cap.
    pub fn in_flight(&self) -> (r: usize)
        requires
            self.wf(),
        ensures
            r == self.spec_in_flight(),
            r <= self.spec_limit(),
    {
        self.in_flight
    }

    /// Whether every target has been checked.
    pub fn is_finished(&self) -> (r: bool)
        ensures
            r == self.spec_finished(),
    {
        self.next == self.targets.len() && self.in_flight == 0
    }

    /// Decides what the driver does next. While a target is left and a slot
    /// is free, the next target in input order is started; otherwise, while
    /// a check is in flight, the driver waits; otherwise the run is over.
    pub fn next_action(&mut self) -> (a: DispatchAction)
        requires
            old(self).wf(),
        ensures
            final(self).wf(),
            final(self).spec_targets() == old(self).spec_targets(),
            final(self).spec_limit() == old(self).spec_limit(),
            final(self).spec_slots() == old(self).spec_slots(),
            match a {
                DispatchAction::Start { index, url } => {
                    &&& old(self).spec_started() < old(self).spec_targets().len()
                    &&& old(self).spec_in_flight() < old(self).spec_limit()
                    &&& index == old(self).spec_started()
                    &&& url@ == old(self).spec_targets()[index as int]@
                    &&& final(self).spec_started() == old(self).spec_started() + 1
                    &&& final(self).spec_in_flight() == old(self).spec_in_flight() + 1
                    &&& final(self).is_pending(index as int)
                    &&& final(self).work_left() < old(self).work_left()
                },
                DispatchAction::Wait => {
                    &&& (old(self).spec_started() == old(self).spec_targets().len()
                        || old(self).spec_in_flight() == old(self).spec_limit())
                    &&& old(self).spec_in_flight() > 0
                    &&& *final(self) == *old(self)
                },
                DispatchAction::Finished => {
                    &&& old(self).spec_finished()
                    &&& *final(self) == *old(self)
                },
            },
    {
        if self.next < self.targets.len() && self.in_flight < self.limit {
            let index = self.next;
            let url = self.targets[index].clone();
            proof {
                assert(!self.pending@.contains(index as int));
                self.pending@ = self.pending@.insert(index as int);
            }
            self.next = self.next + 1;
            self.in_flight = self.in_flight + 1;
            DispatchAction::Start { index, url }
        } else if self.in_flight > 0 {
            DispatchAction::Wait
        } else {
            DispatchAction::Finished
        }
    }

    /// Hands back the outcome of the check of target `index`. It is kept
    /// when that check is in flight and the outcome is for that target's
    /// URL; its slot is then freed. Otherwise nothing changes.
    pub fn complete(&mut self, index: usize, outcome: CheckOutcome) -> (accepted: bool)
        requires
            old(self).wf(),
        ensures
            final(self).wf(),
            accepted == (old(self).is_pending(index as int) && outcome.url@
                == old(self).spec_targets()[index as int]@),
            accepted ==> {
                &&& final(self).spec_targets() == old(self).spec_targets()
                &&& final(self).spec_limit() == old(self).spec_limit()
                &&& final(self).spec_started() == old(self).spec_started()
                &&& final(self).spec_in_flight() + 1 == old(self).spec_in_flight()
                &&& final(self).spec_slots() == old(self).spec_slots().update(
                    index as int,
                    Some(outcome),
                )
                &&& final(self).work_left() < old(self).work_left()
            },
            !accepted ==> *final(self) == *old(self),
    {
        if index >= self.next || self.slots[index].is_some() {
            return false;
        }
        if outcome.url != self.targets[index] {
            return false;
        }
        proof {
            assert(self.pending@.contains(index as int));
            self.pending@ = self.pending@.remove(index as int);
        }
        self.slots[index] = Some(outcome);
        self.in_flight = self.in_flight - 1;
        true
    }

    /// The outcomes of a finished run, one per target, in input order: the
    /// outcome at `i` is the one completed for target `i`.
    pub fn into_outcomes(self) -> (r: Vec<CheckOutcome>)
        requires
            self.wf(),
            self.spec_finished(),
        ensures
            r@.len() == self.spec_targets().len(),
            forall|i: int|
                0 <= i < r@.len() ==> #[trigger] self.spec_slots()[i] == Some(r@[i]) && r@[i].url@
                    == self.spec_targets()[i]@,
    {
        let ghost filled = self.spec_slots();
        let ghost targets = self.spec_targets();
        proof {
            assert forall|i: int| 0 <= i < filled.len() implies #[trigger] filled[i] is Some by {
                if filled[i] is None {
                    assert(self.pending@.contains(i));
                }
            }
        }
        let mut slots = self.slots;
        let n = slots.len();
        let mut out: Vec<CheckOutcome> = Vec::new();
        let mut i: usize = 0;
        while i < n
            invariant
                i <= n,
                n == filled.len(),
                n == targets.len(),
                slots@.len() == n,
                out@.len() == i,
                forall|j: int| i <= j < n ==> #[trigger] slots@[j] == filled[j],
                forall|j: int| 0 <= j < i ==> filled[j] == Some(#[trigger] out@[j]),
                forall|j: int| 0 <= j < n ==> #[trigger] filled[j] is Some,
                forall|j: int|
                    0 <= j < n && #[trigger] filled[j] is Some ==> filled[j]->0.url@
                        == targets[j]@,
            decreases n - i,
        {
            let taken = slots[i].take();
            let o = taken.unwrap();
            out.push(o);
            i = i + 1;
        }
        proof {
            assert forall|j: int| 0 <= j < out@.len() implies #[trigger] filled[j] == Some(
                out@[j],
            ) && out@[j].url@ == targets[j]@ by {
                assert(filled[j] is Some);
            }
        }
        out
    }

    /// The report of a finished run: its outcomes, one per target in input
    /// order, and their statistics.
    pub fn into_report(self) -> (r: RunReport)
        requires
            self.wf(),
            self.spec_finished(),
        ensures
            r.outcomes@.len() == self.spec_targets().len(),
            forall|i: int|
                0 <= i < r.outcomes@.len() ==> #[trigger] self.spec_slots()[i] == Some(
                    r.outcomes@[i],
                ) && r.outcomes@[i].url@ == self.spec_targets()[i]@,
            r.stats == statistics_of(r.outcomes@),
            r.stats.total == self.spec_targets().len(),
            r.stats.up + r.stats.down == r.stats.total,
    {
        let outcomes = self.into_outcomes();
        let stats = summarize(&outcomes);
        RunReport { outcomes, stats }
    }
}

/// While a check is in flight there is a target whose check is pending, so
/// a driver told to wait has a completion to wait for.
pub proof fn lemma_waiting_has_pending(d: Dispatcher)
    requires
        d.wf(),
        d.spec_in_flight() > 0,
    ensures
        exists|i: int| d.is_pending(i),
{
    let p = d.spec_pending();
    if forall|i: int| !p.contains(i) {
        assert(p =~= Set::empty());
    }
    let i = choose|i: int| p.contains(i);
    assert(d.is_pending(i));
}

/// Until the run is finished the driver is never told it is over, and each
/// step that it takes, a start or a completion, brings the end nearer:
/// a run over any number of targets ends after at most twice as many steps.
pub proof fn lemma_run_ends(d: Dispatcher)
    requires
        d.wf(),
    ensures
        d.work_left() == 0 <==> d.spec_finished(),
        d.work_left() <= 2 * d.spec_targets().len(),
{
}

} // verus!
