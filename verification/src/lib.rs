//! Escape-time kernel for the quadratic recurrence z <- z^2 + c.
//!
//! For a point c of the complex plane, the escape-time count is the number of
//! iterations of z <- z^2 + c (starting from z = 0) completed before the
//! orbit's squared magnitude first exceeds the squared escape radius, capped
//! at a caller-supplied iteration budget.  Each iteration makes exactly one
//! escape check, against the orbit value *before* that iteration's update, so
//! the count reports iterations survived, not iterations attempted.
//!
//! The floating-point arithmetic that produces each check's outcome lives
//! with the caller; this crate holds the counting logic itself, stated and
//! verified over the sequence of check outcomes.  `escape_time_of` is the
//! mathematical definition, `Evaluator` is the incremental form that a
//! rendering loop drives one check at a time, and `escape_count` is the batch
//! form over precomputed outcomes.

use vstd::prelude::*;

verus! {

/// The escape-time count determined by a sequence of per-iteration escape
/// checks under an iteration cap: the index of the first check that reported
/// escape, if that index is below `cap`, and `cap` otherwise.  A check beyond
/// the end of `checks` counts as not escaped.
pub open spec fn escape_time_of(checks: Seq<bool>, cap: nat) -> nat
    decreases cap,
{
    if cap == 0 {
        0
    } else if checks.len() == 0 {
        cap
    } else if checks[0] {
        0
    } else {
        1 + escape_time_of(checks.skip(1), (cap - 1) as nat)
    }
}

/// The result never exceeds the iteration cap, whatever the checks report.
pub proof fn lemma_escape_time_bounded(checks: Seq<bool>, cap: nat)
    ensures
        escape_time_of(checks, cap) <= cap,
    decreases cap,
{
    if cap == 0 || checks.len() == 0 || checks[0] {
    } else {
        lemma_escape_time_bounded(checks.skip(1), (cap - 1) as nat);
    }
}

/// A zero iteration budget yields a count of zero, whatever the checks report.
pub proof fn lemma_zero_budget(checks: Seq<bool>)
    ensures
        escape_time_of(checks, 0) == 0,
{
}

/// A point whose checks never report escape within the cap consumes the full
/// budget: the count then equals the cap exactly.
pub proof fn lemma_no_escape_full_budget(checks: Seq<bool>, cap: nat)
    requires
        forall|j: int| 0 <= j < cap && j < checks.len() ==> !checks[j],
    ensures
        escape_time_of(checks, cap) == cap,
    decreases cap,
{
    if cap == 0 || checks.len() == 0 {
    } else {
        assert(!checks[0]);
        assert forall|j: int|
            0 <= j < cap - 1 && j < checks.skip(1).len() implies !checks.skip(1)[j] by {
            assert(checks.skip(1)[j] == checks[j + 1]);
        }
        lemma_no_escape_full_budget(checks.skip(1), (cap - 1) as nat);
    }
}

/// The count names the iteration whose check first reported escape: if the
/// check at index `k` is the first to report escape and `k` is below the cap,
/// the count is exactly `k` — the number of updates completed before the
/// escape was detected, not counting the one that would have followed.
pub proof fn lemma_first_escape_index(checks: Seq<bool>, cap: nat, k: nat)
    requires
        k < cap,
        k < checks.len(),
        checks[k as int],
        forall|j: int| 0 <= j < k ==> !checks[j],
    ensures
        escape_time_of(checks, cap) == k,
    decreases k,
{
    if k == 0 {
    } else {
        assert(!checks[0]);
        assert(checks.skip(1)[k - 1] == checks[k as int]);
        assert forall|j: int| 0 <= j < k - 1 implies !checks.skip(1)[j] by {
            assert(checks.skip(1)[j] == checks[j + 1]);
        }
        lemma_first_escape_index(checks.skip(1), (cap - 1) as nat, (k - 1) as nat);
    }
}

/// Raising the iteration cap never lowers the count: with the same checks, a
/// larger budget reports an escape time at least as large.
pub proof fn lemma_cap_monotonic(checks: Seq<bool>, cap1: nat, cap2: nat)
    requires
        cap1 <= cap2,
    ensures
        escape_time_of(checks, cap1) <= escape_time_of(checks, cap2),
    decreases cap1,
{
    if cap1 == 0 || checks.len() == 0 || checks[0] {
        lemma_escape_time_bounded(checks, cap1);
        lemma_escape_time_bounded(checks, cap2);
    } else {
        lemma_cap_monotonic(checks.skip(1), (cap1 - 1) as nat, (cap2 - 1) as nat);
    }
}

/// An escape found within a cap is final: raising the cap leaves the count
/// unchanged once it fell strictly below the smaller cap.
pub proof fn lemma_escape_pinned(checks: Seq<bool>, cap1: nat, cap2: nat)
    requires
        cap1 <= cap2,
        escape_time_of(checks, cap1) < cap1,
    ensures
        escape_time_of(checks, cap2) == escape_time_of(checks, cap1),
    decreases cap1,
{
    if cap1 == 0 || checks.len() == 0 || checks[0] {
    } else {
        lemma_escape_pinned(checks.skip(1), (cap1 - 1) as nat, (cap2 - 1) as nat);
    }
}

/// The escape-time count over precomputed check outcomes: `checks[k]` holds
/// exactly when the orbit's squared magnitude before iteration `k`'s update
/// exceeded the squared escape radius.  Outcomes beyond the end of `checks`
/// count as not escaped, so a caller may supply fewer than `max_iterations`
/// of them.
pub fn escape_count(checks: &Vec<bool>, max_iterations: u32) -> (count: u32)
    ensures
        count == escape_time_of(checks@, max_iterations as nat),
        count <= max_iterations,
{
    let mut i: u32 = 0;
    while i < max_iterations
        invariant
            i <= max_iterations,
            forall|j: int| 0 <= j < i && j < checks@.len() ==> !checks@[j],
        decreases max_iterations - i,
    {
        if (i as usize) < checks.len() && checks[i as usize] {
            proof {
                lemma_first_escape_index(checks@, max_iterations as nat, i as nat);
            }
            return i;
        }
        i = i + 1;
    }
    proof {
        lemma_no_escape_full_budget(checks@, max_iterations as nat);
    }
    max_iterations
}

/// The escape-time evaluation, driven one iteration at a time.
///
/// A caller that owns the floating-point orbit state creates an `Evaluator`
/// with the iteration cap, and while `is_done` is false makes one escape
/// check (squared magnitude strictly greater than the squared escape radius,
/// on the orbit value *before* this iteration's update), hands the outcome to
/// `record`, and updates the orbit only when the outcome was false.  Once
/// `is_done` holds, `result` returns the escape-time count for the sequence
/// of outcomes seen.
pub struct Evaluator {
    max_iterations: u32,
    recorded: u32,
    escaped: bool,
    checks: Ghost<Seq<bool>>,
}

impl Evaluator {
    /// The iteration cap this evaluator was created with.
    pub closed spec fn cap(self) -> u32 {
        self.max_iterations
    }

    /// The check outcomes recorded so far, in the order they were recorded.
    pub closed spec fn checks(self) -> Seq<bool> {
        self.checks@
    }

    /// Whether the most recent recorded check reported escape.
    pub closed spec fn has_escaped(self) -> bool {
        self.escaped
    }

    /// Well-formedness: the evaluator stops accepting outcomes as soon as one
    /// reports escape, so at most the last recorded outcome is true, and no
    /// more than `cap` outcomes are ever recorded.
    pub closed spec fn wf(self) -> bool {
        &&& self.recorded == self.checks@.len()
        &&& self.recorded <= self.max_iterations
        &&& (forall|j: int| 0 <= j < self.checks@.len() - 1 ==> !self.checks@[j])
        &&& (self.escaped <==> self.checks@.len() > 0 && self.checks@.last())
    }

    /// The evaluation is over once a check reported escape or the budget is
    /// exhausted.
    pub open spec fn done(self) -> bool {
        self.has_escaped() || self.checks().len() == self.cap()
    }

    /// A fresh evaluation with the given iteration budget; with a zero budget
    /// it is over before any check is made.
    pub fn new(max_iterations: u32) -> (ev: Evaluator)
        ensures
            ev.wf(),
            ev.cap() == max_iterations,
            ev.checks() == Seq::<bool>::empty(),
            !ev.has_escaped(),
            ev.done() <==> max_iterations == 0,
    {
        Evaluator { max_iterations, recorded: 0, escaped: false, checks: Ghost(Seq::empty()) }
    }

    /// Whether the evaluation is over: no further check outcome is accepted.
    pub fn is_done(&self) -> (b: bool)
        requires
            self.wf(),
        ensures
            b == self.done(),
    {
        self.escaped || self.recorded == self.max_iterations
    }

    /// Record the outcome of this iteration's escape check.
    pub fn record(&mut self, escaped_now: bool)
        requires
            old(self).wf(),
            !old(self).done(),
        ensures
            final(self).wf(),
            final(self).cap() == old(self).cap(),
            final(self).checks() == old(self).checks().push(escaped_now),
            final(self).has_escaped() == escaped_now,
            final(self).done() == (escaped_now || old(self).checks().len() + 1
                == old(self).cap()),
    {
        self.recorded = self.recorded + 1;
        self.escaped = escaped_now;
        proof {
            self.checks@ = self.checks@.push(escaped_now);
        }
    }

    /// The escape-time count: the index of the check that reported escape, or
    /// the full budget if none did.
    pub fn result(&self) -> (count: u32)
        requires
            self.wf(),
            self.done(),
        ensures
            count == escape_time_of(self.checks(), self.cap() as nat),
            count <= self.cap(),
    {
        if self.escaped {
            proof {
                lemma_first_escape_index(
                    self.checks@,
                    self.max_iterations as nat,
                    (self.recorded - 1) as nat,
                );
            }
            self.recorded - 1
        } else {
            proof {
                lemma_no_escape_full_budget(self.checks@, self.max_iterations as nat);
            }
            self.max_iterations
        }
    }
}

} // verus!
