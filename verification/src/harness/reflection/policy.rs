//! When to reflect: after every session during warm-up, then less and less
//! often while reflections keep changing little, and at once after a user's
//! correction.
//!
//! The caller keeps the counters and asks whenever it has compute to spare.

use vstd::arithmetic::power2::lemma2_to64;
use vstd::arithmetic::power2::lemma_pow2_unfold;
use vstd::arithmetic::power2::pow2;
use vstd::prelude::*;
use crate::ratio::Ratio;

verus! {

/// What the cadence is decided on.
#[derive(Debug, PartialEq)]
pub struct ReflectionSignals {
    /// Sessions completed since the last reflection.
    pub sessions_since_reflection: u32,
    /// The user's corrections since the last reflection.
    pub corrections_since_reflection: u32,
    /// Reflections ever completed.
    pub completed_reflections: u32,
    /// How much recent reflections changed, oldest first.
    pub recent_churn: Vec<Ratio>,
}

/// The mathematical counterpart of [`ReflectionSignals`].
#[verifier::ext_equal]
pub struct SignalsView {
    pub sessions: u32,
    pub corrections: u32,
    pub completed: u32,
    pub churn: Seq<Ratio>,
}

impl View for ReflectionSignals {
    type V = SignalsView;

    open spec fn view(&self) -> SignalsView {
        SignalsView {
            sessions: self.sessions_since_reflection,
            corrections: self.corrections_since_reflection,
            completed: self.completed_reflections,
            churn: self.recent_churn@,
        }
    }
}

/// Nothing has happened yet.
pub open spec fn no_signals() -> SignalsView {
    SignalsView { sessions: 0, corrections: 0, completed: 0, churn: Seq::empty() }
}

impl Default for ReflectionSignals {
    fn default() -> (r: ReflectionSignals)
        ensures
            r@ == no_signals(),
    {
        ReflectionSignals {
            sessions_since_reflection: 0,
            corrections_since_reflection: 0,
            completed_reflections: 0,
            recent_churn: Vec::new(),
        }
    }
}

impl Clone for ReflectionSignals {
    fn clone(&self) -> (r: ReflectionSignals)
        ensures
            r@ == self@,
    {
        let mut churn: Vec<Ratio> = Vec::new();
        let mut i: usize = 0;
        while i < self.recent_churn.len()
            invariant
                i <= self.recent_churn.len(),
                churn@ == self.recent_churn@.take(i as int),
            decreases self.recent_churn.len() - i,
        {
            churn.push(self.recent_churn[i]);
            i = i + 1;
        }
        ReflectionSignals {
            sessions_since_reflection: self.sessions_since_reflection,
            corrections_since_reflection: self.corrections_since_reflection,
            completed_reflections: self.completed_reflections,
            recent_churn: churn,
        }
    }
}

/// How often to reflect.
#[derive(Clone, Copy, Debug)]
pub struct ReflectionPolicy {
    /// Reflect after every session until this many reflections have run.
    pub warmup_reflections: u32,
    /// Churn below this counts as nothing new learned.
    pub low_churn_threshold: Ratio,
    /// Ceiling of the interval.
    pub max_interval_sessions: u32,
}

impl Default for ReflectionPolicy {
    fn default() -> (r: ReflectionPolicy)
        ensures
            r.warmup_reflections == 5,
            r.low_churn_threshold == (Ratio { num: 1, den: 10 }),
            r.max_interval_sessions == 16,
    {
        ReflectionPolicy {
            warmup_reflections: 5,
            low_churn_threshold: Ratio { num: 1, den: 10 },
            max_interval_sessions: 16,
        }
    }
}

/// How many of the latest reflections, counted back from the newest, changed
/// little without a break.
pub open spec fn trailing_low(churn: Seq<Ratio>, threshold: Ratio) -> nat
    decreases churn.len(),
{
    if churn.len() > 0 && churn.last().lt(threshold) {
        1 + trailing_low(churn.drop_last(), threshold)
    } else {
        0
    }
}

/// One, doubled `n` times.
pub open spec fn doubled(n: nat) -> nat
    decreases n,
{
    if n == 0 {
        1
    } else {
        2 * doubled((n - 1) as nat)
    }
}

/// The smaller of two numbers.
pub open spec fn smaller(a: nat, b: nat) -> nat {
    if a < b {
        a
    } else {
        b
    }
}

impl ReflectionPolicy {
    /// The interval that the policy asks for: one during warm-up; otherwise
    /// doubled for each trailing low-churn reflection, and held at the ceiling.
    pub open spec fn interval(self, completed: u32, churn: Seq<Ratio>) -> nat {
        if completed < self.warmup_reflections {
            1
        } else {
            smaller(
                doubled(trailing_low(churn, self.low_churn_threshold)),
                self.max_interval_sessions as nat,
            )
        }
    }

    /// A reflection is due.
    pub open spec fn due(self, s: SignalsView) -> bool {
        s.sessions > 0 && (s.corrections > 0 || s.sessions >= self.interval(s.completed, s.churn))
    }

    /// Sessions to wait before the next reflection.
    pub fn required_interval(&self, completed_reflections: u32, recent_churn: &[Ratio]) -> (r: u32)
        ensures
            r as nat == self.interval(completed_reflections, recent_churn@),
    {
        if completed_reflections < self.warmup_reflections {
            return 1;
        }
        let ghost low = trailing_low(recent_churn@, self.low_churn_threshold);
        let ghost mut n: nat = 0;
        let max: u32 = self.max_interval_sessions;
        let mut left: usize = recent_churn.len();
        let mut interval: u32 = if max < 1 {
            max
        } else {
            1
        };
        assert(recent_churn@.take(left as int) =~= recent_churn@);
        while left > 0 && recent_churn[left - 1].below(&self.low_churn_threshold)
            invariant
                left <= recent_churn.len(),
                interval as nat == smaller(doubled(n), max as nat),
                low == n + trailing_low(
                    recent_churn@.take(left as int),
                    self.low_churn_threshold,
                ),
            decreases left,
        {
            assert(recent_churn@.take(left as int).drop_last() =~= recent_churn@.take(left - 1));
            left = left - 1;
            interval = if interval > max / 2 {
                max
            } else {
                interval * 2
            };
            proof {
                lemma_doubled_positive(n);
                n = n + 1;
                assert(doubled(n) == 2 * doubled((n - 1) as nat));
            }
        }
        interval
    }

    /// Whether to reflect now.
    pub fn should_reflect(&self, s: &ReflectionSignals) -> (r: bool)
        ensures
            r == self.due(s@),
    {
        if s.sessions_since_reflection == 0 {
            return false;
        }
        if s.corrections_since_reflection > 0 {
            return true;
        }
        s.sessions_since_reflection >= self.required_interval(
            s.completed_reflections,
            s.recent_churn.as_slice(),
        )
    }
}

/// Without a new session nothing is due, whatever was corrected.
pub proof fn law_no_session_no_reflection(p: ReflectionPolicy, s: SignalsView)
    requires
        s.sessions == 0,
    ensures
        !p.due(s),
{
}

/// A correction makes the next session end due, however flat the churn is.
pub proof fn law_correction_snaps_cadence_back(p: ReflectionPolicy, s: SignalsView)
    requires
        s.sessions > 0,
        s.corrections > 0,
    ensures
        p.due(s),
{
}

/// During warm-up every session is due.
pub proof fn law_warmup_reflects_every_session(p: ReflectionPolicy, s: SignalsView)
    requires
        s.sessions > 0,
        s.completed < p.warmup_reflections,
    ensures
        p.due(s),
{
}

/// After warm-up the interval never passes the ceiling, and a reflection that
/// changed much brings it back to one session.
pub proof fn law_interval_is_bounded_and_resets(
    p: ReflectionPolicy,
    completed: u32,
    churn: Seq<Ratio>,
)
    requires
        completed >= p.warmup_reflections,
    ensures
        p.interval(completed, churn) <= p.max_interval_sessions,
        churn.len() > 0 && !churn.last().lt(p.low_churn_threshold) ==> p.interval(completed, churn)
            <= 1,
{
}

/// One more low-churn reflection doubles the interval, until the ceiling.
pub proof fn law_low_churn_doubles_the_interval(
    p: ReflectionPolicy,
    completed: u32,
    churn: Seq<Ratio>,
    next: Ratio,
)
    requires
        completed >= p.warmup_reflections,
        next.lt(p.low_churn_threshold),
        2 * p.interval(completed, churn) <= p.max_interval_sessions,
    ensures
        p.interval(completed, churn.push(next)) == 2 * p.interval(completed, churn),
{
    assert(churn.push(next).drop_last() =~= churn);
    let n = trailing_low(churn, p.low_churn_threshold);
    assert(doubled(n + 1) == 2 * doubled(n));
    lemma_doubled_positive(n);
}

proof fn lemma_doubled_positive(n: nat)
    ensures
        doubled(n) >= 1,
    decreases n,
{
    if n > 0 {
        lemma_doubled_positive((n - 1) as nat);
    }
}

/// Once due, a further session leaves it due.
pub proof fn law_more_sessions_stay_due(p: ReflectionPolicy, s: SignalsView, more: SignalsView)
    requires
        p.due(s),
        more.sessions >= s.sessions,
        more.corrections == s.corrections,
        more.completed == s.completed,
        more.churn == s.churn,
    ensures
        p.due(more),
{
}

proof fn lemma_doubled_is_a_power(n: nat)
    ensures
        doubled(n) == pow2(n),
    decreases n,
{
    if n == 0 {
        lemma2_to64();
    } else {
        lemma_doubled_is_a_power((n - 1) as nat);
        lemma_pow2_unfold(n);
    }
}

proof fn lemma_trailing(churn: Seq<Ratio>, threshold: Ratio, k: nat)
    requires
        k <= churn.len(),
        forall|i: int| churn.len() - k <= i < churn.len() ==> (#[trigger] churn[i]).lt(threshold),
        k == churn.len() || !churn[churn.len() - k - 1].lt(threshold),
    ensures
        trailing_low(churn, threshold) == k,
    decreases k,
{
    if k > 0 {
        let before = churn.drop_last();
        assert(churn[churn.len() - 1].lt(threshold));
        assert forall|i: int| before.len() - (k - 1) <= i < before.len() implies (
        #[trigger] before[i]).lt(threshold) by {
            assert(before[i] == churn[i]);
        }
        lemma_trailing(before, threshold, (k - 1) as nat);
    } else if churn.len() > 0 {
        assert(!churn[churn.len() - 1].lt(threshold));
    }
}

/// The interval after warm-up, said of the churns themselves: when exactly the
/// last `k` reflections changed little, it is two to the power of `k`, or the
/// ceiling if that is less. So right after a reflection that changed much it is
/// one.
pub proof fn law_interval_is_a_power_of_two(
    p: ReflectionPolicy,
    completed: u32,
    churn: Seq<Ratio>,
    k: nat,
)
    requires
        completed >= p.warmup_reflections,
        k <= churn.len(),
        forall|i: int|
            churn.len() - k <= i < churn.len() ==> (#[trigger] churn[i]).lt(p.low_churn_threshold),
        k == churn.len() || !churn[churn.len() - k - 1].lt(p.low_churn_threshold),
    ensures
        pow2(k) <= p.max_interval_sessions ==> p.interval(completed, churn) == pow2(k),
        pow2(k) > p.max_interval_sessions ==> p.interval(completed, churn)
            == p.max_interval_sessions,
        k == 0 && p.max_interval_sessions >= 1 ==> p.interval(completed, churn) == 1,
{
    lemma_trailing(churn, p.low_churn_threshold, k);
    lemma_doubled_is_a_power(k);
    lemma2_to64();
}

/// During warm-up the interval is one session, whatever the churns are.
pub proof fn law_warmup_interval_is_one(p: ReflectionPolicy, completed: u32, churn: Seq<Ratio>)
    requires
        completed < p.warmup_reflections,
    ensures
        p.interval(completed, churn) == 1,
{
}

/// Without corrections a reflection is due after as many sessions as the interval
/// asks for, at least one, and not before.
pub proof fn law_due_when_the_interval_is_over(p: ReflectionPolicy, s: SignalsView)
    requires
        s.corrections == 0,
    ensures
        p.due(s) <==> s.sessions >= 1 && s.sessions >= p.interval(s.completed, s.churn),
{
}

/// The wait that is asked for: one session while warming up; afterwards one session
/// doubled for every reflection in a row, up to now, that changed little, as far as
/// the ceiling allows.
pub proof fn law_required_interval(
    p: &ReflectionPolicy,
    completed: u32,
    churn: &[Ratio],
    r: u32,
    k: nat,
)
    requires
        call_ensures(ReflectionPolicy::required_interval, (p, completed, churn), r),
    ensures
        completed < p.warmup_reflections ==> r == 1,
        completed >= p.warmup_reflections ==> r <= p.max_interval_sessions,
        completed >= p.warmup_reflections && p.max_interval_sessions > 0 ==> r > 0,
        completed >= p.warmup_reflections && k <= churn@.len() && (forall|i: int|
            churn@.len() - k <= i < churn@.len() ==> (#[trigger] churn@[i]).lt(
                p.low_churn_threshold,
            )) && (k < churn@.len() ==> !churn@[churn@.len() - k - 1].lt(p.low_churn_threshold))
            ==> r == (if pow2(k) > p.max_interval_sessions {
            p.max_interval_sessions as nat
        } else {
            pow2(k)
        }),
{
    if completed >= p.warmup_reflections {
        if k <= churn@.len() && (forall|i: int|
            churn@.len() - k <= i < churn@.len() ==> (#[trigger] churn@[i]).lt(
                p.low_churn_threshold,
            )) && (k < churn@.len() ==> !churn@[churn@.len() - k - 1].lt(p.low_churn_threshold)) {
            law_interval_is_a_power_of_two(*p, completed, churn@, k);
        }
        lemma_doubled_is_a_power(trailing_low(churn@, p.low_churn_threshold));
        vstd::arithmetic::power2::lemma_pow2_pos(trailing_low(churn@, p.low_churn_threshold));
    }
}

/// A reflection is due after a session, at once when the user corrected something,
/// and otherwise once as many sessions as the interval asks for are over.
pub proof fn law_should_reflect(
    p: &ReflectionPolicy,
    s: &ReflectionSignals,
    r: bool,
    churn: &[Ratio],
    wait: u32,
)
    requires
        call_ensures(ReflectionPolicy::should_reflect, (p, s), r),
        churn@ == s@.churn,
        call_ensures(
            ReflectionPolicy::required_interval,
            (p, s.completed_reflections, churn),
            wait,
        ),
    ensures
        s.sessions_since_reflection == 0 ==> !r,
        s.sessions_since_reflection > 0 && s@.corrections > 0 ==> r,
        s.sessions_since_reflection > 0 && s@.corrections == 0 ==> (r
            <==> s.sessions_since_reflection >= wait),
{
}

} // verus!
