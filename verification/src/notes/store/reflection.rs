//! The bookkeeping that decides when to reflect.

use vstd::prelude::*;
use crate::harness::llm::Usage;
use crate::harness::reflection::policy::ReflectionSignals;
use crate::harness::reflection::policy::SignalsView;
use crate::notes::domain::SessionStatus;
use crate::notes::domain::SessionView;
use crate::notes::error::CoreError;
use crate::notes::error::CoreErrorView;
use crate::notes::store::sessions::later;
use crate::notes::store::sessions::lists_sessions;
use crate::notes::store::sessions::signed;
use crate::notes::store::StampView;
use crate::notes::store::Stamp;
use crate::notes::store::Store;
use crate::notes::store::StoreView;
use crate::notes::store::usage::usage_recorded;
use crate::ratio::Ratio;
use crate::text::blank;
use crate::text::is_blank;
use crate::views::seq_views;
use crate::views::unit_result;

verus! {

/// One more, held at the largest count there is.
pub open spec fn one_more(n: u32) -> u32 {
    if n == u32::MAX {
        n
    } else {
        (n + 1) as u32
    }
}

/// One more session counted.
pub open spec fn session_counted(v: StoreView) -> StoreView {
    StoreView {
        signals: SignalsView { sessions: one_more(v.signals.sessions), ..v.signals },
        ..v
    }
}

/// A reflection recorded: the counters start again, its churn and the time are
/// kept, and its cost is logged; all of it or nothing.
pub open spec fn reflected(v: StoreView, churn: Ratio, usage: Usage, st: StampView) -> (
    StoreView,
    Result<(), CoreErrorView>,
) {
    match usage_recorded(v, None, "reflection"@, usage, st) {
        (_, Err(e)) => (v, Err(e)),
        (w, Ok(_)) => (
            StoreView {
                signals: SignalsView {
                    sessions: 0,
                    corrections: 0,
                    completed: one_more(v.signals.completed),
                    churn: v.signals.churn.push(churn),
                },
                last_reflected_at: st.now,
                ..w
            },
            Ok(()),
        ),
    }
}

/// What a session contributes: its summary, or else its transcript.
pub open spec fn activity_text(s: SessionView) -> Seq<char> {
    match s.summary {
        Some(text) => text,
        None => s.transcript,
    }
}

/// An ended session since the last reflection that has something to say.
pub open spec fn is_activity(since: u64) -> spec_fn(SessionView) -> bool {
    |s: SessionView|
        s.status != SessionStatus::Recording && s.ended_at is Some && signed(s.ended_at->0)
            >= signed(since) && !blank(activity_text(s))
}

/// The most recent of those sessions, newest first, at most `max`.
pub open spec fn lists_activity(v: StoreView, max: nat, out: Seq<Seq<char>>) -> bool {
    exists|full: Seq<SessionView>| #[trigger]
        lists_sessions(v, is_activity(v.last_reflected_at), full) && out.len() == (if max
            < full.len() {
            max
        } else {
            full.len()
        }) && forall|i: int| 0 <= i < out.len() ==> #[trigger] out[i] == activity_text(full[i])
}

impl Store {
    /// The counters since the last reflection.
    pub fn reflection_signals(&self) -> (r: Result<ReflectionSignals, CoreError>)
        ensures
            r matches Ok(s) && s@ == self@.signals,
    {
        Ok(self.signals.clone())
    }

    /// Counts a completed session.
    pub fn record_session_completed(&mut self) -> (r: Result<(), CoreError>)
        requires
            old(self).wf(),
        ensures
            final(self).wf(),
            r is Ok,
            final(self)@ == session_counted(old(self)@),
    {
        if self.signals.sessions_since_reflection < 0xffff_ffff {
            self.signals.sessions_since_reflection = self.signals.sessions_since_reflection + 1;
        }
        Ok(())
    }

    /// Records a completed reflection and its cost.
    pub fn finish_reflection(&mut self, churn: Ratio, usage: &Usage) -> (r: Result<(), CoreError>)
        requires
            old(self).wf(),
        ensures
            final(self).wf(),
            exists|st: StampView| #[trigger]
                old(self)@.gives(st) && (final(self)@, unit_result(r)) == reflected(
                    old(self)@,
                    churn,
                    *usage,
                    st,
                ),
    {
        let st = self.stamp();
        self.finish_reflection_as(churn, usage, st)
    }

    /// The same, under the given id and time.
    pub fn finish_reflection_as(&mut self, churn: Ratio, usage: &Usage, st: Stamp) -> (r: Result<
        (),
        CoreError,
    >)
        requires
            old(self).wf(),
        ensures
            final(self).wf(),
            (final(self)@, unit_result(r)) == reflected(old(self)@, churn, *usage, st@),
    {
        let now = st.now;
        match self.record_llm_usage_as(None, "reflection", usage, st) {
            Err(e) => Err(e),
            Ok(_) => {
                self.signals.sessions_since_reflection = 0;
                self.signals.corrections_since_reflection = 0;
                if self.signals.completed_reflections < 0xffff_ffff {
                    self.signals.completed_reflections = self.signals.completed_reflections + 1;
                }
                self.signals.recent_churn.push(churn);
                self.last_reflected_at = now;
                Ok(())
            },
        }
    }

    /// What recent sessions said, for a reflection to read.
    pub fn activity_for_reflection(&self, max: usize) -> (r: Result<Vec<String>, CoreError>)
        requires
            self.wf(),
        ensures
            r matches Ok(out) && lists_activity(self@, max as nat, seq_views(out@)),
    {
        let ghost wanted = is_activity(self@.last_reflected_at);
        let mut keep: Vec<bool> = Vec::new();
        let mut i: usize = 0;
        while i < self.sessions.len()
            invariant
                i <= self.sessions.len(),
                keep.len() == i,
                wanted == is_activity(self@.last_reflected_at),
                forall|j: int|
                    0 <= j < i ==> (#[trigger] keep@[j]) == wanted(self.sessions@[j].session@),
            decreases self.sessions.len() - i,
        {
            let s = &self.sessions[i].session;
            let since = match s.ended_at {
                Some(t) => !later(self.last_reflected_at, t),
                None => false,
            };
            let says = match &s.summary {
                Some(text) => !is_blank(text.as_str()),
                None => !is_blank(s.transcript.as_str()),
            };
            keep.push(s.status != SessionStatus::Recording && since && says);
            i = i + 1;
        }
        let full = self.newest_first(&keep, Ghost(wanted));
        let ghost views = seq_views(full@);
        let mut out: Vec<String> = Vec::new();
        let mut k: usize = 0;
        while k < full.len() && k < max
            invariant
                k <= full.len(),
                k <= max,
                out.len() == k,
                forall|j: int| 0 <= j < k ==> (#[trigger] out@[j])@ == activity_text(full@[j]@),
            decreases full.len() - k,
        {
            let text = match &full[k].summary {
                Some(t) => t.clone(),
                None => full[k].transcript.clone(),
            };
            out.push(text);
            k = k + 1;
        }
        proof {
            assert(lists_sessions(self@, is_activity(self@.last_reflected_at), views));
            assert forall|j: int| 0 <= j < out.len() implies #[trigger] seq_views(out@)[j]
                == activity_text(views[j]) by {
                assert(out@[j]@ == activity_text(full@[j]@));
            }
        }
        Ok(out)
    }
}

} // verus!
