//! The cost log: one row per billed run, never deleted.

use vstd::prelude::*;
use crate::harness::llm::Usage;
use crate::notes::domain::LlmUsageRow;
use crate::notes::domain::LlmUsageRowView;
use crate::notes::error::CoreError;
use crate::notes::error::CoreErrorView;
use crate::notes::store::duplicate;
use crate::notes::store::duplicate_error;
use crate::notes::store::sessions::str_option;
use crate::notes::store::Stamp;
use crate::notes::store::StampView;
use crate::notes::store::Store;
use crate::notes::store::StoreView;
use crate::text::text_eq;
use crate::views::own_option;
use crate::views::result_view;
use crate::views::seq_views;

verus! {

/// A row of the cost log as it is written.
pub open spec fn fresh_usage(
    session_id: Option<Seq<char>>,
    purpose: Seq<char>,
    usage: Usage,
    device_id: Seq<char>,
    st: StampView,
) -> LlmUsageRowView {
    LlmUsageRowView {
        id: st.id,
        session_id,
        purpose,
        input_tokens: usage.input_tokens,
        output_tokens: usage.output_tokens,
        created_at: st.now,
        device_id,
    }
}

/// Some row of the log has this id.
pub open spec fn usage_has(log: Seq<LlmUsageRowView>, id: Seq<char>) -> bool {
    exists|i: int| 0 <= i < log.len() && (#[trigger] log[i]).id == id
}

/// Logging what a run cost.
pub open spec fn usage_recorded(
    v: StoreView,
    session_id: Option<Seq<char>>,
    purpose: Seq<char>,
    usage: Usage,
    st: StampView,
) -> (StoreView, Result<LlmUsageRowView, CoreErrorView>) {
    if usage_has(v.usage, st.id) {
        (v, Err(duplicate("llm_usage.id"@)))
    } else {
        let row = fresh_usage(session_id, purpose, usage, v.device_id, st);
        (StoreView { usage: v.usage.push(row), ..v }, Ok(row))
    }
}

/// The session's rows of the log, oldest first.
pub open spec fn usage_of(log: Seq<LlmUsageRowView>, session_id: Seq<char>) -> Seq<
    LlmUsageRowView,
>
    decreases log.len(),
{
    if log.len() == 0 {
        Seq::empty()
    } else if log.last().session_id == Some(session_id) {
        usage_of(log.drop_last(), session_id).push(log.last())
    } else {
        usage_of(log.drop_last(), session_id)
    }
}

/// The input tokens of the whole log.
pub open spec fn input_total(log: Seq<LlmUsageRowView>) -> nat
    decreases log.len(),
{
    if log.len() == 0 {
        0
    } else {
        input_total(log.drop_last()) + log.last().input_tokens as nat
    }
}

/// The output tokens of the whole log.
pub open spec fn output_total(log: Seq<LlmUsageRowView>) -> nat
    decreases log.len(),
{
    if log.len() == 0 {
        0
    } else {
        output_total(log.drop_last()) + log.last().output_tokens as nat
    }
}

/// Totals never shrink as the log grows.
proof fn lemma_totals_grow(log: Seq<LlmUsageRowView>, n: int)
    requires
        0 <= n <= log.len(),
    ensures
        input_total(log.take(n)) <= input_total(log),
        output_total(log.take(n)) <= output_total(log),
    decreases log.len() - n,
{
    if n < log.len() {
        lemma_totals_grow(log, n + 1);
        assert(log.take(n + 1).drop_last() =~= log.take(n));
    } else {
        assert(log.take(n) =~= log);
    }
}

impl Store {
    /// Logs what a run cost.
    pub fn record_llm_usage(&mut self, session_id: Option<&str>, purpose: &str, usage: &Usage) -> (r:
        Result<LlmUsageRow, CoreError>)
        requires
            old(self).wf(),
        ensures
            final(self).wf(),
            exists|st: StampView| #[trigger]
                old(self)@.gives(st) && (final(self)@, result_view(r)) == usage_recorded(
                    old(self)@,
                    str_option(session_id),
                    purpose@,
                    *usage,
                    st,
                ),
    {
        let st = self.stamp();
        self.record_llm_usage_as(session_id, purpose, usage, st)
    }

    /// Logs what a run cost, under the given id and time.
    pub fn record_llm_usage_as(
        &mut self,
        session_id: Option<&str>,
        purpose: &str,
        usage: &Usage,
        st: Stamp,
    ) -> (r: Result<LlmUsageRow, CoreError>)
        requires
            old(self).wf(),
        ensures
            final(self).wf(),
            (final(self)@, result_view(r)) == usage_recorded(
                old(self)@,
                str_option(session_id),
                purpose@,
                *usage,
                st@,
            ),
    {
        if self.has_usage_id(st.id.as_str()) {
            return Err(duplicate_error("llm_usage.id"));
        }
        let row = LlmUsageRow {
            id: st.id,
            session_id: own_option(session_id),
            purpose: purpose.to_string(),
            input_tokens: usage.input_tokens,
            output_tokens: usage.output_tokens,
            created_at: st.now,
            device_id: self.device_id.clone(),
        };
        self.usage.push(row.clone());
        assert(self@.usage =~= old(self)@.usage.push(row@));
        Ok(row)
    }

    /// Whether some row of the log has this id.
    pub(crate) fn has_usage_id(&self, id: &str) -> (r: bool)
        ensures
            r == usage_has(self@.usage, id@),
    {
        let mut i: usize = 0;
        while i < self.usage.len()
            invariant
                i <= self.usage.len(),
                forall|j: int| 0 <= j < i ==> (#[trigger] self.usage@[j])@.id != id@,
            decreases self.usage.len() - i,
        {
            if text_eq(self.usage[i].id.as_str(), id) {
                assert(self@.usage[i as int].id == id@);
                return true;
            }
            i = i + 1;
        }
        false
    }

    /// The session's rows of the cost log, oldest first.
    pub fn list_llm_usage_for_session(&self, session_id: &str) -> (r: Result<
        Vec<LlmUsageRow>,
        CoreError,
    >)
        ensures
            r matches Ok(rows) && seq_views(rows@) == usage_of(self@.usage, session_id@),
    {
        let mut out: Vec<LlmUsageRow> = Vec::new();
        let mut i: usize = 0;
        assert(seq_views(out@) =~= usage_of(self@.usage.take(0), session_id@));
        while i < self.usage.len()
            invariant
                i <= self.usage.len(),
                seq_views(out@) == usage_of(self@.usage.take(i as int), session_id@),
            decreases self.usage.len() - i,
        {
            let ghost before = out@;
            proof {
                assert(self@.usage.take(i + 1).drop_last() =~= self@.usage.take(i as int));
                assert(self@.usage.take(i + 1).last() == self.usage@[i as int]@);
            }
            let mine = match &self.usage[i].session_id {
                Some(s) => text_eq(s.as_str(), session_id),
                None => false,
            };
            if mine {
                let row = self.usage[i].clone();
                out.push(row);
                assert(seq_views(out@) =~= seq_views(before).push(self.usage@[i as int]@));
            }
            i = i + 1;
        }
        assert(self@.usage.take(self@.usage.len() as int) =~= self@.usage);
        Ok(out)
    }

    /// Input and output tokens of the whole log. The database sums in signed
    /// 64-bit arithmetic and reports a sum beyond it.
    pub fn usage_totals(&self) -> (r: Result<(u64, u64), CoreError>)
        ensures
            match r {
                Ok(t) => t.0 as nat == input_total(self@.usage) && t.1 as nat == output_total(
                    self@.usage,
                ) && t.0 <= i64::MAX && t.1 <= i64::MAX,
                Err(e) => e@ == CoreErrorView::Storage("integer overflow"@) && (input_total(
                    self@.usage,
                ) > i64::MAX || output_total(self@.usage) > i64::MAX),
            },
    {
        let mut input: u64 = 0;
        let mut output: u64 = 0;
        let mut i: usize = 0;
        while i < self.usage.len()
            invariant
                i <= self.usage.len(),
                input as nat == input_total(self@.usage.take(i as int)),
                output as nat == output_total(self@.usage.take(i as int)),
                input <= 0x7fff_ffff_ffff_ffff,
                output <= 0x7fff_ffff_ffff_ffff,
            decreases self.usage.len() - i,
        {
            proof {
                assert(self@.usage.take(i + 1).drop_last() =~= self@.usage.take(i as int));
                assert(self@.usage.take(i + 1).last() == self.usage@[i as int]@);
                lemma_totals_grow(self@.usage, i + 1);
            }
            let more_in = self.usage[i].input_tokens;
            let more_out = self.usage[i].output_tokens;
            if more_in > 0x7fff_ffff_ffff_ffff - input || more_out > 0x7fff_ffff_ffff_ffff
                - output {
                return Err(CoreError::Storage("integer overflow".to_string()));
            }
            input = input + more_in;
            output = output + more_out;
            i = i + 1;
        }
        assert(self@.usage.take(self@.usage.len() as int) =~= self@.usage);
        Ok((input, output))
    }
}

} // verus!
