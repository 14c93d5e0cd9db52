//! What a search of the session library finds, and in which order sessions come.

use vstd::prelude::*;
use crate::notes::domain::Session;
use crate::notes::domain::SessionSummaryView;
use crate::notes::domain::SessionView;
use crate::notes::domain::summarized;
use crate::notes::error::CoreError;
use crate::notes::store::laws::law_session_list_is_determined;
use crate::notes::store::search::before_nul;
use crate::notes::store::search::fold;
use crate::notes::store::search::found_at;
use crate::notes::store::search::hit;
use crate::notes::store::search::holds_text;
use crate::notes::store::search::law_query_matches_literally;
use crate::notes::store::search::pattern_of;
use crate::notes::store::search::text_bytes;
use crate::notes::store::search::text_length;
use crate::notes::store::sessions::lists_sessions;
use crate::notes::store::sessions::lists_summaries;
use crate::notes::store::sessions::search_refused;
use crate::notes::store::sessions::session_hit;
use crate::notes::store::Store;
use crate::notes::store::StoreView;
use crate::text::blank;
use crate::text::lex_lt;
use crate::views::seq_views;

verus! {

/// Two characters are one, or the two cases of one ASCII letter.
pub open spec fn same_letter(a: char, b: char) -> bool {
    ||| a == b
    ||| 'A' <= a <= 'Z' && b as u32 == a as u32 + 32
    ||| 'A' <= b <= 'Z' && a as u32 == b as u32 + 32
}

/// Somewhere before its first NUL the text says the query, letter by letter.
pub open spec fn says(t: Seq<char>, q: Seq<char>) -> bool {
    exists|k: int| #[trigger] says_at(t, q, k)
}

/// The text says the query from this place on, and no NUL comes before its end.
pub open spec fn says_at(t: Seq<char>, q: Seq<char>, k: int) -> bool {
    &&& 0 <= k
    &&& k + q.len() <= t.len()
    &&& forall|i: int| 0 <= i < k + q.len() ==> #[trigger] t[i] != '\0'
    &&& forall|i: int| 0 <= i < q.len() ==> same_letter(t[k + i], #[trigger] q[i])
}

proof fn lemma_fold(a: char, b: char)
    ensures
        (fold(a) == fold(b)) <==> same_letter(a, b),
{
}

proof fn lemma_until_nul(t: Seq<char>)
    ensures
        text_length(t) <= t.len(),
        forall|i: int| 0 <= i < text_length(t) ==> #[trigger] t[i] != '\0',
        text_length(t) < t.len() ==> t[text_length(t) as int] == '\0',
    decreases t.len(),
{
    if t.len() > 0 && t[0] != '\0' {
        let rest = t.drop_first();
        lemma_until_nul(rest);
        assert forall|i: int| 0 <= i < text_length(t) implies #[trigger] t[i] != '\0' by {
            if i > 0 {
                assert(rest[i - 1] == t[i]);
            }
        }
        if text_length(t) < t.len() {
            assert(rest[text_length(rest) as int] == t[text_length(t) as int]);
        }
    }
}

proof fn lemma_no_nul_is_whole(t: Seq<char>)
    requires
        !t.contains('\0'),
    ensures
        before_nul(t) == t,
{
    lemma_until_nul(t);
    if text_length(t) < t.len() {
        assert(t.contains(t[text_length(t) as int]));
    }
    assert(before_nul(t) =~= t);
}

/// A text is a hit exactly when it says the query.
proof fn lemma_hit_says(q: Seq<char>, t: Seq<char>)
    requires
        !q.contains('\0'),
    ensures
        hit(q, t) <==> says(t, q),
{
    let cut = before_nul(t);
    lemma_until_nul(t);
    assert(!cut.contains('\0')) by {
        if cut.contains('\0') {
            let i = choose|i: int| 0 <= i < cut.len() && cut[i] == '\0';
            assert(t[i] == '\0');
        }
    }
    lemma_no_nul_is_whole(cut);
    law_query_matches_literally(q, cut);
    assert(hit(q, t) == hit(q, cut));
    if holds_text(cut, q) {
        let k = choose|k: int| found_at(cut, q, k);
        assert forall|i: int| 0 <= i < q.len() implies same_letter(t[k + i], #[trigger] q[i]) by {
            assert(cut[k + i] == t[k + i]);
            lemma_fold(t[k + i], q[i]);
        }
        assert(says_at(t, q, k));
    }
    if says(t, q) {
        let k = choose|k: int| #[trigger] says_at(t, q, k);
        assert(k + q.len() <= text_length(t)) by {
            if text_length(t) < k + q.len() {
                assert(t[text_length(t) as int] != '\0');
            }
        }
        assert forall|i: int| 0 <= i < q.len() implies fold(cut[k + i]) == fold(
            #[trigger] q[i],
        ) by {
            assert(cut[k + i] == t[k + i]);
            lemma_fold(t[k + i], q[i]);
        }
        assert(found_at(cut, q, k));
    }
}

/// A search finds the sessions whose transcript says the query, whatever their
/// summary is, and those whose summary does, and no other. Letters are told apart
/// but for the case of ASCII ones, and no sign of the query means more than
/// itself.
pub proof fn law_search_finds_what_says_the_query(
    v: StoreView,
    query: Seq<char>,
    out: Seq<SessionView>,
    s: SessionView,
)
    requires
        !query.contains('\0'),
        lists_sessions(v, session_hit(query), out),
    ensures
        v.session(s.id) == Some(s) && says(s.transcript, query) ==> out.contains(s),
        v.session(s.id) == Some(s) && s.summary is Some && says(s.summary->0, query)
            ==> out.contains(s),
        out.contains(s) ==> v.session(s.id) == Some(s) && (says(s.transcript, query) || (s.summary
            is Some && says(s.summary->0, query))),
{
    lemma_hit_says(query, s.transcript);
    if s.summary is Some {
        lemma_hit_says(query, s.summary->0);
    }
    if v.session(s.id) == Some(s) && session_hit(query)(s) {
        assert(v.session(s.id) is Some);
        let i = choose|i: int| 0 <= i < out.len() && #[trigger] out[i] == v.session(s.id)->0;
        assert(out[i] == s);
    }
    if out.contains(s) {
        let i = choose|i: int| 0 <= i < out.len() && out[i] == s;
        assert(v.session(out[i].id) == Some(out[i]) && session_hit(query)(out[i]));
    }
}

/// Whatever is searched for or listed, later sessions come first, and of those
/// that started together the ones with the greater id.
pub proof fn law_later_sessions_come_first(
    v: StoreView,
    keep: spec_fn(SessionView) -> bool,
    out: Seq<SessionView>,
    i: int,
    j: int,
)
    requires
        lists_sessions(v, keep, out),
        0 <= i < j < out.len(),
        out[i].started_at <= i64::MAX,
        out[j].started_at <= i64::MAX,
    ensures
        out[i].started_at > out[j].started_at || (out[i].started_at == out[j].started_at && lex_lt(
            out[j].id,
            out[i].id,
        )),
{
}

/// A list under a condition holds the sessions that satisfy it, and no other.
pub proof fn law_list_holds_what_it_should(
    v: StoreView,
    keep: spec_fn(SessionView) -> bool,
    out: Seq<SessionView>,
    s: SessionView,
)
    requires
        lists_sessions(v, keep, out),
    ensures
        out.contains(s) ==> v.session(s.id) == Some(s) && keep(s),
        v.session(s.id) == Some(s) && keep(s) ==> out.contains(s),
{
    if v.session(s.id) == Some(s) && keep(s) {
        assert(v.session(s.id) is Some);
        let i = choose|i: int| 0 <= i < out.len() && #[trigger] out[i] == v.session(s.id)->0;
        assert(out[i] == s);
    }
    if out.contains(s) {
        let i = choose|i: int| 0 <= i < out.len() && out[i] == s;
        assert(v.session(out[i].id) == Some(out[i]) && keep(out[i]));
    }
}

/// The list without transcripts has the same sessions in the same order, and says
/// of each how long its transcript is.
pub proof fn law_summaries_stand_for_sessions(
    v: StoreView,
    keep: spec_fn(SessionView) -> bool,
    full: Seq<SessionView>,
    out: Seq<SessionSummaryView>,
    i: int,
)
    requires
        lists_sessions(v, keep, full),
        lists_summaries(v, keep, out),
        0 <= i < full.len(),
        full[i].transcript.len() <= u64::MAX,
        !full[i].transcript.contains('\0'),
    ensures
        out.len() == full.len(),
        out[i].id == full[i].id,
        out[i].job_id == full[i].job_id,
        out[i].status == full[i].status,
        out[i].summary == full[i].summary,
        out[i].started_at == full[i].started_at,
        out[i].ended_at == full[i].ended_at,
        out[i].transcript_chars == full[i].transcript.len(),
{
    let other = choose|other: Seq<SessionView>| #[trigger]
        lists_sessions(v, keep, other) && out.len() == other.len() && forall|k: int|
            0 <= k < out.len() ==> #[trigger] out[k] == summarized(other[k]);
    law_session_list_is_determined(v, keep, full, other);
    lemma_no_nul_is_whole(full[i].transcript);
    assert(out[i] == summarized(other[i]));
    assert(before_nul(full[i].transcript).len() == text_length(full[i].transcript)) by {
        lemma_until_nul(full[i].transcript);
    }
}

proof fn lemma_bytes(s: Seq<char>)
    ensures
        s.len() <= text_bytes(s) <= 4 * s.len(),
        (forall|i: int| 0 <= i < s.len() ==> (#[trigger] s[i]) as u32 <= 127) ==> text_bytes(s)
            == s.len(),
    decreases s.len(),
{
    if s.len() > 0 {
        let front = s.drop_last();
        lemma_bytes(front);
        assert(s.last() == s[s.len() - 1]);
        if forall|i: int| 0 <= i < s.len() ==> (#[trigger] s[i]) as u32 <= 127 {
            assert forall|i: int| 0 <= i < front.len() implies (#[trigger] front[i]) as u32
                <= 127 by {
                assert(front[i] == s[i]);
            }
        }
    }
}

/// A search is refused only for a pattern of more than fifty thousand bytes, and
/// only when there is a session. A pattern of so many characters is too long in
/// any script.
pub proof fn law_only_long_searches_are_refused(v: StoreView, query: Seq<char>, id: Seq<char>)
    ensures
        search_refused(v, query) ==> text_bytes(pattern_of(query)) > 50_000,
        4 * pattern_of(query).len() <= 50_000 ==> !search_refused(v, query),
        pattern_of(query).len() > 50_000 && v.session(id) is Some ==> search_refused(v, query),
        (forall|k: Seq<char>| (#[trigger] v.session(k)) is None) ==> !search_refused(v, query),
{
    lemma_bytes(pattern_of(query));
}

/// The search itself.
pub proof fn law_search_sessions(
    store: &Store,
    query: &str,
    found: Result<Vec<Session>, CoreError>,
    s: SessionView,
)
    requires
        call_ensures(Store::search_sessions, (store, query), found),
        !query@.contains('\0'),
        !blank(query@),
        text_bytes(pattern_of(query@)) <= 50_000,
    ensures
        found matches Ok(out) && (seq_views(out@).contains(s) <==> store@.session(s.id) == Some(s)
            && (says(s.transcript, query@) || (s.summary is Some && says(s.summary->0, query@)))),
{
    let out = found->Ok_0;
    law_search_finds_what_says_the_query(store@, query@, seq_views(out@), s);
}

/// The length that a summary gives is the number of characters up to the first NUL,
/// or of all of them where there is none.
pub proof fn law_length_stops_at_nul(s: Seq<char>, k: int)
    requires
        0 <= k <= s.len(),
        forall|i: int| 0 <= i < k ==> #[trigger] s[i] != '\0',
        k == s.len() || s[k] == '\0',
    ensures
        text_length(s) == k,
    decreases k,
{
    if k > 0 {
        assert(s[0] != '\0');
        let rest = s.drop_first();
        assert forall|i: int| 0 <= i < k - 1 implies #[trigger] rest[i] != '\0' by {
            assert(rest[i] == s[i + 1]);
        }
        law_length_stops_at_nul(rest, k - 1);
    }
}

/// What a summary says of a session is what the session says.
pub proof fn law_summary_of_a_session(s: SessionView, k: int)
    requires
        0 <= k <= s.transcript.len() <= u64::MAX,
        forall|i: int| 0 <= i < k ==> #[trigger] s.transcript[i] != '\0',
        k == s.transcript.len() || s.transcript[k] == '\0',
    ensures
        summarized(s).transcript_chars == k,
        summarized(s).id == s.id,
        summarized(s).job_id == s.job_id,
        summarized(s).status == s.status,
        summarized(s).summary == s.summary,
        summarized(s).started_at == s.started_at,
        summarized(s).ended_at == s.ended_at,
{
    law_length_stops_at_nul(s.transcript, k);
}

} // verus!
