//! What a score says, in terms of what was expected and what was extracted.

use vstd::prelude::*;
use crate::evals::corpus::PersonView;
use crate::evals::corpus::TruthView;
use crate::evals::grade::all_tokenized;
use crate::evals::grade::bumped;
use crate::evals::grade::confusion_index;
use crate::evals::grade::confusions;
use crate::evals::grade::ConfusionView;
use crate::evals::grade::distracted;
use crate::evals::grade::distractor_count_of;
use crate::evals::grade::f_half_of;
use crate::evals::grade::from_counts;
use crate::evals::grade::graded;
use crate::evals::grade::kind_count;
use crate::evals::grade::kind_score;
use crate::evals::grade::kinds_in;
use crate::evals::grade::mixup;
use crate::evals::grade::ObservedView;
use crate::evals::grade::people_matched;
use crate::evals::grade::person_index;
use crate::evals::grade::same_person;
use crate::evals::grade::ScenarioScore;
use crate::evals::matching::alike;
use crate::evals::matching::all_free;
use crate::evals::matching::candidate;
use crate::evals::matching::law_pairs_are_one_to_one;
use crate::evals::matching::matched;
use crate::evals::matching::paired;
use crate::evals::matching::taken_before;
use crate::evals::matching::taken_count;
use crate::evals::matching::taken_next;
use crate::evals::matching::TokenizedView;
use crate::evals::normalize::ascending;
use crate::evals::normalize::dice_of;
use crate::evals::normalize::gives_token;
use crate::evals::normalize::plural;
use crate::evals::normalize::singular;
use crate::evals::normalize::stopword;
use crate::evals::normalize::text_bytes;
use crate::evals::normalize::tokens_in;
use crate::evals::normalize::tokens_of;
use crate::ratio::Ratio;
use crate::views::seq_views;

verus! {

/// The fraction is worth as much as the one of these two counts, or nothing when
/// the second is zero.
pub open spec fn is_share(r: Ratio, part: nat, whole: nat) -> bool {
    &&& r.den > 0
    &&& whole > 0 ==> r.num * whole == part * r.den
    &&& whole == 0 ==> r.num == 0
}

/// Precision is the share of what was extracted that was right, recall the share
/// of what was expected that was found, and their balance and the headline weigh
/// what was made up and what was missed: equally the one, four to one the other.
pub proof fn law_scores_are_shares(tp: usize, fp: usize, missed: usize)
    requires
        5 * tp + 4 * fp + missed <= u64::MAX,
    ensures
        from_counts(tp, fp, missed).true_positives == tp,
        from_counts(tp, fp, missed).false_positives == fp,
        from_counts(tp, fp, missed).false_negatives == missed,
        is_share(from_counts(tp, fp, missed).precision, tp as nat, (tp + fp) as nat),
        is_share(from_counts(tp, fp, missed).recall, tp as nat, (tp + missed) as nat),
        is_share(
            from_counts(tp, fp, missed).f1,
            (2 * tp) as nat,
            (2 * tp + fp + missed) as nat,
        ),
        is_share(f_half_of(tp, fp, missed), (5 * tp) as nat, (5 * tp + 4 * fp + missed) as nat),
{
    assert(forall|x: int, y: int| #[trigger] (x * y) == y * x) by (nonlinear_arith);
}

/// To miss more lowers the recall and leaves the precision; to make up more
/// lowers the precision and leaves the recall. Either lowers the balance and the
/// headline.
pub proof fn law_mistakes_cost(tp: usize, fp: usize, missed: usize, more: usize)
    requires
        tp > 0,
        more > 0,
        5 * tp + 4 * (fp + more) + missed + more <= u64::MAX,
        fp + more <= usize::MAX,
        missed + more <= usize::MAX,
    ensures
        from_counts(tp, fp, (missed + more) as usize).recall.lt(from_counts(tp, fp, missed).recall),
        from_counts(tp, fp, (missed + more) as usize).precision == from_counts(
            tp,
            fp,
            missed,
        ).precision,
        from_counts(tp, fp, (missed + more) as usize).f1.lt(from_counts(tp, fp, missed).f1),
        f_half_of(tp, fp, (missed + more) as usize).lt(f_half_of(tp, fp, missed)),
        from_counts(tp, (fp + more) as usize, missed).precision.lt(
            from_counts(tp, fp, missed).precision,
        ),
        from_counts(tp, (fp + more) as usize, missed).recall == from_counts(tp, fp, missed).recall,
        from_counts(tp, (fp + more) as usize, missed).f1.lt(from_counts(tp, fp, missed).f1),
        f_half_of(tp, (fp + more) as usize, missed).lt(f_half_of(tp, fp, missed)),
{
    assert forall|a: int, b: int, c: int| a > 0 && 0 <= b < c implies #[trigger] (a * b)
        < #[trigger] (a * c) by {
        assert(a * b < a * c) by (nonlinear_arith)
            requires
                a > 0,
                b < c,
        ;
    }
    let a = 5 * tp + 4 * fp + missed;
    assert((tp as int) * (tp + missed) < (tp as int) * (tp + missed + more));
    assert((tp as int) * (tp + fp) < (tp as int) * (tp + fp + more));
    assert((2 * tp) * (2 * tp + fp + missed) < (2 * tp) * (2 * tp + fp + missed + more));
    assert((5 * tp) * a < (5 * tp) * (a + more));
    assert((5 * tp) * a < (5 * tp) * (a + 4 * more));
}

/// Two sets of words say the same when at least half of their words are shared:
/// the shared words, counted in both sets, are at least half of all words.
pub proof fn law_alike_is_half_shared(a: Set<Seq<char>>, b: Set<Seq<char>>)
    requires
        a.finite(),
        b.finite(),
        a.len() + b.len() <= u64::MAX,
    ensures
        is_share(dice_of(a, b), 2 * a.intersect(b).len(), a.len() + b.len()),
        alike(a, b) <==> a.len() + b.len() > 0 && 4 * a.intersect(b).len() >= a.len() + b.len(),
        alike(a, b) == alike(b, a),
{
    assert(forall|x: int, y: int| #[trigger] (x * y) == y * x) by (nonlinear_arith);
    vstd::set_lib::lemma_len_intersect(a, b);
    vstd::set_lib::lemma_len_intersect(b, a);
    assert(a.intersect(b) =~= b.intersect(a));
}

/// The words that do not count.
pub open spec fn stop_list() -> Seq<Seq<char>> {
    seq![
        "the"@, "a"@, "an"@, "to"@, "of"@, "for"@, "and"@, "or"@, "is"@, "are"@, "was"@, "were"@,
        "on"@, "in"@, "at"@, "we"@, "i"@, "it"@, "that"@, "this"@, "with"@, "need"@, "needs"@,
    ]
}

/// The words that do not count are those of the list, and no other.
pub proof fn law_only_listed_words_are_dropped(w: Seq<char>)
    ensures
        stopword(w) <==> stop_list().contains(w),
{
    let l = stop_list();
    if stopword(w) {
        assert(l[0] == "the"@ && l[1] == "a"@ && l[2] == "an"@ && l[3] == "to"@ && l[4] == "of"@);
        assert(l[5] == "for"@ && l[6] == "and"@ && l[7] == "or"@ && l[8] == "is"@);
        assert(l[9] == "are"@ && l[10] == "was"@ && l[11] == "were"@ && l[12] == "on"@);
        assert(l[13] == "in"@ && l[14] == "at"@ && l[15] == "we"@ && l[16] == "i"@);
        assert(l[17] == "it"@ && l[18] == "that"@ && l[19] == "this"@ && l[20] == "with"@);
        assert(l[21] == "need"@ && l[22] == "needs"@);
    }
    if l.contains(w) {
        let i = choose|i: int| 0 <= i < l.len() && l[i] == w;
        assert(l.len() == 23);
    }
}

/// The length of an ASCII text in bytes is its length in characters, and lengths
/// add up.
pub proof fn law_bytes_add_up(a: Seq<char>, b: Seq<char>)
    ensures
        text_bytes(a + b) == text_bytes(a) + text_bytes(b),
        a.len() <= text_bytes(a) <= 4 * a.len(),
        (forall|i: int| 0 <= i < a.len() ==> (#[trigger] a[i]) as u32 <= 127) <==> text_bytes(a)
            == a.len(),
    decreases a.len() + b.len(),
{
    if b.len() > 0 {
        assert((a + b).drop_last() =~= a + b.drop_last());
        law_bytes_add_up(a, b.drop_last());
    } else {
        assert(a + b =~= a);
        if a.len() > 0 {
            let front = a.drop_last();
            law_bytes_add_up(front, b);
            assert(front + b =~= front);
            assert(a.last() == a[a.len() - 1]);
            if forall|i: int| 0 <= i < a.len() ==> (#[trigger] a[i]) as u32 <= 127 {
                assert forall|i: int| 0 <= i < front.len() implies (#[trigger] front[i]) as u32
                    <= 127 by {
                    assert(front[i] == a[i]);
                }
            }
            if text_bytes(a) == a.len() {
                assert forall|i: int| 0 <= i < a.len() implies (#[trigger] a[i]) as u32 <= 127 by {
                    if i < front.len() {
                        assert(front[i] == a[i]);
                    }
                }
            }
        }
    }
}

/// A word loses at most one `s` at its end. It loses it when it has more than
/// three bytes and does not end in two.
pub proof fn law_only_a_plural_s_goes(w: Seq<char>)
    ensures
        w.len() > 0 && w.last() == 's' && text_bytes(w) > 3 && (w.len() == 1 || w[w.len() - 2]
            != 's') ==> singular(w).push('s') == w,
        !(w.len() > 0 && w.last() == 's' && text_bytes(w) > 3 && (w.len() == 1 || w[w.len() - 2]
            != 's')) ==> singular(w) == w,
{
    if plural(w) {
        assert(singular(w).push('s') =~= w);
    }
}

/// The words of a text are its runs of word characters that no word character
/// adjoins, without those that do not count, and without a plural `s`.
pub proof fn law_words_are_whole_runs(
    chars: Seq<char>,
    mask: Seq<bool>,
    i: int,
    j: int,
    t: Seq<char>,
)
    requires
        mask.len() == chars.len(),
    ensures
        0 <= i < j <= chars.len() && (forall|k: int| i <= k < j ==> #[trigger] mask[k]) && (i == 0
            || !mask[i - 1]) && (j == chars.len() || !mask[j]) && !stop_list().contains(
            chars.subrange(i, j),
        ) ==> tokens_in(chars, mask).contains(singular(chars.subrange(i, j))),
        tokens_in(chars, mask).contains(t) ==> exists|a: int, b: int|
            #![trigger chars.subrange(a, b)]
            0 <= a < b <= chars.len() && (forall|k: int| a <= k < b ==> #[trigger] mask[k]) && (a
                == 0 || !mask[a - 1]) && (b == chars.len() || !mask[b]) && !stop_list().contains(
                chars.subrange(a, b),
            ) && t == singular(chars.subrange(a, b)),
{
    law_only_listed_words_are_dropped(chars.subrange(i, j));
    if 0 <= i < j <= chars.len() && (forall|k: int| i <= k < j ==> #[trigger] mask[k]) && (i == 0
        || !mask[i - 1]) && (j == chars.len() || !mask[j]) && !stop_list().contains(
        chars.subrange(i, j),
    ) {
        assert(gives_token(chars, mask, i, j, singular(chars.subrange(i, j))));
    }
    if tokens_in(chars, mask).contains(t) {
        let (a, b) = choose|a: int, b: int| gives_token(chars, mask, a, b, t);
        law_only_listed_words_are_dropped(chars.subrange(a, b));
    }
}

/// A pair of an expected and an extracted item.
pub open spec fn fits(
    exp: Seq<TokenizedView>,
    obs: Seq<TokenizedView>,
    p: (int, int),
) -> bool {
    &&& 0 <= p.0 < exp.len()
    &&& 0 <= p.1 < obs.len()
    &&& exp[p.0].kind == obs[p.1].kind
    &&& alike(exp[p.0].tokens, obs[p.1].tokens)
}

/// The expected person is checked by name, and by trade only when one is expected.
pub proof fn law_people_are_told_apart(e: PersonView, o: PersonView)
    ensures
        same_person(e, o) ==> alike(tokens_of(e.name), tokens_of(o.name)),
        e.trade is None ==> same_person(e, o) == alike(tokens_of(e.name), tokens_of(o.name)),
        e.trade is Some && o.trade is None ==> !same_person(e, o),
        e.trade is Some && o.trade is Some ==> (same_person(e, o) <==> alike(
            tokens_of(e.name),
            tokens_of(o.name),
        ) && alike(tokens_of(e.trade->0), tokens_of(o.trade->0))),
{
}

proof fn lemma_person_found(e: PersonView, obs: Seq<PersonView>, used: Seq<bool>, from: int)
    requires
        0 <= from,
    ensures
        match person_index(e, obs, used, from) {
            Some(i) => from <= i < obs.len() && !used[i] && same_person(e, obs[i]),
            None => forall|i: int|
                from <= i < obs.len() && !used[i] ==> !same_person(e, #[trigger] obs[i]),
        },
    decreases obs.len() - from,
{
    if from < obs.len() {
        lemma_person_found(e, obs, used, from + 1);
    }
}

proof fn lemma_people(exp: Seq<PersonView>, obs: Seq<PersonView>, n: nat)
    requires
        n <= exp.len(),
    ensures
        people_matched(exp, obs, n).0.len() == obs.len(),
        people_matched(exp, obs, n).1 == taken_count(people_matched(exp, obs, n).0),
        people_matched(exp, obs, n).1 <= n,
        forall|j: int|
            0 <= j < obs.len() && people_matched(exp, obs, n).0[j] ==> exists|i: int|
                0 <= i < n && same_person(#[trigger] exp[i], obs[j]),
    decreases n,
{
    if n == 0 {
        lemma_none_taken(obs.len());
    } else {
        lemma_people(exp, obs, (n - 1) as nat);
        let before = people_matched(exp, obs, (n - 1) as nat);
        lemma_person_found(exp[n - 1], obs, before.0, 0);
        if let Some(i) = person_index(exp[n - 1], obs, before.0, 0) {
            lemma_one_more_taken(before.0, i);
            assert(same_person(exp[n - 1], obs[i]));
        }
        assert forall|j: int| 0 <= j < obs.len() && people_matched(exp, obs, n).0[j] implies exists|
            i: int,
        |
            0 <= i < n && same_person(#[trigger] exp[i], obs[j]) by {
            if before.0[j] {
                let i = choose|i: int| 0 <= i < n - 1 && same_person(#[trigger] exp[i], obs[j]);
                assert(same_person(exp[i], obs[j]));
            } else {
                assert(same_person(exp[n - 1], obs[j]));
            }
        }
    }
}

proof fn lemma_none_taken(n: nat)
    ensures
        taken_count(all_free(n)) == 0,
    decreases n,
{
    if n > 0 {
        lemma_none_taken((n - 1) as nat);
        assert(all_free(n).drop_last() =~= all_free((n - 1) as nat));
    }
}

proof fn lemma_one_more_taken(used: Seq<bool>, i: int)
    requires
        0 <= i < used.len(),
        !used[i],
    ensures
        taken_count(used.update(i, true)) == taken_count(used) + 1,
    decreases used.len(),
{
    let after = used.update(i, true);
    if i < used.len() - 1 {
        lemma_one_more_taken(used.drop_last(), i);
        assert(after.drop_last() =~= used.drop_last().update(i, true));
    } else {
        assert(after.drop_last() =~= used.drop_last());
    }
}

proof fn lemma_taken_at_most(used: Seq<bool>)
    ensures
        taken_count(used) <= used.len(),
    decreases used.len(),
{
    if used.len() > 0 {
        lemma_taken_at_most(used.drop_last());
    }
}

proof fn lemma_distractors_filter(
    distractors: Seq<Seq<char>>,
    obs: Seq<TokenizedView>,
    n: nat,
)
    requires
        n <= obs.len(),
    ensures
        distractor_count_of(distractors, obs, n) == obs.take(n as int).filter(
            |o: TokenizedView| distracted(distractors, o.tokens),
        ).len(),
    decreases n,
{
    reveal(Seq::filter);
    if n > 0 {
        lemma_distractors_filter(distractors, obs, (n - 1) as nat);
        assert(obs.take(n as int).drop_last() =~= obs.take(n - 1));
    }
}

/// The counts of a score account for everything: what was found and what was
/// missed is what was expected, what was found and what was made up is what was
/// extracted. The recall is the share of the expected, the precision that of the
/// extracted.
pub proof fn law_score_accounts_for_everything(
    truth: TruthView,
    obs: ObservedView,
    r: ScenarioScore,
)
    requires
        graded(truth, obs, r),
        truth.items.len() <= usize::MAX,
        obs.items.len() <= usize::MAX,
        5 * (truth.items.len() + obs.items.len()) <= u64::MAX,
    ensures
        r.overall.true_positives + r.overall.false_negatives == truth.items.len(),
        r.overall.true_positives + r.overall.false_positives == obs.items.len(),
        is_share(r.overall.precision, r.overall.true_positives as nat, obs.items.len()),
        is_share(r.overall.recall, r.overall.true_positives as nat, truth.items.len()),
        is_share(
            r.overall.f1,
            (2 * r.overall.true_positives) as nat,
            truth.items.len() + obs.items.len(),
        ),
        is_share(
            r.f_half,
            (5 * r.overall.true_positives) as nat,
            (truth.items.len() + 4 * obs.items.len()) as nat,
        ),
        r.summary_ok <==> (obs.summary_present <==> truth.expects_summary),
{
    let e = all_tokenized(truth.items);
    let o = all_tokenized(obs.items);
    law_pairs_are_one_to_one(e, o);
    let tp = taken_count(matched(e, o).0);
    law_scores_are_shares(
        tp as usize,
        (o.len() - tp) as usize,
        (e.len() - tp) as usize,
    );
}

/// People who were found are counted once, never more than were expected or
/// saved. The accuracy is the share of those expected, and full when none is.
pub proof fn law_contacts_are_counted(truth: TruthView, obs: ObservedView, r: ScenarioScore)
    requires
        graded(truth, obs, r),
        truth.contacts.len() <= u64::MAX,
    ensures
        r.contacts_expected == truth.contacts.len(),
        r.contacts_matched <= truth.contacts.len(),
        r.contacts_matched <= obs.contacts.len(),
        truth.contacts.len() > 0 ==> is_share(
            r.contact_accuracy,
            r.contacts_matched as nat,
            truth.contacts.len(),
        ),
        truth.contacts.len() == 0 ==> r.contact_accuracy.num == r.contact_accuracy.den
            && r.contact_accuracy.den > 0,
        (exists|i: int, j: int|
            0 <= i < truth.contacts.len() && 0 <= j < obs.contacts.len() && same_person(
                #[trigger] truth.contacts[i],
                #[trigger] obs.contacts[j],
            )) <==> r.contacts_matched > 0,
{
    assert(forall|x: int, y: int| #[trigger] (x * y) == y * x) by (nonlinear_arith);
    let n = truth.contacts.len();
    lemma_people(truth.contacts, obs.contacts, n);
    lemma_taken_at_most(people_matched(truth.contacts, obs.contacts, n).0);
    lemma_someone_found(truth.contacts, obs.contacts, n);
}

proof fn lemma_someone_found(exp: Seq<PersonView>, obs: Seq<PersonView>, n: nat)
    requires
        n <= exp.len(),
    ensures
        people_matched(exp, obs, n).1 > 0 <==> exists|i: int, j: int|
            0 <= i < n && 0 <= j < obs.len() && same_person(#[trigger] exp[i], #[trigger] obs[j]),
    decreases n,
{
    if n > 0 {
        lemma_someone_found(exp, obs, (n - 1) as nat);
        lemma_people(exp, obs, (n - 1) as nat);
        let before = people_matched(exp, obs, (n - 1) as nat);
        lemma_person_found(exp[n - 1], obs, before.0, 0);
        if before.1 == 0 {
            assert forall|j: int| 0 <= j < obs.len() implies !#[trigger] before.0[j] by {
                if before.0[j] {
                    let i = choose|i: int| 0 <= i < n - 1 && same_person(#[trigger] exp[i], obs[j]);
                    assert(same_person(exp[i], obs[j]));
                }
            }
        }
        if people_matched(exp, obs, n).1 > 0 && before.1 == 0 {
            let i = person_index(exp[n - 1], obs, before.0, 0)->0;
            assert(same_person(exp[n - 1], obs[i]));
        }
        if exists|i: int, j: int|
            0 <= i < n && 0 <= j < obs.len() && same_person(#[trigger] exp[i], #[trigger] obs[j]) {
            let (i, j) = choose|i: int, j: int|
                0 <= i < n && 0 <= j < obs.len() && same_person(
                    #[trigger] exp[i],
                    #[trigger] obs[j],
                );
            if before.1 == 0 && i == n - 1 {
                assert(!before.0[j]);
                assert(same_person(exp[n - 1], obs[j]));
            }
        }
    }
}

/// Chatter that became an item is counted item by item: an item is a hit when it
/// says what some distractor says. The rate is hits over distractors.
pub proof fn law_distractor_hits_are_counted(truth: TruthView, obs: ObservedView, r: ScenarioScore)
    requires
        graded(truth, obs, r),
        truth.distractors.len() <= u64::MAX,
        obs.items.len() <= u64::MAX,
    ensures
        r.distractor_count == truth.distractors.len(),
        r.distractor_hits == all_tokenized(obs.items).filter(
            |o: TokenizedView|
                exists|d: int|
                    0 <= d < truth.distractors.len() && alike(
                        tokens_of(#[trigger] truth.distractors[d]),
                        o.tokens,
                    ),
        ).len(),
        is_share(r.distractor_fp_rate, r.distractor_hits as nat, truth.distractors.len()),
{
    assert(forall|x: int, y: int| #[trigger] (x * y) == y * x) by (nonlinear_arith);
    let o = all_tokenized(obs.items);
    lemma_distractors_filter(truth.distractors, o, o.len());
    assert(o.take(o.len() as int) =~= o);
    let a = |x: TokenizedView| distracted(truth.distractors, x.tokens);
    let b = |x: TokenizedView|
        exists|d: int|
            0 <= d < truth.distractors.len() && alike(
                tokens_of(#[trigger] truth.distractors[d]),
                x.tokens,
            );
    assert(a =~= b);
    o.lemma_filter_len(a);
}

proof fn lemma_kind_filter(
    items: Seq<TokenizedView>,
    used: Seq<bool>,
    kind: Seq<char>,
    n: nat,
)
    requires
        n <= items.len(),
        n <= used.len(),
    ensures
        kind_count(items, used, kind, true, n) + kind_count(items, used, kind, false, n)
            == items.take(n as int).filter(|x: TokenizedView| x.kind == kind).len(),
        kind_count(items, used, kind, true, n) <= n,
        kind_count(items, used, kind, false, n) <= n,
    decreases n,
{
    reveal(Seq::filter);
    if n > 0 {
        lemma_kind_filter(items, used, kind, (n - 1) as nat);
        assert(items.take(n as int).drop_last() =~= items.take(n - 1));
    }
}

/// The scores by kind name every kind that occurs, each once and in order. Of a
/// kind, what was found and what was missed is what was expected of it, and what
/// was found and what was made up is what was extracted of it.
pub proof fn law_kinds_are_scored_apart(truth: TruthView, obs: ObservedView, r: ScenarioScore)
    requires
        graded(truth, obs, r),
        truth.items.len() <= usize::MAX,
        obs.items.len() <= usize::MAX,
        5 * (truth.items.len() + obs.items.len()) <= u64::MAX,
    ensures
        ({
            let out = seq_views(r.per_kind@);
            let e = all_tokenized(truth.items);
            let o = all_tokenized(obs.items);
            &&& ascending(Seq::new(out.len(), |i: int| out[i].kind))
            &&& forall|k: Seq<char>|
                (exists|i: int| 0 <= i < out.len() && (#[trigger] out[i]).kind == k) <==> (
                #[trigger] kinds_in(e).contains(k) || kinds_in(o).contains(k))
            &&& forall|i: int|
                0 <= i < out.len() ==> {
                    let s = (#[trigger] out[i]).score;
                    let kind = out[i].kind;
                    &&& s.true_positives + s.false_negatives == e.filter(
                        |x: TokenizedView| x.kind == kind,
                    ).len()
                    &&& s.true_positives + s.false_positives == o.filter(
                        |x: TokenizedView| x.kind == kind,
                    ).len()
                    &&& is_share(
                        s.precision,
                        s.true_positives as nat,
                        (s.true_positives + s.false_positives) as nat,
                    )
                    &&& is_share(
                        s.recall,
                        s.true_positives as nat,
                        (s.true_positives + s.false_negatives) as nat,
                    )
                    &&& is_share(
                        s.f1,
                        (2 * s.true_positives) as nat,
                        (2 * s.true_positives + s.false_positives + s.false_negatives) as nat,
                    )
                }
        }),
{
    let out = seq_views(r.per_kind@);
    let e = all_tokenized(truth.items);
    let o = all_tokenized(obs.items);
    let (eu, ou) = matched(e, o);
    law_pairs_are_one_to_one(e, o);
    let kinds = choose|kinds: Seq<Seq<char>>| #[trigger]
        ascending(kinds) && kinds.to_set() == kinds_in(e).union(kinds_in(o)) && out == Seq::new(
            kinds.len(),
            |i: int| kind_score(e, o, eu, ou, kinds[i]),
        );
    assert(Seq::new(out.len(), |i: int| out[i].kind) =~= kinds);
    assert forall|k: Seq<char>|
        (exists|i: int| 0 <= i < out.len() && (#[trigger] out[i]).kind == k) <==> (
        #[trigger] kinds_in(e).contains(k) || kinds_in(o).contains(k)) by {
        assert(kinds.to_set().contains(k) <==> kinds_in(e).contains(k) || kinds_in(o).contains(k));
        if kinds.contains(k) {
            let i = choose|i: int| 0 <= i < kinds.len() && kinds[i] == k;
            assert(out[i].kind == k);
        }
        if exists|i: int| 0 <= i < out.len() && (#[trigger] out[i]).kind == k {
            let i = choose|i: int| 0 <= i < out.len() && (#[trigger] out[i]).kind == k;
            assert(kinds[i] == k);
            assert(kinds.contains(k));
        }
    }
    assert forall|i: int| 0 <= i < out.len() implies {
        let s = (#[trigger] out[i]).score;
        let kind = out[i].kind;
        &&& s.true_positives + s.false_negatives == e.filter(
            |x: TokenizedView| x.kind == kind,
        ).len()
        &&& s.true_positives + s.false_positives == o.filter(
            |x: TokenizedView| x.kind == kind,
        ).len()
        &&& is_share(
            s.precision,
            s.true_positives as nat,
            (s.true_positives + s.false_positives) as nat,
        )
        &&& is_share(
            s.recall,
            s.true_positives as nat,
            (s.true_positives + s.false_negatives) as nat,
        )
        &&& is_share(
            s.f1,
            (2 * s.true_positives) as nat,
            (2 * s.true_positives + s.false_positives + s.false_negatives) as nat,
        )
    } by {
        let kind = kinds[i];
        lemma_kind_filter(e, eu, kind, e.len());
        lemma_kind_filter(o, ou, kind, o.len());
        assert(e.take(e.len() as int) =~= e);
        assert(o.take(o.len() as int) =~= o);
        lemma_kind_none_taken(e, kind, e.len(), e.len());
        lemma_kind_none_taken(o, kind, o.len(), o.len());
        lemma_paired_kinds(e, o, all_free(e.len()), all_free(o.len()), e.len(), kind);
        law_scores_are_shares(
            kind_count(e, eu, kind, true, e.len()) as usize,
            kind_count(o, ou, kind, false, o.len()) as usize,
            kind_count(e, eu, kind, false, e.len()) as usize,
        );
    }
}

proof fn lemma_kind_none_taken(items: Seq<TokenizedView>, kind: Seq<char>, m: nat, n: nat)
    requires
        n <= m,
    ensures
        kind_count(items, all_free(m), kind, true, n) == 0,
    decreases n,
{
    if n > 0 {
        lemma_kind_none_taken(items, kind, m, (n - 1) as nat);
    }
}

proof fn lemma_kind_one_more(
    items: Seq<TokenizedView>,
    used: Seq<bool>,
    kind: Seq<char>,
    i: int,
    n: nat,
)
    requires
        n <= used.len(),
        0 <= i < used.len(),
        !used[i],
    ensures
        kind_count(items, used.update(i, true), kind, true, n) == kind_count(
            items,
            used,
            kind,
            true,
            n,
        ) + if i < n && items[i].kind == kind {
            1nat
        } else {
            0nat
        },
    decreases n,
{
    if n > 0 {
        lemma_kind_one_more(items, used, kind, i, (n - 1) as nat);
    }
}

/// Pairs are of one kind, so as many of a kind are found on either side.
proof fn lemma_paired_kinds(
    exp: Seq<TokenizedView>,
    obs: Seq<TokenizedView>,
    exp_used: Seq<bool>,
    obs_used: Seq<bool>,
    most: nat,
    kind: Seq<char>,
)
    requires
        exp_used.len() == exp.len(),
        obs_used.len() == obs.len(),
        kind_count(exp, exp_used, kind, true, exp.len()) == kind_count(
            obs,
            obs_used,
            kind,
            true,
            obs.len(),
        ),
    ensures
        ({
            let r = paired(exp, obs, exp_used, obs_used, most);
            kind_count(exp, r.0, kind, true, exp.len()) == kind_count(
                obs,
                r.1,
                kind,
                true,
                obs.len(),
            )
        }),
    decreases most,
{
    if most > 0 && (exists|p: (int, int)| taken_next(exp, obs, exp_used, obs_used, p)) {
        let p = choose|p: (int, int)| taken_next(exp, obs, exp_used, obs_used, p);
        lemma_kind_one_more(exp, exp_used, kind, p.0, exp.len());
        lemma_kind_one_more(obs, obs_used, kind, p.1, obs.len());
        lemma_paired_kinds(
            exp,
            obs,
            exp_used.update(p.0, true),
            obs_used.update(p.1, true),
            (most - 1) as nat,
            kind,
        );
    }
}

/// These pairs fit, no item is in two of them, and the items in them are those
/// that are taken.
pub open spec fn is_pairing(
    exp: Seq<TokenizedView>,
    obs: Seq<TokenizedView>,
    exp_used: Seq<bool>,
    obs_used: Seq<bool>,
    pairs: Seq<(int, int)>,
) -> bool {
    &&& forall|x: int| 0 <= x < pairs.len() ==> fits(exp, obs, #[trigger] pairs[x])
    &&& forall|x: int, y: int|
        0 <= x < y < pairs.len() ==> (#[trigger] pairs[x]).0 != (#[trigger] pairs[y]).0
            && pairs[x].1 != pairs[y].1
    &&& forall|x: int|
        0 <= x < pairs.len() ==> exp_used[(#[trigger] pairs[x]).0] && obs_used[pairs[x].1]
    &&& forall|i: int|
        0 <= i < exp.len() && #[trigger] exp_used[i] ==> exists|x: int|
            0 <= x < pairs.len() && (#[trigger] pairs[x]).0 == i
    &&& forall|j: int|
        0 <= j < obs.len() && #[trigger] obs_used[j] ==> exists|x: int|
            0 <= x < pairs.len() && (#[trigger] pairs[x]).1 == j
}

proof fn lemma_pairing(
    exp: Seq<TokenizedView>,
    obs: Seq<TokenizedView>,
    exp_used: Seq<bool>,
    obs_used: Seq<bool>,
    most: nat,
    pairs: Seq<(int, int)>,
) -> (all: Seq<(int, int)>)
    requires
        exp_used.len() == exp.len(),
        obs_used.len() == obs.len(),
        is_pairing(exp, obs, exp_used, obs_used, pairs),
    ensures
        ({
            let r = paired(exp, obs, exp_used, obs_used, most);
            is_pairing(exp, obs, r.0, r.1, all)
        }),
    decreases most,
{
    if most > 0 && (exists|p: (int, int)| taken_next(exp, obs, exp_used, obs_used, p)) {
        let p = choose|p: (int, int)| taken_next(exp, obs, exp_used, obs_used, p);
        let more = pairs.push(p);
        let eu = exp_used.update(p.0, true);
        let ou = obs_used.update(p.1, true);
        assert forall|x: int, y: int| 0 <= x < y < more.len() implies (#[trigger] more[x]).0 != (
        #[trigger] more[y]).0 && more[x].1 != more[y].1 by {
            assert(more[x] == pairs[x]);
            if y < pairs.len() {
                assert(more[y] == pairs[y]);
            }
        }
        assert forall|i: int| 0 <= i < exp.len() && #[trigger] eu[i] implies exists|x: int|
            0 <= x < more.len() && (#[trigger] more[x]).0 == i by {
            if i == p.0 {
                assert(more[pairs.len() as int].0 == i);
            } else {
                assert(exp_used[i]);
                let x = choose|x: int| 0 <= x < pairs.len() && (#[trigger] pairs[x]).0 == i;
                assert(more[x] == pairs[x]);
            }
        }
        assert forall|j: int| 0 <= j < obs.len() && #[trigger] ou[j] implies exists|x: int|
            0 <= x < more.len() && (#[trigger] more[x]).1 == j by {
            if j == p.1 {
                assert(more[pairs.len() as int].1 == j);
            } else {
                assert(obs_used[j]);
                let x = choose|x: int| 0 <= x < pairs.len() && (#[trigger] pairs[x]).1 == j;
                assert(more[x] == pairs[x]);
            }
        }
        assert forall|x: int| 0 <= x < more.len() implies fits(exp, obs, #[trigger] more[x]) && eu[more[x].0]
            && ou[more[x].1] by {
            if x < pairs.len() {
                assert(more[x] == pairs[x]);
            }
        }
        lemma_pairing(exp, obs, eu, ou, (most - 1) as nat, more)
    } else {
        pairs
    }
}

/// What counts as found is found: every expected item that counts has an
/// extracted one of its own, of the same kind, that says the same.
pub proof fn law_found_items_are_pairs(exp: Seq<TokenizedView>, obs: Seq<TokenizedView>)
    ensures
        exists|pairs: Seq<(int, int)>| #[trigger]
            is_pairing(exp, obs, matched(exp, obs).0, matched(exp, obs).1, pairs),
{
    let none = Seq::<(int, int)>::empty();
    assert(is_pairing(exp, obs, all_free(exp.len()), all_free(obs.len()), none));
    let all = lemma_pairing(
        exp,
        obs,
        all_free(exp.len()),
        all_free(obs.len()),
        exp.len(),
        none,
    );
    assert(is_pairing(exp, obs, matched(exp, obs).0, matched(exp, obs).1, all));
}

proof fn lemma_taken_stay(
    exp: Seq<TokenizedView>,
    obs: Seq<TokenizedView>,
    exp_used: Seq<bool>,
    obs_used: Seq<bool>,
    most: nat,
    i: int,
    j: int,
)
    requires
        exp_used.len() == exp.len(),
        obs_used.len() == obs.len(),
        0 <= i < exp.len(),
        0 <= j < obs.len(),
        exp_used[i],
        obs_used[j],
    ensures
        paired(exp, obs, exp_used, obs_used, most).0[i],
        paired(exp, obs, exp_used, obs_used, most).1[j],
    decreases most,
{
    if most > 0 && (exists|p: (int, int)| taken_next(exp, obs, exp_used, obs_used, p)) {
        let p = choose|p: (int, int)| taken_next(exp, obs, exp_used, obs_used, p);
        lemma_taken_stay(
            exp,
            obs,
            exp_used.update(p.0, true),
            obs_used.update(p.1, true),
            (most - 1) as nat,
            i,
            j,
        );
    }
}

/// The pair that has most in common is always found; of several that have as much,
/// the first.
pub proof fn law_best_pair_is_found(
    exp: Seq<TokenizedView>,
    obs: Seq<TokenizedView>,
    p: (int, int),
)
    requires
        fits(exp, obs, p),
        forall|q: (int, int)| #[trigger]
            fits(exp, obs, q) && q != p ==> {
                let mine = dice_of(exp[p.0].tokens, obs[p.1].tokens);
                let other = dice_of(exp[q.0].tokens, obs[q.1].tokens);
                other.lt(mine) || (!mine.lt(other) && (p.0 < q.0 || (p.0 == q.0 && p.1 < q.1)))
            },
    ensures
        matched(exp, obs).0[p.0],
        matched(exp, obs).1[p.1],
{
    let eu = all_free(exp.len());
    let ou = all_free(obs.len());
    assert forall|q: (int, int)| #[trigger] candidate(exp, obs, eu, ou, q) && q != p implies
        taken_before(exp, obs, p, q) by {
        assert(fits(exp, obs, q));
    }
    assert(candidate(exp, obs, eu, ou, p));
    assert(taken_next(exp, obs, eu, ou, p));
    let q = choose|q: (int, int)| taken_next(exp, obs, eu, ou, q);
    if q != p {
        assert(candidate(exp, obs, eu, ou, q));
        assert(fits(exp, obs, q));
        assert(taken_before(exp, obs, q, p));
        assert(false);
    }
    lemma_taken_stay(
        exp,
        obs,
        eu.update(p.0, true),
        ou.update(p.1, true),
        (exp.len() - 1) as nat,
        p.0,
        p.1,
    );
}

/// An expected item that was not found, though something of another kind that
/// nothing else accounts for says the same.
pub open spec fn is_confused(
    exp: Seq<TokenizedView>,
    obs: Seq<TokenizedView>,
    exp_used: Seq<bool>,
    obs_used: Seq<bool>,
    i: int,
) -> bool {
    !exp_used[i] && exists|j: int|
        0 <= j < obs.len() && !obs_used[j] && (#[trigger] obs[j]).kind != exp[i].kind && alike(
            exp[i].tokens,
            obs[j].tokens,
        )
}

/// How often kinds were confused, all entries together.
pub open spec fn all_confusions(list: Seq<ConfusionView>) -> nat
    decreases list.len(),
{
    if list.len() == 0 {
        0
    } else {
        all_confusions(list.drop_last()) + list.last().count
    }
}

/// The places of the confused items among the first `n`.
pub open spec fn confused_places(
    exp: Seq<TokenizedView>,
    obs: Seq<TokenizedView>,
    exp_used: Seq<bool>,
    obs_used: Seq<bool>,
    n: nat,
) -> Seq<int> {
    Seq::new(n, |i: int| i).filter(|i: int| is_confused(exp, obs, exp_used, obs_used, i))
}

proof fn lemma_mixup(
    e: TokenizedView,
    obs: Seq<TokenizedView>,
    obs_used: Seq<bool>,
    from: int,
)
    requires
        0 <= from,
    ensures
        match mixup(e, obs, obs_used, from) {
            Some(j) => from <= j < obs.len() && !obs_used[j] && obs[j].kind != e.kind && alike(
                e.tokens,
                obs[j].tokens,
            ),
            None => forall|j: int|
                from <= j < obs.len() && !obs_used[j] && (#[trigger] obs[j]).kind != e.kind
                    ==> !alike(e.tokens, obs[j].tokens),
        },
    decreases obs.len() - from,
{
    if from < obs.len() {
        lemma_mixup(e, obs, obs_used, from + 1);
    }
}

proof fn lemma_confusion_index(list: Seq<ConfusionView>, a: Seq<char>, b: Seq<char>)
    ensures
        confusion_index(list, a, b) <= list.len(),
        confusion_index(list, a, b) < list.len() ==> list[confusion_index(
            list,
            a,
            b,
        ) as int].expected_kind == a && list[confusion_index(list, a, b) as int].produced_kind == b,
        forall|i: int|
            0 <= i < confusion_index(list, a, b) ==> !((#[trigger] list[i]).expected_kind == a
                && list[i].produced_kind == b),
    decreases list.len(),
{
    if list.len() > 0 {
        let rest = list.drop_first();
        lemma_confusion_index(rest, a, b);
        assert forall|i: int| 0 <= i < confusion_index(list, a, b) implies !((
        #[trigger] list[i]).expected_kind == a && list[i].produced_kind == b) by {
            if i > 0 {
                assert(rest[i - 1] == list[i]);
            }
        }
    }
}

proof fn lemma_update_total(list: Seq<ConfusionView>, i: int, v: ConfusionView)
    requires
        0 <= i < list.len(),
        v.count == list[i].count + 1,
    ensures
        all_confusions(list.update(i, v)) == all_confusions(list) + 1,
    decreases list.len(),
{
    let after = list.update(i, v);
    if i < list.len() - 1 {
        lemma_update_total(list.drop_last(), i, v);
        assert(after.drop_last() =~= list.drop_last().update(i, v));
    } else {
        assert(after.drop_last() =~= list.drop_last());
    }
}

/// A list of confusions in which every entry stands for something, and no pair of
/// kinds comes twice.
pub open spec fn entries_apart(list: Seq<ConfusionView>) -> bool {
    &&& forall|i: int|
        0 <= i < list.len() ==> (#[trigger] list[i]).count > 0 && list[i].expected_kind
            != list[i].produced_kind
    &&& forall|i: int, j: int|
        0 <= i < j < list.len() ==> !((#[trigger] list[i]).expected_kind == (
        #[trigger] list[j]).expected_kind && list[i].produced_kind == list[j].produced_kind)
}

proof fn lemma_bumped(list: Seq<ConfusionView>, a: Seq<char>, b: Seq<char>)
    requires
        entries_apart(list),
        a != b,
    ensures
        entries_apart(bumped(list, a, b)),
        all_confusions(bumped(list, a, b)) == all_confusions(list) + 1,
{
    lemma_confusion_index(list, a, b);
    let i = confusion_index(list, a, b) as int;
    let after = bumped(list, a, b);
    if i < list.len() {
        lemma_update_total(list, i, after[i]);
    } else {
        assert(after.drop_last() =~= list);
    }
    assert forall|x: int, y: int| 0 <= x < y < after.len() implies !((
    #[trigger] after[x]).expected_kind == (#[trigger] after[y]).expected_kind
        && after[x].produced_kind == after[y].produced_kind) by {
        assert(list[x].expected_kind == after[x].expected_kind);
    }
}

/// Confusions are counted item by item: every expected item that was not found,
/// while something of another kind says the same, counts once, and nothing else
/// does. No kind is confused with itself, and a pair of kinds has one entry.
pub proof fn law_confusions_are_counted(
    exp: Seq<TokenizedView>,
    obs: Seq<TokenizedView>,
    exp_used: Seq<bool>,
    obs_used: Seq<bool>,
    n: nat,
)
    requires
        n <= exp.len(),
    ensures
        entries_apart(confusions(exp, obs, exp_used, obs_used, n)),
        all_confusions(confusions(exp, obs, exp_used, obs_used, n)) == confused_places(
            exp,
            obs,
            exp_used,
            obs_used,
            n,
        ).len(),
    decreases n,
{
    reveal(Seq::filter);
    if n > 0 {
        law_confusions_are_counted(exp, obs, exp_used, obs_used, (n - 1) as nat);
        let before = confusions(exp, obs, exp_used, obs_used, (n - 1) as nat);
        let e = exp[n - 1];
        lemma_mixup(e, obs, obs_used, 0);
        if let Some(j) = mixup(e, obs, obs_used, 0) {
            assert(obs[j].kind != e.kind);
            lemma_bumped(before, e.kind, obs[j].kind);
        }
        assert(Seq::new(n, |i: int| i).drop_last() =~= Seq::new((n - 1) as nat, |i: int| i));
    }
}

/// The same of a whole score: what is confused are the items that no pair
/// accounts for.
pub proof fn law_score_counts_confusions(truth: TruthView, obs: ObservedView, r: ScenarioScore)
    requires
        graded(truth, obs, r),
    ensures
        ({
            let e = all_tokenized(truth.items);
            let o = all_tokenized(obs.items);
            let list = seq_views(r.confusion@);
            &&& entries_apart(list)
            &&& all_confusions(list) == confused_places(
                e,
                o,
                matched(e, o).0,
                matched(e, o).1,
                e.len(),
            ).len()
            &&& all_tokenized(truth.items).len() == truth.items.len()
            &&& forall|i: int|
                0 <= i < truth.items.len() ==> (#[trigger] e[i]).kind == truth.items[i].kind
                    && e[i].tokens == tokens_of(truth.items[i].text)
            &&& forall|i: int|
                0 <= i < obs.items.len() ==> (#[trigger] o[i]).kind == obs.items[i].kind
                    && o[i].tokens == tokens_of(obs.items[i].text)
        }),
{
    let e = all_tokenized(truth.items);
    let o = all_tokenized(obs.items);
    law_confusions_are_counted(e, o, matched(e, o).0, matched(e, o).1, e.len());
}

} // verus!
