//! Grades what a pipeline produced against what was expected. The same input
//! always gives the same score.
//!
//! To extract too much is worse than to extract too little: the headline score
//! weighs precision twice as much as recall, and chatter that became an item is
//! counted on its own.

use vstd::prelude::*;
use crate::evals::corpus::ExpectedContact;
use crate::evals::corpus::GroundTruth;
use crate::evals::corpus::ItemView;
use crate::evals::corpus::PersonView;
use crate::evals::corpus::TruthView;
use crate::evals::matching::alike;
use crate::evals::matching::all_free;
use crate::evals::matching::is_alike;
use crate::evals::matching::match_items;
use crate::evals::matching::matched;
use crate::evals::matching::taken_count;
use crate::evals::matching::Tokenized;
use crate::evals::matching::TokenizedView;
use crate::evals::matching::tokens_wf;
use crate::evals::normalize::ascending;
use crate::evals::normalize::insert_ascending;
use crate::evals::normalize::token_set;
use crate::evals::normalize::tokens_of;
use crate::evals::normalize::TokenSet;
use crate::ratio::cap;
use crate::ratio::capped;
use crate::ratio::Ratio;
use crate::ratio::ratio_of;
use crate::text::text_eq;
use crate::views::option_view;
use crate::views::seq_views;

verus! {

/// An item that was extracted.
#[derive(Clone, Debug, PartialEq, Eq)]
pub struct ObservedItem {
    pub kind: String,
    pub text: String,
}

impl View for ObservedItem {
    type V = ItemView;

    open spec fn view(&self) -> ItemView {
        ItemView { kind: self.kind@, text: self.text@ }
    }
}

/// A person who was saved.
#[derive(Clone, Debug, PartialEq, Eq)]
pub struct ObservedContact {
    pub name: String,
    pub trade: Option<String>,
}

impl View for ObservedContact {
    type V = PersonView;

    open spec fn view(&self) -> PersonView {
        PersonView { name: self.name@, trade: option_view(self.trade) }
    }
}

/// What a pipeline produced.
#[derive(Clone, Debug, PartialEq, Eq)]
pub struct Observed {
    pub items: Vec<ObservedItem>,
    pub contacts: Vec<ObservedContact>,
    pub summary_present: bool,
}

/// The mathematical counterpart of [`Observed`].
pub struct ObservedView {
    pub items: Seq<ItemView>,
    pub contacts: Seq<PersonView>,
    pub summary_present: bool,
}

impl View for Observed {
    type V = ObservedView;

    open spec fn view(&self) -> ObservedView {
        ObservedView {
            items: seq_views(self.items@),
            contacts: seq_views(self.contacts@),
            summary_present: self.summary_present,
        }
    }
}

/// How many were right, wrong and missed, and what follows from it.
#[derive(Clone, Copy, Debug, PartialEq, Eq, Structural)]
pub struct PrecisionRecall {
    pub true_positives: usize,
    pub false_positives: usize,
    pub false_negatives: usize,
    pub precision: Ratio,
    pub recall: Ratio,
    pub f1: Ratio,
}

/// The same for the items of one kind.
#[derive(Clone, Debug, PartialEq, Eq)]
pub struct KindScore {
    pub kind: String,
    pub true_positives: usize,
    pub false_positives: usize,
    pub false_negatives: usize,
    pub precision: Ratio,
    pub recall: Ratio,
    pub f1: Ratio,
}

/// The mathematical counterpart of [`KindScore`].
pub struct KindScoreView {
    pub kind: Seq<char>,
    pub score: PrecisionRecall,
}

impl View for KindScore {
    type V = KindScoreView;

    open spec fn view(&self) -> KindScoreView {
        KindScoreView {
            kind: self.kind@,
            score: PrecisionRecall {
                true_positives: self.true_positives,
                false_positives: self.false_positives,
                false_negatives: self.false_negatives,
                precision: self.precision,
                recall: self.recall,
                f1: self.f1,
            },
        }
    }
}

/// How often one kind was taken for another.
#[derive(Clone, Debug, PartialEq, Eq)]
pub struct ConfusionEntry {
    pub expected_kind: String,
    pub produced_kind: String,
    pub count: usize,
}

/// The mathematical counterpart of [`ConfusionEntry`].
pub struct ConfusionView {
    pub expected_kind: Seq<char>,
    pub produced_kind: Seq<char>,
    pub count: nat,
}

impl View for ConfusionEntry {
    type V = ConfusionView;

    open spec fn view(&self) -> ConfusionView {
        ConfusionView {
            expected_kind: self.expected_kind@,
            produced_kind: self.produced_kind@,
            count: self.count as nat,
        }
    }
}

/// The score of a scenario.
#[derive(Clone, Debug, PartialEq, Eq)]
pub struct ScenarioScore {
    pub overall: PrecisionRecall,
    pub per_kind: Vec<KindScore>,
    pub confusion: Vec<ConfusionEntry>,
    /// Precision counts twice as much as recall. The headline.
    pub f_half: Ratio,
    pub contacts_expected: usize,
    pub contacts_matched: usize,
    pub contact_accuracy: Ratio,
    pub distractor_count: usize,
    pub distractor_hits: usize,
    /// Hits over distractors; lower is better.
    pub distractor_fp_rate: Ratio,
    pub summary_ok: bool,
}

/// Precision, recall and their balance: `tp/(tp+fp)`, `tp/(tp+fn)` and
/// `2tp/(2tp+fp+fn)`, each zero when there is nothing to divide by.
pub open spec fn from_counts(tp: usize, fp: usize, missed: usize) -> PrecisionRecall {
    PrecisionRecall {
        true_positives: tp,
        false_positives: fp,
        false_negatives: missed,
        precision: ratio_of(capped(tp as nat), capped((tp + fp) as nat)),
        recall: ratio_of(capped(tp as nat), capped((tp + missed) as nat)),
        f1: ratio_of(capped((2 * tp) as nat), capped((2 * tp + fp + missed) as nat)),
    }
}

/// The headline: `5tp/(5tp+4fp+fn)`.
pub open spec fn f_half_of(tp: usize, fp: usize, missed: usize) -> Ratio {
    ratio_of(capped((5 * tp) as nat), capped((5 * tp + 4 * fp + missed) as nat))
}

/// Computes precision, recall and their balance.
fn score_counts(tp: usize, fp: usize, missed: usize) -> (r: PrecisionRecall)
    ensures
        r == from_counts(tp, fp, missed),
{
    let t: u128 = tp as u128;
    let f: u128 = fp as u128;
    let m: u128 = missed as u128;
    PrecisionRecall {
        true_positives: tp,
        false_positives: fp,
        false_negatives: missed,
        precision: Ratio::of(cap(t), cap(t + f)),
        recall: Ratio::of(cap(t), cap(t + m)),
        f1: Ratio::of(cap(2 * t), cap(2 * t + f + m)),
    }
}

/// Computes the headline.
fn score_headline(tp: usize, fp: usize, missed: usize) -> (r: Ratio)
    ensures
        r == f_half_of(tp, fp, missed),
{
    let t: u128 = tp as u128;
    let f: u128 = fp as u128;
    let m: u128 = missed as u128;
    Ratio::of(cap(5 * t), cap(5 * t + 4 * f + m))
}

/// An item, its text split into words.
pub open spec fn tokenized(item: ItemView) -> TokenizedView {
    TokenizedView { kind: item.kind, tokens: tokens_of(item.text) }
}

/// Items, their texts split into words.
pub open spec fn all_tokenized(items: Seq<ItemView>) -> Seq<TokenizedView> {
    Seq::new(items.len(), |i: int| tokenized(items[i]))
}

/// The first free item of another kind that says the same.
pub open spec fn mixup(e: TokenizedView, obs: Seq<TokenizedView>, obs_used: Seq<bool>, from: int) -> Option<
    int,
>
    decreases obs.len() - from,
{
    if from < 0 || from >= obs.len() {
        None
    } else if !obs_used[from] && obs[from].kind != e.kind && alike(e.tokens, obs[from].tokens) {
        Some(from)
    } else {
        mixup(e, obs, obs_used, from + 1)
    }
}

/// Where a pair of kinds stands in a list; its length when nowhere.
pub open spec fn confusion_index(
    list: Seq<ConfusionView>,
    expected: Seq<char>,
    produced: Seq<char>,
) -> nat
    decreases list.len(),
{
    if list.len() == 0 || (list[0].expected_kind == expected && list[0].produced_kind
        == produced) {
        0
    } else {
        1 + confusion_index(list.drop_first(), expected, produced)
    }
}

/// One more case of one kind taken for another.
pub open spec fn bumped(list: Seq<ConfusionView>, expected: Seq<char>, produced: Seq<char>) -> Seq<
    ConfusionView,
> {
    let i = confusion_index(list, expected, produced) as int;
    if i < list.len() {
        list.update(i, ConfusionView { count: list[i].count + 1, ..list[i] })
    } else {
        list.push(
            ConfusionView { expected_kind: expected, produced_kind: produced, count: 1 },
        )
    }
}

/// The confusions among the first `n` expected items: those without a pair for
/// which something of another kind was extracted.
pub open spec fn confusions(
    exp: Seq<TokenizedView>,
    obs: Seq<TokenizedView>,
    exp_used: Seq<bool>,
    obs_used: Seq<bool>,
    n: nat,
) -> Seq<ConfusionView>
    decreases n,
{
    if n == 0 {
        Seq::empty()
    } else {
        let before = confusions(exp, obs, exp_used, obs_used, (n - 1) as nat);
        let e = exp[n - 1];
        if exp_used[n - 1] {
            before
        } else {
            match mixup(e, obs, obs_used, 0) {
                Some(o) => bumped(before, e.kind, obs[o].kind),
                None => before,
            }
        }
    }
}

/// How many items of a kind are taken, or free.
pub open spec fn kind_count(
    items: Seq<TokenizedView>,
    used: Seq<bool>,
    kind: Seq<char>,
    taken: bool,
    n: nat,
) -> nat
    decreases n,
{
    if n == 0 {
        0
    } else {
        kind_count(items, used, kind, taken, (n - 1) as nat) + if used[n - 1] == taken && items[n
            - 1].kind == kind {
            1nat
        } else {
            0nat
        }
    }
}

/// The score of one kind.
pub open spec fn kind_score(
    exp: Seq<TokenizedView>,
    obs: Seq<TokenizedView>,
    exp_used: Seq<bool>,
    obs_used: Seq<bool>,
    kind: Seq<char>,
) -> KindScoreView {
    KindScoreView {
        kind,
        score: from_counts(
            kind_count(exp, exp_used, kind, true, exp.len()) as usize,
            kind_count(obs, obs_used, kind, false, obs.len()) as usize,
            kind_count(exp, exp_used, kind, false, exp.len()) as usize,
        ),
    }
}

/// The kinds of the items.
pub open spec fn kinds_in(items: Seq<TokenizedView>) -> Set<Seq<char>> {
    Set::new(|k: Seq<char>| exists|i: int| 0 <= i < items.len() && (#[trigger] items[i]).kind == k)
}

/// The scores of all kinds that occur, in the order of their names.
pub open spec fn scores_kinds(
    exp: Seq<TokenizedView>,
    obs: Seq<TokenizedView>,
    exp_used: Seq<bool>,
    obs_used: Seq<bool>,
    out: Seq<KindScoreView>,
) -> bool {
    exists|kinds: Seq<Seq<char>>| #[trigger]
        ascending(kinds) && kinds.to_set() == kinds_in(exp).union(kinds_in(obs)) && out == Seq::new(
            kinds.len(),
            |i: int| kind_score(exp, obs, exp_used, obs_used, kinds[i]),
        )
}

/// An item says what some distractor says.
pub open spec fn distracted(distractors: Seq<Seq<char>>, tokens: Set<Seq<char>>) -> bool {
    exists|d: int| 0 <= d < distractors.len() && alike(tokens_of(#[trigger] distractors[d]), tokens)
}

/// How many of the first `n` items say what some distractor says.
pub open spec fn distractor_count_of(
    distractors: Seq<Seq<char>>,
    obs: Seq<TokenizedView>,
    n: nat,
) -> nat
    decreases n,
{
    if n == 0 {
        0
    } else {
        distractor_count_of(distractors, obs, (n - 1) as nat) + if distracted(
            distractors,
            obs[n - 1].tokens,
        ) {
            1nat
        } else {
            0nat
        }
    }
}

/// A saved person is the expected one: the names say the same, and so do the
/// trades when one is expected.
pub open spec fn same_person(e: PersonView, o: PersonView) -> bool {
    &&& alike(tokens_of(e.name), tokens_of(o.name))
    &&& match (e.trade, o.trade) {
        (Some(a), Some(b)) => alike(tokens_of(a), tokens_of(b)),
        (Some(_), None) => false,
        (None, _) => true,
    }
}

/// The first free person who is the expected one.
pub open spec fn person_index(e: PersonView, obs: Seq<PersonView>, used: Seq<bool>, from: int) -> Option<
    int,
>
    decreases obs.len() - from,
{
    if from < 0 || from >= obs.len() {
        None
    } else if !used[from] && same_person(e, obs[from]) {
        Some(from)
    } else {
        person_index(e, obs, used, from + 1)
    }
}

/// Which saved people are taken after the first `n` expected ones found
/// theirs, and how many did.
pub open spec fn people_matched(exp: Seq<PersonView>, obs: Seq<PersonView>, n: nat) -> (
    Seq<bool>,
    nat,
)
    decreases n,
{
    if n == 0 {
        (all_free(obs.len()), 0)
    } else {
        let (used, found) = people_matched(exp, obs, (n - 1) as nat);
        match person_index(exp[n - 1], obs, used, 0) {
            Some(i) => (used.update(i, true), found + 1),
            None => (used, found),
        }
    }
}

/// The score of a scenario is the one that the expectation and the product
/// give.
pub open spec fn graded(truth: TruthView, obs: ObservedView, r: ScenarioScore) -> bool {
    let e = all_tokenized(truth.items);
    let o = all_tokenized(obs.items);
    let (exp_used, obs_used) = matched(e, o);
    let tp = taken_count(exp_used) as usize;
    let missed = (e.len() - taken_count(exp_used)) as usize;
    let fp = (o.len() - taken_count(obs_used)) as usize;
    let people = people_matched(truth.contacts, obs.contacts, truth.contacts.len()).1;
    &&& r.overall == from_counts(tp, fp, missed)
    &&& r.f_half == f_half_of(tp, fp, missed)
    &&& scores_kinds(e, o, exp_used, obs_used, seq_views(r.per_kind@))
    &&& seq_views(r.confusion@) == confusions(e, o, exp_used, obs_used, e.len())
    &&& r.contacts_expected == truth.contacts.len()
    &&& r.contacts_matched == people
    &&& r.contact_accuracy == (if truth.contacts.len() == 0 {
        Ratio { num: 1, den: 1 }
    } else {
        ratio_of(capped(people), capped(truth.contacts.len()))
    })
    &&& r.distractor_count == truth.distractors.len()
    &&& r.distractor_hits == distractor_count_of(truth.distractors, o, o.len())
    &&& r.distractor_fp_rate == ratio_of(
        capped(distractor_count_of(truth.distractors, o, o.len())),
        capped(truth.distractors.len()),
    )
    &&& r.summary_ok == (obs.summary_present == truth.expects_summary)
}

/// Splits the texts of expected items.
fn tokenize_expected(truth: &GroundTruth) -> (r: Vec<Tokenized>)
    ensures
        tokens_wf(r@),
        seq_views(r@) == all_tokenized(truth@.items),
{
    let mut out: Vec<Tokenized> = Vec::new();
    let mut i: usize = 0;
    while i < truth.items.len()
        invariant
            i <= truth.items.len(),
            out.len() == i,
            tokens_wf(out@),
            forall|k: int| 0 <= k < i ==> (#[trigger] out@[k])@ == tokenized(truth.items@[k]@),
        decreases truth.items.len() - i,
    {
        let item = &truth.items[i];
        out.push(
            Tokenized { kind: item.kind.clone(), tokens: token_set(item.text.as_str()) },
        );
        i = i + 1;
    }
    assert(seq_views(out@) =~= all_tokenized(truth@.items));
    out
}

/// Splits the texts of extracted items.
fn tokenize_observed(obs: &Observed) -> (r: Vec<Tokenized>)
    ensures
        tokens_wf(r@),
        seq_views(r@) == all_tokenized(obs@.items),
{
    let mut out: Vec<Tokenized> = Vec::new();
    let mut i: usize = 0;
    while i < obs.items.len()
        invariant
            i <= obs.items.len(),
            out.len() == i,
            tokens_wf(out@),
            forall|k: int| 0 <= k < i ==> (#[trigger] out@[k])@ == tokenized(obs.items@[k]@),
        decreases obs.items.len() - i,
    {
        let item = &obs.items[i];
        out.push(
            Tokenized { kind: item.kind.clone(), tokens: token_set(item.text.as_str()) },
        );
        i = i + 1;
    }
    assert(seq_views(out@) =~= all_tokenized(obs@.items));
    out
}

/// Counts what is taken.
fn count_taken(used: &Vec<bool>) -> (r: usize)
    ensures
        r == taken_count(used@),
        r <= used.len(),
{
    let mut n: usize = 0;
    let mut i: usize = 0;
    assert(used@.take(0) =~= Seq::<bool>::empty());
    while i < used.len()
        invariant
            i <= used.len(),
            n <= i,
            n == taken_count(used@.take(i as int)),
        decreases used.len() - i,
    {
        assert(used@.take(i + 1).drop_last() =~= used@.take(i as int));
        if used[i] {
            n = n + 1;
        }
        i = i + 1;
    }
    assert(used@.take(used@.len() as int) =~= used@);
    n
}

/// Finds the first free item of another kind that says the same.
fn find_mixup(e: &Tokenized, obs: &Vec<Tokenized>, obs_used: &Vec<bool>) -> (r: Option<usize>)
    requires
        e.tokens.wf(),
        tokens_wf(obs@),
        obs_used.len() == obs.len(),
    ensures
        mixup(e@, seq_views(obs@), obs_used@, 0) == (match r {
            Some(i) => Some(i as int),
            None => None,
        }),
        r matches Some(i) ==> i < obs.len(),
{
    let ghost o = seq_views(obs@);
    let mut i: usize = 0;
    while i < obs.len()
        invariant
            i <= obs.len(),
            e.tokens.wf(),
            tokens_wf(obs@),
            obs_used.len() == obs.len(),
            o == seq_views(obs@),
            mixup(e@, o, obs_used@, 0) == mixup(e@, o, obs_used@, i as int),
        decreases obs.len() - i,
    {
        assert(o[i as int] == obs@[i as int]@);
        if !obs_used[i] && !text_eq(obs[i].kind.as_str(), e.kind.as_str()) && is_alike(
            &e.tokens,
            &obs[i].tokens,
        ) {
            return Some(i);
        }
        i = i + 1;
    }
    None
}

/// Counts one more case of one kind taken for another.
fn bump_confusion(confusion: &mut Vec<ConfusionEntry>, expected: &str, produced: &str)
    requires
        forall|k: int|
            0 <= k < old(confusion).len() ==> (#[trigger] old(confusion)@[k]).count < usize::MAX,
    ensures
        seq_views(final(confusion)@) == bumped(
            seq_views(old(confusion)@),
            expected@,
            produced@,
        ),
{
    let ghost all = seq_views(confusion@);
    let mut i: usize = 0;
    assert(all.skip(0) =~= all);
    while i < confusion.len() && !(text_eq(confusion[i].expected_kind.as_str(), expected)
        && text_eq(confusion[i].produced_kind.as_str(), produced))
        invariant
            i <= confusion.len(),
            confusion@ == old(confusion)@,
            all == seq_views(confusion@),
            confusion_index(all, expected@, produced@) == i + confusion_index(
                all.skip(i as int),
                expected@,
                produced@,
            ),
        decreases confusion.len() - i,
    {
        proof {
            assert(all.skip(i as int)[0] == all[i as int]);
            assert(all.skip(i as int).drop_first() =~= all.skip(i + 1));
        }
        i = i + 1;
    }
    proof {
        if i < confusion.len() {
            assert(all.skip(i as int)[0] == all[i as int]);
        }
    }
    if i < confusion.len() {
        let entry = &mut confusion[i];
        entry.count = entry.count + 1;
    } else {
        confusion.push(
            ConfusionEntry {
                expected_kind: expected.to_string(),
                produced_kind: produced.to_string(),
                count: 1,
            },
        );
    }
    assert(seq_views(confusion@) =~= bumped(all, expected@, produced@));
}

/// Lists which kinds were taken for which.
fn find_confusions(
    exp: &Vec<Tokenized>,
    obs: &Vec<Tokenized>,
    exp_used: &Vec<bool>,
    obs_used: &Vec<bool>,
) -> (r: Vec<ConfusionEntry>)
    requires
        tokens_wf(exp@),
        tokens_wf(obs@),
        exp_used.len() == exp.len(),
        obs_used.len() == obs.len(),
    ensures
        seq_views(r@) == confusions(
            seq_views(exp@),
            seq_views(obs@),
            exp_used@,
            obs_used@,
            exp.len() as nat,
        ),
{
    let ghost e = seq_views(exp@);
    let ghost o = seq_views(obs@);
    let mut out: Vec<ConfusionEntry> = Vec::new();
    let mut i: usize = 0;
    assert(seq_views(out@) =~= Seq::<ConfusionView>::empty());
    while i < exp.len()
        invariant
            i <= exp.len(),
            tokens_wf(exp@),
            tokens_wf(obs@),
            exp_used.len() == exp.len(),
            obs_used.len() == obs.len(),
            e == seq_views(exp@),
            o == seq_views(obs@),
            seq_views(out@) == confusions(e, o, exp_used@, obs_used@, i as nat),
            forall|k: int| 0 <= k < out.len() ==> (#[trigger] out@[k]).count <= i,
        decreases exp.len() - i,
    {
        assert(e[i as int] == exp@[i as int]@);
        if !exp_used[i] {
            if let Some(j) = find_mixup(&exp[i], obs, obs_used) {
                assert(o[j as int] == obs@[j as int]@);
                let ghost before = seq_views(out@);
                assert forall|k: int| 0 <= k < before.len() implies (#[trigger] before[k]).count
                    <= i by {
                    assert(before[k] == out@[k]@);
                }
                bump_confusion(&mut out, exp[i].kind.as_str(), obs[j].kind.as_str());
                proof {
                    let after = seq_views(out@);
                    let at = confusion_index(before, exp@[i as int].kind@, obs@[j as int].kind@);
                    if at >= before.len() {
                        assert(after.len() == before.len() + 1);
                        assert(after[before.len() as int].count == 1);
                    } else {
                        assert(after.len() == before.len());
                    }
                    assert forall|k: int| 0 <= k < out.len() implies (#[trigger] out@[k]).count
                        <= i + 1 by {
                        assert(after[k].count == out@[k].count as nat);
                        if k < before.len() {
                            assert(before[k].count <= i);
                            assert(after[k].count <= before[k].count + 1);
                        } else {
                            assert(k == before.len());
                        }
                    }
                }
            }
        }
        i = i + 1;
    }
    out
}

/// Counts the items of a kind that are taken, or free.
fn count_kind(items: &Vec<Tokenized>, used: &Vec<bool>, kind: &str, taken: bool) -> (r: usize)
    requires
        used.len() == items.len(),
    ensures
        r == kind_count(seq_views(items@), used@, kind@, taken, items.len() as nat),
{
    let mut n: usize = 0;
    let mut i: usize = 0;
    while i < items.len()
        invariant
            i <= items.len(),
            used.len() == items.len(),
            n <= i,
            n == kind_count(seq_views(items@), used@, kind@, taken, i as nat),
        decreases items.len() - i,
    {
        assert(seq_views(items@)[i as int] == items@[i as int]@);
        if used[i] == taken && text_eq(items[i].kind.as_str(), kind) {
            n = n + 1;
        }
        i = i + 1;
    }
    n
}

/// Adds the kinds of items to an ordered list.
fn add_kinds(kinds: &mut Vec<String>, items: &Vec<Tokenized>)
    requires
        ascending(seq_views(old(kinds)@)),
    ensures
        ascending(seq_views(final(kinds)@)),
        seq_views(final(kinds)@).to_set() == seq_views(old(kinds)@).to_set().union(
            kinds_in(seq_views(items@)),
        ),
{
    let ghost all = seq_views(items@);
    let ghost start = seq_views(kinds@).to_set();
    let mut i: usize = 0;
    assert(start.union(kinds_in(all.take(0))) =~= start);
    while i < items.len()
        invariant
            i <= items.len(),
            all == seq_views(items@),
            ascending(seq_views(kinds@)),
            seq_views(kinds@).to_set() == start.union(kinds_in(all.take(i as int))),
        decreases items.len() - i,
    {
        insert_ascending(kinds, items[i].kind.clone());
        proof {
            let first = all.take(i as int);
            let next = all.take(i + 1);
            assert(next =~= first.push(all[i as int]));
            assert forall|k: Seq<char>| kinds_in(next).contains(k) <==> kinds_in(first).insert(
                all[i as int].kind,
            ).contains(k) by {
                if kinds_in(first).contains(k) {
                    let x = choose|x: int| 0 <= x < first.len() && (#[trigger] first[x]).kind == k;
                    assert(next[x].kind == k);
                }
                if kinds_in(next).contains(k) {
                    let x = choose|x: int| 0 <= x < next.len() && (#[trigger] next[x]).kind == k;
                    if x < first.len() {
                        assert(first[x].kind == k);
                    }
                }
                assert(next[i as int].kind == all[i as int].kind);
            }
            assert(start.union(kinds_in(next)) =~= start.union(kinds_in(first)).insert(
                all[i as int].kind,
            ));
        }
        i = i + 1;
    }
    assert(all.take(all.len() as int) =~= all);
}

/// Scores every kind that occurs.
fn score_kinds(
    exp: &Vec<Tokenized>,
    obs: &Vec<Tokenized>,
    exp_used: &Vec<bool>,
    obs_used: &Vec<bool>,
) -> (r: Vec<KindScore>)
    requires
        exp_used.len() == exp.len(),
        obs_used.len() == obs.len(),
    ensures
        scores_kinds(
            seq_views(exp@),
            seq_views(obs@),
            exp_used@,
            obs_used@,
            seq_views(r@),
        ),
{
    let ghost e = seq_views(exp@);
    let ghost o = seq_views(obs@);
    let mut kinds: Vec<String> = Vec::new();
    assert(seq_views(kinds@).to_set() =~= Set::<Seq<char>>::empty());
    add_kinds(&mut kinds, exp);
    add_kinds(&mut kinds, obs);
    assert(Set::<Seq<char>>::empty().union(kinds_in(e)) =~= kinds_in(e));
    let mut out: Vec<KindScore> = Vec::new();
    let mut i: usize = 0;
    while i < kinds.len()
        invariant
            i <= kinds.len(),
            exp_used.len() == exp.len(),
            obs_used.len() == obs.len(),
            e == seq_views(exp@),
            o == seq_views(obs@),
            out.len() == i,
            forall|k: int|
                0 <= k < i ==> (#[trigger] out@[k])@ == kind_score(
                    e,
                    o,
                    exp_used@,
                    obs_used@,
                    kinds@[k]@,
                ),
        decreases kinds.len() - i,
    {
        let kind = kinds[i].as_str();
        let tp: usize = count_kind(exp, exp_used, kind, true);
        let missed: usize = count_kind(exp, exp_used, kind, false);
        let fp: usize = count_kind(obs, obs_used, kind, false);
        let score = score_counts(tp, fp, missed);
        out.push(
            KindScore {
                kind: kind.to_string(),
                true_positives: score.true_positives,
                false_positives: score.false_positives,
                false_negatives: score.false_negatives,
                precision: score.precision,
                recall: score.recall,
                f1: score.f1,
            },
        );
        i = i + 1;
    }
    proof {
        let views = seq_views(kinds@);
        assert(ascending(views));
        assert(seq_views(out@) =~= Seq::new(
            views.len(),
            |i: int| kind_score(e, o, exp_used@, obs_used@, views[i]),
        ));
    }
    out
}

/// Splits the texts of distractors.
fn tokenize_texts(texts: &Vec<String>) -> (r: Vec<TokenSet>)
    ensures
        r.len() == texts.len(),
        forall|i: int| 0 <= i < r.len() ==> (#[trigger] r@[i]).wf(),
        forall|i: int| 0 <= i < r.len() ==> (#[trigger] r@[i])@ == tokens_of(texts@[i]@),
{
    let mut out: Vec<TokenSet> = Vec::new();
    let mut i: usize = 0;
    while i < texts.len()
        invariant
            i <= texts.len(),
            out.len() == i,
            forall|k: int| 0 <= k < i ==> (#[trigger] out@[k]).wf(),
            forall|k: int| 0 <= k < i ==> (#[trigger] out@[k])@ == tokens_of(texts@[k]@),
        decreases texts.len() - i,
    {
        out.push(token_set(texts[i].as_str()));
        i = i + 1;
    }
    out
}

/// Counts the items that say what some distractor says.
fn count_distracted(distractors: &Vec<String>, obs: &Vec<Tokenized>) -> (r: usize)
    requires
        tokens_wf(obs@),
    ensures
        r == distractor_count_of(seq_views(distractors@), seq_views(obs@), obs.len() as nat),
{
    let ghost d = seq_views(distractors@);
    let ghost o = seq_views(obs@);
    let sets = tokenize_texts(distractors);
    let mut n: usize = 0;
    let mut i: usize = 0;
    while i < obs.len()
        invariant
            i <= obs.len(),
            n <= i,
            tokens_wf(obs@),
            d == seq_views(distractors@),
            o == seq_views(obs@),
            sets.len() == d.len(),
            forall|k: int| 0 <= k < sets.len() ==> (#[trigger] sets@[k]).wf(),
            forall|k: int| 0 <= k < sets.len() ==> (#[trigger] sets@[k])@ == tokens_of(d[k]),
            n == distractor_count_of(d, o, i as nat),
        decreases obs.len() - i,
    {
        assert(o[i as int] == obs@[i as int]@);
        let mut hit = false;
        let mut k: usize = 0;
        while k < sets.len()
            invariant
                k <= sets.len(),
                i < obs.len(),
                tokens_wf(obs@),
                o[i as int] == obs@[i as int]@,
                sets.len() == d.len(),
                forall|m: int| 0 <= m < sets.len() ==> (#[trigger] sets@[m]).wf(),
                forall|m: int| 0 <= m < sets.len() ==> (#[trigger] sets@[m])@ == tokens_of(d[m]),
                hit ==> distracted(d, o[i as int].tokens),
                !hit ==> forall|m: int|
                    0 <= m < k ==> !alike(tokens_of(#[trigger] d[m]), o[i as int].tokens),
            decreases sets.len() - k,
        {
            assert(sets@[k as int]@ == tokens_of(d[k as int]));
            if is_alike(&sets[k], &obs[i].tokens) {
                hit = true;
            }
            k = k + 1;
        }
        if hit {
            n = n + 1;
        }
        i = i + 1;
    }
    n
}

/// Whether a saved person is the expected one.
fn is_same_person(e: &ExpectedContact, o: &ObservedContact) -> (r: bool)
    ensures
        r == same_person(e@, o@),
{
    let names = is_alike(&token_set(e.name.as_str()), &token_set(o.name.as_str()));
    if !names {
        return false;
    }
    match (&e.trade, &o.trade) {
        (Some(a), Some(b)) => is_alike(&token_set(a.as_str()), &token_set(b.as_str())),
        (Some(_), None) => false,
        (None, _) => true,
    }
}

/// Counts the expected people who were saved. Each saved person counts once.
fn grade_contacts(truth: &GroundTruth, obs: &Observed) -> (r: usize)
    ensures
        r == people_matched(
            truth@.contacts,
            obs@.contacts,
            truth@.contacts.len(),
        ).1,
        r <= truth.contacts.len(),
{
    let ghost e = truth@.contacts;
    let ghost o = obs@.contacts;
    let mut used: Vec<bool> = Vec::new();
    while used.len() < obs.contacts.len()
        invariant
            used.len() <= obs.contacts.len(),
            forall|k: int| 0 <= k < used.len() ==> !#[trigger] used@[k],
        decreases obs.contacts.len() - used.len(),
    {
        used.push(false);
    }
    assert(used@ =~= all_free(o.len()));
    let mut found: usize = 0;
    let mut i: usize = 0;
    while i < truth.contacts.len()
        invariant
            i <= truth.contacts.len(),
            found <= i,
            e == truth@.contacts,
            o == obs@.contacts,
            used.len() == obs.contacts.len(),
            (used@, found as nat) == people_matched(e, o, i as nat),
        decreases truth.contacts.len() - i,
    {
        let ghost before = used@;
        assert(e[i as int] == truth.contacts@[i as int]@);
        let mut j: usize = 0;
        while j < obs.contacts.len() && (used[j] || !is_same_person(
            &truth.contacts[i],
            &obs.contacts[j],
        ))
            invariant
                i < truth.contacts.len(),
                j <= obs.contacts.len(),
                e == truth@.contacts,
                o == obs@.contacts,
                e[i as int] == truth.contacts@[i as int]@,
                used.len() == obs.contacts.len(),
                used@ == before,
                person_index(e[i as int], o, before, 0) == person_index(
                    e[i as int],
                    o,
                    before,
                    j as int,
                ),
            decreases obs.contacts.len() - j,
        {
            assert(o[j as int] == obs.contacts@[j as int]@);
            j = j + 1;
        }
        if j < obs.contacts.len() {
            assert(o[j as int] == obs.contacts@[j as int]@);
            used.set(j, true);
            found = found + 1;
        }
        i = i + 1;
    }
    found
}

/// Grades one scenario.
pub fn grade(truth: &GroundTruth, obs: &Observed) -> (r: ScenarioScore)
    ensures
        graded(truth@, obs@, r),
{
    let exp = tokenize_expected(truth);
    let seen = tokenize_observed(obs);
    let matching = match_items(&exp, &seen);
    let confusion = find_confusions(&exp, &seen, &matching.exp_used, &matching.obs_used);
    let tp: usize = count_taken(&matching.exp_used);
    let missed: usize = exp.len() - tp;
    let fp: usize = seen.len() - count_taken(&matching.obs_used);
    let hits: usize = count_distracted(&truth.distractors, &seen);
    let people: usize = grade_contacts(truth, obs);
    let contact_accuracy = if truth.contacts.len() == 0 {
        Ratio { num: 1, den: 1 }
    } else {
        Ratio::of(cap(people as u128), cap(truth.contacts.len() as u128))
    };
    ScenarioScore {
        overall: score_counts(tp, fp, missed),
        per_kind: score_kinds(&exp, &seen, &matching.exp_used, &matching.obs_used),
        confusion,
        f_half: score_headline(tp, fp, missed),
        contacts_expected: truth.contacts.len(),
        contacts_matched: people,
        contact_accuracy,
        distractor_count: truth.distractors.len(),
        distractor_hits: hits,
        distractor_fp_rate: Ratio::of(cap(hits as u128), cap(truth.distractors.len() as u128)),
        summary_ok: obs.summary_present == truth.expects_summary,
    }
}

/// To make up items costs more than to miss as many.
pub proof fn law_over_extraction_costs_more(tp: usize, n: usize)
    requires
        tp > 0,
        n > 0,
        5 * tp + 4 * n <= u64::MAX,
    ensures
        f_half_of(tp, n, 0).lt(f_half_of(tp, 0, n)),
{
    let a = 5 * tp;
    let b = 5 * tp + 4 * n;
    let c = 5 * tp + n;
    assert(a * c < a * b) by (nonlinear_arith)
        requires
            a > 0,
            c < b,
    ;
}

/// What is all right and complete scores one, whatever the measure.
pub proof fn law_flawless_scores_one(tp: usize)
    requires
        tp > 0,
    ensures
        from_counts(tp, 0, 0).precision.num == from_counts(tp, 0, 0).precision.den,
        from_counts(tp, 0, 0).recall.num == from_counts(tp, 0, 0).recall.den,
        from_counts(tp, 0, 0).f1.num == from_counts(tp, 0, 0).f1.den,
        f_half_of(tp, 0, 0).num == f_half_of(tp, 0, 0).den,
{
}

} // verus!
