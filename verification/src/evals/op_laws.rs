//! What the grading functions return, said of the sets of words themselves.

use vstd::prelude::*;
use crate::evals::corpus::GroundTruth;
use crate::evals::grade::grade;
use crate::evals::grade::Observed;
use crate::evals::grade::ScenarioScore;
use crate::evals::laws::is_share;
use crate::evals::laws::law_score_accounts_for_everything;
use crate::evals::matching::is_alike;
use crate::evals::normalize::dice;
use crate::evals::normalize::TokenSet;
use crate::ratio::Ratio;

verus! {

/// A set of words knows the word that was added and every word that it knew, and no
/// other.
pub proof fn law_token_set_insert(set: &mut TokenSet, w: String, x: Seq<char>)
    requires
        old(set).wf(),
        call_ensures(TokenSet::insert, (set, w), ()),
    ensures
        final(set)@.contains(x) <==> old(set)@.contains(x) || x == w@,
{
}

/// The words that two sets share are counted.
pub proof fn law_token_sets_share(
    a: &TokenSet,
    b: &TokenSet,
    na: usize,
    nb: usize,
    shared: usize,
    back: usize,
)
    requires
        a.wf(),
        b.wf(),
        call_ensures(TokenSet::len, (a,), na),
        call_ensures(TokenSet::len, (b,), nb),
        call_ensures(TokenSet::shared, (a, b), shared),
        call_ensures(TokenSet::shared, (b, a), back),
    ensures
        shared == back,
        shared <= na,
        shared <= nb,
        (forall|x: Seq<char>| a@.contains(x) ==> b@.contains(x)) ==> shared == na,
        (forall|x: Seq<char>| a@.contains(x) ==> !b@.contains(x)) ==> shared == 0,
{
    assert(a@.intersect(b@) =~= b@.intersect(a@));
    vstd::set_lib::lemma_len_subset(a@.intersect(b@), a@);
    vstd::set_lib::lemma_len_subset(a@.intersect(b@), b@);
    if forall|x: Seq<char>| a@.contains(x) ==> b@.contains(x) {
        assert(a@.intersect(b@) =~= a@);
    }
    if forall|x: Seq<char>| a@.contains(x) ==> !b@.contains(x) {
        assert(a@.intersect(b@) =~= Set::<Seq<char>>::empty());
    }
}

/// The likeness of two sets is the share of shared words among all words of both,
/// and they are alike when it is at least a half.
pub proof fn law_likeness(
    a: &TokenSet,
    b: &TokenSet,
    na: usize,
    nb: usize,
    shared: usize,
    d: Ratio,
    r: bool,
)
    requires
        a.wf(),
        b.wf(),
        call_ensures(TokenSet::len, (a,), na),
        call_ensures(TokenSet::len, (b,), nb),
        call_ensures(TokenSet::shared, (a, b), shared),
        call_ensures(dice, (a, b), d),
        call_ensures(is_alike, (a, b), r),
        na + nb <= u64::MAX,
    ensures
        is_share(d, (2 * shared) as nat, (na + nb) as nat),
        na + nb > 0 ==> (r <==> 4 * shared >= na + nb),
        na + nb == 0 ==> !r,
{
    vstd::set_lib::lemma_len_subset(a@.intersect(b@), a@);
    vstd::set_lib::lemma_len_subset(a@.intersect(b@), b@);
    assert(2 * shared <= na + nb);
}

/// A grade accounts for everything that was expected and everything that was
/// extracted, and its scores are the shares of what was found.
pub proof fn law_grade(truth: &GroundTruth, obs: &Observed, r: ScenarioScore)
    requires
        call_ensures(grade, (truth, obs), r),
        truth@.items.len() <= usize::MAX,
        obs@.items.len() <= usize::MAX,
        5 * (truth@.items.len() + obs@.items.len()) <= u64::MAX,
    ensures
        r.overall.true_positives + r.overall.false_negatives == truth@.items.len(),
        r.overall.true_positives + r.overall.false_positives == obs@.items.len(),
        is_share(r.overall.precision, r.overall.true_positives as nat, obs@.items.len()),
        is_share(r.overall.recall, r.overall.true_positives as nat, truth@.items.len()),
        r.summary_ok <==> (obs@.summary_present <==> truth@.expects_summary),
{
    law_score_accounts_for_everything(truth@, obs@, r);
}

} // verus!
