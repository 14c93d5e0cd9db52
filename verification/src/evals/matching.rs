//! Which expected item is which extracted one.
//!
//! Two items can be one when they have the same kind and at least half of their
//! words in common. Again and again the pair with the most in common is taken,
//! of those that are left; of equal pairs the first.

use vstd::prelude::*;
use crate::evals::normalize::dice;
use crate::evals::normalize::dice_of;
use crate::evals::normalize::TokenSet;
use crate::ratio::lemma_ratio_transitive;
use crate::ratio::Ratio;
use crate::text::text_eq;
use crate::views::seq_views;

verus! {

/// An item, its text split into words.
#[derive(Clone, Debug, PartialEq, Eq)]
pub struct Tokenized {
    pub kind: String,
    pub tokens: TokenSet,
}

/// The mathematical counterpart of [`Tokenized`].
pub struct TokenizedView {
    pub kind: Seq<char>,
    pub tokens: Set<Seq<char>>,
}

impl View for Tokenized {
    type V = TokenizedView;

    open spec fn view(&self) -> TokenizedView {
        TokenizedView { kind: self.kind@, tokens: self.tokens@ }
    }
}

/// Half.
pub open spec fn half() -> Ratio {
    Ratio { num: 1, den: 2 }
}

/// Two texts say the same: at least half of their words are shared.
pub open spec fn alike(a: Set<Seq<char>>, b: Set<Seq<char>>) -> bool {
    !dice_of(a, b).lt(half())
}

/// Whether two texts say the same.
pub fn is_alike(a: &TokenSet, b: &TokenSet) -> (r: bool)
    requires
        a.wf(),
        b.wf(),
    ensures
        r == alike(a@, b@),
{
    let d = dice(a, b);
    !d.below(&Ratio { num: 1, den: 2 })
}

/// All sets of words are in order.
pub open spec fn tokens_wf(items: Seq<Tokenized>) -> bool {
    forall|i: int| 0 <= i < items.len() ==> (#[trigger] items[i]).tokens.wf()
}

/// A pair that can be one: of the same kind, alike, and both still free.
pub open spec fn candidate(
    exp: Seq<TokenizedView>,
    obs: Seq<TokenizedView>,
    exp_used: Seq<bool>,
    obs_used: Seq<bool>,
    p: (int, int),
) -> bool {
    &&& 0 <= p.0 < exp.len()
    &&& 0 <= p.1 < obs.len()
    &&& !exp_used[p.0]
    &&& !obs_used[p.1]
    &&& exp[p.0].kind == obs[p.1].kind
    &&& alike(exp[p.0].tokens, obs[p.1].tokens)
}

/// What a pair has in common.
pub open spec fn pair_dice(
    exp: Seq<TokenizedView>,
    obs: Seq<TokenizedView>,
    p: (int, int),
) -> Ratio {
    dice_of(exp[p.0].tokens, obs[p.1].tokens)
}

/// One pair is taken before the other: it has more in common, or as much and
/// comes first.
pub open spec fn taken_before(
    exp: Seq<TokenizedView>,
    obs: Seq<TokenizedView>,
    p: (int, int),
    q: (int, int),
) -> bool {
    let a = pair_dice(exp, obs, p);
    let b = pair_dice(exp, obs, q);
    b.lt(a) || (!a.lt(b) && (p.0 < q.0 || (p.0 == q.0 && p.1 < q.1)))
}

/// The pair that is taken next.
pub open spec fn taken_next(
    exp: Seq<TokenizedView>,
    obs: Seq<TokenizedView>,
    exp_used: Seq<bool>,
    obs_used: Seq<bool>,
    p: (int, int),
) -> bool {
    candidate(exp, obs, exp_used, obs_used, p) && forall|q: (int, int)| #[trigger]
        candidate(exp, obs, exp_used, obs_used, q) && q != p ==> taken_before(exp, obs, p, q)
}

/// Taking pairs until none is left; at most `most` of them. Says which items
/// then belong to a pair.
pub open spec fn paired(
    exp: Seq<TokenizedView>,
    obs: Seq<TokenizedView>,
    exp_used: Seq<bool>,
    obs_used: Seq<bool>,
    most: nat,
) -> (Seq<bool>, Seq<bool>)
    decreases most,
{
    if most == 0 || !(exists|p: (int, int)| taken_next(exp, obs, exp_used, obs_used, p)) {
        (exp_used, obs_used)
    } else {
        let p = choose|p: (int, int)| taken_next(exp, obs, exp_used, obs_used, p);
        paired(
            exp,
            obs,
            exp_used.update(p.0, true),
            obs_used.update(p.1, true),
            (most - 1) as nat,
        )
    }
}

/// Nothing is taken yet.
pub open spec fn all_free(n: nat) -> Seq<bool> {
    Seq::new(n, |i: int| false)
}

/// Which items belong to a pair, in the end.
pub open spec fn matched(exp: Seq<TokenizedView>, obs: Seq<TokenizedView>) -> (
    Seq<bool>,
    Seq<bool>,
) {
    paired(exp, obs, all_free(exp.len()), all_free(obs.len()), exp.len())
}

/// How many are free.
pub open spec fn free_count(used: Seq<bool>) -> nat
    decreases used.len(),
{
    if used.len() == 0 {
        0
    } else {
        free_count(used.drop_last()) + if used.last() {
            0nat
        } else {
            1nat
        }
    }
}

/// How many are taken.
pub open spec fn taken_count(used: Seq<bool>) -> nat
    decreases used.len(),
{
    if used.len() == 0 {
        0
    } else {
        taken_count(used.drop_last()) + if used.last() {
            1nat
        } else {
            0nat
        }
    }
}

proof fn lemma_taking_counts(used: Seq<bool>, i: int)
    requires
        0 <= i < used.len(),
        !used[i],
    ensures
        free_count(used) > 0,
        free_count(used.update(i, true)) == free_count(used) - 1,
        taken_count(used.update(i, true)) == taken_count(used) + 1,
    decreases used.len(),
{
    let after = used.update(i, true);
    if i < used.len() - 1 {
        lemma_taking_counts(used.drop_last(), i);
        assert(after.drop_last() =~= used.drop_last().update(i, true));
        assert(after.last() == used.last());
    } else {
        assert(after.drop_last() =~= used.drop_last());
    }
}

proof fn lemma_counts_add_up(used: Seq<bool>)
    ensures
        free_count(used) + taken_count(used) == used.len(),
    decreases used.len(),
{
    if used.len() > 0 {
        lemma_counts_add_up(used.drop_last());
    }
}

proof fn lemma_all_free(n: nat)
    ensures
        free_count(all_free(n)) == n,
        taken_count(all_free(n)) == 0,
    decreases n,
{
    if n > 0 {
        lemma_all_free((n - 1) as nat);
        assert(all_free(n).drop_last() =~= all_free((n - 1) as nat));
    }
}

proof fn lemma_dice_denominator(a: Set<Seq<char>>, b: Set<Seq<char>>)
    ensures
        dice_of(a, b).den > 0,
{
}

/// There is at most one pair that is taken next.
proof fn lemma_taken_next_unique(
    exp: Seq<TokenizedView>,
    obs: Seq<TokenizedView>,
    exp_used: Seq<bool>,
    obs_used: Seq<bool>,
    p: (int, int),
    q: (int, int),
)
    requires
        taken_next(exp, obs, exp_used, obs_used, p),
        taken_next(exp, obs, exp_used, obs_used, q),
    ensures
        p == q,
{
    if p != q {
        assert(taken_before(exp, obs, p, q));
        assert(taken_before(exp, obs, q, p));
    }
}

/// Finds the pair that is taken next.
fn find_next(
    exp: &Vec<Tokenized>,
    obs: &Vec<Tokenized>,
    exp_used: &Vec<bool>,
    obs_used: &Vec<bool>,
) -> (r: Option<(usize, usize)>)
    requires
        tokens_wf(exp@),
        tokens_wf(obs@),
        exp_used.len() == exp.len(),
        obs_used.len() == obs.len(),
    ensures
        match r {
            Some(p) => taken_next(
                seq_views(exp@),
                seq_views(obs@),
                exp_used@,
                obs_used@,
                (p.0 as int, p.1 as int),
            ),
            None => forall|q: (int, int)|
                !(#[trigger] candidate(
                    seq_views(exp@),
                    seq_views(obs@),
                    exp_used@,
                    obs_used@,
                    q,
                )),
        },
{
    let ghost e = seq_views(exp@);
    let ghost o = seq_views(obs@);
    let mut best: Option<(usize, usize)> = None;
    let mut best_dice = Ratio { num: 0, den: 1 };
    let mut i: usize = 0;
    while i < exp.len()
        invariant
            i <= exp.len(),
            tokens_wf(exp@),
            tokens_wf(obs@),
            exp_used.len() == exp.len(),
            obs_used.len() == obs.len(),
            e == seq_views(exp@),
            o == seq_views(obs@),
            best_among(e, o, exp_used@, obs_used@, i as int, 0, best, best_dice),
        decreases exp.len() - i,
    {
        let mut j: usize = 0;
        while j < obs.len()
            invariant
                i < exp.len(),
                j <= obs.len(),
                tokens_wf(exp@),
                tokens_wf(obs@),
                exp_used.len() == exp.len(),
                obs_used.len() == obs.len(),
                e == seq_views(exp@),
                o == seq_views(obs@),
                best_among(e, o, exp_used@, obs_used@, i as int, j as int, best, best_dice),
            decreases obs.len() - j,
        {
            assert(e[i as int] == exp@[i as int]@);
            assert(o[j as int] == obs@[j as int]@);
            let ghost here = (i as int, j as int);
            let ghost old_best = best;
            let ghost old_dice = best_dice;
            if !exp_used[i] && !obs_used[j] && text_eq(exp[i].kind.as_str(), obs[j].kind.as_str()) {
                let d = dice(&exp[i].tokens, &obs[j].tokens);
                if !d.below(&Ratio { num: 1, den: 2 }) {
                    assert(candidate(e, o, exp_used@, obs_used@, here));
                    if best.is_none() || best_dice.below(&d) {
                        proof {
                            lemma_best_improves(
                                e,
                                o,
                                exp_used@,
                                obs_used@,
                                here,
                                old_best,
                                old_dice,
                                d,
                            );
                        }
                        best = Some((i, j));
                        best_dice = d;
                    }
                }
            }
            j = j + 1;
        }
        proof {
            assert forall|q: (int, int)| #[trigger]
                candidate(e, o, exp_used@, obs_used@, q) && (q.0 < i + 1 || (q.0 == i + 1 && q.1
                    < 0)) implies q.0 < i || (q.0 == i && q.1 < j) by {}
        }
        i = i + 1;
    }
    best
}

/// The best of the pairs before a place.
spec fn best_among(
    exp: Seq<TokenizedView>,
    obs: Seq<TokenizedView>,
    exp_used: Seq<bool>,
    obs_used: Seq<bool>,
    i: int,
    j: int,
    best: Option<(usize, usize)>,
    best_dice: Ratio,
) -> bool {
    match best {
        None => forall|q: (int, int)| #[trigger]
            candidate(exp, obs, exp_used, obs_used, q) ==> !(q.0 < i || (q.0 == i && q.1 < j)),
        Some(b) => {
            let p = (b.0 as int, b.1 as int);
            &&& candidate(exp, obs, exp_used, obs_used, p)
            &&& p.0 < i || (p.0 == i && p.1 < j)
            &&& best_dice == pair_dice(exp, obs, p)
            &&& forall|q: (int, int)| #[trigger]
                candidate(exp, obs, exp_used, obs_used, q) && q != p && (q.0 < i || (q.0 == i && q.1
                    < j)) ==> taken_before(exp, obs, p, q)
        },
    }
}

proof fn lemma_best_improves(
    exp: Seq<TokenizedView>,
    obs: Seq<TokenizedView>,
    exp_used: Seq<bool>,
    obs_used: Seq<bool>,
    here: (int, int),
    best: Option<(usize, usize)>,
    best_dice: Ratio,
    d: Ratio,
)
    requires
        best_among(exp, obs, exp_used, obs_used, here.0, here.1, best, best_dice),
        d == pair_dice(exp, obs, here),
        best is None || best_dice.lt(d),
    ensures
        forall|q: (int, int)| #[trigger]
            candidate(exp, obs, exp_used, obs_used, q) && (q.0 < here.0 || (q.0 == here.0 && q.1
                < here.1)) ==> taken_before(exp, obs, here, q),
{
    if let Some(b) = best {
        let p = (b.0 as int, b.1 as int);
        assert forall|q: (int, int)| #[trigger]
            candidate(exp, obs, exp_used, obs_used, q) && (q.0 < here.0 || (q.0 == here.0 && q.1
                < here.1)) implies taken_before(exp, obs, here, q) by {
            let dq = pair_dice(exp, obs, q);
            lemma_dice_denominator(exp[q.0].tokens, obs[q.1].tokens);
            lemma_dice_denominator(exp[p.0].tokens, obs[p.1].tokens);
            lemma_dice_denominator(exp[here.0].tokens, obs[here.1].tokens);
            if q != p {
                assert(taken_before(exp, obs, p, q));
                lemma_ratio_transitive(dq, best_dice, d);
            }
        }
    }
}

/// Which items belong to a pair.
pub struct Matching {
    pub exp_used: Vec<bool>,
    pub obs_used: Vec<bool>,
}

/// A list of `false`.
fn free_list(n: usize) -> (r: Vec<bool>)
    ensures
        r@ == all_free(n as nat),
{
    let mut out: Vec<bool> = Vec::new();
    while out.len() < n
        invariant
            out.len() <= n,
            forall|k: int| 0 <= k < out.len() ==> !#[trigger] out@[k],
        decreases n - out.len(),
    {
        out.push(false);
    }
    assert(out@ =~= all_free(n as nat));
    out
}

/// Pairs expected items with extracted ones.
pub fn match_items(exp: &Vec<Tokenized>, obs: &Vec<Tokenized>) -> (r: Matching)
    requires
        tokens_wf(exp@),
        tokens_wf(obs@),
    ensures
        (r.exp_used@, r.obs_used@) == matched(seq_views(exp@), seq_views(obs@)),
        r.exp_used.len() == exp.len(),
        r.obs_used.len() == obs.len(),
{
    let ghost e = seq_views(exp@);
    let ghost o = seq_views(obs@);
    let mut exp_used = free_list(exp.len());
    let mut obs_used = free_list(obs.len());
    let ghost mut most: nat = e.len();
    proof {
        lemma_all_free(e.len());
    }
    loop
        invariant
            tokens_wf(exp@),
            tokens_wf(obs@),
            exp_used.len() == exp.len(),
            obs_used.len() == obs.len(),
            e == seq_views(exp@),
            o == seq_views(obs@),
            free_count(exp_used@) <= most,
            paired(e, o, exp_used@, obs_used@, most) == matched(e, o),
        decreases most,
    {
        match find_next(exp, obs, &exp_used, &obs_used) {
            None => {
                proof {
                    if exists|p: (int, int)| taken_next(e, o, exp_used@, obs_used@, p) {
                        let p = choose|p: (int, int)| taken_next(e, o, exp_used@, obs_used@, p);
                        assert(candidate(e, o, exp_used@, obs_used@, p));
                    }
                }
                return Matching { exp_used, obs_used };
            },
            Some((i, j)) => {
                proof {
                    let p = (i as int, j as int);
                    assert(taken_next(e, o, exp_used@, obs_used@, p));
                    let q = choose|q: (int, int)| taken_next(e, o, exp_used@, obs_used@, q);
                    lemma_taken_next_unique(e, o, exp_used@, obs_used@, p, q);
                    lemma_taking_counts(exp_used@, i as int);
                    assert(most > 0);
                }
                exp_used.set(i, true);
                obs_used.set(j, true);
                proof {
                    most = (most - 1) as nat;
                }
            },
        }
    }
}

/// As many expected items as extracted ones belong to a pair.
pub proof fn law_pairs_are_one_to_one(exp: Seq<TokenizedView>, obs: Seq<TokenizedView>)
    ensures
        taken_count(matched(exp, obs).0) == taken_count(matched(exp, obs).1),
        matched(exp, obs).0.len() == exp.len(),
        matched(exp, obs).1.len() == obs.len(),
        taken_count(matched(exp, obs).0) <= exp.len(),
        taken_count(matched(exp, obs).1) <= obs.len(),
{
    lemma_all_free(exp.len());
    lemma_all_free(obs.len());
    lemma_paired_counts(exp, obs, all_free(exp.len()), all_free(obs.len()), exp.len());
    lemma_counts_add_up(matched(exp, obs).0);
    lemma_counts_add_up(matched(exp, obs).1);
}

proof fn lemma_paired_counts(
    exp: Seq<TokenizedView>,
    obs: Seq<TokenizedView>,
    exp_used: Seq<bool>,
    obs_used: Seq<bool>,
    most: nat,
)
    requires
        exp_used.len() == exp.len(),
        obs_used.len() == obs.len(),
        taken_count(exp_used) == taken_count(obs_used),
    ensures
        ({
            let r = paired(exp, obs, exp_used, obs_used, most);
            &&& r.0.len() == exp.len()
            &&& r.1.len() == obs.len()
            &&& taken_count(r.0) == taken_count(r.1)
        }),
    decreases most,
{
    if most > 0 && (exists|p: (int, int)| taken_next(exp, obs, exp_used, obs_used, p)) {
        let p = choose|p: (int, int)| taken_next(exp, obs, exp_used, obs_used, p);
        lemma_taking_counts(exp_used, p.0);
        lemma_taking_counts(obs_used, p.1);
        lemma_paired_counts(
            exp,
            obs,
            exp_used.update(p.0, true),
            obs_used.update(p.1, true),
            (most - 1) as nat,
        );
    }
}

/// Of the candidates before a place there is one that is taken first.
proof fn lemma_first_before(
    exp: Seq<TokenizedView>,
    obs: Seq<TokenizedView>,
    exp_used: Seq<bool>,
    obs_used: Seq<bool>,
    i: int,
    j: int,
) -> (r: Option<(int, int)>)
    requires
        0 <= i <= exp.len(),
        0 <= j <= obs.len(),
    ensures
        match r {
            Some(p) => candidate(exp, obs, exp_used, obs_used, p) && (p.0 < i || (p.0 == i && p.1
                < j)) && forall|q: (int, int)| #[trigger]
                candidate(exp, obs, exp_used, obs_used, q) && q != p && (q.0 < i || (q.0 == i && q.1
                    < j)) ==> taken_before(exp, obs, p, q),
            None => forall|q: (int, int)| #[trigger]
                candidate(exp, obs, exp_used, obs_used, q) ==> !(q.0 < i || (q.0 == i && q.1 < j)),
        },
    decreases i, j,
{
    if j > 0 {
        let here = (i, j - 1);
        let before = lemma_first_before(exp, obs, exp_used, obs_used, i, j - 1);
        if !candidate(exp, obs, exp_used, obs_used, here) {
            before
        } else {
            match before {
                None => Some(here),
                Some(p) => if pair_dice(exp, obs, p).lt(pair_dice(exp, obs, here)) {
                    assert forall|q: (int, int)| #[trigger]
                        candidate(exp, obs, exp_used, obs_used, q) && q != here && (q.0 < i || (q.0
                            == i && q.1 < j)) implies taken_before(exp, obs, here, q) by {
                        lemma_dice_denominator(exp[q.0].tokens, obs[q.1].tokens);
                        lemma_dice_denominator(exp[p.0].tokens, obs[p.1].tokens);
                        lemma_dice_denominator(exp[here.0].tokens, obs[here.1].tokens);
                        if q != p {
                            assert(taken_before(exp, obs, p, q));
                            lemma_ratio_transitive(
                                pair_dice(exp, obs, q),
                                pair_dice(exp, obs, p),
                                pair_dice(exp, obs, here),
                            );
                        }
                    }
                    Some(here)
                } else {
                    Some(p)
                },
            }
        }
    } else if i > 0 {
        lemma_first_before(exp, obs, exp_used, obs_used, i - 1, obs.len() as int)
    } else {
        None
    }
}

/// Taking pairs goes on until there is no candidate.
proof fn lemma_pairing_leaves_no_candidate(
    exp: Seq<TokenizedView>,
    obs: Seq<TokenizedView>,
    exp_used: Seq<bool>,
    obs_used: Seq<bool>,
    most: nat,
    i: int,
    j: int,
)
    requires
        exp_used.len() == exp.len(),
        obs_used.len() == obs.len(),
        free_count(exp_used) <= most,
    ensures
        ({
            let r = paired(exp, obs, exp_used, obs_used, most);
            !candidate(exp, obs, r.0, r.1, (i, j))
        }),
    decreases most,
{
    if most > 0 && (exists|p: (int, int)| taken_next(exp, obs, exp_used, obs_used, p)) {
        let p = choose|p: (int, int)| taken_next(exp, obs, exp_used, obs_used, p);
        lemma_taking_counts(exp_used, p.0);
        lemma_pairing_leaves_no_candidate(
            exp,
            obs,
            exp_used.update(p.0, true),
            obs_used.update(p.1, true),
            (most - 1) as nat,
            i,
            j,
        );
    } else if candidate(exp, obs, exp_used, obs_used, (i, j)) {
        lemma_taking_counts(exp_used, i);
        let first = lemma_first_before(exp, obs, exp_used, obs_used, exp.len() as int, 0);
        assert(taken_next(exp, obs, exp_used, obs_used, first->0));
    }
}

/// Matching leaves no pair behind: of an expected and an extracted item of one
/// kind that are alike, one at least belongs to a pair.
pub proof fn law_no_like_pair_is_left(
    exp: Seq<TokenizedView>,
    obs: Seq<TokenizedView>,
    i: int,
    j: int,
)
    requires
        0 <= i < exp.len(),
        0 <= j < obs.len(),
        exp[i].kind == obs[j].kind,
        alike(exp[i].tokens, obs[j].tokens),
    ensures
        matched(exp, obs).0[i] || matched(exp, obs).1[j],
{
    lemma_all_free(exp.len());
    lemma_pairing_leaves_no_candidate(
        exp,
        obs,
        all_free(exp.len()),
        all_free(obs.len()),
        exp.len(),
        i,
        j,
    );
}

} // verus!
