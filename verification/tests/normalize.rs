//! Texts as sets of words.

use murmur::evals::normalize::{dice, token_set};
use murmur::ratio::Ratio;

fn value(r: Ratio) -> f64 {
    r.num as f64 / r.den as f64
}

#[test]
fn normalize_lowercases_strips_punct_and_stopwords() {
    // "Order the lumber!" -> {order, lumber}  (the/for/a dropped, "!" gone)
    let t = token_set("Order the lumber!");
    assert!(t.contains("order"));
    assert!(t.contains("lumber"));
    assert!(!t.contains("the"));
}

#[test]
fn normalize_strips_trailing_plural_s() {
    assert_eq!(token_set("joists"), token_set("joist"));
}

#[test]
fn dice_is_one_for_identical_sets() {
    assert_eq!(value(dice(&token_set("order lumber"), &token_set("order lumber"))), 1.0);
}

#[test]
fn dice_is_order_independent() {
    let a = value(dice(&token_set("order the lumber"), &token_set("lumber order")));
    assert_eq!(a, 1.0, "stopword-stripped token SETS are equal regardless of order");
}

#[test]
fn dice_is_zero_for_disjoint_sets() {
    assert_eq!(value(dice(&token_set("order lumber"), &token_set("call framer"))), 0.0);
}

#[test]
fn dice_partial_overlap_is_between() {
    // {order,lumber,deck} vs {order,lumber} -> 2*2/(3+2) = 0.8
    let d = value(dice(&token_set("order lumber deck"), &token_set("order lumber")));
    assert!((d - 0.8).abs() < 1e-9, "got {d}");
}

#[test]
fn empty_sets_score_zero_not_nan() {
    assert_eq!(value(dice(&token_set(""), &token_set(""))), 0.0);
    assert_eq!(value(dice(&token_set("order"), &token_set(""))), 0.0);
}

#[test]
fn dice_says_whether_words_are_shared() {
    let a = token_set("order lumber deck");
    let b = token_set("order nails");
    let c = token_set("deck lumber order");
    assert!(dice(&a, &b).num > 0, "one word is shared");
    assert!(value(dice(&a, &b)) < 1.0, "not every word is shared");
    assert_eq!(value(dice(&a, &c)), 1.0);
    assert_eq!(dice(&a, &token_set("call framer")).num, 0);
}

#[test]
fn joined_texts_have_the_words_of_both() {
    let whole = token_set("Order lumber. Call Dev");
    let first = token_set("Order lumber");
    let second = token_set(" Call Dev");
    assert_eq!(whole.len(), first.len() + second.len());
    for w in ["order", "lumber", "call", "dev"] {
        assert!(whole.contains(w));
        assert!(first.contains(w) || second.contains(w));
    }
    assert_eq!(token_set("order order"), token_set("order"));
}
