//! Grades of an extraction.

use murmur::evals::corpus::{ExpectedContact, ExpectedItem, GroundTruth};
use murmur::evals::grade::{grade, Observed, ObservedContact, ObservedItem};
use murmur::ratio::Ratio;

fn value(r: Ratio) -> f64 {
    r.num as f64 / r.den as f64
}

fn item(kind: &str, text: &str) -> ExpectedItem {
    ExpectedItem { kind: kind.into(), text: text.into() }
}
fn obs_item(kind: &str, text: &str) -> ObservedItem {
    ObservedItem { kind: kind.into(), text: text.into() }
}

fn truth(items: Vec<ExpectedItem>) -> GroundTruth {
    GroundTruth { items, contacts: vec![], distractors: vec![], expects_summary: true }
}

#[test]
fn perfect_extraction_scores_one() {
    let gt = truth(vec![item("todo", "order lumber"), item("safety", "loose railing")]);
    let obs = Observed {
        items: vec![obs_item("todo", "order the lumber"), obs_item("safety", "railing is loose")],
        contacts: vec![],
        summary_present: true,
    };
    let s = grade(&gt, &obs);
    assert_eq!(s.overall.true_positives, 2);
    assert_eq!(s.overall.false_positives, 0);
    assert_eq!(s.overall.false_negatives, 0);
    assert!((value(s.overall.precision) - 1.0).abs() < 1e-9);
    assert!((value(s.overall.recall) - 1.0).abs() < 1e-9);
    assert!((value(s.f_half) - 1.0).abs() < 1e-9);
}

#[test]
fn over_extraction_is_penalized_harder_than_under_by_f_half() {
    let gt = truth(vec![item("todo", "order lumber"), item("todo", "call inspector")]);
    // over-extraction: got both + 2 invented -> P=0.5, R=1.0
    let over = grade(&gt, &Observed {
        items: vec![
            obs_item("todo", "order lumber"), obs_item("todo", "call inspector"),
            obs_item("todo", "paint the fence"), obs_item("todo", "buy coffee"),
        ],
        contacts: vec![], summary_present: true,
    });
    // under-extraction: got one, missed one -> P=1.0, R=0.5
    let under = grade(&gt, &Observed {
        items: vec![obs_item("todo", "order lumber")],
        contacts: vec![], summary_present: true,
    });
    // R6: F0.5 weights precision, so the under-extractor scores HIGHER
    assert!(value(under.f_half) > value(over.f_half), "under {:?} !> over {:?}", under.f_half, over.f_half);
}

#[test]
fn wrong_kind_is_not_a_true_positive_but_shows_in_confusion() {
    let gt = truth(vec![item("safety", "loose railing")]);
    // right text, wrong kind (todo) -> FP + FN, and a confusion entry
    let s = grade(&gt, &Observed {
        items: vec![obs_item("todo", "loose railing")],
        contacts: vec![], summary_present: true,
    });
    assert_eq!(s.overall.true_positives, 0);
    assert_eq!(s.overall.false_positives, 1);
    assert_eq!(s.overall.false_negatives, 1);
    assert!(s.confusion.iter().any(|c| c.expected_kind == "safety" && c.produced_kind == "todo"));
}

#[test]
fn distractor_hit_raises_r6_false_positive_rate() {
    let mut gt = truth(vec![item("todo", "order lumber")]);
    gt.distractors = vec!["might rain later maybe".into(), "grab lunch sometime".into()];
    // model wrongly turned a distractor into an item
    let s = grade(&gt, &Observed {
        items: vec![obs_item("todo", "order lumber"), obs_item("todo", "grab lunch sometime")],
        contacts: vec![], summary_present: true,
    });
    assert_eq!(s.distractor_count, 2);
    assert_eq!(s.distractor_hits, 1);
    assert!((value(s.distractor_fp_rate) - 0.5).abs() < 1e-9);
}

#[test]
fn contact_accuracy_matches_name_and_optional_trade() {
    let gt = GroundTruth {
        items: vec![], distractors: vec![], expects_summary: true,
        contacts: vec![
            ExpectedContact { name: "Dev".into(), trade: Some("framer".into()) },
            ExpectedContact { name: "Hank".into(), trade: None },
        ],
    };
    let s = grade(&gt, &Observed {
        items: vec![],
        contacts: vec![
            ObservedContact { name: "Dev".into(), trade: Some("framer".into()) },
            // Hank present, trade unknown — acceptable since expected trade is None
            ObservedContact { name: "Hank".into(), trade: None },
        ],
        summary_present: true,
    });
    assert_eq!(s.contacts_expected, 2);
    assert_eq!(s.contacts_matched, 2);
    assert!((value(s.contact_accuracy) - 1.0).abs() < 1e-9);
}

#[test]
fn wrong_trade_fails_the_contact_match() {
    let gt = GroundTruth {
        items: vec![], distractors: vec![], expects_summary: true,
        contacts: vec![ExpectedContact { name: "Dev".into(), trade: Some("framer".into()) }],
    };
    let s = grade(&gt, &Observed {
        items: vec![],
        contacts: vec![ObservedContact { name: "Dev".into(), trade: Some("plumber".into()) }],
        summary_present: true,
    });
    assert_eq!(s.contacts_matched, 0);
}

#[test]
fn summary_presence_is_scored_against_expectation() {
    let gt = truth(vec![]);
    let missing = grade(&gt, &Observed { items: vec![], contacts: vec![], summary_present: false });
    assert!(!missing.summary_ok, "expected a summary, none produced");
    let present = grade(&gt, &Observed { items: vec![], contacts: vec![], summary_present: true });
    assert!(present.summary_ok);
}

#[test]
fn per_kind_breakdown_is_reported() {
    let gt = truth(vec![item("todo", "order lumber"), item("safety", "loose railing")]);
    let s = grade(&gt, &Observed {
        items: vec![obs_item("todo", "order lumber")], // missed the safety item
        contacts: vec![], summary_present: true,
    });
    let todo = s.per_kind.iter().find(|k| k.kind == "todo").unwrap();
    assert!((value(todo.recall) - 1.0).abs() < 1e-9);
    let safety = s.per_kind.iter().find(|k| k.kind == "safety").unwrap();
    assert!((value(safety.recall) - 0.0).abs() < 1e-9);
}
