//! When to reflect.

use murmur::harness::reflection::policy::{ReflectionPolicy, ReflectionSignals};
use murmur::ratio::Ratio;

const NONE: Ratio = Ratio { num: 0, den: 1 };
const LOW: Ratio = Ratio { num: 5, den: 100 };
const HIGH: Ratio = Ratio { num: 5, den: 10 };

fn signals(sessions: u32, corrections: u32, completed: u32, churn: &[Ratio]) -> ReflectionSignals {
    ReflectionSignals {
        sessions_since_reflection: sessions,
        corrections_since_reflection: corrections,
        completed_reflections: completed,
        recent_churn: churn.to_vec(),
    }
}

#[test]
fn no_new_sessions_means_no_reflection() {
    let p = ReflectionPolicy::default();
    assert!(!p.should_reflect(&signals(0, 0, 0, &[])));
    assert!(!p.should_reflect(&signals(0, 3, 10, &[NONE])), "even corrections wait for a session");
}

#[test]
fn warmup_reflects_every_session() {
    let p = ReflectionPolicy::default(); // warmup_reflections = 5
    assert!(p.should_reflect(&signals(1, 0, 0, &[])));
    assert!(p.should_reflect(&signals(1, 0, 4, &[NONE, NONE])));
}

#[test]
fn corrections_snap_cadence_back() {
    let p = ReflectionPolicy::default();
    // post-warmup, dead-flat churn, but a correction happened
    assert!(p.should_reflect(&signals(1, 1, 20, &[NONE, NONE, NONE])));
}

#[test]
fn low_churn_backs_off_exponentially() {
    let p = ReflectionPolicy::default(); // threshold 0.1, max 16
    // one low-churn reflection → interval 2
    assert!(!p.should_reflect(&signals(1, 0, 6, &[LOW])));
    assert!(p.should_reflect(&signals(2, 0, 6, &[LOW])));
    // three trailing low-churn → interval 8
    assert!(!p.should_reflect(&signals(7, 0, 9, &[LOW, LOW, LOW])));
    assert!(p.should_reflect(&signals(8, 0, 9, &[LOW, LOW, LOW])));
}

#[test]
fn high_churn_keeps_every_session_cadence() {
    let p = ReflectionPolicy::default();
    assert!(p.should_reflect(&signals(1, 0, 10, &[HIGH])));
    // trailing high churn resets the backoff even after earlier low ones
    assert!(p.should_reflect(&signals(1, 0, 10, &[LOW, LOW, HIGH])));
}

#[test]
fn interval_is_capped_at_max() {
    let p = ReflectionPolicy::default(); // max_interval_sessions = 16
    let flat = [NONE; 10];
    assert!(!p.should_reflect(&signals(15, 0, 30, &flat)));
    assert!(p.should_reflect(&signals(16, 0, 30, &flat)));
}

#[test]
fn only_the_ceiling_ends_the_doubling() {
    let wide = ReflectionPolicy { max_interval_sessions: 1000, ..ReflectionPolicy::default() };
    assert_eq!(wide.required_interval(10, &[NONE; 6]), 64);
    assert_eq!(wide.required_interval(10, &[NONE; 7]), 128);
    assert_eq!(wide.required_interval(10, &[NONE; 9]), 512);
    assert_eq!(wide.required_interval(10, &[NONE; 10]), 1000);
    assert_eq!(wide.required_interval(10, &[NONE; 100]), 1000);
    assert_eq!(wide.required_interval(4, &[NONE; 100]), 1, "still warming up");
    let widest = ReflectionPolicy { max_interval_sessions: u32::MAX, ..wide };
    assert_eq!(widest.required_interval(10, &[NONE; 31]), 1 << 31);
    assert_eq!(widest.required_interval(10, &[NONE; 32]), u32::MAX);
    assert_eq!(widest.required_interval(10, &[NONE; 33]), u32::MAX);
    let none = ReflectionPolicy { max_interval_sessions: 0, ..wide };
    assert_eq!(none.required_interval(10, &[NONE; 3]), 0);
}
