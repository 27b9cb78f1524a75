use rts_core::leaderboard::{AtomicLeaderboard, Leaderboard, MutexLeaderboard, RwLockLeaderboard};

const EDITS: &[&str] = &[
    "en.wikipedia.org",
    "de.wikipedia.org",
    "en.wikipedia.org",
    "fr.wikipedia.org",
    "de.wikipedia.org",
    "en.wikipedia.org",
    "ja.wikipedia.org",
    "es.wikipedia.org",
    "ja.wikipedia.org",
];

fn expected() -> Vec<(String, u64)> {
    vec![
        ("en.wikipedia.org".to_string(), 3),
        ("de.wikipedia.org".to_string(), 2),
        ("ja.wikipedia.org".to_string(), 2),
    ]
}

#[test]
fn all_three_implementations_agree() {
    let mut m = MutexLeaderboard::new();
    let mut r = RwLockLeaderboard::new();
    let mut a = AtomicLeaderboard::new();
    for d in EDITS {
        m.increment(d);
        r.increment(d);
        a.increment(d);
    }
    assert_eq!(m.top3(), expected());
    assert_eq!(r.top3(), expected());
    assert_eq!(a.top3(), expected());
}

#[test]
fn trait_record_and_top_3_match_inherent_methods() {
    fn fill<L: Leaderboard>(l: &mut L) -> Vec<(String, u64)> {
        for d in EDITS {
            l.record(d);
        }
        l.top_3()
    }
    assert_eq!(fill(&mut MutexLeaderboard::new()), expected());
    assert_eq!(fill(&mut RwLockLeaderboard::new()), expected());
    assert_eq!(fill(&mut AtomicLeaderboard::new()), expected());
}

#[test]
fn ties_break_by_ascending_name() {
    let mut a = AtomicLeaderboard::new();
    for d in ["zz.org", "bb.org", "aa.org", "cc.org"] {
        a.increment(d);
    }
    assert_eq!(
        a.top3(),
        vec![("aa.org".to_string(), 1), ("bb.org".to_string(), 1), ("cc.org".to_string(), 1)]
    );
}

#[test]
fn fewer_than_three_domains() {
    let mut m = MutexLeaderboard::new();
    assert!(m.top3().is_empty());
    m.increment("en.wikipedia.org");
    m.increment("en.wikipedia.org");
    m.increment("b");
    assert_eq!(m.top3(), vec![("en.wikipedia.org".to_string(), 2), ("b".to_string(), 1)]);
}

#[test]
fn prefix_name_ranks_first_on_tie() {
    let mut r = RwLockLeaderboard::new();
    r.increment("ab");
    r.increment("a");
    r.increment("b");
    r.increment("b");
    assert_eq!(
        r.top3(),
        vec![("b".to_string(), 2), ("a".to_string(), 1), ("ab".to_string(), 1)]
    );
}

#[test]
fn atomic_counts_accumulate_per_domain() {
    let mut a = AtomicLeaderboard::new();
    for _ in 0..5 {
        a.increment("x");
    }
    a.increment("y");
    assert_eq!(a.top3(), vec![("x".to_string(), 5), ("y".to_string(), 1)]);
}

#[test]
fn edit_order_does_not_change_the_top_3() {
    let mut forward = MutexLeaderboard::new();
    let mut backward = RwLockLeaderboard::new();
    let mut shuffled = AtomicLeaderboard::new();
    for d in EDITS {
        forward.increment(d);
    }
    for d in EDITS.iter().rev() {
        backward.increment(d);
    }
    for i in [4, 0, 8, 2, 6, 1, 7, 3, 5] {
        shuffled.increment(EDITS[i]);
    }
    assert_eq!(forward.top3(), expected());
    assert_eq!(backward.top3(), expected());
    assert_eq!(shuffled.top3(), expected());
}
