use ccsplit::pattern::Pattern;
use ccsplit::tally::{Tally, TallyError};

fn pattern(s: &str) -> Pattern {
    match Pattern::new(s) {
        Ok(p) => p,
        Err(_) => panic!("pattern does not compile"),
    }
}

#[test]
fn counts_findings_per_key() {
    let re = pattern(r"pid=(\d+)");
    let mut t = Tally::new();
    assert_eq!(t.record_line(&re, "pid=7 pid=9 pid=7"), Ok(()));
    assert_eq!(t.record_line(&re, "nothing"), Ok(()));
    assert_eq!(t.record_line(&re, "pid=9 end pid=9"), Ok(()));
    assert_eq!(t.total(), 5);
    assert_eq!(t.unique(), 2);
    assert_eq!(
        t.ranking(),
        vec![("9".to_string(), 3), ("7".to_string(), 2)]
    );
}

#[test]
fn ties_keep_first_appearance_order() {
    let mut t = Tally::new();
    t.record("b");
    t.record("a");
    t.record("c");
    t.record("a");
    t.record("c");
    assert_eq!(t.total(), 5);
    assert_eq!(
        t.ranking(),
        vec![("a".to_string(), 2), ("c".to_string(), 2), ("b".to_string(), 1)]
    );
}

#[test]
fn empty_tally() {
    let t = Tally::new();
    assert_eq!(t.total(), 0);
    assert_eq!(t.unique(), 0);
    assert!(t.ranking().is_empty());
}

#[test]
fn match_without_group_one_is_reported() {
    let re = pattern(r"x(y)?");
    let mut t = Tally::new();
    assert_eq!(t.record_line(&re, "xy"), Ok(()));
    assert_eq!(t.record_line(&re, "x-"), Err(TallyError::MissingGroup));
    let plain = pattern(r"abc");
    let mut u = Tally::new();
    assert_eq!(u.record_line(&plain, "abc"), Err(TallyError::MissingGroup));
    assert_eq!(u.record_line(&plain, "zzz"), Ok(()));
}

#[test]
fn record_matches_directly() {
    let mut t = Tally::new();
    let ms = vec![
        vec![Some("k=a".to_string()), Some("a".to_string())],
        vec![Some("k=b".to_string()), Some("b".to_string())],
        vec![Some("k=a".to_string()), Some("a".to_string())],
    ];
    assert_eq!(t.record_matches(&ms), Ok(()));
    assert_eq!(t.ranking(), vec![("a".to_string(), 2), ("b".to_string(), 1)]);
    let bad = vec![vec![Some("k".to_string())]];
    assert_eq!(t.record_matches(&bad), Err(TallyError::MissingGroup));
}

#[test]
fn counts_ignore_line_order() {
    let re = pattern(r"k=(\w+)");
    let lines = ["k=a k=b", "none", "k=a", "k=c k=a k=b"];
    let mut forward = Tally::new();
    for l in lines.iter() {
        assert_eq!(forward.record_line(&re, l), Ok(()));
    }
    let mut backward = Tally::new();
    for l in lines.iter().rev() {
        assert_eq!(backward.record_line(&re, l), Ok(()));
    }
    assert_eq!(forward.total(), backward.total());
    assert_eq!(forward.unique(), backward.unique());
    let mut f = forward.ranking();
    let mut b = backward.ranking();
    f.sort();
    b.sort();
    assert_eq!(f, b);
    assert_eq!(forward.ranking()[0], ("a".to_string(), 3));
}
