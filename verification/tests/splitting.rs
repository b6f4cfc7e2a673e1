use ccsplit::pattern::Pattern;
use ccsplit::split::{SplitError, SplitRouter};

fn pattern(s: &str) -> Pattern {
    match Pattern::new(s) {
        Ok(p) => p,
        Err(_) => panic!("pattern does not compile"),
    }
}

#[test]
fn lines_before_first_key_are_dropped() {
    let re = pattern(r"^\[(\w+)\]");
    let mut router = SplitRouter::new();
    assert_eq!(router.route(&re, "no key here"), Ok(None));
    assert_eq!(router.last_key(), "");
}

#[test]
fn keyed_and_continuation_lines() {
    let re = pattern(r"^\[(\w+)\]");
    let mut router = SplitRouter::new();
    assert_eq!(router.route(&re, "[alpha] first"), Ok(Some("alpha.log".to_string())));
    assert_eq!(router.route(&re, "   continued"), Ok(Some("alpha.log".to_string())));
    assert_eq!(router.route(&re, "[beta] second"), Ok(Some("beta.log".to_string())));
    assert_eq!(router.route(&re, ""), Ok(Some("beta.log".to_string())));
    assert_eq!(router.last_key(), "beta.log");
}

#[test]
fn missing_group_gives_bare_extension() {
    let re = pattern(r"^(?:(\d+)|x)");
    let mut router = SplitRouter::new();
    assert_eq!(router.route(&re, "x marks"), Ok(Some(".log".to_string())));
    assert_eq!(router.route(&re, "42 answer"), Ok(Some("42.log".to_string())));
}

#[test]
fn pattern_without_group_one() {
    let re = pattern(r"^key");
    let mut router = SplitRouter::new();
    assert_eq!(router.route(&re, "key line"), Ok(Some(".log".to_string())));
}

#[test]
fn uncuttable_key_is_refused() {
    let re = pattern(r"^(\S+)");
    let mut router = SplitRouter::new();
    let line = format!("{}é rest", "a".repeat(250));
    assert_eq!(router.route(&re, &line), Err(SplitError::StemNotCuttable));
    assert_eq!(router.last_key(), "");
}

#[test]
fn route_captures_directly() {
    let mut router = SplitRouter::new();
    assert_eq!(router.route_captures(None), Ok(None));
    let groups = vec![Some("[k] x".to_string()), Some("k".to_string())];
    assert_eq!(router.route_captures(Some(groups)), Ok(Some("k.log".to_string())));
    assert_eq!(router.route_captures(None), Ok(Some("k.log".to_string())));
}

#[test]
fn invalid_pattern_is_refused() {
    assert!(Pattern::new("foo(bar").is_err());
    assert_eq!(pattern(r"\d+").as_str(), r"\d+");
}
