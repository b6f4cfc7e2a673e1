use std::str::FromStr;

use ccsplit::command::Command;
use ccsplit::db::Queryable;
use ccsplit::filename::{log_file_key, sanitize_file_name};

#[test]
fn queryable_keeps_its_file() {
    let q = Queryable::new(r"c:\temp\log_file.db");
    assert_eq!(q.file(), r"c:\temp\log_file.db");
}

#[test]
fn command_names_in_any_case() {
    assert_eq!(Command::parse("count"), Ok(Command::Count));
    assert_eq!(Command::parse("SPLIT"), Ok(Command::Split));
    assert_eq!(Command::parse("Time"), Ok(Command::Time));
    assert_eq!(Command::parse("dIfF"), Ok(Command::Diff));
}

#[test]
fn command_unknown_name_is_refused() {
    assert_eq!(Command::parse("Merge"), Err("merge is an invalid command".to_string()));
    assert_eq!(Command::parse(""), Err(" is an invalid command".to_string()));
    assert_eq!(Command::parse(" count"), Err(" count is an invalid command".to_string()));
}

#[test]
fn command_from_str_and_default() {
    assert_eq!(Command::from_str("COUNT"), Ok(Command::Count));
    assert_eq!(Command::from_str("nope"), Err("nope is an invalid command".to_string()));
    assert_eq!(Command::default(), Command::Count);
}

#[test]
fn sanitize_replaces_each_forbidden_char() {
    assert_eq!(
        sanitize_file_name("a>b<c:d?e*f/g\\h|i\"j.log"),
        "a_b_c_d_e_f_g_h_i_j.log"
    );
    assert_eq!(sanitize_file_name("plain-name_1.log"), "plain-name_1.log");
    assert_eq!(sanitize_file_name(""), "");
    assert_eq!(sanitize_file_name("äö:ü"), "äö_ü");
}

#[test]
fn sanitize_is_idempotent() {
    let once = sanitize_file_name("x::y//z");
    assert_eq!(once, "x__y__z");
    assert_eq!(sanitize_file_name(&once), once);
}

#[test]
fn log_key_of_short_capture() {
    assert_eq!(log_file_key("1234"), Some("1234.log".to_string()));
    assert_eq!(log_file_key(""), Some(".log".to_string()));
}

#[test]
fn log_key_cuts_long_capture_to_251_bytes() {
    let long = "a".repeat(300);
    let key = log_file_key(&long).unwrap();
    assert_eq!(key, format!("{}.log", "a".repeat(251)));
    assert_eq!(key.len(), 255);
    let exact = "b".repeat(251);
    assert_eq!(log_file_key(&exact), Some(format!("{}.log", exact)));
}

#[test]
fn log_key_refuses_cut_inside_a_character() {
    // 250 ASCII bytes, then a two-byte character spanning bytes 250 and 251
    let s = format!("{}é", "a".repeat(250));
    assert_eq!(log_file_key(&s), None);
    // 249 ASCII bytes and the two-byte character end exactly at byte 251
    let t = format!("{}éz", "a".repeat(249));
    assert_eq!(log_file_key(&t), Some(format!("{}é.log", "a".repeat(249))));
}

#[test]
fn command_from_lowercase_name() {
    assert_eq!(Command::from_lowercase("time"), Ok(Command::Time));
    assert_eq!(Command::from_lowercase("TIME"), Err("TIME is an invalid command".to_string()));
    assert_eq!(Command::from_lowercase("diff"), Ok(Command::Diff));
}

#[test]
fn command_variant_names_parse_back() {
    for c in [Command::Count, Command::Split, Command::Time, Command::Diff] {
        assert_eq!(Command::from_str(&format!("{:?}", c)), Ok(c));
    }
}

#[test]
fn command_name_and_its_lowercase_agree() {
    for s in ["DiFf", "COUNT", "sPlit", "Time", "bogus", "ÄNDERN"] {
        assert_eq!(Command::from_str(s), Command::from_str(&s.to_lowercase()));
    }
    assert_eq!(Command::from_str("DiFf"), Ok(Command::Diff));
}
