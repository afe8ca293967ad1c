use localbench::json::{no_members, object, ordered_text, push_member, put_member, text_node, Json};
use localbench::matrix::{patch_scorecard_verdict, synthetic_unsolved_scorecard, TaskSpec};
use localbench::scorecard::scorecard_text;

fn json(text: &str) -> Json {
    Json::read(text).unwrap()
}

fn verdict(text: &str) -> Option<bool> {
    json(text).get("results").unwrap().get("passed").unwrap().flag()
}

#[test]
fn a_written_document_reads_back() {
    let mut members = no_members();
    push_member(&mut members, "zeta", Json::Unsigned(7));
    push_member(&mut members, "alpha", Json::Negative(-3));
    push_member(&mut members, "list", Json::List(vec![Json::Null, Json::Bool(true)]));
    let document = object(members);
    assert_eq!(document.write(), r#"{"alpha":-3,"list":[null,true],"zeta":7}"#);
    assert_eq!(
        document.write_pretty(),
        "{\n  \"alpha\": -3,\n  \"list\": [\n    null,\n    true\n  ],\n  \"zeta\": 7\n}"
    );
    for text in [document.write(), document.write_pretty()] {
        let back = json(&text);
        assert_eq!(back.get("zeta").unwrap().unsigned(), Some(7));
        assert_eq!(back.get("alpha").unwrap().integer(), Some(-3));
        assert_eq!(back.get("list").unwrap().items(), vec![Json::Null, Json::Bool(true)]);
        assert_eq!(back.write(), document.write());
    }
}

#[test]
fn every_character_of_a_text_reads_back() {
    let text = "quote \" slash \\ newline \n null \u{0} bell \u{7} accent \u{e9} rocket \u{1f680}";
    let back = json(&text_node(text).write());
    assert_eq!(back.text().map(|t| t.as_str()), Some(text));
}

#[test]
fn a_number_that_is_no_integer_stays_one() {
    let back = json(&json(r#"{"score":0.75,"whole":1.0}"#).write());
    assert!(matches!(back.get("score"), Some(Json::Float(_))));
    assert!(matches!(back.get("whole"), Some(Json::Float(_))));
    assert_eq!(back.write(), r#"{"score":0.75,"whole":1.0}"#);
}

#[test]
fn the_bounds_of_the_integers_read_back() {
    for n in [0, 1, u64::MAX] {
        assert_eq!(json(&Json::Unsigned(n).write()), Json::Unsigned(n));
    }
    for n in [-1, i64::MIN] {
        assert_eq!(json(&Json::Negative(n).write()), Json::Negative(n));
    }
    assert_eq!(Json::Unsigned(u64::MAX).integer(), None);
    assert_eq!(Json::Negative(-1).unsigned(), None);
}

#[test]
fn a_text_that_nests_too_deep_does_not_read() {
    let deep = |n: usize| format!("{}{}", "[".repeat(n), "]".repeat(n));
    assert!(Json::read(&deep(127)).is_some());
    assert!(Json::read(&deep(128)).is_none());
}

#[test]
fn a_repeated_name_is_one_member() {
    let read = json(r#"{"a":1,"a":2}"#);
    assert!(matches!(&read, Json::Object(members) if members.len() == 1));
    assert_eq!(read.get("a").unwrap().unsigned(), Some(2));
}

#[test]
fn setting_a_member_replaces_or_adds_it() {
    let mut members = no_members();
    put_member(&mut members, "a", Json::Unsigned(1));
    put_member(&mut members, "b", Json::Unsigned(2));
    put_member(&mut members, "a", Json::Bool(false));
    assert_eq!(members.len(), 2);
    assert_eq!(ordered_text(&members), r#"{"a":false,"b":2}"#);
    let whole = object(members);
    assert_eq!(whole.get("a").unwrap().flag(), Some(false));
    assert_eq!(whole.get("c"), None);
    assert_eq!(whole.text_at("b"), None);
}

#[test]
fn ordered_text_keeps_the_order_given() {
    let mut members = no_members();
    push_member(&mut members, "z", text_node("a \"b\""));
    push_member(&mut members, "a", Json::Null);
    assert_eq!(ordered_text(&members), r#"{"z":"a \"b\"","a":null}"#);
    assert_eq!(ordered_text(&no_members()), "{}");
}

#[test]
fn what_is_no_json_does_not_read() {
    assert_eq!(Json::read(""), None);
    assert_eq!(Json::read("{"), None);
    assert_eq!(Json::read("{} trailing"), None);
    assert_eq!(Json::read(" null "), Some(Json::Null));
}

#[test]
fn cards_that_the_library_writes_rescore_unsolved() {
    let card = scorecard_text("t", "arm", "model", 3, "completed", 1, 1200);
    assert_eq!(verdict(&card), Some(false));
    assert_eq!(json(&card).get("process").unwrap().text_at("exit_reason").unwrap(), "completed");
    // Credit is a fraction, so its zero is written with a point.
    assert!(card.contains(r#""partial_credit":0.0,"#), "{card}");
    assert!(matches!(
        json(&card).get("results").unwrap().get("partial_credit"),
        Some(Json::Float(_))
    ));
}

#[test]
fn a_patched_card_rescores_as_it_was_graded() {
    let raw = r#"{"task":"t","results":{"passed":true,"partial_credit":0.5,"tests_total":4}}"#;
    for passed in [true, false] {
        let text = patch_scorecard_verdict(raw, passed).unwrap();
        assert_eq!(verdict(&text), Some(passed));
        let back = json(&text);
        assert_eq!(back.text_at("task").unwrap(), "t");
        assert_eq!(back.get("results").unwrap().get("tests_total").unwrap().unsigned(), Some(4));
    }
    let empty = patch_scorecard_verdict(r#"{"results":null}"#, true).unwrap();
    assert_eq!(empty, r#"{"results":{"passed":true}}"#);
}

#[test]
fn a_failed_cell_rescores_unsolved() {
    let task = TaskSpec {
        id: "wordy".to_string(),
        workspace: "/w".to_string(),
        problem: "p".to_string(),
        test_command: "cargo test".to_string(),
        image: None,
        grade_label: None,
        cargo_cache: None,
    };
    let text = synthetic_unsolved_scorecard(&task, "bare", "m", "solve timed out");
    assert_eq!(verdict(&text), Some(false));
    assert_eq!(
        json(&text).get("process").unwrap().text_at("exit_reason").unwrap(),
        "cell-failed: solve timed out"
    );
}
