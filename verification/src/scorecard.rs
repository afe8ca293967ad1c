//! Scorecards that the library writes itself: what a drive observed, and
//! everything else zero. Pass or fail stays the grader's verdict.
use vstd::prelude::*;

use crate::json::{json_text, no_members, object, push_member, zero_number, Json, Member};
#[allow(unused_imports)]
use crate::json::{
    alike, find_member, json_of, json_text_of, law_members_of_alike_documents_are_alike, member,
    members_view, names_distinct, orderly, zero_point, JsonV, MAX_NESTING,
};

verus! {

/// A scorecard with the given process facts, everything else zero or false.
pub open spec fn process_card(
    task: Seq<char>,
    arm: Seq<char>,
    model: Seq<char>,
    tool_calls: u64,
    exit_reason: Seq<char>,
    interventions: u64,
    wall_ms: u64,
) -> JsonV {
    let zero = JsonV::Unsigned(0);
    let no = JsonV::Bool(false);
    JsonV::Object(
        seq![
            ("schema"@, JsonV::Unsigned(1)),
            ("task"@, JsonV::Text(task)),
            ("arm"@, JsonV::Text(arm)),
            ("model"@, JsonV::Text(model)),
            (
                "results"@,
                JsonV::Object(
                    seq![
                        ("passed"@, no),
                        ("regression_safe"@, no),
                        ("partial_credit"@, zero_point()),
                        ("tests_total"@, zero),
                        ("tests_passed"@, zero),
                    ],
                ),
            ),
            (
                "quality"@,
                JsonV::Object(
                    seq![
                        ("diff_added"@, zero),
                        ("diff_removed"@, zero),
                        ("diff_files"@, zero),
                        ("vs_gold_ratio"@, JsonV::Null),
                        ("format_clean"@, no),
                        ("lint_clean"@, no),
                        ("typecheck_clean"@, no),
                        ("complexity_delta"@, JsonV::Null),
                        ("tests_added"@, no),
                    ],
                ),
            ),
            (
                "process"@,
                JsonV::Object(
                    seq![
                        ("tool_calls"@, JsonV::Unsigned(tool_calls)),
                        ("redundant_calls"@, zero),
                        ("reproduce_before_fix"@, no),
                        ("test_before_done"@, no),
                        ("retrieval_used"@, no),
                        ("retrieval_count"@, zero),
                        ("exit_reason"@, JsonV::Text(exit_reason)),
                        ("recovered_after_failure"@, no),
                        ("interventions"@, JsonV::Unsigned(interventions)),
                        ("discipline"@, JsonV::Null),
                    ],
                ),
            ),
            (
                "speed"@,
                JsonV::Object(
                    seq![
                        ("wall_ms"@, JsonV::Unsigned(wall_ms)),
                        ("input_tokens"@, zero),
                        ("output_tokens"@, zero),
                    ],
                ),
            ),
            ("judge"@, JsonV::Null),
        ],
    )
}

/// The verdict that a scorecard carries.
pub open spec fn card_verdict(card: JsonV) -> Option<bool> {
    match member(card, "results"@) {
        Some(results) => match member(results, "passed"@) {
            Some(JsonV::Bool(p)) => Some(p),
            _ => None,
        },
        None => None,
    }
}

/// Whether a rescore of a scorecard's text, where it reads, counts it as given.
pub open spec fn rescores(text: Seq<char>, passed: bool) -> bool {
    match json_of(text) {
        Some(card) => card_verdict(card) == Some(passed),
        None => true,
    }
}

/// Documents that are alike carry the same verdict.
pub proof fn law_alike_cards_carry_one_verdict(card: JsonV, other: JsonV)
    requires
        alike(card, other),
    ensures
        card_verdict(other) == card_verdict(card),
{
    law_members_of_alike_documents_are_alike(card, other, "results"@);
    match (member(card, "results"@), member(other, "results"@)) {
        (Some(v), Some(w)) => {
            law_members_of_alike_documents_are_alike(v, w, "passed"@);
        },
        _ => {},
    }
}

/// A card that the library writes claims no solve.
pub proof fn law_a_process_card_is_unsolved(
    task: Seq<char>,
    arm: Seq<char>,
    model: Seq<char>,
    tool_calls: u64,
    exit_reason: Seq<char>,
    interventions: u64,
    wall_ms: u64,
)
    ensures
        card_verdict(
            process_card(task, arm, model, tool_calls, exit_reason, interventions, wall_ms),
        ) == Some(false),
{
    let card = process_card(task, arm, model, tool_calls, exit_reason, interventions, wall_ms);
    let all = card->Object_0;
    reveal_strlit("schema");
    reveal_strlit("task");
    reveal_strlit("arm");
    reveal_strlit("model");
    reveal_strlit("results");
    assert("results"@.len() == 7);
    assert("schema"@.len() == 6 && "task"@.len() == 4 && "arm"@.len() == 3 && "model"@.len() == 5);
    assert(all.skip(1)[0] == all[1]);
    assert(all.skip(1).skip(1)[0] == all[2]);
    assert(all.skip(1).skip(1).skip(1)[0] == all[3]);
    assert(all.skip(1).skip(1).skip(1).skip(1)[0] == all[4]);
    reveal_with_fuel(find_member, 5);
    assert(member(card, "results"@) == Some(all[4].1));
    assert(member(all[4].1, "passed"@) == Some(JsonV::Bool(false)));
}

proof fn lemma_result_names(results: Seq<(Seq<char>, JsonV)>)
    requires
        results.len() == 5,
        results[0].0 == "passed"@,
        results[1].0 == "regression_safe"@,
        results[2].0 == "partial_credit"@,
        results[3].0 == "tests_total"@,
        results[4].0 == "tests_passed"@,
    ensures
        names_distinct(results),
{
    reveal_strlit("passed");
    reveal_strlit("regression_safe");
    reveal_strlit("partial_credit");
    reveal_strlit("tests_total");
    reveal_strlit("tests_passed");
    assert("passed"@.len() == 6 && "regression_safe"@.len() == 15);
    assert("partial_credit"@.len() == 14 && "tests_total"@.len() == 11);
    assert("tests_passed"@.len() == 12);
}

proof fn lemma_quality_names(quality: Seq<(Seq<char>, JsonV)>)
    requires
        quality.len() == 9,
        quality[0].0 == "diff_added"@,
        quality[1].0 == "diff_removed"@,
        quality[2].0 == "diff_files"@,
        quality[3].0 == "vs_gold_ratio"@,
        quality[4].0 == "format_clean"@,
        quality[5].0 == "lint_clean"@,
        quality[6].0 == "typecheck_clean"@,
        quality[7].0 == "complexity_delta"@,
        quality[8].0 == "tests_added"@,
    ensures
        names_distinct(quality),
{
    reveal_strlit("diff_added");
    reveal_strlit("diff_removed");
    reveal_strlit("diff_files");
    reveal_strlit("vs_gold_ratio");
    reveal_strlit("format_clean");
    reveal_strlit("lint_clean");
    reveal_strlit("typecheck_clean");
    reveal_strlit("complexity_delta");
    reveal_strlit("tests_added");
    assert("diff_added"@[0] == 'd' && "diff_added"@[5] == 'a');
    assert("diff_removed"@[0] == 'd' && "diff_removed"@[5] == 'r');
    assert("diff_files"@[0] == 'd' && "diff_files"@[5] == 'f');
    assert("vs_gold_ratio"@[0] == 'v' && "format_clean"@[0] == 'f' && "lint_clean"@[0] == 'l');
    assert("typecheck_clean"@[0] == 't' && "typecheck_clean"@[1] == 'y');
    assert("complexity_delta"@[0] == 'c');
    assert("tests_added"@[0] == 't' && "tests_added"@[1] == 'e');
}

proof fn lemma_process_names(process: Seq<(Seq<char>, JsonV)>)
    requires
        process.len() == 10,
        process[0].0 == "tool_calls"@,
        process[1].0 == "redundant_calls"@,
        process[2].0 == "reproduce_before_fix"@,
        process[3].0 == "test_before_done"@,
        process[4].0 == "retrieval_used"@,
        process[5].0 == "retrieval_count"@,
        process[6].0 == "exit_reason"@,
        process[7].0 == "recovered_after_failure"@,
        process[8].0 == "interventions"@,
        process[9].0 == "discipline"@,
    ensures
        names_distinct(process),
{
    reveal_strlit("tool_calls");
    reveal_strlit("redundant_calls");
    reveal_strlit("reproduce_before_fix");
    reveal_strlit("test_before_done");
    reveal_strlit("retrieval_used");
    reveal_strlit("retrieval_count");
    reveal_strlit("exit_reason");
    reveal_strlit("recovered_after_failure");
    reveal_strlit("interventions");
    reveal_strlit("discipline");
    assert("tool_calls"@.len() == 10 && "tool_calls"@[0] == 't');
    assert("redundant_calls"@.len() == 15 && "redundant_calls"@[2] == 'd');
    assert("reproduce_before_fix"@.len() == 20 && "test_before_done"@.len() == 16);
    assert("retrieval_used"@.len() == 14);
    assert("retrieval_count"@.len() == 15 && "retrieval_count"@[2] == 't');
    assert("exit_reason"@.len() == 11 && "recovered_after_failure"@.len() == 23);
    assert("interventions"@.len() == 13);
    assert("discipline"@.len() == 10 && "discipline"@[0] == 'd');
}

proof fn lemma_speed_names(speed: Seq<(Seq<char>, JsonV)>)
    requires
        speed.len() == 3,
        speed[0].0 == "wall_ms"@,
        speed[1].0 == "input_tokens"@,
        speed[2].0 == "output_tokens"@,
    ensures
        names_distinct(speed),
{
    reveal_strlit("wall_ms");
    reveal_strlit("input_tokens");
    reveal_strlit("output_tokens");
    assert("wall_ms"@.len() == 7 && "input_tokens"@.len() == 12 && "output_tokens"@.len() == 13);
}

proof fn lemma_card_names(card: Seq<(Seq<char>, JsonV)>)
    requires
        card.len() == 9,
        card[0].0 == "schema"@,
        card[1].0 == "task"@,
        card[2].0 == "arm"@,
        card[3].0 == "model"@,
        card[4].0 == "results"@,
        card[5].0 == "quality"@,
        card[6].0 == "process"@,
        card[7].0 == "speed"@,
        card[8].0 == "judge"@,
    ensures
        names_distinct(card),
{
    reveal_strlit("schema");
    reveal_strlit("task");
    reveal_strlit("arm");
    reveal_strlit("model");
    reveal_strlit("results");
    reveal_strlit("quality");
    reveal_strlit("process");
    reveal_strlit("speed");
    reveal_strlit("judge");
    assert("schema"@[0] == 's' && "schema"@[1] == 'c' && "speed"@[0] == 's' && "speed"@[1] == 'p');
    assert("task"@[0] == 't' && "arm"@[0] == 'a' && "model"@[0] == 'm' && "results"@[0] == 'r');
    assert("quality"@[0] == 'q' && "process"@[0] == 'p' && "judge"@[0] == 'j');
}

/// A card that the library writes is in order, and its one number that is no
/// integer is a zero.
pub proof fn law_a_process_card_is_orderly(
    task: Seq<char>,
    arm: Seq<char>,
    model: Seq<char>,
    tool_calls: u64,
    exit_reason: Seq<char>,
    interventions: u64,
    wall_ms: u64,
    depth: int,
    floats: bool,
)
    requires
        depth >= 2,
    ensures
        orderly(
            process_card(task, arm, model, tool_calls, exit_reason, interventions, wall_ms),
            depth,
            floats,
        ),
{
    let all = process_card(
        task,
        arm,
        model,
        tool_calls,
        exit_reason,
        interventions,
        wall_ms,
    )->Object_0;
    lemma_result_names(all[4].1->Object_0);
    lemma_quality_names(all[5].1->Object_0);
    lemma_process_names(all[6].1->Object_0);
    lemma_speed_names(all[7].1->Object_0);
    lemma_card_names(all);
    assert forall|i: int| 0 <= i < all.len() implies orderly(
        (#[trigger] all[i]).1,
        depth - 1,
        floats,
    ) by {
        match all[i].1 {
            JsonV::Object(part) => {
                assert forall|j: int| 0 <= j < part.len() implies orderly(
                    (#[trigger] part[j]).1,
                    depth - 2,
                    floats,
                ) by {}
            },
            _ => {},
        }
    }
}

/// The text of a scorecard with the given process facts. It reads, as a card
/// that claims no solve, and its partial credit is no integer.
pub fn scorecard_text(
    task: &str,
    arm: &str,
    model: &str,
    tool_calls: u64,
    exit_reason: &str,
    interventions: u64,
    wall_ms: u64,
) -> (out: String)
    ensures
        out@ == json_text_of(
            process_card(task@, arm@, model@, tool_calls, exit_reason@, interventions, wall_ms),
        ),
        json_of(out@) is Some,
        rescores(out@, false),
        zero_point() is Float,
{
    let mut results: Vec<Member> = no_members();
    push_member(&mut results, "passed", Json::Bool(false));
    push_member(&mut results, "regression_safe", Json::Bool(false));
    push_member(&mut results, "partial_credit", zero_number());
    push_member(&mut results, "tests_total", Json::Unsigned(0));
    push_member(&mut results, "tests_passed", Json::Unsigned(0));
    let mut quality: Vec<Member> = no_members();
    push_member(&mut quality, "diff_added", Json::Unsigned(0));
    push_member(&mut quality, "diff_removed", Json::Unsigned(0));
    push_member(&mut quality, "diff_files", Json::Unsigned(0));
    push_member(&mut quality, "vs_gold_ratio", Json::Null);
    push_member(&mut quality, "format_clean", Json::Bool(false));
    push_member(&mut quality, "lint_clean", Json::Bool(false));
    push_member(&mut quality, "typecheck_clean", Json::Bool(false));
    push_member(&mut quality, "complexity_delta", Json::Null);
    push_member(&mut quality, "tests_added", Json::Bool(false));
    let mut process: Vec<Member> = no_members();
    push_member(&mut process, "tool_calls", Json::Unsigned(tool_calls));
    push_member(&mut process, "redundant_calls", Json::Unsigned(0));
    push_member(&mut process, "reproduce_before_fix", Json::Bool(false));
    push_member(&mut process, "test_before_done", Json::Bool(false));
    push_member(&mut process, "retrieval_used", Json::Bool(false));
    push_member(&mut process, "retrieval_count", Json::Unsigned(0));
    push_member(&mut process, "exit_reason", Json::Text(exit_reason.to_string()));
    push_member(&mut process, "recovered_after_failure", Json::Bool(false));
    push_member(&mut process, "interventions", Json::Unsigned(interventions));
    push_member(&mut process, "discipline", Json::Null);
    let mut speed: Vec<Member> = no_members();
    push_member(&mut speed, "wall_ms", Json::Unsigned(wall_ms));
    push_member(&mut speed, "input_tokens", Json::Unsigned(0));
    push_member(&mut speed, "output_tokens", Json::Unsigned(0));
    let mut card: Vec<Member> = no_members();
    push_member(&mut card, "schema", Json::Unsigned(1));
    push_member(&mut card, "task", Json::Text(task.to_string()));
    push_member(&mut card, "arm", Json::Text(arm.to_string()));
    push_member(&mut card, "model", Json::Text(model.to_string()));
    push_member(&mut card, "results", object(results));
    push_member(&mut card, "quality", object(quality));
    push_member(&mut card, "process", object(process));
    push_member(&mut card, "speed", object(speed));
    push_member(&mut card, "judge", Json::Null);
    let whole: Json = object(card);
    proof {
        let v = process_card(
            task@,
            arm@,
            model@,
            tool_calls,
            exit_reason@,
            interventions,
            wall_ms,
        )->Object_0;
        assert(members_view(results@) =~= v[4].1->Object_0);
        assert(members_view(quality@) =~= v[5].1->Object_0);
        assert(members_view(process@) =~= v[6].1->Object_0);
        assert(members_view(speed@) =~= v[7].1->Object_0);
        assert(members_view(card@) =~= v);
    }
    let out: String = json_text(&whole);
    proof {
        law_a_process_card_is_orderly(
            task@,
            arm@,
            model@,
            tool_calls,
            exit_reason@,
            interventions,
            wall_ms,
            MAX_NESTING as int,
            true,
        );
        law_a_process_card_is_orderly(
            task@,
            arm@,
            model@,
            tool_calls,
            exit_reason@,
            interventions,
            wall_ms,
            MAX_NESTING as int,
            false,
        );
        law_a_process_card_is_unsolved(
            task@,
            arm@,
            model@,
            tool_calls,
            exit_reason@,
            interventions,
            wall_ms,
        );
        law_alike_cards_carry_one_verdict(whole@, json_of(out@)->Some_0);
    }
    out
}

} // verus!
