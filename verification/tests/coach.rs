use localbench::coach::{
    coached_scorecard, default_client, default_max_fires, drive_coached, load_coach_script,
    serve_args, tail_next, watchdog_next, CoachAction, CoachEngine, CoachRule, CoachScript,
    CoachedEnd, DriveObservation, RuleTrigger, Tail, Watch,
};
use localbench::coach_drive::{drive_over, DriveAsk, DriveReply, DriveRun, DriveStage};
use localbench::json::Json;
use localbench::solver::{Poll, SolveSpec};

fn json(text: &str) -> Json {
    Json::read(text).unwrap()
}

fn script(rules: Vec<CoachRule>) -> CoachScript {
    CoachScript {
        schema: 1,
        client: "localbench-coach".to_string(),
        rules,
    }
}

fn steer_rule(event: &str, text: &str, max_fires: u32) -> CoachRule {
    CoachRule {
        on: RuleTrigger {
            event: event.to_string(),
            detail_contains: None,
        },
        steer: Some(text.to_string()),
        reply: None,
        cancel: false,
        max_fires,
    }
}

#[test]
fn the_engine_replays_identically_and_respects_max_fires() {
    let events = vec![
        json(r#"{ "type": "tool_stuck", "name": "run_shell", "count": 3 }"#),
        json(r#"{ "type": "warning", "message": "provider retry" }"#),
        json(r#"{ "type": "tool_stuck", "name": "run_shell", "count": 4 }"#),
    ];
    let run = |events: &[Json]| {
        let mut engine = CoachEngine::new(script(vec![steer_rule(
            "tool_stuck",
            "try a different command",
            1,
        )]));
        events
            .iter()
            .flat_map(|event| engine.on_event(event))
            .collect::<Vec<_>>()
    };
    let first = run(&events);
    let second = run(&events);
    assert_eq!(first, second, "same events, same actions");
    assert_eq!(first.len(), 1, "max_fires bounds the rule");
    assert_eq!(
        first[0],
        CoachAction::Steer("try a different command".to_string())
    );
}

#[test]
fn a_reply_rule_answers_the_ask_it_saw() {
    let mut engine = CoachEngine::new(script(vec![CoachRule {
        on: RuleTrigger {
            event: "permission_ask".to_string(),
            detail_contains: Some("rm -rf".to_string()),
        },
        steer: None,
        reply: Some(false),
        cancel: false,
        max_fires: 5,
    }]));
    let actions = engine.on_event(&json(
        r#"{ "type": "permission_ask", "ask_id": "ask-7",
            "tool": "run_shell", "detail": "rm -rf build", "risk": "run a command" }"#,
    ));
    assert_eq!(
        actions,
        [CoachAction::Reply {
            ask_id: "ask-7".to_string(),
            allow: false
        }]
    );
    // A non-matching ask does not fire the narrowed rule.
    let actions = engine.on_event(&json(
        r#"{ "type": "permission_ask", "ask_id": "ask-8",
            "tool": "run_shell", "detail": "cargo test", "risk": "run a command" }"#,
    ));
    assert!(actions.is_empty());
}

#[test]
fn a_script_with_zero_or_two_actions_per_rule_is_refused() {
    let mut rule = steer_rule("warning", "x", default_max_fires());
    rule.steer = None;
    let err = load_coach_script(script(vec![rule.clone()])).unwrap_err();
    assert!(err.contains("exactly one action"), "{err}");

    rule.steer = Some("x".to_string());
    rule.cancel = true;
    let err = load_coach_script(script(vec![rule.clone()])).unwrap_err();
    assert!(err.contains("exactly one action"), "{err}");

    rule.cancel = false;
    let valid = script(vec![rule]);
    assert_eq!(load_coach_script(valid.clone()), Ok(valid));
}

#[test]
fn a_script_of_another_schema_is_refused() {
    let mut other = script(vec![]);
    other.schema = 2;
    assert_eq!(
        load_coach_script(other),
        Err("unsupported coach-script schema 2 (expected 1)".to_string())
    );
    assert_eq!(default_client(), "localbench-coach");
    assert_eq!(default_max_fires(), 1);
}

/// Answers every request from `responses`, in order, and collects the lines
/// that were sent.
fn drive(run: &mut DriveRun, responses: &[String], expired: bool) -> String {
    let mut sent = String::new();
    let mut next = 0;
    let mut reply = DriveReply::Proceed;
    while run.stage() != DriveStage::Finished {
        assert!(run.can_step());
        let read = |next: &mut usize| match responses.get(*next) {
            Some(line) => {
                *next += 1;
                DriveReply::Line(line.clone())
            }
            None => DriveReply::Closed,
        };
        reply = match run.step(reply) {
            DriveAsk::Proceed => DriveReply::Proceed,
            DriveAsk::Send(line) => {
                sent.push_str(&line);
                sent.push('\n');
                read(&mut next)
            }
            DriveAsk::Read => read(&mut next),
            DriveAsk::Clock => DriveReply::Time(expired),
            DriveAsk::Finished => break,
        };
    }
    sent
}

fn engine() -> CoachEngine {
    CoachEngine::new(script(vec![steer_rule(
        "tool_stuck",
        "try a different command",
        1,
    )]))
}

const RESPONSES: [&str; 6] = [
    r#"{ "jsonrpc": "2.0", "id": 1, "result": {
        "protocolVersion": "2025-06-18",
        "serverInfo": { "name": "localpilot", "version": "0" } } }"#,
    r#"{ "jsonrpc": "2.0", "id": 2, "result": {
        "isError": false,
        "structuredContent": { "started": true } } }"#,
    r#"{ "jsonrpc": "2.0", "id": 3, "result": { "structuredContent": {
        "events": [ { "seq": 1, "event": { "type": "tool_started", "id": "c1", "name": "run_shell" } } ],
        "next_cursor": 1, "dropped": 0, "busy": true } } }"#,
    r#"{ "jsonrpc": "2.0", "id": 4, "result": { "structuredContent": {
        "events": [ { "seq": 2, "event": { "type": "tool_stuck", "name": "run_shell", "count": 3 } } ],
        "next_cursor": 2, "dropped": 0, "busy": true } } }"#,
    r#"{ "jsonrpc": "2.0", "id": 5, "result": {
        "isError": false,
        "structuredContent": { "queued": "steer" } } }"#,
    r#"{ "jsonrpc": "2.0", "id": 6, "result": { "structuredContent": {
        "events": [ { "seq": 3, "event": { "type": "stopped", "reason": "done" } } ],
        "next_cursor": 3, "dropped": 0, "busy": false } } }"#,
];

fn responses(count: usize) -> Vec<String> {
    RESPONSES[..count].iter().map(|r| r.to_string()).collect()
}

/// The lockstep drive is deterministic, so a whole scenario's server side
/// can be precomputed: responses in exactly the order the coach asks.
#[test]
fn a_lockstep_drive_steers_counts_and_stops() {
    let mut run = drive_over(engine(), "localbench-coach", "fix the failing test");
    let sent = drive(&mut run, &responses(6), false);
    let observation = run.outcome().unwrap().unwrap();

    assert_eq!(observation.tool_calls, 1);
    assert_eq!(observation.interventions, 1);
    assert_eq!(observation.exit_reason, "done");

    assert!(sent.contains("\"initialize\""));
    assert!(sent.contains("fix the failing test"));
    assert!(sent.contains("try a different command"));
    assert!(sent.contains("\"disposition\":\"steer\""));
    // Every request is one line of its own, numbered in order.
    let ids: Vec<u64> = sent
        .lines()
        .filter_map(|line| json(line).get("id").and_then(|id| id.unsigned()))
        .collect();
    assert_eq!(ids, [1, 2, 3, 4, 5, 6]);
}

#[test]
fn lines_that_answer_nothing_are_passed_over() {
    let mut lines = responses(6);
    lines.insert(2, "not json at all".to_string());
    lines.insert(3, r#"{ "jsonrpc": "2.0", "method": "notice" }"#.to_string());
    let mut run = drive_over(engine(), "c", "p");
    drive(&mut run, &lines, false);
    assert_eq!(run.outcome().unwrap().unwrap().exit_reason, "done");
}

#[test]
fn a_stream_that_ends_early_fails_the_drive() {
    let mut run = drive_over(engine(), "c", "p");
    drive(&mut run, &responses(3), false);
    assert!(run.outcome().unwrap().is_err());
}

#[test]
fn the_deadline_cancels_and_ends_the_drive() {
    let mut run = drive_over(engine(), "c", "p");
    let sent = drive(&mut run, &responses(6), true);
    assert!(sent.contains("cancel"), "{sent}");
    assert!(!run.outcome().unwrap().unwrap().exit_reason.is_empty());
}

#[test]
fn transport_failures_end_the_drive() {
    for (reply, word) in [
        (DriveReply::WriteFailed("pipe".to_string()), "pipe"),
        (DriveReply::FlushFailed("full".to_string()), "full"),
        (DriveReply::ReadFailed("gone".to_string()), "gone"),
    ] {
        let mut run = drive_over(engine(), "c", "p");
        assert!(run.outcome().is_none());
        let ask = run.step(DriveReply::Proceed);
        assert!(matches!(ask, DriveAsk::Send(_)));
        run.step(reply);
        let message = run.outcome().unwrap().unwrap_err();
        assert!(message.contains(word), "{message}");
    }
}

#[test]
fn the_coached_scorecard_parses_as_a_capability_card() {
    let spec = SolveSpec::new("apex", "coached", "t-1", "fix it");
    let observation = DriveObservation {
        tool_calls: 4,
        interventions: 2,
        exit_reason: "done".to_string(),
    };
    let card: serde_json::Value =
        serde_json::from_str(&coached_scorecard(&spec, &observation, 1234)).unwrap();
    assert_eq!(card["process"]["tool_calls"], 4);
    assert_eq!(card["process"]["interventions"], 2);
    assert_eq!(card["process"]["exit_reason"], "done");
    assert_eq!(card["results"]["passed"], false, "pass/fail belongs to the benchmark");
}

#[test]
fn the_serve_argv_shape_is_pinned() {
    let spec = SolveSpec::new("apex", "coached", "t-1", "fix it");
    assert_eq!(
        serve_args(&spec),
        ["mcp", "serve", "--model", "apex", "--permission", "bypass"]
    );
}

#[test]
fn the_watchdog_puts_the_bound_first() {
    assert_eq!(watchdog_next(true, Poll::Exited(true)), Watch::Expire);
    assert_eq!(watchdog_next(false, Poll::Exited(false)), Watch::Done(None));
    assert_eq!(watchdog_next(false, Poll::Running), Watch::Again);
    assert_eq!(
        watchdog_next(false, Poll::Failed("e".to_string())),
        Watch::Done(Some("coached process watchdog wait failed: e".to_string()))
    );
}

#[test]
fn an_empty_read_ends_the_stream_only_when_nothing_can_follow() {
    assert_eq!(tail_next(3, true, true), Tail::Deliver);
    assert_eq!(tail_next(0, true, false), Tail::End);
    assert_eq!(tail_next(0, false, true), Tail::End);
    assert_eq!(tail_next(0, false, false), Tail::Again);
}

#[test]
fn a_coached_cell_says_why_it_has_no_scorecard() {
    let spec = SolveSpec::new("apex", "coached", "t-1", "fix it");
    let done = || {
        Ok(DriveObservation {
            tool_calls: 0,
            interventions: 0,
            exit_reason: "done".to_string(),
        })
    };
    let mut end = CoachedEnd {
        timed_out: false,
        cleanup_diagnostic: None,
        wall_ms: 7,
    };
    assert!(drive_coached(&spec, 9, done(), &end).is_ok());
    assert_eq!(
        drive_coached(&spec, 9, Err("broken".to_string()), &end),
        Err("coached drive failed (arm 'coached', task 't-1'): broken".to_string())
    );
    end.cleanup_diagnostic = Some("left over".to_string());
    assert_eq!(
        drive_coached(&spec, 9, Err("broken".to_string()), &end),
        Err("coached drive failed (arm 'coached', task 't-1'): broken; left over".to_string())
    );
    end.timed_out = true;
    let message = drive_coached(&spec, 9, done(), &end).unwrap_err();
    assert!(message.contains("9s"), "{message}");
}
