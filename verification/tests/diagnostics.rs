use localbench::diagnostics::{
    manifest_line, manifest_name, marker_name, prune_completed, read_manifest, safe_component,
    spell_reason, spell_stage, RunFile, RunLedger, RunManifestRecord, DEFAULT_RETAINED_RUNS,
};
use localbench::json::{Json, Member};
use localbench::overrides::Overrides;
use localbench::trial::{TrialFailure, TrialFailureReason, TrialFailureStage};
use localbench::trial_run::{blank, Trial, TrialDiagnosticRef};

fn measured() -> Trial {
    let mut trial = blank();
    trial.startup_ok = true;
    trial.measurement_usable = true;
    trial.pp_tps = Some("100".to_string());
    trial.tg_tps = Some("50".to_string());
    trial
}

fn record(ledger: &mut RunLedger, trial: &mut Trial) -> RunManifestRecord {
    ledger.record(
        "baseline",
        "KvK=q8_0;KvV=q8_0",
        "live",
        &Overrides::new(),
        trial,
        "now",
    )
}

fn line(record: &RunManifestRecord) -> String {
    manifest_line(record, Json::read("100.0"), Json::read("50.0"))
}

#[test]
fn a_content_failure_records_what_the_model_actually_said() {
    let mut ledger = RunLedger::create("run-run-content.jsonl", "run:content", 2);
    let mut trial = measured();
    trial.measurement_usable = false;
    trial.failure = Some(TrialFailure {
        stage: TrialFailureStage::Content,
        reason: TrialFailureReason::DegenerateContent,
        detail: "degenerate response text; visible reply: ////////".to_string(),
    });
    let written = line(&record(&mut ledger, &mut trial));
    let value = Json::read(&written).unwrap();
    let detail = value.text_at("failure_detail").unwrap_or_default();
    assert!(
        !detail.is_empty(),
        "a content failure must carry its detail into the manifest"
    );
    assert!(
        detail.contains("degenerate response text"),
        "the message was dropped: {detail}"
    );
    assert!(
        detail.contains("////////"),
        "the rejected reply was dropped: {detail}"
    );
    assert_eq!(value.text_at("failure_stage"), Some("content".to_string()));
    assert_eq!(
        value.text_at("failure_reason"),
        Some("degenerate_content".to_string())
    );
}

#[test]
fn a_healthy_trial_records_no_failure_detail() {
    let mut ledger = RunLedger::create("run-run-ok.jsonl", "run:ok", 2);
    let written = line(&record(&mut ledger, &mut measured()));
    assert!(
        !written.contains("failure_detail"),
        "a healthy trial should not carry the key at all: {written}"
    );
    // The line keeps the order of its fields.
    assert!(written.starts_with(
        "{\"run_id\":\"run:ok\",\"attempt_id\":\"run-ok-0001\",\"ordinal\":1,\"phase\":\"baseline\""
    ));
    assert!(written.ends_with("\"pp_tps\":100.0,\"tg_tps\":50.0,\"recorded_at\":\"now\"}"));
}

#[test]
fn append_survives_a_truncated_last_line_and_never_contains_a_prompt() {
    let mut ledger = RunLedger::create("run-run-one.jsonl", "run:one", 2);
    let mut trial = measured();
    trial.diagnostic_excerpt = "Authorization: Bearer super-secret".to_string();
    trial.launch_args = vec![
        "--api-key".to_string(),
        "launch-secret-value".to_string(),
        "--chat-template".to_string(),
        "x".repeat(2_000),
    ];
    trial.observed_configuration.push(Member {
        name: "build_info".to_string(),
        value: Json::Text("y".repeat(4_000)),
    });
    let one = record(&mut ledger, &mut trial);
    assert_eq!(one.diagnostic_excerpt, "[REDACTED]");
    assert_eq!(one.launch_args[1], "[REDACTED]");
    assert_eq!(one.launch_args[3].chars().count(), 512);
    assert!(one.observed_configuration[0]
        .value
        .text()
        .is_some_and(|value| value.chars().count() <= 2_048));
    let written = line(&one);
    assert!(!written.contains("super-secret"));
    assert!(!written.contains("launch-secret-value"));
    assert!(!written.contains("stress prompt"));

    // The torn last line is ignored; the same line, completed, is corruption.
    let torn = format!("{written}\n{{truncated");
    let errors = vec![None, Some("key must be a string".to_string())];
    assert_eq!(read_manifest(&torn, &errors), Ok(1));
    let completed = format!("{torn}\n");
    assert_eq!(
        read_manifest(&completed, &errors),
        Err("manifest line 2: key must be a string".to_string()),
        "an invalid complete line is corruption, not a truncated append"
    );
    // An invalid interior line is always reported.
    let errors = vec![Some("bad".to_string()), None];
    assert_eq!(
        read_manifest("x\n{}", &errors),
        Err("manifest line 1: bad".to_string())
    );
    assert_eq!(read_manifest("", &vec![]), Ok(0));
}

fn run_file(stem: &str, active: bool, modified: Option<u128>) -> RunFile {
    RunFile {
        stem: stem.to_string(),
        extension: "jsonl".to_string(),
        active,
        modified,
    }
}

#[test]
fn retention_keeps_active_and_only_bounds_completed_runs() {
    let files = vec![
        run_file("run-002", false, Some(20)),
        run_file("run-001", false, Some(10)),
        run_file("run-003", true, Some(5)),
        RunFile {
            extension: "log".to_string(),
            ..run_file("trial-first", false, Some(1))
        },
    ];
    // Of the two completed runs the older one goes.
    assert_eq!(prune_completed(&files, 1), [1]);
    assert!(prune_completed(&files, 2).is_empty());
    assert_eq!(prune_completed(&files, 0), [1, 0]);
}

#[test]
fn retention_orders_by_time_then_name() {
    let files = vec![
        run_file("b", false, Some(7)),
        run_file("a", false, Some(7)),
        run_file("c", false, None),
    ];
    assert_eq!(prune_completed(&files, 0), [2, 1, 0]);
    let ledger = RunLedger::create("p", "r", 0);
    assert_eq!(ledger.retained_runs(), 1);
    assert_eq!(DEFAULT_RETAINED_RUNS, 20);
}

#[test]
fn every_record_gets_its_own_ordinal_and_keeps_the_attempts_identity() {
    let mut ledger = RunLedger::create("dir/run-r.jsonl", "r", 3);
    let mut first = measured();
    let one = record(&mut ledger, &mut first);
    let mut second = measured();
    second.diagnostic = Some(TrialDiagnosticRef {
        attempt_id: "r-0009-hash".to_string(),
        manifest_path: String::new(),
        log_path: "trial.log".to_string(),
    });
    let two = record(&mut ledger, &mut second);
    assert_eq!((one.ordinal, two.ordinal), (1, 2));
    assert_eq!(one.attempt_id, "r-0001");
    assert_eq!(two.attempt_id, "r-0009-hash");
    assert_eq!(two.log_path, "trial.log");
    let filed = second.diagnostic.unwrap();
    assert_eq!(filed.manifest_path, "dir/run-r.jsonl");
    assert_eq!(filed.attempt_id, "r-0009-hash");
    assert_eq!(first.diagnostic.unwrap().attempt_id, "r-0001");
    assert_eq!(ledger.path(), "dir/run-r.jsonl");
}

#[test]
fn run_names_become_portable_components() {
    assert_eq!(safe_component("run:one"), "run-one");
    assert_eq!(safe_component("--../x--"), "x");
    assert_eq!(safe_component("::"), "run");
    assert_eq!(safe_component("a--b"), "a--b");
    assert_eq!(safe_component(&"z".repeat(100)).len(), 64);
    assert_eq!(manifest_name("a b"), "run-a-b.jsonl");
    assert_eq!(marker_name("a b"), "run-a-b.active");
}

#[test]
fn observed_values_are_bounded_in_number_and_in_length() {
    let mut ledger = RunLedger::create("p", "r", 1);
    let mut trial = measured();
    for i in 0..40 {
        trial.observed_configuration.push(Member {
            name: format!("{}{i:02}", "k".repeat(200)),
            value: Json::Unsigned(i),
        });
    }
    let kept = record(&mut ledger, &mut trial).observed_configuration;
    // Their bounded names are all the same: the last of the first 32 stays.
    assert_eq!(kept.len(), 1);
    assert_eq!(kept[0].name.len(), 128);
    assert_eq!(kept[0].value, Json::Unsigned(31));
}

#[test]
fn observed_values_are_kept_by_name() {
    let mut ledger = RunLedger::create("p", "r", 1);
    let mut trial = measured();
    for i in (0..40u64).rev() {
        trial.observed_configuration.push(Member {
            name: format!("k{i:02}"),
            value: Json::Unsigned(i),
        });
    }
    trial.observed_configuration.push(Member {
        name: "k00".to_string(),
        value: Json::Bool(true),
    });
    let kept = record(&mut ledger, &mut trial).observed_configuration;
    let names: Vec<String> = kept.iter().map(|m| m.name.clone()).collect();
    let expected: Vec<String> = (0..32).map(|i| format!("k{i:02}")).collect();
    assert_eq!(names, expected);
    assert_eq!(kept[0].value, Json::Bool(true));
    assert_eq!(kept[31].value, Json::Unsigned(31));
}

#[test]
fn runs_of_one_age_are_pruned_by_file_name() {
    // "run-a-b.jsonl" stands before "run-a.jsonl", though "run-a" is the
    // shorter stem.
    let files = vec![
        run_file("run-a", false, Some(7)),
        run_file("run-a-b", false, Some(7)),
    ];
    assert_eq!(prune_completed(&files, 1), vec![1]);
    assert_eq!(prune_completed(&files, 0), vec![1, 0]);
}

#[test]
fn stages_and_reasons_have_their_spellings() {
    assert_eq!(spell_stage(TrialFailureStage::Launch), "launch");
    assert_eq!(spell_stage(TrialFailureStage::Readiness), "readiness");
    assert_eq!(spell_reason(TrialFailureReason::SpawnFailed), "spawn_failed");
    assert_eq!(
        spell_reason(TrialFailureReason::ReadinessExitedOom),
        "readiness_exited_oom"
    );
}
