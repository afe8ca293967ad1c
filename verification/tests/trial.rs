use localbench::cached_run::{
    copy_trial, last_failure_summary, reusable_trial, CachedAsk, CachedReply, CachedRunner, CachedStage,
};
use localbench::chat::{
    parse_chat_measurement, timing_nodes, validate_measurement_content, ChatMeasurement,
    SmokeVerdict, TimingReading,
};
use localbench::diagnostics::{RunLedger, RunManifestRecord};
use localbench::json::{Json, Member};
use localbench::overrides::Overrides;
use localbench::trial::{
    cap_text, chat_measurement_request, chat_prompt_document, chat_request_shape, failure,
    infer_runtime_advisories, log_tail, observed_runtime, safe_path_component, sanitize_excerpt,
    sanitize_launch_args, session_fingerprint, SessionParams, TrialFailure, TrialFailureReason,
    TrialFailureStage, CHAT_PROMPT_TARGET_TOKENS, MAX_DIAGNOSTIC_CHARS,
};
use localbench::trial_run::{
    begin_trial, blank, failed_trial, startup_failed_trial, ChatReply, LiveRunner, StartupFailure,
    Trial, TrialAsk, TrialDiagnosticRef, TrialReply, TrialStage,
};

/// How a timing reads as a rate.
fn reading(value: Option<&serde_json::Value>) -> TimingReading {
    let number = match value {
        Some(serde_json::Value::Number(n)) => n.as_f64(),
        Some(serde_json::Value::String(s)) => s.parse::<f64>().ok(),
        _ => None,
    };
    match number {
        None => TimingReading::NotNumeric,
        Some(rate) if rate.is_finite() && rate > 0.0 => TimingReading::Rate(format!("{rate}")),
        Some(_) => TimingReading::NotPositive,
    }
}

fn chat(body: &str) -> Result<ChatMeasurement, TrialFailure> {
    let value: serde_json::Value =
        serde_json::from_str(body).unwrap_or(serde_json::Value::Null);
    let timings = value.get("timings");
    parse_chat_measurement(
        body,
        "a field does not fit",
        reading(timings.and_then(|t| t.get("prompt_per_second"))),
        reading(timings.and_then(|t| t.get("predicted_per_second"))),
    )
}

#[test]
fn chat_timings_parse_string_and_content_parts() {
    let body = r#"{"choices":[{"message":{"role":"assistant","content":"a fine long answer indeed"}}],"timings":{"prompt_per_second":123.4,"predicted_per_second":45.6},"usage":{"total_tokens":99}}"#;
    let parsed = chat(body).unwrap();
    assert!((parsed.pp_tps.parse::<f64>().unwrap() - 123.4).abs() < 1e-9);
    assert!((parsed.tg_tps.parse::<f64>().unwrap() - 45.6).abs() < 1e-9);
    assert_eq!(parsed.content, "a fine long answer indeed");

    let parts = r#"{"choices":[{"message":{"content":[{"type":"text","text":"hello "},{"type":"text","text":"world"}]}}],"timings":{"prompt_per_second":1.0,"predicted_per_second":2.0}}"#;
    assert_eq!(chat(parts).unwrap().content, "hello world");
}

#[test]
fn chat_schema_and_timing_failures_are_typed() {
    let cases = [
        ("not json", TrialFailureReason::ResponseDecode),
        ("{}", TrialFailureReason::ResponseSchema),
        (
            r#"{"choices":[{"message":{"content":"ok"}}]}"#,
            TrialFailureReason::MissingTimings,
        ),
        (
            r#"{"choices":[{"message":{"content":"ok"}}],"timings":{"prompt_per_second":0.0,"predicted_per_second":2.0}}"#,
            TrialFailureReason::InvalidTimings,
        ),
        (
            r#"{"choices":[{"message":{"content":"ok"}}],"timings":{"predicted_per_second":2.0}}"#,
            TrialFailureReason::MissingTimings,
        ),
        (
            r#"{"choices":[{"message":{"content":"ok"}}],"timings":{"prompt_per_second":"NaN","predicted_per_second":2.0}}"#,
            TrialFailureReason::InvalidTimings,
        ),
        (
            r#"{"choices":[{"message":{"content":42}}],"timings":{"prompt_per_second":1.0,"predicted_per_second":2.0}}"#,
            TrialFailureReason::ResponseSchema,
        ),
    ];
    for (body, expected) in cases {
        let failure = chat(body).unwrap_err();
        assert_eq!(failure.reason, expected, "body={body}");
        assert_eq!(failure.stage, TrialFailureStage::Response);
    }
}

#[test]
fn a_body_that_is_no_json_is_reported_in_the_readers_words() {
    let expected = serde_json::from_str::<serde_json::Value>("not json")
        .unwrap_err()
        .to_string();
    let failure = chat("not json").unwrap_err();
    assert!(failure.detail.contains(&expected), "{}", failure.detail);
}

fn smoke(ok: bool, visible: &str, error: &str) -> SmokeVerdict {
    SmokeVerdict {
        ok,
        visible_text: visible.to_string(),
        error: error.to_string(),
    }
}

#[test]
fn visible_content_failures_remain_distinct() {
    let healthy = "The configuration completed every requested check with stable throughput and enough visible words to satisfy the strict quality gate while preserving deterministic behavior across repeated samples in this isolated measurement.";
    let repeated = "loop loop loop loop loop loop loop loop loop loop";
    let short = "A visible answer exists but it is deliberately too short.";
    let cases = [
        ("", smoke(false, "", "empty"), false, Some(TrialFailureReason::EmptyContent)),
        (
            "<think>private reasoning only</think>",
            smoke(false, "", "thinking only"),
            false,
            Some(TrialFailureReason::ThinkingOnly),
        ),
        (
            repeated,
            smoke(false, repeated, "degenerate"),
            false,
            Some(TrialFailureReason::DegenerateContent),
        ),
        (
            short,
            smoke(true, short, ""),
            false,
            Some(TrialFailureReason::DegenerateContent),
        ),
        (healthy, smoke(true, healthy, ""), true, None),
    ];
    for (content, smoke, quality_ok, expected) in cases {
        assert_eq!(
            validate_measurement_content(content, &smoke, quality_ok)
                .err()
                .map(|failure| failure.reason),
            expected,
            "content={content:?}"
        );
    }
}

#[test]
fn a_quality_failure_says_what_the_model_said() {
    let said = "visible response did not meet the tuner quality minimums; visible reply: ";
    let detail = |visible: &str| {
        let failure = validate_measurement_content(visible, &smoke(true, visible, ""), false);
        failure.unwrap_err().detail
    };
    assert_eq!(detail("too\n  short"), format!("{said}too short"));
    assert_eq!(detail("my secret is 42"), format!("{said}[REDACTED]"));
    let long = detail(&"word ".repeat(2000));
    assert_eq!(long.chars().count(), 2048);
    assert!(long.starts_with(&format!("{said}word word")));
}

#[test]
fn runtime_adjustments_are_advisory_and_bounded() {
    let log = "engine: upgraded turbo KV cache from turbo2 to turbo3\n\
               srv: n_parallel is set to auto, using n_parallel = 4\n\
               ordinary startup line";
    let observations = infer_runtime_advisories(log);
    assert_eq!(observations.len(), 2);
    assert!(observations[0].contains("upgraded turbo KV"));
    assert!(observations[1].contains("using n_parallel"));
    let many = "using n_parallel = 4\n".repeat(20);
    assert_eq!(infer_runtime_advisories(&many).len(), 8);
}

#[test]
fn hostile_long_run_and_phase_names_become_portable_components() {
    let input = format!("../../bad:phase*?{}", "x".repeat(200));
    let safe = safe_path_component(&input);
    assert!(safe.len() <= 48);
    assert!(safe
        .chars()
        .all(|ch| ch.is_ascii_alphanumeric() || matches!(ch, '-' | '_')));
    assert!(!safe.contains(".."));
    assert!(!safe.contains('/') && !safe.contains('\\'));
}

fn value(node: &Json) -> serde_json::Value {
    serde_json::from_str(&node.write()).unwrap()
}

#[test]
fn chat_request_has_no_raw_completion_fallback() {
    let prompt = "Support reliable llama.cpp benchmarking for a local MoE model";
    let request = value(&chat_measurement_request(prompt));
    assert!(request.get("messages").is_some());
    assert_eq!(request["max_tokens"], 256);
    assert_eq!(request["temperature"], 0);
    assert!(request.get("prompt").is_none());
    assert!(request.get("n_predict").is_none());
    assert_eq!(request["messages"][0]["role"], "user");
    assert_eq!(request["messages"][0]["content"], prompt);
}

#[test]
fn the_prompt_fingerprint_covers_the_exact_shipped_content() {
    let prompt = "the whole prompt";
    let document = value(&chat_prompt_document(prompt));
    let request = value(&chat_measurement_request(prompt));
    assert_eq!(document["target_tokens"], CHAT_PROMPT_TARGET_TOKENS);
    assert_eq!(document["content"], request["messages"][0]["content"]);
    let shape = value(&chat_request_shape());
    assert_eq!(shape["path"], "/v1/chat/completions");
    assert_eq!(shape["messages"][0]["content"], "stress-prompt-512");
}

#[test]
fn session_values_that_are_set_enter_the_fingerprint() {
    let params = SessionParams {
        parallel: Some(2),
        cache_reuse: None,
        n_cpu_moe: Some(-1),
        mlock: Some(true),
        no_mmap: None,
    };
    let members = session_fingerprint(&params);
    let names: Vec<&str> = members.iter().map(|m| m.name.as_str()).collect();
    assert_eq!(names, ["mlock", "n_cpu_moe", "parallel"]);
    assert_eq!(value(&members[0].value), true);
    assert_eq!(value(&members[1].value), -1);
    assert_eq!(value(&members[2].value), 2);
}

#[test]
fn excerpts_are_redacted_and_bounded() {
    assert_eq!(sanitize_excerpt(" two \n\t words "), "two words");
    for needle in [
        "Authorization: x",
        "API_KEY=abc",
        "the api-key is",
        "my PassWord",
        "a secret",
        "Bearer x",
    ] {
        assert_eq!(sanitize_excerpt(&format!("plain {needle} text")), "[REDACTED]");
    }
    assert_eq!(sanitize_excerpt("bearer"), "bearer");
    let long = "y".repeat(5000);
    assert_eq!(sanitize_excerpt(&long).chars().count(), MAX_DIAGNOSTIC_CHARS);
    assert_eq!(cap_text("abc", 2), "ab");
    assert_eq!(cap_text("abc", 3), "abc");
}

#[test]
fn recorded_arguments_hide_credentials() {
    let args = |list: &[&str]| list.iter().map(|a| a.to_string()).collect::<Vec<_>>();
    assert_eq!(
        sanitize_launch_args(&args(&["--api-key", "v", "-m", "x"])),
        ["--api-key", "[REDACTED]", "-m", "x"]
    );
    let recorded = sanitize_launch_args(&args(&["--api-key=v", "-c", "8"]));
    assert!(!recorded.iter().any(|a| a.contains("=v")), "{recorded:?}");
}

#[test]
fn a_log_is_read_from_its_end() {
    let lines: Vec<String> = (0..200).map(|i| format!("line {i}")).collect();
    let tail = log_tail(&lines.join("\n"));
    assert!(tail.ends_with("line 199"));
    assert!(!tail.contains("line 0\n"));
    assert_eq!(log_tail("one"), "one");
}

#[test]
fn the_servers_own_report_is_kept_without_its_template() {
    let props =
        Json::read(r#"{"total_slots":1,"build_info":"loopback","chat_template":"{{x}}","n":3}"#)
            .unwrap();
    let observed = observed_runtime(&props, "abc123");
    let text: Vec<String> = observed
        .iter()
        .map(|m| format!("{}={}", m.name, m.value.write()))
        .collect();
    assert!(text.contains(&"total_slots=1".to_string()), "{text:?}");
    assert!(text.contains(&"build_info=\"loopback\"".to_string()));
    assert!(text.iter().any(|t| t.contains("abc123")));
    assert!(!text.iter().any(|t| t.contains("{{x}}")));
}

#[test]
fn failed_trials_are_never_rankable() {
    let t = failed_trial(true);
    assert!(!t.startup_ok);
    assert!(t.oom);
    assert_eq!(t.pp_tps, None);
    assert!(!t.measurement_usable);
}

/// A server under test, as its driver sees it.
struct Server {
    /// The process has exited.
    exited: bool,
    oom: bool,
    ready: bool,
    chat: Vec<ChatReply>,
    /// How often the budget may be asked for before it is spent.
    budget: usize,
    killed: bool,
    reaped: bool,
    waits: usize,
}

fn server(exited: bool, oom: bool, ready: bool, chat: Vec<ChatReply>) -> Server {
    Server {
        exited,
        oom,
        ready,
        chat,
        budget: 3,
        killed: false,
        reaped: false,
        waits: 0,
    }
}

fn run_trial(runner: &mut LiveRunner, host: &mut Server) -> (Trial, Option<String>) {
    assert!(runner.can_plan());
    let plan = runner.plan("baseline", "0123456789abcdef");
    let mut run = begin_trial(plan);
    let mut reply = TrialReply::Proceed;
    while run.stage() != TrialStage::Finished {
        reply = match run.step(reply) {
            TrialAsk::Proceed => TrialReply::Proceed,
            TrialAsk::ReadOverrides | TrialAsk::FindBinary | TrialAsk::MakeLogDir => {
                TrialReply::Done(Ok(()))
            }
            TrialAsk::FindPort => TrialReply::Port(Ok(8080)),
            TrialAsk::BuildArgs(port) => {
                TrialReply::Args(Ok(vec!["--port".to_string(), format!("{port}")]))
            }
            TrialAsk::Spawn(name) => TrialReply::Spawned(format!("logs/{name}"), Ok(())),
            TrialAsk::Poll => TrialReply::Polled(if host.exited { Some(Some(1)) } else { None }),
            TrialAsk::Budget => {
                let spent = host.budget == 0;
                host.budget = host.budget.saturating_sub(1);
                TrialReply::Spent(spent)
            }
            TrialAsk::Wait(_) => {
                host.waits += 1;
                TrialReply::Answered(host.ready)
            }
            TrialAsk::ReadLog => TrialReply::Log("the log's tail".to_string(), host.oom),
            TrialAsk::Reap => {
                host.reaped = true;
                TrialReply::Proceed
            }
            TrialAsk::Kill => {
                host.killed = true;
                TrialReply::Killed(None)
            }
            TrialAsk::Observe => TrialReply::Observed(vec![Member {
                name: "total_slots".to_string(),
                value: Json::Unsigned(1),
            }]),
            TrialAsk::Measure => TrialReply::Chat(host.chat.remove(0)),
            TrialAsk::Judge(content) => {
                TrialReply::Judged(smoke(!content.is_empty(), &content, ""), true)
            }
            TrialAsk::Reduce => {
                let last = |rates: &Vec<String>| rates.last().cloned();
                TrialReply::Reduced(last(run.prompt_rates()), last(run.decode_rates()), None)
            }
            TrialAsk::Finished => break,
        };
    }
    let warning = run.warning().cloned();
    (run.verdict().unwrap(), warning)
}

fn runner(runs: usize) -> LiveRunner {
    LiveRunner::new("test-run".to_string(), runs, 30)
}

#[test]
fn a_crashed_server_is_classified_from_its_log_without_waiting_the_budget() {
    let mut host = server(true, true, false, vec![]);
    let (trial, _) = run_trial(&mut runner(1), &mut host);
    assert!(!trial.startup_ok);
    assert!(trial.oom);
    assert_eq!(trial.startup_failure, Some(StartupFailure::ExitedOom));
    assert_eq!(host.waits, 0, "the exited process is recognized promptly");
    assert!(host.reaped || host.killed, "the child is reaped");
}

#[test]
fn a_crash_without_an_oom_signature_records_a_plain_exit() {
    let mut host = server(true, false, false, vec![]);
    let (trial, _) = run_trial(&mut runner(1), &mut host);
    assert!(!trial.startup_ok);
    assert!(!trial.oom);
    assert_eq!(trial.startup_failure, Some(StartupFailure::Exited));
    assert!(host.reaped || host.killed, "the child is reaped");
}

#[test]
fn a_server_that_never_answers_waits_the_budget_then_reaps_the_child() {
    let mut host = server(false, false, false, vec![]);
    let (trial, warning) = run_trial(&mut runner(1), &mut host);
    assert!(!trial.startup_ok);
    assert!(!trial.oom);
    assert_eq!(trial.startup_failure, Some(StartupFailure::TimedOut));
    assert_eq!(host.waits, 3, "the full budget is spent");
    assert!(host.killed, "the still-alive server is killed and reaped");
    assert_eq!(
        warning.unwrap(),
        "trial server on port 8080 never became ready within 30s and was still running; raise \
         --startup-timeout if this machine loads models slowly"
    );
}

fn body(content: &str) -> ChatReply {
    ChatReply::Body(
        format!(
            r#"{{"choices":[{{"message":{{"role":"assistant","content":"{content}"}}}}],"timings":{{"prompt_per_second":100.0,"predicted_per_second":50.0}}}}"#
        ),
        String::new(),
        TimingReading::Rate("100".to_string()),
        TimingReading::Rate("50".to_string()),
    )
}

#[test]
fn a_healthy_server_gives_a_usable_measurement() {
    let mut host = server(false, false, true, vec![body("visible"), body("again")]);
    let mut live = runner(2);
    let (trial, warning) = run_trial(&mut live, &mut host);
    assert!(trial.startup_ok && trial.measurement_usable);
    assert_eq!(trial.failure, None);
    assert_eq!(trial.pp_tps, Some("100".to_string()));
    assert_eq!(trial.tg_tps, Some("50".to_string()));
    assert_eq!(trial.observed_configuration[0].name, "total_slots");
    assert_eq!(trial.launch_args, ["--port", "8080"]);
    assert!(host.chat.is_empty(), "every sample was taken");
    assert!(host.killed, "the server does not outlive its trial");
    assert_eq!(warning, None);
    // Each attempt is numbered.
    let mut host = server(false, false, true, vec![body("x"), body("y")]);
    let (second, _) = run_trial(&mut live, &mut host);
    assert_ne!(
        trial.diagnostic.unwrap().attempt_id,
        second.diagnostic.unwrap().attempt_id
    );
}

#[test]
fn loopback_http_and_decode_failures_keep_their_stage() {
    let mut host = server(
        false,
        false,
        true,
        vec![ChatReply::Status(
            "503 Service Unavailable".to_string(),
            "api-key: secret-value".to_string(),
        )],
    );
    let failure = run_trial(&mut runner(1), &mut host).0.failure.unwrap();
    assert_eq!(failure.stage, TrialFailureStage::Response);
    assert_eq!(failure.reason, TrialFailureReason::HttpStatus);
    assert!(!failure.detail.contains("secret-value"));

    let broken = ChatReply::Body(
        "{broken".to_string(),
        String::new(),
        TimingReading::NotNumeric,
        TimingReading::NotNumeric,
    );
    let mut host = server(false, false, true, vec![broken]);
    let failure = run_trial(&mut runner(1), &mut host).0.failure.unwrap();
    assert_eq!(failure.stage, TrialFailureStage::Response);
    assert_eq!(failure.reason, TrialFailureReason::ResponseDecode);

    let lost = ChatReply::Transport("connection reset".to_string());
    let mut host = server(false, false, true, vec![lost]);
    let failure = run_trial(&mut runner(1), &mut host).0.failure.unwrap();
    assert_eq!(failure.stage, TrialFailureStage::Request);
    assert_eq!(failure.reason, TrialFailureReason::Transport);
}

#[test]
fn every_step_of_a_launch_has_its_own_failure() {
    let refuse = |stage: TrialStage| {
        let mut run = begin_trial(runner(1).plan("p", "h"));
        let mut reply = TrialReply::Proceed;
        while run.stage() != TrialStage::Finished {
            let ask = run.step(reply);
            let no = || "no".to_string();
            let refused = run.stage() == stage;
            reply = match ask {
                TrialAsk::FindPort if refused => TrialReply::Port(Err(no())),
                TrialAsk::FindPort => TrialReply::Port(Ok(1)),
                TrialAsk::BuildArgs(_) if refused => TrialReply::Args(Err(no())),
                TrialAsk::BuildArgs(_) => TrialReply::Args(Ok(vec![])),
                TrialAsk::Spawn(name) => TrialReply::Spawned(name, Err(no())),
                TrialAsk::Proceed => TrialReply::Proceed,
                _ if refused => TrialReply::Done(Err(no())),
                _ => TrialReply::Done(Ok(())),
            };
        }
        run.verdict().unwrap().failure.unwrap().reason
    };
    assert_eq!(refuse(TrialStage::Overrides), TrialFailureReason::InvalidOverrides);
    assert_eq!(refuse(TrialStage::Port), TrialFailureReason::PortUnavailable);
    assert_eq!(refuse(TrialStage::Args), TrialFailureReason::ArgumentConstruction);
    assert_eq!(refuse(TrialStage::Binary), TrialFailureReason::BinaryUnavailable);
    assert_eq!(refuse(TrialStage::Spawn), TrialFailureReason::SpawnFailed);
}

// --- cached runs -----------------------------------------------------------

fn measured() -> Trial {
    let mut trial = blank();
    trial.startup_ok = true;
    trial.measurement_usable = true;
    trial.pp_tps = Some("100".to_string());
    trial.tg_tps = Some("50".to_string());
    trial
}

/// A runner and a cache of at most one candidate.
struct Harness {
    calls: usize,
    next: fn() -> Trial,
    cache: Option<Trial>,
    ledger: Option<RunLedger>,
    records: Vec<RunManifestRecord>,
    saves: usize,
}

fn harness(next: fn() -> Trial) -> Harness {
    Harness {
        calls: 0,
        next,
        cache: None,
        ledger: None,
        records: vec![],
        saves: 0,
    }
}

fn measure(harness: &mut Harness, phase: &str) -> Trial {
    // Only these phases may answer from the cache.
    let eligible = phase != "verify";
    let mut run = CachedRunner::new();
    let mut reply = CachedReply::Proceed;
    while run.stage() != CachedStage::Finished {
        reply = match run.step(reply) {
            CachedAsk::Proceed => CachedReply::Proceed,
            CachedAsk::Lookup => {
                CachedReply::Cached(if eligible { harness.cache.as_ref().map(copy_trial) } else { None })
            }
            CachedAsk::Measure => {
                harness.calls += 1;
                CachedReply::Measured((harness.next)())
            }
            CachedAsk::Record(mut trial, source) => {
                if let Some(ledger) = harness.ledger.as_mut() {
                    harness.records.push(ledger.record(
                        phase,
                        "NCpuMoe=20",
                        &source,
                        &Overrides::new(),
                        &mut trial,
                        "2026-01-01T00:00:00Z",
                    ));
                }
                CachedReply::Recorded(trial)
            }
            CachedAsk::Put(trial, oom, started, usable) => {
                let decisive = oom || (started && usable);
                if decisive {
                    harness.cache = Some(trial);
                }
                CachedReply::Stored(decisive)
            }
            CachedAsk::Save => {
                harness.saves += 1;
                CachedReply::Saved
            }
            CachedAsk::Finished => break,
        };
    }
    run.trial().unwrap()
}

#[test]
fn a_cache_hit_skips_the_live_measurement_and_survives_reopen() {
    let mut first_process = harness(measured);
    let first = measure(&mut first_process, "baseline");
    assert_eq!(first.tg_tps, Some("50".to_string()));
    let second = measure(&mut first_process, "batching");
    assert_eq!(second.tg_tps, Some("50".to_string()));
    assert_eq!(
        first_process.calls, 1,
        "the second measurement came from the cache"
    );
    assert_eq!(first_process.saves, 1);

    // A fresh process with the persisted entry reuses it.
    let mut reopened = harness(measured);
    reopened.cache = first_process.cache;
    let cached = measure(&mut reopened, "baseline");
    assert_eq!(cached.tg_tps, Some("50".to_string()));
    assert_eq!(reopened.calls, 0);
}

#[test]
fn live_and_cached_attempts_receive_distinct_manifest_records() {
    let mut run = harness(measured);
    run.ledger = Some(RunLedger::create("run-cache-run.jsonl", "cache-run", 5));
    let live = measure(&mut run, "baseline");
    let cached = measure(&mut run, "batching");

    assert_eq!(run.calls, 1);
    assert_ne!(
        live.diagnostic.as_ref().unwrap().attempt_id,
        cached.diagnostic.as_ref().unwrap().attempt_id
    );
    assert_eq!(run.records.len(), 2);
    assert_eq!(run.records[0].cache_source, "live");
    assert_eq!(run.records[1].cache_source, "cache");
    assert_ne!(run.records[0].attempt_id, run.records[1].attempt_id);
}

#[test]
fn transient_startup_failures_are_measured_fresh_but_oom_is_cached() {
    let mut run = harness(|| failed_trial(false));
    let trial = measure(&mut run, "baseline");
    assert!(
        last_failure_summary(&Some(trial), "launch/spawn_failed: the server did not start")
            .is_some_and(|summary| summary.starts_with("launch/spawn_failed"))
    );
    measure(&mut run, "baseline");
    assert_eq!(
        run.calls, 2,
        "a plain startup failure is transient and re-measured"
    );

    run.next = || failed_trial(true);
    measure(&mut run, "baseline");
    let again = measure(&mut run, "baseline");
    assert!(again.oom, "the definite OOM answer came from the cache");
    assert_eq!(run.calls, 3);
}

#[test]
fn ineligible_phases_always_measure_live() {
    let mut run = harness(measured);
    measure(&mut run, "verify");
    measure(&mut run, "verify");
    assert_eq!(run.calls, 2, "verify never trusts the cache");
}

#[test]
fn what_is_reused_of_a_trial_carries_no_evidence_of_its_attempt() {
    let mut trial = measured();
    trial.diagnostic = Some(TrialDiagnosticRef {
        attempt_id: "a".to_string(),
        manifest_path: "m".to_string(),
        log_path: "l".to_string(),
    });
    assert_eq!(reusable_trial(&trial).diagnostic, None);
    assert_eq!(reusable_trial(&trial).tg_tps, trial.tg_tps);
    assert_eq!(last_failure_summary(&Some(trial), "s"), None);
    assert_eq!(last_failure_summary(&None, "s"), None);
    let mut failed = startup_failed_trial(StartupFailure::Exited, Some(3), "tail".to_string());
    failed.diagnostic = Some(TrialDiagnosticRef {
        attempt_id: "a".to_string(),
        manifest_path: "m".to_string(),
        log_path: "logs/one.log".to_string(),
    });
    let summary = last_failure_summary(&Some(failed), "s").unwrap();
    assert!(summary.starts_with('s') && summary.contains("logs/one.log"), "{summary}");
}

#[test]
fn a_failure_keeps_its_stage_and_sanitizes_its_detail() {
    let f = failure(
        TrialFailureStage::Request,
        TrialFailureReason::Transport,
        "password: hunter2",
    );
    assert_eq!(f.stage, TrialFailureStage::Request);
    assert!(!f.detail.contains("hunter2"), "{}", f.detail);
}

#[test]
fn timings_are_found_by_name_or_by_position() {
    let named = r#"{"timings":{"prompt_per_second":12,"predicted_per_second":"3.5"}}"#;
    let placed = r#"[[],[12,"3.5"]]"#;
    for body in [named, placed] {
        let (prompt, predicted) = timing_nodes(body);
        assert_eq!(prompt, Json::Unsigned(12));
        assert_eq!(predicted, Json::Text("3.5".to_string()));
    }
    assert_eq!(timing_nodes("{}"), (Json::Null, Json::Null));
    assert_eq!(timing_nodes("no json"), (Json::Null, Json::Null));
}
