use localbench::json::Json;
use localbench::matrix::{
    check_arm, default_corpus, load_run_spec, os_exec, output_suffix, patch_scorecard_verdict,
    render_capability_report, split_command, synthetic_unsolved_scorecard, ArmSpec,
    CapabilityReport, GradeVerdict, Grader, Isolation, NoGrader, ReportRow, RunSpec, SetupFacts,
    TaskSpec,
};
use localbench::matrix_run::{
    cell_document, run_matrix, solve_spec, stream_event, MatrixAsk, MatrixEvent, MatrixReply,
    MatrixRun, MatrixStage,
};
use localbench::output::RunEvent;
use localbench::solver::BoundedRun;

fn card_json(task: &str, arm: &str, passed: bool) -> String {
    format!(
        r#"{{"schema":1,"task":"{task}","arm":"{arm}","model":"apex",
            "results":{{"passed":{passed},"regression_safe":true,"partial_credit":1.0,"tests_total":1,"tests_passed":1}},
            "quality":{{"diff_added":3,"diff_removed":0,"diff_files":1,"vs_gold_ratio":null,"format_clean":true,"lint_clean":true,"typecheck_clean":true,"complexity_delta":null,"tests_added":false}},
            "process":{{"tool_calls":2,"redundant_calls":0,"reproduce_before_fix":true,"test_before_done":true,"retrieval_used":false,"retrieval_count":0,"exit_reason":"Done","recovered_after_failure":false,"discipline":null}},
            "speed":{{"wall_ms":100,"input_tokens":1,"output_tokens":1}},"judge":null}}"#
    )
}

fn spec_with(arms: Vec<ArmSpec>, tasks: Vec<TaskSpec>) -> RunSpec {
    RunSpec {
        schema: 1,
        model: "apex".to_string(),
        corpus: "external".to_string(),
        arms,
        tasks,
    }
}

fn task(id: &str) -> TaskSpec {
    TaskSpec {
        id: id.to_string(),
        workspace: format!("C:/bench/work/{id}"),
        problem: "fix it".to_string(),
        test_command: "cargo test".to_string(),
        image: None,
        grade_label: Some("rust".to_string()),
        cargo_cache: None,
    }
}

fn arm(name: &str) -> ArmSpec {
    ArmSpec {
        arm: name.to_string(),
        config: if name == "baseline" {
            Json::read("{}")
        } else {
            None
        },
        verify: false,
        learn: false,
        coach: None,
    }
}

fn facts(spec: &RunSpec) -> SetupFacts {
    SetupFacts {
        instruments: None,
        corpus_paths: spec
            .tasks
            .iter()
            .map(|t| {
                if t.workspace.contains("LocalPilot") {
                    Some("the corpus path lies inside a LocalPilot checkout".to_string())
                } else {
                    None
                }
            })
            .collect(),
        isolation: spec
            .arms
            .iter()
            .map(|a| Isolation::Clean(a.arm == "baseline"))
            .collect(),
    }
}

fn verdict(raw: &str) -> Option<bool> {
    let card: serde_json::Value = serde_json::from_str(raw).ok()?;
    card["results"]["passed"].as_bool()
}

/// Drives a run with a solver that reports every task as passed but for one.
fn drive(run: &mut MatrixRun, fail_task: Option<&str>, grader: &mut dyn Grader) -> Vec<String> {
    let mut saved = Vec::new();
    let mut reply = MatrixReply::Proceed;
    while run.stage() != MatrixStage::Finished {
        reply = match run.step(reply) {
            MatrixAsk::Proceed => MatrixReply::Proceed,
            MatrixAsk::Solve(arm, task) => {
                let spec = solve_spec(run.spec(), arm, task);
                MatrixReply::Solved(if fail_task == Some(spec.task.as_str()) {
                    Err("solver hung (mock)".to_string())
                } else {
                    Ok(card_json(&spec.task, &spec.arm, true))
                })
            }
            MatrixAsk::Parse(raw) => {
                MatrixReply::Parsed(verdict(&raw).ok_or_else(|| "no verdict".to_string()))
            }
            MatrixAsk::Grade(task) => MatrixReply::Graded(grader.grade(&run.spec().tasks[task])),
            MatrixAsk::Save(cell) => {
                saved.push(cell_document(run.spec(), &cell).write());
                MatrixReply::Saved(Ok(()))
            }
            MatrixAsk::Caveats(_, timed_out, gaps) => {
                let said = |count: usize, text: &str| {
                    if count > 0 {
                        Some(format!("{count} {text}"))
                    } else {
                        None
                    }
                };
                MatrixReply::Caveats(
                    said(timed_out, "cells hit the wall-clock bound; the rate is a floor"),
                    said(gaps, "cells are an infrastructure gap"),
                )
            }
            MatrixAsk::Finished => break,
        };
    }
    saved
}

/// How many cells of an arm the report counts, and how many of them solved.
fn row(run: &MatrixRun, arm: usize) -> (usize, usize) {
    let cells: Vec<_> = run.cells().iter().filter(|c| c.arm == arm).collect();
    (cells.len(), cells.iter().filter(|c| c.passed).count())
}

/// The same, recomputed from what was saved.
fn rescored(saved: &[String], arm: &str) -> (usize, usize) {
    let cells: Vec<serde_json::Value> = saved
        .iter()
        .map(|s| serde_json::from_str(s).unwrap())
        .filter(|c: &serde_json::Value| c["arm"] == arm)
        .collect();
    let solved = cells
        .iter()
        .filter(|c| verdict(c["scorecard"].as_str().unwrap()) == Some(true))
        .count();
    (cells.len(), solved)
}

fn start(spec: RunSpec) -> MatrixRun {
    let facts = facts(&spec);
    run_matrix(spec, &facts).unwrap()
}

struct Fixed(GradeVerdict);

impl Grader for Fixed {
    fn grade(&mut self, _task: &TaskSpec) -> Result<GradeVerdict, String> {
        Ok(self.0.clone())
    }
}

struct WedgeAfter(usize);

impl Grader for WedgeAfter {
    fn grade(&mut self, _task: &TaskSpec) -> Result<GradeVerdict, String> {
        if self.0 == 0 {
            return Err("docker looks wedged — yielding with the cell ledger intact".to_string());
        }
        self.0 -= 1;
        Ok(GradeVerdict::skipped())
    }
}

#[test]
fn run_specs_fail_loud_on_defects() {
    let mut spec = spec_with(vec![], vec![]);
    spec.schema = 2;
    assert!(load_run_spec(spec).unwrap_err().contains("schema 2"));
    assert!(load_run_spec(spec_with(vec![arm("full")], vec![]))
        .unwrap_err()
        .contains("at least one task"));

    let mut full = arm("full");
    full.verify = true;
    let plain = TaskSpec {
        id: "t".to_string(),
        workspace: "C:/w/t".to_string(),
        problem: "p".to_string(),
        test_command: "c".to_string(),
        image: None,
        grade_label: None,
        cargo_cache: None,
    };
    let spec = load_run_spec(spec_with(vec![full], vec![plain.clone()])).unwrap();
    assert!(spec.arms[0].verify);

    let rust = TaskSpec {
        id: "rust-task".to_string(),
        workspace: "C:/corpus/rust/exercises/practice/x".to_string(),
        test_command: "cargo test".to_string(),
        grade_label: Some("rust".to_string()),
        ..plain
    };
    let error = load_run_spec(spec_with(vec![arm("full")], vec![rust])).unwrap_err();
    assert!(error.contains("rust task 'rust-task' needs cargo_cache"));
    assert_eq!(default_corpus(), "external");
}

#[test]
fn a_failed_cell_is_isolated_and_the_matrix_completes() {
    let mut run = start(spec_with(
        vec![arm("baseline"), arm("full")],
        vec![task("t1"), task("t2")],
    ));
    let saved = drive(&mut run, Some("t2"), &mut NoGrader);
    assert!(run.aborted().is_none());
    assert!(run.failure().is_none());
    for (index, name) in ["baseline", "full"].iter().enumerate() {
        assert_eq!(row(&run, index), (2, 1), "the hung cell counts unsolved");
        // Recomputing from disk reproduces the live report, including the
        // injected failed cell.
        assert_eq!(rescored(&saved, name), row(&run, index));
    }
    // Every cell is persisted: the passing one AND the hung one as a synthetic
    // unsolved cell.
    assert_eq!(run.cells().len(), 4);
    assert_eq!(saved.len(), 4);
}

fn graded(passed: Option<bool>, timed_out: bool) -> GradeVerdict {
    GradeVerdict {
        passed,
        timed_out,
        infra_gap: None,
        cleanup_diagnostic: None,
        note: String::new(),
    }
}

#[test]
fn graded_verdicts_are_persisted_so_rescore_matches_the_live_report() {
    let mut run = start(spec_with(vec![arm("full")], vec![task("t1")]));
    let saved = drive(&mut run, None, &mut Fixed(graded(Some(false), false)));
    // The solver self-reported passed; the benchmark's verdict wins.
    assert_eq!(row(&run, 0), (1, 0));
    assert_eq!(rescored(&saved, "full"), (1, 0));
}

#[test]
fn a_grade_timeout_is_a_caveat_not_a_capability_result() {
    let mut run = start(spec_with(vec![arm("full")], vec![task("t1")]));
    let mut grade = graded(None, true);
    grade.note = "grade timed out after 5s".to_string();
    drive(&mut run, None, &mut Fixed(grade));
    assert_eq!(row(&run, 0).1, 0, "timed out counts unsolved");
    assert_eq!(run.caveats().len(), 1);
    assert!(run.caveats()[0].contains("floor"));
}

#[test]
fn a_contaminated_baseline_is_refused_before_any_solve() {
    let spec = spec_with(vec![arm("baseline")], vec![task("t1")]);
    let mut facts = facts(&spec);
    facts.isolation[0] = Isolation::Refused("arm 'baseline' has retrieval on".to_string());
    let err = run_matrix(spec, &facts).err().unwrap();
    assert!(err.contains("retrieval"));
}

#[test]
fn a_baseline_arm_without_a_config_is_refused_before_any_solve() {
    let mut baseline = arm("baseline");
    baseline.config = None;
    let spec = spec_with(vec![baseline], vec![task("t1")]);
    let facts = facts(&spec);
    let err = run_matrix(spec, &facts).err().unwrap();
    assert!(err.contains("no `config` block"));
    assert!(err.contains("baseline"));
}

#[test]
fn a_baseline_that_also_sets_a_harness_flag_is_refused() {
    let mut baseline = arm("baseline"); // carries a clean default config
    baseline.verify = true;
    let spec = spec_with(vec![baseline], vec![task("t1")]);
    let facts = facts(&spec);
    let err = run_matrix(spec, &facts).err().unwrap();
    assert!(err.contains("--verify"));
    assert!(err.contains("contradicts the actual solver invocation"));
    let mut baseline = arm("baseline");
    baseline.verify = true;
    baseline.learn = true;
    let err = check_arm(&baseline, &Isolation::Clean(true)).unwrap_err();
    assert!(err.contains("--verify and --learn"));
    assert!(check_arm(&baseline, &Isolation::Clean(false)).is_ok());
}

#[test]
fn what_nobody_checked_is_refused() {
    let none = || SetupFacts {
        instruments: None,
        corpus_paths: vec![None],
        isolation: Vec::new(),
    };
    let mut bare = arm("Baseline");
    bare.config = None;
    let err = run_matrix(spec_with(vec![bare], vec![task("t1")]), &none()).err();
    assert!(err.unwrap().contains("carries no `config` block"));
    let err = run_matrix(spec_with(vec![arm("baseline")], vec![task("t1")]), &none()).err();
    assert_eq!(err.unwrap(), "arm 'baseline': its isolation was not checked");
    let two = vec![task("t1"), task("t2")];
    let err = run_matrix(spec_with(vec![arm("harness")], two), &none()).err();
    assert_eq!(err.unwrap(), "task 't2': its corpus path was not checked");
    assert!(run_matrix(spec_with(vec![arm("harness")], vec![task("t1")]), &none()).is_ok());
}

#[test]
fn a_corpus_path_inside_localpilot_is_refused() {
    let mut bad = task("t1");
    bad.workspace = "D:/repos/LocalX/LocalPilot/corpus/t1".to_string();
    let spec = spec_with(vec![arm("full")], vec![bad]);
    let facts = facts(&spec);
    let err = run_matrix(spec, &facts).err().unwrap();
    assert!(err.contains("LocalPilot"));
}

#[test]
fn broken_instruments_come_before_every_other_refusal() {
    let mut baseline = arm("baseline");
    baseline.config = None;
    let spec = spec_with(vec![baseline], vec![task("t1")]);
    let mut facts = facts(&spec);
    facts.instruments = Some("instrument x is broken".to_string());
    assert_eq!(
        run_matrix(spec, &facts).err().unwrap(),
        "instrument x is broken"
    );
}

#[test]
fn an_infra_gap_cell_is_a_run_caveat_and_counts_unsolved() {
    let mut run = start(spec_with(vec![arm("full")], vec![task("t1")]));
    let mut grade = graded(None, false);
    grade.infra_gap = Some("offline cargo cache under-vendored".to_string());
    let saved = drive(&mut run, None, &mut Fixed(grade));
    // The solver self-reported passed; an infra gap floors the cell unsolved.
    assert_eq!(row(&run, 0), (1, 0));
    assert_eq!(run.caveats().len(), 1);
    assert!(run.caveats()[0].contains("infrastructure gap"));
    assert_eq!(rescored(&saved, "full"), row(&run, 0));
}

#[test]
fn a_cleanup_failure_is_secondary_and_does_not_change_rescore() {
    let mut run = start(spec_with(vec![arm("full")], vec![task("t1")]));
    let mut grade = graded(None, true);
    grade.cleanup_diagnostic =
        Some("exact Docker cleanup for container 'named' failed".to_string());
    grade.note = "grade timed out after 5s".to_string();
    let saved = drive(&mut run, None, &mut Fixed(grade));
    assert_eq!(row(&run, 0).1, 0);
    assert_eq!(run.caveats().len(), 2);
    assert!(run.caveats().iter().any(|c| c.contains("wall-clock")));
    assert!(run
        .caveats()
        .iter()
        .any(|c| c.contains("secondary exact-container cleanup failure")));
    assert!(run
        .log_lines()
        .iter()
        .any(|line| line.contains("secondary cleanup issue")));
    assert_eq!(rescored(&saved, "full"), row(&run, 0));
}

#[test]
fn a_wedged_engine_mid_matrix_yields_with_the_ledger_intact() {
    let mut run = start(spec_with(
        vec![arm("full")],
        vec![task("t1"), task("t2"), task("t3")],
    ));
    let saved = drive(&mut run, None, &mut WedgeAfter(1));
    assert!(run.aborted().as_ref().unwrap().contains("wedged"));
    // Both attempted cells are on disk; the third never ran.
    assert_eq!(saved.len(), 2);
    assert_eq!(row(&run, 0).0, 2);
}

struct TimesOutThenWedges(usize);

impl Grader for TimesOutThenWedges {
    fn grade(&mut self, _task: &TaskSpec) -> Result<GradeVerdict, String> {
        self.0 += 1;
        if self.0 == 1 {
            Ok(graded(None, true))
        } else {
            Err("docker looks wedged".to_string())
        }
    }
}

#[test]
fn a_timeout_stays_a_caveat_when_the_run_ends_early() {
    let mut run = start(spec_with(vec![arm("harness")], vec![task("t1"), task("t2")]));
    let saved = drive(&mut run, None, &mut TimesOutThenWedges(0));
    assert_eq!(run.aborted(), &Some("docker looks wedged".to_string()));
    assert_eq!(saved.len(), 2);
    assert_eq!(row(&run, 0), (2, 0));
    assert_eq!(rescored(&saved, "harness"), (2, 0));
    assert_eq!(
        run.caveats(),
        &vec!["1 cells hit the wall-clock bound; the rate is a floor".to_string()]
    );
    assert!(matches!(run.events().last(), Some(MatrixEvent::Error(m)) if m == "docker looks wedged"));
}

#[test]
fn the_event_stream_terminates_on_a_failed_run_with_no_dangling_started() {
    let mut run = start(spec_with(
        vec![arm("full")],
        vec![task("t1"), task("t2"), task("t3")],
    ));
    drive(&mut run, None, &mut WedgeAfter(1));
    assert!(run.aborted().is_some());
    let events: Vec<RunEvent> = run
        .events()
        .iter()
        .map(|e| stream_event(run.spec(), e, Json::Null))
        .collect();
    assert!(matches!(
        events.first(),
        Some(RunEvent::Started { total: Some(3), .. })
    ));
    let results = events
        .iter()
        .filter(|e| matches!(e, RunEvent::Result { .. }))
        .count();
    assert_eq!(results, 2, "one result per persisted cell");
    assert!(
        matches!(events.last(), Some(RunEvent::Error { .. })),
        "an aborted run must terminate the stream with error"
    );
    assert!(
        !events
            .iter()
            .any(|e| matches!(e, RunEvent::Completed { .. })),
        "an aborted run must not also claim completion"
    );

    // The happy path terminates with completed.
    let mut run = start(spec_with(vec![arm("full")], vec![task("t1")]));
    drive(&mut run, None, &mut NoGrader);
    assert!(matches!(run.events().last(), Some(MatrixEvent::Completed)));
}

#[test]
fn a_cell_that_cannot_be_saved_ends_the_run_and_its_stream() {
    let mut run = start(spec_with(vec![arm("full")], vec![task("t1"), task("t2")]));
    let mut reply = MatrixReply::Proceed;
    while run.stage() != MatrixStage::Finished {
        reply = match run.step(reply) {
            MatrixAsk::Solve(..) => MatrixReply::Solved(Ok(card_json("t1", "full", true))),
            MatrixAsk::Parse(_) => MatrixReply::Parsed(Ok(true)),
            MatrixAsk::Grade(_) => MatrixReply::Graded(Ok(GradeVerdict::skipped())),
            MatrixAsk::Save(_) => MatrixReply::Saved(Err("disk full".to_string())),
            MatrixAsk::Caveats(..) => MatrixReply::Caveats(None, None),
            MatrixAsk::Proceed => MatrixReply::Proceed,
            MatrixAsk::Finished => break,
        };
    }
    assert!(run.failure().as_ref().unwrap().contains("disk full"));
    assert!(run.cells().is_empty());
    assert!(matches!(run.events().last(), Some(MatrixEvent::Error(_))));
}

#[test]
fn the_markdown_report_carries_the_contamination_caveat() {
    let rendered = render_capability_report(&CapabilityReport {
        corpus: "external".to_string(),
        contamination_suspect: true,
        arms: vec![ReportRow {
            arm: "full".to_string(),
            model: "apex".to_string(),
            solved: 1,
            tasks: 1,
            solve_percent: "100".to_string(),
            avg_tool_calls: "2.00".to_string(),
            avg_redundant: "0.00".to_string(),
            avg_interventions: "0.00".to_string(),
            judge: None,
            isolation: None,
        }],
    });
    assert!(rendered.contains("Contamination caveat"));
    assert!(rendered.contains("| full | apex | 1/1 | 100% |"));
}

#[test]
fn a_verdict_is_patched_into_the_card_and_nowhere_else() {
    let raw = card_json("t1", "full", true);
    let patched = patch_scorecard_verdict(&raw, false).unwrap();
    let mut expected: serde_json::Value = serde_json::from_str(&raw).unwrap();
    let actual: serde_json::Value = serde_json::from_str(&patched).unwrap();
    assert_ne!(actual, expected);
    expected["results"]["passed"] = serde_json::Value::Bool(false);
    assert_eq!(actual, expected);
    // What is no card stays as it is; results that are no object carry no
    // verdict.
    assert_eq!(
        patch_scorecard_verdict("no json", true),
        Some("no json".to_string())
    );
    assert_eq!(patch_scorecard_verdict(r#"{"results":3}"#, true), None);
}

#[test]
fn a_failed_solve_becomes_an_unsolved_card_with_its_reason() {
    let text = synthetic_unsolved_scorecard(&task("t2"), "full", "apex", "solver hung");
    let card: serde_json::Value = serde_json::from_str(&text).unwrap();
    assert_eq!(card["task"], "t2");
    assert_eq!(card["arm"], "full");
    assert_eq!(card["model"], "apex");
    assert_eq!(card["results"]["passed"], false);
    assert!(card["process"]["exit_reason"]
        .as_str()
        .unwrap()
        .contains("solver hung"));
}

#[test]
fn grade_commands_split_and_their_output_is_combined() {
    let command = vec!["docker".to_string(), "run".to_string(), "x".to_string()];
    let (program, args) = split_command(&command).unwrap();
    assert_eq!(program, "docker");
    assert_eq!(args, ["run", "x"]);
    assert_eq!(
        split_command(&vec![]),
        Err("empty grade command".to_string())
    );
    let run = BoundedRun {
        exit_ok: true,
        stdout: "out".to_string(),
        stderr: "err".to_string(),
        timed_out: false,
        cleanup_diagnostic: Some("late".to_string()),
    };
    assert_eq!(
        os_exec(&run),
        (true, "outerr\nprocess cleanup: late".to_string(), false)
    );
    assert_eq!(output_suffix("  "), "");
    assert!(output_suffix(" said ").contains("said"));
}
