use localbench::container::{
    corpus_root_missing, manifest_is_stale, Assessment, CommandEnd, ContainerGrader, GradeAsk,
    GradeReply, PlanKind, CLEANUP_SECS,
};
use localbench::matrix::{GradeVerdict, TaskSpec};

fn task(id: &str) -> TaskSpec {
    TaskSpec {
        id: id.to_string(),
        workspace: format!("C:/bench/work/{id}"),
        problem: "fix it".to_string(),
        test_command: "cargo test".to_string(),
        image: None,
        grade_label: Some("rust".to_string()),
        cargo_cache: None,
    }
}

fn end(exit_ok: bool, output: &str, timed_out: bool) -> Result<CommandEnd, String> {
    Ok(CommandEnd {
        exit_ok,
        output: output.to_string(),
        timed_out,
    })
}

#[derive(Debug, PartialEq)]
enum Call {
    Run(PlanKind, String),
    Remove(String),
    WarmCrate(String, String),
}

/// How an output is assessed: a missing package is an offline gap, and a test
/// summary counts its tests.
fn assess(output: &str) -> Assessment {
    let tests = match output.find("test result: ok. ") {
        Some(at) => output[at + 17..]
            .split(' ')
            .next()
            .and_then(|n| n.parse().ok())
            .unwrap_or(0),
        None => 0,
    };
    Assessment {
        offline_gap: output.contains("no matching package"),
        tests,
        note: format!("{tests} tests ran"),
    }
}

/// Counts consecutive timeouts; three trip it.
#[derive(Default)]
struct Breaker {
    strikes: u64,
}

fn grade(
    grader: &mut ContainerGrader,
    breaker: &mut Breaker,
    task: &TaskSpec,
    calls: &mut Vec<Call>,
    ran: &dyn Fn(PlanKind) -> Result<CommandEnd, String>,
    removed: &dyn Fn() -> Result<CommandEnd, String>,
) -> Result<GradeVerdict, String> {
    let wedged = if breaker.strikes >= 3 {
        Some(breaker.strikes)
    } else {
        None
    };
    let mut ask = grader.grade(task, wedged);
    let mut named = 0;
    loop {
        ask = match ask {
            GradeAsk::Run(kind) => {
                named += 1;
                let name = format!("{}-{named}", task.id);
                calls.push(Call::Run(kind, name.clone()));
                grader.step(GradeReply::Ran(name, ran(kind)))
            }
            GradeAsk::Remove(name, _) => {
                calls.push(Call::Remove(name));
                grader.step(GradeReply::Removed(removed()))
            }
            GradeAsk::Manifest => grader.step(GradeReply::Manifest(Ok("serde rayon".to_string()))),
            GradeAsk::WarmCrate(cache, manifest) => {
                calls.push(Call::WarmCrate(cache, manifest));
                grader.step(GradeReply::WarmCrate(Ok(())))
            }
            GradeAsk::Assess(output) => grader.step(GradeReply::Assessed(assess(&output))),
            GradeAsk::Done => break,
        };
    }
    match grader.strike() {
        Some(true) => breaker.strikes += 1,
        Some(false) => breaker.strikes = 0,
        None => {}
    }
    grader.verdict().clone().unwrap()
}

fn absent() -> Result<CommandEnd, String> {
    end(false, "Error: No such container: already-absent", false)
}

#[test]
fn the_container_grader_enforces_grade_fidelity_and_health() {
    // The health check runs once and must pass before any grade.
    let mut calls = Vec::new();
    let mut grader = ContainerGrader::new(5);
    let ran = |kind: PlanKind| match kind {
        PlanKind::Health => end(true, "", false),
        // Exit 0 but no tests ran: grade fidelity demands a fail.
        _ => end(true, "Compiling... Finished.", false),
    };
    let verdict = grade(
        &mut grader,
        &mut Breaker::default(),
        &task("t1"),
        &mut calls,
        &ran,
        &absent,
    )
    .unwrap();
    assert_eq!(
        verdict.passed,
        Some(false),
        "exit 0 with 0 tests is not a pass"
    );
    assert!(verdict.note.contains("0 tests ran"));
    assert!(matches!(calls[0], Call::Run(PlanKind::Health, _)));
    assert!(matches!(calls[1], Call::Run(PlanKind::Grade, _)));

    // A passing grade needs exit 0 AND counted tests.
    let ran = |kind: PlanKind| match kind {
        PlanKind::Health => end(true, "", false),
        _ => end(
            true,
            "test result: ok. 5 passed; 0 failed; 0 ignored",
            false,
        ),
    };
    let mut grader = ContainerGrader::new(5);
    let verdict = grade(
        &mut grader,
        &mut Breaker::default(),
        &task("t1"),
        &mut calls,
        &ran,
        &absent,
    );
    assert_eq!(verdict.unwrap().passed, Some(true));
}

#[test]
fn a_health_timeout_removes_only_its_exact_named_container() {
    let mut calls = Vec::new();
    let mut grader = ContainerGrader::new(5);
    let ran = |_: PlanKind| end(false, "health still running", true);
    let error = grade(
        &mut grader,
        &mut Breaker::default(),
        &task("t1"),
        &mut calls,
        &ran,
        &absent,
    )
    .unwrap_err();
    assert!(error.contains("pre-flight health check"));
    assert!(error.contains("timed out after 5s"));
    assert_eq!(
        calls,
        [
            Call::Run(PlanKind::Health, "t1-1".to_string()),
            Call::Remove("t1-1".to_string())
        ]
    );
}

#[test]
fn an_ambiguous_docker_spawn_error_still_runs_exact_compensation() {
    let mut calls = Vec::new();
    let mut grader = ContainerGrader::new(5);
    let ran = |_: PlanKind| Err("docker CLI connection broke after create".to_string());
    let removed = || end(true, "", false);
    let error = grade(
        &mut grader,
        &mut Breaker::default(),
        &task("t1"),
        &mut calls,
        &ran,
        &removed,
    )
    .unwrap_err();
    assert!(error.contains("connection broke after create"));
    assert!(error.contains("exact Docker cleanup completed"));
    assert_eq!(calls.len(), 2);
    assert_eq!(calls[1], Call::Remove("t1-1".to_string()));
}

#[test]
fn a_grade_timeout_preserves_primary_semantics_when_exact_cleanup_fails() {
    let mut calls = Vec::new();
    let mut grader = ContainerGrader::new(5);
    let ran = |kind: PlanKind| match kind {
        PlanKind::Health => end(true, "", false),
        _ => end(false, "grade still running", true),
    };
    let removed = || end(false, "daemon unavailable", false);
    let verdict = grade(
        &mut grader,
        &mut Breaker::default(),
        &task("t1"),
        &mut calls,
        &ran,
        &removed,
    )
    .unwrap();
    assert!(verdict.timed_out);
    assert_eq!(verdict.passed, None);
    assert!(verdict.note.contains("grade timed out"));
    assert!(verdict
        .cleanup_diagnostic
        .as_deref()
        .is_some_and(|diagnostic| diagnostic.contains("daemon unavailable")));
    assert_eq!(calls.len(), 3);
    assert_eq!(calls[2], Call::Remove("t1-2".to_string()));
}

#[test]
fn rust_cache_warms_before_grading_and_the_same_cell_does_not_refetch() {
    let mut rust_task = task("clock");
    rust_task.cargo_cache = Some("cargo-registry".to_string());
    let mut calls = Vec::new();
    let mut grader = ContainerGrader::new(5);
    let mut breaker = Breaker::default();
    let ran = |kind: PlanKind| match kind {
        PlanKind::Grade => end(
            true,
            "test result: ok. 1 passed; 0 failed; 0 ignored",
            false,
        ),
        _ => end(true, "", false),
    };
    for _ in 0..2 {
        let verdict = grade(
            &mut grader,
            &mut breaker,
            &rust_task,
            &mut calls,
            &ran,
            &absent,
        );
        assert_eq!(verdict.unwrap().passed, Some(true));
    }
    let kinds: Vec<PlanKind> = calls
        .iter()
        .filter_map(|call| match call {
            Call::Run(kind, _) => Some(*kind),
            _ => None,
        })
        .collect();
    assert_eq!(
        kinds,
        [
            PlanKind::Health,
            PlanKind::Warm,
            PlanKind::Grade,
            PlanKind::Grade
        ],
        "the same cache/manifest pair is fetched only once"
    );
    assert!(calls.contains(&Call::WarmCrate(
        "cargo-registry".to_string(),
        "serde rayon".to_string()
    )));
}

#[test]
fn an_offline_fetch_failure_grades_as_an_infra_gap_not_a_solve_failure() {
    let mut calls = Vec::new();
    let mut grader = ContainerGrader::new(5);
    let ran = |kind: PlanKind| match kind {
        PlanKind::Health => end(true, "", false),
        _ => end(
            false,
            "error: no matching package named `leftpad` found\n\
             (while attempting to fetch under --offline)",
            false,
        ),
    };
    let verdict = grade(
        &mut grader,
        &mut Breaker::default(),
        &task("t1"),
        &mut calls,
        &ran,
        &absent,
    )
    .unwrap();
    // Not scored a solve failure: no pass/fail verdict, an infra-gap reason.
    assert_eq!(verdict.passed, None, "an infra gap is not a graded solve");
    assert!(verdict.infra_gap.unwrap().contains("under-vendored"));
    // A genuine compile error (not a fetch error) still scores unsolved.
    let ran = |kind: PlanKind| match kind {
        PlanKind::Health => end(true, "", false),
        _ => end(
            false,
            "error[E0308]: mismatched types\n --> src/lib.rs:4:5",
            false,
        ),
    };
    let mut grader = ContainerGrader::new(5);
    let verdict = grade(
        &mut grader,
        &mut Breaker::default(),
        &task("t1"),
        &mut calls,
        &ran,
        &absent,
    )
    .unwrap();
    assert_eq!(verdict.passed, Some(false));
    assert!(verdict.infra_gap.is_none());
}

#[test]
fn three_grade_timeouts_trip_the_wedge_breaker_and_yield() {
    let mut calls = Vec::new();
    let mut grader = ContainerGrader::new(1);
    let mut breaker = Breaker::default();
    let ran = |kind: PlanKind| match kind {
        PlanKind::Health => end(true, "", false),
        _ => end(false, "", true),
    };
    for _ in 0..3 {
        let verdict = grade(
            &mut grader,
            &mut breaker,
            &task("t1"),
            &mut calls,
            &ran,
            &absent,
        );
        assert!(verdict.unwrap().timed_out);
    }
    let before = calls.len();
    let err = grade(
        &mut grader,
        &mut breaker,
        &task("t1"),
        &mut calls,
        &ran,
        &absent,
    )
    .unwrap_err();
    assert!(err.contains("wedged"));
    assert!(err.contains("ledger intact"));
    assert_eq!(calls.len(), before, "a refused task runs nothing");
}

#[test]
fn a_removal_never_waits_longer_than_the_grade() {
    for (timeout, bound) in [(5, 5), (CLEANUP_SECS, CLEANUP_SECS), (600, CLEANUP_SECS)] {
        let mut grader = ContainerGrader::new(timeout);
        grader.grade(&task("t1"), None);
        let ask = grader.step(GradeReply::Ran("c".to_string(), end(false, "", true)));
        assert_eq!(ask, GradeAsk::Remove("c".to_string(), bound));
    }
}

#[test]
fn a_warm_manifest_is_rewritten_only_when_it_differs() {
    let manifest = "[package]".to_string();
    assert!(manifest_is_stale(&None, &manifest));
    assert!(manifest_is_stale(&Some("other".to_string()), &manifest));
    assert!(!manifest_is_stale(&Some(manifest.clone()), &manifest));
    assert!(corpus_root_missing(&task("t9")).contains("task 't9'"));
}
