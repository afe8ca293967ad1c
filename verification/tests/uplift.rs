use localbench::json::Json;
use localbench::solver::BoundedRun;
use localbench::uplift_run::{
    run_uplift, TaskResult, UpliftArm, UpliftAsk, UpliftReply, UpliftRun, UpliftStage,
};
use localbench::upliftrun::{
    assert_grader_selftest, default_category, latest_session_log, load_task_set,
    memories_from_session_log, render_uplift_report, seed_pack, selftest_references, Aggregate,
    Expect, InjectionSummary, PrintDriver, SeedLesson, SessionFile, Significance, TaskSet,
    UpliftReport, UpliftTask, Verdict,
};

fn text(value: &str) -> String {
    value.to_string()
}

fn task(id: &str, prompt: &str, mode: &str, value: &str, lesson: &str) -> UpliftTask {
    UpliftTask {
        id: text(id),
        prompt: text(prompt),
        expect: Expect {
            mode: text(mode),
            value: text(value),
        },
        case_sensitive: false,
        lesson_ids: vec![text(lesson)],
    }
}

fn task_set() -> TaskSet {
    TaskSet {
        schema: 1,
        name: text("headroom-v1"),
        tasks: vec![
            task(
                "migrate",
                "How do I migrate the foo database?",
                "substring",
                "foo db sync",
                "lesson-migrate",
            ),
            task(
                "port",
                "Which port does the bar daemon use?",
                "regex",
                "\\b7443\\b",
                "lesson-port",
            ),
        ],
        lessons: vec![
            SeedLesson {
                id: text("lesson-migrate"),
                body: text("Use foo db sync."),
                category: default_category(),
                confidence: Json::read("0.9").unwrap(),
                tags: vec![text("foo")],
            },
            SeedLesson {
                id: text("lesson-port"),
                body: text("bar listens on 7443."),
                category: text("Environment"),
                confidence: Json::read("0.8").unwrap(),
                tags: vec![],
            },
        ],
    }
}

#[test]
fn task_sets_load_and_fail_loud() {
    let set = load_task_set(task_set()).unwrap();
    assert_eq!(set.tasks.len(), 2);
    assert_eq!(set.lessons[0].category, "ProjectConvention");
    assert_eq!(set.lessons[1].category, "Environment");

    let empty = TaskSet {
        schema: 1,
        name: text("empty"),
        tasks: vec![],
        lessons: vec![],
    };
    assert!(load_task_set(empty).unwrap_err().contains("no tasks"));
    let mut other = task_set();
    other.schema = 7;
    assert!(load_task_set(other).unwrap_err().contains('7'));
}

#[test]
fn the_seed_pack_projects_the_localpilot_shape() {
    let pack: serde_json::Value =
        serde_json::from_str(&seed_pack(&task_set()).write()).unwrap();
    let lessons = pack["lessons"].as_array().unwrap();
    assert_eq!(lessons.len(), 2);
    assert_eq!(lessons[0]["body"], "Use foo db sync.");
    assert_eq!(lessons[0]["category"], "ProjectConvention");
    assert_eq!(lessons[1]["confidence"], 0.8);
    // The engine's id is never recomputed here: ids stay out of the pack.
    assert!(lessons[0].get("id").is_none());
}

#[test]
fn the_session_log_audit_reads_the_last_memories_used_event() {
    let log = r#"{"kind":{"type":"turn_started"}}
{"kind":{"type":"memories_used","memories":[{"id":"old-1","score":3,"layer":"project"}]}}
not json at all
{"kind":{"type":"memories_used","memories":[{"id":"m-1","score":5,"layer":"global"},{"id":"m-2","score":2,"layer":"project"}]}}
{"kind":{"type":"turn_done"}}"#;
    assert_eq!(
        memories_from_session_log(log),
        ["m-1", "m-2"],
        "the LAST audit event wins"
    );
    assert!(memories_from_session_log("").is_empty());
}

#[test]
fn the_newest_session_log_wins() {
    let file = |is_log: bool, modified: Option<u128>| SessionFile { is_log, modified };
    let files = vec![
        file(true, Some(100)),
        file(true, Some(3700)),
        file(false, Some(9000)),
        file(true, None),
    ];
    assert_eq!(latest_session_log(&files), Some(1));
    assert_eq!(latest_session_log(&vec![]), None);
    assert_eq!(latest_session_log(&vec![file(true, None)]), None);
    // Of two written at once the later one in the listing is taken.
    let twins = vec![file(true, Some(5)), file(true, Some(5))];
    assert_eq!(latest_session_log(&twins), Some(1));
}

type Script = Vec<(&'static str, &'static str, Vec<&'static str>)>;

fn passes(task: &UpliftTask, answer: &str) -> bool {
    answer.contains(task.expect.value.trim_matches(|c| c == '\\' || c == 'b'))
        || (task.id == "migrate" && answer.contains("foo db sync"))
}

/// The injection contract: the baseline uses nothing, the lesson arm uses what
/// was intended.
fn injection(
    arm: UpliftArm,
    results: &[TaskResult],
    intended: &[String],
) -> Result<InjectionSummary, String> {
    let used = |id: &String| {
        results
            .iter()
            .any(|r| r.memories_used.iter().any(|t| t.contains(id)))
    };
    let any = results
        .iter()
        .any(|r| r.memories_used.iter().any(|t| !t.is_empty()));
    match arm {
        UpliftArm::Baseline if any => Err(text("VOID: the baseline injected lessons")),
        UpliftArm::Baseline => Ok(InjectionSummary {
            injected: 0,
            intended: 0,
        }),
        UpliftArm::Lessons if !any => Err(text("VOID: the lessons arm never injected")),
        UpliftArm::Lessons => Ok(InjectionSummary {
            injected: intended.iter().filter(|id| used(id)).count(),
            intended: intended.len(),
        }),
    }
}

fn mean(results: &[TaskResult]) -> f64 {
    let all: Vec<bool> = results.iter().flat_map(|r| r.passes.clone()).collect();
    all.iter().filter(|p| **p).count() as f64 / all.len() as f64
}

fn drive(
    set: &TaskSet,
    baseline: &Script,
    lessons: &Script,
    intended: &[String],
    trials: u32,
) -> (UpliftRun, usize) {
    let mut run = run_uplift(set.tasks.len(), trials);
    let mut turns = 0;
    let mut reply = UpliftReply::Proceed;
    while run.stage() != UpliftStage::Finished {
        reply = match run.step(reply) {
            UpliftAsk::Proceed => UpliftReply::Proceed,
            UpliftAsk::SelfTest => {
                let (expect, right, wrong) = selftest_references();
                UpliftReply::SelfTested(
                    right.contains(&expect.value),
                    wrong.contains(&expect.value),
                )
            }
            UpliftAsk::Isolate(_) => UpliftReply::Isolated(Ok(())),
            UpliftAsk::Turn(arm, index, _) => {
                turns += 1;
                let script = match arm {
                    UpliftArm::Baseline => baseline,
                    UpliftArm::Lessons => lessons,
                };
                let task = &set.tasks[index];
                UpliftReply::Turned(
                    match script.iter().find(|(id, _, _)| *id == task.id) {
                        None => Err(text("unscripted task")),
                        Some((_, answer, memories)) => Ok((
                            passes(task, answer),
                            memories.iter().map(|m| text(m)).collect(),
                        )),
                    },
                )
            }
            UpliftAsk::Injection(arm) => {
                UpliftReply::Injected(injection(arm, run.results(arm), intended))
            }
            UpliftAsk::Aggregate(arm) => UpliftReply::Aggregated(Ok(Aggregate {
                mean_percent: format!("{:.0}", mean(run.results(arm)) * 100.0),
                stddev: text("0.000"),
                per_trial_percent: vec![],
            })),
            UpliftAsk::Significance => {
                let delta =
                    mean(run.results(UpliftArm::Lessons)) - mean(run.results(UpliftArm::Baseline));
                UpliftReply::Compared(Significance {
                    delta_percent: format!("{:+.1}", delta * 100.0),
                    band_percent: text("5.0"),
                    effect_size: None,
                    verdict: if delta > 0.05 {
                        Verdict::Uplift
                    } else if delta < -0.05 {
                        Verdict::Regression
                    } else {
                        Verdict::NoEffect
                    },
                })
            }
            UpliftAsk::Finished => break,
        };
    }
    (run, turns)
}

fn outcome(run: &UpliftRun) -> Result<UpliftReport, String> {
    run.report("headroom-v1", "apex").unwrap()
}

#[test]
fn a_full_ab_run_produces_the_report_and_verdict() {
    let set = task_set();
    // Baseline fails both tasks and injects nothing.
    let baseline = vec![
        ("migrate", "Try foo migrate maybe?", vec![]),
        ("port", "No idea.", vec![]),
    ];
    // The lesson arm answers correctly and records its intended lessons.
    let lessons = vec![
        ("migrate", "Run foo db sync.", vec!["lesson-migrate"]),
        ("port", "It uses 7443.", vec!["lesson-port"]),
    ];
    let intended = vec![text("lesson-migrate"), text("lesson-port")];
    let (run, turns) = drive(&set, &baseline, &lessons, &intended, 3);
    assert_eq!(turns, 12, "every trial of every task, for both arms");
    let report = outcome(&run).unwrap();
    assert_eq!(report.schema, 1);
    assert_eq!(report.trials, 3);
    assert_eq!(report.arms[0].aggregate.mean_percent, "0");
    assert_eq!(report.arms[1].aggregate.mean_percent, "100");
    assert_eq!(report.uplift.verdict, Verdict::Uplift);
    let rendered = render_uplift_report(&report);
    assert!(rendered.contains("**uplift**"));
    assert!(rendered.contains("none (baseline)"));
    assert!(rendered.contains("injected 2/2 intended"));
}

#[test]
fn a_baseline_that_injects_voids_the_result() {
    let set = task_set();
    let baseline = vec![
        ("migrate", "Run foo db sync.", vec!["lesson-migrate"]),
        ("port", "It uses 7443.", vec![]),
    ];
    let lessons = vec![
        ("migrate", "Run foo db sync.", vec!["lesson-migrate"]),
        ("port", "It uses 7443.", vec!["lesson-port"]),
    ];
    let intended = vec![text("lesson-migrate")];
    let err = outcome(&drive(&set, &baseline, &lessons, &intended, 2).0).unwrap_err();
    assert!(err.contains("VOID"));
    assert!(err.contains("baseline"));
}

#[test]
fn a_lesson_arm_that_never_injects_voids_the_result() {
    let set = task_set();
    let baseline = vec![("migrate", "?", vec![]), ("port", "?", vec![])];
    let lessons = vec![
        ("migrate", "Run foo db sync.", vec![]),
        ("port", "It uses 7443.", vec![]),
    ];
    let intended = vec![text("lesson-migrate")];
    let err = outcome(&drive(&set, &baseline, &lessons, &intended, 2).0).unwrap_err();
    assert!(err.contains("VOID"));
    assert!(err.contains("lessons"));
}

#[test]
fn a_turn_that_fails_stops_the_run() {
    let set = task_set();
    let baseline = vec![("migrate", "?", vec![])];
    let (run, turns) = drive(&set, &baseline, &vec![], &[], 2);
    assert_eq!(turns, 3, "the first unscripted turn is the last one");
    assert!(outcome(&run).unwrap_err().contains("unscripted task"));
}

#[test]
fn nothing_runs_unless_the_references_grade_as_known() {
    assert!(assert_grader_selftest(true, false).is_ok());
    for (right, wrong) in [(false, false), (true, true), (false, true)] {
        assert!(assert_grader_selftest(right, wrong).is_err());
        let mut run = run_uplift(1, 1);
        run.step(UpliftReply::Proceed);
        while run.stage() != UpliftStage::SelfTest {
            run.step(UpliftReply::Proceed);
        }
        run.step(UpliftReply::SelfTested(right, wrong));
        assert!(run.report("s", "m").unwrap().is_err());
    }
}

#[test]
fn a_print_turn_reads_its_answer_and_its_audit() {
    let driver = PrintDriver {
        bin: text("localpilot"),
        model: text("apex"),
        timeout_secs: 30,
    };
    let set = task_set();
    assert_eq!(
        driver.turn_args(&set.tasks[0]),
        ["print", "How do I migrate the foo database?", "--model", "apex"]
    );
    let mut run = BoundedRun {
        exit_ok: true,
        stdout: text("Run foo db sync.\n"),
        stderr: text(" boom \n"),
        timed_out: false,
        cleanup_diagnostic: None,
    };
    let log = r#"{"kind":{"type":"memories_used","memories":[{"id":"m"}]}}"#;
    let turn = driver.read_turn(&set.tasks[0], &run, Some(log)).unwrap();
    assert_eq!(turn.answer, "Run foo db sync.\n");
    assert_eq!(turn.memories_used, ["m"]);
    let turn = driver.read_turn(&set.tasks[0], &run, None).unwrap();
    assert!(turn.memories_used.is_empty());
    run.exit_ok = false;
    assert_eq!(
        driver.read_turn(&set.tasks[0], &run, None).unwrap_err(),
        "'localpilot print' failed (task 'migrate'): boom"
    );
    run.timed_out = true;
    assert_eq!(
        driver.read_turn(&set.tasks[0], &run, None).unwrap_err(),
        "'localpilot print' timed out after 30s (task 'migrate')"
    );
}
