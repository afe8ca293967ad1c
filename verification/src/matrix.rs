//! The arm-by-task matrix: its run specification, the setup gates, the graded
//! verdict, the persisted scorecards and the rendered report.
use vstd::prelude::*;
use vstd::string::StringExecFns;

use crate::json::{json_text, parse_json, put_member, Json, Member};
#[allow(unused_imports)]
use crate::json::{
    json_of, json_text_of, law_member_after_set, law_setting_a_member_keeps_order,
    lemma_member_is_orderly, maybe, member, orderly, set_member, zero_point, JsonV,
    MAX_NESTING,
};
use crate::scorecard::scorecard_text;
#[allow(unused_imports)]
use crate::scorecard::{
    card_verdict, law_a_process_card_is_unsolved, law_alike_cards_carry_one_verdict, process_card,
    rescores,
};
use crate::solver::BoundedRun;
use crate::text::{dec_u64, is_blank, join, lower_chars, same, trim};
#[allow(unused_imports)]
use crate::text::{chars_of, copy_strings, dec, joined, lowered, trimmed, views};

verus! {

// ---------------------------------------------------------------------------
// The run specification
// ---------------------------------------------------------------------------
/// One arm of the matrix.
#[derive(Debug, PartialEq, Eq)]
pub struct ArmSpec {
    pub arm: String,
    /// The arm's effective config, when the runner tracks isolation (a
    /// baseline arm should always carry one so its isolation is checked).
    pub config: Option<Json>,
    /// Enable the verify-before-done gate for this arm's runs.
    pub verify: bool,
    /// Close each run out into review-gated memory (the warm/teaching arm).
    pub learn: bool,
    /// Path to a coach script that drives the arm's runs.
    pub coach: Option<String>,
}

/// One materialized task.
#[derive(Clone, Debug, PartialEq, Eq)]
pub struct TaskSpec {
    pub id: String,
    /// The task workspace on the host.
    pub workspace: String,
    /// The problem statement handed to the solver.
    pub problem: String,
    /// The benchmark's own test command, run inside the grade container.
    pub test_command: String,
    /// Container image override.
    pub image: Option<String>,
    /// Grade language label for test counting.
    pub grade_label: Option<String>,
    /// Path to the shared cargo registry that is warmed before a `rust` grade,
    /// then mounted read-only for the graded window.
    pub cargo_cache: Option<String>,
}

/// A full matrix run specification.
#[derive(Debug, PartialEq, Eq)]
pub struct RunSpec {
    pub schema: u32,
    pub model: String,
    /// `first-party` or `external`.
    pub corpus: String,
    pub arms: Vec<ArmSpec>,
    pub tasks: Vec<TaskSpec>,
}

/// The corpus of a specification that names none.
pub fn default_corpus() -> (out: String)
    ensures
        out@ == "external"@,
{
    "external".to_string()
}

/// Whether a text holds nothing but white space.
pub open spec fn blank(s: Seq<char>) -> bool {
    trimmed(s).len() == 0
}

/// Whether a task is labelled `rust`.
pub open spec fn is_rust(task: TaskSpec) -> bool {
    task.grade_label matches Some(label) && label@ == "rust"@
}

/// What is wrong with a task, if anything is.
pub open spec fn task_defect(task: TaskSpec) -> Option<Seq<char>> {
    if blank(task.id@) || blank(task.workspace@) {
        Some("each task needs an id and a workspace"@)
    } else if is_rust(task) && (match task.cargo_cache {
        Some(path) => blank(path@),
        None => true,
    }) {
        Some(
            "rust task '"@ + task.id@
                + "' needs cargo_cache so dependencies can be warmed before grading"@,
        )
    } else {
        None
    }
}

/// What is wrong with the first defective task, if any is.
pub open spec fn tasks_defect(tasks: Seq<TaskSpec>) -> Option<Seq<char>>
    decreases tasks.len(),
{
    if tasks.len() == 0 {
        None
    } else {
        match task_defect(tasks[0]) {
            Some(m) => Some(m),
            None => tasks_defect(tasks.skip(1)),
        }
    }
}

/// What is wrong with a run specification, if anything is.
pub open spec fn spec_defect(spec: RunSpec) -> Option<Seq<char>> {
    if spec.schema != 1 {
        Some("unsupported run-spec schema "@ + dec(spec.schema as nat) + " (expected 1)"@)
    } else if blank(spec.model@) {
        Some("the run spec names no model"@)
    } else if spec.corpus@ != "external"@ && spec.corpus@ != "first-party"@ {
        Some("unknown corpus '"@ + spec.corpus@ + "' (use first-party|external)"@)
    } else if spec.arms@.len() == 0 {
        Some("at least one arm is required"@)
    } else if spec.tasks@.len() == 0 {
        Some("at least one task is required"@)
    } else if exists|i: int| 0 <= i < spec.arms@.len() && blank((#[trigger] spec.arms@[i]).arm@) {
        Some("each arm needs a non-empty name"@)
    } else {
        tasks_defect(spec.tasks@)
    }
}

fn check_task(task: &TaskSpec) -> (out: Result<(), String>)
    ensures
        match out {
            Ok(()) => task_defect(*task) is None,
            Err(m) => task_defect(*task) == Some(m@),
        },
{
    if is_blank(task.id.as_str()) || is_blank(task.workspace.as_str()) {
        return Err("each task needs an id and a workspace".to_string());
    }
    let rust: bool = match &task.grade_label {
        Some(label) => same(label.as_str(), "rust"),
        None => false,
    };
    let uncached: bool = match &task.cargo_cache {
        Some(path) => is_blank(path.as_str()),
        None => true,
    };
    if rust && uncached {
        let mut m: String = "rust task '".to_string();
        m.append(task.id.as_str());
        m.append("' needs cargo_cache so dependencies can be warmed before grading");
        return Err(m);
    }
    Ok(())
}

/// Validate a run spec, failing loud on anything unusable. The message names
/// the first defect.
pub fn load_run_spec(spec: RunSpec) -> (out: Result<RunSpec, String>)
    ensures
        match out {
            Ok(valid) => valid == spec && spec_defect(spec) is None,
            Err(m) => spec_defect(spec) == Some(m@),
        },
{
    if spec.schema != 1 {
        let mut m: String = "unsupported run-spec schema ".to_string();
        m.append(dec_u64(spec.schema as u64).as_str());
        m.append(" (expected 1)");
        return Err(m);
    }
    if is_blank(spec.model.as_str()) {
        return Err("the run spec names no model".to_string());
    }
    if !same(spec.corpus.as_str(), "external") && !same(spec.corpus.as_str(), "first-party") {
        let mut m: String = "unknown corpus '".to_string();
        m.append(spec.corpus.as_str());
        m.append("' (use first-party|external)");
        return Err(m);
    }
    if spec.arms.len() == 0 {
        return Err("at least one arm is required".to_string());
    }
    if spec.tasks.len() == 0 {
        return Err("at least one task is required".to_string());
    }
    let mut i: usize = 0;
    while i < spec.arms.len()
        invariant
            i <= spec.arms.len(),
            forall|k: int| 0 <= k < i ==> !blank((#[trigger] spec.arms@[k]).arm@),
            spec.schema == 1,
            !blank(spec.model@),
            spec.corpus@ == "external"@ || spec.corpus@ == "first-party"@,
            spec.arms@.len() > 0,
            spec.tasks@.len() > 0,
        decreases spec.arms.len() - i,
    {
        if is_blank(spec.arms[i].arm.as_str()) {
            assert(blank(spec.arms@[i as int].arm@));
            return Err("each arm needs a non-empty name".to_string());
        }
        i = i + 1;
    }
    let mut j: usize = 0;
    assert(spec.tasks@.skip(0) =~= spec.tasks@);
    while j < spec.tasks.len()
        invariant
            j <= spec.tasks.len(),
            tasks_defect(spec.tasks@) == tasks_defect(spec.tasks@.skip(j as int)),
            spec_defect(spec) == tasks_defect(spec.tasks@),
        decreases spec.tasks.len() - j,
    {
        proof {
            assert(spec.tasks@.skip(j as int)[0] == spec.tasks@[j as int]);
            assert(spec.tasks@.skip(j as int).skip(1) =~= spec.tasks@.skip(j + 1));
        }
        match check_task(&spec.tasks[j]) {
            Err(m) => {
                return Err(m);
            },
            Ok(()) => {},
        }
        j = j + 1;
    }
    Ok(spec)
}

// ---------------------------------------------------------------------------
// Setup gates
// ---------------------------------------------------------------------------
/// What checking an arm's config showed.
#[derive(Clone, Debug, PartialEq, Eq)]
pub enum Isolation {
    /// The config is contaminated, and how.
    Refused(String),
    /// The config is clean; whether it declares the arm a baseline.
    Clean(bool),
}

/// What the checks made before a run showed: the instruments, each task's
/// corpus path, and each arm's config.
#[derive(Clone, Debug, PartialEq, Eq)]
pub struct SetupFacts {
    pub instruments: Option<String>,
    pub corpus_paths: Vec<Option<String>>,
    pub isolation: Vec<Isolation>,
}

/// The harness flags that an arm sets.
pub open spec fn harness_flags(arm: ArmSpec) -> Seq<Seq<char>> {
    (if arm.verify {
        seq!["--verify"@]
    } else {
        seq![]
    }) + (if arm.learn {
        seq!["--learn"@]
    } else {
        seq![]
    })
}

/// Why an arm is refused at setup, if it is: its config is contaminated, or it
/// is a baseline whose run contradicts its config, or one that carries no
/// config at all.
pub open spec fn arm_refusal(arm: ArmSpec, isolation: Isolation) -> Option<Seq<char>> {
    if arm.config is Some {
        match isolation {
            Isolation::Refused(reason) => Some(reason@),
            Isolation::Clean(is_baseline) => if is_baseline && (arm.verify || arm.learn) {
                Some(
                    "baseline arm '"@ + arm.arm@
                        + "' declares the harness off but its run sets "@ + joined(
                        harness_flags(arm),
                        " and "@,
                    )
                        + " — the declared clean config contradicts the actual solver invocation (localpilot eval would receive that harness flag). Drop the flag or mark the arm non-baseline."@,
                )
            } else {
                None
            },
        }
    } else if lowered(arm.arm@) == "baseline"@ {
        Some(
            "baseline arm '"@ + arm.arm@
                + "' carries no `config` block, so its isolation cannot be checked. A baseline anchors every harness-vs-baseline delta and must declare its effective config — add `\"config\": { \"is_baseline\": true }` (plus any env/config_file/plugins/system_prompt/retrieval it really uses)."@,
        )
    } else {
        None
    }
}

/// Whether an arm may run.
pub fn check_arm(arm: &ArmSpec, isolation: &Isolation) -> (out: Result<(), String>)
    ensures
        match out {
            Ok(()) => arm_refusal(*arm, *isolation) is None,
            Err(m) => arm_refusal(*arm, *isolation) == Some(m@),
        },
{
    if arm.config.is_some() {
        match isolation {
            Isolation::Refused(reason) => Err(reason.clone()),
            Isolation::Clean(is_baseline) => {
                if *is_baseline && (arm.verify || arm.learn) {
                    let mut flags: Vec<String> = Vec::new();
                    if arm.verify {
                        flags.push("--verify".to_string());
                    }
                    if arm.learn {
                        flags.push("--learn".to_string());
                    }
                    assert(views(flags@) =~= harness_flags(*arm));
                    let mut m: String = "baseline arm '".to_string();
                    m.append(arm.arm.as_str());
                    m.append("' declares the harness off but its run sets ");
                    m.append(join(&flags, " and ").as_str());
                    m.append(
                        " — the declared clean config contradicts the actual solver invocation (localpilot eval would receive that harness flag). Drop the flag or mark the arm non-baseline.",
                    );
                    Err(m)
                } else {
                    Ok(())
                }
            },
        }
    } else {
        let name: Vec<char> = lower_chars(&chars_of(arm.arm.as_str()));
        let wanted: Vec<char> = chars_of("baseline");
        if crate::text::same_chars(&name, &wanted) {
            let mut m: String = "baseline arm '".to_string();
            m.append(arm.arm.as_str());
            m.append(
                "' carries no `config` block, so its isolation cannot be checked. A baseline anchors every harness-vs-baseline delta and must declare its effective config — add `\"config\": { \"is_baseline\": true }` (plus any env/config_file/plugins/system_prompt/retrieval it really uses).",
            );
            Err(m)
        } else {
            Ok(())
        }
    }
}

/// Why a task is refused at setup, if it is: its corpus path is, or nothing is
/// known of it.
pub open spec fn task_refusal(task: TaskSpec, check: Option<Option<String>>) -> Option<Seq<char>> {
    match check {
        Some(Some(m)) => Some(m@),
        Some(None) => None,
        None => Some("task '"@ + task.id@ + "': its corpus path was not checked"@),
    }
}

/// Why an arm is refused at setup, if it is, whatever is known of its
/// isolation: a config that nobody checked is refused, and so is a baseline
/// that carries none.
pub open spec fn known_arm_refusal(arm: ArmSpec, isolation: Option<Isolation>) -> Option<Seq<char>> {
    match isolation {
        Some(found) => arm_refusal(arm, found),
        None => if arm.config is Some {
            Some("arm '"@ + arm.arm@ + "': its isolation was not checked"@)
        } else {
            arm_refusal(arm, Isolation::Clean(false))
        },
    }
}

/// What a list of facts says of place `i`, if it reaches that far.
pub open spec fn fact_at<A>(facts: Seq<A>, i: int) -> Option<A> {
    if 0 <= i < facts.len() {
        Some(facts[i])
    } else {
        None
    }
}

/// The refusal of the first refused task from place `i` on.
pub open spec fn first_unfit(
    tasks: Seq<TaskSpec>,
    checks: Seq<Option<String>>,
    i: int,
) -> Option<Seq<char>>
    decreases tasks.len() - i,
{
    if i >= tasks.len() {
        None
    } else {
        match task_refusal(tasks[i], fact_at(checks, i)) {
            Some(m) => Some(m),
            None => first_unfit(tasks, checks, i + 1),
        }
    }
}

/// The refusal of the first refused arm from place `i` on.
pub open spec fn first_refusal(
    arms: Seq<ArmSpec>,
    isolation: Seq<Isolation>,
    i: int,
) -> Option<Seq<char>>
    decreases arms.len() - i,
{
    if i >= arms.len() {
        None
    } else {
        match known_arm_refusal(arms[i], fact_at(isolation, i)) {
            Some(m) => Some(m),
            None => first_refusal(arms, isolation, i + 1),
        }
    }
}

/// Why a run is refused before any solve, if it is: broken instruments, then
/// a task's corpus path, then an arm.
pub open spec fn setup_refusal(spec: RunSpec, facts: SetupFacts) -> Option<Seq<char>> {
    match facts.instruments {
        Some(m) => Some(m@),
        None => match first_unfit(spec.tasks@, facts.corpus_paths@, 0) {
            Some(m) => Some(m),
            None => first_refusal(spec.arms@, facts.isolation@, 0),
        },
    }
}

fn check_corpus_path(task: &TaskSpec, checks: &Vec<Option<String>>, i: usize) -> (out: Result<(), String>)
    ensures
        match out {
            Ok(()) => task_refusal(*task, fact_at(checks@, i as int)) is None,
            Err(m) => task_refusal(*task, fact_at(checks@, i as int)) == Some(m@),
        },
{
    if i < checks.len() {
        match &checks[i] {
            Some(m) => Err(m.clone()),
            None => Ok(()),
        }
    } else {
        let mut m: String = "task '".to_string();
        m.append(task.id.as_str());
        m.append("': its corpus path was not checked");
        Err(m)
    }
}

fn check_known_arm(arm: &ArmSpec, isolation: &Vec<Isolation>, i: usize) -> (out: Result<(), String>)
    ensures
        match out {
            Ok(()) => known_arm_refusal(*arm, fact_at(isolation@, i as int)) is None,
            Err(m) => known_arm_refusal(*arm, fact_at(isolation@, i as int)) == Some(m@),
        },
{
    if i < isolation.len() {
        check_arm(arm, &isolation[i])
    } else if arm.config.is_some() {
        let mut m: String = "arm '".to_string();
        m.append(arm.arm.as_str());
        m.append("': its isolation was not checked");
        Err(m)
    } else {
        check_arm(arm, &Isolation::Clean(false))
    }
}

/// Whether a run may start.
pub fn check_setup(spec: &RunSpec, facts: &SetupFacts) -> (out: Result<(), String>)
    ensures
        match out {
            Ok(()) => setup_refusal(*spec, *facts) is None,
            Err(m) => setup_refusal(*spec, *facts) == Some(m@),
        },
{
    match &facts.instruments {
        Some(m) => {
            return Err(m.clone());
        },
        None => {},
    }
    let mut i: usize = 0;
    while i < spec.tasks.len()
        invariant
            i <= spec.tasks.len(),
            facts.instruments is None,
            first_unfit(spec.tasks@, facts.corpus_paths@, 0) == first_unfit(
                spec.tasks@,
                facts.corpus_paths@,
                i as int,
            ),
        decreases spec.tasks.len() - i,
    {
        match check_corpus_path(&spec.tasks[i], &facts.corpus_paths, i) {
            Err(m) => {
                return Err(m);
            },
            Ok(()) => {},
        }
        i = i + 1;
    }
    let mut k: usize = 0;
    while k < spec.arms.len()
        invariant
            k <= spec.arms.len(),
            setup_refusal(*spec, *facts) == first_refusal(
                spec.arms@,
                facts.isolation@,
                k as int,
            ),
        decreases spec.arms.len() - k,
    {
        match check_known_arm(&spec.arms[k], &facts.isolation, k) {
            Err(m) => {
                return Err(m);
            },
            Ok(()) => {},
        }
        k = k + 1;
    }
    Ok(())
}

/// No baseline anchors a delta unguarded, whatever is known of the arms: in a
/// run that may start, an arm named baseline carries a config, every config
/// was checked and found clean, and an arm that its config declares a baseline
/// sets no harness flag.
pub proof fn law_a_started_run_has_clean_baselines(spec: RunSpec, facts: SetupFacts, i: int)
    requires
        setup_refusal(spec, facts) is None,
        0 <= i < spec.arms@.len(),
    ensures
        lowered(spec.arms@[i].arm@) == "baseline"@ ==> spec.arms@[i].config is Some,
        spec.arms@[i].config is Some ==> i < facts.isolation@.len() && facts.isolation@[i]
            !is Refused,
        spec.arms@[i].config is Some && facts.isolation@[i] == Isolation::Clean(true) ==> {
            &&& !spec.arms@[i].verify
            &&& !spec.arms@[i].learn
        },
{
    lemma_no_refusal(spec.arms@, facts.isolation@, 0, i);
}

proof fn lemma_no_refusal(arms: Seq<ArmSpec>, isolation: Seq<Isolation>, from: int, i: int)
    requires
        0 <= from <= i < arms.len(),
        first_refusal(arms, isolation, from) is None,
    ensures
        known_arm_refusal(arms[i], fact_at(isolation, i)) is None,
    decreases arms.len() - from,
{
    if from < i {
        lemma_no_refusal(arms, isolation, from + 1, i);
    }
}

/// Every task of a run that may start has had its corpus path checked and
/// accepted.
pub proof fn law_a_started_run_has_checked_paths(spec: RunSpec, facts: SetupFacts, i: int)
    requires
        setup_refusal(spec, facts) is None,
        0 <= i < spec.tasks@.len(),
    ensures
        i < facts.corpus_paths@.len(),
        facts.corpus_paths@[i] is None,
{
    lemma_no_unfit(spec.tasks@, facts.corpus_paths@, 0, i);
}

proof fn lemma_no_unfit(tasks: Seq<TaskSpec>, checks: Seq<Option<String>>, from: int, i: int)
    requires
        0 <= from <= i < tasks.len(),
        first_unfit(tasks, checks, from) is None,
    ensures
        task_refusal(tasks[i], fact_at(checks, i)) is None,
    decreases tasks.len() - from,
{
    if from < i {
        lemma_no_unfit(tasks, checks, from + 1, i);
    }
}

// ---------------------------------------------------------------------------
// Verdicts
// ---------------------------------------------------------------------------
/// One graded verdict.
#[derive(Clone, Debug, PartialEq, Eq)]
pub struct GradeVerdict {
    /// The benchmark's own pass/fail; `None` when grading was skipped.
    pub passed: Option<bool>,
    /// Whether the grade hit its wall-clock bound (a caveat, never a result).
    pub timed_out: bool,
    /// Set when the grade could not actually assess the solve because the
    /// grade environment failed. Such a cell is an infrastructure gap, never
    /// the solver's fault. Carries the caveat reason.
    pub infra_gap: Option<String>,
    /// A secondary failure while compensating for the exact container after a
    /// timeout. The primary timeout/grade outcome remains authoritative.
    pub cleanup_diagnostic: Option<String>,
    pub note: String,
}

impl GradeVerdict {
    /// The verdict when nothing was graded: the solver's own result stands.
    pub fn skipped() -> (out: Self)
        ensures
            out.passed is None,
            !out.timed_out,
            out.infra_gap is None,
            out.cleanup_diagnostic is None,
            out.note@ == Seq::<char>::empty(),
    {
        GradeVerdict {
            passed: None,
            timed_out: false,
            infra_gap: None,
            cleanup_diagnostic: None,
            note: String::new(),
        }
    }
}

/// Grades one task after a solve.
pub trait Grader {
    /// Grade a task; a timeout is reported, not scored. A message means that
    /// the grading infrastructure is unusable; the matrix then yields with its
    /// ledger intact.
    fn grade(&mut self, task: &TaskSpec) -> Result<GradeVerdict, String>;
}

/// Leaves every solve as the solver reported it.
pub struct NoGrader;

impl Grader for NoGrader {
    fn grade(&mut self, _task: &TaskSpec) -> (out: Result<GradeVerdict, String>)
        ensures
            out matches Ok(v) && v.passed is None && !v.timed_out && v.infra_gap is None
                && v.cleanup_diagnostic is None && v.note@ == Seq::<char>::empty(),
    {
        Ok(GradeVerdict::skipped())
    }
}

/// What a verdict makes of the solver's own claim: a gap and a timeout floor
/// the cell unsolved, the benchmark's verdict decides, and a skipped grade
/// leaves the claim.
pub open spec fn verdict_claim(verdict: GradeVerdict, claim: bool) -> bool {
    if verdict.infra_gap is Some || verdict.timed_out {
        false
    } else {
        match verdict.passed {
            Some(p) => p,
            None => claim,
        }
    }
}

/// Whether a verdict says anything of the result.
pub open spec fn verdict_decides(verdict: GradeVerdict) -> bool {
    verdict.infra_gap is Some || verdict.timed_out || verdict.passed is Some
}

/// A verdict never turns a gap or a timeout into a solve, and never overrules
/// the benchmark.
pub proof fn law_a_verdict_is_a_floor(verdict: GradeVerdict, claim: bool)
    ensures
        verdict_claim(verdict, claim) ==> verdict.infra_gap is None && !verdict.timed_out,
        verdict_claim(verdict, claim) ==> verdict.passed == Some(true) || (verdict.passed is None
            && claim),
{
}

// ---------------------------------------------------------------------------
// Commands
// ---------------------------------------------------------------------------
/// `: ` and the trimmed output, or nothing where it is blank.
pub open spec fn suffix_text(output: Seq<char>) -> Seq<char> {
    if trimmed(output).len() == 0 {
        seq![]
    } else {
        ": "@ + trimmed(output)
    }
}

/// The output part of a failure message.
pub fn output_suffix(output: &str) -> (out: String)
    ensures
        out@ == suffix_text(output@),
{
    if is_blank(output) {
        String::new()
    } else {
        let mut out: String = ": ".to_string();
        out.append(trim(output).as_str());
        out
    }
}

/// A command's program and its arguments.
pub fn split_command(command: &Vec<String>) -> (out: Result<(String, Vec<String>), String>)
    ensures
        match out {
            Ok((program, args)) => command@.len() > 0 && program@ == command@[0]@ && args@
                == command@.skip(1),
            Err(m) => command@.len() == 0 && m@ == "empty grade command"@,
        },
{
    if command.len() == 0 {
        return Err("empty grade command".to_string());
    }
    let mut args: Vec<String> = copy_strings(command);
    let program: String = args.remove(0);
    assert(args@ =~= command@.skip(1));
    Ok((program, args))
}

/// A finished command as the grader reads it: whether it exited zero, its
/// combined output with any cleanup problem, and whether it timed out.
pub fn os_exec(run: &BoundedRun) -> (out: (bool, String, bool))
    ensures
        out.0 == run.exit_ok,
        out.1@ == run.stdout@ + run.stderr@ + (match run.cleanup_diagnostic {
            Some(d) => "\nprocess cleanup: "@ + d@,
            None => seq![],
        }),
        out.2 == run.timed_out,
{
    let mut output: String = run.stdout.clone();
    output.append(run.stderr.as_str());
    let ghost before = output@;
    match &run.cleanup_diagnostic {
        Some(d) => {
            output.append("\nprocess cleanup: ");
            output.append(d.as_str());
            assert(output@ =~= before + ("\nprocess cleanup: "@ + d@));
        },
        None => {
            assert(output@ =~= before + seq![]);
        },
    }
    (run.exit_ok, output, run.timed_out)
}

// ---------------------------------------------------------------------------
// Scorecards
// ---------------------------------------------------------------------------
/// A scorecard with its graded verdict set: `results.passed`, where it has
/// results. Nothing where its results are neither an object nor null.
pub open spec fn patched(card: JsonV, passed: bool) -> Option<JsonV> {
    match (card, member(card, "results"@)) {
        (JsonV::Object(members), Some(JsonV::Object(results))) => Some(
            JsonV::Object(
                set_member(
                    members,
                    "results"@,
                    JsonV::Object(set_member(results, "passed"@, JsonV::Bool(passed))),
                ),
            ),
        ),
        (JsonV::Object(members), Some(JsonV::Null)) => Some(
            JsonV::Object(
                set_member(
                    members,
                    "results"@,
                    JsonV::Object(set_member(seq![], "passed"@, JsonV::Bool(passed))),
                ),
            ),
        ),
        (_, Some(_)) => None,
        (_, None) => Some(card),
    }
}

/// A patched scorecard carries exactly the graded verdict, and every other
/// part of it is as it was.
pub proof fn law_a_patched_card_carries_the_verdict(card: JsonV, passed: bool, other: Seq<char>)
    requires
        patched(card, passed) is Some,
        member(card, "results"@) is Some,
    ensures
        card_verdict(patched(card, passed).unwrap()) == Some(passed),
        other != "results"@ ==> member(patched(card, passed).unwrap(), other) == member(
            card,
            other,
        ),
{
    let members = card->Object_0;
    let old_results = match member(card, "results"@) {
        Some(JsonV::Object(results)) => results,
        _ => seq![],
    };
    let results = set_member(old_results, "passed"@, JsonV::Bool(passed));
    law_member_after_set(members, "results"@, JsonV::Object(results), "results"@);
    law_member_after_set(members, "results"@, JsonV::Object(results), other);
    law_member_after_set(old_results, "passed"@, JsonV::Bool(passed), "passed"@);
}

/// A patched scorecard is in order where the scorecard was.
proof fn lemma_patched_is_orderly(card: JsonV, passed: bool, floats: bool)
    requires
        orderly(card, MAX_NESTING as int, floats),
        patched(card, passed) is Some,
    ensures
        orderly(patched(card, passed)->Some_0, MAX_NESTING as int, floats),
{
    if member(card, "results"@) is Some {
        let members = card->Object_0;
        lemma_member_is_orderly(members, "results"@, MAX_NESTING as int, floats);
        let old_results = match member(card, "results"@) {
            Some(JsonV::Object(results)) => results,
            _ => seq![],
        };
        law_setting_a_member_keeps_order(
            old_results,
            "passed"@,
            JsonV::Bool(passed),
            MAX_NESTING - 1,
            floats,
        );
        law_setting_a_member_keeps_order(
            members,
            "results"@,
            JsonV::Object(set_member(old_results, "passed"@, JsonV::Bool(passed))),
            MAX_NESTING as int,
            floats,
        );
    }
}

fn patch_card(card: Json, passed: bool) -> (out: Option<Json>)
    ensures
        maybe(out) == patched(card@, passed),
{
    match card {
        Json::Object(members) => {
            let whole: Json = Json::Object(members);
            let mut results: Vec<Member> = Vec::new();
            match whole.get("results") {
                None => {
                    return Some(whole);
                },
                Some(found) => {
                    match found.copy() {
                        Json::Object(m) => {
                            results = m;
                        },
                        Json::Null => {},
                        _ => {
                            return None;
                        },
                    }
                },
            }
            assert(results@.len() == 0 ==> Json::Object(results)@->Object_0 =~= seq![]);
            put_member(&mut results, "passed", Json::Bool(passed));
            let mut members: Vec<Member> = match whole {
                Json::Object(m) => m,
                _ => Vec::new(),
            };
            put_member(&mut members, "results", Json::Object(results));
            Some(Json::Object(members))
        },
        _ => Some(card),
    }
}

/// The text of a scorecard with its graded verdict set. A text that is no
/// JSON stays as it is. Nothing where the results cannot carry a verdict.
pub open spec fn patched_text(raw: Seq<char>, passed: bool) -> Option<Seq<char>> {
    match json_of(raw) {
        None => Some(raw),
        Some(card) => match patched(card, passed) {
            Some(done) => Some(json_text_of(done)),
            None => None,
        },
    }
}

/// Whether a scorecard's text, where it reads, has results that can carry a
/// verdict.
pub open spec fn carries_results(text: Seq<char>) -> bool {
    match json_of(text) {
        Some(card) => match member(card, "results"@) {
            Some(JsonV::Object(_)) => true,
            Some(JsonV::Null) => true,
            _ => false,
        },
        None => true,
    }
}

/// Set a raw scorecard's graded verdict, so the persisted cell rescores to the
/// same report the live run printed. A card whose numbers are integers, or
/// zeros written `0.0`, still reads.
pub fn patch_scorecard_verdict(raw: &str, passed: bool) -> (out: Option<String>)
    ensures
        match out {
            Some(text) => patched_text(raw@, passed) == Some(text@),
            None => patched_text(raw@, passed) is None,
        },
        out matches Some(text) ==> carries_results(raw@) ==> rescores(text@, passed),
        out matches Some(text) ==> json_of(raw@) matches Some(card) ==> orderly(
            card,
            MAX_NESTING as int,
            false,
        ) ==> json_of(text@) is Some,
{
    match parse_json(raw) {
        None => Some(raw.to_string()),
        Some(card) => {
            let ghost before = card@;
            match patch_card(card, passed) {
                Some(done) => {
                    let text: String = json_text(&done);
                    proof {
                        lemma_patched_is_orderly(before, passed, true);
                        if orderly(before, MAX_NESTING as int, false) {
                            lemma_patched_is_orderly(before, passed, false);
                        }
                        if member(before, "results"@) is Some {
                            law_a_patched_card_carries_the_verdict(before, passed, seq![]);
                            if json_of(text@) is Some {
                                law_alike_cards_carry_one_verdict(done@, json_of(text@)->Some_0);
                            }
                        }
                    }
                    Some(text)
                },
                None => None,
            }
        },
    }
}

/// The scorecard of a failed or hung cell: every metric zero, nothing passed,
/// and why.
pub open spec fn unsolved_card(task: Seq<char>, arm: Seq<char>, model: Seq<char>, reason: Seq<char>) -> JsonV {
    process_card(task, arm, model, 0, "cell-failed: "@ + reason, 0, 0)
}

/// The scorecard text of a failed or hung cell, so it is on disk for a rescore
/// exactly as the live report counts it.
pub fn synthetic_unsolved_scorecard(task: &TaskSpec, arm: &str, model: &str, reason: &str) -> (out:
    String)
    ensures
        out@ == json_text_of(unsolved_card(task.id@, arm@, model@, reason@)),
        json_of(out@) is Some,
        rescores(out@, false),
        zero_point() is Float,
{
    let why: String = crate::text::cat("cell-failed: ", reason);
    scorecard_text(task.id.as_str(), arm, model, 0, why.as_str(), 0, 0)
}

/// A failed cell's card counts unsolved.
pub proof fn law_an_unsolved_card_is_unsolved(
    task: Seq<char>,
    arm: Seq<char>,
    model: Seq<char>,
    reason: Seq<char>,
)
    ensures
        card_verdict(unsolved_card(task, arm, model, reason)) == Some(false),
{
    law_a_process_card_is_unsolved(task, arm, model, 0, "cell-failed: "@ + reason, 0, 0);
}

// ---------------------------------------------------------------------------
// The rendered report
// ---------------------------------------------------------------------------
/// One arm's row of the comparative report, its rates already in text.
#[derive(Clone, Debug, PartialEq, Eq)]
pub struct ReportRow {
    pub arm: String,
    pub model: String,
    pub solved: u64,
    pub tasks: u64,
    pub solve_percent: String,
    pub avg_tool_calls: String,
    pub avg_redundant: String,
    pub avg_interventions: String,
    pub judge: Option<String>,
    pub isolation: Option<String>,
}

/// The comparative report.
#[derive(Clone, Debug, PartialEq, Eq)]
pub struct CapabilityReport {
    pub corpus: String,
    pub contamination_suspect: bool,
    pub arms: Vec<ReportRow>,
}

/// A text, or `n/a` where there is none.
pub open spec fn or_na(text: Option<String>) -> Seq<char> {
    match text {
        Some(t) => t@,
        None => "n/a"@,
    }
}

fn text_or_na(text: &Option<String>) -> (out: String)
    ensures
        out@ == or_na(*text),
{
    match text {
        Some(t) => t.clone(),
        None => "n/a".to_string(),
    }
}

/// One row of the report's table.
pub open spec fn row_line(row: ReportRow) -> Seq<char> {
    "| "@ + row.arm@ + " | "@ + row.model@ + " | "@ + dec(row.solved as nat) + "/"@ + dec(
        row.tasks as nat,
    ) + " | "@ + row.solve_percent@ + "% | "@ + row.avg_tool_calls@ + " | "@ + row.avg_redundant@
        + " | "@ + row.avg_interventions@ + " | "@ + or_na(row.judge) + " | "@ + or_na(
        row.isolation,
    ) + " |"@
}

fn row_text(row: &ReportRow) -> (out: String)
    ensures
        out@ == row_line(*row),
{
    let mut l: String = "| ".to_string();
    l.append(row.arm.as_str());
    l.append(" | ");
    l.append(row.model.as_str());
    l.append(" | ");
    l.append(dec_u64(row.solved).as_str());
    l.append("/");
    l.append(dec_u64(row.tasks).as_str());
    l.append(" | ");
    l.append(row.solve_percent.as_str());
    l.append("% | ");
    l.append(row.avg_tool_calls.as_str());
    l.append(" | ");
    l.append(row.avg_redundant.as_str());
    l.append(" | ");
    l.append(row.avg_interventions.as_str());
    l.append(" | ");
    l.append(text_or_na(&row.judge).as_str());
    l.append(" | ");
    l.append(text_or_na(&row.isolation).as_str());
    l.append(" |");
    l
}

/// The lines of the report: a heading, the contamination caveat of a public
/// corpus, and the table.
pub open spec fn report_lines(report: CapabilityReport) -> Seq<Seq<char>> {
    let heading = "# Harness capability — comparative ("@ + dec(report.arms@.len())
        + " arm(s), corpus: "@ + report.corpus@ + ")"@;
    let caveat = if report.contamination_suspect {
        seq![
            "> Contamination caveat: this is a public benchmark; treat absolute"@,
            "> numbers as suspect and read them as deltas between harness arms."@,
            seq![],
        ]
    } else {
        seq![]
    };
    seq![heading, seq![]] + caveat + seq![
        "| arm | model | solved | solve rate | avg tool calls | avg redundant | avg interventions | judge | isolation |"@,
        "|---|---|---|---|---|---|---|---|---|"@,
    ] + report.arms@.map_values(|row: ReportRow| row_line(row))
}

/// Render a comparative capability report as Markdown, with the contamination
/// caveat printed for public corpora so absolute numbers read as deltas.
pub fn render_capability_report(report: &CapabilityReport) -> (out: String)
    ensures
        out@ == joined(report_lines(*report), "\n"@),
{
    let mut heading: String = "# Harness capability — comparative (".to_string();
    heading.append(dec_u64(report.arms.len() as u64).as_str());
    heading.append(" arm(s), corpus: ");
    heading.append(report.corpus.as_str());
    heading.append(")");
    let mut lines: Vec<String> = Vec::new();
    lines.push(heading);
    lines.push(String::new());
    if report.contamination_suspect {
        lines.push(
            "> Contamination caveat: this is a public benchmark; treat absolute".to_string(),
        );
        lines.push(
            "> numbers as suspect and read them as deltas between harness arms.".to_string(),
        );
        lines.push(String::new());
    }
    lines.push(
        "| arm | model | solved | solve rate | avg tool calls | avg redundant | avg interventions | judge | isolation |".to_string(),
    );
    lines.push("|---|---|---|---|---|---|---|---|---|".to_string());
    let ghost top = views(lines@);
    let ghost rows = report.arms@.map_values(|row: ReportRow| row_line(row));
    let mut i: usize = 0;
    assert(top + rows.take(0) =~= top);
    while i < report.arms.len()
        invariant
            i <= report.arms.len(),
            rows == report.arms@.map_values(|row: ReportRow| row_line(row)),
            views(lines@) == top + rows.take(i as int),
        decreases report.arms.len() - i,
    {
        let line: String = row_text(&report.arms[i]);
        let ghost was = views(lines@);
        lines.push(line);
        proof {
            assert(views(lines@) =~= was.push(line@));
            assert(rows.take(i + 1) =~= rows.take(i as int).push(line@));
            assert(was.push(line@) =~= top + rows.take(i + 1));
        }
        i = i + 1;
    }
    assert(rows.take(i as int) =~= rows);
    assert(views(lines@) =~= report_lines(*report));
    join(&lines, "\n")
}

} // verus!
