//! The lesson-uplift A/B: validate a headroom task set, take each arm through
//! its trials, hold the result to the injection contract, and render the
//! report.
//!
//! The run decides; its driver grades, takes turns, audits the injection and
//! computes the statistics.
use vstd::prelude::*;
use vstd::string::StringExecFns;

use crate::diagnostics::list_node;
#[allow(unused_imports)]
use crate::diagnostics::text_nodes;
use crate::json::{child, no_members, object, parse_json, push_member, text_node, Json, Member};
#[allow(unused_imports)]
use crate::json::{as_text, at, items_of, json_of, members_view, trees, JsonV};
use crate::solver::BoundedRun;
use crate::text::{dec_u64, is_blank, join, same, split_lines, trim};
#[allow(unused_imports)]
use crate::text::{dec, joined, lines, trimmed, views};

verus! {

// ---------------------------------------------------------------------------
// Task sets
// ---------------------------------------------------------------------------
/// A deterministic expectation of an answer.
#[derive(Clone, Debug, PartialEq, Eq)]
pub struct Expect {
    pub mode: String,
    pub value: String,
}

/// One headroom task: a prompt the base model fails unguided, graded
/// deterministically.
#[derive(Clone, Debug, PartialEq, Eq)]
pub struct UpliftTask {
    pub id: String,
    pub prompt: String,
    pub expect: Expect,
    pub case_sensitive: bool,
    /// The lessons that hold the answer.
    pub lesson_ids: Vec<String>,
}

/// One seed lesson in the task set.
#[derive(Debug, PartialEq, Eq)]
pub struct SeedLesson {
    pub id: String,
    pub body: String,
    pub category: String,
    /// The node of a number.
    pub confidence: Json,
    pub tags: Vec<String>,
}

/// The category of a lesson that names none.
pub fn default_category() -> (out: String)
    ensures
        out@ == "ProjectConvention"@,
{
    "ProjectConvention".to_string()
}

/// A headroom task-set file.
#[derive(Debug, PartialEq, Eq)]
pub struct TaskSet {
    pub schema: u32,
    pub name: String,
    pub tasks: Vec<UpliftTask>,
    /// The seed pack the lesson arm seeds before its trials.
    pub lessons: Vec<SeedLesson>,
}

/// A task without an id or without a prompt.
pub open spec fn is_unusable(task: UpliftTask) -> bool {
    trimmed(task.id@).len() == 0 || trimmed(task.prompt@).len() == 0
}

/// What is wrong with a task set, if anything is.
pub open spec fn set_defect(set: TaskSet) -> Option<Seq<char>> {
    if set.schema != 1 {
        Some("unsupported task-set schema "@ + dec(set.schema as nat) + " (expected 1)"@)
    } else if set.tasks@.len() == 0 {
        Some("task set '"@ + set.name@ + "' has no tasks"@)
    } else if exists|i: int| 0 <= i < set.tasks@.len() && is_unusable(#[trigger] set.tasks@[i]) {
        Some("task set '"@ + set.name@ + "' has a task without an id or prompt"@)
    } else {
        None
    }
}

/// Validate a task set, failing loud on anything unusable.
pub fn load_task_set(set: TaskSet) -> (out: Result<TaskSet, String>)
    ensures
        match out {
            Ok(valid) => valid == set && set_defect(set) is None,
            Err(m) => set_defect(set) == Some(m@),
        },
{
    if set.schema != 1 {
        let mut m: String = "unsupported task-set schema ".to_string();
        m.append(dec_u64(set.schema as u64).as_str());
        m.append(" (expected 1)");
        return Err(m);
    }
    let mut m: String = "task set '".to_string();
    m.append(set.name.as_str());
    if set.tasks.len() == 0 {
        m.append("' has no tasks");
        return Err(m);
    }
    let mut i: usize = 0;
    while i < set.tasks.len()
        invariant
            i <= set.tasks.len(),
            set.schema == 1,
            set.tasks@.len() > 0,
            m@ == "task set '"@ + set.name@,
            forall|k: int| 0 <= k < i ==> !is_unusable(#[trigger] set.tasks@[k]),
        decreases set.tasks.len() - i,
    {
        if is_blank(set.tasks[i].id.as_str()) || is_blank(set.tasks[i].prompt.as_str()) {
            assert(is_unusable(set.tasks@[i as int]));
            m.append("' has a task without an id or prompt");
            return Err(m);
        }
        i = i + 1;
    }
    Ok(set)
}

/// A lesson as the lesson arm seeds it. Its id stays out.
pub open spec fn seed_node(lesson: SeedLesson) -> JsonV {
    JsonV::Object(
        seq![
            ("body"@, JsonV::Text(lesson.body@)),
            ("category"@, JsonV::Text(lesson.category@)),
            ("confidence"@, lesson.confidence@),
            ("tags"@, JsonV::List(text_nodes(views(lesson.tags@)))),
        ],
    )
}

/// The seed pack of some lessons.
pub open spec fn seed_document(lessons: Seq<SeedLesson>) -> JsonV {
    JsonV::Object(
        seq![("lessons"@, JsonV::List(lessons.map_values(|l: SeedLesson| seed_node(l))))],
    )
}

fn lesson_node(lesson: &SeedLesson) -> (out: Json)
    ensures
        out@ == seed_node(*lesson),
{
    let mut members: Vec<Member> = no_members();
    push_member(&mut members, "body", text_node(lesson.body.as_str()));
    push_member(&mut members, "category", text_node(lesson.category.as_str()));
    push_member(&mut members, "confidence", lesson.confidence.copy());
    push_member(&mut members, "tags", list_node(&lesson.tags));
    assert(members_view(members@) =~= seed_node(*lesson)->Object_0);
    object(members)
}

/// Project a task set's lessons into the seed-pack shape the lesson arm seeds
/// (`{ lessons: [{ body, category, confidence, tags }] }`).
pub fn seed_pack(set: &TaskSet) -> (out: Json)
    ensures
        out@ == seed_document(set.lessons@),
{
    let mut items: Vec<Json> = Vec::new();
    let mut i: usize = 0;
    while i < set.lessons.len()
        invariant
            i <= set.lessons.len(),
            items@.len() == i,
            forall|k: int| 0 <= k < i ==> (#[trigger] items@[k])@ == seed_node(set.lessons@[k]),
        decreases set.lessons.len() - i,
    {
        items.push(lesson_node(&set.lessons[i]));
        i = i + 1;
    }
    let list: Json = Json::List(items);
    assert(list@->List_0 =~= set.lessons@.map_values(|l: SeedLesson| seed_node(l)));
    let mut members: Vec<Member> = no_members();
    push_member(&mut members, "lessons", list);
    assert(members_view(members@) =~= seed_document(set.lessons@)->Object_0);
    object(members)
}

// ---------------------------------------------------------------------------
// The session log
// ---------------------------------------------------------------------------
/// The ids that the first `n` items name.
pub open spec fn named_ids(items: Seq<JsonV>, n: int) -> Seq<Seq<char>>
    decreases n,
{
    if n <= 0 {
        seq![]
    } else {
        match as_text(at(items[n - 1], "id"@)) {
            Some(id) => named_ids(items, n - 1).push(id),
            None => named_ids(items, n - 1),
        }
    }
}

/// The ids of a memories-used event, if the line is one.
pub open spec fn memories_event(line: Seq<char>) -> Option<Seq<Seq<char>>> {
    match json_of(line) {
        Some(entry) => {
            let kind = at(entry, "kind"@);
            let items = items_of(at(kind, "memories"@));
            if as_text(at(kind, "type"@)) == Some("memories_used"@) {
                Some(named_ids(items, items.len() as int))
            } else {
                None
            }
        },
        None => None,
    }
}

/// The last memories-used event of the first `n` lines.
pub open spec fn last_audit(log: Seq<Seq<char>>, n: int) -> Seq<Seq<char>>
    decreases n,
{
    if n <= 0 {
        seq![]
    } else {
        match memories_event(log[n - 1]) {
            Some(ids) => ids,
            None => last_audit(log, n - 1),
        }
    }
}

fn read_ids(items: &Vec<Json>) -> (out: Vec<String>)
    ensures
        views(out@) == named_ids(trees(items@), items@.len() as int),
{
    let ghost all = trees(items@);
    let mut out: Vec<String> = Vec::new();
    let mut i: usize = 0;
    assert(views(out@) =~= seq![]);
    while i < items.len()
        invariant
            i <= items.len(),
            all == trees(items@),
            views(out@) == named_ids(all, i as int),
        decreases items.len() - i,
    {
        assert(all[i as int] == items@[i as int]@);
        match child(&items[i], "id").text() {
            Some(id) => {
                let ghost was = views(out@);
                out.push(id.clone());
                assert(views(out@) =~= was.push(id@));
            },
            None => {},
        }
        i = i + 1;
    }
    out
}

fn read_event(line: &str) -> (out: Option<Vec<String>>)
    ensures
        match out {
            Some(ids) => memories_event(line@) == Some(views(ids@)),
            None => memories_event(line@) is None,
        },
{
    match parse_json(line) {
        Some(entry) => {
            let kind: Json = child(&entry, "kind");
            let used: bool = match child(&kind, "type").text() {
                Some(t) => same(t.as_str(), "memories_used"),
                None => false,
            };
            if !used {
                return None;
            }
            let items: Vec<Json> = child(&kind, "memories").items();
            assert(trees(items@).len() == items@.len());
            Some(read_ids(&items))
        },
        None => None,
    }
}

/// Parse the last turn's memories-used audit from a session event log (one
/// event per line): the ids of the memories. Lines that are no events are
/// skipped.
pub fn memories_from_session_log(log_text: &str) -> (out: Vec<String>)
    ensures
        views(out@) == last_audit(lines(log_text@), lines(log_text@).len() as int),
{
    let log: Vec<String> = split_lines(log_text);
    let ghost all = lines(log_text@);
    let mut i: usize = log.len();
    assert(all.len() == log@.len());
    while i > 0
        invariant
            i <= log.len(),
            all == views(log@),
            all == lines(log_text@),
            last_audit(all, all.len() as int) == last_audit(all, i as int),
        decreases i,
    {
        assert(all[i - 1] == log@[i - 1]@);
        match read_event(log[i - 1].as_str()) {
            Some(ids) => {
                return ids;
            },
            None => {},
        }
        i = i - 1;
    }
    let none: Vec<String> = Vec::new();
    assert(views(none@) =~= seq![]);
    none
}

/// A file among a workspace's sessions.
#[derive(Clone, Copy, Debug, PartialEq, Eq)]
pub struct SessionFile {
    /// It is an event log.
    pub is_log: bool,
    /// When it was last written, where that is known.
    pub modified: Option<u128>,
}

/// Whether a file can be the newest log.
pub open spec fn is_dated_log(file: SessionFile) -> bool {
    file.is_log && file.modified is Some
}

/// The newest session event log: of those written last, the last one listed.
pub fn latest_session_log(files: &Vec<SessionFile>) -> (out: Option<usize>)
    ensures
        match out {
            Some(i) => i < files@.len() && is_dated_log(files@[i as int]) && forall|k: int|
                0 <= k < files@.len() && is_dated_log(#[trigger] files@[k])
                    ==> files@[k].modified->Some_0 < files@[i as int].modified->Some_0 || (
                files@[k].modified->Some_0 == files@[i as int].modified->Some_0 && k <= i),
            None => forall|k: int|
                0 <= k < files@.len() ==> !is_dated_log(#[trigger] files@[k]),
        },
{
    let mut best: Option<usize> = None;
    let mut i: usize = 0;
    while i < files.len()
        invariant
            i <= files.len(),
            match best {
                Some(b) => b < i && is_dated_log(files@[b as int]) && forall|k: int|
                    0 <= k < i && is_dated_log(#[trigger] files@[k])
                        ==> files@[k].modified->Some_0 < files@[b as int].modified->Some_0 || (
                    files@[k].modified->Some_0 == files@[b as int].modified->Some_0 && k <= b),
                None => forall|k: int| 0 <= k < i ==> !is_dated_log(#[trigger] files@[k]),
            },
        decreases files.len() - i,
    {
        if files[i].is_log {
            match (files[i].modified, best) {
                (Some(_), None) => {
                    best = Some(i);
                },
                (Some(m), Some(b)) => {
                    let newest: u128 = match files[b].modified {
                        Some(n) => n,
                        None => 0,
                    };
                    if m >= newest {
                        best = Some(i);
                    }
                },
                _ => {},
            }
        }
        i = i + 1;
    }
    best
}

// ---------------------------------------------------------------------------
// Turns
// ---------------------------------------------------------------------------
/// One trial's turn: the model's answer plus the recorded injection audit.
#[derive(Clone, Debug, PartialEq, Eq)]
pub struct Turn {
    pub answer: String,
    pub memories_used: Vec<String>,
}

/// Produces one turn per (task, trial).
pub trait UpliftDriver {
    /// Run one trial of a task. A failure stops the run: an uplift number from
    /// a partially-run arm would be meaningless.
    fn turn(&mut self, task: &UpliftTask, trial: u32) -> Result<Turn, String>;
}

/// The live driver's settings: `localpilot print "<prompt>" --model <m>`.
#[derive(Clone, Debug, PartialEq, Eq)]
pub struct PrintDriver {
    pub bin: String,
    pub model: String,
    pub timeout_secs: u64,
}

impl PrintDriver {
    /// The arguments of one turn.
    pub fn turn_args(&self, task: &UpliftTask) -> (out: Vec<String>)
        ensures
            views(out@) == seq!["print"@, task.prompt@, "--model"@, self.model@],
    {
        let mut args: Vec<String> = Vec::new();
        args.push("print".to_string());
        args.push(task.prompt.clone());
        args.push("--model".to_string());
        args.push(self.model.clone());
        assert(views(args@) =~= seq!["print"@, task.prompt@, "--model"@, self.model@]);
        args
    }

    /// The turn of a finished run, given the newest session log's text if
    /// there is one.
    pub fn read_turn(&self, task: &UpliftTask, run: &BoundedRun, log: Option<&str>) -> (out: Result<
        Turn,
        String,
    >)
        ensures
            match out {
                Ok(turn) => !run.timed_out && run.exit_ok && turn.answer@ == run.stdout@ && views(
                    turn.memories_used@,
                ) == match log {
                    Some(text) => last_audit(lines(text@), lines(text@).len() as int),
                    None => seq![],
                },
                Err(m) => if run.timed_out {
                    m@ == "'"@ + self.bin@ + " print' timed out after "@ + dec(
                        self.timeout_secs as nat,
                    ) + "s (task '"@ + task.id@ + "')"@
                } else {
                    !run.exit_ok && m@ == "'"@ + self.bin@ + " print' failed (task '"@ + task.id@
                        + "'): "@ + trimmed(run.stderr@)
                },
            },
    {
        let mut m: String = "'".to_string();
        m.append(self.bin.as_str());
        if run.timed_out {
            m.append(" print' timed out after ");
            m.append(dec_u64(self.timeout_secs).as_str());
            m.append("s (task '");
            m.append(task.id.as_str());
            m.append("')");
            return Err(m);
        }
        if !run.exit_ok {
            m.append(" print' failed (task '");
            m.append(task.id.as_str());
            m.append("'): ");
            m.append(trim(run.stderr.as_str()).as_str());
            return Err(m);
        }
        let memories_used: Vec<String> = match log {
            Some(text) => memories_from_session_log(text),
            None => Vec::new(),
        };
        assert(log is None ==> views(memories_used@) =~= seq![]);
        Ok(Turn { answer: run.stdout.clone(), memories_used })
    }
}

/// The grader's own references: the expectation, an answer that meets it and
/// one that does not.
pub fn selftest_references() -> (out: (Expect, String, String))
    ensures
        out.0.mode@ == "substring"@,
        out.0.value@ == "foo db sync"@,
        out.1@ == "Run `foo db sync` to migrate."@,
        out.2@ == "Run `foo migrate` to migrate."@,
{
    (
        Expect { mode: "substring".to_string(), value: "foo db sync".to_string() },
        "Run `foo db sync` to migrate.".to_string(),
        "Run `foo migrate` to migrate.".to_string(),
    )
}

/// Why a grader is refused, given what it says of the two references.
pub open spec fn selftest_refusal(right_matches: bool, wrong_matches: bool) -> Option<Seq<char>> {
    if !right_matches {
        Some(
            "uplift grader self-test failed: a known-correct answer did not match. Refusing to run."@,
        )
    } else if wrong_matches {
        Some(
            "uplift grader self-test failed: a known-wrong answer matched. Refusing to run."@,
        )
    } else {
        None
    }
}

/// Prove the deterministic grader still catches a known pass and fail pair
/// before a run spends a model on it, given what it says of the two.
pub fn assert_grader_selftest(right_matches: bool, wrong_matches: bool) -> (out: Result<(), String>)
    ensures
        match out {
            Ok(_) => selftest_refusal(right_matches, wrong_matches) is None,
            Err(m) => selftest_refusal(right_matches, wrong_matches) == Some(m@),
        },
{
    if !right_matches {
        return Err(
            "uplift grader self-test failed: a known-correct answer did not match. Refusing to run.".to_string(),
        );
    }
    if wrong_matches {
        return Err(
            "uplift grader self-test failed: a known-wrong answer matched. Refusing to run.".to_string(),
        );
    }
    Ok(())
}

// ---------------------------------------------------------------------------
// The report
// ---------------------------------------------------------------------------
/// What the A/B shows.
#[derive(Clone, Copy, Debug, PartialEq, Eq, Structural)]
pub enum Verdict {
    Uplift,
    Regression,
    NoEffect,
}

/// One arm's statistics, worded: the mean success rate in percent, its
/// standard deviation, and each trial's rate in percent.
#[derive(Clone, Debug, PartialEq, Eq)]
pub struct Aggregate {
    pub mean_percent: String,
    pub stddev: String,
    pub per_trial_percent: Vec<String>,
}

/// How many of the intended lessons an arm injected.
#[derive(Clone, Copy, Debug, PartialEq, Eq)]
pub struct InjectionSummary {
    pub injected: usize,
    pub intended: usize,
}

/// The difference between the arms, worded: the delta and the noise band in
/// percent, and the effect size where there is one.
#[derive(Clone, Debug, PartialEq, Eq)]
pub struct Significance {
    pub delta_percent: String,
    pub band_percent: String,
    pub effect_size: Option<String>,
    pub verdict: Verdict,
}

/// One arm's row in the uplift report.
#[derive(Clone, Debug, PartialEq, Eq)]
pub struct UpliftArmRow {
    pub arm: String,
    pub is_lesson_arm: bool,
    pub aggregate: Aggregate,
    pub injection: InjectionSummary,
}

/// The uplift report.
#[derive(Clone, Debug, PartialEq, Eq)]
pub struct UpliftReport {
    pub schema: u32,
    pub task_set: String,
    pub model: String,
    pub trials: u32,
    pub arms: Vec<UpliftArmRow>,
    pub uplift: Significance,
}

/// The injection audit of a row, in words.
pub open spec fn injection_text(row: UpliftArmRow) -> Seq<char> {
    if row.is_lesson_arm {
        "injected "@ + dec(row.injection.injected as nat) + "/"@ + dec(
            row.injection.intended as nat,
        ) + " intended"@
    } else {
        "none (baseline)"@
    }
}

/// Texts with a percent sign behind each.
pub open spec fn percents(texts: Seq<Seq<char>>) -> Seq<Seq<char>> {
    texts.map_values(|t: Seq<char>| t + "%"@)
}

/// The table line of a row.
pub open spec fn row_text(row: UpliftArmRow) -> Seq<char> {
    "| "@ + row.arm@ + " | "@ + row.aggregate.mean_percent@ + "% | "@ + row.aggregate.stddev@
        + " | "@ + joined(percents(views(row.aggregate.per_trial_percent@)), " "@) + " | "@
        + injection_text(row) + " |"@
}

/// The spelling of a verdict.
pub open spec fn verdict_text(verdict: Verdict) -> Seq<char> {
    match verdict {
        Verdict::Uplift => "uplift"@,
        Verdict::Regression => "regression"@,
        Verdict::NoEffect => "no-effect (within noise)"@,
    }
}

/// The verdict line.
pub open spec fn uplift_text(uplift: Significance) -> Seq<char> {
    "**Uplift:** delta="@ + uplift.delta_percent@ + "% (band ±"@ + uplift.band_percent@
        + "%, effect size "@ + (match uplift.effect_size {
        Some(e) => e@,
        None => "n/a (zero variance)"@,
    }) + ") -> **"@ + verdict_text(uplift.verdict) + "**"@
}

/// The lines of a report.
pub open spec fn report_lines(report: UpliftReport) -> Seq<Seq<char>> {
    seq![
        "# Lesson uplift — "@ + report.task_set@ + " (model: "@ + report.model@ + ", trials: "@
            + dec(report.trials as nat) + ")"@,
        seq![],
        "| arm | mean | stddev | per-trial | injection |"@,
        "|---|---|---|---|---|"@,
    ] + report.arms@.map_values(|row: UpliftArmRow| row_text(row)) + seq![
        seq![],
        uplift_text(report.uplift),
    ]
}

fn word_percents(texts: &Vec<String>) -> (out: Vec<String>)
    ensures
        views(out@) == percents(views(texts@)),
{
    let mut out: Vec<String> = Vec::new();
    let mut i: usize = 0;
    while i < texts.len()
        invariant
            i <= texts.len(),
            out@.len() == i,
            forall|k: int| 0 <= k < i ==> (#[trigger] out@[k])@ == texts@[k]@ + "%"@,
        decreases texts.len() - i,
    {
        let mut one: String = texts[i].clone();
        one.append("%");
        out.push(one);
        i = i + 1;
    }
    assert(views(out@) =~= percents(views(texts@)));
    out
}

fn word_row(row: &UpliftArmRow) -> (out: String)
    ensures
        out@ == row_text(*row),
{
    let injection: String = if row.is_lesson_arm {
        let mut m: String = "injected ".to_string();
        m.append(dec_u64(row.injection.injected as u64).as_str());
        m.append("/");
        m.append(dec_u64(row.injection.intended as u64).as_str());
        m.append(" intended");
        m
    } else {
        "none (baseline)".to_string()
    };
    let mut line: String = "| ".to_string();
    line.append(row.arm.as_str());
    line.append(" | ");
    line.append(row.aggregate.mean_percent.as_str());
    line.append("% | ");
    line.append(row.aggregate.stddev.as_str());
    line.append(" | ");
    line.append(join(&word_percents(&row.aggregate.per_trial_percent), " ").as_str());
    line.append(" | ");
    line.append(injection.as_str());
    line.append(" |");
    line
}

fn word_uplift(uplift: &Significance) -> (out: String)
    ensures
        out@ == uplift_text(*uplift),
{
    let mut line: String = "**Uplift:** delta=".to_string();
    line.append(uplift.delta_percent.as_str());
    line.append("% (band ±");
    line.append(uplift.band_percent.as_str());
    line.append("%, effect size ");
    match &uplift.effect_size {
        Some(e) => line.append(e.as_str()),
        None => line.append("n/a (zero variance)"),
    }
    line.append(") -> **");
    match uplift.verdict {
        Verdict::Uplift => line.append("uplift"),
        Verdict::Regression => line.append("regression"),
        Verdict::NoEffect => line.append("no-effect (within noise)"),
    }
    line.append("**");
    line
}

/// Render an uplift report as Markdown: per-arm mean ± stddev with the
/// injection audit, and the significance verdict, never a bare delta.
pub fn render_uplift_report(report: &UpliftReport) -> (out: String)
    ensures
        out@ == joined(report_lines(*report), "\n"@),
{
    let mut title: String = "# Lesson uplift — ".to_string();
    title.append(report.task_set.as_str());
    title.append(" (model: ");
    title.append(report.model.as_str());
    title.append(", trials: ");
    title.append(dec_u64(report.trials as u64).as_str());
    title.append(")");
    let blank: String = String::new();
    assert(blank@ =~= seq![]);
    let mut all: Vec<String> = Vec::new();
    all.push(title);
    all.push(blank);
    all.push("| arm | mean | stddev | per-trial | injection |".to_string());
    all.push("|---|---|---|---|---|".to_string());
    let ghost head = views(all@);
    let ghost rows = report.arms@.map_values(|row: UpliftArmRow| row_text(row));
    let mut i: usize = 0;
    assert(views(all@) =~= head + rows.take(0));
    while i < report.arms.len()
        invariant
            i <= report.arms.len(),
            rows == report.arms@.map_values(|row: UpliftArmRow| row_text(row)),
            views(all@) == head + rows.take(i as int),
        decreases report.arms.len() - i,
    {
        let ghost was = views(all@);
        let line: String = word_row(&report.arms[i]);
        all.push(line);
        assert(views(all@) =~= was.push(line@));
        assert(rows.take(i + 1) =~= rows.take(i as int).push(line@));
        assert(views(all@) =~= head + rows.take(i + 1));
        i = i + 1;
    }
    assert(rows.take(i as int) =~= rows);
    let ghost body = views(all@);
    let blank: String = String::new();
    assert(blank@ =~= seq![]);
    all.push(blank);
    let verdict: String = word_uplift(&report.uplift);
    all.push(verdict);
    assert(views(all@) =~= body + seq![seq![], verdict@]);
    assert(views(all@) =~= report_lines(*report));
    join(&all, "\n")
}

} // verus!
