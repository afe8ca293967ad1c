//! What a matrix run makes of its specification, its cells and their verdicts.
use vstd::prelude::*;

#[allow(unused_imports)]
use crate::json::{
    json_of, json_text_of, law_member_after_set, law_the_first_member_of_a_name_is_found, member,
    set_member, JsonV,
};
#[allow(unused_imports)]
use crate::matrix::{
    fact_at, first_refusal, first_unfit, known_arm_refusal, patched, patched_text, report_lines,
    setup_refusal, spec_defect, task_defect, tasks_defect, ArmSpec, CapabilityReport, GradeVerdict,
    Isolation, RunSpec, SetupFacts, TaskSpec,
};
#[allow(unused_imports)]
use crate::matrix_run::{
    matrix_sound, matrix_step, CellV, MatrixAskV, MatrixEventV, MatrixReply, MatrixStage, MatrixV,
};
#[allow(unused_imports)]
use crate::scorecard::process_card;
#[allow(unused_imports)]
use crate::text::{dec, lowered, trimmed};

verus! {

// ---------------------------------------------------------------------------
// The specification and the setup
// ---------------------------------------------------------------------------
proof fn lemma_tasks(tasks: Seq<TaskSpec>)
    ensures
        tasks_defect(tasks) is None <==> forall|i: int|
            0 <= i < tasks.len() ==> task_defect(#[trigger] tasks[i]) is None,
    decreases tasks.len(),
{
    if tasks.len() > 0 {
        let rest = tasks.skip(1);
        lemma_tasks(rest);
        if tasks_defect(tasks) is None {
            assert forall|i: int| 0 <= i < tasks.len() implies task_defect(#[trigger] tasks[i]) is None by {
                if i > 0 {
                    assert(rest[i - 1] == tasks[i]);
                }
            }
        }
        if forall|i: int| 0 <= i < tasks.len() ==> task_defect(#[trigger] tasks[i]) is None {
            assert(task_defect(tasks[0]) is None);
            assert forall|i: int| 0 <= i < rest.len() implies task_defect(#[trigger] rest[i]) is None by {
                assert(rest[i] == tasks[i + 1]);
            }
        }
    }
}

/// Whether a task can be run: it has an id and a workspace, and a Rust task has
/// a cache to warm.
pub open spec fn runnable(task: TaskSpec) -> bool {
    &&& trimmed(task.id@).len() > 0 && trimmed(task.workspace@).len() > 0
    &&& (task.grade_label matches Some(label) && label@ == "rust"@) ==> (
    task.cargo_cache matches Some(path) && trimmed(path@).len() > 0)
}

/// A specification is valid exactly if it is of the known schema, names a model
/// and a known corpus, has an arm and a task, names every arm, and every task
/// can be run.
pub proof fn law_a_specification_is_valid_exactly_if_complete(spec: RunSpec)
    ensures
        spec_defect(spec) is None <==> {
            &&& spec.schema == 1
            &&& trimmed(spec.model@).len() > 0
            &&& spec.corpus@ == "external"@ || spec.corpus@ == "first-party"@
            &&& spec.arms@.len() > 0 && spec.tasks@.len() > 0
            &&& forall|i: int|
                0 <= i < spec.arms@.len() ==> trimmed((#[trigger] spec.arms@[i]).arm@).len() > 0
            &&& forall|i: int| 0 <= i < spec.tasks@.len() ==> runnable(#[trigger] spec.tasks@[i])
        },
{
    lemma_tasks(spec.tasks@);
    assert forall|task: TaskSpec| #[trigger] runnable(task) <==> task_defect(task) is None by {}
}

proof fn lemma_fit(tasks: Seq<TaskSpec>, checks: Seq<Option<String>>, from: int)
    requires
        0 <= from <= tasks.len(),
        forall|i: int| from <= i < tasks.len() ==> i < checks.len() && (#[trigger] checks[i]) is None,
        tasks.len() <= checks.len(),
    ensures
        first_unfit(tasks, checks, from) is None,
    decreases tasks.len() - from,
{
    if from < tasks.len() {
        assert(checks[from] is None);
        lemma_fit(tasks, checks, from + 1);
    }
}

/// Whether an arm may start: with a config, the config was checked and is
/// clean, and a baseline turns no harness feature on; without one, it is not
/// named a baseline.
pub open spec fn arm_may_start(arm: ArmSpec, isolation: Option<Isolation>) -> bool {
    if arm.config is Some {
        match isolation {
            Some(Isolation::Clean(baseline)) => !baseline || (!arm.verify && !arm.learn),
            _ => false,
        }
    } else {
        lowered(arm.arm@) != "baseline"@
    }
}

proof fn lemma_unrefused(arms: Seq<ArmSpec>, isolation: Seq<Isolation>, from: int)
    requires
        0 <= from <= arms.len(),
    ensures
        first_refusal(arms, isolation, from) is None <==> forall|i: int|
            from <= i < arms.len() ==> arm_may_start(#[trigger] arms[i], fact_at(isolation, i)),
    decreases arms.len() - from,
{
    if from < arms.len() {
        lemma_unrefused(arms, isolation, from + 1);
        assert(arm_may_start(arms[from], fact_at(isolation, from)) <==> known_arm_refusal(
            arms[from],
            fact_at(isolation, from),
        ) is None);
        if first_refusal(arms, isolation, from) is None {
            assert forall|i: int| from <= i < arms.len() implies arm_may_start(
                #[trigger] arms[i],
                fact_at(isolation, i),
            ) by {
                if i > from {
                    assert(first_refusal(arms, isolation, from + 1) is None);
                }
            }
        }
    }
}

/// A run starts exactly if its instruments work, every corpus path was checked
/// and accepted, and every arm may start. Broken instruments are told first, in
/// their own words.
pub proof fn law_a_run_starts_exactly_if_its_setup_is_clean(spec: RunSpec, facts: SetupFacts)
    ensures
        setup_refusal(spec, facts) is None <==> {
            &&& facts.instruments is None
            &&& forall|i: int|
                0 <= i < spec.tasks@.len() ==> #[trigger] fact_at(facts.corpus_paths@, i) == Some(
                    None::<String>,
                )
            &&& forall|i: int|
                0 <= i < spec.arms@.len() ==> arm_may_start(
                    #[trigger] spec.arms@[i],
                    fact_at(facts.isolation@, i),
                )
        },
        facts.instruments matches Some(m) ==> setup_refusal(spec, facts) == Some(m@),
{
    let tasks = spec.tasks@;
    let checks = facts.corpus_paths@;
    lemma_unrefused(spec.arms@, facts.isolation@, 0);
    if first_unfit(tasks, checks, 0) is None {
        assert forall|i: int| 0 <= i < tasks.len() implies #[trigger] fact_at(checks, i) == Some(
            None::<String>,
        ) by {
            lemma_paths(tasks, checks, 0, i);
        }
    }
    if forall|i: int|
        0 <= i < tasks.len() ==> #[trigger] fact_at(checks, i) == Some(None::<String>) {
        if tasks.len() > 0 {
            assert(fact_at(checks, tasks.len() - 1) == Some(None::<String>));
        }
        assert forall|i: int| 0 <= i < tasks.len() implies i < checks.len() && (
        #[trigger] checks[i]) is None by {
            assert(fact_at(checks, i) == Some(None::<String>));
        }
        lemma_fit(tasks, checks, 0);
    }
}

proof fn lemma_paths(tasks: Seq<TaskSpec>, checks: Seq<Option<String>>, from: int, i: int)
    requires
        0 <= from <= i < tasks.len(),
        first_unfit(tasks, checks, from) is None,
    ensures
        fact_at(checks, i) == Some(None::<String>),
    decreases tasks.len() - from,
{
    if from < i {
        lemma_paths(tasks, checks, from + 1, i);
    }
}

// ---------------------------------------------------------------------------
// Cells
// ---------------------------------------------------------------------------
/// What the verdict of a grade, or its absence, makes of the solver's claim.
pub open spec fn counts_solved(verdict: GradeVerdict, claim: bool) -> bool {
    &&& verdict.infra_gap is None && !verdict.timed_out
    &&& verdict.passed == Some(true) || (verdict.passed is None && claim)
}

/// A cell goes from its solve to the disk: the scorecard is read as it came, the
/// task is graded, and what is put on disk is the cell of that arm and task. It
/// counts solved exactly if the benchmark passed it, or if nothing was graded
/// and the solver claims so; a grade that ran out of time or could not assess
/// the solve never counts. Then the next task of the arm has its turn.
pub proof fn law_a_cell_goes_from_its_solve_to_the_disk(
    s: MatrixV,
    raw: String,
    claim: bool,
    verdict: GradeVerdict,
)
    requires
        s.at == MatrixStage::AwaitSolve,
        s.ending is None,
    ensures
        ({
            let (t1, a1) = matrix_step(s, MatrixReply::Solved(Ok(raw)));
            let (t2, a2) = matrix_step(t1, MatrixReply::Parsed(Ok(claim)));
            let (t3, a3) = matrix_step(t2, MatrixReply::Graded(Ok(verdict)));
            let (t4, a4) = matrix_step(t3, MatrixReply::Saved(Ok(())));
            &&& a1 == MatrixAskV::Parse(raw@)
            &&& a2 == MatrixAskV::Grade(s.task)
            &&& a3 matches MatrixAskV::Save(cell) && {
                &&& cell.arm == s.arm && cell.task == s.task
                &&& cell.passed == counts_solved(verdict, claim)
                &&& verdict.passed is None && !verdict.timed_out && verdict.infra_gap is None
                    ==> cell.scorecard == raw@
                &&& t4.cells == s.cells.push(cell)
                &&& t4.events == s.events.push(MatrixEventV::Cell(cell))
            }
            &&& t4.arm == s.arm && t4.task == s.task + 1 && t4.at == MatrixStage::Next
            &&& t4.timed_out == s.timed_out + (if verdict.timed_out && verdict.infra_gap is None {
                1int
            } else {
                0
            })
            &&& t4.infra_gaps == s.infra_gaps + (if verdict.infra_gap is Some {
                1int
            } else {
                0
            })
            &&& t4.cleanup_issues == s.cleanup_issues + (if verdict.cleanup_diagnostic is Some {
                1int
            } else {
                0
            })
            &&& t4.caveats == s.caveats && t4.spec == s.spec
        }),
{
}

/// A cell whose solve fails, or whose scorecard does not read, is put on disk as
/// unsolved, with its own task, arm and model and the reason on its card, and
/// the matrix goes on with the next task.
pub proof fn law_a_broken_cell_is_kept_as_unsolved(s: MatrixV, raw: String, reason: String)
    requires
        s.at == MatrixStage::AwaitSolve,
        s.ending is None,
    ensures
        ({
            let (t1, a1) = matrix_step(s, MatrixReply::Solved(Err(reason)));
            let (u1, _) = matrix_step(s, MatrixReply::Solved(Ok(raw)));
            let (u2, a2) = matrix_step(u1, MatrixReply::Parsed(Err(reason)));
            let (t2, _) = matrix_step(t1, MatrixReply::Saved(Ok(())));
            let (u3, _) = matrix_step(u2, MatrixReply::Saved(Ok(())));
            let text = json_text_of(
                process_card(
                    s.spec.tasks@[s.task].id@,
                    s.spec.arms@[s.arm].arm@,
                    s.spec.model@,
                    0,
                    "cell-failed: "@ + reason@,
                    0,
                    0,
                ),
            );
            let cell = CellV { arm: s.arm, task: s.task, scorecard: text, passed: false };
            &&& a1 == MatrixAskV::Save(cell) && a2 == MatrixAskV::Save(cell)
            &&& t2.cells == s.cells.push(cell) && u3.cells == s.cells.push(cell)
            &&& t2.at == MatrixStage::Next && t2.task == s.task + 1 && t2.arm == s.arm
            &&& u3.at == MatrixStage::Next && u3.task == s.task + 1 && u3.arm == s.arm
            &&& t2.timed_out == s.timed_out && t2.infra_gaps == s.infra_gaps && t2.cleanup_issues
                == s.cleanup_issues
        }),
{
}

/// The cells come in order: the tasks of an arm, then its caveats, then the next
/// arm, whose counters start at zero; when every arm is done the run is
/// complete.
pub proof fn law_the_cells_come_in_order(s: MatrixV, timeouts: Option<String>, gaps: Option<String>)
    requires
        matrix_sound(s),
        s.ending is None,
    ensures
        s.at == MatrixStage::Next && s.arm < s.spec.arms@.len() && s.task < s.spec.tasks@.len()
            ==> matrix_step(s, MatrixReply::Proceed).1 == MatrixAskV::Solve(s.arm, s.task),
        s.at == MatrixStage::Next && s.arm < s.spec.arms@.len() && s.task == s.spec.tasks@.len()
            ==> matrix_step(s, MatrixReply::Proceed).1 == MatrixAskV::Caveats(
            s.arm,
            s.timed_out,
            s.infra_gaps,
        ),
        s.at == MatrixStage::Next && s.arm == s.spec.arms@.len() ==> {
            let (t, ask) = matrix_step(s, MatrixReply::Proceed);
            &&& ask == MatrixAskV::Finished && t.at == MatrixStage::Finished
            &&& t.failure is None && t.aborted is None && t.cells == s.cells && t.caveats
                == s.caveats
            &&& t.events == s.events.push(MatrixEventV::Completed)
        },
        s.at == MatrixStage::AwaitCaveats ==> {
            let (t, ask) = matrix_step(s, MatrixReply::Caveats(timeouts, gaps));
            &&& t.at == MatrixStage::Next && t.arm == s.arm + 1 && t.task == 0
            &&& t.timed_out == 0 && t.infra_gaps == 0 && t.cleanup_issues == 0
            &&& t.cells == s.cells && t.failure is None && t.aborted is None
        },
{
}

/// What is worded of an arm is kept, in this order: its timeouts, its unassessed
/// cells, and, where there were any, how many of its cells had a failing
/// cleanup, with the arm's name. Nothing that was kept before changes.
pub proof fn law_the_caveats_of_an_arm_are_kept(
    s: MatrixV,
    timeouts: Option<String>,
    gaps: Option<String>,
)
    requires
        s.at == MatrixStage::AwaitCaveats,
    ensures
        ({
            let t = matrix_step(s, MatrixReply::Caveats(timeouts, gaps)).0;
            let first = match timeouts {
                Some(m) => seq![m@],
                None => seq![],
            };
            let second = match gaps {
                Some(m) => seq![m@],
                None => seq![],
            };
            &&& s.cleanup_issues == 0 ==> t.caveats == s.caveats + first + second
            &&& s.cleanup_issues > 0 ==> t.caveats == s.caveats + first + second + seq![
                "caveat: "@ + dec(s.cleanup_issues as nat) + " "@ + s.spec.arms@[s.arm].arm@
                    + " cell(s) reported a secondary exact-container cleanup failure; primary grade and timeout outcomes were preserved"@,
            ]
        }),
{
    let t = matrix_step(s, MatrixReply::Caveats(timeouts, gaps)).0;
    let first = match timeouts {
        Some(m) => seq![m@],
        None => seq![],
    };
    let second = match gaps {
        Some(m) => seq![m@],
        None => seq![],
    };
    if s.cleanup_issues == 0 {
        assert(t.caveats =~= s.caveats + first + second);
    } else if s.cleanup_issues > 0 {
        assert(t.caveats =~= s.caveats + first + second + seq![t.caveats.last()]);
    }
}

/// A cell that cannot be put on disk ends the run with that failure; it is not
/// among the cells.
pub proof fn law_a_cell_that_is_not_saved_ends_the_run(s: MatrixV, why: String)
    requires
        s.at == MatrixStage::AwaitSave,
    ensures
        ({
            let (t, ask) = matrix_step(s, MatrixReply::Saved(Err(why)));
            &&& t.at == MatrixStage::Finished && ask == MatrixAskV::Finished
            &&& t.failure == Some(why@) && t.cells == s.cells
            &&& t.events == s.events.push(MatrixEventV::Error(why@))
        }),
{
}

// ---------------------------------------------------------------------------
// Scorecards
// ---------------------------------------------------------------------------
/// A graded card says in its results whether the benchmark passed it; every
/// other result, and every other part of the card, is as it was. Results that
/// were null become results with nothing else in them; a card without results,
/// and one that is no object, stays; and results of another kind carry none.
pub proof fn law_a_graded_card_changes_only_its_verdict(
    members: Seq<(Seq<char>, JsonV)>,
    passed: bool,
    other: Seq<char>,
)
    ensures
        ({
            let card = JsonV::Object(members);
            match member(card, "results"@) {
                None => patched(card, passed) == Some(card),
                Some(JsonV::Object(results)) => patched(card, passed) matches Some(done) && {
                    &&& member(done, "results"@) matches Some(graded) && {
                        &&& member(graded, "passed"@) == Some(JsonV::Bool(passed))
                        &&& other != "passed"@ ==> member(graded, other) == member(
                            JsonV::Object(results),
                            other,
                        )
                    }
                    &&& other != "results"@ ==> member(done, other) == member(card, other)
                },
                Some(JsonV::Null) => patched(card, passed) matches Some(done) && {
                    &&& member(done, "results"@) matches Some(graded) && {
                        &&& member(graded, "passed"@) == Some(JsonV::Bool(passed))
                        &&& other != "passed"@ ==> member(graded, other) is None
                    }
                    &&& other != "results"@ ==> member(done, other) == member(card, other)
                },
                _ => patched(card, passed) is None,
            }
        }),
        patched(JsonV::Null, passed) == Some(JsonV::Null),
{
    let card = JsonV::Object(members);
    match member(card, "results"@) {
        Some(JsonV::Object(results)) => {
            let graded = set_member(results, "passed"@, JsonV::Bool(passed));
            law_member_after_set(members, "results"@, JsonV::Object(graded), "results"@);
            law_member_after_set(members, "results"@, JsonV::Object(graded), other);
            law_member_after_set(results, "passed"@, JsonV::Bool(passed), "passed"@);
            law_member_after_set(results, "passed"@, JsonV::Bool(passed), other);
        },
        Some(JsonV::Null) => {
            let none: Seq<(Seq<char>, JsonV)> = seq![];
            let graded = set_member(none, "passed"@, JsonV::Bool(passed));
            law_member_after_set(members, "results"@, JsonV::Object(graded), "results"@);
            law_member_after_set(members, "results"@, JsonV::Object(graded), other);
            law_member_after_set(none, "passed"@, JsonV::Bool(passed), "passed"@);
            law_member_after_set(none, "passed"@, JsonV::Bool(passed), other);
        },
        _ => {},
    }
}

/// The graded text of a scorecard is the text of the graded card; a text that is
/// no JSON stays as it is.
pub proof fn law_a_graded_text_is_of_the_graded_card(raw: Seq<char>, passed: bool)
    ensures
        json_of(raw) is None ==> patched_text(raw, passed) == Some(raw),
        json_of(raw) matches Some(card) ==> (patched(card, passed) matches Some(done)
            ==> patched_text(raw, passed) == Some(json_text_of(done))),
        json_of(raw) matches Some(card) ==> (patched(card, passed) is None ==> patched_text(
            raw,
            passed,
        ) is None),
{
}

proof fn lemma_card_names()
    ensures
        "schema"@.len() == 6,
        "task"@.len() == 4,
        "arm"@.len() == 3,
        "model"@.len() == 5,
        "results"@.len() == 7 && "results"@[0] == 'r',
        "quality"@.len() == 7 && "quality"@[0] == 'q',
        "process"@.len() == 7 && "process"@[0] == 'p',
        "speed"@.len() == 5,
        "model"@[0] == 'm' && "speed"@[0] == 's',
        "tool_calls"@.len() == 10,
        "redundant_calls"@.len() == 15 && "redundant_calls"@[0] == 'r' && "redundant_calls"@[2] == 'd',
        "reproduce_before_fix"@.len() == 20,
        "test_before_done"@.len() == 16,
        "retrieval_used"@.len() == 14,
        "retrieval_count"@.len() == 15 && "retrieval_count"@[2] == 't',
        "exit_reason"@.len() == 11,
        "recovered_after_failure"@.len() == 23,
        "interventions"@.len() == 13,
{
    reveal_strlit("schema");
    reveal_strlit("task");
    reveal_strlit("arm");
    reveal_strlit("model");
    reveal_strlit("results");
    reveal_strlit("quality");
    reveal_strlit("process");
    reveal_strlit("speed");
    reveal_strlit("tool_calls");
    reveal_strlit("redundant_calls");
    reveal_strlit("reproduce_before_fix");
    reveal_strlit("test_before_done");
    reveal_strlit("retrieval_used");
    reveal_strlit("retrieval_count");
    reveal_strlit("exit_reason");
    reveal_strlit("recovered_after_failure");
    reveal_strlit("interventions");
}

/// A card that the library writes itself says which cell it is of and what the
/// process did: its task, arm and model, its tool calls, how it ended, how often
/// it was steered, and how long it took.
pub proof fn law_a_process_card_says_what_happened(
    task: Seq<char>,
    arm: Seq<char>,
    model: Seq<char>,
    tool_calls: u64,
    exit_reason: Seq<char>,
    interventions: u64,
    wall_ms: u64,
)
    ensures
        ({
            let card = process_card(
                task,
                arm,
                model,
                tool_calls,
                exit_reason,
                interventions,
                wall_ms,
            );
            &&& member(card, "schema"@) == Some(JsonV::Unsigned(1))
            &&& member(card, "task"@) == Some(JsonV::Text(task))
            &&& member(card, "arm"@) == Some(JsonV::Text(arm))
            &&& member(card, "model"@) == Some(JsonV::Text(model))
            &&& member(card, "process"@) matches Some(process) && {
                &&& member(process, "tool_calls"@) == Some(JsonV::Unsigned(tool_calls))
                &&& member(process, "exit_reason"@) == Some(JsonV::Text(exit_reason))
                &&& member(process, "interventions"@) == Some(JsonV::Unsigned(interventions))
            }
            &&& member(card, "speed"@) matches Some(speed) && member(speed, "wall_ms"@) == Some(
                JsonV::Unsigned(wall_ms),
            )
        }),
{
    lemma_card_names();
    let card = process_card(task, arm, model, tool_calls, exit_reason, interventions, wall_ms);
    let all = card->Object_0;
    law_the_first_member_of_a_name_is_found(all, "schema"@, 0);
    law_the_first_member_of_a_name_is_found(all, "task"@, 1);
    law_the_first_member_of_a_name_is_found(all, "arm"@, 2);
    law_the_first_member_of_a_name_is_found(all, "model"@, 3);
    law_the_first_member_of_a_name_is_found(all, "process"@, 6);
    law_the_first_member_of_a_name_is_found(all, "speed"@, 7);
    let process = all[6].1->Object_0;
    law_the_first_member_of_a_name_is_found(process, "tool_calls"@, 0);
    law_the_first_member_of_a_name_is_found(process, "exit_reason"@, 6);
    law_the_first_member_of_a_name_is_found(process, "interventions"@, 8);
    let speed = all[7].1->Object_0;
    law_the_first_member_of_a_name_is_found(speed, "wall_ms"@, 0);
}

// ---------------------------------------------------------------------------
// The rendered report
// ---------------------------------------------------------------------------
/// The report has a row for each arm, in order, at its end; the caveat stands
/// above the table exactly if the corpus is suspect.
pub proof fn law_the_report_has_a_row_for_each_arm(report: CapabilityReport, i: int)
    requires
        0 <= i < report.arms@.len(),
    ensures
        ({
            let all = report_lines(report);
            let top = if report.contamination_suspect {
                7int
            } else {
                4
            };
            let row = report.arms@[i];
            &&& all.len() == top + report.arms@.len()
            &&& all[top + i] == "| "@ + row.arm@ + " | "@ + row.model@ + " | "@ + dec(
                row.solved as nat,
            ) + "/"@ + dec(row.tasks as nat) + " | "@ + row.solve_percent@ + "% | "@
                + row.avg_tool_calls@ + " | "@ + row.avg_redundant@ + " | "@ + row.avg_interventions@
                + " | "@ + (match row.judge {
                Some(t) => t@,
                None => "n/a"@,
            }) + " | "@ + (match row.isolation {
                Some(t) => t@,
                None => "n/a"@,
            }) + " |"@
            &&& report.contamination_suspect ==> all[2]
                == "> Contamination caveat: this is a public benchmark; treat absolute"@
        }),
{
}

// ---------------------------------------------------------------------------
// The log of a run
// ---------------------------------------------------------------------------
/// Whether a line of the log is of the current cell and says something of it.
pub open spec fn says_of_the_cell(s: MatrixV, line: Seq<char>, said: Seq<char>) -> bool {
    line == "arm '"@ + s.spec.arms@[s.arm].arm@ + "' task '"@ + s.spec.tasks@[s.task].id@ + "': "@
        + said
}

/// A cell that cannot be solved or read is told with the reason, and that it
/// counts as unsolved.
pub proof fn law_a_broken_cell_is_told(s: MatrixV, reason: String)
    ensures
        s.at == MatrixStage::AwaitSolve ==> {
            let t = matrix_step(s, MatrixReply::Solved(Err(reason))).0;
            t.log.len() == s.log.len() + 1 && t.log.drop_last() == s.log && says_of_the_cell(
                s,
                t.log.last(),
                reason@ + " (recorded unsolved)"@,
            )
        },
        s.at == MatrixStage::AwaitParse ==> {
            let t = matrix_step(s, MatrixReply::Parsed(Err(reason))).0;
            t.log.len() == s.log.len() + 1 && t.log.drop_last() == s.log && says_of_the_cell(
                s,
                t.log.last(),
                reason@ + " (recorded unsolved)"@,
            )
        },
{
    let a = matrix_step(s, MatrixReply::Solved(Err(reason))).0;
    let b = matrix_step(s, MatrixReply::Parsed(Err(reason))).0;
    if s.at == MatrixStage::AwaitSolve {
        assert(a.log.drop_last() =~= s.log);
    }
    if s.at == MatrixStage::AwaitParse {
        assert(b.log.drop_last() =~= s.log);
    }
}

/// What a grade has to say is told, in this order: a failing cleanup, a gap of
/// the infrastructure, and the grader's note. A grade that has nothing to say is
/// not told.
pub proof fn law_a_grade_is_told(s: MatrixV, v: GradeVerdict)
    requires
        s.at == MatrixStage::AwaitGrade,
    ensures
        ({
            let t = matrix_step(s, MatrixReply::Graded(Ok(v))).0;
            let c: int = if v.cleanup_diagnostic is Some {
                1
            } else {
                0
            };
            let g: int = if v.infra_gap is Some {
                1
            } else {
                0
            };
            let n: int = if v.note@.len() > 0 {
                1
            } else {
                0
            };
            let k = s.log.len() as int;
            &&& t.log.len() == k + c + g + n
            &&& t.log.take(k) == s.log
            &&& v.cleanup_diagnostic matches Some(d) ==> says_of_the_cell(
                s,
                t.log[k],
                "secondary cleanup issue: "@ + d@,
            )
            &&& v.infra_gap matches Some(why) ==> says_of_the_cell(s, t.log[k + c], why@)
            &&& n == 1 ==> says_of_the_cell(s, t.log[k + c + g], v.note@)
        }),
{
    let t = matrix_step(s, MatrixReply::Graded(Ok(v))).0;
    assert(t.log.take(s.log.len() as int) =~= s.log);
}

} // verus!
