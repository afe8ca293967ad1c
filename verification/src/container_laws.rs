//! How a task is graded in its container, from the hand-in to the verdict.
use vstd::prelude::*;

#[allow(unused_imports)]
use crate::container::{
    grade_step, taken_up, Assessment, CommandEnd, GradeAskV, GradeReply, GradeStage, GraderV,
    PlanKind, VerdictV,
};
#[allow(unused_imports)]
use crate::matrix::TaskSpec;
#[allow(unused_imports)]
use crate::text::{contains, dec, lowered, trimmed};

verus! {

/// Whether a task brings a Rust cache to warm.
pub open spec fn has_rust_cache(task: TaskSpec) -> bool {
    (task.grade_label matches Some(label) && label@ == "rust"@) && task.cargo_cache is Some
}

/// A task that is handed in starts afresh. A breaker that has tripped refuses
/// it. A grader that has not seen a container run checks that first; a Rust
/// task with a cache has its manifest looked up; any other is graded at once.
pub proof fn law_a_task_is_taken_up(s: GraderV, task: TaskSpec, wedged: Option<u64>)
    ensures
        ({
            let (t, ask) = taken_up(s, task, wedged);
            &&& t.health_checked == s.health_checked && t.warmed == s.warmed && t.timeout_secs
                == s.timeout_secs
            &&& t.task_id == task.id@ && t.strike is None
            &&& wedged matches Some(n) ==> ask == GradeAskV::Done && t.verdict == Some(
                Err::<VerdictV, Seq<char>>(
                    "docker looks wedged ("@ + dec(n as nat)
                        + " consecutive grade timeouts) — yielding with the cell ledger intact; restart the engine and rescore"@,
                ),
            )
            &&& wedged is None ==> t.verdict is None
            &&& wedged is None && !s.health_checked ==> ask == GradeAskV::Run(PlanKind::Health)
            &&& wedged is None && s.health_checked && has_rust_cache(task) ==> ask
                == GradeAskV::Manifest && t.cache == Some(task.cargo_cache->Some_0@)
            &&& wedged is None && s.health_checked && !has_rust_cache(task) ==> ask
                == GradeAskV::Run(PlanKind::Grade)
        }),
{
}

/// A health check passes exactly if its container exited zero in time; the task
/// then goes on, and no later task is checked again. One that fails ends the
/// grade with what the engine said.
pub proof fn law_a_health_check_decides(s: GraderV, container: String, end: CommandEnd)
    requires
        s.at == GradeStage::AwaitRun,
        s.kind == PlanKind::Health,
        !end.timed_out,
    ensures
        ({
            let (t, ask) = grade_step(s, GradeReply::Ran(container, Ok(end)));
            &&& end.exit_ok ==> t.health_checked && t.verdict == s.verdict && (if s.rust
                && s.cache is Some {
                ask == GradeAskV::Manifest
            } else {
                ask == GradeAskV::Run(PlanKind::Grade)
            })
            &&& !end.exit_ok ==> ask == GradeAskV::Done && t.health_checked == s.health_checked
                && t.verdict == Some(
                Err::<VerdictV, Seq<char>>(
                    "docker failed its pre-flight health check (a container must run to completion): "@
                        + trimmed(end.output@),
                ),
            )
        }),
{
}

/// A cache that is not warm with the manifest yet is warmed with it: the crate
/// is written, the warming runs, and if that exits zero in time the cache counts
/// as warm and the task is graded. A step that fails ends the grade.
pub proof fn law_a_cache_is_warmed_before_the_grade(
    s: GraderV,
    manifest: String,
    container: String,
    end: CommandEnd,
    said: String,
)
    requires
        s.at == GradeStage::AwaitManifest,
        s.cache is Some,
        !s.warmed.contains((s.cache->Some_0, manifest@)),
        !end.timed_out,
    ensures
        ({
            let (t1, a1) = grade_step(s, GradeReply::Manifest(Ok(manifest)));
            let (t2, a2) = grade_step(t1, GradeReply::WarmCrate(Ok(())));
            let (t3, a3) = grade_step(t2, GradeReply::Ran(container, Ok(end)));
            &&& a1 == GradeAskV::WarmCrate(s.cache->Some_0, manifest@)
            &&& a2 == GradeAskV::Run(PlanKind::Warm)
            &&& end.exit_ok ==> a3 == GradeAskV::Run(PlanKind::Grade) && t3.warmed == s.warmed.push(
                (s.cache->Some_0, manifest@),
            )
            &&& !end.exit_ok ==> a3 == GradeAskV::Done && t3.warmed == s.warmed && t3.verdict
                == Some(
                Err::<VerdictV, Seq<char>>(
                    "Cargo cache preparation failed for task '"@ + s.task_id + "': "@ + trimmed(
                        end.output@,
                    ),
                ),
            )
            &&& grade_step(s, GradeReply::Manifest(Err(said))).0.verdict == Some(
                Err::<VerdictV, Seq<char>>(said@),
            )
            &&& grade_step(t1, GradeReply::WarmCrate(Err(said))).0.verdict == Some(
                Err::<VerdictV, Seq<char>>(said@),
            )
        }),
{
}

/// A grade that ends in time is assessed by its output and decided by its exit
/// and its tests: it passes exactly if it exited zero and a test ran. A failure
/// that is a dependency nobody could fetch is a gap, and no verdict. The breaker
/// counts no timeout.
pub proof fn law_a_grade_is_decided_by_exit_and_tests(
    s: GraderV,
    container: String,
    end: CommandEnd,
    a: Assessment,
)
    requires
        s.at == GradeStage::AwaitRun,
        s.kind == PlanKind::Grade,
        !end.timed_out,
    ensures
        ({
            let (t1, a1) = grade_step(s, GradeReply::Ran(container, Ok(end)));
            let (t2, a2) = grade_step(t1, GradeReply::Assessed(a));
            &&& a1 == GradeAskV::Assess(end.output@) && a2 == GradeAskV::Done
            &&& t1.strike == Some(false) && t2.strike == Some(false)
            &&& t2.verdict matches Some(Ok(v)) && {
                &&& !v.timed_out && v.cleanup_diagnostic is None
                &&& !end.exit_ok && a.offline_gap ==> v.passed is None && v.infra_gap is Some
                &&& end.exit_ok || !a.offline_gap ==> v.infra_gap is None && v.note == a.note@
                    && v.passed == Some(end.exit_ok && a.tests > 0)
            }
        }),
{
}

/// Whether a removal left nothing behind: it ended in time, and exited zero or
/// found the container gone.
pub open spec fn removed_clean(outcome: Result<CommandEnd, String>) -> bool {
    outcome matches Ok(end) && !end.timed_out && (end.exit_ok || contains(
        lowered(end.output@),
        "no such container"@,
    ))
}

/// A grade that runs out of time has its container removed, within ten seconds
/// or its own shorter time, and is a timeout, neither passed nor failed; the
/// breaker counts it. What the removal could not do is told beside it.
pub proof fn law_a_grade_out_of_time_is_a_timeout(
    s: GraderV,
    container: String,
    end: CommandEnd,
    outcome: Result<CommandEnd, String>,
)
    requires
        s.at == GradeStage::AwaitRun,
        s.kind == PlanKind::Grade,
        end.timed_out,
    ensures
        ({
            let (t1, a1) = grade_step(s, GradeReply::Ran(container, Ok(end)));
            let (t2, a2) = grade_step(t1, GradeReply::Removed(outcome));
            &&& a1 == GradeAskV::Remove(
                container@,
                if s.timeout_secs < 10 {
                    s.timeout_secs
                } else {
                    10
                },
            )
            &&& a2 == GradeAskV::Done && t2.strike == Some(true)
            &&& t2.verdict matches Some(Ok(v)) && {
                &&& v.timed_out && v.passed is None && v.infra_gap is None
                &&& v.note == "grade timed out after "@ + dec(s.timeout_secs as nat) + "s"@
                &&& v.cleanup_diagnostic is None <==> removed_clean(outcome)
            }
        }),
{
}

/// A command that could not be watched has its container removed too, and ends
/// the grade with what was said of it first, and then of the removal.
pub proof fn law_an_unwatched_command_ends_the_grade(
    s: GraderV,
    container: String,
    said: String,
    outcome: Result<CommandEnd, String>,
)
    requires
        s.at == GradeStage::AwaitRun,
    ensures
        ({
            let (t1, a1) = grade_step(s, GradeReply::Ran(container, Err(said)));
            let (t2, a2) = grade_step(t1, GradeReply::Removed(outcome));
            &&& a1 matches GradeAskV::Remove(name, secs) && name == container@ && secs <= 10
            &&& a2 == GradeAskV::Done && t2.health_checked == s.health_checked && t2.warmed
                == s.warmed
            &&& t2.verdict matches Some(Err(m)) && m.len() >= said@.len() && m.take(
                said@.len() as int,
            ) == said@
            &&& removed_clean(outcome) ==> t2.verdict == Some(
                Err::<VerdictV, Seq<char>>(
                    said@ + "; "@ + ("exact Docker cleanup completed for container '"@ + container@
                        + "'"@),
                ),
            )
        }),
{
    let t1 = grade_step(s, GradeReply::Ran(container, Err(said))).0;
    let t2 = grade_step(t1, GradeReply::Removed(outcome)).0;
    match t2.verdict {
        Some(Err(m)) => {
            assert(m.take(said@.len() as int) =~= said@);
        },
        _ => {},
    }
}

/// A check or a warming that runs out of time ends the grade with how long it
/// was given.
pub proof fn law_a_preparation_out_of_time_ends_the_grade(
    s: GraderV,
    container: String,
    end: CommandEnd,
    outcome: Result<CommandEnd, String>,
)
    requires
        s.at == GradeStage::AwaitRun,
        s.kind != PlanKind::Grade,
        end.timed_out,
        removed_clean(outcome),
    ensures
        ({
            let (t1, a1) = grade_step(s, GradeReply::Ran(container, Ok(end)));
            let (t2, a2) = grade_step(t1, GradeReply::Removed(outcome));
            let late = "timed out after "@ + dec(s.timeout_secs as nat) + "s"@;
            &&& a1 is Remove && a2 == GradeAskV::Done
            &&& t2.health_checked == s.health_checked && t2.warmed == s.warmed && t2.strike
                == s.strike
            &&& s.kind == PlanKind::Health ==> t2.verdict == Some(
                Err::<VerdictV, Seq<char>>(
                    "docker failed its pre-flight health check (a container must run to completion): "@
                        + late,
                ),
            )
            &&& s.kind == PlanKind::Warm ==> t2.verdict == Some(
                Err::<VerdictV, Seq<char>>(
                    "Cargo cache preparation failed for task '"@ + s.task_id + "': "@ + late,
                ),
            )
        }),
{
    let late = "timed out after "@ + dec(s.timeout_secs as nat) + "s"@;
    assert(late + Seq::<char>::empty() =~= late);
}

} // verus!
