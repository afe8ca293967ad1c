//! The lesson-on/off A/B, one transition at a time: the grader self-test gate,
//! both arms, the injection contract (a result is void unless each arm
//! injected as configured), then the statistics.
use vstd::prelude::*;
use vstd::string::StringExecFns;

use crate::text::copy_strings;
#[allow(unused_imports)]
use crate::text::views;
use crate::upliftrun::{
    assert_grader_selftest, Aggregate, InjectionSummary, Significance, UpliftArmRow, UpliftReport,
};
#[allow(unused_imports)]
use crate::upliftrun::selftest_refusal;

verus! {

// ---------------------------------------------------------------------------
// Vocabulary
// ---------------------------------------------------------------------------
/// The arms of the A/B.
#[derive(Clone, Copy, Debug, PartialEq, Eq, Structural)]
pub enum UpliftArm {
    Baseline,
    Lessons,
}

/// The name of an arm.
pub open spec fn arm_name(arm: UpliftArm) -> Seq<char> {
    match arm {
        UpliftArm::Baseline => "baseline"@,
        UpliftArm::Lessons => "lessons"@,
    }
}

fn name_arm(arm: UpliftArm) -> (out: String)
    ensures
        out@ == arm_name(arm),
{
    match arm {
        UpliftArm::Baseline => "baseline".to_string(),
        UpliftArm::Lessons => "lessons".to_string(),
    }
}

/// One task's trials: whether each passed, and the memories each used.
#[derive(Clone, Debug, PartialEq, Eq)]
pub struct TaskResult {
    pub passes: Vec<bool>,
    pub memories_used: Vec<Vec<String>>,
}

/// One task's trials, mathematically.
#[verifier::ext_equal]
pub struct TaskResultV {
    pub passes: Seq<bool>,
    pub memories_used: Seq<Seq<Seq<char>>>,
}

impl View for TaskResult {
    type V = TaskResultV;

    open spec fn view(&self) -> TaskResultV {
        TaskResultV {
            passes: self.passes@,
            memories_used: self.memories_used@.map_values(|m: Vec<String>| views(m@)),
        }
    }
}

/// A task without a trial yet.
pub open spec fn untried() -> TaskResultV {
    TaskResultV { passes: seq![], memories_used: seq![] }
}

/// The views of a list of results.
pub open spec fn results_view(results: Seq<TaskResult>) -> Seq<TaskResultV> {
    results.map_values(|r: TaskResult| r@)
}

/// Where a run stands: what it waits for.
#[derive(Clone, Copy, Debug, PartialEq, Eq, Structural)]
pub enum UpliftStage {
    Start,
    SelfTest,
    Isolation,
    Turn,
    Injection,
    Aggregate,
    Significance,
    Finished,
}

/// What a run asks of its driver.
#[derive(Clone, Copy, Debug, PartialEq, Eq, Structural)]
pub enum UpliftAsk {
    Proceed,
    /// Grade the two references.
    SelfTest,
    /// Assert that an arm's configuration is isolated.
    Isolate(UpliftArm),
    /// Run and grade one trial of one task.
    Turn(UpliftArm, usize, u32),
    /// Assert an arm's injection contract.
    Injection(UpliftArm),
    /// Compute an arm's statistics.
    Aggregate(UpliftArm),
    /// Compare the arms.
    Significance,
    Finished,
}

/// What a driver replies.
#[derive(Debug, PartialEq, Eq)]
pub enum UpliftReply {
    Proceed,
    /// What the grader says of the right and of the wrong reference.
    SelfTested(bool, bool),
    Isolated(Result<(), String>),
    /// Whether the trial passed and the memories it used, or why it failed.
    Turned(Result<(bool, Vec<String>), String>),
    Injected(Result<InjectionSummary, String>),
    Aggregated(Result<Aggregate, String>),
    Compared(Significance),
}

// ---------------------------------------------------------------------------
// The model
// ---------------------------------------------------------------------------
/// A run, mathematically.
#[verifier::ext_equal]
pub struct UpliftV {
    /// How many tasks the set has.
    pub tasks: int,
    pub trials: u32,
    pub at: UpliftStage,
    pub arm: UpliftArm,
    pub task: int,
    pub trial: u32,
    pub current: TaskResultV,
    pub baseline: Seq<TaskResultV>,
    pub lessons: Seq<TaskResultV>,
    pub baseline_injection: Option<InjectionSummary>,
    pub lesson_injection: Option<InjectionSummary>,
    pub baseline_aggregate: Option<Aggregate>,
    pub lesson_aggregate: Option<Aggregate>,
    pub uplift: Option<Significance>,
    pub failure: Option<Seq<char>>,
}

/// The run before its first transition.
pub open spec fn uplift_start(tasks: int, trials: u32) -> UpliftV {
    UpliftV {
        tasks,
        trials,
        at: UpliftStage::Start,
        arm: UpliftArm::Baseline,
        task: 0,
        trial: 0,
        current: untried(),
        baseline: seq![],
        lessons: seq![],
        baseline_injection: None,
        lesson_injection: None,
        baseline_aggregate: None,
        lesson_aggregate: None,
        uplift: None,
        failure: None,
    }
}

/// The run ends without a result.
pub open spec fn refused(s: UpliftV, message: Seq<char>) -> (UpliftV, UpliftAsk) {
    (
        UpliftV { at: UpliftStage::Finished, failure: Some(message), ..s },
        UpliftAsk::Finished,
    )
}

/// An arm begins. It needs a trial.
pub open spec fn began(s: UpliftV, arm: UpliftArm) -> (UpliftV, UpliftAsk) {
    if s.trials < 1 {
        refused(s, "uplift arm '"@ + arm_name(arm) + "' needs at least one trial"@)
    } else {
        (
            UpliftV { arm, task: 0, trial: 0, at: UpliftStage::Isolation, ..s },
            UpliftAsk::Isolate(arm),
        )
    }
}

/// The arm goes on: its next trial, the other arm, or the contracts.
pub open spec fn went_on(s: UpliftV) -> (UpliftV, UpliftAsk) {
    if s.task < s.tasks {
        (
            UpliftV { at: UpliftStage::Turn, ..s },
            UpliftAsk::Turn(s.arm, s.task as usize, s.trial),
        )
    } else {
        match s.arm {
            UpliftArm::Baseline => began(s, UpliftArm::Lessons),
            UpliftArm::Lessons => (
                UpliftV { arm: UpliftArm::Baseline, at: UpliftStage::Injection, ..s },
                UpliftAsk::Injection(UpliftArm::Baseline),
            ),
        }
    }
}

/// A trial is over.
pub open spec fn tried(s: UpliftV, passed: bool, memories: Seq<Seq<char>>) -> UpliftV {
    let current = TaskResultV {
        passes: s.current.passes.push(passed),
        memories_used: s.current.memories_used.push(memories),
    };
    if s.trial + 1 < s.trials {
        UpliftV { current, trial: (s.trial + 1) as u32, ..s }
    } else {
        let t = UpliftV { current: untried(), trial: 0, task: s.task + 1, ..s };
        match s.arm {
            UpliftArm::Baseline => UpliftV { baseline: s.baseline.push(current), ..t },
            UpliftArm::Lessons => UpliftV { lessons: s.lessons.push(current), ..t },
        }
    }
}

pub open spec fn on_injected(s: UpliftV, outcome: Result<InjectionSummary, String>) -> (
    UpliftV,
    UpliftAsk,
) {
    match outcome {
        Err(e) => refused(s, e@),
        Ok(summary) => match s.arm {
            UpliftArm::Baseline => (
                UpliftV {
                    baseline_injection: Some(summary),
                    arm: UpliftArm::Lessons,
                    ..s
                },
                UpliftAsk::Injection(UpliftArm::Lessons),
            ),
            UpliftArm::Lessons => (
                UpliftV {
                    lesson_injection: Some(summary),
                    arm: UpliftArm::Baseline,
                    at: UpliftStage::Aggregate,
                    ..s
                },
                UpliftAsk::Aggregate(UpliftArm::Baseline),
            ),
        },
    }
}

pub open spec fn on_aggregated(s: UpliftV, outcome: Result<Aggregate, String>) -> (
    UpliftV,
    UpliftAsk,
) {
    match outcome {
        Err(e) => refused(s, e@),
        Ok(aggregate) => match s.arm {
            UpliftArm::Baseline => (
                UpliftV {
                    baseline_aggregate: Some(aggregate),
                    arm: UpliftArm::Lessons,
                    ..s
                },
                UpliftAsk::Aggregate(UpliftArm::Lessons),
            ),
            UpliftArm::Lessons => (
                UpliftV {
                    lesson_aggregate: Some(aggregate),
                    at: UpliftStage::Significance,
                    ..s
                },
                UpliftAsk::Significance,
            ),
        },
    }
}

/// One transition. A reply that answers no question changes nothing.
pub open spec fn uplift_step(s: UpliftV, reply: UpliftReply) -> (UpliftV, UpliftAsk) {
    match (s.at, reply) {
        (UpliftStage::Start, UpliftReply::Proceed) => (
            UpliftV { at: UpliftStage::SelfTest, ..s },
            UpliftAsk::SelfTest,
        ),
        (UpliftStage::SelfTest, UpliftReply::SelfTested(right, wrong)) => match selftest_refusal(
            right,
            wrong,
        ) {
            Some(m) => refused(s, m),
            None => began(s, UpliftArm::Baseline),
        },
        (UpliftStage::Isolation, UpliftReply::Isolated(outcome)) => match outcome {
            Ok(_) => went_on(s),
            Err(e) => refused(s, e@),
        },
        (UpliftStage::Turn, UpliftReply::Turned(outcome)) => match outcome {
            Ok(turn) => went_on(tried(s, turn.0, views(turn.1@))),
            Err(e) => refused(s, e@),
        },
        (UpliftStage::Injection, UpliftReply::Injected(outcome)) => on_injected(s, outcome),
        (UpliftStage::Aggregate, UpliftReply::Aggregated(outcome)) => on_aggregated(s, outcome),
        (UpliftStage::Significance, UpliftReply::Compared(uplift)) => (
            UpliftV { uplift: Some(uplift), at: UpliftStage::Finished, ..s },
            UpliftAsk::Finished,
        ),
        _ => (s, UpliftAsk::Proceed),
    }
}

// ---------------------------------------------------------------------------
// Laws
// ---------------------------------------------------------------------------
/// Every one of some results has as many trials as asked.
pub open spec fn fully_tried(results: Seq<TaskResultV>, trials: u32) -> bool {
    forall|i: int|
        0 <= i < results.len() ==> (#[trigger] results[i]).passes.len() == trials
            && results[i].memories_used.len() == trials
}

/// The arms have both run.
pub open spec fn both_ran(s: UpliftV) -> bool {
    s.baseline.len() == s.tasks && s.lessons.len() == s.tasks
}

/// What holds of every run.
pub open spec fn uplift_sound(s: UpliftV) -> bool {
    &&& s.tasks >= 0
    &&& fully_tried(s.baseline, s.trials) && fully_tried(s.lessons, s.trials)
    &&& 0 <= s.task <= s.tasks
    &&& s.current.passes.len() == s.trial && s.current.memories_used.len() == s.trial
    &&& s.at is Isolation ==> s.task == 0 && s.trial == 0 && s.trials >= 1
    &&& s.at is Turn ==> s.task < s.tasks && s.trial < s.trials
    &&& s.at is Start || s.at is SelfTest ==> s.baseline.len() == 0 && s.lessons.len() == 0
        && s.task == 0 && s.trial == 0
    &&& s.at is Isolation || s.at is Turn ==> {
        &&& s.arm is Baseline ==> s.baseline.len() == s.task && s.lessons.len() == 0
        &&& s.arm is Lessons ==> s.baseline.len() == s.tasks && s.lessons.len() == s.task
    }
    &&& s.at is Injection || s.at is Aggregate || s.at is Significance ==> both_ran(s)
    &&& s.at is Injection && s.arm is Lessons ==> s.baseline_injection is Some
    &&& s.at is Aggregate || s.at is Significance ==> s.baseline_injection is Some
        && s.lesson_injection is Some
    &&& s.at is Aggregate && s.arm is Lessons ==> s.baseline_aggregate is Some
    &&& s.at is Significance ==> s.baseline_aggregate is Some && s.lesson_aggregate is Some
    &&& !(s.at is Finished) ==> s.failure is None && s.uplift is None
    &&& s.at is Finished ==> (s.failure is None) != (s.uplift is None)
    &&& s.uplift is Some ==> both_ran(s) && s.baseline_injection is Some
        && s.lesson_injection is Some && s.baseline_aggregate is Some && s.lesson_aggregate is Some
}

/// A run begins sound and every transition keeps it sound.
pub proof fn law_every_uplift_transition_is_sound(s: UpliftV, reply: UpliftReply)
    requires
        uplift_sound(s),
    ensures
        uplift_sound(uplift_step(s, reply).0),
        uplift_step(s, reply).0.tasks == s.tasks,
        uplift_step(s, reply).0.trials == s.trials,
{
}

/// The run after a list of replies.
pub open spec fn uplift_after(tasks: int, trials: u32, replies: Seq<UpliftReply>) -> UpliftV
    decreases replies.len(),
{
    if replies.len() == 0 {
        uplift_start(tasks, trials)
    } else {
        uplift_step(uplift_after(tasks, trials, replies.drop_last()), replies.last()).0
    }
}

/// A number is never drawn from a partial or a void run: a result stands only
/// if both arms ran every task as often as asked and both injection contracts
/// held; otherwise the run ends with a reason and without a result.
pub proof fn law_a_result_is_never_partial_or_void(
    tasks: int,
    trials: u32,
    replies: Seq<UpliftReply>,
)
    requires
        tasks >= 0,
    ensures
        ({
            let s = uplift_after(tasks, trials, replies);
            &&& uplift_sound(s)
            &&& s.tasks == tasks && s.trials == trials
            &&& s.uplift is Some ==> s.at is Finished && s.failure is None && s.baseline.len()
                == tasks && s.lessons.len() == tasks && fully_tried(s.baseline, trials)
                && fully_tried(s.lessons, trials) && s.baseline_injection is Some
                && s.lesson_injection is Some
            &&& s.failure is Some ==> s.uplift is None
        }),
    decreases replies.len(),
{
    if replies.len() > 0 {
        law_a_result_is_never_partial_or_void(tasks, trials, replies.drop_last());
        law_every_uplift_transition_is_sound(
            uplift_after(tasks, trials, replies.drop_last()),
            replies.last(),
        );
    }
}

/// The question that a run waits to have answered after some replies: the last
/// that was more than "go on".
pub open spec fn question(tasks: int, trials: u32, replies: Seq<UpliftReply>) -> UpliftAsk
    decreases replies.len(),
{
    if replies.len() == 0 {
        UpliftAsk::Proceed
    } else {
        let front = replies.drop_last();
        let ask = uplift_step(uplift_after(tasks, trials, front), replies.last()).1;
        if ask is Proceed {
            question(tasks, trials, front)
        } else {
            ask
        }
    }
}

/// The results of an arm.
pub open spec fn arm_results(s: UpliftV, arm: UpliftArm) -> Seq<TaskResultV> {
    match arm {
        UpliftArm::Baseline => s.baseline,
        UpliftArm::Lessons => s.lessons,
    }
}

/// What the state of a run says of its question.
spec fn expects(s: UpliftV, ask: UpliftAsk) -> bool {
    &&& s.at is Turn <==> ask is Turn
    &&& s.at is Turn ==> ask == UpliftAsk::Turn(s.arm, s.task as usize, s.trial)
    &&& s.at is Injection <==> ask is Injection
    &&& s.at is Injection ==> ask == UpliftAsk::Injection(s.arm)
    &&& s.at is Aggregate <==> ask is Aggregate
    &&& s.at is Aggregate ==> ask == UpliftAsk::Aggregate(s.arm)
    &&& s.at is Significance <==> ask is Significance
    &&& s.at is Injection || s.at is Aggregate || s.at is Significance ==> s.trial == 0
}

/// A trial of a task stands in the results, or in the task that is under way.
spec fn stands(s: UpliftV, arm: UpliftArm, i: int, j: int, pass: bool, ids: Seq<Seq<char>>) -> bool {
    let done = arm_results(s, arm);
    if i < done.len() {
        j < done[i].passes.len() && done[i].passes[j] == pass && done[i].memories_used[j] == ids
    } else {
        &&& i == done.len() && s.arm == arm
        &&& j < s.current.passes.len()
        &&& s.current.passes[j] == pass && s.current.memories_used[j] == ids
    }
}

proof fn lemma_expectation(tasks: int, trials: u32, replies: Seq<UpliftReply>)
    requires
        0 <= tasks <= usize::MAX,
    ensures
        expects(uplift_after(tasks, trials, replies), question(tasks, trials, replies)),
    decreases replies.len(),
{
    if replies.len() > 0 {
        lemma_expectation(tasks, trials, replies.drop_last());
        law_a_result_is_never_partial_or_void(tasks, trials, replies.drop_last());
    }
}

/// What stands goes on standing.
proof fn lemma_results_stay(
    s: UpliftV,
    reply: UpliftReply,
    ask: UpliftAsk,
    arm: UpliftArm,
    i: int,
    j: int,
    pass: bool,
    ids: Seq<Seq<char>>,
)
    requires
        uplift_sound(s),
        expects(s, ask),
        0 <= i && 0 <= j,
        stands(s, arm, i, j, pass, ids),
    ensures
        stands(uplift_step(s, reply).0, arm, i, j, pass, ids),
{
}

/// A trial that was answered stands.
proof fn lemma_a_turn_stands(
    tasks: int,
    trials: u32,
    replies: Seq<UpliftReply>,
    k: int,
    arm: UpliftArm,
    i: usize,
    j: u32,
    turn: (bool, Vec<String>),
)
    requires
        0 <= tasks <= usize::MAX,
        0 <= k < replies.len(),
        question(tasks, trials, replies.take(k)) == UpliftAsk::Turn(arm, i, j),
        replies[k] == UpliftReply::Turned(Ok(turn)),
    ensures
        stands(
            uplift_after(tasks, trials, replies),
            arm,
            i as int,
            j as int,
            turn.0,
            views(turn.1@),
        ),
    decreases replies.len(),
{
    let front = replies.drop_last();
    let s = uplift_after(tasks, trials, front);
    law_a_result_is_never_partial_or_void(tasks, trials, front);
    lemma_expectation(tasks, trials, front);
    if k == replies.len() - 1 {
        assert(replies.take(k) =~= front);
    } else {
        assert(front.take(k) =~= replies.take(k));
        lemma_a_turn_stands(tasks, trials, front, k, arm, i, j, turn);
        lemma_results_stay(
            s,
            replies.last(),
            question(tasks, trials, front),
            arm,
            i as int,
            j as int,
            turn.0,
            views(turn.1@),
        );
    }
}

/// What a trial showed is what its result says: the reply to the question for
/// trial `j` of task `i` in an arm, and no other, decides whether that trial
/// counts as passed and which memories it is said to have used, from then on
/// and for as long as the run lasts.
pub proof fn law_a_result_is_its_own_turn(
    tasks: int,
    trials: u32,
    replies: Seq<UpliftReply>,
    k: int,
    arm: UpliftArm,
    i: usize,
    j: u32,
    turn: (bool, Vec<String>),
)
    requires
        0 <= tasks <= usize::MAX,
        0 <= k < replies.len(),
        question(tasks, trials, replies.take(k)) == UpliftAsk::Turn(arm, i, j),
        replies[k] == UpliftReply::Turned(Ok(turn)),
    ensures
        ({
            let done = arm_results(uplift_after(tasks, trials, replies), arm);
            i < done.len() ==> {
                &&& j < done[i as int].passes.len() && done[i as int].passes[j as int] == turn.0
                &&& done[i as int].memories_used[j as int] == views(turn.1@)
            }
        }),
{
    lemma_a_turn_stands(tasks, trials, replies, k, arm, i, j, turn);
}

/// Nothing else gets into the results: each trial that stands in an arm's
/// results was asked for, by its arm, task and number, and answered so.
pub proof fn law_every_result_was_a_turn(
    tasks: int,
    trials: u32,
    replies: Seq<UpliftReply>,
    arm: UpliftArm,
    i: int,
    j: int,
) -> (k: int)
    requires
        0 <= tasks <= usize::MAX,
        0 <= i < arm_results(uplift_after(tasks, trials, replies), arm).len(),
        0 <= j < trials,
    ensures
        0 <= k < replies.len(),
        question(tasks, trials, replies.take(k)) == UpliftAsk::Turn(arm, i as usize, j as u32),
        replies[k] matches UpliftReply::Turned(Ok(turn)) && ({
            let done = arm_results(uplift_after(tasks, trials, replies), arm);
            turn.0 == done[i].passes[j] && views(turn.1@) == done[i].memories_used[j]
        }),
{
    law_a_result_is_never_partial_or_void(tasks, trials, replies);
    let done = arm_results(uplift_after(tasks, trials, replies), arm);
    lemma_turn_behind(
        tasks,
        trials,
        replies,
        arm,
        i,
        j,
        done[i].passes[j],
        done[i].memories_used[j],
    )
}

proof fn lemma_turn_behind(
    tasks: int,
    trials: u32,
    replies: Seq<UpliftReply>,
    arm: UpliftArm,
    i: int,
    j: int,
    pass: bool,
    ids: Seq<Seq<char>>,
) -> (k: int)
    requires
        0 <= tasks <= usize::MAX,
        0 <= i && 0 <= j,
        stands(uplift_after(tasks, trials, replies), arm, i, j, pass, ids),
    ensures
        0 <= k < replies.len(),
        question(tasks, trials, replies.take(k)) == UpliftAsk::Turn(arm, i as usize, j as u32),
        replies[k] matches UpliftReply::Turned(Ok(turn)) && turn.0 == pass && views(turn.1@) == ids,
    decreases replies.len(),
{
    if replies.len() == 0 {
        0
    } else {
        let front = replies.drop_last();
        let s = uplift_after(tasks, trials, front);
        law_a_result_is_never_partial_or_void(tasks, trials, front);
        lemma_expectation(tasks, trials, front);
        if stands(s, arm, i, j, pass, ids) {
            let k = lemma_turn_behind(tasks, trials, front, arm, i, j, pass, ids);
            assert(replies.take(k) =~= front.take(k));
            k
        } else {
            assert(replies.take(replies.len() - 1) =~= front);
            replies.len() - 1
        }
    }
}

/// The trials of a run come in order, each once: the trials of a task, the
/// tasks of an arm, the baseline before the lessons, each arm after its
/// isolation was asserted, and the injection contracts when both arms are done.
pub proof fn law_turns_come_in_order(
    tasks: int,
    trials: u32,
    replies: Seq<UpliftReply>,
    reply: UpliftReply,
)
    requires
        0 <= tasks <= usize::MAX,
        trials > 0,
    ensures
        ({
            let asked = question(tasks, trials, replies);
            let next = question(tasks, trials, replies.push(reply));
            &&& asked is SelfTest ==> reply == UpliftReply::SelfTested(true, false) ==> next
                == UpliftAsk::Isolate(UpliftArm::Baseline)
            &&& asked matches UpliftAsk::Isolate(arm) ==> (reply matches UpliftReply::Isolated(Ok(_))
                ==> next == if tasks > 0 {
                UpliftAsk::Turn(arm, 0, 0)
            } else if arm is Baseline {
                UpliftAsk::Isolate(UpliftArm::Lessons)
            } else {
                UpliftAsk::Injection(UpliftArm::Baseline)
            })
            &&& asked matches UpliftAsk::Turn(arm, i, j) ==> (reply matches UpliftReply::Turned(Ok(_))
                ==> next == if j + 1 < trials {
                UpliftAsk::Turn(arm, i, (j + 1) as u32)
            } else if i + 1 < tasks {
                UpliftAsk::Turn(arm, (i + 1) as usize, 0)
            } else if arm is Baseline {
                UpliftAsk::Isolate(UpliftArm::Lessons)
            } else {
                UpliftAsk::Injection(UpliftArm::Baseline)
            })
            &&& asked matches UpliftAsk::Injection(arm) ==> (
            reply matches UpliftReply::Injected(Ok(_)) ==> next == if arm is Baseline {
                UpliftAsk::Injection(UpliftArm::Lessons)
            } else {
                UpliftAsk::Aggregate(UpliftArm::Baseline)
            })
            &&& asked matches UpliftAsk::Aggregate(arm) ==> (
            reply matches UpliftReply::Aggregated(Ok(_)) ==> next == if arm is Baseline {
                UpliftAsk::Aggregate(UpliftArm::Lessons)
            } else {
                UpliftAsk::Significance
            })
        }),
{
    let more = replies.push(reply);
    assert(more.drop_last() =~= replies);
    law_a_result_is_never_partial_or_void(tasks, trials, replies);
    lemma_expectation(tasks, trials, replies);
    lemma_other_expectation(tasks, trials, replies);
}

proof fn lemma_other_expectation(tasks: int, trials: u32, replies: Seq<UpliftReply>)
    ensures
        ({
            let s = uplift_after(tasks, trials, replies);
            let ask = question(tasks, trials, replies);
            &&& s.at is SelfTest <==> ask is SelfTest
            &&& s.at is Isolation <==> ask is Isolate
            &&& s.at is Isolation ==> ask == UpliftAsk::Isolate(s.arm)
        }),
    decreases replies.len(),
{
    if replies.len() > 0 {
        lemma_other_expectation(tasks, trials, replies.drop_last());
    }
}

/// What an arm's injection contract, its statistics and the comparison were
/// answered with is what the run keeps and reports.
pub proof fn law_a_report_keeps_what_was_answered(
    tasks: int,
    trials: u32,
    replies: Seq<UpliftReply>,
    k: int,
)
    requires
        0 <= tasks <= usize::MAX,
        0 <= k < replies.len(),
    ensures
        ({
            let asked = question(tasks, trials, replies.take(k));
            let s = uplift_after(tasks, trials, replies);
            &&& asked == UpliftAsk::Injection(UpliftArm::Baseline) ==> (
            replies[k] matches UpliftReply::Injected(Ok(summary)) ==> s.baseline_injection == Some(
                summary,
            ))
            &&& asked == UpliftAsk::Injection(UpliftArm::Lessons) ==> (
            replies[k] matches UpliftReply::Injected(Ok(summary)) ==> s.lesson_injection == Some(
                summary,
            ))
            &&& asked == UpliftAsk::Aggregate(UpliftArm::Baseline) ==> (
            replies[k] matches UpliftReply::Aggregated(Ok(a)) ==> s.baseline_aggregate == Some(a))
            &&& asked == UpliftAsk::Aggregate(UpliftArm::Lessons) ==> (
            replies[k] matches UpliftReply::Aggregated(Ok(a)) ==> s.lesson_aggregate == Some(a))
            &&& asked is Significance ==> (replies[k] matches UpliftReply::Compared(uplift)
                ==> s.uplift == Some(uplift) && s.failure is None && s.at is Finished)
        }),
    decreases replies.len(),
{
    let front = replies.drop_last();
    law_a_result_is_never_partial_or_void(tasks, trials, front);
    lemma_expectation(tasks, trials, front);
    if k == replies.len() - 1 {
        assert(replies.take(k) =~= front);
    } else {
        assert(front.take(k) =~= replies.take(k));
        law_a_report_keeps_what_was_answered(tasks, trials, front, k);
        lemma_answers_are_settled(tasks, trials, front, k);
    }
}

/// Where a run stands once a question of its second half was answered.
proof fn lemma_answers_are_settled(tasks: int, trials: u32, replies: Seq<UpliftReply>, k: int)
    requires
        0 <= tasks <= usize::MAX,
        0 <= k < replies.len(),
    ensures
        ({
            let asked = question(tasks, trials, replies.take(k));
            let s = uplift_after(tasks, trials, replies);
            let done = s.at is Finished;
            let compared = s.at is Significance || done;
            let second_aggregate = s.at is Aggregate && s.arm is Lessons || compared;
            let aggregates = s.at is Aggregate || compared;
            &&& asked == UpliftAsk::Injection(UpliftArm::Baseline) ==> (
            replies[k] matches UpliftReply::Injected(Ok(_)) ==> s.at is Injection && s.arm is Lessons
                || aggregates)
            &&& asked == UpliftAsk::Injection(UpliftArm::Lessons) ==> (
            replies[k] matches UpliftReply::Injected(Ok(_)) ==> aggregates)
            &&& asked == UpliftAsk::Aggregate(UpliftArm::Baseline) ==> (
            replies[k] matches UpliftReply::Aggregated(Ok(_)) ==> second_aggregate)
            &&& asked == UpliftAsk::Aggregate(UpliftArm::Lessons) ==> (
            replies[k] matches UpliftReply::Aggregated(Ok(_)) ==> compared)
            &&& asked is Significance ==> (replies[k] matches UpliftReply::Compared(_) ==> done)
        }),
    decreases replies.len(),
{
    let front = replies.drop_last();
    law_a_result_is_never_partial_or_void(tasks, trials, front);
    lemma_expectation(tasks, trials, front);
    if k == replies.len() - 1 {
        assert(replies.take(k) =~= front);
    } else {
        assert(front.take(k) =~= replies.take(k));
        lemma_answers_are_settled(tasks, trials, front, k);
    }
}

/// The first refusal ends a run, and its words are the run's: a self-test that
/// does not tell right from wrong, an isolation or a contract that fails, a
/// trial or a computation that breaks. Nothing is asked or changed afterwards.
pub proof fn law_a_refusal_ends_the_run(
    tasks: int,
    trials: u32,
    replies: Seq<UpliftReply>,
    reply: UpliftReply,
    more: UpliftReply,
)
    requires
        0 <= tasks <= usize::MAX,
    ensures
        ({
            let asked = question(tasks, trials, replies);
            let s = uplift_after(tasks, trials, replies.push(reply));
            &&& asked is SelfTest ==> (reply matches UpliftReply::SelfTested(right, wrong) ==> (
            !right || wrong) ==> s.at is Finished && s.failure is Some)
            &&& asked is Isolate ==> (reply matches UpliftReply::Isolated(Err(e)) ==> s.failure
                == Some(e@))
            &&& asked is Turn ==> (reply matches UpliftReply::Turned(Err(e)) ==> s.failure == Some(
                e@,
            ))
            &&& asked is Injection ==> (reply matches UpliftReply::Injected(Err(e)) ==> s.failure
                == Some(e@))
            &&& asked is Aggregate ==> (reply matches UpliftReply::Aggregated(Err(e)) ==> s.failure
                == Some(e@))
            &&& s.failure is Some ==> s.at is Finished
            &&& s.at is Finished ==> uplift_step(s, more).0 == s && uplift_step(s, more).1 is Proceed
        }),
{
    assert(replies.push(reply).drop_last() =~= replies);
    law_a_result_is_never_partial_or_void(tasks, trials, replies);
    law_a_result_is_never_partial_or_void(tasks, trials, replies.push(reply));
    lemma_expectation(tasks, trials, replies);
    lemma_other_expectation(tasks, trials, replies);
}

// ---------------------------------------------------------------------------
// The run
// ---------------------------------------------------------------------------
/// An A/B in progress.
pub struct UpliftRun {
    tasks: usize,
    trials: u32,
    at: UpliftStage,
    arm: UpliftArm,
    task: usize,
    trial: u32,
    current: TaskResult,
    baseline: Vec<TaskResult>,
    lessons: Vec<TaskResult>,
    baseline_injection: Option<InjectionSummary>,
    lesson_injection: Option<InjectionSummary>,
    baseline_aggregate: Option<Aggregate>,
    lesson_aggregate: Option<Aggregate>,
    uplift: Option<Significance>,
    failure: Option<String>,
}

impl View for UpliftRun {
    type V = UpliftV;

    closed spec fn view(&self) -> UpliftV {
        UpliftV {
            tasks: self.tasks as int,
            trials: self.trials,
            at: self.at,
            arm: self.arm,
            task: self.task as int,
            trial: self.trial,
            current: self.current@,
            baseline: results_view(self.baseline@),
            lessons: results_view(self.lessons@),
            baseline_injection: self.baseline_injection,
            lesson_injection: self.lesson_injection,
            baseline_aggregate: self.baseline_aggregate,
            lesson_aggregate: self.lesson_aggregate,
            uplift: self.uplift,
            failure: match self.failure {
                Some(m) => Some(m@),
                None => None,
            },
        }
    }
}

fn no_result() -> (out: TaskResult)
    ensures
        out@ == untried(),
{
    let passes: Vec<bool> = Vec::new();
    let memories_used: Vec<Vec<String>> = Vec::new();
    let out: TaskResult = TaskResult { passes, memories_used };
    assert(out@.passes =~= seq![]);
    assert(out@.memories_used =~= seq![]);
    out
}

/// Begin an A/B over a set of so many tasks.
pub fn run_uplift(tasks: usize, trials: u32) -> (out: UpliftRun)
    ensures
        out.well_formed(),
        out@ == uplift_start(tasks as int, trials),
{
    let baseline: Vec<TaskResult> = Vec::new();
    let lessons: Vec<TaskResult> = Vec::new();
    assert(results_view(baseline@) =~= seq![]);
    assert(results_view(lessons@) =~= seq![]);
    UpliftRun {
        tasks,
        trials,
        at: UpliftStage::Start,
        arm: UpliftArm::Baseline,
        task: 0,
        trial: 0,
        current: no_result(),
        baseline,
        lessons,
        baseline_injection: None,
        lesson_injection: None,
        baseline_aggregate: None,
        lesson_aggregate: None,
        uplift: None,
        failure: None,
    }
}

fn row(arm: UpliftArm, aggregate: &Aggregate, injection: InjectionSummary) -> (out: UpliftArmRow)
    ensures
        out.arm@ == arm_name(arm),
        out.is_lesson_arm == (arm is Lessons),
        out.injection == injection,
        out.aggregate.mean_percent@ == aggregate.mean_percent@,
        out.aggregate.stddev@ == aggregate.stddev@,
        out.aggregate.per_trial_percent@ == aggregate.per_trial_percent@,
{
    UpliftArmRow {
        arm: name_arm(arm),
        is_lesson_arm: match arm {
            UpliftArm::Baseline => false,
            UpliftArm::Lessons => true,
        },
        aggregate: Aggregate {
            mean_percent: aggregate.mean_percent.clone(),
            stddev: aggregate.stddev.clone(),
            per_trial_percent: copy_strings(&aggregate.per_trial_percent),
        },
        injection,
    }
}

impl UpliftRun {
    /// The run is sound.
    pub open spec fn well_formed(self) -> bool {
        uplift_sound(self@)
    }

    /// Where the run stands.
    pub fn stage(&self) -> (out: UpliftStage)
        ensures
            out == self@.at,
    {
        self.at
    }

    /// The results of an arm so far.
    pub fn results(&self, arm: UpliftArm) -> (out: &Vec<TaskResult>)
        ensures
            results_view(out@) == match arm {
                UpliftArm::Baseline => self@.baseline,
                UpliftArm::Lessons => self@.lessons,
            },
    {
        match arm {
            UpliftArm::Baseline => &self.baseline,
            UpliftArm::Lessons => &self.lessons,
        }
    }

    /// The report of a finished run, or why there is none.
    pub fn report(&self, task_set: &str, model: &str) -> (out: Option<Result<UpliftReport, String>>)
        requires
            self.well_formed(),
        ensures
            match out {
                None => !(self@.at is Finished),
                Some(Err(m)) => self@.at is Finished && self@.failure == Some(m@),
                Some(Ok(r)) => {
                    &&& self@.at is Finished && self@.failure is None
                    &&& r.schema == 1 && r.task_set@ == task_set@ && r.model@ == model@
                    &&& r.trials == self@.trials
                    &&& r.arms@.len() == 2
                    &&& r.arms@[0].arm@ == "baseline"@ && !r.arms@[0].is_lesson_arm
                    &&& r.arms@[1].arm@ == "lessons"@ && r.arms@[1].is_lesson_arm
                    &&& Some(r.arms@[0].injection) == self@.baseline_injection
                    &&& Some(r.arms@[1].injection) == self@.lesson_injection
                    &&& self@.baseline_aggregate matches Some(a) && r.arms@[0].aggregate.mean_percent@
                        == a.mean_percent@ && r.arms@[0].aggregate.stddev@ == a.stddev@
                        && r.arms@[0].aggregate.per_trial_percent@ == a.per_trial_percent@
                    &&& self@.lesson_aggregate matches Some(a) && r.arms@[1].aggregate.mean_percent@
                        == a.mean_percent@ && r.arms@[1].aggregate.stddev@ == a.stddev@
                        && r.arms@[1].aggregate.per_trial_percent@ == a.per_trial_percent@
                    &&& self@.uplift matches Some(u) && r.uplift.delta_percent@ == u.delta_percent@
                        && r.uplift.band_percent@ == u.band_percent@ && r.uplift.effect_size
                        == u.effect_size && r.uplift.verdict == u.verdict
                },
            },
    {
        if self.at != UpliftStage::Finished {
            return None;
        }
        match &self.failure {
            Some(m) => {
                return Some(Err(m.clone()));
            },
            None => {},
        }
        match (
            &self.baseline_aggregate,
            &self.lesson_aggregate,
            self.baseline_injection,
            self.lesson_injection,
            &self.uplift,
        ) {
            (Some(b), Some(l), Some(bi), Some(li), Some(u)) => {
                let mut arms: Vec<UpliftArmRow> = Vec::new();
                arms.push(row(UpliftArm::Baseline, b, bi));
                arms.push(row(UpliftArm::Lessons, l, li));
                let uplift: Significance = Significance {
                    delta_percent: u.delta_percent.clone(),
                    band_percent: u.band_percent.clone(),
                    effect_size: match &u.effect_size {
                        Some(e) => Some(e.clone()),
                        None => None,
                    },
                    verdict: u.verdict,
                };
                Some(
                    Ok(
                        UpliftReport {
                            schema: 1,
                            task_set: task_set.to_string(),
                            model: model.to_string(),
                            trials: self.trials,
                            arms,
                            uplift,
                        },
                    ),
                )
            },
            _ => None,
        }
    }

    fn refuse(&mut self, message: String) -> (ask: UpliftAsk)
        ensures
            final(self)@ == refused(old(self)@, message@).0,
            ask == refused(old(self)@, message@).1,
    {
        self.failure = Some(message);
        self.at = UpliftStage::Finished;
        UpliftAsk::Finished
    }

    fn begin(&mut self, arm: UpliftArm) -> (ask: UpliftAsk)
        ensures
            final(self)@ == began(old(self)@, arm).0,
            ask == began(old(self)@, arm).1,
    {
        if self.trials < 1 {
            let mut m: String = "uplift arm '".to_string();
            m.append(name_arm(arm).as_str());
            m.append("' needs at least one trial");
            return self.refuse(m);
        }
        self.arm = arm;
        self.task = 0;
        self.trial = 0;
        self.at = UpliftStage::Isolation;
        UpliftAsk::Isolate(arm)
    }

    fn go_on(&mut self) -> (ask: UpliftAsk)
        ensures
            final(self)@ == went_on(old(self)@).0,
            ask == went_on(old(self)@).1,
    {
        if self.task < self.tasks {
            self.at = UpliftStage::Turn;
            UpliftAsk::Turn(self.arm, self.task, self.trial)
        } else {
            match self.arm {
                UpliftArm::Baseline => self.begin(UpliftArm::Lessons),
                UpliftArm::Lessons => {
                    self.arm = UpliftArm::Baseline;
                    self.at = UpliftStage::Injection;
                    UpliftAsk::Injection(UpliftArm::Baseline)
                },
            }
        }
    }

    fn take_turn(&mut self, passed: bool, memories: Vec<String>)
        requires
            old(self)@.task < old(self)@.tasks,
            old(self)@.trial < old(self)@.trials,
        ensures
            final(self)@ == tried(old(self)@, passed, views(memories@)),
    {
        let ghost s = self@;
        let ghost ids = views(memories@);
        self.current.passes.push(passed);
        self.current.memories_used.push(memories);
        assert(self.current@.memories_used =~= s.current.memories_used.push(ids));
        assert(self.current@.passes =~= s.current.passes.push(passed));
        if self.trial + 1 < self.trials {
            self.trial = self.trial + 1;
        } else {
            let mut done: TaskResult = no_result();
            std::mem::swap(&mut done, &mut self.current);
            self.trial = 0;
            self.task = self.task + 1;
            match self.arm {
                UpliftArm::Baseline => {
                    self.baseline.push(done);
                    assert(results_view(self.baseline@) =~= s.baseline.push(done@));
                },
                UpliftArm::Lessons => {
                    self.lessons.push(done);
                    assert(results_view(self.lessons@) =~= s.lessons.push(done@));
                },
            }
        }
    }

    fn take_injection(&mut self, outcome: Result<InjectionSummary, String>) -> (ask: UpliftAsk)
        ensures
            final(self)@ == on_injected(old(self)@, outcome).0,
            ask == on_injected(old(self)@, outcome).1,
    {
        match outcome {
            Err(e) => self.refuse(e),
            Ok(summary) => match self.arm {
                UpliftArm::Baseline => {
                    self.baseline_injection = Some(summary);
                    self.arm = UpliftArm::Lessons;
                    UpliftAsk::Injection(UpliftArm::Lessons)
                },
                UpliftArm::Lessons => {
                    self.lesson_injection = Some(summary);
                    self.arm = UpliftArm::Baseline;
                    self.at = UpliftStage::Aggregate;
                    UpliftAsk::Aggregate(UpliftArm::Baseline)
                },
            },
        }
    }

    fn take_aggregate(&mut self, outcome: Result<Aggregate, String>) -> (ask: UpliftAsk)
        ensures
            final(self)@ == on_aggregated(old(self)@, outcome).0,
            ask == on_aggregated(old(self)@, outcome).1,
    {
        match outcome {
            Err(e) => self.refuse(e),
            Ok(aggregate) => match self.arm {
                UpliftArm::Baseline => {
                    self.baseline_aggregate = Some(aggregate);
                    self.arm = UpliftArm::Lessons;
                    UpliftAsk::Aggregate(UpliftArm::Lessons)
                },
                UpliftArm::Lessons => {
                    self.lesson_aggregate = Some(aggregate);
                    self.at = UpliftStage::Significance;
                    UpliftAsk::Significance
                },
            },
        }
    }

    /// One transition.
    pub fn step(&mut self, reply: UpliftReply) -> (ask: UpliftAsk)
        requires
            old(self).well_formed(),
        ensures
            final(self).well_formed(),
            final(self)@ == uplift_step(old(self)@, reply).0,
            ask == uplift_step(old(self)@, reply).1,
    {
        proof {
            law_every_uplift_transition_is_sound(self@, reply);
        }
        match (self.at, reply) {
            (UpliftStage::Start, UpliftReply::Proceed) => {
                self.at = UpliftStage::SelfTest;
                UpliftAsk::SelfTest
            },
            (UpliftStage::SelfTest, UpliftReply::SelfTested(right, wrong)) => {
                match assert_grader_selftest(right, wrong) {
                    Ok(_) => self.begin(UpliftArm::Baseline),
                    Err(m) => self.refuse(m),
                }
            },
            (UpliftStage::Isolation, UpliftReply::Isolated(outcome)) => match outcome {
                Ok(_) => self.go_on(),
                Err(e) => self.refuse(e),
            },
            (UpliftStage::Turn, UpliftReply::Turned(outcome)) => match outcome {
                Ok(turn) => {
                    self.take_turn(turn.0, turn.1);
                    self.go_on()
                },
                Err(e) => self.refuse(e),
            },
            (UpliftStage::Injection, UpliftReply::Injected(outcome)) => self.take_injection(
                outcome,
            ),
            (UpliftStage::Aggregate, UpliftReply::Aggregated(outcome)) => self.take_aggregate(
                outcome,
            ),
            (UpliftStage::Significance, UpliftReply::Compared(uplift)) => {
                self.uplift = Some(uplift);
                self.at = UpliftStage::Finished;
                UpliftAsk::Finished
            },
            _ => UpliftAsk::Proceed,
        }
    }
}

} // verus!
