//! The matrix run: every arm against every task, one transition at a time.
//!
//! The run decides; its driver solves, parses, grades and saves. Guarantees:
//! a failing or hung cell is isolated (recorded unsolved, never aborts the
//! matrix); a wall-clock timeout stays a caveat, not a capability result; an
//! unusable grader makes the run yield with its cell ledger intact; and the
//! event stream opens once, carries every persisted cell, and always ends.
use vstd::prelude::*;
use vstd::string::StringExecFns;

use crate::json::{no_members, object, push_member, Json, Member};
#[allow(unused_imports)]
use crate::json::{json_text_of, members_view, JsonV};
use crate::matrix::{
    check_setup, patch_scorecard_verdict, synthetic_unsolved_scorecard, GradeVerdict, RunSpec,
    SetupFacts,
};
#[allow(unused_imports)]
use crate::matrix::{
    carries_results, patched_text, setup_refusal, unsolved_card, verdict_claim, verdict_decides,
};
use crate::output::RunEvent;
#[allow(unused_imports)]
use crate::scorecard::rescores;
use crate::solver::SolveSpec;
#[allow(unused_imports)]
use crate::solver::maybe_text;
use crate::text::dec_u64;
#[allow(unused_imports)]
use crate::text::{dec, views};

verus! {

// ---------------------------------------------------------------------------
// Vocabulary
// ---------------------------------------------------------------------------
/// One persisted cell: which arm and task of the specification, the scorecard
/// text on disk, and whether the report counts it solved.
#[derive(Clone, Debug, PartialEq, Eq)]
pub struct CellRecord {
    pub arm: usize,
    pub task: usize,
    pub scorecard: String,
    pub passed: bool,
}

/// One persisted cell, mathematically.
pub struct CellV {
    pub arm: int,
    pub task: int,
    pub scorecard: Seq<char>,
    pub passed: bool,
}

impl View for CellRecord {
    type V = CellV;

    open spec fn view(&self) -> CellV {
        CellV {
            arm: self.arm as int,
            task: self.task as int,
            scorecard: self.scorecard@,
            passed: self.passed,
        }
    }
}

/// One event of the run's stream.
#[derive(Clone, Debug, PartialEq, Eq)]
pub enum MatrixEvent {
    /// The run began; how many cells it plans.
    Started(u64),
    /// A cell is on disk.
    Cell(CellRecord),
    /// Every cell is on disk.
    Completed,
    /// The run ended early, and why.
    Error(String),
}

/// One event, mathematically.
pub enum MatrixEventV {
    Started(int),
    Cell(CellV),
    Completed,
    Error(Seq<char>),
}

impl View for MatrixEvent {
    type V = MatrixEventV;

    open spec fn view(&self) -> MatrixEventV {
        match self {
            MatrixEvent::Started(n) => MatrixEventV::Started(*n as int),
            MatrixEvent::Cell(c) => MatrixEventV::Cell(c@),
            MatrixEvent::Completed => MatrixEventV::Completed,
            MatrixEvent::Error(m) => MatrixEventV::Error(m@),
        }
    }
}

/// Where a run stands.
#[derive(Clone, Copy, Debug, PartialEq, Eq, Structural)]
pub enum MatrixStage {
    Next,
    AwaitSolve,
    AwaitParse,
    AwaitGrade,
    AwaitSave,
    AwaitCaveats,
    Finished,
}

/// What a run asks of its driver.
#[derive(Clone, Debug, PartialEq, Eq)]
pub enum MatrixAsk {
    Proceed,
    /// Solve one task for one arm.
    Solve(usize, usize),
    /// Read this scorecard.
    Parse(String),
    /// Grade one task.
    Grade(usize),
    /// Put this cell on disk.
    Save(CellRecord),
    /// Word the caveats of this arm's timed-out and unassessed cells.
    Caveats(usize, usize, usize),
    Finished,
}

/// A question, mathematically.
pub enum MatrixAskV {
    Proceed,
    Solve(int, int),
    Parse(Seq<char>),
    Grade(int),
    Save(CellV),
    Caveats(int, int, int),
    Finished,
}

impl View for MatrixAsk {
    type V = MatrixAskV;

    open spec fn view(&self) -> MatrixAskV {
        match self {
            MatrixAsk::Proceed => MatrixAskV::Proceed,
            MatrixAsk::Solve(a, t) => MatrixAskV::Solve(*a as int, *t as int),
            MatrixAsk::Parse(raw) => MatrixAskV::Parse(raw@),
            MatrixAsk::Grade(t) => MatrixAskV::Grade(*t as int),
            MatrixAsk::Save(c) => MatrixAskV::Save(c@),
            MatrixAsk::Caveats(a, t, g) => MatrixAskV::Caveats(*a as int, *t as int, *g as int),
            MatrixAsk::Finished => MatrixAskV::Finished,
        }
    }
}

/// What a driver replies.
#[derive(Debug, PartialEq, Eq)]
pub enum MatrixReply {
    Proceed,
    /// The raw scorecard, or why there is none.
    Solved(Result<String, String>),
    /// The solver's own claim, or why the scorecard does not read.
    Parsed(Result<bool, String>),
    /// The verdict, or why the grader is unusable.
    Graded(Result<GradeVerdict, String>),
    /// Whether the cell is on disk, or why not.
    Saved(Result<(), String>),
    /// The caveats of timed-out and of unassessed cells, where there are any.
    Caveats(Option<String>, Option<String>),
}

// ---------------------------------------------------------------------------
// The model
// ---------------------------------------------------------------------------
/// A run, mathematically.
#[verifier::ext_equal]
pub struct MatrixV {
    pub spec: RunSpec,
    pub at: MatrixStage,
    /// The cell the run works on.
    pub arm: int,
    pub task: int,
    /// The arm's timed-out, unassessed and badly cleaned-up cells so far.
    pub timed_out: int,
    pub infra_gaps: int,
    pub cleanup_issues: int,
    /// The scorecard of the cell, and whether it counts solved.
    pub scorecard: Seq<char>,
    pub passed: bool,
    /// Why the run ends once the cell is on disk.
    pub ending: Option<Seq<char>>,
    pub cells: Seq<CellV>,
    pub caveats: Seq<Seq<char>>,
    pub aborted: Option<Seq<char>>,
    pub failure: Option<Seq<char>>,
    pub log: Seq<Seq<char>>,
    pub events: Seq<MatrixEventV>,
}

/// How many cells a specification plans.
pub open spec fn planned(spec: RunSpec) -> int {
    (spec.arms@.len() * spec.tasks@.len()) as int
}

/// The run before its first transition.
pub open spec fn matrix_start(spec: RunSpec) -> MatrixV {
    MatrixV {
        spec,
        at: MatrixStage::Next,
        arm: 0,
        task: 0,
        timed_out: 0,
        infra_gaps: 0,
        cleanup_issues: 0,
        scorecard: seq![],
        passed: false,
        ending: None,
        cells: seq![],
        caveats: seq![],
        aborted: None,
        failure: None,
        log: seq![],
        events: seq![MatrixEventV::Started(planned(spec))],
    }
}

/// A log line about the cell the run works on.
pub open spec fn cell_line(s: MatrixV, rest: Seq<char>) -> Seq<char> {
    "arm '"@ + s.spec.arms@[s.arm].arm@ + "' task '"@ + s.spec.tasks@[s.task].id@ + "': "@ + rest
}

pub open spec fn noted(s: MatrixV, line: Seq<char>) -> MatrixV {
    MatrixV { log: s.log.push(line), ..s }
}

/// The cell the run works on.
pub open spec fn current_cell(s: MatrixV) -> CellV {
    CellV { arm: s.arm, task: s.task, scorecard: s.scorecard, passed: s.passed }
}

pub open spec fn saving(s: MatrixV) -> (MatrixV, MatrixAskV) {
    (MatrixV { at: MatrixStage::AwaitSave, ..s }, MatrixAskV::Save(current_cell(s)))
}

/// The run goes on: the next cell, the end of an arm, or the end.
pub open spec fn went_on(s: MatrixV) -> (MatrixV, MatrixAskV) {
    if s.arm >= s.spec.arms@.len() {
        (
            MatrixV {
                at: MatrixStage::Finished,
                events: s.events.push(MatrixEventV::Completed),
                ..s
            },
            MatrixAskV::Finished,
        )
    } else if s.task >= s.spec.tasks@.len() {
        (
            MatrixV { at: MatrixStage::AwaitCaveats, ..s },
            MatrixAskV::Caveats(s.arm, s.timed_out, s.infra_gaps),
        )
    } else {
        (
            MatrixV { at: MatrixStage::AwaitSolve, ..noted(s, cell_line(s, "solving"@)) },
            MatrixAskV::Solve(s.arm, s.task),
        )
    }
}

/// The cell failed: it is recorded unsolved, and why.
pub open spec fn cell_failed(s: MatrixV, reason: Seq<char>) -> (MatrixV, MatrixAskV) {
    let t = noted(s, cell_line(s, reason + " (recorded unsolved)"@));
    let card = unsolved_card(
        s.spec.tasks@[s.task].id@,
        s.spec.arms@[s.arm].arm@,
        s.spec.model@,
        reason,
    );
    saving(MatrixV { scorecard: json_text_of(card), passed: false, ..t })
}

pub open spec fn on_solved(s: MatrixV, outcome: Result<String, String>) -> (MatrixV, MatrixAskV) {
    match outcome {
        Ok(raw) => (
            MatrixV { scorecard: raw@, at: MatrixStage::AwaitParse, ..s },
            MatrixAskV::Parse(raw@),
        ),
        Err(reason) => cell_failed(s, reason@),
    }
}

pub open spec fn on_parsed(s: MatrixV, outcome: Result<bool, String>) -> (MatrixV, MatrixAskV) {
    match outcome {
        Ok(claim) => (
            MatrixV { passed: claim, at: MatrixStage::AwaitGrade, ..s },
            MatrixAskV::Grade(s.task),
        ),
        Err(reason) => cell_failed(s, reason@),
    }
}

/// The cell with its verdict set, on the card and in the report.
pub open spec fn decided(s: MatrixV, passed: bool) -> MatrixV {
    MatrixV {
        passed,
        scorecard: match patched_text(s.scorecard, passed) {
            Some(text) => text,
            None => s.scorecard,
        },
        ..s
    }
}

/// The log lines and counters of a verdict, and what it decides.
pub open spec fn judged(s: MatrixV, verdict: GradeVerdict) -> MatrixV {
    let cleaned = match verdict.cleanup_diagnostic {
        Some(d) => noted(
            MatrixV { cleanup_issues: s.cleanup_issues + 1, ..s },
            cell_line(s, "secondary cleanup issue: "@ + d@),
        ),
        None => s,
    };
    let counted = match verdict.infra_gap {
        Some(reason) => noted(
            decided(MatrixV { infra_gaps: cleaned.infra_gaps + 1, ..cleaned }, false),
            cell_line(s, reason@),
        ),
        None => if verdict.timed_out {
            decided(MatrixV { timed_out: cleaned.timed_out + 1, ..cleaned }, false)
        } else {
            match verdict.passed {
                Some(p) => decided(cleaned, p),
                None => cleaned,
            }
        },
    };
    if verdict.note@.len() > 0 {
        noted(counted, cell_line(s, verdict.note@))
    } else {
        counted
    }
}

pub open spec fn on_graded(s: MatrixV, outcome: Result<GradeVerdict, String>) -> (
    MatrixV,
    MatrixAskV,
) {
    match outcome {
        Ok(verdict) => saving(judged(s, verdict)),
        Err(reason) => saving(
            MatrixV { ending: Some(reason@), ..decided(noted(s, reason@), false) },
        ),
    }
}

/// Whether the arm has cells to word a caveat of.
pub open spec fn has_caveats(s: MatrixV) -> bool {
    s.timed_out > 0 || s.infra_gaps > 0 || s.cleanup_issues > 0
}

/// The run ends early, its ledger intact.
pub open spec fn yielded(s: MatrixV, reason: Seq<char>) -> (MatrixV, MatrixAskV) {
    (
        MatrixV {
            aborted: Some(reason),
            at: MatrixStage::Finished,
            events: s.events.push(MatrixEventV::Error(reason)),
            ..s
        },
        MatrixAskV::Finished,
    )
}

/// The cell is on disk, or cannot be put there. A run that ends early still
/// words the caveats of the arm it was on.
pub open spec fn on_saved(s: MatrixV, outcome: Result<(), String>) -> (MatrixV, MatrixAskV) {
    match outcome {
        Ok(()) => {
            let t = MatrixV {
                cells: s.cells.push(current_cell(s)),
                events: s.events.push(MatrixEventV::Cell(current_cell(s))),
                ..s
            };
            match s.ending {
                Some(reason) => if has_caveats(s) {
                    (
                        MatrixV { at: MatrixStage::AwaitCaveats, ..t },
                        MatrixAskV::Caveats(s.arm, s.timed_out, s.infra_gaps),
                    )
                } else {
                    yielded(t, reason)
                },
                None => (
                    MatrixV { task: s.task + 1, at: MatrixStage::Next, ..t },
                    MatrixAskV::Proceed,
                ),
            }
        },
        Err(m) => (
            MatrixV {
                failure: Some(m@),
                at: MatrixStage::Finished,
                events: s.events.push(MatrixEventV::Error(m@)),
                ..s
            },
            MatrixAskV::Finished,
        ),
    }
}

pub open spec fn cleanup_caveat(s: MatrixV) -> Seq<char> {
    "caveat: "@ + dec(s.cleanup_issues as nat) + " "@ + s.spec.arms@[s.arm].arm@
        + " cell(s) reported a secondary exact-container cleanup failure; primary grade and timeout outcomes were preserved"@
}

pub open spec fn with_caveat(caveats: Seq<Seq<char>>, more: Option<Seq<char>>) -> Seq<Seq<char>> {
    match more {
        Some(c) => caveats.push(c),
        None => caveats,
    }
}

/// The caveats of the arm the run is on, worded.
pub open spec fn arm_caveats(
    s: MatrixV,
    timeouts: Option<Seq<char>>,
    gaps: Option<Seq<char>>,
) -> Seq<Seq<char>> {
    let worded = with_caveat(with_caveat(s.caveats, timeouts), gaps);
    if s.cleanup_issues > 0 {
        worded.push(cleanup_caveat(s))
    } else {
        worded
    }
}

/// The arm is over: its caveats are kept, and its counters start anew, or the
/// run ends early.
pub open spec fn on_caveats(s: MatrixV, timeouts: Option<String>, gaps: Option<String>) -> (
    MatrixV,
    MatrixAskV,
) {
    let t = MatrixV {
        caveats: arm_caveats(s, maybe_text(timeouts), maybe_text(gaps)),
        ..s
    };
    match s.ending {
        Some(reason) => yielded(t, reason),
        None => (
            MatrixV {
                arm: s.arm + 1,
                task: 0,
                timed_out: 0,
                infra_gaps: 0,
                cleanup_issues: 0,
                at: MatrixStage::Next,
                ..t
            },
            MatrixAskV::Proceed,
        ),
    }
}

/// One transition. A reply that the run does not wait for changes nothing.
pub open spec fn matrix_step(s: MatrixV, reply: MatrixReply) -> (MatrixV, MatrixAskV) {
    match (s.at, reply) {
        (MatrixStage::Next, MatrixReply::Proceed) => went_on(s),
        (MatrixStage::AwaitSolve, MatrixReply::Solved(outcome)) => on_solved(s, outcome),
        (MatrixStage::AwaitParse, MatrixReply::Parsed(outcome)) => on_parsed(s, outcome),
        (MatrixStage::AwaitGrade, MatrixReply::Graded(outcome)) => on_graded(s, outcome),
        (MatrixStage::AwaitSave, MatrixReply::Saved(outcome)) => on_saved(s, outcome),
        (MatrixStage::AwaitCaveats, MatrixReply::Caveats(timeouts, gaps)) => on_caveats(
            s,
            timeouts,
            gaps,
        ),
        _ => (s, MatrixAskV::Proceed),
    }
}

/// The event that ends a run's stream.
pub open spec fn last_event(s: MatrixV) -> MatrixEventV {
    match (s.failure, s.aborted) {
        (Some(m), _) => MatrixEventV::Error(m),
        (None, Some(m)) => MatrixEventV::Error(m),
        (None, None) => MatrixEventV::Completed,
    }
}

/// The stream that a run in this state has emitted: `started`, one event per
/// persisted cell, and one last event exactly when the run is over.
pub open spec fn stream(s: MatrixV) -> Seq<MatrixEventV> {
    seq![MatrixEventV::Started(planned(s.spec))] + s.cells.map_values(
        |c: CellV| MatrixEventV::Cell(c),
    ) + (if s.at == MatrixStage::Finished {
        seq![last_event(s)]
    } else {
        seq![]
    })
}

/// What holds of every run between transitions.
pub open spec fn matrix_sound(s: MatrixV) -> bool {
    let n = s.spec.tasks@.len();
    let ending_arm = s.at == MatrixStage::AwaitCaveats && s.ending is Some;
    let judged_cells = if s.at == MatrixStage::AwaitSave || s.at == MatrixStage::Finished
        || ending_arm {
        s.task + 1
    } else {
        s.task
    };
    &&& 0 <= s.arm <= s.spec.arms@.len()
    &&& 0 <= s.task <= n
    &&& s.arm == s.spec.arms@.len() ==> s.task == 0
    &&& 0 <= s.timed_out <= judged_cells
    &&& 0 <= s.infra_gaps <= judged_cells
    &&& 0 <= s.cleanup_issues <= judged_cells
    &&& s.at == MatrixStage::AwaitSolve || s.at == MatrixStage::AwaitParse || s.at
        == MatrixStage::AwaitGrade || s.at == MatrixStage::AwaitSave ==> s.arm
        < s.spec.arms@.len() && s.task < n
    &&& s.at == MatrixStage::AwaitCaveats ==> s.arm < s.spec.arms@.len()
    &&& s.at == MatrixStage::AwaitCaveats && !ending_arm ==> s.task == n
    &&& ending_arm ==> s.task < n
    &&& s.at != MatrixStage::AwaitSave && s.at != MatrixStage::Finished && s.at
        != MatrixStage::AwaitCaveats ==> s.ending is None
    &&& s.at != MatrixStage::Finished ==> s.failure is None && s.aborted is None
    &&& s.at != MatrixStage::Finished && !ending_arm ==> s.cells.len() == s.arm * n + s.task
    &&& ending_arm ==> s.cells.len() == s.arm * n + s.task + 1
    &&& s.at == MatrixStage::Finished && s.failure is None && s.aborted is None ==> s.cells.len()
        == planned(s.spec)
    &&& forall|k: int|
        0 <= k < s.cells.len() ==> {
            let c = #[trigger] s.cells[k];
            &&& 0 <= c.arm < s.spec.arms@.len()
            &&& 0 <= c.task < n
            &&& c.arm * n + c.task == k
        }
    &&& s.events == stream(s)
}

/// Whether a rescore of what the run has put on disk, or is about to, counts
/// what the live report counts.
pub open spec fn ledger_rescores(s: MatrixV) -> bool {
    &&& forall|k: int|
        0 <= k < s.cells.len() ==> rescores((#[trigger] s.cells[k]).scorecard, s.cells[k].passed)
    &&& s.at == MatrixStage::AwaitSave ==> rescores(s.scorecard, s.passed)
    &&& s.at == MatrixStage::AwaitGrade ==> rescores(s.scorecard, s.passed) && carries_results(
        s.scorecard,
    )
}

/// Whether a reply reads the solver's scorecard as it is: the claim is the
/// verdict that the card carries, in its results.
pub open spec fn reply_reads_the_card(s: MatrixV, reply: MatrixReply) -> bool {
    match (s.at, reply) {
        (MatrixStage::AwaitParse, MatrixReply::Parsed(Ok(claim))) => rescores(s.scorecard, claim)
            && carries_results(s.scorecard),
        _ => true,
    }
}

// ---------------------------------------------------------------------------
// Laws
// ---------------------------------------------------------------------------
proof fn lemma_went_on(s: MatrixV)
    requires
        matrix_sound(s),
        s.at == MatrixStage::Next,
    ensures
        matrix_sound(went_on(s).0),
{
    let t = went_on(s).0;
    let n = s.spec.tasks@.len();
    if s.arm >= s.spec.arms@.len() {
        assert(s.arm * n == s.spec.arms@.len() * n) by (nonlinear_arith)
            requires
                s.arm == s.spec.arms@.len(),
        ;
        assert(t.events =~= stream(t));
    } else {
        assert(t.events =~= stream(t));
    }
}

proof fn lemma_on_saved(s: MatrixV, outcome: Result<(), String>)
    requires
        matrix_sound(s),
        s.at == MatrixStage::AwaitSave,
    ensures
        matrix_sound(on_saved(s, outcome).0),
{
    let t = on_saved(s, outcome).0;
    let c = current_cell(s);
    if outcome is Ok {
        assert forall|k: int| 0 <= k < t.cells.len() implies ({
            let c = #[trigger] t.cells[k];
            &&& 0 <= c.arm < t.spec.arms@.len()
            &&& 0 <= c.task < t.spec.tasks@.len()
            &&& c.arm * t.spec.tasks@.len() + c.task == k
        }) by {
            if k < s.cells.len() {
                assert(t.cells[k] == s.cells[k]);
            } else {
                assert(t.cells[k] == c);
            }
        }
        assert(t.cells.map_values(|c: CellV| MatrixEventV::Cell(c)) =~= s.cells.map_values(
            |c: CellV| MatrixEventV::Cell(c),
        ).push(MatrixEventV::Cell(c)));
    }
    assert(t.events =~= stream(t));
}

proof fn lemma_on_caveats(s: MatrixV, timeouts: Option<String>, gaps: Option<String>)
    requires
        matrix_sound(s),
        s.at == MatrixStage::AwaitCaveats,
    ensures
        matrix_sound(on_caveats(s, timeouts, gaps).0),
{
    let t = on_caveats(s, timeouts, gaps).0;
    let n = s.spec.tasks@.len();
    assert((s.arm + 1) * n == s.arm * n + n) by (nonlinear_arith);
    assert(t.events =~= stream(t));
}

proof fn lemma_on_graded(s: MatrixV, outcome: Result<GradeVerdict, String>)
    requires
        matrix_sound(s),
        s.at == MatrixStage::AwaitGrade,
    ensures
        matrix_sound(on_graded(s, outcome).0),
{
    let t = on_graded(s, outcome).0;
    assert(t.events =~= stream(t));
}

/// Every transition keeps what holds between transitions: the ledger is in
/// order, every persisted cell is on the stream, and the stream ends exactly
/// when the run does.
pub proof fn law_every_matrix_transition_is_sound(s: MatrixV, reply: MatrixReply)
    requires
        matrix_sound(s),
    ensures
        matrix_sound(matrix_step(s, reply).0),
{
    let t = matrix_step(s, reply).0;
    match (s.at, reply) {
        (MatrixStage::Next, MatrixReply::Proceed) => lemma_went_on(s),
        (MatrixStage::AwaitGrade, MatrixReply::Graded(outcome)) => lemma_on_graded(s, outcome),
        (MatrixStage::AwaitSave, MatrixReply::Saved(outcome)) => lemma_on_saved(s, outcome),
        (MatrixStage::AwaitCaveats, MatrixReply::Caveats(timeouts, gaps)) => lemma_on_caveats(
            s,
            timeouts,
            gaps,
        ),
        _ => {
            assert(t.events =~= stream(t));
        },
    }
}

/// The run after a sequence of replies.
pub open spec fn matrix_after(spec: RunSpec, replies: Seq<MatrixReply>) -> MatrixV
    decreases replies.len(),
{
    if replies.len() == 0 {
        matrix_start(spec)
    } else {
        matrix_step(matrix_after(spec, replies.drop_last()), replies.last()).0
    }
}

proof fn lemma_start_is_sound(spec: RunSpec)
    ensures
        matrix_sound(matrix_start(spec)),
{
    let s = matrix_start(spec);
    assert(s.events =~= stream(s));
}

/// Whatever is replied, the stream opens with `started`, carries exactly the
/// persisted cells in order, and has a last event exactly when the run is
/// over: `error` when it ended early, `completed` when it did not.
pub proof fn law_the_stream_always_terminates(spec: RunSpec, replies: Seq<MatrixReply>)
    ensures
        matrix_sound(matrix_after(spec, replies)),
        matrix_after(spec, replies).events == stream(matrix_after(spec, replies)),
        matrix_after(spec, replies).spec == spec,
    decreases replies.len(),
{
    if replies.len() == 0 {
        lemma_start_is_sound(spec);
    } else {
        law_the_stream_always_terminates(spec, replies.drop_last());
        law_every_matrix_transition_is_sound(
            matrix_after(spec, replies.drop_last()),
            replies.last(),
        );
    }
}

/// A run that completes has put one cell per arm and task on disk: no cell is
/// dropped, whatever the solver or the grader did.
pub proof fn law_a_completed_run_has_every_cell(
    spec: RunSpec,
    replies: Seq<MatrixReply>,
    arm: int,
    task: int,
)
    requires
        matrix_after(spec, replies).at == MatrixStage::Finished,
        matrix_after(spec, replies).failure is None,
        matrix_after(spec, replies).aborted is None,
        0 <= arm < spec.arms@.len(),
        0 <= task < spec.tasks@.len(),
    ensures
        ({
            let cells = matrix_after(spec, replies).cells;
            let k = arm * spec.tasks@.len() + task;
            &&& cells.len() == planned(spec)
            &&& 0 <= k < cells.len()
            &&& cells[k].arm == arm
            &&& cells[k].task == task
        }),
{
    law_the_stream_always_terminates(spec, replies);
    let s = matrix_after(spec, replies);
    let n = spec.tasks@.len() as int;
    let k = arm * n + task;
    assert(0 <= k && k < spec.arms@.len() * n) by (nonlinear_arith)
        requires
            k == arm * n + task,
            0 <= arm < spec.arms@.len(),
            0 <= task < n,
    ;
    let c = s.cells[k];
    assert(c.arm * n + c.task == k);
    assert(c.arm == arm && c.task == task) by (nonlinear_arith)
        requires
            c.arm * n + c.task == arm * n + task,
            0 <= c.task < n,
            0 <= task < n,
    ;
}

/// A cell whose solve or scorecard failed is recorded unsolved and the matrix
/// goes on; it never aborts the run.
pub proof fn law_a_failed_cell_is_isolated(s: MatrixV, reason: String)
    requires
        s.at == MatrixStage::AwaitSolve,
    ensures
        ({
            let t = matrix_step(s, MatrixReply::Solved(Err(reason))).0;
            &&& t.at == MatrixStage::AwaitSave
            &&& !t.passed
            &&& t.ending == s.ending
            &&& t.scorecard == json_text_of(
                unsolved_card(
                    s.spec.tasks@[s.task].id@,
                    s.spec.arms@[s.arm].arm@,
                    s.spec.model@,
                    reason@,
                ),
            )
        }),
{
}

/// What a verdict counts for is what the report and the persisted card say.
pub proof fn law_the_report_follows_the_verdict(s: MatrixV, verdict: GradeVerdict)
    requires
        s.at == MatrixStage::AwaitGrade,
    ensures
        ({
            let t = matrix_step(s, MatrixReply::Graded(Ok(verdict))).0;
            &&& t.passed == verdict_claim(verdict, s.passed)
            &&& verdict_decides(verdict) ==> (patched_text(s.scorecard, t.passed) matches Some(
                text,
            ) ==> t.scorecard == text)
            &&& !verdict_decides(verdict) ==> t.scorecard == s.scorecard
        }),
{
}

/// When the grader itself is unusable the cell in flight counts unsolved, is
/// put on disk, and the run yields.
pub proof fn law_an_unusable_grader_yields(
    s: MatrixV,
    reason: String,
    timeouts: Option<String>,
    gaps: Option<String>,
)
    requires
        matrix_sound(s),
        s.at == MatrixStage::AwaitGrade,
    ensures
        ({
            let t = matrix_step(s, MatrixReply::Graded(Err(reason))).0;
            let (u, ask) = matrix_step(t, MatrixReply::Saved(Ok(())));
            let v = if has_caveats(s) {
                matrix_step(u, MatrixReply::Caveats(timeouts, gaps)).0
            } else {
                u
            };
            &&& t.at == MatrixStage::AwaitSave
            &&& !t.passed
            &&& has_caveats(s) ==> ask == MatrixAskV::Caveats(s.arm, s.timed_out, s.infra_gaps)
            &&& v.at == MatrixStage::Finished
            &&& v.aborted == Some(reason@)
            &&& v.cells.len() == s.cells.len() + 1
            &&& v.events.last() == MatrixEventV::Error(reason@)
        }),
{
}

/// A wall-clock timeout stays a caveat however its arm ends: what the driver
/// words of the arm's timed-out cells is kept, after the run's own end too.
pub proof fn law_a_timeout_stays_a_caveat(
    s: MatrixV,
    timeouts: String,
    gaps: Option<String>,
)
    requires
        matrix_sound(s),
        s.at == MatrixStage::AwaitCaveats,
    ensures
        ({
            let t = matrix_step(s, MatrixReply::Caveats(Some(timeouts), gaps)).0;
            &&& t.caveats.contains(timeouts@)
            &&& t.caveats.len() >= s.caveats.len()
            &&& t.caveats.take(s.caveats.len() as int) == s.caveats
            &&& s.ending is Some ==> t.at == MatrixStage::Finished && t.aborted == s.ending
        }),
{
    let t = matrix_step(s, MatrixReply::Caveats(Some(timeouts), gaps)).0;
    assert(t.caveats[s.caveats.len() as int] == timeouts@);
    assert(t.caveats.take(s.caveats.len() as int) =~= s.caveats);
}

// ---------------------------------------------------------------------------
// The run, executable
// ---------------------------------------------------------------------------
/// The views of a list of cells.
pub open spec fn cell_views(cells: Seq<CellRecord>) -> Seq<CellV> {
    cells.map_values(|c: CellRecord| c@)
}

/// The views of a list of events.
pub open spec fn event_views(events: Seq<MatrixEvent>) -> Seq<MatrixEventV> {
    events.map_values(|e: MatrixEvent| e@)
}

/// A run of the matrix.
pub struct MatrixRun {
    spec: RunSpec,
    at: MatrixStage,
    arm: usize,
    task: usize,
    timed_out: usize,
    infra_gaps: usize,
    cleanup_issues: usize,
    scorecard: String,
    passed: bool,
    ending: Option<String>,
    cells: Vec<CellRecord>,
    caveats: Vec<String>,
    aborted: Option<String>,
    failure: Option<String>,
    log: Vec<String>,
    events: Vec<MatrixEvent>,
}

impl View for MatrixRun {
    type V = MatrixV;

    closed spec fn view(&self) -> MatrixV {
        MatrixV {
            spec: self.spec,
            at: self.at,
            arm: self.arm as int,
            task: self.task as int,
            timed_out: self.timed_out as int,
            infra_gaps: self.infra_gaps as int,
            cleanup_issues: self.cleanup_issues as int,
            scorecard: self.scorecard@,
            passed: self.passed,
            ending: maybe_text(self.ending),
            cells: cell_views(self.cells@),
            caveats: views(self.caveats@),
            aborted: maybe_text(self.aborted),
            failure: maybe_text(self.failure),
            log: views(self.log@),
            events: event_views(self.events@),
        }
    }
}

/// What one cell asks of the solver.
pub fn solve_spec(spec: &RunSpec, arm: usize, task: usize) -> (out: SolveSpec)
    requires
        arm < spec.arms@.len(),
        task < spec.tasks@.len(),
    ensures
        out.model@ == spec.model@,
        out.arm@ == spec.arms@[arm as int].arm@,
        out.task@ == spec.tasks@[task as int].id@,
        out.permission@ == "bypass"@,
        out.verify == spec.arms@[arm as int].verify,
        out.learn == spec.arms@[arm as int].learn,
        maybe_text(out.coach) == maybe_text(spec.arms@[arm as int].coach),
        out.problem@ == spec.tasks@[task as int].problem@,
{
    let coach: Option<String> = match &spec.arms[arm].coach {
        Some(c) => Some(c.clone()),
        None => None,
    };
    let mut out: SolveSpec = SolveSpec::new(
        spec.model.as_str(),
        spec.arms[arm].arm.as_str(),
        spec.tasks[task].id.as_str(),
        spec.tasks[task].problem.as_str(),
    );
    out.verify = spec.arms[arm].verify;
    out.learn = spec.arms[arm].learn;
    out.coach = coach;
    out
}

/// A run of the matrix. A specification that its setup refuses gets no run, so
/// nothing is solved and no event is emitted.
pub fn run_matrix(spec: RunSpec, facts: &SetupFacts) -> (out: Result<MatrixRun, String>)
    requires
        planned(spec) <= u64::MAX,
    ensures
        match out {
            Ok(run) => setup_refusal(spec, *facts) is None && run@ == matrix_start(spec)
                && matrix_sound(run@) && ledger_rescores(run@),
            Err(m) => setup_refusal(spec, *facts) == Some(m@),
        },
{
    if let Err(m) = check_setup(&spec, facts) {
        return Err(m);
    }
    proof {
        lemma_start_is_sound(spec);
    }
    let total: u128 = spec.arms.len() as u128 * spec.tasks.len() as u128;
    let mut events: Vec<MatrixEvent> = Vec::new();
    events.push(MatrixEvent::Started(total as u64));
    let run: MatrixRun = MatrixRun {
        spec,
        at: MatrixStage::Next,
        arm: 0,
        task: 0,
        timed_out: 0,
        infra_gaps: 0,
        cleanup_issues: 0,
        scorecard: String::new(),
        passed: false,
        ending: None,
        cells: Vec::new(),
        caveats: Vec::new(),
        aborted: None,
        failure: None,
        log: Vec::new(),
        events,
    };
    assert(run@ =~= matrix_start(run.spec));
    Ok(run)
}

/// A cell as a JSON document.
pub open spec fn cell_tree(spec: RunSpec, cell: CellV) -> JsonV {
    JsonV::Object(
        seq![
            ("task"@, JsonV::Text(spec.tasks@[cell.task].id@)),
            ("arm"@, JsonV::Text(spec.arms@[cell.arm].arm@)),
            ("model"@, JsonV::Text(spec.model@)),
            (
                "arm_config"@,
                match spec.arms@[cell.arm].config {
                    Some(config) => config@,
                    None => JsonV::Null,
                },
            ),
            ("scorecard"@, JsonV::Text(cell.scorecard)),
        ],
    )
}

/// A cell as a JSON document.
pub fn cell_document(spec: &RunSpec, cell: &CellRecord) -> (out: Json)
    requires
        cell.arm < spec.arms@.len(),
        cell.task < spec.tasks@.len(),
    ensures
        out@ == cell_tree(*spec, cell@),
{
    let config: Json = match &spec.arms[cell.arm].config {
        Some(config) => config.copy(),
        None => Json::Null,
    };
    let mut members: Vec<Member> = no_members();
    push_member(&mut members, "task", Json::Text(spec.tasks[cell.task].id.clone()));
    push_member(&mut members, "arm", Json::Text(spec.arms[cell.arm].arm.clone()));
    push_member(&mut members, "model", Json::Text(spec.model.clone()));
    push_member(&mut members, "arm_config", config);
    push_member(&mut members, "scorecard", Json::Text(cell.scorecard.clone()));
    let out: Json = object(members);
    assert(members_view(members@) =~= cell_tree(*spec, cell@)->Object_0);
    out
}

/// An event of the run as the machine stream carries it. `outcome` is the
/// document of the finished run.
pub fn stream_event(spec: &RunSpec, event: &MatrixEvent, outcome: Json) -> (out: RunEvent)
    requires
        event matches MatrixEvent::Cell(cell) ==> cell.arm < spec.arms@.len() && cell.task
            < spec.tasks@.len(),
    ensures
        match event {
            MatrixEvent::Started(total) => out matches RunEvent::Started { run, total: t } && run@
                == "arms-"@ + spec.model@ && t == Some(*total),
            MatrixEvent::Cell(cell) => out matches RunEvent::Result { run, payload } && run@
                == "arms-"@ + spec.model@ && payload@ == cell_tree(*spec, cell@),
            MatrixEvent::Completed => out matches RunEvent::Completed { run, payload } && run@
                == "arms-"@ + spec.model@ && payload@ == outcome@,
            MatrixEvent::Error(m) => out matches RunEvent::Error { run, message } && run@
                == "arms-"@ + spec.model@ && message@ == m@,
        },
{
    let run: String = crate::text::cat("arms-", spec.model.as_str());
    match event {
        MatrixEvent::Started(total) => RunEvent::Started { run, total: Some(*total) },
        MatrixEvent::Cell(cell) => RunEvent::Result { run, payload: cell_document(spec, cell) },
        MatrixEvent::Completed => RunEvent::Completed { run, payload: outcome },
        MatrixEvent::Error(m) => RunEvent::Error { run, message: m.clone() },
    }
}

impl MatrixRun {
    /// The specification.
    pub fn spec(&self) -> (out: &RunSpec)
        ensures
            *out == self@.spec,
    {
        &self.spec
    }

    /// Where the run stands.
    pub fn stage(&self) -> (out: MatrixStage)
        ensures
            out == self@.at,
    {
        self.at
    }

    /// The cells on disk, in the order in which they were put there.
    pub fn cells(&self) -> (out: &Vec<CellRecord>)
        ensures
            cell_views(out@) == self@.cells,
    {
        &self.cells
    }

    /// The fairness caveats of the finished arms.
    pub fn caveats(&self) -> (out: &Vec<String>)
        ensures
            views(out@) == self@.caveats,
    {
        &self.caveats
    }

    /// Why the run yielded early, when it did.
    pub fn aborted(&self) -> (out: &Option<String>)
        ensures
            maybe_text(*out) == self@.aborted,
    {
        &self.aborted
    }

    /// Why the ledger could not be written, when it could not.
    pub fn failure(&self) -> (out: &Option<String>)
        ensures
            maybe_text(*out) == self@.failure,
    {
        &self.failure
    }

    /// The log lines so far.
    pub fn log_lines(&self) -> (out: &Vec<String>)
        ensures
            views(out@) == self@.log,
    {
        &self.log
    }

    /// The events so far.
    pub fn events(&self) -> (out: &Vec<MatrixEvent>)
        ensures
            event_views(out@) == self@.events,
    {
        &self.events
    }

    fn note(&mut self, line: String)
        ensures
            final(self)@ == noted(old(self)@, line@),
    {
        self.log.push(line);
        assert(views(self.log@) =~= views(old(self).log@).push(line@));
    }

    fn line(&self, rest: &str) -> (out: String)
        requires
            self@.arm < self@.spec.arms@.len(),
            self@.task < self@.spec.tasks@.len(),
        ensures
            out@ == cell_line(self@, rest@),
    {
        let mut out: String = "arm '".to_string();
        out.append(self.spec.arms[self.arm].arm.as_str());
        out.append("' task '");
        out.append(self.spec.tasks[self.task].id.as_str());
        out.append("': ");
        out.append(rest);
        out
    }

    fn emit(&mut self, event: MatrixEvent)
        ensures
            final(self)@ == (MatrixV { events: old(self)@.events.push(event@), ..old(self)@ }),
    {
        self.events.push(event);
        assert(event_views(self.events@) =~= event_views(old(self).events@).push(event@));
    }

    fn current(&self) -> (out: CellRecord)
        ensures
            out@ == current_cell(self@),
    {
        CellRecord {
            arm: self.arm,
            task: self.task,
            scorecard: self.scorecard.clone(),
            passed: self.passed,
        }
    }

    fn save(&mut self) -> (ask: MatrixAsk)
        ensures
            final(self)@ == saving(old(self)@).0,
            ask@ == saving(old(self)@).1,
    {
        self.at = MatrixStage::AwaitSave;
        MatrixAsk::Save(self.current())
    }

    fn go_on(&mut self) -> (ask: MatrixAsk)
        ensures
            final(self)@ == went_on(old(self)@).0,
            ask@ == went_on(old(self)@).1,
    {
        if self.arm >= self.spec.arms.len() {
            self.emit(MatrixEvent::Completed);
            self.at = MatrixStage::Finished;
            MatrixAsk::Finished
        } else if self.task >= self.spec.tasks.len() {
            self.at = MatrixStage::AwaitCaveats;
            MatrixAsk::Caveats(self.arm, self.timed_out, self.infra_gaps)
        } else {
            let line: String = self.line("solving");
            self.note(line);
            self.at = MatrixStage::AwaitSolve;
            MatrixAsk::Solve(self.arm, self.task)
        }
    }

    fn fail_cell(&mut self, reason: String) -> (ask: MatrixAsk)
        requires
            old(self)@.arm < old(self)@.spec.arms@.len(),
            old(self)@.task < old(self)@.spec.tasks@.len(),
        ensures
            final(self)@ == cell_failed(old(self)@, reason@).0,
            ask@ == cell_failed(old(self)@, reason@).1,
            rescores(final(self)@.scorecard, false),
    {
        let mut rest: String = reason.clone();
        rest.append(" (recorded unsolved)");
        let line: String = self.line(rest.as_str());
        self.note(line);
        self.scorecard = synthetic_unsolved_scorecard(
            &self.spec.tasks[self.task],
            self.spec.arms[self.arm].arm.as_str(),
            self.spec.model.as_str(),
            reason.as_str(),
        );
        self.passed = false;
        self.save()
    }

    fn decide(&mut self, passed: bool)
        ensures
            final(self)@ == decided(old(self)@, passed),
            carries_results(old(self)@.scorecard) ==> rescores(final(self)@.scorecard, passed),
    {
        match patch_scorecard_verdict(self.scorecard.as_str(), passed) {
            Some(text) => {
                self.scorecard = text;
            },
            None => {},
        }
        self.passed = passed;
    }

    fn judge(&mut self, verdict: GradeVerdict)
        requires
            matrix_sound(old(self)@),
            old(self)@.at == MatrixStage::AwaitGrade,
        ensures
            final(self)@ == judged(old(self)@, verdict),
            carries_results(old(self)@.scorecard) && rescores(
                old(self)@.scorecard,
                old(self)@.passed,
            ) ==> rescores(final(self)@.scorecard, final(self)@.passed),
    {
        assert(self.spec.tasks.len() == self.spec.tasks@.len());
        match &verdict.cleanup_diagnostic {
            Some(d) => {
                self.cleanup_issues = self.cleanup_issues + 1;
                let mut rest: String = "secondary cleanup issue: ".to_string();
                rest.append(d.as_str());
                let line: String = self.line(rest.as_str());
                self.note(line);
            },
            None => {},
        }
        match &verdict.infra_gap {
            Some(reason) => {
                self.infra_gaps = self.infra_gaps + 1;
                self.decide(false);
                let line: String = self.line(reason.as_str());
                self.note(line);
            },
            None => {
                if verdict.timed_out {
                    self.timed_out = self.timed_out + 1;
                    self.decide(false);
                } else {
                    match verdict.passed {
                        Some(p) => {
                            self.decide(p);
                        },
                        None => {},
                    }
                }
            },
        }
        if !verdict.note.as_str().is_empty() {
            let line: String = self.line(verdict.note.as_str());
            self.note(line);
        }
    }

    fn yield_run(&mut self, reason: String) -> (ask: MatrixAsk)
        ensures
            final(self)@ == yielded(old(self)@, reason@).0,
            ask@ == yielded(old(self)@, reason@).1,
    {
        self.emit(MatrixEvent::Error(reason.clone()));
        self.aborted = Some(reason);
        self.at = MatrixStage::Finished;
        MatrixAsk::Finished
    }

    fn on_saved(&mut self, outcome: Result<(), String>) -> (ask: MatrixAsk)
        requires
            old(self)@.task < old(self)@.spec.tasks@.len(),
        ensures
            final(self)@ == on_saved(old(self)@, outcome).0,
            ask@ == on_saved(old(self)@, outcome).1,
    {
        match outcome {
            Ok(()) => {
                let cell: CellRecord = self.current();
                let again: CellRecord = self.current();
                let ghost was = cell_views(self.cells@);
                self.cells.push(cell);
                assert(cell_views(self.cells@) =~= was.push(cell@));
                self.emit(MatrixEvent::Cell(again));
                let mut ending: Option<String> = None;
                match &self.ending {
                    Some(reason) => {
                        ending = Some(reason.clone());
                    },
                    None => {},
                }
                match ending {
                    Some(reason) => {
                        if self.timed_out > 0 || self.infra_gaps > 0 || self.cleanup_issues > 0 {
                            self.at = MatrixStage::AwaitCaveats;
                            MatrixAsk::Caveats(self.arm, self.timed_out, self.infra_gaps)
                        } else {
                            self.yield_run(reason)
                        }
                    },
                    None => {
                        assert(self.spec.tasks.len() == self.spec.tasks@.len());
                        self.task = self.task + 1;
                        self.at = MatrixStage::Next;
                        MatrixAsk::Proceed
                    },
                }
            },
            Err(m) => {
                self.emit(MatrixEvent::Error(m.clone()));
                self.failure = Some(m);
                self.at = MatrixStage::Finished;
                MatrixAsk::Finished
            },
        }
    }

    fn keep_caveat(&mut self, caveat: Option<String>)
        ensures
            final(self)@ == (MatrixV {
                caveats: with_caveat(old(self)@.caveats, maybe_text(caveat)),
                ..old(self)@
            }),
    {
        match caveat {
            Some(c) => {
                self.caveats.push(c);
                assert(views(self.caveats@) =~= views(old(self).caveats@).push(c@));
            },
            None => {},
        }
    }

    fn on_caveats(&mut self, timeouts: Option<String>, gaps: Option<String>) -> (ask: MatrixAsk)
        requires
            old(self)@.arm < old(self)@.spec.arms@.len(),
        ensures
            final(self)@ == on_caveats(old(self)@, timeouts, gaps).0,
            ask@ == on_caveats(old(self)@, timeouts, gaps).1,
    {
        self.keep_caveat(timeouts);
        self.keep_caveat(gaps);
        if self.cleanup_issues > 0 {
            let mut c: String = "caveat: ".to_string();
            c.append(dec_u64(self.cleanup_issues as u64).as_str());
            c.append(" ");
            c.append(self.spec.arms[self.arm].arm.as_str());
            c.append(
                " cell(s) reported a secondary exact-container cleanup failure; primary grade and timeout outcomes were preserved",
            );
            self.keep_caveat(Some(c));
        }
        let mut ending: Option<String> = None;
        match &self.ending {
            Some(reason) => {
                ending = Some(reason.clone());
            },
            None => {},
        }
        match ending {
            Some(reason) => {
                return self.yield_run(reason);
            },
            None => {},
        }
        assert(self.spec.arms.len() == self.spec.arms@.len());
        self.arm = self.arm + 1;
        self.task = 0;
        self.timed_out = 0;
        self.infra_gaps = 0;
        self.cleanup_issues = 0;
        self.at = MatrixStage::Next;
        MatrixAsk::Proceed
    }

    /// One transition: take the driver's reply, hand back the next question.
    /// A reply that the run does not wait for changes nothing. Whatever is
    /// graded, a rescore of the persisted cards stays what the report counts.
    pub fn step(&mut self, reply: MatrixReply) -> (ask: MatrixAsk)
        requires
            matrix_sound(old(self)@),
        ensures
            final(self)@ == matrix_step(old(self)@, reply).0,
            ask@ == matrix_step(old(self)@, reply).1,
            matrix_sound(final(self)@),
            ledger_rescores(old(self)@) && reply_reads_the_card(old(self)@, reply)
                ==> ledger_rescores(final(self)@),
    {
        proof {
            law_every_matrix_transition_is_sound(self@, reply);
        }
        match (self.at, reply) {
            (MatrixStage::Next, MatrixReply::Proceed) => self.go_on(),
            (MatrixStage::AwaitSolve, MatrixReply::Solved(outcome)) => match outcome {
                Ok(raw) => {
                    self.scorecard = raw.clone();
                    self.at = MatrixStage::AwaitParse;
                    MatrixAsk::Parse(raw)
                },
                Err(reason) => self.fail_cell(reason),
            },
            (MatrixStage::AwaitParse, MatrixReply::Parsed(outcome)) => match outcome {
                Ok(claim) => {
                    self.passed = claim;
                    self.at = MatrixStage::AwaitGrade;
                    MatrixAsk::Grade(self.task)
                },
                Err(reason) => self.fail_cell(reason),
            },
            (MatrixStage::AwaitGrade, MatrixReply::Graded(outcome)) => match outcome {
                Ok(verdict) => {
                    self.judge(verdict);
                    self.save()
                },
                Err(reason) => {
                    self.note(reason.clone());
                    self.decide(false);
                    self.ending = Some(reason);
                    self.save()
                },
            },
            (MatrixStage::AwaitSave, MatrixReply::Saved(outcome)) => self.on_saved(outcome),
            (MatrixStage::AwaitCaveats, MatrixReply::Caveats(timeouts, gaps)) => self.on_caveats(
                timeouts,
                gaps,
            ),
            _ => MatrixAsk::Proceed,
        }
    }
}

} // verus!
