//! The container grader: one graded task, one transition at a time.
//!
//! Pre-flight engine health, then the offline cache of a Rust task, then the
//! network-isolated grade. The grader decides; its driver runs commands. A
//! command that timed out, or that could not be watched, is compensated by
//! removing exactly the container it named.
use vstd::prelude::*;
use vstd::string::StringExecFns;

use crate::matrix::{output_suffix, GradeVerdict, TaskSpec};
#[allow(unused_imports)]
use crate::matrix::{is_rust, suffix_text};
#[allow(unused_imports)]
use crate::solver::maybe_text;
use crate::text::{chars_of, dec_u64, find, lower_chars, same, trim};
#[allow(unused_imports)]
use crate::text::{contains, dec, lowered, trimmed};

verus! {

/// Longest an exact container removal may take, in seconds.
pub const CLEANUP_SECS: u64 = 10;

/// What a command came to: whether it exited zero, its combined output, and
/// whether it timed out.
#[derive(Clone, Debug, PartialEq, Eq)]
pub struct CommandEnd {
    pub exit_ok: bool,
    pub output: String,
    pub timed_out: bool,
}

/// What a graded output says of itself.
#[derive(Clone, Debug, PartialEq, Eq)]
pub struct Assessment {
    /// The failure is a dependency that could not be fetched offline.
    pub offline_gap: bool,
    /// How many tests ran.
    pub tests: u64,
    /// The cell's note.
    pub note: String,
}

/// Which of a task's commands is meant.
#[derive(Clone, Copy, Debug, PartialEq, Eq, Structural)]
pub enum PlanKind {
    Health,
    Warm,
    Grade,
}

/// What the grader asks of its driver.
#[derive(Clone, Debug, PartialEq, Eq)]
pub enum GradeAsk {
    /// Run this command of the task.
    Run(PlanKind),
    /// Remove this container, within this many seconds.
    Remove(String, u64),
    /// Which manifest covers the task's corpus?
    Manifest,
    /// Write the crate that warms this cache with this manifest.
    WarmCrate(String, String),
    /// Assess this output.
    Assess(String),
    /// The task is graded.
    Done,
}

/// A question, mathematically.
pub enum GradeAskV {
    Run(PlanKind),
    Remove(Seq<char>, int),
    Manifest,
    WarmCrate(Seq<char>, Seq<char>),
    Assess(Seq<char>),
    Done,
}

impl View for GradeAsk {
    type V = GradeAskV;

    open spec fn view(&self) -> GradeAskV {
        match self {
            GradeAsk::Run(kind) => GradeAskV::Run(*kind),
            GradeAsk::Remove(name, secs) => GradeAskV::Remove(name@, *secs as int),
            GradeAsk::Manifest => GradeAskV::Manifest,
            GradeAsk::WarmCrate(cache, manifest) => GradeAskV::WarmCrate(cache@, manifest@),
            GradeAsk::Assess(output) => GradeAskV::Assess(output@),
            GradeAsk::Done => GradeAskV::Done,
        }
    }
}

/// What a driver replies.
#[derive(Debug, PartialEq, Eq)]
pub enum GradeReply {
    /// The container that the command named, and what the command came to.
    Ran(String, Result<CommandEnd, String>),
    /// What the removal came to.
    Removed(Result<CommandEnd, String>),
    Manifest(Result<String, String>),
    WarmCrate(Result<(), String>),
    Assessed(Assessment),
}

/// Where a grade stands.
#[derive(Clone, Copy, Debug, PartialEq, Eq, Structural)]
pub enum GradeStage {
    Idle,
    AwaitRun,
    AwaitRemoval,
    AwaitManifest,
    AwaitWarmCrate,
    AwaitAssessment,
}

/// A verdict, mathematically.
pub struct VerdictV {
    pub passed: Option<bool>,
    pub timed_out: bool,
    pub infra_gap: Option<Seq<char>>,
    pub cleanup_diagnostic: Option<Seq<char>>,
    pub note: Seq<char>,
}

/// The view of a verdict.
pub open spec fn verdict_view(v: GradeVerdict) -> VerdictV {
    VerdictV {
        passed: v.passed,
        timed_out: v.timed_out,
        infra_gap: maybe_text(v.infra_gap),
        cleanup_diagnostic: maybe_text(v.cleanup_diagnostic),
        note: v.note@,
    }
}

/// A grader, mathematically.
#[verifier::ext_equal]
pub struct GraderV {
    pub timeout_secs: int,
    pub health_checked: bool,
    /// The caches and manifests that were warmed.
    pub warmed: Seq<(Seq<char>, Seq<char>)>,
    pub at: GradeStage,
    /// The task's id, whether it is a Rust task, and its cache.
    pub task_id: Seq<char>,
    pub rust: bool,
    pub cache: Option<Seq<char>>,
    pub kind: PlanKind,
    pub container: Seq<char>,
    /// Why the command could not be watched.
    pub primary: Option<Seq<char>>,
    pub exit_ok: bool,
    pub output: Seq<char>,
    pub timed_out: bool,
    pub manifest: Seq<char>,
    /// Whether the breaker is to count a timeout, once the grade ran.
    pub strike: Option<bool>,
    /// The graded task's verdict, or why it could not be graded.
    pub verdict: Option<Result<VerdictV, Seq<char>>>,
}

/// A grader that has run nothing yet.
pub open spec fn grader_start(timeout_secs: int) -> GraderV {
    GraderV {
        timeout_secs,
        health_checked: false,
        warmed: seq![],
        at: GradeStage::Idle,
        task_id: seq![],
        rust: false,
        cache: None,
        kind: PlanKind::Health,
        container: seq![],
        primary: None,
        exit_ok: false,
        output: seq![],
        timed_out: false,
        manifest: seq![],
        strike: None,
        verdict: None,
    }
}

pub open spec fn graded(s: GraderV, verdict: VerdictV) -> (GraderV, GradeAskV) {
    (GraderV { at: GradeStage::Idle, verdict: Some(Ok(verdict)), ..s }, GradeAskV::Done)
}

pub open spec fn ungraded(s: GraderV, message: Seq<char>) -> (GraderV, GradeAskV) {
    (GraderV { at: GradeStage::Idle, verdict: Some(Err(message)), ..s }, GradeAskV::Done)
}

pub open spec fn running(s: GraderV, kind: PlanKind) -> (GraderV, GradeAskV) {
    (GraderV { at: GradeStage::AwaitRun, kind, ..s }, GradeAskV::Run(kind))
}

/// How long an exact removal may take.
pub open spec fn removal_secs(s: GraderV) -> int {
    if s.timeout_secs <= CLEANUP_SECS {
        s.timeout_secs
    } else {
        CLEANUP_SECS as int
    }
}

pub open spec fn removing(s: GraderV) -> (GraderV, GradeAskV) {
    (
        GraderV { at: GradeStage::AwaitRemoval, ..s },
        GradeAskV::Remove(s.container, removal_secs(s)),
    )
}

/// A task is handed in. A tripped breaker refuses it; a grader that has not
/// yet proved the engine does that first.
pub open spec fn taken_up(s: GraderV, task: TaskSpec, wedged: Option<u64>) -> (GraderV, GradeAskV) {
    let t = GraderV {
        task_id: task.id@,
        rust: is_rust(task),
        cache: maybe_text(task.cargo_cache),
        verdict: None,
        strike: None,
        ..s
    };
    match wedged {
        Some(strikes) => ungraded(
            t,
            "docker looks wedged ("@ + dec(strikes as nat)
                + " consecutive grade timeouts) — yielding with the cell ledger intact; restart the engine and rescore"@,
        ),
        None => if s.health_checked {
            prepared(t)
        } else {
            running(t, PlanKind::Health)
        },
    }
}

/// The engine runs containers: warm a Rust task's cache, or grade.
pub open spec fn prepared(s: GraderV) -> (GraderV, GradeAskV) {
    if s.rust && s.cache is Some {
        (GraderV { at: GradeStage::AwaitManifest, ..s }, GradeAskV::Manifest)
    } else {
        running(s, PlanKind::Grade)
    }
}

/// The cache of the task.
pub open spec fn cache_of(s: GraderV) -> Seq<char> {
    match s.cache {
        Some(c) => c,
        None => seq![],
    }
}

pub open spec fn on_manifest(s: GraderV, outcome: Result<String, String>) -> (GraderV, GradeAskV) {
    match outcome {
        Err(m) => ungraded(s, m@),
        Ok(manifest) => if s.warmed.contains((cache_of(s), manifest@)) {
            running(s, PlanKind::Grade)
        } else {
            (
                GraderV { at: GradeStage::AwaitWarmCrate, manifest: manifest@, ..s },
                GradeAskV::WarmCrate(cache_of(s), manifest@),
            )
        },
    }
}

pub open spec fn on_warm_crate(s: GraderV, outcome: Result<(), String>) -> (GraderV, GradeAskV) {
    match outcome {
        Err(m) => ungraded(s, m@),
        Ok(()) => running(s, PlanKind::Warm),
    }
}

/// A command ended.
pub open spec fn on_ran(s: GraderV, container: Seq<char>, outcome: Result<CommandEnd, String>) -> (
    GraderV,
    GradeAskV,
) {
    match outcome {
        Ok(end) => {
            let t = GraderV {
                container,
                primary: None,
                exit_ok: end.exit_ok,
                output: end.output@,
                timed_out: end.timed_out,
                ..s
            };
            if end.timed_out {
                removing(t)
            } else {
                executed(t, None)
            }
        },
        Err(primary) => removing(GraderV { container, primary: Some(primary@), ..s }),
    }
}

/// What is wrong with an exact removal, if anything is. A container that is
/// already gone is removed.
pub open spec fn removal_failure(s: GraderV, outcome: Result<CommandEnd, String>) -> Option<Seq<char>> {
    let head = "exact Docker cleanup for container '"@ + s.container + "'"@;
    match outcome {
        Err(error) => Some(head + " could not run: "@ + error@),
        Ok(end) => if end.timed_out {
            Some(
                head + " timed out after "@ + dec(removal_secs(s) as nat) + "s"@ + suffix_text(
                    end.output@,
                ),
            )
        } else if end.exit_ok || contains(lowered(end.output@), "no such container"@) {
            None
        } else {
            Some(head + " failed"@ + suffix_text(end.output@))
        },
    }
}

pub open spec fn on_removed(s: GraderV, outcome: Result<CommandEnd, String>) -> (GraderV, GradeAskV) {
    let failure = removal_failure(s, outcome);
    match s.primary {
        Some(primary) => ungraded(
            s,
            primary + "; "@ + (match failure {
                Some(d) => d,
                None => "exact Docker cleanup completed for container '"@ + s.container + "'"@,
            }),
        ),
        None => executed(s, failure),
    }
}

/// How a command that had to succeed failed.
pub open spec fn failure_detail(s: GraderV, diagnostic: Option<Seq<char>>) -> Seq<char> {
    if s.timed_out {
        "timed out after "@ + dec(s.timeout_secs as nat) + "s"@ + (match diagnostic {
            Some(d) => "; "@ + d,
            None => seq![],
        })
    } else {
        trimmed(s.output)
    }
}

/// A command came to an end, with what its compensation left to say.
pub open spec fn executed(s: GraderV, diagnostic: Option<Seq<char>>) -> (GraderV, GradeAskV) {
    match s.kind {
        PlanKind::Health => if s.exit_ok && !s.timed_out {
            prepared(GraderV { health_checked: true, ..s })
        } else {
            ungraded(
                s,
                "docker failed its pre-flight health check (a container must run to completion): "@
                    + failure_detail(s, diagnostic),
            )
        },
        PlanKind::Warm => if s.exit_ok && !s.timed_out {
            running(
                GraderV { warmed: s.warmed.push((cache_of(s), s.manifest)), ..s },
                PlanKind::Grade,
            )
        } else {
            ungraded(
                s,
                "Cargo cache preparation failed for task '"@ + s.task_id + "': "@
                    + failure_detail(s, diagnostic),
            )
        },
        PlanKind::Grade => {
            let t = GraderV { strike: Some(s.timed_out), ..s };
            if s.timed_out {
                graded(
                    t,
                    VerdictV {
                        passed: None,
                        timed_out: true,
                        infra_gap: None,
                        cleanup_diagnostic: diagnostic,
                        note: "grade timed out after "@ + dec(s.timeout_secs as nat) + "s"@,
                    },
                )
            } else {
                (GraderV { at: GradeStage::AwaitAssessment, ..t }, GradeAskV::Assess(s.output))
            }
        },
    }
}

/// The graded output was assessed. A dependency that could not be fetched is
/// a gap, not a failure; a pass needs exit zero and tests that ran.
pub open spec fn on_assessed(s: GraderV, a: Assessment) -> (GraderV, GradeAskV) {
    if !s.exit_ok && a.offline_gap {
        graded(
            s,
            VerdictV {
                passed: None,
                timed_out: false,
                infra_gap: Some(
                    "task '"@ + s.task_id
                        + "': the offline cargo cache is under-vendored (a dependency could not be fetched under --network=none) — re-warm the cache and rescore"@,
                ),
                cleanup_diagnostic: None,
                note: "offline cargo fetch failed (infrastructure gap, not a solve failure)"@,
            },
        )
    } else {
        graded(
            s,
            VerdictV {
                passed: Some(s.exit_ok && a.tests > 0),
                timed_out: false,
                infra_gap: None,
                cleanup_diagnostic: None,
                note: a.note@,
            },
        )
    }
}

/// One transition. A reply that the grader does not wait for changes nothing
/// and asks nothing more.
pub open spec fn grade_step(s: GraderV, reply: GradeReply) -> (GraderV, GradeAskV) {
    match (s.at, reply) {
        (GradeStage::AwaitRun, GradeReply::Ran(container, outcome)) => on_ran(
            s,
            container@,
            outcome,
        ),
        (GradeStage::AwaitRemoval, GradeReply::Removed(outcome)) => on_removed(s, outcome),
        (GradeStage::AwaitManifest, GradeReply::Manifest(outcome)) => on_manifest(s, outcome),
        (GradeStage::AwaitWarmCrate, GradeReply::WarmCrate(outcome)) => on_warm_crate(s, outcome),
        (GradeStage::AwaitAssessment, GradeReply::Assessed(a)) => on_assessed(s, a),
        _ => (s, GradeAskV::Done),
    }
}

// ---------------------------------------------------------------------------
// Laws
// ---------------------------------------------------------------------------
/// A task passes only when its grade command exited zero and tests ran.
pub proof fn law_a_pass_needs_tests_that_ran(s: GraderV, reply: GradeReply)
    requires
        s.verdict is None,
    ensures
        grade_step(s, reply).0.verdict matches Some(Ok(v)) ==> (v.passed == Some(true) ==> {
            &&& s.at == GradeStage::AwaitAssessment
            &&& s.exit_ok
            &&& reply matches GradeReply::Assessed(a) && a.tests > 0
        }),
{
}

/// Nothing is graded before a container was seen to run to completion.
pub proof fn law_health_comes_first(s: GraderV, task: TaskSpec, wedged: Option<u64>)
    requires
        !s.health_checked,
    ensures
        taken_up(s, task, wedged).1 == GradeAskV::Done || taken_up(s, task, wedged).1
            == GradeAskV::Run(PlanKind::Health),
{
}

/// The container that is removed is the one that the command named.
pub proof fn law_only_the_named_container_is_removed(s: GraderV, reply: GradeReply)
    ensures
        grade_step(s, reply).1 matches GradeAskV::Remove(name, _) ==> (reply matches GradeReply::Ran(
            container,
            _,
        ) && name == container@),
{
}

/// A cache and manifest that were warmed once are not warmed again.
pub proof fn law_a_warm_cache_is_not_fetched_again(s: GraderV, manifest: String)
    requires
        s.at == GradeStage::AwaitManifest,
        s.warmed.contains((cache_of(s), manifest@)),
    ensures
        grade_step(s, GradeReply::Manifest(Ok(manifest))).1 == GradeAskV::Run(PlanKind::Grade),
{
}

/// A compensation problem never changes what a timed-out grade counts for.
pub proof fn law_cleanup_is_secondary(s: GraderV, first: Result<CommandEnd, String>, second: Result<
    CommandEnd,
    String,
>)
    requires
        s.at == GradeStage::AwaitRemoval,
        s.kind == PlanKind::Grade,
        s.primary is None,
        s.timed_out,
    ensures
        ({
            let a = grade_step(s, GradeReply::Removed(first)).0.verdict;
            let b = grade_step(s, GradeReply::Removed(second)).0.verdict;
            &&& a matches Some(Ok(v)) && v.timed_out && v.passed is None
            &&& b matches Some(Ok(v)) && v.timed_out && v.passed is None
        }),
{
}

// ---------------------------------------------------------------------------
// The grader, executable
// ---------------------------------------------------------------------------
/// The live container grader.
pub struct ContainerGrader {
    timeout_secs: u64,
    health_checked: bool,
    warmed: Vec<(String, String)>,
    at: GradeStage,
    task_id: String,
    rust: bool,
    cache: Option<String>,
    kind: PlanKind,
    container: String,
    primary: Option<String>,
    exit_ok: bool,
    output: String,
    timed_out: bool,
    manifest: String,
    strike: Option<bool>,
    verdict: Option<Result<GradeVerdict, String>>,
}

/// The views of a list of pairs.
pub open spec fn pair_views(pairs: Seq<(String, String)>) -> Seq<(Seq<char>, Seq<char>)> {
    pairs.map_values(|p: (String, String)| (p.0@, p.1@))
}

/// The view of a grade's end.
pub open spec fn end_view(verdict: Option<Result<GradeVerdict, String>>) -> Option<
    Result<VerdictV, Seq<char>>,
> {
    match verdict {
        None => None,
        Some(Ok(v)) => Some(Ok(verdict_view(v))),
        Some(Err(m)) => Some(Err(m@)),
    }
}

impl View for ContainerGrader {
    type V = GraderV;

    closed spec fn view(&self) -> GraderV {
        GraderV {
            timeout_secs: self.timeout_secs as int,
            health_checked: self.health_checked,
            warmed: pair_views(self.warmed@),
            at: self.at,
            task_id: self.task_id@,
            rust: self.rust,
            cache: maybe_text(self.cache),
            kind: self.kind,
            container: self.container@,
            primary: maybe_text(self.primary),
            exit_ok: self.exit_ok,
            output: self.output@,
            timed_out: self.timed_out,
            manifest: self.manifest@,
            strike: self.strike,
            verdict: end_view(self.verdict),
        }
    }
}

impl ContainerGrader {
    /// A grader that has run nothing yet.
    pub fn new(timeout_secs: u64) -> (out: Self)
        ensures
            out@ == grader_start(timeout_secs as int),
    {
        let out: ContainerGrader = ContainerGrader {
            timeout_secs,
            health_checked: false,
            warmed: Vec::new(),
            at: GradeStage::Idle,
            task_id: String::new(),
            rust: false,
            cache: None,
            kind: PlanKind::Health,
            container: String::new(),
            primary: None,
            exit_ok: false,
            output: String::new(),
            timed_out: false,
            manifest: String::new(),
            strike: None,
            verdict: None,
        };
        assert(out@ =~= grader_start(timeout_secs as int));
        out
    }

    /// The graded task's verdict, or why it could not be graded.
    pub fn verdict(&self) -> (out: &Option<Result<GradeVerdict, String>>)
        ensures
            end_view(*out) == self@.verdict,
    {
        &self.verdict
    }

    /// Whether the breaker is to count a timeout, once the grade command ran.
    pub fn strike(&self) -> (out: Option<bool>)
        ensures
            out == self@.strike,
    {
        self.strike
    }

    fn finish(&mut self, verdict: GradeVerdict) -> (ask: GradeAsk)
        ensures
            final(self)@ == graded(old(self)@, verdict_view(verdict)).0,
            ask@ == graded(old(self)@, verdict_view(verdict)).1,
    {
        self.at = GradeStage::Idle;
        self.verdict = Some(Ok(verdict));
        GradeAsk::Done
    }

    fn give_up(&mut self, message: String) -> (ask: GradeAsk)
        ensures
            final(self)@ == ungraded(old(self)@, message@).0,
            ask@ == ungraded(old(self)@, message@).1,
    {
        self.at = GradeStage::Idle;
        self.verdict = Some(Err(message));
        GradeAsk::Done
    }

    fn run(&mut self, kind: PlanKind) -> (ask: GradeAsk)
        ensures
            final(self)@ == running(old(self)@, kind).0,
            ask@ == running(old(self)@, kind).1,
    {
        self.at = GradeStage::AwaitRun;
        self.kind = kind;
        GradeAsk::Run(kind)
    }

    fn removal_bound(&self) -> (out: u64)
        ensures
            out == removal_secs(self@),
    {
        if self.timeout_secs <= CLEANUP_SECS {
            self.timeout_secs
        } else {
            CLEANUP_SECS
        }
    }

    fn remove(&mut self) -> (ask: GradeAsk)
        ensures
            final(self)@ == removing(old(self)@).0,
            ask@ == removing(old(self)@).1,
    {
        self.at = GradeStage::AwaitRemoval;
        GradeAsk::Remove(self.container.clone(), self.removal_bound())
    }

    /// Take up a task. `wedged` carries the strikes of a tripped breaker.
    pub fn grade(&mut self, task: &TaskSpec, wedged: Option<u64>) -> (ask: GradeAsk)
        ensures
            final(self)@ == taken_up(old(self)@, *task, wedged).0,
            ask@ == taken_up(old(self)@, *task, wedged).1,
    {
        self.task_id = task.id.clone();
        self.rust = match &task.grade_label {
            Some(label) => same(label.as_str(), "rust"),
            None => false,
        };
        self.cache = match &task.cargo_cache {
            Some(c) => Some(c.clone()),
            None => None,
        };
        self.verdict = None;
        self.strike = None;
        match wedged {
            Some(strikes) => {
                let mut m: String = "docker looks wedged (".to_string();
                m.append(dec_u64(strikes).as_str());
                m.append(
                    " consecutive grade timeouts) — yielding with the cell ledger intact; restart the engine and rescore",
                );
                self.give_up(m)
            },
            None => {
                if self.health_checked {
                    self.prepare()
                } else {
                    self.run(PlanKind::Health)
                }
            },
        }
    }

    fn prepare(&mut self) -> (ask: GradeAsk)
        ensures
            final(self)@ == prepared(old(self)@).0,
            ask@ == prepared(old(self)@).1,
    {
        if self.rust && self.cache.is_some() {
            self.at = GradeStage::AwaitManifest;
            GradeAsk::Manifest
        } else {
            self.run(PlanKind::Grade)
        }
    }

    fn cache_path(&self) -> (out: String)
        ensures
            out@ == cache_of(self@),
    {
        match &self.cache {
            Some(c) => c.clone(),
            None => String::new(),
        }
    }

    fn on_manifest(&mut self, outcome: Result<String, String>) -> (ask: GradeAsk)
        ensures
            final(self)@ == on_manifest(old(self)@, outcome).0,
            ask@ == on_manifest(old(self)@, outcome).1,
    {
        match outcome {
            Err(m) => self.give_up(m),
            Ok(manifest) => {
                let cache: String = self.cache_path();
                let ghost wanted = (cache@, manifest@);
                let mut known: bool = false;
                let mut i: usize = 0;
                while i < self.warmed.len()
                    invariant
                        i <= self.warmed.len(),
                        *self == *old(self),
                        wanted == (cache@, manifest@),
                        known == exists|k: int|
                            0 <= k < i && #[trigger] pair_views(self.warmed@)[k] == wanted,
                    decreases self.warmed.len() - i,
                {
                    assert(pair_views(self.warmed@)[i as int] == (
                        self.warmed@[i as int].0@,
                        self.warmed@[i as int].1@,
                    ));
                    if self.warmed[i].0 == cache && self.warmed[i].1 == manifest {
                        known = true;
                        assert(pair_views(self.warmed@)[i as int] == wanted);
                    }
                    i = i + 1;
                }
                if known {
                    self.run(PlanKind::Grade)
                } else {
                    self.at = GradeStage::AwaitWarmCrate;
                    self.manifest = manifest.clone();
                    GradeAsk::WarmCrate(cache, manifest)
                }
            },
        }
    }

    fn on_ran(&mut self, container: String, outcome: Result<CommandEnd, String>) -> (ask: GradeAsk)
        ensures
            final(self)@ == on_ran(old(self)@, container@, outcome).0,
            ask@ == on_ran(old(self)@, container@, outcome).1,
    {
        self.container = container;
        match outcome {
            Ok(end) => {
                self.primary = None;
                self.exit_ok = end.exit_ok;
                self.output = end.output;
                self.timed_out = end.timed_out;
                if end.timed_out {
                    self.remove()
                } else {
                    self.execute(None)
                }
            },
            Err(primary) => {
                self.primary = Some(primary);
                self.remove()
            },
        }
    }

    fn removal_problem(&self, outcome: Result<CommandEnd, String>) -> (out: Option<String>)
        ensures
            maybe_text(out) == removal_failure(self@, outcome),
    {
        let mut m: String = "exact Docker cleanup for container '".to_string();
        m.append(self.container.as_str());
        m.append("'");
        match outcome {
            Err(error) => {
                m.append(" could not run: ");
                m.append(error.as_str());
                Some(m)
            },
            Ok(end) => {
                let low: Vec<char> = lower_chars(&chars_of(end.output.as_str()));
                let gone: Vec<char> = chars_of("no such container");
                if end.timed_out {
                    m.append(" timed out after ");
                    m.append(dec_u64(self.removal_bound()).as_str());
                    m.append("s");
                    m.append(output_suffix(end.output.as_str()).as_str());
                    Some(m)
                } else if end.exit_ok || find(&low, &gone) {
                    None
                } else {
                    m.append(" failed");
                    m.append(output_suffix(end.output.as_str()).as_str());
                    Some(m)
                }
            },
        }
    }

    fn on_removed(&mut self, outcome: Result<CommandEnd, String>) -> (ask: GradeAsk)
        ensures
            final(self)@ == on_removed(old(self)@, outcome).0,
            ask@ == on_removed(old(self)@, outcome).1,
    {
        let failure: Option<String> = self.removal_problem(outcome);
        let primary: Option<String> = match &self.primary {
            Some(p) => Some(p.clone()),
            None => None,
        };
        match primary {
            Some(p) => {
                let mut m: String = p;
                m.append("; ");
                match failure {
                    Some(d) => {
                        m.append(d.as_str());
                    },
                    None => {
                        let mut done: String = "exact Docker cleanup completed for container '".to_string();
                        done.append(self.container.as_str());
                        done.append("'");
                        m.append(done.as_str());
                    },
                }
                self.give_up(m)
            },
            None => self.execute(failure),
        }
    }

    fn detail(&self, diagnostic: Option<String>) -> (out: String)
        ensures
            out@ == failure_detail(self@, maybe_text(diagnostic)),
    {
        if self.timed_out {
            let mut out: String = "timed out after ".to_string();
            out.append(dec_u64(self.timeout_secs).as_str());
            out.append("s");
            let ghost before = out@;
            match diagnostic {
                Some(d) => {
                    out.append("; ");
                    out.append(d.as_str());
                    assert(out@ =~= before + ("; "@ + d@));
                },
                None => {
                    assert(out@ =~= before + seq![]);
                },
            }
            out
        } else {
            trim(self.output.as_str())
        }
    }

    fn execute(&mut self, diagnostic: Option<String>) -> (ask: GradeAsk)
        ensures
            final(self)@ == executed(old(self)@, maybe_text(diagnostic)).0,
            ask@ == executed(old(self)@, maybe_text(diagnostic)).1,
    {
        match self.kind {
            PlanKind::Health => {
                if self.exit_ok && !self.timed_out {
                    self.health_checked = true;
                    self.prepare()
                } else {
                    let mut m: String = "docker failed its pre-flight health check (a container must run to completion): ".to_string();
                    m.append(self.detail(diagnostic).as_str());
                    self.give_up(m)
                }
            },
            PlanKind::Warm => {
                if self.exit_ok && !self.timed_out {
                    let ghost was = pair_views(self.warmed@);
                    let pair: (String, String) = (self.cache_path(), self.manifest.clone());
                    self.warmed.push(pair);
                    assert(pair_views(self.warmed@) =~= was.push((pair.0@, pair.1@)));
                    self.run(PlanKind::Grade)
                } else {
                    let mut m: String = "Cargo cache preparation failed for task '".to_string();
                    m.append(self.task_id.as_str());
                    m.append("': ");
                    m.append(self.detail(diagnostic).as_str());
                    self.give_up(m)
                }
            },
            PlanKind::Grade => {
                self.strike = Some(self.timed_out);
                if self.timed_out {
                    let mut note: String = "grade timed out after ".to_string();
                    note.append(dec_u64(self.timeout_secs).as_str());
                    note.append("s");
                    self.finish(
                        GradeVerdict {
                            passed: None,
                            timed_out: true,
                            infra_gap: None,
                            cleanup_diagnostic: diagnostic,
                            note,
                        },
                    )
                } else {
                    self.at = GradeStage::AwaitAssessment;
                    GradeAsk::Assess(self.output.clone())
                }
            },
        }
    }

    fn on_assessed(&mut self, a: Assessment) -> (ask: GradeAsk)
        ensures
            final(self)@ == on_assessed(old(self)@, a).0,
            ask@ == on_assessed(old(self)@, a).1,
    {
        if !self.exit_ok && a.offline_gap {
            let mut gap: String = "task '".to_string();
            gap.append(self.task_id.as_str());
            gap.append(
                "': the offline cargo cache is under-vendored (a dependency could not be fetched under --network=none) — re-warm the cache and rescore",
            );
            self.finish(
                GradeVerdict {
                    passed: None,
                    timed_out: false,
                    infra_gap: Some(gap),
                    cleanup_diagnostic: None,
                    note: "offline cargo fetch failed (infrastructure gap, not a solve failure)".to_string(),
                },
            )
        } else {
            let passed: bool = self.exit_ok && a.tests > 0;
            self.finish(
                GradeVerdict {
                    passed: Some(passed),
                    timed_out: false,
                    infra_gap: None,
                    cleanup_diagnostic: None,
                    note: a.note,
                },
            )
        }
    }

    /// One transition: take the driver's reply, hand back the next question.
    pub fn step(&mut self, reply: GradeReply) -> (ask: GradeAsk)
        ensures
            final(self)@ == grade_step(old(self)@, reply).0,
            ask@ == grade_step(old(self)@, reply).1,
    {
        match (self.at, reply) {
            (GradeStage::AwaitRun, GradeReply::Ran(container, outcome)) => self.on_ran(
                container,
                outcome,
            ),
            (GradeStage::AwaitRemoval, GradeReply::Removed(outcome)) => self.on_removed(outcome),
            (GradeStage::AwaitManifest, GradeReply::Manifest(outcome)) => self.on_manifest(outcome),
            (GradeStage::AwaitWarmCrate, GradeReply::WarmCrate(outcome)) => match outcome {
                Err(m) => self.give_up(m),
                Ok(()) => self.run(PlanKind::Warm),
            },
            (GradeStage::AwaitAssessment, GradeReply::Assessed(a)) => self.on_assessed(a),
            _ => GradeAsk::Done,
        }
    }
}

/// Why a Rust task outside a corpus cannot be warmed.
pub fn corpus_root_missing(task: &TaskSpec) -> (out: String)
    ensures
        out@ == "task '"@ + task.id@
            + "' is not inside a Rust corpus containing rust/exercises/practice; cannot prepare its offline Cargo cache"@,
{
    let mut m: String = "task '".to_string();
    m.append(task.id.as_str());
    m.append(
        "' is not inside a Rust corpus containing rust/exercises/practice; cannot prepare its offline Cargo cache",
    );
    m
}

/// Whether the warm crate's manifest on disk has to be written.
pub fn manifest_is_stale(current: &Option<String>, manifest: &String) -> (out: bool)
    ensures
        out == (maybe_text(*current) != Some(manifest@)),
{
    match current {
        Some(text) => *text != *manifest,
        None => true,
    }
}

} // verus!
