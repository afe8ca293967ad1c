//! One live trial, one transition at a time: launch a server for a candidate,
//! wait for it while watching the process, sample it, and tear it down.
//!
//! The run decides; its driver resolves, spawns, waits, measures and kills.
use vstd::prelude::*;
use vstd::string::StringExecFns;

use crate::chat::{
    parse_chat_measurement, validate_measurement_content, SmokeVerdict, TimingReading,
};
#[allow(unused_imports)]
use crate::chat::{body_measurement, content_failure, ChatMeasurement, MeasurementV};
use crate::json::{no_members, Member};
#[allow(unused_imports)]
use crate::json::{members_view, JsonV};
use crate::text::{dec_padded, dec_u64};
#[allow(unused_imports)]
use crate::text::{dec, lines, views, zero_padded};
use crate::trial::{
    failure, infer_runtime_advisories, safe_path_component, sanitize_excerpt,
    sanitize_launch_args, TrialFailure, TrialFailureReason, TrialFailureStage,
};
#[allow(unused_imports)]
use crate::trial::{
    advisories, component, excerpt, failed, first_eight, law_excerpts_are_bounded_and_redacted,
    recorded_args, FailureV, MAX_DIAGNOSTIC_CHARS,
};

verus! {

// ---------------------------------------------------------------------------
// Trials
// ---------------------------------------------------------------------------
/// How a server failed to start.
#[derive(Clone, Copy, Debug, PartialEq, Eq, Structural)]
pub enum StartupFailure {
    ExitedOom,
    Exited,
    TimedOut,
}

/// Where the evidence of an attempt is.
#[derive(Clone, Debug, PartialEq, Eq)]
pub struct TrialDiagnosticRef {
    pub attempt_id: String,
    pub manifest_path: String,
    pub log_path: String,
}

/// Where the evidence is, mathematically.
pub struct DiagnosticV {
    pub attempt_id: Seq<char>,
    pub manifest_path: Seq<char>,
    pub log_path: Seq<char>,
}

impl View for TrialDiagnosticRef {
    type V = DiagnosticV;

    open spec fn view(&self) -> DiagnosticV {
        DiagnosticV {
            attempt_id: self.attempt_id@,
            manifest_path: self.manifest_path@,
            log_path: self.log_path@,
        }
    }
}

/// The verdict on one candidate; rates are in decimal form.
#[derive(Debug, PartialEq, Eq)]
pub struct Trial {
    pub startup_ok: bool,
    pub oom: bool,
    pub startup_failure: Option<StartupFailure>,
    pub measurement_usable: bool,
    pub failure: Option<TrialFailure>,
    pub pp_tps: Option<String>,
    pub tg_tps: Option<String>,
    pub variance: Option<String>,
    pub process_status: Option<i32>,
    pub diagnostic_excerpt: String,
    pub diagnostic: Option<TrialDiagnosticRef>,
    pub observed_configuration: Vec<Member>,
    pub launch_args: Vec<String>,
    pub advisory_observations: Vec<String>,
}

/// A verdict, mathematically.
#[verifier::ext_equal]
pub struct TrialV {
    pub startup_ok: bool,
    pub oom: bool,
    pub startup_failure: Option<StartupFailure>,
    pub measurement_usable: bool,
    pub failure: Option<FailureV>,
    pub pp_tps: Option<Seq<char>>,
    pub tg_tps: Option<Seq<char>>,
    pub variance: Option<Seq<char>>,
    pub process_status: Option<i32>,
    pub diagnostic_excerpt: Seq<char>,
    pub diagnostic: Option<DiagnosticV>,
    pub observed: Seq<(Seq<char>, JsonV)>,
    pub launch_args: Seq<Seq<char>>,
    pub advisories: Seq<Seq<char>>,
}

pub open spec fn text_view(text: Option<String>) -> Option<Seq<char>> {
    match text {
        Some(t) => Some(t@),
        None => None,
    }
}

impl View for Trial {
    type V = TrialV;

    open spec fn view(&self) -> TrialV {
        TrialV {
            startup_ok: self.startup_ok,
            oom: self.oom,
            startup_failure: self.startup_failure,
            measurement_usable: self.measurement_usable,
            failure: match self.failure {
                Some(f) => Some(f@),
                None => None,
            },
            pp_tps: text_view(self.pp_tps),
            tg_tps: text_view(self.tg_tps),
            variance: text_view(self.variance),
            process_status: self.process_status,
            diagnostic_excerpt: self.diagnostic_excerpt@,
            diagnostic: match self.diagnostic {
                Some(d) => Some(d@),
                None => None,
            },
            observed: members_view(self.observed_configuration@),
            launch_args: views(self.launch_args@),
            advisories: views(self.advisory_observations@),
        }
    }
}

/// A verdict that says nothing yet.
pub open spec fn blank_trial() -> TrialV {
    TrialV {
        startup_ok: false,
        oom: false,
        startup_failure: None,
        measurement_usable: false,
        failure: None,
        pp_tps: None,
        tg_tps: None,
        variance: None,
        process_status: None,
        diagnostic_excerpt: seq![],
        diagnostic: None,
        observed: seq![],
        launch_args: seq![],
        advisories: seq![],
    }
}

/// A verdict that says nothing yet.
pub fn blank() -> (out: Trial)
    ensures
        out@ == blank_trial(),
{
    let launch_args: Vec<String> = Vec::new();
    let advisory_observations: Vec<String> = Vec::new();
    let diagnostic_excerpt: String = String::new();
    assert(views(launch_args@) =~= seq![]);
    assert(views(advisory_observations@) =~= seq![]);
    assert(diagnostic_excerpt@ =~= seq![]);
    Trial {
        startup_ok: false,
        oom: false,
        startup_failure: None,
        measurement_usable: false,
        failure: None,
        pp_tps: None,
        tg_tps: None,
        variance: None,
        process_status: None,
        diagnostic_excerpt,
        diagnostic: None,
        observed_configuration: no_members(),
        launch_args,
        advisory_observations,
    }
}

/// A minimal failed trial, out of memory or not.
pub open spec fn failed_trial_of(oom: bool) -> TrialV {
    TrialV {
        oom,
        failure: Some(
            if oom {
                failed(
                    TrialFailureStage::Readiness,
                    TrialFailureReason::ReadinessExitedOom,
                    ""@,
                )
            } else {
                failed(TrialFailureStage::Launch, TrialFailureReason::SpawnFailed, ""@)
            },
        ),
        ..blank_trial()
    }
}

/// A minimal failed trial used by scripted callers.
pub fn failed_trial(oom: bool) -> (out: Trial)
    ensures
        out@ == failed_trial_of(oom),
{
    let mut trial: Trial = blank();
    trial.oom = oom;
    trial.failure = Some(
        if oom {
            failure(TrialFailureStage::Readiness, TrialFailureReason::ReadinessExitedOom, "")
        } else {
            failure(TrialFailureStage::Launch, TrialFailureReason::SpawnFailed, "")
        },
    );
    trial
}

/// A startup failure that records why it failed: only an exit whose log says
/// so is out of memory.
pub open spec fn startup_failed(
    kind: StartupFailure,
    status: Option<i32>,
    diagnostic: Seq<char>,
) -> TrialV {
    TrialV {
        oom: kind is ExitedOom,
        startup_failure: Some(kind),
        failure: Some(
            failed(
                TrialFailureStage::Readiness,
                match kind {
                    StartupFailure::ExitedOom => TrialFailureReason::ReadinessExitedOom,
                    StartupFailure::Exited => TrialFailureReason::ReadinessExited,
                    StartupFailure::TimedOut => TrialFailureReason::ReadinessTimeout,
                },
                ""@,
            ),
        ),
        process_status: status,
        diagnostic_excerpt: diagnostic,
        ..blank_trial()
    }
}

/// A startup failure that records why it failed.
pub fn startup_failed_trial(
    kind: StartupFailure,
    status: Option<i32>,
    diagnostic: String,
) -> (out: Trial)
    ensures
        out@ == startup_failed(kind, status, diagnostic@),
{
    let (oom, reason) = match kind {
        StartupFailure::ExitedOom => (true, TrialFailureReason::ReadinessExitedOom),
        StartupFailure::Exited => (false, TrialFailureReason::ReadinessExited),
        StartupFailure::TimedOut => (false, TrialFailureReason::ReadinessTimeout),
    };
    let mut trial: Trial = blank();
    trial.oom = oom;
    trial.startup_failure = Some(kind);
    trial.failure = Some(failure(TrialFailureStage::Readiness, reason, ""));
    trial.process_status = status;
    trial.diagnostic_excerpt = diagnostic;
    trial
}

// ---------------------------------------------------------------------------
// Vocabulary
// ---------------------------------------------------------------------------
/// What a trial is asked to measure.
#[derive(Clone, Debug, PartialEq, Eq)]
pub struct TrialPlan {
    pub run_id: String,
    pub ordinal: u64,
    pub phase: String,
    /// The hash of the candidate's overrides.
    pub signature_hash: String,
    /// Samples per trial; at least one is taken.
    pub runs: usize,
    /// Startup wait, seconds.
    pub startup_timeout_secs: u32,
}

/// How many samples a trial takes.
pub open spec fn wanted(plan: TrialPlan) -> int {
    if plan.runs > 0 {
        plan.runs as int
    } else {
        1
    }
}

/// The attempt's identity.
pub open spec fn attempt_id(plan: TrialPlan) -> Seq<char> {
    component(plan.run_id@, 48, "unknown"@) + "-"@ + zero_padded(dec(plan.ordinal as nat), 4)
        + "-"@ + plan.signature_hash@
}

/// The name of the attempt's log.
pub open spec fn log_name(plan: TrialPlan, port: u16) -> Seq<char> {
    "trial-"@ + component(plan.run_id@, 48, "unknown"@) + "-"@ + zero_padded(
        dec(plan.ordinal as nat),
        4,
    ) + "-"@ + component(plan.phase@, 48, "unknown"@) + "-"@ + plan.signature_hash@ + "-"@ + dec(
        port as nat,
    ) + ".log"@
}

fn name_attempt(plan: &TrialPlan) -> (out: String)
    ensures
        out@ == attempt_id(*plan),
{
    let mut id: String = safe_path_component(plan.run_id.as_str());
    id.append("-");
    id.append(dec_padded(plan.ordinal, 4).as_str());
    id.append("-");
    id.append(plan.signature_hash.as_str());
    id
}

fn name_log(plan: &TrialPlan, port: u16) -> (out: String)
    ensures
        out@ == log_name(*plan, port),
{
    let mut name: String = "trial-".to_string();
    name.append(safe_path_component(plan.run_id.as_str()).as_str());
    name.append("-");
    name.append(dec_padded(plan.ordinal, 4).as_str());
    name.append("-");
    name.append(safe_path_component(plan.phase.as_str()).as_str());
    name.append("-");
    name.append(plan.signature_hash.as_str());
    name.append("-");
    name.append(dec_u64(port as u64).as_str());
    name.append(".log");
    name
}

/// Where a trial stands: what it waits for.
#[derive(Clone, Copy, Debug, PartialEq, Eq, Structural)]
pub enum TrialStage {
    Start,
    Overrides,
    Port,
    Args,
    Binary,
    LogDir,
    Spawn,
    /// Whether the process has exited.
    Poll,
    /// Whether the startup budget is spent.
    Budget,
    /// Whether the server answered within a slice.
    Answer,
    /// The log of a process that exited.
    ExitLog,
    Reap,
    /// The end of a server that never became ready.
    TimeoutKill,
    /// The excerpt of a server that did not start.
    StartupLog,
    Observe,
    Sample,
    Judge,
    /// The end of a server whose text is no measurement.
    ContentKill,
    /// The log of a server whose measurement failed.
    FailureLog,
    FailureKill,
    /// The end of a server that was measured.
    DoneKill,
    Reduce,
    /// The excerpt of a server that was sampled.
    SampleLog,
    AdvisoryLog,
    Finished,
}

/// What a trial asks of its driver.
#[derive(Debug, PartialEq, Eq)]
pub enum TrialAsk {
    Proceed,
    /// Read the candidate's overrides as launch parameters.
    ReadOverrides,
    FindPort,
    BuildArgs(u16),
    FindBinary,
    MakeLogDir,
    /// Spawn the server with a log of this name.
    Spawn(String),
    /// Look whether the process has exited.
    Poll,
    /// Say whether the startup budget is spent.
    Budget,
    /// Wait this many seconds for the server to answer.
    Wait(u32),
    /// Read the log's tail.
    ReadLog,
    /// Reap the exited process.
    Reap,
    /// Kill and reap the process.
    Kill,
    /// Read what the server says of itself.
    Observe,
    /// Send one chat request.
    Measure,
    /// Judge this text.
    Judge(String),
    /// Reduce the samples' rates to medians and a variance.
    Reduce,
    Finished,
}

/// A question, mathematically.
pub enum TrialAskV {
    Proceed,
    ReadOverrides,
    FindPort,
    BuildArgs(u16),
    FindBinary,
    MakeLogDir,
    Spawn(Seq<char>),
    Poll,
    Budget,
    Wait(u32),
    ReadLog,
    Reap,
    Kill,
    Observe,
    Measure,
    Judge(Seq<char>),
    Reduce,
    Finished,
}

impl View for TrialAsk {
    type V = TrialAskV;

    open spec fn view(&self) -> TrialAskV {
        match self {
            TrialAsk::Proceed => TrialAskV::Proceed,
            TrialAsk::ReadOverrides => TrialAskV::ReadOverrides,
            TrialAsk::FindPort => TrialAskV::FindPort,
            TrialAsk::BuildArgs(port) => TrialAskV::BuildArgs(*port),
            TrialAsk::FindBinary => TrialAskV::FindBinary,
            TrialAsk::MakeLogDir => TrialAskV::MakeLogDir,
            TrialAsk::Spawn(name) => TrialAskV::Spawn(name@),
            TrialAsk::Poll => TrialAskV::Poll,
            TrialAsk::Budget => TrialAskV::Budget,
            TrialAsk::Wait(secs) => TrialAskV::Wait(*secs),
            TrialAsk::ReadLog => TrialAskV::ReadLog,
            TrialAsk::Reap => TrialAskV::Reap,
            TrialAsk::Kill => TrialAskV::Kill,
            TrialAsk::Observe => TrialAskV::Observe,
            TrialAsk::Measure => TrialAskV::Measure,
            TrialAsk::Judge(content) => TrialAskV::Judge(content@),
            TrialAsk::Reduce => TrialAskV::Reduce,
            TrialAsk::Finished => TrialAskV::Finished,
        }
    }
}

/// What one chat request brought back.
#[derive(Clone, Debug, PartialEq, Eq)]
pub enum ChatReply {
    /// The request or its response did not get through.
    Transport(String),
    /// The server answered with a status that is no success, and this body.
    Status(String, String),
    /// The server's body, what a typed reader finds wrong with it, and how the
    /// two timings read as rates.
    Body(String, String, TimingReading, TimingReading),
}

/// What a driver replies.
#[derive(Debug, PartialEq, Eq)]
pub enum TrialReply {
    Proceed,
    /// A step of the launch worked, or why not.
    Done(Result<(), String>),
    Port(Result<u16, String>),
    Args(Result<Vec<String>, String>),
    /// The log's path, and whether the server was spawned, or why not.
    Spawned(String, Result<(), String>),
    /// The exited process's status, if it has exited.
    Polled(Option<Option<i32>>),
    /// The startup budget is spent.
    Spent(bool),
    /// The server answered.
    Answered(bool),
    /// The log's tail, and whether it tells of an engine out of memory.
    Log(String, bool),
    /// The killed process's status.
    Killed(Option<i32>),
    Observed(Vec<Member>),
    Chat(ChatReply),
    /// The smoke test's verdict, and whether the visible text meets the
    /// quality minimums.
    Judged(SmokeVerdict, bool),
    /// The medians of the prompt and decode rates, and the decode variance.
    Reduced(Option<String>, Option<String>, Option<String>),
}

/// The runs of one tuning session, numbered.
pub struct LiveRunner {
    run_id: String,
    runs: usize,
    startup_timeout_secs: u32,
    next_ordinal: u64,
}

impl LiveRunner {
    /// The identifier shared by every attempt.
    pub closed spec fn run_id(self) -> String {
        self.run_id
    }

    pub closed spec fn runs(self) -> usize {
        self.runs
    }

    pub closed spec fn startup_timeout(self) -> u32 {
        self.startup_timeout_secs
    }

    /// How many trials have been attempted.
    pub closed spec fn attempted(self) -> u64 {
        self.next_ordinal
    }

    /// A runner with a stable run id and zero attempted trials.
    pub fn new(run_id: String, runs: usize, startup_timeout_secs: u32) -> (out: Self)
        ensures
            out.run_id() == run_id,
            out.runs() == runs,
            out.startup_timeout() == startup_timeout_secs,
            out.attempted() == 0,
    {
        LiveRunner { run_id, runs, startup_timeout_secs, next_ordinal: 0 }
    }

    /// Whether another trial can be numbered.
    pub fn can_plan(&self) -> (out: bool)
        ensures
            out == (self.attempted() < u64::MAX),
    {
        self.next_ordinal < u64::MAX
    }

    /// The plan of the next trial.
    pub fn plan(&mut self, phase: &str, signature_hash: &str) -> (out: TrialPlan)
        requires
            old(self).attempted() < u64::MAX,
        ensures
            final(self).attempted() == old(self).attempted() + 1,
            final(self).run_id() == old(self).run_id(),
            final(self).runs() == old(self).runs(),
            final(self).startup_timeout() == old(self).startup_timeout(),
            out.run_id@ == old(self).run_id()@,
            out.ordinal == old(self).attempted() + 1,
            out.phase@ == phase@,
            out.signature_hash@ == signature_hash@,
            out.runs == old(self).runs(),
            out.startup_timeout_secs == old(self).startup_timeout(),
    {
        self.next_ordinal = self.next_ordinal + 1;
        TrialPlan {
            run_id: self.run_id.clone(),
            ordinal: self.next_ordinal,
            phase: phase.to_string(),
            signature_hash: signature_hash.to_string(),
            runs: self.runs,
            startup_timeout_secs: self.startup_timeout_secs,
        }
    }
}

// ---------------------------------------------------------------------------
// The model
// ---------------------------------------------------------------------------
/// A trial in progress, mathematically.
#[verifier::ext_equal]
pub struct TrialRunV {
    pub plan: TrialPlan,
    pub at: TrialStage,
    pub port: u16,
    pub argv: Seq<Seq<char>>,
    pub log_path: Seq<char>,
    /// A server runs.
    pub alive: bool,
    /// A log told of an engine out of memory.
    pub oom_seen: bool,
    /// How the server failed to start, once that is known.
    pub startup: StartupFailure,
    /// The sample that is being judged.
    pub sample: MeasurementV,
    pub pp: Seq<Seq<char>>,
    pub tg: Seq<Seq<char>>,
    pub trial: TrialV,
    pub warning: Option<Seq<char>>,
}

/// The trial before its first transition.
pub open spec fn trial_start(plan: TrialPlan) -> TrialRunV {
    TrialRunV {
        plan,
        at: TrialStage::Start,
        port: 0,
        argv: seq![],
        log_path: seq![],
        alive: false,
        oom_seen: false,
        startup: StartupFailure::Exited,
        sample: MeasurementV { pp_tps: seq![], tg_tps: seq![], content: seq![] },
        pp: seq![],
        tg: seq![],
        trial: blank_trial(),
        warning: None,
    }
}

pub open spec fn diagnostic_ref(s: TrialRunV, log_path: Seq<char>) -> DiagnosticV {
    DiagnosticV { attempt_id: attempt_id(s.plan), manifest_path: seq![], log_path }
}

/// The trial ends because the launch failed.
pub open spec fn launch_failed(s: TrialRunV, reason: TrialFailureReason, detail: Seq<char>) -> (
    TrialRunV,
    TrialAskV,
) {
    (
        TrialRunV {
            at: TrialStage::Finished,
            trial: TrialV {
                failure: Some(failed(TrialFailureStage::Launch, reason, detail)),
                diagnostic: Some(diagnostic_ref(s, seq![])),
                ..blank_trial()
            },
            ..s
        },
        TrialAskV::Finished,
    )
}

pub open spec fn moved(s: TrialRunV, at: TrialStage, ask: TrialAskV) -> (TrialRunV, TrialAskV) {
    (TrialRunV { at, ..s }, ask)
}

pub open spec fn on_done(s: TrialRunV, outcome: Result<(), String>) -> (TrialRunV, TrialAskV) {
    match (s.at, outcome) {
        (TrialStage::Overrides, Ok(_)) => moved(s, TrialStage::Port, TrialAskV::FindPort),
        (TrialStage::Overrides, Err(e)) => launch_failed(
            s,
            TrialFailureReason::InvalidOverrides,
            e@,
        ),
        (TrialStage::Binary, Ok(_)) => moved(s, TrialStage::LogDir, TrialAskV::MakeLogDir),
        (TrialStage::Binary, Err(e)) => launch_failed(
            s,
            TrialFailureReason::BinaryUnavailable,
            e@,
        ),
        (TrialStage::LogDir, Ok(_)) => moved(
            s,
            TrialStage::Spawn,
            TrialAskV::Spawn(log_name(s.plan, s.port)),
        ),
        (TrialStage::LogDir, Err(e)) => launch_failed(s, TrialFailureReason::SpawnFailed, e@),
        _ => (s, TrialAskV::Proceed),
    }
}

pub open spec fn on_port(s: TrialRunV, outcome: Result<u16, String>) -> (TrialRunV, TrialAskV) {
    match outcome {
        Ok(port) => (
            TrialRunV { port, at: TrialStage::Args, ..s },
            TrialAskV::BuildArgs(port),
        ),
        Err(e) => launch_failed(s, TrialFailureReason::PortUnavailable, e@),
    }
}

pub open spec fn on_args(s: TrialRunV, outcome: Result<Vec<String>, String>) -> (
    TrialRunV,
    TrialAskV,
) {
    match outcome {
        Ok(argv) => (
            TrialRunV { argv: views(argv@), at: TrialStage::Binary, ..s },
            TrialAskV::FindBinary,
        ),
        Err(e) => launch_failed(s, TrialFailureReason::ArgumentConstruction, e@),
    }
}

pub open spec fn on_spawned(s: TrialRunV, log_path: Seq<char>, outcome: Result<(), String>) -> (
    TrialRunV,
    TrialAskV,
) {
    match outcome {
        Ok(_) => (
            TrialRunV { log_path, alive: true, at: TrialStage::Poll, ..s },
            TrialAskV::Poll,
        ),
        Err(e) => {
            let f = launch_failed(s, TrialFailureReason::SpawnFailed, e@).0;
            (
                TrialRunV {
                    log_path,
                    trial: TrialV {
                        diagnostic: Some(diagnostic_ref(s, log_path)),
                        launch_args: recorded_args(s.argv),
                        ..f.trial
                    },
                    ..f
                },
                TrialAskV::Finished,
            )
        },
    }
}

/// A process that exits is an unambiguous answer; a still-loading server keeps
/// the full budget.
pub open spec fn on_polled(s: TrialRunV, exited: Option<Option<i32>>) -> (TrialRunV, TrialAskV) {
    match exited {
        Some(status) => (
            TrialRunV {
                alive: false,
                trial: TrialV { process_status: status, ..s.trial },
                at: TrialStage::ExitLog,
                ..s
            },
            TrialAskV::ReadLog,
        ),
        None => moved(s, TrialStage::Budget, TrialAskV::Budget),
    }
}

/// The slice of a wait for the server, so that the process is looked at about
/// once a second.
pub const SLICE_SECS: u32 = 1;

pub open spec fn on_spent(s: TrialRunV, spent: bool) -> (TrialRunV, TrialAskV) {
    if spent {
        (
            TrialRunV {
                startup: StartupFailure::TimedOut,
                warning: Some(
                    "trial server on port "@ + dec(s.port as nat)
                        + " never became ready within "@ + dec(s.plan.startup_timeout_secs as nat)
                        + "s and was still running; raise --startup-timeout if this machine loads models slowly"@,
                ),
                at: TrialStage::TimeoutKill,
                ..s
            },
            TrialAskV::Kill,
        )
    } else {
        moved(s, TrialStage::Answer, TrialAskV::Wait(SLICE_SECS))
    }
}

pub open spec fn on_answered(s: TrialRunV, ready: bool) -> (TrialRunV, TrialAskV) {
    if ready {
        moved(s, TrialStage::Observe, TrialAskV::Observe)
    } else {
        moved(s, TrialStage::Poll, TrialAskV::Poll)
    }
}

/// What is said of the trial once its verdict stands.
pub open spec fn closed(s: TrialRunV, tail: Seq<char>) -> TrialV {
    TrialV {
        diagnostic: Some(diagnostic_ref(s, s.log_path)),
        launch_args: recorded_args(s.argv),
        advisories: first_eight(advisories(lines(tail), lines(tail).len() as int)),
        ..s.trial
    }
}

pub open spec fn on_log(s: TrialRunV, tail: Seq<char>, oom: bool) -> (TrialRunV, TrialAskV) {
    let t = TrialRunV { oom_seen: s.oom_seen || oom, ..s };
    match s.at {
        TrialStage::ExitLog => (
            TrialRunV {
                startup: if oom {
                    StartupFailure::ExitedOom
                } else {
                    StartupFailure::Exited
                },
                at: TrialStage::Reap,
                ..t
            },
            TrialAskV::Reap,
        ),
        TrialStage::StartupLog => (
            TrialRunV {
                trial: startup_failed(s.startup, s.trial.process_status, excerpt(tail)),
                at: TrialStage::AdvisoryLog,
                ..t
            },
            TrialAskV::ReadLog,
        ),
        TrialStage::FailureLog => (
            TrialRunV {
                trial: TrialV { oom, diagnostic_excerpt: excerpt(tail), ..s.trial },
                at: TrialStage::FailureKill,
                ..t
            },
            TrialAskV::Kill,
        ),
        TrialStage::SampleLog => (
            TrialRunV {
                trial: TrialV { diagnostic_excerpt: excerpt(tail), ..s.trial },
                at: TrialStage::AdvisoryLog,
                ..t
            },
            TrialAskV::ReadLog,
        ),
        TrialStage::AdvisoryLog => (
            TrialRunV { trial: closed(s, tail), at: TrialStage::Finished, ..t },
            TrialAskV::Finished,
        ),
        _ => (s, TrialAskV::Proceed),
    }
}

pub open spec fn on_killed(s: TrialRunV, status: Option<i32>) -> (TrialRunV, TrialAskV) {
    let t = TrialRunV {
        alive: false,
        trial: TrialV { process_status: status, ..s.trial },
        ..s
    };
    match s.at {
        TrialStage::TimeoutKill => moved(t, TrialStage::StartupLog, TrialAskV::ReadLog),
        TrialStage::ContentKill => moved(t, TrialStage::SampleLog, TrialAskV::ReadLog),
        TrialStage::FailureKill => moved(t, TrialStage::AdvisoryLog, TrialAskV::ReadLog),
        TrialStage::DoneKill => moved(t, TrialStage::Reduce, TrialAskV::Reduce),
        _ => (s, TrialAskV::Proceed),
    }
}

pub open spec fn on_observed(s: TrialRunV, observed: Seq<(Seq<char>, JsonV)>) -> (
    TrialRunV,
    TrialAskV,
) {
    (
        TrialRunV {
            trial: TrialV { startup_ok: true, observed, ..s.trial },
            at: TrialStage::Sample,
            ..s
        },
        TrialAskV::Measure,
    )
}

/// The measurement that a chat request brought back, or why it brought none.
pub open spec fn chat_outcome(reply: ChatReply) -> Result<MeasurementV, FailureV> {
    match reply {
        ChatReply::Transport(e) => Err(
            failed(TrialFailureStage::Request, TrialFailureReason::Transport, e@),
        ),
        ChatReply::Status(status, body) => Err(
            failed(
                TrialFailureStage::Response,
                TrialFailureReason::HttpStatus,
                "HTTP "@ + status@ + ": "@ + excerpt(body@),
            ),
        ),
        ChatReply::Body(body, misfit, prompt, predicted) => body_measurement(
            body@,
            misfit@,
            prompt,
            predicted,
        ),
    }
}

/// A response that merely mentions memory is not fit evidence: what the
/// engine's own log says decides.
pub open spec fn on_chat(s: TrialRunV, reply: ChatReply) -> (TrialRunV, TrialAskV) {
    match chat_outcome(reply) {
        Ok(m) => (
            TrialRunV { sample: m, at: TrialStage::Judge, ..s },
            TrialAskV::Judge(m.content),
        ),
        Err(f) => (
            TrialRunV {
                trial: TrialV { failure: Some(f), ..s.trial },
                at: TrialStage::FailureLog,
                ..s
            },
            TrialAskV::ReadLog,
        ),
    }
}

pub open spec fn on_judged(s: TrialRunV, smoke: SmokeVerdict, quality_ok: bool) -> (
    TrialRunV,
    TrialAskV,
) {
    match content_failure(s.sample.content, smoke, quality_ok) {
        Some(f) => (
            TrialRunV {
                trial: TrialV { failure: Some(f), ..s.trial },
                at: TrialStage::ContentKill,
                ..s
            },
            TrialAskV::Kill,
        ),
        None => {
            let t = TrialRunV {
                pp: s.pp.push(s.sample.pp_tps),
                tg: s.tg.push(s.sample.tg_tps),
                ..s
            };
            if t.pp.len() >= wanted(s.plan) {
                moved(t, TrialStage::DoneKill, TrialAskV::Kill)
            } else {
                moved(t, TrialStage::Sample, TrialAskV::Measure)
            }
        },
    }
}

pub open spec fn on_reduced(
    s: TrialRunV,
    pp_tps: Option<Seq<char>>,
    tg_tps: Option<Seq<char>>,
    variance: Option<Seq<char>>,
) -> (TrialRunV, TrialAskV) {
    (
        TrialRunV {
            trial: TrialV { measurement_usable: true, pp_tps, tg_tps, variance, ..s.trial },
            at: TrialStage::SampleLog,
            ..s
        },
        TrialAskV::ReadLog,
    )
}

/// One transition. A reply that answers no question changes nothing.
pub open spec fn tried(s: TrialRunV, reply: TrialReply) -> (TrialRunV, TrialAskV) {
    match (s.at, reply) {
        (TrialStage::Start, TrialReply::Proceed) => moved(
            s,
            TrialStage::Overrides,
            TrialAskV::ReadOverrides,
        ),
        (TrialStage::Reap, TrialReply::Proceed) => moved(
            s,
            TrialStage::StartupLog,
            TrialAskV::ReadLog,
        ),
        (_, TrialReply::Done(outcome)) => on_done(s, outcome),
        (TrialStage::Port, TrialReply::Port(outcome)) => on_port(s, outcome),
        (TrialStage::Args, TrialReply::Args(outcome)) => on_args(s, outcome),
        (TrialStage::Spawn, TrialReply::Spawned(log_path, outcome)) => on_spawned(
            s,
            log_path@,
            outcome,
        ),
        (TrialStage::Poll, TrialReply::Polled(exited)) => on_polled(s, exited),
        (TrialStage::Budget, TrialReply::Spent(spent)) => on_spent(s, spent),
        (TrialStage::Answer, TrialReply::Answered(ready)) => on_answered(s, ready),
        (_, TrialReply::Log(tail, oom)) => on_log(s, tail@, oom),
        (_, TrialReply::Killed(status)) => on_killed(s, status),
        (TrialStage::Observe, TrialReply::Observed(observed)) => on_observed(
            s,
            members_view(observed@),
        ),
        (TrialStage::Sample, TrialReply::Chat(chat)) => on_chat(s, chat),
        (TrialStage::Judge, TrialReply::Judged(smoke, quality_ok)) => on_judged(
            s,
            smoke,
            quality_ok,
        ),
        (TrialStage::Reduce, TrialReply::Reduced(pp_tps, tg_tps, variance)) => on_reduced(
            s,
            text_view(pp_tps),
            text_view(tg_tps),
            text_view(variance),
        ),
        _ => (s, TrialAskV::Proceed),
    }
}

// ---------------------------------------------------------------------------
// Laws
// ---------------------------------------------------------------------------
/// The launch is not through yet.
pub open spec fn launching(at: TrialStage) -> bool {
    at is Start || at is Overrides || at is Port || at is Args || at is Binary || at is LogDir
        || at is Spawn
}

/// The server is past its startup.
pub open spec fn sampling(at: TrialStage) -> bool {
    at is Sample || at is Judge || at is ContentKill || at is FailureLog || at is FailureKill
        || at is DoneKill || at is Reduce || at is SampleLog
}

/// A server may run in this stage.
pub open spec fn running(at: TrialStage) -> bool {
    at is Poll || at is Budget || at is Answer || at is TimeoutKill || at is Observe
        || at is Sample || at is Judge || at is ContentKill || at is FailureLog
        || at is FailureKill || at is DoneKill
}

/// What holds of every trial.
pub open spec fn trial_sound(s: TrialRunV) -> bool {
    let t = s.trial;
    &&& s.alive == running(s.at)
    &&& s.pp.len() == s.tg.len() <= wanted(s.plan)
    &&& t.diagnostic_excerpt.len() <= MAX_DIAGNOSTIC_CHARS
    &&& t.oom ==> s.oom_seen && t.failure is Some
    &&& s.startup is ExitedOom ==> s.oom_seen
    &&& t.measurement_usable ==> t.startup_ok && !t.oom && t.failure is None && s.pp.len()
        == wanted(s.plan)
    &&& s.at is Finished ==> t.diagnostic is Some && (t.measurement_usable || t.failure is Some)
    &&& s.at is AdvisoryLog ==> t.measurement_usable || t.failure is Some
    &&& s.at is SampleLog ==> t.measurement_usable || t.failure is Some
    &&& s.at is ContentKill || s.at is FailureLog || s.at is FailureKill ==> t.failure is Some
    &&& sampling(s.at) ==> t.startup_ok && t.startup_failure is None
    &&& s.at is Sample || s.at is Judge || s.at is DoneKill || s.at is Reduce ==> t.failure is None
    &&& s.at is DoneKill || s.at is Reduce ==> s.pp.len() == wanted(s.plan)
    &&& s.at is Sample || s.at is Judge ==> s.pp.len() < wanted(s.plan)
    &&& (s.at is SampleLog || s.at is AdvisoryLog || s.at is Finished) || !t.measurement_usable
    &&& (s.at is FailureKill || s.at is AdvisoryLog || s.at is Finished) || !t.oom
    &&& launching(s.at) || s.at is Poll || s.at is Budget || s.at is Answer || s.at is Observe ==> {
        s.pp.len() == 0 && t.failure is None
    }
    &&& !(s.at is AdvisoryLog || s.at is Finished) ==> t.startup_failure is None
    &&& t.startup_ok ==> t.startup_failure is None
    &&& t.startup_failure is Some ==> t.failure is Some && !t.startup_ok
}

/// A trial begins sound and every transition keeps it sound: a server that was
/// spawned is gone when the trial ends; a usable trial started, did not fail
/// and was sampled as often as asked; an unusable one carries a typed failure;
/// and only an engine's own log makes a trial one that ran out of memory.
pub proof fn law_every_trial_transition_is_sound(s: TrialRunV, reply: TrialReply)
    requires
        trial_sound(s),
    ensures
        trial_sound(tried(s, reply).0),
        tried(s, reply).0.plan == s.plan,
{
    match reply {
        TrialReply::Log(tail, _) => {
            law_excerpts_are_bounded_and_redacted(tail@);
        },
        _ => {},
    }
}

/// The trial after a list of replies.
pub open spec fn trial_after(plan: TrialPlan, replies: Seq<TrialReply>) -> TrialRunV
    decreases replies.len(),
{
    if replies.len() == 0 {
        trial_start(plan)
    } else {
        tried(trial_after(plan, replies.drop_last()), replies.last()).0
    }
}

/// Whatever the host does, a finished trial leaves no server behind, is usable
/// or carries a typed failure but never both, and names its evidence.
pub proof fn law_a_finished_trial_is_decided(plan: TrialPlan, replies: Seq<TrialReply>)
    ensures
        trial_sound(trial_after(plan, replies)),
        trial_after(plan, replies).plan == plan,
        ({
            let s = trial_after(plan, replies);
            s.at is Finished ==> !s.alive && s.trial.measurement_usable == (s.trial.failure is None)
                && s.trial.diagnostic is Some && (s.trial.measurement_usable ==> s.pp.len()
                == wanted(plan))
        }),
    decreases replies.len(),
{
    if replies.len() > 0 {
        law_a_finished_trial_is_decided(plan, replies.drop_last());
        law_every_trial_transition_is_sound(
            trial_after(plan, replies.drop_last()),
            replies.last(),
        );
    }
}

// ---------------------------------------------------------------------------
// The run
// ---------------------------------------------------------------------------
/// One live trial in progress.
pub struct TrialRun {
    plan: TrialPlan,
    at: TrialStage,
    port: u16,
    argv: Vec<String>,
    log_path: String,
    alive: bool,
    oom_seen: bool,
    startup: StartupFailure,
    sample: ChatMeasurement,
    pp: Vec<String>,
    tg: Vec<String>,
    trial: Trial,
    warning: Option<String>,
}

impl View for TrialRun {
    type V = TrialRunV;

    closed spec fn view(&self) -> TrialRunV {
        TrialRunV {
            plan: self.plan,
            at: self.at,
            port: self.port,
            argv: views(self.argv@),
            log_path: self.log_path@,
            alive: self.alive,
            oom_seen: self.oom_seen,
            startup: self.startup,
            sample: self.sample@,
            pp: views(self.pp@),
            tg: views(self.tg@),
            trial: self.trial@,
            warning: text_view(self.warning),
        }
    }
}

/// Begin a trial.
pub fn begin_trial(plan: TrialPlan) -> (out: TrialRun)
    ensures
        out@ == trial_start(plan),
{
    let argv: Vec<String> = Vec::new();
    let pp: Vec<String> = Vec::new();
    let tg: Vec<String> = Vec::new();
    let sample: ChatMeasurement = ChatMeasurement {
        pp_tps: String::new(),
        tg_tps: String::new(),
        content: String::new(),
    };
    let log_path: String = String::new();
    assert(views(argv@) =~= seq![]);
    assert(views(pp@) =~= seq![]);
    assert(views(tg@) =~= seq![]);
    assert(log_path@ =~= seq![]);
    assert(sample.pp_tps@ =~= seq![]);
    assert(sample.tg_tps@ =~= seq![]);
    assert(sample.content@ =~= seq![]);
    TrialRun {
        plan,
        at: TrialStage::Start,
        port: 0,
        argv,
        log_path,
        alive: false,
        oom_seen: false,
        startup: StartupFailure::Exited,
        sample,
        pp,
        tg,
        trial: blank(),
        warning: None,
    }
}

fn read_chat(reply: ChatReply) -> (out: Result<ChatMeasurement, TrialFailure>)
    ensures
        match out {
            Ok(m) => chat_outcome(reply) == Ok::<MeasurementV, FailureV>(m@),
            Err(f) => chat_outcome(reply) == Err::<MeasurementV, FailureV>(f@),
        },
{
    match reply {
        ChatReply::Transport(e) => Err(
            failure(TrialFailureStage::Request, TrialFailureReason::Transport, e.as_str()),
        ),
        ChatReply::Status(status, body) => {
            let mut m: String = "HTTP ".to_string();
            m.append(status.as_str());
            m.append(": ");
            m.append(sanitize_excerpt(body.as_str()).as_str());
            Err(failure(TrialFailureStage::Response, TrialFailureReason::HttpStatus, m.as_str()))
        },
        ChatReply::Body(body, misfit, prompt, predicted) => parse_chat_measurement(
            body.as_str(),
            misfit.as_str(),
            prompt,
            predicted,
        ),
    }
}

impl TrialRun {
    /// Where the trial stands.
    pub fn stage(&self) -> (out: TrialStage)
        ensures
            out == self@.at,
    {
        self.at
    }

    /// The prompt rates of the samples so far.
    pub fn prompt_rates(&self) -> (out: &Vec<String>)
        ensures
            views(out@) == self@.pp,
    {
        &self.pp
    }

    /// The decode rates of the samples so far.
    pub fn decode_rates(&self) -> (out: &Vec<String>)
        ensures
            views(out@) == self@.tg,
    {
        &self.tg
    }

    /// What the user is told about a server that never became ready.
    pub fn warning(&self) -> (out: Option<&String>)
        ensures
            match out {
                Some(w) => self@.warning == Some(w@),
                None => self@.warning is None,
            },
    {
        match &self.warning {
            Some(w) => Some(w),
            None => None,
        }
    }

    /// The verdict of a finished trial.
    pub fn verdict(self) -> (out: Option<Trial>)
        ensures
            match out {
                Some(t) => self@.at is Finished && t@ == self@.trial,
                None => !(self@.at is Finished),
            },
    {
        if self.at == TrialStage::Finished {
            Some(self.trial)
        } else {
            None
        }
    }

    fn reference(&self, log_path: &str) -> (out: Option<TrialDiagnosticRef>)
        ensures
            out matches Some(d) && d@ == diagnostic_ref(self@, log_path@),
    {
        let manifest_path: String = String::new();
        assert(manifest_path@ =~= seq![]);
        Some(
            TrialDiagnosticRef {
                attempt_id: name_attempt(&self.plan),
                manifest_path,
                log_path: log_path.to_string(),
            },
        )
    }

    fn fail_launch(&mut self, reason: TrialFailureReason, detail: &str) -> (ask: TrialAsk)
        ensures
            final(self)@ == launch_failed(old(self)@, reason, detail@).0,
            ask@ == launch_failed(old(self)@, reason, detail@).1,
    {
        let mut trial: Trial = blank();
        trial.failure = Some(failure(TrialFailureStage::Launch, reason, detail));
        let nowhere: String = String::new();
        assert(nowhere@ =~= seq![]);
        trial.diagnostic = self.reference(nowhere.as_str());
        self.trial = trial;
        self.at = TrialStage::Finished;
        TrialAsk::Finished
    }

    fn take_done(&mut self, outcome: Result<(), String>) -> (ask: TrialAsk)
        ensures
            final(self)@ == on_done(old(self)@, outcome).0,
            ask@ == on_done(old(self)@, outcome).1,
    {
        match (self.at, outcome) {
            (TrialStage::Overrides, Ok(_)) => {
                self.at = TrialStage::Port;
                TrialAsk::FindPort
            },
            (TrialStage::Overrides, Err(e)) => self.fail_launch(
                TrialFailureReason::InvalidOverrides,
                e.as_str(),
            ),
            (TrialStage::Binary, Ok(_)) => {
                self.at = TrialStage::LogDir;
                TrialAsk::MakeLogDir
            },
            (TrialStage::Binary, Err(e)) => self.fail_launch(
                TrialFailureReason::BinaryUnavailable,
                e.as_str(),
            ),
            (TrialStage::LogDir, Ok(_)) => {
                self.at = TrialStage::Spawn;
                TrialAsk::Spawn(name_log(&self.plan, self.port))
            },
            (TrialStage::LogDir, Err(e)) => self.fail_launch(
                TrialFailureReason::SpawnFailed,
                e.as_str(),
            ),
            _ => TrialAsk::Proceed,
        }
    }

    fn take_port(&mut self, outcome: Result<u16, String>) -> (ask: TrialAsk)
        ensures
            final(self)@ == on_port(old(self)@, outcome).0,
            ask@ == on_port(old(self)@, outcome).1,
    {
        match outcome {
            Ok(port) => {
                self.port = port;
                self.at = TrialStage::Args;
                TrialAsk::BuildArgs(port)
            },
            Err(e) => self.fail_launch(TrialFailureReason::PortUnavailable, e.as_str()),
        }
    }

    fn take_args(&mut self, outcome: Result<Vec<String>, String>) -> (ask: TrialAsk)
        ensures
            final(self)@ == on_args(old(self)@, outcome).0,
            ask@ == on_args(old(self)@, outcome).1,
    {
        match outcome {
            Ok(argv) => {
                self.argv = argv;
                self.at = TrialStage::Binary;
                TrialAsk::FindBinary
            },
            Err(e) => self.fail_launch(TrialFailureReason::ArgumentConstruction, e.as_str()),
        }
    }

    fn take_spawned(&mut self, log_path: String, outcome: Result<(), String>) -> (ask: TrialAsk)
        ensures
            final(self)@ == on_spawned(old(self)@, log_path@, outcome).0,
            ask@ == on_spawned(old(self)@, log_path@, outcome).1,
    {
        match outcome {
            Ok(_) => {
                self.log_path = log_path;
                self.alive = true;
                self.at = TrialStage::Poll;
                TrialAsk::Poll
            },
            Err(e) => {
                let ask: TrialAsk = self.fail_launch(TrialFailureReason::SpawnFailed, e.as_str());
                self.trial.diagnostic = self.reference(log_path.as_str());
                self.trial.launch_args = sanitize_launch_args(&self.argv);
                self.log_path = log_path;
                ask
            },
        }
    }

    fn take_polled(&mut self, exited: Option<Option<i32>>) -> (ask: TrialAsk)
        ensures
            final(self)@ == on_polled(old(self)@, exited).0,
            ask@ == on_polled(old(self)@, exited).1,
    {
        match exited {
            Some(status) => {
                self.alive = false;
                self.trial.process_status = status;
                self.at = TrialStage::ExitLog;
                TrialAsk::ReadLog
            },
            None => {
                self.at = TrialStage::Budget;
                TrialAsk::Budget
            },
        }
    }

    fn take_spent(&mut self, spent: bool) -> (ask: TrialAsk)
        ensures
            final(self)@ == on_spent(old(self)@, spent).0,
            ask@ == on_spent(old(self)@, spent).1,
    {
        if spent {
            let mut w: String = "trial server on port ".to_string();
            w.append(dec_u64(self.port as u64).as_str());
            w.append(" never became ready within ");
            w.append(dec_u64(self.plan.startup_timeout_secs as u64).as_str());
            w.append(
                "s and was still running; raise --startup-timeout if this machine loads models slowly",
            );
            self.warning = Some(w);
            self.startup = StartupFailure::TimedOut;
            self.at = TrialStage::TimeoutKill;
            TrialAsk::Kill
        } else {
            self.at = TrialStage::Answer;
            TrialAsk::Wait(SLICE_SECS)
        }
    }

    fn take_answered(&mut self, ready: bool) -> (ask: TrialAsk)
        ensures
            final(self)@ == on_answered(old(self)@, ready).0,
            ask@ == on_answered(old(self)@, ready).1,
    {
        if ready {
            self.at = TrialStage::Observe;
            TrialAsk::Observe
        } else {
            self.at = TrialStage::Poll;
            TrialAsk::Poll
        }
    }

    fn take_log(&mut self, tail: String, oom: bool) -> (ask: TrialAsk)
        ensures
            final(self)@ == on_log(old(self)@, tail@, oom).0,
            ask@ == on_log(old(self)@, tail@, oom).1,
    {
        match self.at {
            TrialStage::ExitLog => {
                self.oom_seen = self.oom_seen || oom;
                self.startup = if oom {
                    StartupFailure::ExitedOom
                } else {
                    StartupFailure::Exited
                };
                self.at = TrialStage::Reap;
                TrialAsk::Reap
            },
            TrialStage::StartupLog => {
                self.oom_seen = self.oom_seen || oom;
                self.trial = startup_failed_trial(
                    self.startup,
                    self.trial.process_status,
                    sanitize_excerpt(tail.as_str()),
                );
                self.at = TrialStage::AdvisoryLog;
                TrialAsk::ReadLog
            },
            TrialStage::FailureLog => {
                self.oom_seen = self.oom_seen || oom;
                self.trial.oom = oom;
                self.trial.diagnostic_excerpt = sanitize_excerpt(tail.as_str());
                self.at = TrialStage::FailureKill;
                TrialAsk::Kill
            },
            TrialStage::SampleLog => {
                self.oom_seen = self.oom_seen || oom;
                self.trial.diagnostic_excerpt = sanitize_excerpt(tail.as_str());
                self.at = TrialStage::AdvisoryLog;
                TrialAsk::ReadLog
            },
            TrialStage::AdvisoryLog => {
                self.oom_seen = self.oom_seen || oom;
                self.trial.diagnostic = self.reference(self.log_path.as_str());
                self.trial.launch_args = sanitize_launch_args(&self.argv);
                self.trial.advisory_observations = infer_runtime_advisories(tail.as_str());
                self.at = TrialStage::Finished;
                TrialAsk::Finished
            },
            _ => TrialAsk::Proceed,
        }
    }

    fn take_killed(&mut self, status: Option<i32>) -> (ask: TrialAsk)
        ensures
            final(self)@ == on_killed(old(self)@, status).0,
            ask@ == on_killed(old(self)@, status).1,
    {
        let (next, ask) = match self.at {
            TrialStage::TimeoutKill => (TrialStage::StartupLog, TrialAsk::ReadLog),
            TrialStage::ContentKill => (TrialStage::SampleLog, TrialAsk::ReadLog),
            TrialStage::FailureKill => (TrialStage::AdvisoryLog, TrialAsk::ReadLog),
            TrialStage::DoneKill => (TrialStage::Reduce, TrialAsk::Reduce),
            _ => {
                return TrialAsk::Proceed;
            },
        };
        self.alive = false;
        self.trial.process_status = status;
        self.at = next;
        ask
    }

    fn take_observed(&mut self, observed: Vec<Member>) -> (ask: TrialAsk)
        ensures
            final(self)@ == on_observed(old(self)@, members_view(observed@)).0,
            ask@ == on_observed(old(self)@, members_view(observed@)).1,
    {
        self.trial.startup_ok = true;
        self.trial.observed_configuration = observed;
        self.at = TrialStage::Sample;
        TrialAsk::Measure
    }

    fn take_chat(&mut self, reply: ChatReply) -> (ask: TrialAsk)
        ensures
            final(self)@ == on_chat(old(self)@, reply).0,
            ask@ == on_chat(old(self)@, reply).1,
    {
        match read_chat(reply) {
            Ok(m) => {
                let content: String = m.content.clone();
                self.sample = m;
                self.at = TrialStage::Judge;
                TrialAsk::Judge(content)
            },
            Err(f) => {
                self.trial.failure = Some(f);
                self.at = TrialStage::FailureLog;
                TrialAsk::ReadLog
            },
        }
    }

    fn take_judged(&mut self, smoke: SmokeVerdict, quality_ok: bool) -> (ask: TrialAsk)
        ensures
            final(self)@ == on_judged(old(self)@, smoke, quality_ok).0,
            ask@ == on_judged(old(self)@, smoke, quality_ok).1,
    {
        match validate_measurement_content(self.sample.content.as_str(), &smoke, quality_ok) {
            Err(f) => {
                self.trial.failure = Some(f);
                self.at = TrialStage::ContentKill;
                TrialAsk::Kill
            },
            Ok(_) => {
                let ghost pp = views(self.pp@);
                let ghost tg = views(self.tg@);
                self.pp.push(self.sample.pp_tps.clone());
                self.tg.push(self.sample.tg_tps.clone());
                assert(views(self.pp@) =~= pp.push(self.sample.pp_tps@));
                assert(views(self.tg@) =~= tg.push(self.sample.tg_tps@));
                let wanted: usize = if self.plan.runs > 0 {
                    self.plan.runs
                } else {
                    1
                };
                if self.pp.len() >= wanted {
                    self.at = TrialStage::DoneKill;
                    TrialAsk::Kill
                } else {
                    self.at = TrialStage::Sample;
                    TrialAsk::Measure
                }
            },
        }
    }

    fn take_reduced(
        &mut self,
        pp_tps: Option<String>,
        tg_tps: Option<String>,
        variance: Option<String>,
    ) -> (ask: TrialAsk)
        ensures
            final(self)@ == on_reduced(
                old(self)@,
                text_view(pp_tps),
                text_view(tg_tps),
                text_view(variance),
            ).0,
            ask@ is ReadLog,
    {
        self.trial.measurement_usable = true;
        self.trial.pp_tps = pp_tps;
        self.trial.tg_tps = tg_tps;
        self.trial.variance = variance;
        self.at = TrialStage::SampleLog;
        TrialAsk::ReadLog
    }

    /// One transition.
    pub fn step(&mut self, reply: TrialReply) -> (ask: TrialAsk)
        ensures
            final(self)@ == tried(old(self)@, reply).0,
            ask@ == tried(old(self)@, reply).1,
    {
        match (self.at, reply) {
            (TrialStage::Start, TrialReply::Proceed) => {
                self.at = TrialStage::Overrides;
                TrialAsk::ReadOverrides
            },
            (TrialStage::Reap, TrialReply::Proceed) => {
                self.at = TrialStage::StartupLog;
                TrialAsk::ReadLog
            },
            (_, TrialReply::Done(outcome)) => self.take_done(outcome),
            (TrialStage::Port, TrialReply::Port(outcome)) => self.take_port(outcome),
            (TrialStage::Args, TrialReply::Args(outcome)) => self.take_args(outcome),
            (TrialStage::Spawn, TrialReply::Spawned(log_path, outcome)) => self.take_spawned(
                log_path,
                outcome,
            ),
            (TrialStage::Poll, TrialReply::Polled(exited)) => self.take_polled(exited),
            (TrialStage::Budget, TrialReply::Spent(spent)) => self.take_spent(spent),
            (TrialStage::Answer, TrialReply::Answered(ready)) => self.take_answered(ready),
            (_, TrialReply::Log(tail, oom)) => self.take_log(tail, oom),
            (_, TrialReply::Killed(status)) => self.take_killed(status),
            (TrialStage::Observe, TrialReply::Observed(observed)) => self.take_observed(observed),
            (TrialStage::Sample, TrialReply::Chat(chat)) => self.take_chat(chat),
            (TrialStage::Judge, TrialReply::Judged(smoke, quality_ok)) => self.take_judged(
                smoke,
                quality_ok,
            ),
            (TrialStage::Reduce, TrialReply::Reduced(pp_tps, tg_tps, variance)) => {
                self.take_reduced(pp_tps, tg_tps, variance)
            },
            _ => TrialAsk::Proceed,
        }
    }
}

} // verus!
