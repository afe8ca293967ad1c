//! The runner's side of a solve: what the solver-under-test is asked, and how
//! its bounded run is read.
//!
//! A hung solver must never block a matrix, so every invocation is bounded by
//! the wall clock: on expiry the process tree is killed and the cell records a
//! failure instead of the sweep hanging.
use vstd::prelude::*;
use vstd::string::StringExecFns;

use crate::text::{dec_u64, is_blank, trim};
#[allow(unused_imports)]
use crate::text::{dec, trimmed, views};

verus! {

/// One solver invocation's identity and knobs.
#[derive(Clone, Debug, PartialEq, Eq)]
pub struct SolveSpec {
    pub model: String,
    pub arm: String,
    /// The per-task id, so every scorecard is labelled per task.
    pub task: String,
    /// The solver edits its own throwaway task workspace, so `bypass` is the
    /// default: untrusted-code isolation is the grader's job, not the
    /// solver's.
    pub permission: String,
    /// Enable the verify-before-done gate for this run.
    pub verify: bool,
    /// Close the run out into review-gated memory; off keeps it clean-room.
    pub learn: bool,
    /// Path to a coach script that drives the run instead of a headless eval.
    pub coach: Option<String>,
    /// The problem statement (the trailing positional argument).
    pub problem: String,
}

impl SolveSpec {
    /// A spec with the default permission posture.
    pub fn new(model: &str, arm: &str, task: &str, problem: &str) -> (out: Self)
        ensures
            out.model@ == model@,
            out.arm@ == arm@,
            out.task@ == task@,
            out.permission@ == "bypass"@,
            !out.verify,
            !out.learn,
            out.coach is None,
            out.problem@ == problem@,
    {
        SolveSpec {
            model: model.to_string(),
            arm: arm.to_string(),
            task: task.to_string(),
            permission: "bypass".to_string(),
            verify: false,
            learn: false,
            coach: None,
            problem: problem.to_string(),
        }
    }
}

/// The solver's argument vector for a spec.
pub open spec fn eval_argv(spec: SolveSpec) -> Seq<Seq<char>> {
    let head = seq![
        "eval"@,
        "--model"@,
        spec.model@,
        "--arm"@,
        spec.arm@,
        "--task"@,
        spec.task@,
        "--permission"@,
        spec.permission@,
    ];
    let verify = if spec.verify {
        seq!["--verify"@]
    } else {
        seq![]
    };
    let learn = if spec.learn {
        seq!["--learn"@]
    } else {
        seq![]
    };
    head + verify + learn + seq![spec.problem@]
}

/// The `localpilot eval` argument vector for a spec. The problem statement
/// stays one entry.
pub fn eval_args(spec: &SolveSpec) -> (out: Vec<String>)
    ensures
        views(out@) == eval_argv(*spec),
{
    let mut argv: Vec<String> = Vec::new();
    argv.push("eval".to_string());
    argv.push("--model".to_string());
    argv.push(spec.model.clone());
    argv.push("--arm".to_string());
    argv.push(spec.arm.clone());
    argv.push("--task".to_string());
    argv.push(spec.task.clone());
    argv.push("--permission".to_string());
    argv.push(spec.permission.clone());
    if spec.verify {
        argv.push("--verify".to_string());
    }
    if spec.learn {
        argv.push("--learn".to_string());
    }
    argv.push(spec.problem.clone());
    assert(views(argv@) =~= eval_argv(*spec));
    argv
}

/// Whatever the knobs, the last argument is the whole problem statement and
/// the first nine name the run.
pub proof fn law_problem_is_one_argument(spec: SolveSpec)
    ensures
        eval_argv(spec).last() == spec.problem@,
        eval_argv(spec).len() == 10 + (if spec.verify {
            1int
        } else {
            0
        }) + (if spec.learn {
            1int
        } else {
            0
        }),
        eval_argv(spec)[0] == "eval"@,
        eval_argv(spec)[2] == spec.model@,
        eval_argv(spec)[4] == spec.arm@,
        eval_argv(spec)[6] == spec.task@,
        eval_argv(spec)[8] == spec.permission@,
{
}

/// A bounded child-process outcome.
#[derive(Clone, Debug, PartialEq, Eq)]
pub struct BoundedRun {
    /// Whether the process exited zero (false on timeout).
    pub exit_ok: bool,
    pub stdout: String,
    pub stderr: String,
    /// Whether the wall-clock bound expired (the process was killed).
    pub timed_out: bool,
    /// A secondary process-tree cleanup problem. This never changes the
    /// primary exit or timeout outcome.
    pub cleanup_diagnostic: Option<String>,
}

/// What a look at a running process shows.
#[derive(Clone, Debug, PartialEq, Eq)]
pub enum Poll {
    Exited(bool),
    Running,
    Failed(String),
}

/// What to do about a running process.
#[derive(Clone, Debug, PartialEq, Eq)]
pub enum Wait {
    /// It is over; whether it exited zero.
    Done(bool),
    /// Its time is up: end the process tree.
    Expired,
    /// Look again after a pause.
    Again,
    /// It cannot be watched.
    Broken(String),
}

/// What to do about a process after a look at it: its exit stands even when
/// its time is up.
pub fn next_wait(program: &str, poll: Poll, expired: bool) -> (out: Wait)
    ensures
        match poll {
            Poll::Exited(ok) => out == Wait::Done(ok),
            Poll::Running => out == (if expired {
                Wait::Expired
            } else {
                Wait::Again
            }),
            Poll::Failed(error) => out matches Wait::Broken(m) && m@ == "waiting on "@ + program@
                + ": "@ + error@,
        },
{
    match poll {
        Poll::Exited(ok) => Wait::Done(ok),
        Poll::Running => if expired {
            Wait::Expired
        } else {
            Wait::Again
        },
        Poll::Failed(error) => {
            let mut message: String = "waiting on ".to_string();
            message.append(program);
            message.append(": ");
            message.append(error.as_str());
            Wait::Broken(message)
        },
    }
}

/// The view of a text that is perhaps missing.
pub open spec fn maybe_text(text: Option<String>) -> Option<Seq<char>> {
    match text {
        Some(t) => Some(t@),
        None => None,
    }
}

/// The two diagnostics, in order, with `; ` between them.
pub open spec fn merged_diagnostic(first: Option<Seq<char>>, second: Option<Seq<char>>) -> Option<
    Seq<char>,
> {
    match (first, second) {
        (Some(a), Some(b)) => Some(a + "; "@ + b),
        (Some(a), None) => Some(a),
        (None, b) => b,
    }
}

/// The two diagnostics, in order.
pub fn merge_diagnostic(first: Option<String>, second: Option<String>) -> (out: Option<String>)
    ensures
        maybe_text(out) == merged_diagnostic(maybe_text(first), maybe_text(second)),
{
    match (first, second) {
        (Some(a), Some(b)) => {
            let mut out: String = a;
            out.append("; ");
            out.append(b.as_str());
            Some(out)
        },
        (Some(a), None) => Some(a),
        (None, b) => b,
    }
}

/// How a fallback kill went, in words.
pub fn cleanup_result(succeeded: bool) -> (out: &'static str)
    ensures
        out@ == (if succeeded {
            "succeeded"@
        } else {
            "failed"@
        }),
{
    if succeeded {
        "succeeded"
    } else {
        "failed"
    }
}

/// The diagnostic of a run whose tree cleanup left one: after a timeout it
/// adds that the captured output is a snapshot.
pub fn run_diagnostic(timed_out: bool, diagnostic: Option<String>) -> (out: Option<String>)
    ensures
        match diagnostic {
            Some(d) => out matches Some(o) && o@ == (if timed_out {
                d@ + "; timeout output is a bounded snapshot and may be truncated"@
            } else {
                d@
            }),
            None => out is None,
        },
{
    match diagnostic {
        Some(d) => {
            let mut out: String = d;
            if timed_out {
                out.append("; timeout output is a bounded snapshot and may be truncated");
            }
            Some(out)
        },
        None => None,
    }
}

/// The command that ends the process tree of `pid`.
pub fn tree_kill_command(windows: bool, pid: u32) -> (out: (&'static str, Vec<String>))
    ensures
        out.0@ == (if windows {
            "taskkill"@
        } else {
            "kill"@
        }),
        views(out.1@) == (if windows {
            seq!["/PID"@, dec(pid as nat), "/T"@, "/F"@]
        } else {
            seq!["-s"@, "KILL"@, "--"@, "-"@ + dec(pid as nat)]
        }),
{
    let mut args: Vec<String> = Vec::new();
    if windows {
        args.push("/PID".to_string());
        args.push(dec_u64(pid as u64));
        args.push("/T".to_string());
        args.push("/F".to_string());
        assert(views(args@) =~= seq!["/PID"@, dec(pid as nat), "/T"@, "/F"@]);
        ("taskkill", args)
    } else {
        args.push("-s".to_string());
        args.push("KILL".to_string());
        args.push("--".to_string());
        let mut group: String = "-".to_string();
        group.append(dec_u64(pid as u64).as_str());
        args.push(group);
        assert(views(args@) =~= seq!["-s"@, "KILL"@, "--"@, "-"@ + dec(pid as nat)]);
        ("kill", args)
    }
}

/// How a cleanup helper ended.
#[derive(Clone, Debug, PartialEq, Eq)]
pub enum HelperEnd {
    NotStarted(String),
    Succeeded,
    /// Its exit status, in words.
    Exited(String),
    /// It outlived its bound; what stopping it left to say.
    TimedOut(Option<String>),
    WaitFailed(String),
}

/// The diagnostic of a tree cleanup by `program`: none when it succeeded,
/// else how it failed and how the fallback kill of the direct child went.
pub open spec fn helper_text(program: Seq<char>, end: HelperEnd, bound_secs: nat, fallback_ok: bool) -> Option<
    Seq<char>,
> {
    let fallback = if fallback_ok {
        "succeeded"@
    } else {
        "failed"@
    };
    match end {
        HelperEnd::NotStarted(error) => Some(
            "exact process-tree cleanup could not start "@ + program + ": "@ + error@
                + "; direct-child fallback: "@ + fallback,
        ),
        HelperEnd::Succeeded => None,
        HelperEnd::Exited(status) => Some(
            "exact process-tree cleanup "@ + program + " exited "@ + status@
                + "; direct-child fallback: "@ + fallback,
        ),
        HelperEnd::TimedOut(left) => merged_diagnostic(
            Some(
                "exact process-tree cleanup "@ + program + " timed out after "@ + dec(bound_secs)
                    + "s; direct-child fallback: "@ + fallback,
            ),
            maybe_text(left),
        ),
        HelperEnd::WaitFailed(error) => Some(
            "waiting for exact process-tree cleanup "@ + program + " failed: "@ + error@
                + "; direct-child fallback: "@ + fallback,
        ),
    }
}

/// The diagnostic of a tree cleanup by `program`.
pub fn helper_diagnostic(program: &str, end: HelperEnd, bound_secs: u64, fallback_ok: bool) -> (out:
    Option<String>)
    ensures
        maybe_text(out) == helper_text(program@, end, bound_secs as nat, fallback_ok),
{
    let fallback: &'static str = cleanup_result(fallback_ok);
    match end {
        HelperEnd::NotStarted(error) => {
            let mut m: String = "exact process-tree cleanup could not start ".to_string();
            m.append(program);
            m.append(": ");
            m.append(error.as_str());
            m.append("; direct-child fallback: ");
            m.append(fallback);
            Some(m)
        },
        HelperEnd::Succeeded => None,
        HelperEnd::Exited(status) => {
            let mut m: String = "exact process-tree cleanup ".to_string();
            m.append(program);
            m.append(" exited ");
            m.append(status.as_str());
            m.append("; direct-child fallback: ");
            m.append(fallback);
            Some(m)
        },
        HelperEnd::TimedOut(left) => {
            let mut m: String = "exact process-tree cleanup ".to_string();
            m.append(program);
            m.append(" timed out after ");
            m.append(dec_u64(bound_secs).as_str());
            m.append("s; direct-child fallback: ");
            m.append(fallback);
            merge_diagnostic(Some(m), left)
        },
        HelperEnd::WaitFailed(error) => {
            let mut m: String = "waiting for exact process-tree cleanup ".to_string();
            m.append(program);
            m.append(" failed: ");
            m.append(error.as_str());
            m.append("; direct-child fallback: ");
            m.append(fallback);
            Some(m)
        },
    }
}

/// How the wait for a killed process ended.
#[derive(Clone, Debug, PartialEq, Eq)]
pub enum ReapEnd {
    Reaped,
    StillRunning,
    Failed(String),
}

/// The diagnostic of a stopped cleanup helper: none once it was reaped.
pub fn helper_reap_diagnostic(program: &str, end: ReapEnd, bound_secs: u64, kill_ok: bool) -> (out:
    Option<String>)
    ensures
        maybe_text(out) == match end {
            ReapEnd::Reaped => None,
            ReapEnd::StillRunning => Some(
                "cleanup helper "@ + program@ + " did not reap within "@ + dec(bound_secs as nat)
                    + "s after kill ("@ + (if kill_ok {
                    "succeeded"@
                } else {
                    "failed"@
                }) + ")"@,
            ),
            ReapEnd::Failed(error) => Some(
                "could not reap cleanup helper "@ + program@ + " after kill: "@ + error@,
            ),
        },
{
    match end {
        ReapEnd::Reaped => None,
        ReapEnd::StillRunning => {
            let mut m: String = "cleanup helper ".to_string();
            m.append(program);
            m.append(" did not reap within ");
            m.append(dec_u64(bound_secs).as_str());
            m.append("s after kill (");
            m.append(cleanup_result(kill_ok));
            m.append(")");
            Some(m)
        },
        ReapEnd::Failed(error) => {
            let mut m: String = "could not reap cleanup helper ".to_string();
            m.append(program);
            m.append(" after kill: ");
            m.append(error.as_str());
            Some(m)
        },
    }
}

/// The diagnostic of a killed direct child: none once it was reaped.
pub fn child_reap_diagnostic(program: &str, end: ReapEnd, bound_secs: u64) -> (out: Option<String>)
    ensures
        maybe_text(out) == match end {
            ReapEnd::Reaped => None,
            ReapEnd::StillRunning => Some(
                "direct child "@ + program@ + " did not reap within "@ + dec(bound_secs as nat)
                    + "s of tree termination"@,
            ),
            ReapEnd::Failed(error) => Some(
                "could not reap direct child "@ + program@ + " after tree termination: "@ + error@,
            ),
        },
{
    match end {
        ReapEnd::Reaped => None,
        ReapEnd::StillRunning => {
            let mut m: String = "direct child ".to_string();
            m.append(program);
            m.append(" did not reap within ");
            m.append(dec_u64(bound_secs).as_str());
            m.append("s of tree termination");
            Some(m)
        },
        ReapEnd::Failed(error) => {
            let mut m: String = "could not reap direct child ".to_string();
            m.append(program);
            m.append(" after tree termination: ");
            m.append(error.as_str());
            Some(m)
        },
    }
}

/// Drives the solver-under-test against one task workspace and returns its
/// capability scorecard JSON.
pub trait Solver {
    /// Solve one task in `workspace`, returning the raw scorecard JSON, or a
    /// plain-language message; the matrix isolates it as a failed cell.
    fn solve(&mut self, workspace: &str, spec: &SolveSpec) -> Result<String, String>;
}

/// How a solve is driven.
#[derive(Clone, Debug, PartialEq, Eq)]
pub enum SolvePlan {
    /// Through the solver's serve surface, by the coach script at this path.
    Coached(String),
    /// Headless, with these arguments.
    Eval(Vec<String>),
}

/// The live solver: `localpilot eval` headless in the task workspace.
#[derive(Clone, Debug, PartialEq, Eq)]
pub struct LocalPilotSolver {
    /// The binary to invoke (a name on PATH or an explicit path).
    pub bin: String,
    /// Wall-clock bound per task, in seconds.
    pub timeout_secs: u64,
}

/// `(arm '<arm>', task '<task>')`.
pub open spec fn cell_text(spec: SolveSpec) -> Seq<char> {
    " (arm '"@ + spec.arm@ + "', task '"@ + spec.task@ + "')"@
}

fn cell_label(spec: &SolveSpec) -> (out: String)
    ensures
        out@ == cell_text(*spec),
{
    let mut out: String = " (arm '".to_string();
    out.append(spec.arm.as_str());
    out.append("', task '");
    out.append(spec.task.as_str());
    out.append("')");
    out
}

impl LocalPilotSolver {
    /// How to drive a solve: a workspace that is no directory is refused, and
    /// a coach script, where there is one, takes the place of the headless
    /// eval.
    pub fn plan(&self, workspace: &str, workspace_is_dir: bool, spec: &SolveSpec) -> (out: Result<
        SolvePlan,
        String,
    >)
        ensures
            match out {
                Ok(SolvePlan::Coached(script)) => workspace_is_dir && maybe_text(spec.coach)
                    == Some(script@),
                Ok(SolvePlan::Eval(args)) => workspace_is_dir && spec.coach is None && views(args@)
                    == eval_argv(*spec),
                Err(m) => !workspace_is_dir && m@ == "workspace not found: "@ + workspace@,
            },
    {
        if !workspace_is_dir {
            let mut m: String = "workspace not found: ".to_string();
            m.append(workspace);
            return Err(m);
        }
        match &spec.coach {
            Some(script) => Ok(SolvePlan::Coached(script.clone())),
            None => Ok(SolvePlan::Eval(eval_args(spec))),
        }
    }

    /// Read a finished eval: a timeout, a failing exit and an empty answer are
    /// failures, in that order; anything else is the scorecard.
    pub fn read_run(&self, spec: &SolveSpec, run: BoundedRun) -> (out: Result<String, String>)
        ensures
            match out {
                Ok(card) => card@ == run.stdout@ && !run.timed_out && run.exit_ok && trimmed(
                    run.stdout@,
                ).len() > 0,
                Err(m) => {
                    if run.timed_out {
                        m@ == "'"@ + self.bin@ + " eval' timed out after "@ + dec(
                            self.timeout_secs as nat,
                        ) + "s"@ + cell_text(*spec) + (match run.cleanup_diagnostic {
                            Some(d) => "; "@ + d@,
                            None => seq![],
                        })
                    } else if !run.exit_ok {
                        m@ == "'"@ + self.bin@ + " eval' failed"@ + cell_text(*spec) + ": "@
                            + trimmed(run.stderr@)
                    } else {
                        trimmed(run.stdout@).len() == 0 && m@ == "'"@ + self.bin@
                            + " eval' produced no scorecard on stdout"@ + cell_text(*spec)
                    }
                },
            },
    {
        let mut m: String = "'".to_string();
        m.append(self.bin.as_str());
        if run.timed_out {
            m.append(" eval' timed out after ");
            m.append(dec_u64(self.timeout_secs).as_str());
            m.append("s");
            m.append(cell_label(spec).as_str());
            let ghost before = m@;
            match &run.cleanup_diagnostic {
                Some(d) => {
                    m.append("; ");
                    m.append(d.as_str());
                    assert(m@ =~= before + ("; "@ + d@));
                },
                None => {
                    assert(m@ =~= before + seq![]);
                },
            }
            return Err(m);
        }
        if !run.exit_ok {
            m.append(" eval' failed");
            m.append(cell_label(spec).as_str());
            m.append(": ");
            m.append(trim(run.stderr.as_str()).as_str());
            return Err(m);
        }
        if is_blank(run.stdout.as_str()) {
            m.append(" eval' produced no scorecard on stdout");
            m.append(cell_label(spec).as_str());
            return Err(m);
        }
        Ok(run.stdout)
    }
}

} // verus!
