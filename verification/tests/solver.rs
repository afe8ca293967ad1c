use localbench::solver::{
    child_reap_diagnostic, cleanup_result, eval_args, helper_diagnostic, helper_reap_diagnostic,
    merge_diagnostic, next_wait, run_diagnostic, tree_kill_command, BoundedRun, HelperEnd,
    LocalPilotSolver, Poll, ReapEnd, SolvePlan, SolveSpec, Wait,
};

#[test]
fn the_eval_argv_shape_is_pinned() {
    let mut spec = SolveSpec::new("apex", "full", "t-1", "Fix the failing test in two words");
    assert_eq!(
        eval_args(&spec),
        [
            "eval",
            "--model",
            "apex",
            "--arm",
            "full",
            "--task",
            "t-1",
            "--permission",
            "bypass",
            "Fix the failing test in two words"
        ]
    );
    // The verify and warm arms add their flags before the positional.
    spec.verify = true;
    spec.learn = true;
    let argv = eval_args(&spec);
    assert_eq!(
        argv[9..],
        [
            "--verify".to_string(),
            "--learn".to_string(),
            spec.problem.clone()
        ]
    );
    // The multi-word problem stays a single argv entry.
    assert_eq!(argv.last().unwrap(), &spec.problem);
}

#[test]
fn the_live_solver_refuses_a_missing_workspace() {
    let solver = LocalPilotSolver {
        bin: "localpilot".to_string(),
        timeout_secs: 1,
    };
    let spec = SolveSpec::new("m", "full", "t", "p");
    let err = solver
        .plan("Z:/definitely/not/here", false, &spec)
        .unwrap_err();
    assert!(err.contains("workspace not found"));
}

#[test]
fn a_coached_arm_is_driven_and_any_other_is_evaluated() {
    let solver = LocalPilotSolver {
        bin: "localpilot".to_string(),
        timeout_secs: 9,
    };
    let mut spec = SolveSpec::new("m", "full", "t", "p");
    assert_eq!(
        solver.plan("w", true, &spec).unwrap(),
        SolvePlan::Eval(eval_args(&spec))
    );
    spec.coach = Some("coach.json".to_string());
    assert_eq!(
        solver.plan("w", true, &spec).unwrap(),
        SolvePlan::Coached("coach.json".to_string())
    );
}

fn run(exit_ok: bool, timed_out: bool) -> BoundedRun {
    BoundedRun {
        exit_ok,
        stdout: "{\"card\":1}\n".to_string(),
        stderr: "boom\n".to_string(),
        timed_out,
        cleanup_diagnostic: None,
    }
}

#[test]
fn a_run_that_failed_is_no_scorecard() {
    let solver = LocalPilotSolver {
        bin: "localpilot".to_string(),
        timeout_secs: 9,
    };
    let spec = SolveSpec::new("m", "full", "t", "p");
    assert!(solver.read_run(&spec, run(true, false)).is_ok());
    let timed_out = solver.read_run(&spec, run(false, true)).unwrap_err();
    assert!(timed_out.contains("9s") && timed_out.contains("full") && timed_out.contains('t'));
    let failed = solver.read_run(&spec, run(false, false)).unwrap_err();
    assert!(failed.contains("boom"), "{failed}");
}

#[test]
fn a_process_that_exited_stands_even_when_its_time_is_up() {
    assert_eq!(next_wait("p", Poll::Exited(true), true), Wait::Done(true));
    assert_eq!(next_wait("p", Poll::Running, true), Wait::Expired);
    assert_eq!(next_wait("p", Poll::Running, false), Wait::Again);
    assert!(matches!(
        next_wait("p", Poll::Failed("gone".to_string()), false),
        Wait::Broken(_)
    ));
}

#[test]
fn secondary_diagnostics_never_replace_each_other() {
    let a = Some("first".to_string());
    let b = Some("second".to_string());
    let both = merge_diagnostic(a.clone(), b.clone()).unwrap();
    assert!(both.contains("first") && both.contains("second"));
    assert_eq!(merge_diagnostic(a.clone(), None), a);
    assert_eq!(merge_diagnostic(None, b.clone()), b);
    assert_eq!(merge_diagnostic(None, None), None);
    assert_ne!(cleanup_result(true), cleanup_result(false));
    assert_eq!(run_diagnostic(false, None), None);
}

#[test]
fn a_tree_is_killed_by_its_exact_id() {
    let (program, args) = tree_kill_command(true, 42);
    assert_eq!(program, "taskkill");
    assert!(args.contains(&"42".to_string()));
    let (_, args) = tree_kill_command(false, 42);
    assert!(args.iter().any(|a| a.contains("42")));
}

#[test]
fn cleanup_helpers_report_only_what_went_wrong() {
    assert_eq!(helper_diagnostic("kill", HelperEnd::Succeeded, 2, true), None);
    let text = helper_diagnostic("kill", HelperEnd::NotStarted("absent".to_string()), 2, true);
    assert!(text.unwrap().contains("absent"));
    let text = helper_diagnostic("kill", HelperEnd::TimedOut(None), 2, false);
    assert!(text.unwrap().contains("2"));
    assert_eq!(child_reap_diagnostic("p", ReapEnd::Reaped, 2), None);
    assert!(child_reap_diagnostic("p", ReapEnd::StillRunning, 2).is_some());
    assert_eq!(helper_reap_diagnostic("p", ReapEnd::Reaped, 2, true), None);
    assert!(helper_reap_diagnostic("p", ReapEnd::Failed("e".to_string()), 2, true).is_some());
}
