use localbench::calendar::iso_from_secs;
use localbench::cli::{
    arms_options, build_signature, cache_note, cells_folder, cli_mode_name, command_of,
    findbest_options, findbest_result, flag_value, gpu_names, has_no_save, home_of, no_winner,
    number_flag, output_format, parse_mode, rescore_options, resolve_mode, space_mode,
    uplift_options, uplift_request, CacheOutcome, Command, FindBestResult, GradeMode, Mode,
    Optimize, SpaceMode, UpliftRequest,
};
use localbench::json::Json;
use localbench::output::OutputFormat;
use localbench::tuner::{rank_profile, Profile, ScoreProfile};

fn args(line: &str) -> Vec<String> {
    line.split_whitespace().map(str::to_string).collect()
}

#[test]
fn prism_mode_aliases_and_required_mode_resolve() {
    assert_eq!(parse_mode(Some("prism")).unwrap(), Some(Mode::PrismMl));
    assert_eq!(parse_mode(Some("prismml")).unwrap(), Some(Mode::PrismMl));
    assert_eq!(
        resolve_mode("bonsai", None, Some(Mode::PrismMl)).unwrap(),
        Mode::PrismMl
    );
    assert_eq!(resolve_mode("ordinary", None, None).unwrap(), Mode::Native);
}

#[test]
fn a_conflicting_explicit_mode_is_rejected() {
    let error = resolve_mode("tbonsai27b", Some(Mode::Native), Some(Mode::PrismMl)).unwrap_err();
    assert!(error.contains("requires --mode prism"));
    assert!(error.contains("native"));
    assert_eq!(
        error,
        "tbonsai27b requires --mode prism; 'native' is incompatible"
    );
}

#[test]
fn mode_names_read_back() {
    for mode in [
        Mode::Native,
        Mode::Turboquant,
        Mode::Mtpturbo,
        Mode::PrismMl,
    ] {
        assert_eq!(parse_mode(Some(&cli_mode_name(mode))).unwrap(), Some(mode));
    }
    assert_eq!(parse_mode(None).unwrap(), None);
    assert_eq!(
        parse_mode(Some("fast")).unwrap_err(),
        "unknown --mode 'fast' (use native|turboquant|mtpturbo|prism)"
    );
    assert_eq!(
        resolve_mode("m", Some(Mode::Turboquant), None).unwrap(),
        Mode::Turboquant
    );
}

#[test]
fn profile_and_mode_spellings_map_across_the_crate_boundary() {
    assert_eq!(rank_profile(ScoreProfile::Both), Profile::Pure);
    assert_eq!(rank_profile(ScoreProfile::Balanced), Profile::Balanced);
    assert_eq!(space_mode(Mode::Turboquant), Some(SpaceMode::Turboquant));
    assert_eq!(space_mode(Mode::PrismMl), Some(SpaceMode::PrismMl));
    assert_eq!(space_mode(Mode::Native), Some(SpaceMode::Native));
    assert_eq!(space_mode(Mode::Mtpturbo), None);
}

#[test]
fn iso_from_secs_matches_known_epoch_vectors() {
    assert_eq!(iso_from_secs(0), "1970-01-01T00:00:00Z");
    assert_eq!(iso_from_secs(86_399), "1970-01-01T23:59:59Z");
    assert_eq!(iso_from_secs(86_400), "1970-01-02T00:00:00Z");
    // Leap day 2000 (a divisible-by-400 century year).
    assert_eq!(iso_from_secs(951_782_400), "2000-02-29T00:00:00Z");
    // 2100 is a non-leap century year: this instant is Feb 28, and one day
    // later must skip Feb 29 entirely.
    assert_eq!(iso_from_secs(4_107_456_000), "2100-02-28T00:00:00Z");
    assert_eq!(
        iso_from_secs(4_107_456_000 + 86_400),
        "2100-03-01T00:00:00Z"
    );
    // A recent reference instant.
    assert_eq!(iso_from_secs(1_735_689_600), "2025-01-01T00:00:00Z");
    // End-of-year rollover.
    assert_eq!(iso_from_secs(1_735_689_599), "2024-12-31T23:59:59Z");
}

#[test]
fn every_day_of_a_leap_year_has_its_own_date() {
    // 2024-01-01 is day 19723.
    let mut seen: Vec<String> = Vec::new();
    for day in 0..366u64 {
        let stamp = iso_from_secs((19_723 + day) * 86_400);
        assert!(stamp.starts_with("2024-"), "{stamp}");
        assert!(!seen.contains(&stamp));
        seen.push(stamp);
    }
    assert_eq!(iso_from_secs((19_723 + 366) * 86_400), "2025-01-01T00:00:00Z");
    // The far end of the clock still has a date.
    assert_eq!(iso_from_secs(u64::MAX), "584554051223-11-09T07:00:15Z");
}

#[test]
fn a_flag_takes_the_argument_behind_its_first_use() {
    let line = args("arms --spec a.json --spec b.json --grade");
    assert_eq!(flag_value(&line, "--spec"), Some("a.json".to_string()));
    assert_eq!(flag_value(&line, "--grade"), None);
    assert_eq!(flag_value(&line, "--missing"), None);
    assert!(has_no_save(&args("findbest --no-save")));
    assert!(!has_no_save(&args("findbest --no-saves")));
    assert_eq!(number_flag(&line, "--timeout", 5, 10), Ok(5));
    assert_eq!(number_flag(&args("x --n 7"), "--n", 5, 10), Ok(7));
    assert_eq!(
        number_flag(&args("x --n 11"), "--n", 5, 10),
        Err("bad --n '11'".to_string())
    );
    assert_eq!(
        number_flag(&args("x --n no"), "--n", 5, 10),
        Err("bad --n 'no'".to_string())
    );
}

#[test]
fn commands_are_named_by_their_first_word() {
    assert_eq!(command_of(&vec![]), Command::Nothing);
    assert_eq!(command_of(&args("version")), Command::Version);
    assert_eq!(command_of(&args("instruments")), Command::Instruments);
    assert_eq!(command_of(&args("findbest --model m")), Command::FindBest);
    assert_eq!(command_of(&args("arms")), Command::Arms);
    assert_eq!(command_of(&args("uplift")), Command::Uplift);
    assert_eq!(command_of(&args("rescore")), Command::Rescore);
    for help in ["--help", "-h", "help"] {
        assert_eq!(command_of(&args(help)), Command::Help);
    }
    assert_eq!(
        command_of(&args("tune version")),
        Command::Unknown("tune".to_string())
    );
}

#[test]
fn formats_and_rescores_fail_loud() {
    assert_eq!(output_format(&args("x"), false), Ok(OutputFormat::Json));
    assert_eq!(output_format(&args("x"), true), Ok(OutputFormat::Text));
    assert_eq!(
        output_format(&args("x --format text"), false),
        Ok(OutputFormat::Text)
    );
    assert_eq!(
        output_format(&args("x --format xml"), false),
        Err("unknown --format 'xml' (use text|json)".to_string())
    );
    assert_eq!(
        rescore_options(&args("rescore")).unwrap_err(),
        "rescore needs --dir <cells-dir>"
    );
    let options = rescore_options(&args("rescore --dir d")).unwrap();
    assert_eq!((options.dir.as_str(), options.corpus.as_str()), ("d", "external"));
    assert_eq!(
        rescore_options(&args("rescore --dir d --corpus mine")).unwrap_err(),
        "unknown --corpus 'mine' (use first-party|external)"
    );
}

#[test]
fn arms_options_have_defaults_and_typed_refusals() {
    let options = arms_options(&args("arms --spec s"), false).unwrap();
    assert_eq!((options.solver_timeout, options.grade_timeout), (600, 900));
    assert_eq!(options.bin, "localpilot");
    assert_eq!(options.grade, GradeMode::Docker);
    assert_eq!(options.format, OutputFormat::Json);
    let options = arms_options(
        &args("arms --grade none --localpilot lp --solver-timeout 5 --grade-timeout 6"),
        true,
    )
    .unwrap();
    assert_eq!(options.grade, GradeMode::Ungraded);
    assert_eq!(options.bin, "lp");
    assert_eq!((options.solver_timeout, options.grade_timeout), (5, 6));
    assert_eq!(
        arms_options(&args("arms --solver-timeout x --grade y"), true).unwrap_err(),
        "bad --solver-timeout 'x'"
    );
    assert_eq!(
        arms_options(&args("arms --grade-timeout x"), true).unwrap_err(),
        "bad --grade-timeout 'x'"
    );
    assert_eq!(
        arms_options(&args("arms --grade podman"), true).unwrap_err(),
        "unknown --grade 'podman' (use docker|none)"
    );
    assert_eq!(
        cells_folder("apex", "2026-07-01T10:11:12Z"),
        "arms-apex-2026-07-01T101112Z"
    );
}

#[test]
fn uplift_command_lines_say_what_they_ask_for() {
    assert_eq!(
        uplift_request(&args("uplift --report r --task-set t")),
        Ok(UpliftRequest::Render("r".to_string()))
    );
    assert_eq!(
        uplift_request(&args("uplift --task-set t --emit-seed-pack")),
        Ok(UpliftRequest::EmitSeedPack("t".to_string()))
    );
    assert_eq!(
        uplift_request(&args("uplift --task-set t")),
        Ok(UpliftRequest::Run("t".to_string()))
    );
    assert_eq!(
        uplift_request(&args("uplift")).unwrap_err(),
        "uplift needs --report <file> or --task-set <file>"
    );
    let declared = vec!["l-1".to_string(), "l-2".to_string()];
    let options = uplift_options(&args("uplift --workspace w --model m"), &declared).unwrap();
    assert_eq!((options.trials, options.timeout), (5, 600));
    assert_eq!(options.intended, declared);
    let mut line = args("uplift --workspace w --model m --trials 2 --intended");
    line.push(" a , b,".to_string());
    let options = uplift_options(&line, &declared).unwrap();
    assert_eq!(options.intended, ["a", "b", ""]);
    assert_eq!(options.trials, 2);
    assert_eq!(
        uplift_options(&args("uplift --model m"), &declared).unwrap_err(),
        "uplift needs --workspace <dir>"
    );
    assert_eq!(
        uplift_options(&args("uplift --workspace w"), &declared).unwrap_err(),
        "uplift needs --model <key>"
    );
    assert_eq!(
        uplift_options(
            &args("uplift --workspace w --model m --trials 4294967296"),
            &declared
        )
        .unwrap_err(),
        "bad --trials '4294967296'"
    );
    assert_eq!(
        uplift_options(
            &args("uplift --workspace w --model m --timeout soon"),
            &declared
        )
        .unwrap_err(),
        "bad --timeout 'soon'"
    );
}

#[test]
fn findbest_options_have_defaults_and_typed_refusals() {
    let options = findbest_options(&args("findbest --model q36")).unwrap();
    assert_eq!(options.key, "q36");
    assert_eq!(options.context_key, "");
    assert_eq!(options.mode, None);
    assert_eq!(options.profile, ScoreProfile::Pure);
    assert_eq!(options.optimize, Optimize::CodingAgent);
    assert_eq!(
        (options.budget, options.beam_width, options.runs),
        (30, 3, 3)
    );
    assert_eq!(options.startup_timeout_secs, 300);
    let options = findbest_options(&args(
        "findbest --model q36 --context fast --mode prism --profile both --optimize gen \
         --budget -4 --beam-width 100 --runs 0 --startup-timeout 10",
    ))
    .unwrap();
    assert_eq!(options.context_key, "fast");
    assert_eq!(options.mode, Some(Mode::PrismMl));
    assert_eq!(options.profile, ScoreProfile::Both);
    assert_eq!(options.optimize, Optimize::Gen);
    assert_eq!(
        (options.budget, options.beam_width, options.runs),
        (-4, 100, 0)
    );
    let refusals = [
        ("findbest", "findbest needs --model <key>"),
        (
            "findbest --model m --mode x --budget y",
            "unknown --mode 'x' (use native|turboquant|mtpturbo|prism)",
        ),
        ("findbest --model m --profile x", "unknown --profile 'x'"),
        ("findbest --model m --optimize x", "unknown --optimize 'x'"),
        ("findbest --model m --budget 1e3", "bad --budget '1e3'"),
        (
            "findbest --model m --beam-width 0",
            "--beam-width must be between 1 and 100 (got 0)",
        ),
        (
            "findbest --model m --beam-width 101",
            "--beam-width must be between 1 and 100 (got 101)",
        ),
        (
            "findbest --model m --beam-width -1",
            "bad --beam-width '-1'",
        ),
        ("findbest --model m --runs x", "bad --runs 'x'"),
        (
            "findbest --model m --startup-timeout 99999999999",
            "bad --startup-timeout '99999999999'",
        ),
    ];
    for (line, message) in refusals {
        assert_eq!(findbest_options(&args(line)).unwrap_err(), message, "{line}");
    }
}

#[test]
fn signed_budgets_reach_both_ends_of_their_range() {
    for (text, value) in [
        ("9223372036854775807", i64::MAX),
        ("-9223372036854775808", i64::MIN),
        ("+5", 5),
        ("-0", 0),
    ] {
        let line = format!("findbest --model m --budget {text}");
        assert_eq!(findbest_options(&args(&line)).unwrap().budget, value);
    }
    for text in ["9223372036854775808", "-9223372036854775809", "+-5", "-", "--5"] {
        let line = format!("findbest --model m --budget {text}");
        assert_eq!(
            findbest_options(&args(&line)).unwrap_err(),
            format!("bad --budget '{text}'")
        );
    }
}

#[test]
fn host_answers_are_read_as_they_are() {
    assert_eq!(
        gpu_names(" NVIDIA GeForce RTX 4090 \r\n\n  A100\n"),
        ["NVIDIA GeForce RTX 4090", "A100"]
    );
    assert!(gpu_names("").is_empty());
    assert_eq!(build_signature("", 0), "");
    assert_eq!(build_signature("win-cuda-13.3", 42), "win-cuda-13.3:42");
    assert_eq!(build_signature("", 7), ":7");
    assert_eq!(home_of(Some("/home/x".to_string())), Some("/home/x".to_string()));
    assert_eq!(home_of(Some("  ".to_string())), None);
    assert_eq!(home_of(None), None);
}

#[test]
fn the_cache_note_says_what_became_of_it() {
    assert_eq!(
        cache_note(&CacheOutcome::Loaded(4)).unwrap(),
        "trial cache: 4 reusable measurement(s)"
    );
    assert_eq!(
        cache_note(&CacheOutcome::RecoveredFromBackup(2)).unwrap(),
        "trial cache: 2 measurement(s) recovered from the backup copy"
    );
    assert_eq!(
        cache_note(&CacheOutcome::FingerprintMismatch(vec![
            "mode".to_string(),
            "runs".to_string()
        ]))
        .unwrap(),
        "trial cache: starting fresh — the run differs in mode, runs"
    );
    assert_eq!(
        cache_note(&CacheOutcome::LoadFailed("eof".to_string())).unwrap(),
        "trial cache: starting fresh — the file did not parse (eof)"
    );
    assert_eq!(cache_note(&CacheOutcome::Empty), None);
    assert_eq!(
        no_winner(&Some("launch/spawn_failed".to_string()), "run.jsonl"),
        "no candidate produced and passed a usable measurement; last outcome: \
         launch/spawn_failed; diagnostics: run.jsonl"
    );
    assert_eq!(
        no_winner(&None, "run.jsonl"),
        "no candidate produced and passed a usable measurement; diagnostics: run.jsonl"
    );
}

#[test]
fn a_saved_winner_says_where() {
    let found = |saved: Option<String>| FindBestResult {
        model: "q36".to_string(),
        context: "fast".to_string(),
        mode: "native".to_string(),
        score: Json::read("396.67").unwrap(),
        signature: "KvK=q8_0".to_string(),
        trials: 12,
        verified: true,
        beam_width: 3,
        diagnostics: "run.jsonl".to_string(),
        confidence: Json::Text("full".to_string()),
        missing_telemetry: Json::List(vec![]),
        saved,
    };
    let document = findbest_result(found(Some("best.json".to_string())));
    assert_eq!(document.text_at("saved"), Some("best.json".to_string()));
    assert_eq!(document.text_at("search_strategy"), Some("beam".to_string()));
    assert_eq!(document.get("trials"), Some(&Json::Unsigned(12)));
    assert!(document.write().contains("\"score\":396.67"));
    assert!(findbest_result(found(None)).get("saved").is_none());
}

#[test]
fn stamps_sort_as_their_moments_do() {
    let moments = [
        0, 59, 60, 3_599, 3_600, 86_399, 86_400, 951_782_399, 951_782_400, 1_735_689_599,
        1_735_689_600, 253_402_300_799,
    ];
    for pair in moments.windows(2) {
        let (a, b) = (iso_from_secs(pair[0]), iso_from_secs(pair[1]));
        assert!(a < b, "{a} {b}");
        assert_eq!(a.len(), 20);
        assert_eq!(b.len(), 20);
    }
    assert_eq!(iso_from_secs(253_402_300_799), "9999-12-31T23:59:59Z");
    assert_eq!(iso_from_secs(253_402_300_800), "10000-01-01T00:00:00Z");
}
