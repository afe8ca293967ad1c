use localbench::overrides::{join_overrides, Overrides, Setting};
use localbench::tuner::{
    batching_dominated, memory_flag_overlays, oracle_note, phase_ceiling, rank_profile,
    refit_for_shape, search_budget_of, trial_summary, Evidence, FitDevice, FitPlacement, KvPair,
    MmapRecommendation, Phase, Profile, ScoreProfile, TrialFacts, DEFAULT_BEAM_WIDTH, SCREEN_KEEP,
    SCREEN_MIN_SAVED,
};
use localbench::tuner_model::{Ask, Reply, SearchSpace, Stage, TunerAids, TunerParams};
use localbench::tuner_run::{run_tuner, run_tuner_with, TunerOutcome, TunerRun};

fn text(value: &str) -> Setting {
    Setting::Text(value.to_string())
}

fn overrides_of(settings: &[(&str, Setting)]) -> Overrides {
    let mut out = Overrides::new();
    for (key, value) in settings {
        out.set(key, value.copy());
    }
    out
}

fn numbered(key: &str, value: i64) -> Overrides {
    overrides_of(&[(key, Setting::Number(value))])
}

fn flag(overrides: &Overrides, key: &str) -> Option<bool> {
    match overrides.get(key) {
        Some(Setting::Flag(b)) => Some(*b),
        _ => None,
    }
}

fn word(overrides: &Overrides, key: &str) -> String {
    match overrides.get(key) {
        Some(Setting::Text(t)) => t.clone(),
        _ => String::new(),
    }
}

fn pair(k: &str, v: &str) -> KvPair {
    KvPair {
        k: k.to_string(),
        v: v.to_string(),
    }
}

// --- the host of a run ------------------------------------------------------

/// What one trial on the host came to.
#[derive(Clone, Copy)]
enum Outcome {
    /// Prompt and decode rates.
    Rates(f64, f64),
    Oom,
    /// It never became ready.
    NotReady,
    /// It answered with text that is no answer.
    Content,
    /// It broke in a way that says nothing of memory or text.
    Broken,
}

type Measure<'a> = &'a mut dyn FnMut(&Overrides, &str) -> Outcome;
type Place<'a> = &'a mut dyn FnMut(&Overrides) -> Option<FitPlacement>;
type Rank<'a> = &'a mut dyn FnMut(&[Overrides]) -> Option<Vec<usize>>;

struct Host<'a> {
    measure: Measure<'a>,
    place: Option<Place<'a>>,
    rank: Option<Rank<'a>>,
    turbo: bool,
    /// The score of each trial, by its id.
    scores: Vec<(i64, f64)>,
    last_score: f64,
    measured: Vec<(String, Overrides)>,
}

fn host<'a>(measure: Measure<'a>) -> Host<'a> {
    Host {
        measure,
        place: None,
        rank: None,
        turbo: false,
        scores: vec![],
        last_score: 0.0,
        measured: vec![],
    }
}

/// The KV pairs a build allows beside a baseline.
fn allowed(baseline: &KvPair, turbo: bool) -> Vec<KvPair> {
    let mut pairs = vec![baseline.copy()];
    if turbo {
        for name in ["turbo4", "turbo3", "turbo2"] {
            let candidate = pair(name, name);
            if !pairs.iter().any(|p| p.same(&candidate)) {
                pairs.push(candidate);
            }
        }
    }
    pairs
}

/// Quantized V caches need flash attention.
fn rejection(overrides: &Overrides) -> Option<String> {
    let v = word(overrides, "KvV");
    if flag(overrides, "FlashAttn") == Some(false) && !v.is_empty() && v != "f16" {
        Some("V cache quantization requires flash_attn".to_string())
    } else {
        None
    }
}

impl Host<'_> {
    fn place(&mut self, overrides: &Overrides) -> Option<FitPlacement> {
        self.place.as_mut().and_then(|place| place(overrides))
    }

    fn trial(&mut self, id: i64, overrides: &Overrides, phase: &str) -> TrialFacts {
        self.measured.push((phase.to_string(), overrides.copy()));
        let outcome = (self.measure)(overrides, phase);
        let score = match outcome {
            Outcome::Rates(pp, tg) => tg + pp / 100.0,
            _ => 0.0,
        };
        let usable = matches!(outcome, Outcome::Rates(..));
        let spilled = usable && score < self.last_score * 0.8;
        self.last_score = score;
        if usable && phase != "verify" {
            self.scores.push((id, score));
        }
        TrialFacts {
            usable,
            needs_memory_recovery: matches!(outcome, Outcome::Oom | Outcome::NotReady),
            needs_kv_recovery: matches!(outcome, Outcome::Content),
            seed_failed: !usable,
            oom: matches!(outcome, Outcome::Oom),
            spilled,
            score: format!("{score:.1}"),
            failure: None,
            evidence: None,
        }
    }

    /// The best candidates of the history, best first, each configuration once.
    fn beam(&self, run: &TunerRun, width: usize) -> (Vec<i64>, String) {
        let mut ranked: Vec<(f64, i64, String)> = run
            .history()
            .iter()
            .filter(|m| m.usable)
            .filter_map(|m| {
                let score = self.scores.iter().find(|(id, _)| *id == m.id)?.1;
                Some((score, m.id, m.overrides.candidate_signature()))
            })
            .collect();
        ranked.sort_by(|a, b| b.0.total_cmp(&a.0));
        let mut ids = vec![];
        let mut seen: Vec<String> = vec![];
        let best = ranked.first().map_or(0.0, |r| r.0);
        for (_, id, signature) in ranked {
            if ids.len() < width && !seen.contains(&signature) {
                ids.push(id);
                seen.push(signature);
            }
        }
        (ids, format!("{best:.1}"))
    }

    fn drive(&mut self, run: &mut TunerRun, space: &Shape) {
        let mut trial_id = 0;
        let mut reply = Reply::Proceed;
        while run.stage() != Stage::Finished {
            reply = match run.step(reply) {
                Ask::Proceed => Reply::Proceed,
                Ask::Placement(o) => Reply::Placement(self.place(&o)),
                Ask::Appraisal(o) => {
                    let fit = self.place(&o);
                    Reply::Appraisal(rejection(&o), fit)
                }
                Ask::Trial(o, phase) => {
                    trial_id += 1;
                    Reply::Trial(self.trial(trial_id, &o, phase.name()))
                }
                Ask::KvPairs(kv) => Reply::KvPairs(allowed(&kv, self.turbo)),
                Ask::MoeCoverage {
                    recovery,
                    kv,
                    baseline,
                    budget,
                } => {
                    let values: Vec<i64> = if recovery {
                        (space.baseline_n_cpu_moe + 1..=space.moe_upper).collect()
                    } else {
                        (0..=space.moe_upper)
                            .filter(|v| *v != space.baseline_n_cpu_moe && v % 2 == 0)
                            .collect()
                    };
                    let take = usize::try_from(budget).unwrap_or(0).min(values.len());
                    let under = join_overrides(&baseline, &kv.overlay());
                    let list = values[..take]
                        .iter()
                        .map(|v| join_overrides(&under, &numbered("NCpuMoe", *v)))
                        .collect();
                    let planned = values.len() as u64;
                    Reply::MoeCoverage(list, planned, planned - take as u64)
                }
                Ask::DenseRecovery(kv) => {
                    let mut list: Vec<Overrides> = allowed(&kv, self.turbo)
                        .iter()
                        .skip(1)
                        .map(|p| p.overlay())
                        .collect();
                    for layers in [32, 16, 8] {
                        list.push(numbered("NGpuLayers", layers));
                    }
                    Reply::Worklist(list)
                }
                Ask::Beam(width) => {
                    let (ids, score) = self.beam(run, width);
                    Reply::Beam(ids, score)
                }
                Ask::Placements(list) => {
                    Reply::Placements(list.iter().map(|o| self.place(o)).collect())
                }
                Ask::Rejections(list) => {
                    Reply::Rejections(list.iter().map(|o| rejection(o).is_some()).collect())
                }
                Ask::Order(list) => Reply::Order(self.rank.as_mut().and_then(|rank| rank(&list))),
                Ask::Expansion(ids, overlays) => {
                    let mut list = vec![];
                    for id in ids {
                        let parent = run.history().iter().find(|m| m.id == id).unwrap();
                        for overlay in &overlays {
                            list.push(join_overrides(&parent.overrides, overlay));
                        }
                    }
                    Reply::Worklist(list)
                }
                Ask::RefineValues(current, _) => Reply::RefineValues(
                    [-1, 1, -2, 2, -4, 4]
                        .iter()
                        .map(|d| current + d)
                        .filter(|v| (0..=space.moe_upper).contains(v))
                        .collect(),
                    vec![],
                ),
                Ask::Stability => {
                    let mut groups: Vec<String> = vec![];
                    let mut repeated: Vec<String> = vec![];
                    for m in run.history().iter().filter(|m| m.usable) {
                        let key = m.overrides.candidate_signature();
                        if groups.contains(&key) && !repeated.contains(&key) {
                            repeated.push(key);
                        } else {
                            groups.push(key);
                        }
                    }
                    Reply::Stability(repeated.len() as u64)
                }
                Ask::Finished => break,
            };
        }
    }

    fn run(&mut self, space: SearchSpace, params: TunerParams) -> (Option<TunerOutcome>, Vec<String>) {
        let shape = Shape {
            baseline_n_cpu_moe: space.baseline_n_cpu_moe,
            moe_upper: space.moe_upper,
        };
        let aids = TunerAids {
            oracle: self.place.is_some(),
            screen: self.rank.is_some(),
        };
        let mut run = if aids.oracle || aids.screen {
            run_tuner_with(params, space, aids)
        } else {
            run_tuner(params, space)
        };
        self.drive(&mut run, &shape);
        (run.outcome(), run.lines().clone())
    }

    fn phases(&self) -> Vec<&str> {
        self.measured.iter().map(|(p, _)| p.as_str()).collect()
    }

    fn count(&self, phase: &str) -> usize {
        self.phases().iter().filter(|p| **p == phase).count()
    }
}

struct Shape {
    baseline_n_cpu_moe: i64,
    moe_upper: i64,
}

fn space() -> SearchSpace {
    SearchSpace {
        is_moe: true,
        baseline_n_cpu_moe: 20,
        moe_upper: 48,
        block_count: 48,
        ubatch_candidates: vec![256, 512, 1024, 2048],
        batch_candidates: vec![512, 1024, 2048],
        thread_candidates: vec![8, 12, 16],
        mmap_recommendation: MmapRecommendation {
            mlock: true,
            no_mmap: true,
        },
        cache_overlays: vec![
            overrides_of(&[("SwaFull", Setting::Flag(true))]),
            numbered("CacheReuse", 256),
        ],
    }
}

fn dense_space() -> SearchSpace {
    SearchSpace {
        is_moe: false,
        baseline_n_cpu_moe: 0,
        moe_upper: 0,
        block_count: 65,
        ..space()
    }
}

fn params() -> TunerParams {
    TunerParams {
        profile: ScoreProfile::Pure,
        budget: 25,
        baseline_kv: pair("q8_0", "q8_0"),
        beam_width: DEFAULT_BEAM_WIDTH,
        spec_ngram: false,
    }
}

/// Runs out of memory on any config whose batch exceeds a ceiling, and
/// otherwise scores higher for lower NCpuMoe (more GPU = faster).
fn scripted(overrides: &Overrides, _phase: &str) -> Outcome {
    if overrides.number("BatchSize").unwrap_or(0) > 1024 {
        return Outcome::Oom;
    }
    let moe = overrides.number("NCpuMoe").unwrap_or(0) as f64;
    Outcome::Rates(900.0 - moe, 100.0 - moe)
}

fn says(lines: &[String], part: &str) -> bool {
    lines.iter().any(|line| line.contains(part))
}

// --- recovery ---------------------------------------------------------------

#[test]
fn a_degenerate_baseline_recovers_on_another_kv_pair_instead_of_ending_the_run() {
    let mut measure = |overrides: &Overrides, _: &str| {
        if word(overrides, "KvK") == "q8_0" {
            return Outcome::Content;
        }
        let moe = overrides.number("NCpuMoe").unwrap_or(0) as f64;
        Outcome::Rates(900.0 - moe, 100.0 - moe)
    };
    let mut host = host(&mut measure);
    host.turbo = true;
    let (outcome, events) = host.run(space(), params());
    let outcome = outcome.expect("a degenerate baseline recovers onto a working KV pair");
    assert!(host.count("kv-recovery") > 0, "the recovery phase never ran");
    assert!(
        says(&events, "kv-recovery: baseline recovered"),
        "recovery was not reported under its own name: {events:?}"
    );
    assert!(
        !events.iter().any(|line| line.starts_with("stopped:")),
        "the run stopped despite a working pair being available: {events:?}"
    );
    // The winner must not be the pair that cannot produce text.
    assert_ne!(word(&outcome.winner, "KvK"), "q8_0");
    // And the rest of the run must follow the recovered pair.
    let broken_after_recovery = host
        .measured
        .iter()
        .filter(|(phase, o)| phase != "baseline" && word(o, "KvK") == "q8_0")
        .count();
    assert_eq!(broken_after_recovery, 0);
}

#[test]
fn an_unrecoverable_content_failure_stops_only_after_every_pair_and_says_so() {
    let mut measure = |_: &Overrides, _: &str| Outcome::Content;
    let mut host = host(&mut measure);
    host.turbo = true;
    let (outcome, events) = host.run(space(), params());
    assert!(
        outcome.is_none(),
        "an unusable model must not produce a winner"
    );
    assert_eq!(host.count("kv-recovery"), 3, "every pair was tried");
    assert!(says(
        &events,
        "every allowed KV cache pair failed the same way"
    ));
}

#[test]
fn contract_and_content_failures_stop_before_dense_or_moe_recovery() {
    for dense in [true, false] {
        for failure in [Outcome::Broken, Outcome::Content] {
            let mut measure = |_: &Overrides, _: &str| failure;
            let mut host = host(&mut measure);
            let search_space = if dense { dense_space() } else { space() };
            let (outcome, _) = host.run(search_space, params());
            assert!(outcome.is_none());
            assert_eq!(host.phases(), ["baseline"]);
        }
    }
}

#[test]
fn readiness_failures_enter_dense_and_moe_recovery() {
    for dense in [true, false] {
        for failure in [Outcome::Oom, Outcome::NotReady] {
            let mut measure = |_: &Overrides, _: &str| failure;
            let mut host = host(&mut measure);
            let search_space = if dense { dense_space() } else { space() };
            let (outcome, _) = host.run(search_space, params());
            assert!(outcome.is_none());
            assert!(
                host.count("vram-fit") > 0,
                "the failure must enter the recovery ladder"
            );
        }
    }
}

#[test]
fn a_failed_moe_seed_measures_the_complete_recovery_worklist() {
    let recovery_space = SearchSpace {
        baseline_n_cpu_moe: 2,
        moe_upper: 6,
        block_count: 12,
        ubatch_candidates: vec![],
        batch_candidates: vec![],
        ..space()
    };
    let mut measure = |overrides: &Overrides, phase: &str| {
        if phase == "baseline" {
            return Outcome::Oom;
        }
        let n = overrides.number("NCpuMoe").unwrap_or(0) as f64;
        Outcome::Rates(400.0 + n, 60.0 + n)
    };
    let mut host = host(&mut measure);
    let (outcome, events) = host.run(
        recovery_space,
        TunerParams {
            budget: 40,
            ..params()
        },
    );
    assert!(outcome.is_some(), "a recovered MoE seed produces a winner");
    let measured: Vec<i64> = host
        .measured
        .iter()
        .filter(|(phase, _)| phase == "vram-fit")
        .map(|(_, o)| o.number("NCpuMoe").unwrap())
        .collect();
    assert_eq!(
        measured,
        [3, 4, 5, 6],
        "coverage visits every declared recovery value"
    );
    assert!(events.iter().any(|event| {
        event == "coverage: scheduled 4/4 MoE configurations (0 skipped by budget)"
    }));
}

#[test]
fn a_dense_model_recovers_from_a_baseline_oom_and_produces_a_winner() {
    // Full offload with the full-size KV cache does not fit; a smaller KV
    // cache (turbo) or fewer offloaded layers does.
    let mut measure = |overrides: &Overrides, _: &str| {
        let fits = word(overrides, "KvK").starts_with("turbo")
            || overrides.number("NGpuLayers").unwrap_or(999) < 65;
        if fits {
            Outcome::Rates(400.0, 60.0)
        } else {
            Outcome::Oom
        }
    };
    let mut host = host(&mut measure);
    host.turbo = true;
    let (outcome, events) = host.run(dense_space(), params());
    let outcome = outcome.expect("a dense model must produce a winner");
    assert!(events.iter().any(|e| e.starts_with("winner:")));
    let vram_fit: Vec<&Overrides> = host
        .measured
        .iter()
        .filter(|(phase, _)| phase == "vram-fit")
        .map(|(_, o)| o)
        .collect();
    assert!(!vram_fit.is_empty(), "the dense VRAM-fit phase ran trials");
    assert!(
        vram_fit.iter().all(|o| !o.contains_key("NCpuMoe")),
        "a dense model is never swept on the NCpuMoe axis"
    );
    assert!(vram_fit
        .iter()
        .any(|o| o.contains_key("NGpuLayers") || o.contains_key("KvK")));
    // A dense winner never carries an NCpuMoe override.
    assert!(!outcome.winner.contains_key("NCpuMoe"));
}

#[test]
fn a_dense_model_whose_baseline_starts_spends_no_vram_fit_trials() {
    let mut measure = |_: &Overrides, _: &str| Outcome::Rates(400.0, 60.0);
    let mut host = host(&mut measure);
    host.turbo = true;
    let (outcome, _) = host.run(dense_space(), params());
    assert!(outcome.is_some(), "a healthy dense baseline still wins");
    assert_eq!(
        host.count("vram-fit"),
        0,
        "a dense model whose baseline starts spends no VRAM-fit trials"
    );
}

// --- budget -----------------------------------------------------------------

#[test]
fn every_search_phase_still_measures_at_the_default_budget() {
    for width in [1, DEFAULT_BEAM_WIDTH] {
        let mut measure = scripted;
        let mut host = host(&mut measure);
        let (outcome, _) = host.run(
            space(),
            TunerParams {
                budget: 30,
                beam_width: width,
                ..params()
            },
        );
        let outcome = outcome.expect("the default budget still produces a verified winner");
        for phase in [
            "baseline",
            "vram-fit",
            "batching",
            "flash-attn",
            "memory-flags",
            "cache-flags",
            "kv-types",
            "refine",
        ] {
            assert!(
                host.count(phase) > 0,
                "beam width {width} starved phase {phase}: {:?}",
                host.phases()
            );
        }
        assert!(outcome.trials <= 30);
    }
}

#[test]
fn a_phase_that_hits_its_reserve_says_so_instead_of_going_quiet() {
    let mut measure = scripted;
    let mut host = host(&mut measure);
    let (outcome, events) = host.run(
        space(),
        TunerParams {
            budget: 30,
            ..params()
        },
    );
    assert!(outcome.is_some());
    assert!(
        says(&events, "reserve reached"),
        "the capped phase must report the cap: {events:?}"
    );
}

#[test]
fn the_tuner_respects_the_budget_and_returns_a_verified_winner() {
    let mut measure = scripted;
    let mut host = host(&mut measure);
    let (outcome, events) = host.run(space(), params());
    let outcome = outcome.unwrap();
    assert!(outcome.trials <= 25);
    assert_eq!(host.measured.len() as i64, outcome.trials);
    assert!(outcome.verified);
    // The scripted world rewards lower NCpuMoe, so the winner offloads less
    // than the catalog baseline of 20.
    assert!(outcome.winner.number("NCpuMoe").unwrap_or(0) < 20);
    assert!(events.iter().any(|e| e.starts_with("winner:")));
}

#[test]
fn a_one_trial_budget_measures_baseline_but_cannot_export_unverified_data() {
    let mut measure = scripted;
    let mut host = host(&mut measure);
    let (outcome, _) = host.run(
        space(),
        TunerParams {
            budget: 1,
            ..params()
        },
    );
    assert!(outcome.is_none());
    assert_eq!(host.phases(), ["baseline"]);
}

#[test]
fn the_coverage_disclosure_counts_what_the_phase_can_measure() {
    let mut measure = scripted;
    let mut host = host(&mut measure);
    let (_, events) = host.run(
        space(),
        TunerParams {
            budget: 20,
            ..params()
        },
    );
    let coverage = events
        .iter()
        .find(|line| line.starts_with("coverage:"))
        .expect("the MoE sweep discloses its coverage");
    let measured = host.count("vram-fit");
    assert!(
        coverage.contains(&format!("scheduled {measured}/")),
        "coverage claims more than the phase measured ({measured}): {coverage}"
    );
    assert!(
        !coverage.contains("(0 skipped by budget)"),
        "a truncated sweep must report its skipped configurations: {coverage}"
    );
}

#[test]
fn a_ceiling_leaves_every_later_phase_its_floor() {
    assert_eq!(search_budget_of(30), 27);
    // The last search phase may spend all of it; an unknown phase too.
    assert_eq!(phase_ceiling("refine", 5, 27), 27);
    assert_eq!(phase_ceiling("no-such-phase", 5, 27), 27);
    assert!(phase_ceiling("batching", 5, 27) < 27);
    // A phase that starts always gets at least its first trial.
    assert!(phase_ceiling("baseline", 0, 1) >= 1);
    assert_eq!(Phase::named("kv-types"), Some(Phase::KvTypes));
    assert_eq!(Phase::named("verify"), None);
}

// --- the beam ---------------------------------------------------------------

#[test]
fn the_beam_finds_a_second_best_early_lineage_that_greedy_search_loses() {
    let fork_space = || SearchSpace {
        is_moe: false,
        baseline_n_cpu_moe: 0,
        moe_upper: 0,
        block_count: 40,
        ubatch_candidates: vec![256, 512],
        batch_candidates: vec![512],
        ..space()
    };
    let fork = |overrides: &Overrides, _: &str| {
        let flash = flag(overrides, "FlashAttn").unwrap_or(false);
        let tg = match (overrides.number("UbatchSize"), flash) {
            // This lineage is second-best after batching, but becomes the
            // global best only after the next phase overlays flash-attn.
            (Some(512), true) => 200.0,
            (Some(256), _) => 120.0,
            (Some(512), _) => 110.0,
            _ => 100.0,
        };
        Outcome::Rates(tg * 9.0, tg)
    };
    let wide = TunerParams {
        budget: 60,
        beam_width: 2,
        ..params()
    };
    let mut measure = fork;
    let (outcome, _) = host(&mut measure).run(fork_space(), wide.clone());
    let outcome = outcome.expect("the beam produces a verified winner");
    assert_eq!(outcome.winner.number("UbatchSize"), Some(512));
    assert_eq!(flag(&outcome.winner, "FlashAttn"), Some(true));
    assert_eq!(outcome.beam_width, 2);

    let mut measure = fork;
    let mut greedy = host(&mut measure);
    let (outcome, _) = greedy.run(
        fork_space(),
        TunerParams {
            beam_width: 1,
            ..wide
        },
    );
    let outcome = outcome.expect("width one still produces a verified winner");
    assert_eq!(outcome.winner.number("UbatchSize"), Some(256));
    assert!(!greedy.measured.iter().any(|(_, o)| {
        o.number("UbatchSize") == Some(512) && flag(o, "FlashAttn") == Some(true)
    }));
}

#[test]
fn the_final_ranking_reports_the_groups_it_rescored() {
    let mut measure = scripted;
    let (_, events) = host(&mut measure).run(space(), params());
    let at = |part: &str| events.iter().position(|e| e.starts_with(part));
    assert!(at("stability:").is_some(), "{events:?}");
    assert!(at("stability:") < at("phase: verify"));
}

#[test]
fn oom_dominated_batching_pairs_are_pruned_not_measured() {
    assert!(batching_dominated(2048, 2048, &[(1024, 2048)]));
    assert!(batching_dominated(1024, 2048, &[(1024, 2048)]));
    assert!(!batching_dominated(512, 512, &[(1024, 2048)]));

    let mut measure = scripted;
    let (outcome, _) = host(&mut measure).run(space(), params());
    // The winner never carries an OOM'd batching config.
    assert!(outcome.unwrap().winner.number("BatchSize").unwrap_or(0) <= 1024);
}

#[test]
fn an_unverified_candidate_never_becomes_a_winner() {
    let mut measure = |_: &Overrides, phase: &str| {
        if phase == "verify" {
            Outcome::Broken
        } else {
            Outcome::Rates(400.0, 60.0)
        }
    };
    let mut host = host(&mut measure);
    let (outcome, _) = host.run(dense_space(), params());
    assert!(outcome.is_none());
    assert_eq!(
        host.count("verify"),
        3,
        "all bounded verification retries ran"
    );
}

#[test]
fn no_verification_attempt_repeats_a_configuration() {
    let mut measure = |_: &Overrides, phase: &str| {
        if phase == "verify" {
            Outcome::Broken
        } else {
            Outcome::Rates(400.0, 60.0)
        }
    };
    let mut host = host(&mut measure);
    host.run(dense_space(), params());
    let mut tried: Vec<String> = host
        .measured
        .iter()
        .filter(|(phase, _)| phase == "verify")
        .map(|(_, overrides)| overrides.candidate_signature())
        .collect();
    assert_eq!(tried.len(), 3);
    tried.sort();
    tried.dedup();
    assert_eq!(tried.len(), 3);
}

#[test]
fn memory_flags_follow_the_host_ram_recommendation() {
    let signatures = |mlock: bool, no_mmap: bool| -> Vec<String> {
        memory_flag_overlays(MmapRecommendation { mlock, no_mmap })
            .iter()
            .map(|o| o.candidate_signature())
            .collect()
    };
    assert_eq!(
        signatures(true, true),
        ["Mlock=true", "NoMmap=true", "Mlock=true;NoMmap=true"]
    );
    assert_eq!(signatures(false, true), ["NoMmap=true"]);
    assert!(signatures(false, false).is_empty());
}

#[test]
fn ngram_speculation_is_measured_when_enabled_and_kept_only_if_it_wins() {
    for (boost, expect_spec) in [(8.0, true), (-8.0, false)] {
        let mut measure = |o: &Overrides, _: &str| {
            let tg = if o.contains_key("SpecType") {
                20.0 + boost
            } else {
                20.0
            };
            Outcome::Rates(500.0, tg)
        };
        let mut host = host(&mut measure);
        let (outcome, _) = host.run(
            space(),
            TunerParams {
                spec_ngram: true,
                ..params()
            },
        );
        assert!(host
            .measured
            .iter()
            .any(|(phase, o)| phase == "spec-ngram" && word(o, "SpecType") == "ngram-mod"));
        assert_eq!(
            outcome.expect("a winner").winner.contains_key("SpecType"),
            expect_spec,
            "boost {boost}"
        );
    }
    let mut measure = |_: &Overrides, _: &str| Outcome::Rates(500.0, 20.0);
    let mut off = host(&mut measure);
    off.run(space(), params());
    assert_eq!(off.count("spec-ngram"), 0);
}

// --- the oracle -------------------------------------------------------------

fn kv_extra(overrides: &Overrides) -> i64 {
    if word(overrides, "KvK") == "f16" {
        3
    } else {
        0
    }
}

/// A host whose real VRAM edge depends on the KV type: faster with more on the
/// GPU, out of memory past the edge.
fn vram(overrides: &Overrides, moe_edge: i64, dense_max: i64) -> Outcome {
    let (fits, speed) = match overrides.number("NGpuLayers") {
        Some(layers) => (layers <= dense_max, layers as f64),
        None => match overrides.number("NCpuMoe") {
            Some(moe) => (moe >= moe_edge + kv_extra(overrides), 60.0 - moe as f64),
            None => (dense_max >= 65, 65.0),
        },
    };
    if fits {
        Outcome::Rates(500.0 + speed, 20.0 + speed)
    } else {
        Outcome::Oom
    }
}

fn fit(gpu_layers: i64, n_cpu_moe: i64) -> FitPlacement {
    FitPlacement {
        gpu_layers,
        n_cpu_moe: u32::try_from(n_cpu_moe).unwrap(),
        device: None,
    }
}

/// The trials that ran out of memory.
fn ooms(
    measured: &[(String, Overrides)],
    outcome: impl Fn(&Overrides) -> Outcome,
) -> Vec<String> {
    measured
        .iter()
        .filter(|(_, o)| matches!(outcome(o), Outcome::Oom))
        .map(|(phase, o)| format!("{phase}:{}", o.candidate_signature()))
        .collect()
}

#[test]
fn a_conservative_oracle_finds_the_edge_with_one_failed_probe() {
    let mut measure = |o: &Overrides, _: &str| vram(o, 30, 999);
    let mut calls = 0;
    let mut place = |o: &Overrides| {
        calls += 1;
        Some(fit(49, 30 + kv_extra(o) + 1))
    };
    let mut host = host(&mut measure);
    host.place = Some(&mut place);
    let (outcome, lines) = host.run(space(), params());
    let outcome = outcome.expect("a winner");
    // The baseline starts at the oracle's placement, not the catalog's 20.
    assert_eq!(host.measured[0].0, "baseline");
    assert_eq!(host.measured[0].1.number("NCpuMoe"), Some(31));
    // One step past the edge ran, the second failed: the only OOM in the whole
    // run, since refine candidates below the proven edge are refitted.
    assert_eq!(
        ooms(&host.measured, |o| vram(o, 30, 999)),
        ["vram-fit:KvK=q8_0;KvV=q8_0;NCpuMoe=29"]
    );
    assert!(says(&lines, "runs 1 step(s) past the fitted NCpuMoe=31"));
    // FlashAttn=false with a q8_0 V cache cannot be created: skipped, not run.
    assert!(lines
        .iter()
        .any(|l| l.starts_with("oracle [flash-attn]: skipped") && l.contains("FlashAttn=false")));
    assert!(!host
        .measured
        .iter()
        .any(|(_, o)| flag(o, "FlashAttn") == Some(false)));
    assert!(
        says(&lines, "oracle [refine]: NCpuMoe 29 -> 30"),
        "{lines:#?}"
    );
    assert_eq!(
        outcome.winner.number("NCpuMoe"),
        Some(30),
        "the fastest placement that starts"
    );
    assert_eq!(
        host.count("vram-fit"),
        2,
        "no ladder: two probes past the edge"
    );
    assert!(calls >= 1);
}

#[test]
fn an_optimistic_oracle_backs_off_one_step_at_a_time() {
    let mut measure = |o: &Overrides, _: &str| vram(o, 30, 999);
    let mut place = |o: &Overrides| Some(fit(49, 30 + kv_extra(o) - 2));
    let mut host = host(&mut measure);
    host.place = Some(&mut place);
    let (outcome, lines) = host.run(space(), params());
    let outcome = outcome.expect("recovered");
    assert!(lines
        .iter()
        .any(|l| l.starts_with("oracle miss: NCpuMoe=28")));
    // Baseline 28 and back-off 29 fail; 30 starts. Later shapes inherit the
    // correction, so nothing after the VRAM-fit phase runs out of memory.
    assert_eq!(
        ooms(&host.measured, |o| vram(o, 30, 999)),
        [
            "baseline:KvK=q8_0;KvV=q8_0;NCpuMoe=28",
            "vram-fit:KvK=q8_0;KvV=q8_0;NCpuMoe=29",
        ]
    );
    assert_eq!(outcome.winner.number("NCpuMoe"), Some(30));
}

#[test]
fn a_dense_model_starts_at_the_fitted_layer_count_and_probes_upward() {
    let mut measure = |o: &Overrides, _: &str| vram(o, 0, 41);
    let mut place = |_: &Overrides| Some(fit(40, 0));
    let mut host = host(&mut measure);
    host.place = Some(&mut place);
    let (outcome, _) = host.run(dense_space(), params());
    let outcome = outcome.expect("a winner");
    assert_eq!(host.measured[0].1.number("NGpuLayers"), Some(40));
    assert_eq!(
        ooms(&host.measured, |o| vram(o, 0, 41)),
        ["vram-fit:KvK=q8_0;KvV=q8_0;NGpuLayers=42"]
    );
    assert_eq!(outcome.winner.number("NGpuLayers"), Some(41));
}

#[test]
fn an_oracle_without_an_answer_leaves_the_trial_search_in_charge() {
    let mut measure = scripted;
    let mut place = |_: &Overrides| None;
    let mut with = host(&mut measure);
    with.place = Some(&mut place);
    let (a, lines) = with.run(space(), params());
    let mut measure = scripted;
    let mut without = host(&mut measure);
    let (b, _) = without.run(space(), params());
    assert_eq!(with.measured, without.measured);
    assert_eq!(
        a.map(|o| o.winner.candidate_signature()),
        b.map(|o| o.winner.candidate_signature())
    );
    assert!(says(&lines, "gave no answer"));
}

#[test]
fn a_heavier_memory_shape_is_refitted_not_crashed() {
    // Proven slack 1: this host runs one block past the fitted edge.
    let f16 = overrides_of(&[
        ("KvK", text("f16")),
        ("KvV", text("f16")),
        ("NCpuMoe", Setting::Number(30)),
    ]);
    let (adjusted, note) = refit_for_shape(&fit(49, 34), &f16, true, 1).unwrap();
    assert_eq!(adjusted.number("NCpuMoe"), Some(33));
    assert!(note.starts_with("NCpuMoe 30 -> 33"), "{note}");
    let q8 = overrides_of(&[("KvK", text("q8_0")), ("NCpuMoe", Setting::Number(30))]);
    assert!(refit_for_shape(&fit(49, 31), &q8, true, 1).is_none());
    let all_layers = overrides_of(&[("KvK", text("q8_0"))]);
    let (capped, _) = refit_for_shape(&fit(40, 0), &all_layers, false, 1).unwrap();
    assert_eq!(capped.number("NGpuLayers"), Some(41));
}

/// Past `edge - 1` the driver spills to system memory: the server starts but
/// crawls instead of running out of memory.
fn spilling(overrides: &Overrides, _phase: &str) -> Outcome {
    let moe = overrides.number("NCpuMoe").unwrap_or(0);
    let tg = if moe >= 30 { 25.0 + (31 - moe) as f64 } else { 8.0 };
    Outcome::Rates(200.0, tg)
}

#[test]
fn a_probe_that_starts_but_crawls_is_past_the_edge() {
    let mut measure = spilling;
    let mut place = |o: &Overrides| Some(fit(49, 30 + kv_extra(o) + 1));
    let mut host = host(&mut measure);
    host.place = Some(&mut place);
    let (outcome, lines) = host.run(space(), params());
    assert!(says(&lines, "VRAM spilled"), "{lines:#?}");
    assert!(says(&lines, "runs 1 step(s) past the fitted NCpuMoe=31"));
    assert_eq!(
        outcome.expect("a winner").winner.number("NCpuMoe"),
        Some(30)
    );
}

// --- the screen -------------------------------------------------------------

/// Ranks batching candidates by ubatch size, largest first.
fn by_ubatch(candidates: &[Overrides]) -> Option<Vec<usize>> {
    let mut order: Vec<usize> = (0..candidates.len()).collect();
    order.sort_by_key(|i| -candidates[*i].number("UbatchSize").unwrap_or(0));
    Some(order)
}

#[test]
fn a_screened_phase_measures_only_the_top_candidates_per_parent() {
    let mut measure = scripted;
    let mut calls = 0;
    let mut rank = |candidates: &[Overrides]| {
        calls += 1;
        by_ubatch(candidates)
    };
    let mut host = host(&mut measure);
    host.rank = Some(&mut rank);
    let (outcome, lines) = host.run(space(), params());
    assert!(outcome.is_some());
    let batching = host.count("batching");
    assert!((1..=SCREEN_KEEP * DEFAULT_BEAM_WIDTH).contains(&batching));
    assert!(lines
        .iter()
        .any(|l| l.starts_with("screen [batching]: llama-bench ranked")));
    let first = lines
        .iter()
        .find(|l| l.contains("[batching]") && l.starts_with("trial "))
        .unwrap();
    assert!(
        first.contains("UbatchSize=2048"),
        "the screen's top pick is measured first: {first}"
    );
    assert!(calls > 0);
}

#[test]
fn a_screen_without_an_answer_measures_every_candidate() {
    let mut measure = scripted;
    let mut plain = host(&mut measure);
    plain.run(space(), params());
    let mut measure = scripted;
    let mut rank = |_: &[Overrides]| None;
    let mut fallback = host(&mut measure);
    fallback.rank = Some(&mut rank);
    fallback.run(space(), params());
    assert_eq!(fallback.measured, plain.measured);
}

fn recorded(
    measure: Measure<'_>,
    asked: &mut Vec<Vec<Overrides>>,
) -> (Option<TunerOutcome>, Vec<String>) {
    let mut place = |o: &Overrides| Some(fit(49, 30 + kv_extra(o) + 1));
    let mut rank = |candidates: &[Overrides]| {
        asked.push(candidates.iter().map(|o| o.copy()).collect());
        Some((0..candidates.len()).collect())
    };
    let mut host = host(measure);
    host.place = Some(&mut place);
    host.rank = Some(&mut rank);
    host.run(space(), params())
}

#[test]
fn the_screen_never_sees_rejected_configs_and_skips_small_phases() {
    let mut measure = |o: &Overrides, _: &str| vram(o, 30, 999);
    let mut asked = vec![];
    let (outcome, lines) = recorded(&mut measure, &mut asked);
    assert!(outcome.is_some());
    assert!(!asked.is_empty(), "batching is large enough to screen");
    for batch in &asked {
        assert!(batch.len() >= SCREEN_KEEP + SCREEN_MIN_SAVED);
        assert!(
            !batch.iter().any(|o| flag(o, "FlashAttn") == Some(false)),
            "a rejected config reached the screen"
        );
    }
    assert!(!lines.iter().any(|l| l.starts_with("screen [threads]")));
    assert!(!lines.iter().any(|l| l.starts_with("screen [flash-attn]")));
}

#[test]
fn the_screen_only_sees_placements_at_or_above_the_proven_edge() {
    let mut measure = spilling;
    let mut asked = vec![];
    let (outcome, _) = recorded(&mut measure, &mut asked);
    assert!(outcome.is_some());
    // The spilled probe (29) may sit in the beam, but its candidates are
    // screened at the proven edge (30), never at 29.
    for candidate in asked.iter().flatten() {
        assert!(candidate.number("NCpuMoe").unwrap() >= 30);
    }
    let mut signatures: Vec<String> = asked
        .iter()
        .flatten()
        .map(|o| o.candidate_signature())
        .collect();
    let total = signatures.len();
    signatures.sort();
    signatures.dedup();
    assert_eq!(signatures.len(), total, "a candidate was screened twice");
}

// --- pieces -----------------------------------------------------------------

#[test]
fn the_best_of_two_profiles_ranks_by_the_pure_one() {
    assert_eq!(rank_profile(ScoreProfile::Both), Profile::Pure);
    assert_eq!(rank_profile(ScoreProfile::Pure), Profile::Pure);
    assert_eq!(rank_profile(ScoreProfile::Balanced), Profile::Balanced);
}

#[test]
fn progress_lines_say_what_a_trial_came_to() {
    let mut facts = TrialFacts {
        usable: true,
        needs_memory_recovery: false,
        needs_kv_recovery: false,
        seed_failed: false,
        oom: false,
        spilled: false,
        score: "42.0".to_string(),
        failure: None,
        evidence: None,
    };
    assert!(trial_summary(&facts).contains("42.0"));
    facts.usable = false;
    facts.oom = true;
    facts.failure = Some("readiness/readiness_exited_oom".to_string());
    facts.evidence = Some(Evidence {
        log_path: "logs/t.log".to_string(),
        manifest_path: "run.jsonl".to_string(),
    });
    let summary = trial_summary(&facts);
    assert!(summary.contains("readiness_exited_oom"), "{summary}");
    let placed = FitPlacement {
        gpu_layers: 40,
        n_cpu_moe: 7,
        device: Some(FitDevice {
            name: "CUDA0".to_string(),
            used_mib: 100,
            free_mib: 50,
        }),
    };
    assert!(oracle_note(&placed, true).contains("7"));
    assert!(oracle_note(&placed, false).contains("40"));
    assert!(oracle_note(&placed, false).contains("CUDA0"));
}

#[test]
fn a_setting_that_is_set_twice_keeps_its_last_value() {
    let mut o = numbered("B", 1);
    o.set("A", text("x"));
    o.set("B", Setting::Number(2));
    assert_eq!(o.candidate_signature(), "A=x;B=2");
    let joined = join_overrides(&o, &overrides_of(&[("A", Setting::Flag(true))]));
    assert_eq!(joined.candidate_signature(), "A=true;B=2");
    assert_eq!(
        joined.without(&vec!["B".to_string()]).candidate_signature(),
        "A=true"
    );
    assert_eq!(o.document().write(), r#"{"A":"x","B":2}"#);
    assert_eq!(o.clone().with("C", Setting::Number(3)).number("C"), Some(3));
}
