//! The search as a transition system.
//!
//! A run is a value: what it has measured, where it stands, and what it waits
//! for. One transition takes a reply and yields the next question. The run
//! never measures anything itself; whoever drives it answers each question.
use vstd::prelude::*;

#[allow(unused_imports)]
use crate::overrides::{
    all_views, number_of, overlaid, put, signature, Overrides, OverridesV, SettingV,
};
#[allow(unused_imports)]
use crate::text::{dec, dec_int};
#[allow(unused_imports)]
use crate::tuner::{
    ceiling_with, dominated, flag_overlay, kv_overlay, larger, memory_overlays, number_overlay,
    oracle_note_text, phase_name, phases_after, placement_key, refit_note, refit_value, same_pair,
    search_share, summary_text, FitPlacement, KvPair, MmapRecommendation, Phase, ScoreProfile,
    TrialFacts, KV_RECOVERY_MAX_TRIALS, MAX_VERIFICATION_ATTEMPTS, NGRAM_SPEC_TYPE,
    ORACLE_PROBE_STEPS, ORACLE_RECOVERY_STEPS, ORACLE_REFINE_RADIUS, SCREEN_KEEP, SCREEN_MIN_SAVED,
    SLACK_LIMIT,
};

verus! {

// ---------------------------------------------------------------------------
// What a run is given
// ---------------------------------------------------------------------------
/// What a run is asked to do.
#[derive(Clone, Debug, PartialEq, Eq)]
pub struct TunerParams {
    pub profile: ScoreProfile,
    /// Trial budget, already clamped to the supported range.
    pub budget: i64,
    /// The model's baseline KV pair.
    pub baseline_kv: KvPair,
    /// Candidates retained and expanded between search phases.
    pub beam_width: usize,
    /// Try n-gram speculative decoding. Off for a model whose catalog already
    /// sets a speculative type or draft model.
    pub spec_ngram: bool,
}

/// The axes of the model under test.
#[derive(Clone, Debug, PartialEq, Eq)]
pub struct SearchSpace {
    pub is_moe: bool,
    pub baseline_n_cpu_moe: i64,
    pub moe_upper: i64,
    pub block_count: i64,
    pub ubatch_candidates: Vec<i64>,
    pub batch_candidates: Vec<i64>,
    pub thread_candidates: Vec<i64>,
    pub mmap_recommendation: MmapRecommendation,
    /// The sliding-window and cache flags to try.
    pub cache_overlays: Vec<Overrides>,
}

/// Which helpers bound the search. With neither, it is the trial-only one.
#[derive(Clone, Copy, Debug, PartialEq, Eq, Structural)]
pub struct TunerAids {
    /// A memory fitter answers where a candidate fits.
    pub oracle: bool,
    /// A bench process ranks the candidates of a phase.
    pub screen: bool,
}

/// Everything a run is given.
#[derive(Clone, Debug, PartialEq, Eq)]
pub struct SearchPlan {
    pub params: TunerParams,
    pub space: SearchSpace,
    pub aids: TunerAids,
}

// ---------------------------------------------------------------------------
// What a run remembers
// ---------------------------------------------------------------------------
/// Where a run stands: what it does next, or which reply it waits for.
#[derive(Clone, Copy, Debug, PartialEq, Eq, Structural)]
pub enum Stage {
    Start,
    Enter,
    Work,
    Attempt,
    AwaitFit,
    AwaitAppraisal,
    AwaitTrial,
    AwaitPairs,
    AwaitCoverage,
    AwaitDense,
    AwaitBeam,
    AwaitPlacements,
    AwaitRejections,
    AwaitOrder,
    AwaitExpansion,
    AwaitRefineValues,
    AwaitStability,
    AwaitVerification,
    Finished,
}

/// How the VRAM-fit phase walks from the oracle's placement.
#[derive(Clone, Copy, Debug, PartialEq, Eq, Structural)]
pub enum Probe {
    Off,
    /// Toward the GPU, past the fitted placement.
    Toward,
    /// Away from it, because the fitted placement did not start.
    Away,
}

/// The active phase's spend cap, fixed at the phase's first measurement.
#[derive(Clone, Copy, Debug, PartialEq, Eq, Structural)]
pub struct PhaseGate {
    pub phase: Phase,
    pub ceiling: i64,
    pub announced: bool,
}

/// What the baseline trial showed.
#[derive(Clone, Copy, Debug, PartialEq, Eq, Structural)]
pub struct BaselineFacts {
    pub usable: bool,
    pub needs_memory_recovery: bool,
    pub seed_failed: bool,
}

/// One measured candidate.
#[derive(Debug, PartialEq, Eq)]
pub struct Measured {
    /// The ordinal of the trial that measured it.
    pub id: i64,
    pub overrides: Overrides,
    pub phase: Phase,
    pub usable: bool,
    pub oom: bool,
}

/// One measured candidate, mathematically.
pub struct MeasuredV {
    pub id: int,
    pub overrides: OverridesV,
    pub phase: Phase,
    pub usable: bool,
    pub oom: bool,
}

impl View for Measured {
    type V = MeasuredV;

    open spec fn view(&self) -> MeasuredV {
        MeasuredV {
            id: self.id as int,
            overrides: self.overrides@,
            phase: self.phase,
            usable: self.usable,
            oom: self.oom,
        }
    }
}

/// The views of a history.
pub open spec fn history_views(history: Seq<Measured>) -> Seq<MeasuredV> {
    history.map_values(|m: Measured| m@)
}

/// A run, mathematically.
#[verifier::ext_equal]
pub struct RunV {
    pub plan: SearchPlan,
    pub at: Stage,
    pub phase: Phase,
    /// Trials spent, the verification's included.
    pub trials: int,
    pub history: Seq<MeasuredV>,
    /// What each phase measured or reported as impossible.
    pub seen: Seq<Seq<char>>,
    pub gate: Option<PhaseGate>,
    /// What each phase has already had ranked.
    pub ranked: Seq<Seq<char>>,
    /// How far past (positive) or short of (negative) the fitted placement
    /// this host runs.
    pub slack: int,
    /// The oracle's placement of the baseline.
    pub edge: Option<i64>,
    pub baseline: OverridesV,
    pub kv: KvPair,
    pub facts: BaselineFacts,
    pub probe: Probe,
    pub step: int,
    /// The score of the step before, or of the beam's best.
    pub previous: Seq<char>,
    pub queue: Seq<OverridesV>,
    pub parents: Seq<OverridesV>,
    pub pairs: Seq<KvPair>,
    pub pair: KvPair,
    pub oomed: Seq<(i64, i64)>,
    pub pending: OverridesV,
    pub invalid: Seq<OverridesV>,
    pub keep: int,
    pub stable: Seq<i64>,
    pub attempts: int,
    pub winner: Option<OverridesV>,
    pub lines: Seq<Seq<char>>,
}

// ---------------------------------------------------------------------------
// Questions and replies
// ---------------------------------------------------------------------------
/// What a run asks of its driver.
#[derive(Debug, PartialEq, Eq)]
pub enum Ask {
    /// Nothing: go on.
    Proceed,
    /// Where does this configuration fit?
    Placement(Overrides),
    /// Can this configuration be created, and where does it fit?
    Appraisal(Overrides),
    /// Measure this configuration on the server.
    Trial(Overrides, Phase),
    /// Which KV pairs does the build allow beside this one?
    KvPairs(KvPair),
    /// Which expert placements cover the space within this many trials?
    MoeCoverage { recovery: bool, kv: KvPair, baseline: Overrides, budget: i64 },
    /// Which overlays shrink a dense model into memory?
    DenseRecovery(KvPair),
    /// Which measured candidates are the best, at most this many?
    Beam(usize),
    /// Where does each of these fit?
    Placements(Vec<Overrides>),
    /// Which of these can the engine not create?
    Rejections(Vec<Overrides>),
    /// In which order does a bench process rank these?
    Order(Vec<Overrides>),
    /// Expand these measured candidates by these overlays.
    Expansion(Vec<i64>, Vec<Overrides>),
    /// Which placements around this one are worth a trial?
    RefineValues(i64, Vec<i64>),
    /// Rescore the history with its cross-phase variance.
    Stability,
    /// The run is over.
    Finished,
}

/// A question, mathematically.
#[verifier::ext_equal]
pub enum AskV {
    Proceed,
    Placement(OverridesV),
    Appraisal(OverridesV),
    Trial(OverridesV, Phase),
    KvPairs(KvPair),
    MoeCoverage(bool, KvPair, OverridesV, int),
    DenseRecovery(KvPair),
    Beam(int),
    Placements(Seq<OverridesV>),
    Rejections(Seq<OverridesV>),
    Order(Seq<OverridesV>),
    Expansion(Seq<i64>, Seq<OverridesV>),
    RefineValues(int, Seq<i64>),
    Stability,
    Finished,
}

impl View for Ask {
    type V = AskV;

    open spec fn view(&self) -> AskV {
        match self {
            Ask::Proceed => AskV::Proceed,
            Ask::Placement(o) => AskV::Placement(o@),
            Ask::Appraisal(o) => AskV::Appraisal(o@),
            Ask::Trial(o, p) => AskV::Trial(o@, *p),
            Ask::KvPairs(kv) => AskV::KvPairs(*kv),
            Ask::MoeCoverage { recovery, kv, baseline, budget } => AskV::MoeCoverage(
                *recovery,
                *kv,
                baseline@,
                *budget as int,
            ),
            Ask::DenseRecovery(kv) => AskV::DenseRecovery(*kv),
            Ask::Beam(w) => AskV::Beam(*w as int),
            Ask::Placements(l) => AskV::Placements(all_views(l@)),
            Ask::Rejections(l) => AskV::Rejections(all_views(l@)),
            Ask::Order(l) => AskV::Order(all_views(l@)),
            Ask::Expansion(ids, l) => AskV::Expansion(ids@, all_views(l@)),
            Ask::RefineValues(n, l) => AskV::RefineValues(*n as int, l@),
            Ask::Stability => AskV::Stability,
            Ask::Finished => AskV::Finished,
        }
    }
}

/// What a driver replies.
#[derive(Debug, PartialEq, Eq)]
pub enum Reply {
    Proceed,
    Placement(Option<FitPlacement>),
    /// Why the configuration cannot be created, if so, and where it fits.
    Appraisal(Option<String>, Option<FitPlacement>),
    Trial(TrialFacts),
    KvPairs(Vec<KvPair>),
    /// The scheduled configurations, how many were planned, how many skipped.
    MoeCoverage(Vec<Overrides>, u64, u64),
    Worklist(Vec<Overrides>),
    /// The ids of the best candidates, best first, and the best's score.
    Beam(Vec<i64>, String),
    Placements(Vec<Option<FitPlacement>>),
    Rejections(Vec<bool>),
    /// Indices, most promising first, or nothing when the bench did not answer.
    Order(Option<Vec<usize>>),
    /// The fine grid and the values around the proven edge.
    RefineValues(Vec<i64>, Vec<i64>),
    /// How many groups carry cross-phase variance.
    Stability(u64),
}

/// Whether a placement can be moved by a run's slack without overflow.
pub open spec fn fit_in_range(fit: Option<FitPlacement>) -> bool {
    fit matches Some(f) ==> f.gpu_layers <= i64::MAX - SLACK_LIMIT
}

/// Whether every placement in a reply is in range.
pub open spec fn reply_in_range(reply: Reply) -> bool {
    match reply {
        Reply::Placement(fit) => fit_in_range(fit),
        Reply::Appraisal(_, fit) => fit_in_range(fit),
        Reply::Placements(fits) => forall|i: int|
            0 <= i < fits@.len() ==> fit_in_range(#[trigger] fits@[i]),
        _ => true,
    }
}

// ---------------------------------------------------------------------------
// Small pieces
// ---------------------------------------------------------------------------
/// What a phase remembers of a configuration.
pub open spec fn seen_key(phase: Phase, o: OverridesV) -> Seq<char> {
    phase_name(phase) + "|"@ + signature(o)
}

/// What a phase remembers of a configuration that cannot be created.
pub open spec fn rejected_key(phase: Phase, o: OverridesV) -> Seq<char> {
    phase_name(phase) + "|rejected|"@ + signature(o)
}

pub open spec fn say(s: RunV, line: Seq<char>) -> RunV {
    RunV { lines: s.lines.push(line), ..s }
}

pub open spec fn going_to(s: RunV, phase: Phase) -> RunV {
    RunV { phase, at: Stage::Enter, ..s }
}

pub open spec fn at_stage(s: RunV, at: Stage) -> RunV {
    RunV { at, ..s }
}

pub open spec fn stopped(s: RunV, line: Seq<char>) -> (RunV, AskV) {
    (at_stage(say(s, line), Stage::Finished), AskV::Finished)
}

/// How many candidates a run retains: at least one.
pub open spec fn beam_width_of(plan: SearchPlan) -> int {
    larger(plan.params.beam_width as int, 1)
}

/// The phase that follows.
pub open spec fn next_phase(phase: Phase) -> Phase {
    match phase {
        Phase::Baseline => Phase::VramFit,
        Phase::KvRecovery => Phase::VramFit,
        Phase::VramFit => Phase::Batching,
        Phase::Batching => Phase::FlashAttn,
        Phase::FlashAttn => Phase::MemoryFlags,
        Phase::MemoryFlags => Phase::CacheFlags,
        Phase::CacheFlags => Phase::Threads,
        Phase::Threads => Phase::KvTypes,
        Phase::KvTypes => Phase::SpecNgram,
        Phase::SpecNgram => Phase::Refine,
        Phase::Refine => Phase::Verify,
        Phase::Verify => Phase::Verify,
    }
}

/// The measured candidate with a given id.
pub open spec fn find_id(history: Seq<MeasuredV>, id: int) -> Option<MeasuredV>
    decreases history.len(),
{
    if history.len() == 0 {
        None
    } else if history.last().id == id {
        Some(history.last())
    } else {
        find_id(history.drop_last(), id)
    }
}

/// The ids that name measured candidates.
pub open spec fn known_ids(history: Seq<MeasuredV>, ids: Seq<i64>) -> Seq<i64>
    decreases ids.len(),
{
    if ids.len() == 0 {
        seq![]
    } else {
        let front = known_ids(history, ids.drop_last());
        if find_id(history, ids.last() as int) is Some {
            front.push(ids.last())
        } else {
            front
        }
    }
}

/// The configurations of the measured candidates that `ids` name.
pub open spec fn beam_of(history: Seq<MeasuredV>, ids: Seq<i64>) -> Seq<OverridesV>
    decreases ids.len(),
{
    if ids.len() == 0 {
        seq![]
    } else {
        let front = beam_of(history, ids.drop_last());
        match find_id(history, ids.last() as int) {
            Some(m) => front.push(m.overrides),
            None => front,
        }
    }
}

/// The pairs other than `kv`.
pub open spec fn other_pairs(pairs: Seq<KvPair>, kv: KvPair) -> Seq<KvPair>
    decreases pairs.len(),
{
    if pairs.len() == 0 {
        seq![]
    } else {
        let front = other_pairs(pairs.drop_last(), kv);
        if same_pair(pairs.last(), kv) {
            front
        } else {
            front.push(pairs.last())
        }
    }
}

/// At most `n` elements from the front.
pub open spec fn first<A>(s: Seq<A>, n: int) -> Seq<A> {
    if s.len() <= n {
        s
    } else {
        s.take(n)
    }
}

/// The batch pair that a configuration asks for.
pub open spec fn batch_of(o: OverridesV) -> (int, int) {
    (
        match number_of(o, "UbatchSize"@) {
            Some(n) => n,
            None => 0,
        },
        match number_of(o, "BatchSize"@) {
            Some(n) => n,
            None => 0,
        },
    )
}

/// `parent` with both batch sizes set.
pub open spec fn batched(parent: OverridesV, ub: int, b: int) -> OverridesV {
    overlaid(
        parent,
        put(number_overlay("UbatchSize"@, ub), "BatchSize"@, SettingV::Number(b)),
    )
}

/// `parent` with the micro-batch `ub` and each batch size that is no smaller.
pub open spec fn batch_row(parent: OverridesV, ub: i64, batches: Seq<i64>) -> Seq<OverridesV>
    decreases batches.len(),
{
    if batches.len() == 0 {
        seq![]
    } else {
        let front = batch_row(parent, ub, batches.drop_last());
        if batches.last() >= ub {
            front.push(batched(parent, ub as int, batches.last() as int))
        } else {
            front
        }
    }
}

/// The joint grid of micro-batch and batch sizes, the batch no smaller.
pub open spec fn batch_grid(parent: OverridesV, ubs: Seq<i64>, batches: Seq<i64>) -> Seq<OverridesV>
    decreases ubs.len(),
{
    if ubs.len() == 0 {
        seq![]
    } else {
        batch_grid(parent, ubs.drop_last(), batches) + batch_row(parent, ubs.last(), batches)
    }
}

/// `parent` with `key` set to each value.
pub open spec fn with_each(parent: OverridesV, key: Seq<char>, values: Seq<i64>) -> Seq<OverridesV> {
    values.map_values(|v: i64| overlaid(parent, number_overlay(key, v as int)))
}

/// `parent` with each pair.
pub open spec fn with_pairs(parent: OverridesV, pairs: Seq<KvPair>) -> Seq<OverridesV> {
    pairs.map_values(|p: KvPair| overlaid(parent, kv_overlay(p)))
}

/// `base` under each overlay.
pub open spec fn under_each(base: OverridesV, overlays: Seq<OverridesV>) -> Seq<OverridesV> {
    overlays.map_values(|o: OverridesV| overlaid(base, o))
}

/// The placements that usable trials ran at.
pub open spec fn stable_placements(history: Seq<MeasuredV>) -> Seq<i64>
    decreases history.len(),
{
    if history.len() == 0 {
        seq![]
    } else {
        let front = stable_placements(history.drop_last());
        match number_of(history.last().overrides, "NCpuMoe"@) {
            Some(n) => if history.last().usable {
                front.push(n as i64)
            } else {
                front
            },
            None => front,
        }
    }
}

/// The values within the refine radius of `current`.
pub open spec fn near(values: Seq<i64>, current: int) -> Seq<i64>
    decreases values.len(),
{
    if values.len() == 0 {
        seq![]
    } else {
        let front = near(values.drop_last(), current);
        if -ORACLE_REFINE_RADIUS <= values.last() - current <= ORACLE_REFINE_RADIUS {
            front.push(values.last())
        } else {
            front
        }
    }
}

/// `values`, then each of `more` that is not there yet.
pub open spec fn merged(values: Seq<i64>, more: Seq<i64>) -> Seq<i64>
    decreases more.len(),
{
    if more.len() == 0 {
        values
    } else {
        let front = merged(values, more.drop_last());
        if front.contains(more.last()) {
            front
        } else {
            front.push(more.last())
        }
    }
}

/// A history without any candidate of a given signature.
pub open spec fn without_signature(history: Seq<MeasuredV>, sig: Seq<char>) -> Seq<MeasuredV>
    decreases history.len(),
{
    if history.len() == 0 {
        seq![]
    } else {
        let front = without_signature(history.drop_last(), sig);
        if signature(history.last().overrides) == sig {
            front
        } else {
            front.push(history.last())
        }
    }
}

/// A configuration at the placement that its memory shape needs.
pub open spec fn refitted(o: OverridesV, fit: Option<FitPlacement>, is_moe: bool, slack: int) -> OverridesV {
    match fit {
        None => o,
        Some(f) => match refit_value(f, o, is_moe, slack) {
            Some(value) => overlaid(o, number_overlay(placement_key(is_moe), value)),
            None => o,
        },
    }
}

/// Each configuration at the placement that its memory shape needs.
pub open spec fn refitted_each(
    list: Seq<OverridesV>,
    fits: Seq<Option<FitPlacement>>,
    is_moe: bool,
    slack: int,
) -> Seq<OverridesV> {
    Seq::new(
        list.len(),
        |i: int|
            if i < fits.len() {
                refitted(list[i], fits[i], is_moe, slack)
            } else {
                list[i]
            },
    )
}

/// Whether some configuration of the list has the signature.
pub open spec fn has_signature(list: Seq<OverridesV>, sig: Seq<char>) -> bool {
    exists|i: int| 0 <= i < list.len() && signature(#[trigger] list[i]) == sig
}

/// The configurations that this phase has neither measured nor ranked, each
/// once.
pub open spec fn fresh(s: RunV, list: Seq<OverridesV>) -> Seq<OverridesV>
    decreases list.len(),
{
    if list.len() == 0 {
        seq![]
    } else {
        let front = fresh(s, list.drop_last());
        let key = seen_key(s.phase, list.last());
        if s.seen.contains(key) || s.ranked.contains(key) || has_signature(
            front,
            signature(list.last()),
        ) {
            front
        } else {
            front.push(list.last())
        }
    }
}

/// The configurations whose flag has the given value; a missing flag is false.
pub open spec fn flagged(list: Seq<OverridesV>, flags: Seq<bool>, value: bool) -> Seq<OverridesV>
    decreases list.len(),
{
    if list.len() == 0 {
        seq![]
    } else {
        let front = flagged(list.drop_last(), flags, value);
        let i = list.len() - 1;
        let flag = i < flags.len() && flags[i];
        if flag == value {
            front.push(list.last())
        } else {
            front
        }
    }
}

/// The configurations at the given indices; one out of range is left out.
pub open spec fn picked(list: Seq<OverridesV>, order: Seq<usize>) -> Seq<OverridesV>
    decreases order.len(),
{
    if order.len() == 0 {
        seq![]
    } else {
        let front = picked(list, order.drop_last());
        if order.last() < list.len() {
            front.push(list[order.last() as int])
        } else {
            front
        }
    }
}

/// What a phase remembers of a ranked list.
pub open spec fn keys_of(phase: Phase, list: Seq<OverridesV>) -> Seq<Seq<char>> {
    list.map_values(|o: OverridesV| seen_key(phase, o))
}

/// The overlays of a flag phase.
pub open spec fn phase_overlays(plan: SearchPlan, phase: Phase) -> Seq<OverridesV> {
    match phase {
        Phase::FlashAttn => seq![flag_overlay("FlashAttn"@, true), flag_overlay("FlashAttn"@, false)],
        Phase::MemoryFlags => memory_overlays(
            plan.space.mmap_recommendation.mlock,
            plan.space.mmap_recommendation.no_mmap,
        ),
        Phase::CacheFlags => all_views(plan.space.cache_overlays@),
        Phase::SpecNgram => seq![put(Seq::empty(), "SpecType"@, SettingV::Text(NGRAM_SPEC_TYPE@))],
        _ => seq![],
    }
}

pub open spec fn phase_line(phase: Phase) -> Seq<char> {
    "phase: "@ + phase_name(phase)
}

// ---------------------------------------------------------------------------
// The measure step
// ---------------------------------------------------------------------------
/// What admits the trials of the active phase: its own state, or a new one.
pub open spec fn gate_of(s: RunV) -> PhaseGate {
    match s.gate {
        Some(g) if g.phase == s.phase => g,
        _ => PhaseGate {
            phase: s.phase,
            ceiling: ceiling_with(
                phases_after(s.phase),
                s.trials,
                search_share(s.plan.params.budget as int),
            ) as i64,
            announced: false,
        },
    }
}

pub open spec fn reserve_line(s: RunV) -> Seq<char> {
    "phase "@ + phase_name(s.phase) + ": reserve reached at "@ + dec_int(s.trials)
        + " trials; its remaining candidates go unmeasured so later phases can run"@
}

/// Whether the budget and the phase's reserve allow one more trial, and the
/// run with the phase's gate settled.
pub open spec fn gated(s: RunV) -> (RunV, bool) {
    if s.trials >= search_share(s.plan.params.budget as int) {
        (s, false)
    } else {
        let g = gate_of(s);
        if s.trials < g.ceiling {
            (RunV { gate: Some(g), ..s }, true)
        } else if g.announced {
            (RunV { gate: Some(g), ..s }, false)
        } else {
            let t = RunV { gate: Some(PhaseGate { announced: true, ..g }), ..s };
            (say(t, reserve_line(t)), false)
        }
    }
}

/// Whether the oracle bounds the search.
pub open spec fn oracle_active(s: RunV) -> bool {
    s.edge is Some
}

/// Whether a candidate of this phase is appraised before it is measured.
pub open spec fn appraised(s: RunV) -> bool {
    oracle_active(s) && s.phase != Phase::Baseline && s.phase != Phase::VramFit
}

/// The probe toward the GPU is over.
pub open spec fn probe_done(s: RunV) -> (RunV, AskV) {
    let line = "oracle: this host runs "@ + dec_int(s.slack) + " step(s) past the fitted "@
        + placement_key(s.plan.space.is_moe) + "="@ + dec_int(edge_value(s));
    (going_to(say(s, line), Phase::Batching), AskV::Proceed)
}

pub open spec fn edge_value(s: RunV) -> int {
    match s.edge {
        Some(e) => e as int,
        None => 0,
    }
}

/// A candidate was not measured.
pub open spec fn passed_over(s: RunV) -> (RunV, AskV) {
    if s.phase == Phase::VramFit && s.probe == Probe::Toward {
        probe_done(s)
    } else {
        (at_stage(s, Stage::Work), AskV::Proceed)
    }
}

/// Measure `c` unless this phase already has.
pub open spec fn committed(s: RunV, c: OverridesV) -> (RunV, AskV) {
    let key = seen_key(s.phase, c);
    if s.seen.contains(key) {
        passed_over(s)
    } else {
        (
            RunV {
                seen: s.seen.push(key),
                trials: s.trials + 1,
                pending: c,
                at: Stage::AwaitTrial,
                ..s
            },
            AskV::Trial(c, s.phase),
        )
    }
}

/// Take up a candidate: the gates first, then the oracle, then the trial.
pub open spec fn considered(s: RunV, c: OverridesV) -> (RunV, AskV) {
    let (t, open) = gated(s);
    if !open {
        passed_over(t)
    } else if appraised(t) {
        (RunV { pending: c, at: Stage::AwaitAppraisal, ..t }, AskV::Appraisal(c))
    } else {
        committed(t, c)
    }
}

pub open spec fn skip_line(s: RunV, c: OverridesV, reason: Seq<char>) -> Seq<char> {
    "oracle ["@ + phase_name(s.phase) + "]: skipped "@ + signature(c)
        + " — llama.cpp cannot create it: "@ + reason
}

/// The oracle's opinion of the pending candidate.
pub open spec fn on_appraisal(s: RunV, rejection: Option<String>, fit: Option<FitPlacement>) -> (
    RunV,
    AskV,
) {
    match rejection {
        Some(reason) => {
            let key = rejected_key(s.phase, s.pending);
            if s.seen.contains(key) {
                passed_over(s)
            } else {
                let t = RunV { seen: s.seen.push(key), ..s };
                passed_over(say(t, skip_line(s, s.pending, reason@)))
            }
        },
        None => {
            let is_moe = s.plan.space.is_moe;
            match fit {
                Some(f) => match refit_value(f, s.pending, is_moe, s.slack) {
                    Some(value) => committed(
                        say(
                            s,
                            "oracle ["@ + phase_name(s.phase) + "]: "@ + refit_note(
                                s.pending,
                                is_moe,
                                value,
                            ),
                        ),
                        overlaid(s.pending, number_overlay(placement_key(is_moe), value)),
                    ),
                    None => committed(s, s.pending),
                },
                None => committed(s, s.pending),
            }
        },
    }
}

// ---------------------------------------------------------------------------
// The screen
// ---------------------------------------------------------------------------
/// Work through a list.
pub open spec fn queued(s: RunV, list: Seq<OverridesV>) -> (RunV, AskV) {
    (RunV { queue: list, at: Stage::Work, ..s }, AskV::Proceed)
}

/// Offer a list to the screen, if there is one.
pub open spec fn offered(s: RunV, list: Seq<OverridesV>, keep: int) -> (RunV, AskV) {
    if !s.plan.aids.screen {
        queued(s, list)
    } else if oracle_active(s) {
        (
            RunV { queue: list, keep, at: Stage::AwaitPlacements, ..s },
            AskV::Placements(list),
        )
    } else {
        placed(RunV { keep, ..s }, list)
    }
}

/// The list stands at the placements the server would run.
pub open spec fn placed(s: RunV, list: Seq<OverridesV>) -> (RunV, AskV) {
    let unique = fresh(s, list);
    if oracle_active(s) {
        (RunV { queue: unique, at: Stage::AwaitRejections, ..s }, AskV::Rejections(unique))
    } else {
        split(s, unique, seq![])
    }
}

/// The list is split into what can be created and what cannot.
pub open spec fn split(s: RunV, valid: Seq<OverridesV>, invalid: Seq<OverridesV>) -> (RunV, AskV) {
    if valid.len() < s.keep + SCREEN_MIN_SAVED {
        queued(s, valid + invalid)
    } else {
        (
            RunV { queue: valid, invalid, at: Stage::AwaitOrder, ..s },
            AskV::Order(valid),
        )
    }
}

/// The bench's ranking of the valid list.
pub open spec fn on_order(s: RunV, order: Option<Vec<usize>>) -> (RunV, AskV) {
    match order {
        Some(o) => {
            let line = "screen ["@ + phase_name(s.phase) + "]: llama-bench ranked "@ + dec(
                s.queue.len(),
            ) + " candidates; measuring the top "@ + dec_int(s.keep);
            let t = RunV { ranked: s.ranked + keys_of(s.phase, s.queue), ..s };
            queued(say(t, line), picked(s.queue, first(o@, s.keep)) + s.invalid)
        },
        None => {
            let line = "screen ["@ + phase_name(s.phase)
                + "]: llama-bench gave no answer; measuring all "@ + dec(s.queue.len());
            queued(say(s, line), s.queue + s.invalid)
        },
    }
}

// ---------------------------------------------------------------------------
// The phases
// ---------------------------------------------------------------------------
/// The run begins.
pub open spec fn started(s: RunV) -> (RunV, AskV) {
    let t = say(s, "search: beam width "@ + dec_int(beam_width_of(s.plan)));
    if s.plan.aids.oracle {
        (at_stage(t, Stage::AwaitFit), AskV::Placement(t.baseline))
    } else {
        on_fit(t, None)
    }
}

/// The oracle's placement of the baseline.
pub open spec fn on_fit(s: RunV, fit: Option<FitPlacement>) -> (RunV, AskV) {
    let is_moe = s.plan.space.is_moe;
    let told = match fit {
        Some(f) => say(s, oracle_note_text(f, is_moe)),
        None => if s.plan.aids.oracle {
            say(
                s,
                "oracle: llama-fit-params gave no answer; searching the placement by trial"@,
            )
        } else {
            s
        },
    };
    let edge: Option<i64> = match fit {
        Some(f) => Some(
            if is_moe {
                f.n_cpu_moe as i64
            } else {
                f.gpu_layers
            },
        ),
        None => None,
    };
    let baseline = if is_moe {
        let n = match edge {
            Some(e) => e as int,
            None => s.plan.space.baseline_n_cpu_moe as int,
        };
        overlaid(s.baseline, number_overlay("NCpuMoe"@, n))
    } else {
        match edge {
            Some(e) => if e >= 0 {
                overlaid(s.baseline, number_overlay("NGpuLayers"@, e as int))
            } else {
                s.baseline
            },
            None => s.baseline,
        }
    };
    let t = RunV { edge, baseline, phase: Phase::Baseline, ..told };
    considered(say(t, phase_line(Phase::Baseline)), baseline)
}

/// A phase is entered.
pub open spec fn entered(s: RunV) -> (RunV, AskV) {
    match s.phase {
        Phase::Baseline => (s, AskV::Proceed),
        Phase::KvRecovery => (
            at_stage(say(s, phase_line(s.phase)), Stage::AwaitPairs),
            AskV::KvPairs(s.plan.params.baseline_kv),
        ),
        Phase::VramFit => entered_fit(say(s, phase_line(s.phase))),
        Phase::Batching => asked_beam(s),
        Phase::FlashAttn | Phase::MemoryFlags | Phase::CacheFlags => {
            let t = say(s, phase_line(s.phase));
            if phase_overlays(s.plan, s.phase).len() == 0 {
                (
                    going_to(
                        say(
                            t,
                            phase_name(s.phase)
                                + ": skipped — not enough free RAM to load or lock this model in memory"@,
                        ),
                        next_phase(s.phase),
                    ),
                    AskV::Proceed,
                )
            } else {
                asked_beam(t)
            }
        },
        Phase::Threads | Phase::KvTypes => asked_beam(say(s, phase_line(s.phase))),
        Phase::SpecNgram => if s.plan.params.spec_ngram {
            asked_beam(say(s, phase_line(s.phase)))
        } else {
            (going_to(s, next_phase(s.phase)), AskV::Proceed)
        },
        Phase::Refine => {
            let t = say(s, phase_line(s.phase));
            if s.plan.space.is_moe {
                asked_beam(RunV { stable: stable_placements(s.history), ..t })
            } else {
                (going_to(t, next_phase(s.phase)), AskV::Proceed)
            }
        },
        Phase::Verify => (at_stage(s, Stage::AwaitStability), AskV::Stability),
    }
}

pub open spec fn asked_beam(s: RunV) -> (RunV, AskV) {
    (at_stage(s, Stage::AwaitBeam), AskV::Beam(beam_width_of(s.plan)))
}

/// The VRAM-fit phase is entered.
pub open spec fn entered_fit(s: RunV) -> (RunV, AskV) {
    let is_moe = s.plan.space.is_moe;
    let t = RunV { step: 0, probe: Probe::Off, ..s };
    match s.edge {
        Some(edge) => if !is_moe && edge < 0 {
            (going_to(t, Phase::Batching), AskV::Proceed)
        } else if s.facts.usable {
            (RunV { probe: Probe::Toward, at: Stage::Work, ..t }, AskV::Proceed)
        } else if s.facts.needs_memory_recovery {
            let line = "oracle miss: "@ + placement_key(is_moe) + "="@ + dec_int(edge as int)
                + " did not start; backing off one step at a time"@;
            (RunV { probe: Probe::Away, at: Stage::Work, ..say(t, line) }, AskV::Proceed)
        } else {
            (going_to(t, Phase::Batching), AskV::Proceed)
        },
        None => if is_moe {
            let share = search_share(s.plan.params.budget as int);
            let room = ceiling_with(phases_after(Phase::VramFit), s.trials, share) - s.trials;
            (
                at_stage(t, Stage::AwaitCoverage),
                AskV::MoeCoverage(
                    s.facts.needs_memory_recovery || s.facts.seed_failed,
                    s.kv,
                    s.baseline,
                    room,
                ),
            )
        } else if s.facts.needs_memory_recovery {
            (at_stage(t, Stage::AwaitDense), AskV::DenseRecovery(s.kv))
        } else {
            (going_to(t, Phase::Batching), AskV::Proceed)
        },
    }
}

/// The placement `step` steps from the oracle's, toward the GPU or away.
pub open spec fn probe_value(s: RunV, step: int) -> int {
    // More of the model on the GPU is fewer expert blocks on the CPU of a
    // mixture model, and more layers of a dense one.
    if (s.probe == Probe::Toward) == s.plan.space.is_moe {
        edge_value(s) - step
    } else {
        edge_value(s) + step
    }
}

/// Whether a placement is one that the model has.
pub open spec fn placement_exists(s: RunV, value: int) -> bool {
    if s.plan.space.is_moe {
        0 <= value <= s.plan.space.moe_upper
    } else {
        1 <= value <= larger(s.plan.space.block_count as int, 1) + 1
    }
}

/// One step of the walk from the oracle's placement.
pub open spec fn probed(s: RunV) -> (RunV, AskV) {
    let step = s.step + 1;
    let limit = if s.probe == Probe::Toward {
        ORACLE_PROBE_STEPS as int
    } else {
        ORACLE_RECOVERY_STEPS as int
    };
    let value = probe_value(s, step);
    if step > limit || !placement_exists(s, value) {
        if s.probe == Probe::Toward {
            probe_done(s)
        } else {
            (going_to(s, Phase::Batching), AskV::Proceed)
        }
    } else {
        considered(
            RunV { step, ..s },
            overlaid(s.baseline, number_overlay(placement_key(s.plan.space.is_moe), value)),
        )
    }
}

/// The next piece of the active phase's work.
pub open spec fn worked(s: RunV) -> (RunV, AskV) {
    if s.phase == Phase::KvRecovery {
        if s.pairs.len() == 0 {
            stopped(
                s,
                "stopped: the baseline failed on content and every allowed KV cache pair failed the same way; the model or engine, not the KV cache type, is what needs fixing"@,
            )
        } else {
            considered(
                RunV { pair: s.pairs[0], pairs: s.pairs.skip(1), ..s },
                overlaid(s.baseline, kv_overlay(s.pairs[0])),
            )
        }
    } else if s.phase == Phase::VramFit && s.probe != Probe::Off {
        probed(s)
    } else if s.queue.len() > 0 {
        let c = s.queue[0];
        let t = RunV { queue: s.queue.skip(1), ..s };
        if s.phase == Phase::Batching && dominated(batch_of(c).0, batch_of(c).1, s.oomed) {
            (t, AskV::Proceed)
        } else {
            considered(t, c)
        }
    } else if s.parents.len() > 0 {
        expanded_parent(RunV { parents: s.parents.skip(1), ..s }, s.parents[0])
    } else {
        (going_to(s, next_phase(s.phase)), AskV::Proceed)
    }
}

/// The candidates of one beam member.
pub open spec fn expanded_parent(s: RunV, parent: OverridesV) -> (RunV, AskV) {
    match s.phase {
        Phase::Batching => offered(
            RunV { oomed: seq![], ..s },
            batch_grid(parent, s.plan.space.ubatch_candidates@, s.plan.space.batch_candidates@),
            SCREEN_KEEP as int,
        ),
        Phase::Threads => match number_of(parent, "NCpuMoe"@) {
            Some(n) => if n > 0 {
                offered(
                    s,
                    with_each(parent, "Threads"@, s.plan.space.thread_candidates@),
                    SCREEN_KEEP as int,
                )
            } else {
                (s, AskV::Proceed)
            },
            None => (s, AskV::Proceed),
        },
        Phase::KvTypes => offered(s, with_pairs(parent, s.pairs), SCREEN_KEEP as int),
        Phase::Refine => match number_of(parent, "NCpuMoe"@) {
            Some(n) => (
                RunV { pending: parent, at: Stage::AwaitRefineValues, ..s },
                AskV::RefineValues(n, s.stable),
            ),
            None => (s, AskV::Proceed),
        },
        _ => (s, AskV::Proceed),
    }
}

/// The placements around a beam member.
pub open spec fn on_refine_values(s: RunV, fine: Seq<i64>, edge: Seq<i64>) -> (RunV, AskV) {
    match number_of(s.pending, "NCpuMoe"@) {
        Some(current) => {
            let values = if oracle_active(s) {
                near(fine, current)
            } else {
                merged(fine, edge)
            };
            queued(s, with_each(s.pending, "NCpuMoe"@, values))
        },
        None => (at_stage(s, Stage::Work), AskV::Proceed),
    }
}

/// The allowed KV pairs.
pub open spec fn on_pairs(s: RunV, pairs: Seq<KvPair>) -> (RunV, AskV) {
    if s.phase == Phase::KvRecovery {
        let others = first(
            other_pairs(pairs, s.plan.params.baseline_kv),
            KV_RECOVERY_MAX_TRIALS as int,
        );
        let t = RunV { pairs: others, at: Stage::Work, ..s };
        if others.len() == 0 {
            (
                say(
                    t,
                    "kv-recovery: the allowed KV cache set offers no alternative to the baseline pair"@,
                ),
                AskV::Proceed,
            )
        } else {
            (t, AskV::Proceed)
        }
    } else {
        (RunV { pairs, at: Stage::Work, ..s }, AskV::Proceed)
    }
}

/// The beam.
pub open spec fn on_beam(s: RunV, ids: Seq<i64>, score: Seq<char>) -> (RunV, AskV) {
    let beam = beam_of(s.history, ids);
    match s.phase {
        Phase::Batching => if beam.len() == 0 {
            stopped(s, "stopped: the startup/OOM recovery ladder produced no usable measurement"@)
        } else {
            (
                RunV { parents: beam, at: Stage::Work, ..say(s, phase_line(s.phase)) },
                AskV::Proceed,
            )
        },
        Phase::FlashAttn | Phase::MemoryFlags | Phase::CacheFlags | Phase::SpecNgram => (
            RunV { keep: larger(beam.len() as int, 1), at: Stage::AwaitExpansion, ..s },
            AskV::Expansion(known_ids(s.history, ids), phase_overlays(s.plan, s.phase)),
        ),
        Phase::Threads | Phase::Refine => (
            RunV { parents: beam, at: Stage::Work, ..s },
            AskV::Proceed,
        ),
        Phase::KvTypes => (
            RunV { parents: beam, at: Stage::AwaitPairs, ..s },
            AskV::KvPairs(s.kv),
        ),
        Phase::Verify => if beam.len() == 0 {
            unverified(s)
        } else {
            (
                RunV {
                    pending: beam[0],
                    previous: score,
                    trials: s.trials + 1,
                    attempts: s.attempts + 1,
                    at: Stage::AwaitVerification,
                    ..s
                },
                AskV::Trial(beam[0], Phase::Verify),
            )
        },
        _ => (s, AskV::Proceed),
    }
}

/// The expansion of the beam by the phase's overlays.
pub open spec fn on_expansion(s: RunV, list: Seq<OverridesV>) -> (RunV, AskV) {
    if s.phase == Phase::FlashAttn {
        offered(s, list, s.keep)
    } else {
        queued(s, list)
    }
}

/// The covering expert placements.
pub open spec fn on_coverage(s: RunV, scheduled: Seq<OverridesV>, planned: nat, skipped: nat) -> (
    RunV,
    AskV,
) {
    let line = "coverage: scheduled "@ + dec(scheduled.len()) + "/"@ + dec(planned)
        + " MoE configurations ("@ + dec(skipped) + " skipped by budget)"@;
    queued(say(s, line), scheduled)
}

// ---------------------------------------------------------------------------
// Trials
// ---------------------------------------------------------------------------
pub open spec fn trial_line(s: RunV, trial: TrialFacts) -> Seq<char> {
    "trial "@ + dec_int(s.trials) + "/"@ + dec_int(s.plan.params.budget as int) + " ["@
        + phase_name(s.phase) + "] "@ + signature(s.pending) + " -> "@ + summary_text(trial)
}

/// The pending candidate was measured.
pub open spec fn on_trial(s: RunV, trial: TrialFacts) -> (RunV, AskV) {
    let entry = MeasuredV {
        id: s.trials,
        overrides: s.pending,
        phase: s.phase,
        usable: trial.usable,
        oom: trial.oom,
    };
    let t = RunV { history: s.history.push(entry), ..say(s, trial_line(s, trial)) };
    match s.phase {
        Phase::Baseline => on_baseline(t, trial),
        Phase::KvRecovery => if trial.usable {
            recovered(t)
        } else {
            (at_stage(t, Stage::Work), AskV::Proceed)
        },
        Phase::VramFit => on_fit_trial(t, trial),
        Phase::Batching => {
            let pair = batch_of(s.pending);
            let u = if trial.oom {
                RunV { oomed: t.oomed.push((pair.0 as i64, pair.1 as i64)), ..t }
            } else {
                t
            };
            (at_stage(u, Stage::Work), AskV::Proceed)
        },
        _ => (at_stage(t, Stage::Work), AskV::Proceed),
    }
}

/// The baseline was measured.
pub open spec fn on_baseline(s: RunV, trial: TrialFacts) -> (RunV, AskV) {
    let t = RunV {
        facts: BaselineFacts {
            usable: trial.usable,
            needs_memory_recovery: trial.needs_memory_recovery,
            seed_failed: trial.seed_failed,
        },
        previous: trial.score@,
        ..s
    };
    let needs_kv = !trial.usable && trial.needs_kv_recovery;
    if !trial.usable && !trial.needs_memory_recovery && !needs_kv {
        stopped(
            t,
            "stopped: baseline reached no usable measurement and supplied no startup/OOM fit evidence; fix the reported contract/content failure before retuning"@,
        )
    } else if needs_kv {
        (going_to(t, Phase::KvRecovery), AskV::Proceed)
    } else {
        (going_to(t, Phase::VramFit), AskV::Proceed)
    }
}

/// The pending KV pair works.
pub open spec fn recovered(s: RunV) -> (RunV, AskV) {
    let line = "kv-recovery: baseline recovered on KvK="@ + s.pair.k@ + ";KvV="@ + s.pair.v@
        + "; the rest of the run uses it"@;
    let t = RunV { baseline: overlaid(s.baseline, kv_overlay(s.pair)), kv: s.pair, ..say(s, line) };
    (going_to(t, Phase::VramFit), AskV::Proceed)
}

pub open spec fn spill_line(s: RunV, trial: TrialFacts) -> Seq<char> {
    "oracle: "@ + placement_key(s.plan.space.is_moe) + "="@ + dec_int(probe_value(s, s.step))
        + " started but scored "@ + trial.score@ + " against "@ + s.previous
        + " one step earlier — VRAM spilled to system memory; the edge is the step before"@
}

/// A VRAM-fit candidate was measured.
pub open spec fn on_fit_trial(s: RunV, trial: TrialFacts) -> (RunV, AskV) {
    match s.probe {
        Probe::Off => (at_stage(s, Stage::Work), AskV::Proceed),
        Probe::Toward => if !trial.usable {
            probe_done(s)
        } else if trial.spilled {
            probe_done(say(s, spill_line(s, trial)))
        } else {
            (
                RunV { slack: s.step, previous: trial.score@, at: Stage::Work, ..s },
                AskV::Proceed,
            )
        },
        Probe::Away => if trial.usable {
            (going_to(RunV { slack: -s.step, ..s }, Phase::Batching), AskV::Proceed)
        } else {
            (at_stage(s, Stage::Work), AskV::Proceed)
        },
    }
}

// ---------------------------------------------------------------------------
// Verification
// ---------------------------------------------------------------------------
/// The history is rescored.
pub open spec fn on_stability(s: RunV, groups: nat) -> (RunV, AskV) {
    let t = if groups > 0 {
        say(
            s,
            "stability: "@ + dec(groups) + " config group(s) carry cross-phase variance data"@,
        )
    } else {
        s
    };
    (
        RunV { attempts: 0, at: Stage::Attempt, ..say(t, phase_line(Phase::Verify)) },
        AskV::Proceed,
    )
}

pub open spec fn unverified(s: RunV) -> (RunV, AskV) {
    stopped(s, "stopped: no candidate passed a fresh usable verification trial"@)
}

/// One verification attempt, while attempts and budget last.
pub open spec fn attempted(s: RunV) -> (RunV, AskV) {
    if s.attempts >= MAX_VERIFICATION_ATTEMPTS || s.trials >= s.plan.params.budget {
        unverified(s)
    } else {
        asked_beam(s)
    }
}

pub open spec fn profile_name(profile: ScoreProfile) -> Seq<char> {
    match profile {
        ScoreProfile::Pure => "pure"@,
        ScoreProfile::Balanced => "balanced"@,
        ScoreProfile::Both => "best-of"@,
    }
}

/// The best candidate was measured afresh.
pub open spec fn on_verification(s: RunV, trial: TrialFacts) -> (RunV, AskV) {
    let sig = signature(s.pending);
    if trial.usable {
        let line = "winner: "@ + sig + " ("@ + profile_name(s.plan.params.profile) + " = "@
            + s.previous + ", verified: true)"@;
        (
            RunV { winner: Some(s.pending), at: Stage::Finished, ..say(s, line) },
            AskV::Finished,
        )
    } else {
        let line = "verify failed for "@ + sig + " -> "@ + summary_text(trial)
            + "; dropping it and retrying"@;
        (
            RunV {
                history: without_signature(s.history, sig),
                at: Stage::Attempt,
                ..say(s, line)
            },
            AskV::Proceed,
        )
    }
}

// ---------------------------------------------------------------------------
// The transition
// ---------------------------------------------------------------------------
/// One transition. A reply that the run does not wait for changes nothing.
#[verifier::opaque]
pub open spec fn stepped(s: RunV, reply: Reply) -> (RunV, AskV) {
    match (s.at, reply) {
        (Stage::Start, Reply::Proceed) => started(s),
        (Stage::Enter, Reply::Proceed) => entered(s),
        (Stage::Work, Reply::Proceed) => worked(s),
        (Stage::Attempt, Reply::Proceed) => attempted(s),
        (Stage::AwaitFit, Reply::Placement(fit)) => on_fit(s, fit),
        (Stage::AwaitAppraisal, Reply::Appraisal(rejection, fit)) => on_appraisal(
            s,
            rejection,
            fit,
        ),
        (Stage::AwaitTrial, Reply::Trial(trial)) => on_trial(s, trial),
        (Stage::AwaitPairs, Reply::KvPairs(pairs)) => on_pairs(s, pairs@),
        (Stage::AwaitCoverage, Reply::MoeCoverage(list, planned, skipped)) => on_coverage(
            s,
            all_views(list@),
            planned as nat,
            skipped as nat,
        ),
        (Stage::AwaitDense, Reply::Worklist(list)) => queued(
            s,
            under_each(s.baseline, all_views(list@)),
        ),
        (Stage::AwaitBeam, Reply::Beam(ids, score)) => on_beam(s, ids@, score@),
        (Stage::AwaitPlacements, Reply::Placements(fits)) => placed(
            s,
            refitted_each(s.queue, fits@, s.plan.space.is_moe, s.slack),
        ),
        (Stage::AwaitRejections, Reply::Rejections(flags)) => split(
            s,
            flagged(s.queue, flags@, false),
            flagged(s.queue, flags@, true),
        ),
        (Stage::AwaitOrder, Reply::Order(order)) => on_order(s, order),
        (Stage::AwaitExpansion, Reply::Worklist(list)) => on_expansion(s, all_views(list@)),
        (Stage::AwaitRefineValues, Reply::RefineValues(fine, edge)) => on_refine_values(
            s,
            fine@,
            edge@,
        ),
        (Stage::AwaitStability, Reply::Stability(groups)) => on_stability(s, groups as nat),
        (Stage::AwaitVerification, Reply::Trial(trial)) => on_verification(s, trial),
        _ => (s, AskV::Proceed),
    }
}

/// The run before its first transition.
pub open spec fn initial(plan: SearchPlan) -> RunV {
    RunV {
        plan,
        at: Stage::Start,
        phase: Phase::Baseline,
        trials: 0,
        history: seq![],
        seen: seq![],
        gate: None,
        ranked: seq![],
        slack: 0,
        edge: None,
        baseline: kv_overlay(plan.params.baseline_kv),
        kv: plan.params.baseline_kv,
        facts: BaselineFacts { usable: false, needs_memory_recovery: false, seed_failed: false },
        probe: Probe::Off,
        step: 0,
        previous: seq![],
        queue: seq![],
        parents: seq![],
        pairs: seq![],
        pair: plan.params.baseline_kv,
        oomed: seq![],
        pending: seq![],
        invalid: seq![],
        keep: 0,
        stable: seq![],
        attempts: 0,
        winner: None,
        lines: seq![],
    }
}

/// What holds of every run between transitions.
pub open spec fn sound(s: RunV) -> bool {
    let share = search_share(s.plan.params.budget as int);
    &&& 0 <= s.trials <= larger(s.plan.params.budget as int, 1)
    &&& -SLACK_LIMIT <= s.slack <= SLACK_LIMIT
    &&& 0 <= s.step <= SLACK_LIMIT
    &&& s.edge matches Some(e) ==> e <= i64::MAX - SLACK_LIMIT && (s.plan.space.is_moe ==> e >= 0)
    &&& s.probe != Probe::Off ==> s.edge is Some && edge_value(s) >= 0
    &&& 0 <= s.attempts <= MAX_VERIFICATION_ATTEMPTS
    &&& 0 <= s.keep
    &&& s.phase != Phase::Verify ==> s.trials <= share
    &&& s.at == Stage::AwaitAppraisal ==> s.phase != Phase::Verify && s.trials < share && (
    s.gate matches Some(g) && g.phase == s.phase && s.trials < g.ceiling)
    &&& s.at == Stage::AwaitBeam && s.phase == Phase::Verify ==> s.trials < s.plan.params.budget
        && s.attempts < MAX_VERIFICATION_ATTEMPTS
    &&& s.at == Stage::Start || s.at == Stage::AwaitFit ==> s.phase == Phase::Baseline && s.trials
        == 0 && s.probe == Probe::Off
    &&& s.phase == Phase::Verify ==> s.at == Stage::Enter || s.at == Stage::AwaitStability || s.at
        == Stage::Attempt || s.at == Stage::AwaitBeam || s.at == Stage::AwaitVerification || s.at
        == Stage::Finished
    &&& s.phase != Phase::Verify ==> s.at != Stage::AwaitStability && s.at != Stage::Attempt && s.at
        != Stage::AwaitVerification
}

/// The run after a sequence of replies.
pub open spec fn after(plan: SearchPlan, replies: Seq<Reply>) -> RunV
    decreases replies.len(),
{
    if replies.len() == 0 {
        initial(plan)
    } else {
        stepped(after(plan, replies.drop_last()), replies.last()).0
    }
}

} // verus!
