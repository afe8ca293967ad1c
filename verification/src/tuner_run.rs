//! The search, executable: one method per transition of the model.
use vstd::prelude::*;
use vstd::string::StringExecFns;

#[allow(unused_imports)]
use crate::overrides::{
    all_views, copy_all, join_overrides, signature, Overrides, OverridesV, Setting,
};
#[allow(unused_imports)]
use crate::text::{dec_i64, dec_u64, views};
#[allow(unused_imports)]
use crate::tuner::{
    batching_dominated, ceiling_after, memory_flag_overlays, oracle_note, placement_key,
    refit_for_shape, search_budget_of, trial_summary, with_number, FitPlacement, KvPair, Phase,
    ScoreProfile, TrialFacts, KV_RECOVERY_MAX_TRIALS, MAX_VERIFICATION_ATTEMPTS, NGRAM_SPEC_TYPE,
    ORACLE_PROBE_STEPS, ORACLE_RECOVERY_STEPS, ORACLE_REFINE_RADIUS, SCREEN_KEEP, SCREEN_MIN_SAVED,
    SLACK_LIMIT,
};
#[allow(unused_imports)]
use crate::tuner_model::{
    after, asked_beam, at_stage, attempted, batch_grid, batch_of, batch_row, batched, beam_of,
    beam_width_of, committed, considered, edge_value, entered, entered_fit, expanded_parent,
    find_id, first, fit_in_range, flagged, fresh, gate_of, gated, going_to, history_views, initial,
    keys_of, known_ids, merged, near, next_phase, offered, on_appraisal, on_baseline, on_beam,
    on_coverage, on_expansion, on_fit, on_fit_trial, on_order, on_pairs, on_refine_values,
    on_stability, on_trial, on_verification, other_pairs, passed_over, phase_line, phase_overlays,
    picked, placed, probe_done, probed, queued, recovered, refitted_each, reply_in_range, say,
    seen_key, sound, split, stable_placements, started, stepped, stopped, under_each, with_each,
    with_pairs, without_signature, worked, Ask, AskV, BaselineFacts, Measured, MeasuredV,
    PhaseGate, Probe, Reply, RunV, SearchPlan, Stage, TunerAids, TunerParams,
};

verus! {

// ---------------------------------------------------------------------------
// Lists
// ---------------------------------------------------------------------------
fn holds(list: &Vec<String>, key: &String) -> (r: bool)
    ensures
        r == views(list@).contains(key@),
{
    let mut i: usize = 0;
    while i < list.len()
        invariant
            i <= list.len(),
            forall|k: int| 0 <= k < i ==> (#[trigger] views(list@)[k]) != key@,
        decreases list.len() - i,
    {
        if list[i] == *key {
            assert(views(list@)[i as int] == key@);
            return true;
        }
        assert(views(list@)[i as int] == list@[i as int]@);
        i = i + 1;
    }
    false
}

fn push_string(list: &mut Vec<String>, s: String)
    ensures
        views(final(list)@) == views(old(list)@).push(s@),
{
    list.push(s);
    assert(views(list@) =~= views(old(list)@).push(s@));
}

fn push_overrides(list: &mut Vec<Overrides>, o: Overrides)
    ensures
        all_views(final(list)@) == all_views(old(list)@).push(o@),
{
    list.push(o);
    assert(all_views(list@) =~= all_views(old(list)@).push(o@));
}

fn take_overrides(list: &mut Vec<Overrides>) -> (out: Overrides)
    requires
        old(list)@.len() > 0,
    ensures
        out@ == all_views(old(list)@)[0],
        all_views(final(list)@) == all_views(old(list)@).skip(1),
{
    let out: Overrides = list.remove(0);
    assert(all_views(list@) =~= all_views(old(list)@).skip(1));
    out
}

fn append_overrides(list: &mut Vec<Overrides>, more: &Vec<Overrides>)
    ensures
        all_views(final(list)@) == all_views(old(list)@) + all_views(more@),
{
    let ghost start = all_views(list@);
    let mut i: usize = 0;
    assert(start + all_views(more@).take(0) =~= start);
    while i < more.len()
        invariant
            i <= more.len(),
            all_views(list@) == start + all_views(more@).take(i as int),
        decreases more.len() - i,
    {
        push_overrides(list, more[i].copy());
        proof {
            assert(all_views(more@).take(i + 1) =~= all_views(more@).take(i as int).push(
                all_views(more@)[i as int],
            ));
            assert(all_views(list@) =~= start + all_views(more@).take(i + 1));
        }
        i = i + 1;
    }
    assert(all_views(more@).take(more.len() as int) =~= all_views(more@));
}

fn copy_numbers(list: &Vec<i64>) -> (out: Vec<i64>)
    ensures
        out@ == list@,
{
    let mut out: Vec<i64> = Vec::new();
    let mut i: usize = 0;
    while i < list.len()
        invariant
            i <= list.len(),
            out@ == list@.take(i as int),
        decreases list.len() - i,
    {
        out.push(list[i]);
        i = i + 1;
    }
    assert(list@.take(list.len() as int) =~= list@);
    out
}

fn batch_pair(o: &Overrides) -> (out: (i64, i64))
    ensures
        out.0 == batch_of(o@).0,
        out.1 == batch_of(o@).1,
{
    let ub: i64 = match o.number("UbatchSize") {
        Some(n) => n,
        None => 0,
    };
    let b: i64 = match o.number("BatchSize") {
        Some(n) => n,
        None => 0,
    };
    (ub, b)
}

fn grid_of(parent: &Overrides, ubs: &Vec<i64>, batches: &Vec<i64>) -> (out: Vec<Overrides>)
    ensures
        all_views(out@) == batch_grid(parent@, ubs@, batches@),
{
    let mut out: Vec<Overrides> = Vec::new();
    let mut i: usize = 0;
    assert(all_views(out@) =~= Seq::<OverridesV>::empty());
    while i < ubs.len()
        invariant
            i <= ubs.len(),
            all_views(out@) == batch_grid(parent@, ubs@.take(i as int), batches@),
        decreases ubs.len() - i,
    {
        let ub: i64 = ubs[i];
        let ghost done = all_views(out@);
        let mut j: usize = 0;
        assert(done + batch_row(parent@, ub, batches@.take(0)) =~= done);
        while j < batches.len()
            invariant
                j <= batches.len(),
                all_views(out@) == done + batch_row(parent@, ub, batches@.take(j as int)),
            decreases batches.len() - j,
        {
            let b: i64 = batches[j];
            let ghost row = batch_row(parent@, ub, batches@.take(j as int));
            proof {
                assert(batches@.take(j + 1).drop_last() =~= batches@.take(j as int));
                assert(batches@.take(j + 1).last() == b);
            }
            if b >= ub {
                let sizes: Overrides = Overrides::new().with("UbatchSize", Setting::Number(ub)).with(
                    "BatchSize",
                    Setting::Number(b),
                );
                push_overrides(&mut out, join_overrides(parent, &sizes));
                assert(all_views(out@) =~= done + row.push(batched(parent@, ub as int, b as int)));
            }
            j = j + 1;
        }
        proof {
            assert(batches@.take(batches.len() as int) =~= batches@);
            assert(ubs@.take(i + 1).drop_last() =~= ubs@.take(i as int));
            assert(ubs@.take(i + 1).last() == ub);
        }
        i = i + 1;
    }
    assert(ubs@.take(ubs.len() as int) =~= ubs@);
    out
}

fn each_number(parent: &Overrides, key: &str, values: &Vec<i64>) -> (out: Vec<Overrides>)
    ensures
        all_views(out@) == with_each(parent@, key@, values@),
{
    let mut out: Vec<Overrides> = Vec::new();
    let mut i: usize = 0;
    while i < values.len()
        invariant
            i <= values.len(),
            all_views(out@) =~= with_each(parent@, key@, values@).take(i as int),
        decreases values.len() - i,
    {
        push_overrides(&mut out, with_number(parent, key, values[i]));
        i = i + 1;
    }
    out
}

fn each_pair(parent: &Overrides, pairs: &Vec<KvPair>) -> (out: Vec<Overrides>)
    ensures
        all_views(out@) == with_pairs(parent@, pairs@),
{
    let mut out: Vec<Overrides> = Vec::new();
    let mut i: usize = 0;
    while i < pairs.len()
        invariant
            i <= pairs.len(),
            all_views(out@) =~= with_pairs(parent@, pairs@).take(i as int),
        decreases pairs.len() - i,
    {
        push_overrides(&mut out, join_overrides(parent, &pairs[i].overlay()));
        i = i + 1;
    }
    out
}

fn each_overlay(base: &Overrides, overlays: &Vec<Overrides>) -> (out: Vec<Overrides>)
    ensures
        all_views(out@) == under_each(base@, all_views(overlays@)),
{
    let mut out: Vec<Overrides> = Vec::new();
    let mut i: usize = 0;
    while i < overlays.len()
        invariant
            i <= overlays.len(),
            all_views(out@) =~= under_each(base@, all_views(overlays@)).take(i as int),
        decreases overlays.len() - i,
    {
        push_overrides(&mut out, join_overrides(base, &overlays[i]));
        i = i + 1;
    }
    out
}

fn near_values(values: &Vec<i64>, current: i64) -> (out: Vec<i64>)
    ensures
        out@ == near(values@, current as int),
{
    let mut out: Vec<i64> = Vec::new();
    let mut i: usize = 0;
    while i < values.len()
        invariant
            i <= values.len(),
            out@ == near(values@.take(i as int), current as int),
        decreases values.len() - i,
    {
        let v: i64 = values[i];
        proof {
            assert(values@.take(i + 1).drop_last() =~= values@.take(i as int));
            assert(values@.take(i + 1).last() == v);
        }
        let distance: i128 = v as i128 - current as i128;
        if -(ORACLE_REFINE_RADIUS as i128) <= distance && distance <= ORACLE_REFINE_RADIUS as i128 {
            out.push(v);
        }
        i = i + 1;
    }
    assert(values@.take(values.len() as int) =~= values@);
    out
}

fn merged_values(values: &Vec<i64>, more: &Vec<i64>) -> (out: Vec<i64>)
    ensures
        out@ == merged(values@, more@),
{
    let mut out: Vec<i64> = copy_numbers(values);
    let mut i: usize = 0;
    while i < more.len()
        invariant
            i <= more.len(),
            out@ == merged(values@, more@.take(i as int)),
        decreases more.len() - i,
    {
        let v: i64 = more[i];
        proof {
            assert(more@.take(i + 1).drop_last() =~= more@.take(i as int));
            assert(more@.take(i + 1).last() == v);
        }
        let mut known: bool = false;
        let mut j: usize = 0;
        while j < out.len()
            invariant
                j <= out.len(),
                known == out@.take(j as int).contains(v),
            decreases out.len() - j,
        {
            proof {
                assert(out@.take(j + 1) =~= out@.take(j as int).push(out@[j as int]));
                assert(out@.take(j + 1)[j as int] == out@[j as int]);
                if out@.take(j as int).contains(v) {
                    let k = choose|k: int| 0 <= k < j && out@.take(j as int)[k] == v;
                    assert(out@.take(j + 1)[k] == v);
                }
            }
            if out[j] == v {
                known = true;
            }
            j = j + 1;
        }
        assert(out@.take(out.len() as int) =~= out@);
        if !known {
            out.push(v);
        }
        i = i + 1;
    }
    assert(more@.take(more.len() as int) =~= more@);
    out
}

fn alternatives(pairs: &Vec<KvPair>, kv: &KvPair) -> (out: Vec<KvPair>)
    ensures
        out@ == first(other_pairs(pairs@, *kv), KV_RECOVERY_MAX_TRIALS as int),
{
    let mut out: Vec<KvPair> = Vec::new();
    let mut i: usize = 0;
    while i < pairs.len()
        invariant
            i <= pairs.len(),
            out@ == other_pairs(pairs@.take(i as int), *kv),
        decreases pairs.len() - i,
    {
        proof {
            assert(pairs@.take(i + 1).drop_last() =~= pairs@.take(i as int));
            assert(pairs@.take(i + 1).last() == pairs@[i as int]);
        }
        if !pairs[i].same(kv) {
            out.push(pairs[i].copy());
        }
        i = i + 1;
    }
    assert(pairs@.take(pairs.len() as int) =~= pairs@);
    if out.len() > KV_RECOVERY_MAX_TRIALS {
        out.truncate(KV_RECOVERY_MAX_TRIALS);
    }
    out
}

fn located(history: &Vec<Measured>, id: i64) -> (out: Option<usize>)
    ensures
        match out {
            Some(i) => i < history@.len() && find_id(history_views(history@), id as int) == Some(
                history@[i as int]@,
            ),
            None => find_id(history_views(history@), id as int) is None,
        },
{
    let mut i: usize = history.len();
    assert(history_views(history@).take(history.len() as int) =~= history_views(history@));
    while i > 0
        invariant
            i <= history.len(),
            find_id(history_views(history@), id as int) == find_id(
                history_views(history@).take(i as int),
                id as int,
            ),
        decreases i,
    {
        let ghost part = history_views(history@).take(i as int);
        assert(part.last() == history@[i - 1]@);
        assert(part.drop_last() =~= history_views(history@).take(i - 1));
        if history[i - 1].id == id {
            return Some(i - 1);
        }
        i = i - 1;
    }
    None
}

fn beam_members(history: &Vec<Measured>, ids: &Vec<i64>) -> (out: (Vec<i64>, Vec<Overrides>))
    ensures
        out.0@ == known_ids(history_views(history@), ids@),
        all_views(out.1@) == beam_of(history_views(history@), ids@),
{
    let mut known: Vec<i64> = Vec::new();
    let mut members: Vec<Overrides> = Vec::new();
    let mut i: usize = 0;
    assert(all_views(members@) =~= Seq::<OverridesV>::empty());
    while i < ids.len()
        invariant
            i <= ids.len(),
            known@ == known_ids(history_views(history@), ids@.take(i as int)),
            all_views(members@) == beam_of(history_views(history@), ids@.take(i as int)),
        decreases ids.len() - i,
    {
        proof {
            assert(ids@.take(i + 1).drop_last() =~= ids@.take(i as int));
            assert(ids@.take(i + 1).last() == ids@[i as int]);
        }
        match located(history, ids[i]) {
            Some(at) => {
                known.push(ids[i]);
                push_overrides(&mut members, history[at].overrides.copy());
            },
            None => {},
        }
        i = i + 1;
    }
    assert(ids@.take(ids.len() as int) =~= ids@);
    (known, members)
}

fn stable_values(history: &Vec<Measured>) -> (out: Vec<i64>)
    ensures
        out@ == stable_placements(history_views(history@)),
{
    let mut out: Vec<i64> = Vec::new();
    let mut i: usize = 0;
    while i < history.len()
        invariant
            i <= history.len(),
            out@ == stable_placements(history_views(history@).take(i as int)),
        decreases history.len() - i,
    {
        proof {
            let all = history_views(history@);
            assert(all.take(i + 1).drop_last() =~= all.take(i as int));
            assert(all.take(i + 1).last() == history@[i as int]@);
        }
        if history[i].usable {
            match history[i].overrides.number("NCpuMoe") {
                Some(n) => {
                    out.push(n);
                },
                None => {},
            }
        }
        i = i + 1;
    }
    assert(history_views(history@).take(history.len() as int) =~= history_views(history@));
    out
}

fn drop_signature(history: Vec<Measured>, sig: &String) -> (out: Vec<Measured>)
    ensures
        history_views(out@) == without_signature(history_views(history@), sig@),
{
    let mut out: Vec<Measured> = Vec::new();
    let mut i: usize = 0;
    assert(history_views(out@) =~= Seq::<MeasuredV>::empty());
    while i < history.len()
        invariant
            i <= history.len(),
            history_views(out@) == without_signature(history_views(history@).take(i as int), sig@),
        decreases history.len() - i,
    {
        proof {
            let all = history_views(history@);
            assert(all.take(i + 1).drop_last() =~= all.take(i as int));
            assert(all.take(i + 1).last() == history@[i as int]@);
        }
        let here: String = history[i].overrides.candidate_signature();
        if here != *sig {
            let ghost was = history_views(out@);
            let kept: Measured = Measured {
                id: history[i].id,
                overrides: history[i].overrides.copy(),
                phase: history[i].phase,
                usable: history[i].usable,
                oom: history[i].oom,
            };
            out.push(kept);
            assert(history_views(out@) =~= was.push(history@[i as int]@));
        }
        i = i + 1;
    }
    assert(history_views(history@).take(history.len() as int) =~= history_views(history@));
    out
}

fn overlays_of(plan: &SearchPlan, phase: Phase) -> (out: Vec<Overrides>)
    ensures
        all_views(out@) == phase_overlays(*plan, phase),
{
    match phase {
        Phase::FlashAttn => {
            let mut out: Vec<Overrides> = Vec::new();
            out.push(Overrides::new().with("FlashAttn", Setting::Flag(true)));
            out.push(Overrides::new().with("FlashAttn", Setting::Flag(false)));
            assert(all_views(out@) =~= phase_overlays(*plan, phase));
            out
        },
        Phase::MemoryFlags => memory_flag_overlays(plan.space.mmap_recommendation),
        Phase::CacheFlags => copy_all(&plan.space.cache_overlays),
        Phase::SpecNgram => {
            let mut out: Vec<Overrides> = Vec::new();
            out.push(Overrides::new().with("SpecType", Setting::Text(NGRAM_SPEC_TYPE.to_string())));
            assert(all_views(out@) =~= phase_overlays(*plan, phase));
            out
        },
        _ => {
            let out: Vec<Overrides> = Vec::new();
            assert(all_views(out@) =~= phase_overlays(*plan, phase));
            out
        },
    }
}

fn key_text(phase: Phase, o: &Overrides) -> (out: String)
    ensures
        out@ == seen_key(phase, o@),
{
    let mut out: String = phase.name().to_string();
    out.append("|");
    out.append(o.candidate_signature().as_str());
    out
}

fn phase_text(phase: Phase) -> (out: String)
    ensures
        out@ == phase_line(phase),
{
    let mut out: String = "phase: ".to_string();
    out.append(phase.name());
    out
}

fn placement_name(is_moe: bool) -> (out: &'static str)
    ensures
        out@ == placement_key(is_moe),
{
    if is_moe {
        "NCpuMoe"
    } else {
        "NGpuLayers"
    }
}

fn following(phase: Phase) -> (out: Phase)
    ensures
        out == next_phase(phase),
{
    match phase {
        Phase::Baseline => Phase::VramFit,
        Phase::KvRecovery => Phase::VramFit,
        Phase::VramFit => Phase::Batching,
        Phase::Batching => Phase::FlashAttn,
        Phase::FlashAttn => Phase::MemoryFlags,
        Phase::MemoryFlags => Phase::CacheFlags,
        Phase::CacheFlags => Phase::Threads,
        Phase::Threads => Phase::KvTypes,
        Phase::KvTypes => Phase::SpecNgram,
        Phase::SpecNgram => Phase::Refine,
        Phase::Refine => Phase::Verify,
        Phase::Verify => Phase::Verify,
    }
}

fn split_by(list: &Vec<Overrides>, flags: &Vec<bool>, value: bool) -> (out: Vec<Overrides>)
    ensures
        all_views(out@) == flagged(all_views(list@), flags@, value),
{
    let mut out: Vec<Overrides> = Vec::new();
    let mut i: usize = 0;
    assert(all_views(out@) =~= Seq::<OverridesV>::empty());
    while i < list.len()
        invariant
            i <= list.len(),
            all_views(out@) == flagged(all_views(list@).take(i as int), flags@, value),
        decreases list.len() - i,
    {
        proof {
            let all = all_views(list@);
            assert(all.take(i + 1).drop_last() =~= all.take(i as int));
            assert(all.take(i + 1).last() == list@[i as int]@);
        }
        let flag: bool = i < flags.len() && flags[i];
        if flag == value {
            push_overrides(&mut out, list[i].copy());
        }
        i = i + 1;
    }
    assert(all_views(list@).take(list.len() as int) =~= all_views(list@));
    out
}

fn pick(list: &Vec<Overrides>, order: &Vec<usize>, keep: usize) -> (out: Vec<Overrides>)
    ensures
        all_views(out@) == picked(all_views(list@), first(order@, keep as int)),
{
    let mut out: Vec<Overrides> = Vec::new();
    let limit: usize = if order.len() <= keep {
        order.len()
    } else {
        keep
    };
    let ghost chosen = first(order@, keep as int);
    assert(chosen =~= order@.take(limit as int));
    let mut i: usize = 0;
    assert(all_views(out@) =~= Seq::<OverridesV>::empty());
    assert(chosen.take(0) =~= Seq::<usize>::empty());
    while i < limit
        invariant
            i <= limit <= order.len(),
            chosen == order@.take(limit as int),
            all_views(out@) == picked(all_views(list@), chosen.take(i as int)),
        decreases limit - i,
    {
        proof {
            assert(chosen.take(i + 1).drop_last() =~= chosen.take(i as int));
            assert(chosen.take(i + 1).last() == order@[i as int]);
        }
        let at: usize = order[i];
        if at < list.len() {
            push_overrides(&mut out, list[at].copy());
        }
        i = i + 1;
    }
    assert(chosen.take(limit as int) =~= chosen);
    out
}

// ---------------------------------------------------------------------------
// The run
// ---------------------------------------------------------------------------
/// A run of the search.
pub struct TunerRun {
    plan: SearchPlan,
    at: Stage,
    phase: Phase,
    trials: i64,
    history: Vec<Measured>,
    seen: Vec<String>,
    gate: Option<PhaseGate>,
    ranked: Vec<String>,
    slack: i64,
    edge: Option<i64>,
    baseline: Overrides,
    kv: KvPair,
    facts: BaselineFacts,
    probe: Probe,
    step: i64,
    previous: String,
    queue: Vec<Overrides>,
    parents: Vec<Overrides>,
    pairs: Vec<KvPair>,
    pair: KvPair,
    oomed: Vec<(i64, i64)>,
    pending: Overrides,
    invalid: Vec<Overrides>,
    keep: usize,
    stable: Vec<i64>,
    attempts: i64,
    winner: Option<Overrides>,
    lines: Vec<String>,
}

impl View for TunerRun {
    type V = RunV;

    closed spec fn view(&self) -> RunV {
        RunV {
            plan: self.plan,
            at: self.at,
            phase: self.phase,
            trials: self.trials as int,
            history: history_views(self.history@),
            seen: views(self.seen@),
            gate: self.gate,
            ranked: views(self.ranked@),
            slack: self.slack as int,
            edge: self.edge,
            baseline: self.baseline@,
            kv: self.kv,
            facts: self.facts,
            probe: self.probe,
            step: self.step as int,
            previous: self.previous@,
            queue: all_views(self.queue@),
            parents: all_views(self.parents@),
            pairs: self.pairs@,
            pair: self.pair,
            oomed: self.oomed@,
            pending: self.pending@,
            invalid: all_views(self.invalid@),
            keep: self.keep as int,
            stable: self.stable@,
            attempts: self.attempts as int,
            winner: match self.winner {
                Some(w) => Some(w@),
                None => None,
            },
            lines: views(self.lines@),
        }
    }
}

/// What a finished run hands over.
#[derive(Debug, PartialEq, Eq)]
pub struct TunerOutcome {
    pub winner: Overrides,
    /// Trials actually measured.
    pub trials: i64,
    /// The winner re-measured cleanly in the verification phase.
    pub verified: bool,
    /// The beam width that produced this winner.
    pub beam_width: usize,
}

/// A run of the search that neither a fitter nor a bench bounds.
pub fn run_tuner(params: TunerParams, space: crate::tuner_model::SearchSpace) -> (run: TunerRun)
    ensures
        run@ == initial(SearchPlan { params, space, aids: TunerAids { oracle: false, screen: false } }),
        sound(run@),
{
    run_tuner_with(params, space, TunerAids { oracle: false, screen: false })
}

/// A run of the search, with a memory fitter and a bench bounding it where
/// `aids` says so.
pub fn run_tuner_with(
    params: TunerParams,
    space: crate::tuner_model::SearchSpace,
    aids: TunerAids,
) -> (run: TunerRun)
    ensures
        run@ == initial(SearchPlan { params, space, aids }),
        sound(run@),
{
    let kv: KvPair = params.baseline_kv.copy();
    let pair: KvPair = params.baseline_kv.copy();
    let baseline: Overrides = params.baseline_kv.overlay();
    let run: TunerRun = TunerRun {
        plan: SearchPlan { params, space, aids },
        at: Stage::Start,
        phase: Phase::Baseline,
        trials: 0,
        history: Vec::new(),
        seen: Vec::new(),
        gate: None,
        ranked: Vec::new(),
        slack: 0,
        edge: None,
        baseline,
        kv,
        facts: BaselineFacts { usable: false, needs_memory_recovery: false, seed_failed: false },
        probe: Probe::Off,
        step: 0,
        previous: String::new(),
        queue: Vec::new(),
        parents: Vec::new(),
        pairs: Vec::new(),
        pair,
        oomed: Vec::new(),
        pending: Overrides::new(),
        invalid: Vec::new(),
        keep: 0,
        stable: Vec::new(),
        attempts: 0,
        winner: None,
        lines: Vec::new(),
    };
    assert(run@ =~= initial(run.plan));
    run
}

impl TunerRun {
    /// The run's progress lines so far.
    pub fn lines(&self) -> (out: &Vec<String>)
        ensures
            views(out@) == self@.lines,
    {
        &self.lines
    }

    /// Where the run stands.
    pub fn stage(&self) -> (out: Stage)
        ensures
            out == self@.at,
    {
        self.at
    }

    /// The measured candidates.
    pub fn history(&self) -> (out: &Vec<Measured>)
        ensures
            history_views(out@) == self@.history,
    {
        &self.history
    }

    /// The verified winner of a run that has one, with what it took.
    pub fn outcome(&self) -> (out: Option<TunerOutcome>)
        ensures
            match out {
                Some(o) => self@.winner == Some(o.winner@) && o.trials == self@.trials
                    && o.verified && o.beam_width == beam_width_of(self@.plan),
                None => self@.winner is None,
            },
    {
        match &self.winner {
            Some(w) => Some(
                TunerOutcome {
                    winner: w.copy(),
                    trials: self.trials,
                    verified: true,
                    beam_width: self.width(),
                },
            ),
            None => None,
        }
    }

    fn width(&self) -> (out: usize)
        ensures
            out == beam_width_of(self@.plan),
    {
        if self.plan.params.beam_width >= 1 {
            self.plan.params.beam_width
        } else {
            1
        }
    }

    fn say(&mut self, line: String)
        ensures
            final(self)@ == say(old(self)@, line@),
    {
        push_string(&mut self.lines, line);
    }

    fn stop(&mut self, line: &str) -> (ask: Ask)
        ensures
            final(self)@ == stopped(old(self)@, line@).0,
            ask@ == stopped(old(self)@, line@).1,
    {
        self.say(line.to_string());
        self.at = Stage::Finished;
        Ask::Finished
    }

    fn go(&mut self, phase: Phase) -> (ask: Ask)
        ensures
            final(self)@ == going_to(old(self)@, phase),
            ask@ == AskV::Proceed,
    {
        self.phase = phase;
        self.at = Stage::Enter;
        Ask::Proceed
    }

    fn work_on(&mut self) -> (ask: Ask)
        ensures
            final(self)@ == at_stage(old(self)@, Stage::Work),
            ask@ == AskV::Proceed,
    {
        self.at = Stage::Work;
        Ask::Proceed
    }

    fn gate(&mut self) -> (open: bool)
        requires
            sound(old(self)@),
        ensures
            final(self)@ == gated(old(self)@).0,
            open == gated(old(self)@).1,
    {
        let share: i64 = search_budget_of(self.plan.params.budget);
        if self.trials >= share {
            return false;
        }
        let own: Option<PhaseGate> = match self.gate {
            Some(g) => if g.phase == self.phase {
                Some(g)
            } else {
                None
            },
            None => None,
        };
        let g: PhaseGate = match own {
            Some(g) => g,
            None => PhaseGate {
                phase: self.phase,
                ceiling: ceiling_after(self.phase.after(), self.trials, share),
                announced: false,
            },
        };
        assert(g == gate_of(old(self)@));
        if self.trials < g.ceiling {
            self.gate = Some(g);
            true
        } else if g.announced {
            self.gate = Some(g);
            false
        } else {
            self.gate = Some(PhaseGate { phase: g.phase, ceiling: g.ceiling, announced: true });
            let mut line: String = "phase ".to_string();
            line.append(self.phase.name());
            line.append(": reserve reached at ");
            line.append(dec_i64(self.trials).as_str());
            line.append(" trials; its remaining candidates go unmeasured so later phases can run");
            self.say(line);
            false
        }
    }

    fn probe_done(&mut self) -> (ask: Ask)
        ensures
            final(self)@ == probe_done(old(self)@).0,
            ask@ == probe_done(old(self)@).1,
    {
        let edge: i64 = match self.edge {
            Some(e) => e,
            None => 0,
        };
        let mut line: String = "oracle: this host runs ".to_string();
        line.append(dec_i64(self.slack).as_str());
        line.append(" step(s) past the fitted ");
        line.append(placement_name(self.plan.space.is_moe));
        line.append("=");
        line.append(dec_i64(edge).as_str());
        self.say(line);
        self.go(Phase::Batching)
    }

    fn pass_over(&mut self) -> (ask: Ask)
        ensures
            final(self)@ == passed_over(old(self)@).0,
            ask@ == passed_over(old(self)@).1,
    {
        if self.phase == Phase::VramFit && self.probe == Probe::Toward {
            self.probe_done()
        } else {
            self.work_on()
        }
    }

    fn commit(&mut self, c: Overrides) -> (ask: Ask)
        requires
            old(self)@.trials < i64::MAX,
        ensures
            final(self)@ == committed(old(self)@, c@).0,
            ask@ == committed(old(self)@, c@).1,
    {
        let key: String = key_text(self.phase, &c);
        if holds(&self.seen, &key) {
            self.pass_over()
        } else {
            push_string(&mut self.seen, key);
            self.trials = self.trials + 1;
            self.pending = c.copy();
            self.at = Stage::AwaitTrial;
            Ask::Trial(c, self.phase)
        }
    }

    fn consider(&mut self, c: Overrides) -> (ask: Ask)
        requires
            sound(old(self)@),
        ensures
            final(self)@ == considered(old(self)@, c@).0,
            ask@ == considered(old(self)@, c@).1,
    {
        if !self.gate() {
            return self.pass_over();
        }
        if self.edge.is_some() && self.phase != Phase::Baseline && self.phase != Phase::VramFit {
            self.pending = c.copy();
            self.at = Stage::AwaitAppraisal;
            Ask::Appraisal(c)
        } else {
            self.commit(c)
        }
    }

    fn on_appraisal(&mut self, rejection: Option<String>, fit: Option<FitPlacement>) -> (ask: Ask)
        requires
            sound(old(self)@),
            old(self)@.at == Stage::AwaitAppraisal,
            fit_in_range(fit),
        ensures
            final(self)@ == on_appraisal(old(self)@, rejection, fit).0,
            ask@ == on_appraisal(old(self)@, rejection, fit).1,
    {
        match rejection {
            Some(reason) => {
                let sig: String = self.pending.candidate_signature();
                let mut key: String = self.phase.name().to_string();
                key.append("|rejected|");
                key.append(sig.as_str());
                if holds(&self.seen, &key) {
                    self.pass_over()
                } else {
                    push_string(&mut self.seen, key);
                    let mut line: String = "oracle [".to_string();
                    line.append(self.phase.name());
                    line.append("]: skipped ");
                    line.append(sig.as_str());
                    line.append(" — llama.cpp cannot create it: ");
                    line.append(reason.as_str());
                    self.say(line);
                    self.pass_over()
                }
            },
            None => {
                match fit {
                    Some(f) => {
                        match refit_for_shape(
                            &f,
                            &self.pending,
                            self.plan.space.is_moe,
                            self.slack,
                        ) {
                            Some((adjusted, note)) => {
                                let mut line: String = "oracle [".to_string();
                                line.append(self.phase.name());
                                line.append("]: ");
                                line.append(note.as_str());
                                self.say(line);
                                self.commit(adjusted)
                            },
                            None => {
                                let c: Overrides = self.pending.copy();
                                self.commit(c)
                            },
                        }
                    },
                    None => {
                        let c: Overrides = self.pending.copy();
                        self.commit(c)
                    },
                }
            },
        }
    }

    fn enqueue(&mut self, list: Vec<Overrides>) -> (ask: Ask)
        ensures
            final(self)@ == queued(old(self)@, all_views(list@)).0,
            ask@ == queued(old(self)@, all_views(list@)).1,
    {
        self.queue = list;
        self.at = Stage::Work;
        Ask::Proceed
    }

    fn offer(&mut self, list: Vec<Overrides>, keep: usize) -> (ask: Ask)
        ensures
            final(self)@ == offered(old(self)@, all_views(list@), keep as int).0,
            ask@ == offered(old(self)@, all_views(list@), keep as int).1,
    {
        if !self.plan.aids.screen {
            self.enqueue(list)
        } else if self.edge.is_some() {
            self.queue = copy_all(&list);
            self.keep = keep;
            self.at = Stage::AwaitPlacements;
            Ask::Placements(list)
        } else {
            self.keep = keep;
            self.place(list)
        }
    }

    fn unseen(&self, list: &Vec<Overrides>) -> (out: Vec<Overrides>)
        ensures
            all_views(out@) == fresh(self@, all_views(list@)),
    {
        let mut out: Vec<Overrides> = Vec::new();
        let mut i: usize = 0;
        assert(all_views(out@) =~= Seq::<OverridesV>::empty());
        while i < list.len()
            invariant
                i <= list.len(),
                all_views(out@) == fresh(self@, all_views(list@).take(i as int)),
            decreases list.len() - i,
        {
            proof {
                let all = all_views(list@);
                assert(all.take(i + 1).drop_last() =~= all.take(i as int));
                assert(all.take(i + 1).last() == list@[i as int]@);
            }
            let key: String = key_text(self.phase, &list[i]);
            let sig: String = list[i].candidate_signature();
            let mut known: bool = holds(&self.seen, &key) || holds(&self.ranked, &key);
            let ghost listed = views(self.seen@).contains(key@) || views(self.ranked@).contains(key@);
            let mut j: usize = 0;
            while j < out.len()
                invariant
                    j <= out.len(),
                    known == (listed || exists|k: int|
                        0 <= k < j && signature(#[trigger] all_views(out@)[k]) == sig@),
                decreases out.len() - j,
            {
                let other: String = out[j].candidate_signature();
                assert(all_views(out@)[j as int] == out@[j as int]@);
                if other == sig {
                    assert(signature(all_views(out@)[j as int]) == sig@);
                    known = true;
                }
                j = j + 1;
            }
            if !known {
                push_overrides(&mut out, list[i].copy());
            }
            i = i + 1;
        }
        assert(all_views(list@).take(list.len() as int) =~= all_views(list@));
        out
    }

    fn place(&mut self, list: Vec<Overrides>) -> (ask: Ask)
        ensures
            final(self)@ == placed(old(self)@, all_views(list@)).0,
            ask@ == placed(old(self)@, all_views(list@)).1,
    {
        let unique: Vec<Overrides> = self.unseen(&list);
        if self.edge.is_some() {
            self.queue = copy_all(&unique);
            self.at = Stage::AwaitRejections;
            Ask::Rejections(unique)
        } else {
            let none: Vec<Overrides> = Vec::new();
            assert(all_views(none@) =~= Seq::<OverridesV>::empty());
            self.split(unique, none)
        }
    }

    fn split(&mut self, valid: Vec<Overrides>, invalid: Vec<Overrides>) -> (ask: Ask)
        ensures
            final(self)@ == split(old(self)@, all_views(valid@), all_views(invalid@)).0,
            ask@ == split(old(self)@, all_views(valid@), all_views(invalid@)).1,
    {
        if valid.len() < SCREEN_MIN_SAVED || valid.len() - SCREEN_MIN_SAVED < self.keep {
            let mut list: Vec<Overrides> = valid;
            append_overrides(&mut list, &invalid);
            self.enqueue(list)
        } else {
            self.queue = copy_all(&valid);
            self.invalid = invalid;
            self.at = Stage::AwaitOrder;
            Ask::Order(valid)
        }
    }

    fn on_placements(&mut self, fits: &Vec<Option<FitPlacement>>) -> (ask: Ask)
        requires
            sound(old(self)@),
            forall|i: int| 0 <= i < fits@.len() ==> fit_in_range(#[trigger] fits@[i]),
        ensures
            ({
                let list = refitted_each(
                    old(self)@.queue,
                    fits@,
                    old(self)@.plan.space.is_moe,
                    old(self)@.slack,
                );
                &&& final(self)@ == placed(old(self)@, list).0
                &&& ask@ == placed(old(self)@, list).1
            }),
    {
        let ghost wanted = refitted_each(self@.queue, fits@, self@.plan.space.is_moe, self@.slack);
        let mut list: Vec<Overrides> = Vec::new();
        let mut i: usize = 0;
        while i < self.queue.len()
            invariant
                i <= self.queue.len(),
                -SLACK_LIMIT <= self.slack <= SLACK_LIMIT,
                forall|i: int| 0 <= i < fits@.len() ==> fit_in_range(#[trigger] fits@[i]),
                wanted == refitted_each(
                    all_views(self.queue@),
                    fits@,
                    self.plan.space.is_moe,
                    self.slack as int,
                ),
                all_views(list@) =~= wanted.take(i as int),
            decreases self.queue.len() - i,
        {
            let mut c: Overrides = self.queue[i].copy();
            if i < fits.len() {
                match &fits[i] {
                    Some(f) => {
                        assert(fit_in_range(fits@[i as int]));
                        match refit_for_shape(
                            f,
                            &self.queue[i],
                            self.plan.space.is_moe,
                            self.slack,
                        ) {
                            Some((adjusted, _)) => {
                                c = adjusted;
                            },
                            None => {},
                        }
                    },
                    None => {},
                }
            }
            assert(c@ == wanted[i as int]);
            push_overrides(&mut list, c);
            i = i + 1;
        }
        assert(all_views(list@) =~= wanted);
        self.place(list)
    }

    fn on_order(&mut self, order: Option<Vec<usize>>) -> (ask: Ask)
        ensures
            final(self)@ == on_order(old(self)@, order).0,
            ask@ == on_order(old(self)@, order).1,
    {
        let ghost s = self@;
        let mut line: String = "screen [".to_string();
        line.append(self.phase.name());
        match order {
            Some(o) => {
                line.append("]: llama-bench ranked ");
                line.append(dec_u64(self.queue.len() as u64).as_str());
                line.append(" candidates; measuring the top ");
                line.append(dec_u64(self.keep as u64).as_str());
                let mut list: Vec<Overrides> = pick(&self.queue, &o, self.keep);
                append_overrides(&mut list, &self.invalid);
                let mut i: usize = 0;
                let ghost keys = keys_of(s.phase, s.queue);
                assert(s.ranked + keys.take(0) =~= s.ranked);
                while i < self.queue.len()
                    invariant
                        i <= self.queue.len(),
                        keys == keys_of(s.phase, s.queue),
                        self@ == (RunV { ranked: s.ranked + keys.take(i as int), ..s }),
                        all_views(self.queue@) == s.queue,
                        self.phase == s.phase,
                    decreases self.queue.len() - i,
                {
                    let key: String = key_text(self.phase, &self.queue[i]);
                    let ghost was = views(self.ranked@);
                    push_string(&mut self.ranked, key);
                    proof {
                        assert(keys[i as int] == key@);
                        assert(keys.take(i + 1) =~= keys.take(i as int).push(key@));
                        assert(was.push(key@) =~= s.ranked + keys.take(i + 1));
                    }
                    i = i + 1;
                }
                assert(keys.take(i as int) =~= keys);
                self.say(line);
                self.enqueue(list)
            },
            None => {
                line.append("]: llama-bench gave no answer; measuring all ");
                line.append(dec_u64(self.queue.len() as u64).as_str());
                let mut list: Vec<Overrides> = copy_all(&self.queue);
                append_overrides(&mut list, &self.invalid);
                self.say(line);
                self.enqueue(list)
            },
        }
    }

    fn start(&mut self) -> (ask: Ask)
        requires
            sound(old(self)@),
            old(self)@.at == Stage::Start,
        ensures
            final(self)@ == started(old(self)@).0,
            ask@ == started(old(self)@).1,
    {
        let mut line: String = "search: beam width ".to_string();
        line.append(dec_u64(self.width() as u64).as_str());
        self.say(line);
        if self.plan.aids.oracle {
            self.at = Stage::AwaitFit;
            Ask::Placement(self.baseline.copy())
        } else {
            self.on_fit(None)
        }
    }

    fn on_fit(&mut self, fit: Option<FitPlacement>) -> (ask: Ask)
        requires
            sound(old(self)@),
            old(self)@.at == Stage::Start || old(self)@.at == Stage::AwaitFit,
            fit_in_range(fit),
        ensures
            final(self)@ == on_fit(old(self)@, fit).0,
            ask@ == on_fit(old(self)@, fit).1,
    {
        let is_moe: bool = self.plan.space.is_moe;
        let mut edge: Option<i64> = None;
        match &fit {
            Some(f) => {
                let line: String = oracle_note(f, is_moe);
                self.say(line);
                edge = Some(
                    if is_moe {
                        f.n_cpu_moe as i64
                    } else {
                        f.gpu_layers
                    },
                );
            },
            None => {
                if self.plan.aids.oracle {
                    self.say(
                        "oracle: llama-fit-params gave no answer; searching the placement by trial".to_string(),
                    );
                }
            },
        }
        if is_moe {
            let n: i64 = match edge {
                Some(e) => e,
                None => self.plan.space.baseline_n_cpu_moe,
            };
            self.baseline = with_number(&self.baseline, "NCpuMoe", n);
        } else {
            match edge {
                Some(e) => {
                    if e >= 0 {
                        self.baseline = with_number(&self.baseline, "NGpuLayers", e);
                    }
                },
                None => {},
            }
        }
        self.edge = edge;
        self.phase = Phase::Baseline;
        let line: String = phase_text(Phase::Baseline);
        self.say(line);
        let c: Overrides = self.baseline.copy();
        self.consider(c)
    }

    fn ask_beam(&mut self) -> (ask: Ask)
        ensures
            final(self)@ == asked_beam(old(self)@).0,
            ask@ == asked_beam(old(self)@).1,
    {
        self.at = Stage::AwaitBeam;
        Ask::Beam(self.width())
    }

    fn enter(&mut self) -> (ask: Ask)
        requires
            sound(old(self)@),
        ensures
            final(self)@ == entered(old(self)@).0,
            ask@ == entered(old(self)@).1,
    {
        match self.phase {
            Phase::Baseline => Ask::Proceed,
            Phase::KvRecovery => {
                let line: String = phase_text(self.phase);
                self.say(line);
                self.at = Stage::AwaitPairs;
                Ask::KvPairs(self.plan.params.baseline_kv.copy())
            },
            Phase::VramFit => {
                let line: String = phase_text(self.phase);
                self.say(line);
                self.enter_fit()
            },
            Phase::Batching => self.ask_beam(),
            Phase::FlashAttn | Phase::MemoryFlags | Phase::CacheFlags => {
                let line: String = phase_text(self.phase);
                self.say(line);
                let overlays: Vec<Overrides> = overlays_of(&self.plan, self.phase);
                if overlays.len() == 0 {
                    let mut note: String = self.phase.name().to_string();
                    note.append(
                        ": skipped — not enough free RAM to load or lock this model in memory",
                    );
                    self.say(note);
                    let next: Phase = following(self.phase);
                    self.go(next)
                } else {
                    self.ask_beam()
                }
            },
            Phase::Threads | Phase::KvTypes => {
                let line: String = phase_text(self.phase);
                self.say(line);
                self.ask_beam()
            },
            Phase::SpecNgram => {
                if self.plan.params.spec_ngram {
                    let line: String = phase_text(self.phase);
                    self.say(line);
                    self.ask_beam()
                } else {
                    let next: Phase = following(self.phase);
                    self.go(next)
                }
            },
            Phase::Refine => {
                let line: String = phase_text(self.phase);
                self.say(line);
                if self.plan.space.is_moe {
                    self.stable = stable_values(&self.history);
                    self.ask_beam()
                } else {
                    let next: Phase = following(self.phase);
                    self.go(next)
                }
            },
            Phase::Verify => {
                self.at = Stage::AwaitStability;
                Ask::Stability
            },
        }
    }

    fn enter_fit(&mut self) -> (ask: Ask)
        requires
            sound(old(self)@),
            old(self)@.phase == Phase::VramFit,
        ensures
            final(self)@ == entered_fit(old(self)@).0,
            ask@ == entered_fit(old(self)@).1,
    {
        let is_moe: bool = self.plan.space.is_moe;
        self.step = 0;
        self.probe = Probe::Off;
        match self.edge {
            Some(edge) => {
                if !is_moe && edge < 0 {
                    self.go(Phase::Batching)
                } else if self.facts.usable {
                    self.probe = Probe::Toward;
                    self.work_on()
                } else if self.facts.needs_memory_recovery {
                    let mut line: String = "oracle miss: ".to_string();
                    line.append(placement_name(is_moe));
                    line.append("=");
                    line.append(dec_i64(edge).as_str());
                    line.append(" did not start; backing off one step at a time");
                    self.say(line);
                    self.probe = Probe::Away;
                    self.work_on()
                } else {
                    self.go(Phase::Batching)
                }
            },
            None => {
                if is_moe {
                    let share: i64 = search_budget_of(self.plan.params.budget);
                    let ceiling: i64 = ceiling_after(Phase::VramFit.after(), self.trials, share);
                    self.at = Stage::AwaitCoverage;
                    Ask::MoeCoverage {
                        recovery: self.facts.needs_memory_recovery || self.facts.seed_failed,
                        kv: self.kv.copy(),
                        baseline: self.baseline.copy(),
                        budget: ceiling - self.trials,
                    }
                } else if self.facts.needs_memory_recovery {
                    self.at = Stage::AwaitDense;
                    Ask::DenseRecovery(self.kv.copy())
                } else {
                    self.go(Phase::Batching)
                }
            },
        }
    }

    fn probe_step(&mut self) -> (ask: Ask)
        requires
            sound(old(self)@),
            old(self)@.phase == Phase::VramFit,
            old(self)@.probe != Probe::Off,
        ensures
            final(self)@ == probed(old(self)@).0,
            ask@ == probed(old(self)@).1,
    {
        let step: i64 = self.step + 1;
        let toward: bool = self.probe == Probe::Toward;
        let limit: i64 = if toward {
            ORACLE_PROBE_STEPS
        } else {
            ORACLE_RECOVERY_STEPS
        };
        let edge: i64 = match self.edge {
            Some(e) => e,
            None => 0,
        };
        let up: bool = toward != self.plan.space.is_moe;
        let value: i128 = if up {
            edge as i128 + step as i128
        } else {
            edge as i128 - step as i128
        };
        let (lower, upper): (i128, i128) = if self.plan.space.is_moe {
            (0i128, self.plan.space.moe_upper as i128)
        } else if self.plan.space.block_count >= 1 {
            (1i128, self.plan.space.block_count as i128 + 1)
        } else {
            (1i128, 2i128)
        };
        if step > limit || value < lower || value > upper {
            if toward {
                self.probe_done()
            } else {
                self.go(Phase::Batching)
            }
        } else {
            self.step = step;
            let c: Overrides = with_number(
                &self.baseline,
                placement_name(self.plan.space.is_moe),
                value as i64,
            );
            self.consider(c)
        }
    }

    fn work(&mut self) -> (ask: Ask)
        requires
            sound(old(self)@),
            old(self)@.at == Stage::Work,
        ensures
            final(self)@ == worked(old(self)@).0,
            ask@ == worked(old(self)@).1,
    {
        if self.phase == Phase::KvRecovery {
            if self.pairs.len() == 0 {
                self.stop(
                    "stopped: the baseline failed on content and every allowed KV cache pair failed the same way; the model or engine, not the KV cache type, is what needs fixing",
                )
            } else {
                let ghost pairs = self.pairs@;
                self.pair = self.pairs.remove(0);
                assert(self.pairs@ =~= pairs.skip(1));
                let c: Overrides = join_overrides(&self.baseline, &self.pair.overlay());
                self.consider(c)
            }
        } else if self.phase == Phase::VramFit && self.probe != Probe::Off {
            self.probe_step()
        } else if self.queue.len() > 0 {
            let c: Overrides = take_overrides(&mut self.queue);
            let batch: (i64, i64) = batch_pair(&c);
            if self.phase == Phase::Batching && batching_dominated(
                batch.0,
                batch.1,
                self.oomed.as_slice(),
            ) {
                Ask::Proceed
            } else {
                self.consider(c)
            }
        } else if self.parents.len() > 0 {
            let parent: Overrides = take_overrides(&mut self.parents);
            self.expand_parent(parent)
        } else {
            let next: Phase = following(self.phase);
            self.go(next)
        }
    }

    fn expand_parent(&mut self, parent: Overrides) -> (ask: Ask)
        ensures
            final(self)@ == expanded_parent(old(self)@, parent@).0,
            ask@ == expanded_parent(old(self)@, parent@).1,
    {
        match self.phase {
            Phase::Batching => {
                self.oomed = Vec::new();
                assert(self.oomed@ =~= seq![]);
                let grid: Vec<Overrides> = grid_of(
                    &parent,
                    &self.plan.space.ubatch_candidates,
                    &self.plan.space.batch_candidates,
                );
                self.offer(grid, SCREEN_KEEP)
            },
            Phase::Threads => {
                match parent.number("NCpuMoe") {
                    Some(n) => {
                        if n > 0 {
                            let list: Vec<Overrides> = each_number(
                                &parent,
                                "Threads",
                                &self.plan.space.thread_candidates,
                            );
                            self.offer(list, SCREEN_KEEP)
                        } else {
                            Ask::Proceed
                        }
                    },
                    None => Ask::Proceed,
                }
            },
            Phase::KvTypes => {
                let list: Vec<Overrides> = each_pair(&parent, &self.pairs);
                self.offer(list, SCREEN_KEEP)
            },
            Phase::Refine => {
                match parent.number("NCpuMoe") {
                    Some(n) => {
                        self.pending = parent;
                        self.at = Stage::AwaitRefineValues;
                        Ask::RefineValues(n, copy_numbers(&self.stable))
                    },
                    None => Ask::Proceed,
                }
            },
            _ => Ask::Proceed,
        }
    }

    fn on_refine_values(&mut self, fine: &Vec<i64>, edge: &Vec<i64>) -> (ask: Ask)
        ensures
            final(self)@ == on_refine_values(old(self)@, fine@, edge@).0,
            ask@ == on_refine_values(old(self)@, fine@, edge@).1,
    {
        match self.pending.number("NCpuMoe") {
            Some(current) => {
                let values: Vec<i64> = if self.edge.is_some() {
                    near_values(fine, current)
                } else {
                    merged_values(fine, edge)
                };
                let list: Vec<Overrides> = each_number(&self.pending, "NCpuMoe", &values);
                self.enqueue(list)
            },
            None => self.work_on(),
        }
    }

    fn on_pairs(&mut self, pairs: Vec<KvPair>) -> (ask: Ask)
        ensures
            final(self)@ == on_pairs(old(self)@, pairs@).0,
            ask@ == on_pairs(old(self)@, pairs@).1,
    {
        if self.phase == Phase::KvRecovery {
            let others: Vec<KvPair> = alternatives(&pairs, &self.plan.params.baseline_kv);
            let none: bool = others.len() == 0;
            self.pairs = others;
            self.at = Stage::Work;
            if none {
                self.say(
                    "kv-recovery: the allowed KV cache set offers no alternative to the baseline pair".to_string(),
                );
            }
            Ask::Proceed
        } else {
            self.pairs = pairs;
            self.work_on()
        }
    }

    fn on_beam(&mut self, ids: &Vec<i64>, score: String) -> (ask: Ask)
        requires
            sound(old(self)@),
            old(self)@.at == Stage::AwaitBeam,
        ensures
            final(self)@ == on_beam(old(self)@, ids@, score@).0,
            ask@ == on_beam(old(self)@, ids@, score@).1,
    {
        let (known, beam): (Vec<i64>, Vec<Overrides>) = beam_members(&self.history, ids);
        match self.phase {
            Phase::Batching => {
                if beam.len() == 0 {
                    self.stop(
                        "stopped: the startup/OOM recovery ladder produced no usable measurement",
                    )
                } else {
                    let line: String = phase_text(self.phase);
                    self.say(line);
                    self.parents = beam;
                    self.work_on()
                }
            },
            Phase::FlashAttn | Phase::MemoryFlags | Phase::CacheFlags | Phase::SpecNgram => {
                self.keep = if beam.len() >= 1 {
                    beam.len()
                } else {
                    1
                };
                self.at = Stage::AwaitExpansion;
                Ask::Expansion(known, overlays_of(&self.plan, self.phase))
            },
            Phase::Threads | Phase::Refine => {
                self.parents = beam;
                self.work_on()
            },
            Phase::KvTypes => {
                self.parents = beam;
                self.at = Stage::AwaitPairs;
                Ask::KvPairs(self.kv.copy())
            },
            Phase::Verify => {
                if beam.len() == 0 {
                    self.stop("stopped: no candidate passed a fresh usable verification trial")
                } else {
                    self.pending = beam[0].copy();
                    self.previous = score;
                    self.trials = self.trials + 1;
                    self.attempts = self.attempts + 1;
                    self.at = Stage::AwaitVerification;
                    Ask::Trial(beam[0].copy(), Phase::Verify)
                }
            },
            _ => Ask::Proceed,
        }
    }

    fn on_expansion(&mut self, list: Vec<Overrides>) -> (ask: Ask)
        ensures
            final(self)@ == on_expansion(old(self)@, all_views(list@)).0,
            ask@ == on_expansion(old(self)@, all_views(list@)).1,
    {
        if self.phase == Phase::FlashAttn {
            let keep: usize = self.keep;
            self.offer(list, keep)
        } else {
            self.enqueue(list)
        }
    }

    fn on_coverage(&mut self, scheduled: Vec<Overrides>, planned: u64, skipped: u64) -> (ask: Ask)
        ensures
            final(self)@ == on_coverage(
                old(self)@,
                all_views(scheduled@),
                planned as nat,
                skipped as nat,
            ).0,
            ask@ == on_coverage(
                old(self)@,
                all_views(scheduled@),
                planned as nat,
                skipped as nat,
            ).1,
    {
        let mut line: String = "coverage: scheduled ".to_string();
        line.append(dec_u64(scheduled.len() as u64).as_str());
        line.append("/");
        line.append(dec_u64(planned).as_str());
        line.append(" MoE configurations (");
        line.append(dec_u64(skipped).as_str());
        line.append(" skipped by budget)");
        self.say(line);
        self.enqueue(scheduled)
    }

    fn on_trial(&mut self, trial: TrialFacts) -> (ask: Ask)
        requires
            sound(old(self)@),
        ensures
            final(self)@ == on_trial(old(self)@, trial).0,
            ask@ == on_trial(old(self)@, trial).1,
    {
        let mut line: String = "trial ".to_string();
        line.append(dec_i64(self.trials).as_str());
        line.append("/");
        line.append(dec_i64(self.plan.params.budget).as_str());
        line.append(" [");
        line.append(self.phase.name());
        line.append("] ");
        line.append(self.pending.candidate_signature().as_str());
        line.append(" -> ");
        line.append(trial_summary(&trial).as_str());
        self.say(line);
        let ghost was = history_views(self.history@);
        let entry: Measured = Measured {
            id: self.trials,
            overrides: self.pending.copy(),
            phase: self.phase,
            usable: trial.usable,
            oom: trial.oom,
        };
        self.history.push(entry);
        assert(history_views(self.history@) =~= was.push(entry@));
        match self.phase {
            Phase::Baseline => self.on_baseline(trial),
            Phase::KvRecovery => {
                if trial.usable {
                    self.recover()
                } else {
                    self.work_on()
                }
            },
            Phase::VramFit => self.on_fit_trial(trial),
            Phase::Batching => {
                if trial.oom {
                    let batch: (i64, i64) = batch_pair(&self.pending);
                    self.oomed.push(batch);
                }
                self.work_on()
            },
            _ => self.work_on(),
        }
    }

    fn on_baseline(&mut self, trial: TrialFacts) -> (ask: Ask)
        ensures
            final(self)@ == on_baseline(old(self)@, trial).0,
            ask@ == on_baseline(old(self)@, trial).1,
    {
        self.facts = BaselineFacts {
            usable: trial.usable,
            needs_memory_recovery: trial.needs_memory_recovery,
            seed_failed: trial.seed_failed,
        };
        self.previous = trial.score;
        let needs_kv: bool = !trial.usable && trial.needs_kv_recovery;
        if !trial.usable && !trial.needs_memory_recovery && !needs_kv {
            self.stop(
                "stopped: baseline reached no usable measurement and supplied no startup/OOM fit evidence; fix the reported contract/content failure before retuning",
            )
        } else if needs_kv {
            self.go(Phase::KvRecovery)
        } else {
            self.go(Phase::VramFit)
        }
    }

    fn recover(&mut self) -> (ask: Ask)
        ensures
            final(self)@ == recovered(old(self)@).0,
            ask@ == recovered(old(self)@).1,
    {
        let mut line: String = "kv-recovery: baseline recovered on KvK=".to_string();
        line.append(self.pair.k.as_str());
        line.append(";KvV=");
        line.append(self.pair.v.as_str());
        line.append("; the rest of the run uses it");
        self.say(line);
        self.baseline = join_overrides(&self.baseline, &self.pair.overlay());
        self.kv = self.pair.copy();
        self.go(Phase::VramFit)
    }

    fn on_fit_trial(&mut self, trial: TrialFacts) -> (ask: Ask)
        requires
            0 <= old(self)@.step <= SLACK_LIMIT,
            0 <= edge_value(old(self)@) <= i64::MAX - SLACK_LIMIT || old(self)@.probe == Probe::Off,
        ensures
            final(self)@ == on_fit_trial(old(self)@, trial).0,
            ask@ == on_fit_trial(old(self)@, trial).1,
    {
        match self.probe {
            Probe::Off => self.work_on(),
            Probe::Toward => {
                if !trial.usable {
                    self.probe_done()
                } else if trial.spilled {
                    let edge: i64 = match self.edge {
                        Some(e) => e,
                        None => 0,
                    };
                    let value: i64 = if self.plan.space.is_moe {
                        edge - self.step
                    } else {
                        edge + self.step
                    };
                    let mut line: String = "oracle: ".to_string();
                    line.append(placement_name(self.plan.space.is_moe));
                    line.append("=");
                    line.append(dec_i64(value).as_str());
                    line.append(" started but scored ");
                    line.append(trial.score.as_str());
                    line.append(" against ");
                    line.append(self.previous.as_str());
                    line.append(
                        " one step earlier — VRAM spilled to system memory; the edge is the step before",
                    );
                    self.say(line);
                    self.probe_done()
                } else {
                    self.slack = self.step;
                    self.previous = trial.score;
                    self.work_on()
                }
            },
            Probe::Away => {
                if trial.usable {
                    self.slack = -self.step;
                    self.go(Phase::Batching)
                } else {
                    self.work_on()
                }
            },
        }
    }

    fn on_stability(&mut self, groups: u64) -> (ask: Ask)
        ensures
            final(self)@ == on_stability(old(self)@, groups as nat).0,
            ask@ == on_stability(old(self)@, groups as nat).1,
    {
        if groups > 0 {
            let mut line: String = "stability: ".to_string();
            line.append(dec_u64(groups).as_str());
            line.append(" config group(s) carry cross-phase variance data");
            self.say(line);
        }
        let line: String = phase_text(Phase::Verify);
        self.say(line);
        self.attempts = 0;
        self.at = Stage::Attempt;
        Ask::Proceed
    }

    fn attempt(&mut self) -> (ask: Ask)
        ensures
            final(self)@ == attempted(old(self)@).0,
            ask@ == attempted(old(self)@).1,
    {
        if self.attempts >= MAX_VERIFICATION_ATTEMPTS || self.trials >= self.plan.params.budget {
            self.stop("stopped: no candidate passed a fresh usable verification trial")
        } else {
            self.ask_beam()
        }
    }

    fn on_verification(&mut self, trial: TrialFacts) -> (ask: Ask)
        ensures
            final(self)@ == on_verification(old(self)@, trial).0,
            ask@ == on_verification(old(self)@, trial).1,
    {
        let sig: String = self.pending.candidate_signature();
        if trial.usable {
            let mut line: String = "winner: ".to_string();
            line.append(sig.as_str());
            line.append(" (");
            line.append(
                match self.plan.params.profile {
                    ScoreProfile::Pure => "pure",
                    ScoreProfile::Balanced => "balanced",
                    ScoreProfile::Both => "best-of",
                },
            );
            line.append(" = ");
            line.append(self.previous.as_str());
            line.append(", verified: true)");
            self.say(line);
            self.winner = Some(self.pending.copy());
            self.at = Stage::Finished;
            Ask::Finished
        } else {
            let mut line: String = "verify failed for ".to_string();
            line.append(sig.as_str());
            line.append(" -> ");
            line.append(trial_summary(&trial).as_str());
            line.append("; dropping it and retrying");
            self.say(line);
            let mut history: Vec<Measured> = Vec::new();
            std::mem::swap(&mut history, &mut self.history);
            self.history = drop_signature(history, &sig);
            self.at = Stage::Attempt;
            Ask::Proceed
        }
    }

    /// One transition: take the driver's reply, hand back the next question.
    /// A reply that the run does not wait for changes nothing.
    pub fn step(&mut self, reply: Reply) -> (ask: Ask)
        requires
            sound(old(self)@),
            reply_in_range(reply),
        ensures
            final(self)@ == stepped(old(self)@, reply).0,
            ask@ == stepped(old(self)@, reply).1,
            sound(final(self)@),
    {
        proof {
            crate::tuner_laws::law_every_transition_is_disciplined(self@, reply);
            reveal(stepped);
        }
        match (self.at, reply) {
            (Stage::Start, Reply::Proceed) => self.start(),
            (Stage::Enter, Reply::Proceed) => self.enter(),
            (Stage::Work, Reply::Proceed) => self.work(),
            (Stage::Attempt, Reply::Proceed) => self.attempt(),
            (Stage::AwaitFit, Reply::Placement(fit)) => self.on_fit(fit),
            (Stage::AwaitAppraisal, Reply::Appraisal(rejection, fit)) => self.on_appraisal(
                rejection,
                fit,
            ),
            (Stage::AwaitTrial, Reply::Trial(trial)) => self.on_trial(trial),
            (Stage::AwaitPairs, Reply::KvPairs(pairs)) => self.on_pairs(pairs),
            (Stage::AwaitCoverage, Reply::MoeCoverage(list, planned, skipped)) => self.on_coverage(
                list,
                planned,
                skipped,
            ),
            (Stage::AwaitDense, Reply::Worklist(list)) => {
                let joined: Vec<Overrides> = each_overlay(&self.baseline, &list);
                self.enqueue(joined)
            },
            (Stage::AwaitBeam, Reply::Beam(ids, score)) => self.on_beam(&ids, score),
            (Stage::AwaitPlacements, Reply::Placements(fits)) => self.on_placements(&fits),
            (Stage::AwaitRejections, Reply::Rejections(flags)) => {
                let valid: Vec<Overrides> = split_by(&self.queue, &flags, false);
                let invalid: Vec<Overrides> = split_by(&self.queue, &flags, true);
                self.split(valid, invalid)
            },
            (Stage::AwaitOrder, Reply::Order(order)) => self.on_order(order),
            (Stage::AwaitExpansion, Reply::Worklist(list)) => self.on_expansion(list),
            (Stage::AwaitRefineValues, Reply::RefineValues(fine, edge)) => self.on_refine_values(
                &fine,
                &edge,
            ),
            (Stage::AwaitStability, Reply::Stability(groups)) => self.on_stability(groups),
            (Stage::AwaitVerification, Reply::Trial(trial)) => self.on_verification(trial),
            _ => Ask::Proceed,
        }
    }
}

} // verus!
