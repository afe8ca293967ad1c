//! The course of a run: how it starts, recovers, walks the memory edge, screens
//! its candidates and verifies its winner.
use vstd::prelude::*;

#[allow(unused_imports)]
use crate::overrides::{
    all_views, number_of, ordered, overlaid, signature, value_of, Overrides, OverridesV, SettingV,
};
#[allow(unused_imports)]
use crate::tuner::{
    kv_overlay, number_overlay, phase_name, placement_key, FitPlacement, KvPair, Phase, TrialFacts,
};
#[allow(unused_imports)]
use crate::tuner_model::{
    beam_of, first, flagged, fresh, has_signature, initial, other_pairs, picked, probe_value,
    refitted_each, seen_key, stable_placements, stepped, without_signature, AskV, MeasuredV, Probe,
    Reply, RunV, SearchPlan, Stage,
};
#[allow(unused_imports)]
use crate::tuner_moves::{lemma_beam, lemma_keys, lemma_one, lemma_two, with_one, with_two};

verus! {

// ---------------------------------------------------------------------------
// The start
// ---------------------------------------------------------------------------
/// A run without a fitter measures its baseline at once: the model's own KV
/// pair, and for a mixture model the plan's own number of expert blocks on the
/// CPU; nothing else is set.
pub proof fn law_a_run_starts_with_its_baseline(plan: SearchPlan)
    requires
        !plan.aids.oracle,
    ensures
        ({
            let (t, ask) = stepped(initial(plan), Reply::Proceed);
            &&& ask matches AskV::Trial(c, Phase::Baseline) && t.pending == c && t.baseline == c
                && starts_at(c, plan, None)
            &&& t.trials == 1 && t.at == Stage::AwaitTrial && t.edge is None && t.phase
                == Phase::Baseline
        }),
{
    reveal(stepped);
    let s = initial(plan);
    lemma_baseline(plan, plan.space.baseline_n_cpu_moe as int, "NCpuMoe"@);
    assert(s.seen.len() == 0);
}

/// Whether a configuration is a plan's baseline: its KV pair, and the placement
/// that the fitter found, or that the plan has for a mixture model.
pub open spec fn starts_at(c: OverridesV, plan: SearchPlan, fit: Option<FitPlacement>) -> bool {
    let place: Option<int> = match fit {
        Some(f) => if plan.space.is_moe {
            Some(f.n_cpu_moe as int)
        } else if f.gpu_layers >= 0 {
            Some(f.gpu_layers as int)
        } else {
            None
        },
        None => if plan.space.is_moe {
            Some(plan.space.baseline_n_cpu_moe as int)
        } else {
            None
        },
    };
    let key = if plan.space.is_moe {
        "NCpuMoe"@
    } else {
        "NGpuLayers"@
    };
    &&& ordered(c)
    &&& value_of(c, "KvK"@) == Some(SettingV::Text(plan.params.baseline_kv.k@))
    &&& value_of(c, "KvV"@) == Some(SettingV::Text(plan.params.baseline_kv.v@))
    &&& value_of(c, key) == match place {
        Some(n) => Some(SettingV::Number(n)),
        None => None::<SettingV>,
    }
    &&& forall|other: Seq<char>|
        other != "KvK"@ && other != "KvV"@ && other != key ==> #[trigger] value_of(c, other) is None
}

proof fn lemma_baseline(plan: SearchPlan, n: int, key: Seq<char>)
    ensures
        "KvK"@ != "NCpuMoe"@,
        "KvV"@ != "NCpuMoe"@,
        "KvK"@ != "NGpuLayers"@,
        "KvV"@ != "NGpuLayers"@,
        ordered(kv_overlay(plan.params.baseline_kv)),
        with_two(
            kv_overlay(plan.params.baseline_kv),
            Seq::empty(),
            "KvK"@,
            SettingV::Text(plan.params.baseline_kv.k@),
            "KvV"@,
            SettingV::Text(plan.params.baseline_kv.v@),
        ),
        with_one(
            overlaid(kv_overlay(plan.params.baseline_kv), number_overlay(key, n)),
            kv_overlay(plan.params.baseline_kv),
            key,
            SettingV::Number(n),
        ),
        forall|other: Seq<char>| #[trigger] value_of(Seq::empty(), other) is None,
{
    reveal_strlit("KvK");
    reveal_strlit("KvV");
    reveal_strlit("NCpuMoe");
    reveal_strlit("NGpuLayers");
    assert("KvK"@.len() == 3 && "KvV"@.len() == 3 && "NCpuMoe"@.len() == 7 && "NGpuLayers"@.len()
        == 10);
    lemma_keys();
    let none: OverridesV = Seq::empty();
    assert(ordered(none));
    lemma_two(
        none,
        "KvK"@,
        SettingV::Text(plan.params.baseline_kv.k@),
        "KvV"@,
        SettingV::Text(plan.params.baseline_kv.v@),
    );
    lemma_one(kv_overlay(plan.params.baseline_kv), key, SettingV::Number(n));
}

/// A run with a fitter asks it where the KV pair fits, and measures the
/// baseline there: with the fitted expert blocks on the CPU, or the fitted
/// layers on the GPU. Without an answer it starts as one without a fitter.
pub proof fn law_a_fitted_run_starts_where_it_fits(plan: SearchPlan, fit: Option<FitPlacement>)
    requires
        plan.aids.oracle,
    ensures
        ({
            let (s, asked) = stepped(initial(plan), Reply::Proceed);
            let (t, ask) = stepped(s, Reply::Placement(fit));
            let none: OverridesV = Seq::empty();
            &&& asked matches AskV::Placement(c) && with_two(
                c,
                none,
                "KvK"@,
                SettingV::Text(plan.params.baseline_kv.k@),
                "KvV"@,
                SettingV::Text(plan.params.baseline_kv.v@),
            )
            &&& ask matches AskV::Trial(c, Phase::Baseline) && t.pending == c && t.baseline == c
                && starts_at(c, plan, fit)
            &&& t.edge == match fit {
                Some(f) => if plan.space.is_moe {
                    Some(f.n_cpu_moe as i64)
                } else {
                    Some(f.gpu_layers)
                },
                None => None::<i64>,
            }
            &&& t.trials == 1 && t.at == Stage::AwaitTrial && t.phase == Phase::Baseline
        }),
{
    reveal(stepped);
    match fit {
        Some(f) => if plan.space.is_moe {
            lemma_baseline(plan, f.n_cpu_moe as int, "NCpuMoe"@);
        } else {
            lemma_baseline(plan, f.gpu_layers as int, "NGpuLayers"@);
        },
        None => lemma_baseline(plan, plan.space.baseline_n_cpu_moe as int, "NCpuMoe"@),
    }
    assert(initial(plan).seen.len() == 0);
}

/// What the baseline's trial leads to. A usable one, and one that only needs
/// room, lead to the fit; one whose KV pair cannot speak leads to the KV
/// recovery first; one that failed for any other reason ends the run, without a
/// winner.
pub proof fn law_the_baseline_decides_the_way(s: RunV, trial: TrialFacts)
    requires
        s.at == Stage::AwaitTrial,
        s.phase == Phase::Baseline,
        s.winner is None,
    ensures
        ({
            let (t, ask) = stepped(s, Reply::Trial(trial));
            &&& trial.usable ==> t.at == Stage::Enter && t.phase == Phase::VramFit
            &&& !trial.usable && trial.needs_kv_recovery ==> t.at == Stage::Enter && t.phase
                == Phase::KvRecovery
            &&& !trial.usable && !trial.needs_kv_recovery && trial.needs_memory_recovery ==> t.at
                == Stage::Enter && t.phase == Phase::VramFit
            &&& !trial.usable && !trial.needs_kv_recovery && !trial.needs_memory_recovery ==> t.at
                == Stage::Finished && ask == AskV::Finished && t.winner is None
            &&& t.facts.usable == trial.usable && t.facts.needs_memory_recovery
                == trial.needs_memory_recovery && t.facts.seed_failed == trial.seed_failed
            &&& t.previous == trial.score@
            &&& t.trials == s.trials && t.baseline == s.baseline && t.edge == s.edge
        }),
{
    reveal(stepped);
}

// ---------------------------------------------------------------------------
// KV recovery
// ---------------------------------------------------------------------------
proof fn lemma_other_pairs(pairs: Seq<KvPair>, kv: KvPair) -> (places: Seq<int>)
    ensures
        places.len() == other_pairs(pairs, kv).len(),
        forall|i: int|
            0 <= i < places.len() ==> 0 <= #[trigger] places[i] < pairs.len() && other_pairs(
                pairs,
                kv,
            )[i] == pairs[places[i]] && (pairs[places[i]].k@ != kv.k@ || pairs[places[i]].v@
                != kv.v@),
        forall|i: int, j: int| 0 <= i < j < places.len() ==> #[trigger] places[i] < #[trigger] places[j],
        forall|k: int|
            0 <= k < pairs.len() && ((#[trigger] pairs[k]).k@ != kv.k@ || pairs[k].v@ != kv.v@)
                ==> places.contains(k),
    decreases pairs.len(),
{
    if pairs.len() == 0 {
        seq![]
    } else {
        let rest = pairs.drop_last();
        let n = pairs.len() - 1;
        let front = lemma_other_pairs(rest, kv);
        let last = pairs.last();
        let places = if last.k@ == kv.k@ && last.v@ == kv.v@ {
            front
        } else {
            front.push(n)
        };
        assert forall|k: int|
            0 <= k < pairs.len() && ((#[trigger] pairs[k]).k@ != kv.k@ || pairs[k].v@ != kv.v@) implies places.contains(
        k) by {
            if k < n {
                assert(rest[k] == pairs[k]);
                let i = choose|i: int| 0 <= i < front.len() && front[i] == k;
                assert(places[i] == k);
            } else {
                assert(places[front.len() as int] == k);
            }
        }
        assert forall|i: int| 0 <= i < places.len() implies 0 <= #[trigger] places[i] < pairs.len()
            && other_pairs(pairs, kv)[i] == pairs[places[i]] && (pairs[places[i]].k@ != kv.k@
            || pairs[places[i]].v@ != kv.v@) by {
            if i < front.len() {
                assert(places[i] == front[i]);
                assert(rest[front[i]] == pairs[front[i]]);
            }
        }
        places
    }
}

/// The KV recovery asks which pairs the build allows, and tries the first four
/// of them that are not the baseline's own, in their order.
pub proof fn law_the_recovery_tries_four_other_pairs(s: RunV, pairs: Vec<KvPair>) -> (places: Seq<
    int,
>)
    requires
        s.at == Stage::AwaitPairs,
        s.phase == Phase::KvRecovery,
    ensures
        ({
            let (t, ask) = stepped(s, Reply::KvPairs(pairs));
            let kv = s.plan.params.baseline_kv;
            &&& ask == AskV::Proceed && t.at == Stage::Work && t.trials == s.trials && t.phase
                == s.phase
            &&& t.pairs.len() == if places.len() < 4 {
                places.len()
            } else {
                4
            }
            &&& forall|i: int| 0 <= i < t.pairs.len() ==> #[trigger] t.pairs[i] == pairs@[places[i]]
            &&& forall|i: int|
                0 <= i < places.len() ==> 0 <= #[trigger] places[i] < pairs@.len() && (
                pairs@[places[i]].k@ != kv.k@ || pairs@[places[i]].v@ != kv.v@)
            &&& forall|i: int, j: int|
                0 <= i < j < places.len() ==> #[trigger] places[i] < #[trigger] places[j]
            &&& forall|k: int|
                0 <= k < pairs@.len() && ((#[trigger] pairs@[k]).k@ != kv.k@ || pairs@[k].v@
                    != kv.v@) ==> places.contains(k)
        }),
{
    reveal(stepped);
    let places = lemma_other_pairs(pairs@, s.plan.params.baseline_kv);
    let t = stepped(s, Reply::KvPairs(pairs)).0;
    assert forall|i: int| 0 <= i < t.pairs.len() implies #[trigger] t.pairs[i] == pairs@[places[i]] by {
        assert(other_pairs(pairs@, s.plan.params.baseline_kv)[i] == pairs@[places[i]]);
    }
    places
}

/// One step of the KV recovery: the baseline with the next pair is measured; a
/// usable trial makes it the baseline of the rest of the run, and any other
/// leaves the baseline as it was. With no pair left the run ends without a
/// winner.
pub proof fn law_the_recovery_keeps_the_first_pair_that_works(s: RunV, trial: TrialFacts)
    requires
        s.phase == Phase::KvRecovery,
        s.winner is None,
        ordered(s.baseline),
    ensures
        s.at == Stage::Work && s.pairs.len() == 0 ==> {
            let (t, ask) = stepped(s, Reply::Proceed);
            ask == AskV::Finished && t.at == Stage::Finished && t.winner is None
        },
        s.at == Stage::Work && s.pairs.len() > 0 && s.seen.len() == 0 && (s.trials == 0 || 0
            <= s.trials < s.plan.params.budget - 3) && s.edge is None && (s.gate matches Some(g)
            ==> g.phase == s.phase ==> s.trials < g.ceiling) ==> {
            let (t, ask) = stepped(s, Reply::Proceed);
            &&& ask matches AskV::Trial(c, Phase::KvRecovery) && with_two(
                c,
                s.baseline,
                "KvK"@,
                SettingV::Text(s.pairs[0].k@),
                "KvV"@,
                SettingV::Text(s.pairs[0].v@),
            )
            &&& t.pairs == s.pairs.skip(1) && t.pair == s.pairs[0] && t.baseline == s.baseline
        },
        s.at == Stage::AwaitTrial ==> {
            let (t, ask) = stepped(s, Reply::Trial(trial));
            &&& trial.usable ==> t.phase == Phase::VramFit && t.at == Stage::Enter && t.kv == s.pair
                && with_two(
                t.baseline,
                s.baseline,
                "KvK"@,
                SettingV::Text(s.pair.k@),
                "KvV"@,
                SettingV::Text(s.pair.v@),
            )
            &&& !trial.usable ==> t.phase == Phase::KvRecovery && t.at == Stage::Work && t.baseline
                == s.baseline && t.kv == s.kv && t.pairs == s.pairs
        },
{
    reveal(stepped);
    lemma_keys();
    if s.pairs.len() > 0 {
        lemma_two(
            s.baseline,
            "KvK"@,
            SettingV::Text(s.pairs[0].k@),
            "KvV"@,
            SettingV::Text(s.pairs[0].v@),
        );
    }
    lemma_two(
        s.baseline,
        "KvK"@,
        SettingV::Text(s.pair.k@),
        "KvV"@,
        SettingV::Text(s.pair.v@),
    );
}

// ---------------------------------------------------------------------------
// The memory edge
// ---------------------------------------------------------------------------
/// What the fit phase does when it is entered. From a fitted placement it walks
/// toward the GPU if the baseline was usable, away from it if the baseline
/// needed room, and otherwise goes on; a dense model that fits whole has no
/// edge to walk. Without a fitter a mixture model has its placements covered
/// within what the phase may spend, and a dense one is shrunk only if it needed
/// room.
pub proof fn law_the_fit_phase_picks_its_way(s: RunV)
    requires
        s.at == Stage::Enter,
        s.phase == Phase::VramFit,
    ensures
        ({
            let (t, ask) = stepped(s, Reply::Proceed);
            let moe = s.plan.space.is_moe;
            let budget = s.plan.params.budget as int;
            let share = if budget >= 4 {
                budget - 3
            } else {
                1
            };
            &&& t.trials == s.trials && t.history == s.history && t.baseline == s.baseline
                && t.slack == s.slack
            &&& match s.edge {
                Some(edge) => {
                    &&& !moe && edge < 0 ==> t.phase == Phase::Batching && t.at == Stage::Enter
                    &&& (moe || edge >= 0) && s.facts.usable ==> t.phase == Phase::VramFit && t.at
                        == Stage::Work && t.probe == Probe::Toward && t.step == 0
                    &&& (moe || edge >= 0) && !s.facts.usable && s.facts.needs_memory_recovery
                        ==> t.phase == Phase::VramFit && t.at == Stage::Work && t.probe
                        == Probe::Away && t.step == 0
                    &&& !s.facts.usable && !s.facts.needs_memory_recovery ==> t.phase
                        == Phase::Batching && t.at == Stage::Enter
                    &&& ask == AskV::Proceed
                },
                None => {
                    &&& moe ==> t.at == Stage::AwaitCoverage && ask == AskV::MoeCoverage(
                        s.facts.needs_memory_recovery || s.facts.seed_failed,
                        s.kv,
                        s.baseline,
                        if share - 16 > s.trials {
                            share - 16 - s.trials
                        } else {
                            1
                        },
                    )
                    &&& !moe && s.facts.needs_memory_recovery ==> t.at == Stage::AwaitDense && ask
                        == AskV::DenseRecovery(s.kv)
                    &&& !moe && !s.facts.needs_memory_recovery ==> t.phase == Phase::Batching
                        && t.at == Stage::Enter && ask == AskV::Proceed
                },
            }
        }),
{
    reveal(stepped);
}

/// Whether a walk may take one more step: at most two toward the GPU, at most
/// three away, and only to a placement that the model has.
pub open spec fn may_step(s: RunV, value: int) -> bool {
    &&& s.step < if s.probe == Probe::Toward {
        2int
    } else {
        3
    }
    &&& s.plan.space.is_moe ==> 0 <= value <= s.plan.space.moe_upper
    &&& !s.plan.space.is_moe ==> 1 <= value && (value <= s.plan.space.block_count + 1 || value <= 2)
}

/// The walk from the fitted placement goes one step at a time: toward the GPU
/// with one expert block less on the CPU, or one layer more on the GPU; away
/// from it the other way round. Each step is measured with everything else as
/// the baseline has it. A walk that may not go on leaves for the batching.
pub proof fn law_the_walk_goes_step_by_step(s: RunV)
    requires
        s.at == Stage::Work,
        s.phase == Phase::VramFit,
        s.probe != Probe::Off,
        s.edge is Some,
        ordered(s.baseline),
        0 <= s.step,
        0 <= s.trials < s.plan.params.budget - 3,
        s.gate matches Some(g) ==> g.phase == s.phase ==> s.trials < g.ceiling,
        s.seen.len() == 0,
    ensures
        ({
            let (t, ask) = stepped(s, Reply::Proceed);
            let edge = s.edge->Some_0 as int;
            let less = (s.probe == Probe::Toward) == s.plan.space.is_moe;
            let value = if less {
                edge - (s.step + 1)
            } else {
                edge + (s.step + 1)
            };
            let key = if s.plan.space.is_moe {
                "NCpuMoe"@
            } else {
                "NGpuLayers"@
            };
            &&& may_step(s, value) ==> t.step == s.step + 1 && (ask matches AskV::Trial(
                c,
                Phase::VramFit,
            ) && with_one(c, s.baseline, key, SettingV::Number(value)))
            &&& !may_step(s, value) ==> t.phase == Phase::Batching && t.at == Stage::Enter && ask
                == AskV::Proceed && t.trials == s.trials
        }),
{
    reveal(stepped);
    lemma_one(
        s.baseline,
        placement_key(s.plan.space.is_moe),
        SettingV::Number(probe_value(s, s.step + 1)),
    );
}

/// What a step of the walk showed. Toward the GPU, a usable trial that did not
/// spill moves the edge to that step, and the walk goes on; any other ends it
/// with the edge where it was. Away from it, the first usable trial moves the
/// edge back by the steps taken and ends the walk; any other lets it go on.
pub proof fn law_a_step_moves_the_edge(s: RunV, trial: TrialFacts)
    requires
        s.at == Stage::AwaitTrial,
        s.phase == Phase::VramFit,
    ensures
        ({
            let t = stepped(s, Reply::Trial(trial)).0;
            &&& s.probe == Probe::Toward && trial.usable && !trial.spilled ==> t.slack == s.step
                && t.at == Stage::Work && t.phase == Phase::VramFit && t.previous == trial.score@
                && t.step == s.step
            &&& s.probe == Probe::Toward && (!trial.usable || trial.spilled) ==> t.slack == s.slack
                && t.at == Stage::Enter && t.phase == Phase::Batching
            &&& s.probe == Probe::Away && trial.usable ==> t.slack == -s.step && t.at == Stage::Enter
                && t.phase == Phase::Batching
            &&& s.probe == Probe::Away && !trial.usable ==> t.slack == s.slack && t.at == Stage::Work
                && t.phase == Phase::VramFit && t.step == s.step
            &&& s.probe == Probe::Off ==> t.slack == s.slack && t.at == Stage::Work && t.phase
                == Phase::VramFit && t.queue == s.queue
            &&& t.trials == s.trials
        }),
{
    reveal(stepped);
}

/// The covering placements are tried as they came, and what shrinks a dense
/// model is laid over the baseline, one by one.
pub proof fn law_the_fit_phase_tries_what_was_planned(
    s: RunV,
    list: Vec<Overrides>,
    planned: u64,
    skipped: u64,
)
    ensures
        s.at == Stage::AwaitCoverage ==> {
            let (t, ask) = stepped(s, Reply::MoeCoverage(list, planned, skipped));
            &&& ask == AskV::Proceed && t.at == Stage::Work && t.trials == s.trials && t.phase
                == s.phase
            &&& t.queue.len() == list@.len()
            &&& forall|i: int| 0 <= i < list@.len() ==> #[trigger] t.queue[i] == list@[i]@
        },
        s.at == Stage::AwaitDense && ordered(s.baseline) ==> {
            let (t, ask) = stepped(s, Reply::Worklist(list));
            &&& ask == AskV::Proceed && t.at == Stage::Work && t.trials == s.trials && t.phase
                == s.phase
            &&& t.queue.len() == list@.len()
            &&& forall|i: int, key: Seq<char>|
                0 <= i < list@.len() && ordered(list@[i]@) ==> #[trigger] value_of(t.queue[i], key)
                    == match value_of(list@[i]@, key) {
                    Some(v) => Some(v),
                    None => value_of(s.baseline, key),
                }
        },
{
    reveal(stepped);
    if s.at == Stage::AwaitDense && ordered(s.baseline) {
        let t = stepped(s, Reply::Worklist(list)).0;
        assert forall|i: int, key: Seq<char>|
            0 <= i < list@.len() && ordered(list@[i]@) implies #[trigger] value_of(t.queue[i], key)
            == match value_of(list@[i]@, key) {
            Some(v) => Some(v),
            None => value_of(s.baseline, key),
        } by {
            crate::overrides::law_value_after_overlay(s.baseline, list@[i]@, key);
        }
    }
}

/// The placements that are known to hold are those of the usable trials, in
/// the order in which they were measured.
pub proof fn law_stable_placements_are_usable_ones(history: Seq<MeasuredV>) -> (places: Seq<int>)
    requires
        forall|k: int|
            0 <= k < history.len() ==> (number_of((#[trigger] history[k]).overrides, "NCpuMoe"@)
                matches Some(n) ==> i64::MIN <= n <= i64::MAX),
    ensures
        places.len() == stable_placements(history).len(),
        forall|i: int|
            0 <= i < places.len() ==> 0 <= #[trigger] places[i] < history.len()
                && history[places[i]].usable && value_of(history[places[i]].overrides, "NCpuMoe"@)
                == Some(SettingV::Number(stable_placements(history)[i] as int)),
        forall|i: int, j: int| 0 <= i < j < places.len() ==> #[trigger] places[i] < #[trigger] places[j],
        forall|k: int|
            0 <= k < history.len() && (#[trigger] history[k]).usable && number_of(
                history[k].overrides,
                "NCpuMoe"@,
            ) is Some ==> places.contains(k),
    decreases history.len(),
{
    if history.len() == 0 {
        seq![]
    } else {
        let rest = history.drop_last();
        let n = history.len() - 1;
        assert forall|k: int| 0 <= k < rest.len() implies (number_of(
            (#[trigger] rest[k]).overrides,
            "NCpuMoe"@,
        ) matches Some(m) ==> i64::MIN <= m <= i64::MAX) by {
            assert(rest[k] == history[k]);
        }
        let front = law_stable_placements_are_usable_ones(rest);
        let last = history.last();
        assert(last == history[n]);
        let places = if last.usable && number_of(last.overrides, "NCpuMoe"@) is Some {
            front.push(n)
        } else {
            front
        };
        assert forall|k: int|
            0 <= k < history.len() && (#[trigger] history[k]).usable && number_of(
                history[k].overrides,
                "NCpuMoe"@,
            ) is Some implies places.contains(k) by {
            if k < n {
                assert(rest[k] == history[k]);
                let i = choose|i: int| 0 <= i < front.len() && front[i] == k;
                assert(places[i] == k);
            } else {
                assert(places[front.len() as int] == k);
            }
        }
        assert forall|i: int| 0 <= i < places.len() implies 0 <= #[trigger] places[i]
            < history.len() && history[places[i]].usable && value_of(
            history[places[i]].overrides,
            "NCpuMoe"@,
        ) == Some(SettingV::Number(stable_placements(history)[i] as int)) by {
            if i < front.len() {
                assert(places[i] == front[i]);
                assert(rest[front[i]] == history[front[i]]);
            }
        }
        places
    }
}

// ---------------------------------------------------------------------------
// Verification
// ---------------------------------------------------------------------------
/// The verification has the history rescored, then makes at most three
/// attempts, each while the budget has a trial left: each asks for the beam
/// anew and measures its best member afresh.
pub proof fn law_the_best_is_measured_afresh(
    s: RunV,
    groups: u64,
    ids: Vec<i64>,
    score: String,
    at: int,
)
    requires
        s.phase == Phase::Verify,
        s.winner is None,
    ensures
        s.at == Stage::Enter ==> stepped(s, Reply::Proceed).1 == AskV::Stability && stepped(
            s,
            Reply::Proceed,
        ).0.at == Stage::AwaitStability,
        s.at == Stage::AwaitStability ==> stepped(s, Reply::Stability(groups)).0.at
            == Stage::Attempt && stepped(s, Reply::Stability(groups)).0.attempts == 0,
        s.at == Stage::Attempt && s.attempts < 3 && s.trials < s.plan.params.budget ==> stepped(
            s,
            Reply::Proceed,
        ).1 is Beam && stepped(s, Reply::Proceed).0.at == Stage::AwaitBeam,
        s.at == Stage::Attempt && (s.attempts >= 3 || s.trials >= s.plan.params.budget)
            ==> stepped(s, Reply::Proceed).0.at == Stage::Finished && stepped(
            s,
            Reply::Proceed,
        ).0.winner is None,
        s.at == Stage::AwaitBeam && ids@.len() == 0 ==> stepped(s, Reply::Beam(ids, score)).0.at
            == Stage::Finished && stepped(s, Reply::Beam(ids, score)).0.winner is None,
        s.at == Stage::AwaitBeam && ids@.len() == 1 && 0 <= at < s.history.len() && s.history[at].id
            == ids@[0] && (forall|k: int|
            at < k < s.history.len() ==> (#[trigger] s.history[k]).id != ids@[0]) ==> {
            let (t, ask) = stepped(s, Reply::Beam(ids, score));
            &&& ask == AskV::Trial(s.history[at].overrides, Phase::Verify)
            &&& t.pending == s.history[at].overrides && t.at == Stage::AwaitVerification
            &&& t.trials == s.trials + 1 && t.attempts == s.attempts + 1 && t.previous == score@
        },
{
    reveal(stepped);
    if s.at == Stage::AwaitBeam && ids@.len() == 1 && 0 <= at < s.history.len() && s.history[at].id
        == ids@[0] && (forall|k: int|
        at < k < s.history.len() ==> (#[trigger] s.history[k]).id != ids@[0]) {
        lemma_beam(s.history, ids@, seq![at]);
        assert(beam_of(s.history, ids@)[0] == s.history[seq![at][0]].overrides);
    }
}

proof fn lemma_without(history: Seq<MeasuredV>, sig: Seq<char>) -> (places: Seq<int>)
    ensures
        places.len() == without_signature(history, sig).len(),
        forall|i: int|
            0 <= i < places.len() ==> 0 <= #[trigger] places[i] < history.len() && without_signature(
                history,
                sig,
            )[i] == history[places[i]] && signature(history[places[i]].overrides) != sig,
        forall|i: int, j: int| 0 <= i < j < places.len() ==> #[trigger] places[i] < #[trigger] places[j],
        forall|k: int|
            0 <= k < history.len() && signature((#[trigger] history[k]).overrides) != sig
                ==> places.contains(k),
    decreases history.len(),
{
    if history.len() == 0 {
        seq![]
    } else {
        let rest = history.drop_last();
        let n = history.len() - 1;
        let front = lemma_without(rest, sig);
        let places = if signature(history.last().overrides) == sig {
            front
        } else {
            front.push(n)
        };
        assert forall|k: int|
            0 <= k < history.len() && signature((#[trigger] history[k]).overrides) != sig implies places.contains(
        k) by {
            if k < n {
                assert(rest[k] == history[k]);
                let i = choose|i: int| 0 <= i < front.len() && front[i] == k;
                assert(places[i] == k);
            } else {
                assert(places[front.len() as int] == k);
            }
        }
        assert forall|i: int| 0 <= i < places.len() implies 0 <= #[trigger] places[i]
            < history.len() && without_signature(history, sig)[i] == history[places[i]] && signature(
            history[places[i]].overrides,
        ) != sig by {
            if i < front.len() {
                assert(places[i] == front[i]);
                assert(rest[front[i]] == history[front[i]]);
            }
        }
        places
    }
}

/// A fresh trial that is usable makes its configuration the winner and ends the
/// run. Any other drops exactly the candidates of that signature, keeps the
/// rest in order, and makes way for the next attempt.
pub proof fn law_a_failed_verification_drops_its_candidate(s: RunV, trial: TrialFacts) -> (places:
    Seq<int>)
    requires
        s.at == Stage::AwaitVerification,
    ensures
        ({
            let (t, ask) = stepped(s, Reply::Trial(trial));
            let sig = signature(s.pending);
            &&& trial.usable ==> t.winner == Some(s.pending) && t.at == Stage::Finished && ask
                == AskV::Finished && t.history == s.history
            &&& !trial.usable ==> {
                &&& t.winner == s.winner && t.at == Stage::Attempt && ask == AskV::Proceed
                &&& t.attempts == s.attempts && t.trials == s.trials
                &&& t.history.len() == places.len()
                &&& forall|i: int|
                    0 <= i < places.len() ==> 0 <= #[trigger] places[i] < s.history.len()
                        && t.history[i] == s.history[places[i]] && signature(
                        s.history[places[i]].overrides,
                    ) != sig
                &&& forall|i: int, j: int|
                    0 <= i < j < places.len() ==> #[trigger] places[i] < #[trigger] places[j]
                &&& forall|k: int|
                    0 <= k < s.history.len() && signature((#[trigger] s.history[k]).overrides)
                        != sig ==> places.contains(k)
            }
        }),
{
    reveal(stepped);
    lemma_without(s.history, signature(s.pending))
}

// ---------------------------------------------------------------------------
// The screen
// ---------------------------------------------------------------------------
#[verifier::spinoff_prover]
#[verifier::rlimit(60)]
proof fn lemma_fresh(s: RunV, list: Seq<OverridesV>) -> (places: Seq<int>)
    ensures
        places.len() == fresh(s, list).len(),
        forall|i: int|
            0 <= i < places.len() ==> 0 <= #[trigger] places[i] < list.len() && fresh(s, list)[i]
                == list[places[i]] && !s.seen.contains(
                phase_name(s.phase) + "|"@ + signature(list[places[i]]),
            ) && !s.ranked.contains(phase_name(s.phase) + "|"@ + signature(list[places[i]])),
        forall|i: int, j: int|
            0 <= i < j < places.len() ==> #[trigger] places[i] < #[trigger] places[j] && signature(
                list[places[i]],
            ) != signature(list[places[j]]),
        forall|k: int|
            0 <= k < list.len() && !s.seen.contains(
                phase_name(s.phase) + "|"@ + signature(#[trigger] list[k]),
            ) && !s.ranked.contains(phase_name(s.phase) + "|"@ + signature(list[k])) ==> exists|i: int|
                0 <= i < places.len() && #[trigger] places[i] <= k && signature(list[places[i]])
                    == signature(list[k]),
    decreases list.len(),
{
    if list.len() == 0 {
        seq![]
    } else {
        let rest = list.drop_last();
        let n = list.len() - 1;
        let front = lemma_fresh(s, rest);
        let old = fresh(s, rest);
        let key = seen_key(s.phase, list.last());
        let drop = s.seen.contains(key) || s.ranked.contains(key) || has_signature(
            old,
            signature(list.last()),
        );
        let places = if drop {
            front
        } else {
            front.push(n)
        };
        assert forall|i: int| 0 <= i < front.len() implies list[#[trigger] front[i]] == old[i] by {
            assert(rest[front[i]] == list[front[i]]);
        }
        assert forall|i: int| 0 <= i < places.len() implies 0 <= #[trigger] places[i] < list.len()
            && fresh(s, list)[i] == list[places[i]] && !s.seen.contains(
            phase_name(s.phase) + "|"@ + signature(list[places[i]]),
        ) && !s.ranked.contains(phase_name(s.phase) + "|"@ + signature(list[places[i]])) by {
            if i < front.len() {
                assert(places[i] == front[i]);
                assert(rest[front[i]] == list[front[i]]);
            }
        }
        assert forall|i: int, j: int| 0 <= i < j < places.len() implies #[trigger] places[i]
            < #[trigger] places[j] && signature(list[places[i]]) != signature(list[places[j]]) by {
            if j < front.len() {
                assert(places[i] == front[i] && places[j] == front[j]);
                assert(rest[front[i]] == list[front[i]] && rest[front[j]] == list[front[j]]);
            } else {
                assert(places[i] == front[i]);
                assert(old[i] == list[front[i]]);
            }
        }
        assert forall|k: int|
            0 <= k < list.len() && !s.seen.contains(
                phase_name(s.phase) + "|"@ + signature(#[trigger] list[k]),
            ) && !s.ranked.contains(phase_name(s.phase) + "|"@ + signature(list[k])) implies exists|
            i: int,
        |
            0 <= i < places.len() && #[trigger] places[i] <= k && signature(list[places[i]])
                == signature(list[k]) by {
            if k < n {
                assert(rest[k] == list[k]);
                let i = choose|i: int|
                    0 <= i < front.len() && #[trigger] front[i] <= k && signature(rest[front[i]])
                        == signature(rest[k]);
                assert(places[i] == front[i]);
                assert(rest[front[i]] == list[front[i]]);
            } else if drop {
                let i = choose|i: int|
                    0 <= i < old.len() && signature(#[trigger] old[i]) == signature(list.last());
                assert(places[i] == front[i]);
                assert(list[front[i]] == old[i]);
            } else {
                assert(places[front.len() as int] == k);
            }
        }
        places
    }
}

/// What is put to the bench: of the offered candidates, each one that this phase
/// has neither measured nor had ranked, once, in order. If ranking them would
/// save fewer than three trials they are all measured instead.
pub proof fn law_the_bench_ranks_what_is_new(s: RunV, list: Vec<Overrides>) -> (places: Seq<int>)
    requires
        s.at == Stage::AwaitExpansion,
        s.phase == Phase::FlashAttn,
        s.plan.aids.screen,
        s.edge is None,
    ensures
        ({
            let (t, ask) = stepped(s, Reply::Worklist(list));
            let offered = all_views(list@);
            &&& t.queue.len() == places.len() && t.trials == s.trials && t.phase == s.phase
            &&& forall|i: int|
                0 <= i < places.len() ==> 0 <= #[trigger] places[i] < offered.len() && t.queue[i]
                    == offered[places[i]] && !s.seen.contains(
                    phase_name(s.phase) + "|"@ + signature(offered[places[i]]),
                ) && !s.ranked.contains(phase_name(s.phase) + "|"@ + signature(offered[places[i]]))
            &&& forall|i: int, j: int|
                0 <= i < j < places.len() ==> #[trigger] places[i] < #[trigger] places[j]
                    && signature(offered[places[i]]) != signature(offered[places[j]])
            &&& forall|k: int|
                0 <= k < offered.len() && !s.seen.contains(
                    phase_name(s.phase) + "|"@ + signature(#[trigger] offered[k]),
                ) && !s.ranked.contains(phase_name(s.phase) + "|"@ + signature(offered[k]))
                    ==> exists|i: int|
                    0 <= i < places.len() && #[trigger] places[i] <= k && signature(
                        offered[places[i]],
                    ) == signature(offered[k])
            &&& places.len() < s.keep + 3 ==> ask == AskV::Proceed && t.at == Stage::Work
            &&& places.len() >= s.keep + 3 ==> ask == AskV::Order(t.queue) && t.at
                == Stage::AwaitOrder && t.invalid.len() == 0
        }),
{
    reveal(stepped);
    let offered = all_views(list@);
    let t0 = RunV { keep: s.keep, ..s };
    let places = lemma_fresh(t0, offered);
    assert(fresh(t0, offered) + Seq::<OverridesV>::empty() =~= fresh(t0, offered));
    places
}

proof fn lemma_flags(list: Seq<OverridesV>, flags: Seq<bool>, value: bool) -> (places: Seq<int>)
    requires
        flags.len() == list.len(),
    ensures
        places.len() == flagged(list, flags, value).len(),
        forall|i: int|
            0 <= i < places.len() ==> 0 <= #[trigger] places[i] < list.len() && flagged(
                list,
                flags,
                value,
            )[i] == list[places[i]] && flags[places[i]] == value,
        forall|i: int, j: int| 0 <= i < j < places.len() ==> #[trigger] places[i] < #[trigger] places[j],
        forall|k: int| 0 <= k < list.len() && #[trigger] flags[k] == value ==> places.contains(k),
    decreases list.len(),
{
    if list.len() == 0 {
        seq![]
    } else {
        let rest = list.drop_last();
        let n = list.len() - 1;
        lemma_flags_front(rest, flags, flags.drop_last(), value);
        let front = lemma_flags(rest, flags.drop_last(), value);
        let places = if flags[n] == value {
            front.push(n)
        } else {
            front
        };
        assert forall|k: int| 0 <= k < list.len() && #[trigger] flags[k] == value implies places.contains(
        k) by {
            if k < n {
                assert(flags.drop_last()[k] == value);
                let i = choose|i: int| 0 <= i < front.len() && front[i] == k;
                assert(places[i] == k);
            } else {
                assert(places[front.len() as int] == k);
            }
        }
        assert forall|i: int| 0 <= i < places.len() implies 0 <= #[trigger] places[i] < list.len()
            && flagged(list, flags, value)[i] == list[places[i]] && flags[places[i]] == value by {
            if i < front.len() {
                assert(places[i] == front[i]);
                assert(rest[front[i]] == list[front[i]]);
                assert(flags.drop_last()[front[i]] == flags[front[i]]);
            }
        }
        places
    }
}

proof fn lemma_flags_front(list: Seq<OverridesV>, flags: Seq<bool>, front: Seq<bool>, value: bool)
    requires
        list.len() <= front.len() <= flags.len(),
        forall|i: int| 0 <= i < front.len() ==> front[i] == flags[i],
    ensures
        flagged(list, flags, value) == flagged(list, front, value),
    decreases list.len(),
{
    if list.len() > 0 {
        lemma_flags_front(list.drop_last(), flags, front, value);
    }
}

/// A fitter tells the candidates that can be created from those that cannot:
/// the first are ranked, if that saves three trials, or else measured, and the
/// others come last, both in order.
pub proof fn law_what_cannot_be_created_comes_last(s: RunV, flags: Vec<bool>) -> (places: (
    Seq<int>,
    Seq<int>,
))
    requires
        s.at == Stage::AwaitRejections,
        flags@.len() == s.queue.len(),
    ensures
        ({
            let (t, ask) = stepped(s, Reply::Rejections(flags));
            let (good, bad) = places;
            &&& forall|i: int|
                0 <= i < good.len() ==> 0 <= #[trigger] good[i] < s.queue.len() && !flags@[good[i]]
            &&& forall|i: int|
                0 <= i < bad.len() ==> 0 <= #[trigger] bad[i] < s.queue.len() && flags@[bad[i]]
            &&& forall|i: int, j: int| 0 <= i < j < good.len() ==> #[trigger] good[i] < #[trigger] good[j]
            &&& forall|i: int, j: int| 0 <= i < j < bad.len() ==> #[trigger] bad[i] < #[trigger] bad[j]
            &&& forall|k: int| 0 <= k < s.queue.len() ==> if #[trigger] flags@[k] {
                bad.contains(k)
            } else {
                good.contains(k)
            }
            &&& good.len() < s.keep + 3 ==> ask == AskV::Proceed && t.queue == Seq::new(
                good.len(),
                |i: int| s.queue[good[i]],
            ) + Seq::new(bad.len(), |i: int| s.queue[bad[i]])
            &&& good.len() >= s.keep + 3 ==> ask == AskV::Order(t.queue) && t.queue == Seq::new(
                good.len(),
                |i: int| s.queue[good[i]],
            ) && t.invalid == Seq::new(bad.len(), |i: int| s.queue[bad[i]])
        }),
{
    reveal(stepped);
    let good = lemma_flags(s.queue, flags@, false);
    let bad = lemma_flags(s.queue, flags@, true);
    assert(flagged(s.queue, flags@, false) =~= Seq::new(good.len(), |i: int| s.queue[good[i]]));
    assert(flagged(s.queue, flags@, true) =~= Seq::new(bad.len(), |i: int| s.queue[bad[i]]));
    assert forall|k: int| 0 <= k < s.queue.len() implies if #[trigger] flags@[k] {
        bad.contains(k)
    } else {
        good.contains(k)
    } by {}
    (good, bad)
}

proof fn lemma_picked(list: Seq<OverridesV>, order: Seq<usize>)
    requires
        forall|i: int| 0 <= i < order.len() ==> #[trigger] order[i] < list.len(),
    ensures
        picked(list, order) == Seq::new(order.len(), |i: int| list[order[i] as int]),
    decreases order.len(),
{
    if order.len() > 0 {
        let rest = order.drop_last();
        assert forall|i: int| 0 <= i < rest.len() implies #[trigger] rest[i] < list.len() by {
            assert(rest[i] == order[i]);
        }
        lemma_picked(list, rest);
        assert(order[order.len() - 1] < list.len());
        assert(picked(list, order) =~= Seq::new(order.len(), |i: int| list[order[i] as int]));
    } else {
        assert(picked(list, order) =~= Seq::new(order.len(), |i: int| list[order[i] as int]));
    }
}

/// What the bench ranked best is measured, as many as are kept, best first, and
/// then what cannot be created, to be reported; all that was ranked counts as
/// ranked in this phase. A bench without an answer leaves all to be measured.
pub proof fn law_the_best_ranked_are_measured(s: RunV, order: Vec<usize>)
    requires
        s.at == Stage::AwaitOrder,
        0 <= s.keep,
        forall|i: int| 0 <= i < order@.len() ==> #[trigger] order@[i] < s.queue.len(),
    ensures
        ({
            let (t, ask) = stepped(s, Reply::Order(Some(order)));
            let kept = if order@.len() < s.keep {
                order@.len() as int
            } else {
                s.keep
            };
            &&& ask == AskV::Proceed && t.at == Stage::Work && t.trials == s.trials
            &&& t.queue.len() == kept + s.invalid.len()
            &&& forall|i: int| 0 <= i < kept ==> #[trigger] t.queue[i] == s.queue[order@[i] as int]
            &&& forall|i: int| 0 <= i < s.invalid.len() ==> t.queue[kept + i] == #[trigger] s.invalid[i]
            &&& forall|i: int|
                0 <= i < s.queue.len() ==> t.ranked.contains(
                    phase_name(s.phase) + "|"@ + signature(#[trigger] s.queue[i]),
                )
            &&& forall|i: int|
                0 <= i < s.ranked.len() ==> t.ranked.contains(#[trigger] s.ranked[i])
        }),
        ({
            let (t, ask) = stepped(s, Reply::Order(None));
            &&& ask == AskV::Proceed && t.at == Stage::Work && t.trials == s.trials
            &&& t.queue == s.queue + s.invalid && t.ranked == s.ranked
        }),
{
    reveal(stepped);
    let top = first(order@, s.keep);
    assert forall|i: int| 0 <= i < top.len() implies #[trigger] top[i] < s.queue.len() by {
        assert(top[i] == order@[i]);
    }
    lemma_picked(s.queue, top);
    let t = stepped(s, Reply::Order(Some(order))).0;
    let n = s.ranked.len() as int;
    assert forall|i: int| 0 <= i < s.queue.len() implies t.ranked.contains(
        phase_name(s.phase) + "|"@ + signature(#[trigger] s.queue[i]),
    ) by {
        assert(t.ranked[n + i] == seen_key(s.phase, s.queue[i]));
    }
    assert forall|i: int| 0 <= i < s.ranked.len() implies t.ranked.contains(#[trigger] s.ranked[i]) by {
        assert(t.ranked[i] == s.ranked[i]);
    }
}

/// Before a screened phase ranks its candidates, each is moved to where it
/// fits; one that the fitter has no answer for stays as it is.
pub proof fn law_a_screened_candidate_stands_where_it_fits(
    list: Seq<OverridesV>,
    fits: Seq<Option<FitPlacement>>,
    slack: int,
    i: int,
)
    requires
        0 <= i < list.len(),
        ordered(list[i]),
    ensures
        refitted_each(list, fits, true, slack).len() == list.len(),
        i >= fits.len() || fits[i] is None ==> refitted_each(list, fits, true, slack)[i] == list[i]
            && refitted_each(list, fits, false, slack)[i] == list[i],
        i < fits.len() ==> (fits[i] matches Some(f) ==> {
            let own = match value_of(list[i], "NCpuMoe"@) {
                Some(SettingV::Number(n)) => n,
                _ => 0,
            };
            let least = if f.n_cpu_moe - slack > 0 {
                f.n_cpu_moe - slack
            } else {
                0
            };
            let moved = refitted_each(list, fits, true, slack)[i];
            if own < least {
                with_one(moved, list[i], "NCpuMoe"@, SettingV::Number(least))
            } else {
                moved == list[i]
            }
        }),
{
    if i < fits.len() {
        match fits[i] {
            Some(f) => {
                let least = if f.n_cpu_moe - slack > 0 {
                    f.n_cpu_moe - slack
                } else {
                    0
                };
                lemma_one(list[i], "NCpuMoe"@, SettingV::Number(least));
            },
            None => {},
        }
    }
}

} // verus!
