//! What each phase of the search tries, and what it makes of the answers.
//!
//! A phase is described by the configurations that it queues: which settings
//! each of them has, and in which order they stand.
use vstd::prelude::*;

#[allow(unused_imports)]
use crate::overrides::{
    all_views, before, law_overlay_keeps_order, law_put_keeps_order, law_value_after_overlay,
    law_value_after_put, number_of, ordered, overlaid, put, signature, value_of, OverridesV,
    SettingV,
};
#[allow(unused_imports)]
use crate::tuner::{
    dominated, phase_name, phases_after, placement_key, refit_value, FitPlacement, Phase,
    TrialFacts, DEFAULT_BEAM_WIDTH, KV_RECOVERY_MAX_TRIALS, MAX_VERIFICATION_ATTEMPTS,
    NGRAM_SPEC_TYPE, ORACLE_PROBE_STEPS, ORACLE_RECOVERY_STEPS, ORACLE_REFINE_RADIUS,
    PHASE_TRIAL_FLOOR, SCREEN_KEEP, SCREEN_MIN_SAVED, SLACK_LIMIT,
};
#[allow(unused_imports)]
use crate::tuner_model::{
    batch_grid, batch_of, batch_row, batched, beam_of, find_id, known_ids, merged, near,
    phase_overlays, seen_key, stepped, with_each, with_pairs, AskV, MeasuredV, Probe, Reply, RunV,
    SearchPlan, Stage,
};

verus! {

// ---------------------------------------------------------------------------
// Settings
// ---------------------------------------------------------------------------
/// Whether `o` is `base` with `key` set to `value` and nothing else changed.
pub open spec fn with_one(o: OverridesV, base: OverridesV, key: Seq<char>, value: SettingV) -> bool {
    &&& ordered(o)
    &&& value_of(o, key) == Some(value)
    &&& forall|other: Seq<char>| other != key ==> #[trigger] value_of(o, other) == value_of(base, other)
}

/// Whether `o` is `base` with two keys set and nothing else changed.
pub open spec fn with_two(
    o: OverridesV,
    base: OverridesV,
    key: Seq<char>,
    value: SettingV,
    key2: Seq<char>,
    value2: SettingV,
) -> bool {
    &&& ordered(o)
    &&& value_of(o, key) == Some(value)
    &&& value_of(o, key2) == Some(value2)
    &&& forall|other: Seq<char>|
        other != key && other != key2 ==> #[trigger] value_of(o, other) == value_of(base, other)
}

pub proof fn lemma_one(base: OverridesV, key: Seq<char>, value: SettingV)
    requires
        ordered(base),
    ensures
        ordered(put(Seq::empty(), key, value)),
        with_one(overlaid(base, put(Seq::empty(), key, value)), base, key, value),
        with_one(put(Seq::empty(), key, value), Seq::empty(), key, value),
{
    let none: OverridesV = Seq::empty();
    let one = put(none, key, value);
    assert(ordered(none));
    law_put_keeps_order(none, key, value);
    law_overlay_keeps_order(base, one);
    assert forall|other: Seq<char>| #[trigger]
        value_of(overlaid(base, one), other) == if other == key {
            Some(value)
        } else {
            value_of(base, other)
        } by {
        law_value_after_overlay(base, one, other);
        law_value_after_put(none, key, value, other);
        assert(value_of(none, other) is None);
    }
    assert forall|other: Seq<char>| #[trigger]
        value_of(one, other) == if other == key {
            Some(value)
        } else {
            value_of(none, other)
        } by {
        law_value_after_put(none, key, value, other);
    }
}

pub proof fn lemma_two(base: OverridesV, key: Seq<char>, value: SettingV, key2: Seq<char>, value2: SettingV)
    requires
        ordered(base),
        key != key2,
    ensures
        ordered(put(put(Seq::empty(), key, value), key2, value2)),
        with_two(
            overlaid(base, put(put(Seq::empty(), key, value), key2, value2)),
            base,
            key,
            value,
            key2,
            value2,
        ),
        with_two(
            put(put(Seq::empty(), key, value), key2, value2),
            Seq::empty(),
            key,
            value,
            key2,
            value2,
        ),
{
    let none: OverridesV = Seq::empty();
    let one = put(none, key, value);
    let two = put(one, key2, value2);
    assert(ordered(none));
    law_put_keeps_order(none, key, value);
    law_put_keeps_order(one, key2, value2);
    law_overlay_keeps_order(base, two);
    assert forall|other: Seq<char>| #[trigger]
        value_of(overlaid(base, two), other) == if other == key2 {
            Some(value2)
        } else if other == key {
            Some(value)
        } else {
            value_of(base, other)
        } by {
        law_value_after_overlay(base, two, other);
        law_value_after_put(one, key2, value2, other);
        law_value_after_put(none, key, value, other);
        assert(value_of(none, other) is None);
    }
    assert forall|other: Seq<char>| #[trigger]
        value_of(two, other) == if other == key2 {
            Some(value2)
        } else if other == key {
            Some(value)
        } else {
            value_of(none, other)
        } by {
        law_value_after_put(one, key2, value2, other);
        law_value_after_put(none, key, value, other);
    }
}

pub proof fn lemma_keys()
    ensures
        "KvK"@ != "KvV"@,
        "UbatchSize"@ != "BatchSize"@,
        "Mlock"@ != "NoMmap"@,
{
    reveal_strlit("KvK");
    reveal_strlit("KvV");
    reveal_strlit("UbatchSize");
    reveal_strlit("BatchSize");
    reveal_strlit("Mlock");
    reveal_strlit("NoMmap");
    assert("KvK"@[2] == 'K' && "KvV"@[2] == 'V');
    assert("UbatchSize"@.len() == 10 && "BatchSize"@.len() == 9);
    assert("Mlock"@.len() == 5 && "NoMmap"@.len() == 6);
}

// ---------------------------------------------------------------------------
// The candidates of a beam member
// ---------------------------------------------------------------------------
/// The threads phase tries, for a beam member with expert blocks on the CPU,
/// each thread count of the plan in turn, everything else as the member has it.
/// A member without any gives it nothing to try.
pub proof fn law_the_threads_phase_tries_every_thread_count(s: RunV)
    requires
        s.at == Stage::Work,
        s.phase == Phase::Threads,
        !s.plan.aids.screen,
        s.queue.len() == 0,
        s.parents.len() > 0,
        ordered(s.parents[0]),
    ensures
        ({
            let (t, ask) = stepped(s, Reply::Proceed);
            let parent = s.parents[0];
            let counts = s.plan.space.thread_candidates@;
            &&& ask == AskV::Proceed
            &&& t.at == Stage::Work && t.phase == Phase::Threads && t.parents == s.parents.skip(1)
            &&& t.trials == s.trials && t.seen == s.seen && t.history == s.history && t.gate == s.gate
            &&& match value_of(parent, "NCpuMoe"@) {
                Some(SettingV::Number(n)) => if n > 0 {
                    &&& t.queue.len() == counts.len()
                    &&& forall|i: int|
                        0 <= i < counts.len() ==> with_one(
                            #[trigger] t.queue[i],
                            parent,
                            "Threads"@,
                            SettingV::Number(counts[i] as int),
                        )
                } else {
                    t.queue.len() == 0
                },
                _ => t.queue.len() == 0,
            }
        }),
{
    reveal(stepped);
    let parent = s.parents[0];
    let counts = s.plan.space.thread_candidates@;
    let queue = with_each(parent, "Threads"@, counts);
    assert forall|i: int| 0 <= i < counts.len() implies with_one(
        #[trigger] queue[i],
        parent,
        "Threads"@,
        SettingV::Number(counts[i] as int),
    ) by {
        lemma_one(parent, "Threads"@, SettingV::Number(counts[i] as int));
    }
}

/// The KV phase tries, for each beam member, each pair that the build allows
/// in turn, everything else as the member has it.
pub proof fn law_the_kv_phase_tries_every_pair(s: RunV)
    requires
        s.at == Stage::Work,
        s.phase == Phase::KvTypes,
        !s.plan.aids.screen,
        s.queue.len() == 0,
        s.parents.len() > 0,
        ordered(s.parents[0]),
    ensures
        ({
            let (t, ask) = stepped(s, Reply::Proceed);
            &&& ask == AskV::Proceed
            &&& t.at == Stage::Work && t.phase == Phase::KvTypes && t.parents == s.parents.skip(1)
            &&& t.trials == s.trials && t.seen == s.seen && t.history == s.history && t.gate == s.gate
            &&& t.queue.len() == s.pairs.len()
            &&& forall|i: int|
                0 <= i < s.pairs.len() ==> with_two(
                    #[trigger] t.queue[i],
                    s.parents[0],
                    "KvK"@,
                    SettingV::Text(s.pairs[i].k@),
                    "KvV"@,
                    SettingV::Text(s.pairs[i].v@),
                )
        }),
{
    reveal(stepped);
    lemma_keys();
    let parent = s.parents[0];
    let queue = with_pairs(parent, s.pairs);
    assert forall|i: int| 0 <= i < s.pairs.len() implies with_two(
        #[trigger] queue[i],
        parent,
        "KvK"@,
        SettingV::Text(s.pairs[i].k@),
        "KvV"@,
        SettingV::Text(s.pairs[i].v@),
    ) by {
        lemma_two(
            parent,
            "KvK"@,
            SettingV::Text(s.pairs[i].k@),
            "KvV"@,
            SettingV::Text(s.pairs[i].v@),
        );
    }
}

/// Whether a place in the grid of micro-batch and batch sizes is one to try:
/// the batch is no smaller than the micro-batch.
pub open spec fn in_grid(ubs: Seq<i64>, batches: Seq<i64>, place: (int, int)) -> bool {
    &&& 0 <= place.0 < ubs.len() && 0 <= place.1 < batches.len()
    &&& batches[place.1] >= ubs[place.0]
}

/// Whether a place in the grid comes before another: by micro-batch, then by
/// batch.
pub open spec fn earlier_in_grid(a: (int, int), b: (int, int)) -> bool {
    a.0 < b.0 || (a.0 == b.0 && a.1 < b.1)
}

/// The batching phase tries, for a beam member, every place of the grid whose
/// batch is no smaller than its micro-batch, once and in order, everything else
/// as the member has it; what ran out of memory for another member does not
/// count against this one.
pub proof fn law_the_batching_phase_tries_the_grid(s: RunV) -> (places: Seq<(int, int)>)
    requires
        s.at == Stage::Work,
        s.phase == Phase::Batching,
        !s.plan.aids.screen,
        s.queue.len() == 0,
        s.parents.len() > 0,
        ordered(s.parents[0]),
    ensures
        ({
            let (t, ask) = stepped(s, Reply::Proceed);
            let ubs = s.plan.space.ubatch_candidates@;
            let batches = s.plan.space.batch_candidates@;
            &&& ask == AskV::Proceed
            &&& t.at == Stage::Work && t.phase == Phase::Batching && t.parents == s.parents.skip(1)
            &&& t.trials == s.trials && t.seen == s.seen && t.history == s.history && t.gate == s.gate
            &&& t.oomed.len() == 0
            &&& t.queue.len() == places.len()
            &&& forall|i: int|
                0 <= i < places.len() ==> in_grid(ubs, batches, #[trigger] places[i]) && with_two(
                    t.queue[i],
                    s.parents[0],
                    "UbatchSize"@,
                    SettingV::Number(ubs[places[i].0] as int),
                    "BatchSize"@,
                    SettingV::Number(batches[places[i].1] as int),
                )
            &&& forall|i: int, j: int|
                0 <= i < j < places.len() ==> earlier_in_grid(
                    #[trigger] places[i],
                    #[trigger] places[j],
                )
            &&& forall|place: (int, int)| #[trigger]
                in_grid(ubs, batches, place) ==> places.contains(place)
        }),
{
    reveal(stepped);
    lemma_keys();
    let parent = s.parents[0];
    let ubs = s.plan.space.ubatch_candidates@;
    let batches = s.plan.space.batch_candidates@;
    let places = lemma_grid(parent, ubs, batches);
    let queue = batch_grid(parent, ubs, batches);
    assert forall|i: int| 0 <= i < places.len() implies in_grid(ubs, batches, #[trigger] places[i])
        && with_two(
        queue[i],
        parent,
        "UbatchSize"@,
        SettingV::Number(ubs[places[i].0] as int),
        "BatchSize"@,
        SettingV::Number(batches[places[i].1] as int),
    ) by {
        lemma_two(
            parent,
            "UbatchSize"@,
            SettingV::Number(ubs[places[i].0] as int),
            "BatchSize"@,
            SettingV::Number(batches[places[i].1] as int),
        );
    }
    places
}

proof fn lemma_row(parent: OverridesV, ub: i64, batches: Seq<i64>) -> (places: Seq<int>)
    ensures
        places.len() == batch_row(parent, ub, batches).len(),
        forall|i: int|
            0 <= i < places.len() ==> 0 <= #[trigger] places[i] < batches.len()
                && batches[places[i]] >= ub && batch_row(parent, ub, batches)[i] == batched(
                parent,
                ub as int,
                batches[places[i]] as int,
            ),
        forall|i: int, j: int| 0 <= i < j < places.len() ==> #[trigger] places[i] < #[trigger] places[j],
        forall|b: int|
            0 <= b < batches.len() && #[trigger] batches[b] >= ub ==> places.contains(b),
    decreases batches.len(),
{
    if batches.len() == 0 {
        seq![]
    } else {
        let rest = batches.drop_last();
        let front = lemma_row(parent, ub, rest);
        let n = batches.len() - 1;
        let places = if batches.last() >= ub {
            front.push(n)
        } else {
            front
        };
        assert forall|b: int| 0 <= b < batches.len() && #[trigger] batches[b] >= ub implies places.contains(
            b,
        ) by {
            if b < n {
                assert(rest[b] >= ub);
                let k = choose|k: int| 0 <= k < front.len() && front[k] == b;
                assert(places[k] == b);
            } else {
                assert(places[front.len() as int] == b);
            }
        }
        assert forall|i: int| 0 <= i < places.len() implies 0 <= #[trigger] places[i] < batches.len()
            && batches[places[i]] >= ub && batch_row(parent, ub, batches)[i] == batched(
            parent,
            ub as int,
            batches[places[i]] as int,
        ) by {
            if i < front.len() {
                assert(places[i] == front[i]);
                assert(rest[front[i]] == batches[front[i]]);
            }
        }
        places
    }
}

proof fn lemma_grid(parent: OverridesV, ubs: Seq<i64>, batches: Seq<i64>) -> (places: Seq<(int, int)>)
    ensures
        places.len() == batch_grid(parent, ubs, batches).len(),
        forall|i: int|
            0 <= i < places.len() ==> in_grid(ubs, batches, #[trigger] places[i]) && batch_grid(
                parent,
                ubs,
                batches,
            )[i] == batched(parent, ubs[places[i].0] as int, batches[places[i].1] as int),
        forall|i: int, j: int|
            0 <= i < j < places.len() ==> earlier_in_grid(#[trigger] places[i], #[trigger] places[j]),
        forall|place: (int, int)| #[trigger]
            in_grid(ubs, batches, place) ==> places.contains(place),
    decreases ubs.len(),
{
    if ubs.len() == 0 {
        seq![]
    } else {
        let rest = ubs.drop_last();
        let u = ubs.len() - 1;
        let front = lemma_grid(parent, rest, batches);
        let row = lemma_row(parent, ubs.last(), batches);
        let more = Seq::new(row.len(), |i: int| (u, row[i]));
        let places = front + more;
        assert forall|i: int| 0 <= i < places.len() implies in_grid(
            ubs,
            batches,
            #[trigger] places[i],
        ) && batch_grid(parent, ubs, batches)[i] == batched(
            parent,
            ubs[places[i].0] as int,
            batches[places[i].1] as int,
        ) by {
            if i < front.len() {
                assert(places[i] == front[i]);
                assert(in_grid(rest, batches, front[i]));
            } else {
                assert(places[i] == more[i - front.len()]);
                assert(0 <= row[i - front.len()] < batches.len());
            }
        }
        assert forall|i: int, j: int| 0 <= i < j < places.len() implies earlier_in_grid(
            #[trigger] places[i],
            #[trigger] places[j],
        ) by {
            if j < front.len() {
                assert(places[i] == front[i] && places[j] == front[j]);
            } else if i < front.len() {
                assert(in_grid(rest, batches, front[i]));
                assert(places[i] == front[i] && places[j] == more[j - front.len()]);
            } else {
                assert(places[i] == more[i - front.len()] && places[j] == more[j - front.len()]);
                assert(row[i - front.len()] < row[j - front.len()]);
            }
        }
        assert forall|place: (int, int)| #[trigger] in_grid(ubs, batches, place) implies places.contains(
            place,
        ) by {
            if place.0 < u {
                assert(in_grid(rest, batches, place));
                let k = choose|k: int| 0 <= k < front.len() && front[k] == place;
                assert(places[k] == place);
            } else {
                assert(batches[place.1] >= ubs.last());
                let k = choose|k: int| 0 <= k < row.len() && row[k] == place.1;
                assert(places[front.len() + k] == more[k]);
                assert(more[k] == place);
            }
        }
        places
    }
}

/// The refine phase asks, for a beam member with an expert placement, which
/// placements around it are worth a trial; a member without one it passes over.
pub proof fn law_the_refine_phase_asks_around_a_placement(s: RunV)
    requires
        s.at == Stage::Work,
        s.phase == Phase::Refine,
        s.queue.len() == 0,
        s.parents.len() > 0,
    ensures
        ({
            let (t, ask) = stepped(s, Reply::Proceed);
            &&& t.parents == s.parents.skip(1) && t.trials == s.trials && t.queue.len() == 0
            &&& match value_of(s.parents[0], "NCpuMoe"@) {
                Some(SettingV::Number(n)) => ask == AskV::RefineValues(n, s.stable) && t.pending
                    == s.parents[0] && t.at == Stage::AwaitRefineValues,
                _ => ask == AskV::Proceed && t.at == Stage::Work,
            }
        }),
{
    reveal(stepped);
}

/// Without a fitter the refine phase tries the fine grid, in its order, and
/// then the values around the proven edge that the grid lacks, each once.
/// Everything else is as the member has it.
pub proof fn law_the_refine_phase_tries_grid_and_edge(
    s: RunV,
    fine: Vec<i64>,
    edge: Vec<i64>,
) -> (values: Seq<i64>)
    requires
        s.at == Stage::AwaitRefineValues,
        s.edge is None,
        ordered(s.pending),
        value_of(s.pending, "NCpuMoe"@) matches Some(SettingV::Number(_)),
    ensures
        ({
            let (t, ask) = stepped(s, Reply::RefineValues(fine, edge));
            &&& ask == AskV::Proceed && t.at == Stage::Work && t.trials == s.trials
            &&& t.queue.len() == values.len()
            &&& forall|i: int|
                0 <= i < values.len() ==> with_one(
                    #[trigger] t.queue[i],
                    s.pending,
                    "NCpuMoe"@,
                    SettingV::Number(values[i] as int),
                )
            &&& fine@.len() <= values.len() && forall|i: int|
                0 <= i < fine@.len() ==> #[trigger] values[i] == fine@[i]
            &&& forall|k: int| 0 <= k < edge@.len() ==> values.contains(#[trigger] edge@[k])
            &&& forall|i: int|
                fine@.len() <= i < values.len() ==> edge@.contains(#[trigger] values[i])
            &&& forall|i: int, j: int|
                fine@.len() <= j < values.len() && 0 <= i < j ==> #[trigger] values[i]
                    != #[trigger] values[j]
        }),
{
    reveal(stepped);
    let values = merged(fine@, edge@);
    lemma_merged(fine@, edge@);
    let queue = with_each(s.pending, "NCpuMoe"@, values);
    assert forall|i: int| 0 <= i < values.len() implies with_one(
        #[trigger] queue[i],
        s.pending,
        "NCpuMoe"@,
        SettingV::Number(values[i] as int),
    ) by {
        lemma_one(s.pending, "NCpuMoe"@, SettingV::Number(values[i] as int));
    }
    values
}

proof fn lemma_merged(values: Seq<i64>, more: Seq<i64>)
    ensures
        ({
            let all = merged(values, more);
            &&& values.len() <= all.len()
            &&& forall|i: int| 0 <= i < values.len() ==> #[trigger] all[i] == values[i]
            &&& forall|k: int| 0 <= k < more.len() ==> all.contains(#[trigger] more[k])
            &&& forall|i: int| values.len() <= i < all.len() ==> more.contains(#[trigger] all[i])
            &&& forall|i: int, j: int|
                values.len() <= j < all.len() && 0 <= i < j ==> #[trigger] all[i] != #[trigger] all[j]
        }),
    decreases more.len(),
{
    if more.len() > 0 {
        let rest = more.drop_last();
        lemma_merged(values, rest);
        let front = merged(values, rest);
        let all = merged(values, more);
        assert forall|k: int| 0 <= k < more.len() implies all.contains(#[trigger] more[k]) by {
            if k < rest.len() {
                assert(front.contains(rest[k]));
                let i = choose|i: int| 0 <= i < front.len() && front[i] == rest[k];
                assert(all[i] == more[k]);
            } else if front.contains(more.last()) {
                assert(all == front);
            } else {
                assert(all[front.len() as int] == more.last());
            }
        }
        assert forall|i: int| values.len() <= i < all.len() implies more.contains(#[trigger] all[i]) by {
            if i < front.len() {
                assert(all[i] == front[i]);
                assert(rest.contains(front[i]));
                let k = choose|k: int| 0 <= k < rest.len() && rest[k] == front[i];
                assert(more[k] == all[i]);
            } else {
                assert(more[more.len() - 1] == all[i]);
            }
        }
        assert forall|i: int, j: int|
            values.len() <= j < all.len() && 0 <= i < j implies #[trigger] all[i]
            != #[trigger] all[j] by {
            if j < front.len() {
                assert(front[i] != front[j]);
            } else {
                assert(front.contains(front[i]));
            }
        }
    }
}

/// With a fitter the refine phase tries the values of the fine grid that are
/// at most two away from the member's own placement, in order, and no others.
pub proof fn law_the_refine_phase_stays_near_the_edge(
    s: RunV,
    fine: Vec<i64>,
    edge: Vec<i64>,
) -> (places: Seq<int>)
    requires
        s.at == Stage::AwaitRefineValues,
        s.edge is Some,
        ordered(s.pending),
        value_of(s.pending, "NCpuMoe"@) matches Some(SettingV::Number(_)),
    ensures
        ({
            let (t, ask) = stepped(s, Reply::RefineValues(fine, edge));
            let own = number_of(s.pending, "NCpuMoe"@)->Some_0;
            &&& ask == AskV::Proceed && t.at == Stage::Work && t.trials == s.trials
            &&& t.queue.len() == places.len()
            &&& forall|i: int|
                0 <= i < places.len() ==> 0 <= #[trigger] places[i] < fine@.len() && own - 2
                    <= fine@[places[i]] <= own + 2 && with_one(
                    t.queue[i],
                    s.pending,
                    "NCpuMoe"@,
                    SettingV::Number(fine@[places[i]] as int),
                )
            &&& forall|i: int, j: int|
                0 <= i < j < places.len() ==> #[trigger] places[i] < #[trigger] places[j]
            &&& forall|k: int|
                0 <= k < fine@.len() && own - 2 <= #[trigger] fine@[k] <= own + 2
                    ==> places.contains(k)
        }),
{
    reveal(stepped);
    let own = number_of(s.pending, "NCpuMoe"@)->Some_0;
    let values = near(fine@, own);
    let places = lemma_near(fine@, own);
    let queue = with_each(s.pending, "NCpuMoe"@, values);
    assert forall|i: int| 0 <= i < places.len() implies 0 <= #[trigger] places[i] < fine@.len() && own
        - 2 <= fine@[places[i]] <= own + 2 && with_one(
        queue[i],
        s.pending,
        "NCpuMoe"@,
        SettingV::Number(fine@[places[i]] as int),
    ) by {
        lemma_one(s.pending, "NCpuMoe"@, SettingV::Number(values[i] as int));
    }
    places
}

proof fn lemma_near(values: Seq<i64>, own: int) -> (places: Seq<int>)
    ensures
        places.len() == near(values, own).len(),
        forall|i: int|
            0 <= i < places.len() ==> 0 <= #[trigger] places[i] < values.len() && own - 2
                <= values[places[i]] <= own + 2 && near(values, own)[i] == values[places[i]],
        forall|i: int, j: int| 0 <= i < j < places.len() ==> #[trigger] places[i] < #[trigger] places[j],
        forall|k: int|
            0 <= k < values.len() && own - 2 <= #[trigger] values[k] <= own + 2 ==> places.contains(
                k,
            ),
    decreases values.len(),
{
    if values.len() == 0 {
        seq![]
    } else {
        let rest = values.drop_last();
        let n = values.len() - 1;
        let front = lemma_near(rest, own);
        let places = if own - 2 <= values.last() <= own + 2 {
            front.push(n)
        } else {
            front
        };
        assert forall|k: int|
            0 <= k < values.len() && own - 2 <= #[trigger] values[k] <= own + 2 implies places.contains(
            k,
        ) by {
            if k < n {
                assert(own - 2 <= rest[k] <= own + 2);
                let i = choose|i: int| 0 <= i < front.len() && front[i] == k;
                assert(places[i] == k);
            } else {
                assert(places[front.len() as int] == k);
            }
        }
        assert forall|i: int| 0 <= i < places.len() implies 0 <= #[trigger] places[i] < values.len()
            && own - 2 <= values[places[i]] <= own + 2 && near(values, own)[i] == values[places[i]] by {
            if i < front.len() {
                assert(places[i] == front[i]);
                assert(rest[front[i]] == values[front[i]]);
            }
        }
        places
    }
}

// ---------------------------------------------------------------------------
// Measuring
// ---------------------------------------------------------------------------
/// The phases that spend the search's share of the budget, in their order.
pub open spec fn search_order() -> Seq<Phase> {
    seq![
        Phase::Baseline,
        Phase::KvRecovery,
        Phase::VramFit,
        Phase::Batching,
        Phase::FlashAttn,
        Phase::MemoryFlags,
        Phase::CacheFlags,
        Phase::Threads,
        Phase::KvTypes,
        Phase::SpecNgram,
        Phase::Refine,
    ]
}

/// Every phase keeps back two trials for each phase that comes after it.
pub proof fn law_a_phase_counts_what_comes_after(i: int)
    requires
        0 <= i < search_order().len(),
    ensures
        phases_after(search_order()[i]) == search_order().len() - 1 - i,
{
}

/// How many trials a phase that starts now may bring the run to, at most: the
/// budget less three for the verification and two for each later phase, and in
/// any case one more than so far.
pub open spec fn fresh_ceiling(s: RunV, i: int) -> int {
    let budget = s.plan.params.budget as int;
    let share = if budget >= 4 {
        budget - 3
    } else {
        1
    };
    let kept = share - 2 * (search_order().len() - 1 - i);
    if kept > s.trials {
        kept
    } else {
        s.trials + 1
    }
}

/// While the search's share and the phase's own ceiling allow it, the next
/// queued configuration is measured, in the active phase, unless the phase has
/// seen it. A phase that measures for the first time fixes its ceiling then.
pub proof fn law_a_queued_configuration_is_measured(s: RunV, i: int)
    requires
        s.at == Stage::Work,
        0 <= i < search_order().len(),
        s.phase == search_order()[i],
        s.phase != Phase::KvRecovery,
        s.phase == Phase::VramFit ==> s.probe == Probe::Off,
        s.phase == Phase::Baseline || s.phase == Phase::VramFit || s.edge is None,
        s.queue.len() > 0,
        s.phase == Phase::Batching ==> forall|k: int|
            0 <= k < s.oomed.len() ==> batch_of(s.queue[0]).0 < (#[trigger] s.oomed[k]).0 || batch_of(
                s.queue[0],
            ).1 < s.oomed[k].1,
        0 <= s.trials < s.plan.params.budget - 3 || (s.trials == 0),
        s.gate matches Some(g) ==> g.phase == s.phase ==> s.trials < g.ceiling,
        !s.seen.contains(phase_name(s.phase) + "|"@ + signature(s.queue[0])),
    ensures
        ({
            let (t, ask) = stepped(s, Reply::Proceed);
            &&& ask == AskV::Trial(s.queue[0], s.phase)
            &&& t.pending == s.queue[0] && t.queue == s.queue.skip(1)
            &&& t.at == Stage::AwaitTrial && t.phase == s.phase && t.trials == s.trials + 1
            &&& t.parents == s.parents && t.history == s.history && t.oomed == s.oomed
            &&& t.seen.contains(phase_name(s.phase) + "|"@ + signature(s.queue[0]))
            &&& (s.gate matches Some(g) ==> g.phase != s.phase) ==> (t.gate matches Some(g)
                && g.phase == s.phase && g.ceiling == fresh_ceiling(s, i))
            &&& s.gate matches Some(g) ==> g.phase == s.phase ==> t.gate == s.gate
        }),
{
    reveal(stepped);
    let c = s.queue[0];
    law_a_phase_counts_what_comes_after(i);
    if s.phase == Phase::Batching {
        assert(!dominated(batch_of(c).0, batch_of(c).1, s.oomed));
    }
    let t = stepped(s, Reply::Proceed).0;
    assert(t.seen == s.seen.push(seen_key(s.phase, c)));
    assert(t.seen[s.seen.len() as int] == seen_key(s.phase, c));
}

/// Once the search's share or the phase's own ceiling is spent, no more of the
/// queue is measured: the rest is passed over, one by one.
pub proof fn law_a_spent_phase_measures_nothing(s: RunV)
    requires
        s.at == Stage::Work,
        s.phase != Phase::KvRecovery,
        s.phase != Phase::VramFit,
        s.queue.len() > 0,
        ({
            ||| s.trials >= s.plan.params.budget - 3 && s.trials >= 1
            ||| (s.gate matches Some(g) && g.phase == s.phase && s.trials >= g.ceiling)
        }),
    ensures
        ({
            let (t, ask) = stepped(s, Reply::Proceed);
            &&& ask == AskV::Proceed
            &&& t.at == Stage::Work && t.phase == s.phase && t.trials == s.trials
            &&& t.queue == s.queue.skip(1) && t.parents == s.parents && t.history == s.history
        }),
{
    reveal(stepped);
}

/// With a fitter, the next queued configuration is first put to it.
pub proof fn law_a_fitter_is_asked_before_a_trial(s: RunV)
    requires
        s.at == Stage::Work,
        s.phase == Phase::FlashAttn || s.phase == Phase::MemoryFlags || s.phase == Phase::CacheFlags
            || s.phase == Phase::Threads || s.phase == Phase::KvTypes || s.phase == Phase::SpecNgram
            || s.phase == Phase::Refine,
        s.edge is Some,
        s.queue.len() > 0,
        0 <= s.trials < s.plan.params.budget - 3,
        s.gate matches Some(g) ==> g.phase == s.phase ==> s.trials < g.ceiling,
    ensures
        stepped(s, Reply::Proceed).1 == AskV::Appraisal(s.queue[0]),
        stepped(s, Reply::Proceed).0.pending == s.queue[0],
        stepped(s, Reply::Proceed).0.queue == s.queue.skip(1),
        stepped(s, Reply::Proceed).0.trials == s.trials,
{
    reveal(stepped);
}

/// What the fitter makes of a configuration. One that needs more room is
/// measured with the placement moved to what it needs, and with nothing else
/// changed: at least the fitted number of expert blocks on the CPU, less what
/// this host proved to run past it; or at most the fitted number of layers on
/// the GPU, and what this host proved past it. Any other is measured as it is.
pub proof fn law_a_fitted_configuration_is_measured_where_it_fits(s: RunV, fit: Option<FitPlacement>)
    requires
        s.at == Stage::AwaitAppraisal,
        ordered(s.pending),
    ensures
        stepped(s, Reply::Appraisal(None, fit)).1 matches AskV::Trial(c, phase) ==> {
            &&& phase == s.phase
            &&& s.plan.space.is_moe ==> (match fit {
                Some(f) => {
                    let own = match value_of(s.pending, "NCpuMoe"@) {
                        Some(SettingV::Number(n)) => n,
                        _ => 0,
                    };
                    let least = if f.n_cpu_moe - s.slack > 0 {
                        f.n_cpu_moe - s.slack
                    } else {
                        0
                    };
                    if own < least {
                        with_one(c, s.pending, "NCpuMoe"@, SettingV::Number(least))
                    } else {
                        c == s.pending
                    }
                },
                None => c == s.pending,
            })
            &&& !s.plan.space.is_moe ==> (match fit {
                Some(f) => {
                    let most = if f.gpu_layers + s.slack > 1 {
                        f.gpu_layers + s.slack
                    } else {
                        1
                    };
                    if f.gpu_layers < 0 {
                        c == s.pending
                    } else {
                        match value_of(s.pending, "NGpuLayers"@) {
                            Some(SettingV::Number(n)) => if n <= most {
                                c == s.pending
                            } else {
                                with_one(c, s.pending, "NGpuLayers"@, SettingV::Number(most))
                            },
                            _ => with_one(c, s.pending, "NGpuLayers"@, SettingV::Number(most)),
                        }
                    }
                },
                None => c == s.pending,
            })
        },
{
    reveal(stepped);
    match fit {
        Some(f) => match refit_value(f, s.pending, s.plan.space.is_moe, s.slack) {
            Some(value) => lemma_one(
                s.pending,
                placement_key(s.plan.space.is_moe),
                SettingV::Number(value),
            ),
            None => {},
        },
        None => {},
    }
}

/// A configuration that the phase has not seen is measured after its
/// appraisal, whether or not the fitter has an answer.
pub proof fn law_an_appraised_configuration_is_measured(s: RunV, fit: Option<FitPlacement>)
    requires
        s.at == Stage::AwaitAppraisal,
        s.seen.len() == 0,
    ensures
        stepped(s, Reply::Appraisal(None, fit)).1 is Trial,
        stepped(s, Reply::Appraisal(None, fit)).0.trials == s.trials + 1,
{
    reveal(stepped);
}

/// What a trial showed is added to what the run has measured: the
/// configuration that was asked for, under its phase and the number of the
/// trial, and whether it was usable and whether it ran out of memory. Nothing
/// that was there changes.
pub proof fn law_a_trial_is_recorded_as_asked(s: RunV, trial: TrialFacts)
    requires
        s.at == Stage::AwaitTrial,
    ensures
        ({
            let t = stepped(s, Reply::Trial(trial)).0;
            &&& t.history.len() == s.history.len() + 1
            &&& forall|k: int| 0 <= k < s.history.len() ==> #[trigger] t.history[k] == s.history[k]
            &&& t.history.last().id == s.trials
            &&& t.history.last().overrides == s.pending
            &&& t.history.last().phase == s.phase
            &&& t.history.last().usable == trial.usable
            &&& t.history.last().oom == trial.oom
            &&& t.trials == s.trials && t.seen == s.seen && t.plan == s.plan
            &&& s.phase != Phase::Baseline && s.phase != Phase::KvRecovery && s.phase
                != Phase::VramFit ==> t.at == Stage::Work && t.phase == s.phase && t.queue == s.queue
                && t.parents == s.parents
        }),
{
    reveal(stepped);
}

/// A batch that ran out of memory rules out every queued batch that is no
/// smaller in either size, for as long as the beam member lasts; a trial that
/// did not rules out nothing.
pub proof fn law_a_batch_out_of_memory_rules_out_larger_ones(s: RunV, trial: TrialFacts)
    requires
        s.at == Stage::AwaitTrial,
        s.phase == Phase::Batching,
        ({
            let pair = batch_of(s.pending);
            i64::MIN <= pair.0 <= i64::MAX && i64::MIN <= pair.1 <= i64::MAX
        }),
    ensures
        ({
            let t = stepped(s, Reply::Trial(trial)).0;
            &&& trial.oom && t.queue.len() > 0 && batch_of(t.queue[0]).0 >= batch_of(s.pending).0
                && batch_of(t.queue[0]).1 >= batch_of(s.pending).1 ==> {
                &&& stepped(t, Reply::Proceed).1 == AskV::Proceed
                &&& stepped(t, Reply::Proceed).0.queue == t.queue.skip(1)
                &&& stepped(t, Reply::Proceed).0.trials == t.trials
            }
            &&& !trial.oom ==> t.oomed == s.oomed
            &&& trial.oom ==> t.oomed == s.oomed.push(
                (batch_of(s.pending).0 as i64, batch_of(s.pending).1 as i64),
            )
        }),
{
    reveal(stepped);
    let t = stepped(s, Reply::Trial(trial)).0;
    if trial.oom && t.queue.len() > 0 && batch_of(t.queue[0]).0 >= batch_of(s.pending).0 && batch_of(
        t.queue[0],
    ).1 >= batch_of(s.pending).1 {
        let k = s.oomed.len() as int;
        assert(t.oomed[k] == (batch_of(s.pending).0 as i64, batch_of(s.pending).1 as i64));
        assert(dominated(batch_of(t.queue[0]).0, batch_of(t.queue[0]).1, t.oomed));
    }
}

/// The sizes of a configuration are its own settings, and zero where it sets
/// none.
pub proof fn law_a_batch_is_its_settings(o: OverridesV)
    ensures
        batch_of(o).0 == match value_of(o, "UbatchSize"@) {
            Some(SettingV::Number(n)) => n,
            _ => 0,
        },
        batch_of(o).1 == match value_of(o, "BatchSize"@) {
            Some(SettingV::Number(n)) => n,
            _ => 0,
        },
{
}

// ---------------------------------------------------------------------------
// Entering a phase
// ---------------------------------------------------------------------------
/// A phase whose queue and beam are worked off gives way to the next in order,
/// and the last to the verification.
pub proof fn law_the_phases_come_in_order(s: RunV, i: int)
    requires
        s.at == Stage::Work,
        2 <= i < search_order().len(),
        s.phase == search_order()[i],
        s.phase == Phase::VramFit ==> s.probe == Probe::Off,
        s.queue.len() == 0,
        s.parents.len() == 0,
    ensures
        ({
            let (t, ask) = stepped(s, Reply::Proceed);
            &&& ask == AskV::Proceed && t.at == Stage::Enter && t.trials == s.trials
            &&& t.history == s.history
            &&& t.phase == if i + 1 < search_order().len() {
                search_order()[i + 1]
            } else {
                Phase::Verify
            }
        }),
{
    reveal(stepped);
}

/// What each phase after the fit does when it is entered: it asks for the beam,
/// as wide as the plan has it and at least one wide. A flag phase without a
/// flag to try, the n-gram phase where it is off, and the refine phase of a
/// dense model are passed over.
pub proof fn law_a_phase_starts_from_the_beam(s: RunV, i: int)
    requires
        s.at == Stage::Enter,
        3 <= i < search_order().len(),
        s.phase == search_order()[i],
    ensures
        ({
            let (t, ask) = stepped(s, Reply::Proceed);
            let passed = {
                ||| s.phase == Phase::MemoryFlags && !s.plan.space.mmap_recommendation.mlock
                    && !s.plan.space.mmap_recommendation.no_mmap
                ||| s.phase == Phase::CacheFlags && s.plan.space.cache_overlays@.len() == 0
                ||| s.phase == Phase::SpecNgram && !s.plan.params.spec_ngram
                ||| s.phase == Phase::Refine && !s.plan.space.is_moe
            };
            &&& t.trials == s.trials && t.history == s.history && t.seen == s.seen
            &&& passed ==> ask == AskV::Proceed && t.at == Stage::Enter && t.phase == if i + 1
                < search_order().len() {
                search_order()[i + 1]
            } else {
                Phase::Verify
            }
            &&& !passed ==> t.at == Stage::AwaitBeam && t.phase == s.phase && ask == AskV::Beam(
                if s.plan.params.beam_width > 1 {
                    s.plan.params.beam_width as int
                } else {
                    1
                },
            )
        }),
{
    reveal(stepped);
    assert(all_views(s.plan.space.cache_overlays@).len() == s.plan.space.cache_overlays@.len());
}

proof fn lemma_found(history: Seq<MeasuredV>, at: int)
    requires
        0 <= at < history.len(),
        forall|k: int| at < k < history.len() ==> (#[trigger] history[k]).id != history[at].id,
    ensures
        find_id(history, history[at].id) == Some(history[at]),
    decreases history.len(),
{
    if at < history.len() - 1 {
        assert(history[history.len() - 1].id != history[at].id);
        lemma_found(history.drop_last(), at);
    }
}

pub proof fn lemma_beam(history: Seq<MeasuredV>, ids: Seq<i64>, at: Seq<int>)
    requires
        at.len() == ids.len(),
        forall|i: int|
            0 <= i < ids.len() ==> 0 <= #[trigger] at[i] < history.len() && history[at[i]].id
                == ids[i],
        forall|i: int, k: int|
            0 <= i < ids.len() && at[i] < k < history.len() ==> (#[trigger] history[k]).id
                != #[trigger] ids[i],
    ensures
        beam_of(history, ids).len() == ids.len(),
        known_ids(history, ids) == ids,
        forall|i: int|
            0 <= i < ids.len() ==> #[trigger] beam_of(history, ids)[i] == history[at[i]].overrides,
    decreases ids.len(),
{
    if ids.len() > 0 {
        let n = ids.len() - 1;
        let rest = ids.drop_last();
        assert forall|i: int| 0 <= i < rest.len() implies 0 <= #[trigger] at.drop_last()[i]
            < history.len() && history[at.drop_last()[i]].id == rest[i] by {
            assert(at[i] == at.drop_last()[i]);
        }
        assert forall|i: int, k: int|
            0 <= i < rest.len() && at.drop_last()[i] < k < history.len() implies (
        #[trigger] history[k]).id != #[trigger] rest[i] by {
            assert(at[i] == at.drop_last()[i] && ids[i] == rest[i]);
        }
        lemma_beam(history, rest, at.drop_last());
        assert(0 <= at[n] < history.len());
        assert forall|k: int| at[n] < k < history.len() implies (#[trigger] history[k]).id
            != history[at[n]].id by {
            assert(history[k].id != ids[n]);
        }
        lemma_found(history, at[n]);
        assert(rest.push(ids.last()) =~= ids);
        assert forall|i: int| 0 <= i < ids.len() implies #[trigger] beam_of(history, ids)[i]
            == history[at[i]].overrides by {
            if i < n {
                assert(beam_of(history, rest)[i] == history[at.drop_last()[i]].overrides);
            }
        }
    }
}

/// The beam of a phase is made of what was measured: the members are the
/// configurations of the trials that the ids name, in the order of the ids.
pub proof fn law_the_beam_is_what_was_measured(
    s: RunV,
    ids: Vec<i64>,
    score: String,
    at: Seq<int>,
)
    requires
        s.at == Stage::AwaitBeam,
        s.phase == Phase::Batching || s.phase == Phase::Threads || s.phase == Phase::KvTypes
            || s.phase == Phase::Refine,
        ids@.len() > 0,
        at.len() == ids@.len(),
        forall|i: int|
            0 <= i < ids@.len() ==> 0 <= #[trigger] at[i] < s.history.len() && s.history[at[i]].id
                == ids@[i],
        forall|i: int, k: int|
            0 <= i < ids@.len() && at[i] < k < s.history.len() ==> (#[trigger] s.history[k]).id
                != #[trigger] ids@[i],
    ensures
        ({
            let (t, ask) = stepped(s, Reply::Beam(ids, score));
            &&& t.parents.len() == ids@.len()
            &&& forall|i: int|
                0 <= i < ids@.len() ==> #[trigger] t.parents[i] == s.history[at[i]].overrides
            &&& t.phase == s.phase && t.trials == s.trials && t.history == s.history
            &&& s.phase == Phase::KvTypes ==> t.at == Stage::AwaitPairs && ask == AskV::KvPairs(s.kv)
            &&& s.phase != Phase::KvTypes ==> t.at == Stage::Work && ask == AskV::Proceed
        }),
{
    reveal(stepped);
    lemma_beam(s.history, ids@, at);
}

/// The flag phases have the whole beam expanded, by the overlays of the phase.
pub proof fn law_a_flag_phase_expands_the_beam(s: RunV, ids: Vec<i64>, score: String, at: Seq<int>)
    requires
        s.at == Stage::AwaitBeam,
        s.phase == Phase::FlashAttn || s.phase == Phase::MemoryFlags || s.phase == Phase::CacheFlags
            || s.phase == Phase::SpecNgram,
        at.len() == ids@.len(),
        forall|i: int|
            0 <= i < ids@.len() ==> 0 <= #[trigger] at[i] < s.history.len() && s.history[at[i]].id
                == ids@[i],
        forall|i: int, k: int|
            0 <= i < ids@.len() && at[i] < k < s.history.len() ==> (#[trigger] s.history[k]).id
                != #[trigger] ids@[i],
    ensures
        ({
            let (t, ask) = stepped(s, Reply::Beam(ids, score));
            &&& ask == AskV::Expansion(ids@, phase_overlays(s.plan, s.phase))
            &&& t.at == Stage::AwaitExpansion && t.phase == s.phase && t.trials == s.trials
            &&& t.keep == if ids@.len() > 1 {
                ids@.len() as int
            } else {
                1
            }
        }),
{
    reveal(stepped);
    lemma_beam(s.history, ids@, at);
}

/// The overlays of the flag phases: flash attention on and off; the plan's
/// cache flags; and the n-gram speculation.
pub proof fn law_a_flag_phase_has_its_overlays(plan: SearchPlan)
    ensures
        ({
            let none: OverridesV = Seq::empty();
            let flash = phase_overlays(plan, Phase::FlashAttn);
            let cache = phase_overlays(plan, Phase::CacheFlags);
            let ngram = phase_overlays(plan, Phase::SpecNgram);
            &&& flash.len() == 2 && with_one(flash[0], none, "FlashAttn"@, SettingV::Flag(true))
                && with_one(flash[1], none, "FlashAttn"@, SettingV::Flag(false))
            &&& cache.len() == plan.space.cache_overlays@.len() && forall|k: int|
                0 <= k < cache.len() ==> #[trigger] cache[k] == plan.space.cache_overlays@[k]@
            &&& ngram.len() == 1 && with_one(
                ngram[0],
                none,
                "SpecType"@,
                SettingV::Text("ngram-mod"@),
            )
        }),
{
    let none: OverridesV = Seq::empty();
    assert(ordered(none));
    lemma_one(none, "FlashAttn"@, SettingV::Flag(true));
    lemma_one(none, "FlashAttn"@, SettingV::Flag(false));
    lemma_one(none, "SpecType"@, SettingV::Text("ngram-mod"@));
}

/// The memory flags that are tried: locking, loading into memory, and both
/// together, each only where the host recommends it.
pub proof fn law_the_memory_phase_follows_the_host(plan: SearchPlan)
    ensures
        ({
            let none: OverridesV = Seq::empty();
            let overlays = phase_overlays(plan, Phase::MemoryFlags);
            let lock = plan.space.mmap_recommendation.mlock;
            let load = plan.space.mmap_recommendation.no_mmap;
            &&& overlays.len() == if lock && load {
                3nat
            } else if lock || load {
                1
            } else {
                0
            }
            &&& lock ==> with_one(overlays[0], none, "Mlock"@, SettingV::Flag(true))
            &&& load && !lock ==> with_one(overlays[0], none, "NoMmap"@, SettingV::Flag(true))
            &&& lock && load ==> with_one(overlays[1], none, "NoMmap"@, SettingV::Flag(true))
                && with_two(
                overlays[2],
                none,
                "Mlock"@,
                SettingV::Flag(true),
                "NoMmap"@,
                SettingV::Flag(true),
            )
        }),
{
    lemma_keys();
    let none: OverridesV = Seq::empty();
    assert(ordered(none));
    lemma_one(none, "Mlock"@, SettingV::Flag(true));
    lemma_one(none, "NoMmap"@, SettingV::Flag(true));
    lemma_two(none, "Mlock"@, SettingV::Flag(true), "NoMmap"@, SettingV::Flag(true));
}

/// What the expansion gave is what is tried, in its order.
pub proof fn law_an_expansion_is_tried_as_it_came(s: RunV, list: Vec<crate::overrides::Overrides>)
    requires
        s.at == Stage::AwaitExpansion,
        s.phase == Phase::FlashAttn ==> !s.plan.aids.screen,
    ensures
        ({
            let (t, ask) = stepped(s, Reply::Worklist(list));
            &&& ask == AskV::Proceed && t.at == Stage::Work && t.phase == s.phase && t.trials
                == s.trials
            &&& t.queue.len() == list@.len()
            &&& forall|i: int| 0 <= i < list@.len() ==> #[trigger] t.queue[i] == list@[i]@
        }),
{
    reveal(stepped);
}

// ---------------------------------------------------------------------------
// Bounds
// ---------------------------------------------------------------------------
/// The bounds of a search: a beam of 3; 2 candidates kept by a screen that saves
/// at least 3 trials; 2 steps past the fitter's placement and 3 back from it; a
/// radius of 2 around an edge; 3 attempts to verify; 3 trials without a gain; 4
/// trials to recover a cache; 2 trials for every phase.
pub proof fn law_a_search_has_these_bounds()
    ensures
        DEFAULT_BEAM_WIDTH == 3,
        SCREEN_KEEP == 2,
        SCREEN_MIN_SAVED == 3,
        ORACLE_PROBE_STEPS == 2,
        ORACLE_RECOVERY_STEPS == 3,
        ORACLE_REFINE_RADIUS == 2,
        MAX_VERIFICATION_ATTEMPTS == 3,
        SLACK_LIMIT == 3,
        KV_RECOVERY_MAX_TRIALS == 4,
        PHASE_TRIAL_FLOOR == 2,
        NGRAM_SPEC_TYPE@ == "ngram-mod"@,
{
}

// ---------------------------------------------------------------------------
// Ids that nothing was measured under
// ---------------------------------------------------------------------------
/// Whether a trial of the history has an id.
pub open spec fn was_measured(history: Seq<MeasuredV>, id: int) -> bool {
    exists|h: int| 0 <= h < history.len() && (#[trigger] history[h]).id == id
}

proof fn lemma_measured(history: Seq<MeasuredV>, id: int)
    ensures
        find_id(history, id) is Some <==> was_measured(history, id),
    decreases history.len(),
{
    if history.len() > 0 {
        let rest = history.drop_last();
        lemma_measured(rest, id);
        if was_measured(rest, id) {
            let h = choose|h: int| 0 <= h < rest.len() && (#[trigger] rest[h]).id == id;
            assert(history[h].id == id);
        }
        if was_measured(history, id) && history.last().id != id {
            let h = choose|h: int| 0 <= h < history.len() && (#[trigger] history[h]).id == id;
            assert(rest[h].id == id);
        }
        if history.last().id == id {
            assert(history[history.len() - 1].id == id);
        }
    }
}

/// Of the ids that a beam names, those that the run has measured are kept, in
/// order, and no others; the beam has a member for each: `places` are those ids.
pub proof fn law_only_measured_ids_make_a_beam(history: Seq<MeasuredV>, ids: Seq<i64>) -> (places:
    Seq<int>)
    ensures
        places.len() == known_ids(history, ids).len(),
        beam_of(history, ids).len() == places.len(),
        forall|k: int|
            0 <= k < places.len() ==> 0 <= #[trigger] places[k] < ids.len() && known_ids(
                history,
                ids,
            )[k] == ids[places[k]] && was_measured(history, ids[places[k]] as int),
        forall|j: int, k: int| 0 <= j < k < places.len() ==> places[j] < places[k],
        forall|i: int|
            0 <= i < ids.len() && was_measured(history, #[trigger] ids[i] as int)
                ==> places.contains(i),
    decreases ids.len(),
{
    if ids.len() == 0 {
        seq![]
    } else {
        let rest = ids.drop_last();
        let n = ids.len() - 1;
        let before = law_only_measured_ids_make_a_beam(history, rest);
        lemma_measured(history, ids.last() as int);
        assert forall|k: int| 0 <= k < before.len() implies rest[#[trigger] before[k]]
            == ids[before[k]] by {}
        if find_id(history, ids.last() as int) is Some {
            let now = before.push(n);
            assert(now[before.len() as int] == n);
            assert forall|i: int|
                0 <= i < ids.len() && was_measured(
                    history,
                    #[trigger] ids[i] as int,
                ) implies now.contains(i) by {
                if i < n {
                    assert(rest[i] == ids[i]);
                    let k = choose|k: int| 0 <= k < before.len() && before[k] == i;
                    assert(now[k] == i);
                }
            }
            now
        } else {
            assert forall|i: int|
                0 <= i < ids.len() && was_measured(
                    history,
                    #[trigger] ids[i] as int,
                ) implies before.contains(i) by {
                assert(rest[i] == ids[i]);
            }
            before
        }
    }
}

} // verus!
