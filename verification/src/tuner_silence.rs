//! An oracle that never answers leaves the search as it is without one.
use vstd::prelude::*;

#[allow(unused_imports)]
use crate::overrides::{all_views, overlaid, OverridesV};
#[allow(unused_imports)]
use crate::tuner::{
    kv_overlay, number_overlay, placement_key, refit_value, FitPlacement, KvPair, Phase, TrialFacts,
    SCREEN_KEEP,
};
#[allow(unused_imports)]
use crate::tuner_model::{
    after, attempted, batch_grid, committed, considered, entered, expanded_parent, flagged, fresh,
    gated, initial, offered, on_appraisal, on_beam, on_coverage, on_expansion, on_fit, on_order,
    on_pairs, on_refine_values, on_stability, on_trial, on_verification, passed_over, placed,
    probe_value, probed, queued, refitted_each, rejected_key, say, split, stepped, under_each,
    with_each, with_pairs, worked, AskV, Probe, Reply, RunV, SearchPlan, Stage, TunerAids,
};

verus! {

/// A plan with or without an oracle.
pub open spec fn with_oracle(plan: SearchPlan, oracle: bool) -> SearchPlan {
    SearchPlan { aids: TunerAids { oracle, ..plan.aids }, ..plan }
}

/// Whether two runs are the same but for whether they were given an oracle
/// that did not answer, and for what they said of it.
pub open spec fn agrees(s: RunV, t: RunV) -> bool {
    &&& s.plan.params == t.plan.params
    &&& s.plan.space == t.plan.space
    &&& s.plan.aids.screen == t.plan.aids.screen
    &&& s.edge is None
    &&& s.at != Stage::Start
    &&& s.at != Stage::AwaitFit
    &&& s == (RunV { plan: s.plan, lines: s.lines, ..t })
}

/// Whether two transitions ask the same and lead to runs that agree.
pub open spec fn agreeing(p: (RunV, AskV), q: (RunV, AskV)) -> bool {
    agrees(p.0, q.0) && p.1 == q.1
}

proof fn lemma_fresh(s: RunV, t: RunV, list: Seq<OverridesV>)
    requires
        agrees(s, t),
    ensures
        fresh(s, list) == fresh(t, list),
    decreases list.len(),
{
    if list.len() > 0 {
        lemma_fresh(s, t, list.drop_last());
    }
}

proof fn lemma_passed_over(s: RunV, t: RunV)
    requires
        agrees(s, t),
    ensures
        agreeing(passed_over(s), passed_over(t)),
{
}

proof fn lemma_committed(s: RunV, t: RunV, c: OverridesV)
    requires
        agrees(s, t),
    ensures
        agreeing(committed(s, c), committed(t, c)),
{
    lemma_passed_over(s, t);
}

proof fn lemma_considered(s: RunV, t: RunV, c: OverridesV)
    requires
        agrees(s, t),
    ensures
        agreeing(considered(s, c), considered(t, c)),
{
    let (s1, open) = gated(s);
    let (t1, also) = gated(t);
    assert(agrees(s1, t1) && open == also);
    lemma_passed_over(s1, t1);
    lemma_committed(s1, t1, c);
}

proof fn lemma_placed(s: RunV, t: RunV, list: Seq<OverridesV>)
    requires
        agrees(s, t),
    ensures
        agreeing(placed(s, list), placed(t, list)),
{
    lemma_fresh(s, t, list);
}

proof fn lemma_offered(s: RunV, t: RunV, list: Seq<OverridesV>, keep: int)
    requires
        agrees(s, t),
    ensures
        agreeing(offered(s, list, keep), offered(t, list, keep)),
{
    lemma_placed(RunV { keep, ..s }, RunV { keep, ..t }, list);
}

proof fn lemma_entered(s: RunV, t: RunV)
    requires
        agrees(s, t),
    ensures
        agreeing(entered(s), entered(t)),
{
}

proof fn lemma_probed(s: RunV, t: RunV)
    requires
        agrees(s, t),
    ensures
        agreeing(probed(s), probed(t)),
{
    let step = s.step + 1;
    lemma_considered(
        RunV { step, ..s },
        RunV { step, ..t },
        overlaid(
            s.baseline,
            number_overlay(
                placement_key(s.plan.space.is_moe),
                probe_value(s, step),
            ),
        ),
    );
}

proof fn lemma_expanded_parent(s: RunV, t: RunV, parent: OverridesV)
    requires
        agrees(s, t),
    ensures
        agreeing(expanded_parent(s, parent), expanded_parent(t, parent)),
{
    match s.phase {
        Phase::Batching => {
            lemma_offered(
                RunV { oomed: seq![], ..s },
                RunV { oomed: seq![], ..t },
                batch_grid(
                    parent,
                    s.plan.space.ubatch_candidates@,
                    s.plan.space.batch_candidates@,
                ),
                SCREEN_KEEP as int,
            );
        },
        Phase::Threads => {
            lemma_offered(
                s,
                t,
                with_each(
                    parent,
                    "Threads"@,
                    s.plan.space.thread_candidates@,
                ),
                SCREEN_KEEP as int,
            );
        },
        Phase::KvTypes => {
            lemma_offered(
                s,
                t,
                with_pairs(parent, s.pairs),
                SCREEN_KEEP as int,
            );
        },
        _ => {},
    }
}

proof fn lemma_worked(s: RunV, t: RunV)
    requires
        agrees(s, t),
    ensures
        agreeing(worked(s), worked(t)),
{
    if s.phase == Phase::KvRecovery {
        if s.pairs.len() > 0 {
            lemma_considered(
                RunV { pair: s.pairs[0], pairs: s.pairs.skip(1), ..s },
                RunV { pair: s.pairs[0], pairs: s.pairs.skip(1), ..t },
                overlaid(s.baseline, kv_overlay(s.pairs[0])),
            );
        }
    } else if s.phase == Phase::VramFit && s.probe != Probe::Off {
        lemma_probed(s, t);
    } else if s.queue.len() > 0 {
        lemma_considered(
            RunV { queue: s.queue.skip(1), ..s },
            RunV { queue: s.queue.skip(1), ..t },
            s.queue[0],
        );
    } else if s.parents.len() > 0 {
        lemma_expanded_parent(
            RunV { parents: s.parents.skip(1), ..s },
            RunV { parents: s.parents.skip(1), ..t },
            s.parents[0],
        );
    }
}

proof fn lemma_on_trial(s: RunV, t: RunV, trial: TrialFacts)
    requires
        agrees(s, t),
    ensures
        agreeing(on_trial(s, trial), on_trial(t, trial)),
{
}

proof fn lemma_on_beam(s: RunV, t: RunV, ids: Seq<i64>, score: Seq<char>)
    requires
        agrees(s, t),
    ensures
        agreeing(on_beam(s, ids, score), on_beam(t, ids, score)),
{
}

proof fn lemma_on_appraisal(
    s: RunV,
    t: RunV,
    rejection: Option<String>,
    fit: Option<FitPlacement>,
)
    requires
        agrees(s, t),
    ensures
        agreeing(on_appraisal(s, rejection, fit), on_appraisal(t, rejection, fit)),
{
    let key = rejected_key(s.phase, s.pending);
    lemma_passed_over(s, t);
    lemma_passed_over(RunV { seen: s.seen.push(key), ..s }, RunV { seen: s.seen.push(key), ..t });
    lemma_committed(s, t, s.pending);
    match fit {
        Some(f) => {
            let is_moe = s.plan.space.is_moe;
            match refit_value(f, s.pending, is_moe, s.slack) {
                Some(value) => {
                    lemma_committed(
                        say(s, seq![]),
                        say(t, seq![]),
                        overlaid(
                            s.pending,
                            number_overlay(
                                placement_key(is_moe),
                                value,
                            ),
                        ),
                    );
                },
                None => {},
            }
        },
        None => {},
    }
}

proof fn lemma_attempted(s: RunV, t: RunV)
    requires
        agrees(s, t),
    ensures
        agreeing(attempted(s), attempted(t)),
{
}

proof fn lemma_on_pairs(s: RunV, t: RunV, pairs: Seq<KvPair>)
    requires
        agrees(s, t),
    ensures
        agreeing(on_pairs(s, pairs), on_pairs(t, pairs)),
{
}

proof fn lemma_on_coverage(s: RunV, t: RunV, list: Seq<OverridesV>, planned: nat, skipped: nat)
    requires
        agrees(s, t),
    ensures
        agreeing(on_coverage(s, list, planned, skipped), on_coverage(t, list, planned, skipped)),
{
}

proof fn lemma_queued(s: RunV, t: RunV, list: Seq<OverridesV>)
    requires
        agrees(s, t),
    ensures
        agreeing(queued(s, list), queued(t, list)),
{
}

proof fn lemma_split(s: RunV, t: RunV, valid: Seq<OverridesV>, invalid: Seq<OverridesV>)
    requires
        agrees(s, t),
    ensures
        agreeing(split(s, valid, invalid), split(t, valid, invalid)),
{
}

proof fn lemma_on_order(s: RunV, t: RunV, order: Option<Vec<usize>>)
    requires
        agrees(s, t),
    ensures
        agreeing(on_order(s, order), on_order(t, order)),
{
}

proof fn lemma_on_expansion(s: RunV, t: RunV, list: Seq<OverridesV>)
    requires
        agrees(s, t),
    ensures
        agreeing(on_expansion(s, list), on_expansion(t, list)),
{
    lemma_offered(s, t, list, s.keep);
}

proof fn lemma_on_refine_values(s: RunV, t: RunV, fine: Seq<i64>, edge: Seq<i64>)
    requires
        agrees(s, t),
    ensures
        agreeing(on_refine_values(s, fine, edge), on_refine_values(t, fine, edge)),
{
}

proof fn lemma_on_stability(s: RunV, t: RunV, groups: nat)
    requires
        agrees(s, t),
    ensures
        agreeing(on_stability(s, groups), on_stability(t, groups)),
{
}

proof fn lemma_on_verification(s: RunV, t: RunV, trial: TrialFacts)
    requires
        agrees(s, t),
    ensures
        agreeing(on_verification(s, trial), on_verification(t, trial)),
{
}

/// Runs that agree answer the same reply with the same question and go on
/// agreeing.
proof fn lemma_stepped(s: RunV, t: RunV, reply: Reply)
    requires
        agrees(s, t),
    ensures
        agreeing(stepped(s, reply), stepped(t, reply)),
{
    reveal(stepped);
    match (s.at, reply) {
        (Stage::Enter, Reply::Proceed) => lemma_entered(s, t),
        (Stage::Work, Reply::Proceed) => lemma_worked(s, t),
        (Stage::Attempt, Reply::Proceed) => lemma_attempted(s, t),
        (Stage::AwaitAppraisal, Reply::Appraisal(rejection, fit)) => lemma_on_appraisal(
            s,
            t,
            rejection,
            fit,
        ),
        (Stage::AwaitTrial, Reply::Trial(trial)) => lemma_on_trial(s, t, trial),
        (Stage::AwaitPairs, Reply::KvPairs(pairs)) => lemma_on_pairs(s, t, pairs@),
        (Stage::AwaitCoverage, Reply::MoeCoverage(list, planned, skipped)) => lemma_on_coverage(
            s,
            t,
            all_views(list@),
            planned as nat,
            skipped as nat,
        ),
        (Stage::AwaitDense, Reply::Worklist(list)) => lemma_queued(
            s,
            t,
            under_each(s.baseline, all_views(list@)),
        ),
        (Stage::AwaitBeam, Reply::Beam(ids, score)) => lemma_on_beam(s, t, ids@, score@),
        (Stage::AwaitPlacements, Reply::Placements(fits)) => lemma_placed(
            s,
            t,
            refitted_each(s.queue, fits@, s.plan.space.is_moe, s.slack),
        ),
        (Stage::AwaitRejections, Reply::Rejections(flags)) => lemma_split(
            s,
            t,
            flagged(s.queue, flags@, false),
            flagged(s.queue, flags@, true),
        ),
        (Stage::AwaitOrder, Reply::Order(order)) => lemma_on_order(s, t, order),
        (Stage::AwaitExpansion, Reply::Worklist(list)) => lemma_on_expansion(
            s,
            t,
            all_views(list@),
        ),
        (Stage::AwaitRefineValues, Reply::RefineValues(fine, edge)) => lemma_on_refine_values(
            s,
            t,
            fine@,
            edge@,
        ),
        (Stage::AwaitStability, Reply::Stability(groups)) => lemma_on_stability(
            s,
            t,
            groups as nat,
        ),
        (Stage::AwaitVerification, Reply::Trial(trial)) => lemma_on_verification(s, t, trial),
        _ => {},
    }
}

/// The first question after the oracle's silence is the one without it.
proof fn lemma_silence(plan: SearchPlan)
    ensures
        ({
            let asked = stepped(initial(with_oracle(plan, true)), Reply::Proceed).0;
            agreeing(
                stepped(asked, Reply::Placement(None)),
                stepped(initial(with_oracle(plan, false)), Reply::Proceed),
            )
        }),
{
    reveal(stepped);
    let s = initial(with_oracle(plan, true));
    let t = initial(with_oracle(plan, false));
    let asked = stepped(s, Reply::Proceed).0;
    let a = on_fit(asked, None);
    let b = stepped(t, Reply::Proceed);
    assert(a.0.edge is None);
    assert(b.0.edge is None);
}

/// What the last of a sequence of replies is answered with.
pub open spec fn asked(plan: SearchPlan, replies: Seq<Reply>) -> AskV
    recommends
        replies.len() > 0,
{
    stepped(after(plan, replies.drop_last()), replies.last()).1
}

/// An oracle that gives no answer leaves the search in charge: from then on,
/// whatever is replied, the run asks for the same trials in the same order as
/// a run without one, and both end the same way with the same winner.
pub proof fn law_a_silent_oracle_changes_nothing(plan: SearchPlan, rest: Seq<Reply>)
    ensures
        ({
            let aided = seq![Reply::Proceed, Reply::Placement(None)] + rest;
            let alone = seq![Reply::Proceed] + rest;
            let s = after(with_oracle(plan, true), aided);
            let t = after(with_oracle(plan, false), alone);
            &&& asked(with_oracle(plan, true), aided) == asked(with_oracle(plan, false), alone)
            &&& agrees(s, t)
            &&& s.at == t.at
            &&& s.trials == t.trials
            &&& s.history == t.history
            &&& s.winner == t.winner
        }),
    decreases rest.len(),
{
    let with = with_oracle(plan, true);
    let without = with_oracle(plan, false);
    let head = seq![Reply::Proceed, Reply::Placement(None)];
    let start = seq![Reply::Proceed];
    let aided = head + rest;
    let alone = start + rest;
    if rest.len() == 0 {
        assert(aided =~= head);
        assert(alone =~= start);
        assert(head.drop_last() =~= start);
        assert(start.drop_last() =~= seq![]);
        assert(after(with, seq![]) == initial(with));
        assert(after(without, seq![]) == initial(without));
        assert(after(with, start) == stepped(initial(with), Reply::Proceed).0);
        lemma_silence(plan);
    } else {
        assert(aided.drop_last() =~= head + rest.drop_last());
        assert(alone.drop_last() =~= start + rest.drop_last());
        law_a_silent_oracle_changes_nothing(plan, rest.drop_last());
        lemma_stepped(
            after(with, aided.drop_last()),
            after(without, alone.drop_last()),
            rest.last(),
        );
    }
}

} // verus!
