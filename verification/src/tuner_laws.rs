//! What holds of every run of the search, whatever its driver replies.
use vstd::prelude::*;

#[allow(unused_imports)]
use crate::overrides::{all_views, ordered, overlaid, signature, OverridesV};
#[allow(unused_imports)]
use crate::tuner::{
    dominated, kv_overlay, larger, law_refit_settles, number_overlay, placement_key, refit_value,
    search_share, FitPlacement, KvPair, Phase, TrialFacts, SCREEN_KEEP,
    SCREEN_MIN_SAVED, SLACK_LIMIT,
};
#[allow(unused_imports)]
use crate::tuner_model::{
    after, attempted, batch_grid, batch_of, beam_of, considered, entered, expanded_parent, find_id,
    fit_in_range, offered, on_appraisal, on_beam, on_coverage, on_expansion, on_fit, on_order, on_pairs,
    on_refine_values, on_stability, on_trial, on_verification, placed, seen_key, AskV, probed,
    queued, flagged, refitted_each, under_each, probe_value, reply_in_range, sound, split, started,
    stepped, with_each, with_pairs, without_signature, worked, MeasuredV, Probe, Reply, RunV,
    SearchPlan, Stage,
};

verus! {

/// What a transition from `s` may do: it spends a trial exactly when it asks
/// for one; a search trial stays within the search's share of the budget and
/// within its phase's ceiling, and is of a configuration that its phase has
/// not measured; a verification trial stays within the whole budget; and only
/// a usable verification trial makes a winner.
#[verifier::opaque]
pub open spec fn disciplined(s: RunV, next: (RunV, AskV)) -> bool {
    let t = next.0;
    &&& sound(t)
    &&& t.plan == s.plan
    &&& match next.1 {
        AskV::Trial(c, Phase::Verify) => {
            &&& t.trials == s.trials + 1
            &&& t.trials <= s.plan.params.budget
            &&& t.seen == s.seen
        },
        AskV::Trial(c, phase) => {
            &&& phase == t.phase
            &&& t.trials == s.trials + 1
            &&& t.trials <= search_share(s.plan.params.budget as int)
            &&& t.gate matches Some(g) && g.phase == phase && t.trials <= g.ceiling
            &&& !s.seen.contains(seen_key(phase, c))
            &&& t.seen == s.seen.push(seen_key(phase, c))
        },
        _ => {
            &&& t.trials == s.trials
            &&& t.seen == s.seen || exists|key: Seq<char>|
                !s.seen.contains(key) && t.seen == #[trigger] s.seen.push(key)
        },
    }
    &&& t.winner == s.winner || (s.at == Stage::AwaitVerification && t.winner == Some(s.pending))
}

proof fn lemma_considered(s: RunV, c: OverridesV)
    requires
        sound(s),
        s.phase != Phase::Verify,
    ensures
        disciplined(s, considered(s, c)),
        sound(considered(s, c).0),
{
    reveal(disciplined);
}

proof fn lemma_offered(s: RunV, list: Seq<OverridesV>, keep: int)
    requires
        sound(s),
        s.phase != Phase::Verify,
        0 <= keep,
    ensures
        disciplined(s, offered(s, list, keep)),
        sound(offered(s, list, keep).0),
{
    reveal(disciplined);
}

proof fn lemma_on_fit(s: RunV, fit: Option<FitPlacement>)
    requires
        sound(s),
        s.at == Stage::Start || s.at == Stage::AwaitFit,
        fit_in_range(fit),
    ensures
        disciplined(s, on_fit(s, fit)),
        sound(on_fit(s, fit).0),
{
    reveal(disciplined);
}

proof fn lemma_started(s: RunV)
    requires
        sound(s),
        s.at == Stage::Start,
    ensures
        disciplined(s, started(s)),
        sound(started(s).0),
{
    reveal(disciplined);
}

proof fn lemma_entered(s: RunV)
    requires
        sound(s),
        s.at == Stage::Enter,
    ensures
        disciplined(s, entered(s)),
        sound(entered(s).0),
{
    reveal(disciplined);
}

proof fn lemma_probed(s: RunV)
    requires
        sound(s),
        s.at == Stage::Work,
        s.phase == Phase::VramFit,
        s.probe != Probe::Off,
    ensures
        disciplined(s, probed(s)),
        sound(probed(s).0),
{
    reveal(disciplined);
    if s.step < SLACK_LIMIT {
        lemma_considered(
            RunV { step: s.step + 1, ..s },
            overlaid(
                s.baseline,
                number_overlay(placement_key(s.plan.space.is_moe), probe_value(s, s.step + 1)),
            ),
        );
    }
}

proof fn lemma_expanded(s: RunV, parent: OverridesV)
    requires
        sound(s),
        s.at == Stage::Work,
    ensures
        disciplined(s, expanded_parent(s, parent)),
        sound(expanded_parent(s, parent).0),
{
    reveal(disciplined);
    let t = RunV { oomed: seq![], ..s };
    let space = s.plan.space;
    lemma_offered(
        t,
        batch_grid(parent, space.ubatch_candidates@, space.batch_candidates@),
        SCREEN_KEEP as int,
    );
    lemma_offered(s, with_each(parent, "Threads"@, space.thread_candidates@), SCREEN_KEEP as int);
    lemma_offered(s, with_pairs(parent, s.pairs), SCREEN_KEEP as int);
}

proof fn lemma_worked(s: RunV)
    requires
        sound(s),
        s.at == Stage::Work,
    ensures
        disciplined(s, worked(s)),
        sound(worked(s).0),
{
    reveal(disciplined);
    if s.phase == Phase::KvRecovery {
        if s.pairs.len() > 0 {
            lemma_considered(
                RunV { pair: s.pairs[0], pairs: s.pairs.skip(1), ..s },
                overlaid(s.baseline, kv_overlay(s.pairs[0])),
            );
        }
    } else if s.phase == Phase::VramFit && s.probe != Probe::Off {
        lemma_probed(s);
    } else if s.queue.len() > 0 {
        lemma_considered(RunV { queue: s.queue.skip(1), ..s }, s.queue[0]);
    } else if s.parents.len() > 0 {
        lemma_expanded(RunV { parents: s.parents.skip(1), ..s }, s.parents[0]);
    }
}

proof fn lemma_on_appraisal(s: RunV, rejection: Option<String>, fit: Option<FitPlacement>)
    requires
        sound(s),
        s.at == Stage::AwaitAppraisal,
    ensures
        disciplined(s, on_appraisal(s, rejection, fit)),
        sound(on_appraisal(s, rejection, fit).0),
{
    reveal(disciplined);
}

proof fn lemma_on_trial(s: RunV, trial: TrialFacts)
    requires
        sound(s),
        s.at == Stage::AwaitTrial,
    ensures
        disciplined(s, on_trial(s, trial)),
        sound(on_trial(s, trial).0),
{
    reveal(disciplined);
}

proof fn lemma_on_beam(s: RunV, ids: Seq<i64>, score: Seq<char>)
    requires
        sound(s),
        s.at == Stage::AwaitBeam,
    ensures
        disciplined(s, on_beam(s, ids, score)),
        sound(on_beam(s, ids, score).0),
{
    reveal(disciplined);
}

proof fn lemma_on_attempt(s: RunV)
    requires
        sound(s),
        s.at == Stage::Attempt,
    ensures
        disciplined(s, attempted(s)),
        sound(attempted(s).0),
{
    reveal(disciplined);
}

proof fn lemma_on_verification(s: RunV, trial: TrialFacts)
    requires
        sound(s),
        s.at == Stage::AwaitVerification,
    ensures
        disciplined(s, on_verification(s, trial)),
        sound(on_verification(s, trial).0),
{
    reveal(disciplined);
}

proof fn lemma_on_stability(s: RunV, groups: nat)
    requires
        sound(s),
        s.at == Stage::AwaitStability,
    ensures
        disciplined(s, on_stability(s, groups)),
        sound(on_stability(s, groups).0),
{
    reveal(disciplined);
}

proof fn lemma_on_pairs(s: RunV, pairs: Seq<KvPair>)
    requires
        sound(s),
        s.at == Stage::AwaitPairs,
    ensures
        disciplined(s, on_pairs(s, pairs)),
        sound(on_pairs(s, pairs).0),
{
    reveal(disciplined);
}

proof fn lemma_queued(s: RunV, list: Seq<OverridesV>)
    requires
        sound(s),
        s.phase != Phase::Verify,
    ensures
        disciplined(s, queued(s, list)),
        sound(queued(s, list).0),
{
    reveal(disciplined);
}

proof fn lemma_on_coverage(s: RunV, list: Seq<OverridesV>, planned: nat, skipped: nat)
    requires
        sound(s),
        s.at == Stage::AwaitCoverage,
    ensures
        disciplined(s, on_coverage(s, list, planned, skipped)),
        sound(on_coverage(s, list, planned, skipped).0),
{
    reveal(disciplined);
}

proof fn lemma_placed(s: RunV, list: Seq<OverridesV>)
    requires
        sound(s),
        s.phase != Phase::Verify,
    ensures
        disciplined(s, placed(s, list)),
        sound(placed(s, list).0),
{
    reveal(disciplined);
}

proof fn lemma_split(s: RunV, valid: Seq<OverridesV>, invalid: Seq<OverridesV>)
    requires
        sound(s),
        s.phase != Phase::Verify,
    ensures
        disciplined(s, split(s, valid, invalid)),
        sound(split(s, valid, invalid).0),
{
    reveal(disciplined);
}

proof fn lemma_on_order(s: RunV, order: Option<Vec<usize>>)
    requires
        sound(s),
        s.at == Stage::AwaitOrder,
    ensures
        disciplined(s, on_order(s, order)),
        sound(on_order(s, order).0),
{
    reveal(disciplined);
}

proof fn lemma_on_expansion(s: RunV, list: Seq<OverridesV>)
    requires
        sound(s),
        s.at == Stage::AwaitExpansion,
    ensures
        disciplined(s, on_expansion(s, list)),
        sound(on_expansion(s, list).0),
{
    lemma_offered(s, list, s.keep);
    lemma_queued(s, list);
}

proof fn lemma_on_refine_values(s: RunV, fine: Seq<i64>, edge: Seq<i64>)
    requires
        sound(s),
        s.at == Stage::AwaitRefineValues,
    ensures
        disciplined(s, on_refine_values(s, fine, edge)),
        sound(on_refine_values(s, fine, edge).0),
{
    reveal(disciplined);
}

proof fn lemma_unmoved(s: RunV)
    requires
        sound(s),
    ensures
        disciplined(s, (s, AskV::Proceed)),
{
    reveal(disciplined);
}

/// Every transition is disciplined and keeps what holds between transitions.
#[verifier::rlimit(40)]
pub proof fn law_every_transition_is_disciplined(s: RunV, reply: Reply)
    requires
        sound(s),
        reply_in_range(reply),
    ensures
        disciplined(s, stepped(s, reply)),
        sound(stepped(s, reply).0),
{
    reveal(stepped);
    match (s.at, reply) {
        (Stage::Start, Reply::Proceed) => lemma_started(s),
        (Stage::Enter, Reply::Proceed) => lemma_entered(s),
        (Stage::Work, Reply::Proceed) => lemma_worked(s),
        (Stage::Attempt, Reply::Proceed) => lemma_on_attempt(s),
        (Stage::AwaitFit, Reply::Placement(fit)) => lemma_on_fit(s, fit),
        (Stage::AwaitAppraisal, Reply::Appraisal(rejection, fit)) => lemma_on_appraisal(
            s,
            rejection,
            fit,
        ),
        (Stage::AwaitTrial, Reply::Trial(trial)) => lemma_on_trial(s, trial),
        (Stage::AwaitPairs, Reply::KvPairs(pairs)) => lemma_on_pairs(s, pairs@),
        (Stage::AwaitCoverage, Reply::MoeCoverage(list, planned, skipped)) => lemma_on_coverage(
            s,
            all_views(list@),
            planned as nat,
            skipped as nat,
        ),
        (Stage::AwaitDense, Reply::Worklist(list)) => lemma_queued(
            s,
            under_each(s.baseline, all_views(list@)),
        ),
        (Stage::AwaitBeam, Reply::Beam(ids, score)) => lemma_on_beam(s, ids@, score@),
        (Stage::AwaitPlacements, Reply::Placements(fits)) => lemma_placed(
            s,
            refitted_each(s.queue, fits@, s.plan.space.is_moe, s.slack),
        ),
        (Stage::AwaitRejections, Reply::Rejections(flags)) => lemma_split(
            s,
            flagged(s.queue, flags@, false),
            flagged(s.queue, flags@, true),
        ),
        (Stage::AwaitOrder, Reply::Order(order)) => lemma_on_order(s, order),
        (Stage::AwaitExpansion, Reply::Worklist(list)) => lemma_on_expansion(s, all_views(list@)),
        (Stage::AwaitRefineValues, Reply::RefineValues(fine, edge)) => lemma_on_refine_values(
            s,
            fine@,
            edge@,
        ),
        (Stage::AwaitStability, Reply::Stability(groups)) => lemma_on_stability(s, groups as nat),
        (Stage::AwaitVerification, Reply::Trial(trial)) => lemma_on_verification(s, trial),
        _ => lemma_unmoved(s),
    }
}

// ---------------------------------------------------------------------------
// Whole runs
// ---------------------------------------------------------------------------
/// Whether every reply's placements are in range.
pub open spec fn replies_in_range(replies: Seq<Reply>) -> bool {
    forall|i: int| 0 <= i < replies.len() ==> reply_in_range(#[trigger] replies[i])
}

proof fn lemma_prefix_in_range(replies: Seq<Reply>)
    requires
        replies_in_range(replies),
        replies.len() > 0,
    ensures
        replies_in_range(replies.drop_last()),
        reply_in_range(replies.last()),
{
    assert forall|i: int| 0 <= i < replies.drop_last().len() implies reply_in_range(
        #[trigger] replies.drop_last()[i],
    ) by {
        assert(replies.drop_last()[i] == replies[i]);
    }
    assert(replies.last() == replies[replies.len() - 1]);
}

/// Whatever is replied, a run never spends more trials than its budget (or
/// one, if its budget allows none), and its search leaves the verification
/// ladder its share.
pub proof fn law_a_run_stays_within_its_budget(plan: SearchPlan, replies: Seq<Reply>)
    requires
        replies_in_range(replies),
    ensures
        ({
            let s = after(plan, replies);
            let budget = plan.params.budget as int;
            &&& sound(s)
            &&& s.plan == plan
            &&& s.trials <= larger(budget, 1)
            &&& s.phase != Phase::Verify ==> s.trials <= search_share(budget)
        }),
    decreases replies.len(),
{
    if replies.len() > 0 {
        lemma_prefix_in_range(replies);
        law_a_run_stays_within_its_budget(plan, replies.drop_last());
        let s = after(plan, replies.drop_last());
        law_every_transition_is_disciplined(s, replies.last());
        reveal(disciplined);
    }
}

/// Whatever is replied, no phase measures one configuration twice.
pub proof fn law_no_phase_repeats_a_configuration(plan: SearchPlan, replies: Seq<Reply>)
    requires
        replies_in_range(replies),
    ensures
        after(plan, replies).seen.no_duplicates(),
    decreases replies.len(),
{
    if replies.len() > 0 {
        lemma_prefix_in_range(replies);
        law_no_phase_repeats_a_configuration(plan, replies.drop_last());
        law_a_run_stays_within_its_budget(plan, replies.drop_last());
        let s = after(plan, replies.drop_last());
        law_every_transition_is_disciplined(s, replies.last());
        reveal(disciplined);
        let t = stepped(s, replies.last()).0;
        if t.seen != s.seen {
            let key = t.seen.last();
            assert(t.seen =~= s.seen.push(key));
            assert(!s.seen.contains(key));
            assert forall|i: int, j: int|
                0 <= i < t.seen.len() && 0 <= j < t.seen.len() && i != j implies t.seen[i]
                != t.seen[j] by {
                if i < s.seen.len() && j < s.seen.len() {
                    assert(t.seen[i] == s.seen[i] && t.seen[j] == s.seen[j]);
                } else if i < s.seen.len() {
                    assert(s.seen.contains(s.seen[i]));
                } else {
                    assert(s.seen.contains(s.seen[j]));
                }
            }
        }
    }
}

/// Whether some verification trial of the run was usable, of `winner`.
pub open spec fn verified_by(plan: SearchPlan, replies: Seq<Reply>, winner: OverridesV) -> bool {
    exists|i: int|
        {
            &&& 0 <= i < replies.len()
            &&& (#[trigger] replies[i]) matches Reply::Trial(trial) && trial.usable
            &&& after(plan, replies.take(i)).at == Stage::AwaitVerification
            &&& after(plan, replies.take(i)).pending == winner
        }
}

/// A run hands over only what a fresh verification trial confirmed.
pub proof fn law_a_winner_is_verified(plan: SearchPlan, replies: Seq<Reply>)
    requires
        replies_in_range(replies),
    ensures
        after(plan, replies).winner matches Some(w) ==> verified_by(plan, replies, w),
    decreases replies.len(),
{
    if replies.len() > 0 {
        let front = replies.drop_last();
        lemma_prefix_in_range(replies);
        law_a_run_stays_within_its_budget(plan, front);
        law_a_winner_is_verified(plan, front);
        let s = after(plan, front);
        let t = after(plan, replies);
        lemma_winner_source(s, replies.last());
        if t.winner is Some {
            let w = t.winner.unwrap();
            if t.winner == s.winner {
                let i = choose|i: int|
                    {
                        &&& 0 <= i < front.len()
                        &&& (#[trigger] front[i]) matches Reply::Trial(trial) && trial.usable
                        &&& after(plan, front.take(i)).at == Stage::AwaitVerification
                        &&& after(plan, front.take(i)).pending == w
                    };
                assert(replies[i] == front[i]);
                assert(replies.take(i) =~= front.take(i));
            } else {
                let i = replies.len() - 1;
                assert(replies[i] == replies.last());
                assert(replies.take(i) =~= front);
            }
        }
    }
}

#[verifier::rlimit(40)]
proof fn lemma_winner_source(s: RunV, reply: Reply)
    requires
        sound(s),
        reply_in_range(reply),
    ensures
        stepped(s, reply).0.winner == s.winner || (s.at == Stage::AwaitVerification && (
        reply matches Reply::Trial(trial) && trial.usable) && stepped(s, reply).0.winner == Some(
            s.pending,
        )),
{
    law_every_transition_is_disciplined(s, reply);
    reveal(disciplined);
    if s.at == Stage::AwaitVerification {
        reveal(stepped);
    }
}

/// What the `i`th of a sequence of replies is answered with.
pub open spec fn asked_at(plan: SearchPlan, replies: Seq<Reply>, i: int) -> AskV {
    stepped(after(plan, replies.take(i)), replies[i]).1
}

/// Whether no measured candidate has a signature.
pub open spec fn lacks_signature(history: Seq<MeasuredV>, sig: Seq<char>) -> bool {
    forall|k: int| 0 <= k < history.len() ==> signature((#[trigger] history[k]).overrides) != sig
}

/// Whether a run has put the configuration of a signature to its verification
/// trial: the trial is under way, or the configuration is gone from the
/// history, or the run is over.
pub open spec fn tried(s: RunV, sig: Seq<char>) -> bool {
    &&& s.phase == Phase::Verify
    &&& match s.at {
        Stage::Finished => true,
        Stage::AwaitVerification => signature(s.pending) == sig || lacks_signature(s.history, sig),
        Stage::Attempt | Stage::AwaitBeam => lacks_signature(s.history, sig),
        _ => false,
    }
}

proof fn lemma_without_signature(history: Seq<MeasuredV>, sig: Seq<char>, other: Seq<char>)
    ensures
        lacks_signature(without_signature(history, sig), sig),
        lacks_signature(history, other) ==> lacks_signature(without_signature(history, sig), other),
    decreases history.len(),
{
    if history.len() > 0 {
        let front = history.drop_last();
        lemma_without_signature(front, sig, other);
        if lacks_signature(history, other) {
            assert forall|k: int| 0 <= k < front.len() implies signature(
                (#[trigger] front[k]).overrides,
            ) != other by {
                assert(front[k] == history[k]);
            }
            assert(signature(history[history.len() - 1].overrides) != other);
        }
    }
}

proof fn lemma_found_is_in_history(history: Seq<MeasuredV>, id: int)
    ensures
        find_id(history, id) matches Some(m) ==> history.contains(m),
    decreases history.len(),
{
    if history.len() > 0 {
        let front = history.drop_last();
        lemma_found_is_in_history(front, id);
        if history.last().id == id {
            assert(history[history.len() - 1] == history.last());
        } else {
            match find_id(front, id) {
                Some(m) => {
                    let k = choose|k: int| 0 <= k < front.len() && front[k] == m;
                    assert(history[k] == m);
                },
                None => {},
            }
        }
    }
}

proof fn lemma_beam_lacks(history: Seq<MeasuredV>, ids: Seq<i64>, sig: Seq<char>)
    requires
        lacks_signature(history, sig),
    ensures
        forall|k: int|
            0 <= k < beam_of(history, ids).len() ==> signature(
                #[trigger] beam_of(history, ids)[k],
            ) != sig,
    decreases ids.len(),
{
    if ids.len() > 0 {
        lemma_beam_lacks(history, ids.drop_last(), sig);
        lemma_found_is_in_history(history, ids.last() as int);
        match find_id(history, ids.last() as int) {
            Some(m) => {
                let k = choose|k: int| 0 <= k < history.len() && history[k] == m;
                assert(signature(history[k].overrides) != sig);
                let front = beam_of(history, ids.drop_last());
                assert forall|i: int| 0 <= i < beam_of(history, ids).len() implies signature(
                    #[trigger] beam_of(history, ids)[i],
                ) != sig by {
                    if i < front.len() {
                        assert(beam_of(history, ids)[i] == front[i]);
                    }
                }
            },
            None => {},
        }
    }
}

/// A configuration that was tried stays so, and is not tried again.
proof fn lemma_tried_stays(s: RunV, reply: Reply, sig: Seq<char>)
    requires
        tried(s, sig),
    ensures
        tried(stepped(s, reply).0, sig),
        stepped(s, reply).1 matches AskV::Trial(c, _) ==> signature(c) != sig,
{
    reveal(stepped);
    match (s.at, reply) {
        (Stage::AwaitVerification, Reply::Trial(trial)) => {
            lemma_without_signature(s.history, signature(s.pending), sig);
        },
        (Stage::AwaitBeam, Reply::Beam(ids, score)) => {
            lemma_beam_lacks(s.history, ids@, sig);
        },
        _ => {},
    }
}

/// A verification trial is of the configuration that is pending after it was
/// asked for.
#[verifier::rlimit(60)]
proof fn lemma_verification_is_pending(s: RunV, reply: Reply)
    requires
        sound(s),
        reply_in_range(reply),
    ensures
        stepped(s, reply).1 matches AskV::Trial(c, Phase::Verify) ==> tried(
            stepped(s, reply).0,
            signature(c),
        ),
{
    reveal(stepped);
    match (s.at, reply) {
        (Stage::AwaitTrial, Reply::Trial(trial)) => {
            assert(!(on_trial(s, trial).1 is Trial));
        },
        _ => {},
    }
}

proof fn lemma_tried_until(plan: SearchPlan, replies: Seq<Reply>, i: int, j: int)
    requires
        replies_in_range(replies),
        0 <= i < j <= replies.len(),
        asked_at(plan, replies, i) matches AskV::Trial(_, Phase::Verify),
    ensures
        asked_at(plan, replies, i) matches AskV::Trial(c, _) && tried(
            after(plan, replies.take(j)),
            signature(c),
        ),
    decreases j,
{
    let front = replies.take(j - 1);
    assert(replies.take(j).drop_last() =~= front);
    assert(replies.take(j).last() == replies[j - 1]);
    if j == i + 1 {
        assert forall|k: int| 0 <= k < front.len() implies reply_in_range(#[trigger] front[k]) by {
            assert(front[k] == replies[k]);
        }
        law_a_run_stays_within_its_budget(plan, front);
        assert(reply_in_range(replies[i]));
        lemma_verification_is_pending(after(plan, front), replies[i]);
    } else {
        lemma_tried_until(plan, replies, i, j - 1);
        match asked_at(plan, replies, i) {
            AskV::Trial(c, _) => {
                lemma_tried_stays(after(plan, front), replies[j - 1], signature(c));
            },
            _ => {},
        }
    }
}

/// Whatever is replied, no verification attempt repeats a configuration: two
/// verification trials of one run have different signatures.
pub proof fn law_no_verification_repeats_a_configuration(
    plan: SearchPlan,
    replies: Seq<Reply>,
    i: int,
    j: int,
)
    requires
        replies_in_range(replies),
        0 <= i < j < replies.len(),
        asked_at(plan, replies, i) matches AskV::Trial(_, Phase::Verify),
        asked_at(plan, replies, j) matches AskV::Trial(_, Phase::Verify),
    ensures
        match (asked_at(plan, replies, i), asked_at(plan, replies, j)) {
            (AskV::Trial(c, _), AskV::Trial(d, _)) => signature(c) != signature(d),
            _ => false,
        },
{
    lemma_tried_until(plan, replies, i, j);
    match asked_at(plan, replies, i) {
        AskV::Trial(c, _) => {
            lemma_tried_stays(after(plan, replies.take(j)), replies[j], signature(c));
        },
        _ => {},
    }
}

/// A configuration that the engine cannot create is reported, not measured.
pub proof fn law_a_rejected_configuration_is_not_measured(
    s: RunV,
    reason: String,
    fit: Option<FitPlacement>,
)
    requires
        s.at == Stage::AwaitAppraisal,
    ensures
        stepped(s, Reply::Appraisal(Some(reason), fit)).1 !is Trial,
        stepped(s, Reply::Appraisal(Some(reason), fit)).0.trials == s.trials,
{
    reveal(stepped);
}

/// What is measured after an appraisal stands at the placement that its
/// memory shape needs.
pub proof fn law_an_appraised_configuration_is_refitted(s: RunV, fit: FitPlacement)
    requires
        s.at == Stage::AwaitAppraisal,
        ordered(s.pending),
    ensures
        stepped(s, Reply::Appraisal(None, Some(fit))).1 matches AskV::Trial(c, _) ==> refit_value(
            fit,
            c,
            s.plan.space.is_moe,
            s.slack,
        ) is None,
{
    reveal(stepped);
    if refit_value(fit, s.pending, s.plan.space.is_moe, s.slack) is Some {
        law_refit_settles(fit, s.pending, s.plan.space.is_moe, s.slack, seq![]);
    }
}

/// A batch pair dominated by one that ran out of memory is not measured.
pub proof fn law_a_dominated_batch_is_not_measured(s: RunV)
    requires
        s.at == Stage::Work,
        s.phase == Phase::Batching,
        s.queue.len() > 0,
        dominated(batch_of(s.queue[0]).0, batch_of(s.queue[0]).1, s.oomed),
    ensures
        stepped(s, Reply::Proceed).1 == AskV::Proceed,
        stepped(s, Reply::Proceed).0.trials == s.trials,
        stepped(s, Reply::Proceed).0.queue == s.queue.skip(1),
{
    reveal(stepped);
}

proof fn lemma_flagged(list: Seq<OverridesV>, flags: Seq<bool>, value: bool, c: OverridesV)
    requires
        flagged(list, flags, value).contains(c),
    ensures
        exists|i: int|
            0 <= i < list.len() && #[trigger] list[i] == c && (i < flags.len() && flags[i])
                == value,
    decreases list.len(),
{
    if list.len() > 0 {
        let front = flagged(list.drop_last(), flags, value);
        if front.contains(c) {
            lemma_flagged(list.drop_last(), flags, value, c);
            let i = choose|i: int|
                0 <= i < list.drop_last().len() && #[trigger] list.drop_last()[i] == c && (i
                    < flags.len() && flags[i]) == value;
            assert(list[i] == c);
        } else {
            let all = flagged(list, flags, value);
            let k = choose|k: int| 0 <= k < all.len() && all[k] == c;
            assert(all =~= front.push(list.last()));
            assert(k == front.len()) by {
                if k < front.len() {
                    assert(front[k] == c);
                }
            }
            assert(list[list.len() - 1] == c);
        }
    }
}

/// The bench is asked only to rank configurations that can be created, and
/// only when ranking them saves enough trials.
pub proof fn law_the_screen_is_worth_running(s: RunV, flags: Vec<bool>, c: OverridesV)
    requires
        s.at == Stage::AwaitRejections,
    ensures
        stepped(s, Reply::Rejections(flags)).1 matches AskV::Order(list) ==> {
            &&& list.len() >= s.keep + SCREEN_MIN_SAVED
            &&& list.contains(c) ==> exists|i: int|
                0 <= i < s.queue.len() && #[trigger] s.queue[i] == c && !(i < flags@.len()
                    && flags@[i])
        },
{
    reveal(stepped);
    if flagged(s.queue, flags@, false).contains(c) {
        lemma_flagged(s.queue, flags@, false, c);
    }
}

} // verus!
