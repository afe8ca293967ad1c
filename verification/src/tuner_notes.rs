//! What a run tells as it goes: its lines only grow, and each says what happened.
use vstd::prelude::*;

#[allow(unused_imports)]
use crate::overrides::{number_of, signature, OverridesV};
#[allow(unused_imports)]
use crate::text::{contains, dec, dec_int, ends_with, occurs_at, starts_with};
#[allow(unused_imports)]
use crate::tuner::{
    device_text, evidence_text, oracle_note_text, phase_name, placement_key, refit_note,
    search_share, summary_text, Evidence, FitDevice, FitPlacement, Phase, TrialFacts,
};
#[allow(unused_imports)]
use crate::tuner_model::{gate_of, phase_line, probe_value, stepped, Probe, Reply, RunV, Stage};

verus! {

proof fn lemma_part(s: Seq<char>, at: int, part: Seq<char>)
    requires
        0 <= at <= s.len() - part.len(),
        forall|i: int| 0 <= i < part.len() ==> #[trigger] part[i] == s[at + i],
    ensures
        contains(s, part),
        at == 0 ==> starts_with(s, part),
        at == s.len() - part.len() ==> ends_with(s, part),
{
    assert(s.subrange(at, at + part.len()) =~= part);
    assert(occurs_at(s, part, at));
}

// ---------------------------------------------------------------------------
// Trials
// ---------------------------------------------------------------------------
/// The evidence of a trial is its log where there is one, else its manifest, and
/// nothing where there is neither.
pub proof fn law_evidence_is_the_nearest_file(e: Evidence)
    ensures
        evidence_text(None) == Seq::<char>::empty(),
        e.log_path@.len() > 0 ==> contains(evidence_text(Some(e)), e.log_path@),
        e.log_path@.len() == 0 && e.manifest_path@.len() > 0 ==> contains(
            evidence_text(Some(e)),
            e.manifest_path@,
        ),
        e.log_path@.len() == 0 && e.manifest_path@.len() == 0 ==> evidence_text(Some(e)) == Seq::<
            char,
        >::empty(),
{
    let head = " (evidence: "@;
    lemma_part(head + e.log_path@ + ")"@, head.len() as int, e.log_path@);
    lemma_part(head + e.manifest_path@ + ")"@, head.len() as int, e.manifest_path@);
}

/// The summary of a trial is its score if it was usable; else its failure, or,
/// where it has none, whether it ran out of memory. Its evidence stands behind.
pub proof fn law_a_summary_is_the_score_or_the_failure(trial: TrialFacts)
    ensures
        ends_with(summary_text(trial), evidence_text(trial.evidence)),
        trial.usable ==> starts_with(summary_text(trial), trial.score@),
        !trial.usable ==> (trial.failure matches Some(f) ==> starts_with(summary_text(trial), f@)),
        !trial.usable && trial.failure is None && trial.oom ==> starts_with(
            summary_text(trial),
            "readiness/out_of_memory"@,
        ),
        !trial.usable && trial.failure is None && !trial.oom ==> starts_with(
            summary_text(trial),
            "unusable_measurement"@,
        ),
        trial.usable ==> summary_text(trial).len() == trial.score@.len() + evidence_text(
            trial.evidence,
        ).len(),
{
    let e = evidence_text(trial.evidence);
    let t = summary_text(trial);
    lemma_part(t, t.len() - e.len(), e);
    let head = if trial.usable {
        trial.score@
    } else {
        match trial.failure {
            Some(f) => f@,
            None => if trial.oom {
                "readiness/out_of_memory"@
            } else {
                "unusable_measurement"@
            },
        }
    };
    lemma_part(t, 0, head);
}

/// Every trial is told in a line of its own: its number and the budget, its
/// phase, what was measured, and how it went.
pub proof fn law_a_trial_is_told(s: RunV, trial: TrialFacts)
    requires
        s.at == Stage::AwaitTrial,
    ensures
        ({
            let t = stepped(s, Reply::Trial(trial)).0;
            let line = t.lines[s.lines.len() as int];
            &&& t.lines.len() > s.lines.len()
            &&& t.lines.take(s.lines.len() as int) == s.lines
            &&& starts_with(
                line,
                "trial "@ + dec_int(s.trials) + "/"@ + dec_int(s.plan.params.budget as int) + " ["@
                    + phase_name(s.phase) + "] "@ + signature(s.pending) + " -> "@,
            )
            &&& ends_with(line, summary_text(trial))
        }),
{
    reveal(stepped);
    let t = stepped(s, Reply::Trial(trial)).0;
    let line = t.lines[s.lines.len() as int];
    let head = "trial "@ + dec_int(s.trials) + "/"@ + dec_int(s.plan.params.budget as int) + " ["@
        + phase_name(s.phase) + "] "@ + signature(s.pending) + " -> "@;
    assert(line == head + summary_text(trial));
    lemma_part(line, 0, head);
    lemma_part(line, head.len() as int, summary_text(trial));
    assert(t.lines.take(s.lines.len() as int) =~= s.lines);
}

/// A verified winner is told with its signature and the score it was chosen for;
/// a candidate that fails its verification is told with what the trial showed.
pub proof fn law_a_verification_is_told(s: RunV, trial: TrialFacts)
    requires
        s.at == Stage::AwaitVerification,
    ensures
        ({
            let t = stepped(s, Reply::Trial(trial)).0;
            let line = t.lines.last();
            &&& t.lines.len() == s.lines.len() + 1
            &&& t.lines.drop_last() == s.lines
            &&& trial.usable ==> starts_with(line, "winner: "@ + signature(s.pending)) && contains(
                line,
                s.previous,
            )
            &&& !trial.usable ==> starts_with(line, "verify failed for "@ + signature(s.pending))
                && contains(line, summary_text(trial))
        }),
{
    reveal(stepped);
    let t = stepped(s, Reply::Trial(trial)).0;
    let line = t.lines.last();
    let sig = signature(s.pending);
    assert(t.lines.drop_last() =~= s.lines);
    if trial.usable {
        let a = "winner: "@ + sig;
        let b = a + " ("@ + crate::tuner_model::profile_name(s.plan.params.profile) + " = "@;
        assert(line == b + s.previous + ", verified: true)"@);
        lemma_part(line, 0, a);
        lemma_part(line, b.len() as int, s.previous);
    } else {
        let a = "verify failed for "@ + sig;
        let b = a + " -> "@;
        lemma_part(line, 0, a);
        lemma_part(line, b.len() as int, summary_text(trial));
    }
}

/// The score of the last good step is what a later one is held against: a step
/// toward the GPU that spilled is told with its own score and that of the step
/// before, and a step that did not becomes the step before.
pub proof fn law_a_spill_is_told_against_the_step_before(s: RunV, trial: TrialFacts)
    requires
        s.at == Stage::AwaitTrial,
        s.phase == Phase::VramFit,
        s.probe == Probe::Toward,
        trial.usable,
    ensures
        ({
            let t = stepped(s, Reply::Trial(trial)).0;
            &&& !trial.spilled ==> t.previous == trial.score@
            &&& trial.spilled ==> t.previous == s.previous && t.lines.len() == s.lines.len() + 3
                && contains(
                t.lines[s.lines.len() as int + 1],
                " scored "@ + trial.score@ + " against "@ + s.previous,
            )
        }),
{
    reveal(stepped);
    if trial.spilled {
        reveal_strlit(" started but scored ");
        reveal_strlit(" scored ");
        let t = stepped(s, Reply::Trial(trial)).0;
        let line = t.lines[s.lines.len() as int + 1];
        let head = "oracle: "@ + placement_key(s.plan.space.is_moe) + "="@ + dec_int(
            probe_value(s, s.step),
        );
        let part = " scored "@ + trial.score@ + " against "@ + s.previous;
        assert(line == head + " started but scored "@ + trial.score@ + " against "@ + s.previous
            + " one step earlier — VRAM spilled to system memory; the edge is the step before"@);
        lemma_part(line, head.len() as int + 12, part);
    }
}

/// A usable baseline sets the score that the first step is held against.
pub proof fn law_the_baseline_sets_the_first_score(s: RunV, trial: TrialFacts)
    requires
        s.at == Stage::AwaitTrial,
        s.phase == Phase::Baseline,
    ensures
        stepped(s, Reply::Trial(trial)).0.previous == trial.score@,
        ({
            let facts = stepped(s, Reply::Trial(trial)).0.facts;
            facts.usable == trial.usable && facts.needs_memory_recovery
                == trial.needs_memory_recovery && facts.seed_failed == trial.seed_failed
        }),
{
    reveal(stepped);
}

// ---------------------------------------------------------------------------
// The fitter
// ---------------------------------------------------------------------------
/// What the fitter said at the start is told by its number, and with the device
/// it was fitted to where that is known.
pub proof fn law_a_placement_is_told(fit: FitPlacement)
    ensures
        ends_with(oracle_note_text(fit, true), device_text(fit.device)),
        ends_with(oracle_note_text(fit, false), device_text(fit.device)),
        starts_with(oracle_note_text(fit, true), "oracle: fits with NCpuMoe="@ + dec(
            fit.n_cpu_moe as nat,
        )),
        fit.gpu_layers >= 0 ==> starts_with(
            oracle_note_text(fit, false),
            "oracle: fits with NGpuLayers="@ + dec_int(fit.gpu_layers as int),
        ),
        fit.gpu_layers < 0 ==> starts_with(
            oracle_note_text(fit, false),
            "oracle: every layer fits on the GPU"@,
        ),
{
    let d = device_text(fit.device);
    let a = oracle_note_text(fit, true);
    let b = oracle_note_text(fit, false);
    lemma_part(a, a.len() - d.len(), d);
    lemma_part(b, b.len() - d.len(), d);
    lemma_part(a, 0, "oracle: fits with NCpuMoe="@ + dec(fit.n_cpu_moe as nat));
    if fit.gpu_layers >= 0 {
        lemma_part(b, 0, "oracle: fits with NGpuLayers="@ + dec_int(fit.gpu_layers as int));
    } else {
        lemma_part(b, 0, "oracle: every layer fits on the GPU"@);
    }
}

/// A device is told with its name, what is used of it and what is free.
pub proof fn law_a_device_is_told(d: FitDevice)
    ensures
        device_text(None) == Seq::<char>::empty(),
        starts_with(device_text(Some(d)), " ("@ + dec(d.used_mib as nat) + " MiB used, "@),
        contains(device_text(Some(d)), ", "@ + dec(d.free_mib as nat) + " MiB free on "@),
        ends_with(device_text(Some(d)), " MiB free on "@ + d.name@ + ")"@),
{
    reveal_strlit(" MiB used, ");
    reveal_strlit(", ");
    let t = device_text(Some(d));
    let a = " ("@ + dec(d.used_mib as nat) + " MiB used, "@;
    let b = ", "@ + dec(d.free_mib as nat) + " MiB free on "@;
    let c = " MiB free on "@ + d.name@ + ")"@;
    lemma_part(t, 0, a);
    lemma_part(t, a.len() - 2, b);
    lemma_part(t, t.len() - c.len(), c);
}

/// A move of a placement is told from what was asked to what is measured.
pub proof fn law_a_refit_is_told_from_and_to(o: OverridesV, value: int)
    ensures
        number_of(o, "NCpuMoe"@) matches Some(n) ==> starts_with(
            refit_note(o, true, value),
            "NCpuMoe "@ + dec_int(n) + " -> "@ + dec_int(value),
        ),
        number_of(o, "NCpuMoe"@) is None ==> starts_with(
            refit_note(o, true, value),
            "NCpuMoe "@ + dec_int(0) + " -> "@ + dec_int(value),
        ),
        number_of(o, "NGpuLayers"@) matches Some(n) ==> starts_with(
            refit_note(o, false, value),
            "NGpuLayers "@ + dec_int(n) + " -> "@ + dec_int(value),
        ),
        number_of(o, "NGpuLayers"@) is None ==> starts_with(
            refit_note(o, false, value),
            "NGpuLayers all -> "@ + dec_int(value),
        ),
{
    reveal_strlit("NGpuLayers ");
    reveal_strlit("all");
    reveal_strlit(" -> ");
    reveal_strlit("NGpuLayers all -> ");
    let a = refit_note(o, true, value);
    let b = refit_note(o, false, value);
    match number_of(o, "NCpuMoe"@) {
        Some(n) => lemma_part(a, 0, "NCpuMoe "@ + dec_int(n) + " -> "@ + dec_int(value)),
        None => lemma_part(a, 0, "NCpuMoe "@ + dec_int(0) + " -> "@ + dec_int(value)),
    }
    match number_of(o, "NGpuLayers"@) {
        Some(n) => lemma_part(b, 0, "NGpuLayers "@ + dec_int(n) + " -> "@ + dec_int(value)),
        None => {
            assert("NGpuLayers "@ + "all"@ + " -> "@ =~= "NGpuLayers all -> "@);
            lemma_part(b, 0, "NGpuLayers all -> "@ + dec_int(value));
        },
    }
}

/// A configuration that llama.cpp cannot create is told once in a phase, with
/// its signature and the reason, and is never measured.
pub proof fn law_a_rejection_is_told_once(
    s: RunV,
    reason: String,
    again: String,
    fit: Option<FitPlacement>,
)
    requires
        s.at == Stage::AwaitAppraisal,
        s.phase != Phase::VramFit,
        !s.seen.contains(phase_name(s.phase) + "|rejected|"@ + signature(s.pending)),
    ensures
        ({
            let (t, ask) = stepped(s, Reply::Appraisal(Some(reason), fit));
            let second = RunV { pending: s.pending, at: Stage::AwaitAppraisal, ..t };
            let (u, later) = stepped(second, Reply::Appraisal(Some(again), fit));
            &&& !(ask is Trial) && t.at == Stage::Work && t.trials == s.trials
            &&& t.lines.len() == s.lines.len() + 1 && t.lines.drop_last() == s.lines
            &&& contains(t.lines.last(), signature(s.pending)) && ends_with(
                t.lines.last(),
                reason@,
            )
            &&& !(later is Trial) && u.lines == t.lines && u.trials == s.trials
        }),
{
    reveal(stepped);
    let (t, ask) = stepped(s, Reply::Appraisal(Some(reason), fit));
    let key = phase_name(s.phase) + "|rejected|"@ + signature(s.pending);
    assert(t.seen == s.seen.push(key));
    assert(t.seen[s.seen.len() as int] == key);
    let line = t.lines.last();
    assert(t.lines.drop_last() =~= s.lines);
    let a = "oracle ["@ + phase_name(s.phase) + "]: skipped "@;
    lemma_part(line, a.len() as int, signature(s.pending));
    lemma_part(line, line.len() - reason@.len(), reason@);
}

// ---------------------------------------------------------------------------
// Phases
// ---------------------------------------------------------------------------
/// A phase that has spent its share says so once, with the trials so far, and
/// stays silent for the rest of its queue.
pub proof fn law_a_spent_phase_says_so_once(s: RunV)
    requires
        s.at == Stage::Work,
        s.queue.len() > 1,
        s.phase != Phase::KvRecovery && s.phase != Phase::Batching && (s.phase == Phase::VramFit
            ==> s.probe == Probe::Off),
        s.trials < search_share(s.plan.params.budget as int),
        s.trials >= gate_of(s).ceiling,
        !gate_of(s).announced,
    ensures
        ({
            let t = stepped(s, Reply::Proceed).0;
            let u = stepped(t, Reply::Proceed).0;
            &&& t.lines.len() == s.lines.len() + 1 && t.lines.drop_last() == s.lines
            &&& starts_with(
                t.lines.last(),
                "phase "@ + phase_name(s.phase) + ": reserve reached at "@ + dec_int(s.trials),
            )
            &&& u.lines == t.lines
        }),
{
    reveal(stepped);
    let t = stepped(s, Reply::Proceed).0;
    let line = t.lines.last();
    assert(t.lines.drop_last() =~= s.lines);
    lemma_part(
        line,
        0,
        "phase "@ + phase_name(s.phase) + ": reserve reached at "@ + dec_int(s.trials),
    );
}

/// Each phase has a name of its own, and says it when it begins.
pub proof fn law_phases_are_told_apart_by_name(a: Phase, b: Phase)
    ensures
        phase_name(a) == phase_name(b) ==> a == b,
        phase_line(a) == "phase: "@ + phase_name(a),
{
    reveal_strlit("baseline");
    reveal_strlit("kv-recovery");
    reveal_strlit("vram-fit");
    reveal_strlit("batching");
    reveal_strlit("flash-attn");
    reveal_strlit("memory-flags");
    reveal_strlit("cache-flags");
    reveal_strlit("threads");
    reveal_strlit("kv-types");
    reveal_strlit("spec-ngram");
    reveal_strlit("refine");
    reveal_strlit("verify");
    assert("baseline"@.len() == 8 && "vram-fit"@.len() == 8 && "batching"@.len() == 8
        && "kv-types"@.len() == 8);
    assert("baseline"@[2] == 's' && "vram-fit"@[2] == 'a' && "batching"@[2] == 't'
        && "kv-types"@[2] == '-');
    assert("kv-recovery"@.len() == 11 && "cache-flags"@.len() == 11);
    assert("kv-recovery"@[0] == 'k' && "cache-flags"@[0] == 'c');
    assert("flash-attn"@.len() == 10 && "spec-ngram"@.len() == 10);
    assert("flash-attn"@[0] == 'f' && "spec-ngram"@[0] == 's');
    assert("memory-flags"@.len() == 12 && "threads"@.len() == 7);
    assert("refine"@.len() == 6 && "verify"@.len() == 6);
    assert("refine"@[0] == 'r' && "verify"@[0] == 'v');
}

} // verus!
