//! What the ledger keeps of an attempt, and what its retention removes.
use vstd::prelude::*;

#[allow(unused_imports)]
use crate::diagnostics::{
    by_name, filed, first_unread, in_name_order, is_completed, kept_observation,
    law_observations_stand_by_name, line_members, maybe_member, older, reason_name, recorded,
    run_component, slotted, stage_name, AttemptV, RecordV, RunFile,
};
#[allow(unused_imports)]
use crate::json::{find_member, JsonV};
#[allow(unused_imports)]
use crate::overrides::{before, law_key_order, overrides_node};
#[allow(unused_imports)]
use crate::text::{dec, is_alphanumeric, zero_padded};
#[allow(unused_imports)]
use crate::trial::{
    capped, excerpt, integer_node, portable, recorded_args, TrialFailureReason, TrialFailureStage,
};
#[allow(unused_imports)]
use crate::trial_run::{DiagnosticV, TrialV};

verus! {

/// A record has what the trial showed and what was asked, each in its place;
/// its texts are excerpts.
pub proof fn law_a_record_says_what_the_trial_showed(
    run_id: Seq<char>,
    ordinal: u64,
    path: Seq<char>,
    attempt: AttemptV,
    trial: TrialV,
)
    ensures
        ({
            let r = recorded(run_id, ordinal, path, attempt, trial);
            &&& r.run_id == run_id && r.ordinal == ordinal && r.phase == attempt.phase
            &&& r.signature == attempt.signature && r.cache_source == attempt.cache_source
            &&& r.requested_overrides == attempt.overrides && r.recorded_at == attempt.recorded_at
            &&& r.startup_ok == trial.startup_ok && r.oom == trial.oom && r.measurement_usable
                == trial.measurement_usable
            &&& r.process_status == trial.process_status && r.pp_tps == trial.pp_tps && r.tg_tps
                == trial.tg_tps
            &&& r.diagnostic_excerpt == excerpt(trial.diagnostic_excerpt)
            &&& r.launch_args == recorded_args(trial.launch_args)
            &&& r.advisories.len() <= 8 && (trial.advisories.len() <= 8 ==> r.advisories.len()
                == trial.advisories.len())
            &&& forall|i: int|
                0 <= i < r.advisories.len() ==> #[trigger] r.advisories[i] == excerpt(
                    trial.advisories[i],
                )
            &&& (r.failure_stage is Some) == (trial.failure is Some) && (r.failure_reason is Some)
                == (trial.failure is Some)
            &&& trial.failure matches Some(f) ==> r.failure_stage == Some(stage_name(f.stage))
                && r.failure_reason == Some(reason_name(f.reason)) && (excerpt(f.detail).len() > 0
                ==> r.failure_detail == Some(excerpt(f.detail)))
            &&& trial.diagnostic matches Some(d) ==> r.log_path == d.log_path && (d.attempt_id.len()
                > 0 ==> r.attempt_id == d.attempt_id)
            &&& trial.diagnostic is None ==> r.log_path.len() == 0 && r.attempt_id == run_component(
                run_id,
            ) + "-"@ + zero_padded(dec(ordinal as nat), 4)
        }),
{
}

/// Where the evidence of an attempt is: in this ledger's manifest, beside the
/// log it had.
pub proof fn law_evidence_is_filed_under_its_manifest(
    diagnostic: Option<DiagnosticV>,
    run_id: Seq<char>,
    ordinal: u64,
    path: Seq<char>,
)
    ensures
        filed(diagnostic, run_id, ordinal, path).manifest_path == path,
        diagnostic matches Some(d) ==> filed(diagnostic, run_id, ordinal, path).log_path
            == d.log_path,
        filed(diagnostic, run_id, ordinal, path).attempt_id.len() > 0,
{
    reveal_strlit("-");
}

/// Each stage and each reason has a name of its own.
pub proof fn law_failures_are_told_apart_by_name(
    stage: TrialFailureStage,
    other: TrialFailureStage,
    reason: TrialFailureReason,
    another: TrialFailureReason,
)
    ensures
        stage_name(stage) == stage_name(other) ==> stage == other,
        reason_name(reason) == reason_name(another) ==> reason == another,
{
    lemma_stage_names();
    lemma_reason_names();
}

proof fn lemma_stage_names()
    ensures
        "launch"@.len() == 6,
        "readiness"@.len() == 9,
        "request"@.len() == 7 && "request"@[0] == 'r',
        "response"@.len() == 8,
        "content"@.len() == 7 && "content"@[0] == 'c',
{
    reveal_strlit("launch");
    reveal_strlit("readiness");
    reveal_strlit("request");
    reveal_strlit("response");
    reveal_strlit("content");
}

proof fn lemma_reason_names()
    ensures
        "invalid_overrides"@.len() == 17 && "invalid_overrides"@[0] == 'i',
        "port_unavailable"@.len() == 16 && "port_unavailable"@[0] == 'p',
        "argument_construction"@.len() == 21,
        "binary_unavailable"@.len() == 18 && "binary_unavailable"@[0] == 'b',
        "spawn_failed"@.len() == 12,
        "readiness_exited"@.len() == 16 && "readiness_exited"@[0] == 'r',
        "readiness_exited_oom"@.len() == 20,
        "readiness_timeout"@.len() == 17 && "readiness_timeout"@[0] == 'r',
        "transport"@.len() == 9,
        "http_status"@.len() == 11,
        "response_decode"@.len() == 15 && "response_decode"@[0] == 'r' && "response_decode"@[9] == 'd',
        "response_schema"@.len() == 15 && "response_schema"@[0] == 'r' && "response_schema"@[9] == 's',
        "missing_timings"@.len() == 15 && "missing_timings"@[0] == 'm',
        "invalid_timings"@.len() == 15 && "invalid_timings"@[0] == 'i',
        "empty_content"@.len() == 13 && "empty_content"@[0] == 'e',
        "thinking_only"@.len() == 13 && "thinking_only"@[0] == 't',
        "degenerate_content"@.len() == 18 && "degenerate_content"@[0] == 'd',
{
    reveal_strlit("invalid_overrides");
    reveal_strlit("port_unavailable");
    reveal_strlit("argument_construction");
    reveal_strlit("binary_unavailable");
    reveal_strlit("spawn_failed");
    reveal_strlit("readiness_exited");
    reveal_strlit("readiness_exited_oom");
    reveal_strlit("readiness_timeout");
    reveal_strlit("transport");
    reveal_strlit("http_status");
    reveal_strlit("response_decode");
    reveal_strlit("response_schema");
    reveal_strlit("missing_timings");
    reveal_strlit("invalid_timings");
    reveal_strlit("empty_content");
    reveal_strlit("thinking_only");
    reveal_strlit("degenerate_content");
}

proof fn lemma_in_sum(a: Seq<(Seq<char>, JsonV)>, b: Seq<(Seq<char>, JsonV)>, x: (Seq<char>, JsonV))
    ensures
        (a + b).contains(x) <==> a.contains(x) || b.contains(x),
{
    if a.contains(x) {
        let i = choose|i: int| 0 <= i < a.len() && a[i] == x;
        assert((a + b)[i] == x);
    }
    if b.contains(x) {
        let i = choose|i: int| 0 <= i < b.len() && b[i] == x;
        assert((a + b)[a.len() + i] == x);
    }
}

/// A manifest line says of a failure its stage, its reason and its detail, as
/// far as the record has them, and of the process its status.
pub proof fn law_a_line_tells_of_the_failure(
    r: RecordV,
    pp_tps: Option<JsonV>,
    tg_tps: Option<JsonV>,
)
    ensures
        ({
            let line = line_members(r, pp_tps, tg_tps);
            &&& line.len() >= 11 && line[0] == ("run_id"@, JsonV::Text(r.run_id)) && line[1] == (
                "attempt_id"@,
                JsonV::Text(r.attempt_id),
            ) && line[2] == ("ordinal"@, JsonV::Unsigned(r.ordinal)) && line[3] == (
                "phase"@,
                JsonV::Text(r.phase),
            ) && line[4] == ("signature"@, JsonV::Text(r.signature)) && line[5] == (
                "cache_source"@,
                JsonV::Text(r.cache_source),
            ) && line[6] == ("requested_overrides"@, overrides_node(r.requested_overrides))
                && line[7] == ("startup_ok"@, JsonV::Bool(r.startup_ok)) && line[8] == (
                "oom"@,
                JsonV::Bool(r.oom),
            ) && line[9] == ("measurement_usable"@, JsonV::Bool(r.measurement_usable))
            &&& line.last() == ("recorded_at"@, JsonV::Text(r.recorded_at))
            &&& r.failure_stage matches Some(t) ==> line.contains(("failure_stage"@, JsonV::Text(t)))
            &&& r.failure_reason matches Some(t) ==> line.contains(
                ("failure_reason"@, JsonV::Text(t)),
            )
            &&& r.failure_detail matches Some(t) ==> line.contains(
                ("failure_detail"@, JsonV::Text(t)),
            )
            &&& r.process_status matches Some(n) ==> line.contains(
                ("process_status"@, integer_node(n as i64)),
            )
            &&& r.log_path.len() > 0 ==> line.contains(("log_path"@, JsonV::Text(r.log_path)))
            &&& r.diagnostic_excerpt.len() > 0 ==> line.contains(
                ("diagnostic_excerpt"@, JsonV::Text(r.diagnostic_excerpt)),
            )
            &&& pp_tps matches Some(n) ==> line.contains(("pp_tps"@, n))
            &&& tg_tps matches Some(n) ==> line.contains(("tg_tps"@, n))
        }),
{
    let s0 = crate::diagnostics::line_head(r);
    let p1 = maybe_member("failure_stage"@, r.failure_stage);
    let p2 = maybe_member("failure_reason"@, r.failure_reason);
    let p3 = maybe_member("failure_detail"@, r.failure_detail);
    let p4 = crate::trial::maybe_integer(
        "process_status"@,
        crate::diagnostics::status_of(r.process_status),
    );
    let p5 = crate::diagnostics::filled_member("log_path"@, r.log_path);
    let p6 = crate::diagnostics::filled_member("diagnostic_excerpt"@, r.diagnostic_excerpt);
    let p7 = crate::diagnostics::filled_list("launch_args"@, r.launch_args);
    let p8 = crate::diagnostics::filled_object("observed_configuration"@, r.observed);
    let p9 = crate::diagnostics::filled_list("advisory_observations"@, r.advisories);
    let p10 = crate::diagnostics::maybe_node("pp_tps"@, pp_tps);
    let p11 = crate::diagnostics::maybe_node("tg_tps"@, tg_tps);
    let p12 = seq![("recorded_at"@, JsonV::Text(r.recorded_at))];
    let s1 = s0 + p1;
    let s2 = s1 + p2;
    let s3 = s2 + p3;
    let s4 = s3 + p4;
    let s5 = s4 + p5;
    let s6 = s5 + p6;
    let s7 = s6 + p7;
    let s8 = s7 + p8;
    let s9 = s8 + p9;
    let s10 = s9 + p10;
    let s11 = s10 + p11;
    let s12 = s11 + p12;
    assert(line_members(r, pp_tps, tg_tps) == s12);
    assert forall|x: (Seq<char>, JsonV)|
        p1.contains(x) || p2.contains(x) || p3.contains(x) || p4.contains(x) || p5.contains(x)
            || p6.contains(x) || p10.contains(x) || p11.contains(x) implies #[trigger] s12.contains(
        x,
    ) by {
        lemma_in_sum(s0, p1, x);
        lemma_in_sum(s1, p2, x);
        lemma_in_sum(s2, p3, x);
        lemma_in_sum(s3, p4, x);
        lemma_in_sum(s4, p5, x);
        lemma_in_sum(s5, p6, x);
        lemma_in_sum(s6, p7, x);
        lemma_in_sum(s7, p8, x);
        lemma_in_sum(s8, p9, x);
        lemma_in_sum(s9, p10, x);
        lemma_in_sum(s10, p11, x);
        lemma_in_sum(s11, p12, x);
    }
    if r.failure_stage is Some {
        assert(p1[0] == ("failure_stage"@, JsonV::Text(r.failure_stage->Some_0)));
    }
    if r.failure_reason is Some {
        assert(p2[0] == ("failure_reason"@, JsonV::Text(r.failure_reason->Some_0)));
    }
    if r.failure_detail is Some {
        assert(p3[0] == ("failure_detail"@, JsonV::Text(r.failure_detail->Some_0)));
    }
    if r.process_status is Some {
        assert(p4[0] == ("process_status"@, integer_node(r.process_status->Some_0 as i64)));
    }
    if r.log_path.len() > 0 {
        assert(p5[0] == ("log_path"@, JsonV::Text(r.log_path)));
    }
    if r.diagnostic_excerpt.len() > 0 {
        assert(p6[0] == ("diagnostic_excerpt"@, JsonV::Text(r.diagnostic_excerpt)));
    }
    if pp_tps is Some {
        assert(p10[0] == ("pp_tps"@, pp_tps->Some_0));
    }
    if tg_tps is Some {
        assert(p11[0] == ("tg_tps"@, tg_tps->Some_0));
    }
}

proof fn lemma_slotted(members: Seq<(Seq<char>, JsonV)>, name: Seq<char>, value: JsonV, other: Seq<char>)
    requires
        in_name_order(members),
    ensures
        find_member(slotted(members, name, value), other) == if other == name {
            Some(value)
        } else {
            find_member(members, other)
        },
    decreases members.len(),
{
    let after = slotted(members, name, value);
    if members.len() == 0 {
        assert(after.skip(1) =~= seq![]);
        assert(find_member(after.skip(1), other) is None);
    } else if members[0].0 == name {
        assert(after.skip(1) =~= members.skip(1));
    } else if before(name, members[0].0) {
        assert(after.skip(1) =~= members);
    } else {
        let rest = members.skip(1);
        assert forall|i: int, j: int| 0 <= i < j < rest.len() implies before(
            (#[trigger] rest[i]).0,
            (#[trigger] rest[j]).0,
        ) by {
            assert(rest[i] == members[i + 1] && rest[j] == members[j + 1]);
        }
        lemma_slotted(rest, name, value, other);
        assert(after.skip(1) =~= slotted(rest, name, value));
    }
}

/// Of observed values with one name, the last one counts; each name keeps its
/// own value.
pub proof fn law_the_last_observation_of_a_name_counts(
    observed: Seq<(Seq<char>, JsonV)>,
    n: int,
    name: Seq<char>,
)
    requires
        0 < n <= observed.len(),
    ensures
        find_member(by_name(observed, n), name) == if name == observed[n - 1].0 {
            Some(observed[n - 1].1)
        } else {
            find_member(by_name(observed, n - 1), name)
        },
{
    law_observations_stand_by_name(observed, n - 1);
    lemma_slotted(by_name(observed, n - 1), observed[n - 1].0, observed[n - 1].1, name);
}

/// The first line that does not read is the first with an error.
pub proof fn law_the_first_broken_line_is_reported(errors: Seq<Option<String>>, k: int)
    requires
        0 <= k <= errors.len(),
        forall|i: int| 0 <= i < k ==> (#[trigger] errors[i]) is None,
        k < errors.len() ==> errors[k] is Some,
    ensures
        first_unread(errors, 0) == if k < errors.len() {
            Some(k)
        } else {
            None
        },
{
    lemma_first(errors, 0, k);
}

proof fn lemma_first(errors: Seq<Option<String>>, from: int, k: int)
    requires
        0 <= from <= k <= errors.len(),
        forall|i: int| from <= i < k ==> (#[trigger] errors[i]) is None,
        k < errors.len() ==> errors[k] is Some,
    ensures
        first_unread(errors, from) == if k < errors.len() {
            Some(k)
        } else {
            None
        },
    decreases k - from,
{
    if from < k {
        assert(errors[from] is None);
        lemma_first(errors, from + 1, k);
    }
}

/// A manifest is up for retention exactly if its run is over; of two, the one
/// written earlier is the older, one of unknown age is older than any other, and
/// at one age the names decide.
pub proof fn law_age_decides_then_the_name(files: Seq<RunFile>, i: int, j: int)
    requires
        0 <= i < files.len(),
        0 <= j < files.len(),
    ensures
        is_completed(files[i]) <==> files[i].extension@ == "jsonl"@ && !files[i].active,
        files[i].modified matches Some(x) ==> (files[j].modified matches Some(y) ==> (x < y ==> older(
            files,
            i,
            j,
        ) && !older(files, j, i))),
        files[i].modified is None && files[j].modified is Some ==> older(files, i, j) && !older(
            files,
            j,
            i,
        ),
        files[i].modified == files[j].modified && before(
            files[i].stem@ + "."@ + files[i].extension@,
            files[j].stem@ + "."@ + files[j].extension@,
        ) ==> older(files, i, j) && !older(files, j, i),
{
    let a = files[i].stem@ + "."@ + files[i].extension@;
    let b = files[j].stem@ + "."@ + files[j].extension@;
    law_key_order(a, b, a);
}

/// A run id that is portable already stands for itself.
pub proof fn law_a_portable_run_id_stands_for_itself(value: Seq<char>)
    requires
        0 < value.len() <= 64,
        forall|k: int|
            0 <= k < value.len() ==> is_alphanumeric(#[trigger] value[k]) || value[k] == '_',
    ensures
        run_component(value) == value,
{
    let mapped = capped(value, 64).map_values(|c: char| portable(c));
    assert(mapped =~= value);
    assert(is_alphanumeric(value[0]) || value[0] == '_');
    assert(is_alphanumeric(value[value.len() - 1]) || value[value.len() - 1] == '_');
}

/// An observation is kept under the first 128 characters of its name; a text of
/// it as an excerpt, and any other value as it is.
pub proof fn law_an_observation_is_kept_short(name: Seq<char>, value: JsonV)
    ensures
        kept_observation((name, value)).0 == name.take(
            if name.len() <= 128 {
                name.len() as int
            } else {
                128
            },
        ),
        kept_observation((name, value)).1 == match value {
            JsonV::Text(t) => JsonV::Text(excerpt(t)),
            other => other,
        },
{
    assert(name.take(name.len() as int) =~= name);
}

} // verus!
