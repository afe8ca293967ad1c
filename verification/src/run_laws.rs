//! The parts around a run: the launcher's version, the download before the first
//! trial, the solver's arguments, the event stream, the memory shapes, and the
//! task set, the session log and the report of an uplift.
use vstd::prelude::*;

#[allow(unused_imports)]
use crate::cached_run::evidence_note;
#[allow(unused_imports)]
use crate::cli::{names_command, Command};
#[allow(unused_imports)]
use crate::coach::{
    action_count, coached_failure, lead, rules_defect, script_defect, CoachRule, CoachScript,
    CoachedEnd,
};
#[allow(unused_imports)]
use crate::coach_drive::EVENTS_WAIT_MS;
#[allow(unused_imports)]
use crate::consumer::{
    at_least, at_least_from, progress_line, progress_percent, progress_step, segment, tuning_target,
    version_numbers, DownloadKind, DownloadTarget, API_VERSION, LAUNCHER_EXPORT_VERSION, VERSION,
};
#[allow(unused_imports)]
use crate::container::CLEANUP_SECS;
#[allow(unused_imports)]
use crate::diagnostics::DEFAULT_RETAINED_RUNS;
#[allow(unused_imports)]
use crate::export::under;
#[allow(unused_imports)]
use crate::json::{
    as_text, at, json_of, json_text_of, law_member_after_set,
    law_the_first_member_of_a_name_is_found, member, ordered_text_of, set_member, JsonV,
};
#[allow(unused_imports)]
use crate::matrix::{
    arm_refusal, carries_results, patched, spec_defect, ArmSpec, Isolation, RunSpec,
};
#[allow(unused_imports)]
use crate::matrix_run::{cell_tree, CellV};
#[allow(unused_imports)]
use crate::oracle::{
    known_answer, law_placement_does_not_change_the_shape, memory_shape, non_shape_keys, FitAnswer,
    DEFAULT_FIT_MARGIN_MIB,
};
#[allow(unused_imports)]
use crate::output::{event_text, RunEvent};
#[allow(unused_imports)]
use crate::overrides::{put, signature, without_keys, OverridesV, SettingV};
#[allow(unused_imports)]
use crate::scorecard::card_verdict;
#[allow(unused_imports)]
use crate::screen::ranks_before;
#[allow(unused_imports)]
use crate::solver::{
    cell_text, eval_argv, helper_text, maybe_text, merged_diagnostic, HelperEnd, SolveSpec,
};
#[allow(unused_imports)]
use crate::text::{
    contains, dec, ends_with, joined, lemma_leading, lowered, occurs_at, pieces, starts_with,
    trimmed, unsigned, views,
};
#[allow(unused_imports)]
use crate::text_laws::{law_a_text_contains_its_parts, law_a_written_number_reads_back};
#[allow(unused_imports)]
use crate::trial::{
    CHAT_PROMPT_TARGET_TOKENS, MAX_DIAGNOSTIC_CHARS, MEASUREMENT_PROTOCOL, TELEMETRY_PROTOCOL,
};
#[allow(unused_imports)]
use crate::trial_run::{DiagnosticV, SLICE_SECS};
#[allow(unused_imports)]
use crate::upliftrun::{
    injection_text, last_audit, memories_event, named_ids, report_lines, row_text, seed_document,
    seed_node, selftest_refusal, set_defect, uplift_text, verdict_text, SeedLesson, Significance,
    TaskSet, UpliftArmRow, UpliftReport, Verdict,
};

verus! {

// ---------------------------------------------------------------------------
// Versions
// ---------------------------------------------------------------------------
proof fn lemma_difference(a: Seq<u64>, b: Seq<u64>, i: nat, k: nat)
    requires
        i <= k,
        forall|j: int| i <= j < k ==> segment(a, j) == segment(b, j),
        segment(a, k as int) != segment(b, k as int),
    ensures
        at_least_from(a, b, i) == (segment(a, k as int) > segment(b, k as int)),
    decreases k - i,
{
    if i < k {
        assert(segment(a, i as int) == segment(b, i as int));
        lemma_difference(a, b, i + 1, k);
    }
}

/// The first segment in which two versions differ decides which is the later,
/// whatever stands behind it.
pub proof fn law_the_first_difference_decides(
    front: Seq<u64>,
    x: u64,
    y: u64,
    a: Seq<u64>,
    b: Seq<u64>,
)
    ensures
        x > y ==> at_least(front + seq![x] + a, front + seq![y] + b),
        x < y ==> !at_least(front + seq![x] + a, front + seq![y] + b),
        at_least(front, front),
{
    let l = front + seq![x] + a;
    let r = front + seq![y] + b;
    let k = front.len();
    assert(segment(l, k as int) == x && segment(r, k as int) == y);
    assert forall|j: int| 0 <= j < k implies segment(l, j) == segment(r, j) by {
        assert(l[j] == front[j] && r[j] == front[j]);
    }
    if x != y {
        lemma_difference(l, r, 0, k);
    }
    lemma_same(front, 0);
}

proof fn lemma_same(a: Seq<u64>, i: nat)
    ensures
        at_least_from(a, a, i),
    decreases a.len() - i,
{
    if i < a.len() {
        lemma_same(a, i + 1);
    }
}

/// A version is read number by number: a written number in front of a dot, a
/// hyphen or a plus is its first segment, and what stands behind is the rest.
/// The first word that is no number ends it.
pub proof fn law_a_version_is_its_leading_numbers(
    n: u64,
    sep: char,
    rest: Seq<char>,
    word: Seq<char>,
)
    requires
        sep == '.' || sep == '-' || sep == '+',
        !word.contains('.') && !word.contains('-') && !word.contains('+'),
        unsigned(word) is None,
    ensures
        version_numbers(dec(n as nat)) == seq![n],
        version_numbers(dec(n as nat).push(sep) + rest) == seq![n] + version_numbers(rest),
        version_numbers(word) == Seq::<u64>::empty(),
        version_numbers(word.push(sep) + rest) == Seq::<u64>::empty(),
{
    let breaks = crate::consumer::segment_break();
    law_a_written_number_reads_back(n);
    let p = dec(n as nat);
    assert(!p.contains('.') && !p.contains('-') && !p.contains('+'));
    lemma_first_segment(p, sep, rest);
    lemma_first_segment(word, sep, rest);
    assert(seq![p].skip(1) =~= seq![]);
    assert(seq![n] + Seq::<u64>::empty() =~= seq![n]);
    assert((seq![p] + pieces(rest, breaks)).skip(1) =~= pieces(rest, breaks));
    assert((seq![p] + pieces(rest, breaks))[0] == p);
    assert((seq![word] + pieces(rest, breaks))[0] == word);
    reveal_with_fuel(crate::consumer::numbers, 2);
}

proof fn lemma_first_segment(p: Seq<char>, sep: char, rest: Seq<char>)
    requires
        sep == '.' || sep == '-' || sep == '+',
        !p.contains('.') && !p.contains('-') && !p.contains('+'),
    ensures
        pieces(p, crate::consumer::segment_break()) == seq![p],
        pieces(p.push(sep) + rest, crate::consumer::segment_break()) == seq![p] + pieces(
            rest,
            crate::consumer::segment_break(),
        ),
{
    let breaks = crate::consumer::segment_break();
    let keeps = |c: char| !breaks(c);
    assert forall|k: int| 0 <= k < p.len() implies keeps(#[trigger] p[k]) by {
        if p[k] == '.' {
            assert(p.contains('.'));
        }
        if p[k] == '-' {
            assert(p.contains('-'));
        }
        if p[k] == '+' {
            assert(p.contains('+'));
        }
    }
    lemma_leading(p, keeps, p.len());
    let s = p.push(sep) + rest;
    assert forall|k: int| 0 <= k < p.len() implies keeps(#[trigger] s[k]) by {
        assert(keeps(p[k]));
    }
    assert(s[p.len() as int] == sep);
    lemma_leading(s, keeps, p.len());
    assert(s.take(p.len() as int) =~= p);
    assert(s.skip((p.len() + 1) as int) =~= rest);
}

// ---------------------------------------------------------------------------
// The download before the first trial
// ---------------------------------------------------------------------------
/// Tuning needs the first of a model's artifacts that is a GGUF file.
pub proof fn law_the_first_model_file_is_tuned(targets: Seq<DownloadTarget>, k: int)
    requires
        0 <= k <= targets.len(),
        forall|j: int| 0 <= j < k ==> (#[trigger] targets[j]).kind != DownloadKind::Gguf,
        k < targets.len() ==> targets[k].kind == DownloadKind::Gguf,
    ensures
        tuning_target(targets, 0) == if k < targets.len() {
            Some(targets[k])
        } else {
            None
        },
{
    lemma_target(targets, 0, k);
}

proof fn lemma_target(targets: Seq<DownloadTarget>, from: int, k: int)
    requires
        0 <= from <= k <= targets.len(),
        forall|j: int| from <= j < k ==> (#[trigger] targets[j]).kind != DownloadKind::Gguf,
        k < targets.len() ==> targets[k].kind == DownloadKind::Gguf,
    ensures
        tuning_target(targets, from) == if k < targets.len() {
            Some(targets[k])
        } else {
            None
        },
    decreases k - from,
{
    if from < k {
        assert(targets[from].kind != DownloadKind::Gguf);
        lemma_target(targets, from + 1, k);
    }
}

/// A download of a known size has twenty steps, and its percentage counts up to a
/// hundred; one of an unknown size has a step per 512 MiB. `step` is the step
/// that holds what was received.
pub proof fn law_a_download_steps_evenly(received: u64, total: u64, step: u64)
    requires
        received <= 100_000_000_000_000_000,
    ensures
        total > 0 && step * total <= received * 20 < (step + 1) * total ==> progress_step(
            received,
            Some(total),
        ) == step,
        total > 0 && step * total <= received * 100 < (step + 1) * total ==> progress_percent(
            received,
            total,
        ) == step,
        step * 536_870_912 <= received < (step + 1) * 536_870_912 ==> progress_step(received, None)
            == step && progress_step(received, Some(0)) == step,
        total > 0 && received == total ==> progress_step(received, Some(total)) == 20
            && progress_percent(received, total) == 100,
{
    if total > 0 {
        lemma_quotient(received * 20, total as int, step as int);
        lemma_quotient(received * 100, total as int, step as int);
        lemma_quotient(received * 20, total as int, 20);
        lemma_quotient(received * 100, total as int, 100);
    }
    lemma_quotient(received as int, 536_870_912, step as int);
}

proof fn lemma_quotient(a: int, b: int, q: int)
    requires
        b > 0,
    ensures
        q * b <= a < (q + 1) * b ==> a / b == q,
{
    if q * b <= a < (q + 1) * b {
        let r = a - q * b;
        assert(a == b * q + r && 0 <= r < b) by (nonlinear_arith)
            requires
                r == a - q * b,
                q * b <= a < (q + 1) * b,
        ;
        vstd::arithmetic::div_mod::lemma_fundamental_div_mod_converse(a, b, q, r);
    }
}

// ---------------------------------------------------------------------------
// The solver
// ---------------------------------------------------------------------------
/// Each of the solver's arguments stands behind its flag, and each knob that is
/// set, and no other, has its flag in front of the problem.
pub proof fn law_every_argument_has_its_flag(spec: SolveSpec)
    ensures
        ({
            let argv = eval_argv(spec);
            let n = argv.len() as int;
            &&& argv[0] == "eval"@
            &&& argv[1] == "--model"@ && argv[2] == spec.model@
            &&& argv[3] == "--arm"@ && argv[4] == spec.arm@
            &&& argv[5] == "--task"@ && argv[6] == spec.task@
            &&& argv[7] == "--permission"@ && argv[8] == spec.permission@
            &&& argv[n - 1] == spec.problem@
            &&& argv.subrange(9, n - 1) == (if spec.verify && spec.learn {
                seq!["--verify"@, "--learn"@]
            } else if spec.verify {
                seq!["--verify"@]
            } else if spec.learn {
                seq!["--learn"@]
            } else {
                seq![]
            })
        }),
{
    let argv = eval_argv(spec);
    let n = argv.len() as int;
    let knobs = argv.subrange(9, n - 1);
    if spec.verify && spec.learn {
        assert(knobs =~= seq!["--verify"@, "--learn"@]);
    } else if spec.verify {
        assert(knobs =~= seq!["--verify"@]);
    } else if spec.learn {
        assert(knobs =~= seq!["--learn"@]);
    } else {
        assert(knobs =~= seq![]);
    }
}

/// Merged diagnostics keep both, the first in front; a missing one adds nothing;
/// and how three are grouped does not matter.
pub proof fn law_merged_diagnostics_keep_both(
    a: Option<Seq<char>>,
    b: Option<Seq<char>>,
    c: Option<Seq<char>>,
)
    ensures
        merged_diagnostic(a, None) == a,
        merged_diagnostic(None, a) == a,
        merged_diagnostic(merged_diagnostic(a, b), c) == merged_diagnostic(
            a,
            merged_diagnostic(b, c),
        ),
        a matches Some(x) ==> (b matches Some(y) ==> (merged_diagnostic(a, b) matches Some(m)
            && starts_with(m, x) && ends_with(m, y) && m.len() > x.len() + y.len())),
{
    reveal_strlit("; ");
    match (a, b) {
        (Some(x), Some(y)) => {
            law_a_text_contains_its_parts(x, "; "@, y);
            match c {
                Some(z) => {
                    assert(x + "; "@ + y + "; "@ + z =~= x + "; "@ + (y + "; "@ + z));
                },
                None => {},
            }
        },
        _ => {},
    }
}

/// A cleanup helper says nothing if and only if it succeeded. Otherwise it names
/// its program and says how the fallback went; an error, or an exit, is quoted.
pub proof fn law_a_failed_cleanup_says_how(
    program: Seq<char>,
    error: String,
    bound_secs: nat,
    fallback_ok: bool,
)
    ensures
        helper_text(program, HelperEnd::Succeeded, bound_secs, fallback_ok) is None,
        forall|end: HelperEnd|
            #![trigger helper_text(program, end, bound_secs, fallback_ok)]
            end == HelperEnd::NotStarted(error) || end == HelperEnd::Exited(error) || end
                == HelperEnd::WaitFailed(error) ==> (helper_text(
                program,
                end,
                bound_secs,
                fallback_ok,
            ) matches Some(m) && contains(m, program) && contains(m, error@) && ends_with(
                m,
                if fallback_ok {
                    "succeeded"@
                } else {
                    "failed"@
                },
            )),
        helper_text(program, HelperEnd::TimedOut(None), bound_secs, fallback_ok) matches Some(m)
            && contains(m, program) && contains(m, dec(bound_secs)) && ends_with(
            m,
            if fallback_ok {
                "succeeded"@
            } else {
                "failed"@
            },
        ),
        helper_text(program, HelperEnd::TimedOut(Some(error)), bound_secs, fallback_ok)
            matches Some(m) && ends_with(m, error@),
{
    let fallback = if fallback_ok {
        "succeeded"@
    } else {
        "failed"@
    };
    let a = "exact process-tree cleanup could not start "@;
    lemma_quotes(a, program, ": "@, error@, "; direct-child fallback: "@, fallback);
    let b = "exact process-tree cleanup "@;
    lemma_quotes(b, program, " exited "@, error@, "; direct-child fallback: "@, fallback);
    lemma_quotes(
        b,
        program,
        " timed out after "@,
        dec(bound_secs),
        "s; direct-child fallback: "@,
        fallback,
    );
    let c = "waiting for exact process-tree cleanup "@;
    lemma_quotes(c, program, " failed: "@, error@, "; direct-child fallback: "@, fallback);
    let late = b + program + " timed out after "@ + dec(bound_secs) + "s; direct-child fallback: "@
        + fallback;
    law_a_text_contains_its_parts(late, "; "@, error@);
}

/// A text that is put together of parts contains each of them.
proof fn lemma_quotes(
    a: Seq<char>,
    b: Seq<char>,
    c: Seq<char>,
    d: Seq<char>,
    e: Seq<char>,
    f: Seq<char>,
)
    ensures
        contains(a + b + c + d + e + f, b),
        contains(a + b + c + d + e + f, d),
        ends_with(a + b + c + d + e + f, f),
{
    let s = a + b + c + d + e + f;
    let at_b = a.len() as int;
    let at_d = (a.len() + b.len() + c.len()) as int;
    assert(s.subrange(at_b, at_b + b.len()) =~= b);
    assert(occurs_at(s, b, at_b));
    assert(s.subrange(at_d, at_d + d.len()) =~= d);
    assert(occurs_at(s, d, at_d));
    law_a_text_contains_its_parts(a + b + c + d, e, f);
}

// ---------------------------------------------------------------------------
// Events
// ---------------------------------------------------------------------------
/// The line of an event opens with its kind, goes on with its run as a JSON
/// string, and ends with what it carries: a count, a node or a message.
pub proof fn law_an_event_line_carries_the_event(
    run: String,
    total: u64,
    payload: crate::json::Json,
    message: String,
)
    ensures
        ({
            let name = json_text_of(JsonV::Text(run@));
            let node = json_text_of(payload@);
            &&& event_text(RunEvent::Started { run, total: None })
                == "{\"event\":\"started\",\"run\":"@ + name + "}"@
            &&& event_text(RunEvent::Started { run, total: Some(total) })
                == "{\"event\":\"started\",\"run\":"@ + name + ",\"total\":"@ + dec(total as nat)
                + "}"@
            &&& event_text(RunEvent::Result { run, payload })
                == "{\"event\":\"result\",\"run\":"@ + name + ",\"payload\":"@ + node + "}"@
            &&& event_text(RunEvent::Completed { run, payload })
                == "{\"event\":\"completed\",\"run\":"@ + name + ",\"payload\":"@ + node + "}"@
            &&& event_text(RunEvent::Error { run, message })
                == "{\"event\":\"error\",\"run\":"@ + name + ",\"message\":"@ + json_text_of(
                JsonV::Text(message@),
            ) + "}"@
        }),
{
    reveal_strlit("{\"event\":\"");
    reveal_strlit("\",\"run\":");
    reveal_strlit("started");
    reveal_strlit("result");
    reveal_strlit("completed");
    reveal_strlit("error");
    reveal_strlit("{\"event\":\"started\",\"run\":");
    reveal_strlit("{\"event\":\"result\",\"run\":");
    reveal_strlit("{\"event\":\"completed\",\"run\":");
    reveal_strlit("{\"event\":\"error\",\"run\":");
    let open = "{\"event\":\""@;
    let mid = "\",\"run\":"@;
    assert(open + "started"@ + mid =~= "{\"event\":\"started\",\"run\":"@);
    assert(open + "result"@ + mid =~= "{\"event\":\"result\",\"run\":"@);
    assert(open + "completed"@ + mid =~= "{\"event\":\"completed\",\"run\":"@);
    assert(open + "error"@ + mid =~= "{\"event\":\"error\",\"run\":"@);
}

// ---------------------------------------------------------------------------
// Memory shapes
// ---------------------------------------------------------------------------
/// A candidate's memory shape is its signature but for its placement and its
/// threads: setting one of those four changes nothing, and a candidate that sets
/// none of them has its signature for a shape.
pub proof fn law_a_shape_is_the_signature_of_the_rest(s: OverridesV, value: SettingV)
    ensures
        memory_shape(put(s, "NCpuMoe"@, value)) == memory_shape(s),
        memory_shape(put(s, "NGpuLayers"@, value)) == memory_shape(s),
        memory_shape(put(s, "Threads"@, value)) == memory_shape(s),
        memory_shape(put(s, "ThreadsBatch"@, value)) == memory_shape(s),
        (forall|i: int|
            0 <= i < s.len() ==> (#[trigger] s[i]).0 != "NCpuMoe"@ && s[i].0 != "NGpuLayers"@
                && s[i].0 != "Threads"@ && s[i].0 != "ThreadsBatch"@) ==> memory_shape(s)
            == signature(s),
{
    let keys = non_shape_keys();
    assert(keys[0] == "NCpuMoe"@ && keys[1] == "NGpuLayers"@);
    assert(keys[2] == "Threads"@ && keys[3] == "ThreadsBatch"@);
    law_placement_does_not_change_the_shape(s, "NCpuMoe"@, value);
    law_placement_does_not_change_the_shape(s, "NGpuLayers"@, value);
    law_placement_does_not_change_the_shape(s, "Threads"@, value);
    law_placement_does_not_change_the_shape(s, "ThreadsBatch"@, value);
    if forall|i: int|
        0 <= i < s.len() ==> (#[trigger] s[i]).0 != "NCpuMoe"@ && s[i].0 != "NGpuLayers"@ && s[i].0
            != "Threads"@ && s[i].0 != "ThreadsBatch"@ {
        lemma_nothing_dropped(s, s.len() as int);
        assert(s.take(s.len() as int) =~= s);
    }
}

proof fn lemma_nothing_dropped(s: OverridesV, n: int)
    requires
        0 <= n <= s.len(),
        forall|i: int|
            0 <= i < s.len() ==> (#[trigger] s[i]).0 != "NCpuMoe"@ && s[i].0 != "NGpuLayers"@
                && s[i].0 != "Threads"@ && s[i].0 != "ThreadsBatch"@,
    ensures
        without_keys(s, non_shape_keys(), n) == s.take(n),
    decreases n,
{
    if n > 0 {
        lemma_nothing_dropped(s, n - 1);
        assert(!non_shape_keys().contains(s[n - 1].0));
        assert(s.take(n - 1).push(s[n - 1]) =~= s.take(n));
    } else {
        assert(s.take(0) =~= seq![]);
    }
}

/// The fitter's answer for a shape is the last that was recorded under it.
pub proof fn law_the_last_answer_counts(
    keys: Seq<Seq<char>>,
    answers: Seq<FitAnswer>,
    key: Seq<char>,
    k: int,
)
    requires
        -1 <= k < keys.len(),
        forall|j: int| k < j < keys.len() ==> #[trigger] keys[j] != key,
        k >= 0 ==> keys[k] == key,
    ensures
        known_answer(keys, answers, key) == if k >= 0 {
            Some(answers[k])
        } else {
            None
        },
    decreases keys.len(),
{
    if keys.len() > 0 && k < keys.len() - 1 {
        assert(keys[keys.len() - 1] != key);
        let front = keys.drop_last();
        assert forall|j: int| k < j < front.len() implies #[trigger] front[j] != key by {
            assert(keys[j] != key);
        }
        law_the_last_answer_counts(front, answers, key, k);
    }
}

// ---------------------------------------------------------------------------
// Uplift
// ---------------------------------------------------------------------------
/// A task set is usable if and only if its schema is 1, it has a task, and every
/// task has an id and a prompt that are not blank.
pub proof fn law_a_task_set_is_usable_if_its_tasks_are(set: TaskSet)
    ensures
        set_defect(set) is None <==> {
            &&& set.schema == 1
            &&& set.tasks@.len() > 0
            &&& forall|i: int|
                0 <= i < set.tasks@.len() ==> trimmed((#[trigger] set.tasks@[i]).id@).len() > 0
                    && trimmed(set.tasks@[i].prompt@).len() > 0
        },
{
}

/// A seed pack has every lesson, in order, with its body, category, confidence
/// and tags, and without its id.
pub proof fn law_a_seed_pack_has_every_lesson(lessons: Seq<SeedLesson>, i: int)
    requires
        0 <= i < lessons.len(),
    ensures
        member(seed_document(lessons), "lessons"@) matches Some(JsonV::List(items)) && {
            &&& items.len() == lessons.len()
            &&& member(items[i], "body"@) == Some(JsonV::Text(lessons[i].body@))
            &&& member(items[i], "category"@) == Some(JsonV::Text(lessons[i].category@))
            &&& member(items[i], "confidence"@) == Some(lessons[i].confidence@)
            &&& member(items[i], "tags"@) matches Some(JsonV::List(tags)) && {
                &&& tags.len() == lessons[i].tags@.len()
                &&& forall|t: int|
                    0 <= t < tags.len() ==> #[trigger] tags[t] == JsonV::Text(lessons[i].tags@[t]@)
            }
            &&& member(items[i], "id"@) is None
        },
{
    reveal_strlit("body");
    reveal_strlit("category");
    reveal_strlit("confidence");
    reveal_strlit("tags");
    reveal_strlit("id");
    assert("body"@[0] == 'b' && "tags"@[0] == 't');
    assert("category"@.len() == 8 && "confidence"@.len() == 10 && "id"@.len() == 2);
    assert("body"@.len() == 4 && "tags"@.len() == 4);
    law_the_first_member_of_a_name_is_found(
        seed_document(lessons)->Object_0,
        "lessons"@,
        0,
    );
    let all = seed_node(lessons[i])->Object_0;
    law_the_first_member_of_a_name_is_found(all, "body"@, 0);
    law_the_first_member_of_a_name_is_found(all, "category"@, 1);
    law_the_first_member_of_a_name_is_found(all, "confidence"@, 2);
    law_the_first_member_of_a_name_is_found(all, "tags"@, 3);
    law_the_first_member_of_a_name_is_found(all, "id"@, 4);
}

/// The ids that a list names are those of its items that have one, in order:
/// `places` are those items.
pub proof fn law_every_named_item_gives_its_id(items: Seq<JsonV>, n: int) -> (places: Seq<int>)
    requires
        0 <= n <= items.len(),
    ensures
        places.len() == named_ids(items, n).len(),
        forall|k: int|
            0 <= k < places.len() ==> 0 <= #[trigger] places[k] < n && member(
                items[places[k]],
                "id"@,
            ) == Some(JsonV::Text(named_ids(items, n)[k])),
        forall|j: int, k: int| 0 <= j < k < places.len() ==> places[j] < places[k],
        forall|i: int|
            0 <= i < n && (member(#[trigger] items[i], "id"@) matches Some(JsonV::Text(_)))
                ==> places.contains(i),
    decreases n,
{
    if n == 0 {
        seq![]
    } else {
        let before = law_every_named_item_gives_its_id(items, n - 1);
        if as_text(at(items[n - 1], "id"@)) is None {
            before
        } else {
            let now = before.push(n - 1);
            assert(now[before.len() as int] == n - 1);
            assert forall|i: int|
                0 <= i < n && (member(#[trigger] items[i], "id"@) matches Some(
                    JsonV::Text(_),
                )) implies now.contains(i) by {
                if i < n - 1 {
                    let k = choose|k: int| 0 <= k < before.len() && before[k] == i;
                    assert(now[k] == i);
                }
            }
            now
        }
    }
}

/// A log's audit is that of its last memories-used event; without one it is
/// empty. A line is such an event if and only if its kind's type says so.
pub proof fn law_the_last_memories_event_counts(log: Seq<Seq<char>>, n: int, k: int)
    requires
        -1 <= k < n <= log.len(),
        forall|j: int| k < j < n ==> memories_event(#[trigger] log[j]) is None,
        k >= 0 ==> memories_event(log[k]) is Some,
    ensures
        k < 0 ==> last_audit(log, n) == Seq::<Seq<char>>::empty(),
        k >= 0 ==> memories_event(log[k]) == Some(last_audit(log, n)),
    decreases n,
{
    if n > 0 && k < n - 1 {
        assert(memories_event(log[n - 1]) is None);
        law_the_last_memories_event_counts(log, n - 1, k);
    }
}

/// A line of the log is a memories-used event if and only if it is JSON whose
/// kind has that type; it then names the ids of its memories.
pub proof fn law_a_memories_event_says_its_type(
    line: Seq<char>,
    entry: JsonV,
    kind: JsonV,
    items: Seq<JsonV>,
)
    requires
        json_of(line) == Some(entry),
        member(entry, "kind"@) == Some(kind),
    ensures
        memories_event(line) is Some <==> member(kind, "type"@) == Some(
            JsonV::Text("memories_used"@),
        ),
        member(kind, "type"@) == Some(JsonV::Text("memories_used"@)) && member(kind, "memories"@)
            == Some(JsonV::List(items)) ==> memories_event(line) == Some(
            named_ids(items, items.len() as int),
        ),
{
}

/// A grader is let through if and only if it passes the right answer and fails
/// the wrong one.
pub proof fn law_a_grader_tells_right_from_wrong(right_matches: bool, wrong_matches: bool)
    ensures
        selftest_refusal(right_matches, wrong_matches) is None <==> right_matches && !wrong_matches,
        selftest_refusal(false, wrong_matches) == selftest_refusal(false, !wrong_matches),
        selftest_refusal(false, wrong_matches) != selftest_refusal(true, true),
{
    reveal_strlit(
        "uplift grader self-test failed: a known-correct answer did not match. Refusing to run.",
    );
    reveal_strlit("uplift grader self-test failed: a known-wrong answer matched. Refusing to run.");
    let a =
        "uplift grader self-test failed: a known-correct answer did not match. Refusing to run."@;
    let b = "uplift grader self-test failed: a known-wrong answer matched. Refusing to run."@;
    assert(a.len() != b.len());
}

/// A report's table has a line for each arm, in order, and ends with the
/// uplift; its head names the task set, the model and the trials.
pub proof fn law_a_report_has_a_line_for_each_arm(report: UpliftReport, i: int)
    requires
        0 <= i < report.arms@.len(),
    ensures
        report_lines(report).len() == report.arms@.len() + 6,
        report_lines(report)[4 + i] == row_text(report.arms@[i]),
        contains(report_lines(report)[0], report.task_set@),
        contains(report_lines(report)[0], report.model@),
        contains(report_lines(report)[0], dec(report.trials as nat)),
        starts_with(row_text(report.arms@[i]), "| "@ + report.arms@[i].arm@ + " | "@),
        contains(row_text(report.arms@[i]), report.arms@[i].aggregate.mean_percent@),
        contains(row_text(report.arms@[i]), report.arms@[i].aggregate.stddev@),
        contains(row_text(report.arms@[i]), injection_text(report.arms@[i])),
{
    let row = report.arms@[i];
    let t = row_text(row);
    let head = "| "@ + row.arm@ + " | "@;
    let per = crate::text::joined(
        crate::upliftrun::percents(views(row.aggregate.per_trial_percent@)),
        " "@,
    );
    assert(t.subrange(0, head.len() as int) =~= head);
    let at_mean = head.len() as int;
    let mean = row.aggregate.mean_percent@;
    assert(t.subrange(at_mean, at_mean + mean.len()) =~= mean);
    assert(occurs_at(t, mean, at_mean));
    let at_dev = at_mean + mean.len() + "% | "@.len();
    let dev = row.aggregate.stddev@;
    assert(t.subrange(at_dev, at_dev + dev.len()) =~= dev);
    assert(occurs_at(t, dev, at_dev));
    let at_inj = at_dev + dev.len() + " | "@.len() + per.len() + " | "@.len();
    let inj = injection_text(row);
    assert(t.subrange(at_inj, at_inj + inj.len()) =~= inj);
    assert(occurs_at(t, inj, at_inj));
    let h = report_lines(report)[0];
    let a = "# Lesson uplift — "@;
    let at_set = a.len() as int;
    assert(h.subrange(at_set, at_set + report.task_set@.len()) =~= report.task_set@);
    assert(occurs_at(h, report.task_set@, at_set));
    let at_model = at_set + report.task_set@.len() + " (model: "@.len();
    assert(h.subrange(at_model, at_model + report.model@.len()) =~= report.model@);
    assert(occurs_at(h, report.model@, at_model));
    let d = dec(report.trials as nat);
    let at_trials = at_model + report.model@.len() + ", trials: "@.len();
    assert(h.subrange(at_trials, at_trials + d.len()) =~= d);
    assert(occurs_at(h, d, at_trials));
}

// ---------------------------------------------------------------------------
// The coach
// ---------------------------------------------------------------------------
/// A coach script is usable if and only if its schema is 1 and each rule takes
/// exactly one action and names an event.
pub proof fn law_a_script_is_usable_if_its_rules_are(script: CoachScript)
    ensures
        script_defect(script) is None <==> {
            &&& script.schema == 1
            &&& forall|i: int|
                0 <= i < script.rules@.len() ==> takes_one_action(#[trigger] script.rules@[i])
                    && trimmed(script.rules@[i].on.event@).len() > 0
        },
{
    lemma_rules(script.rules@, 0);
}

/// Whether a rule steers, replies or cancels, and does only one of them.
pub open spec fn takes_one_action(rule: CoachRule) -> bool {
    ||| rule.steer is Some && rule.reply is None && !rule.cancel
    ||| rule.steer is None && rule.reply is Some && !rule.cancel
    ||| rule.steer is None && rule.reply is None && rule.cancel
}

proof fn lemma_rules(rules: Seq<CoachRule>, index: int)
    requires
        0 <= index <= rules.len(),
    ensures
        rules_defect(rules, index) is None <==> forall|i: int|
            index <= i < rules.len() ==> takes_one_action(#[trigger] rules[i]) && trimmed(
                rules[i].on.event@,
            ).len() > 0,
    decreases rules.len() - index,
{
    if index < rules.len() {
        lemma_rules(rules, index + 1);
        assert(takes_one_action(rules[index]) == (action_count(rules[index]) == 1));
    }
}

/// The defect of a script is that of its first bad rule, and gives its place.
pub proof fn law_the_first_bad_rule_is_named(rules: Seq<CoachRule>, k: int)
    requires
        0 <= k < rules.len(),
        forall|i: int|
            0 <= i < k ==> takes_one_action(#[trigger] rules[i]) && trimmed(
                rules[i].on.event@,
            ).len() > 0,
        !takes_one_action(rules[k]) || trimmed(rules[k].on.event@).len() == 0,
    ensures
        rules_defect(rules, 0) matches Some(m) && starts_with(
            m,
            "coach rule "@ + dec(k as nat) + " "@,
        ),
{
    lemma_bad_rule(rules, 0, k);
}

proof fn lemma_bad_rule(rules: Seq<CoachRule>, from: int, k: int)
    requires
        0 <= from <= k < rules.len(),
        forall|i: int|
            from <= i < k ==> takes_one_action(#[trigger] rules[i]) && trimmed(
                rules[i].on.event@,
            ).len() > 0,
        !takes_one_action(rules[k]) || trimmed(rules[k].on.event@).len() == 0,
    ensures
        rules_defect(rules, from) matches Some(m) && starts_with(
            m,
            "coach rule "@ + dec(k as nat) + " "@,
        ),
    decreases k - from,
{
    if from < k {
        assert(takes_one_action(rules[from]));
        assert(action_count(rules[from]) == 1);
        lemma_bad_rule(rules, from + 1, k);
    } else {
        reveal_strlit(" ");
        reveal_strlit(" must have exactly one action (steer, reply, or cancel)");
        reveal_strlit(" names no event");
        let head = "coach rule "@ + dec(k as nat);
        let front = head + " "@;
        let a = head + " must have exactly one action (steer, reply, or cancel)"@;
        let b = head + " names no event"@;
        assert(a.subrange(0, front.len() as int) =~= front);
        assert(b.subrange(0, front.len() as int) =~= front);
    }
}

/// A coached drive fails if and only if it ran out of time, its drive broke, or
/// its process left something to say; the failure names the cell and says each
/// of these.
pub proof fn law_a_coached_failure_says_all(
    spec: SolveSpec,
    timeout_secs: nat,
    drive_error: Option<Seq<char>>,
    end: CoachedEnd,
)
    ensures
        ({
            let failure = coached_failure(spec, timeout_secs, drive_error, end);
            let cleanup = maybe_text(end.cleanup_diagnostic);
            &&& failure is None <==> !end.timed_out && drive_error is None && cleanup is None
            &&& failure matches Some(m) ==> {
                &&& contains(m, cell_text(spec))
                &&& drive_error matches Some(e) ==> contains(m, e)
                &&& cleanup matches Some(c) ==> ends_with(m, c)
                &&& end.timed_out ==> contains(m, dec(timeout_secs))
            }
        }),
{
    let cleanup = maybe_text(end.cleanup_diagnostic);
    let cell = cell_text(spec);
    let e: Seq<char> = match drive_error {
        Some(x) => x,
        None => seq![],
    };
    let c: Seq<char> = match cleanup {
        Some(x) => x,
        None => seq![],
    };
    match coached_failure(spec, timeout_secs, drive_error, end) {
        None => {},
        Some(m) => {
            if end.timed_out {
                let a = "coached drive timed out after "@;
                let b = dec(timeout_secs);
                let d = lead("; drive: "@, drive_error);
                let f = lead("; cleanup: "@, cleanup);
                lemma_part(m, a.len() as int, b);
                let at_cell = (a.len() + b.len() + "s"@.len()) as int;
                lemma_part(m, at_cell, cell);
                if drive_error is Some {
                    lemma_part(m, at_cell + cell.len() + "; drive: "@.len(), e);
                }
                if cleanup is Some {
                    lemma_part(m, m.len() - c.len(), c);
                }
            } else if drive_error is Some {
                let a = "coached drive failed"@;
                lemma_part(m, a.len() as int, cell);
                lemma_part(m, (a.len() + cell.len() + ": "@.len()) as int, e);
                if cleanup is Some {
                    lemma_part(m, m.len() - c.len(), c);
                }
            } else {
                let a = "coached drive completed but process completion is uncertain"@;
                lemma_part(m, a.len() as int, cell);
                lemma_part(m, m.len() - c.len(), c);
            }
        },
    }
}

/// A text contains a part that stands at a place, and ends with one that stands
/// at its end.
proof fn lemma_part(s: Seq<char>, at: int, part: Seq<char>)
    requires
        0 <= at <= s.len() - part.len(),
        forall|i: int| 0 <= i < part.len() ==> #[trigger] part[i] == s[at + i],
    ensures
        contains(s, part),
        at == s.len() - part.len() ==> ends_with(s, part),
{
    assert(s.subrange(at, at + part.len()) =~= part);
    assert(occurs_at(s, part, at));
}

/// A cell's label names its arm and its task.
pub proof fn law_a_cell_is_labelled_by_arm_and_task(spec: SolveSpec)
    ensures
        contains(cell_text(spec), "arm '"@ + spec.arm@ + "'"@),
        contains(cell_text(spec), "task '"@ + spec.task@ + "'"@),
{
    reveal_strlit(" (arm '");
    reveal_strlit("arm '");
    reveal_strlit("'");
    reveal_strlit("', task '");
    reveal_strlit("task '");
    reveal_strlit("')");
    let m = cell_text(spec);
    lemma_part(m, 2, "arm '"@ + spec.arm@ + "'"@);
    lemma_part(m, (" (arm '"@.len() + spec.arm@.len() + 3) as int, "task '"@ + spec.task@ + "'"@);
}

// ---------------------------------------------------------------------------
// Evidence, folders, ordered text
// ---------------------------------------------------------------------------
/// A failure's note quotes its log where there is one, else its manifest; without
/// either there is no note.
pub proof fn law_a_note_quotes_the_nearest_evidence(d: DiagnosticV)
    ensures
        evidence_note(None) == Seq::<char>::empty(),
        d.log_path.len() > 0 ==> contains(evidence_note(Some(d)), d.log_path),
        d.log_path.len() > 0 ==> evidence_note(Some(d)) == evidence_note(
            Some(DiagnosticV { manifest_path: d.log_path, log_path: seq![], ..d }),
        ),
        d.log_path.len() == 0 && d.manifest_path.len() > 0 ==> contains(
            evidence_note(Some(d)),
            d.manifest_path,
        ),
        d.log_path.len() == 0 && d.manifest_path.len() == 0 ==> evidence_note(Some(d)) == Seq::<
            char,
        >::empty(),
{
    let head = " (evidence: "@;
    lemma_part(head + d.log_path + ")"@, head.len() as int, d.log_path);
    lemma_part(head + d.manifest_path + ")"@, head.len() as int, d.manifest_path);
}

/// A name under a folder keeps both, with one slash between them; under no folder
/// it is the name.
pub proof fn law_one_slash_stands_between_folder_and_name(folder: Seq<char>, name: Seq<char>)
    ensures
        under(seq![], name) == name,
        folder.len() > 0 ==> starts_with(under(folder, name), folder) && ends_with(
            under(folder, name),
            name,
        ),
        folder.len() > 0 && folder.last() != '/' ==> under(folder, name) == under(
            folder.push('/'),
            name,
        ) && under(folder, name)[folder.len() as int] == '/',
        folder.len() > 0 && folder.last() == '/' ==> under(folder, name).len() == folder.len()
            + name.len(),
{
    reveal_strlit("/");
    if folder.len() > 0 {
        if folder.last() == '/' {
            law_a_text_contains_its_parts(folder, seq![], name);
            assert(folder + seq![] + name =~= folder + name);
        } else {
            law_a_text_contains_its_parts(folder, "/"@, name);
            assert(folder + "/"@ + name =~= folder.push('/') + name);
        }
    }
}

/// A text in a given order has a line for each member, its name as a JSON string,
/// a colon and its value, and a comma between two.
pub proof fn law_an_ordered_text_keeps_its_order(
    members: Seq<(Seq<char>, JsonV)>,
    name: Seq<char>,
    value: JsonV,
)
    ensures
        ordered_text_of(seq![]) == "{}"@,
        ({
            let line = json_text_of(JsonV::Text(name)) + ":"@ + json_text_of(value);
            let before = ordered_text_of(members);
            let after = ordered_text_of(members.push((name, value)));
            &&& members.len() == 0 ==> after == "{"@ + line + "}"@
            &&& members.len() > 0 ==> after == before.drop_last() + ","@ + line + "}"@
            &&& before.last() == '}'
        }),
{
    reveal_strlit("{");
    reveal_strlit("}");
    reveal_strlit("{}");
    reveal_strlit(",");
    let of = |m: (Seq<char>, JsonV)| crate::json::member_line(m);
    let none = Seq::<(Seq<char>, JsonV)>::empty();
    assert(none.map_values(of) =~= Seq::<Seq<char>>::empty());
    assert("{"@ + Seq::<char>::empty() + "}"@ =~= "{}"@);
    let line = crate::json::member_line((name, value));
    let parts = members.map_values(of);
    let more = members.push((name, value));
    assert(more.map_values(of) =~= parts.push(line));
    crate::text_laws::law_a_joint_stands_between_neighbours(parts, line, ","@);
    if members.len() == 0 {
        assert(parts.push(line) =~= seq![line]);
    } else {
        let text = crate::text::joined(parts, ","@);
        assert(("{"@ + text + "}"@).drop_last() =~= "{"@ + text);
        assert("{"@ + (text + ","@ + line) + "}"@ =~= "{"@ + text + ","@ + line + "}"@);
    }
}

// ---------------------------------------------------------------------------
// Cells and ranks
// ---------------------------------------------------------------------------
/// The document of a cell names its task, its arm and its model, and has the
/// arm's configuration and the cell's own scorecard.
pub proof fn law_a_cell_document_is_of_its_own_cell(spec: RunSpec, cell: CellV)
    ensures
        ({
            let doc = cell_tree(spec, cell);
            &&& member(doc, "task"@) == Some(JsonV::Text(spec.tasks@[cell.task].id@))
            &&& member(doc, "arm"@) == Some(JsonV::Text(spec.arms@[cell.arm].arm@))
            &&& member(doc, "model"@) == Some(JsonV::Text(spec.model@))
            &&& member(doc, "arm_config"@) == Some(
                match spec.arms@[cell.arm].config {
                    Some(config) => config@,
                    None => JsonV::Null,
                },
            )
            &&& member(doc, "scorecard"@) == Some(JsonV::Text(cell.scorecard))
        }),
{
    reveal_strlit("task");
    reveal_strlit("arm");
    reveal_strlit("model");
    reveal_strlit("arm_config");
    reveal_strlit("scorecard");
    assert("task"@.len() == 4 && "arm"@.len() == 3 && "model"@.len() == 5);
    assert("arm_config"@.len() == 10 && "scorecard"@.len() == 9);
    let all = cell_tree(spec, cell)->Object_0;
    law_the_first_member_of_a_name_is_found(all, "task"@, 0);
    law_the_first_member_of_a_name_is_found(all, "arm"@, 1);
    law_the_first_member_of_a_name_is_found(all, "model"@, 2);
    law_the_first_member_of_a_name_is_found(all, "arm_config"@, 3);
    law_the_first_member_of_a_name_is_found(all, "scorecard"@, 4);
}

/// A card's results can be graded if and only if grading it leaves the verdict
/// on it.
pub proof fn law_a_card_with_results_can_be_graded(text: Seq<char>, card: JsonV, passed: bool)
    requires
        json_of(text) == Some(card),
    ensures
        carries_results(text) <==> (patched(card, passed) matches Some(done) && card_verdict(done)
            == Some(passed) && member(card, "results"@) is Some),
{
    match card {
        JsonV::Object(members) => {
            match member(card, "results"@) {
                Some(JsonV::Object(results)) => {
                    let graded = set_member(results, "passed"@, JsonV::Bool(passed));
                    law_member_after_set(members, "results"@, JsonV::Object(graded), "results"@);
                    law_member_after_set(results, "passed"@, JsonV::Bool(passed), "passed"@);
                },
                Some(JsonV::Null) => {
                    let none: Seq<(Seq<char>, JsonV)> = seq![];
                    let graded = set_member(none, "passed"@, JsonV::Bool(passed));
                    law_member_after_set(members, "results"@, JsonV::Object(graded), "results"@);
                    law_member_after_set(none, "passed"@, JsonV::Bool(passed), "passed"@);
                },
                _ => {},
            }
        },
        _ => {},
    }
}

/// Ranks put the greater key first, and of two equal keys the earlier one, so any
/// two places have one order.
pub proof fn law_ranks_put_the_greater_first(keys: Seq<u64>, i: int, j: int, k: int)
    ensures
        keys[i] > keys[j] ==> ranks_before(keys, i, j) && !ranks_before(keys, j, i),
        keys[i] == keys[j] && i < j ==> ranks_before(keys, i, j) && !ranks_before(keys, j, i),
        ranks_before(keys, i, j) && ranks_before(keys, j, k) ==> ranks_before(keys, i, k),
        !ranks_before(keys, i, i),
{
}

/// A progress line quotes what was received, and of a known size also the size
/// and the percentage.
pub proof fn law_a_progress_line_quotes_the_sizes(
    received: u64,
    total: u64,
    got: Seq<char>,
    all: Seq<char>,
)
    ensures
        ends_with(progress_line(received, None, got, all), got),
        contains(progress_line(received, Some(total), got, all), got + " / "@ + all),
        ends_with(
            progress_line(received, Some(total), got, all),
            "("@ + dec(progress_percent(received, total) as nat) + "%)"@,
        ),
{
    reveal_strlit("  ");
    reveal_strlit(" (");
    reveal_strlit("(");
    reveal_strlit("%)");
    let a = progress_line(received, None, got, all);
    lemma_part(a, 2, got);
    let b = progress_line(received, Some(total), got, all);
    lemma_part(b, 2, got + " / "@ + all);
    let p = "("@ + dec(progress_percent(received, total) as nat) + "%)"@;
    lemma_part(b, b.len() - p.len(), p);
}

// ---------------------------------------------------------------------------
// Commands
// ---------------------------------------------------------------------------
/// A word names one command: two commands that it names are of one kind.
pub proof fn law_a_word_names_one_command(word: Seq<char>, a: Command, b: Command)
    requires
        names_command(word, a),
        names_command(word, b),
    ensures
        a is Version <==> b is Version,
        a is Instruments <==> b is Instruments,
        a is FindBest <==> b is FindBest,
        a is Arms <==> b is Arms,
        a is Uplift <==> b is Uplift,
        a is Rescore <==> b is Rescore,
        a is Help <==> b is Help,
        a is Unknown <==> b is Unknown,
        word == "version"@ ==> a is Version,
        word == "instruments"@ ==> a is Instruments,
        word == "findbest"@ ==> a is FindBest,
        word == "arms"@ ==> a is Arms,
        word == "uplift"@ ==> a is Uplift,
        word == "rescore"@ ==> a is Rescore,
        word == "--help"@ || word == "-h"@ || word == "help"@ ==> a is Help,
        a matches Command::Unknown(w) ==> w@ == word,
{
    reveal_strlit("version");
    reveal_strlit("instruments");
    reveal_strlit("findbest");
    reveal_strlit("arms");
    reveal_strlit("uplift");
    reveal_strlit("rescore");
    reveal_strlit("--help");
    reveal_strlit("-h");
    reveal_strlit("help");
    assert("version"@.len() == 7 && "instruments"@.len() == 11 && "findbest"@.len() == 8);
    assert("arms"@.len() == 4 && "uplift"@.len() == 6 && "rescore"@.len() == 7);
    assert("--help"@.len() == 6 && "-h"@.len() == 2 && "help"@.len() == 4);
    assert("version"@[0] == 'v' && "rescore"@[0] == 'r');
    assert("arms"@[0] == 'a' && "help"@[0] == 'h' && "uplift"@[0] == 'u' && "--help"@[0] == '-');
}

// ---------------------------------------------------------------------------
// Bounds and names
// ---------------------------------------------------------------------------
/// The product's own version and the names and bounds that its output promises.
pub proof fn law_the_product_promises_these()
    ensures
        VERSION@ == "1.2.1"@,
        API_VERSION == 1,
        LAUNCHER_EXPORT_VERSION == 3,
        MEASUREMENT_PROTOCOL@ == "openai-chat-completions-v1"@,
        TELEMETRY_PROTOCOL@ == "host-cpu-ram-nvidia-vram-v1"@,
        MAX_DIAGNOSTIC_CHARS == 2048,
        CHAT_PROMPT_TARGET_TOKENS == 512,
        DEFAULT_RETAINED_RUNS == 20,
        DEFAULT_FIT_MARGIN_MIB == 1024,
        EVENTS_WAIT_MS == 2000,
        CLEANUP_SECS == 10,
        SLICE_SECS == 1,
{
}

// ---------------------------------------------------------------------------
// The words of an uplift
// ---------------------------------------------------------------------------
/// The last line of a report tells the difference, its band and the effect, or
/// that there was no variance, and ends with the outcome, whose three names
/// differ.
pub proof fn law_an_uplift_line_tells_the_difference(uplift: Significance)
    ensures
        starts_with(
            uplift_text(uplift),
            "**Uplift:** delta="@ + uplift.delta_percent@ + "% (band ±"@ + uplift.band_percent@
                + "%, effect size "@ + (match uplift.effect_size {
                Some(e) => e@,
                None => "n/a (zero variance)"@,
            }),
        ),
        ends_with(uplift_text(uplift), verdict_text(uplift.verdict) + "**"@),
        verdict_text(Verdict::Uplift) == "uplift"@,
        verdict_text(Verdict::Regression) == "regression"@,
        verdict_text(Verdict::NoEffect) == "no-effect (within noise)"@,
{
    let t = uplift_text(uplift);
    let front = "**Uplift:** delta="@ + uplift.delta_percent@ + "% (band ±"@ + uplift.band_percent@
        + "%, effect size "@ + (match uplift.effect_size {
        Some(e) => e@,
        None => "n/a (zero variance)"@,
    });
    let end = verdict_text(uplift.verdict) + "**"@;
    assert(t =~= front + ") -> **"@ + end);
    law_a_text_contains_its_parts(front, ") -> **"@, end);
}

/// The lesson arm's row tells how many of the intended lessons were injected; the
/// baseline's says that it has none.
pub proof fn law_a_row_tells_its_injection(row: UpliftArmRow)
    ensures
        row.is_lesson_arm ==> injection_text(row) == "injected "@ + dec(
            row.injection.injected as nat,
        ) + "/"@ + dec(row.injection.intended as nat) + " intended"@,
        !row.is_lesson_arm ==> injection_text(row) == "none (baseline)"@,
{
}

// ---------------------------------------------------------------------------
// The words of a refusal
// ---------------------------------------------------------------------------
/// What is wrong with a run's specification is told by its first defect, which
/// quotes what was given: the schema, or the corpus.
pub proof fn law_a_specification_defect_quotes_what_was_given(spec: RunSpec)
    ensures
        spec.schema != 1 ==> (spec_defect(spec) matches Some(m) && contains(
            m,
            dec(spec.schema as nat),
        )),
        spec.schema == 1 && trimmed(spec.model@).len() > 0 && spec.corpus@ != "external"@
            && spec.corpus@ != "first-party"@ ==> (spec_defect(spec) matches Some(m) && contains(
            m,
            spec.corpus@,
        )),
{
    match spec_defect(spec) {
        Some(m) => {
            let a = "unsupported run-spec schema "@;
            let b = "unknown corpus '"@;
            if spec.schema != 1 {
                lemma_part(m, a.len() as int, dec(spec.schema as nat));
            } else if trimmed(spec.model@).len() > 0 && spec.corpus@ != "external"@ && spec.corpus@
                != "first-party"@ {
                lemma_part(m, b.len() as int, spec.corpus@);
            }
        },
        None => {},
    }
}

/// A refused arm is named, and a baseline that turns the harness on is told which
/// flags do so; a refusal by the isolation check is told in its own words.
pub proof fn law_a_refused_arm_is_named(arm: ArmSpec, reason: String)
    ensures
        arm.config is Some ==> arm_refusal(arm, Isolation::Refused(reason)) == Some(reason@),
        arm.config is Some && arm.verify && arm.learn ==> (arm_refusal(arm, Isolation::Clean(true))
            matches Some(m) && contains(m, arm.arm@) && contains(m, "--verify and --learn"@)),
        arm.config is Some && arm.verify && !arm.learn ==> (arm_refusal(arm, Isolation::Clean(true))
            matches Some(m) && contains(m, arm.arm@) && contains(m, " --verify "@)),
        arm.config is Some && !arm.verify && arm.learn ==> (arm_refusal(arm, Isolation::Clean(true))
            matches Some(m) && contains(m, arm.arm@) && contains(m, " --learn "@)),
        arm.config is None && lowered(arm.arm@) == "baseline"@ ==> (arm_refusal(
            arm,
            Isolation::Clean(false),
        ) matches Some(m) && contains(m, arm.arm@)),
{
    reveal_strlit("--verify");
    reveal_strlit("--learn");
    reveal_strlit(" and ");
    reveal_strlit("--verify and --learn");
    reveal_strlit(" --verify ");
    reveal_strlit(" --learn ");
    reveal_strlit("' declares the harness off but its run sets ");
    reveal_strlit(
        " — the declared clean config contradicts the actual solver invocation (localpilot eval would receive that harness flag). Drop the flag or mark the arm non-baseline.",
    );
    let head = "baseline arm '"@;
    let sets = "' declares the harness off but its run sets "@;
    let v = "--verify"@;
    let l = "--learn"@;
    reveal_with_fuel(joined, 3);
    if arm.config is Some && (arm.verify || arm.learn) {
        let m = arm_refusal(arm, Isolation::Clean(true))->Some_0;
        let flags = crate::matrix::harness_flags(arm);
        let k = (head.len() + arm.arm@.len() + sets.len()) as int;
        lemma_part(m, head.len() as int, arm.arm@);
        if arm.verify && arm.learn {
            assert(flags =~= seq![v, l]);
            assert(flags.drop_last() =~= seq![v]);
            assert(joined(seq![v], " and "@) =~= v);
            assert(joined(flags, " and "@) =~= "--verify and --learn"@);
            lemma_part(m, k, "--verify and --learn"@);
        } else if arm.verify {
            assert(flags =~= seq![v]);
            assert(joined(flags, " and "@) =~= v);
            lemma_part(m, k - 1, " --verify "@);
        } else {
            assert(flags =~= seq![l]);
            assert(joined(flags, " and "@) =~= l);
            lemma_part(m, k - 1, " --learn "@);
        }
    }
    if arm.config is None && lowered(arm.arm@) == "baseline"@ {
        let m = arm_refusal(arm, Isolation::Clean(false))->Some_0;
        lemma_part(m, head.len() as int, arm.arm@);
    }
}

} // verus!
