//! Crash-tolerant, bounded evidence for tuner attempts: what a run's manifest
//! records of an attempt, which of a manifest's lines count, and which
//! completed runs are retained.
use vstd::prelude::*;
use vstd::string::StringExecFns;

use crate::json::{
    no_members, object, ordered_text, push_member, put_member, text_node, Json, Member,
};
#[allow(unused_imports)]
use crate::json::{lemma_object_view, maybe, members_view, ordered_text_of, set_member, JsonV};
use crate::overrides::{stands_before, Overrides};
#[allow(unused_imports)]
use crate::overrides::{before, law_key_order, overrides_node, OverridesV};
use crate::text::{
    alphanumeric, chars_of, copy_text, dec_padded, dec_u64, range_string, same, str_ends_with,
};
#[allow(unused_imports)]
use crate::text::{dec, ends_with, is_alphanumeric, lines, lowered, views, zero_padded};
use crate::trial::{
    cap_text, push_integer, sanitize_excerpt, sanitize_launch_args, TrialFailureReason,
    TrialFailureStage,
};
#[allow(unused_imports)]
use crate::trial::{
    bounded, capped, credential_words, excerpt, first_eight,
    law_excerpts_are_bounded_and_redacted, maybe_integer, mentions, portable, recorded_args,
    MAX_DIAGNOSTIC_CHARS,
};
use crate::trial_run::{Trial, TrialDiagnosticRef};
#[allow(unused_imports)]
use crate::trial_run::{text_view, DiagnosticV, TrialV};

verus! {

/// Default number of completed run manifests retained beside active runs.
pub const DEFAULT_RETAINED_RUNS: usize = 20;

// ---------------------------------------------------------------------------
// Names
// ---------------------------------------------------------------------------
/// A text without its leading dashes.
pub open spec fn after_dashes(s: Seq<char>) -> Seq<char>
    decreases s.len(),
{
    if s.len() > 0 && s[0] == '-' {
        after_dashes(s.skip(1))
    } else {
        s
    }
}

/// A text without its trailing dashes.
pub open spec fn until_dashes(s: Seq<char>) -> Seq<char>
    decreases s.len(),
{
    if s.len() > 0 && s.last() == '-' {
        until_dashes(s.drop_last())
    } else {
        s
    }
}

/// The component that stands for a run in file names and attempt ids.
pub open spec fn run_component(value: Seq<char>) -> Seq<char> {
    let safe = until_dashes(
        after_dashes(capped(value, 64).map_values(|c: char| portable(c))),
    );
    if safe.len() == 0 {
        "run"@
    } else {
        safe
    }
}

/// The component that stands for a run in file names and attempt ids.
pub fn safe_component(value: &str) -> (out: String)
    ensures
        out@ == run_component(value@),
{
    let chars: Vec<char> = chars_of(value);
    let end: usize = if chars.len() <= 64 {
        chars.len()
    } else {
        64
    };
    let ghost mapped = capped(value@, 64).map_values(|c: char| portable(c));
    let mut safe: Vec<char> = Vec::new();
    let mut i: usize = 0;
    while i < end
        invariant
            i <= end <= chars@.len(),
            chars@ == value@,
            mapped == capped(value@, 64).map_values(|c: char| portable(c)),
            mapped.len() == end,
            safe@ == mapped.take(i as int),
        decreases end - i,
    {
        let c: char = chars[i];
        let p: char = if alphanumeric(c) || c == '-' || c == '_' {
            c
        } else {
            '-'
        };
        assert(mapped[i as int] == p);
        assert(mapped.take(i + 1) =~= mapped.take(i as int).push(p));
        safe.push(p);
        i = i + 1;
    }
    assert(safe@ =~= mapped);
    let mut from: usize = 0;
    assert(mapped.skip(0) =~= mapped);
    while from < safe.len() && safe[from] == '-'
        invariant
            from <= safe.len(),
            safe@ == mapped,
            after_dashes(mapped) == after_dashes(mapped.skip(from as int)),
        decreases safe.len() - from,
    {
        assert(mapped.skip(from as int).skip(1) =~= mapped.skip(from + 1));
        from = from + 1;
    }
    let ghost front = mapped.skip(from as int);
    assert(front == after_dashes(mapped));
    let mut to: usize = safe.len();
    assert(mapped.subrange(from as int, to as int) =~= front);
    while to > from && safe[to - 1] == '-'
        invariant
            from <= to <= safe.len(),
            safe@ == mapped,
            until_dashes(front) == until_dashes(mapped.subrange(from as int, to as int)),
        decreases to,
    {
        assert(mapped.subrange(from as int, to as int).drop_last() =~= mapped.subrange(
            from as int,
            to - 1,
        ));
        to = to - 1;
    }
    assert(until_dashes(front) == mapped.subrange(from as int, to as int));
    if from >= to {
        return "run".to_string();
    }
    range_string(&safe, from, to)
}

proof fn lemma_after_dashes(s: Seq<char>) -> (n: int)
    ensures
        0 <= n <= s.len(),
        after_dashes(s) == s.skip(n),
        n < s.len() ==> s[n] != '-',
    decreases s.len(),
{
    if s.len() > 0 && s[0] == '-' {
        let n = lemma_after_dashes(s.skip(1));
        assert(s.skip(1).skip(n) =~= s.skip(n + 1));
        n + 1
    } else {
        assert(s.skip(0) =~= s);
        0
    }
}

proof fn lemma_until_dashes(s: Seq<char>) -> (n: int)
    ensures
        0 <= n <= s.len(),
        until_dashes(s) == s.take(n),
        n > 0 ==> s[n - 1] != '-',
    decreases s.len(),
{
    if s.len() > 0 && s.last() == '-' {
        let n = lemma_until_dashes(s.drop_last());
        assert(s.drop_last().take(n) =~= s.take(n));
        n
    } else {
        assert(s.take(s.len() as int) =~= s);
        s.len() as int
    }
}

/// A run's component is a portable name whatever the run is called: not empty,
/// at most 64 characters, made of letters, digits, dashes and underscores, and
/// without a dash at either end.
pub proof fn law_run_components_are_portable(value: Seq<char>, i: int)
    requires
        0 <= i < run_component(value).len(),
    ensures
        0 < run_component(value).len() <= 64,
        ({
            let c = run_component(value);
            &&& is_alphanumeric(c[i]) || c[i] == '-' || c[i] == '_'
            &&& c[0] != '-' && c.last() != '-'
        }),
{
    reveal_strlit("run");
    let mapped = capped(value, 64).map_values(|c: char| portable(c));
    let n = lemma_after_dashes(mapped);
    let front = mapped.skip(n);
    let m = lemma_until_dashes(front);
    let safe = front.take(m);
    if safe.len() > 0 {
        assert(safe[i] == mapped[n + i]);
        assert(mapped[n + i] == portable(capped(value, 64)[n + i]));
        assert(safe[0] == mapped[n]);
        assert(safe.last() == front[m - 1]);
    }
}

/// The name of a run's manifest.
pub fn manifest_name(run_id: &str) -> (out: String)
    ensures
        out@ == "run-"@ + run_component(run_id@) + ".jsonl"@,
{
    let mut name: String = "run-".to_string();
    name.append(safe_component(run_id).as_str());
    name.append(".jsonl");
    name
}

/// The name of the marker that a run is active.
pub fn marker_name(run_id: &str) -> (out: String)
    ensures
        out@ == "run-"@ + run_component(run_id@) + ".active"@,
{
    let mut name: String = "run-".to_string();
    name.append(safe_component(run_id).as_str());
    name.append(".active");
    name
}

/// The spelling of a stage.
pub open spec fn stage_name(stage: TrialFailureStage) -> Seq<char> {
    match stage {
        TrialFailureStage::Launch => "launch"@,
        TrialFailureStage::Readiness => "readiness"@,
        TrialFailureStage::Request => "request"@,
        TrialFailureStage::Response => "response"@,
        TrialFailureStage::Content => "content"@,
    }
}

/// The spelling of a reason.
pub open spec fn reason_name(reason: TrialFailureReason) -> Seq<char> {
    match reason {
        TrialFailureReason::InvalidOverrides => "invalid_overrides"@,
        TrialFailureReason::PortUnavailable => "port_unavailable"@,
        TrialFailureReason::ArgumentConstruction => "argument_construction"@,
        TrialFailureReason::BinaryUnavailable => "binary_unavailable"@,
        TrialFailureReason::SpawnFailed => "spawn_failed"@,
        TrialFailureReason::ReadinessExited => "readiness_exited"@,
        TrialFailureReason::ReadinessExitedOom => "readiness_exited_oom"@,
        TrialFailureReason::ReadinessTimeout => "readiness_timeout"@,
        TrialFailureReason::Transport => "transport"@,
        TrialFailureReason::HttpStatus => "http_status"@,
        TrialFailureReason::ResponseDecode => "response_decode"@,
        TrialFailureReason::ResponseSchema => "response_schema"@,
        TrialFailureReason::MissingTimings => "missing_timings"@,
        TrialFailureReason::InvalidTimings => "invalid_timings"@,
        TrialFailureReason::EmptyContent => "empty_content"@,
        TrialFailureReason::ThinkingOnly => "thinking_only"@,
        TrialFailureReason::DegenerateContent => "degenerate_content"@,
    }
}

/// The spelling of a stage.
pub fn spell_stage(stage: TrialFailureStage) -> (out: String)
    ensures
        out@ == stage_name(stage),
{
    match stage {
        TrialFailureStage::Launch => "launch".to_string(),
        TrialFailureStage::Readiness => "readiness".to_string(),
        TrialFailureStage::Request => "request".to_string(),
        TrialFailureStage::Response => "response".to_string(),
        TrialFailureStage::Content => "content".to_string(),
    }
}

/// The spelling of a reason.
pub fn spell_reason(reason: TrialFailureReason) -> (out: String)
    ensures
        out@ == reason_name(reason),
{
    match reason {
        TrialFailureReason::InvalidOverrides => "invalid_overrides".to_string(),
        TrialFailureReason::PortUnavailable => "port_unavailable".to_string(),
        TrialFailureReason::ArgumentConstruction => "argument_construction".to_string(),
        TrialFailureReason::BinaryUnavailable => "binary_unavailable".to_string(),
        TrialFailureReason::SpawnFailed => "spawn_failed".to_string(),
        TrialFailureReason::ReadinessExited => "readiness_exited".to_string(),
        TrialFailureReason::ReadinessExitedOom => "readiness_exited_oom".to_string(),
        TrialFailureReason::ReadinessTimeout => "readiness_timeout".to_string(),
        TrialFailureReason::Transport => "transport".to_string(),
        TrialFailureReason::HttpStatus => "http_status".to_string(),
        TrialFailureReason::ResponseDecode => "response_decode".to_string(),
        TrialFailureReason::ResponseSchema => "response_schema".to_string(),
        TrialFailureReason::MissingTimings => "missing_timings".to_string(),
        TrialFailureReason::InvalidTimings => "invalid_timings".to_string(),
        TrialFailureReason::EmptyContent => "empty_content".to_string(),
        TrialFailureReason::ThinkingOnly => "thinking_only".to_string(),
        TrialFailureReason::DegenerateContent => "degenerate_content".to_string(),
    }
}

// ---------------------------------------------------------------------------
// Records
// ---------------------------------------------------------------------------
/// One durable line in a tuner run manifest.
#[derive(Debug, PartialEq, Eq)]
pub struct RunManifestRecord {
    pub run_id: String,
    pub attempt_id: String,
    pub ordinal: u64,
    pub phase: String,
    pub signature: String,
    pub cache_source: String,
    pub requested_overrides: Overrides,
    pub startup_ok: bool,
    pub oom: bool,
    pub measurement_usable: bool,
    pub failure_stage: Option<String>,
    pub failure_reason: Option<String>,
    /// The typed failure's own detail. Stage and reason classify a failure;
    /// this is the sentence that says what actually happened: for a content
    /// failure, why the reply was rejected plus a bounded excerpt of it.
    /// Without it a run manifest cannot distinguish a flood from an empty or
    /// merely terse answer, because `diagnostic_excerpt` carries server log
    /// text that is healthy in exactly that case.
    pub failure_detail: Option<String>,
    pub process_status: Option<i32>,
    pub log_path: String,
    pub diagnostic_excerpt: String,
    pub launch_args: Vec<String>,
    pub observed_configuration: Vec<Member>,
    /// Log-derived adjustments are advisory, never claimed as effective.
    pub advisory_observations: Vec<String>,
    pub pp_tps: Option<String>,
    pub tg_tps: Option<String>,
    pub recorded_at: String,
}

/// One line of a manifest, mathematically.
#[verifier::ext_equal]
pub struct RecordV {
    pub run_id: Seq<char>,
    pub attempt_id: Seq<char>,
    pub ordinal: u64,
    pub phase: Seq<char>,
    pub signature: Seq<char>,
    pub cache_source: Seq<char>,
    pub requested_overrides: OverridesV,
    pub startup_ok: bool,
    pub oom: bool,
    pub measurement_usable: bool,
    pub failure_stage: Option<Seq<char>>,
    pub failure_reason: Option<Seq<char>>,
    pub failure_detail: Option<Seq<char>>,
    pub process_status: Option<i32>,
    pub log_path: Seq<char>,
    pub diagnostic_excerpt: Seq<char>,
    pub launch_args: Seq<Seq<char>>,
    pub observed: Seq<(Seq<char>, JsonV)>,
    pub advisories: Seq<Seq<char>>,
    pub pp_tps: Option<Seq<char>>,
    pub tg_tps: Option<Seq<char>>,
    pub recorded_at: Seq<char>,
}

impl View for RunManifestRecord {
    type V = RecordV;

    open spec fn view(&self) -> RecordV {
        RecordV {
            run_id: self.run_id@,
            attempt_id: self.attempt_id@,
            ordinal: self.ordinal,
            phase: self.phase@,
            signature: self.signature@,
            cache_source: self.cache_source@,
            requested_overrides: self.requested_overrides@,
            startup_ok: self.startup_ok,
            oom: self.oom,
            measurement_usable: self.measurement_usable,
            failure_stage: text_view(self.failure_stage),
            failure_reason: text_view(self.failure_reason),
            failure_detail: text_view(self.failure_detail),
            process_status: self.process_status,
            log_path: self.log_path@,
            diagnostic_excerpt: self.diagnostic_excerpt@,
            launch_args: views(self.launch_args@),
            observed: members_view(self.observed_configuration@),
            advisories: views(self.advisory_observations@),
            pp_tps: text_view(self.pp_tps),
            tg_tps: text_view(self.tg_tps),
            recorded_at: self.recorded_at@,
        }
    }
}

/// What is kept of one observed value: a bounded name and a bounded value.
pub open spec fn kept_observation(m: (Seq<char>, JsonV)) -> (Seq<char>, JsonV) {
    (capped(m.0, 128), bounded(m.1))
}

/// What is kept of the first `n` observed values; of two whose bounded names
/// are the same, the later one.
pub open spec fn kept_observations(observed: Seq<(Seq<char>, JsonV)>, n: int) -> Seq<
    (Seq<char>, JsonV),
>
    decreases n,
{
    if n <= 0 {
        seq![]
    } else {
        let kept = kept_observation(observed[n - 1]);
        set_member(kept_observations(observed, n - 1), kept.0, kept.1)
    }
}

/// Values in the order of their names, with one more: of two with one name,
/// the later one.
pub open spec fn slotted(
    members: Seq<(Seq<char>, JsonV)>,
    name: Seq<char>,
    value: JsonV,
) -> Seq<(Seq<char>, JsonV)>
    decreases members.len(),
{
    if members.len() == 0 {
        seq![(name, value)]
    } else if members[0].0 == name {
        seq![(name, value)] + members.skip(1)
    } else if before(name, members[0].0) {
        seq![(name, value)] + members
    } else {
        seq![members[0]] + slotted(members.skip(1), name, value)
    }
}

/// The first `n` values in the order of their names, each name once.
pub open spec fn by_name(observed: Seq<(Seq<char>, JsonV)>, n: int) -> Seq<(Seq<char>, JsonV)>
    decreases n,
{
    if n <= 0 {
        seq![]
    } else {
        slotted(by_name(observed, n - 1), observed[n - 1].0, observed[n - 1].1)
    }
}

/// Whether values stand in the strict order of their names.
pub open spec fn in_name_order(members: Seq<(Seq<char>, JsonV)>) -> bool {
    forall|i: int, j: int|
        0 <= i < j < members.len() ==> before((#[trigger] members[i]).0, (#[trigger] members[j]).0)
}

proof fn lemma_slotted_in_order(members: Seq<(Seq<char>, JsonV)>, name: Seq<char>, value: JsonV)
    requires
        in_name_order(members),
    ensures
        in_name_order(slotted(members, name, value)),
        forall|k: int|
            0 <= k < slotted(members, name, value).len() ==> {
                let f = (#[trigger] slotted(members, name, value)[k]).0;
                f == name || exists|j: int| 0 <= j < members.len() && (#[trigger] members[j]).0 == f
            },
    decreases members.len(),
{
    let now = slotted(members, name, value);
    if members.len() > 0 {
        if members[0].0 == name {
            assert forall|k: int| 1 <= k < now.len() implies #[trigger] now[k] == members[k] by {}
            assert(now[0].0 == name);
        } else if before(name, members[0].0) {
            assert forall|k: int| 1 <= k < now.len() implies #[trigger] now[k]
                == members[k - 1] by {}
            assert forall|k: int| 1 <= k < now.len() implies before(
                name,
                (#[trigger] now[k]).0,
            ) by {
                assert(now[k] == members[k - 1]);
                law_key_order(name, members[0].0, members[k - 1].0);
            }
        } else {
            let rest = members.skip(1);
            assert forall|i: int, j: int| 0 <= i < j < rest.len() implies before(
                (#[trigger] rest[i]).0,
                (#[trigger] rest[j]).0,
            ) by {
                assert(rest[i] == members[i + 1] && rest[j] == members[j + 1]);
            }
            lemma_slotted_in_order(rest, name, value);
            let tail = slotted(rest, name, value);
            assert forall|k: int| 1 <= k < now.len() implies #[trigger] now[k] == tail[k - 1] by {}
            assert forall|k: int| 1 <= k < now.len() implies before(
                members[0].0,
                (#[trigger] now[k]).0,
            ) by {
                assert(now[k] == tail[k - 1]);
                law_key_order(name, members[0].0, name);
                if now[k].0 != name {
                    let j = choose|j: int|
                        0 <= j < rest.len() && (#[trigger] rest[j]).0 == tail[k - 1].0;
                    assert(rest[j] == members[j + 1]);
                }
            }
            assert forall|k: int| 0 <= k < now.len() implies {
                let f = (#[trigger] now[k]).0;
                f == name || exists|j: int| 0 <= j < members.len() && (#[trigger] members[j]).0 == f
            } by {
                if k == 0 {
                    assert(members[0].0 == now[0].0);
                } else {
                    assert(now[k] == tail[k - 1]);
                    if now[k].0 != name {
                        let j = choose|j: int|
                            0 <= j < rest.len() && (#[trigger] rest[j]).0 == tail[k - 1].0;
                        assert(members[j + 1].0 == now[k].0);
                    }
                }
            }
        }
    }
}

/// Observed values are told apart by their names and stand in the order of
/// them, in whatever order they came.
pub proof fn law_observations_stand_by_name(observed: Seq<(Seq<char>, JsonV)>, n: int)
    ensures
        in_name_order(by_name(observed, n)),
    decreases n,
{
    if n > 0 {
        law_observations_stand_by_name(observed, n - 1);
        lemma_slotted_in_order(
            by_name(observed, n - 1),
            observed[n - 1].0,
            observed[n - 1].1,
        );
    }
}

fn slot_member(members: &mut Vec<Member>, one: &Member)
    ensures
        members_view(final(members)@) == slotted(members_view(old(members)@), one.name@, one.value@),
{
    let ghost all = members_view(members@);
    let ghost n = one.name@;
    let ghost v = one.value@;
    let mut i: usize = 0;
    assert(all.skip(0) =~= all);
    assert(all.take(0) + slotted(all, n, v) =~= slotted(all, n, v));
    while i < members.len()
        invariant
            i <= members.len(),
            *members == *old(members),
            all == members_view(members@),
            n == one.name@,
            v == one.value@,
            slotted(all, n, v) == all.take(i as int) + slotted(all.skip(i as int), n, v),
        decreases members.len() - i,
    {
        proof {
            assert(all.skip(i as int)[0] == (members@[i as int].name@, members@[i as int].value@));
            assert(all.skip(i as int).skip(1) =~= all.skip(i + 1));
        }
        if same(members[i].name.as_str(), one.name.as_str()) {
            members.set(i, copy_member(one));
            proof {
                let now = members_view(members@);
                assert(now =~= all.update(i as int, (n, v)));
                assert(now =~= all.take(i as int) + (seq![(n, v)] + all.skip(i + 1)));
            }
            return;
        }
        if stands_before(
            &chars_of(one.name.as_str()),
            &chars_of(members[i].name.as_str()),
        ) {
            members.insert(i, copy_member(one));
            proof {
                let now = members_view(members@);
                assert(now =~= all.insert(i as int, (n, v)));
                assert(now =~= all.take(i as int) + (seq![(n, v)] + all.skip(i as int)));
            }
            return;
        }
        proof {
            assert(all.take(i as int) + (seq![all[i as int]] + slotted(all.skip(i + 1), n, v))
                =~= all.take(i + 1) + slotted(all.skip(i + 1), n, v));
        }
        i = i + 1;
    }
    members.push(copy_member(one));
    proof {
        let now = members_view(members@);
        assert(all.skip(i as int) =~= seq![]);
        assert(now =~= all.push((n, v)));
        assert(now =~= all.take(i as int) + seq![(n, v)]);
    }
}

fn copy_member(one: &Member) -> (out: Member)
    ensures
        out.name@ == one.name@,
        out.value@ == one.value@,
{
    Member { name: one.name.clone(), value: one.value.copy() }
}

/// What is kept of the observed values: the first 32 by name.
pub open spec fn kept_observed(observed: Seq<(Seq<char>, JsonV)>) -> Seq<(Seq<char>, JsonV)> {
    let all = by_name(observed, observed.len() as int);
    kept_observations(
        all,
        if all.len() <= 32 {
            all.len() as int
        } else {
            32
        },
    )
}

/// Bound the observed values before they enter a manifest.
pub fn sanitize_observed(observed: &Vec<Member>) -> (out: Vec<Member>)
    ensures
        members_view(out@) == kept_observed(members_view(observed@)),
{
    let ghost given = members_view(observed@);
    let mut all: Vec<Member> = no_members();
    let mut k: usize = 0;
    while k < observed.len()
        invariant
            k <= observed.len(),
            given == members_view(observed@),
            members_view(all@) == by_name(given, k as int),
        decreases observed.len() - k,
    {
        assert(given[k as int] == (observed@[k as int].name@, observed@[k as int].value@));
        slot_member(&mut all, &observed[k]);
        k = k + 1;
    }
    assert(given.len() == observed@.len());
    assert(members_view(all@).len() == all@.len());
    let mut out: Vec<Member> = no_members();
    let mut i: usize = 0;
    while i < all.len() && i < 32
        invariant
            i <= all.len(),
            i <= 32,
            members_view(out@) == kept_observations(members_view(all@), i as int),
        decreases all.len() - i,
    {
        let one: &Member = &all[i];
        let value: Json = match one.value.text() {
            Some(t) => Json::Text(sanitize_excerpt(t.as_str())),
            None => one.value.copy(),
        };
        let name: String = cap_text(one.name.as_str(), 128);
        assert(members_view(all@)[i as int] == (one.name@, one.value@));
        proof {
            lemma_object_view(out);
        }
        put_member(&mut out, name.as_str(), value);
        proof {
            lemma_object_view(out);
        }
        i = i + 1;
    }
    out
}

/// The excerpts of a list of texts.
pub open spec fn excerpts(texts: Seq<Seq<char>>) -> Seq<Seq<char>> {
    texts.map_values(|t: Seq<char>| excerpt(t))
}

fn sanitize_advisories(texts: &Vec<String>) -> (out: Vec<String>)
    ensures
        views(out@) == first_eight(excerpts(views(texts@))),
{
    let ghost all = excerpts(views(texts@));
    let mut out: Vec<String> = Vec::new();
    let mut i: usize = 0;
    assert(views(out@) =~= all.take(0));
    while i < texts.len() && i < 8
        invariant
            i <= texts.len(),
            i <= 8,
            all == excerpts(views(texts@)),
            views(out@) == all.take(i as int),
        decreases texts.len() - i,
    {
        let ghost was = views(out@);
        let one: String = sanitize_excerpt(texts[i].as_str());
        assert(all[i as int] == one@);
        out.push(one);
        assert(views(out@) =~= was.push(one@));
        assert(all.take(i + 1) =~= all.take(i as int).push(one@));
        i = i + 1;
    }
    proof {
        if texts@.len() <= 8 {
            assert(all.take(i as int) =~= all);
        }
    }
    out
}

/// The fallback id of an attempt that has none.
pub open spec fn fallback_id(run_id: Seq<char>, ordinal: u64) -> Seq<char> {
    run_component(run_id) + "-"@ + zero_padded(dec(ordinal as nat), 4)
}

/// Where an attempt's evidence is once the ledger has it.
pub open spec fn filed(
    diagnostic: Option<DiagnosticV>,
    run_id: Seq<char>,
    ordinal: u64,
    path: Seq<char>,
) -> DiagnosticV {
    let known = match diagnostic {
        Some(d) => d,
        None => DiagnosticV { attempt_id: seq![], manifest_path: seq![], log_path: seq![] },
    };
    DiagnosticV {
        attempt_id: if known.attempt_id.len() == 0 {
            fallback_id(run_id, ordinal)
        } else {
            known.attempt_id
        },
        manifest_path: path,
        log_path: known.log_path,
    }
}

/// A failure's detail as a manifest keeps it: bounded, and only if there is
/// any.
pub open spec fn kept_detail(detail: Seq<char>) -> Option<Seq<char>> {
    if excerpt(detail).len() > 0 {
        Some(excerpt(detail))
    } else {
        None
    }
}

/// An append-only manifest. A sibling marker makes retention fail-safe:
/// interrupted runs remain active and are never pruned.
pub struct RunLedger {
    run_id: String,
    path: String,
    retained_runs: usize,
    next_ordinal: u64,
}

/// What the caller knows of an attempt beside its trial.
pub struct AttemptV {
    pub phase: Seq<char>,
    pub signature: Seq<char>,
    pub cache_source: Seq<char>,
    pub overrides: OverridesV,
    pub recorded_at: Seq<char>,
}

/// What a manifest records of an attempt.
pub open spec fn recorded(
    run_id: Seq<char>,
    ordinal: u64,
    path: Seq<char>,
    attempt: AttemptV,
    trial: TrialV,
) -> RecordV {
    let evidence = filed(trial.diagnostic, run_id, ordinal, path);
    RecordV {
        run_id,
        attempt_id: evidence.attempt_id,
        ordinal,
        phase: attempt.phase,
        signature: attempt.signature,
        cache_source: attempt.cache_source,
        requested_overrides: attempt.overrides,
        startup_ok: trial.startup_ok,
        oom: trial.oom,
        measurement_usable: trial.measurement_usable,
        failure_stage: match trial.failure {
            Some(f) => Some(stage_name(f.stage)),
            None => None,
        },
        failure_reason: match trial.failure {
            Some(f) => Some(reason_name(f.reason)),
            None => None,
        },
        failure_detail: match trial.failure {
            Some(f) => kept_detail(f.detail),
            None => None,
        },
        process_status: trial.process_status,
        log_path: evidence.log_path,
        diagnostic_excerpt: excerpt(trial.diagnostic_excerpt),
        launch_args: recorded_args(trial.launch_args),
        observed: kept_observed(trial.observed),
        advisories: first_eight(excerpts(trial.advisories)),
        pp_tps: trial.pp_tps,
        tg_tps: trial.tg_tps,
        recorded_at: attempt.recorded_at,
    }
}

impl RunLedger {
    pub closed spec fn run_id(self) -> Seq<char> {
        self.run_id@
    }

    pub closed spec fn manifest(self) -> Seq<char> {
        self.path@
    }

    pub closed spec fn retained(self) -> usize {
        self.retained_runs
    }

    /// How many attempts the ledger has recorded.
    pub closed spec fn ordinal(self) -> u64 {
        self.next_ordinal
    }

    /// A ledger without attempts, whose manifest is at `path`. At least one
    /// completed run is retained.
    pub fn create(path: &str, run_id: &str, retained_runs: usize) -> (out: Self)
        ensures
            out.run_id() == run_id@,
            out.manifest() == path@,
            out.retained() == (if retained_runs > 0 {
                retained_runs
            } else {
                1
            }),
            out.ordinal() == 0,
    {
        RunLedger {
            run_id: run_id.to_string(),
            path: path.to_string(),
            retained_runs: if retained_runs > 0 {
                retained_runs
            } else {
                1
            },
            next_ordinal: 0,
        }
    }

    /// The manifest's path.
    pub fn path(&self) -> (out: &String)
        ensures
            out@ == self.manifest(),
    {
        &self.path
    }

    /// How many completed runs are retained.
    pub fn retained_runs(&self) -> (out: usize)
        ensures
            out == self.retained(),
    {
        self.retained_runs
    }

    /// Whether there is room for another attempt.
    pub fn can_record(&self) -> (out: bool)
        ensures
            out == (self.ordinal() < u64::MAX),
    {
        self.next_ordinal < u64::MAX
    }

    /// Record one attempt: the trial learns where its evidence is, and the
    /// record is what the manifest says of it.
    pub fn record(
        &mut self,
        phase: &str,
        signature: &str,
        cache_source: &str,
        overrides: &Overrides,
        trial: &mut Trial,
        recorded_at: &str,
    ) -> (out: RunManifestRecord)
        requires
            old(self).ordinal() < u64::MAX,
        ensures
            final(self).ordinal() == old(self).ordinal() + 1,
            final(self).run_id() == old(self).run_id(),
            final(self).manifest() == old(self).manifest(),
            final(self).retained() == old(self).retained(),
            final(trial)@ == (TrialV {
                diagnostic: Some(
                    filed(
                        old(trial)@.diagnostic,
                        old(self).run_id(),
                        (old(self).ordinal() + 1) as u64,
                        old(self).manifest(),
                    ),
                ),
                ..old(trial)@
            }),
            out@ == recorded(
                old(self).run_id(),
                (old(self).ordinal() + 1) as u64,
                old(self).manifest(),
                (AttemptV {
                    phase: phase@,
                    signature: signature@,
                    cache_source: cache_source@,
                    overrides: overrides@,
                    recorded_at: recorded_at@,
                }),
                old(trial)@,
            ),
    {
        self.next_ordinal = self.next_ordinal + 1;
        let ordinal: u64 = self.next_ordinal;
        let mut fallback: String = safe_component(self.run_id.as_str());
        fallback.append("-");
        fallback.append(dec_padded(ordinal, 4).as_str());
        let (attempt_id, log_path) = match &trial.diagnostic {
            Some(d) => (
                if d.attempt_id.as_str().is_empty() {
                    fallback
                } else {
                    d.attempt_id.clone()
                },
                d.log_path.clone(),
            ),
            None => (fallback, String::new()),
        };
        assert(trial@.diagnostic is None ==> log_path@ =~= seq![]);
        let failure_stage: Option<String> = match &trial.failure {
            Some(f) => Some(spell_stage(f.stage)),
            None => None,
        };
        let failure_reason: Option<String> = match &trial.failure {
            Some(f) => Some(spell_reason(f.reason)),
            None => None,
        };
        let failure_detail: Option<String> = match &trial.failure {
            Some(f) => {
                let detail: String = sanitize_excerpt(f.detail.as_str());
                if detail.as_str().is_empty() {
                    None
                } else {
                    Some(detail)
                }
            },
            None => None,
        };
        let record: RunManifestRecord = RunManifestRecord {
            run_id: self.run_id.clone(),
            attempt_id: attempt_id.clone(),
            ordinal,
            phase: phase.to_string(),
            signature: signature.to_string(),
            cache_source: cache_source.to_string(),
            requested_overrides: overrides.copy(),
            startup_ok: trial.startup_ok,
            oom: trial.oom,
            measurement_usable: trial.measurement_usable,
            failure_stage,
            failure_reason,
            failure_detail,
            process_status: trial.process_status,
            log_path: log_path.clone(),
            diagnostic_excerpt: sanitize_excerpt(trial.diagnostic_excerpt.as_str()),
            launch_args: sanitize_launch_args(&trial.launch_args),
            observed_configuration: sanitize_observed(&trial.observed_configuration),
            advisory_observations: sanitize_advisories(&trial.advisory_observations),
            pp_tps: copy_text(&trial.pp_tps),
            tg_tps: copy_text(&trial.tg_tps),
            recorded_at: recorded_at.to_string(),
        };
        trial.diagnostic = Some(
            TrialDiagnosticRef { attempt_id, manifest_path: self.path.clone(), log_path },
        );
        record
    }
}

// ---------------------------------------------------------------------------
// Lines
// ---------------------------------------------------------------------------
/// A member for a text that is there, none for one that is not.
pub open spec fn maybe_member(name: Seq<char>, text: Option<Seq<char>>) -> Seq<(Seq<char>, JsonV)> {
    match text {
        Some(t) => seq![(name, JsonV::Text(t))],
        None => seq![],
    }
}

/// A member for a text that is not empty.
pub open spec fn filled_member(name: Seq<char>, text: Seq<char>) -> Seq<(Seq<char>, JsonV)> {
    if text.len() > 0 {
        seq![(name, JsonV::Text(text))]
    } else {
        seq![]
    }
}

/// The nodes of a list of texts.
pub open spec fn text_nodes(texts: Seq<Seq<char>>) -> Seq<JsonV> {
    texts.map_values(|t: Seq<char>| JsonV::Text(t))
}

/// A member for a list of texts that is not empty.
pub open spec fn filled_list(name: Seq<char>, texts: Seq<Seq<char>>) -> Seq<(Seq<char>, JsonV)> {
    if texts.len() > 0 {
        seq![(name, JsonV::List(text_nodes(texts)))]
    } else {
        seq![]
    }
}

/// A member for an object that is not empty.
pub open spec fn filled_object(name: Seq<char>, members: Seq<(Seq<char>, JsonV)>) -> Seq<
    (Seq<char>, JsonV),
> {
    if members.len() > 0 {
        seq![(name, JsonV::Object(members))]
    } else {
        seq![]
    }
}

/// A member for a document that is there, none for one that is not.
pub open spec fn maybe_node(name: Seq<char>, node: Option<JsonV>) -> Seq<(Seq<char>, JsonV)> {
    match node {
        Some(n) => seq![(name, n)],
        None => seq![],
    }
}

pub open spec fn status_of(status: Option<i32>) -> Option<i64> {
    match status {
        Some(n) => Some(n as i64),
        None => None,
    }
}

/// The members of a line that are always there.
pub open spec fn line_head(r: RecordV) -> Seq<(Seq<char>, JsonV)> {
    seq![
        ("run_id"@, JsonV::Text(r.run_id)),
        ("attempt_id"@, JsonV::Text(r.attempt_id)),
        ("ordinal"@, JsonV::Unsigned(r.ordinal)),
        ("phase"@, JsonV::Text(r.phase)),
        ("signature"@, JsonV::Text(r.signature)),
        ("cache_source"@, JsonV::Text(r.cache_source)),
        ("requested_overrides"@, overrides_node(r.requested_overrides)),
        ("startup_ok"@, JsonV::Bool(r.startup_ok)),
        ("oom"@, JsonV::Bool(r.oom)),
        ("measurement_usable"@, JsonV::Bool(r.measurement_usable)),
    ]
}

/// The members of one manifest line: what there is nothing to say of is left
/// out.
pub open spec fn line_members(r: RecordV, pp_tps: Option<JsonV>, tg_tps: Option<JsonV>) -> Seq<
    (Seq<char>, JsonV),
> {
    line_head(r) + maybe_member("failure_stage"@, r.failure_stage)
        + maybe_member("failure_reason"@, r.failure_reason)
        + maybe_member("failure_detail"@, r.failure_detail)
        + maybe_integer("process_status"@, status_of(r.process_status))
        + filled_member("log_path"@, r.log_path)
        + filled_member("diagnostic_excerpt"@, r.diagnostic_excerpt)
        + filled_list("launch_args"@, r.launch_args)
        + filled_object("observed_configuration"@, r.observed)
        + filled_list("advisory_observations"@, r.advisories)
        + maybe_node("pp_tps"@, pp_tps)
        + maybe_node("tg_tps"@, tg_tps)
        + seq![("recorded_at"@, JsonV::Text(r.recorded_at))]
}

fn push_text(members: &mut Vec<Member>, name: &str, text: &Option<String>)
    ensures
        members_view(final(members)@) == members_view(old(members)@) + maybe_member(
            name@,
            text_view(*text),
        ),
{
    match text {
        Some(t) => push_member(members, name, text_node(t.as_str())),
        None => {},
    }
    assert(members_view(members@) =~= members_view(old(members)@) + maybe_member(
        name@,
        text_view(*text),
    ));
}

fn push_filled(members: &mut Vec<Member>, name: &str, text: &str)
    ensures
        members_view(final(members)@) == members_view(old(members)@) + filled_member(name@, text@),
{
    if !text.is_empty() {
        push_member(members, name, text_node(text));
    }
    assert(members_view(members@) =~= members_view(old(members)@) + filled_member(name@, text@));
}

/// The list node of a list of texts.
pub fn list_node(texts: &Vec<String>) -> (out: Json)
    ensures
        out@ == JsonV::List(text_nodes(views(texts@))),
{
    let mut items: Vec<Json> = Vec::new();
    let mut i: usize = 0;
    while i < texts.len()
        invariant
            i <= texts.len(),
            items@.len() == i,
            forall|k: int| 0 <= k < i ==> (#[trigger] items@[k])@ == JsonV::Text(texts@[k]@),
        decreases texts.len() - i,
    {
        items.push(text_node(texts[i].as_str()));
        i = i + 1;
    }
    let out: Json = Json::List(items);
    assert(out@->List_0 =~= text_nodes(views(texts@)));
    out
}

fn push_list(members: &mut Vec<Member>, name: &str, texts: &Vec<String>)
    ensures
        members_view(final(members)@) == members_view(old(members)@) + filled_list(
            name@,
            views(texts@),
        ),
{
    if texts.len() > 0 {
        push_member(members, name, list_node(texts));
    }
    assert(members_view(members@) =~= members_view(old(members)@) + filled_list(
        name@,
        views(texts@),
    ));
}

fn push_object(members: &mut Vec<Member>, name: &str, inner: &Vec<Member>)
    ensures
        members_view(final(members)@) == members_view(old(members)@) + filled_object(
            name@,
            members_view(inner@),
        ),
{
    if inner.len() > 0 {
        let mut copied: Vec<Member> = no_members();
        let ghost all = members_view(inner@);
        let mut i: usize = 0;
        assert(members_view(copied@) =~= all.take(0));
        while i < inner.len()
            invariant
                i <= inner.len(),
                all == members_view(inner@),
                members_view(copied@) == all.take(i as int),
            decreases inner.len() - i,
        {
            assert(all[i as int] == (inner@[i as int].name@, inner@[i as int].value@));
            assert(all.take(i + 1) =~= all.take(i as int).push(all[i as int]));
            push_member(&mut copied, inner[i].name.as_str(), inner[i].value.copy());
            i = i + 1;
        }
        assert(all.take(i as int) =~= all);
        push_member(members, name, object(copied));
    }
    assert(members_view(members@) =~= members_view(old(members)@) + filled_object(
        name@,
        members_view(inner@),
    ));
}

fn push_node(members: &mut Vec<Member>, name: &str, node: Option<Json>)
    ensures
        members_view(final(members)@) == members_view(old(members)@) + maybe_node(
            name@,
            maybe(node),
        ),
{
    match node {
        Some(n) => push_member(members, name, n),
        None => {},
    }
    assert(members_view(members@) =~= members_view(old(members)@) + maybe_node(
        name@,
        maybe(node),
    ));
}

/// The line of a record, given the nodes of its two rates.
pub fn manifest_line(record: &RunManifestRecord, pp_tps: Option<Json>, tg_tps: Option<Json>) -> (out:
    String)
    ensures
        out@ == ordered_text_of(line_members(record@, maybe(pp_tps), maybe(tg_tps))),
{
    let mut members: Vec<Member> = no_members();
    push_member(&mut members, "run_id", text_node(record.run_id.as_str()));
    push_member(&mut members, "attempt_id", text_node(record.attempt_id.as_str()));
    push_member(&mut members, "ordinal", Json::Unsigned(record.ordinal));
    push_member(&mut members, "phase", text_node(record.phase.as_str()));
    push_member(&mut members, "signature", text_node(record.signature.as_str()));
    push_member(&mut members, "cache_source", text_node(record.cache_source.as_str()));
    push_member(&mut members, "requested_overrides", record.requested_overrides.document());
    push_member(&mut members, "startup_ok", Json::Bool(record.startup_ok));
    push_member(&mut members, "oom", Json::Bool(record.oom));
    push_member(&mut members, "measurement_usable", Json::Bool(record.measurement_usable));
    assert(members_view(members@) =~= line_head(record@));
    push_text(&mut members, "failure_stage", &record.failure_stage);
    push_text(&mut members, "failure_reason", &record.failure_reason);
    push_text(&mut members, "failure_detail", &record.failure_detail);
    let status: Option<i64> = match record.process_status {
        Some(n) => Some(n as i64),
        None => None,
    };
    push_integer(&mut members, "process_status", status);
    push_filled(&mut members, "log_path", record.log_path.as_str());
    push_filled(&mut members, "diagnostic_excerpt", record.diagnostic_excerpt.as_str());
    push_list(&mut members, "launch_args", &record.launch_args);
    push_object(&mut members, "observed_configuration", &record.observed_configuration);
    push_list(&mut members, "advisory_observations", &record.advisory_observations);
    push_node(&mut members, "pp_tps", pp_tps);
    push_node(&mut members, "tg_tps", tg_tps);
    let ghost front = members_view(members@);
    push_member(&mut members, "recorded_at", text_node(record.recorded_at.as_str()));
    assert(members_view(members@) =~= front + seq![
        ("recorded_at"@, JsonV::Text(record.recorded_at@)),
    ]);
    ordered_text(&members)
}

/// The first line from `i` on that does not read, if there is one.
pub open spec fn first_unread(errors: Seq<Option<String>>, i: int) -> Option<int>
    decreases errors.len() - i,
{
    if i < 0 || i >= errors.len() {
        None
    } else if errors[i] is Some {
        Some(i)
    } else {
        first_unread(errors, i + 1)
    }
}

/// How many of a manifest's lines are complete records: a truncated final
/// append is ignored, an invalid interior line is reported. `errors` says of
/// each line why it does not read, if it does not.
pub fn read_manifest(raw: &str, errors: &Vec<Option<String>>) -> (out: Result<usize, String>)
    requires
        errors@.len() == lines(raw@).len(),
    ensures
        match first_unread(errors@, 0) {
            None => out == Ok::<usize, String>(errors.len()),
            Some(k) => if k + 1 == errors@.len() && !ends_with(raw@, "\n"@) {
                out == Ok::<usize, String>(k as usize)
            } else {
                out matches Err(m) && m@ == "manifest line "@ + dec((k + 1) as nat) + ": "@
                    + errors@[k]->Some_0@
            },
        },
{
    let mut i: usize = 0;
    while i < errors.len()
        invariant
            i <= errors.len(),
            first_unread(errors@, 0) == first_unread(errors@, i as int),
        decreases errors.len() - i,
    {
        match &errors[i] {
            Some(error) => {
                if i + 1 == errors.len() && !str_ends_with(raw, "\n") {
                    return Ok(i);
                }
                let mut m: String = "manifest line ".to_string();
                m.append(dec_u64(i as u64 + 1).as_str());
                m.append(": ");
                m.append(error.as_str());
                return Err(m);
            },
            None => {},
        }
        i = i + 1;
    }
    Ok(errors.len())
}

/// Whatever a trial carries, the texts a manifest records of it are bounded and
/// mention no credential word, and a trial that did not fail says nothing of a
/// failure.
pub proof fn law_records_are_bounded_and_redacted(
    run_id: Seq<char>,
    ordinal: u64,
    path: Seq<char>,
    attempt: AttemptV,
    trial: TrialV,
)
    ensures
        ({
            let r = recorded(run_id, ordinal, path, attempt, trial);
            &&& r.diagnostic_excerpt.len() <= MAX_DIAGNOSTIC_CHARS
            &&& !mentions(lowered(r.diagnostic_excerpt), credential_words())
            &&& r.failure_detail matches Some(d) ==> 0 < d.len() <= MAX_DIAGNOSTIC_CHARS
                && !mentions(lowered(d), credential_words())
            &&& trial.failure is None ==> r.failure_stage is None && r.failure_reason is None
                && r.failure_detail is None
            &&& r.advisories.len() <= 8
            &&& r.attempt_id.len() > 0
        }),
{
    law_excerpts_are_bounded_and_redacted(trial.diagnostic_excerpt);
    if trial.failure is Some {
        law_excerpts_are_bounded_and_redacted(trial.failure->Some_0.detail);
    }
    reveal_strlit("-");
    assert(fallback_id(run_id, ordinal).len() > 0);
}

// ---------------------------------------------------------------------------
// Retention
// ---------------------------------------------------------------------------
/// A file beside the runs' manifests.
#[derive(Clone, Debug, PartialEq, Eq)]
pub struct RunFile {
    pub stem: String,
    pub extension: String,
    /// A marker says that the run of this stem is active.
    pub active: bool,
    /// When it was last written, where that is known.
    pub modified: Option<u128>,
}

/// A completed run's manifest.
pub open spec fn is_completed(file: RunFile) -> bool {
    file.extension@ == "jsonl"@ && !file.active
}

/// Whether a time is before another; an unknown one is before every other.
pub open spec fn earlier(a: Option<u128>, b: Option<u128>) -> bool {
    match (a, b) {
        (None, Some(_)) => true,
        (Some(x), Some(y)) => x < y,
        _ => false,
    }
}

/// The name of a file.
pub open spec fn file_name(file: RunFile) -> Seq<char> {
    file.stem@ + "."@ + file.extension@
}

/// Whether file `i` is older than file `j`: by time, then by name, then by
/// place in the list.
pub open spec fn older(files: Seq<RunFile>, i: int, j: int) -> bool {
    let a = files[i];
    let b = files[j];
    ||| earlier(a.modified, b.modified)
    ||| a.modified == b.modified && before(file_name(a), file_name(b))
    ||| a.modified == b.modified && file_name(a) == file_name(b) && i < j
}

proof fn lemma_older(files: Seq<RunFile>, i: int, j: int, k: int)
    ensures
        !older(files, i, i),
        i != j ==> older(files, i, j) || older(files, j, i),
        older(files, i, j) ==> !older(files, j, i),
        older(files, i, j) && older(files, j, k) ==> older(files, i, k),
{
    let a = file_name(files[i]);
    let b = file_name(files[j]);
    let c = file_name(files[k]);
    law_key_order(a, b, c);
    law_key_order(a, a, a);
    law_key_order(b, a, c);
    law_key_order(b, c, a);
}

fn name_of(file: &RunFile) -> (out: String)
    ensures
        out@ == file_name(*file),
{
    let mut out: String = file.stem.clone();
    out.append(".");
    out.append(file.extension.as_str());
    out
}

fn is_older(files: &Vec<RunFile>, i: usize, j: usize) -> (out: bool)
    requires
        i < files@.len(),
        j < files@.len(),
    ensures
        out == older(files@, i as int, j as int),
{
    let a: &RunFile = &files[i];
    let b: &RunFile = &files[j];
    match (a.modified, b.modified) {
        (None, Some(_)) => {
            return true;
        },
        (Some(_), None) => {
            return false;
        },
        (Some(x), Some(y)) => {
            if x != y {
                return x < y;
            }
        },
        (None, None) => {},
    }
    let x: Vec<char> = chars_of(name_of(a).as_str());
    let y: Vec<char> = chars_of(name_of(b).as_str());
    proof {
        law_key_order(x@, y@, x@);
    }
    if stands_before(&x, &y) {
        true
    } else if stands_before(&y, &x) {
        false
    } else {
        i < j
    }
}

/// A list of places in strict age order.
pub open spec fn by_age(files: Seq<RunFile>, order: Seq<usize>) -> bool {
    forall|p: int, q: int|
        0 <= p < q < order.len() ==> older(
            files,
            #[trigger] order[p] as int,
            #[trigger] order[q] as int,
        )
}

/// A list holds exactly the completed manifests among the first `n` files.
pub open spec fn holds_completed(files: Seq<RunFile>, order: Seq<usize>, n: int) -> bool {
    &&& forall|p: int|
        0 <= p < order.len() ==> (#[trigger] order[p]) < n && is_completed(files[order[p] as int])
    &&& forall|i: int|
        0 <= i < n && is_completed(#[trigger] files[i]) ==> exists|p: int|
            0 <= p < order.len() && order[p] == i
}

/// The number of completed manifests among the first `n` files.
pub open spec fn completed_count(files: Seq<RunFile>, n: int) -> nat
    decreases n,
{
    if n <= 0 {
        0
    } else {
        completed_count(files, n - 1) + if is_completed(files[n - 1]) {
            1nat
        } else {
            0
        }
    }
}

/// The completed manifests, oldest first.
fn completed_by_age(files: &Vec<RunFile>) -> (out: Vec<usize>)
    ensures
        by_age(files@, out@),
        holds_completed(files@, out@, files@.len() as int),
        out@.len() == completed_count(files@, files@.len() as int),
{
    let mut out: Vec<usize> = Vec::new();
    let mut i: usize = 0;
    while i < files.len()
        invariant
            i <= files.len(),
            by_age(files@, out@),
            holds_completed(files@, out@, i as int),
            out@.len() == completed_count(files@, i as int),
        decreases files.len() - i,
    {
        let completed: bool = same(files[i].extension.as_str(), "jsonl") && !files[i].active;
        if completed {
            let mut at: usize = 0;
            while at < out.len() && is_older(files, out[at], i)
                invariant
                    i < files.len(),
                    at <= out.len(),
                    forall|p: int| 0 <= p < out@.len() ==> (#[trigger] out@[p]) < i,
                    forall|p: int| 0 <= p < at ==> older(files@, #[trigger] out@[p] as int, i as int),
                decreases out.len() - at,
            {
                at = at + 1;
            }
            let ghost was = out@;
            out.insert(at, i);
            proof {
                lemma_inserted(files@, was, at as int, i);
            }
        } else {
            proof {
                assert forall|k: int|
                    0 <= k < i + 1 && is_completed(#[trigger] files@[k]) implies exists|p: int|
                    0 <= p < out@.len() && out@[p] == k by {
                    assert(k < i);
                }
            }
        }
        i = i + 1;
    }
    out
}

proof fn lemma_inserted(files: Seq<RunFile>, was: Seq<usize>, at: int, i: usize)
    requires
        by_age(files, was),
        holds_completed(files, was, i as int),
        0 <= at <= was.len(),
        0 <= i < files.len(),
        is_completed(files[i as int]),
        forall|p: int| 0 <= p < at ==> older(files, #[trigger] was[p] as int, i as int),
        at < was.len() ==> !older(files, was[at] as int, i as int),
    ensures
        by_age(files, was.insert(at, i)),
        holds_completed(files, was.insert(at, i), i + 1),
{
    let now = was.insert(at, i);
    assert forall|q: int| at <= q < was.len() implies older(
        files,
        i as int,
        #[trigger] was[q] as int,
    ) by {
        lemma_older(files, i as int, was[at] as int, was[q] as int);
        assert(was[at] != i);
        if q > at {
            assert(older(files, was[at] as int, was[q] as int));
        }
    }
    assert forall|p: int, q: int| 0 <= p < q < now.len() implies older(
        files,
        #[trigger] now[p] as int,
        #[trigger] now[q] as int,
    ) by {
        if q < at {
            assert(now[p] == was[p] && now[q] == was[q]);
        } else if q == at {
            assert(now[p] == was[p]);
        } else if p < at {
            assert(now[p] == was[p] && now[q] == was[q - 1]);
        } else if p == at {
            assert(now[q] == was[q - 1]);
        } else {
            assert(now[p] == was[p - 1] && now[q] == was[q - 1]);
        }
    }
    assert forall|p: int| 0 <= p < now.len() implies (#[trigger] now[p]) < i + 1 && is_completed(
        files[now[p] as int],
    ) by {
        if p < at {
            assert(now[p] == was[p]);
        } else if p > at {
            assert(now[p] == was[p - 1]);
        }
    }
    assert forall|k: int| 0 <= k < i + 1 && is_completed(#[trigger] files[k]) implies exists|p: int|
        0 <= p < now.len() && now[p] == k by {
        if k == i {
            assert(now[at] == i);
        } else {
            let p = choose|p: int| 0 <= p < was.len() && was[p] == k;
            if p < at {
                assert(now[p] == k);
            } else {
                assert(now[p + 1] == k);
            }
        }
    }
}

/// How many completed manifests are pruned.
pub open spec fn pruned_count(files: Seq<RunFile>, retained: usize) -> int {
    let n = completed_count(files, files.len() as int);
    if n <= retained {
        0
    } else {
        n - retained
    }
}

/// The completed manifests that retention prunes, oldest first: as many as
/// there are beyond `retained_runs`, each older than every completed manifest
/// that is kept. Active runs are never among them.
pub fn prune_completed(files: &Vec<RunFile>, retained_runs: usize) -> (out: Vec<usize>)
    ensures
        out@.len() == pruned_count(files@, retained_runs),
        by_age(files@, out@),
        forall|p: int|
            0 <= p < out@.len() ==> (#[trigger] out@[p]) < files@.len() && is_completed(
                files@[out@[p] as int],
            ),
        forall|p: int, k: int|
            0 <= p < out@.len() && 0 <= k < files@.len() && is_completed(#[trigger] files@[k])
                && !out@.contains(k as usize) ==> older(files@, #[trigger] out@[p] as int, k),
{
    let order: Vec<usize> = completed_by_age(files);
    let remove: usize = if order.len() <= retained_runs {
        0
    } else {
        order.len() - retained_runs
    };
    let mut out: Vec<usize> = Vec::new();
    let mut i: usize = 0;
    while i < remove
        invariant
            i <= remove <= order@.len(),
            out@ == order@.take(i as int),
        decreases remove - i,
    {
        out.push(order[i]);
        assert(out@ =~= order@.take(i + 1));
        i = i + 1;
    }
    proof {
        assert forall|p: int, k: int|
            0 <= p < out@.len() && 0 <= k < files@.len() && is_completed(#[trigger] files@[k])
                && !out@.contains(k as usize) implies older(
            files@,
            #[trigger] out@[p] as int,
            k,
        ) by {
            let q = choose|q: int| 0 <= q < order@.len() && order@[q] == k;
            if q < remove {
                assert(out@[q] == k);
                assert(out@.contains(k as usize));
            }
            assert(older(files@, order@[p] as int, order@[q] as int));
        }
    }
    out
}

/// Retention never prunes an active run, never a file that is no manifest,
/// and leaves as many completed runs as it may.
pub proof fn law_retention_bounds_completed_runs(files: Seq<RunFile>, retained: usize)
    ensures
        completed_count(files, files.len() as int) - pruned_count(files, retained) <= retained,
        completed_count(files, files.len() as int) <= retained ==> pruned_count(files, retained)
            == 0,
        pruned_count(files, retained) > 0 ==> completed_count(files, files.len() as int)
            - pruned_count(files, retained) == retained,
{
}

} // verus!
