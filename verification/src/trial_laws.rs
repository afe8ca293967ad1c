//! What a trial makes of its server, its samples and its evidence.
use vstd::prelude::*;

#[allow(unused_imports)]
use crate::chat::{
    body_measurement, choice_content, choices_fit, content_failure, content_text, fits_response,
    parts_text, Found, MeasurementV, SmokeVerdict, TimingReading,
};
#[allow(unused_imports)]
use crate::json::{
    json_of, law_the_first_member_of_a_name_is_found, member, members_view, JsonV, Member,
};
#[allow(unused_imports)]
use crate::text::{contains, is_alphanumeric, joined, lines, lowered, trimmed, views, words};
#[allow(unused_imports)]
use crate::trial::{
    advisories, capped, chat_request, component, credential_flags, credential_words, excerpt,
    first_eight, is_advisory, is_credential_flag, kept_args, mentions, recorded_args, redacts_next,
    squeezed, tail_of, FailureV, TrialFailureReason, TrialFailureStage,
};
#[allow(unused_imports)]
use crate::trial_run::{
    attempt_id, trial_start, tried, ChatReply, StartupFailure, TrialAskV, TrialPlan, TrialReply,
    TrialRunV, TrialStage,
};

verus! {

// ---------------------------------------------------------------------------
// The launch
// ---------------------------------------------------------------------------
/// Whether a trial ended at its launch for a reason: nothing was measured, the
/// failure is typed, its detail is an excerpt of what was said, and the attempt
/// is named.
pub open spec fn ended_at_launch(
    s: TrialRunV,
    next: (TrialRunV, TrialAskV),
    reason: TrialFailureReason,
    said: Seq<char>,
) -> bool {
    let t = next.0.trial;
    &&& next.1 == TrialAskV::Finished && next.0.at == TrialStage::Finished
    &&& t.failure == Some(
        FailureV { stage: TrialFailureStage::Launch, reason, detail: excerpt(said) },
    )
    &&& !t.measurement_usable && !t.startup_ok && !t.oom && t.startup_failure is None
    &&& t.pp_tps is None && t.tg_tps is None && t.variance is None
    &&& t.diagnostic matches Some(d) && d.attempt_id == attempt_id(s.plan)
}

/// Each step of a launch that fails ends the trial with the reason of that step.
pub proof fn law_a_launch_that_fails_says_where(s: TrialRunV, said: String, log_path: String)
    ensures
        s.at == TrialStage::Overrides ==> ended_at_launch(
            s,
            tried(s, TrialReply::Done(Err(said))),
            TrialFailureReason::InvalidOverrides,
            said@,
        ),
        s.at == TrialStage::Port ==> ended_at_launch(
            s,
            tried(s, TrialReply::Port(Err(said))),
            TrialFailureReason::PortUnavailable,
            said@,
        ),
        s.at == TrialStage::Args ==> ended_at_launch(
            s,
            tried(s, TrialReply::Args(Err(said))),
            TrialFailureReason::ArgumentConstruction,
            said@,
        ),
        s.at == TrialStage::Binary ==> ended_at_launch(
            s,
            tried(s, TrialReply::Done(Err(said))),
            TrialFailureReason::BinaryUnavailable,
            said@,
        ),
        s.at == TrialStage::LogDir ==> ended_at_launch(
            s,
            tried(s, TrialReply::Done(Err(said))),
            TrialFailureReason::SpawnFailed,
            said@,
        ),
        s.at == TrialStage::Spawn ==> ended_at_launch(
            s,
            tried(s, TrialReply::Spawned(log_path, Err(said))),
            TrialFailureReason::SpawnFailed,
            said@,
        ) && (tried(s, TrialReply::Spawned(log_path, Err(said))).0.trial.diagnostic matches Some(d)
            && d.log_path == log_path@),
{
}

/// A launch goes through its steps in order: the overrides are read, a port is
/// found, the arguments are built for that port, the binary is looked up, the
/// log's directory is made, and the server is spawned and looked after.
pub proof fn law_a_launch_goes_through_its_steps(
    plan: TrialPlan,
    port: u16,
    argv: Vec<String>,
    log_path: String,
)
    ensures
        ({
            let s0 = trial_start(plan);
            let (s1, a1) = tried(s0, TrialReply::Proceed);
            let (s2, a2) = tried(s1, TrialReply::Done(Ok(())));
            let (s3, a3) = tried(s2, TrialReply::Port(Ok(port)));
            let (s4, a4) = tried(s3, TrialReply::Args(Ok(argv)));
            let (s5, a5) = tried(s4, TrialReply::Done(Ok(())));
            let (s6, a6) = tried(s5, TrialReply::Done(Ok(())));
            let (s7, a7) = tried(s6, TrialReply::Spawned(log_path, Ok(())));
            &&& a1 == TrialAskV::ReadOverrides && a2 == TrialAskV::FindPort && a3
                == TrialAskV::BuildArgs(port) && a4 == TrialAskV::FindBinary && a5
                == TrialAskV::MakeLogDir && a6 is Spawn && a7 == TrialAskV::Poll
            &&& s7.at == TrialStage::Poll && s7.alive && s7.port == port && s7.log_path == log_path@
            &&& s7.argv == views(argv@) && s7.plan == plan && s7.trial == s0.trial
        }),
{
}

// ---------------------------------------------------------------------------
// The startup
// ---------------------------------------------------------------------------
/// A server is looked at, then waited for, a second at a time, until it has
/// exited, answered, or used up its time.
pub proof fn law_a_server_is_waited_for_a_second_at_a_time(s: TrialRunV)
    requires
        s.at == TrialStage::Poll,
    ensures
        ({
            let (s1, a1) = tried(s, TrialReply::Polled(None));
            let (s2, a2) = tried(s1, TrialReply::Spent(false));
            let (s3, a3) = tried(s2, TrialReply::Answered(false));
            let (s4, a4) = tried(s2, TrialReply::Answered(true));
            &&& a1 == TrialAskV::Budget && a2 == TrialAskV::Wait(1) && a3 == TrialAskV::Poll
            &&& s3 == s
            &&& a4 == TrialAskV::Observe && s4.alive == s.alive && s4.trial == s.trial
        }),
{
}

/// A server that exits before it answers is a startup failure: out of memory
/// exactly if its log, read on the exit, tells so. The trial keeps the exit
/// status, an excerpt of the log, the arguments and the log's path; it is no
/// measurement.
pub proof fn law_a_server_that_exits_is_a_startup_failure(
    s: TrialRunV,
    status: Option<i32>,
    first: String,
    oom: bool,
    second: String,
    again: bool,
    third: String,
    once_more: bool,
)
    requires
        s.at == TrialStage::Poll,
        s.trial == trial_start(s.plan).trial,
    ensures
        ({
            let (s1, a1) = tried(s, TrialReply::Polled(Some(status)));
            let (s2, a2) = tried(s1, TrialReply::Log(first, oom));
            let (s3, a3) = tried(s2, TrialReply::Proceed);
            let (s4, a4) = tried(s3, TrialReply::Log(second, again));
            let (s5, a5) = tried(s4, TrialReply::Log(third, once_more));
            let t = s5.trial;
            &&& a1 == TrialAskV::ReadLog && a2 == TrialAskV::Reap && a3 == TrialAskV::ReadLog && a4
                == TrialAskV::ReadLog && a5 == TrialAskV::Finished
            &&& s5.at == TrialStage::Finished && !s5.alive
            &&& t.oom == oom && !t.startup_ok && !t.measurement_usable
            &&& t.startup_failure == Some(
                if oom {
                    StartupFailure::ExitedOom
                } else {
                    StartupFailure::Exited
                },
            )
            &&& t.failure matches Some(f) && f.stage == TrialFailureStage::Readiness && f.reason
                == if oom {
                TrialFailureReason::ReadinessExitedOom
            } else {
                TrialFailureReason::ReadinessExited
            }
            &&& t.process_status == status && t.diagnostic_excerpt == excerpt(second@)
            &&& t.launch_args == recorded_args(s.argv)
            &&& t.diagnostic matches Some(d) && d.log_path == s.log_path && d.attempt_id
                == attempt_id(s.plan)
        }),
{
}

/// A server that uses up its time is killed, and the trial is a startup failure
/// for the time, not for memory, whatever its log says.
pub proof fn law_a_server_out_of_time_is_killed(
    s: TrialRunV,
    status: Option<i32>,
    first: String,
    oom: bool,
    second: String,
    again: bool,
)
    requires
        s.at == TrialStage::Budget,
        s.trial == trial_start(s.plan).trial,
    ensures
        ({
            let (s1, a1) = tried(s, TrialReply::Spent(true));
            let (s2, a2) = tried(s1, TrialReply::Killed(status));
            let (s3, a3) = tried(s2, TrialReply::Log(first, oom));
            let (s4, a4) = tried(s3, TrialReply::Log(second, again));
            let t = s4.trial;
            &&& a1 == TrialAskV::Kill && a2 == TrialAskV::ReadLog && a3 == TrialAskV::ReadLog && a4
                == TrialAskV::Finished
            &&& s1.warning is Some && s4.at == TrialStage::Finished && !s4.alive
            &&& !t.oom && !t.startup_ok && !t.measurement_usable
            &&& t.startup_failure == Some(StartupFailure::TimedOut)
            &&& t.failure matches Some(f) && f.stage == TrialFailureStage::Readiness && f.reason
                == TrialFailureReason::ReadinessTimeout
            &&& t.process_status == status && t.diagnostic_excerpt == excerpt(first@)
            &&& t.launch_args == recorded_args(s.argv)
        }),
{
}

// ---------------------------------------------------------------------------
// The samples
// ---------------------------------------------------------------------------
/// A server that answers is asked what it runs with, and then measured; what it
/// said is kept.
pub proof fn law_an_observation_is_kept(s: TrialRunV, observed: Vec<Member>)
    requires
        s.at == TrialStage::Observe,
    ensures
        ({
            let (t, ask) = tried(s, TrialReply::Observed(observed));
            &&& ask == TrialAskV::Measure && t.at == TrialStage::Sample
            &&& t.trial.startup_ok && t.trial.observed == members_view(observed@)
            &&& t.pp == s.pp && t.tg == s.tg
        }),
{
}

/// A sample whose body reads and whose text passes counts with its own two
/// rates; the next is asked for until there are as many as planned, and at
/// least one. Then the server is killed and the rates are reduced.
pub proof fn law_a_good_sample_counts_with_its_own_rates(
    s: TrialRunV,
    body: String,
    misfit: String,
    prompt: TimingReading,
    predicted: TimingReading,
    smoke: SmokeVerdict,
)
    requires
        s.at == TrialStage::Sample,
        body_measurement(body@, misfit@, prompt, predicted) is Ok,
        smoke.ok,
    ensures
        ({
            let m = body_measurement(body@, misfit@, prompt, predicted)->Ok_0;
            let (s1, a1) = tried(
                s,
                TrialReply::Chat(ChatReply::Body(body, misfit, prompt, predicted)),
            );
            let (s2, a2) = tried(s1, TrialReply::Judged(smoke, true));
            &&& a1 == TrialAskV::Judge(m.content)
            &&& s2.pp == s.pp.push(m.pp_tps) && s2.tg == s.tg.push(m.tg_tps)
            &&& s2.trial == s.trial
            &&& (s.pp.len() + 1 >= s.plan.runs ==> a2 == TrialAskV::Kill && s2.at
                == TrialStage::DoneKill)
            &&& (s.pp.len() + 1 < s.plan.runs ==> a2 == TrialAskV::Measure && s2.at
                == TrialStage::Sample)
        }),
{
}

/// A trial whose samples are all taken is usable: it has the reduced rates, the
/// status of the killed server, an excerpt of its log, its arguments, and what
/// the log advises.
pub proof fn law_a_sampled_trial_is_usable(
    s: TrialRunV,
    status: Option<i32>,
    pp: Option<String>,
    tg: Option<String>,
    variance: Option<String>,
    first: String,
    oom: bool,
    second: String,
    again: bool,
)
    requires
        s.at == TrialStage::DoneKill,
    ensures
        ({
            let (s1, a1) = tried(s, TrialReply::Killed(status));
            let (s2, a2) = tried(s1, TrialReply::Reduced(pp, tg, variance));
            let (s3, a3) = tried(s2, TrialReply::Log(first, oom));
            let (s4, a4) = tried(s3, TrialReply::Log(second, again));
            let t = s4.trial;
            &&& a1 == TrialAskV::Reduce && a2 == TrialAskV::ReadLog && a3 == TrialAskV::ReadLog && a4
                == TrialAskV::Finished && !s4.alive
            &&& t.measurement_usable && t.startup_ok == s.trial.startup_ok && t.oom == s.trial.oom
                && t.failure == s.trial.failure
            &&& t.pp_tps == (match pp {
                Some(x) => Some(x@),
                None => None,
            }) && t.tg_tps == (match tg {
                Some(x) => Some(x@),
                None => None,
            }) && t.variance == (match variance {
                Some(x) => Some(x@),
                None => None,
            })
            &&& t.process_status == status && t.diagnostic_excerpt == excerpt(first@) && t.observed
                == s.trial.observed
            &&& t.launch_args == recorded_args(s.argv)
            &&& t.diagnostic matches Some(d) && d.log_path == s.log_path && d.attempt_id
                == attempt_id(s.plan)
            &&& t.advisories == first_eight(
                advisories(lines(second@), lines(second@).len() as int),
            )
        }),
{
}

/// A sample that does not get through ends the trial with its failure. The
/// trial ran out of memory exactly if the server's log then tells so, whatever
/// the response said.
pub proof fn law_a_lost_sample_ends_the_trial(
    s: TrialRunV,
    chat: ChatReply,
    first: String,
    oom: bool,
    status: Option<i32>,
    second: String,
    again: bool,
)
    requires
        s.at == TrialStage::Sample,
        !s.trial.measurement_usable,
        chat matches ChatReply::Body(body, misfit, prompt, predicted) ==> body_measurement(
            body@,
            misfit@,
            prompt,
            predicted,
        ) is Err,
    ensures
        ({
            let (s1, a1) = tried(s, TrialReply::Chat(chat));
            let (s2, a2) = tried(s1, TrialReply::Log(first, oom));
            let (s3, a3) = tried(s2, TrialReply::Killed(status));
            let (s4, a4) = tried(s3, TrialReply::Log(second, again));
            let t = s4.trial;
            &&& a1 == TrialAskV::ReadLog && a2 == TrialAskV::Kill && a3 == TrialAskV::ReadLog && a4
                == TrialAskV::Finished && !s4.alive
            &&& !t.measurement_usable && t.oom == oom && t.startup_ok == s.trial.startup_ok
            &&& t.process_status == status && t.diagnostic_excerpt == excerpt(first@)
            &&& match chat {
                ChatReply::Transport(e) => t.failure == Some(
                    FailureV {
                        stage: TrialFailureStage::Request,
                        reason: TrialFailureReason::Transport,
                        detail: excerpt(e@),
                    },
                ),
                ChatReply::Status(code, body) => t.failure == Some(
                    FailureV {
                        stage: TrialFailureStage::Response,
                        reason: TrialFailureReason::HttpStatus,
                        detail: excerpt("HTTP "@ + code@ + ": "@ + excerpt(body@)),
                    },
                ),
                ChatReply::Body(body, misfit, prompt, predicted) => t.failure == Some(
                    body_measurement(body@, misfit@, prompt, predicted)->Err_0,
                ),
            }
        }),
{
}

/// A text that is no measurement ends the trial with a failure of its content;
/// the server is killed, and no memory is blamed.
pub proof fn law_a_bad_text_ends_the_trial(
    s: TrialRunV,
    smoke: SmokeVerdict,
    quality: bool,
    status: Option<i32>,
)
    requires
        s.at == TrialStage::Judge,
        !smoke.ok || !quality,
    ensures
        ({
            let (s1, a1) = tried(s, TrialReply::Judged(smoke, quality));
            let (s2, a2) = tried(s1, TrialReply::Killed(status));
            &&& a1 == TrialAskV::Kill && a2 == TrialAskV::ReadLog && s2.at == TrialStage::SampleLog
                && !s2.alive
            &&& s1.pp == s.pp && s1.tg == s.tg && s2.trial.oom == s.trial.oom
            &&& s2.trial.failure matches Some(f) && f.stage == TrialFailureStage::Content
            &&& s2.trial.process_status == status
        }),
{
}

// ---------------------------------------------------------------------------
// The chat envelope
// ---------------------------------------------------------------------------
/// What is wrong with a content, by kind: nothing at all, nothing but thoughts,
/// or a text that is no answer. A text that passes both tests is fine.
pub proof fn law_a_content_failure_has_its_kind(content: Seq<char>, smoke: SmokeVerdict, quality: bool)
    ensures
        match content_failure(content, smoke, quality) {
            None => smoke.ok && quality,
            Some(f) => {
                &&& f.stage == TrialFailureStage::Content && !(smoke.ok && quality)
                &&& f.reason == if !smoke.ok && trimmed(content).len() == 0 {
                    TrialFailureReason::EmptyContent
                } else if !smoke.ok && smoke.visible_text@.len() == 0 {
                    TrialFailureReason::ThinkingOnly
                } else {
                    TrialFailureReason::DegenerateContent
                }
                &&& !smoke.ok ==> f.detail == excerpt(smoke.error@)
            },
        },
{
}

/// The text of a content in parts is the texts of its parts, one after the
/// other; a part without a text adds nothing, and a part of another kind makes
/// it no content.
pub proof fn law_a_content_in_parts_is_its_texts(parts: Seq<JsonV>, more: JsonV)
    ensures
        content_text(JsonV::List(Seq::empty())) == Some(Seq::<char>::empty()),
        content_text(JsonV::List(parts)) matches Some(front) ==> {
            let all = content_text(JsonV::List(parts.push(more)));
            &&& more is Object && member(more, "text"@) is None ==> all == Some(front)
            &&& more is Object ==> (member(more, "text"@) matches Some(JsonV::Text(t)) ==> all
                == Some(front + t))
            &&& more is Object ==> (member(more, "text"@) matches Some(JsonV::Unsigned(_)) ==> all
                is None)
            &&& more is Text || more is Null || more is Bool ==> all is None
        },
{
    let all = parts.push(more);
    let n = parts.len() as int;
    lemma_parts_front(parts, more, n);
    match parts_text(parts, n) {
        Some(front) => {
            assert(front + Seq::<char>::empty() =~= front);
        },
        None => {},
    }
}

proof fn lemma_parts_front(parts: Seq<JsonV>, more: JsonV, n: int)
    requires
        0 <= n <= parts.len(),
    ensures
        parts_text(parts.push(more), n) == parts_text(parts, n),
    decreases n,
{
    if n > 0 {
        lemma_parts_front(parts, more, n - 1);
    }
}

/// Whether a choice of a response carries a text: a message with a content that
/// is one.
pub open spec fn says(choice: JsonV, text: Seq<char>) -> bool {
    choice is Object && (member(choice, "message"@) matches Some(message) && message is Object
        && member(message, "content"@) == Some(JsonV::Text(text)))
}

/// A response with a text and two rates is a measurement of exactly these: the
/// text of its first choice and the rates of its timings.
pub proof fn law_a_response_is_measured_by_what_it_holds(
    body: Seq<char>,
    misfit: Seq<char>,
    json: JsonV,
    items: Seq<JsonV>,
    texts: Seq<Seq<char>>,
    timings: JsonV,
    prompt: TimingReading,
    predicted: TimingReading,
)
    requires
        json_of(body) == Some(json),
        json is Object,
        member(json, "choices"@) == Some(JsonV::List(items)),
        items.len() > 0 && texts.len() == items.len(),
        forall|i: int| 0 <= i < items.len() ==> says(#[trigger] items[i], texts[i]),
        member(json, "timings"@) == Some(timings),
        timings is Object,
        member(timings, "prompt_per_second"@) matches Some(v) && !(v is Null),
        member(timings, "predicted_per_second"@) matches Some(v) && !(v is Null),
    ensures
        match (prompt, predicted) {
            (TimingReading::Rate(pp), TimingReading::Rate(tg)) => body_measurement(
                body,
                misfit,
                prompt,
                predicted,
            ) == Ok::<MeasurementV, FailureV>(
                MeasurementV { pp_tps: pp@, tg_tps: tg@, content: texts[0] },
            ),
            _ => body_measurement(body, misfit, prompt, predicted) matches Err(f) && f.reason
                == TrialFailureReason::InvalidTimings,
        },
{
    assert forall|i: int| 0 <= i < items.len() implies choice_content(#[trigger] items[i])
        == Found::Value(Some(texts[i])) by {
        assert(says(items[i], texts[i]));
    }
    assert(choices_fit(items, items.len() as int));
    assert(fits_response(json));
}

/// A response that lacks a part of a measurement says which: it does not read,
/// it has no first choice, it has no text, or it has no timings.
pub proof fn law_a_response_that_lacks_a_part_says_which(
    body: Seq<char>,
    misfit: Seq<char>,
    prompt: TimingReading,
    predicted: TimingReading,
    text: Seq<char>,
)
    ensures
        json_of(body) is None ==> (body_measurement(body, misfit, prompt, predicted) matches Err(f)
            && f.reason == TrialFailureReason::ResponseDecode),
        json_of(body) matches Some(json) ==> {
            let out = body_measurement(body, misfit, prompt, predicted);
            &&& json is Text || json is Bool || json is Null ==> (out matches Err(f) && f.reason
                == TrialFailureReason::ResponseSchema)
            &&& json is Object && member(json, "choices"@) is None && member(json, "timings"@) is None
                ==> (out matches Err(f) && f.reason == TrialFailureReason::ResponseSchema && f.detail
                == excerpt("missing choices[0]"@))
            &&& json is Object ==> (member(json, "choices"@) matches Some(JsonV::Text(_)) ==> (
            out matches Err(f) && f.reason == TrialFailureReason::ResponseSchema))
            &&& json is Object ==> (member(json, "choices"@) matches Some(JsonV::List(items)) ==> (
            items.len() == 1 && says(items[0], text) && member(json, "timings"@) is None ==> (
            out matches Err(f) && f.reason == TrialFailureReason::MissingTimings)))
            &&& json is Object ==> (member(json, "choices"@) matches Some(JsonV::List(items)) ==> (
            items.len() == 1 && items[0] is Object && member(items[0], "message"@) is None && member(
                json,
                "timings"@,
            ) is None ==> (out matches Err(f) && f.reason == TrialFailureReason::ResponseSchema
                && f.detail == excerpt("missing choices[0].message.content"@))))
        },
{
    match json_of(body) {
        Some(json) => {
            if json is Object {
                match member(json, "choices"@) {
                    Some(JsonV::List(items)) => {
                        if items.len() == 1 && says(items[0], text) && member(
                            json,
                            "timings"@,
                        ) is None {
                            assert(choices_fit(items, 1));
                            assert(fits_response(json));
                        }
                        if items.len() == 1 && items[0] is Object && member(
                            items[0],
                            "message"@,
                        ) is None && member(json, "timings"@) is None {
                            assert(choices_fit(items, 1));
                            assert(fits_response(json));
                        }
                    },
                    _ => {},
                }
            }
        },
        None => {},
    }
}

// ---------------------------------------------------------------------------
// Evidence
// ---------------------------------------------------------------------------
/// An excerpt is the words of a text with one space between them, no more than
/// the first 2048 characters; a text with a word of a credential is not shown at
/// all, in whatever case the word is written.
pub proof fn law_an_excerpt_is_the_words_unless_secret(s: Seq<char>)
    ensures
        ({
            let plain = joined(words(s), " "@);
            let low = lowered(plain);
            let secret = contains(low, "authorization"@) || contains(low, "api_key"@) || contains(
                low,
                "api-key"@,
            ) || contains(low, "password"@) || contains(low, "secret"@) || contains(
                low,
                "bearer "@,
            );
            &&& secret ==> excerpt(s) == "[REDACTED]"@
            &&& !secret && plain.len() <= 2048 ==> excerpt(s) == plain
            &&& !secret && plain.len() > 2048 ==> excerpt(s) == plain.take(2048)
        }),
{
    let low = lowered(joined(words(s), " "@));
    let w = credential_words();
    assert(w[0] == "authorization"@ && w[1] == "api_key"@ && w[2] == "api-key"@ && w[3]
        == "password"@ && w[4] == "secret"@ && w[5] == "bearer "@);
    if mentions(low, w) {
        let i = choose|i: int| 0 <= i < w.len() && contains(low, #[trigger] w[i]);
        assert(i == 0 || i == 1 || i == 2 || i == 3 || i == 4 || i == 5);
    }
}

/// Whether an argument names a credential: a flag with a word of one in it.
pub open spec fn names_a_credential(arg: Seq<char>) -> bool {
    let low = lowered(arg);
    arg.len() > 0 && low[0] == '-' && (contains(low, "api-key"@) || contains(low, "token"@)
        || contains(low, "password"@) || contains(low, "secret"@) || contains(
        low,
        "authorization"@,
    ))
}

/// What is recorded of the first argument, and what that means for the rest. A
/// flag that names a credential hides the argument behind it, or itself if it
/// carries the value; any other argument is shown as its excerpt, and the rest
/// is recorded as if it stood alone.
pub proof fn law_a_credential_is_hidden_where_it_stands(arg: Seq<char>, rest: Seq<Seq<char>>, i: int)
    requires
        rest.len() < 256,
        0 <= i < rest.len(),
    ensures
        ({
            let all = recorded_args(seq![arg] + rest);
            &&& all.len() == rest.len() + 1
            &&& names_a_credential(arg) && arg.contains('=') ==> all[0] == "[REDACTED]"@ && all[i
                + 1] == recorded_args(rest)[i]
            &&& names_a_credential(arg) && !arg.contains('=') ==> all[1] == "[REDACTED]"@ && (
            arg.len() <= 128 ==> all[0] == arg)
            &&& !names_a_credential(arg) ==> all[i + 1] == recorded_args(rest)[i] && (excerpt(
                arg,
            ).len() <= 512 ==> all[0] == excerpt(arg))
        }),
{
    let args = seq![arg] + rest;
    assert(args.skip(1) =~= rest);
    let w = credential_flags();
    assert(w[0] == "api-key"@ && w[1] == "token"@ && w[2] == "password"@ && w[3] == "secret"@ && w[4]
        == "authorization"@);
    let low = lowered(arg);
    if mentions(low, w) {
        let k = choose|k: int| 0 <= k < w.len() && contains(low, #[trigger] w[k]);
        assert(k == 0 || k == 1 || k == 2 || k == 3 || k == 4);
    }
    assert(names_a_credential(arg) == is_credential_flag(arg));
    lemma_kept_length(rest, false);
    lemma_kept_length(rest, true);
    assert(rest.skip(0) =~= rest);
    assert(kept_args(rest, true)[0] == "[REDACTED]"@);
}

proof fn lemma_kept_length(args: Seq<Seq<char>>, redact: bool)
    ensures
        kept_args(args, redact).len() == args.len(),
    decreases args.len(),
{
    if args.len() > 0 {
        lemma_kept_length(args.skip(1), redacts_next(args[0], redact));
    }
}

/// A log line is an advisory if it tells of an upgrade or an adjustment of the
/// cache, or of the number of parallel slots, in whatever case.
pub proof fn law_an_advisory_tells_of_an_adjustment(line: Seq<char>)
    ensures
        ({
            let low = lowered(line);
            let change = contains(low, "upgrade"@) || contains(low, "adjust"@);
            let cache = contains(low, "kv"@) || contains(low, "cache"@) || contains(low, "turbo"@);
            is_advisory(line) <==> (change && cache) || contains(low, "using n_parallel"@)
        }),
{
}

/// The advisories of a log are the excerpts of its advisory lines, in order,
/// the first eight that are not empty.
pub proof fn law_advisories_are_the_first_eight_lines_that_tell(log: Seq<Seq<char>>) -> (places: Seq<
    int,
>)
    ensures
        places.len() == advisories(log, log.len() as int).len(),
        first_eight(advisories(log, log.len() as int)).len() == if places.len() < 8 {
            places.len()
        } else {
            8
        },
        forall|i: int|
            0 <= i < places.len() ==> 0 <= #[trigger] places[i] < log.len() && is_advisory(
                log[places[i]],
            ) && excerpt(log[places[i]]).len() > 0 && (i < 8 ==> first_eight(
                advisories(log, log.len() as int),
            )[i] == excerpt(log[places[i]])),
        forall|i: int, j: int| 0 <= i < j < places.len() ==> #[trigger] places[i] < #[trigger] places[j],
        forall|k: int|
            0 <= k < log.len() && is_advisory(#[trigger] log[k]) && excerpt(log[k]).len() > 0
                ==> places.contains(k),
{
    let places = lemma_advisories(log, log.len() as int);
    assert forall|i: int| 0 <= i < places.len() implies 0 <= #[trigger] places[i] < log.len()
        && is_advisory(log[places[i]]) && excerpt(log[places[i]]).len() > 0 && (i < 8 ==> first_eight(
        advisories(log, log.len() as int),
    )[i] == excerpt(log[places[i]])) by {}
    places
}

proof fn lemma_advisories(log: Seq<Seq<char>>, n: int) -> (places: Seq<int>)
    requires
        0 <= n <= log.len(),
    ensures
        places.len() == advisories(log, n).len(),
        forall|i: int|
            0 <= i < places.len() ==> 0 <= #[trigger] places[i] < n && is_advisory(log[places[i]])
                && excerpt(log[places[i]]).len() > 0 && advisories(log, n)[i] == excerpt(
                log[places[i]],
            ),
        forall|i: int, j: int| 0 <= i < j < places.len() ==> #[trigger] places[i] < #[trigger] places[j],
        forall|k: int|
            0 <= k < n && is_advisory(#[trigger] log[k]) && excerpt(log[k]).len() > 0
                ==> places.contains(k),
    decreases n,
{
    if n == 0 {
        seq![]
    } else {
        let front = lemma_advisories(log, n - 1);
        let places = if is_advisory(log[n - 1]) && excerpt(log[n - 1]).len() > 0 {
            front.push(n - 1)
        } else {
            front
        };
        assert forall|k: int|
            0 <= k < n && is_advisory(#[trigger] log[k]) && excerpt(log[k]).len() > 0 implies places.contains(
        k) by {
            if k < n - 1 {
                let i = choose|i: int| 0 <= i < front.len() && front[i] == k;
                assert(places[i] == k);
            } else {
                assert(places[front.len() as int] == k);
            }
        }
        assert forall|i: int| 0 <= i < places.len() implies 0 <= #[trigger] places[i] < n
            && is_advisory(log[places[i]]) && excerpt(log[places[i]]).len() > 0 && advisories(
            log,
            n,
        )[i] == excerpt(log[places[i]]) by {
            if i < front.len() {
                assert(places[i] == front[i]);
            }
        }
        places
    }
}

/// A name that is portable already stands for itself.
pub proof fn law_a_portable_name_stands_for_itself(value: Seq<char>, limit: int, fallback: Seq<char>)
    requires
        0 < value.len() <= limit,
        forall|k: int|
            0 <= k < value.len() ==> is_alphanumeric(#[trigger] value[k]) || value[k] == '_',
    ensures
        component(value, limit, fallback) == value,
{
    let mapped = capped(value, limit).map_values(|c: char| crate::trial::portable(c));
    assert(mapped =~= value);
    lemma_squeeze_keeps(value);
    assert(is_alphanumeric(value[0]) || value[0] == '_');
    assert(is_alphanumeric(value[value.len() - 1]) || value[value.len() - 1] == '_');
}

proof fn lemma_squeeze_keeps(s: Seq<char>)
    requires
        forall|k: int| 0 <= k < s.len() ==> is_alphanumeric(#[trigger] s[k]) || s[k] == '_',
    ensures
        squeezed(s) == s,
    decreases s.len(),
{
    if s.len() > 0 {
        let rest = s.drop_last();
        assert forall|k: int| 0 <= k < rest.len() implies is_alphanumeric(#[trigger] rest[k])
            || rest[k] == '_' by {
            assert(s[k] == rest[k]);
        }
        lemma_squeeze_keeps(rest);
        assert(is_alphanumeric(s[s.len() - 1]) || s[s.len() - 1] == '_');
        assert(squeezed(s) =~= s);
    }
}

/// A chat request asks for one answer to the prompt, of at most 256 tokens,
/// without chance, streaming or a cached prompt.
pub proof fn law_a_chat_request_is_deterministic(prompt: Seq<char>)
    ensures
        ({
            let r = chat_request(prompt);
            &&& member(r, "messages"@) matches Some(JsonV::List(items)) && items.len() == 1
                && member(items[0], "role"@) == Some(JsonV::Text("user"@)) && member(
                items[0],
                "content"@,
            ) == Some(JsonV::Text(prompt))
            &&& member(r, "max_tokens"@) == Some(JsonV::Unsigned(256))
            &&& member(r, "temperature"@) == Some(JsonV::Unsigned(0))
            &&& member(r, "top_p"@) == Some(JsonV::Unsigned(1))
            &&& member(r, "seed"@) == Some(JsonV::Unsigned(0))
            &&& member(r, "stream"@) == Some(JsonV::Bool(false))
            &&& member(r, "cache_prompt"@) == Some(JsonV::Bool(false))
        }),
{
    reveal_strlit("messages");
    reveal_strlit("max_tokens");
    reveal_strlit("temperature");
    reveal_strlit("top_p");
    reveal_strlit("seed");
    reveal_strlit("stream");
    reveal_strlit("cache_prompt");
    reveal_strlit("role");
    reveal_strlit("content");
    assert("messages"@.len() == 8 && "max_tokens"@.len() == 10 && "temperature"@.len() == 11);
    assert("top_p"@.len() == 5 && "seed"@.len() == 4 && "stream"@.len() == 6);
    assert("cache_prompt"@.len() == 12 && "role"@.len() == 4 && "content"@.len() == 7);
    let all = chat_request(prompt)->Object_0;
    law_the_first_member_of_a_name_is_found(all, "messages"@, 0);
    law_the_first_member_of_a_name_is_found(all, "max_tokens"@, 1);
    law_the_first_member_of_a_name_is_found(all, "temperature"@, 2);
    law_the_first_member_of_a_name_is_found(all, "top_p"@, 3);
    law_the_first_member_of_a_name_is_found(all, "seed"@, 4);
    law_the_first_member_of_a_name_is_found(all, "stream"@, 5);
    law_the_first_member_of_a_name_is_found(all, "cache_prompt"@, 6);
    let message = crate::trial::user_message(prompt)->Object_0;
    law_the_first_member_of_a_name_is_found(message, "role"@, 0);
    law_the_first_member_of_a_name_is_found(message, "content"@, 1);
}

/// The tail of a log is its lines, at most the last eighty of them.
pub proof fn law_a_log_tail_is_its_last_lines(text: Seq<char>)
    ensures
        lines(text).len() <= 80 ==> tail_of(text) == joined(lines(text), "\n"@),
        lines(text).len() > 80 ==> tail_of(text) == joined(
            lines(text).subrange(lines(text).len() - 80, lines(text).len() as int),
            "\n"@,
        ),
{
    let all = lines(text);
    if all.len() > 80 {
        assert(all.skip(all.len() - 80) =~= all.subrange(all.len() - 80, all.len() as int));
    }
}

/// Long arguments are cut, and no more than that: a credential's flag to 128
/// characters, the excerpt of any other argument to 512. Of a long command line
/// the first 256 arguments are recorded.
pub proof fn law_long_arguments_are_cut(arg: Seq<char>, args: Seq<Seq<char>>)
    ensures
        is_credential_flag(arg) && !arg.contains('=') ==> recorded_args(seq![arg])[0] == arg.take(
            if arg.len() <= 128 {
                arg.len() as int
            } else {
                128
            },
        ),
        !is_credential_flag(arg) ==> recorded_args(seq![arg])[0] == excerpt(arg).take(
            if excerpt(arg).len() <= 512 {
                excerpt(arg).len() as int
            } else {
                512
            },
        ),
        args.len() > 256 ==> recorded_args(args) == recorded_args(args.take(256))
            && recorded_args(args).len() == 256,
        args.len() <= 256 ==> recorded_args(args).len() == args.len(),
{
    let one = seq![arg];
    assert(one[0] == arg);
    assert(arg.take(arg.len() as int) =~= arg);
    assert(excerpt(arg).take(excerpt(arg).len() as int) =~= excerpt(arg));
    lemma_kept_length(args, false);
    lemma_kept_length(args.take(256), false);
}

} // verus!
