//! The chat measurement: reading the supported non-streaming chat envelope and
//! judging the text it carries.
use vstd::prelude::*;
use vstd::string::StringExecFns;

use crate::json::{json_error, parse_json, Json};
#[allow(unused_imports)]
use crate::json::{find_member, json_error_of, json_of, trees, JsonV};
use crate::text::is_blank;
#[allow(unused_imports)]
use crate::text::{lowered, trimmed};
use crate::trial::{
    cap_text, failure, sanitize_excerpt, TrialFailure, TrialFailureReason, TrialFailureStage,
    MAX_DIAGNOSTIC_CHARS,
};
#[allow(unused_imports)]
use crate::trial::{
    capped, credential_words, excerpt, failed, law_excerpts_are_bounded_and_redacted, mentions,
    FailureV,
};

verus! {

// ---------------------------------------------------------------------------
// Records
// ---------------------------------------------------------------------------
/// Whether a document reads as a record with `n` fields: an object, or a list
/// of the first of them.
pub open spec fn is_record(json: JsonV, n: int) -> bool {
    match json {
        JsonV::Object(_) => true,
        JsonV::List(items) => items.len() <= n,
        _ => false,
    }
}

/// A field of a record, by name or by position; a `Null` stands for a missing
/// one.
pub open spec fn field(json: JsonV, name: Seq<char>, position: int) -> JsonV {
    match json {
        JsonV::Object(members) => match find_member(members, name) {
            Some(v) => v,
            None => JsonV::Null,
        },
        JsonV::List(items) => if 0 <= position < items.len() {
            items[position]
        } else {
            JsonV::Null
        },
        _ => JsonV::Null,
    }
}

/// Whether a record has a field, `Null` or not.
pub open spec fn has_field(json: JsonV, name: Seq<char>, position: int) -> bool {
    match json {
        JsonV::Object(members) => find_member(members, name) is Some,
        JsonV::List(items) => 0 <= position < items.len(),
        _ => false,
    }
}

fn reads_as_record(json: &Json, n: usize) -> (out: bool)
    ensures
        out == is_record(json@, n as int),
{
    match json {
        Json::Object(_) => true,
        Json::List(items) => items.len() <= n,
        _ => false,
    }
}

/// A field of a record, if the record has it.
fn get_field<'a>(json: &'a Json, name: &str, position: usize) -> (out: Option<&'a Json>)
    ensures
        match out {
            Some(v) => has_field(json@, name@, position as int) && field(
                json@,
                name@,
                position as int,
            ) == v@,
            None => !has_field(json@, name@, position as int),
        },
{
    match json {
        Json::List(items) => if position < items.len() {
            Some(&items[position])
        } else {
            None
        },
        _ => json.get(name),
    }
}

// ---------------------------------------------------------------------------
// The envelope
// ---------------------------------------------------------------------------
/// The text of one content part; the outer layer is empty where the document
/// is no such part.
pub open spec fn part_text(json: JsonV) -> Option<Seq<char>> {
    if !is_record(json, 1) {
        None
    } else {
        match field(json, "text"@, 0) {
            JsonV::Null => Some(seq![]),
            JsonV::Text(t) => Some(t),
            _ => None,
        }
    }
}

/// The text of the first `n` content parts together, if all of them are parts.
pub open spec fn parts_text(items: Seq<JsonV>, n: int) -> Option<Seq<char>>
    decreases n,
{
    if n <= 0 {
        Some(seq![])
    } else {
        match (parts_text(items, n - 1), part_text(items[n - 1])) {
            (Some(front), Some(last)) => Some(front + last),
            _ => None,
        }
    }
}

/// The text of a message's content: a text, or a list of parts.
pub open spec fn content_text(json: JsonV) -> Option<Seq<char>> {
    match json {
        JsonV::Text(t) => Some(t),
        JsonV::List(items) => parts_text(items, items.len() as int),
        _ => None,
    }
}

/// What a reader of a field finds there.
pub enum Found<T> {
    /// The field fits, and this is its value if it has one.
    Value(Option<T>),
    /// The field does not fit.
    Misfit,
}

/// The content of a message.
pub open spec fn message_content(json: JsonV) -> Found<Seq<char>> {
    if !is_record(json, 1) {
        Found::Misfit
    } else if field(json, "content"@, 0) is Null {
        Found::Value(None)
    } else {
        match content_text(field(json, "content"@, 0)) {
            Some(t) => Found::Value(Some(t)),
            None => Found::Misfit,
        }
    }
}

/// The content of a choice's message.
pub open spec fn choice_content(json: JsonV) -> Found<Seq<char>> {
    if !is_record(json, 1) {
        Found::Misfit
    } else if field(json, "message"@, 0) is Null {
        Found::Value(None)
    } else {
        message_content(field(json, "message"@, 0))
    }
}

/// Whether all of the first `n` choices fit.
pub open spec fn choices_fit(items: Seq<JsonV>, n: int) -> bool {
    forall|i: int| 0 <= i < n ==> !(choice_content(#[trigger] items[i]) is Misfit)
}

/// The choices of a response; a response without the field has none.
pub open spec fn choices_of(json: JsonV) -> Option<Seq<JsonV>> {
    if !has_field(json, "choices"@, 0) {
        Some(seq![])
    } else {
        match field(json, "choices"@, 0) {
            JsonV::List(items) => Some(items),
            _ => None,
        }
    }
}

/// Whether a document fits the response's schema.
pub open spec fn fits_response(json: JsonV) -> bool {
    let timings = field(json, "timings"@, 1);
    &&& is_record(json, 2)
    &&& choices_of(json) matches Some(items) && choices_fit(items, items.len() as int)
    &&& timings is Null || is_record(timings, 2)
}

/// How a timing's value reads as a rate.
#[derive(Clone, Debug, PartialEq, Eq)]
pub enum TimingReading {
    /// It is neither a number nor a text that spells one.
    NotNumeric,
    /// It is not finite, or not greater than zero.
    NotPositive,
    /// It is this rate.
    Rate(String),
}

/// A decoded, schema-valid chat measurement; the rates are in decimal form.
#[derive(Clone, Debug, PartialEq, Eq)]
pub struct ChatMeasurement {
    pub pp_tps: String,
    pub tg_tps: String,
    pub content: String,
}

/// A measurement, mathematically.
pub struct MeasurementV {
    pub pp_tps: Seq<char>,
    pub tg_tps: Seq<char>,
    pub content: Seq<char>,
}

impl View for ChatMeasurement {
    type V = MeasurementV;

    open spec fn view(&self) -> MeasurementV {
        MeasurementV { pp_tps: self.pp_tps@, tg_tps: self.tg_tps@, content: self.content@ }
    }
}

/// A failure of the response.
pub open spec fn response_failed(reason: TrialFailureReason, detail: Seq<char>) -> FailureV {
    failed(TrialFailureStage::Response, reason, detail)
}

/// One timing, or why it is none.
pub open spec fn timing_of(
    timings: JsonV,
    name: Seq<char>,
    position: int,
    reading: TimingReading,
) -> Result<Seq<char>, FailureV> {
    if field(timings, name, position) is Null {
        Err(response_failed(TrialFailureReason::MissingTimings, "missing timings."@ + name))
    } else {
        match reading {
            TimingReading::NotNumeric => Err(
                response_failed(
                    TrialFailureReason::InvalidTimings,
                    "timings."@ + name + " is not numeric"@,
                ),
            ),
            TimingReading::NotPositive => Err(
                response_failed(
                    TrialFailureReason::InvalidTimings,
                    "timings."@ + name + " must be finite and greater than zero"@,
                ),
            ),
            TimingReading::Rate(rate) => Ok(rate@),
        }
    }
}

/// The measurement that a response holds, or why it holds none.
pub open spec fn response_measurement(
    json: JsonV,
    prompt: TimingReading,
    predicted: TimingReading,
) -> Result<MeasurementV, FailureV> {
    let choices = choices_of(json)->Some_0;
    let timings = field(json, "timings"@, 1);
    if choices.len() == 0 {
        Err(response_failed(TrialFailureReason::ResponseSchema, "missing choices[0]"@))
    } else {
        match choice_content(choices[0]) {
            Found::Value(Some(content)) => if timings is Null {
                Err(response_failed(TrialFailureReason::MissingTimings, "missing timings"@))
            } else {
                match timing_of(timings, "prompt_per_second"@, 0, prompt) {
                    Err(f) => Err(f),
                    Ok(pp_tps) => match timing_of(
                        timings,
                        "predicted_per_second"@,
                        1,
                        predicted,
                    ) {
                        Err(f) => Err(f),
                        Ok(tg_tps) => Ok(MeasurementV { pp_tps, tg_tps, content }),
                    },
                }
            },
            _ => Err(
                response_failed(
                    TrialFailureReason::ResponseSchema,
                    "missing choices[0].message.content"@,
                ),
            ),
        }
    }
}

/// The measurement that a body holds, or why it holds none.
pub open spec fn body_measurement(
    body: Seq<char>,
    misfit: Seq<char>,
    prompt: TimingReading,
    predicted: TimingReading,
) -> Result<MeasurementV, FailureV> {
    match json_of(body) {
        None => Err(response_failed(TrialFailureReason::ResponseDecode, json_error_of(body))),
        Some(json) => if !fits_response(json) {
            Err(response_failed(TrialFailureReason::ResponseSchema, misfit))
        } else {
            response_measurement(json, prompt, predicted)
        },
    }
}

fn read_part(json: &Json) -> (out: Option<String>)
    ensures
        match out {
            Some(t) => part_text(json@) == Some(t@),
            None => part_text(json@) is None,
        },
{
    if !reads_as_record(json, 1) {
        return None;
    }
    match get_field(json, "text", 0) {
        None => {
            let empty: String = String::new();
            assert(empty@ =~= seq![]);
            Some(empty)
        },
        Some(v) => match v {
            Json::Null => {
                let empty: String = String::new();
                assert(empty@ =~= seq![]);
                Some(empty)
            },
            Json::Text(t) => Some(t.clone()),
            _ => None,
        },
    }
}

/// The text of a message's content, if it fits.
fn into_text(json: &Json) -> (out: Option<String>)
    ensures
        match out {
            Some(t) => content_text(json@) == Some(t@),
            None => content_text(json@) is None,
        },
{
    match json {
        Json::Text(t) => Some(t.clone()),
        Json::List(items) => {
            let ghost all = json@->List_0;
            let mut text: String = String::new();
            let mut i: usize = 0;
            assert(text@ =~= seq![]);
            while i < items.len()
                invariant
                    i <= items.len(),
                    *json == Json::List(*items),
                    all == json@->List_0,
                    parts_text(all, i as int) == Some(text@),
                decreases items.len() - i,
            {
                assert(all[i as int] == items@[i as int]@);
                match read_part(&items[i]) {
                    Some(part) => {
                        text.append(part.as_str());
                    },
                    None => {
                        proof {
                            lemma_misfit_stays(all, i + 1, all.len() as int);
                        }
                        return None;
                    },
                }
                i = i + 1;
            }
            Some(text)
        },
        _ => None,
    }
}

proof fn lemma_misfit_stays(items: Seq<JsonV>, n: int, m: int)
    requires
        n <= m,
        parts_text(items, n) is None,
    ensures
        parts_text(items, m) is None,
    decreases m,
{
    if n < m {
        lemma_misfit_stays(items, n, m - 1);
    }
}

/// What a reader finds, of texts.
enum FoundText {
    Value(Option<String>),
    Misfit,
}

spec fn found(out: FoundText) -> Found<Seq<char>> {
    match out {
        FoundText::Misfit => Found::Misfit,
        FoundText::Value(None) => Found::Value(None),
        FoundText::Value(Some(t)) => Found::Value(Some(t@)),
    }
}

fn read_message(json: &Json) -> (out: FoundText)
    ensures
        found(out) == message_content(json@),
{
    if !reads_as_record(json, 1) {
        return FoundText::Misfit;
    }
    match get_field(json, "content", 0) {
        None => FoundText::Value(None),
        Some(v) => match v {
            Json::Null => FoundText::Value(None),
            _ => match into_text(v) {
                Some(t) => FoundText::Value(Some(t)),
                None => FoundText::Misfit,
            },
        },
    }
}

fn read_choice(json: &Json) -> (out: FoundText)
    ensures
        found(out) == choice_content(json@),
{
    if !reads_as_record(json, 1) {
        return FoundText::Misfit;
    }
    match get_field(json, "message", 0) {
        None => FoundText::Value(None),
        Some(v) => match v {
            Json::Null => FoundText::Value(None),
            _ => read_message(v),
        },
    }
}

fn all_choices_fit(items: &Vec<Json>) -> (out: bool)
    ensures
        out == choices_fit(trees(items@), items@.len() as int),
{
    let mut i: usize = 0;
    while i < items.len()
        invariant
            i <= items.len(),
            choices_fit(trees(items@), i as int),
        decreases items.len() - i,
    {
        assert(trees(items@)[i as int] == items@[i as int]@);
        match read_choice(&items[i]) {
            FoundText::Misfit => {
                assert(choice_content(trees(items@)[i as int]) is Misfit);
                return false;
            },
            _ => {},
        }
        i = i + 1;
    }
    true
}

fn response_failure(reason: TrialFailureReason, detail: &str) -> (out: TrialFailure)
    ensures
        out@ == response_failed(reason, detail@),
{
    failure(TrialFailureStage::Response, reason, detail)
}

fn read_timing(timings: &Json, name: &str, position: usize, reading: TimingReading) -> (out: Result<
    String,
    TrialFailure,
>)
    ensures
        match out {
            Ok(rate) => timing_of(timings@, name@, position as int, reading) == Ok::<
                Seq<char>,
                FailureV,
            >(rate@),
            Err(f) => timing_of(timings@, name@, position as int, reading) == Err::<
                Seq<char>,
                FailureV,
            >(f@),
        },
{
    let missing: bool = match get_field(timings, name, position) {
        None => true,
        Some(v) => match v {
            Json::Null => true,
            _ => false,
        },
    };
    if missing {
        let mut m: String = "missing timings.".to_string();
        m.append(name);
        return Err(response_failure(TrialFailureReason::MissingTimings, m.as_str()));
    }
    let mut m: String = "timings.".to_string();
    m.append(name);
    match reading {
        TimingReading::NotNumeric => {
            m.append(" is not numeric");
            Err(response_failure(TrialFailureReason::InvalidTimings, m.as_str()))
        },
        TimingReading::NotPositive => {
            m.append(" must be finite and greater than zero");
            Err(response_failure(TrialFailureReason::InvalidTimings, m.as_str()))
        },
        TimingReading::Rate(rate) => Ok(rate),
    }
}

/// The node of one of a body's timings, by name or by position; `Null` where
/// there is none.
pub open spec fn timing_node(body: Seq<char>, name: Seq<char>, position: int) -> JsonV {
    match json_of(body) {
        Some(json) => field(field(json, "timings"@, 1), name, position),
        None => JsonV::Null,
    }
}

fn node_of(json: &Json, name: &str, position: usize) -> (out: Json)
    ensures
        out@ == field(json@, name@, position as int),
{
    match get_field(json, name, position) {
        Some(v) => v.copy(),
        None => Json::Null,
    }
}

/// The nodes of a body's two timings, to be read as rates.
pub fn timing_nodes(body: &str) -> (out: (Json, Json))
    ensures
        out.0@ == timing_node(body@, "prompt_per_second"@, 0),
        out.1@ == timing_node(body@, "predicted_per_second"@, 1),
{
    match parse_json(body) {
        Some(json) => {
            let timings: Json = node_of(&json, "timings", 1);
            (
                node_of(&timings, "prompt_per_second", 0),
                node_of(&timings, "predicted_per_second", 1),
            )
        },
        None => (Json::Null, Json::Null),
    }
}

/// Parse the supported non-streaming OpenAI-compatible chat envelope. `misfit`
/// words what a typed reader finds wrong with a body of another shape, and
/// `prompt` and `predicted` say how the two timings read as rates.
pub fn parse_chat_measurement(
    body: &str,
    misfit: &str,
    prompt: TimingReading,
    predicted: TimingReading,
) -> (out: Result<ChatMeasurement, TrialFailure>)
    ensures
        match out {
            Ok(m) => body_measurement(body@, misfit@, prompt, predicted) == Ok::<
                MeasurementV,
                FailureV,
            >(m@),
            Err(f) => body_measurement(body@, misfit@, prompt, predicted) == Err::<
                MeasurementV,
                FailureV,
            >(f@),
        },
{
    let json: Json = match parse_json(body) {
        Some(json) => json,
        None => {
            return Err(
                response_failure(TrialFailureReason::ResponseDecode, json_error(body).as_str()),
            );
        },
    };
    let mut fits: bool = reads_as_record(&json, 2);
    let mut content: Option<String> = None;
    let mut any: bool = false;
    match get_field(&json, "choices", 0) {
        None => {},
        Some(v) => match v {
            Json::List(items) => {
                assert(trees(items@) =~= v@->List_0);
                if !all_choices_fit(items) {
                    fits = false;
                } else if items.len() > 0 {
                    any = true;
                    assert(v@->List_0[0] == items@[0]@);
                    match read_choice(&items[0]) {
                        FoundText::Value(found) => {
                            content = found;
                        },
                        FoundText::Misfit => {},
                    }
                }
            },
            _ => {
                fits = false;
            },
        },
    }
    let timings: Option<&Json> = match get_field(&json, "timings", 1) {
        None => None,
        Some(v) => match v {
            Json::Null => None,
            _ => Some(v),
        },
    };
    match timings {
        Some(t) => {
            if !reads_as_record(t, 2) {
                fits = false;
            }
        },
        None => {},
    }
    assert(fits == fits_response(json@));
    if !fits {
        return Err(response_failure(TrialFailureReason::ResponseSchema, misfit));
    }
    if !any {
        return Err(response_failure(TrialFailureReason::ResponseSchema, "missing choices[0]"));
    }
    let content: String = match content {
        Some(c) => c,
        None => {
            return Err(
                response_failure(
                    TrialFailureReason::ResponseSchema,
                    "missing choices[0].message.content",
                ),
            );
        },
    };
    let timings: &Json = match timings {
        Some(t) => t,
        None => {
            return Err(response_failure(TrialFailureReason::MissingTimings, "missing timings"));
        },
    };
    let pp_tps: String = match read_timing(timings, "prompt_per_second", 0, prompt) {
        Ok(rate) => rate,
        Err(f) => {
            return Err(f);
        },
    };
    let tg_tps: String = match read_timing(timings, "predicted_per_second", 1, predicted) {
        Ok(rate) => rate,
        Err(f) => {
            return Err(f);
        },
    };
    Ok(ChatMeasurement { pp_tps, tg_tps, content })
}

/// Every failure of a body is a failure of the response with a bounded detail,
/// and a body is measured only with both rates and a text.
pub proof fn law_response_failures_are_typed(
    body: Seq<char>,
    misfit: Seq<char>,
    prompt: TimingReading,
    predicted: TimingReading,
)
    ensures
        match body_measurement(body, misfit, prompt, predicted) {
            Ok(m) => json_of(body) is Some && prompt is Rate && predicted is Rate && m.pp_tps
                == prompt->Rate_0@ && m.tg_tps == predicted->Rate_0@,
            Err(f) => f.stage == TrialFailureStage::Response && f.detail.len()
                <= MAX_DIAGNOSTIC_CHARS,
        },
{
    law_excerpts_are_bounded_and_redacted(json_error_of(body));
    law_excerpts_are_bounded_and_redacted(misfit);
    law_excerpts_are_bounded_and_redacted("missing choices[0]"@);
    law_excerpts_are_bounded_and_redacted("missing choices[0].message.content"@);
    law_excerpts_are_bounded_and_redacted("missing timings"@);
    lemma_timing_details_are_bounded("prompt_per_second"@);
    lemma_timing_details_are_bounded("predicted_per_second"@);
}

proof fn lemma_timing_details_are_bounded(name: Seq<char>)
    ensures
        excerpt("missing timings."@ + name).len()
            <= MAX_DIAGNOSTIC_CHARS,
        excerpt("timings."@ + name + " is not numeric"@).len()
            <= MAX_DIAGNOSTIC_CHARS,
        excerpt(
            "timings."@ + name + " must be finite and greater than zero"@,
        ).len() <= MAX_DIAGNOSTIC_CHARS,
{
    law_excerpts_are_bounded_and_redacted("missing timings."@ + name);
    law_excerpts_are_bounded_and_redacted("timings."@ + name + " is not numeric"@);
    law_excerpts_are_bounded_and_redacted(
        "timings."@ + name + " must be finite and greater than zero"@,
    );
}

// ---------------------------------------------------------------------------
// The content
// ---------------------------------------------------------------------------
/// What the smoke test says of a text.
#[derive(Clone, Debug, PartialEq, Eq)]
pub struct SmokeVerdict {
    pub ok: bool,
    /// The text without its reasoning.
    pub visible_text: String,
    pub error: String,
}

/// Why a content is no measurement, if it is none.
pub open spec fn content_failure(
    content: Seq<char>,
    smoke: SmokeVerdict,
    quality_ok: bool,
) -> Option<FailureV> {
    if !smoke.ok {
        Some(
            failed(
                TrialFailureStage::Content,
                if trimmed(content).len() == 0 {
                    TrialFailureReason::EmptyContent
                } else if smoke.visible_text@.len() == 0 {
                    TrialFailureReason::ThinkingOnly
                } else {
                    TrialFailureReason::DegenerateContent
                },
                smoke.error@,
            ),
        )
    } else if !quality_ok {
        Some(
            FailureV {
                stage: TrialFailureStage::Content,
                reason: TrialFailureReason::DegenerateContent,
                detail: rejected_reply(smoke.visible_text@),
            },
        )
    } else {
        None
    }
}

/// What is said of a reply below the quality minimums: that it is, and what the
/// model said instead.
pub open spec fn rejected_reply(visible: Seq<char>) -> Seq<char> {
    capped(
        "visible response did not meet the tuner quality minimums; visible reply: "@ + excerpt(
            visible,
        ),
        MAX_DIAGNOSTIC_CHARS as int,
    )
}

/// The detail of a quality failure is bounded, and says that the reply fell
/// short before it shows an excerpt of the reply: all of it but where the bound
/// cuts it off, and nothing of a reply that may carry a credential.
pub proof fn law_a_quality_failure_shows_the_reply(
    content: Seq<char>,
    smoke: SmokeVerdict,
)
    requires
        smoke.ok,
    ensures
        content_failure(content, smoke, false) matches Some(f) && {
            let said = "visible response did not meet the tuner quality minimums; visible reply: "@;
            let reply = excerpt(smoke.visible_text@);
            &&& f.stage == TrialFailureStage::Content
            &&& f.reason == TrialFailureReason::DegenerateContent
            &&& f.detail.len() <= MAX_DIAGNOSTIC_CHARS
            &&& f.detail == said + capped(reply, MAX_DIAGNOSTIC_CHARS - said.len())
            &&& !mentions(lowered(reply), credential_words())
        },
{
    let said = "visible response did not meet the tuner quality minimums; visible reply: "@;
    let reply = excerpt(smoke.visible_text@);
    reveal_strlit("visible response did not meet the tuner quality minimums; visible reply: ");
    law_excerpts_are_bounded_and_redacted(smoke.visible_text@);
    assert(rejected_reply(smoke.visible_text@) =~= said + capped(
        reply,
        MAX_DIAGNOSTIC_CHARS - said.len(),
    ));
}

/// Judge a measurement's content by the smoke test's verdict and by whether
/// the visible text meets the quality minimums.
pub fn validate_measurement_content(
    content: &str,
    smoke: &SmokeVerdict,
    quality_ok: bool,
) -> (out: Result<(), TrialFailure>)
    ensures
        match out {
            Ok(_) => content_failure(content@, *smoke, quality_ok) is None,
            Err(f) => content_failure(content@, *smoke, quality_ok) == Some(f@),
        },
{
    if !smoke.ok {
        let reason: TrialFailureReason = if is_blank(content) {
            TrialFailureReason::EmptyContent
        } else if smoke.visible_text.as_str().is_empty() {
            TrialFailureReason::ThinkingOnly
        } else {
            TrialFailureReason::DegenerateContent
        };
        return Err(failure(TrialFailureStage::Content, reason, smoke.error.as_str()));
    }
    if !quality_ok {
        let mut detail: String =
            "visible response did not meet the tuner quality minimums; visible reply: ".to_string();
        detail.append(sanitize_excerpt(smoke.visible_text.as_str()).as_str());
        return Err(
            TrialFailure {
                stage: TrialFailureStage::Content,
                reason: TrialFailureReason::DegenerateContent,
                detail: cap_text(detail.as_str(), MAX_DIAGNOSTIC_CHARS),
            },
        );
    }
    Ok(())
}

} // verus!
