//! A coached session over any JSON-RPC transport, in strict lockstep: every
//! request waits for its own response before the next one is sent.
//!
//! The drive decides what to send and what a line means; its driver writes,
//! reads and looks at the clock.
use vstd::prelude::*;
use vstd::string::StringExecFns;

use crate::coach::{CoachAction, CoachEngine, DriveObservation};
#[allow(unused_imports)]
use crate::coach::{
    action_views, actions_of, event_type, fires_after, law_no_rule_fires_beyond_its_bound,
    lemma_actions_are_counted, lemma_total_of_zeros, total, within_bounds, ActionV, CoachRule,
};
use crate::consumer::VERSION;
use crate::json::{
    child, json_text, no_members, object, parse_json, push_member, text_node, Json, Member,
};
#[allow(unused_imports)]
use crate::json::{
    as_bool, as_u64, at, items_of, json_of, json_text_of, member_text, members_view, trees, JsonV,
};
use crate::text::same;

verus! {

// ---------------------------------------------------------------------------
// Vocabulary
// ---------------------------------------------------------------------------
/// How long an events request may wait for the server's next event.
pub const EVENTS_WAIT_MS: u64 = 2000;

/// Where a drive stands.
#[derive(Clone, Copy, Debug, PartialEq, Eq, Structural)]
pub enum DriveStage {
    Start,
    AwaitInit,
    AwaitPrompt,
    AwaitClock,
    AwaitEvents,
    React,
    AwaitAction,
    AwaitCancel,
    Finished,
}

/// What a drive asks of its driver.
#[derive(Clone, Debug, PartialEq, Eq)]
pub enum DriveAsk {
    Proceed,
    /// Write this line, then read one.
    Send(String),
    /// Read another line.
    Read,
    /// Say whether the deadline has passed.
    Clock,
    Finished,
}

/// A question, mathematically.
pub enum DriveAskV {
    Proceed,
    Send(Seq<char>),
    Read,
    Clock,
    Finished,
}

impl View for DriveAsk {
    type V = DriveAskV;

    open spec fn view(&self) -> DriveAskV {
        match self {
            DriveAsk::Proceed => DriveAskV::Proceed,
            DriveAsk::Send(line) => DriveAskV::Send(line@),
            DriveAsk::Read => DriveAskV::Read,
            DriveAsk::Clock => DriveAskV::Clock,
            DriveAsk::Finished => DriveAskV::Finished,
        }
    }
}

/// What a driver replies.
#[derive(Clone, Debug, PartialEq, Eq)]
pub enum DriveReply {
    Proceed,
    /// A line came.
    Line(String),
    /// The stream is at its end.
    Closed,
    WriteFailed(String),
    FlushFailed(String),
    ReadFailed(String),
    /// Whether the deadline has passed.
    Time(bool),
}

// ---------------------------------------------------------------------------
// Requests
// ---------------------------------------------------------------------------
/// The line of one request.
pub open spec fn request_line(id: u64, method: Seq<char>, params: JsonV) -> Seq<char> {
    json_text_of(
        JsonV::Object(
            seq![
                ("jsonrpc"@, JsonV::Text("2.0"@)),
                ("id"@, JsonV::Unsigned(id)),
                ("method"@, JsonV::Text(method)),
                ("params"@, params),
            ],
        ),
    )
}

/// The line of one tool call.
pub open spec fn tool_line(id: u64, tool: Seq<char>, arguments: JsonV) -> Seq<char> {
    request_line(
        id,
        "tools/call"@,
        JsonV::Object(seq![("name"@, JsonV::Text(tool)), ("arguments"@, arguments)]),
    )
}

/// An object without members.
pub open spec fn nothing() -> JsonV {
    JsonV::Object(seq![])
}

/// What the handshake says.
pub open spec fn handshake(client: Seq<char>) -> JsonV {
    JsonV::Object(
        seq![
            ("protocolVersion"@, JsonV::Text("2025-06-18"@)),
            ("capabilities"@, nothing()),
            (
                "clientInfo"@,
                JsonV::Object(
                    seq![("name"@, JsonV::Text(client)), ("version"@, JsonV::Text(VERSION@))],
                ),
            ),
        ],
    )
}

/// The tool call that carries out an action.
pub open spec fn action_line(id: u64, action: ActionV) -> Seq<char> {
    match action {
        ActionV::Steer(text) => tool_line(
            id,
            "prompt"@,
            JsonV::Object(
                seq![("text"@, JsonV::Text(text)), ("disposition"@, JsonV::Text("steer"@))],
            ),
        ),
        ActionV::Reply(ask_id, allow) => tool_line(
            id,
            "reply_permission"@,
            JsonV::Object(
                seq![("ask_id"@, JsonV::Text(ask_id)), ("allow"@, JsonV::Bool(allow))],
            ),
        ),
        ActionV::Cancel => tool_line(id, "cancel"@, nothing()),
    }
}

/// The tool call that asks for events.
pub open spec fn events_line(id: u64, cursor: u64) -> Seq<char> {
    tool_line(
        id,
        "events"@,
        JsonV::Object(
            seq![
                ("cursor"@, JsonV::Unsigned(cursor)),
                ("wait_ms"@, JsonV::Unsigned(EVENTS_WAIT_MS)),
            ],
        ),
    )
}

/// The response to request `id` that a line holds, if it holds that one.
pub open spec fn response(line: Seq<char>, id: u64) -> Option<JsonV> {
    match json_of(line) {
        Some(message) => if as_u64(at(message, "id"@)) == Some(id) {
            Some(message)
        } else {
            None
        },
        None => None,
    }
}

// ---------------------------------------------------------------------------
// The model
// ---------------------------------------------------------------------------
/// A drive, mathematically.
#[verifier::ext_equal]
pub struct DriveV {
    /// The schema of the script.
    pub schema: u32,
    pub rules: Seq<CoachRule>,
    pub fires: Seq<u32>,
    pub client: Seq<char>,
    pub problem: Seq<char>,
    pub at: DriveStage,
    /// The id of the last request.
    pub last_id: u64,
    pub cursor: u64,
    pub tool_calls: int,
    pub interventions: int,
    pub exit_reason: Seq<char>,
    /// The page of events the drive works through, and where it is in it.
    pub entries: Seq<JsonV>,
    pub entry: int,
    /// The actions on the last event that are still to be sent.
    pub actions: Seq<ActionV>,
    pub stopped: bool,
    pub failure: Option<Seq<char>>,
}

/// The drive before its first transition.
pub open spec fn drive_start(
    schema: u32,
    rules: Seq<CoachRule>,
    fires: Seq<u32>,
    client: Seq<char>,
    problem: Seq<char>,
) -> DriveV {
    DriveV {
        schema,
        rules,
        fires,
        client,
        problem,
        at: DriveStage::Start,
        last_id: 0,
        cursor: 0,
        tool_calls: 0,
        interventions: 0,
        exit_reason: "unknown"@,
        entries: seq![],
        entry: 0,
        actions: seq![],
        stopped: false,
        failure: None,
    }
}

pub open spec fn next_id(s: DriveV) -> u64 {
    (s.last_id + 1) as u64
}

/// The next request goes out; its response is awaited in `stage`.
pub open spec fn sent(s: DriveV, line: Seq<char>, stage: DriveStage) -> (DriveV, DriveAskV) {
    (DriveV { at: stage, last_id: next_id(s), ..s }, DriveAskV::Send(line))
}

/// The drive ends with a failure.
pub open spec fn drive_failed(s: DriveV, message: Seq<char>) -> (DriveV, DriveAskV) {
    (
        DriveV { at: DriveStage::Finished, failure: Some(message), ..s },
        DriveAskV::Finished,
    )
}

/// The drive looks at the clock before it polls again.
pub open spec fn polling(s: DriveV) -> (DriveV, DriveAskV) {
    (DriveV { at: DriveStage::AwaitClock, ..s }, DriveAskV::Clock)
}

/// One event is taken in: counted, and put to the script.
pub open spec fn took_in(s: DriveV, event: JsonV) -> DriveV {
    let kind = event_type(event);
    let counted = if kind == "tool_started"@ {
        DriveV { tool_calls: s.tool_calls + 1, ..s }
    } else if kind == "stopped"@ {
        DriveV {
            exit_reason: match member_text(event, "reason"@) {
                Some(reason) => reason,
                None => "unknown"@,
            },
            stopped: true,
            ..s
        }
    } else {
        s
    };
    DriveV {
        actions: actions_of(s.rules, s.fires, event, s.rules.len() as int),
        fires: fires_after(s.rules, s.fires, event),
        entry: s.entry + 1,
        ..counted
    }
}

/// The drive reacts: the next action, the next event of the page, the end of
/// the turn, or the next poll.
pub open spec fn reacted(s: DriveV) -> (DriveV, DriveAskV) {
    if s.actions.len() > 0 {
        sent(
            DriveV { actions: s.actions.skip(1), interventions: s.interventions + 1, ..s },
            action_line(next_id(s), s.actions[0]),
            DriveStage::AwaitAction,
        )
    } else if s.entry < s.entries.len() {
        (took_in(s, at(s.entries[s.entry], "event"@)), DriveAskV::Proceed)
    } else if s.stopped {
        (DriveV { at: DriveStage::Finished, ..s }, DriveAskV::Finished)
    } else {
        polling(s)
    }
}

/// The awaited response came.
pub open spec fn responded(s: DriveV, message: JsonV) -> (DriveV, DriveAskV) {
    let result = at(message, "result"@);
    match s.at {
        DriveStage::AwaitInit => if at(at(result, "serverInfo"@), "name"@) is Null {
            drive_failed(s, "initialize returned no serverInfo"@)
        } else {
            sent(
                s,
                tool_line(
                    next_id(s),
                    "prompt"@,
                    JsonV::Object(seq![("text"@, JsonV::Text(s.problem))]),
                ),
                DriveStage::AwaitPrompt,
            )
        },
        DriveStage::AwaitPrompt => if as_bool(at(result, "isError"@)) == Some(true) {
            drive_failed(s, "prompt refused: "@ + json_text_of(result))
        } else {
            polling(s)
        },
        DriveStage::AwaitEvents => {
            let page = at(result, "structuredContent"@);
            (
                DriveV {
                    cursor: match as_u64(at(page, "next_cursor"@)) {
                        Some(next) => next,
                        None => s.cursor,
                    },
                    entries: items_of(at(page, "events"@)),
                    entry: 0,
                    stopped: false,
                    at: DriveStage::React,
                    ..s
                },
                DriveAskV::Proceed,
            )
        },
        DriveStage::AwaitAction => (
            DriveV { at: DriveStage::React, ..s },
            DriveAskV::Proceed,
        ),
        _ => deadline_passed(s),
    }
}

/// The drive ends because its deadline passed.
pub open spec fn deadline_passed(s: DriveV) -> (DriveV, DriveAskV) {
    (
        DriveV { exit_reason: "coach-deadline"@, at: DriveStage::Finished, ..s },
        DriveAskV::Finished,
    )
}

/// The drive waits for a response.
pub open spec fn awaiting(stage: DriveStage) -> bool {
    stage is AwaitInit || stage is AwaitPrompt || stage is AwaitEvents || stage is AwaitAction
        || stage is AwaitCancel
}

/// The transport failed. After the deadline that no longer matters.
pub open spec fn transport_failed(s: DriveV, message: Seq<char>) -> (DriveV, DriveAskV) {
    if s.at is AwaitCancel {
        deadline_passed(s)
    } else {
        drive_failed(s, message)
    }
}

/// Lines that are no response to the last request are skipped.
pub open spec fn on_line(s: DriveV, line: Seq<char>) -> (DriveV, DriveAskV) {
    match response(line, s.last_id) {
        Some(message) => responded(s, message),
        None => (s, DriveAskV::Read),
    }
}

pub open spec fn on_clock(s: DriveV, expired: bool) -> (DriveV, DriveAskV) {
    if expired {
        sent(s, tool_line(next_id(s), "cancel"@, nothing()), DriveStage::AwaitCancel)
    } else {
        sent(s, events_line(next_id(s), s.cursor), DriveStage::AwaitEvents)
    }
}

/// One transition. A reply that answers no question changes nothing.
pub open spec fn drove(s: DriveV, reply: DriveReply) -> (DriveV, DriveAskV) {
    match reply {
        DriveReply::Proceed => match s.at {
            DriveStage::Start => sent(
                s,
                request_line(next_id(s), "initialize"@, handshake(s.client)),
                DriveStage::AwaitInit,
            ),
            DriveStage::React => reacted(s),
            _ => (s, DriveAskV::Proceed),
        },
        DriveReply::Time(expired) => if s.at is AwaitClock {
            on_clock(s, expired)
        } else {
            (s, DriveAskV::Proceed)
        },
        DriveReply::Line(line) => if awaiting(s.at) {
            on_line(s, line@)
        } else {
            (s, DriveAskV::Proceed)
        },
        DriveReply::Closed => if awaiting(s.at) {
            transport_failed(s, "server closed the stream mid-drive"@)
        } else {
            (s, DriveAskV::Proceed)
        },
        DriveReply::WriteFailed(e) => if awaiting(s.at) {
            transport_failed(s, "coach write: "@ + e@)
        } else {
            (s, DriveAskV::Proceed)
        },
        DriveReply::FlushFailed(e) => if awaiting(s.at) {
            transport_failed(s, "coach flush: "@ + e@)
        } else {
            (s, DriveAskV::Proceed)
        },
        DriveReply::ReadFailed(e) => if awaiting(s.at) {
            transport_failed(s, "coach read: "@ + e@)
        } else {
            (s, DriveAskV::Proceed)
        },
    }
}

/// The counters have room for one more transition.
pub open spec fn has_room(s: DriveV) -> bool {
    s.last_id < u64::MAX && s.tool_calls < u32::MAX && s.interventions < u32::MAX
}

// ---------------------------------------------------------------------------
// Laws
// ---------------------------------------------------------------------------
/// What holds of every drive: no rule has fired beyond its bound, every firing
/// is sent once or waits to be sent, and a drive that ended without a failure
/// ended because the turn stopped or the deadline passed.
pub open spec fn drive_sound(s: DriveV) -> bool {
    &&& within_bounds(s.rules, s.fires)
    &&& s.interventions + s.actions.len() == total(s.fires, s.rules.len() as int)
    &&& 0 <= s.entry <= s.entries.len()
    &&& s.tool_calls >= 0 && s.interventions >= 0
    &&& (s.at is Finished) && s.failure is None ==> s.stopped || s.exit_reason
        == "coach-deadline"@
    &&& !(s.at is Finished) ==> s.failure is None
    &&& !(s.at is React || s.at is AwaitAction) ==> s.actions.len() == 0 || s.failure is Some
    &&& !(s.at is React || s.at is AwaitAction || s.at is Finished) ==> !s.stopped
}

/// A drive begins sound, and every transition keeps it sound.
pub proof fn law_every_drive_transition_is_sound(s: DriveV, reply: DriveReply)
    requires
        drive_sound(s),
    ensures
        drive_sound(drove(s, reply).0),
        drove(s, reply).0.rules == s.rules,
{
    if s.at is React && reply is Proceed && s.actions.len() == 0 && s.entry < s.entries.len() {
        let event = at(s.entries[s.entry], "event"@);
        lemma_actions_are_counted(s.rules, s.fires, event, s.rules.len() as int);
        law_no_rule_fires_beyond_its_bound(s.rules, s.fires, event);
    }
}

/// The drive after a list of replies.
pub open spec fn drive_after(
    schema: u32,
    rules: Seq<CoachRule>,
    client: Seq<char>,
    problem: Seq<char>,
    replies: Seq<DriveReply>,
) -> DriveV
    decreases replies.len(),
{
    if replies.len() == 0 {
        drive_start(schema, rules, Seq::new(rules.len(), |i: int| 0u32), client, problem)
    } else {
        drove(drive_after(schema, rules, client, problem, replies.drop_last()), replies.last()).0
    }
}

/// The sum of the bounds of the first `n` rules.
pub open spec fn total_bound(rules: Seq<CoachRule>, n: int) -> int
    decreases n,
{
    if n <= 0 {
        0
    } else {
        total_bound(rules, n - 1) + rules[n - 1].max_fires
    }
}

proof fn lemma_total_is_bounded(rules: Seq<CoachRule>, fires: Seq<u32>, n: int)
    requires
        within_bounds(rules, fires),
        0 <= n <= rules.len(),
    ensures
        total(fires, n) <= total_bound(rules, n),
    decreases n,
{
    if n > 0 {
        lemma_total_is_bounded(rules, fires, n - 1);
        assert(fires[n - 1] <= rules[n - 1].max_fires);
    }
}

/// Whatever the server sends, every drive is sound, and a script intervenes no
/// more often than its rules may fire in all.
pub proof fn law_a_drive_intervenes_within_its_script(
    schema: u32,
    rules: Seq<CoachRule>,
    client: Seq<char>,
    problem: Seq<char>,
    replies: Seq<DriveReply>,
)
    ensures
        drive_sound(drive_after(schema, rules, client, problem, replies)),
        drive_after(schema, rules, client, problem, replies).rules == rules,
        drive_after(schema, rules, client, problem, replies).interventions <= total_bound(
            rules,
            rules.len() as int,
        ),
    decreases replies.len(),
{
    let s = drive_after(schema, rules, client, problem, replies);
    if replies.len() == 0 {
        lemma_total_of_zeros(s.fires, rules.len() as int);
    } else {
        law_a_drive_intervenes_within_its_script(
            schema,
            rules,
            client,
            problem,
            replies.drop_last(),
        );
        law_every_drive_transition_is_sound(
            drive_after(schema, rules, client, problem, replies.drop_last()),
            replies.last(),
        );
    }
    lemma_total_is_bounded(rules, s.fires, rules.len() as int);
}

/// Strict lockstep: while a response is awaited, nothing is sent unless that
/// very response came.
pub proof fn law_no_request_overtakes_a_response(s: DriveV, reply: DriveReply)
    requires
        awaiting(s.at),
        drove(s, reply).1 is Send,
    ensures
        reply matches DriveReply::Line(line) && response(line@, s.last_id) is Some,
        drove(s, reply).0.last_id == next_id(s),
{
}

/// Once the deadline has passed the drive sends a single cancel and ends,
/// whatever comes back.
pub proof fn law_the_deadline_ends_the_drive(s: DriveV, reply: DriveReply)
    ensures
        s.at is AwaitClock ==> drove(s, DriveReply::Time(true)).1 == DriveAskV::Send(
            tool_line(next_id(s), "cancel"@, nothing()),
        ) && drove(s, DriveReply::Time(true)).0.at is AwaitCancel,
        s.at is AwaitCancel ==> {
            let t = drove(s, reply).0;
            ||| t == s
            ||| t.at is Finished && t.exit_reason == "coach-deadline"@ && t.failure == s.failure
        },
{
}

// ---------------------------------------------------------------------------
// The drive
// ---------------------------------------------------------------------------
/// A coached session in progress.
pub struct DriveRun {
    engine: CoachEngine,
    client: String,
    problem: String,
    at: DriveStage,
    last_id: u64,
    cursor: u64,
    tool_calls: u32,
    interventions: u32,
    exit_reason: String,
    entries: Vec<Json>,
    entry: usize,
    actions: Vec<CoachAction>,
    stopped: bool,
    failure: Option<String>,
}

impl View for DriveRun {
    type V = DriveV;

    closed spec fn view(&self) -> DriveV {
        DriveV {
            schema: self.engine.script().schema,
            rules: self.engine.script().rules@,
            fires: self.engine.fires(),
            client: self.client@,
            problem: self.problem@,
            at: self.at,
            last_id: self.last_id,
            cursor: self.cursor,
            tool_calls: self.tool_calls as int,
            interventions: self.interventions as int,
            exit_reason: self.exit_reason@,
            entries: trees(self.entries@),
            entry: self.entry as int,
            actions: action_views(self.actions@),
            stopped: self.stopped,
            failure: match self.failure {
                Some(m) => Some(m@),
                None => None,
            },
        }
    }
}

fn request(id: u64, method: &str, params: Json) -> (out: String)
    ensures
        out@ == request_line(id, method@, params@),
{
    let ghost p = params@;
    let mut members: Vec<Member> = no_members();
    push_member(&mut members, "jsonrpc", text_node("2.0"));
    push_member(&mut members, "id", Json::Unsigned(id));
    push_member(&mut members, "method", text_node(method));
    push_member(&mut members, "params", params);
    assert(members_view(members@) =~= seq![
        ("jsonrpc"@, JsonV::Text("2.0"@)),
        ("id"@, JsonV::Unsigned(id)),
        ("method"@, JsonV::Text(method@)),
        ("params"@, p),
    ]);
    json_text(&object(members))
}

fn tool_request(id: u64, tool: &str, arguments: Json) -> (out: String)
    ensures
        out@ == tool_line(id, tool@, arguments@),
{
    let ghost a = arguments@;
    let mut members: Vec<Member> = no_members();
    push_member(&mut members, "name", text_node(tool));
    push_member(&mut members, "arguments", arguments);
    assert(members_view(members@) =~= seq![("name"@, JsonV::Text(tool@)), ("arguments"@, a)]);
    request(id, "tools/call", object(members))
}

fn empty_object() -> (out: Json)
    ensures
        out@ == nothing(),
{
    object(no_members())
}

fn handshake_params(client: &str) -> (out: Json)
    ensures
        out@ == handshake(client@),
{
    let mut info: Vec<Member> = no_members();
    push_member(&mut info, "name", text_node(client));
    push_member(&mut info, "version", text_node(VERSION));
    assert(members_view(info@) =~= seq![
        ("name"@, JsonV::Text(client@)),
        ("version"@, JsonV::Text(VERSION@)),
    ]);
    let mut members: Vec<Member> = no_members();
    push_member(&mut members, "protocolVersion", text_node("2025-06-18"));
    push_member(&mut members, "capabilities", empty_object());
    push_member(&mut members, "clientInfo", object(info));
    assert(members_view(members@) =~= seq![
        ("protocolVersion"@, JsonV::Text("2025-06-18"@)),
        ("capabilities"@, nothing()),
        ("clientInfo"@, JsonV::Object(members_view(info@))),
    ]);
    object(members)
}

fn action_request(id: u64, action: &CoachAction) -> (out: String)
    ensures
        out@ == action_line(id, action@),
{
    match action {
        CoachAction::Steer(text) => {
            let mut members: Vec<Member> = no_members();
            push_member(&mut members, "text", text_node(text.as_str()));
            push_member(&mut members, "disposition", text_node("steer"));
            assert(members_view(members@) =~= seq![
                ("text"@, JsonV::Text(text@)),
                ("disposition"@, JsonV::Text("steer"@)),
            ]);
            tool_request(id, "prompt", object(members))
        },
        CoachAction::Reply { ask_id, allow } => {
            let mut members: Vec<Member> = no_members();
            push_member(&mut members, "ask_id", text_node(ask_id.as_str()));
            push_member(&mut members, "allow", Json::Bool(*allow));
            assert(members_view(members@) =~= seq![
                ("ask_id"@, JsonV::Text(ask_id@)),
                ("allow"@, JsonV::Bool(*allow)),
            ]);
            tool_request(id, "reply_permission", object(members))
        },
        CoachAction::Cancel => tool_request(id, "cancel", empty_object()),
    }
}

fn events_request(id: u64, cursor: u64) -> (out: String)
    ensures
        out@ == events_line(id, cursor),
{
    let mut members: Vec<Member> = no_members();
    push_member(&mut members, "cursor", Json::Unsigned(cursor));
    push_member(&mut members, "wait_ms", Json::Unsigned(EVENTS_WAIT_MS));
    assert(members_view(members@) =~= seq![
        ("cursor"@, JsonV::Unsigned(cursor)),
        ("wait_ms"@, JsonV::Unsigned(EVENTS_WAIT_MS)),
    ]);
    tool_request(id, "events", object(members))
}

/// Begin a coached session: the script of `engine`, whose rules have not
/// fired, against one problem.
pub fn drive_over(engine: CoachEngine, client: &str, problem: &str) -> (out: DriveRun)
    requires
        engine.well_formed(),
    ensures
        out.well_formed(),
        out@ == drive_start(
            engine.script().schema,
            engine.script().rules@,
            engine.fires(),
            client@,
            problem@,
        ),
{
    let entries: Vec<Json> = Vec::new();
    let actions: Vec<CoachAction> = Vec::new();
    assert(trees(entries@) =~= seq![]);
    assert(action_views(actions@) =~= seq![]);
    DriveRun {
        engine,
        client: client.to_string(),
        problem: problem.to_string(),
        at: DriveStage::Start,
        last_id: 0,
        cursor: 0,
        tool_calls: 0,
        interventions: 0,
        exit_reason: "unknown".to_string(),
        entries,
        entry: 0,
        actions,
        stopped: false,
        failure: None,
    }
}

impl DriveRun {
    /// No rule has fired beyond its bound.
    pub open spec fn well_formed(self) -> bool {
        within_bounds(self@.rules, self@.fires)
    }

    /// Where the drive stands.
    pub fn stage(&self) -> (out: DriveStage)
        ensures
            out == self@.at,
    {
        self.at
    }

    /// Whether the counters have room for one more transition.
    pub fn can_step(&self) -> (out: bool)
        ensures
            out == has_room(self@),
    {
        self.last_id < u64::MAX && self.tool_calls < u32::MAX && self.interventions < u32::MAX
    }

    /// What a finished drive observed, or why it failed.
    pub fn outcome(&self) -> (out: Option<Result<DriveObservation, String>>)
        ensures
            match out {
                None => !(self@.at is Finished),
                Some(Err(m)) => self@.at is Finished && self@.failure == Some(m@),
                Some(Ok(o)) => self@.at is Finished && self@.failure is None && o.tool_calls
                    == self@.tool_calls && o.interventions == self@.interventions
                    && o.exit_reason@ == self@.exit_reason,
            },
    {
        if self.at != DriveStage::Finished {
            return None;
        }
        match &self.failure {
            Some(m) => Some(Err(m.clone())),
            None => Some(
                Ok(
                    DriveObservation {
                        tool_calls: self.tool_calls,
                        interventions: self.interventions,
                        exit_reason: self.exit_reason.clone(),
                    },
                ),
            ),
        }
    }

    fn number(&mut self) -> (out: u64)
        requires
            old(self)@.last_id < u64::MAX,
        ensures
            out == next_id(old(self)@),
            final(self)@ == (DriveV { last_id: out, ..old(self)@ }),
    {
        self.last_id = self.last_id + 1;
        self.last_id
    }

    fn fail(&mut self, message: String) -> (ask: DriveAsk)
        ensures
            final(self)@ == drive_failed(old(self)@, message@).0,
            ask@ == drive_failed(old(self)@, message@).1,
    {
        self.failure = Some(message);
        self.at = DriveStage::Finished;
        DriveAsk::Finished
    }

    fn transport_fail(&mut self, prefix: &str, error: &str) -> (ask: DriveAsk)
        ensures
            final(self)@ == transport_failed(old(self)@, prefix@ + error@).0,
            ask@ == transport_failed(old(self)@, prefix@ + error@).1,
    {
        if self.at == DriveStage::AwaitCancel {
            self.end_at_deadline()
        } else {
            let mut m: String = prefix.to_string();
            m.append(error);
            self.fail(m)
        }
    }

    fn end_at_deadline(&mut self) -> (ask: DriveAsk)
        ensures
            final(self)@ == deadline_passed(old(self)@).0,
            ask@ == deadline_passed(old(self)@).1,
    {
        self.exit_reason = "coach-deadline".to_string();
        self.at = DriveStage::Finished;
        DriveAsk::Finished
    }

    fn poll(&mut self) -> (ask: DriveAsk)
        ensures
            final(self)@ == polling(old(self)@).0,
            ask@ == polling(old(self)@).1,
    {
        self.at = DriveStage::AwaitClock;
        DriveAsk::Clock
    }

    fn begin(&mut self) -> (ask: DriveAsk)
        requires
            has_room(old(self)@),
            old(self)@.at is Start,
        ensures
            final(self)@ == drove(old(self)@, DriveReply::Proceed).0,
            ask@ == drove(old(self)@, DriveReply::Proceed).1,
    {
        let id: u64 = self.number();
        self.at = DriveStage::AwaitInit;
        DriveAsk::Send(request(id, "initialize", handshake_params(self.client.as_str())))
    }

    fn react(&mut self) -> (ask: DriveAsk)
        requires
            has_room(old(self)@),
            old(self).well_formed(),
        ensures
            final(self)@ == reacted(old(self)@).0,
            ask@ == reacted(old(self)@).1,
    {
        let ghost s = self@;
        if self.actions.len() > 0 {
            let ghost before = self.actions@;
            let action: CoachAction = self.actions.remove(0);
            assert(action_views(self.actions@) =~= action_views(before).skip(1));
            assert(action@ == action_views(before)[0]);
            self.interventions = self.interventions + 1;
            let id: u64 = self.number();
            self.at = DriveStage::AwaitAction;
            DriveAsk::Send(action_request(id, &action))
        } else if self.entry < self.entries.len() {
            let event: Json = child(&self.entries[self.entry], "event");
            assert(event@ == at(s.entries[s.entry], "event"@));
            let kind: String = match event.text_at("type") {
                Some(t) => t,
                None => String::new(),
            };
            assert(kind@ =~= event_type(event@));
            if same(kind.as_str(), "tool_started") {
                self.tool_calls = self.tool_calls + 1;
            } else if same(kind.as_str(), "stopped") {
                self.exit_reason = match event.text_at("reason") {
                    Some(reason) => reason,
                    None => "unknown".to_string(),
                };
                self.stopped = true;
            }
            self.actions = self.engine.on_event(&event);
            self.entry = self.entry + 1;
            DriveAsk::Proceed
        } else if self.stopped {
            self.at = DriveStage::Finished;
            DriveAsk::Finished
        } else {
            self.poll()
        }
    }

    fn respond(&mut self, message: &Json) -> (ask: DriveAsk)
        requires
            has_room(old(self)@),
            awaiting(old(self)@.at),
        ensures
            final(self)@ == responded(old(self)@, message@).0,
            ask@ == responded(old(self)@, message@).1,
    {
        let result: Json = child(message, "result");
        match self.at {
            DriveStage::AwaitInit => {
                let named: Json = child(&child(&result, "serverInfo"), "name");
                match named {
                    Json::Null => self.fail("initialize returned no serverInfo".to_string()),
                    _ => {
                        let id: u64 = self.number();
                        self.at = DriveStage::AwaitPrompt;
                        let mut members: Vec<Member> = no_members();
                        push_member(&mut members, "text", text_node(self.problem.as_str()));
                        assert(members_view(members@) =~= seq![
                            ("text"@, JsonV::Text(self.problem@)),
                        ]);
                        DriveAsk::Send(tool_request(id, "prompt", object(members)))
                    },
                }
            },
            DriveStage::AwaitPrompt => {
                match child(&result, "isError").flag() {
                    Some(true) => {
                        let mut m: String = "prompt refused: ".to_string();
                        m.append(json_text(&result).as_str());
                        self.fail(m)
                    },
                    _ => self.poll(),
                }
            },
            DriveStage::AwaitEvents => {
                let page: Json = child(&result, "structuredContent");
                match child(&page, "next_cursor").unsigned() {
                    Some(next) => {
                        self.cursor = next;
                    },
                    None => {},
                }
                self.entries = child(&page, "events").items();
                self.entry = 0;
                self.stopped = false;
                self.at = DriveStage::React;
                DriveAsk::Proceed
            },
            DriveStage::AwaitAction => {
                self.at = DriveStage::React;
                DriveAsk::Proceed
            },
            _ => self.end_at_deadline(),
        }
    }

    fn take_line(&mut self, line: &str) -> (ask: DriveAsk)
        requires
            has_room(old(self)@),
            awaiting(old(self)@.at),
        ensures
            final(self)@ == on_line(old(self)@, line@).0,
            ask@ == on_line(old(self)@, line@).1,
    {
        match parse_json(line) {
            Some(message) => match child(&message, "id").unsigned() {
                Some(id) => if id == self.last_id {
                    self.respond(&message)
                } else {
                    DriveAsk::Read
                },
                None => DriveAsk::Read,
            },
            None => DriveAsk::Read,
        }
    }

    fn look_at_clock(&mut self, expired: bool) -> (ask: DriveAsk)
        requires
            has_room(old(self)@),
        ensures
            final(self)@ == on_clock(old(self)@, expired).0,
            ask@ == on_clock(old(self)@, expired).1,
    {
        let id: u64 = self.number();
        if expired {
            self.at = DriveStage::AwaitCancel;
            DriveAsk::Send(tool_request(id, "cancel", empty_object()))
        } else {
            self.at = DriveStage::AwaitEvents;
            DriveAsk::Send(events_request(id, self.cursor))
        }
    }

    fn is_awaiting(&self) -> (out: bool)
        ensures
            out == awaiting(self@.at),
    {
        match self.at {
            DriveStage::AwaitInit => true,
            DriveStage::AwaitPrompt => true,
            DriveStage::AwaitEvents => true,
            DriveStage::AwaitAction => true,
            DriveStage::AwaitCancel => true,
            _ => false,
        }
    }

    /// One transition.
    pub fn step(&mut self, reply: DriveReply) -> (ask: DriveAsk)
        requires
            old(self).well_formed(),
            has_room(old(self)@),
        ensures
            final(self).well_formed(),
            final(self)@ == drove(old(self)@, reply).0,
            ask@ == drove(old(self)@, reply).1,
    {
        proof {
            if self@.entry < self@.entries.len() {
                law_no_rule_fires_beyond_its_bound(
                    self@.rules,
                    self@.fires,
                    at(self@.entries[self@.entry], "event"@),
                );
            }
        }
        match reply {
            DriveReply::Proceed => match self.at {
                DriveStage::Start => self.begin(),
                DriveStage::React => self.react(),
                _ => DriveAsk::Proceed,
            },
            DriveReply::Time(expired) => match self.at {
                DriveStage::AwaitClock => self.look_at_clock(expired),
                _ => DriveAsk::Proceed,
            },
            DriveReply::Line(line) => if self.is_awaiting() {
                self.take_line(line.as_str())
            } else {
                DriveAsk::Proceed
            },
            DriveReply::Closed => if self.is_awaiting() {
                if self.at == DriveStage::AwaitCancel {
                    self.end_at_deadline()
                } else {
                    self.fail("server closed the stream mid-drive".to_string())
                }
            } else {
                DriveAsk::Proceed
            },
            DriveReply::WriteFailed(e) => if self.is_awaiting() {
                self.transport_fail("coach write: ", e.as_str())
            } else {
                DriveAsk::Proceed
            },
            DriveReply::FlushFailed(e) => if self.is_awaiting() {
                self.transport_fail("coach flush: ", e.as_str())
            } else {
                DriveAsk::Proceed
            },
            DriveReply::ReadFailed(e) => if self.is_awaiting() {
                self.transport_fail("coach read: ", e.as_str())
            } else {
                DriveAsk::Proceed
            },
        }
    }
}

} // verus!
