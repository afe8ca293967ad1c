//! What a coached drive says to the solver, and what it makes of the answers.
use vstd::prelude::*;

#[allow(unused_imports)]
use crate::coach::{actions_of, fires_after, ActionV};
#[allow(unused_imports)]
use crate::coach_drive::{drove, DriveAskV, DriveReply, DriveV};
#[allow(unused_imports)]
use crate::consumer::VERSION;
#[allow(unused_imports)]
use crate::json::{at, json_of, json_text_of, member, JsonV};

verus! {

/// The text of a request: its number, its method and its parameters.
pub open spec fn asks(id: int, method: Seq<char>, params: JsonV) -> Seq<char> {
    json_text_of(
        JsonV::Object(
            seq![
                ("jsonrpc"@, JsonV::Text("2.0"@)),
                ("id"@, JsonV::Unsigned(id as u64)),
                ("method"@, JsonV::Text(method)),
                ("params"@, params),
            ],
        ),
    )
}

/// The text of a tool call.
pub open spec fn calls(id: int, tool: Seq<char>, arguments: Seq<(Seq<char>, JsonV)>) -> Seq<char> {
    asks(
        id,
        "tools/call"@,
        JsonV::Object(
            seq![("name"@, JsonV::Text(tool)), ("arguments"@, JsonV::Object(arguments))],
        ),
    )
}

/// Whether a line holds the response to a request.
pub open spec fn answers(line: Seq<char>, id: u64) -> bool {
    json_of(line) matches Some(message) && member(message, "id"@) == Some(JsonV::Unsigned(id))
}

/// The result that a line holds, `Null` where it holds none.
pub open spec fn result_in(line: Seq<char>) -> JsonV {
    at(json_of(line)->Some_0, "result"@)
}

/// A drive begins with the handshake, in the script's own name. A server that
/// does not name itself ends it; one that does is given the problem, as it is.
/// A refused prompt ends the drive; after an accepted one it looks at the clock.
pub proof fn law_a_drive_hands_over_the_problem(s: DriveV, line: String)
    requires
        s.last_id < u64::MAX,
    ensures
        s.at is Start ==> {
            let (t, ask) = drove(s, DriveReply::Proceed);
            &&& t.at is AwaitInit && t.last_id == s.last_id + 1
            &&& ask == DriveAskV::Send(
                asks(
                    s.last_id + 1,
                    "initialize"@,
                    JsonV::Object(
                        seq![
                            ("protocolVersion"@, JsonV::Text("2025-06-18"@)),
                            ("capabilities"@, JsonV::Object(seq![])),
                            (
                                "clientInfo"@,
                                JsonV::Object(
                                    seq![
                                        ("name"@, JsonV::Text(s.client)),
                                        ("version"@, JsonV::Text(VERSION@)),
                                    ],
                                ),
                            ),
                        ],
                    ),
                ),
            )
        },
        s.at is AwaitInit && answers(line@, s.last_id) ==> {
            let (t, ask) = drove(s, DriveReply::Line(line));
            if at(at(result_in(line@), "serverInfo"@), "name"@) is Null {
                ask == DriveAskV::Finished && t.failure == Some(
                    "initialize returned no serverInfo"@,
                )
            } else {
                ask == DriveAskV::Send(
                    calls(s.last_id + 1, "prompt"@, seq![("text"@, JsonV::Text(s.problem))]),
                ) && t.at is AwaitPrompt
            }
        },
        s.at is AwaitPrompt && answers(line@, s.last_id) ==> {
            let (t, ask) = drove(s, DriveReply::Line(line));
            if member(result_in(line@), "isError"@) == Some(JsonV::Bool(true)) {
                ask == DriveAskV::Finished && t.failure == Some(
                    "prompt refused: "@ + json_text_of(result_in(line@)),
                )
            } else {
                ask == DriveAskV::Clock && t.at is AwaitClock && t.failure == s.failure
            }
        },
{
}

/// Only the response to the last request counts: any other line is skipped, and
/// the next is read.
pub proof fn law_other_lines_are_skipped(s: DriveV, line: String)
    requires
        s.at is AwaitInit || s.at is AwaitPrompt || s.at is AwaitEvents || s.at is AwaitAction
            || s.at is AwaitCancel,
        !answers(line@, s.last_id),
    ensures
        drove(s, DriveReply::Line(line)) == (s, DriveAskV::Read),
{
}

/// Before its deadline a drive asks for the events from its cursor on; past it,
/// it cancels, and whatever comes back ends the drive with the deadline.
pub proof fn law_the_clock_decides_the_next_request(s: DriveV, line: String)
    requires
        s.at is AwaitClock,
        s.last_id < u64::MAX,
    ensures
        drove(s, DriveReply::Time(false)).1 == DriveAskV::Send(
            calls(
                s.last_id + 1,
                "events"@,
                seq![("cursor"@, JsonV::Unsigned(s.cursor)), ("wait_ms"@, JsonV::Unsigned(2000))],
            ),
        ),
        drove(s, DriveReply::Time(false)).0.at is AwaitEvents,
        drove(s, DriveReply::Time(true)).1 == DriveAskV::Send(
            calls(s.last_id + 1, "cancel"@, seq![]),
        ),
        ({
            let t = drove(s, DriveReply::Time(true)).0;
            let u = drove(t, DriveReply::Closed).0;
            &&& u.at is Finished && u.exit_reason == "coach-deadline"@ && u.failure == s.failure
            &&& answers(line@, t.last_id) ==> drove(t, DriveReply::Line(line)).0.exit_reason
                == "coach-deadline"@
        }),
{
}

/// A page of events moves the cursor to where the server says, or leaves it, and
/// is worked through from its first event.
pub proof fn law_a_page_of_events_is_taken_in(s: DriveV, line: String)
    requires
        s.at is AwaitEvents,
        answers(line@, s.last_id),
    ensures
        ({
            let (t, ask) = drove(s, DriveReply::Line(line));
            let page = at(result_in(line@), "structuredContent"@);
            &&& ask == DriveAskV::Proceed && t.at is React && t.entry == 0 && !t.stopped
            &&& t.entries == (match at(page, "events"@) {
                JsonV::List(items) => items,
                _ => seq![],
            })
            &&& t.cursor == (match at(page, "next_cursor"@) {
                JsonV::Unsigned(n) => n,
                _ => s.cursor,
            })
            &&& t.tool_calls == s.tool_calls && t.interventions == s.interventions && t.fires
                == s.fires
        }),
{
}

/// Each event of a page is counted and put to the script: a tool that starts is
/// a tool call, a stop has the reason it gives, or none known, and the script's
/// actions on it wait to be sent.
pub proof fn law_an_event_is_counted_and_put_to_the_script(s: DriveV)
    requires
        s.at is React,
        s.actions.len() == 0,
        0 <= s.entry < s.entries.len(),
    ensures
        ({
            let (t, ask) = drove(s, DriveReply::Proceed);
            let event = at(s.entries[s.entry], "event"@);
            let kind = member(event, "type"@);
            let started = kind == Some(JsonV::Text("tool_started"@));
            let stopped = kind == Some(JsonV::Text("stopped"@));
            &&& ask == DriveAskV::Proceed && t.at is React && t.entry == s.entry + 1
            &&& t.tool_calls == s.tool_calls + (if started {
                1int
            } else {
                0
            })
            &&& stopped ==> t.stopped && t.exit_reason == (match member(event, "reason"@) {
                Some(JsonV::Text(reason)) => reason,
                _ => "unknown"@,
            })
            &&& !stopped ==> t.stopped == s.stopped && t.exit_reason == s.exit_reason
            &&& t.actions == actions_of(s.rules, s.fires, event, s.rules.len() as int)
            &&& t.fires == fires_after(s.rules, s.fires, event)
            &&& t.interventions == s.interventions
        }),
{
    reveal_strlit("tool_started");
    reveal_strlit("stopped");
    assert("tool_started"@.len() == 12 && "stopped"@.len() == 7);
}

/// The actions of the script are sent one by one, in order, each as its own
/// call: a steer with its words, an answer with its ask and its verdict, a
/// cancel. Each counts as one intervention, and the next waits for its response.
pub proof fn law_an_action_is_sent_as_it_is(s: DriveV, line: String)
    requires
        s.at is React,
        s.actions.len() > 0,
        s.last_id < u64::MAX,
    ensures
        ({
            let (t, ask) = drove(s, DriveReply::Proceed);
            &&& t.at is AwaitAction && t.interventions == s.interventions + 1
            &&& t.actions == s.actions.skip(1) && t.entry == s.entry && t.tool_calls == s.tool_calls
            &&& ask == DriveAskV::Send(
                match s.actions[0] {
                    ActionV::Steer(words) => calls(
                        s.last_id + 1,
                        "prompt"@,
                        seq![("text"@, JsonV::Text(words)), ("disposition"@, JsonV::Text("steer"@))],
                    ),
                    ActionV::Reply(ask_id, allow) => calls(
                        s.last_id + 1,
                        "reply_permission"@,
                        seq![("ask_id"@, JsonV::Text(ask_id)), ("allow"@, JsonV::Bool(allow))],
                    ),
                    ActionV::Cancel => calls(s.last_id + 1, "cancel"@, seq![]),
                },
            )
            &&& answers(line@, t.last_id) ==> drove(t, DriveReply::Line(line)).0.at is React
                && drove(t, DriveReply::Line(line)).0.actions == t.actions
        }),
{
}

/// When a page and its actions are worked off, a turn that stopped ends the
/// drive, and any other is polled again.
pub proof fn law_a_stopped_turn_ends_the_drive(s: DriveV)
    requires
        s.at is React,
        s.actions.len() == 0,
        s.entry >= s.entries.len(),
    ensures
        s.stopped ==> drove(s, DriveReply::Proceed).1 == DriveAskV::Finished && drove(
            s,
            DriveReply::Proceed,
        ).0.at is Finished && drove(s, DriveReply::Proceed).0.exit_reason == s.exit_reason,
        !s.stopped ==> drove(s, DriveReply::Proceed).1 == DriveAskV::Clock && drove(
            s,
            DriveReply::Proceed,
        ).0.at is AwaitClock,
{
}

/// A transport that fails while a response is awaited ends the drive with what
/// failed.
pub proof fn law_a_broken_transport_ends_the_drive(s: DriveV, e: String)
    requires
        s.at is AwaitInit || s.at is AwaitPrompt || s.at is AwaitEvents || s.at is AwaitAction,
    ensures
        drove(s, DriveReply::Closed).0.failure == Some("server closed the stream mid-drive"@),
        drove(s, DriveReply::WriteFailed(e)).0.failure == Some("coach write: "@ + e@),
        drove(s, DriveReply::FlushFailed(e)).0.failure == Some("coach flush: "@ + e@),
        drove(s, DriveReply::ReadFailed(e)).0.failure == Some("coach read: "@ + e@),
        drove(s, DriveReply::Closed).0.at is Finished,
        drove(s, DriveReply::WriteFailed(e)).1 == DriveAskV::Finished,
{
}

} // verus!
