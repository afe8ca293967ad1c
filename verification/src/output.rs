//! Machine-output discipline: structured output goes to one sink clean, human
//! logs go to the other, a non-terminal stdout defaults to JSON, and long runs
//! stream one JSON event per line: `started`, then `result` per persisted
//! cell, then `completed`, or `error` on an abort.
use vstd::prelude::*;
use vstd::string::StringExecFns;

use crate::json::{json_pretty_text, json_text, Json};
#[allow(unused_imports)]
use crate::json::{json_pretty_text_of, json_text_of, JsonV};
use crate::text::dec_u64;
#[allow(unused_imports)]
use crate::text::dec;

verus! {

/// How results are rendered.
#[derive(Clone, Copy, Debug, PartialEq, Eq, Structural)]
pub enum OutputFormat {
    Text,
    Json,
}

/// Resolve the output format: an explicit request wins; otherwise a
/// non-terminal stdout (a pipe, a harness) gets JSON and an interactive
/// terminal gets text.
pub fn resolve_format(explicit: Option<OutputFormat>, stdout_is_tty: bool) -> (out: OutputFormat)
    ensures
        out == match explicit {
            Some(format) => format,
            None => if stdout_is_tty {
                OutputFormat::Text
            } else {
                OutputFormat::Json
            },
        },
{
    match explicit {
        Some(format) => format,
        None => if stdout_is_tty {
            OutputFormat::Text
        } else {
            OutputFormat::Json
        },
    }
}

/// One event on the long-run stream.
#[derive(Debug, PartialEq, Eq)]
pub enum RunEvent {
    /// The run began; the total planned units of work, when known.
    Started { run: String, total: Option<u64> },
    /// One unit of work finished, with its structured result.
    Result { run: String, payload: Json },
    /// The run finished, with its final structured result.
    Completed { run: String, payload: Json },
    /// The run failed; the message is the operator-facing reason.
    Error { run: String, message: String },
}

/// A text as a JSON string.
pub open spec fn quoted(text: Seq<char>) -> Seq<char> {
    json_text_of(JsonV::Text(text))
}

/// The start of an event's line: its kind and its run.
pub open spec fn event_head(kind: Seq<char>, run: Seq<char>) -> Seq<char> {
    "{\"event\":\""@ + kind + "\",\"run\":"@ + quoted(run)
}

/// The line that carries an event: one JSON object, tagged by its kind.
pub open spec fn event_text(event: RunEvent) -> Seq<char> {
    match event {
        RunEvent::Started { run, total } => match total {
            Some(n) => event_head("started"@, run@) + ",\"total\":"@ + dec(n as nat) + "}"@,
            None => event_head("started"@, run@) + "}"@,
        },
        RunEvent::Result { run, payload } => event_head("result"@, run@) + ",\"payload\":"@
            + json_text_of(payload@) + "}"@,
        RunEvent::Completed { run, payload } => event_head("completed"@, run@) + ",\"payload\":"@
            + json_text_of(payload@) + "}"@,
        RunEvent::Error { run, message } => event_head("error"@, run@) + ",\"message\":"@ + quoted(
            message@,
        ) + "}"@,
    }
}

fn quote(text: &String) -> (out: String)
    ensures
        out@ == quoted(text@),
{
    json_text(&Json::Text(text.clone()))
}

fn head(kind: &str, run: &String) -> (out: String)
    ensures
        out@ == event_head(kind@, run@),
{
    let mut out: String = "{\"event\":\"".to_string();
    out.append(kind);
    out.append("\",\"run\":");
    out.append(quote(run).as_str());
    out
}

/// The line that carries an event.
pub fn event_line(event: &RunEvent) -> (out: String)
    ensures
        out@ == event_text(*event),
{
    match event {
        RunEvent::Started { run, total } => {
            let mut out: String = head("started", run);
            match total {
                Some(n) => {
                    out.append(",\"total\":");
                    out.append(dec_u64(*n).as_str());
                },
                None => {},
            }
            out.append("}");
            out
        },
        RunEvent::Result { run, payload } => {
            let mut out: String = head("result", run);
            out.append(",\"payload\":");
            out.append(json_text(payload).as_str());
            out.append("}");
            out
        },
        RunEvent::Completed { run, payload } => {
            let mut out: String = head("completed", run);
            out.append(",\"payload\":");
            out.append(json_text(payload).as_str());
            out.append("}");
            out
        },
        RunEvent::Error { run, message } => {
            let mut out: String = head("error", run);
            out.append(",\"message\":");
            out.append(quote(message).as_str());
            out.append("}");
            out
        },
    }
}

/// A pair of sinks that keeps the stream discipline: events and results to
/// `out`, logs to `err`. Nothing here ever writes a log line to `out`.
#[derive(Debug, PartialEq, Eq)]
pub struct MachineOutput {
    pub out: String,
    pub err: String,
}

impl MachineOutput {
    /// A machine output over what the sinks already hold.
    pub fn new(out: String, err: String) -> (output: Self)
        ensures
            output.out@ == out@,
            output.err@ == err@,
    {
        MachineOutput { out, err }
    }

    /// Emit one event to the structured stream.
    pub fn event(&mut self, event: &RunEvent)
        ensures
            final(self).out@ == old(self).out@ + event_text(*event) + "\n"@,
            final(self).err@ == old(self).err@,
    {
        let line: String = event_line(event);
        self.out.append(line.as_str());
        self.out.append("\n");
    }

    /// Emit a final structured result document to the structured stream.
    pub fn result(&mut self, value: &Json)
        ensures
            final(self).out@ == old(self).out@ + json_pretty_text_of(value@) + "\n"@,
            final(self).err@ == old(self).err@,
    {
        let text: String = json_pretty_text(value);
        self.out.append(text.as_str());
        self.out.append("\n");
    }

    /// Emit a human log line: always to the log sink, never to the stream.
    pub fn log(&mut self, message: &str)
        ensures
            final(self).out@ == old(self).out@,
            final(self).err@ == old(self).err@ + message@ + "\n"@,
    {
        self.err.append(message);
        self.err.append("\n");
    }
}

} // verus!
