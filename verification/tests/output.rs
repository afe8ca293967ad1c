use localbench::json::Json;
use localbench::output::{event_line, resolve_format, MachineOutput, OutputFormat, RunEvent};

fn json(text: &str) -> Json {
    Json::read(text).unwrap()
}

#[test]
fn non_tty_defaults_to_json_and_an_explicit_choice_wins() {
    assert_eq!(resolve_format(None, false), OutputFormat::Json);
    assert_eq!(resolve_format(None, true), OutputFormat::Text);
    assert_eq!(
        resolve_format(Some(OutputFormat::Text), false),
        OutputFormat::Text
    );
    assert_eq!(
        resolve_format(Some(OutputFormat::Json), true),
        OutputFormat::Json
    );
}

#[test]
fn no_log_line_contaminates_position_zero_of_the_stream() {
    let mut output = MachineOutput::new(String::new(), String::new());
    output.log("starting the sweep (human noise)");
    output.event(&RunEvent::Started {
        run: "sweep-1".to_string(),
        total: Some(2),
    });
    output.log("cell 1 measured");
    output.event(&RunEvent::Result {
        run: "sweep-1".to_string(),
        payload: json(r#"{ "cell": 1, "solved": true }"#),
    });
    output.event(&RunEvent::Completed {
        run: "sweep-1".to_string(),
        payload: json(r#"{ "solved": 1, "total": 2 }"#),
    });
    // Every stdout line parses as JSON from position 0: the golden rule.
    for (i, line) in output.out.lines().enumerate() {
        let value: serde_json::Value = serde_json::from_str(line)
            .unwrap_or_else(|e| panic!("stdout line {i} is not clean JSON: {e}: {line}"));
        assert!(value.get("event").is_some());
    }
    assert_eq!(output.out.lines().count(), 3);
    // The human noise all landed on stderr.
    assert!(output.err.contains("human noise"));
    assert!(!output.out.contains("human noise"));
}

#[test]
fn the_event_stream_carries_the_four_kinds() {
    let events = [
        RunEvent::Started {
            run: "r".to_string(),
            total: None,
        },
        RunEvent::Result {
            run: "r".to_string(),
            payload: json("{}"),
        },
        RunEvent::Completed {
            run: "r".to_string(),
            payload: json("{}"),
        },
        RunEvent::Error {
            run: "r".to_string(),
            message: "docker wedged".to_string(),
        },
    ];
    let kinds: Vec<String> = events
        .iter()
        .map(|e| json(&event_line(e)).text_at("event").unwrap())
        .collect();
    assert_eq!(kinds, ["started", "result", "completed", "error"]);
    // A consumer can parse the stream back.
    let back = json(&event_line(&events[3]));
    assert_eq!(back.text_at("run"), Some("r".to_string()));
    assert_eq!(back.text_at("message"), Some("docker wedged".to_string()));
}

#[test]
fn event_lines_keep_their_field_order_and_escape_their_texts() {
    assert_eq!(
        event_line(&RunEvent::Started {
            run: "a \"quoted\"\nrun".to_string(),
            total: Some(3),
        }),
        "{\"event\":\"started\",\"run\":\"a \\\"quoted\\\"\\nrun\",\"total\":3}"
    );
    assert_eq!(
        event_line(&RunEvent::Result {
            run: "r".to_string(),
            payload: json(r#"{"b":[1,null],"a":-2}"#),
        }),
        r#"{"event":"result","run":"r","payload":{"a":-2,"b":[1,null]}}"#
    );
}

#[test]
fn a_result_document_is_indented_and_stays_on_the_stream() {
    let mut output = MachineOutput::new("before\n".to_string(), String::new());
    output.result(&json(r#"{"ready":true}"#));
    assert_eq!(output.out, "before\n{\n  \"ready\": true\n}\n");
    assert_eq!(output.err, "");
}
