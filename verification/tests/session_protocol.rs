use codex_monitor::rpc::{
    build_error_response, build_ok_response, build_result_response, decode_line, frame_error,
    frame_result, parse_auth_token, push_decimal, request_from_message, Request,
};
use codex_monitor::session::{
    Action, BusMessage, Connection, Event, Slot, MAX_IN_FLIGHT_RPC_PER_CONNECTION,
};
use serde_json::Value;

fn json(text: &str) -> Value {
    serde_json::from_str(text).expect("test JSON")
}

fn secured() -> Connection {
    let (connection, actions) = Connection::open(Some("secret".to_string()), 2);
    assert!(actions.is_empty());
    connection
}

fn authenticated(limit: usize) -> Connection {
    let (mut connection, _) = Connection::open(Some("secret".to_string()), limit);
    let actions = connection.on_line("{\"id\":0,\"method\":\"auth\",\"params\":{\"token\":\"secret\"}}");
    assert_eq!(actions.len(), 2);
    connection
}

fn sent(actions: &[Action]) -> Vec<String> {
    let mut lines = Vec::new();
    for action in actions {
        if let Action::Send(line) = action {
            lines.push(line.clone());
        }
    }
    lines
}

fn executed(actions: &[Action]) -> Vec<usize> {
    let mut slots = Vec::new();
    for action in actions {
        if let Action::Execute { slot, .. } = action {
            slots.push(*slot);
        }
    }
    slots
}

#[test]
fn unauthenticated_requests_are_refused() {
    let mut connection = secured();
    assert_eq!(connection.on_line("{\"method\":\"ping\"}"), vec![]);
    assert!(!connection.is_authenticated());
    assert_eq!(connection.in_flight(), 0);
    assert_eq!(
        connection.on_line("{\"id\":1,\"method\":\"ping\"}"),
        vec![Action::Send("{\"id\":1,\"error\":\"unauthorized\"}".to_string())]
    );
    assert!(!connection.is_authenticated());
    assert_eq!(connection.in_flight(), 0);
    assert_eq!(connection.backlog(), 0);
}

#[test]
fn auth_with_the_token_opens_the_gate() {
    let mut connection = secured();
    assert_eq!(
        connection.on_line("{\"id\":1,\"method\":\"auth\",\"params\":{\"token\":\"secret\"}}"),
        vec![
            Action::Send("{\"id\":1,\"result\":{\"ok\":true}}".to_string()),
            Action::StartForwarder,
        ]
    );
    assert!(connection.is_authenticated());
    assert!(connection.is_forwarding());
    assert_eq!(
        connection.on_line("{\"id\":2,\"method\":\"ping\"}"),
        vec![Action::Execute { slot: 0, method: "ping".to_string(), params: None }]
    );
    assert_eq!(connection.in_flight(), 1);
}

#[test]
fn a_wrong_token_is_refused_and_a_retry_succeeds() {
    let mut connection = secured();
    assert_eq!(
        connection.on_line("{\"id\":1,\"method\":\"auth\",\"params\":{\"token\":\"wrong\"}}"),
        vec![Action::Send("{\"id\":1,\"error\":\"invalid token\"}".to_string())]
    );
    assert!(!connection.is_authenticated());
    assert!(connection.is_open());
    assert_eq!(
        connection.on_line("{\"id\":2,\"method\":\"auth\",\"params\":{\"token\":\"secret\"}}"),
        vec![
            Action::Send("{\"id\":2,\"result\":{\"ok\":true}}".to_string()),
            Action::StartForwarder,
        ]
    );
    assert!(connection.is_authenticated());
}

#[test]
fn an_event_goes_out_as_one_line_without_id() {
    let mut connection = authenticated(2);
    let payload = "{\"type\":\"session\",\"state\":\"idle\"}";
    let actions = connection.on_bus(BusMessage::Event(payload.to_string()));
    assert_eq!(actions, vec![Action::Send(payload.to_string())]);
    let line = &sent(&actions)[0];
    assert!(json(line).get("id").is_none());
}

#[test]
fn one_request_more_than_permits_waits() {
    let limit = MAX_IN_FLIGHT_RPC_PER_CONNECTION;
    let mut connection = authenticated(limit);
    for n in 0..limit {
        let line = format!("{{\"id\":{},\"method\":\"slow\"}}", n + 1);
        assert_eq!(executed(&connection.on_line(&line)), vec![n]);
    }
    assert_eq!(connection.in_flight(), limit);
    let extra = format!("{{\"id\":{},\"method\":\"slow\"}}", limit + 1);
    assert_eq!(connection.on_line(&extra), vec![]);
    assert_eq!(connection.in_flight(), limit);
    assert_eq!(connection.backlog(), 1);
    let actions = connection.on_completion(5, Ok(json("\"done\"")));
    assert_eq!(
        actions,
        vec![
            Action::Send("{\"id\":6,\"result\":\"done\"}".to_string()),
            Action::Execute { slot: 5, method: "slow".to_string(), params: None },
        ]
    );
    assert_eq!(connection.in_flight(), limit);
    assert_eq!(connection.backlog(), 0);
    let actions = connection.on_completion(5, Ok(json("1")));
    assert_eq!(
        actions,
        vec![Action::Send(format!("{{\"id\":{},\"result\":1}}", limit + 1))]
    );
    assert_eq!(connection.in_flight(), limit - 1);
}

#[test]
fn the_permit_pool_has_thirty_two_permits() {
    assert_eq!(MAX_IN_FLIGHT_RPC_PER_CONNECTION, 32);
    let (connection, _) = Connection::open(None, MAX_IN_FLIGHT_RPC_PER_CONNECTION);
    assert_eq!(connection.limit(), 32);
}

#[test]
fn without_a_token_the_connection_starts_authenticated() {
    let (mut connection, actions) = Connection::open(None, 1);
    assert_eq!(actions, vec![Action::StartForwarder]);
    assert!(connection.is_authenticated());
    assert!(connection.is_forwarding());
    assert_eq!(
        connection.on_line("{\"id\":7,\"method\":\"auth\",\"params\":{\"token\":\"x\"}}"),
        vec![Action::Execute {
            slot: 0,
            method: "auth".to_string(),
            params: Some(json("{\"token\":\"x\"}")),
        }]
    );
}

#[test]
fn blank_and_unparsable_lines_are_passed_over() {
    let mut connection = secured();
    for line in ["", "   ", "\t\r", "not json", "{\"id\":1", "{'id':1}"] {
        assert_eq!(connection.on_line(line), vec![]);
    }
    let mut connection = authenticated(1);
    for line in ["", "   ", "not json"] {
        assert_eq!(connection.on_line(line), vec![]);
    }
    assert_eq!(connection.in_flight(), 0);
}

#[test]
fn a_line_is_trimmed_before_it_is_read() {
    let mut connection = secured();
    assert_eq!(
        sent(&connection.on_line("  {\"id\":3,\"method\":\"x\"}\r")),
        vec!["{\"id\":3,\"error\":\"unauthorized\"}".to_string()]
    );
}

#[test]
fn json_that_is_no_object_is_a_request_without_method() {
    let mut connection = secured();
    for line in ["1", "null", "[1,2]", "\"auth\""] {
        assert_eq!(connection.on_line(line), vec![]);
    }
    let mut connection = authenticated(4);
    assert_eq!(
        connection.on_line("[]"),
        vec![Action::Execute { slot: 0, method: String::new(), params: None }]
    );
}

#[test]
fn an_id_must_be_an_unsigned_integer() {
    let mut connection = secured();
    for line in [
        "{\"id\":-1,\"method\":\"x\"}",
        "{\"id\":1.5,\"method\":\"x\"}",
        "{\"id\":\"1\",\"method\":\"x\"}",
        "{\"id\":null,\"method\":\"x\"}",
    ] {
        assert_eq!(connection.on_line(line), vec![]);
    }
    assert_eq!(
        sent(&connection.on_line("{\"id\":18446744073709551615,\"method\":\"x\"}")),
        vec!["{\"id\":18446744073709551615,\"error\":\"unauthorized\"}".to_string()]
    );
    assert_eq!(
        sent(&connection.on_line("{\"id\":0,\"method\":\"x\"}")),
        vec!["{\"id\":0,\"error\":\"unauthorized\"}".to_string()]
    );
}

#[test]
fn auth_without_a_token_is_an_invalid_token() {
    let mut connection = secured();
    for line in [
        "{\"id\":1,\"method\":\"auth\"}",
        "{\"id\":1,\"method\":\"auth\",\"params\":null}",
        "{\"id\":1,\"method\":\"auth\",\"params\":{}}",
        "{\"id\":1,\"method\":\"auth\",\"params\":{\"token\":\"\"}}",
        "{\"id\":1,\"method\":\"auth\",\"params\":{\"token\":7}}",
        "{\"id\":1,\"method\":\"auth\",\"params\":{\"token\":\"Secret\"}}",
        "{\"id\":1,\"method\":\"auth\",\"params\":{\"token\":\"secret \"}}",
        "{\"id\":1,\"method\":\"auth\",\"params\":\"secret\"}",
    ] {
        assert_eq!(
            connection.on_line(line),
            vec![Action::Send("{\"id\":1,\"error\":\"invalid token\"}".to_string())]
        );
        assert!(!connection.is_authenticated());
    }
}

#[test]
fn auth_without_id_authenticates_in_silence() {
    let mut connection = secured();
    assert_eq!(
        connection.on_line("{\"method\":\"auth\",\"params\":{\"token\":\"wrong\"}}"),
        vec![]
    );
    assert!(!connection.is_authenticated());
    assert_eq!(
        connection.on_line("{\"method\":\"auth\",\"params\":{\"token\":\"secret\"}}"),
        vec![Action::StartForwarder]
    );
    assert!(connection.is_authenticated());
}

#[test]
fn the_method_name_is_compared_exactly() {
    let mut connection = secured();
    for method in ["Auth", "auth ", " auth", "AUTH", ""] {
        let line = format!("{{\"id\":1,\"method\":\"{}\",\"params\":{{\"token\":\"secret\"}}}}", method);
        assert_eq!(
            sent(&connection.on_line(&line)),
            vec!["{\"id\":1,\"error\":\"unauthorized\"}".to_string()]
        );
    }
    assert!(!connection.is_authenticated());
}

#[test]
fn an_empty_configured_token_is_not_matched_by_a_missing_one() {
    let (mut connection, actions) = Connection::open(Some(String::new()), 1);
    assert!(actions.is_empty());
    assert!(!connection.is_authenticated());
    assert_eq!(
        sent(&connection.on_line("{\"id\":1,\"method\":\"ping\"}")),
        vec!["{\"id\":1,\"error\":\"unauthorized\"}".to_string()]
    );
    assert_eq!(
        connection.on_auth(Some(4), Some("x".to_string())),
        vec![Action::Send("{\"id\":4,\"error\":\"invalid token\"}".to_string())]
    );
    assert_eq!(
        connection.on_auth(Some(5), None),
        vec![Action::Send("{\"id\":5,\"error\":\"invalid token\"}".to_string())]
    );
    for line in [
        "{\"id\":6,\"method\":\"auth\"}",
        "{\"id\":6,\"method\":\"auth\",\"params\":null}",
        "{\"id\":6,\"method\":\"auth\",\"params\":{}}",
        "{\"id\":6,\"method\":\"auth\",\"params\":{\"token\":7}}",
    ] {
        assert_eq!(
            connection.on_line(line),
            vec![Action::Send("{\"id\":6,\"error\":\"invalid token\"}".to_string())]
        );
        assert!(!connection.is_authenticated());
        assert!(!connection.is_forwarding());
    }
    assert_eq!(connection.on_line("{\"id\":7,\"method\":\"ping\"}").len(), 1);
    assert_eq!(connection.in_flight(), 0);
    assert_eq!(
        connection.on_line("{\"id\":8,\"method\":\"auth\",\"params\":{\"token\":\"\"}}"),
        vec![
            Action::Send("{\"id\":8,\"result\":{\"ok\":true}}".to_string()),
            Action::StartForwarder,
        ]
    );
    assert!(connection.is_authenticated());
}

#[test]
fn an_auth_attempt_needs_a_configured_token_and_an_open_gate() {
    let (mut connection, _) = Connection::open(None, 1);
    assert_eq!(connection.on_auth(Some(1), None), vec![]);
    assert_eq!(connection.on_auth(Some(1), Some(String::new())), vec![]);
    let (mut connection, _) = Connection::open(Some("secret".to_string()), 1);
    connection.on_disconnect();
    assert_eq!(connection.on_auth(Some(1), Some("secret".to_string())), vec![]);
    assert!(!connection.is_authenticated());
}

#[test]
fn nothing_of_the_bus_reaches_an_unauthenticated_peer() {
    let mut connection = secured();
    assert_eq!(connection.on_bus(BusMessage::Event("{}".to_string())), vec![]);
    assert_eq!(connection.on_bus(BusMessage::Lagged(3)), vec![]);
    assert!(!connection.is_forwarding());
}

#[test]
fn events_keep_their_order_and_a_gap_is_passed_over() {
    let mut connection = authenticated(1);
    let mut lines = Vec::new();
    for message in [
        BusMessage::Event("{\"n\":1}".to_string()),
        BusMessage::Event("{\"n\":2}".to_string()),
        BusMessage::Lagged(17),
        BusMessage::Event("{\"n\":20}".to_string()),
        BusMessage::Event("{\"n\":21}".to_string()),
    ] {
        lines.extend(sent(&connection.on_bus(message)));
    }
    assert_eq!(lines, vec!["{\"n\":1}", "{\"n\":2}", "{\"n\":20}", "{\"n\":21}"]);
    assert!(connection.is_forwarding());
}

#[test]
fn a_closed_bus_ends_the_forwarding() {
    let mut connection = authenticated(1);
    assert_eq!(connection.on_bus(BusMessage::Closed), vec![]);
    assert!(!connection.is_forwarding());
    assert_eq!(connection.on_bus(BusMessage::Event("{}".to_string())), vec![]);
    assert_eq!(
        connection.on_disconnect(),
        vec![Action::CloseOutbound, Action::AbortWriter]
    );
}

#[test]
fn teardown_closes_the_queue_then_cancels_forwarder_and_writer() {
    let mut connection = authenticated(1);
    assert_eq!(
        connection.on_disconnect(),
        vec![Action::CloseOutbound, Action::AbortForwarder, Action::AbortWriter]
    );
    assert!(!connection.is_open());
    assert!(!connection.is_forwarding());
    assert_eq!(connection.on_disconnect(), vec![]);
    assert_eq!(connection.on_line("{\"id\":1,\"method\":\"x\"}"), vec![]);
    assert_eq!(connection.on_bus(BusMessage::Event("{}".to_string())), vec![]);
}

#[test]
fn teardown_before_auth_has_no_forwarder_to_cancel() {
    let mut connection = secured();
    assert_eq!(
        connection.on_disconnect(),
        vec![Action::CloseOutbound, Action::AbortWriter]
    );
    assert_eq!(
        connection.on_line("{\"id\":1,\"method\":\"auth\",\"params\":{\"token\":\"secret\"}}"),
        vec![]
    );
    assert!(!connection.is_authenticated());
}

#[test]
fn handlers_that_finish_after_teardown_are_not_answered() {
    let mut connection = authenticated(1);
    assert_eq!(executed(&connection.on_line("{\"id\":1,\"method\":\"a\"}")), vec![0]);
    assert_eq!(connection.on_line("{\"id\":2,\"method\":\"b\"}"), vec![]);
    connection.on_disconnect();
    assert_eq!(
        connection.on_completion(0, Ok(json("true"))),
        vec![Action::Execute { slot: 0, method: "b".to_string(), params: None }]
    );
    assert_eq!(connection.on_completion(0, Err("late".to_string())), vec![]);
    assert_eq!(connection.in_flight(), 0);
}

#[test]
fn a_request_without_id_runs_and_is_never_answered() {
    let mut connection = authenticated(1);
    assert_eq!(
        connection.on_line("{\"method\":\"notify\",\"params\":[1,2]}"),
        vec![Action::Execute {
            slot: 0,
            method: "notify".to_string(),
            params: Some(json("[1,2]")),
        }]
    );
    assert_eq!(connection.on_completion(0, Ok(json("{\"big\":\"result\"}"))), vec![]);
    assert_eq!(connection.on_line("{\"method\":\"notify\"}").len(), 1);
    assert_eq!(connection.on_completion(0, Err("failed".to_string())), vec![]);
    assert_eq!(connection.in_flight(), 0);
}

#[test]
fn a_response_is_sent_once() {
    let mut connection = authenticated(2);
    connection.on_line("{\"id\":9,\"method\":\"a\"}");
    assert_eq!(
        connection.on_completion(0, Ok(json("[1]"))),
        vec![Action::Send("{\"id\":9,\"result\":[1]}".to_string())]
    );
    assert_eq!(connection.on_completion(0, Ok(json("[1]"))), vec![]);
    assert_eq!(connection.on_completion(1, Ok(json("[1]"))), vec![]);
    assert_eq!(connection.on_completion(2, Ok(json("[1]"))), vec![]);
    assert_eq!(connection.on_completion(usize::MAX, Err("x".to_string())), vec![]);
}

#[test]
fn responses_follow_completion_not_arrival() {
    let mut connection = authenticated(3);
    connection.on_line("{\"id\":1,\"method\":\"a\"}");
    connection.on_line("{\"id\":2,\"method\":\"b\"}");
    connection.on_line("{\"id\":3,\"method\":\"c\"}");
    assert_eq!(
        sent(&connection.on_completion(2, Ok(json("3")))),
        vec!["{\"id\":3,\"result\":3}"]
    );
    assert_eq!(
        sent(&connection.on_completion(0, Err("boom".to_string()))),
        vec!["{\"id\":1,\"error\":\"boom\"}"]
    );
    assert_eq!(
        executed(&connection.on_line("{\"id\":4,\"method\":\"d\"}")),
        vec![0]
    );
    assert_eq!(
        sent(&connection.on_completion(1, Ok(json("null")))),
        vec!["{\"id\":2,\"result\":null}"]
    );
}

#[test]
fn waiting_requests_run_oldest_first() {
    let mut connection = authenticated(1);
    connection.on_line("{\"id\":1,\"method\":\"a\"}");
    connection.on_line("{\"id\":2,\"method\":\"b\"}");
    connection.on_line("{\"method\":\"c\"}");
    connection.on_line("{\"id\":4,\"method\":\"d\"}");
    assert_eq!(connection.backlog(), 3);
    let mut order = Vec::new();
    let mut lines = Vec::new();
    for _ in 0..4 {
        let actions = connection.on_completion(0, Ok(json("0")));
        lines.extend(sent(&actions));
        for action in actions {
            if let Action::Execute { method, .. } = action {
                order.push(method);
            }
        }
        assert!(connection.in_flight() <= 1);
    }
    assert_eq!(order, vec!["b", "c", "d"]);
    assert_eq!(
        lines,
        vec!["{\"id\":1,\"result\":0}", "{\"id\":2,\"result\":0}", "{\"id\":4,\"result\":0}"]
    );
}

#[test]
fn a_pool_without_permits_only_queues() {
    let mut connection = authenticated(0);
    for _ in 0..5 {
        assert_eq!(connection.on_line("{\"id\":1,\"method\":\"a\"}"), vec![]);
    }
    assert_eq!(connection.backlog(), 5);
    assert_eq!(connection.in_flight(), 0);
    assert_eq!(connection.on_completion(0, Ok(json("0"))), vec![]);
}

#[test]
fn error_messages_are_escaped() {
    assert_eq!(
        build_error_response(Some(1), "a \"quoted\"\nline \\ tab\t"),
        Some("{\"id\":1,\"error\":\"a \\\"quoted\\\"\\nline \\\\ tab\\t\"}".to_string())
    );
    assert_eq!(
        build_error_response(Some(2), "snow \u{2603}"),
        Some("{\"id\":2,\"error\":\"snow \u{2603}\"}".to_string())
    );
    assert_eq!(build_error_response(None, "anything"), None);
    let line = build_error_response(Some(3), "\u{1}").expect("a response");
    assert_eq!(json(&line), json("{\"id\":3,\"error\":\"\\u0001\"}"));
}

#[test]
fn result_responses_carry_the_value() {
    assert_eq!(
        build_result_response(Some(12), &json("{\"b\": [1, 2.5, null], \"a\": \"x\"}")),
        Some("{\"id\":12,\"result\":{\"a\":\"x\",\"b\":[1,2.5,null]}}".to_string())
    );
    assert_eq!(build_result_response(None, &json("1")), None);
    assert_eq!(
        build_ok_response(Some(1)),
        Some("{\"id\":1,\"result\":{\"ok\":true}}".to_string())
    );
    assert_eq!(build_ok_response(None), None);
}

#[test]
fn responses_are_json_with_the_id_and_one_more_member() {
    for id in [0u64, 9, 10, 99, 100, 1234567890, u64::MAX] {
        let line = build_error_response(Some(id), "no").expect("a response");
        let value = json(&line);
        assert_eq!(value.get("id").and_then(|v| v.as_u64()), Some(id));
        assert_eq!(value.get("error").and_then(|v| v.as_str()), Some("no"));
        assert_eq!(value.as_object().map(|o| o.len()), Some(2));
        let line = build_result_response(Some(id), &json("[]")).expect("a response");
        let value = json(&line);
        assert_eq!(value.get("id").and_then(|v| v.as_u64()), Some(id));
        assert_eq!(value.get("result"), Some(&json("[]")));
    }
}

#[test]
fn a_payload_that_cannot_be_written_is_reported() {
    assert_eq!(
        frame_result(7, None),
        "{\"id\":7,\"error\":\"serialization failed\"}"
    );
    assert_eq!(
        frame_error(7, None),
        "{\"id\":7,\"error\":\"serialization failed\"}"
    );
    assert_eq!(frame_result(7, Some("[1]".to_string())), "{\"id\":7,\"result\":[1]}");
    assert_eq!(frame_error(7, Some("\"x\"".to_string())), "{\"id\":7,\"error\":\"x\"}");
}

#[test]
fn numbers_are_written_in_decimal() {
    for (n, text) in [
        (0u64, "0"),
        (7, "7"),
        (10, "10"),
        (109, "109"),
        (1000, "1000"),
        (18446744073709551615, "18446744073709551615"),
    ] {
        let mut out = vec!['#'];
        push_decimal(&mut out, n);
        let written: String = out.into_iter().collect();
        assert_eq!(written, format!("#{}", text));
    }
}

#[test]
fn requests_are_read_member_by_member() {
    assert_eq!(
        decode_line(" {\"id\": 5, \"method\": \"m\", \"params\": {\"a\": 1}, \"extra\": true} "),
        Some(Request { id: Some(5), method: "m".to_string(), params: Some(json("{\"a\":1}")) })
    );
    assert_eq!(
        decode_line("{\"method\": 5, \"params\": null}"),
        Some(Request { id: None, method: String::new(), params: Some(Value::Null) })
    );
    assert_eq!(
        decode_line("{}"),
        Some(Request { id: None, method: String::new(), params: None })
    );
    assert_eq!(decode_line(" \n"), None);
    assert_eq!(decode_line("{"), None);
    assert_eq!(
        request_from_message(&json("{\"id\": 1, \"method\": \"a\"}")),
        Request { id: Some(1), method: "a".to_string(), params: None }
    );
}

#[test]
fn auth_token_is_the_string_member_token() {
    assert_eq!(parse_auth_token(&Some(json("{\"token\":\"t\"}"))), Some("t".to_string()));
    assert_eq!(parse_auth_token(&Some(json("{\"token\":\"\"}"))), Some(String::new()));
    assert_eq!(parse_auth_token(&Some(json("{\"token\":1}"))), None);
    assert_eq!(parse_auth_token(&Some(json("{\"Token\":\"t\"}"))), None);
    assert_eq!(parse_auth_token(&Some(json("[\"t\"]"))), None);
    assert_eq!(parse_auth_token(&None), None);
}

#[test]
fn step_takes_each_kind_of_event() {
    let (mut connection, _) = Connection::open(Some("secret".to_string()), 1);
    let line = "{\"id\":1,\"method\":\"auth\",\"params\":{\"token\":\"secret\"}}".to_string();
    assert_eq!(connection.step(Event::Line(line)).len(), 2);
    assert_eq!(
        executed(&connection.step(Event::Line("{\"id\":2,\"method\":\"m\"}".to_string()))),
        vec![0]
    );
    assert_eq!(
        connection.step(Event::Bus(BusMessage::Event("{\"e\":1}".to_string()))),
        vec![Action::Send("{\"e\":1}".to_string())]
    );
    assert_eq!(
        connection.step(Event::Completed { slot: 0, outcome: Err("no such method".to_string()) }),
        vec![Action::Send("{\"id\":2,\"error\":\"no such method\"}".to_string())]
    );
    assert_eq!(connection.step(Event::Disconnected).len(), 3);
}

#[test]
fn in_flight_never_exceeds_the_limit() {
    let limit = 3;
    let mut connection = authenticated(limit);
    let mut seed: u64 = 0x2545f4914f6cdd1d;
    for round in 0..2000u64 {
        seed ^= seed << 13;
        seed ^= seed >> 7;
        seed ^= seed << 17;
        let actions = match seed % 3 {
            0 => connection.on_line(&format!("{{\"id\":{},\"method\":\"m\"}}", round)),
            1 => connection.on_completion((seed / 3 % 4) as usize, Ok(Value::Null)),
            _ => connection.on_bus(BusMessage::Lagged(1)),
        };
        assert!(sent(&actions).len() <= 1);
        assert!(executed(&actions).len() <= 1);
        assert!(connection.in_flight() <= limit);
        assert!(connection.backlog() == 0 || connection.in_flight() == limit);
    }
}

#[test]
fn slots_are_free_or_busy() {
    assert_ne!(Slot::Free, Slot::Busy { id: None });
    assert_ne!(Slot::Busy { id: Some(1) }, Slot::Busy { id: None });
}
