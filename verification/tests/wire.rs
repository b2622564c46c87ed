//! What is said to the server, and what is made of its answers.

use sheep::herdr::json;
use sheep::herdr::wire::{self, Fault, Heard};

fn line(text: &str) -> Option<String> {
    Some(text.to_string())
}

fn field(json: &str, key: &str) -> String {
    let value: serde_json::Value = serde_json::from_str(json).unwrap();
    value[key].as_str().unwrap_or("").to_string()
}

#[test]
fn a_request_sends_one_line_and_reads_one_reply() {
    let answer =
        line("{\"id\": \"sheep:ping\", \"result\": {\"type\": \"pong\", \"version\": \"0.8.0\"}}\n");
    let result = wire::reply("ping", &answer).unwrap();
    assert_eq!(field(&result, "type"), "pong");

    let asked = wire::request("ping", "{}");
    let sent: serde_json::Value = serde_json::from_str(&asked).unwrap();
    assert_eq!(sent["method"], "ping");
    assert!(sent.get("id").is_some(), "herdr rejects a request without an id");
    assert!(sent.get("params").is_some(), "herdr rejects a request without params");
    assert_eq!(asked.matches('\n').count(), 1, "a request is one line: {asked}");
}

#[test]
fn a_server_error_is_reported_as_an_api_error() {
    let answer = line(
        "{\"id\": \"\", \"error\": {\"code\": \"invalid_request\", \"message\": \"unknown variant\"}}\n",
    );
    let err = wire::reply("nope", &answer).unwrap_err();
    let Fault::Api(api) = &err else { panic!("a server error should keep its code: {err:?}") };
    assert_eq!(api.code, "invalid_request");
    assert!(err.text().contains("unknown variant"), "the message should survive: {}", err.text());
}

#[test]
fn a_closed_connection_is_an_error_not_a_hang() {
    let err = wire::reply("ping", &None).unwrap_err();
    assert!(
        err.text().contains("closed the connection"),
        "a server that hangs up should say so: {}",
        err.text()
    );
}

#[test]
fn a_subscription_acknowledges_then_streams_events() {
    let asked =
        wire::subscribe(&vec![wire::topic("pane.created"), wire::topic_agent_status("w1:p2")]);
    let acknowledgement =
        line("{\"id\": \"sheep:events.subscribe\", \"result\": {\"type\": \"subscription_started\"}}\n");
    assert!(wire::acknowledged(&acknowledgement).is_ok(), "the acknowledgement should be accepted");

    let first = wire::next_event(
        "{\"event\": \"pane_created\", \"data\": {\"type\": \"pane_created\", \"pane_id\": \"w1:p2\"}}\n",
    );
    let second = wire::next_event(
        "{\"event\": \"pane_agent_status_changed\", \"data\": {\"type\": \"pane_agent_status_changed\", \"pane_id\": \"w1:p2\", \"agent_status\": \"done\", \"agent\": \"goose\"}}\n",
    );
    let Heard::Event(first) = first else { panic!("the first line is an event: {first:?}") };
    let Heard::Event(second) = second else { panic!("the second line is an event: {second:?}") };

    assert_eq!(first.kind, "pane_created");
    assert_eq!(first.pane_id().as_deref(), Some("w1:p2"));
    assert_eq!(second.kind, "pane_agent_status_changed");
    assert_eq!(second.str_field("agent_status").as_deref(), Some("done"));

    // The request spells topics with dots; the events come back with underscores.
    let sent: serde_json::Value = serde_json::from_str(&asked).unwrap();
    let topics = sent["params"]["subscriptions"].as_array().unwrap();
    assert_eq!(topics[0]["type"], "pane.created");
    assert_eq!(topics[1]["type"], "pane.agent_status_changed");
    assert_eq!(topics[1]["pane_id"], "w1:p2");
}

#[test]
fn a_subscription_refuses_an_unexpected_acknowledgement() {
    let err = wire::acknowledged(&line("{\"id\": \"x\", \"result\": {\"type\": \"pong\"}}\n"))
        .unwrap_err();
    assert!(
        err.text().contains("subscription_started"),
        "the mismatch should be explicit: {}",
        err.text()
    );
}

#[test]
fn a_line_that_is_not_json_is_a_failure_and_a_blank_one_is_nothing() {
    assert!(matches!(wire::next_event("not json\n"), Heard::Failed(_)));
    assert!(matches!(wire::next_event("\n"), Heard::Nothing));
    assert!(matches!(wire::next_event("   \n"), Heard::Nothing));
    assert!(wire::reply("ping", &line("not json\n")).is_err());
    assert!(wire::reply("ping", &line("{}\n")).is_err());
}

#[test]
fn an_error_event_ends_the_stream_with_its_message() {
    let heard = wire::next_event("{\"error\": {\"code\": \"gone\", \"message\": \"went away\"}}\n");
    let Heard::Failed(why) = heard else { panic!("an error is a failure: {heard:?}") };
    assert!(why.contains("went away"), "{why}");
}

#[test]
fn numbers_texts_flags_and_lists_are_read_out_of_json() {
    let value = "{\"a\":\"x\",\"n\":7,\"b\":true,\"l\":[{\"q\":1},2]}";
    assert_eq!(json::text_at(value, "a").as_deref(), Some("x"));
    assert_eq!(json::text_at(value, "n"), None);
    assert_eq!(json::number_at(value, "n"), Some(7));
    assert_eq!(json::number_at(value, "a"), None);
    assert_eq!(json::items_at(value, "l").map(|l| l.len()), Some(2));
    assert_eq!(json::items_at(value, "a").map(|l| l.len()), None);
}

#[test]
fn the_socket_and_the_binary_come_from_the_environment() {
    assert_eq!(wire::socket_path(line("/tmp/h.sock")).as_deref(), Some("/tmp/h.sock"));
    assert_eq!(wire::socket_path(line("")), None);
    assert_eq!(wire::socket_path(None), None);
    assert_eq!(wire::herdr_bin(line("/opt/herdr")), "/opt/herdr");
    assert_eq!(wire::herdr_bin(None), "herdr");
}

#[test]
fn texts_are_quoted_and_values_are_listed() {
    let odd = "a\"b\\c/\u{8}\t\n\u{c}\r\u{1}\u{1f}\u{7f}é→";
    let asked = wire::topic_agent_status(odd);
    let quoted = "\"a\\\"b\\\\c/\\b\\t\\n\\f\\r\\u0001\\u001f\u{7f}é→\"";
    assert_eq!(
        asked,
        format!("{{\"pane_id\":{quoted},\"type\":\"pane.agent_status_changed\"}}"),
        "an object's keys stand in order"
    );
    assert_eq!(json::text_at(&asked, "pane_id").as_deref(), Some(odd), "and it reads back");

    let one = wire::topic("pane.created");
    let sent = wire::subscribe(&vec![one.clone(), " [1 , 2] ".into(), "no json".into()]);
    assert!(
        sent.contains(&format!("\"subscriptions\":[{one},[1,2],null]")),
        "compact, in order, and null for what is no value: {sent}"
    );
    assert!(wire::subscribe(&vec![]).contains("\"subscriptions\":[]"));
}
