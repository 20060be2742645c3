use serde_json::Value;
use slide_creator::config::AppConfig;
use slide_creator::realtime::SessionOptions;
use slide_creator::calls::ToolCall;
use slide_creator::session::{
    admission, build_request, build_result, build_slides_tool, error_message, frame_text, tagged,
    tool_registration, Effect, SessionEvent, SessionState, BASE_INSTRUCTIONS, CONFIRMATION, GREETING,
};

fn json(text: &str) -> Value {
    serde_json::from_str(text).unwrap()
}

#[test]
fn how_a_session_is_opened() {
    let o = SessionOptions { voice: "alloy", instructions: "talk", reasoning_effort: "" };
    assert_eq!(
        o.to_session_update(),
        json(
            r#"{"type": "session.update", "session": {
                "modalities": ["audio", "text"], "voice": "alloy", "instructions": "talk",
                "input_audio_format": "pcm16", "output_audio_format": "pcm16",
                "turn_detection": null}}"#
        )
    );
    let o = SessionOptions { voice: "v", instructions: "i", reasoning_effort: "low" };
    assert_eq!(o.to_session_update()["session"]["reasoning"], json(r#"{"effort": "low"}"#));
}

#[test]
fn sessions_are_refused_without_settings() {
    assert_eq!(
        admission(None).unwrap(),
        json(r#"{"type": "error", "error": {"code": "config", "message": "config missing"}}"#)
    );
    let mut c = AppConfig::default();
    assert_eq!(admission(Some(&c)).unwrap()["error"]["message"], "config incomplete");
    c.api_key = "k".into();
    assert!(admission(Some(&c)).is_none());
    assert_eq!(error_message("a", "b")["error"]["code"], "a");
}

#[test]
fn one_response_at_a_time() {
    let mut s = SessionState::default();
    assert_eq!(s.request_response(None).unwrap(), json(r#"{"type": "response.create"}"#));
    assert!(s.request_response(Some("x")).is_none());
    assert!(s.on_upstream_event(&json(r#"{"type": "response.done"}"#)).is_none());
    assert_eq!(
        s.request_response(Some("x")).unwrap(),
        json(r#"{"type": "response.create", "response": {"instructions": "x"}}"#)
    );
    s.on_upstream_event(&json(r#"{"type": "response.cancelled"}"#));
    assert!(!s.response_in_flight);
    s.on_upstream_event(&json(r#"{"type": "response.created"}"#));
    assert!(s.response_in_flight);
}

#[test]
fn what_the_browser_may_send() {
    let mut s = SessionState::default();
    assert!(s.on_client_message("{").is_none());
    assert!(s.on_client_message(r#"{"type": "session.delete"}"#).is_none());
    assert!(s.on_client_message(r#"{"a": 1}"#).is_none());
    for t in [
        "input_audio_buffer.append",
        "input_audio_buffer.commit",
        "input_audio_buffer.clear",
        "conversation.item.create",
        "session.update",
    ] {
        let raw = format!(r#"{{"type": "{t}", "x": [1]}}"#);
        assert_eq!(s.on_client_message(&raw).unwrap(), json(&raw));
        assert!(!s.response_in_flight);
    }
    let sent = s
        .on_client_event(json(
            r#"{"type": "response.create", "response": {"instructions": "go", "tools": []}}"#,
        ))
        .unwrap();
    assert_eq!(sent, json(r#"{"type": "response.create", "response": {"instructions": "go"}}"#));
    assert!(s.on_client_event(json(r#"{"type": "response.create"}"#)).is_none());
    let cancel = r#"{"type": "response.cancel"}"#;
    assert_eq!(s.on_client_message(cancel).unwrap(), json(cancel));
    assert!(!s.response_in_flight);
    assert_eq!(
        s.on_client_event(json(r#"{"type": "response.create", "response": 5}"#)).unwrap(),
        json(r#"{"type": "response.create"}"#)
    );
}

#[test]
fn what_the_model_asks_for() {
    let mut s = SessionState::default();
    let call = s
        .on_upstream_event(&json(
            r#"{"type": "response.function_call_arguments.done", "call_id": "c", "name": "n",
                "arguments": "{\"instruction\": \"x\"}"}"#,
        ))
        .unwrap();
    assert_eq!((call.id.as_str(), call.name.as_str()), ("c", "n"));
    assert_eq!(call.args["instruction"], "x");
    let call = s
        .on_upstream_event(&json(
            r#"{"type": "response.function_call_arguments.done", "function": {"name": "m"},
                "arguments": "oops"}"#,
        ))
        .unwrap();
    assert_eq!((call.id.as_str(), call.name.as_str()), ("", "m"));
    assert_eq!(call.args, json("{}"));
    assert!(s.on_upstream_event(&json(r#"{"type": "other"}"#)).is_none());
}

#[test]
fn a_build_is_acknowledged_at_once() {
    let args = json(&format!(r#"{{"instruction": "  {}  "}}"#, "x".repeat(150)));
    let call = ToolCall { id: "c1".into(), name: "build_slides".into(), args };
    let b = build_request(&call).unwrap();
    assert_eq!(b.instruction, "x".repeat(150));
    assert_eq!(b.pending["type"], "ui.build_pending");
    assert_eq!(b.pending["call_id"], "c1");
    assert_eq!(b.pending["instruction"], "x".repeat(140));
    assert_eq!(b.acknowledgement["type"], "conversation.item.create");
    let item = &b.acknowledgement["item"];
    assert_eq!(item["type"], "function_call_output");
    assert_eq!(item["call_id"], "c1");
    assert_eq!(
        item["output"],
        r#"{"note":"Building the deck now; result arrives as [BUILD RESULT].","status":"pending"}"#
    );
    let other = ToolCall { id: "c1".into(), name: "other".into(), args: json("{}") };
    assert!(build_request(&other).is_none());
    let nameless = ToolCall { id: "".into(), name: "build_slides".into(), args: json("{}") };
    assert!(build_request(&nameless).is_none());
}

#[test]
fn a_build_is_reported() {
    let (browser, model) = build_result("c1", "Done.");
    assert_eq!(
        browser,
        json(r#"{"type": "ui.build_resolved", "call_id": "c1", "summary": "Done."}"#)
    );
    assert_eq!(
        model,
        json(
            r#"{"type": "conversation.item.create", "item": {"type": "message", "role": "system",
                "content": [{"type": "input_text", "text": "[BUILD RESULT] Done."}]}}"#
        )
    );
}

#[test]
fn the_tool_is_registered() {
    let t = build_slides_tool();
    assert_eq!(t["name"], "build_slides");
    assert_eq!(t["parameters"]["required"], json(r#"["instruction"]"#));
    let r = tool_registration();
    assert_eq!(r["type"], "session.update");
    assert_eq!(r["session"]["tools"][0], t);
    assert_eq!(r["session"]["tool_choice"], "auto");
    assert_eq!(r["session"]["input_audio_transcription"]["model"], "whisper-1");
    assert!(BASE_INSTRUCTIONS.starts_with("You are a friendly, fast voice assistant"));
    assert!(GREETING.starts_with("Greet the user"));
    assert!(CONFIRMATION.starts_with("Confirm the slide change"));
}

#[test]
fn payloads_are_tagged() {
    assert_eq!(
        tagged("ui.deck_update", &json(r#"{"deck": 1, "html": "x"}"#)),
        json(r#"{"type": "ui.deck_update", "deck": 1, "html": "x"}"#)
    );
    assert_eq!(
        tagged("ui.slide_status", &json(r#"{"type": "mine", "a": [1]}"#)),
        json(r#"{"type": "mine", "a": [1]}"#)
    );
    assert_eq!(tagged("t", &json("5")), json(r#"{"type": "t"}"#));
}

fn told(effects: Vec<Effect>) -> Vec<String> {
    effects
        .into_iter()
        .map(|e| match e {
            Effect::ToModel(v) => format!("model {}", v["type"].as_str().unwrap()),
            Effect::ToBrowser(v) => format!("browser {}", v["type"].as_str().unwrap()),
            Effect::Build(id, t) => format!("build {id} {t}"),
            Effect::Close => "close".to_string(),
        })
        .collect()
}

#[test]
fn a_session_from_end_to_end() {
    let mut s = SessionState::default();
    assert_eq!(
        told(s.on_event(SessionEvent::Opened)),
        vec!["model session.update", "model response.create"]
    );
    let busy = r#"{"type": "response.create"}"#.to_string();
    assert!(told(s.on_event(SessionEvent::Client(busy.clone()))).is_empty());
    let evt = r#"{"type": "response.done"}"#.to_string();
    assert_eq!(told(s.on_event(SessionEvent::Upstream(evt))), vec!["browser response.done"]);
    assert_eq!(
        told(s.on_event(SessionEvent::Client(busy))),
        vec!["model response.create"]
    );
    let call = json(
        r#"{"type": "response.function_call_arguments.done", "call_id": "c1",
            "name": "build_slides", "arguments": "{\"instruction\": \" five slides \"}"}"#,
    );
    assert_eq!(
        told(s.on_event(SessionEvent::Upstream(call.to_string()))),
        vec![
            "browser response.function_call_arguments.done",
            "browser ui.build_pending",
            "model conversation.item.create",
            "build c1 five slides"
        ]
    );
    let over = SessionEvent::Built("c1".to_string(), "Done.".to_string());
    assert_eq!(
        told(s.on_event(over)),
        vec!["browser ui.build_resolved", "model conversation.item.create"]
    );
    s.on_event(SessionEvent::Upstream(r#"{"type": "response.cancelled"}"#.to_string()));
    let over = SessionEvent::Built("c2".to_string(), "Done.".to_string());
    assert_eq!(
        told(s.on_event(over)),
        vec![
            "browser ui.build_resolved",
            "model conversation.item.create",
            "model response.create"
        ]
    );
    let other = json(
        r#"{"type": "response.function_call_arguments.done", "call_id": "c3", "name": "other"}"#,
    );
    assert_eq!(told(s.on_event(SessionEvent::Upstream(other.to_string()))).len(), 1);
    assert!(told(s.on_event(SessionEvent::Client("no json".to_string()))).is_empty());
    assert!(told(s.on_event(SessionEvent::Upstream("no json".to_string()))).is_empty());
}

#[test]
fn messages_of_the_model() {
    let mut s = SessionState::default();
    assert!(s.on_upstream_message("{").is_none());
    let (evt, call) = s.on_upstream_message(r#"{"type": "response.created"}"#).unwrap();
    assert_eq!(evt["type"], "response.created");
    assert!(call.is_none());
    assert!(s.response_in_flight);
    let raw = r#"{"type": "response.function_call_arguments.done", "call_id": "c", "name": "n"}"#;
    assert_eq!(s.on_upstream_message(raw).unwrap().1.unwrap().name, "n");
    assert_eq!(frame_text(&json(r#"{ "b": 1, "a": [true] }"#)), r#"{"a":[true],"b":1}"#);
}

#[test]
fn a_model_that_is_not_reached_is_told() {
    let mut s = SessionState::default();
    let mut effects = s.on_event(SessionEvent::NotReached("refused".to_string()));
    assert!(matches!(effects.pop(), Some(Effect::Close)));
    match effects.pop() {
        Some(Effect::ToBrowser(v)) => assert_eq!(
            v,
            json(
                r#"{"type": "error",
                    "error": {"code": "upstream_connect_failed", "message": "refused"}}"#
            )
        ),
        _ => panic!("not told"),
    }
    assert!(effects.is_empty());
}
