use serde_json::Value;
use slide_creator::agent::{ids_can_be_minted, summarize, SlideAgent};
use slide_creator::config::{AppConfig, Provider};
use slide_creator::deck::{Deck, Image, Slide};
use slide_creator::images::ImageStore;
use slide_creator::requests::{
    begin_image, caption_call, caption_text, chat_call, chat_message, finish_image, image_call,
    image_data_uri, keep_caption, keep_image, keep_message, HttpReply,
};
use slide_creator::calls::read_calls;
use slide_creator::placing::{inject_library_images, prune_unused_library_images};
use slide_creator::rounds::{handle_read_reference, progress, Action, Build};
use slide_creator::tools::tools;

fn json(text: &str) -> Value {
    serde_json::from_str(text).unwrap()
}

fn deck() -> Deck {
    let mut d = Deck::new();
    let id = d.new_id();
    d.slides.push(Slide { id, title: "One".into(), html: "<p>1</p>".into() });
    d.title = "Talk".into();
    d
}

/// A message of the model with these tool calls, each a name and its arguments.
fn message(calls: &[(&str, &str)]) -> Value {
    let list: Vec<Value> = calls
        .iter()
        .enumerate()
        .map(|(i, (name, args))| {
            let quoted = Value::from(*args).to_string();
            json(&format!(
                r#"{{"id": "c{i}", "function": {{"name": "{name}", "arguments": {quoted}}}}}"#
            ))
        })
        .collect();
    json(&format!(
        r#"{{"role": "assistant", "content": null, "tool_calls": {}}}"#,
        Value::Array(list)
    ))
}

fn start(d: Deck, has_library: bool, manifest: Option<&str>) -> Build {
    Build::new(d, "SYSTEM", "do it", has_library, manifest.map(|m| m.to_string()), &Vec::new())
}

fn result_at(b: &Build, i: usize) -> Value {
    json(b.messages[i]["content"].as_str().unwrap())
}

#[test]
fn a_build_begins_with_the_deck_and_the_instruction() {
    let b = start(deck(), true, Some("MANIFEST"));
    assert_eq!(b.messages.len(), 2);
    assert_eq!(b.messages[0], json(r#"{"role": "system", "content": "SYSTEM"}"#));
    let text = b.messages[1]["content"].as_str().unwrap();
    assert_eq!(
        text,
        format!(
            "[CURRENT DECK — JSON, slides carry stable ids]\n{}\n\nMANIFEST\n\n[INSTRUCTION]\ndo it\n\nApply it with the smallest set of tool calls. Reference slides by id.",
            deck().to_model_json()
        )
    );
    assert!(b.offers_refs);
    assert!(!start(deck(), true, None).offers_refs);
}

#[test]
fn a_message_without_calls_ends_the_build() {
    let mut b = start(deck(), true, None);
    assert!(matches!(b.on_reply(message(&[])), Action::Done));
    assert!(b.applied.is_empty());
    let mut b = start(deck(), true, None);
    assert!(matches!(b.on_reply(json(r#"{"role": "assistant"}"#)), Action::Done));
}

#[test]
fn calls_are_answered_in_order() {
    let mut b = start(deck(), true, None);
    let action = b.on_reply(message(&[
        ("set_title", r#"{"title": "New"}"#),
        ("fly", "{}"),
        ("add_slide", "not json"),
    ]));
    assert!(matches!(action, Action::Chat));
    assert_eq!(b.working.title, "New");
    assert_eq!(b.working.slides.len(), 2);
    assert_eq!(
        b.applied,
        vec!["renamed deck to \u{201c}New\u{201d}", "added slide \u{201c}\u{201d}"]
    );
    assert_eq!(b.messages.len(), 6);
    for (i, id) in ["c0", "c1", "c2"].iter().enumerate() {
        assert_eq!(b.messages[3 + i]["role"], "tool");
        assert_eq!(b.messages[3 + i]["tool_call_id"], *id);
    }
    assert_eq!(result_at(&b, 4)["error"], "unknown tool: fly");
    assert!(matches!(b.on_reply(message(&[])), Action::Done));
}

#[test]
fn the_rounds_are_limited() {
    let mut b = start(deck(), true, None);
    for _ in 0..3 {
        assert!(matches!(b.on_reply(message(&[("add_slide", "{}")])), Action::Chat));
    }
    assert!(matches!(b.on_reply(message(&[("add_slide", "{}")])), Action::Done));
    assert_eq!(b.working.slides.len(), 5);
    assert_eq!(b.rounds_left, 0);
}

#[test]
fn the_changes_are_limited() {
    let mut b = start(deck(), true, None);
    let calls: Vec<(&str, &str)> = (0..42).map(|_| ("add_slide", "{}")).collect();
    b.on_reply(message(&calls));
    assert_eq!(b.applied.len(), 40);
    assert_eq!(b.working.slides.len(), 41);
    assert_eq!(result_at(&b, 43 + 1), json(r#"{"ok": false, "error": "op limit reached"}"#));
    assert_eq!(b.messages.len(), 3 + 42);
}

#[test]
fn images_are_made_and_numbered_in_order() {
    let mut b = start(deck(), true, None);
    let action = b.on_reply(message(&[
        ("generate_image", r#"{"prompt": "a cat", "size": "1024x1024"}"#),
        ("set_title", r#"{"title": "Cats"}"#),
        ("generate_image", r#"{"prompt": "a dog"}"#),
        ("generate_image", r#"{"prompt": "a cow"}"#),
    ]));
    let orders = match action {
        Action::MakeImages(o) => o,
        _ => panic!("no order"),
    };
    let seen: Vec<(usize, &str, &str)> =
        orders.iter().map(|o| (o.index, o.prompt.as_str(), o.size.as_str())).collect();
    assert_eq!(seen, vec![(0, "a cat", "1024x1024"), (2, "a dog", ""), (3, "a cow", "")]);
    assert_eq!(b.working.title, "Talk");
    let made = Image { data_uri: "data:x".into(), prompt: "a dog".into() };
    let pictures = vec![(2, Ok(made)), (0, Err(json(r#"{"ok": false, "error": "sorry"}"#)))];
    assert!(matches!(b.on_images(pictures), Action::Chat));
    assert_eq!(b.working.title, "Cats");
    assert_eq!(b.working.images.len(), 1);
    assert_eq!(b.working.images[0].0, "img1");
    assert_eq!(result_at(&b, 3)["error"], "sorry");
    assert_eq!(
        result_at(&b, 5),
        json(
            r#"{"ok": true, "image_id": "img1", "desc": "generated an image",
                "note": "Use it on a slide with <img class=\"slide-image\" data-img=\"img1\">."}"#
        )
    );
    assert_eq!(result_at(&b, 6)["error"], "image task lost");
    assert_eq!(b.applied.len(), 2);
}

#[test]
fn reference_files_are_fetched_one_by_one() {
    let mut b = start(deck(), true, Some("M"));
    let action = b.on_reply(message(&[
        ("set_title", r#"{"title": "T"}"#),
        ("read_reference", r#"{"id": " r1 "}"#),
        ("read_reference", r#"{"id": "r2"}"#),
        ("set_title", r#"{"title": "U"}"#),
    ]));
    assert!(matches!(&action, Action::Read(id) if id == "r1"));
    assert_eq!(b.working.title, "T");
    let action = b.on_found(Some("facts".to_string()));
    assert!(matches!(&action, Action::Read(id) if id == "r2"));
    assert!(matches!(b.on_found(None), Action::Chat));
    assert_eq!(b.reads_left, 11);
    assert_eq!(b.working.title, "U");
    assert_eq!(
        result_at(&b, 4),
        json(r#"{"ok": true, "id": "r1", "content": "facts", "truncated": false}"#)
    );
    assert_eq!(result_at(&b, 5)["error"], "no enabled reference with id \"r2\"");
    assert_eq!(b.applied.len(), 2);
}

#[test]
fn reads_are_limited() {
    let mut b = start(deck(), true, Some("M"));
    let calls: Vec<(&str, &str)> = (0..13).map(|_| ("read_reference", r#"{"id": "r1"}"#)).collect();
    let mut action = b.on_reply(message(&calls));
    let mut reads = 0;
    while let Action::Read(_) = action {
        reads += 1;
        action = b.on_found(Some("x".to_string()));
    }
    assert_eq!(reads, 12);
    assert!(matches!(action, Action::Chat));
    assert_eq!(result_at(&b, 15)["error"], "reference read limit reached for this build");
}

#[test]
fn requests_for_reference_files_are_refused_with_a_reason() {
    let mut left: usize = 2;
    let r = handle_read_reference(&json("{}"), &mut left, true, None);
    assert_eq!(r["error"], "missing reference id");
    let r = handle_read_reference(&json(r#"{"id": "r1"}"#), &mut left, false, None);
    assert_eq!(r["error"], "no reference library");
    assert_eq!(left, 2);
    let long = "é".repeat(100_000);
    let r = handle_read_reference(&json(r#"{"id": "r1"}"#), &mut left, true, Some(long));
    assert_eq!(r["truncated"], true);
    assert_eq!(r["content"].as_str().unwrap().len(), 120_000);
    assert_eq!(left, 1);
    let mut none: usize = 0;
    let r = handle_read_reference(&json(r#"{"id": "r1"}"#), &mut none, true, None);
    assert_eq!(r["error"], "reference read limit reached for this build");
}

#[test]
fn a_build_stops_where_ids_run_out() {
    let mut d = deck();
    d.seq = u32::MAX;
    let mut b = start(d, true, None);
    assert!(matches!(b.on_reply(message(&[("add_slide", "{}")])), Action::OutOfIds));
    let mut d = deck();
    d.img_seq = u32::MAX;
    let mut b = start(d, true, None);
    b.on_reply(message(&[("generate_image", "{}")]));
    let made = Image { data_uri: "data:x".into(), prompt: String::new() };
    assert!(matches!(b.on_images(vec![(0, Ok(made))]), Action::OutOfIds));
}

#[test]
fn calls_are_read_out_of_a_message() {
    let calls = read_calls(&json(
        r#"{"tool_calls": [{"id": "a", "function": {"name": "n", "arguments": "{\"k\": 1}"}}, {}, 5]}"#,
    ));
    assert_eq!(calls.len(), 3);
    assert_eq!((calls[0].id.as_str(), calls[0].name.as_str()), ("a", "n"));
    assert_eq!(calls[0].args, json(r#"{"k": 1}"#));
    assert_eq!((calls[1].id.as_str(), calls[1].name.as_str()), ("", ""));
    assert_eq!(calls[2].args, json("{}"));
}

#[test]
fn library_images_are_placed_and_pruned() {
    let mut store = ImageStore::new();
    store.add("logo.png", "data:1", "the logo").unwrap();
    store.add("team.png", "data:2", "").unwrap();
    store.update("lib2", None, None, Some(2));
    let mut d = deck();
    let block = inject_library_images(&mut d, &store.enabled_images());
    assert!(block.starts_with("[USER IMAGES — real images"));
    assert!(block.ends_with(
        "covers.]\n- id \"lib1\" (logo.png): the logo\n- id \"lib2\" (team.png): (no description provided) — REQUESTED on slide 2\n\n"
    ));
    assert_eq!(d.image("lib1").unwrap().prompt, "the logo");
    assert_eq!(d.image("lib2").unwrap().prompt, "team.png");
    assert_eq!(d.image("lib2").unwrap().data_uri, "data:2");
    assert_eq!(d.new_image_id(), "img1");
    d.slides[0].html = "<img data-img=\"lib2\">".into();
    d.insert_image("img1".into(), Image { data_uri: "data:3".into(), prompt: String::new() });
    prune_unused_library_images(&mut d);
    let left: Vec<&str> = d.images.iter().map(|p| p.0.as_str()).collect();
    assert_eq!(left, vec!["lib2", "img1"]);
    let mut e = deck();
    assert_eq!(inject_library_images(&mut e, &Vec::new()), "");
}

#[test]
fn a_build_takes_effect_as_a_whole() {
    let mut a = SlideAgent::new(None);
    assert_eq!(a.begin("  ").unwrap_err(), "No instruction given.");
    assert_eq!(a.run_count, 0);
    let (instruction, status) = a.begin(&format!(" {} ", "x".repeat(100))).unwrap();
    assert_eq!(instruction, "x".repeat(100));
    assert_eq!(status["state"], "building");
    assert_eq!(status["note"], "x".repeat(80));
    assert_eq!(status["run_count"], 1);

    let before = a.deck.to_full_json();
    let mut working = a.take_up(None);
    working.title = "Half done".into();
    let end = a.conclude(working, Err("chat http 500: no".to_string()));
    assert_eq!(end.reply, "Slide edit failed: chat http 500: no.");
    assert_eq!(end.status["state"], "error");
    assert_eq!(end.status["note"], "chat http 500: no");
    assert!(end.publication.is_none());
    assert_eq!(a.deck.to_full_json(), before);

    let working = a.take_up(None);
    let end = a.conclude(working, Ok(Vec::new()));
    assert_eq!(end.reply, "I didn't change anything — could you rephrase?");
    assert_eq!(end.status, json(r#"{"state": "ready", "note": "no change", "run_count": 1}"#));
    assert!(end.publication.is_none());

    let mut working = a.take_up(Some(deck()));
    assert_eq!(a.deck.title, "Talk");
    working.title = "Done".into();
    let end = a.conclude(working, Ok(vec!["renamed it".to_string()]));
    assert_eq!(end.reply, "Renamed it — 1 slide in \u{201c}Done\u{201d}.");
    assert_eq!(end.status["note"], end.reply.as_str());
    let p = end.publication.unwrap();
    assert_eq!(a.deck.title, "Done");
    assert_eq!(json(&p.snapshot), a.deck.to_full_json());
    assert_eq!(p.update["deck"], a.deck.to_ui_json());
    assert_eq!(p.update["html"], p.html.as_str());
    assert!(p.html.contains("deck-nav"));
}

#[test]
fn an_agent_goes_on_with_what_was_saved() {
    let a = SlideAgent::new(Some(deck()));
    assert_eq!(a.deck.title, "Talk");
    let mut a = SlideAgent::new(None);
    a.run_count = u32::MAX;
    a.begin("x").unwrap();
    assert_eq!(a.run_count, 0);
    assert_eq!(
        a.status("reading", "reference r1"),
        json(r#"{"state": "reading", "note": "reference r1", "run_count": 0}"#)
    );
}

#[test]
fn what_was_done_is_summed_up() {
    let mut d = deck();
    d.slides.clear();
    let two = vec!["a".to_string(), "b".to_string()];
    assert_eq!(summarize(&two, &d), "Applied 2 changes — 0 slides in \u{201c}Talk\u{201d}.");
    assert_eq!(summarize(&vec!["éa".to_string()], &d), "éa — 0 slides in \u{201c}Talk\u{201d}.");
    assert!(ids_can_be_minted(&d));
    d.seq = u32::MAX;
    d.slides.push(Slide { id: String::new(), title: String::new(), html: String::new() });
    assert!(!ids_can_be_minted(&d));
}

#[test]
fn tools_are_offered() {
    let with = tools(true);
    let without = tools(false);
    let names = |v: &Value| -> Vec<String> {
        v.as_array()
            .unwrap()
            .iter()
            .map(|t| t["function"]["name"].as_str().unwrap().to_string())
            .collect()
    };
    assert_eq!(
        names(&without),
        vec![
            "write_deck", "add_slide", "edit_slide", "delete_slide", "move_slide", "set_theme",
            "set_title", "generate_image"
        ]
    );
    assert_eq!(with.as_array().unwrap().len(), 9);
    assert_eq!(names(&with)[8], "read_reference");
    assert_eq!(
        with[1],
        json(
            r#"{"type": "function", "function": {
                "name": "add_slide",
                "description": "Insert ONE new slide. By default appends to the end.",
                "parameters": {"type": "object", "properties": {
                    "title": {"type": "string"}, "html": {"type": "string"},
                    "after_id": {"type": "string", "description": "Insert after the slide with this id. Omit to append."}
                }, "required": ["title", "html"]}
            }}"#
        )
    );
    assert_eq!(
        with[7]["function"]["parameters"],
        json(
            r#"{"type": "object", "properties": {
                "prompt": {"type": "string"},
                "size": {"type": "string", "enum": ["1024x1024", "1536x1024", "1024x1536"]}
            }, "required": ["prompt"]}"#
        )
    );
    assert_eq!(
        with[0]["function"]["parameters"]["properties"]["slides"]["items"]["required"],
        json(r#"["title", "html"]"#)
    );
}

fn cfg() -> AppConfig {
    let mut c = AppConfig::default();
    c.api_key = "sk".into();
    c
}

fn azure() -> AppConfig {
    let mut c = cfg();
    c.provider = Provider::Azure;
    c.azure_endpoint = "https://res.example.com".into();
    c
}

#[test]
fn what_the_slide_model_is_sent() {
    let messages = vec![json(r#"{"role": "user", "content": "hi"}"#)];
    let call = chat_call(&cfg(), &messages, json("[]")).unwrap();
    assert_eq!(call.url, "https://api.openai.com/v1/chat/completions");
    assert_eq!(call.headers, vec![("Authorization", "Bearer sk".to_string())]);
    assert_eq!(
        call.body,
        json(
            r#"{"messages": [{"role": "user", "content": "hi"}], "tools": [],
                "tool_choice": "auto", "model": "gpt-5.5"}"#
        )
    );
    let call = chat_call(&azure(), &messages, json("[]")).unwrap();
    assert!(call.body.get("model").is_none());
    assert!(!call.body.to_string().contains("sk"));
    let mut bad = azure();
    bad.azure_endpoint = "nonsense".into();
    match chat_call(&bad, &messages, json("[]")) {
        Err(e) => assert!(e.starts_with("Azure endpoint parse: ")),
        Ok(_) => panic!("a call"),
    }
}

#[test]
fn what_the_slide_model_says() {
    let reply = json(
        r#"{"choices": [{"message": {"role": "tool", "content": "c", "tool_calls": [1], "other": 2}}]}"#,
    );
    assert_eq!(
        chat_message(HttpReply::Body(reply.to_string())).unwrap(),
        json(r#"{"role": "tool", "content": "c", "tool_calls": [1]}"#)
    );
    assert_eq!(
        chat_message(HttpReply::Body("{}".to_string())).unwrap(),
        json(r#"{"role": "assistant", "content": null, "tool_calls": []}"#)
    );
    assert_eq!(
        chat_message(HttpReply::Failed("down".into())).unwrap_err(),
        "chat request: down"
    );
    assert_eq!(
        chat_message(HttpReply::Refused(429, "x".repeat(400))).unwrap_err(),
        format!("chat http 429: {}", "x".repeat(300))
    );
    assert_eq!(
        chat_message(HttpReply::Garbled).unwrap_err(),
        "chat decode: error decoding response body"
    );
    assert_eq!(
        chat_message(HttpReply::Body("no json".to_string())).unwrap_err(),
        "chat decode: error decoding response body"
    );
    assert_eq!(
        keep_message(&json(r#"{"choices": [{"message": {"content": "c"}}]}"#)),
        json(r#"{"role": "assistant", "content": "c", "tool_calls": []}"#)
    );
}

#[test]
fn what_the_image_model_is_sent_and_says() {
    let call = image_call(&cfg(), "a cat", "1x1").unwrap();
    assert_eq!(call.url, "https://api.openai.com/v1/images/generations");
    assert_eq!(
        call.body,
        json(r#"{"prompt": "a cat", "n": 1, "size": "1x1", "model": "gpt-image-2"}"#)
    );
    assert!(image_call(&azure(), "a", "b").unwrap().body.get("model").is_none());
    assert_eq!(
        image_data_uri(HttpReply::Body(r#"{"data": [{"b64_json": "QQ=="}]}"#.to_string())).unwrap(),
        "data:image/png;base64,QQ=="
    );
    assert_eq!(
        image_data_uri(HttpReply::Body(r#"{"data": []}"#.to_string())).unwrap_err(),
        "no image returned"
    );
    assert_eq!(
        image_data_uri(HttpReply::Body(r#"{"data": [{}]}"#.to_string())).unwrap_err(),
        "no image returned"
    );
    assert_eq!(
        image_data_uri(HttpReply::Refused(400, "é".repeat(300))).unwrap_err(),
        format!("image http 400: {}", "é".repeat(200))
    );
    assert_eq!(image_data_uri(HttpReply::Failed("e".into())).unwrap_err(), "image request: e");
    assert_eq!(image_data_uri(HttpReply::Garbled).unwrap_err(), "image decode: error decoding response body");
}

#[test]
fn images_that_the_slide_model_orders() {
    let call = begin_image(&cfg(), " a cat ", "").unwrap();
    assert_eq!(call.body["prompt"], "a cat");
    assert_eq!(call.body["size"], "1536x1024");
    assert_eq!(
        begin_image(&cfg(), " ", "").err().unwrap(),
        json(r#"{"ok": false, "error": "empty prompt"}"#)
    );
    let mut bad = azure();
    bad.azure_endpoint = "data:x".into();
    assert_eq!(
        begin_image(&bad, "a", "").err().unwrap(),
        json(r#"{"ok": false, "error": "Azure endpoint missing host"}"#)
    );
    let img = finish_image(" a cat ", HttpReply::Body(r#"{"data": [{"b64_json": "QQ"}]}"#.to_string()));
    let img = img.unwrap();
    assert_eq!((img.data_uri.as_str(), img.prompt.as_str()), ("data:image/png;base64,QQ", "a cat"));
    assert_eq!(
        finish_image("a", HttpReply::Failed("e".into())).err().unwrap(),
        json(r#"{"ok": false, "error": "image request: e"}"#)
    );
}

#[test]
fn captions() {
    let call = caption_call(&cfg(), "data:image/png;base64,AA").unwrap();
    assert_eq!(call.url, "https://api.openai.com/v1/chat/completions");
    assert_eq!(call.body["model"], "gpt-5.5");
    let content = &call.body["messages"][0]["content"];
    assert_eq!(call.body["messages"][0]["role"], "user");
    assert!(content[0]["text"].as_str().unwrap().starts_with("Describe this image"));
    assert_eq!(
        content[1],
        json(r#"{"type": "image_url", "image_url": {"url": "data:image/png;base64,AA"}}"#)
    );
    assert_eq!(
        caption_text(HttpReply::Body(r#"{"choices": [{"message": {"content": " a cat "}}]}"#.to_string()))
            .unwrap(),
        "a cat"
    );
    for empty in [r#"{"choices": [{"message": {"content": " "}}]}"#, "{}", r#"{"choices": []}"#] {
        assert_eq!(caption_text(HttpReply::Body(empty.to_string())).unwrap_err(), "empty caption");
    }
    assert_eq!(caption_text(HttpReply::Failed("e".into())).unwrap_err(), "caption request: e");
    assert_eq!(caption_text(HttpReply::Garbled).unwrap_err(), "caption decode: error decoding response body");
    assert_eq!(
        caption_text(HttpReply::Refused(500, "t".into())).unwrap_err(),
        "caption http 500: t"
    );
}

#[test]
fn a_request_holds_no_image_data() {
    let ask = |data: &str| {
        let mut d = deck();
        d.insert_image("img1".into(), Image { data_uri: data.into(), prompt: "a cat".into() });
        let mut s = ImageStore::new();
        s.add("logo.png", &format!("data:{data}"), "the logo").unwrap();
        Build::new(d, "SYSTEM", "do it", true, None, &s.enabled_images()).messages
    };
    assert_eq!(ask("AAAA"), ask("BBBB"));
    let text = ask("AAAA")[1]["content"].as_str().unwrap().to_string();
    assert!(text.contains("a cat") && text.contains("the logo") && !text.contains("AAAA"));
}

#[test]
fn a_long_file_is_given_up_to_the_limit() {
    let mut left: usize = 2;
    let text = format!("{}é", "a".repeat(119_999));
    let r = handle_read_reference(&json(r#"{"id": "r1"}"#), &mut left, true, Some(text));
    assert_eq!(r["truncated"], true);
    assert_eq!(r["content"].as_str().unwrap().len(), 119_999);
    assert_eq!(left, 1);
}

#[test]
fn what_a_reply_holds() {
    assert_eq!(
        keep_image(&json(r#"{"data": [{"b64_json": "QQ"}]}"#)).unwrap(),
        "data:image/png;base64,QQ"
    );
    assert_eq!(keep_image(&json("[]")).unwrap_err(), "no image returned");
    let said = json(r#"{"choices": [{"message": {"content": " a cat "}}]}"#);
    assert_eq!(keep_caption(&said).unwrap(), "a cat");
    assert_eq!(keep_caption(&json("{}")).unwrap_err(), "empty caption");
}

#[test]
fn what_is_shown_meanwhile() {
    let mut b = start(deck(), true, None);
    let calls = [("generate_image", r#"{"prompt": "a"}"#), ("generate_image", r#"{"prompt": "b"}"#)];
    let action = b.on_reply(message(&calls));
    assert_eq!(
        progress(&action, &None),
        Some(("imaging".to_string(), "2 image(s)".to_string()))
    );
    let read = Action::Read("r1".to_string());
    assert_eq!(
        progress(&read, &Some("text".to_string())),
        Some(("reading".to_string(), "reference r1".to_string()))
    );
    assert_eq!(progress(&read, &None), None);
    assert_eq!(progress(&Action::Chat, &None), None);
    assert_eq!(progress(&Action::Done, &None), None);
}
