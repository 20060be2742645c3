//! A voice session: what passes between the browser and the realtime model, and what is
//! done when the model asks for slides.

use serde_json::Value;
use vstd::prelude::*;
use vstd::string::*;

use crate::calls::{args_from, read_args, CallView, ToolCall};
use crate::config::{ready, AppConfig};
use crate::json::{
    array, as_entries, before, copy, field, get, json_entries, json_parse, json_print, json_view,
    json_views, lists, object, pairs, pairs_view, parse, print, put, put_text, sget, text_at,
    text_field, text_of, JsonView,
};
use crate::ops::{trimmed_field, trimmed_get};
use crate::realtime::{session_update, session_update_value};
use crate::text::{clipped, same, str_view, trimmed, truncate};
use crate::tools::{described, described_value, shaped, shaped_value, text_items};

verus! {

/// What the voice agent is told of its task.
pub const BASE_INSTRUCTIONS: &'static str = "You are a friendly, fast voice assistant that helps the user build an HTML slide deck by talking. Speak concisely and naturally. You do NOT write HTML or CSS yourself — a separate slide designer does that. Your job is to understand what the user wants and call the build_slides tool with a clear, complete instruction in plain language, preserving their specifics (how many slides, what each slide is about, any style direction). When the user describes multiple slides at once, capture ALL of them in a single build_slides call. When they ask to tweak one slide or restyle the whole deck, pass that as the instruction too. The tool returns a pending acknowledgement immediately — tell the user briefly what you're building (one short sentence), then stop and wait. When a [BUILD RESULT] message arrives, confirm what changed in one short sentence and invite the next change. Do not read slide markup aloud. If the user is just chatting or asking what you can do, answer briefly and suggest they describe the slides they want.";

/// How the session is opened.
pub const GREETING: &'static str = "Greet the user in one short, upbeat sentence and invite them to describe the slides they want — for example, how many slides and what each one should cover. Keep it under two sentences.";

/// What is asked for after a build.
pub const CONFIRMATION: &'static str = "Confirm the slide change in one short sentence and invite the next edit. Do not read any markup. Do not repeat the [BUILD RESULT] tag.";

// ---- Errors ------------------------------------------------------------

/// An event that tells the browser of an error.
pub open spec fn error_event(code: Seq<char>, message: Seq<char>) -> JsonView {
    JsonView::Object(
        map![
            "type"@ => JsonView::Text("error"@),
            "error"@ => JsonView::Object(
                map!["code"@ => JsonView::Text(code), "message"@ => JsonView::Text(message)],
            ),
        ],
    )
}

pub fn error_message(code: &str, message: &str) -> (r: Value)
    ensures
        json_view(r) == error_event(code@, message@),
{
    let mut e = serde_json::Map::new();
    put_text(&mut e, "code", code);
    put_text(&mut e, "message", message);
    let mut m = serde_json::Map::new();
    put_text(&mut m, "type", "error");
    put(&mut m, "error", object(e));
    object(m)
}

/// Why no session is opened: nothing is set, or not enough.
pub open spec fn refusal_to_open(cfg: Option<&AppConfig>) -> Option<Seq<char>> {
    match cfg {
        None => Some("config missing"@),
        Some(c) => if ready(c@) {
            None
        } else {
            Some("config incomplete"@)
        },
    }
}

/// The event that refuses a session, where it is refused.
pub fn admission(cfg: Option<&AppConfig>) -> (r: Option<Value>)
    ensures
        match refusal_to_open(cfg) {
            Some(reason) => r matches Some(v) && json_view(v) == error_event("config"@, reason),
            None => r is None,
        },
{
    match cfg {
        None => Some(error_message("config", "config missing")),
        Some(c) => if c.is_complete() {
            None
        } else {
            Some(error_message("config", "config incomplete"))
        },
    }
}

// ---- Tools -------------------------------------------------------------

/// The tool by which the voice agent asks for slides.
pub open spec fn build_slides_schema() -> JsonView {
    JsonView::Object(
        map![
            "type"@ => JsonView::Text("function"@),
            "name"@ => JsonView::Text("build_slides"@),
            "description"@ => JsonView::Text("Create or modify the slide deck. Call this whenever the user asks to make, add, change, reorder, restyle, or fix slides. Pass the user's full intent in plain language — the slide designer that receives it writes the actual HTML/CSS, so be specific and complete. Returns immediately with a pending acknowledgement; the finished deck arrives shortly as a [BUILD RESULT] message and is shown on screen."@),
            "parameters"@ => shaped(
                map!["instruction"@ => described("The complete instruction for the slide designer, in plain language. Include slide counts, per-slide topics, and any style direction the user gave. Preserve the user's specifics."@)],
                seq!["instruction"],
            ),
        ],
    )
}

/// The tool by which the voice agent asks for slides.
pub fn build_slides_tool() -> (r: Value)
    ensures
        json_view(r) == build_slides_schema(),
{
    let mut p = serde_json::Map::new();
    put(&mut p, "instruction", described_value("The complete instruction for the slide designer, in plain language. Include slide counts, per-slide topics, and any style direction the user gave. Preserve the user's specifics."));
    let required = vec!["instruction"];
    assert(required@ =~= seq!["instruction"]);
    let mut m = serde_json::Map::new();
    put_text(&mut m, "type", "function");
    put_text(&mut m, "name", "build_slides");
    put_text(&mut m, "description", "Create or modify the slide deck. Call this whenever the user asks to make, add, change, reorder, restyle, or fix slides. Pass the user's full intent in plain language — the slide designer that receives it writes the actual HTML/CSS, so be specific and complete. Returns immediately with a pending acknowledgement; the finished deck arrives shortly as a [BUILD RESULT] message and is shown on screen.");
    put(&mut m, "parameters", shaped_value(p, required));
    object(m)
}

/// The event that tells the realtime model of its tool, and has what is said written down.
pub open spec fn registration_event() -> JsonView {
    session_update(
        JsonView::Object(
            map![
                "tools"@ => JsonView::Array(seq![build_slides_schema()]),
                "tool_choice"@ => JsonView::Text("auto"@),
                "input_audio_transcription"@ => JsonView::Object(
                    map!["model"@ => JsonView::Text("whisper-1"@)],
                ),
            ],
        ),
    )
}

pub fn tool_registration() -> (r: Value)
    ensures
        json_view(r) == registration_event(),
{
    let mut tools: Vec<Value> = Vec::new();
    tools.push(build_slides_tool());
    assert(json_views(tools@) =~= seq![build_slides_schema()]);
    let mut transcription = serde_json::Map::new();
    put_text(&mut transcription, "model", "whisper-1");
    let mut session = serde_json::Map::new();
    put(&mut session, "tools", array(tools));
    put_text(&mut session, "tool_choice", "auto");
    put(&mut session, "input_audio_transcription", object(transcription));
    session_update_value(object(session))
}

// ---- The flow of events ------------------------------------------------

/// Whether an event of this type may go from the browser to the model.
pub open spec fn allowed(t: Seq<char>) -> bool {
    t == "input_audio_buffer.append"@ || t == "input_audio_buffer.commit"@ || t == "input_audio_buffer.clear"@ || t == "conversation.item.create"@ || t == "response.create"@ || t == "response.cancel"@ || t == "session.update"@
}

fn is_allowed(t: &str) -> (r: bool)
    ensures
        r == allowed(t@),
{
    same(t, "input_audio_buffer.append") || same(t, "input_audio_buffer.commit") || same(t, "input_audio_buffer.clear") || same(t, "conversation.item.create") || same(t, "response.create") || same(t, "response.cancel") || same(t, "session.update")
}

/// The event that asks the model to respond.
pub open spec fn response_request(instructions: Option<Seq<char>>) -> JsonView {
    let bare = map!["type"@ => JsonView::Text("response.create"@)];
    JsonView::Object(
        match instructions {
            Some(t) => bare.insert(
                "response"@,
                JsonView::Object(map!["instructions"@ => JsonView::Text(t)]),
            ),
            None => bare,
        },
    )
}

/// A request for a response: it is made only where none is under way.
pub open spec fn requested(in_flight: bool, instructions: Option<Seq<char>>) -> (
    bool,
    Option<JsonView>,
) {
    if in_flight {
        (true, None)
    } else {
        (true, Some(response_request(instructions)))
    }
}

/// The instructions that an event of the browser asks for a response with.
pub open spec fn asked_instructions(evt: JsonView) -> Option<Seq<char>> {
    match field(evt, "response"@) {
        Some(r) => text_at(r, "instructions"@),
        None => None,
    }
}

/// What becomes of an event from the browser: whether a response is under way after it,
/// and what the model is sent.
pub open spec fn client_step(in_flight: bool, evt: JsonView) -> (bool, Option<JsonView>) {
    let t = text_field(evt, "type"@);
    if !allowed(t) {
        (in_flight, None)
    } else if t == "response.create"@ {
        requested(in_flight, asked_instructions(evt))
    } else if t == "response.cancel"@ {
        (false, Some(evt))
    } else {
        (in_flight, Some(evt))
    }
}

/// The tool call that an event of the model stands for.
pub open spec fn voice_call(evt: JsonView) -> CallView {
    CallView {
        id: text_field(evt, "call_id"@),
        name: match text_at(evt, "name"@) {
            Some(n) => n,
            None => match field(evt, "function"@) {
                Some(f) => text_field(f, "name"@),
                None => Seq::empty(),
            },
        },
        args: args_from(
            match text_at(evt, "arguments"@) {
                Some(t) => t,
                None => "{}"@,
            },
        ),
    }
}

/// What an event from the model means: whether a response is under way after it, and the
/// tool call that it asks for. The browser is sent every event as it is.
pub open spec fn upstream_step(in_flight: bool, evt: JsonView) -> (bool, Option<CallView>) {
    let t = text_field(evt, "type"@);
    if t == "response.created"@ {
        (true, None)
    } else if t == "response.done"@ || t == "response.cancelled"@ {
        (false, None)
    } else if t == "response.function_call_arguments.done"@ {
        (in_flight, Some(voice_call(evt)))
    } else {
        (in_flight, None)
    }
}

/// What a session keeps in mind: whether the model is responding.
pub struct SessionState {
    pub response_in_flight: bool,
}

impl Default for SessionState {
    fn default() -> (r: Self)
        ensures
            !r.response_in_flight,
    {
        SessionState { response_in_flight: false }
    }
}

pub open spec fn event_view(r: Option<Value>) -> Option<JsonView> {
    match r {
        Some(v) => Some(json_view(v)),
        None => None,
    }
}

pub open spec fn call_view(r: Option<ToolCall>) -> Option<CallView> {
    match r {
        Some(c) => Some(c@),
        None => None,
    }
}

impl SessionState {
    /// Asks for a response, unless one is under way: gives what the model is sent.
    pub fn request_response(&mut self, instructions: Option<&str>) -> (r: Option<Value>)
        ensures
            (final(self).response_in_flight, event_view(r)) == requested(
                old(self).response_in_flight,
                str_view(instructions),
            ),
    {
        if self.response_in_flight {
            return None;
        }
        self.response_in_flight = true;
        let mut m = serde_json::Map::new();
        put_text(&mut m, "type", "response.create");
        match instructions {
            Some(t) => {
                let mut response = serde_json::Map::new();
                put_text(&mut response, "instructions", t);
                put(&mut m, "response", object(response));
            },
            None => {},
        }
        Some(object(m))
    }

    /// Takes an event from the browser: gives what the model is sent.
    pub fn on_client_event(&mut self, evt: Value) -> (r: Option<Value>)
        ensures
            (final(self).response_in_flight, event_view(r)) == client_step(
                old(self).response_in_flight,
                json_view(evt),
            ),
    {
        let t = sget(&evt, "type");
        if !is_allowed(t.as_str()) {
            return None;
        }
        if same(t.as_str(), "response.create") {
            let instructions = match get(&evt, "response") {
                Some(response) => text_of(response, "instructions"),
                None => None,
            };
            return self.request_response(instructions);
        }
        if same(t.as_str(), "response.cancel") {
            self.response_in_flight = false;
        }
        Some(evt)
    }

    /// Takes a message from the browser: what is no JSON is passed over.
    pub fn on_client_message(&mut self, raw: &str) -> (r: Option<Value>)
        ensures
            (final(self).response_in_flight, event_view(r)) == match json_parse(raw@) {
                Some(evt) => client_step(old(self).response_in_flight, evt),
                None => (old(self).response_in_flight, None),
            },
    {
        match parse(raw) {
            Some(evt) => self.on_client_event(evt),
            None => None,
        }
    }

    /// Takes an event from the model: gives the tool call that it asks for.
    pub fn on_upstream_event(&mut self, evt: &Value) -> (r: Option<ToolCall>)
        ensures
            (final(self).response_in_flight, call_view(r)) == upstream_step(
                old(self).response_in_flight,
                json_view(*evt),
            ),
    {
        let t = sget(evt, "type");
        if same(t.as_str(), "response.created") {
            self.response_in_flight = true;
            None
        } else if same(t.as_str(), "response.done") || same(t.as_str(), "response.cancelled") {
            self.response_in_flight = false;
            None
        } else if same(t.as_str(), "response.function_call_arguments.done") {
            let name = match text_of(evt, "name") {
                Some(n) => n.to_string(),
                None => match get(evt, "function") {
                    Some(f) => sget(f, "name"),
                    None => String::new(),
                },
            };
            let args = match text_of(evt, "arguments") {
                Some(a) => read_args(a),
                None => read_args("{}"),
            };
            Some(ToolCall { id: sget(evt, "call_id"), name, args })
        } else {
            None
        }
    }

    /// Takes a message from the model: gives the event, for the browser, and the tool call
    /// that it asks for. What is no JSON is passed over.
    pub fn on_upstream_message(&mut self, raw: &str) -> (r: Option<(Value, Option<ToolCall>)>)
        ensures
            match json_parse(raw@) {
                Some(evt) => r matches Some((v, c)) && json_view(v) == evt && (
                    final(self).response_in_flight,
                    call_view(c),
                ) == upstream_step(old(self).response_in_flight, evt),
                None => r is None && final(self).response_in_flight
                    == old(self).response_in_flight,
            },
    {
        match parse(raw) {
            Some(evt) => {
                let call = self.on_upstream_event(&evt);
                Some((evt, call))
            },
            None => None,
        }
    }
}

/// The text by which an event is sent.
pub fn frame_text(evt: &Value) -> (r: String)
    ensures
        r@ == json_print(json_view(*evt)),
{
    print(evt)
}

// ---- Builds ------------------------------------------------------------

/// An item that is put into the conversation.
pub open spec fn conversation_item(item: JsonView) -> JsonView {
    JsonView::Object(
        map!["type"@ => JsonView::Text("conversation.item.create"@), "item"@ => item],
    )
}

/// What the browser is told when a build begins.
pub open spec fn pending_event(call_id: Seq<char>, instruction: Seq<char>) -> JsonView {
    JsonView::Object(
        map![
            "type"@ => JsonView::Text("ui.build_pending"@),
            "call_id"@ => JsonView::Text(call_id),
            "instruction"@ => JsonView::Text(clipped(instruction, 140)),
        ],
    )
}

pub open spec fn pending_note() -> JsonView {
    JsonView::Object(
        map![
            "status"@ => JsonView::Text("pending"@),
            "note"@ => JsonView::Text(
                "Building the deck now; result arrives as [BUILD RESULT]."@,
            ),
        ],
    )
}

/// What the model is told at once, so that it goes on talking.
pub open spec fn acknowledgement(call_id: Seq<char>) -> JsonView {
    conversation_item(
        JsonView::Object(
            map![
                "type"@ => JsonView::Text("function_call_output"@),
                "call_id"@ => JsonView::Text(call_id),
                "output"@ => JsonView::Text(json_print(pending_note())),
            ],
        ),
    )
}

/// What the browser is told when a build is over.
pub open spec fn resolved_event(call_id: Seq<char>, summary: Seq<char>) -> JsonView {
    JsonView::Object(
        map![
            "type"@ => JsonView::Text("ui.build_resolved"@),
            "call_id"@ => JsonView::Text(call_id),
            "summary"@ => JsonView::Text(summary),
        ],
    )
}

/// What the model is told when a build is over.
pub open spec fn result_item(summary: Seq<char>) -> JsonView {
    conversation_item(
        JsonView::Object(
            map![
                "type"@ => JsonView::Text("message"@),
                "role"@ => JsonView::Text("system"@),
                "content"@ => JsonView::Array(
                    seq![
                        JsonView::Object(
                            map![
                                "type"@ => JsonView::Text("input_text"@),
                                "text"@ => JsonView::Text("[BUILD RESULT] "@ + summary),
                            ],
                        ),
                    ],
                ),
            ],
        ),
    )
}

/// A build that the model has asked for: the instruction, and what the browser and the
/// model are told of it.
pub struct BuildRequest {
    pub instruction: String,
    pub pending: Value,
    pub acknowledgement: Value,
}

/// Whether a tool call of the model asks for a build.
pub open spec fn asks_for_build(c: CallView) -> bool {
    c.id.len() > 0 && c.name == "build_slides"@
}

fn conversation_item_value(item: Value) -> (r: Value)
    ensures
        json_view(r) == conversation_item(json_view(item)),
{
    let mut m = serde_json::Map::new();
    put_text(&mut m, "type", "conversation.item.create");
    put(&mut m, "item", item);
    object(m)
}

/// Takes a tool call of the model: any but one that asks for a build is passed over.
pub fn build_request(call: &ToolCall) -> (r: Option<BuildRequest>)
    ensures
        r is Some <==> asks_for_build(call@),
        r matches Some(b) ==> {
            let instruction = trimmed_field(call@.args, "instruction"@);
            &&& b.instruction@ == instruction
            &&& json_view(b.pending) == pending_event(call@.id, instruction)
            &&& json_view(b.acknowledgement) == acknowledgement(call@.id)
        },
{
    if call.id.as_str().is_empty() || !same(call.name.as_str(), "build_slides") {
        return None;
    }
    let instruction = trimmed_get(&call.args, "instruction");
    let mut p = serde_json::Map::new();
    put_text(&mut p, "type", "ui.build_pending");
    put_text(&mut p, "call_id", call.id.as_str());
    put_text(&mut p, "instruction", truncate(instruction.as_str(), 140).as_str());
    let mut note = serde_json::Map::new();
    put_text(&mut note, "status", "pending");
    put_text(&mut note, "note", "Building the deck now; result arrives as [BUILD RESULT].");
    let mut item = serde_json::Map::new();
    put_text(&mut item, "type", "function_call_output");
    put_text(&mut item, "call_id", call.id.as_str());
    put_text(&mut item, "output", print(&object(note)).as_str());
    Some(
        BuildRequest {
            instruction,
            pending: object(p),
            acknowledgement: conversation_item_value(object(item)),
        },
    )
}

/// What the browser and the model are told when a build is over.
pub fn build_result(call_id: &str, summary: &str) -> (r: (Value, Value))
    ensures
        json_view(r.0) == resolved_event(call_id@, summary@),
        json_view(r.1) == result_item(summary@),
{
    let mut m = serde_json::Map::new();
    put_text(&mut m, "type", "ui.build_resolved");
    put_text(&mut m, "call_id", call_id);
    put_text(&mut m, "summary", summary);
    let mut said = "[BUILD RESULT] ".to_string();
    said.append(summary);
    let mut part = serde_json::Map::new();
    put_text(&mut part, "type", "input_text");
    put_text(&mut part, "text", said.as_str());
    let ghost view = JsonView::Object(json_entries(part));
    let mut content: Vec<Value> = Vec::new();
    content.push(object(part));
    assert(json_views(content@) =~= seq![view]);
    let mut item = serde_json::Map::new();
    put_text(&mut item, "type", "message");
    put_text(&mut item, "role", "system");
    put(&mut item, "content", array(content));
    (object(m), conversation_item_value(object(item)))
}

// ---- Events for the browser --------------------------------------------

/// An event of this type with the entries of a payload.
pub open spec fn tagged_event(t: Seq<char>, payload: JsonView) -> JsonView {
    let bare = map!["type"@ => JsonView::Text(t)];
    JsonView::Object(
        match as_entries(payload) {
            Some(m) => bare.union_prefer_right(m),
            None => bare,
        },
    )
}

/// Whether one of the first `n` entries has this key.
spec fn keyed(s: Seq<(Seq<char>, JsonView)>, n: int, k: Seq<char>) -> bool {
    exists|j: int| 0 <= j < n && (#[trigger] s[j]).0 == k
}

/// Makes a payload into an event for the browser.
pub fn tagged(t: &str, payload: &Value) -> (r: Value)
    ensures
        json_view(r) == tagged_event(t@, json_view(*payload)),
{
    let mut m = serde_json::Map::new();
    put_text(&mut m, "type", t);
    match payload.as_object() {
        Some(entries) => {
            let ghost bare = json_entries(m);
            let ghost all = json_entries(*entries);
            let list = pairs(entries);
            let ghost s = pairs_view(list@);
            let mut i: usize = 0;
            while i < list.len()
                invariant
                    i <= list@.len(),
                    s == pairs_view(list@),
                    lists(s, all),
                    forall|k: Seq<char>| #[trigger]
                        json_entries(m).dom().contains(k) <==> bare.dom().contains(k) || keyed(
                            s,
                            i as int,
                            k,
                        ),
                    forall|k: Seq<char>| #[trigger]
                        keyed(s, i as int, k) ==> json_entries(m)[k] == all[k],
                    forall|k: Seq<char>|
                        bare.dom().contains(k) && !#[trigger] keyed(s, i as int, k)
                            ==> json_entries(m)[k] == bare[k],
                decreases list@.len() - i,
            {
                let (k, v) = list[i];
                assert(s[i as int] == (k@, json_view(*v)));
                put(&mut m, k.as_str(), copy(v));
                i = i + 1;
                proof {
                    let n = i as int;
                    assert forall|q: Seq<char>| #[trigger] keyed(s, n, q) <==> keyed(s, n - 1, q)
                        || q == k@ by {
                        if q == k@ {
                            assert(s[n - 1].0 == q);
                        }
                    }
                }
            }
            proof {
                let want = bare.union_prefer_right(all);
                assert forall|k: Seq<char>| #[trigger] all.dom().contains(k) <==> keyed(
                    s,
                    s.len() as int,
                    k,
                ) by {
                    if keyed(s, s.len() as int, k) {
                        let j = choose|j: int| 0 <= j < s.len() && (#[trigger] s[j]).0 == k;
                        assert(all.dom().contains(s[j].0));
                    }
                }
                assert(json_entries(m) =~= want);
            }
        },
        None => {},
    }
    object(m)
}

// ---- The session as a whole --------------------------------------------

/// What happens to a session.
pub enum SessionEvent {
    /// The realtime model was reached.
    Opened,
    /// The realtime model was not reached; why.
    NotReached(String),
    /// The browser has sent a message.
    Client(String),
    /// The model has sent a message.
    Upstream(String),
    /// A build is over: the call that asked for it, and what came of it.
    Built(String, String),
}

pub enum SessionEventView {
    Opened,
    NotReached(Seq<char>),
    Client(Seq<char>),
    Upstream(Seq<char>),
    Built(Seq<char>, Seq<char>),
}

impl View for SessionEvent {
    type V = SessionEventView;

    open spec fn view(&self) -> SessionEventView {
        match self {
            SessionEvent::Opened => SessionEventView::Opened,
            SessionEvent::NotReached(e) => SessionEventView::NotReached(e@),
            SessionEvent::Client(raw) => SessionEventView::Client(raw@),
            SessionEvent::Upstream(raw) => SessionEventView::Upstream(raw@),
            SessionEvent::Built(id, t) => SessionEventView::Built(id@, t@),
        }
    }
}

/// What is done about it.
pub enum Effect {
    /// Send this to the model.
    ToModel(Value),
    /// Send this to the browser.
    ToBrowser(Value),
    /// Build slides: the call that asks for it, and the instruction.
    Build(String, String),
    /// Close the session.
    Close,
}

pub enum EffectView {
    ToModel(JsonView),
    ToBrowser(JsonView),
    Build(Seq<char>, Seq<char>),
    Close,
}

impl View for Effect {
    type V = EffectView;

    open spec fn view(&self) -> EffectView {
        match self {
            Effect::ToModel(v) => EffectView::ToModel(json_view(*v)),
            Effect::ToBrowser(v) => EffectView::ToBrowser(json_view(*v)),
            Effect::Build(id, t) => EffectView::Build(id@, t@),
            Effect::Close => EffectView::Close,
        }
    }
}

pub open spec fn effect_views(s: Seq<Effect>) -> Seq<EffectView> {
    s.map_values(|e: Effect| e@)
}

/// What is sent to the model, where something is.
pub open spec fn to_model(sent: Option<JsonView>) -> Seq<EffectView> {
    match sent {
        Some(v) => seq![EffectView::ToModel(v)],
        None => Seq::empty(),
    }
}

/// What is done about a tool call of the model.
pub open spec fn call_effects(call: Option<CallView>) -> Seq<EffectView> {
    match call {
        Some(c) => if asks_for_build(c) {
            let instruction = trimmed_field(c.args, "instruction"@);
            seq![
                EffectView::ToBrowser(pending_event(c.id, instruction)),
                EffectView::ToModel(acknowledgement(c.id)),
                EffectView::Build(c.id, instruction),
            ]
        } else {
            Seq::empty()
        },
        None => Seq::empty(),
    }
}

/// How a session goes on: whether a response is under way after the event, and what is
/// done about it.
pub open spec fn session_step(in_flight: bool, event: SessionEventView) -> (
    bool,
    Seq<EffectView>,
) {
    match event {
        SessionEventView::Opened => {
            let (f, sent) = requested(in_flight, Some(GREETING@));
            (f, seq![EffectView::ToModel(registration_event())] + to_model(sent))
        },
        SessionEventView::NotReached(e) => (
            in_flight,
            seq![
                EffectView::ToBrowser(error_event("upstream_connect_failed"@, e)),
                EffectView::Close,
            ],
        ),
        SessionEventView::Client(raw) => match json_parse(raw) {
            Some(evt) => {
                let (f, sent) = client_step(in_flight, evt);
                (f, to_model(sent))
            },
            None => (in_flight, Seq::empty()),
        },
        SessionEventView::Upstream(raw) => match json_parse(raw) {
            Some(evt) => {
                let (f, call) = upstream_step(in_flight, evt);
                (f, seq![EffectView::ToBrowser(evt)] + call_effects(call))
            },
            None => (in_flight, Seq::empty()),
        },
        SessionEventView::Built(id, summary) => {
            let (f, sent) = requested(in_flight, Some(CONFIRMATION@));
            (
                f,
                seq![
                    EffectView::ToBrowser(resolved_event(id, summary)),
                    EffectView::ToModel(result_item(summary)),
                ] + to_model(sent),
            )
        },
    }
}

fn push_to_model(effects: &mut Vec<Effect>, sent: Option<Value>)
    ensures
        effect_views(final(effects)@) == effect_views(old(effects)@) + to_model(event_view(sent)),
{
    let ghost before = effect_views(effects@);
    match sent {
        Some(v) => {
            let ghost view = json_view(v);
            effects.push(Effect::ToModel(v));
            assert(effect_views(effects@) =~= before + seq![EffectView::ToModel(view)]);
        },
        None => {
            assert(before =~= before + Seq::empty());
        },
    }
}

impl SessionState {
    /// Takes whatever happens to the session, and says what is to be done about it.
    pub fn on_event(&mut self, event: SessionEvent) -> (r: Vec<Effect>)
        ensures
            (final(self).response_in_flight, effect_views(r@)) == session_step(
                old(self).response_in_flight,
                event@,
            ),
    {
        let mut r: Vec<Effect> = Vec::new();
        assert(effect_views(r@) =~= Seq::empty());
        match event {
            SessionEvent::Opened => {
                r.push(Effect::ToModel(tool_registration()));
                assert(effect_views(r@) =~= seq![EffectView::ToModel(registration_event())]);
                let sent = self.request_response(Some(GREETING));
                push_to_model(&mut r, sent);
            },
            SessionEvent::NotReached(e) => {
                r.push(Effect::ToBrowser(error_message("upstream_connect_failed", e.as_str())));
                r.push(Effect::Close);
                assert(effect_views(r@) =~= seq![
                    EffectView::ToBrowser(error_event("upstream_connect_failed"@, e@)),
                    EffectView::Close,
                ]);
            },
            SessionEvent::Client(raw) => {
                let sent = self.on_client_message(raw.as_str());
                push_to_model(&mut r, sent);
                proof {
                    if let Some(evt) = json_parse(raw@) {
                        let sent = client_step(old(self).response_in_flight, evt).1;
                        assert(Seq::<EffectView>::empty() + to_model(sent) =~= to_model(sent));
                    } else {
                        assert(Seq::<EffectView>::empty() + to_model(None) =~= Seq::empty());
                    }
                }
            },
            SessionEvent::Upstream(raw) => match self.on_upstream_message(raw.as_str()) {
                Some((evt, call)) => {
                    let ghost head = seq![EffectView::ToBrowser(json_view(evt))];
                    r.push(Effect::ToBrowser(evt));
                    assert(effect_views(r@) =~= head);
                    match call {
                        Some(c) => match build_request(&c) {
                            Some(b) => {
                                let ghost tail = call_effects(Some(c@));
                                r.push(Effect::ToBrowser(b.pending));
                                r.push(Effect::ToModel(b.acknowledgement));
                                r.push(Effect::Build(c.id, b.instruction));
                                assert(effect_views(r@) =~= head + tail);
                            },
                            None => {
                                assert(head =~= head + Seq::empty());
                            },
                        },
                        None => {
                            assert(head =~= head + Seq::empty());
                        },
                    }
                },
                None => {},
            },
            SessionEvent::Built(id, summary) => {
                let (browser, model) = build_result(id.as_str(), summary.as_str());
                r.push(Effect::ToBrowser(browser));
                r.push(Effect::ToModel(model));
                assert(effect_views(r@) =~= seq![
                    EffectView::ToBrowser(resolved_event(id@, summary@)),
                    EffectView::ToModel(result_item(summary@)),
                ]);
                let sent = self.request_response(Some(CONFIRMATION));
                push_to_model(&mut r, sent);
            },
        }
        r
    }
}

// ---- Laws --------------------------------------------------------------

/// A response is asked for only where none is under way; and then one is.
pub proof fn law_one_response_at_a_time(in_flight: bool, instructions: Option<Seq<char>>)
    ensures
        requested(in_flight, instructions).1 is Some <==> !in_flight,
        requested(in_flight, instructions).0,
{
}

/// Nothing goes from the browser to the model but events of the types that may; and one
/// that asks for a response does so only where none is under way.
pub proof fn law_only_allowed_events_pass(in_flight: bool, evt: JsonView)
    ensures
        client_step(in_flight, evt).1 matches Some(sent) ==> allowed(text_field(sent, "type"@)),
        client_step(in_flight, evt).1 matches Some(sent) ==> (text_field(sent, "type"@)
            == "response.create"@ ==> !in_flight && client_step(in_flight, evt).0),
        !allowed(text_field(evt, "type"@)) ==> client_step(in_flight, evt) == (
            in_flight,
            None::<JsonView>,
        ),
{
    reveal_strlit("type");
    reveal_strlit("response");
    assert("type"@.len() == 4 && "response"@.len() == 8);
    reveal_strlit("response.create");
    reveal_strlit("response.cancel");
    assert("response.create"@[10] == 'r' && "response.cancel"@[10] == 'a');
}

/// A response that is over, or cancelled from either side, makes way for the next.
pub proof fn law_ended_response_makes_way(in_flight: bool, evt: JsonView)
    ensures
        text_field(evt, "type"@) == "response.done"@ || text_field(evt, "type"@)
            == "response.cancelled"@ ==> !upstream_step(in_flight, evt).0,
        text_field(evt, "type"@) == "response.cancel"@ ==> client_step(in_flight, evt) == (
            false,
            Some(evt),
        ),
{
    reveal_strlit("response.created");
    reveal_strlit("response.cancelled");
    reveal_strlit("response.done");
    assert("response.created"@.len() == 16 && "response.done"@.len() == 13);
    assert("response.cancelled"@.len() == 18);
    reveal_strlit("response.create");
    reveal_strlit("response.cancel");
    assert("response.create"@[10] == 'r' && "response.cancel"@[10] == 'a');
}

/// Whether an effect asks the model for a response.
pub open spec fn asks_for_response(e: EffectView) -> bool {
    e matches EffectView::ToModel(v) && text_field(v, "type"@) == "response.create"@
}

proof fn lemma_event_types()
    ensures
        "type"@ != "session"@,
        "type"@ != "item"@,
        "session.update"@ != "response.create"@,
        "conversation.item.create"@ != "response.create"@,
{
    reveal_strlit("type");
    reveal_strlit("session");
    reveal_strlit("item");
    reveal_strlit("session.update");
    reveal_strlit("conversation.item.create");
    reveal_strlit("response.create");
    assert("type"@.len() == 4 && "session"@.len() == 7 && "item"@.len() == 4);
    assert("type"@[0] == 't' && "item"@[0] == 'i');
    assert("session.update"@[0] == 's' && "response.create"@[0] == 'r');
    assert("conversation.item.create"@[0] == 'c');
}

/// Whatever happens, the model is asked for a response only where none is under way, and
/// no more than once; and from then on one is under way.
pub proof fn law_session_asks_for_one_response_at_a_time(
    in_flight: bool,
    event: SessionEventView,
    i: int,
)
    requires
        0 <= i < session_step(in_flight, event).1.len(),
        asks_for_response(session_step(in_flight, event).1[i]),
    ensures
        !in_flight,
        session_step(in_flight, event).0,
        forall|j: int|
            0 <= j < session_step(in_flight, event).1.len() && asks_for_response(
                #[trigger] session_step(in_flight, event).1[j],
            ) ==> j == i,
{
    lemma_event_types();
    if let SessionEventView::Client(raw) = event {
        if let Some(evt) = json_parse(raw) {
            law_only_allowed_events_pass(in_flight, evt);
        }
    }
}

/// The browser is shown every event of the model, as it is and before anything else; what
/// is no JSON does nothing.
pub proof fn law_model_events_reach_the_browser(in_flight: bool, raw: Seq<char>)
    ensures
        match json_parse(raw) {
            Some(evt) => session_step(in_flight, SessionEventView::Upstream(raw)).1.len() > 0
                && session_step(in_flight, SessionEventView::Upstream(raw)).1[0]
                == EffectView::ToBrowser(evt),
            None => session_step(in_flight, SessionEventView::Upstream(raw)) == (
                in_flight,
                Seq::<EffectView>::empty(),
            ),
        },
{
}

/// A build is begun only when the model was told that it will be, and only for a call that
/// asks for slides.
pub proof fn law_builds_are_acknowledged(in_flight: bool, event: SessionEventView, i: int)
    requires
        0 <= i < session_step(in_flight, event).1.len(),
        session_step(in_flight, event).1[i] is Build,
    ensures
        ({
            let id = session_step(in_flight, event).1[i]->Build_0;
            &&& id.len() > 0
            &&& i > 0
            &&& session_step(in_flight, event).1[i - 1] == EffectView::ToModel(acknowledgement(id))
        }),
{
}

/// Whether an effect puts an item into the conversation of the model.
pub open spec fn puts_item(e: EffectView) -> bool {
    e matches EffectView::ToModel(v) && field(v, "type"@) == Some(
        JsonView::Text("conversation.item.create"@),
    )
}

/// Whether an effect puts this text into the conversation, as one that the system says.
pub open spec fn tells_model(e: EffectView, said: Seq<char>) -> bool {
    &&& puts_item(e)
    &&& field(e->ToModel_0, "item"@) matches Some(item)
    &&& field(item, "type"@) == Some(JsonView::Text("message"@))
    &&& field(item, "role"@) == Some(JsonView::Text("system"@))
    &&& field(item, "content"@) matches Some(JsonView::Array(parts))
    &&& parts.len() == 1
    &&& field(parts[0], "type"@) == Some(JsonView::Text("input_text"@))
    &&& field(parts[0], "text"@) == Some(JsonView::Text(said))
}

/// Whether an effect asks the model for a response along these lines.
pub open spec fn asks_along(e: EffectView, instructions: Seq<char>) -> bool {
    &&& e matches EffectView::ToModel(v)
    &&& field(v, "type"@) == Some(JsonView::Text("response.create"@))
    &&& field(v, "response"@) matches Some(response)
    &&& field(response, "instructions"@) == Some(JsonView::Text(instructions))
}

/// When a build is over the model is told its summary, once and whatever the call is, and the
/// browser the same summary with the id of the call. A response is asked for along with it,
/// unless one is under way.
pub proof fn law_summary_reaches_model_and_browser(
    in_flight: bool,
    id: Seq<char>,
    summary: Seq<char>,
)
    ensures
        ({
            let (after, effects) = session_step(in_flight, SessionEventView::Built(id, summary));
            &&& after
            &&& exists|k: int|
                0 <= k < effects.len() && #[trigger] tells_model(
                    effects[k],
                    "[BUILD RESULT] "@ + summary,
                ) && forall|j: int|
                    0 <= j < effects.len() && j != k ==> !puts_item(#[trigger] effects[j])
            &&& exists|k: int|
                0 <= k < effects.len() && (#[trigger] effects[k]) is ToBrowser && ({
                    let v = effects[k]->ToBrowser_0;
                    &&& field(v, "type"@) == Some(JsonView::Text("ui.build_resolved"@))
                    &&& field(v, "call_id"@) == Some(JsonView::Text(id))
                    &&& field(v, "summary"@) == Some(JsonView::Text(summary))
                })
            &&& in_flight ==> effects.len() == 2
            &&& !in_flight ==> effects.len() == 3 && asks_along(effects[2], CONFIRMATION@)
        }),
{
    reveal_strlit("type");
    reveal_strlit("item");
    reveal_strlit("role");
    reveal_strlit("content");
    reveal_strlit("text");
    reveal_strlit("call_id");
    reveal_strlit("summary");
    reveal_strlit("response");
    reveal_strlit("instructions");
    assert("type"@.len() == 4 && "item"@.len() == 4 && "role"@.len() == 4 && "content"@.len() == 7);
    assert("text"@.len() == 4 && "call_id"@.len() == 7 && "summary"@.len() == 7);
    assert("response"@.len() == 8 && "instructions"@.len() == 12 && "type"@[1] == 'y');
    assert("item"@[1] == 't' && "role"@[1] == 'o' && "text"@[1] == 'e' && "content"@[1] == 'o');
    assert("call_id"@[1] == 'a' && "summary"@[1] == 'u');
    lemma_event_types();
    let effects = session_step(in_flight, SessionEventView::Built(id, summary)).1;
    assert(effects[0] == EffectView::ToBrowser(resolved_event(id, summary)));
    assert(effects[1] == EffectView::ToModel(result_item(summary)));
    assert(tells_model(effects[1], "[BUILD RESULT] "@ + summary));
}

/// When the model is reached it is told of the one tool that it has, and greets the user;
/// when it is not, the browser is told why and the session closes.
pub proof fn law_session_opens_or_says_why_not(in_flight: bool, reason: Seq<char>)
    ensures
        ({
            let (after, effects) = session_step(in_flight, SessionEventView::Opened);
            &&& after
            &&& effects.len() == if in_flight {
                1int
            } else {
                2
            }
            &&& effects[0] matches EffectView::ToModel(v) && field(v, "type"@) == Some(
                JsonView::Text("session.update"@),
            ) && (field(v, "session"@) matches Some(s) && field(s, "tool_choice"@) == Some(
                JsonView::Text("auto"@),
            ) && (field(s, "tools"@) matches Some(JsonView::Array(tools)) && tools.len() == 1
                && field(tools[0], "type"@) == Some(JsonView::Text("function"@)) && field(
                tools[0],
                "name"@,
            ) == Some(JsonView::Text("build_slides"@))) && (field(s, "input_audio_transcription"@)
                matches Some(t) && field(t, "model"@) == Some(JsonView::Text("whisper-1"@))))
            &&& !in_flight ==> asks_along(effects[1], GREETING@)
        }),
        ({
            let (after, effects) = session_step(in_flight, SessionEventView::NotReached(reason));
            &&& after == in_flight
            &&& effects.len() == 2
            &&& effects[0] matches EffectView::ToBrowser(v) && field(v, "type"@) == Some(
                JsonView::Text("error"@),
            ) && (field(v, "error"@) matches Some(e) && field(e, "code"@) == Some(
                JsonView::Text("upstream_connect_failed"@),
            ) && field(e, "message"@) == Some(JsonView::Text(reason)))
            &&& effects[1] == EffectView::Close
        }),
{
    reveal_strlit("type");
    reveal_strlit("session");
    reveal_strlit("tools");
    reveal_strlit("tool_choice");
    reveal_strlit("input_audio_transcription");
    reveal_strlit("model");
    reveal_strlit("name");
    reveal_strlit("description");
    reveal_strlit("parameters");
    reveal_strlit("response");
    reveal_strlit("instructions");
    reveal_strlit("error");
    reveal_strlit("code");
    reveal_strlit("message");
    assert("type"@.len() == 4 && "session"@.len() == 7 && "tools"@.len() == 5);
    assert("tool_choice"@.len() == 11 && "input_audio_transcription"@.len() == 25);
    assert("model"@.len() == 5 && "name"@.len() == 4 && "description"@.len() == 11);
    assert("parameters"@.len() == 10 && "response"@.len() == 8 && "instructions"@.len() == 12);
    assert("error"@.len() == 5 && "code"@.len() == 4 && "message"@.len() == 7 && "type"@[0] == 't');
    assert("name"@[0] == 'n' && "code"@[0] == 'c' && "session"@[0] == 's' && "message"@[0] == 'm');
    assert("tools"@[0] == 't' && "model"@[0] == 'm' && "error"@[0] == 'e');
    assert("tool_choice"@[0] == 't' && "description"@[0] == 'd');
    let (after, effects) = session_step(in_flight, SessionEventView::Opened);
    assert(effects[0] == EffectView::ToModel(registration_event()));
}

/// An error that the browser is told of carries its code and its message.
pub proof fn law_error_carries_code_and_message(code: Seq<char>, message: Seq<char>)
    ensures
        field(error_event(code, message), "type"@) == Some(JsonView::Text("error"@)),
        field(error_event(code, message), "error"@) matches Some(e) && field(e, "code"@) == Some(
            JsonView::Text(code),
        ) && field(e, "message"@) == Some(JsonView::Text(message)),
{
    reveal_strlit("type");
    reveal_strlit("error");
    reveal_strlit("code");
    reveal_strlit("message");
    assert("type"@.len() == 4 && "error"@.len() == 5 && "code"@.len() == 4);
    assert("message"@.len() == 7 && "type"@[0] == 't' && "code"@[0] == 'c');
}

/// A session is refused just where the settings are missing or not enough, and the reason
/// says which.
pub proof fn law_session_needs_complete_settings(cfg: Option<&AppConfig>)
    ensures
        refusal_to_open(cfg) is None <==> (cfg matches Some(c) && ready(c@)),
        cfg is None ==> refusal_to_open(cfg) == Some("config missing"@),
        cfg matches Some(c) ==> (!ready(c@) ==> refusal_to_open(cfg) == Some(
            "config incomplete"@,
        )),
{
}

/// The tool by which the voice agent asks for slides takes one text, which it must give.
pub proof fn law_slides_are_asked_for_by_instruction()
    ensures
        field(build_slides_schema(), "type"@) == Some(JsonView::Text("function"@)),
        field(build_slides_schema(), "name"@) == Some(JsonView::Text("build_slides"@)),
        field(build_slides_schema(), "parameters"@) matches Some(p) && (field(p, "properties"@)
            matches Some(all) && (field(all, "instruction"@) matches Some(one) && field(
            one,
            "type"@,
        ) == Some(JsonView::Text("string"@)))) && field(p, "required"@) == Some(
            JsonView::Array(seq![JsonView::Text("instruction"@)]),
        ),
{
    reveal_strlit("type");
    reveal_strlit("name");
    reveal_strlit("description");
    reveal_strlit("parameters");
    reveal_strlit("properties");
    reveal_strlit("required");
    reveal_strlit("instruction");
    assert("type"@.len() == 4 && "name"@.len() == 4 && "description"@.len() == 11);
    assert("parameters"@.len() == 10 && "properties"@.len() == 10 && "required"@.len() == 8);
    assert("instruction"@.len() == 11 && "type"@[0] == 't');
    assert("name"@[0] == 'n' && "description"@[0] == 'd' && "instruction"@[0] == 'i');
    assert("parameters"@[1] == 'a' && "properties"@[1] == 'r');
    assert(text_items(seq!["instruction"])->Array_0 =~= seq![JsonView::Text("instruction"@)]);
}

/// Just these events may go from the browser to the model: audio, items of the conversation,
/// requests for a response and their end, and changes of the session.
pub proof fn law_what_the_browser_may_send(t: Seq<char>)
    ensures
        allowed(t) <==> set![
            "input_audio_buffer.append"@,
            "input_audio_buffer.commit"@,
            "input_audio_buffer.clear"@,
            "conversation.item.create"@,
            "response.create"@,
            "response.cancel"@,
            "session.update"@,
        ].contains(t),
{
}

/// An event of the browser that may go to the model goes as it is, and alone; a request for a
/// response goes with the instructions that it has, where none is under way.
pub proof fn law_browser_events_reach_the_model(in_flight: bool, raw: Seq<char>)
    ensures
        match json_parse(raw) {
            Some(evt) => {
                let t = text_field(evt, "type"@);
                let (after, effects) = session_step(in_flight, SessionEventView::Client(raw));
                &&& allowed(t) && t != "response.create"@ ==> effects.len() == 1 && effects[0]
                    == EffectView::ToModel(evt) && after == (in_flight && t != "response.cancel"@)
                &&& !allowed(t) ==> effects.len() == 0 && after == in_flight
                &&& t == "response.create"@ && in_flight ==> effects.len() == 0 && after
                &&& t == "response.create"@ && !in_flight ==> after && effects.len() == 1
                    && asks_for_response(effects[0]) && match field(evt, "response"@) {
                    Some(r) => match field(r, "instructions"@) {
                        Some(JsonView::Text(said)) => asks_along(effects[0], said),
                        _ => field(effects[0]->ToModel_0, "response"@) is None,
                    },
                    None => field(effects[0]->ToModel_0, "response"@) is None,
                }
            },
            None => session_step(in_flight, SessionEventView::Client(raw)) == (
                in_flight,
                Seq::<EffectView>::empty(),
            ),
        },
{
    reveal_strlit("type");
    reveal_strlit("response");
    reveal_strlit("instructions");
    assert("type"@.len() == 4 && "response"@.len() == 8 && "instructions"@.len() == 12);
    reveal_strlit("response.create");
    reveal_strlit("response.cancel");
    assert("response.create"@.len() == 15 && "response.cancel"@.len() == 15);
    assert("response.create"@[10] == 'r' && "response.cancel"@[10] == 'a');
}

/// A call of the model for slides is passed on whole: the browser is told that they are
/// pending, with the id of the call and the beginning of the instruction; the model that the
/// call is pending, by the same id; and the build is begun for that call with the instruction
/// that it gives.
pub proof fn law_call_for_slides_begins_a_build(in_flight: bool, raw: Seq<char>, evt: JsonView)
    requires
        json_parse(raw) == Some(evt),
        text_field(evt, "type"@) == "response.function_call_arguments.done"@,
    ensures
        ({
            let (after, effects) = session_step(in_flight, SessionEventView::Upstream(raw));
            let id = text_field(evt, "call_id"@);
            let name = match field(evt, "name"@) {
                Some(JsonView::Text(n)) => n,
                _ => match field(evt, "function"@) {
                    Some(f) => text_field(f, "name"@),
                    None => Seq::empty(),
                },
            };
            let args = match field(evt, "arguments"@) {
                Some(JsonView::Text(t)) => json_parse(t),
                _ => json_parse("{}"@),
            };
            let instruction = match args {
                Some(a) => trimmed(text_field(a, "instruction"@)),
                None => Seq::empty(),
            };
            &&& after == in_flight
            &&& id.len() == 0 || name != "build_slides"@ ==> effects.len() == 1
            &&& id.len() > 0 && name == "build_slides"@ ==> {
                &&& effects.len() == 4
                &&& effects[1] matches EffectView::ToBrowser(v) && field(v, "type"@) == Some(
                    JsonView::Text("ui.build_pending"@),
                ) && field(v, "call_id"@) == Some(JsonView::Text(id)) && (field(v, "instruction"@)
                    matches Some(JsonView::Text(t)) && t.is_prefix_of(instruction) && (
                instruction.len() <= 140 ==> t == instruction) && (instruction.len() > 140
                    ==> t.len() == 140))
                &&& puts_item(effects[2])
                &&& field(effects[2]->ToModel_0, "item"@) matches Some(item) && field(
                    item,
                    "type"@,
                ) == Some(JsonView::Text("function_call_output"@)) && field(item, "call_id"@)
                    == Some(JsonView::Text(id)) && (field(item, "output"@) matches Some(
                    JsonView::Text(t),
                ) && exists|note: JsonView|
                    t == #[trigger] json_print(note) && field(note, "status"@) == Some(
                        JsonView::Text("pending"@),
                    ))
                &&& effects[3] == EffectView::Build(id, instruction)
            }
        }),
{
    reveal_strlit("type");
    reveal_strlit("item");
    reveal_strlit("call_id");
    reveal_strlit("instruction");
    reveal_strlit("output");
    reveal_strlit("status");
    reveal_strlit("note");
    reveal_strlit("name");
    reveal_strlit("function");
    reveal_strlit("arguments");
    assert("type"@.len() == 4 && "item"@.len() == 4 && "call_id"@.len() == 7);
    assert("instruction"@.len() == 11 && "output"@.len() == 6 && "status"@.len() == 6);
    assert("note"@.len() == 4 && "name"@.len() == 4 && "function"@.len() == 8);
    assert("arguments"@.len() == 9 && "type"@[1] == 'y' && "item"@[1] == 't' && "note"@[1] == 'o');
    assert("name"@[1] == 'a' && "output"@[0] == 'o' && "status"@[0] == 's');
    reveal_strlit("response.created");
    reveal_strlit("response.done");
    reveal_strlit("response.cancelled");
    reveal_strlit("response.function_call_arguments.done");
    assert("response.created"@.len() == 16 && "response.done"@.len() == 13);
    assert("response.cancelled"@.len() == 18);
    assert("response.function_call_arguments.done"@.len() == 37);
    let effects = session_step(in_flight, SessionEventView::Upstream(raw)).1;
    let id = text_field(evt, "call_id"@);
    let c = voice_call(evt);
    if asks_for_build(c) {
        let instruction = trimmed(text_field(c.args, "instruction"@));
        assert(trimmed(Seq::<char>::empty()) =~= Seq::empty());
        assert(effects[1] == EffectView::ToBrowser(pending_event(id, instruction)));
        assert(effects[2] == EffectView::ToModel(acknowledgement(id)));
        assert(field(pending_note(), "status"@) == Some(JsonView::Text("pending"@)));
    }
}

/// The model is responding from the event that says so until the one that says that the
/// response is over; no other event of its changes that, and none but a call asks for
/// anything.
pub proof fn law_model_events_say_who_speaks(in_flight: bool, raw: Seq<char>, evt: JsonView)
    requires
        json_parse(raw) == Some(evt),
    ensures
        ({
            let t = text_field(evt, "type"@);
            let (after, effects) = session_step(in_flight, SessionEventView::Upstream(raw));
            &&& t == "response.created"@ ==> after
            &&& t == "response.done"@ || t == "response.cancelled"@ ==> !after
            &&& t != "response.created"@ && t != "response.done"@ && t != "response.cancelled"@
                ==> after == in_flight
            &&& t != "response.function_call_arguments.done"@ ==> effects.len() == 1
        }),
{
    reveal_strlit("response.created");
    reveal_strlit("response.done");
    reveal_strlit("response.cancelled");
    reveal_strlit("response.function_call_arguments.done");
    assert("response.created"@.len() == 16 && "response.done"@.len() == 13);
    assert("response.cancelled"@.len() == 18);
    assert("response.function_call_arguments.done"@.len() == 37);
}

/// An event for the browser holds the entries of its payload, each as it is, and its type
/// where the payload has none; and nothing else.
pub proof fn law_payload_is_kept(t: Seq<char>, payload: JsonView, key: Seq<char>)
    ensures
        field(payload, key) is Some ==> field(tagged_event(t, payload), key) == field(payload, key),
        field(payload, key) is None ==> field(tagged_event(t, payload), key) == if key == "type"@ {
            Some(JsonView::Text(t))
        } else {
            None
        },
{
}

} // verus!
