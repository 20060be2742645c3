//! What the models are sent, and what is made of their replies.

use serde_json::Value;
use vstd::prelude::*;
use vstd::string::*;

use crate::calls::picture_view;
use crate::config::{AppConfig, ConfigView};
use crate::deck::{Image, ImageView};
use crate::json::{
    array, copy, field, get, items_at, items_of, json_entries, json_parse, json_view, json_views,
    null, number, object, parse, put, put_text, text_at, text_of, value_view, JsonView,
};
use crate::num::{dec, decimal};
use crate::ops::{refused, refused_json};
use crate::provider::{
    auth_headers, body_model, chat_address, chat_url, header_views, image_address, image_url,
    named_model, resource_host, sign_in, text_result,
};
use crate::text::{clipped, trim, trimmed, truncate};

verus! {

/// A request to a model.
pub struct HttpCall {
    pub url: String,
    pub headers: Vec<(&'static str, String)>,
    pub body: Value,
}

pub struct HttpCallView {
    pub url: Seq<char>,
    pub headers: Seq<(Seq<char>, Seq<char>)>,
    pub body: JsonView,
}

impl View for HttpCall {
    type V = HttpCallView;

    open spec fn view(&self) -> HttpCallView {
        HttpCallView {
            url: self.url@,
            headers: header_views(self.headers@),
            body: json_view(self.body),
        }
    }
}

pub open spec fn call_result(r: Result<HttpCall, String>) -> Result<HttpCallView, Seq<char>> {
    match r {
        Ok(c) => Ok(c@),
        Err(e) => Err(e@),
    }
}

/// What came of a request.
pub enum HttpReply {
    /// The request did not get through; why.
    Failed(String),
    /// The service refused it; the status code and the text.
    Refused(u16, String),
    /// The service replied with something that could not be read, or is no text.
    Garbled,
    /// The service replied with this text.
    Body(String),
}

pub enum ReplyView {
    Failed(Seq<char>),
    Refused(nat, Seq<char>),
    Garbled,
    Body(Seq<char>),
}

impl View for HttpReply {
    type V = ReplyView;

    open spec fn view(&self) -> ReplyView {
        match self {
            HttpReply::Failed(e) => ReplyView::Failed(e@),
            HttpReply::Refused(code, t) => ReplyView::Refused(*code as nat, t@),
            HttpReply::Garbled => ReplyView::Garbled,
            HttpReply::Body(t) => ReplyView::Body(t@),
        }
    }
}

/// The JSON that a reply holds, or, where it holds none, what is said of it; `limit` is how
/// much of the service's own words is shown.
pub open spec fn reply_json(what: Seq<char>, reply: ReplyView, limit: int) -> Result<
    JsonView,
    Seq<char>,
> {
    match reply {
        ReplyView::Failed(e) => Err(what + " request: "@ + e),
        ReplyView::Refused(code, t) => Err(what + " http "@ + dec(code) + ": "@ + clipped(t, limit)),
        ReplyView::Garbled => Err(what + " decode: error decoding response body"@),
        ReplyView::Body(t) => match json_parse(t) {
            Some(v) => Ok(v),
            None => Err(what + " decode: error decoding response body"@),
        },
    }
}

/// The JSON of a reply, or what is said where there is none.
fn body_of(what: &str, reply: HttpReply, limit: usize) -> (r: Result<Value, String>)
    ensures
        value_result(r) == reply_json(what@, reply@, limit as int),
{
    let mut e = what.to_string();
    match reply {
        HttpReply::Failed(why) => {
            e.append(" request: ");
            e.append(why.as_str());
        },
        HttpReply::Refused(code, t) => {
            e.append(" http ");
            e.append(decimal(code as u128).as_str());
            e.append(": ");
            e.append(truncate(t.as_str(), limit).as_str());
        },
        HttpReply::Garbled => {
            e.append(" decode: error decoding response body");
        },
        HttpReply::Body(t) => {
            if let Some(v) = parse(t.as_str()) {
                return Ok(v);
            }
            e.append(" decode: error decoding response body");
        },
    }
    Err(e)
}

/// The first item of the array at `key`.
pub open spec fn first_at(v: JsonView, key: Seq<char>) -> Option<JsonView> {
    match items_at(v, key) {
        Some(items) => if items.len() > 0 {
            Some(items[0])
        } else {
            None
        },
        None => None,
    }
}

fn first_of<'a>(v: &'a Value, key: &str) -> (r: Option<&'a Value>)
    ensures
        value_view(r) == first_at(json_view(*v), key@),
{
    match items_of(v, key) {
        Some(items) => {
            assert(json_views(items@).len() == items@.len());
            if items.len() > 0 {
                assert(json_views(items@)[0] == json_view(items@[0]));
                Some(&items[0])
            } else {
                None
            }
        },
        None => None,
    }
}

/// The entries of a request, with the model where the provider wants it named there.
pub open spec fn with_model(
    entries: Map<Seq<char>, JsonView>,
    model: Option<Seq<char>>,
) -> Map<Seq<char>, JsonView> {
    match model {
        Some(m) => entries.insert("model"@, JsonView::Text(m)),
        None => entries,
    }
}

fn put_model(m: &mut serde_json::Map<String, Value>, model: Option<&str>)
    ensures
        json_entries(*final(m)) == with_model(
            json_entries(*old(m)),
            crate::text::str_view(model),
        ),
{
    match model {
        Some(name) => {
            put_text(m, "model", name);
        },
        None => {},
    }
}

// ---- Chat --------------------------------------------------------------

pub open spec fn chat_body(c: ConfigView, messages: Seq<JsonView>, tools: JsonView) -> JsonView {
    JsonView::Object(
        with_model(
            map![
                "messages"@ => JsonView::Array(messages),
                "tools"@ => tools,
                "tool_choice"@ => JsonView::Text("auto"@),
            ],
            named_model(c, c.slide_model),
        ),
    )
}

pub open spec fn call_to(
    c: ConfigView,
    url: Result<Seq<char>, Seq<char>>,
    body: JsonView,
) -> Result<HttpCallView, Seq<char>> {
    match url {
        Ok(u) => Ok(HttpCallView { url: u, headers: sign_in(c), body: body }),
        Err(e) => Err(e),
    }
}

fn copies(values: &Vec<Value>) -> (r: Vec<Value>)
    ensures
        json_views(r@) == json_views(values@),
{
    let ghost all = json_views(values@);
    let mut r: Vec<Value> = Vec::new();
    let mut i: usize = 0;
    while i < values.len()
        invariant
            i <= values@.len(),
            all == json_views(values@),
            json_views(r@) =~= all.take(i as int),
        decreases values@.len() - i,
    {
        assert(all[i as int] == json_view(values@[i as int]));
        r.push(copy(&values[i]));
        i = i + 1;
        assert(all.take(i as int) =~= all.take(i - 1).push(all[i - 1]));
    }
    assert(all.take(i as int) =~= all);
    r
}

/// The request that puts some messages and tools to the slide model.
pub fn chat_call(cfg: &AppConfig, messages: &Vec<Value>, tools: Value) -> (r: Result<
    HttpCall,
    String,
>)
    ensures
        call_result(r) == call_to(
            cfg@,
            chat_address(cfg@, resource_host(cfg@)),
            chat_body(cfg@, json_views(messages@), json_view(tools)),
        ),
{
    match chat_url(cfg) {
        Ok(url) => {
            let mut m = serde_json::Map::new();
            put(&mut m, "messages", array(copies(messages)));
            put(&mut m, "tools", tools);
            put_text(&mut m, "tool_choice", "auto");
            put_model(&mut m, body_model(cfg, cfg.slide_model.as_str()));
            Ok(HttpCall { url, headers: auth_headers(cfg), body: object(m) })
        },
        Err(e) => Err(e),
    }
}

/// The message that a reply holds, where it holds one.
pub open spec fn reply_message(data: JsonView) -> Option<JsonView> {
    match first_at(data, "choices"@) {
        Some(c) => field(c, "message"@),
        None => None,
    }
}

/// A part of that message.
pub open spec fn message_part(data: JsonView, key: Seq<char>) -> Option<JsonView> {
    match reply_message(data) {
        Some(m) => field(m, key),
        None => None,
    }
}

/// What is kept of the message: who says it, the text, and the tool calls.
pub open spec fn kept_message(data: JsonView) -> JsonView {
    JsonView::Object(
        map![
            "role"@ => JsonView::Text(
                match message_part(data, "role"@) {
                    Some(JsonView::Text(t)) => t,
                    _ => "assistant"@,
                },
            ),
            "content"@ => match message_part(data, "content"@) {
                Some(v) => v,
                None => JsonView::Null,
            },
            "tool_calls"@ => match message_part(data, "tool_calls"@) {
                Some(v) => v,
                None => JsonView::Array(Seq::empty()),
            },
        ],
    )
}

fn message_of<'a>(data: &'a Value) -> (r: Option<&'a Value>)
    ensures
        value_view(r) == reply_message(json_view(*data)),
{
    match first_of(data, "choices") {
        Some(c) => get(c, "message"),
        None => None,
    }
}

fn part_of<'a>(data: &'a Value, key: &str) -> (r: Option<&'a Value>)
    ensures
        value_view(r) == message_part(json_view(*data), key@),
{
    match message_of(data) {
        Some(m) => get(m, key),
        None => None,
    }
}

pub open spec fn value_result(r: Result<Value, String>) -> Result<JsonView, Seq<char>> {
    match r {
        Ok(v) => Ok(json_view(v)),
        Err(e) => Err(e@),
    }
}

/// Takes the message out of what the slide model replies.
pub fn keep_message(data: &Value) -> (r: Value)
    ensures
        json_view(r) == kept_message(json_view(*data)),
{
    let mut m = serde_json::Map::new();
    let role = match part_of(data, "role") {
        Some(v) => match v.as_str() {
            Some(t) => t.to_string(),
            None => "assistant".to_string(),
        },
        None => "assistant".to_string(),
    };
    put_text(&mut m, "role", role.as_str());
    let content = match part_of(data, "content") {
        Some(v) => copy(v),
        None => null(),
    };
    put(&mut m, "content", content);
    let tool_calls = match part_of(data, "tool_calls") {
        Some(v) => copy(v),
        None => {
            let none: Vec<Value> = Vec::new();
            assert(json_views(none@) =~= Seq::empty());
            array(none)
        },
    };
    put(&mut m, "tool_calls", tool_calls);
    object(m)
}

/// What a reply of the slide model comes to.
pub open spec fn chat_outcome(reply: ReplyView) -> Result<JsonView, Seq<char>> {
    match reply_json("chat"@, reply, 300) {
        Ok(data) => Ok(kept_message(data)),
        Err(e) => Err(e),
    }
}

/// Reads the message out of a reply of the slide model.
pub fn chat_message(reply: HttpReply) -> (r: Result<Value, String>)
    ensures
        value_result(r) == chat_outcome(reply@),
{
    match body_of("chat", reply, 300) {
        Ok(data) => Ok(keep_message(&data)),
        Err(e) => Err(e),
    }
}

// ---- Images ------------------------------------------------------------

pub open spec fn image_body(c: ConfigView, prompt: Seq<char>, size: Seq<char>) -> JsonView {
    JsonView::Object(
        with_model(
            map![
                "prompt"@ => JsonView::Text(prompt),
                "n"@ => JsonView::Int(1),
                "size"@ => JsonView::Text(size),
            ],
            named_model(c, c.image_model),
        ),
    )
}

/// The request that asks the image model for an image.
pub fn image_call(cfg: &AppConfig, prompt: &str, size: &str) -> (r: Result<HttpCall, String>)
    ensures
        call_result(r) == call_to(
            cfg@,
            image_address(cfg@, resource_host(cfg@)),
            image_body(cfg@, prompt@, size@),
        ),
{
    match image_url(cfg) {
        Ok(url) => {
            let mut m = serde_json::Map::new();
            put_text(&mut m, "prompt", prompt);
            put(&mut m, "n", number(1));
            put_text(&mut m, "size", size);
            put_model(&mut m, body_model(cfg, cfg.image_model.as_str()));
            Ok(HttpCall { url, headers: auth_headers(cfg), body: object(m) })
        },
        Err(e) => Err(e),
    }
}

/// The data URI of the image that the image model gives, or that there is none.
pub open spec fn given_image(data: JsonView) -> Result<Seq<char>, Seq<char>> {
    match first_at(data, "data"@) {
        Some(d) => match text_at(d, "b64_json"@) {
            Some(b) => Ok("data:image/png;base64,"@ + b),
            None => Err("no image returned"@),
        },
        None => Err("no image returned"@),
    }
}

/// Takes the data URI of an image out of what the image model replies.
pub fn keep_image(data: &Value) -> (r: Result<String, String>)
    ensures
        text_result(r) == given_image(json_view(*data)),
{
    match first_of(data, "data") {
        Some(d) => match text_of(d, "b64_json") {
            Some(b) => {
                let mut r = "data:image/png;base64,".to_string();
                r.append(b);
                Ok(r)
            },
            None => Err("no image returned".to_string()),
        },
        None => Err("no image returned".to_string()),
    }
}

/// What a reply of the image model comes to: the data URI of the image.
pub open spec fn image_outcome(reply: ReplyView) -> Result<Seq<char>, Seq<char>> {
    match reply_json("image"@, reply, 200) {
        Ok(data) => given_image(data),
        Err(e) => Err(e),
    }
}

/// Reads the data URI of an image out of a reply of the image model.
pub fn image_data_uri(reply: HttpReply) -> (r: Result<String, String>)
    ensures
        text_result(r) == image_outcome(reply@),
{
    match body_of("image", reply, 200) {
        Ok(data) => keep_image(&data),
        Err(e) => Err(e),
    }
}

pub open spec fn ordered_call(r: Result<HttpCall, Value>) -> Result<HttpCallView, JsonView> {
    match r {
        Ok(c) => Ok(c@),
        Err(v) => Err(json_view(v)),
    }
}

/// The size of an image that none was asked for.
pub open spec fn size_or_default(size: Seq<char>) -> Seq<char> {
    if size.len() == 0 {
        "1536x1024"@
    } else {
        size
    }
}

/// The request for an image that the slide model has asked for, or the result that says
/// why there is none.
pub open spec fn order_call(
    c: ConfigView,
    host: Result<Seq<char>, Seq<char>>,
    prompt: Seq<char>,
    size: Seq<char>,
) -> Result<HttpCallView, JsonView> {
    if trimmed(prompt).len() == 0 {
        Err(refused_json("empty prompt"@))
    } else {
        match call_to(
            c,
            image_address(c, host),
            image_body(c, trimmed(prompt), size_or_default(size)),
        ) {
            Ok(call) => Ok(call),
            Err(e) => Err(refused_json(e)),
        }
    }
}

/// The request for an image that the slide model has asked for.
pub fn begin_image(cfg: &AppConfig, prompt: &str, size: &str) -> (r: Result<HttpCall, Value>)
    ensures
        ordered_call(r) == order_call(cfg@, resource_host(cfg@), prompt@, size@),
{
    let prompt = trim(prompt);
    if prompt.is_empty() {
        return Err(refused("empty prompt"));
    }
    let size = if size.is_empty() {
        "1536x1024"
    } else {
        size
    };
    match image_call(cfg, prompt, size) {
        Ok(c) => Ok(c),
        Err(e) => Err(refused(e.as_str())),
    }
}

/// The image that the slide model has asked for, or the result that says why there is
/// none.
pub open spec fn order_outcome(prompt: Seq<char>, reply: ReplyView) -> Result<
    ImageView,
    JsonView,
> {
    match image_outcome(reply) {
        Ok(uri) => Ok(ImageView { data_uri: uri, prompt: trimmed(prompt) }),
        Err(e) => Err(refused_json(e)),
    }
}

/// Makes a reply of the image model into what the slide model has asked for.
pub fn finish_image(prompt: &str, reply: HttpReply) -> (r: Result<Image, Value>)
    ensures
        picture_view(r) == order_outcome(prompt@, reply@),
{
    match image_data_uri(reply) {
        Ok(data_uri) => Ok(Image { data_uri, prompt: trim(prompt).to_string() }),
        Err(e) => Err(refused(e.as_str())),
    }
}

// ---- Captions ----------------------------------------------------------

pub open spec fn caption_question() -> Seq<char> {
    "Describe this image for a slide designer in 1–2 sentences. State the subject, key visual elements, style, and dominant colors. Be concrete and factual; do not add commentary or markdown."@
}

/// What the slide model is asked of an image.
pub open spec fn caption_line(data_uri: Seq<char>) -> JsonView {
    let question = JsonView::Object(
        map!["type"@ => JsonView::Text("text"@), "text"@ => JsonView::Text(caption_question())],
    );
    let picture = JsonView::Object(
        map![
            "type"@ => JsonView::Text("image_url"@),
            "image_url"@ => JsonView::Object(map!["url"@ => JsonView::Text(data_uri)]),
        ],
    );
    JsonView::Object(
        map![
            "role"@ => JsonView::Text("user"@),
            "content"@ => JsonView::Array(seq![question, picture]),
        ],
    )
}

pub open spec fn caption_body(c: ConfigView, data_uri: Seq<char>) -> JsonView {
    JsonView::Object(
        with_model(
            map!["messages"@ => JsonView::Array(seq![caption_line(data_uri)])],
            named_model(c, c.slide_model),
        ),
    )
}

fn caption_message(data_uri: &str) -> (r: Value)
    ensures
        json_view(r) == caption_line(data_uri@),
{
    let mut question = serde_json::Map::new();
    put_text(&mut question, "type", "text");
    put_text(&mut question, "text", "Describe this image for a slide designer in 1–2 sentences. State the subject, key visual elements, style, and dominant colors. Be concrete and factual; do not add commentary or markdown.");
    let mut place = serde_json::Map::new();
    put_text(&mut place, "url", data_uri);
    let mut picture = serde_json::Map::new();
    put_text(&mut picture, "type", "image_url");
    put(&mut picture, "image_url", object(place));
    let ghost q = JsonView::Object(json_entries(question));
    let ghost p = JsonView::Object(json_entries(picture));
    let mut parts: Vec<Value> = Vec::new();
    parts.push(object(question));
    parts.push(object(picture));
    assert(json_views(parts@) =~= seq![q, p]);
    let mut m = serde_json::Map::new();
    put_text(&mut m, "role", "user");
    put(&mut m, "content", array(parts));
    object(m)
}

/// The request that asks the slide model what an image shows.
pub fn caption_call(cfg: &AppConfig, data_uri: &str) -> (r: Result<HttpCall, String>)
    ensures
        call_result(r) == call_to(
            cfg@,
            chat_address(cfg@, resource_host(cfg@)),
            caption_body(cfg@, data_uri@),
        ),
{
    match chat_url(cfg) {
        Ok(url) => {
            let message = caption_message(data_uri);
            let ghost view = json_view(message);
            let mut messages: Vec<Value> = Vec::new();
            messages.push(message);
            assert(json_views(messages@) =~= seq![view]);
            let mut m = serde_json::Map::new();
            put(&mut m, "messages", array(messages));
            put_model(&mut m, body_model(cfg, cfg.slide_model.as_str()));
            Ok(HttpCall { url, headers: auth_headers(cfg), body: object(m) })
        },
        Err(e) => Err(e),
    }
}

/// The description that the slide model gives, or that there is none.
pub open spec fn given_caption(data: JsonView) -> Result<Seq<char>, Seq<char>> {
    let text = match message_part(data, "content"@) {
        Some(JsonView::Text(t)) => trimmed(t),
        _ => Seq::empty(),
    };
    if text.len() == 0 {
        Err("empty caption"@)
    } else {
        Ok(text)
    }
}

/// Takes the description of an image out of what the slide model replies.
pub fn keep_caption(data: &Value) -> (r: Result<String, String>)
    ensures
        text_result(r) == given_caption(json_view(*data)),
{
    match part_of(data, "content") {
        Some(v) => match v.as_str() {
            Some(t) => {
                let t = trim(t);
                if t.is_empty() {
                    Err("empty caption".to_string())
                } else {
                    Ok(t.to_string())
                }
            },
            None => Err("empty caption".to_string()),
        },
        None => Err("empty caption".to_string()),
    }
}

/// What a reply to that request comes to.
pub open spec fn caption_outcome(reply: ReplyView) -> Result<Seq<char>, Seq<char>> {
    match reply_json("caption"@, reply, 200) {
        Ok(data) => given_caption(data),
        Err(e) => Err(e),
    }
}

/// Reads the description of an image out of a reply of the slide model.
pub fn caption_text(reply: HttpReply) -> (r: Result<String, String>)
    ensures
        text_result(r) == caption_outcome(reply@),
{
    match body_of("caption", reply, 200) {
        Ok(data) => keep_caption(&data),
        Err(e) => Err(e),
    }
}

// ---- Laws --------------------------------------------------------------

/// No request carries the key but in the headers that sign it in.
pub proof fn law_bodies_hold_no_key(
    c: ConfigView,
    key: Seq<char>,
    messages: Seq<JsonView>,
    tools: JsonView,
    a: Seq<char>,
    b: Seq<char>,
)
    ensures
        chat_body((ConfigView { api_key: key, ..c }), messages, tools) == chat_body(
            c,
            messages,
            tools,
        ),
        image_body((ConfigView { api_key: key, ..c }), a, b) == image_body(c, a, b),
        caption_body((ConfigView { api_key: key, ..c }), a) == caption_body(c, a),
{
}

/// A request to the slide model carries the messages and the tools as they are, and one to
/// the image model the prompt and the size; the model is named there where the provider wants
/// it, and not else.
pub proof fn law_requests_carry_what_is_asked(
    c: ConfigView,
    messages: Seq<JsonView>,
    tools: JsonView,
    prompt: Seq<char>,
    size: Seq<char>,
)
    ensures
        field(chat_body(c, messages, tools), "messages"@) == Some(JsonView::Array(messages)),
        field(chat_body(c, messages, tools), "tools"@) == Some(tools),
        field(chat_body(c, messages, tools), "tool_choice"@) == Some(JsonView::Text("auto"@)),
        field(image_body(c, prompt, size), "prompt"@) == Some(JsonView::Text(prompt)),
        field(image_body(c, prompt, size), "size"@) == Some(JsonView::Text(size)),
        field(image_body(c, prompt, size), "n"@) == Some(JsonView::Int(1)),
        match named_model(c, c.slide_model) {
            Some(m) => field(chat_body(c, messages, tools), "model"@) == Some(JsonView::Text(m)),
            None => field(chat_body(c, messages, tools), "model"@) is None,
        },
        match named_model(c, c.image_model) {
            Some(m) => field(image_body(c, prompt, size), "model"@) == Some(JsonView::Text(m)),
            None => field(image_body(c, prompt, size), "model"@) is None,
        },
{
    reveal_strlit("messages");
    reveal_strlit("tools");
    reveal_strlit("tool_choice");
    reveal_strlit("prompt");
    reveal_strlit("size");
    reveal_strlit("n");
    reveal_strlit("model");
    assert("messages"@.len() == 8 && "tools"@.len() == 5 && "tool_choice"@.len() == 11);
    assert("prompt"@.len() == 6 && "size"@.len() == 4 && "n"@.len() == 1 && "model"@.len() == 5);
    assert("tools"@[0] == 't' && "model"@[0] == 'm');
}

/// A request for a caption puts the question and the image to the slide model, in one message
/// of the user.
pub proof fn law_caption_request_shows_the_image(c: ConfigView, data_uri: Seq<char>)
    ensures
        field(caption_body(c, data_uri), "messages"@) matches Some(JsonView::Array(m)) && m.len()
            == 1 && field(m[0], "role"@) == Some(JsonView::Text("user"@)) && (field(m[0], "content"@)
            matches Some(JsonView::Array(parts)) && parts.len() == 2 && field(parts[0], "type"@)
            == Some(JsonView::Text("text"@)) && field(parts[0], "text"@) == Some(
            JsonView::Text(caption_question()),
        ) && field(parts[1], "type"@) == Some(JsonView::Text("image_url"@)) && (field(
            parts[1],
            "image_url"@,
        ) matches Some(place) && field(place, "url"@) == Some(JsonView::Text(data_uri)))),
        match named_model(c, c.slide_model) {
            Some(m) => field(caption_body(c, data_uri), "model"@) == Some(JsonView::Text(m)),
            None => field(caption_body(c, data_uri), "model"@) is None,
        },
{
    reveal_strlit("messages");
    reveal_strlit("model");
    reveal_strlit("role");
    reveal_strlit("content");
    reveal_strlit("type");
    reveal_strlit("text");
    reveal_strlit("image_url");
    reveal_strlit("url");
    assert("messages"@.len() == 8 && "model"@.len() == 5 && "role"@.len() == 4);
    assert("content"@.len() == 7 && "type"@.len() == 4 && "text"@.len() == 4);
    assert("image_url"@.len() == 9 && "url"@.len() == 3 && "role"@[1] == 'o' && "type"@[1] == 'y');
    assert("text"@[1] == 'e');
}

/// A request goes to the address that it is meant for, signed in, with its body; without an
/// address it is not made, and the reason is given.
pub proof fn law_request_goes_to_its_address(
    c: ConfigView,
    url: Seq<char>,
    reason: Seq<char>,
    body: JsonView,
)
    ensures
        call_to(c, Ok(url), body) matches Ok(call) && call.url == url && call.body == body
            && call.headers == sign_in(c),
        call_to(c, Err(reason), body) == Err::<HttpCallView, Seq<char>>(reason),
{
}

/// Of a reply the body is read as JSON; whatever else comes back is an error that names the
/// service and says what happened, with no more of the service's own words than is wanted.
pub proof fn law_reply_is_read_or_explained(
    what: Seq<char>,
    why: Seq<char>,
    code: nat,
    said: Seq<char>,
    limit: int,
)
    requires
        0 <= limit,
    ensures
        json_parse(said) matches Some(v) ==> reply_json(what, ReplyView::Body(said), limit) == Ok::<
            JsonView,
            Seq<char>,
        >(v),
        json_parse(said) is None ==> reply_json(what, ReplyView::Body(said), limit) == reply_json(
            what,
            ReplyView::Garbled,
            limit,
        ),
        reply_json(what, ReplyView::Garbled, limit) == Err::<JsonView, Seq<char>>(
            what + " decode: error decoding response body"@,
        ),
        reply_json(what, ReplyView::Failed(why), limit) == Err::<JsonView, Seq<char>>(
            what + " request: "@ + why,
        ),
        reply_json(what, ReplyView::Refused(code, said), limit) matches Err(e) && (if said.len()
            <= limit {
            e == what + " http "@ + dec(code) + ": "@ + said
        } else {
            e == what + " http "@ + dec(code) + ": "@ + said.take(limit)
        }),
{
}

/// Of the message in a reply, who says it, the text and the tool calls are kept as they are;
/// what it lacks is made up.
pub proof fn law_message_is_kept(data: JsonView, first: JsonView, m: JsonView)
    requires
        field(data, "choices"@) matches Some(JsonView::Array(s)) && s.len() > 0 && s[0] == first,
        field(first, "message"@) == Some(m),
    ensures
        field(kept_message(data), "role"@) == Some(
            match field(m, "role"@) {
                Some(JsonView::Text(t)) => JsonView::Text(t),
                _ => JsonView::Text("assistant"@),
            },
        ),
        field(m, "content"@) matches Some(v) ==> field(kept_message(data), "content"@) == Some(v),
        field(m, "content"@) is None ==> field(kept_message(data), "content"@) == Some(
            JsonView::Null,
        ),
        field(m, "tool_calls"@) matches Some(v) ==> field(kept_message(data), "tool_calls"@)
            == Some(v),
        field(m, "tool_calls"@) is None ==> field(kept_message(data), "tool_calls"@) == Some(
            JsonView::Array(Seq::empty()),
        ),
        field(m, "content"@) matches Some(JsonView::Text(t)) ==> given_caption(data) == if trimmed(
            t,
        ).len() > 0 {
            Ok::<Seq<char>, Seq<char>>(trimmed(t))
        } else {
            Err("empty caption"@)
        },
{
    reveal_strlit("role");
    reveal_strlit("content");
    reveal_strlit("tool_calls");
    assert("role"@.len() == 4 && "content"@.len() == 7 && "tool_calls"@.len() == 10);
}

/// A reply without a message is one that says nothing and calls for nothing.
pub proof fn law_reply_without_message(data: JsonView)
    requires
        match field(data, "choices"@) {
            Some(JsonView::Array(s)) => s.len() == 0 || field(s[0], "message"@) is None,
            _ => true,
        },
    ensures
        field(kept_message(data), "role"@) == Some(JsonView::Text("assistant"@)),
        field(kept_message(data), "content"@) == Some(JsonView::Null),
        field(kept_message(data), "tool_calls"@) == Some(JsonView::Array(Seq::empty())),
        given_caption(data) == Err::<Seq<char>, Seq<char>>("empty caption"@),
{
    reveal_strlit("role");
    reveal_strlit("content");
    reveal_strlit("tool_calls");
    assert("role"@.len() == 4 && "content"@.len() == 7 && "tool_calls"@.len() == 10);
}

/// The image that is taken out of a reply is the first that it holds, as a data URI.
pub proof fn law_first_image_is_given(data: JsonView)
    ensures
        match field(data, "data"@) {
            Some(JsonView::Array(s)) => if s.len() == 0 {
                given_image(data) is Err
            } else {
                match field(s[0], "b64_json"@) {
                    Some(JsonView::Text(b)) => given_image(data) == Ok::<Seq<char>, Seq<char>>(
                        "data:image/png;base64,"@ + b,
                    ),
                    _ => given_image(data) is Err,
                }
            },
            _ => given_image(data) is Err,
        },
        given_image(data) matches Err(e) ==> e == "no image returned"@,
{
}

/// What a reply comes to is what the JSON in it does, and the reason where it holds none.
pub proof fn law_outcomes_follow_the_reply(reply: ReplyView)
    ensures
        match reply_json("chat"@, reply, 300) {
            Ok(v) => chat_outcome(reply) == Ok::<JsonView, Seq<char>>(kept_message(v)),
            Err(e) => chat_outcome(reply) == Err::<JsonView, Seq<char>>(e),
        },
        match reply_json("image"@, reply, 200) {
            Ok(v) => image_outcome(reply) == given_image(v),
            Err(e) => image_outcome(reply) == Err::<Seq<char>, Seq<char>>(e),
        },
        match reply_json("caption"@, reply, 200) {
            Ok(v) => caption_outcome(reply) == given_caption(v),
            Err(e) => caption_outcome(reply) == Err::<Seq<char>, Seq<char>>(e),
        },
{
}

/// An image that the slide model asks for is requested with the prompt that it gives, without
/// the white space around it, and the size, or the usual one; without a prompt it is refused.
/// What comes back is the image with that prompt, or the reason.
pub proof fn law_ordered_image_keeps_its_prompt(
    c: ConfigView,
    host: Result<Seq<char>, Seq<char>>,
    prompt: Seq<char>,
    size: Seq<char>,
    reply: ReplyView,
)
    ensures
        trimmed(prompt).len() == 0 ==> (order_call(c, host, prompt, size) matches Err(v) && field(
            v,
            "error"@,
        ) == Some(JsonView::Text("empty prompt"@)) && field(v, "ok"@) == Some(
            JsonView::Bool(false),
        )),
        trimmed(prompt).len() > 0 ==> match image_address(c, host) {
            Ok(u) => order_call(c, host, prompt, size) matches Ok(call) && call.url == u
                && call.headers == sign_in(c) && field(call.body, "prompt"@) == Some(
                JsonView::Text(trimmed(prompt)),
            ) && field(call.body, "size"@) == Some(
                JsonView::Text(
                    if size.len() > 0 {
                        size
                    } else {
                        "1536x1024"@
                    },
                ),
            ),
            Err(e) => order_call(c, host, prompt, size) matches Err(v) && field(v, "error"@)
                == Some(JsonView::Text(e)),
        },
        match image_outcome(reply) {
            Ok(uri) => order_outcome(prompt, reply) matches Ok(img) && img.data_uri == uri
                && img.prompt == trimmed(prompt),
            Err(e) => order_outcome(prompt, reply) matches Err(v) && field(v, "error"@) == Some(
                JsonView::Text(e),
            ) && field(v, "ok"@) == Some(JsonView::Bool(false)),
        },
{
    reveal_strlit("ok");
    reveal_strlit("error");
    reveal_strlit("prompt");
    reveal_strlit("size");
    reveal_strlit("n");
    reveal_strlit("model");
    assert("ok"@.len() == 2 && "error"@.len() == 5 && "prompt"@.len() == 6 && "size"@.len() == 4);
    assert("n"@.len() == 1 && "model"@.len() == 5 && "error"@[0] == 'e' && "model"@[0] == 'm');
}

} // verus!
