//! How a realtime session is set up.

use serde_json::Value;
use vstd::prelude::*;
use vstd::string::*;

use crate::json::{field, json_view, null, object, put, put_text, JsonView};
use crate::tools::{text_items, text_list};

verus! {

/// What a realtime session is opened with.
pub struct SessionOptions<'a> {
    pub voice: &'a str,
    pub instructions: &'a str,
    pub reasoning_effort: &'a str,
}

/// An event that sets up a session.
pub open spec fn session_update(session: JsonView) -> JsonView {
    JsonView::Object(
        map!["type"@ => JsonView::Text("session.update"@), "session"@ => session],
    )
}

/// The first such event: audio and text both ways, and no detection of turns. How hard
/// the model is to think is left out where nothing is said of it.
pub open spec fn opening(
    voice: Seq<char>,
    instructions: Seq<char>,
    reasoning_effort: Seq<char>,
) -> JsonView {
    let session = map![
        "modalities"@ => text_items(seq!["audio", "text"]),
        "voice"@ => JsonView::Text(voice),
        "instructions"@ => JsonView::Text(instructions),
        "input_audio_format"@ => JsonView::Text("pcm16"@),
        "output_audio_format"@ => JsonView::Text("pcm16"@),
        "turn_detection"@ => JsonView::Null,
    ];
    session_update(
        JsonView::Object(
            if reasoning_effort.len() == 0 {
                session
            } else {
                session.insert(
                    "reasoning"@,
                    JsonView::Object(map!["effort"@ => JsonView::Text(reasoning_effort)]),
                )
            },
        ),
    )
}

pub(crate) fn session_update_value(session: Value) -> (r: Value)
    ensures
        json_view(r) == session_update(json_view(session)),
{
    let mut m = serde_json::Map::new();
    put_text(&mut m, "type", "session.update");
    put(&mut m, "session", session);
    object(m)
}

impl<'a> SessionOptions<'a> {
    /// The event that opens the session.
    pub fn to_session_update(&self) -> (r: Value)
        ensures
            json_view(r) == opening(self.voice@, self.instructions@, self.reasoning_effort@),
    {
        let modalities = vec!["audio", "text"];
        assert(modalities@ =~= seq!["audio", "text"]);
        let mut session = serde_json::Map::new();
        put(&mut session, "modalities", text_list(modalities));
        put_text(&mut session, "voice", self.voice);
        put_text(&mut session, "instructions", self.instructions);
        put_text(&mut session, "input_audio_format", "pcm16");
        put_text(&mut session, "output_audio_format", "pcm16");
        put(&mut session, "turn_detection", null());
        if !self.reasoning_effort.is_empty() {
            let mut reasoning = serde_json::Map::new();
            put_text(&mut reasoning, "effort", self.reasoning_effort);
            put(&mut session, "reasoning", object(reasoning));
        }
        session_update_value(object(session))
    }
}

// ---- Laws --------------------------------------------------------------

/// A session is opened with the voice and the instructions that it is given, and with the
/// effort where one is set; audio and text pass both ways, and turns are not detected.
pub proof fn law_session_is_opened_as_set(
    voice: Seq<char>,
    instructions: Seq<char>,
    effort: Seq<char>,
)
    ensures
        field(opening(voice, instructions, effort), "type"@) == Some(
            JsonView::Text("session.update"@),
        ),
        field(opening(voice, instructions, effort), "session"@) matches Some(s) && field(s, "voice"@)
            == Some(JsonView::Text(voice)) && field(s, "instructions"@) == Some(
            JsonView::Text(instructions),
        ) && field(s, "input_audio_format"@) == Some(JsonView::Text("pcm16"@)) && field(
            s,
            "output_audio_format"@,
        ) == Some(JsonView::Text("pcm16"@)) && field(s, "turn_detection"@) == Some(JsonView::Null)
            && (field(s, "modalities"@) matches Some(JsonView::Array(m)) && m.len() == 2 && m[0]
            == JsonView::Text("audio"@) && m[1] == JsonView::Text("text"@)) && (if effort.len()
            == 0 {
            field(s, "reasoning"@) is None
        } else {
            field(s, "reasoning"@) matches Some(r) && field(r, "effort"@) == Some(
                JsonView::Text(effort),
            )
        }),
{
    reveal_strlit("type");
    reveal_strlit("session");
    reveal_strlit("modalities");
    reveal_strlit("voice");
    reveal_strlit("instructions");
    reveal_strlit("input_audio_format");
    reveal_strlit("output_audio_format");
    reveal_strlit("turn_detection");
    reveal_strlit("reasoning");
    reveal_strlit("effort");
    assert("type"@.len() == 4 && "session"@.len() == 7 && "modalities"@.len() == 10);
    assert("voice"@.len() == 5 && "instructions"@.len() == 12 && "input_audio_format"@.len() == 18);
    assert("output_audio_format"@.len() == 19 && "turn_detection"@.len() == 14);
    assert("reasoning"@.len() == 9 && "effort"@.len() == 6);
}

} // verus!
