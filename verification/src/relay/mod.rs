//! What the browser's requests are answered.

pub mod editor;
pub mod library;
pub mod settings;
pub mod windows;
pub mod workspaces;

use serde_json::Value;
use vstd::prelude::*;

use crate::json::{field, flag, json_view, object, put, JsonView};
use crate::ops::{refused, refused_json};

verus! {

/// An answer: the status code, and a JSON body.
pub struct Answer {
    pub status: u16,
    pub body: Value,
}

pub struct AnswerView {
    pub status: nat,
    pub body: JsonView,
}

impl View for Answer {
    type V = AnswerView;

    open spec fn view(&self) -> AnswerView {
        AnswerView { status: self.status as nat, body: json_view(self.body) }
    }
}

/// The answer that a request was carried out.
pub open spec fn done_answer() -> AnswerView {
    AnswerView { status: 200, body: JsonView::Object(map!["ok"@ => JsonView::Bool(true)]) }
}

/// The answer that a request was not carried out, and why.
pub open spec fn failure(status: nat, error: Seq<char>) -> AnswerView {
    AnswerView { status: status, body: refused_json(error) }
}

/// The answer that a request was carried out.
pub fn ok() -> (r: Answer)
    ensures
        r@ == done_answer(),
{
    let mut m = serde_json::Map::new();
    put(&mut m, "ok", flag(true));
    Answer { status: 200, body: object(m) }
}

/// The answer that a request was not carried out, and why.
pub fn failed(status: u16, error: &str) -> (r: Answer)
    ensures
        r@ == failure(status as nat, error@),
{
    Answer { status, body: refused(error) }
}

pub open spec fn result_view(r: Result<Answer, String>) -> Result<AnswerView, Seq<char>> {
    match r {
        Ok(a) => Ok(a@),
        Err(e) => Err(e@),
    }
}

/// The answer to a request whose outcome had to be saved: the one that was meant, or, with
/// this status, why it could not be saved.
pub open spec fn settled(r: Result<AnswerView, Seq<char>>, status: nat) -> AnswerView {
    match r {
        Ok(a) => a,
        Err(e) => failure(status, e),
    }
}

pub(crate) fn settle(r: Result<Answer, String>, status: u16) -> (a: Answer)
    ensures
        a@ == settled(result_view(r), status as nat),
{
    match r {
        Ok(a) => a,
        Err(e) => failed(status, e.as_str()),
    }
}

// ---- Laws --------------------------------------------------------------

/// An answer that something was not done has the status that is meant and says why; one that
/// it was done says just that; and what could not be saved is never answered as done.
pub proof fn law_answers_say_what_happened(status: nat, error: Seq<char>, meant: AnswerView)
    ensures
        failure(status, error).status == status,
        field(failure(status, error).body, "ok"@) == Some(JsonView::Bool(false)),
        field(failure(status, error).body, "error"@) == Some(JsonView::Text(error)),
        done_answer().status == 200,
        field(done_answer().body, "ok"@) == Some(JsonView::Bool(true)),
        settled(Ok(meant), status) == meant,
        settled(Err(error), status).status == status,
        field(settled(Err(error), status).body, "ok"@) == Some(JsonView::Bool(false)),
        field(settled(Err(error), status).body, "error"@) == Some(JsonView::Text(error)),
{
    reveal_strlit("ok");
    reveal_strlit("error");
    assert("ok"@.len() == 2 && "error"@.len() == 5);
}

} // verus!
