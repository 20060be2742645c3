//! The projects, as the browser lists and changes them.

use vstd::prelude::*;
use vstd::string::*;

use crate::json::{field, flag, object, put, put_text, JsonView};
use crate::projects::{
    delete_refusal, initialized, knows, refusal_view, rename_refusal, with_active, with_name,
    with_project, without_project, ProjectStore,
};
use super::{
    done_answer, failed, failure, ok, result_view, settle, settled, Answer, AnswerView,
};
use crate::text::string_views;

verus! {

pub open spec fn created_answer(id: Seq<char>) -> AnswerView {
    AnswerView {
        status: 200,
        body: JsonView::Object(map!["ok"@ => JsonView::Bool(true), "id"@ => JsonView::Text(id)]),
    }
}

/// The answer to a change of a project; `error` is why it was not made.
pub open spec fn change_answer(error: Option<Seq<char>>) -> AnswerView {
    match error {
        Some(e) => failure(400, e),
        None => done_answer(),
    }
}

/// The answer to a change of a project.
pub fn answer_change(r: Result<(), String>) -> (a: Answer)
    ensures
        a@ == change_answer(refusal_view(r)),
{
    match r {
        Ok(_) => ok(),
        Err(e) => failed(400, e.as_str()),
    }
}

/// Makes a project; without a name, one is made up.
pub fn post_project(store: &mut ProjectStore, name: Option<String>, taken: &Vec<String>) -> (a:
    Answer)
    requires
        initialized(old(store)@).seq < u64::MAX,
    ensures
        final(store)@ == with_project(
            old(store)@,
            match name {
                Some(n) => n@,
                None => Seq::empty(),
            },
            string_views(taken@),
        ),
        a@ == created_answer(final(store)@.active),
{
    let name = match name {
        Some(n) => n,
        None => String::new(),
    };
    let id = store.create(name.as_str(), taken);
    let mut m = serde_json::Map::new();
    put(&mut m, "ok", flag(true));
    put_text(&mut m, "id", id.as_str());
    Answer { status: 200, body: object(m) }
}

/// Renames a project.
pub fn patch_project(store: &mut ProjectStore, id: &str, name: &str) -> (a: Answer)
    ensures
        a@ == change_answer(rename_refusal(old(store)@, id@, name@)),
        final(store)@ == (if rename_refusal(old(store)@, id@, name@) is None {
            with_name(old(store)@, id@, name@)
        } else {
            old(store)@
        }),
{
    answer_change(store.rename(id, name))
}

/// Deletes a project.
pub fn delete_project(store: &mut ProjectStore, id: &str) -> (a: Answer)
    ensures
        a@ == change_answer(delete_refusal(old(store)@, id@)),
        final(store)@ == (if delete_refusal(old(store)@, id@) is None {
            without_project(old(store)@, id@)
        } else {
            old(store)@
        }),
{
    answer_change(store.delete(id))
}

/// Makes a project the active one.
pub fn activate_project(store: &mut ProjectStore, id: &str) -> (a: Answer)
    requires
        knows(old(store)@, id@) ==> old(store).seq < u64::MAX,
    ensures
        a@ == change_answer(
            if knows(old(store)@, id@) {
                None
            } else {
                Some("unknown project"@)
            },
        ),
        final(store)@ == with_active(old(store)@, id@),
{
    answer_change(store.set_active(id))
}

/// The answer to a request for a new project: `r` is the one that was meant, or why the
/// project could not be made.
pub fn answer_created(r: Result<Answer, String>) -> (a: Answer)
    ensures
        a@ == settled(result_view(r), 500),
{
    settle(r, 500)
}

/// The answer to a change of a project: `r` is the one that was meant, or why the change
/// could not be saved.
pub fn answer_saved(r: Result<Answer, String>) -> (a: Answer)
    ensures
        a@ == settled(result_view(r), 400),
{
    settle(r, 400)
}

// ---- Laws --------------------------------------------------------------

/// A new project is answered with its id; a change that was refused with the reason.
pub proof fn law_project_answers(id: Seq<char>, error: Seq<char>)
    ensures
        created_answer(id).status == 200,
        field(created_answer(id).body, "ok"@) == Some(JsonView::Bool(true)),
        field(created_answer(id).body, "id"@) == Some(JsonView::Text(id)),
        change_answer(None) == done_answer(),
        change_answer(Some(error)).status == 400,
        field(change_answer(Some(error)).body, "ok"@) == Some(JsonView::Bool(false)),
        field(change_answer(Some(error)).body, "error"@) == Some(JsonView::Text(error)),
{
    reveal_strlit("ok");
    reveal_strlit("id");
    reveal_strlit("error");
    assert("ok"@.len() == 2 && "id"@.len() == 2 && "error"@.len() == 5 && "ok"@[0] == 'o');
    assert("id"@[0] == 'i');
}

} // verus!
