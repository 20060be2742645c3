//! The two libraries, of reference files and of images, as the browser fills them.

use serde_json::Value;
use vstd::prelude::*;
use vstd::string::*;

use crate::config::AppConfig;
use crate::ids::{position_of, top_number};
use crate::images::{
    image_refusal, library_ids, new_image, updated, with_image, without_image, MAX_IMAGE_BYTES,
    ImageMeta, ImageMetaView, ImageStore,
};
use crate::json::{
    array, field, flag, json_view, json_views, number, object, put, put_text, JsonView,
};
use crate::refs::{
    new_ref, ref_ids, switched, with_ref, without_ref, MAX_FILE_BYTES, RefMeta, RefMetaView,
    RefStore,
};
use super::{
    done_answer, failed, failure, ok, result_view, settle, settled, Answer, AnswerView,
};
use crate::relay::editor::is_configured;
use crate::text::{
    byte_count, bytes_within, contains_char, ends_with, extended, has_extension, lower_case,
    lowered, starts_with, string_view, text_in, trim, trimmed,
};

verus! {

/// The answer about something that is there or is not.
pub open spec fn found_answer(found: bool) -> AnswerView {
    if found {
        done_answer()
    } else {
        failure(404, "not found"@)
    }
}

fn answer_found(found: bool) -> (r: Answer)
    ensures
        r@ == found_answer(found),
{
    if found {
        ok()
    } else {
        failed(404, "not found")
    }
}

pub open spec fn one_entry(key: Seq<char>, v: JsonView) -> JsonView {
    JsonView::Object(map![key => v])
}

/// The answer that something was added, and what the index says of it.
pub open spec fn added_answer(key: Seq<char>, v: JsonView) -> AnswerView {
    AnswerView {
        status: 200,
        body: JsonView::Object(map!["ok"@ => JsonView::Bool(true), key => v]),
    }
}

fn answer_added(key: &str, v: Value) -> (r: Answer)
    ensures
        r@ == added_answer(key@, json_view(v)),
{
    let mut m = serde_json::Map::new();
    put(&mut m, "ok", flag(true));
    put(&mut m, key, v);
    Answer { status: 200, body: object(m) }
}

// ---- Reference files ---------------------------------------------------

pub open spec fn ref_json(m: RefMetaView) -> JsonView {
    JsonView::Object(
        map![
            "id"@ => JsonView::Text(m.id),
            "name"@ => JsonView::Text(m.name),
            "enabled"@ => JsonView::Bool(m.enabled),
            "bytes"@ => JsonView::Int(m.bytes as int),
        ],
    )
}

fn ref_value(m: &RefMeta) -> (r: Value)
    ensures
        json_view(r) == ref_json(m@),
{
    let mut o = serde_json::Map::new();
    put_text(&mut o, "id", m.id.as_str());
    put_text(&mut o, "name", m.name.as_str());
    put(&mut o, "enabled", flag(m.enabled));
    put(&mut o, "bytes", number(m.bytes as u64));
    object(o)
}

/// Lists the reference files.
pub fn get_refs(store: &RefStore) -> (r: Value)
    ensures
        json_view(r) == one_entry(
            "refs"@,
            JsonView::Array(store@.items.map_values(|m: RefMetaView| ref_json(m))),
        ),
{
    let ghost all = store@.items;
    let ghost one = |m: RefMetaView| ref_json(m);
    let mut items: Vec<Value> = Vec::new();
    let mut i: usize = 0;
    while i < store.items.len()
        invariant
            i <= store.items@.len(),
            all == store@.items,
            one == (|m: RefMetaView| ref_json(m)),
            json_views(items@) =~= all.take(i as int).map_values(one),
        decreases store.items@.len() - i,
    {
        assert(all[i as int] == store.items@[i as int]@);
        items.push(ref_value(&store.items[i]));
        i = i + 1;
        assert(all.take(i as int).map_values(one) =~= all.take(i - 1).map_values(one).push(
            one(all[i - 1]),
        ));
    }
    assert(all.take(i as int) =~= all);
    let mut m = serde_json::Map::new();
    put(&mut m, "refs", array(items));
    object(m)
}

/// Whether a file has the name of a text file.
pub open spec fn named_like_text(name: Option<Seq<char>>) -> bool {
    match name {
        Some(n) => {
            let l = lowered(n);
            ".txt"@.is_suffix_of(l) || ".md"@.is_suffix_of(l) || ".markdown"@.is_suffix_of(l)
                || ".text"@.is_suffix_of(l)
        },
        None => false,
    }
}

/// Whether a file is taken for text: by its name, or, where the name has no extension,
/// because the file holds no NUL.
pub open spec fn textual(name: Option<Seq<char>>, content: Seq<char>) -> bool {
    let extended = match name {
        Some(n) => has_extension(n),
        None => false,
    };
    named_like_text(name) || (!extended && !content.contains('\u{0}'))
}

/// Whether a file is taken for text.
pub fn looks_textual(name: &Option<String>, content: &str) -> (r: bool)
    ensures
        r == textual(string_view(*name), content@),
{
    match name {
        Some(n) => {
            let l = lower_case(n.as_str());
            let by_name = ends_with(l.as_str(), ".txt") || ends_with(l.as_str(), ".md")
                || ends_with(l.as_str(), ".markdown") || ends_with(l.as_str(), ".text");
            by_name || (!extended(n.as_str()) && !contains_char(content, '\u{0}'))
        },
        None => !contains_char(content, '\u{0}'),
    }
}

/// What a file is refused with, where it is.
pub open spec fn ref_refusal(name: Option<Seq<char>>, content: Seq<char>) -> Option<AnswerView> {
    if byte_count(content) > MAX_FILE_BYTES {
        Some(failure(413, "file too large"@))
    } else if !textual(name, content) {
        Some(failure(415, "only .txt/.md text files are supported"@))
    } else {
        None
    }
}

pub open spec fn name_or(name: Option<Seq<char>>, other: Seq<char>) -> Seq<char> {
    match name {
        Some(n) => n,
        None => other,
    }
}

/// Adds a reference file, or says why it is refused.
pub fn post_ref(store: &mut RefStore, name: Option<String>, content: &str) -> (r: Answer)
    requires
        ref_refusal(string_view(name), content@) is None ==> top_number(
            ref_ids(old(store)@.items),
            "r"@,
        ) < u32::MAX,
    ensures
        match ref_refusal(string_view(name), content@) {
            Some(a) => r@ == a && final(store)@ == old(store)@,
            None => {
                let n = name_or(string_view(name), "untitled.txt"@);
                &&& final(store)@ == with_ref(old(store)@, n, content@)
                &&& r@ == added_answer("ref"@, ref_json(new_ref(old(store)@, n, content@)))
            },
        },
{
    if bytes_within(content, MAX_FILE_BYTES).is_none() {
        return failed(413, "file too large");
    }
    if !looks_textual(&name, content) {
        return failed(415, "only .txt/.md text files are supported");
    }
    let name = match name {
        Some(n) => n,
        None => "untitled.txt".to_string(),
    };
    let meta = store.add(name.as_str(), content);
    answer_added("ref", ref_value(&meta))
}

/// Switches a reference file on or off.
pub fn patch_ref(store: &mut RefStore, id: &str, enabled: bool) -> (r: Answer)
    ensures
        r@ == found_answer(position_of(ref_ids(old(store)@.items), id@) is Some),
        final(store)@ == switched(old(store)@, id@, enabled),
{
    answer_found(store.set_enabled(id, enabled))
}

/// Removes a reference file.
pub fn delete_ref(store: &mut RefStore, id: &str) -> (r: Answer)
    ensures
        r@ == found_answer(position_of(ref_ids(old(store)@.items), id@) is Some),
        final(store)@ == without_ref(old(store)@, id@),
{
    answer_found(store.remove(id))
}

// ---- Images ------------------------------------------------------------

pub open spec fn image_meta_json(m: ImageMetaView) -> JsonView {
    JsonView::Object(
        map![
            "id"@ => JsonView::Text(m.id),
            "name"@ => JsonView::Text(m.name),
            "description"@ => JsonView::Text(m.description),
            "enabled"@ => JsonView::Bool(m.enabled),
            "pinned_slide"@ => JsonView::Int(m.pinned_slide as int),
            "bytes"@ => JsonView::Int(m.bytes as int),
        ],
    )
}

fn image_meta_value(m: &ImageMeta) -> (r: Value)
    ensures
        json_view(r) == image_meta_json(m@),
{
    let mut o = serde_json::Map::new();
    put_text(&mut o, "id", m.id.as_str());
    put_text(&mut o, "name", m.name.as_str());
    put_text(&mut o, "description", m.description.as_str());
    put(&mut o, "enabled", flag(m.enabled));
    put(&mut o, "pinned_slide", number(m.pinned_slide as u64));
    put(&mut o, "bytes", number(m.bytes as u64));
    object(o)
}

/// Lists the images, without their data.
pub fn get_images(store: &ImageStore) -> (r: Value)
    ensures
        json_view(r) == one_entry(
            "images"@,
            JsonView::Array(store@.items.map_values(|m: ImageMetaView| image_meta_json(m))),
        ),
{
    let ghost all = store@.items;
    let ghost one = |m: ImageMetaView| image_meta_json(m);
    let mut items: Vec<Value> = Vec::new();
    let mut i: usize = 0;
    while i < store.items.len()
        invariant
            i <= store.items@.len(),
            all == store@.items,
            one == (|m: ImageMetaView| image_meta_json(m)),
            json_views(items@) =~= all.take(i as int).map_values(one),
        decreases store.items@.len() - i,
    {
        assert(all[i as int] == store.items@[i as int]@);
        items.push(image_meta_value(&store.items[i]));
        i = i + 1;
        assert(all.take(i as int).map_values(one) =~= all.take(i - 1).map_values(one).push(
            one(all[i - 1]),
        ));
    }
    assert(all.take(i as int) =~= all);
    let mut m = serde_json::Map::new();
    put(&mut m, "images", array(items));
    object(m)
}

/// Gives the data URI of an image.
pub fn get_image_data(store: &ImageStore, id: &str) -> (r: Answer)
    ensures
        r@ == match text_in(store@.files, id@) {
            Some(uri) => added_answer("data_uri"@, JsonView::Text(uri)),
            None => failure(404, "not found"@),
        },
{
    match store.read_data_uri(id) {
        Some(uri) => answer_added("data_uri", crate::json::text(uri.as_str())),
        None => failed(404, "not found"),
    }
}

/// What an upload is refused with, where it is.
pub open spec fn upload_refusal(data_uri: Seq<char>) -> Option<AnswerView> {
    if !"data:image/"@.is_prefix_of(data_uri) {
        Some(failure(415, "expected an image data: URI"@))
    } else if byte_count(data_uri) > MAX_IMAGE_BYTES {
        Some(failure(413, "image too large"@))
    } else {
        None
    }
}

/// What is to be done about an image that is uploaded.
pub enum UploadPlan {
    /// It is refused.
    Refuse(Answer),
    /// It is stored, with this description.
    Store(String),
    /// It is stored with the description that the model gives, or with none.
    Describe,
}

pub enum UploadPlanView {
    Refuse(AnswerView),
    Store(Seq<char>),
    Describe,
}

impl View for UploadPlan {
    type V = UploadPlanView;

    open spec fn view(&self) -> UploadPlanView {
        match self {
            UploadPlan::Refuse(a) => UploadPlanView::Refuse(a@),
            UploadPlan::Store(d) => UploadPlanView::Store(d@),
            UploadPlan::Describe => UploadPlanView::Describe,
        }
    }
}

/// What is to be done about an image that is uploaded: the model is asked only where
/// nothing is said of the image, and where it can be asked.
pub open spec fn upload_plan(
    data_uri: Seq<char>,
    description: Option<Seq<char>>,
    configured: bool,
) -> UploadPlanView {
    match upload_refusal(data_uri) {
        Some(a) => UploadPlanView::Refuse(a),
        None => {
            let said = trimmed(name_or(description, Seq::empty()));
            if said.len() == 0 && configured {
                UploadPlanView::Describe
            } else {
                UploadPlanView::Store(said)
            }
        },
    }
}

/// Decides what is to be done about an image that is uploaded.
pub fn plan_upload(data_uri: &str, description: Option<String>, cfg: Option<&AppConfig>) -> (r:
    UploadPlan)
    ensures
        r@ == upload_plan(data_uri@, string_view(description), is_configured(cfg)),
{
    if !starts_with(data_uri, "data:image/") {
        return UploadPlan::Refuse(failed(415, "expected an image data: URI"));
    }
    if bytes_within(data_uri, MAX_IMAGE_BYTES).is_none() {
        return UploadPlan::Refuse(failed(413, "image too large"));
    }
    let said = match description {
        Some(d) => trim(d.as_str()).to_string(),
        None => {
            let none = String::new();
            assert(trimmed(Seq::<char>::empty()) =~= Seq::empty());
            none
        },
    };
    if said.as_str().is_empty() {
        let configured = match cfg {
            Some(c) => c.is_complete(),
            None => false,
        };
        if configured {
            return UploadPlan::Describe;
        }
    }
    UploadPlan::Store(said)
}

/// The description that the model gave, or none where it gave none.
pub fn described_by(caption: Result<String, String>) -> (r: String)
    ensures
        r@ == match caption {
            Ok(c) => c@,
            Err(_) => Seq::empty(),
        },
{
    match caption {
        Ok(c) => c,
        Err(_) => String::new(),
    }
}

/// Stores an image in the library.
pub fn post_image(
    store: &mut ImageStore,
    name: Option<String>,
    data_uri: &str,
    description: &str,
) -> (r: Answer)
    requires
        image_refusal(data_uri@) is None ==> top_number(library_ids(old(store)@.items), "lib"@)
            < u32::MAX,
    ensures
        match image_refusal(data_uri@) {
            Some(e) => r@ == failure(500, e) && final(store)@ == old(store)@,
            None => {
                let n = name_or(string_view(name), "image"@);
                &&& final(store)@ == with_image(old(store)@, n, data_uri@, description@)
                &&& r@ == added_answer(
                    "image"@,
                    image_meta_json(new_image(old(store)@, n, data_uri@, description@)),
                )
            },
        },
{
    let name = match name {
        Some(n) => n,
        None => "image".to_string(),
    };
    match store.add(name.as_str(), data_uri, description) {
        Ok(meta) => answer_added("image", image_meta_value(&meta)),
        Err(e) => failed(500, e.as_str()),
    }
}

/// Changes what is given of an image.
pub fn patch_image(
    store: &mut ImageStore,
    id: &str,
    enabled: Option<bool>,
    description: Option<String>,
    pinned_slide: Option<u32>,
) -> (r: Answer)
    ensures
        r@ == found_answer(position_of(library_ids(old(store)@.items), id@) is Some),
        final(store)@ == updated(
            old(store)@,
            id@,
            enabled,
            string_view(description),
            pinned_slide,
        ),
{
    answer_found(store.update(id, enabled, description, pinned_slide))
}

/// Removes an image from the library.
pub fn delete_image(store: &mut ImageStore, id: &str) -> (r: Answer)
    ensures
        r@ == found_answer(position_of(library_ids(old(store)@.items), id@) is Some),
        final(store)@ == without_image(old(store)@, id@),
{
    answer_found(store.remove(id))
}

/// The answer to a change of a library: `r` is the one that was meant, or why the change
/// could not be saved.
pub fn answer_stored(r: Result<Answer, String>) -> (a: Answer)
    ensures
        a@ == settled(result_view(r), 500),
{
    settle(r, 500)
}

// ---- Laws --------------------------------------------------------------

/// An upload that passes the first look is never refused by the library.
pub proof fn law_checked_upload_is_stored(data_uri: Seq<char>)
    requires
        upload_refusal(data_uri) is None,
    ensures
        image_refusal(data_uri) is None,
{
    reveal_strlit("data:image/");
    reveal_strlit("data:");
    let a = "data:"@;
    let b = "data:image/"@;
    assert(a.len() == 5 && b.len() == 11);
    assert(a[0] == b[0] && a[1] == b[1] && a[2] == b[2] && a[3] == b[3] && a[4] == b[4]);
    assert(data_uri.take(11) == b);
    assert forall|i: int| 0 <= i < 5 implies data_uri[i] == a[i] by {
        assert(data_uri.take(11)[i] == data_uri[i]);
        if i == 0 {
        } else if i == 1 {
        } else if i == 2 {
        } else if i == 3 {
        } else {
        }
    }
    assert(data_uri.take(5) =~= a);
    assert(a.is_prefix_of(data_uri));
}

/// A reference file that passes the first look is kept whole.
pub proof fn law_checked_file_is_kept_whole(name: Option<Seq<char>>, content: Seq<char>)
    requires
        ref_refusal(name, content) is None,
    ensures
        crate::text::clipped_bytes(content, MAX_FILE_BYTES as nat) == content,
{
    crate::text::lemma_clipped_bytes_fit(content, MAX_FILE_BYTES as nat);
}

/// What the browser is shown of a reference file and of an image of the library, each thing
/// under its own name; of an image, everything but its data.
pub proof fn law_library_is_shown(r: RefMetaView, m: ImageMetaView)
    ensures
        field(ref_json(r), "id"@) == Some(JsonView::Text(r.id)),
        field(ref_json(r), "name"@) == Some(JsonView::Text(r.name)),
        field(ref_json(r), "enabled"@) == Some(JsonView::Bool(r.enabled)),
        field(ref_json(r), "bytes"@) == Some(JsonView::Int(r.bytes as int)),
        field(image_meta_json(m), "id"@) == Some(JsonView::Text(m.id)),
        field(image_meta_json(m), "name"@) == Some(JsonView::Text(m.name)),
        field(image_meta_json(m), "description"@) == Some(JsonView::Text(m.description)),
        field(image_meta_json(m), "enabled"@) == Some(JsonView::Bool(m.enabled)),
        field(image_meta_json(m), "pinned_slide"@) == Some(JsonView::Int(m.pinned_slide as int)),
        field(image_meta_json(m), "bytes"@) == Some(JsonView::Int(m.bytes as int)),
{
    reveal_strlit("id");
    reveal_strlit("name");
    reveal_strlit("enabled");
    reveal_strlit("bytes");
    reveal_strlit("description");
    reveal_strlit("pinned_slide");
    assert("id"@.len() == 2 && "name"@.len() == 4 && "enabled"@.len() == 7 && "bytes"@.len() == 5);
    assert("description"@.len() == 11 && "pinned_slide"@.len() == 12);
}

/// What was added is answered with what the index says of it; what is not there is answered
/// so.
pub proof fn law_library_answers(key: Seq<char>, v: JsonView)
    requires
        key != "ok"@,
    ensures
        added_answer(key, v).status == 200,
        field(added_answer(key, v).body, "ok"@) == Some(JsonView::Bool(true)),
        field(added_answer(key, v).body, key) == Some(v),
        field(one_entry(key, v), key) == Some(v),
        found_answer(true) == done_answer(),
        found_answer(false).status == 404,
        field(found_answer(false).body, "error"@) == Some(JsonView::Text("not found"@)),
{
    reveal_strlit("ok");
    reveal_strlit("error");
    assert("ok"@.len() == 2 && "error"@.len() == 5);
}

/// A reference file is refused where it is too large, or where it is not taken for text: its
/// name, in any case, ends as that of a text file does, or it has no extension and holds no
/// NUL.
pub proof fn law_text_files_are_taken(name: Option<Seq<char>>, content: Seq<char>)
    ensures
        byte_count(content) > MAX_FILE_BYTES ==> (ref_refusal(name, content) matches Some(a)
            && a.status == 413 && field(a.body, "error"@) == Some(
            JsonView::Text("file too large"@),
        )),
        byte_count(content) <= MAX_FILE_BYTES ==> (ref_refusal(name, content) is None <==> textual(
            name,
            content,
        )),
        byte_count(content) <= MAX_FILE_BYTES && !textual(name, content) ==> (ref_refusal(
            name,
            content,
        ) matches Some(a) && a.status == 415 && field(a.body, "error"@) == Some(
            JsonView::Text("only .txt/.md text files are supported"@),
        )),
        name is None ==> (textual(name, content) <==> !content.contains('\u{0}')),
        name matches Some(n) ==> ((".txt"@.is_suffix_of(lowered(n)) || ".md"@.is_suffix_of(
            lowered(n),
        ) || ".markdown"@.is_suffix_of(lowered(n)) || ".text"@.is_suffix_of(lowered(n)))
            ==> textual(name, content)),
        name matches Some(n) ==> (!has_extension(n) && !content.contains('\u{0}') ==> textual(
            name,
            content,
        )),
        textual(name, content) && content.contains('\u{0}') ==> (name matches Some(n) && (
        ".txt"@.is_suffix_of(lowered(n)) || ".md"@.is_suffix_of(lowered(n))
            || ".markdown"@.is_suffix_of(lowered(n)) || ".text"@.is_suffix_of(lowered(n)))),
{
    reveal_strlit("ok");
    reveal_strlit("error");
    assert("ok"@.len() == 2 && "error"@.len() == 5);
}

/// An upload is refused where it is no image or too large; else it is stored with what is
/// said of it, and the model is asked only where nothing is and it can be.
pub proof fn law_upload_is_described_or_stored(
    data_uri: Seq<char>,
    description: Option<Seq<char>>,
    configured: bool,
)
    ensures
        ({
            let said = match description {
                Some(t) => trimmed(t),
                None => Seq::empty(),
            };
            let plan = upload_plan(data_uri, description, configured);
            let image = "data:image/"@.is_prefix_of(data_uri);
            &&& !image ==> (plan matches UploadPlanView::Refuse(a) && a.status == 415 && field(
                a.body,
                "error"@,
            ) == Some(JsonView::Text("expected an image data: URI"@)))
            &&& image && byte_count(data_uri) > MAX_IMAGE_BYTES ==> (
            plan matches UploadPlanView::Refuse(a) && a.status == 413 && field(a.body, "error"@)
                == Some(JsonView::Text("image too large"@)))
            &&& image && byte_count(data_uri) <= MAX_IMAGE_BYTES && said.len() > 0 ==> plan
                == UploadPlanView::Store(said)
            &&& image && byte_count(data_uri) <= MAX_IMAGE_BYTES && said.len() == 0 && configured
                ==> plan == UploadPlanView::Describe
            &&& image && byte_count(data_uri) <= MAX_IMAGE_BYTES && said.len() == 0 && !configured
                ==> plan == UploadPlanView::Store(said)
        }),
{
    reveal_strlit("ok");
    reveal_strlit("error");
    assert("ok"@.len() == 2 && "error"@.len() == 5);
    assert(trimmed(Seq::<char>::empty()) =~= Seq::empty());
}

} // verus!
