//! The editor: the deck as it is edited by hand.

use serde_json::Value;
use vstd::prelude::*;
use vstd::string::*;

use crate::config::{ready, AppConfig};
use crate::deck::{
    empty_deck, image_id, image_of, lemma_image_index, lemma_slide_index, slide_index, Deck,
    DeckView, Image, ImageView, SlideView,
};
use crate::deck_json::{
    counters_lead, deck_from, full_json, has_names, headings_json, ids_fit, image_notes_json,
    images_value, law_snapshot_round_trips, read_deck, slide_ids, slides_value, DeckText,
};
use crate::json::{field, flag, json_parse, json_view, number, object, put, put_text, JsonView};
use super::{failed, failure, result_view, settle, settled, Answer, AnswerView};
use crate::num::dec;
use crate::ops::names_slide;
use crate::provider::text_result;
use crate::render::{editor_page, render_deck_editor_html};
use crate::text::{str_view, string_view, trim, trimmed};

verus! {

// ---- Loading -----------------------------------------------------------

/// The deck that a saved text holds; an empty one where nothing was saved, or nothing
/// that is JSON. Nothing where it has more slides without ids than can be numbered.
pub open spec fn deck_saved(text: Option<Seq<char>>) -> Option<DeckView> {
    match text {
        Some(t) => match json_parse(t) {
            Some(v) => if ids_fit(v) {
                Some(deck_from(v))
            } else {
                None
            },
            None => Some(empty_deck()),
        },
        None => Some(empty_deck()),
    }
}

pub open spec fn deck_option(r: Option<Deck>) -> Option<DeckView> {
    match r {
        Some(d) => Some(d@),
        None => None,
    }
}

/// Loads the deck from what was saved.
pub fn load_deck(text: Option<&str>) -> (r: Option<Deck>)
    ensures
        deck_option(r) == deck_saved(str_view(text)),
{
    match text {
        Some(t) => match read_deck(t) {
            DeckText::Deck(d) => Some(d),
            DeckText::NotJson => Some(Deck::new()),
            DeckText::OutOfIds => None,
        },
        None => Some(Deck::new()),
    }
}

/// What the editor is given of a deck.
pub open spec fn editor_json(d: DeckView) -> JsonView {
    JsonView::Object(
        map![
            "title"@ => JsonView::Text(d.title),
            "slides"@ => headings_json(d.slides),
            "editor_html"@ => JsonView::Text(editor_page(d)),
            "images"@ => image_notes_json(d.images),
        ],
    )
}

/// Gives the editor a deck.
pub fn get_deck(deck: &Deck) -> (r: Value)
    ensures
        json_view(r) == editor_json(deck@),
{
    let mut m = serde_json::Map::new();
    put_text(&mut m, "title", deck.title.as_str());
    put(&mut m, "slides", slides_value(&deck.slides, false));
    put_text(&mut m, "editor_html", render_deck_editor_html(deck).as_str());
    put(&mut m, "images", images_value(&deck.images, false));
    object(m)
}

/// The page where nothing was built yet.
pub const NO_DECK_PAGE: &'static str = "<!doctype html><meta charset=utf-8><body style=\"font-family:system-ui;background:#0b0c10;color:#9aa3b5;display:grid;place-items:center;height:100vh;margin:0\">No deck yet</body>";

/// The page that was saved, or one that says that there is none.
pub fn saved_page(html: Option<String>) -> (r: String)
    ensures
        r@ == match string_view(html) {
            Some(t) => t,
            None => NO_DECK_PAGE@,
        },
{
    match html {
        Some(t) => t,
        None => NO_DECK_PAGE.to_string(),
    }
}

// ---- Edits -------------------------------------------------------------

/// The new content of one slide: what is left out stays.
pub struct SlideEdit {
    pub id: String,
    pub html: Option<String>,
    pub title: Option<String>,
}

pub struct SlideEditView {
    pub id: Seq<char>,
    pub html: Option<Seq<char>>,
    pub title: Option<Seq<char>>,
}

impl View for SlideEdit {
    type V = SlideEditView;

    open spec fn view(&self) -> SlideEditView {
        SlideEditView {
            id: self.id@,
            html: string_view(self.html),
            title: string_view(self.title),
        }
    }
}

/// The edits of a deck.
pub struct DeckPost {
    pub title: Option<String>,
    pub slides: Option<Vec<SlideEdit>>,
}

pub open spec fn edit_views(s: Seq<SlideEdit>) -> Seq<SlideEditView> {
    s.map_values(|e: SlideEdit| e@)
}

pub open spec fn edits_of(p: DeckPost) -> Seq<SlideEditView> {
    match p.slides {
        Some(v) => edit_views(v@),
        None => Seq::empty(),
    }
}

/// A slide after an edit.
pub open spec fn slide_edited(s: SlideView, e: SlideEditView) -> SlideView {
    SlideView {
        html: match e.html {
            Some(h) => h,
            None => s.html,
        },
        title: match e.title {
            Some(t) => trimmed(t),
            None => s.title,
        },
        ..s
    }
}

/// The slides after some edits, one after the other, and how many of them met a slide.
pub open spec fn edits_made(slides: Seq<SlideView>, edits: Seq<SlideEditView>) -> (
    Seq<SlideView>,
    nat,
)
    decreases edits.len(),
{
    if edits.len() == 0 {
        (slides, 0)
    } else {
        let (s, n) = edits_made(slides, edits.drop_last());
        match slide_index(s, edits.last().id) {
            Some(i) => (s.update(i, slide_edited(s[i], edits.last())), n + 1),
            None => (s, n),
        }
    }
}

/// The title of a deck after it was edited: a blank one is no title.
pub open spec fn title_edited(title: Seq<char>, t: Option<Seq<char>>) -> Seq<char> {
    match t {
        Some(t) => if trimmed(t).len() > 0 {
            trimmed(t)
        } else {
            title
        },
        None => title,
    }
}

/// A deck after it was edited.
pub open spec fn deck_edited(
    d: DeckView,
    title: Option<Seq<char>>,
    edits: Seq<SlideEditView>,
) -> DeckView {
    DeckView {
        title: title_edited(d.title, title),
        slides: edits_made(d.slides, edits).0,
        ..d
    }
}

fn edit_slide_by_hand(deck: &mut Deck, e: &SlideEdit) -> (r: bool)
    ensures
        match slide_index(old(deck)@.slides, e@.id) {
            Some(i) => r && final(deck)@ == (DeckView {
                slides: old(deck)@.slides.update(i, slide_edited(old(deck)@.slides[i], e@)),
                ..old(deck)@
            }),
            None => !r && final(deck)@ == old(deck)@,
        },
{
    let ghost d = deck@;
    proof {
        lemma_slide_index(d.slides, e@.id);
    }
    match deck.index_of(e.id.as_str()) {
        Some(i) => {
            let mut s = deck.slides[i].clone();
            match &e.html {
                Some(h) => {
                    s.html = h.clone();
                },
                None => {},
            }
            match &e.title {
                Some(t) => {
                    s.title = trim(t.as_str()).to_string();
                },
                None => {},
            }
            let ghost view = s@;
            deck.slides.set(i, s);
            assert(deck@.slides =~= d.slides.update(i as int, view));
            true
        },
        None => false,
    }
}

/// Makes the edits, and says how many of them met a slide. The theme and the images stay
/// as they are.
pub fn apply_edits(deck: &mut Deck, body: &DeckPost) -> (r: usize)
    ensures
        final(deck)@ == deck_edited(old(deck)@, string_view(body.title), edits_of(*body)),
        r == edits_made(old(deck)@.slides, edits_of(*body)).1,
{
    match &body.title {
        Some(t) => {
            let t = trim(t.as_str());
            if !t.is_empty() {
                deck.title = t.to_string();
            }
        },
        None => {},
    }
    let ghost d = deck@;
    let mut updated: usize = 0;
    match &body.slides {
        Some(edits) => {
            let ghost all = edit_views(edits@);
            let mut i: usize = 0;
            while i < edits.len()
                invariant
                    i <= edits@.len(),
                    all == edit_views(edits@),
                    updated <= i,
                    (deck@.slides, updated as nat) == edits_made(d.slides, all.take(i as int)),
                    deck@ == (DeckView { slides: deck@.slides, ..d }),
                decreases edits@.len() - i,
            {
                assert(all.take(i + 1).drop_last() =~= all.take(i as int));
                assert(all[i as int] == edits@[i as int]@);
                if edit_slide_by_hand(deck, &edits[i]) {
                    updated = updated + 1;
                }
                i = i + 1;
            }
            assert(all.take(i as int) =~= all);
        },
        None => {},
    }
    updated
}

/// The answer to edits; `error` is why the deck could not be saved.
pub open spec fn edits_answer(updated: nat, slides: nat, error: Option<Seq<char>>) -> AnswerView {
    match error {
        Some(e) => failure(500, e),
        None => AnswerView {
            status: 200,
            body: JsonView::Object(
                map![
                    "ok"@ => JsonView::Bool(true),
                    "updated"@ => JsonView::Int(updated as int),
                    "slides"@ => JsonView::Int(slides as int),
                ],
            ),
        },
    }
}

/// The answer to edits.
pub fn answer_edits(updated: usize, slides: usize, saved: Result<(), String>) -> (r: Answer)
    ensures
        r@ == edits_answer(
            updated as nat,
            slides as nat,
            match saved {
                Ok(_) => None,
                Err(e) => Some(e@),
            },
        ),
{
    match saved {
        Err(e) => failed(500, e.as_str()),
        Ok(_) => {
            let mut m = serde_json::Map::new();
            put(&mut m, "ok", flag(true));
            put(&mut m, "updated", number(updated as u64));
            put(&mut m, "slides", number(slides as u64));
            Answer { status: 200, body: object(m) }
        },
    }
}

// ---- Images ------------------------------------------------------------

/// An image for the deck: one that is given, or one to be made.
pub struct EditorImagePost {
    pub prompt: Option<String>,
    pub size: Option<String>,
    pub data_uri: Option<String>,
}

/// What is to be done about an image.
pub enum ImagePlan {
    /// Take the one that is given.
    Take(String),
    /// Make one: the prompt and the size.
    Make(String, String),
    /// Neither.
    Refuse(Answer),
}

pub enum ImagePlanView {
    Take(Seq<char>),
    Make(Seq<char>, Seq<char>),
    Refuse(AnswerView),
}

impl View for ImagePlan {
    type V = ImagePlanView;

    open spec fn view(&self) -> ImagePlanView {
        match self {
            ImagePlan::Take(uri) => ImagePlanView::Take(uri@),
            ImagePlan::Make(p, s) => ImagePlanView::Make(p@, s@),
            ImagePlan::Refuse(a) => ImagePlanView::Refuse(a@),
        }
    }
}

pub open spec fn trimmed_or_empty(t: Option<Seq<char>>) -> Seq<char> {
    match t {
        Some(t) => trimmed(t),
        None => Seq::empty(),
    }
}

/// What is to be done about an image: the one that is given counts before one that is
/// asked for, and one can be made only where the settings allow it.
pub open spec fn image_plan(
    prompt: Option<Seq<char>>,
    size: Option<Seq<char>>,
    data_uri: Option<Seq<char>>,
    configured: bool,
) -> ImagePlanView {
    if trimmed_or_empty(data_uri).len() > 0 {
        ImagePlanView::Take(trimmed_or_empty(data_uri))
    } else if trimmed_or_empty(prompt).len() == 0 {
        ImagePlanView::Refuse(failure(400, "need prompt or data_uri"@))
    } else if !configured {
        ImagePlanView::Refuse(failure(400, "not configured"@))
    } else {
        ImagePlanView::Make(
            trimmed_or_empty(prompt),
            match size {
                Some(s) => s,
                None => "1536x1024"@,
            },
        )
    }
}

pub open spec fn is_configured(cfg: Option<&AppConfig>) -> bool {
    match cfg {
        Some(c) => ready(c@),
        None => false,
    }
}

/// Decides what is to be done about an image.
pub fn plan_image(body: &EditorImagePost, cfg: Option<&AppConfig>) -> (r: ImagePlan)
    ensures
        r@ == image_plan(
            string_view(body.prompt),
            string_view(body.size),
            string_view(body.data_uri),
            is_configured(cfg),
        ),
{
    match &body.data_uri {
        Some(t) => {
            let uri = trim(t.as_str());
            if !uri.is_empty() {
                return ImagePlan::Take(uri.to_string());
            }
        },
        None => {},
    }
    let prompt = match &body.prompt {
        Some(t) => trim(t.as_str()).to_string(),
        None => String::new(),
    };
    if prompt.as_str().is_empty() {
        return ImagePlan::Refuse(failed(400, "need prompt or data_uri"));
    }
    let configured = match cfg {
        Some(c) => c.is_complete(),
        None => false,
    };
    if !configured {
        return ImagePlan::Refuse(failed(400, "not configured"));
    }
    let size = match &body.size {
        Some(s) => s.clone(),
        None => "1536x1024".to_string(),
    };
    ImagePlan::Make(prompt, size)
}

/// A deck with one image more.
pub open spec fn with_new_image(
    d: DeckView,
    prompt: Option<Seq<char>>,
    data_uri: Seq<char>,
) -> DeckView {
    let said = trimmed_or_empty(prompt);
    DeckView {
        images: d.images.push(
            (
                image_id(d.img_seq + 1),
                ImageView {
                    data_uri: data_uri,
                    prompt: if said.len() == 0 {
                        "uploaded image"@
                    } else {
                        said
                    },
                },
            ),
        ),
        img_seq: d.img_seq + 1,
        ..d
    }
}

pub open spec fn image_answer(id: Seq<char>, data_uri: Seq<char>) -> AnswerView {
    AnswerView {
        status: 200,
        body: JsonView::Object(
            map![
                "ok"@ => JsonView::Bool(true),
                "image_id"@ => JsonView::Text(id),
                "data_uri"@ => JsonView::Text(data_uri),
            ],
        ),
    }
}

/// Adds an image to the deck under a new id, and gives the answer for when the deck is
/// saved.
pub fn add_editor_image(deck: &mut Deck, prompt: Option<String>, data_uri: &str) -> (r: Answer)
    requires
        old(deck).img_seq < u32::MAX,
    ensures
        final(deck)@ == with_new_image(old(deck)@, string_view(prompt), data_uri@),
        r@ == image_answer(image_id(old(deck)@.img_seq + 1), data_uri@),
{
    let said = match &prompt {
        Some(t) => trim(t.as_str()).to_string(),
        None => String::new(),
    };
    let prompt = if said.as_str().is_empty() {
        "uploaded image".to_string()
    } else {
        said
    };
    let id = deck.new_image_id();
    deck.insert_image(id.clone(), Image { data_uri: data_uri.to_string(), prompt });
    let mut m = serde_json::Map::new();
    put(&mut m, "ok", flag(true));
    put_text(&mut m, "image_id", id.as_str());
    put_text(&mut m, "data_uri", data_uri);
    Answer { status: 200, body: object(m) }
}

/// The image that was made for the editor, or the answer that says why there is none.
pub open spec fn made_image(r: Result<Seq<char>, Seq<char>>) -> Result<Seq<char>, AnswerView> {
    match r {
        Ok(uri) => Ok(uri),
        Err(e) => Err(failure(502, e)),
    }
}

/// Takes what the image model came to.
pub fn take_image(made: Result<String, String>) -> (r: Result<String, Answer>)
    ensures
        match made_image(text_result(made)) {
            Ok(uri) => r matches Ok(u) && u@ == uri,
            Err(a) => r matches Err(x) && x@ == a,
        },
{
    match made {
        Ok(uri) => Ok(uri),
        Err(e) => Err(failed(502, e.as_str())),
    }
}

/// The answer to a request for an image: `r` is the one that was meant, or why the deck
/// could not be saved.
pub fn answer_image(r: Result<Answer, String>) -> (a: Answer)
    ensures
        a@ == settled(result_view(r), 500),
{
    settle(r, 500)
}

// ---- Laws --------------------------------------------------------------

/// Edits by hand change nothing but the texts of slides that are there: their ids, their
/// number and their order stay, and so do the theme and the images.
pub proof fn law_edits_keep_the_rest(
    d: DeckView,
    title: Option<Seq<char>>,
    edits: Seq<SlideEditView>,
)
    ensures
        deck_edited(d, title, edits).theme_css == d.theme_css,
        deck_edited(d, title, edits).images == d.images,
        deck_edited(d, title, edits).seq == d.seq,
        deck_edited(d, title, edits).img_seq == d.img_seq,
        slide_ids(deck_edited(d, title, edits).slides) == slide_ids(d.slides),
        edits_made(d.slides, edits).1 <= edits.len(),
    decreases edits.len(),
{
    if edits.len() > 0 {
        law_edits_keep_the_rest(d, title, edits.drop_last());
        let s = edits_made(d.slides, edits.drop_last()).0;
        lemma_slide_index(s, edits.last().id);
        assert(slide_ids(edits_made(d.slides, edits).0) =~= slide_ids(s));
    }
}

/// A slide that no edit names stays as it is.
pub proof fn law_unnamed_slides_stay(d: DeckView, edits: Seq<SlideEditView>, j: int)
    requires
        0 <= j < d.slides.len(),
        forall|k: int| 0 <= k < edits.len() ==> (#[trigger] edits[k]).id != d.slides[j].id,
    ensures
        edits_made(d.slides, edits).0.len() == d.slides.len(),
        edits_made(d.slides, edits).0[j] == d.slides[j],
    decreases edits.len(),
{
    if edits.len() > 0 {
        let rest = edits.drop_last();
        assert forall|k: int| 0 <= k < rest.len() implies (#[trigger] rest[k]).id
            != d.slides[j].id by {
            assert(rest[k] == edits[k]);
        }
        law_unnamed_slides_stay(d, rest, j);
        assert(edits[edits.len() - 1].id != d.slides[j].id);
        lemma_slide_index(edits_made(d.slides, rest).0, edits.last().id);
    }
}

/// A deck that was edited by hand is read back from its snapshot with the edits, so that
/// the agent goes on with them.
pub proof fn law_edited_deck_is_read_back(
    d: DeckView,
    title: Option<Seq<char>>,
    edits: Seq<SlideEditView>,
)
    requires
        has_names(d),
        counters_lead(d),
        d.seq <= u32::MAX,
        d.img_seq <= u32::MAX,
    ensures
        deck_from(full_json(deck_edited(d, title, edits))) == deck_edited(d, title, edits),
{
    let e = deck_edited(d, title, edits);
    law_edits_keep_the_rest(d, title, edits);
    let ids = slide_ids(d.slides);
    assert(slide_ids(e.slides).len() == ids.len());
    assert forall|i: int| 0 <= i < e.slides.len() implies (#[trigger] e.slides[i]).id.len() > 0 by {
        assert(slide_ids(e.slides)[i] == e.slides[i].id);
        assert(ids[i] == d.slides[i].id);
    }
    law_snapshot_round_trips(e);
}

/// An edit gives the slide that it names the title, without the white space around it, and
/// the content that it carries, each whether or not it carries the other, as long as no later
/// edit names the slide; what it does not carry stays as it was before.
pub proof fn law_last_edit_counts(
    d: DeckView,
    title: Option<Seq<char>>,
    edits: Seq<SlideEditView>,
    k: int,
    i: int,
)
    requires
        0 <= k < edits.len(),
        names_slide(d.slides, edits[k].id, i),
        forall|j: int| k < j < edits.len() ==> (#[trigger] edits[j]).id != edits[k].id,
    ensures
        ({
            let before = deck_edited(d, title, edits.take(k)).slides[i];
            let after = deck_edited(d, title, edits).slides[i];
            &&& after.id == d.slides[i].id
            &&& edits[k].title matches Some(t) ==> after.title == trimmed(t)
            &&& edits[k].title is None ==> after.title == before.title
            &&& edits[k].html matches Some(h) ==> after.html == h
            &&& edits[k].html is None ==> after.html == before.html
            &&& (forall|j: int| 0 <= j < k ==> (#[trigger] edits[j]).id != edits[k].id) ==> before
                == d.slides[i]
        }),
    decreases edits.len() - k,
{
    let id = edits[k].id;
    let short = edits.take(k);
    let one = edits.take(k + 1);
    assert(one.drop_last() =~= short);
    law_edits_keep_the_rest(d, title, short);
    let s = edits_made(d.slides, short).0;
    assert(slide_ids(s).len() == slide_ids(d.slides).len());
    assert forall|j: int| 0 <= j < s.len() implies (#[trigger] s[j]).id == d.slides[j].id by {
        assert(slide_ids(s)[j] == s[j].id);
        assert(slide_ids(d.slides)[j] == d.slides[j].id);
    }
    assert(names_slide(s, id, i));
    lemma_slide_index(s, id);
    assert(slide_index(s, id) == Some(i)) by {
        match slide_index(s, id) {
            Some(m) => {
                if m < i {
                    assert(s[m].id != id);
                }
                if i < m {
                    assert(s[i].id != id);
                }
            },
            None => {
                assert(s[i].id != id);
            },
        }
    }
    let t = edits_made(d.slides, one).0;
    assert(t == s.update(i, slide_edited(s[i], edits[k])));
    if forall|j: int| 0 <= j < k ==> (#[trigger] edits[j]).id != id {
        assert forall|j: int| 0 <= j < short.len() implies (#[trigger] short[j]).id
            != d.slides[i].id by {
            assert(short[j] == edits[j]);
        }
        law_unnamed_slides_stay(d, short, i);
    }
    let later = edits.skip(k + 1);
    assert forall|j: int| 0 <= j < later.len() implies (#[trigger] later[j]).id != t[i].id by {
        assert(later[j] == edits[k + 1 + j]);
    }
    law_unnamed_slides_stay(DeckView { slides: t, ..d }, later, i);
    lemma_edits_apart(d.slides, edits, k + 1);
}

proof fn lemma_edits_apart(slides: Seq<SlideView>, edits: Seq<SlideEditView>, n: int)
    requires
        0 <= n <= edits.len(),
    ensures
        edits_made(slides, edits).0 == edits_made(
            edits_made(slides, edits.take(n)).0,
            edits.skip(n),
        ).0,
    decreases edits.len(),
{
    if n == edits.len() {
        assert(edits.take(n) =~= edits);
        assert(edits.skip(n) =~= Seq::empty());
    } else {
        let rest = edits.drop_last();
        lemma_edits_apart(slides, rest, n);
        assert(rest.take(n) =~= edits.take(n));
        assert(rest.skip(n) =~= edits.skip(n).drop_last());
        assert(edits.skip(n).last() == edits.last());
    }
}

/// The edits that are counted are those that name a slide of the deck.
pub proof fn law_edits_that_meet_a_slide_are_counted(
    slides: Seq<SlideView>,
    edits: Seq<SlideEditView>,
)
    ensures
        edits_made(slides, edits).1 == edits.filter(
            |e: SlideEditView| slide_ids(slides).contains(e.id),
        ).len(),
    decreases edits.len(),
{
    reveal(Seq::filter);
    if edits.len() > 0 {
        let rest = edits.drop_last();
        let id = edits.last().id;
        law_edits_that_meet_a_slide_are_counted(slides, rest);
        let d = DeckView { slides: slides, ..empty_deck() };
        law_edits_keep_the_rest(d, None, rest);
        let s = edits_made(slides, rest).0;
        assert(slide_ids(s) == slide_ids(slides));
        lemma_slide_index(s, id);
        if slide_ids(slides).contains(id) {
            let j = choose|j: int| 0 <= j < slide_ids(s).len() && slide_ids(s)[j] == id;
            assert(s[j].id == id);
        }
        if let Some(i) = slide_index(s, id) {
            assert(slide_ids(s)[i] == id);
        }
    }
}

/// A deck takes the title that it is given, without the white space around it; a blank one,
/// or none, leaves the title as it is.
pub proof fn law_deck_takes_the_title(
    d: DeckView,
    title: Option<Seq<char>>,
    edits: Seq<SlideEditView>,
)
    ensures
        title matches Some(t) ==> (trimmed(t).len() > 0 ==> deck_edited(d, title, edits).title
            == trimmed(t)),
        title matches Some(t) ==> (trimmed(t).len() == 0 ==> deck_edited(d, title, edits).title
            == d.title),
        title is None ==> deck_edited(d, title, edits).title == d.title,
{
}

/// An image that is added is looked up, under the id that the answer names, with its data and
/// its prompt; all else of the deck stays, and so does every other image.
pub proof fn law_new_image_is_looked_up(
    d: DeckView,
    prompt: Option<Seq<char>>,
    data_uri: Seq<char>,
    other: Seq<char>,
)
    ensures
        ({
            let after = with_new_image(d, prompt, data_uri);
            let id = "img"@ + dec(d.img_seq + 1);
            let said = match prompt {
                Some(p) => trimmed(p),
                None => Seq::empty(),
            };
            &&& after.images.len() == d.images.len() + 1
            &&& after.images.drop_last() == d.images
            &&& after.images.last().0 == id
            &&& after.images.last().1.data_uri == data_uri
            &&& said.len() > 0 ==> after.images.last().1.prompt == said
            &&& said.len() == 0 ==> after.images.last().1.prompt == "uploaded image"@
            &&& (forall|i: int| 0 <= i < d.images.len() ==> (#[trigger] d.images[i]).0 != id)
                ==> image_of(after.images, id) == Some(after.images.last().1)
            &&& other != id ==> image_of(after.images, other) == image_of(d.images, other)
            &&& after.img_seq == d.img_seq + 1
            &&& after.slides == d.slides
            &&& after.title == d.title
            &&& after.theme_css == d.theme_css
            &&& after.seq == d.seq
        }),
{
    let after = with_new_image(d, prompt, data_uri);
    let id = image_id(d.img_seq + 1);
    assert(after.images.drop_last() =~= d.images);
    lemma_image_index(d.images, id);
    lemma_image_index(d.images, other);
}

/// The answers about a deck carry what they are about: the number of slides that were edited
/// and that there are, the id of an image and its data.
pub proof fn law_editor_answers(
    updated: nat,
    slides: nat,
    id: Seq<char>,
    data_uri: Seq<char>,
    error: Seq<char>,
)
    ensures
        edits_answer(updated, slides, None).status == 200,
        field(edits_answer(updated, slides, None).body, "ok"@) == Some(JsonView::Bool(true)),
        field(edits_answer(updated, slides, None).body, "updated"@) == Some(
            JsonView::Int(updated as int),
        ),
        field(edits_answer(updated, slides, None).body, "slides"@) == Some(
            JsonView::Int(slides as int),
        ),
        edits_answer(updated, slides, Some(error)).status == 500,
        field(edits_answer(updated, slides, Some(error)).body, "error"@) == Some(
            JsonView::Text(error),
        ),
        image_answer(id, data_uri).status == 200,
        field(image_answer(id, data_uri).body, "ok"@) == Some(JsonView::Bool(true)),
        field(image_answer(id, data_uri).body, "image_id"@) == Some(JsonView::Text(id)),
        field(image_answer(id, data_uri).body, "data_uri"@) == Some(JsonView::Text(data_uri)),
        made_image(Ok(data_uri)) == Ok::<Seq<char>, AnswerView>(data_uri),
        made_image(Err(error)) matches Err(a) && a.status == 502 && field(a.body, "error"@) == Some(
            JsonView::Text(error),
        ),
{
    reveal_strlit("ok");
    reveal_strlit("updated");
    reveal_strlit("slides");
    reveal_strlit("error");
    reveal_strlit("image_id");
    reveal_strlit("data_uri");
    assert("ok"@.len() == 2 && "updated"@.len() == 7 && "slides"@.len() == 6);
    assert("error"@.len() == 5 && "image_id"@.len() == 8 && "data_uri"@.len() == 8);
    assert("image_id"@[0] == 'i' && "data_uri"@[0] == 'd');
}

/// An image that is given is taken as it is; without one, one is made from the prompt, at the
/// size that is asked for, where there is a prompt and the settings allow it.
pub proof fn law_image_is_taken_or_made(
    prompt: Option<Seq<char>>,
    size: Option<Seq<char>>,
    data_uri: Option<Seq<char>>,
    configured: bool,
)
    ensures
        ({
            let given = match data_uri {
                Some(u) => trimmed(u),
                None => Seq::empty(),
            };
            let said = match prompt {
                Some(p) => trimmed(p),
                None => Seq::empty(),
            };
            let plan = image_plan(prompt, size, data_uri, configured);
            &&& given.len() > 0 ==> plan == ImagePlanView::Take(given)
            &&& given.len() == 0 && said.len() == 0 ==> plan == ImagePlanView::Refuse(
                failure(400, "need prompt or data_uri"@),
            )
            &&& given.len() == 0 && said.len() > 0 && !configured ==> plan
                == ImagePlanView::Refuse(failure(400, "not configured"@))
            &&& given.len() == 0 && said.len() > 0 && configured ==> plan
                == ImagePlanView::Make(
                said,
                match size {
                    Some(asked) => asked,
                    None => "1536x1024"@,
                },
            )
        }),
{
}

/// The editor is given the title, the headings, the notes on the images and the page of the
/// deck that it asks for.
pub proof fn law_editor_is_given_the_deck(d: DeckView)
    ensures
        field(editor_json(d), "title"@) == Some(JsonView::Text(d.title)),
        field(editor_json(d), "slides"@) == Some(headings_json(d.slides)),
        field(editor_json(d), "editor_html"@) == Some(JsonView::Text(editor_page(d))),
        field(editor_json(d), "images"@) == Some(image_notes_json(d.images)),
{
    reveal_strlit("title");
    reveal_strlit("slides");
    reveal_strlit("editor_html");
    reveal_strlit("images");
    assert("title"@.len() == 5 && "slides"@.len() == 6 && "editor_html"@.len() == 11);
    assert("images"@.len() == 6 && "slides"@[0] == 's' && "images"@[0] == 'i');
}

/// Where nothing was saved, or nothing that is JSON, the deck is empty; what was saved is
/// read as a deck.
pub proof fn law_saved_deck_is_loaded(text: Seq<char>)
    ensures
        deck_saved(None) matches Some(d) && d.slides.len() == 0 && d.images.len() == 0 && d.title
            == "Untitled Deck"@ && d.theme_css.len() == 0 && d.seq == 0 && d.img_seq == 0,
        json_parse(text) is None ==> deck_saved(Some(text)) == deck_saved(None),
        json_parse(text) matches Some(v) ==> (ids_fit(v) ==> deck_saved(Some(text)) == Some(
            deck_from(v),
        )),
{
}

} // verus!
