//! Decks as JSON: for the model, for the outline, and as a complete snapshot.

use serde_json::Value;
use vstd::prelude::*;
use vstd::string::*;

use crate::deck::{
    image_id, image_views, law_ids_are_given_to_the_unnamed, named, slide_id, slide_views, unnamed,
    Deck, DeckView, Image, ImageView, Slide, SlideView,
};
use crate::json::{
    array, as_int, field, get, items_at, items_of, json_entries, json_parse, json_print, json_view,
    json_views, lemma_ordered, lists, number, object, ordered, pairs, pairs_view, parse,
    plain_within, print, put, put_text, raw_mark, sget, text_field, JsonView,
};
use crate::num::{dec, lemma_dec, lemma_trailing_digits_of, numeric_suffix, suffix_of};

verus! {

// ---- What the documents hold -------------------------------------------

/// A slide in full.
pub open spec fn slide_json(s: SlideView) -> JsonView {
    JsonView::Object(
        map![
            "id"@ => JsonView::Text(s.id),
            "title"@ => JsonView::Text(s.title),
            "html"@ => JsonView::Text(s.html),
        ],
    )
}

/// A slide as the outline shows it.
pub open spec fn slide_heading_json(s: SlideView) -> JsonView {
    JsonView::Object(
        map![
            "id"@ => JsonView::Text(s.id),
            "title"@ => JsonView::Text(s.title),
        ],
    )
}

/// An image without its data.
pub open spec fn image_note_json(p: (Seq<char>, ImageView)) -> JsonView {
    JsonView::Object(
        map![
            "id"@ => JsonView::Text(p.0),
            "prompt"@ => JsonView::Text(p.1.prompt),
        ],
    )
}

/// An image in full.
pub open spec fn image_json(p: (Seq<char>, ImageView)) -> JsonView {
    JsonView::Object(
        map![
            "id"@ => JsonView::Text(p.0),
            "data_uri"@ => JsonView::Text(p.1.data_uri),
            "prompt"@ => JsonView::Text(p.1.prompt),
        ],
    )
}

pub open spec fn slides_json(s: Seq<SlideView>) -> JsonView {
    JsonView::Array(s.map_values(|x: SlideView| slide_json(x)))
}

pub open spec fn headings_json(s: Seq<SlideView>) -> JsonView {
    JsonView::Array(s.map_values(|x: SlideView| slide_heading_json(x)))
}

pub open spec fn image_notes_json(s: Seq<(Seq<char>, ImageView)>) -> JsonView {
    JsonView::Array(s.map_values(|x: (Seq<char>, ImageView)| image_note_json(x)))
}

pub open spec fn images_json(s: Seq<(Seq<char>, ImageView)>) -> JsonView {
    JsonView::Array(s.map_values(|x: (Seq<char>, ImageView)| image_json(x)))
}

/// The deck as the model sees it: slides and theme, and of the images only what
/// they show.
pub open spec fn model_json(d: DeckView) -> JsonView {
    JsonView::Object(
        map![
            "title"@ => JsonView::Text(d.title),
            "theme_css"@ => JsonView::Text(d.theme_css),
            "slides"@ => slides_json(d.slides),
            "images"@ => image_notes_json(d.images),
        ],
    )
}

/// The outline of the deck.
pub open spec fn ui_json(d: DeckView) -> JsonView {
    JsonView::Object(
        map![
            "title"@ => JsonView::Text(d.title),
            "slides"@ => headings_json(d.slides),
        ],
    )
}

/// The complete deck, with the images and the id counters.
pub open spec fn full_json(d: DeckView) -> JsonView {
    JsonView::Object(
        map![
            "title"@ => JsonView::Text(d.title),
            "theme_css"@ => JsonView::Text(d.theme_css),
            "slides"@ => slides_json(d.slides),
            "images"@ => images_json(d.images),
            "_seq"@ => JsonView::Int(d.seq as int),
            "_img_seq"@ => JsonView::Int(d.img_seq as int),
        ],
    )
}

/// The slide that a document describes; what it leaves out is empty.
pub open spec fn slide_from(v: JsonView) -> SlideView {
    SlideView {
        id: text_field(v, "id"@),
        title: text_field(v, "title"@),
        html: text_field(v, "html"@),
    }
}

/// The image that a document describes; what it leaves out is empty.
pub open spec fn image_from(v: JsonView) -> ImageView {
    ImageView { data_uri: text_field(v, "data_uri"@), prompt: text_field(v, "prompt"@) }
}

/// The images that a list of documents describes; one without an id is left out.
pub open spec fn listed_images(items: Seq<JsonView>) -> Seq<(Seq<char>, ImageView)>
    decreases items.len(),
{
    if items.len() == 0 {
        Seq::empty()
    } else {
        let before = listed_images(items.drop_last());
        let id = text_field(items.last(), "id"@);
        if id.len() == 0 {
            before
        } else {
            before.push((id, image_from(items.last())))
        }
    }
}

/// The images that a document describes: a list of objects with an `id` each, or an
/// object from ids to images, which gives them in the order of their ids.
pub open spec fn images_from(v: Option<JsonView>) -> Seq<(Seq<char>, ImageView)> {
    match v {
        Some(JsonView::Array(items)) => listed_images(items),
        Some(JsonView::Object(m)) => ordered(m).map_values(
            |p: (Seq<char>, JsonView)| (p.0, image_from(p.1)),
        ),
        _ => Seq::empty(),
    }
}

/// The slides that a document describes.
pub open spec fn slides_from(v: JsonView) -> Seq<SlideView> {
    match items_at(v, "slides"@) {
        Some(items) => items.map_values(|x: JsonView| slide_from(x)),
        None => Seq::empty(),
    }
}

/// The counter at `key`, by the low 32 bits of the number there.
pub open spec fn counter_from(v: JsonView, key: Seq<char>) -> nat {
    match field(v, key) {
        Some(f) => match as_int(f, 0, u64::MAX as int) {
            Some(n) => (n % 0x1_0000_0000) as nat,
            None => 0,
        },
        None => 0,
    }
}

pub open spec fn max(a: nat, b: nat) -> nat {
    if a < b {
        b
    } else {
        a
    }
}

/// The highest number that one of the ids ends with.
pub open spec fn top_suffix(ids: Seq<Seq<char>>) -> nat
    decreases ids.len(),
{
    if ids.len() == 0 {
        0
    } else {
        max(top_suffix(ids.drop_last()), numeric_suffix(ids.last()))
    }
}

pub open spec fn slide_ids(s: Seq<SlideView>) -> Seq<Seq<char>> {
    s.map_values(|x: SlideView| x.id)
}

pub open spec fn image_ids(s: Seq<(Seq<char>, ImageView)>) -> Seq<Seq<char>> {
    s.map_values(|x: (Seq<char>, ImageView)| x.0)
}

/// The number after which a deck read from `v` mints slide ids: no id in use has a
/// higher one.
pub open spec fn seq_from(v: JsonView) -> nat {
    max(counter_from(v, "_seq"@), top_suffix(slide_ids(slides_from(v))))
}

pub open spec fn img_seq_from(v: JsonView) -> nat {
    max(counter_from(v, "_img_seq"@), top_suffix(image_ids(images_from(field(v, "images"@)))))
}

pub open spec fn title_from(v: JsonView) -> Seq<char> {
    let t = text_field(v, "title"@);
    if t.len() == 0 {
        "Untitled Deck"@
    } else {
        t
    }
}

/// Whether ids can be minted for all slides of the deck in `v` that have none.
pub open spec fn ids_fit(v: JsonView) -> bool {
    seq_from(v) + unnamed(slides_from(v)) <= u32::MAX
}

/// The deck that a snapshot describes.
pub open spec fn deck_from(v: JsonView) -> DeckView {
    DeckView {
        title: title_from(v),
        theme_css: text_field(v, "theme_css"@),
        slides: named(slides_from(v), seq_from(v)),
        images: images_from(field(v, "images"@)),
        seq: seq_from(v) + unnamed(slides_from(v)),
        img_seq: img_seq_from(v),
    }
}

// ---- Writing -----------------------------------------------------------

pub(crate) fn slides_value(slides: &Vec<Slide>, with_html: bool) -> (r: Value)
    ensures
        with_html ==> json_view(r) == slides_json(slide_views(slides@)),
        !with_html ==> json_view(r) == headings_json(slide_views(slides@)),
{
    let ghost all = slide_views(slides@);
    let ghost one = |x: SlideView|
        if with_html {
            slide_json(x)
        } else {
            slide_heading_json(x)
        };
    let mut items: Vec<Value> = Vec::new();
    let mut i: usize = 0;
    while i < slides.len()
        invariant
            i <= slides@.len(),
            all == slide_views(slides@),
            one == (|x: SlideView|
                if with_html {
                    slide_json(x)
                } else {
                    slide_heading_json(x)
                }),
            json_views(items@) =~= all.take(i as int).map_values(one),
        decreases slides@.len() - i,
    {
        let s = &slides[i];
        let mut m = serde_json::Map::new();
        put_text(&mut m, "id", s.id.as_str());
        put_text(&mut m, "title", s.title.as_str());
        if with_html {
            put_text(&mut m, "html", s.html.as_str());
        }
        assert(JsonView::Object(json_entries(m)) == one(all[i as int]));
        items.push(object(m));
        i = i + 1;
        assert(all.take(i as int).map_values(one) =~= all.take(i - 1).map_values(one).push(
            one(all[i - 1]),
        ));
    }
    assert(all.take(i as int) =~= all);
    assert(with_html ==> json_views(items@) =~= all.map_values(|x: SlideView| slide_json(x)));
    assert(!with_html ==> json_views(items@) =~= all.map_values(
        |x: SlideView| slide_heading_json(x),
    ));
    array(items)
}

pub(crate) fn images_value(images: &Vec<(String, Image)>, with_data: bool) -> (r: Value)
    ensures
        with_data ==> json_view(r) == images_json(image_views(images@)),
        !with_data ==> json_view(r) == image_notes_json(image_views(images@)),
{
    let ghost all = image_views(images@);
    let ghost one = |x: (Seq<char>, ImageView)|
        if with_data {
            image_json(x)
        } else {
            image_note_json(x)
        };
    let mut items: Vec<Value> = Vec::new();
    let mut i: usize = 0;
    while i < images.len()
        invariant
            i <= images@.len(),
            all == image_views(images@),
            one == (|x: (Seq<char>, ImageView)|
                if with_data {
                    image_json(x)
                } else {
                    image_note_json(x)
                }),
            json_views(items@) =~= all.take(i as int).map_values(one),
        decreases images@.len() - i,
    {
        let p = &images[i];
        let mut m = serde_json::Map::new();
        put_text(&mut m, "id", p.0.as_str());
        if with_data {
            put_text(&mut m, "data_uri", p.1.data_uri.as_str());
        }
        put_text(&mut m, "prompt", p.1.prompt.as_str());
        assert(JsonView::Object(json_entries(m)) == one(all[i as int]));
        items.push(object(m));
        i = i + 1;
        assert(all.take(i as int).map_values(one) =~= all.take(i - 1).map_values(one).push(
            one(all[i - 1]),
        ));
    }
    assert(all.take(i as int) =~= all);
    assert(with_data ==> json_views(items@) =~= all.map_values(
        |x: (Seq<char>, ImageView)| image_json(x),
    ));
    assert(!with_data ==> json_views(items@) =~= all.map_values(
        |x: (Seq<char>, ImageView)| image_note_json(x),
    ));
    array(items)
}

impl Deck {
    /// The deck for the model: slides and theme, and of the images only what they
    /// show, so that the model's context stays small.
    pub fn to_model_json(&self) -> (r: Value)
        ensures
            json_view(r) == model_json(self@),
    {
        let mut m = serde_json::Map::new();
        put_text(&mut m, "title", self.title.as_str());
        put_text(&mut m, "theme_css", self.theme_css.as_str());
        put(&mut m, "slides", slides_value(&self.slides, true));
        put(&mut m, "images", images_value(&self.images, false));
        object(m)
    }

    /// The outline, for the live preview.
    pub fn to_ui_json(&self) -> (r: Value)
        ensures
            json_view(r) == ui_json(self@),
    {
        let mut m = serde_json::Map::new();
        put_text(&mut m, "title", self.title.as_str());
        put(&mut m, "slides", slides_value(&self.slides, false));
        object(m)
    }

    /// The complete snapshot that is saved, with the image data and the id counters.
    pub fn to_full_json(&self) -> (r: Value)
        ensures
            json_view(r) == full_json(self@),
    {
        let mut m = serde_json::Map::new();
        put_text(&mut m, "title", self.title.as_str());
        put_text(&mut m, "theme_css", self.theme_css.as_str());
        put(&mut m, "slides", slides_value(&self.slides, true));
        put(&mut m, "images", images_value(&self.images, true));
        put(&mut m, "_seq", number(self.seq as u64));
        put(&mut m, "_img_seq", number(self.img_seq as u64));
        object(m)
    }
}

// ---- Reading -----------------------------------------------------------

fn read_slides(v: &Value) -> (r: Vec<Slide>)
    ensures
        slide_views(r@) == slides_from(json_view(*v)),
{
    let mut slides: Vec<Slide> = Vec::new();
    match items_of(v, "slides") {
        Some(items) => {
            let ghost all = json_views(items@);
            let ghost one = |x: JsonView| slide_from(x);
            let mut i: usize = 0;
            while i < items.len()
                invariant
                    i <= items@.len(),
                    all == json_views(items@),
                    one == (|x: JsonView| slide_from(x)),
                    slide_views(slides@) =~= all.take(i as int).map_values(one),
                decreases items@.len() - i,
            {
                let s = &items[i];
                let slide = Slide {
                    id: sget(s, "id"),
                    title: sget(s, "title"),
                    html: sget(s, "html"),
                };
                assert(slide@ == one(all[i as int]));
                slides.push(slide);
                i = i + 1;
                assert(all.take(i as int).map_values(one) =~= all.take(i - 1).map_values(one).push(
                    one(all[i - 1]),
                ));
            }
            assert(all.take(i as int) =~= all);
        },
        None => {
            assert(slide_views(slides@) =~= Seq::empty());
        },
    }
    slides
}

fn read_image(v: &Value) -> (r: Image)
    ensures
        r@ == image_from(json_view(*v)),
{
    Image { data_uri: sget(v, "data_uri"), prompt: sget(v, "prompt") }
}

fn read_listed_images(items: &Vec<Value>) -> (r: Vec<(String, Image)>)
    ensures
        image_views(r@) == listed_images(json_views(items@)),
{
    let ghost all = json_views(items@);
    let mut images: Vec<(String, Image)> = Vec::new();
    let mut i: usize = 0;
    while i < items.len()
        invariant
            i <= items@.len(),
            all == json_views(items@),
            image_views(images@) =~= listed_images(all.take(i as int)),
        decreases items@.len() - i,
    {
        assert(all.take(i + 1).drop_last() =~= all.take(i as int));
        assert(all.take(i + 1).last() == json_view(items@[i as int]));
        let id = sget(&items[i], "id");
        if !id.as_str().is_empty() {
            images.push((id, read_image(&items[i])));
        }
        i = i + 1;
    }
    assert(all.take(i as int) =~= all);
    images
}

fn read_keyed_images(m: &serde_json::Map<String, Value>) -> (r: Vec<(String, Image)>)
    ensures
        image_views(r@) == images_from(Some(JsonView::Object(json_entries(*m)))),
{
    let entries = pairs(m);
    let ghost all = pairs_view(entries@);
    let ghost one = |p: (Seq<char>, JsonView)| (p.0, image_from(p.1));
    proof {
        lemma_ordered(all, json_entries(*m));
    }
    let mut images: Vec<(String, Image)> = Vec::new();
    let mut i: usize = 0;
    while i < entries.len()
        invariant
            i <= entries@.len(),
            all == pairs_view(entries@),
            one == (|p: (Seq<char>, JsonView)| (p.0, image_from(p.1))),
            image_views(images@) =~= all.take(i as int).map_values(one),
        decreases entries@.len() - i,
    {
        let (id, img) = entries[i];
        assert(all[i as int] == (id@, json_view(*img)));
        images.push((id.clone(), read_image(img)));
        i = i + 1;
        assert(all.take(i as int).map_values(one) =~= all.take(i - 1).map_values(one).push(
            one(all[i - 1]),
        ));
    }
    assert(all.take(i as int) =~= all);
    images
}

fn read_images(v: &Value) -> (r: Vec<(String, Image)>)
    ensures
        image_views(r@) == images_from(field(json_view(*v), "images"@)),
{
    if let Some(f) = get(v, "images") {
        if let Some(items) = f.as_array() {
            return read_listed_images(items);
        }
        if let Some(m) = f.as_object() {
            return read_keyed_images(m);
        }
    }
    let r: Vec<(String, Image)> = Vec::new();
    assert(image_views(r@) =~= Seq::empty());
    r
}

fn read_counter(v: &Value, key: &str) -> (r: u32)
    ensures
        r == counter_from(json_view(*v), key@),
{
    match get(v, key) {
        Some(f) => match f.as_u64() {
            Some(n) => {
                assert(n % 0x1_0000_0000 <= u32::MAX);
                (n % 0x1_0000_0000) as u32
            },
            None => 0,
        },
        None => 0,
    }
}

fn top_slide_suffix(slides: &Vec<Slide>) -> (r: u32)
    ensures
        r == top_suffix(slide_ids(slide_views(slides@))),
{
    let ghost ids = slide_ids(slide_views(slides@));
    let mut best: u32 = 0;
    let mut i: usize = 0;
    while i < slides.len()
        invariant
            i <= slides@.len(),
            ids == slide_ids(slide_views(slides@)),
            best == top_suffix(ids.take(i as int)),
        decreases slides@.len() - i,
    {
        assert(ids.take(i + 1).drop_last() =~= ids.take(i as int));
        let n: u32 = suffix_of(slides[i].id.as_str());
        if best < n {
            best = n;
        }
        i = i + 1;
    }
    assert(ids.take(i as int) =~= ids);
    best
}

fn top_image_suffix(images: &Vec<(String, Image)>) -> (r: u32)
    ensures
        r == top_suffix(image_ids(image_views(images@))),
{
    let ghost ids = image_ids(image_views(images@));
    let mut best: u32 = 0;
    let mut i: usize = 0;
    while i < images.len()
        invariant
            i <= images@.len(),
            ids == image_ids(image_views(images@)),
            best == top_suffix(ids.take(i as int)),
        decreases images@.len() - i,
    {
        assert(ids.take(i + 1).drop_last() =~= ids.take(i as int));
        let n: u32 = suffix_of(images[i].0.as_str());
        if best < n {
            best = n;
        }
        i = i + 1;
    }
    assert(ids.take(i as int) =~= ids);
    best
}

fn count_unnamed(slides: &Vec<Slide>) -> (r: usize)
    ensures
        r == unnamed(slide_views(slides@)),
        r <= slides@.len(),
{
    let ghost all = slide_views(slides@);
    let mut n: usize = 0;
    let mut i: usize = 0;
    while i < slides.len()
        invariant
            n <= i <= slides@.len(),
            all == slide_views(slides@),
            n == unnamed(all.take(i as int)),
        decreases slides@.len() - i,
    {
        assert(all.take(i + 1).drop_last() =~= all.take(i as int));
        assert(all[i as int] == slides[i as int]@);
        if slides[i].id.as_str().is_empty() {
            n = n + 1;
        }
        i = i + 1;
    }
    assert(all.take(i as int) =~= all);
    n
}

fn higher(a: u32, b: u32) -> (r: u32)
    ensures
        r == max(a as nat, b as nat),
{
    if a < b {
        b
    } else {
        a
    }
}

/// Whether [`Deck::from_full_json`] can mint ids for all slides that have none.
pub fn snapshot_ids_fit(v: &Value) -> (r: bool)
    ensures
        r == ids_fit(json_view(*v)),
{
    let slides = read_slides(v);
    let seq: u32 = higher(read_counter(v, "_seq"), top_slide_suffix(&slides));
    let missing: usize = count_unnamed(&slides);
    missing <= (u32::MAX - seq) as usize
}

impl Deck {
    /// The deck that a snapshot describes. What is missing in it is taken as empty,
    /// so that a partial snapshot loads too; slides without an id get one.
    pub fn from_full_json(v: &Value) -> (r: Deck)
        requires
            ids_fit(json_view(*v)),
        ensures
            r@ == deck_from(json_view(*v)),
    {
        let mut title = sget(v, "title");
        if title.as_str().is_empty() {
            title = "Untitled Deck".to_string();
        }
        let theme_css = sget(v, "theme_css");
        let slides = read_slides(v);
        let images = read_images(v);
        let seq: u32 = higher(read_counter(v, "_seq"), top_slide_suffix(&slides));
        let img_seq: u32 = higher(read_counter(v, "_img_seq"), top_image_suffix(&images));
        let mut deck = Deck { title, theme_css, slides, images, seq, img_seq };
        deck.ensure_ids();
        deck
    }
}

// ---- Snapshots as text -------------------------------------------------

/// What a text was read as.
pub enum DeckText {
    Deck(Deck),
    /// The text is no JSON.
    NotJson,
    /// The deck has so many slides without an id that they cannot all be numbered.
    OutOfIds,
}

/// Reads a saved snapshot.
pub fn read_deck(text: &str) -> (r: DeckText)
    ensures
        match json_parse(text@) {
            Some(v) => if ids_fit(v) {
                r matches DeckText::Deck(d) && d@ == deck_from(v)
            } else {
                r is OutOfIds
            },
            None => r is NotJson,
        },
{
    match parse(text) {
        Some(v) => {
            if snapshot_ids_fit(&v) {
                DeckText::Deck(Deck::from_full_json(&v))
            } else {
                DeckText::OutOfIds
            }
        },
        None => DeckText::NotJson,
    }
}

/// The snapshot of a deck, as the text that is saved. A deck in which everything has its
/// name is read back from it as it was, with its counters ahead of its ids.
pub fn snapshot_text(deck: &Deck) -> (r: String)
    ensures
        r@ == json_print(full_json(deck@)),
        json_parse(r@) == Some(full_json(deck@)),
        has_names(deck@) ==> ids_fit(full_json(deck@)) && deck_from(full_json(deck@)) == raised(
            deck@,
        ),
{
    proof {
        lemma_full_json_plain(deck@);
        if has_names(deck@) {
            law_snapshot_round_trips(deck@);
        }
    }
    print(&deck.to_full_json())
}

// ---- Laws --------------------------------------------------------------

/// Whether no id in use has a number that is still to be minted.
pub open spec fn counters_lead(d: DeckView) -> bool {
    &&& top_suffix(slide_ids(d.slides)) <= d.seq
    &&& top_suffix(image_ids(d.images)) <= d.img_seq
}

/// Whether everything in the deck has its name: the deck a title, the slides and the
/// images their ids.
pub open spec fn has_names(d: DeckView) -> bool {
    &&& d.title.len() > 0
    &&& forall|i: int| 0 <= i < d.slides.len() ==> (#[trigger] d.slides[i]).id.len() > 0
    &&& forall|i: int| 0 <= i < d.images.len() ==> (#[trigger] d.images[i]).0.len() > 0
}

/// A deck with its counters at or above the numbers of its ids.
pub open spec fn raised(d: DeckView) -> DeckView {
    DeckView {
        seq: max(d.seq, top_suffix(slide_ids(d.slides))),
        img_seq: max(d.img_seq, top_suffix(image_ids(d.images))),
        ..d
    }
}

proof fn lemma_full_json_fields(d: DeckView)
    ensures
        field(full_json(d), "title"@) == Some(JsonView::Text(d.title)),
        field(full_json(d), "theme_css"@) == Some(JsonView::Text(d.theme_css)),
        field(full_json(d), "slides"@) == Some(slides_json(d.slides)),
        field(full_json(d), "images"@) == Some(images_json(d.images)),
        field(full_json(d), "_seq"@) == Some(JsonView::Int(d.seq as int)),
        field(full_json(d), "_img_seq"@) == Some(JsonView::Int(d.img_seq as int)),
{
    reveal_strlit("title");
    reveal_strlit("theme_css");
    reveal_strlit("slides");
    reveal_strlit("images");
    reveal_strlit("_seq");
    reveal_strlit("_img_seq");
    assert("slides"@[0] != "images"@[0]);
    assert("title"@.len() == 5 && "theme_css"@.len() == 9 && "slides"@.len() == 6);
    assert("images"@.len() == 6 && "_seq"@.len() == 4 && "_img_seq"@.len() == 8);
}

proof fn lemma_slide_json_fields(s: SlideView)
    ensures
        slide_from(slide_json(s)) == s,
{
    reveal_strlit("id");
    reveal_strlit("title");
    reveal_strlit("html");
    assert("id"@.len() == 2 && "title"@.len() == 5 && "html"@.len() == 4);
}

proof fn lemma_image_json_fields(p: (Seq<char>, ImageView))
    ensures
        text_field(image_json(p), "id"@) == p.0,
        image_from(image_json(p)) == p.1,
{
    reveal_strlit("id");
    reveal_strlit("data_uri");
    reveal_strlit("prompt");
    assert("id"@.len() == 2 && "data_uri"@.len() == 8 && "prompt"@.len() == 6);
}

proof fn lemma_slides_read_back(d: DeckView)
    ensures
        slides_from(full_json(d)) == d.slides,
{
    lemma_full_json_fields(d);
    assert forall|i: int| 0 <= i < d.slides.len() implies #[trigger] slides_from(full_json(d))[i]
        == d.slides[i] by {
        lemma_slide_json_fields(d.slides[i]);
    }
    assert(slides_from(full_json(d)) =~= d.slides);
}

proof fn lemma_listed_images_read_back(s: Seq<(Seq<char>, ImageView)>)
    requires
        forall|i: int| 0 <= i < s.len() ==> (#[trigger] s[i]).0.len() > 0,
    ensures
        listed_images(s.map_values(|x: (Seq<char>, ImageView)| image_json(x))) == s,
    decreases s.len(),
{
    let one = |x: (Seq<char>, ImageView)| image_json(x);
    if s.len() > 0 {
        assert forall|i: int| 0 <= i < s.len() - 1 implies (#[trigger] s.drop_last()[i]).0.len()
            > 0 by {
            assert(s[i].0.len() > 0);
        }
        lemma_listed_images_read_back(s.drop_last());
        assert(s.map_values(one).drop_last() =~= s.drop_last().map_values(one));
        lemma_image_json_fields(s.last());
        assert(s[s.len() - 1].0.len() > 0);
        assert(s.drop_last().push(s.last()) =~= s);
    } else {
        assert(s.map_values(one) =~= Seq::empty());
        assert(s =~= Seq::empty());
    }
}

proof fn lemma_unnamed_none(slides: Seq<SlideView>, seq: nat)
    requires
        forall|i: int| 0 <= i < slides.len() ==> (#[trigger] slides[i]).id.len() > 0,
    ensures
        unnamed(slides) == 0,
        named(slides, seq) == slides,
    decreases slides.len(),
{
    if slides.len() > 0 {
        assert forall|i: int| 0 <= i < slides.len() - 1 implies (
        #[trigger] slides.drop_last()[i]).id.len() > 0 by {
            assert(slides[i].id.len() > 0);
        }
        lemma_unnamed_none(slides.drop_last(), seq);
        assert(slides[slides.len() - 1].id.len() > 0);
        assert(slides.drop_last().push(slides.last()) =~= slides);
    } else {
        assert(slides =~= Seq::empty());
    }
}

proof fn lemma_full_json_plain(d: DeckView)
    ensures
        plain_within(full_json(d), 127),
{
    reveal_with_fuel(plain_within, 4);
    reveal_strlit("$serde_json::private::RawValue");
    reveal_strlit("title");
    reveal_strlit("theme_css");
    reveal_strlit("slides");
    reveal_strlit("images");
    reveal_strlit("_seq");
    reveal_strlit("_img_seq");
    reveal_strlit("id");
    reveal_strlit("html");
    reveal_strlit("data_uri");
    reveal_strlit("prompt");
    assert(raw_mark().len() == 30);
    assert("title"@.len() == 5 && "theme_css"@.len() == 9 && "slides"@.len() == 6);
    assert("images"@.len() == 6 && "_seq"@.len() == 4 && "_img_seq"@.len() == 8);
    assert("id"@.len() == 2 && "html"@.len() == 4 && "data_uri"@.len() == 8);
    assert("prompt"@.len() == 6);
}

/// A deck in which everything has its name is read back from its own snapshot: unchanged,
/// but for counters that were behind the numbers of its ids.
pub proof fn law_snapshot_round_trips(d: DeckView)
    requires
        has_names(d),
        d.seq <= u32::MAX,
        d.img_seq <= u32::MAX,
    ensures
        ids_fit(full_json(d)),
        deck_from(full_json(d)) == raised(d),
        counters_lead(d) ==> deck_from(full_json(d)) == d,
        counters_lead(raised(d)),
{
    let v = full_json(d);
    lemma_full_json_fields(d);
    lemma_slides_read_back(d);
    lemma_listed_images_read_back(d.images);
    assert(images_from(field(v, "images"@)) == d.images);
    assert(counter_from(v, "_seq"@) == d.seq);
    assert(counter_from(v, "_img_seq"@) == d.img_seq);
    lemma_top_suffix_bound(slide_ids(d.slides), u32::MAX as nat);
    lemma_top_suffix_bound(image_ids(d.images), u32::MAX as nat);
    lemma_unnamed_none(d.slides, seq_from(v));
}

pub proof fn lemma_suffix_of_minted(n: nat)
    requires
        n <= u32::MAX,
    ensures
        numeric_suffix(slide_id(n)) == n,
        numeric_suffix(image_id(n)) == n,
{
    reveal_strlit("s");
    reveal_strlit("img");
    lemma_dec(n);
    assert("s"@.last() == 's');
    assert("img"@.last() == 'g');
    lemma_trailing_digits_of("s"@, dec(n));
    lemma_trailing_digits_of("img"@, dec(n));
}

pub proof fn lemma_top_suffix(ids: Seq<Seq<char>>, i: int)
    requires
        0 <= i < ids.len(),
    ensures
        numeric_suffix(ids[i]) <= top_suffix(ids),
    decreases ids.len(),
{
    if i < ids.len() - 1 {
        lemma_top_suffix(ids.drop_last(), i);
        assert(ids.drop_last()[i] == ids[i]);
    }
}

/// A bound on the numbers of all ids bounds the highest of them.
pub proof fn lemma_top_suffix_bound(ids: Seq<Seq<char>>, n: nat)
    requires
        forall|i: int| 0 <= i < ids.len() ==> numeric_suffix(#[trigger] ids[i]) <= n,
    ensures
        top_suffix(ids) <= n,
    decreases ids.len(),
{
    if ids.len() > 0 {
        assert forall|i: int| 0 <= i < ids.len() - 1 implies numeric_suffix(
            #[trigger] ids.drop_last()[i],
        ) <= n by {
            assert(numeric_suffix(ids[i]) <= n);
        }
        lemma_top_suffix_bound(ids.drop_last(), n);
        assert(numeric_suffix(ids[ids.len() - 1]) <= n);
    }
}

pub proof fn lemma_named(slides: Seq<SlideView>, seq: nat)
    requires
        top_suffix(slide_ids(slides)) <= seq,
        seq + unnamed(slides) <= u32::MAX,
    ensures
        named(slides, seq).len() == slides.len(),
        forall|i: int|
            0 <= i < slides.len() ==> (#[trigger] named(slides, seq)[i]).id.len() > 0
                && numeric_suffix(named(slides, seq)[i].id) <= seq + unnamed(slides),
    decreases slides.len(),
{
    if slides.len() > 0 {
        let n = slides.len() - 1;
        let rest = slides.drop_last();
        assert(slide_ids(slides).drop_last() =~= slide_ids(rest));
        lemma_named(rest, seq);
        assert forall|i: int| 0 <= i < slides.len() implies (
        #[trigger] named(slides, seq)[i]).id.len() > 0 && numeric_suffix(named(slides, seq)[i].id)
            <= seq + unnamed(slides) by {
            if i < n {
                assert(named(slides, seq)[i] == named(rest, seq)[i]);
            } else {
                if slides.last().id.len() == 0 {
                    lemma_suffix_of_minted(seq + unnamed(slides));
                    reveal_strlit("s");
                    assert("s"@.len() == 1);
                } else {
                    lemma_top_suffix(slide_ids(slides), n);
                }
            }
        }
    }
}

/// The id that a deck mints for a new slide is the id of none of its slides.
pub proof fn law_new_id_is_fresh(d: DeckView)
    requires
        counters_lead(d),
        d.seq < u32::MAX,
    ensures
        forall|i: int| 0 <= i < d.slides.len() ==> (#[trigger] d.slides[i]).id != slide_id(d.seq + 1),
{
    lemma_suffix_of_minted(d.seq + 1);
    assert forall|i: int| 0 <= i < d.slides.len() implies (#[trigger] d.slides[i]).id != slide_id(
        d.seq + 1,
    ) by {
        lemma_top_suffix(slide_ids(d.slides), i);
    }
}

/// The id that a deck mints for a new image is the id of none of its images.
pub proof fn law_new_image_id_is_fresh(d: DeckView)
    requires
        counters_lead(d),
        d.img_seq < u32::MAX,
    ensures
        forall|i: int|
            0 <= i < d.images.len() ==> (#[trigger] d.images[i]).0 != image_id(d.img_seq + 1),
{
    lemma_suffix_of_minted(d.img_seq + 1);
    assert forall|i: int| 0 <= i < d.images.len() implies (#[trigger] d.images[i]).0 != image_id(
        d.img_seq + 1,
    ) by {
        lemma_top_suffix(image_ids(d.images), i);
    }
}

/// Minting the missing ids leaves no slide without one, and no id in use ahead of
/// the counter.
pub proof fn law_ensure_ids_names_all(d: DeckView)
    requires
        counters_lead(d),
        d.seq + unnamed(d.slides) <= u32::MAX,
    ensures
        forall|i: int|
            0 <= i < d.slides.len() ==> (#[trigger] named(d.slides, d.seq)[i]).id.len() > 0,
        top_suffix(slide_ids(named(d.slides, d.seq))) <= d.seq + unnamed(d.slides),
{
    lemma_named(d.slides, d.seq);
    let ids = slide_ids(named(d.slides, d.seq));
    let n = d.seq + unnamed(d.slides);
    assert forall|i: int| 0 <= i < ids.len() implies numeric_suffix(#[trigger] ids[i]) <= n by {
        assert(named(d.slides, d.seq)[i].id == ids[i]);
    }
    lemma_top_suffix_bound(ids, n);
}

/// However a snapshot was written, the counters of the deck that is read from it are
/// ahead of its ids, so that a new id never collides; and no slide is without an id.
pub proof fn law_read_deck_is_safe_to_extend(v: JsonView)
    requires
        ids_fit(v),
    ensures
        counters_lead(deck_from(v)),
        deck_from(v).title.len() > 0,
        forall|i: int|
            0 <= i < deck_from(v).slides.len() ==> (#[trigger] deck_from(v).slides[i]).id.len() > 0,
{
    reveal_strlit("Untitled Deck");
    assert("Untitled Deck"@.len() == 13);
    let d = DeckView { slides: slides_from(v), seq: seq_from(v), ..deck_from(v) };
    law_ensure_ids_names_all(d);
    lemma_named(d.slides, d.seq);
}

/// The model is shown no image data: what it is shown depends on the ids of the images
/// and on what they show alone.
pub proof fn law_model_sees_no_image_data(d: DeckView, images: Seq<(Seq<char>, ImageView)>)
    requires
        images.len() == d.images.len(),
        forall|i: int|
            0 <= i < images.len() ==> (#[trigger] images[i]).0 == d.images[i].0
                && images[i].1.prompt == d.images[i].1.prompt,
    ensures
        model_json((DeckView { images: images, ..d })) == model_json(d),
{
    let note = |x: (Seq<char>, ImageView)| image_note_json(x);
    assert forall|i: int| 0 <= i < images.len() implies #[trigger] images.map_values(note)[i]
        == d.images.map_values(note)[i] by {
        assert(images[i].0 == d.images[i].0);
    }
    assert(images.map_values(note) =~= d.images.map_values(note));
}

/// The model is shown the title, the theme and every slide in full, in the order of the deck,
/// and of every image its id and what it shows.
pub proof fn law_model_sees_the_deck(d: DeckView)
    ensures
        field(model_json(d), "title"@) == Some(JsonView::Text(d.title)),
        field(model_json(d), "theme_css"@) == Some(JsonView::Text(d.theme_css)),
        field(model_json(d), "slides"@) matches Some(JsonView::Array(s)) && s.len()
            == d.slides.len() && forall|i: int|
            0 <= i < s.len() ==> field(#[trigger] s[i], "id"@) == Some(
                JsonView::Text(d.slides[i].id),
            ) && field(s[i], "title"@) == Some(JsonView::Text(d.slides[i].title)) && field(
                s[i],
                "html"@,
            ) == Some(JsonView::Text(d.slides[i].html)),
        field(model_json(d), "images"@) matches Some(JsonView::Array(s)) && s.len()
            == d.images.len() && forall|i: int|
            0 <= i < s.len() ==> field(#[trigger] s[i], "id"@) == Some(JsonView::Text(d.images[i].0))
                && field(s[i], "prompt"@) == Some(JsonView::Text(d.images[i].1.prompt)),
{
    reveal_strlit("title");
    reveal_strlit("theme_css");
    reveal_strlit("slides");
    reveal_strlit("images");
    reveal_strlit("id");
    reveal_strlit("html");
    reveal_strlit("prompt");
    assert("title"@.len() == 5 && "theme_css"@.len() == 9 && "slides"@.len() == 6);
    assert("images"@.len() == 6 && "id"@.len() == 2 && "html"@.len() == 4 && "prompt"@.len() == 6);
    assert("slides"@[0] == 's' && "images"@[0] == 'i' && "prompt"@[0] == 'p');
}

/// The outline holds the title, and of every slide, in the order of the deck, the id and the
/// title.
pub proof fn law_outline_lists_the_slides(d: DeckView)
    ensures
        field(ui_json(d), "title"@) == Some(JsonView::Text(d.title)),
        field(ui_json(d), "slides"@) == Some(headings_json(d.slides)),
        headings_json(d.slides) matches JsonView::Array(s) && s.len() == d.slides.len() && forall|
            i: int,
        |
            0 <= i < s.len() ==> field(#[trigger] s[i], "id"@) == Some(
                JsonView::Text(d.slides[i].id),
            ) && field(s[i], "title"@) == Some(JsonView::Text(d.slides[i].title)) && field(
                s[i],
                "html"@,
            ) is None,
        image_notes_json(d.images) matches JsonView::Array(s) && s.len() == d.images.len()
            && forall|i: int|
            0 <= i < s.len() ==> field(#[trigger] s[i], "id"@) == Some(JsonView::Text(d.images[i].0))
                && field(s[i], "prompt"@) == Some(JsonView::Text(d.images[i].1.prompt)) && field(
                s[i],
                "data_uri"@,
            ) is None,
{
    reveal_strlit("title");
    reveal_strlit("slides");
    reveal_strlit("id");
    reveal_strlit("html");
    reveal_strlit("prompt");
    reveal_strlit("data_uri");
    assert("title"@.len() == 5 && "slides"@.len() == 6 && "id"@.len() == 2 && "html"@.len() == 4);
    assert("prompt"@.len() == 6 && "data_uri"@.len() == 8 && "slides"@[0] == 's');
    assert("prompt"@[0] == 'p');
}

/// A snapshot holds the whole deck: the slides and the images in their order, the images with
/// their data, and the counters.
pub proof fn law_snapshot_holds_the_deck(d: DeckView)
    ensures
        field(full_json(d), "title"@) == Some(JsonView::Text(d.title)),
        field(full_json(d), "theme_css"@) == Some(JsonView::Text(d.theme_css)),
        field(full_json(d), "_seq"@) == Some(JsonView::Int(d.seq as int)),
        field(full_json(d), "_img_seq"@) == Some(JsonView::Int(d.img_seq as int)),
        field(full_json(d), "slides"@) matches Some(JsonView::Array(s)) && s.len()
            == d.slides.len() && forall|i: int|
            0 <= i < s.len() ==> field(#[trigger] s[i], "id"@) == Some(
                JsonView::Text(d.slides[i].id),
            ) && field(s[i], "title"@) == Some(JsonView::Text(d.slides[i].title)) && field(
                s[i],
                "html"@,
            ) == Some(JsonView::Text(d.slides[i].html)),
        field(full_json(d), "images"@) matches Some(JsonView::Array(s)) && s.len()
            == d.images.len() && forall|i: int|
            0 <= i < s.len() ==> field(#[trigger] s[i], "id"@) == Some(JsonView::Text(d.images[i].0))
                && field(s[i], "data_uri"@) == Some(JsonView::Text(d.images[i].1.data_uri))
                && field(s[i], "prompt"@) == Some(JsonView::Text(d.images[i].1.prompt)),
{
    lemma_full_json_fields(d);
    reveal_strlit("id");
    reveal_strlit("title");
    reveal_strlit("html");
    reveal_strlit("data_uri");
    reveal_strlit("prompt");
    assert("id"@.len() == 2 && "title"@.len() == 5 && "html"@.len() == 4 && "data_uri"@.len() == 8);
    assert("prompt"@.len() == 6);
}

/// What a deck is read from a document as: each slide in its place, with what the document
/// says of it; the theme and the title as they are, and a title where there is none.
pub proof fn law_deck_is_read_as_described(v: JsonView)
    ensures
        deck_from(v).theme_css == text_field(v, "theme_css"@),
        text_field(v, "title"@).len() > 0 ==> deck_from(v).title == text_field(v, "title"@),
        text_field(v, "title"@).len() == 0 ==> deck_from(v).title == "Untitled Deck"@,
        match field(v, "slides"@) {
            Some(JsonView::Array(items)) => deck_from(v).slides.len() == items.len() && forall|
                i: int,
            |
                0 <= i < items.len() ==> {
                    let s = #[trigger] deck_from(v).slides[i];
                    &&& s.title == text_field(items[i], "title"@)
                    &&& s.html == text_field(items[i], "html"@)
                    &&& text_field(items[i], "id"@).len() > 0 ==> s.id == text_field(
                        items[i],
                        "id"@,
                    )
                },
            _ => deck_from(v).slides.len() == 0,
        },
{
    let s = slides_from(v);
    if s.len() > 0 {
        law_ids_are_given_to_the_unnamed(s, seq_from(v), 0);
    }
    if let Some(JsonView::Array(items)) = field(v, "slides"@) {
        assert forall|i: int| 0 <= i < items.len() implies {
            let t = #[trigger] deck_from(v).slides[i];
            &&& t.title == text_field(items[i], "title"@)
            &&& t.html == text_field(items[i], "html"@)
            &&& text_field(items[i], "id"@).len() > 0 ==> t.id == text_field(items[i], "id"@)
        } by {
            law_ids_are_given_to_the_unnamed(s, seq_from(v), i);
            assert(s[i] == slide_from(items[i]));
        }
    }
}

/// An image is read with its data and its prompt under its own id. Of a list, one more entry
/// is one more image, or none where it has no id; of an object, every entry is an image.
pub proof fn law_images_are_read_as_described(
    items: Seq<JsonView>,
    x: JsonView,
    m: Map<Seq<char>, JsonView>,
    s: Seq<(Seq<char>, JsonView)>,
    k: int,
)
    ensures
        images_from(Some(JsonView::Array(Seq::empty()))).len() == 0,
        images_from(None).len() == 0,
        text_field(x, "id"@).len() == 0 ==> images_from(Some(JsonView::Array(items.push(x))))
            == images_from(Some(JsonView::Array(items))),
        text_field(x, "id"@).len() > 0 ==> images_from(Some(JsonView::Array(items.push(x))))
            == images_from(Some(JsonView::Array(items))).push(
            (
                text_field(x, "id"@),
                ImageView {
                    data_uri: text_field(x, "data_uri"@),
                    prompt: text_field(x, "prompt"@),
                },
            ),
        ),
        lists(s, m) ==> images_from(Some(JsonView::Object(m))).len() == s.len(),
        lists(s, m) && 0 <= k < s.len() ==> {
            let p = images_from(Some(JsonView::Object(m)))[k];
            &&& p.0 == s[k].0
            &&& p.1.data_uri == text_field(s[k].1, "data_uri"@)
            &&& p.1.prompt == text_field(s[k].1, "prompt"@)
        },
{
    assert(items.push(x).drop_last() =~= items);
    if lists(s, m) {
        lemma_ordered(s, m);
    }
}

/// The counters of a deck that is read are the highest of what the document says and of the
/// numbers in its ids. Of a number too large for a counter the low bits count, and what is no
/// number counts as none.
pub proof fn law_counters_are_read(v: JsonView, key: Seq<char>, n: nat)
    requires
        n < 0x1_0000_0000,
    ensures
        field(v, "_seq"@) == Some(JsonView::Int(n as int)) ==> seq_from(v) >= n,
        field(v, "_seq"@) == Some(JsonView::Int(n as int)) && top_suffix(slide_ids(slides_from(v)))
            <= n ==> seq_from(v) == n,
        field(v, "_seq"@) is None ==> seq_from(v) == top_suffix(slide_ids(slides_from(v))),
        field(v, "_img_seq"@) == Some(JsonView::Int(n as int)) ==> img_seq_from(v) >= n,
        field(v, "_img_seq"@) == Some(JsonView::Int(n as int)) && top_suffix(
            image_ids(images_from(field(v, "images"@))),
        ) <= n ==> img_seq_from(v) == n,
        field(v, "_img_seq"@) is None ==> img_seq_from(v) == top_suffix(
            image_ids(images_from(field(v, "images"@))),
        ),
        deck_from(v).seq == seq_from(v) + unnamed(slides_from(v)),
        deck_from(v).img_seq == img_seq_from(v),
        match field(v, key) {
            Some(JsonView::Int(k)) => if 0 <= k <= u64::MAX {
                counter_from(v, key) == k % 0x1_0000_0000
            } else {
                counter_from(v, key) == 0
            },
            _ => counter_from(v, key) == 0,
        },
{
}

/// The highest number in some ids is that of one of them, and none is higher.
pub proof fn law_top_suffix_is_the_highest(ids: Seq<Seq<char>>)
    ensures
        ids.len() == 0 ==> top_suffix(ids) == 0,
        ids.len() > 0 ==> exists|i: int|
            0 <= i < ids.len() && numeric_suffix(#[trigger] ids[i]) == top_suffix(ids),
        forall|i: int| 0 <= i < ids.len() ==> numeric_suffix(#[trigger] ids[i]) <= top_suffix(ids),
    decreases ids.len(),
{
    if ids.len() > 0 {
        let rest = ids.drop_last();
        law_top_suffix_is_the_highest(rest);
        assert(ids[ids.len() - 1] == ids.last());
        if rest.len() > 0 {
            let i = choose|i: int|
                0 <= i < rest.len() && numeric_suffix(#[trigger] rest[i]) == top_suffix(rest);
            assert(ids[i] == rest[i]);
        }
        assert forall|i: int| 0 <= i < ids.len() implies numeric_suffix(#[trigger] ids[i])
            <= top_suffix(ids) by {
            if i < rest.len() {
                assert(ids[i] == rest[i]);
            }
        }
    }
}

} // verus!
