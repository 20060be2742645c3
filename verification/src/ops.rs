//! The operations by which the model edits a deck.
//!
//! Each takes the arguments of a tool call and answers with a JSON result: `ok` and a
//! description of what was done, or `ok: false` and the reason why nothing was.

use serde_json::Value;
use vstd::prelude::*;
use vstd::string::*;

use crate::deck::{lemma_slide_index, slide_id, slide_index, Deck, DeckView, Slide, SlideView};
use crate::deck_json::{
    lemma_suffix_of_minted, lemma_top_suffix, lemma_top_suffix_bound, slide_ids, top_suffix,
};
use crate::ids::distinct;
use crate::json::{
    as_flag, as_int, field, flag, get, items_at, items_of, json_view, json_views, object, put,
    put_text, sget, text_at, text_field, text_of, JsonView,
};
use crate::num::{dec, decimal, numeric_suffix};
use crate::text::{same, trim, trimmed};

verus! {

/// A text in quotes, with what is not printable escaped, as Rust's `{:?}` shows it.
pub uninterp spec fn quoted(s: Seq<char>) -> Seq<char>;

/// `format!` with `{:?}` on a string slice.
#[verifier::external_body]
pub(crate) fn quote_text(s: &str) -> (r: String)
    ensures
        r@ == quoted(s@),
{
    format!("{s:?}")
}

// ---- Results -----------------------------------------------------------

/// The result of an operation that was done.
pub open spec fn done_json(desc: Seq<char>) -> JsonView {
    JsonView::Object(map!["ok"@ => JsonView::Bool(true), "desc"@ => JsonView::Text(desc)])
}

/// The result of an operation that was refused.
pub open spec fn refused_json(error: Seq<char>) -> JsonView {
    JsonView::Object(map!["ok"@ => JsonView::Bool(false), "error"@ => JsonView::Text(error)])
}

/// Whether a result says that the operation was done.
pub open spec fn says_ok(result: JsonView) -> bool {
    match field(result, "ok"@) {
        Some(f) => as_flag(f) == Some(true),
        None => false,
    }
}

pub proof fn lemma_results(text: Seq<char>)
    ensures
        says_ok(done_json(text)),
        text_at(done_json(text), "desc"@) == Some(text),
        !says_ok(refused_json(text)),
        text_at(refused_json(text), "error"@) == Some(text),
{
    reveal_strlit("ok");
    reveal_strlit("desc");
    reveal_strlit("error");
    assert("ok"@.len() == 2 && "desc"@.len() == 4 && "error"@.len() == 5);
}

pub(crate) fn done(desc: &str) -> (r: Value)
    ensures
        json_view(r) == done_json(desc@),
{
    let mut m = serde_json::Map::new();
    put(&mut m, "ok", flag(true));
    put_text(&mut m, "desc", desc);
    object(m)
}

pub(crate) fn refused(error: &str) -> (r: Value)
    ensures
        json_view(r) == refused_json(error@),
{
    let mut m = serde_json::Map::new();
    put(&mut m, "ok", flag(false));
    put_text(&mut m, "error", error);
    object(m)
}

/// A text at `key`, without the white space around it.
pub open spec fn trimmed_field(v: JsonView, key: Seq<char>) -> Seq<char> {
    trimmed(text_field(v, key))
}

pub(crate) fn trimmed_get(v: &Value, key: &str) -> (r: String)
    ensures
        r@ == trimmed_field(json_view(*v), key@),
{
    trim(sget(v, key).as_str()).to_string()
}

/// The answer where no slide has the id that was asked for.
pub open spec fn no_slide(id: Seq<char>) -> JsonView {
    refused_json("no slide with id "@ + quoted(id))
}

fn refuse_no_slide(id: &str) -> (r: Value)
    ensures
        json_view(r) == no_slide(id@),
{
    let mut e = "no slide with id ".to_string();
    e.append(quote_text(id).as_str());
    refused(e.as_str())
}

// ---- write_deck --------------------------------------------------------

/// The slides that the arguments of `write_deck` ask for.
pub open spec fn asked_slides(args: JsonView) -> Seq<JsonView> {
    match items_at(args, "slides"@) {
        Some(items) => items,
        None => Seq::empty(),
    }
}

/// Those slides, numbered on from `seq`.
pub open spec fn written_slides(items: Seq<JsonView>, seq: nat) -> Seq<SlideView> {
    Seq::new(
        items.len(),
        |i: int|
            SlideView {
                id: slide_id((seq + 1 + i) as nat),
                title: trimmed_field(items[i], "title"@),
                html: text_field(items[i], "html"@),
            },
    )
}

/// The title of a deck that was written anew: the one asked for, or else that of the
/// first slide.
pub open spec fn written_title(args: JsonView, slides: Seq<SlideView>) -> Seq<char> {
    let asked = trimmed_field(args, "title"@);
    let title = if asked.len() == 0 && slides.len() > 0 {
        slides[0].title
    } else {
        asked
    };
    if title.len() == 0 {
        "Untitled Deck"@
    } else {
        title
    }
}

pub open spec fn write_deck(d: DeckView, args: JsonView) -> (DeckView, JsonView) {
    let slides = written_slides(asked_slides(args), d.seq);
    (
        DeckView {
            title: written_title(args, slides),
            theme_css: text_field(args, "theme_css"@),
            slides: slides,
            seq: d.seq + slides.len(),
            ..d
        },
        done_json("rebuilt deck ("@ + dec(slides.len()) + " slides)"@),
    )
}

/// Replaces all slides, the theme and the title.
pub fn op_write_deck(deck: &mut Deck, args: &Value) -> (r: Value)
    requires
        old(deck).seq + asked_slides(json_view(*args)).len() <= u32::MAX,
    ensures
        (final(deck)@, json_view(r)) == write_deck(old(deck)@, json_view(*args)),
{
    let ghost d = deck@;
    let ghost a = json_view(*args);
    deck.theme_css = sget(args, "theme_css");
    deck.slides = Vec::new();
    match items_of(args, "slides") {
        Some(items) => {
            let ghost all = json_views(items@);
            let mut i: usize = 0;
            while i < items.len()
                invariant
                    i <= items@.len(),
                    all == json_views(items@),
                    d.seq + all.len() <= u32::MAX,
                    deck@.seq == d.seq + i,
                    deck@.title == d.title,
                    deck@.theme_css == text_field(a, "theme_css"@),
                    deck@.images == d.images,
                    deck@.img_seq == d.img_seq,
                    deck@.slides =~= written_slides(all, d.seq).take(i as int),
                decreases items@.len() - i,
            {
                let s = &items[i];
                assert(all[i as int] == json_view(*s));
                let id = deck.new_id();
                let ghost before = deck@.slides;
                let slide = Slide { id, title: trimmed_get(s, "title"), html: sget(s, "html") };
                assert(slide@ == written_slides(all, d.seq)[i as int]);
                deck.slides.push(slide);
                assert(deck@.slides =~= before.push(slide@));
                i = i + 1;
            }
            assert(written_slides(all, d.seq).take(i as int) =~= written_slides(all, d.seq));
        },
        None => {
            assert(deck@.slides =~= written_slides(asked_slides(a), d.seq));
        },
    }
    let mut title = trimmed_get(args, "title");
    if title.as_str().is_empty() && deck.slides.len() > 0 {
        title = deck.slides[0].title.clone();
    }
    deck.title = if title.as_str().is_empty() {
        "Untitled Deck".to_string()
    } else {
        title
    };
    let mut desc = "rebuilt deck (".to_string();
    desc.append(decimal(deck.slides.len() as u128).as_str());
    desc.append(" slides)");
    done(desc.as_str())
}

// ---- add_slide ---------------------------------------------------------

/// Where a new slide goes: after the slide with the id asked for, or else at the end.
pub open spec fn place_for(slides: Seq<SlideView>, args: JsonView) -> int {
    let after = trimmed_field(args, "after_id"@);
    match slide_index(slides, after) {
        Some(i) => if after.len() > 0 {
            i + 1
        } else {
            slides.len() as int
        },
        None => slides.len() as int,
    }
}

/// The title of a deck after a slide with the title `t` was added: a deck that has no
/// title yet takes that one.
pub open spec fn adopted_title(title: Seq<char>, t: Seq<char>) -> Seq<char> {
    if (title.len() == 0 || title == "Untitled Deck"@) && t.len() > 0 {
        t
    } else {
        title
    }
}

pub open spec fn add_slide(d: DeckView, args: JsonView) -> (DeckView, JsonView) {
    let id = slide_id(d.seq + 1);
    let title = trimmed_field(args, "title"@);
    let slide = SlideView { id: id, title: title, html: text_field(args, "html"@) };
    (
        DeckView {
            title: adopted_title(d.title, title),
            slides: d.slides.insert(place_for(d.slides, args), slide),
            seq: d.seq + 1,
            ..d
        },
        JsonView::Object(
            map![
                "ok"@ => JsonView::Bool(true),
                "desc"@ => JsonView::Text("added slide \u{201c}"@ + title + "\u{201d}"@),
                "id"@ => JsonView::Text(id),
            ],
        ),
    )
}

/// Adds one slide.
pub fn op_add_slide(deck: &mut Deck, args: &Value) -> (r: Value)
    requires
        old(deck).seq < u32::MAX,
    ensures
        (final(deck)@, json_view(r)) == add_slide(old(deck)@, json_view(*args)),
{
    let ghost d = deck@;
    let ghost a = json_view(*args);
    let id = deck.new_id();
    let title = trimmed_get(args, "title");
    let slide = Slide { id: id.clone(), title: title.clone(), html: sget(args, "html") };
    let ghost view = slide@;
    let after = trimmed_get(args, "after_id");
    let mut place: usize = deck.slides.len();
    proof {
        lemma_slide_index(d.slides, after@);
    }
    if !after.as_str().is_empty() {
        match deck.index_of(after.as_str()) {
            Some(i) => {
                place = i + 1;
            },
            None => {},
        }
    }
    assert(place == place_for(d.slides, a));
    deck.slides.insert(place, slide);
    assert(deck@.slides =~= d.slides.insert(place as int, view));
    if (deck.title.as_str().is_empty() || same(deck.title.as_str(), "Untitled Deck"))
        && !title.as_str().is_empty() {
        deck.title = title.clone();
    }
    let mut desc = "added slide \u{201c}".to_string();
    desc.append(title.as_str());
    desc.append("\u{201d}");
    let mut m = serde_json::Map::new();
    put(&mut m, "ok", flag(true));
    put_text(&mut m, "desc", desc.as_str());
    put_text(&mut m, "id", id.as_str());
    object(m)
}

// ---- edit_slide --------------------------------------------------------

/// A slide with the title and the content that the arguments ask for.
pub open spec fn edited(s: SlideView, args: JsonView) -> SlideView {
    SlideView {
        title: match text_at(args, "title"@) {
            Some(t) => trimmed(t),
            None => s.title,
        },
        html: match text_at(args, "html"@) {
            Some(h) => h,
            None => s.html,
        },
        ..s
    }
}

/// What was changed, in words.
pub open spec fn changes(args: JsonView) -> Seq<char> {
    match (text_at(args, "title"@), text_at(args, "html"@)) {
        (Some(_), Some(_)) => "title/content"@,
        (Some(_), None) => "title"@,
        (None, Some(_)) => "content"@,
        (None, None) => ""@,
    }
}

pub open spec fn edit_slide(d: DeckView, args: JsonView) -> (DeckView, JsonView) {
    let id = trimmed_field(args, "id"@);
    match slide_index(d.slides, id) {
        Some(i) => if text_at(args, "title"@) is None && text_at(args, "html"@) is None {
            (d, refused_json("nothing to change"@))
        } else {
            (
                DeckView { slides: d.slides.update(i, edited(d.slides[i], args)), ..d },
                done_json(
                    "edited slide "@ + dec((i + 1) as nat) + " ("@ + changes(args) + ")"@,
                ),
            )
        },
        None => (d, no_slide(id)),
    }
}

/// Replaces the title or the content of one slide, or both.
pub fn op_edit_slide(deck: &mut Deck, args: &Value) -> (r: Value)
    ensures
        (final(deck)@, json_view(r)) == edit_slide(old(deck)@, json_view(*args)),
{
    let ghost d = deck@;
    let ghost a = json_view(*args);
    let id = trimmed_get(args, "id");
    proof {
        lemma_slide_index(d.slides, id@);
    }
    match deck.index_of(id.as_str()) {
        Some(i) => {
            let title = text_of(args, "title");
            let html = text_of(args, "html");
            let what = if title.is_some() && html.is_some() {
                "title/content"
            } else if title.is_some() {
                "title"
            } else if html.is_some() {
                "content"
            } else {
                return refused("nothing to change");
            };
            let ghost before = deck@.slides;
            let new_title = match title {
                Some(t) => trim(t).to_string(),
                None => deck.slides[i].title.clone(),
            };
            let new_html = match html {
                Some(h) => h.to_string(),
                None => deck.slides[i].html.clone(),
            };
            let slide = Slide { id: deck.slides[i].id.clone(), title: new_title, html: new_html };
            assert(slide@ == edited(d.slides[i as int], a));
            deck.slides.set(i, slide);
            assert(deck@.slides =~= before.update(i as int, slide@));
            let mut desc = "edited slide ".to_string();
            let n: usize = deck.slides.len();
            assert(i < n);
            desc.append(decimal((i + 1) as u128).as_str());
            desc.append(" (");
            desc.append(what);
            desc.append(")");
            done(desc.as_str())
        },
        None => refuse_no_slide(id.as_str()),
    }
}

// ---- delete_slide ------------------------------------------------------

pub open spec fn delete_slide(d: DeckView, args: JsonView) -> (DeckView, JsonView) {
    let id = trimmed_field(args, "id"@);
    match slide_index(d.slides, id) {
        Some(i) => (
            DeckView { slides: d.slides.remove(i), ..d },
            done_json("deleted slide \u{201c}"@ + d.slides[i].title + "\u{201d}"@),
        ),
        None => (d, no_slide(id)),
    }
}

/// Removes one slide.
pub fn op_delete_slide(deck: &mut Deck, args: &Value) -> (r: Value)
    ensures
        (final(deck)@, json_view(r)) == delete_slide(old(deck)@, json_view(*args)),
{
    let ghost d = deck@;
    let id = trimmed_get(args, "id");
    proof {
        lemma_slide_index(d.slides, id@);
    }
    match deck.index_of(id.as_str()) {
        Some(i) => {
            let s = deck.slides.remove(i);
            assert(deck@.slides =~= d.slides.remove(i as int));
            assert(s@ == d.slides[i as int]);
            let mut desc = "deleted slide \u{201c}".to_string();
            desc.append(s.title.as_str());
            desc.append("\u{201d}");
            done(desc.as_str())
        },
        None => refuse_no_slide(id.as_str()),
    }
}

// ---- move_slide --------------------------------------------------------

/// The position that the arguments ask for, held to the positions that there are;
/// without one, the slide stays at `i`.
pub open spec fn target(args: JsonView, i: int, count: nat) -> int {
    let to = match field(args, "to_index"@) {
        Some(f) => match as_int(f, i64::MIN as int, i64::MAX as int) {
            Some(n) => n,
            None => i,
        },
        None => i,
    };
    if to < 0 {
        0
    } else if to > count - 1 {
        count - 1
    } else {
        to
    }
}

pub open spec fn move_slide(d: DeckView, args: JsonView) -> (DeckView, JsonView) {
    let id = trimmed_field(args, "id"@);
    match slide_index(d.slides, id) {
        Some(i) => {
            let to = target(args, i, d.slides.len());
            (
                DeckView { slides: d.slides.remove(i).insert(to, d.slides[i]), ..d },
                done_json("moved slide to position "@ + dec((to + 1) as nat)),
            )
        },
        None => (d, no_slide(id)),
    }
}

/// Moves one slide to another position.
pub fn op_move_slide(deck: &mut Deck, args: &Value) -> (r: Value)
    ensures
        (final(deck)@, json_view(r)) == move_slide(old(deck)@, json_view(*args)),
{
    let ghost d = deck@;
    let ghost a = json_view(*args);
    let id = trimmed_get(args, "id");
    proof {
        lemma_slide_index(d.slides, id@);
    }
    match deck.index_of(id.as_str()) {
        Some(i) => {
            let last: usize = deck.slides.len() - 1;
            let asked: Option<i64> = match get(args, "to_index") {
                Some(f) => f.as_i64(),
                None => None,
            };
            let to: usize = match asked {
                Some(n) => if n < 0 {
                    0
                } else if n as u64 > last as u64 {
                    last
                } else {
                    n as usize
                },
                None => i,
            };
            assert(to == target(a, i as int, d.slides.len()));
            let s = deck.slides.remove(i);
            assert(deck@.slides =~= d.slides.remove(i as int));
            let ghost view = s@;
            deck.slides.insert(to, s);
            assert(deck@.slides =~= d.slides.remove(i as int).insert(to as int, view));
            let mut desc = "moved slide to position ".to_string();
            desc.append(decimal((to + 1) as u128).as_str());
            done(desc.as_str())
        },
        None => refuse_no_slide(id.as_str()),
    }
}

// ---- set_theme, set_title ----------------------------------------------

pub open spec fn set_theme(d: DeckView, args: JsonView) -> (DeckView, JsonView) {
    let theme = text_field(args, "theme_css"@);
    if trimmed(theme).len() == 0 {
        (d, refused_json("empty theme_css"@))
    } else {
        (DeckView { theme_css: theme, ..d }, done_json("restyled the deck"@))
    }
}

/// Replaces the theme: one stylesheet restyles every slide.
pub fn op_set_theme(deck: &mut Deck, args: &Value) -> (r: Value)
    ensures
        (final(deck)@, json_view(r)) == set_theme(old(deck)@, json_view(*args)),
{
    let theme = sget(args, "theme_css");
    if trim(theme.as_str()).is_empty() {
        return refused("empty theme_css");
    }
    deck.theme_css = theme;
    done("restyled the deck")
}

pub open spec fn set_title(d: DeckView, args: JsonView) -> (DeckView, JsonView) {
    let title = trimmed_field(args, "title"@);
    if title.len() == 0 {
        (d, refused_json("empty title"@))
    } else {
        (
            DeckView { title: title, ..d },
            done_json("renamed deck to \u{201c}"@ + title + "\u{201d}"@),
        )
    }
}

/// Renames the deck.
pub fn op_set_title(deck: &mut Deck, args: &Value) -> (r: Value)
    ensures
        (final(deck)@, json_view(r)) == set_title(old(deck)@, json_view(*args)),
{
    let title = trimmed_get(args, "title");
    if title.as_str().is_empty() {
        return refused("empty title");
    }
    let mut desc = "renamed deck to \u{201c}".to_string();
    desc.append(title.as_str());
    desc.append("\u{201d}");
    deck.title = title;
    done(desc.as_str())
}

// ---- dispatch ----------------------------------------------------------

/// How many slide ids an operation mints.
pub open spec fn mints(name: Seq<char>, args: JsonView) -> nat {
    if name == "write_deck"@ {
        asked_slides(args).len()
    } else if name == "add_slide"@ {
        1
    } else {
        0
    }
}

/// What an operation makes of a deck, and how it answers.
pub open spec fn performed(d: DeckView, name: Seq<char>, args: JsonView) -> (DeckView, JsonView) {
    if name == "write_deck"@ {
        write_deck(d, args)
    } else if name == "add_slide"@ {
        add_slide(d, args)
    } else if name == "edit_slide"@ {
        edit_slide(d, args)
    } else if name == "delete_slide"@ {
        delete_slide(d, args)
    } else if name == "move_slide"@ {
        move_slide(d, args)
    } else if name == "set_theme"@ {
        set_theme(d, args)
    } else if name == "set_title"@ {
        set_title(d, args)
    } else {
        (d, refused_json("unknown tool: "@ + name))
    }
}

/// Whether the numbers of the slide ids that an operation mints fit in a `u32`.
pub fn ids_suffice(deck: &Deck, name: &str, args: &Value) -> (r: bool)
    ensures
        r == (deck@.seq + mints(name@, json_view(*args)) <= u32::MAX),
{
    let left: u32 = u32::MAX - deck.seq;
    if same(name, "write_deck") {
        match items_of(args, "slides") {
            Some(items) => {
                assert(json_views(items@).len() == items@.len());
                items.len() as u64 <= left as u64
            },
            None => true,
        }
    } else if same(name, "add_slide") {
        left > 0
    } else {
        true
    }
}

/// Performs the operation that a tool call names.
pub fn dispatch(deck: &mut Deck, name: &str, args: &Value) -> (r: Value)
    requires
        old(deck).seq + mints(name@, json_view(*args)) <= u32::MAX,
    ensures
        (final(deck)@, json_view(r)) == performed(old(deck)@, name@, json_view(*args)),
{
    if same(name, "write_deck") {
        op_write_deck(deck, args)
    } else if same(name, "add_slide") {
        op_add_slide(deck, args)
    } else if same(name, "edit_slide") {
        op_edit_slide(deck, args)
    } else if same(name, "delete_slide") {
        op_delete_slide(deck, args)
    } else if same(name, "move_slide") {
        op_move_slide(deck, args)
    } else if same(name, "set_theme") {
        op_set_theme(deck, args)
    } else if same(name, "set_title") {
        op_set_title(deck, args)
    } else {
        let mut e = "unknown tool: ".to_string();
        e.append(name);
        refused(e.as_str())
    }
}

// ---- Laws --------------------------------------------------------------

/// An operation that was refused has changed nothing.
pub proof fn law_refused_op_changes_nothing(d: DeckView, name: Seq<char>, args: JsonView)
    requires
        !says_ok(performed(d, name, args).1),
    ensures
        performed(d, name, args).0 == d,
{
    lemma_ok_flag(d, args);
}

proof fn lemma_ok_flag(d: DeckView, args: JsonView)
    ensures
        says_ok(write_deck(d, args).1),
        says_ok(add_slide(d, args).1),
        says_ok(edit_slide(d, args).1) || edit_slide(d, args).0 == d,
        says_ok(delete_slide(d, args).1) || delete_slide(d, args).0 == d,
        says_ok(move_slide(d, args).1) || move_slide(d, args).0 == d,
        says_ok(set_theme(d, args).1) || set_theme(d, args).0 == d,
        says_ok(set_title(d, args).1) || set_title(d, args).0 == d,
{
    reveal_strlit("ok");
    reveal_strlit("desc");
    reveal_strlit("id");
    assert("ok"@.len() == 2 && "desc"@.len() == 4 && "id"@[0] != "ok"@[0]);
}

/// No operation touches the images of a deck.
pub proof fn law_ops_keep_images(d: DeckView, name: Seq<char>, args: JsonView)
    ensures
        performed(d, name, args).0.images == d.images,
        performed(d, name, args).0.img_seq == d.img_seq,
{
}

/// No operation leaves a deck without a title.
pub proof fn law_ops_keep_a_title(d: DeckView, name: Seq<char>, args: JsonView)
    requires
        d.title.len() > 0,
    ensures
        performed(d, name, args).0.title.len() > 0,
{
    reveal_strlit("Untitled Deck");
    assert("Untitled Deck"@.len() == 13);
}

/// Restyling and renaming leave every slide as it is.
pub proof fn law_restyling_keeps_slides(d: DeckView, name: Seq<char>, args: JsonView)
    requires
        name == "set_theme"@ || name == "set_title"@,
    ensures
        performed(d, name, args).0.slides == d.slides,
        name == "set_theme"@ ==> performed(d, name, args).0.title == d.title,
        name == "set_title"@ ==> performed(d, name, args).0.theme_css == d.theme_css,
{
    lemma_names_differ();
}

proof fn lemma_names_differ()
    ensures
        "add_slide"@ != "write_deck"@,
        "write_deck"@ != "set_theme"@,
        "write_deck"@ != "set_title"@,
        "add_slide"@ != "set_theme"@,
        "add_slide"@ != "set_title"@,
        "edit_slide"@ != "set_theme"@,
        "edit_slide"@ != "set_title"@,
        "delete_slide"@ != "set_theme"@,
        "delete_slide"@ != "set_title"@,
        "move_slide"@ != "set_theme"@,
        "move_slide"@ != "set_title"@,
        "set_theme"@ != "set_title"@,
        "edit_slide"@ != "write_deck"@,
        "edit_slide"@ != "add_slide"@,
        "delete_slide"@ != "write_deck"@,
        "delete_slide"@ != "add_slide"@,
        "delete_slide"@ != "edit_slide"@,
        "move_slide"@ != "write_deck"@,
        "move_slide"@ != "add_slide"@,
        "move_slide"@ != "edit_slide"@,
        "move_slide"@ != "delete_slide"@,
{
    reveal_strlit("write_deck");
    reveal_strlit("add_slide");
    reveal_strlit("edit_slide");
    reveal_strlit("delete_slide");
    reveal_strlit("move_slide");
    reveal_strlit("set_theme");
    reveal_strlit("set_title");
    assert("write_deck"@[0] == 'w' && "add_slide"@[0] == 'a' && "edit_slide"@[0] == 'e');
    assert("delete_slide"@[0] == 'd' && "move_slide"@[0] == 'm');
    assert("set_theme"@[0] == 's' && "set_title"@[0] == 's');
    assert("set_theme"@[5] == 'h' && "set_title"@[5] == 'i');
}

/// An operation on one slide leaves every other slide in the deck, as it was: all but
/// the one that is edited or deleted.
pub proof fn law_other_slides_stay(d: DeckView, name: Seq<char>, args: JsonView, j: int)
    requires
        name != "write_deck"@,
        0 <= j < d.slides.len(),
        slide_index(d.slides, trimmed_field(args, "id"@)) == Some(j) ==> name != "edit_slide"@
            && name != "delete_slide"@,
    ensures
        performed(d, name, args).0.slides.contains(d.slides[j]),
{
    let after = performed(d, name, args).0.slides;
    let s = d.slides;
    lemma_slide_index(s, trimmed_field(args, "after_id"@));
    lemma_slide_index(s, trimmed_field(args, "id"@));
    lemma_names_differ();
    if name == "add_slide"@ {
        let at = place_for(s, args);
        if j < at {
            assert(after[j] == s[j]);
        } else {
            assert(after[j + 1] == s[j]);
        }
    } else if name == "edit_slide"@ {
        assert(after[j] == s[j]);
    } else if name == "delete_slide"@ {
        match slide_index(s, trimmed_field(args, "id"@)) {
            Some(i) => {
                if j < i {
                    assert(after[j] == s[j]);
                } else {
                    assert(after[j - 1] == s[j]);
                }
            },
            None => {
                assert(after[j] == s[j]);
            },
        }
    } else if name == "move_slide"@ {
        match slide_index(s, trimmed_field(args, "id"@)) {
            Some(i) => {
                lemma_moved(s, i, target(args, i, s.len()), j);
            },
            None => {
                assert(after[j] == s[j]);
            },
        }
    } else {
        assert(after[j] == s[j]);
    }
}

/// Where the slide at `j` stands after the one at `i` has moved to `to`.
pub open spec fn moved_to(i: int, to: int, j: int) -> int {
    if j == i {
        to
    } else {
        let k = if j < i {
            j
        } else {
            j - 1
        };
        if k < to {
            k
        } else {
            k + 1
        }
    }
}

proof fn lemma_moved(s: Seq<SlideView>, i: int, to: int, j: int)
    requires
        0 <= i < s.len(),
        0 <= to < s.len(),
        0 <= j < s.len(),
    ensures
        0 <= moved_to(i, to, j) < s.len(),
        s.remove(i).insert(to, s[i])[moved_to(i, to, j)] == s[j],
{
}

/// Moving a slide puts it where it was asked for and keeps the order of all others.
pub proof fn law_move_only_reorders(d: DeckView, args: JsonView, i: int, j: int, k: int)
    requires
        slide_index(d.slides, trimmed_field(args, "id"@)) == Some(i),
        0 <= j < k < d.slides.len(),
        j != i,
        k != i,
    ensures
        ({
            let after = performed(d, "move_slide"@, args).0.slides;
            let to = target(args, i, d.slides.len());
            &&& after.len() == d.slides.len()
            &&& after[to] == d.slides[i]
            &&& moved_to(i, to, j) < moved_to(i, to, k)
            &&& after[moved_to(i, to, j)] == d.slides[j]
            &&& after[moved_to(i, to, k)] == d.slides[k]
        }),
{
    lemma_names_differ();
    lemma_slide_index(d.slides, trimmed_field(args, "id"@));
    let to = target(args, i, d.slides.len());
    lemma_moved(d.slides, i, to, i);
    lemma_moved(d.slides, i, to, j);
    lemma_moved(d.slides, i, to, k);
}

/// Whether no two slides have the same id, and none an id whose number is still to be
/// minted.
pub open spec fn slides_in_order(d: DeckView) -> bool {
    &&& distinct(slide_ids(d.slides))
    &&& top_suffix(slide_ids(d.slides)) <= d.seq
}

proof fn lemma_bounded_ids(slides: Seq<SlideView>, n: nat)
    requires
        forall|i: int| 0 <= i < slides.len() ==> numeric_suffix((#[trigger] slides[i]).id) <= n,
    ensures
        top_suffix(slide_ids(slides)) <= n,
{
    let ids = slide_ids(slides);
    assert forall|i: int| 0 <= i < ids.len() implies numeric_suffix(#[trigger] ids[i]) <= n by {
        assert(ids[i] == slides[i].id);
    }
    lemma_top_suffix_bound(ids, n);
}

proof fn lemma_bounds_of_ids(slides: Seq<SlideView>)
    ensures
        forall|i: int|
            0 <= i < slides.len() ==> numeric_suffix((#[trigger] slides[i]).id) <= top_suffix(
                slide_ids(slides),
            ),
{
    assert forall|i: int| 0 <= i < slides.len() implies numeric_suffix((#[trigger] slides[i]).id)
        <= top_suffix(slide_ids(slides)) by {
        lemma_top_suffix(slide_ids(slides), i);
    }
}

proof fn lemma_distinct_slides(slides: Seq<SlideView>)
    ensures
        distinct(slide_ids(slides)) <==> forall|i: int, j: int|
            0 <= i < j < slides.len() ==> (#[trigger] slides[i]).id != (#[trigger] slides[j]).id,
{
    let ids = slide_ids(slides);
    if distinct(ids) {
        assert forall|i: int, j: int| 0 <= i < j < slides.len() implies (#[trigger] slides[i]).id
            != (#[trigger] slides[j]).id by {
            assert(ids[i] != ids[j]);
        }
    }
}

/// Slides whose ids are those of others, each taken once, are in order as these are.
proof fn lemma_ids_taken(s: Seq<SlideView>, after: Seq<SlideView>, from: spec_fn(int) -> int, n: nat)
    requires
        distinct(slide_ids(s)),
        top_suffix(slide_ids(s)) <= n,
        forall|i: int|
            0 <= i < after.len() ==> 0 <= from(i) < s.len() && (#[trigger] after[i]).id == s[from(
                i,
            )].id,
        forall|i: int, j: int| 0 <= i < j < after.len() ==> #[trigger] from(i) != #[trigger] from(j),
    ensures
        distinct(slide_ids(after)),
        top_suffix(slide_ids(after)) <= n,
{
    lemma_bounds_of_ids(s);
    lemma_distinct_slides(s);
    lemma_distinct_slides(after);
    assert forall|i: int, j: int| 0 <= i < j < after.len() implies (#[trigger] after[i]).id != (
    #[trigger] after[j]).id by {
        assert(after[i].id == s[from(i)].id && after[j].id == s[from(j)].id);
        assert(from(i) != from(j));
        if from(i) < from(j) {
            assert(s[from(i)].id != s[from(j)].id);
        } else {
            assert(s[from(j)].id != s[from(i)].id);
        }
    }
    lemma_bounded_ids(after, n);
}

proof fn lemma_written_ids(d: DeckView, args: JsonView)
    requires
        d.seq + asked_slides(args).len() <= u32::MAX,
    ensures
        slides_in_order(write_deck(d, args).0),
{
    let after = write_deck(d, args).0.slides;
    lemma_distinct_slides(after);
    assert forall|i: int| 0 <= i < after.len() implies numeric_suffix((#[trigger] after[i]).id)
        <= d.seq + after.len() by {
        lemma_suffix_of_minted((d.seq + 1 + i) as nat);
    }
    assert forall|i: int, j: int| 0 <= i < j < after.len() implies (#[trigger] after[i]).id != (
    #[trigger] after[j]).id by {
        lemma_suffix_of_minted((d.seq + 1 + i) as nat);
        lemma_suffix_of_minted((d.seq + 1 + j) as nat);
    }
    lemma_bounded_ids(after, d.seq + after.len());
}

proof fn lemma_added_ids(d: DeckView, args: JsonView)
    requires
        slides_in_order(d),
        d.seq < u32::MAX,
    ensures
        slides_in_order(add_slide(d, args).0),
{
    let s = d.slides;
    let after = add_slide(d, args).0.slides;
    lemma_slide_index(s, trimmed_field(args, "after_id"@));
    lemma_bounds_of_ids(s);
    lemma_distinct_slides(s);
    lemma_distinct_slides(after);
    let at = place_for(s, args);
    lemma_suffix_of_minted(d.seq + 1);
    assert forall|i: int| 0 <= i < after.len() && i != at implies (#[trigger] after[i]) == s[if i
        < at {
        i
    } else {
        i - 1
    }] by {}
    assert(after[at].id == slide_id(d.seq + 1));
    assert forall|i: int, j: int| 0 <= i < j < after.len() implies (#[trigger] after[i]).id != (
    #[trigger] after[j]).id by {
        if i != at && j != at {
            let a = if i < at {
                i
            } else {
                i - 1
            };
            let b = if j < at {
                j
            } else {
                j - 1
            };
            assert(s[a].id != s[b].id);
        }
    }
    lemma_bounded_ids(after, d.seq + 1);
}

/// No operation gives two slides the same id, and the ids that are minted later stay
/// fresh.
pub proof fn law_ops_keep_ids_distinct(d: DeckView, name: Seq<char>, args: JsonView)
    requires
        slides_in_order(d),
        d.seq + mints(name, args) <= u32::MAX,
    ensures
        slides_in_order(performed(d, name, args).0),
        performed(d, name, args).0.seq == d.seq + mints(name, args),
{
    let s = d.slides;
    let after = performed(d, name, args).0.slides;
    lemma_names_differ();
    lemma_slide_index(s, trimmed_field(args, "id"@));
    if name == "write_deck"@ {
        lemma_written_ids(d, args);
    } else if name == "add_slide"@ {
        lemma_added_ids(d, args);
    } else if name == "delete_slide"@ {
        match slide_index(s, trimmed_field(args, "id"@)) {
            Some(k) => {
                let from = |i: int|
                    if i < k {
                        i
                    } else {
                        i + 1
                    };
                lemma_ids_taken(s, after, from, d.seq);
            },
            None => {},
        }
    } else if name == "move_slide"@ {
        match slide_index(s, trimmed_field(args, "id"@)) {
            Some(k) => {
                let from = |i: int| moved_to(target(args, k, s.len()), k, i);
                lemma_ids_taken(s, after, from, d.seq);
            },
            None => {},
        }
    } else {
        lemma_ids_taken(s, after, |i: int| i, d.seq);
    }
}

/// Whether the slide at `i` is the one that an id names: the first that has it.
pub open spec fn names_slide(slides: Seq<SlideView>, id: Seq<char>, i: int) -> bool {
    &&& 0 <= i < slides.len()
    &&& slides[i].id == id
    &&& forall|j: int| 0 <= j < i ==> (#[trigger] slides[j]).id != id
}

proof fn lemma_named_slide(slides: Seq<SlideView>, id: Seq<char>, i: int)
    requires
        names_slide(slides, id, i),
    ensures
        slide_index(slides, id) == Some(i),
{
    lemma_slide_index(slides, id);
    match slide_index(slides, id) {
        Some(k) => {
            if k < i {
                assert(slides[k].id != id);
            }
            if i < k {
                assert(slides[i].id != id);
            }
        },
        None => {
            assert(slides[i].id != id);
        },
    }
}

/// A result says that an operation was done just where its `ok` is true.
pub proof fn law_ok_is_read(result: JsonView)
    ensures
        says_ok(result) <==> field(result, "ok"@) == Some(JsonView::Bool(true)),
{
}

/// After `add_slide` the slide whose id the result names is in the deck, with the content
/// and the title that were given. It stands where the other slides make room for it, and
/// these stay in their order.
pub proof fn law_added_slide_is_as_given(d: DeckView, args: JsonView)
    ensures
        ({
            let (after, r) = performed(d, "add_slide"@, args);
            exists|p: int|
                {
                    &&& 0 <= p < after.slides.len()
                    &&& field(r, "id"@) == Some(JsonView::Text((#[trigger] after.slides[p]).id))
                    &&& after.slides[p].id == "s"@ + dec(d.seq + 1)
                    &&& after.slides[p].html == text_field(args, "html"@)
                    &&& after.slides[p].title == trimmed(text_field(args, "title"@))
                    &&& after.slides.remove(p) == d.slides
                }
        }),
        ({
            let (after, r) = performed(d, "add_slide"@, args);
            let t = trimmed(text_field(args, "title"@));
            &&& field(r, "ok"@) == Some(JsonView::Bool(true))
            &&& field(r, "desc"@) == Some(
                JsonView::Text("added slide \u{201c}"@ + t + "\u{201d}"@),
            )
            &&& after.seq == d.seq + 1
            &&& after.theme_css == d.theme_css
            &&& d.title.len() > 0 && d.title != "Untitled Deck"@ ==> after.title == d.title
            &&& t.len() == 0 ==> after.title == d.title
            &&& (d.title.len() == 0 || d.title == "Untitled Deck"@) && t.len() > 0 ==> after.title
                == t
        }),
{
    lemma_names_differ();
    reveal_strlit("ok");
    reveal_strlit("desc");
    reveal_strlit("id");
    assert("ok"@.len() == 2 && "desc"@.len() == 4 && "id"@.len() == 2 && "ok"@[0] == 'o');
    assert("id"@[0] == 'i');
    let (after, r) = performed(d, "add_slide"@, args);
    lemma_slide_index(d.slides, trimmed(text_field(args, "after_id"@)));
    let p = place_for(d.slides, args);
    assert(after.slides.remove(p) =~= d.slides);
    assert(field(r, "id"@) == Some(JsonView::Text(after.slides[p].id)));
}

/// A slide that is added after another stands right behind it; one that is to follow no
/// slide of the deck stands at the end.
pub proof fn law_added_slide_follows(d: DeckView, args: JsonView, i: int)
    ensures
        ({
            let after = performed(d, "add_slide"@, args).0.slides;
            let id = trimmed(text_field(args, "after_id"@));
            &&& id.len() > 0 && names_slide(d.slides, id, i) ==> after.take(i + 1)
                == d.slides.take(i + 1) && after[i + 1].id == "s"@ + dec(d.seq + 1) && after.skip(
                i + 2,
            ) == d.slides.skip(i + 1)
            &&& (id.len() == 0 || forall|j: int|
                0 <= j < d.slides.len() ==> (#[trigger] d.slides[j]).id != id) ==> after.len()
                == d.slides.len() + 1 && after.drop_last() == d.slides && after.last().id == "s"@
                + dec(d.seq + 1)
        }),
{
    lemma_names_differ();
    let after = performed(d, "add_slide"@, args).0.slides;
    let id = trimmed(text_field(args, "after_id"@));
    lemma_slide_index(d.slides, id);
    if id.len() > 0 && names_slide(d.slides, id, i) {
        lemma_named_slide(d.slides, id, i);
        assert(after.take(i + 1) =~= d.slides.take(i + 1));
        assert(after.skip(i + 2) =~= d.slides.skip(i + 1));
    }
    if id.len() == 0 || forall|j: int|
        0 <= j < d.slides.len() ==> (#[trigger] d.slides[j]).id != id {
        assert(place_for(d.slides, args) == d.slides.len());
        assert(after.drop_last() =~= d.slides);
    }
}

/// After `write_deck` the deck has the slides that were given and no others, in the order
/// in which they were given, each with its own title and content under a new id; the
/// theme and the title are those that were given.
pub proof fn law_written_deck_is_as_given(d: DeckView, args: JsonView)
    ensures
        ({
            let (after, r) = performed(d, "write_deck"@, args);
            let t = trimmed(text_field(args, "title"@));
            &&& after.theme_css == text_field(args, "theme_css"@)
            &&& after.seq == d.seq + after.slides.len()
            &&& field(r, "ok"@) == Some(JsonView::Bool(true))
            &&& field(r, "desc"@) == Some(
                JsonView::Text("rebuilt deck ("@ + dec(after.slides.len()) + " slides)"@),
            )
            &&& t.len() > 0 ==> after.title == t
            &&& t.len() == 0 && after.slides.len() > 0 && after.slides[0].title.len() > 0
                ==> after.title == after.slides[0].title
            &&& t.len() == 0 && (after.slides.len() == 0 || after.slides[0].title.len() == 0)
                ==> after.title == "Untitled Deck"@
        }),
        ({
            let after = performed(d, "write_deck"@, args).0;
            match field(args, "slides"@) {
                Some(JsonView::Array(items)) => after.slides.len() == items.len() && forall|i: int|
                    0 <= i < items.len() ==> (#[trigger] after.slides[i]).title == trimmed(
                        text_field(items[i], "title"@),
                    ) && after.slides[i].html == text_field(items[i], "html"@)
                        && after.slides[i].id == "s"@ + dec((d.seq + 1 + i) as nat),
                _ => after.slides.len() == 0,
            }
        }),
{
    lemma_names_differ();
    reveal_strlit("ok");
    reveal_strlit("desc");
    assert("ok"@.len() == 2 && "desc"@.len() == 4);
}

/// `edit_slide` gives the slide that it names the title and the content that are given,
/// each whether or not the other is; what is not given stays, and so does every other
/// slide. Where neither is given it is refused.
pub proof fn law_edited_slide_is_as_given(d: DeckView, args: JsonView, i: int)
    requires
        names_slide(d.slides, trimmed(text_field(args, "id"@)), i),
    ensures
        ({
            let (after, r) = performed(d, "edit_slide"@, args);
            let (t, h) = (text_at(args, "title"@), text_at(args, "html"@));
            &&& after.slides.len() == d.slides.len()
            &&& after.slides[i].id == d.slides[i].id
            &&& t is Some ==> after.slides[i].title == trimmed(t->0)
            &&& t is None ==> after.slides[i].title == d.slides[i].title
            &&& h is Some ==> after.slides[i].html == h->0
            &&& h is None ==> after.slides[i].html == d.slides[i].html
            &&& forall|j: int|
                0 <= j < d.slides.len() && j != i ==> #[trigger] after.slides[j] == d.slides[j]
            &&& after.title == d.title
            &&& after.theme_css == d.theme_css
            &&& after.seq == d.seq
            &&& says_ok(r) <==> t is Some || h is Some
            &&& !says_ok(r) ==> field(r, "error"@) == Some(JsonView::Text("nothing to change"@))
            &&& says_ok(r) ==> exists|what: Seq<char>|
                field(r, "desc"@) == Some(
                    JsonView::Text(
                        "edited slide "@ + dec((i + 1) as nat) + " ("@ + #[trigger] (what + ")"@),
                    ),
                ) && (t is Some && h is Some ==> what == "title/content"@) && (t is Some
                    && h is None ==> what == "title"@) && (t is None && h is Some ==> what
                    == "content"@)
        }),
{
    lemma_names_differ();
    reveal_strlit("ok");
    reveal_strlit("desc");
    reveal_strlit("error");
    assert("ok"@.len() == 2 && "desc"@.len() == 4 && "error"@.len() == 5);
    lemma_named_slide(d.slides, trimmed(text_field(args, "id"@)), i);
    let r = performed(d, "edit_slide"@, args).1;
    if says_ok(r) {
        let what = changes(args);
        assert("edited slide "@ + dec((i + 1) as nat) + " ("@ + what + ")"@ =~= "edited slide "@
            + dec((i + 1) as nat) + " ("@ + (what + ")"@));
    }
}

/// `delete_slide` takes out the slide that it names and leaves the others as they stood.
pub proof fn law_deleted_slide_is_gone(d: DeckView, args: JsonView, i: int)
    requires
        names_slide(d.slides, trimmed(text_field(args, "id"@)), i),
    ensures
        ({
            let (after, r) = performed(d, "delete_slide"@, args);
            &&& after.slides == d.slides.take(i) + d.slides.skip(i + 1)
            &&& after.title == d.title
            &&& after.theme_css == d.theme_css
            &&& after.seq == d.seq
            &&& field(r, "ok"@) == Some(JsonView::Bool(true))
            &&& field(r, "desc"@) == Some(
                JsonView::Text("deleted slide \u{201c}"@ + d.slides[i].title + "\u{201d}"@),
            )
        }),
{
    lemma_names_differ();
    reveal_strlit("ok");
    reveal_strlit("desc");
    assert("ok"@.len() == 2 && "desc"@.len() == 4);
    lemma_named_slide(d.slides, trimmed(text_field(args, "id"@)), i);
}

/// `move_slide` puts the slide that it names where it is asked to: at the index given,
/// or at the nearest that there is. Without one the deck stays as it is.
pub proof fn law_moved_slide_stands_where_asked(d: DeckView, args: JsonView, i: int)
    requires
        names_slide(d.slides, trimmed(text_field(args, "id"@)), i),
    ensures
        ({
            let (after, r) = performed(d, "move_slide"@, args);
            let n = d.slides.len() as int;
            let to = match field(args, "to_index"@) {
                Some(JsonView::Int(k)) => if !(i64::MIN <= k <= i64::MAX) {
                    i
                } else if k < 0 {
                    0
                } else if k < n {
                    k
                } else {
                    n - 1
                },
                _ => i,
            };
            &&& 0 <= to < n
            &&& after.slides.len() == n
            &&& after.slides[to] == d.slides[i]
            &&& after.slides.remove(to) == d.slides.remove(i)
            &&& after.title == d.title
            &&& after.theme_css == d.theme_css
            &&& after.seq == d.seq
            &&& field(r, "ok"@) == Some(JsonView::Bool(true))
            &&& field(r, "desc"@) == Some(
                JsonView::Text("moved slide to position "@ + dec((to + 1) as nat)),
            )
        }),
{
    lemma_names_differ();
    reveal_strlit("ok");
    reveal_strlit("desc");
    assert("ok"@.len() == 2 && "desc"@.len() == 4);
    lemma_named_slide(d.slides, trimmed(text_field(args, "id"@)), i);
    let after = performed(d, "move_slide"@, args).0.slides;
    let to = target(args, i, d.slides.len());
    assert(after.remove(to) =~= d.slides.remove(i));
}

/// An operation on a slide that is not in the deck is refused, and the reason names the
/// id that was asked for; so is a tool that there is not.
pub proof fn law_what_is_not_there_is_refused(d: DeckView, name: Seq<char>, args: JsonView)
    requires
        forall|j: int|
            0 <= j < d.slides.len() ==> (#[trigger] d.slides[j]).id != trimmed(
                text_field(args, "id"@),
            ),
    ensures
        name == "edit_slide"@ || name == "delete_slide"@ || name == "move_slide"@ ==> performed(
            d,
            name,
            args,
        ).0 == d && field(performed(d, name, args).1, "ok"@) == Some(JsonView::Bool(false))
            && field(performed(d, name, args).1, "error"@) == Some(
            JsonView::Text("no slide with id "@ + quoted(trimmed(text_field(args, "id"@)))),
        ),
        name != "write_deck"@ && name != "add_slide"@ && name != "edit_slide"@ && name
            != "delete_slide"@ && name != "move_slide"@ && name != "set_theme"@ && name
            != "set_title"@ ==> performed(d, name, args).0 == d && field(
            performed(d, name, args).1,
            "ok"@,
        ) == Some(JsonView::Bool(false)) && field(performed(d, name, args).1, "error"@) == Some(
            JsonView::Text("unknown tool: "@ + name),
        ),
{
    lemma_names_differ();
    reveal_strlit("ok");
    reveal_strlit("error");
    assert("ok"@.len() == 2 && "error"@.len() == 5);
    lemma_slide_index(d.slides, trimmed(text_field(args, "id"@)));
}

/// `set_theme` makes the text that is given the theme, and `set_title` the text that is
/// given, without the white space around it, the title; a blank one is refused.
pub proof fn law_theme_and_title_are_as_given(d: DeckView, args: JsonView)
    ensures
        ({
            let (after, r) = performed(d, "set_theme"@, args);
            let css = text_field(args, "theme_css"@);
            &&& trimmed(css).len() > 0 ==> after.theme_css == css && field(r, "ok"@) == Some(
                JsonView::Bool(true),
            ) && field(r, "desc"@) == Some(JsonView::Text("restyled the deck"@))
            &&& trimmed(css).len() == 0 ==> after.theme_css == d.theme_css && field(r, "ok"@)
                == Some(JsonView::Bool(false)) && field(r, "error"@) == Some(
                JsonView::Text("empty theme_css"@),
            )
        }),
        ({
            let (after, r) = performed(d, "set_title"@, args);
            let t = trimmed(text_field(args, "title"@));
            &&& t.len() > 0 ==> after.title == t && field(r, "ok"@) == Some(JsonView::Bool(true))
                && field(r, "desc"@) == Some(
                JsonView::Text("renamed deck to \u{201c}"@ + t + "\u{201d}"@),
            )
            &&& t.len() == 0 ==> after.title == d.title && field(r, "ok"@) == Some(
                JsonView::Bool(false),
            ) && field(r, "error"@) == Some(JsonView::Text("empty title"@))
        }),
{
    lemma_names_differ();
    reveal_strlit("ok");
    reveal_strlit("desc");
    reveal_strlit("error");
    assert("ok"@.len() == 2 && "desc"@.len() == 4 && "error"@.len() == 5);
}

} // verus!
