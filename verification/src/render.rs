//! Decks as HTML documents that need no other file.

use vstd::prelude::*;
use vstd::string::*;

use crate::assets::{
    BASE_CSS, DEFAULT_THEME_CSS, EDITOR_CSS, EDITOR_JS, NAV_JS, PDF_AUTOPRINT_JS, PRINT_CSS,
};
use crate::deck::{image_of, images_outside, Deck, DeckView, ImageView, Slide, SlideView};
use crate::embed::{
    inject_images, injected, law_injection_reads_only_references, lemma_image_of_outside, refs_in,
    refs_of,
};
use crate::num::{dec, decimal};
use crate::text::{chars_of, in_turn, lemma_in_turn, occurs_at, trim, trimmed};

verus! {

/// A character as it stands in HTML text or in a quoted attribute.
pub open spec fn escaped_char(c: char) -> Seq<char> {
    if c == '&' {
        "&amp;"@
    } else if c == '<' {
        "&lt;"@
    } else if c == '>' {
        "&gt;"@
    } else if c == '"' {
        "&quot;"@
    } else {
        seq![c]
    }
}

/// A text as it stands in HTML.
pub open spec fn escaped(s: Seq<char>) -> Seq<char>
    decreases s.len(),
{
    if s.len() == 0 {
        Seq::empty()
    } else {
        escaped(s.drop_last()) + escaped_char(s.last())
    }
}

pub fn esc(s: &str) -> (r: String)
    ensures
        r@ == escaped(s@),
{
    let v = chars_of(s);
    let mut r = String::new();
    let mut i: usize = 0;
    while i < v.len()
        invariant
            v@ == s@,
            i <= v@.len(),
            r@ == escaped(s@.take(i as int)),
        decreases v@.len() - i,
    {
        assert(s@.take(i + 1).drop_last() =~= s@.take(i as int));
        let c = v[i];
        if c == '&' {
            r.append("&amp;");
        } else if c == '<' {
            r.append("&lt;");
        } else if c == '>' {
            r.append("&gt;");
        } else if c == '"' {
            r.append("&quot;");
        } else {
            r.push(c);
            assert(r@ =~= escaped(s@.take(i as int)) + seq![c]);
        }
        i = i + 1;
    }
    assert(s@.take(i as int) =~= s@);
    r
}

/// The stylesheet of a deck: its theme, or the default one where it has none.
pub open spec fn theme_of(d: DeckView) -> Seq<char> {
    if trimmed(d.theme_css).len() == 0 {
        DEFAULT_THEME_CSS@
    } else {
        trimmed(d.theme_css)
    }
}

/// The title of a deck, as it stands in HTML.
pub open spec fn title_of(d: DeckView) -> Seq<char> {
    escaped(
        if d.title.len() == 0 {
            "Untitled Deck"@
        } else {
            d.title
        },
    )
}

/// What a slide shows: its content, with the images in it.
pub open spec fn slide_body(s: SlideView, images: Seq<(Seq<char>, ImageView)>) -> Seq<char> {
    "<div class=\"slide-inner\">"@ + injected(s.html, images) + "</div>"@
}

/// What opens the `i`th slide on screen.
pub open spec fn section_tag(i: int, s: SlideView) -> Seq<char> {
    "<section class=\"slide"@ + (if i == 0 {
        " active"@
    } else {
        ""@
    }) + "\" data-i=\""@ + dec(i as nat) + "\" data-id=\""@ + escaped(s.id) + "\">"@
}

/// The `i`th slide on screen.
pub open spec fn section(i: int, s: SlideView, images: Seq<(Seq<char>, ImageView)>) -> Seq<char> {
    section_tag(i, s) + slide_body(s, images) + "</section>"@
}

/// A slide on paper.
pub open spec fn print_section(s: SlideView, images: Seq<(Seq<char>, ImageView)>) -> Seq<char> {
    "<section class=\"slide\">"@ + slide_body(s, images) + "</section>"@
}

/// The slides on screen, one per line.
pub open spec fn sections(slides: Seq<SlideView>, images: Seq<(Seq<char>, ImageView)>) -> Seq<char>
    decreases slides.len(),
{
    if slides.len() == 0 {
        Seq::empty()
    } else {
        let before = sections(slides.drop_last(), images);
        let last = section(slides.len() - 1, slides.last(), images);
        if slides.len() == 1 {
            last
        } else {
            before + "\n"@ + last
        }
    }
}

/// The slides on paper, one per line.
pub open spec fn print_sections(
    slides: Seq<SlideView>,
    images: Seq<(Seq<char>, ImageView)>,
) -> Seq<char>
    decreases slides.len(),
{
    if slides.len() == 0 {
        Seq::empty()
    } else {
        let before = print_sections(slides.drop_last(), images);
        let last = print_section(slides.last(), images);
        if slides.len() == 1 {
            last
        } else {
            before + "\n"@ + last
        }
    }
}

/// What a deck without slides shows on screen.
pub open spec fn nothing_to_present() -> Seq<char> {
    "<section class=\"slide active\"><div class=\"slide-inner\"><div class=\"kicker\">slide deck</div><h1 class=\"slide-title\">No slides yet</h1><p class=\"slide-lead\">Press <b>space</b> and describe the slides you want.</p></div></section>"@
}

/// What a deck without slides shows in the editor.
pub open spec fn nothing_to_edit() -> Seq<char> {
    "<section class=\"slide active\">"@ + "<div class=\"slide-inner\">"@
        + "<h1 class=\"slide-title\">No slides yet</h1></div></section>"@
}

/// The part of a page that holds the slides.
pub open spec fn deck_div(slides: Seq<char>) -> Seq<char> {
    "<div id=\"deck\">\n"@ + slides + "\n</div>\n"@
}

/// The script of a page, and the end of it.
pub open spec fn script_end(script: Seq<char>) -> Seq<char> {
    "<script>\n"@ + script + "\n</script>\n</body>\n</html>\n"@
}

/// What stands before the theme on a page on screen: among it the rules by which one
/// slide is shown at a time. `name` is what follows the title of the deck.
pub open spec fn page_head(d: DeckView, name: Seq<char>) -> Seq<char> {
    "<!doctype html>\n<html lang=\"en\">\n<head>\n<meta charset=\"utf-8\">\n<meta name=\"viewport\" content=\"width=device-width,initial-scale=1\">\n<title>"@
        + title_of(d) + name + "</title>\n<style>\n"@ + BASE_CSS@ + "\n\n/* theme */\n"@
}

/// What stands after the theme of a presented deck: the slides, and the script and the
/// buttons that turn them.
pub open spec fn page_tail(d: DeckView) -> Seq<char> {
    "\n</style>\n</head>\n<body>\n"@ + deck_div(
        if d.slides.len() == 0 {
            nothing_to_present()
        } else {
            sections(d.slides, d.images)
        },
    )
        + "<div class=\"slide-counter\">1 / 1</div>\n"@ + "<div class=\"deck-nav\">"@
        + "<button data-prev>\u{2039}</button><button data-next>\u{203a}</button></div>\n"@
        + script_end(NAV_JS@)
}

/// The deck to present: what is saved, and what opens anywhere.
pub open spec fn deck_page(d: DeckView) -> Seq<char> {
    page_head(d, ""@) + theme_of(d) + page_tail(d)
}

/// What stands before the theme of a deck on paper.
pub open spec fn print_head(d: DeckView) -> Seq<char> {
    "<!doctype html>\n<html lang=\"en\">\n<head>\n<meta charset=\"utf-8\">\n<title>"@ + title_of(d)
        + "</title>\n<style>\n"@ + BASE_CSS@ + "\n\n/* theme */\n"@
}

/// What stands between the theme and the slides of a deck on paper.
pub open spec fn print_rules() -> Seq<char> {
    "\n\n"@ + PRINT_CSS@ + "\n</style>\n</head>\n<body>\n"@
}

/// The deck to print: every slide on a page of its own.
pub open spec fn print_page(d: DeckView) -> Seq<char> {
    print_head(d) + theme_of(d) + print_rules() + deck_div(print_sections(d.slides, d.images))
        + script_end(PDF_AUTOPRINT_JS@)
}

/// What stands between the theme and the slides of a deck in the editor.
pub open spec fn editor_rules() -> Seq<char> {
    "\n\n/* editor */\n"@ + EDITOR_CSS@ + "\n</style>\n</head>\n<body>\n"@
}

/// The slides of a deck, as the editor shows them.
pub open spec fn edited_slides(d: DeckView) -> Seq<char> {
    if d.slides.len() == 0 {
        nothing_to_edit()
    } else {
        sections(d.slides, d.images)
    }
}

/// The deck to edit: the slides as they are presented, with the editing script in the
/// place of the presentation script.
pub open spec fn editor_page(d: DeckView) -> Seq<char> {
    page_head(d, " \u{2014} editor"@) + theme_of(d) + editor_rules() + deck_div(edited_slides(d))
        + script_end(EDITOR_JS@)
}

fn theme_text(deck: &Deck) -> (r: String)
    ensures
        r@ == theme_of(deck@),
{
    let theme = trim(deck.theme_css.as_str());
    if theme.is_empty() {
        DEFAULT_THEME_CSS.to_string()
    } else {
        theme.to_string()
    }
}

fn title_text(deck: &Deck) -> (r: String)
    ensures
        r@ == title_of(deck@),
{
    if deck.title.as_str().is_empty() {
        esc("Untitled Deck")
    } else {
        esc(deck.title.as_str())
    }
}

fn slide_body_text(s: &Slide, deck: &Deck) -> (r: String)
    ensures
        r@ == slide_body(s@, deck@.images),
{
    let mut r = "<div class=\"slide-inner\">".to_string();
    r.append(inject_images(s.html.as_str(), deck).as_str());
    r.append("</div>");
    r
}

fn section_text(i: usize, s: &Slide, deck: &Deck) -> (r: String)
    ensures
        r@ == section(i as int, s@, deck@.images),
{
    let mut r = "<section class=\"slide".to_string();
    r.append(
        if i == 0 {
            " active"
        } else {
            ""
        },
    );
    r.append("\" data-i=\"");
    r.append(decimal(i as u128).as_str());
    r.append("\" data-id=\"");
    r.append(esc(s.id.as_str()).as_str());
    r.append("\">");
    r.append(slide_body_text(s, deck).as_str());
    r.append("</section>");
    r
}

fn sections_text(deck: &Deck) -> (r: String)
    ensures
        r@ == sections(deck@.slides, deck@.images),
{
    let ghost all = deck@.slides;
    let mut r = String::new();
    let mut i: usize = 0;
    while i < deck.slides.len()
        invariant
            i <= deck.slides@.len(),
            all == deck@.slides,
            r@ == sections(all.take(i as int), deck@.images),
        decreases deck.slides@.len() - i,
    {
        assert(all.take(i + 1).drop_last() =~= all.take(i as int));
        assert(all[i as int] == deck.slides[i as int]@);
        if i > 0 {
            r.append("\n");
        }
        r.append(section_text(i, &deck.slides[i], deck).as_str());
        assert(i == 0 ==> r@ =~= section(0, all[0], deck@.images));
        i = i + 1;
    }
    assert(all.take(i as int) =~= all);
    r
}

fn print_sections_text(deck: &Deck) -> (r: String)
    ensures
        r@ == print_sections(deck@.slides, deck@.images),
{
    let ghost all = deck@.slides;
    let mut r = String::new();
    let mut i: usize = 0;
    while i < deck.slides.len()
        invariant
            i <= deck.slides@.len(),
            all == deck@.slides,
            r@ == print_sections(all.take(i as int), deck@.images),
        decreases deck.slides@.len() - i,
    {
        assert(all.take(i + 1).drop_last() =~= all.take(i as int));
        assert(all[i as int] == deck.slides[i as int]@);
        if i > 0 {
            r.append("\n");
        }
        let mut one = "<section class=\"slide\">".to_string();
        one.append(slide_body_text(&deck.slides[i], deck).as_str());
        one.append("</section>");
        r.append(one.as_str());
        assert(i == 0 ==> r@ =~= print_section(all[0], deck@.images));
        i = i + 1;
    }
    assert(all.take(i as int) =~= all);
    r
}

fn deck_div_text(slides: &str) -> (r: String)
    ensures
        r@ == deck_div(slides@),
{
    let mut r = "<div id=\"deck\">\n".to_string();
    r.append(slides);
    r.append("\n</div>\n");
    r
}

fn script_end_text(script: &str) -> (r: String)
    ensures
        r@ == script_end(script@),
{
    let mut r = "<script>\n".to_string();
    r.append(script);
    r.append("\n</script>\n</body>\n</html>\n");
    r
}

fn page_head_text(deck: &Deck, name: &str) -> (r: String)
    ensures
        r@ == page_head(deck@, name@),
{
    let mut r =
        "<!doctype html>\n<html lang=\"en\">\n<head>\n<meta charset=\"utf-8\">\n<meta name=\"viewport\" content=\"width=device-width,initial-scale=1\">\n<title>".to_string();
    r.append(title_text(deck).as_str());
    r.append(name);
    r.append("</title>\n<style>\n");
    r.append(BASE_CSS);
    r.append("\n\n/* theme */\n");
    r
}

fn page_tail_text(deck: &Deck) -> (r: String)
    ensures
        r@ == page_tail(deck@),
{
    let slides = if deck.slides.len() == 0 {
        "<section class=\"slide active\"><div class=\"slide-inner\"><div class=\"kicker\">slide deck</div><h1 class=\"slide-title\">No slides yet</h1><p class=\"slide-lead\">Press <b>space</b> and describe the slides you want.</p></div></section>".to_string()
    } else {
        sections_text(deck)
    };
    let mut r = "\n</style>\n</head>\n<body>\n".to_string();
    r.append(deck_div_text(slides.as_str()).as_str());
    r.append("<div class=\"slide-counter\">1 / 1</div>\n");
    r.append("<div class=\"deck-nav\">");
    r.append("<button data-prev>\u{2039}</button><button data-next>\u{203a}</button></div>\n");
    r.append(script_end_text(NAV_JS).as_str());
    r
}

/// The deck to present.
pub fn render_deck_html(deck: &Deck) -> (r: String)
    ensures
        r@ == deck_page(deck@),
{
    let mut r = page_head_text(deck, "");
    r.append(theme_text(deck).as_str());
    r.append(page_tail_text(deck).as_str());
    r
}

/// The deck to print.
pub fn render_deck_pdf_html(deck: &Deck) -> (r: String)
    ensures
        r@ == print_page(deck@),
{
    let mut r =
        "<!doctype html>\n<html lang=\"en\">\n<head>\n<meta charset=\"utf-8\">\n<title>".to_string();
    r.append(title_text(deck).as_str());
    r.append("</title>\n<style>\n");
    r.append(BASE_CSS);
    r.append("\n\n/* theme */\n");
    r.append(theme_text(deck).as_str());
    let mut rules = "\n\n".to_string();
    rules.append(PRINT_CSS);
    rules.append("\n</style>\n</head>\n<body>\n");
    r.append(rules.as_str());
    r.append(deck_div_text(print_sections_text(deck).as_str()).as_str());
    r.append(script_end_text(PDF_AUTOPRINT_JS).as_str());
    r
}

/// The deck to edit.
pub fn render_deck_editor_html(deck: &Deck) -> (r: String)
    ensures
        r@ == editor_page(deck@),
{
    let slides = if deck.slides.len() == 0 {
        let mut t = "<section class=\"slide active\">".to_string();
        t.append("<div class=\"slide-inner\">");
        t.append("<h1 class=\"slide-title\">No slides yet</h1></div></section>");
        t
    } else {
        sections_text(deck)
    };
    let mut rules = "\n\n/* editor */\n".to_string();
    rules.append(EDITOR_CSS);
    rules.append("\n</style>\n</head>\n<body>\n");
    let mut r = page_head_text(deck, " \u{2014} editor");
    r.append(theme_text(deck).as_str());
    r.append(rules.as_str());
    r.append(deck_div_text(slides.as_str()).as_str());
    r.append(script_end_text(EDITOR_JS).as_str());
    r
}

// ---- Laws --------------------------------------------------------------

proof fn lemma_sections_depend_on_references(
    slides: Seq<SlideView>,
    images: Seq<(Seq<char>, ImageView)>,
    ids: Set<Seq<char>>,
)
    requires
        ids.disjoint(refs_of(slides)),
    ensures
        sections(slides, images_outside(images, ids)) == sections(slides, images),
        print_sections(slides, images_outside(images, ids)) == print_sections(slides, images),
    decreases slides.len(),
{
    if slides.len() > 0 {
        lemma_sections_depend_on_references(slides.drop_last(), images, ids);
        let s = slides.last().html;
        assert forall|id: Seq<char>| #[trigger] refs_in(s).contains(id) implies image_of(
            images_outside(images, ids),
            id,
        ) == image_of(images, id) by {
            assert(refs_of(slides).contains(id));
            lemma_image_of_outside(images, ids, id);
        }
        law_injection_reads_only_references(s, images_outside(images, ids), images);
    }
}

/// Dropping images that no slide refers to changes no rendering of the deck.
pub proof fn law_unreferenced_images_do_not_show(d: DeckView, ids: Set<Seq<char>>)
    requires
        ids.disjoint(refs_of(d.slides)),
    ensures
        deck_page((DeckView { images: images_outside(d.images, ids), ..d })) == deck_page(d),
        print_page((DeckView { images: images_outside(d.images, ids), ..d })) == print_page(d),
        editor_page((DeckView { images: images_outside(d.images, ids), ..d })) == editor_page(d),
{
    lemma_sections_depend_on_references(d.slides, d.images, ids);
}

/// A text that was escaped can neither open or close a tag nor end an attribute.
pub proof fn law_escaped_text_holds_no_markup(s: Seq<char>)
    ensures
        forall|i: int|
            0 <= i < escaped(s).len() ==> (#[trigger] escaped(s)[i]) != '<' && escaped(s)[i] != '>'
                && escaped(s)[i] != '"',
    decreases s.len(),
{
    if s.len() > 0 {
        law_escaped_text_holds_no_markup(s.drop_last());
        lemma_escaped_char(s.last());
        let before = escaped(s.drop_last());
        let one = escaped_char(s.last());
        assert forall|i: int| 0 <= i < escaped(s).len() implies (#[trigger] escaped(s)[i]) != '<'
            && escaped(s)[i] != '>' && escaped(s)[i] != '"' by {
            if i < before.len() {
                assert(escaped(s)[i] == before[i]);
            } else {
                assert(escaped(s)[i] == one[i - before.len()]);
            }
        }
    }
}

proof fn lemma_escaped_char(c: char)
    ensures
        forall|i: int|
            0 <= i < escaped_char(c).len() ==> (#[trigger] escaped_char(c)[i]) != '<'
                && escaped_char(c)[i] != '>' && escaped_char(c)[i] != '"',
{
    reveal_strlit("&amp;");
    reveal_strlit("&lt;");
    reveal_strlit("&gt;");
    reveal_strlit("&quot;");
    let a = "&amp;"@;
    let l = "&lt;"@;
    let g = "&gt;"@;
    let q = "&quot;"@;
    assert(a.len() == 5 && a[0] == '&' && a[1] == 'a' && a[2] == 'm' && a[3] == 'p' && a[4] == ';');
    assert(l.len() == 4 && l[0] == '&' && l[1] == 'l' && l[2] == 't' && l[3] == ';');
    assert(g.len() == 4 && g[0] == '&' && g[1] == 'g' && g[2] == 't' && g[3] == ';');
    assert(q.len() == 6 && q[0] == '&' && q[1] == 'q' && q[2] == 'u');
    assert(q[3] == 'o' && q[4] == 't' && q[5] == ';');
}

/// A new theme restyles the whole deck and touches nothing else on its page: neither the
/// slides nor the rules and the script by which they are turned.
pub proof fn law_theme_is_all_that_restyling_changes(d: DeckView, theme: Seq<char>)
    ensures
        deck_page((DeckView { theme_css: theme, ..d })) == page_head(d, ""@) + theme_of(
            DeckView { theme_css: theme, ..d },
        ) + page_tail(d),
{
}

/// Escaping works on one character after the other: each of the four that stand for markup
/// is replaced by its name, and any other stays.
pub proof fn law_characters_are_escaped(s: Seq<char>, c: char)
    ensures
        escaped(Seq::empty()).len() == 0,
        escaped(s.push(c)) == escaped(s) + (if c == '&' {
            "&amp;"@
        } else if c == '<' {
            "&lt;"@
        } else if c == '>' {
            "&gt;"@
        } else if c == '"' {
            "&quot;"@
        } else {
            seq![c]
        }),
{
    assert(s.push(c).drop_last() =~= s);
}

/// The text of a slide at a place, as it stands on a page: only the first is active, and each
/// carries its place, its id and its content with the images put in.
pub open spec fn shown_at(i: nat, s: SlideView, images: Seq<(Seq<char>, ImageView)>) -> Seq<char> {
    let tag = if i == 0 {
        "<section class=\"slide active\" data-i=\"0\" data-id=\""@
    } else {
        "<section class=\"slide\" data-i=\""@ + dec(i) + "\" data-id=\""@
    };
    tag + escaped(s.id) + "\"><div class=\"slide-inner\">"@ + injected(s.html, images)
        + "</div></section>"@
}

proof fn lemma_shown_at(i: nat, s: SlideView, images: Seq<(Seq<char>, ImageView)>)
    ensures
        section(i as int, s, images) == shown_at(i, s, images),
        print_section(s, images) == "<section class=\"slide\"><div class=\"slide-inner\">"@
            + injected(s.html, images) + "</div></section>"@,
{
    reveal_strlit("<section class=\"slide active\" data-i=\"0\" data-id=\"");
    reveal_strlit("<section class=\"slide\" data-i=\"");
    reveal_strlit("<section class=\"slide");
    reveal_strlit("<section class=\"slide\">");
    reveal_strlit("<section class=\"slide\"><div class=\"slide-inner\">");
    reveal_strlit(" active");
    reveal_strlit("");
    reveal_strlit("\" data-i=\"");
    reveal_strlit("\" data-id=\"");
    reveal_strlit("\">");
    reveal_strlit("<div class=\"slide-inner\">");
    reveal_strlit("\"><div class=\"slide-inner\">");
    reveal_strlit("</div>");
    reveal_strlit("</section>");
    reveal_strlit("</div></section>");
    let inner = injected(s.html, images);
    assert("</div></section>"@ =~= "</div>"@ + "</section>"@);
    assert("\"><div class=\"slide-inner\">"@ =~= "\">"@ + "<div class=\"slide-inner\">"@);
    assert("<section class=\"slide\"><div class=\"slide-inner\">"@
        =~= "<section class=\"slide\">"@ + "<div class=\"slide-inner\">"@);
    assert("<section class=\"slide\" data-i=\""@ =~= "<section class=\"slide"@ + ""@
        + "\" data-i=\""@);
    let d0 = dec(0);
    assert(d0 =~= seq!['0']);
    assert("<section class=\"slide active\" data-i=\"0\" data-id=\""@
        =~= "<section class=\"slide"@ + " active"@ + "\" data-i=\""@ + d0 + "\" data-id=\""@);
    assert(section(i as int, s, images) =~= shown_at(i, s, images));
    assert(print_section(s, images) =~= "<section class=\"slide\"><div class=\"slide-inner\">"@
        + inner + "</div></section>"@);
}

/// One slide more at the end of a deck is one section more at the end, on a line of its own,
/// on screen and on paper.
pub proof fn law_slide_adds_a_section(
    slides: Seq<SlideView>,
    s: SlideView,
    images: Seq<(Seq<char>, ImageView)>,
)
    ensures
        slides.len() == 0 ==> sections(slides.push(s), images) == shown_at(0, s, images)
            && print_sections(slides.push(s), images)
            == "<section class=\"slide\"><div class=\"slide-inner\">"@ + injected(s.html, images)
            + "</div></section>"@,
        slides.len() > 0 ==> sections(slides.push(s), images) == sections(slides, images) + "\n"@
            + shown_at(slides.len(), s, images) && print_sections(slides.push(s), images)
            == print_sections(slides, images) + "\n"@
            + ("<section class=\"slide\"><div class=\"slide-inner\">"@ + injected(s.html, images)
            + "</div></section>"@),
{
    assert(slides.push(s).drop_last() =~= slides);
    lemma_shown_at(slides.len(), s, images);
}

/// In the part of a page that shows a deck, the section of a slide ends before that of any
/// later slide begins, on screen and on paper.
pub proof fn law_sections_stand_in_order(
    slides: Seq<SlideView>,
    images: Seq<(Seq<char>, ImageView)>,
    i: int,
    j: int,
)
    requires
        0 <= i < j < slides.len(),
    ensures
        exists|p: int, q: int|
            0 <= p && p + shown_at(i as nat, slides[i], images).len() <= q && #[trigger] occurs_at(
                sections(slides, images),
                shown_at(i as nat, slides[i], images),
                p,
            ) && #[trigger] occurs_at(
                sections(slides, images),
                shown_at(j as nat, slides[j], images),
                q,
            ),
        exists|p: int, q: int|
            0 <= p && p + injected(slides[i].html, images).len() <= q && #[trigger] occurs_at(
                print_sections(slides, images),
                injected(slides[i].html, images),
                p,
            ) && #[trigger] occurs_at(
                print_sections(slides, images),
                injected(slides[j].html, images),
                q,
            ),
{
    lemma_section_at(slides.take(j), images, i);
    assert(slides.take(j)[i] == slides[i]);
    law_slide_adds_a_section(slides.take(j), slides[j], images);
    assert(slides.take(j + 1) =~= slides.take(j).push(slides[j]));
    lemma_sections_begin(slides, images, j);
    lemma_sections_begin(slides, images, j + 1);
    let one = shown_at(i as nat, slides[i], images);
    let two = shown_at(j as nat, slides[j], images);
    let s = sections(slides, images);
    let a = sections(slides.take(j), images);
    let p = choose|p: int| 0 <= p && #[trigger] occurs_at(a, one, p);
    let q: int = a.len() + "\n"@.len() as int;
    lemma_occurs_beyond(a, s, one, p);
    let longer = sections(slides.take(j + 1), images);
    assert(longer.subrange(q, q + two.len()) =~= two);
    lemma_occurs_beyond(longer, s, two, q);
    assert(occurs_at(s, one, p) && occurs_at(s, two, q));
    let x = injected(slides[i].html, images);
    let y = injected(slides[j].html, images);
    let t = print_sections(slides, images);
    let b = print_sections(slides.take(j), images);
    let u = choose|u: int| 0 <= u && #[trigger] occurs_at(b, x, u);
    let v: int = b.len() + "\n"@.len()
        + "<section class=\"slide\"><div class=\"slide-inner\">"@.len() as int;
    lemma_occurs_beyond(b, t, x, u);
    let fuller = print_sections(slides.take(j + 1), images);
    assert(fuller.subrange(v, v + y.len()) =~= y);
    lemma_occurs_beyond(fuller, t, y, v);
    assert(occurs_at(t, x, u) && occurs_at(t, y, v));
}

proof fn lemma_occurs_beyond(a: Seq<char>, s: Seq<char>, p: Seq<char>, i: int)
    requires
        a.is_prefix_of(s),
        occurs_at(a, p, i),
        0 <= i,
    ensures
        occurs_at(s, p, i),
{
    assert forall|k: int| 0 <= k < a.len() implies a[k] == s[k] by {
        assert(s.subrange(0, a.len() as int)[k] == s[k]);
    }
    assert(s.subrange(i, i + p.len()) =~= a.subrange(i, i + p.len()));
}

proof fn lemma_sections_begin(
    slides: Seq<SlideView>,
    images: Seq<(Seq<char>, ImageView)>,
    n: int,
)
    requires
        0 <= n <= slides.len(),
    ensures
        sections(slides.take(n), images).is_prefix_of(sections(slides, images)),
        print_sections(slides.take(n), images).is_prefix_of(print_sections(slides, images)),
    decreases slides.len() - n,
{
    if n == slides.len() {
        assert(slides.take(n) =~= slides);
    } else {
        lemma_sections_begin(slides, images, n + 1);
        assert(slides.take(n + 1).drop_last() =~= slides.take(n));
        let a = sections(slides.take(n), images);
        let b = sections(slides.take(n + 1), images);
        assert(a.is_prefix_of(b));
        assert(a =~= sections(slides, images).take(a.len() as int));
        let c = print_sections(slides.take(n), images);
        let d = print_sections(slides.take(n + 1), images);
        assert(c.is_prefix_of(d));
        assert(c =~= print_sections(slides, images).take(c.len() as int));
    }
}

proof fn lemma_section_at(
    slides: Seq<SlideView>,
    images: Seq<(Seq<char>, ImageView)>,
    i: int,
)
    requires
        0 <= i < slides.len(),
    ensures
        exists|p: int|
            0 <= p && #[trigger] occurs_at(
                sections(slides, images),
                shown_at(i as nat, slides[i], images),
                p,
            ),
        exists|p: int|
            0 <= p && #[trigger] occurs_at(
                print_sections(slides, images),
                injected(slides[i].html, images),
                p,
            ),
{
    law_slide_adds_a_section(slides.take(i), slides[i], images);
    assert(slides.take(i + 1) =~= slides.take(i).push(slides[i]));
    lemma_sections_begin(slides, images, i + 1);
    let one = shown_at(i as nat, slides[i], images);
    let s = sections(slides, images);
    let p = if i == 0 {
        0
    } else {
        (sections(slides.take(i), images).len() + "\n"@.len()) as int
    };
    let longer = sections(slides.take(i + 1), images);
    assert(longer.subrange(p, p + one.len()) =~= one);
    lemma_occurs_beyond(longer, s, one, p);
    let x = injected(slides[i].html, images);
    let t = print_sections(slides, images);
    let open = "<section class=\"slide\"><div class=\"slide-inner\">"@.len();
    let u = if i == 0 {
        open as int
    } else {
        (print_sections(slides.take(i), images).len() + "\n"@.len() + open) as int
    };
    let fuller = print_sections(slides.take(i + 1), images);
    assert(fuller.subrange(u, u + x.len()) =~= x);
    lemma_occurs_beyond(fuller, t, x, u);
}

/// Every page carries the title of the deck, escaped, then the base rules, the theme, the
/// slides and its script, in this order: the presented deck and the editor the slides as they
/// are on screen, or what they show where there are none, the printed deck those on paper. A deck
/// without a title or a theme gets the default ones.
pub proof fn law_pages_hold_the_deck(d: DeckView)
    ensures
        ({
            let title = if d.title.len() == 0 {
                escaped("Untitled Deck"@)
            } else {
                escaped(d.title)
            };
            let theme = if trimmed(d.theme_css).len() == 0 {
                DEFAULT_THEME_CSS@
            } else {
                trimmed(d.theme_css)
            };
            let shown = sections(d.slides, d.images);
            &&& in_turn(
                deck_page(d),
                seq![
                    "<title>"@ + title + "</title>"@,
                    BASE_CSS@,
                    theme,
                    "<div id=\"deck\">\n"@ + (if d.slides.len() == 0 {
                        nothing_to_present()
                    } else {
                        shown
                    }) + "\n</div>\n"@,
                    NAV_JS@,
                ],
            )
            &&& in_turn(
                editor_page(d),
                seq![
                    "<title>"@ + title + " \u{2014} editor</title>"@,
                    BASE_CSS@,
                    theme,
                    EDITOR_CSS@,
                    "<div id=\"deck\">\n"@ + (if d.slides.len() == 0 {
                        nothing_to_edit()
                    } else {
                        shown
                    }) + "\n</div>\n"@,
                    EDITOR_JS@,
                ],
            )
            &&& in_turn(
                print_page(d),
                seq![
                    "<title>"@ + title + "</title>"@,
                    BASE_CSS@,
                    theme,
                    PRINT_CSS@,
                    "<div id=\"deck\">\n"@ + print_sections(d.slides, d.images) + "\n</div>\n"@,
                    PDF_AUTOPRINT_JS@,
                ],
            )
        }),
{
    lemma_presented_page(d);
    lemma_edited_page(d);
    lemma_printed_page(d);
}

spec fn open_screen() -> Seq<char> {
    "<!doctype html>\n<html lang=\"en\">\n<head>\n<meta charset=\"utf-8\">\n<meta name=\"viewport\" content=\"width=device-width,initial-scale=1\">\n<title>"@
}

spec fn open_paper() -> Seq<char> {
    "<!doctype html>\n<html lang=\"en\">\n<head>\n<meta charset=\"utf-8\">\n<title>"@
}

proof fn lemma_page_marks()
    ensures
        exists|a: Seq<char>| open_screen() == #[trigger] (a + "<title>"@),
        exists|a: Seq<char>| open_paper() == #[trigger] (a + "<title>"@),
        "</title>\n<style>\n"@ == "</title>"@ + "\n<style>\n"@,
        " \u{2014} editor</title>"@ + "\n<style>\n"@ == " \u{2014} editor"@
            + "</title>\n<style>\n"@,
        ""@ == Seq::<char>::empty(),
{
    reveal_strlit("<!doctype html>\n<html lang=\"en\">\n<head>\n<meta charset=\"utf-8\">\n<meta name=\"viewport\" content=\"width=device-width,initial-scale=1\">\n<title>");
    reveal_strlit("<!doctype html>\n<html lang=\"en\">\n<head>\n<meta charset=\"utf-8\">\n<title>");
    reveal_strlit("<title>");
    reveal_strlit("</title>\n<style>\n");
    reveal_strlit("</title>");
    reveal_strlit("\n<style>\n");
    reveal_strlit(" \u{2014} editor</title>");
    reveal_strlit(" \u{2014} editor");
    reveal_strlit("");
    assert("<title>"@.len() == 7);
    let n = open_screen().len() - 7;
    assert(open_screen().skip(n) =~= "<title>"@);
    assert(open_screen() =~= open_screen().take(n) + "<title>"@);
    let m = open_paper().len() - 7;
    assert(open_paper().skip(m) =~= "<title>"@);
    assert(open_paper() =~= open_paper().take(m) + "<title>"@);
    assert("</title>\n<style>\n"@ =~= "</title>"@ + "\n<style>\n"@);
    assert(" \u{2014} editor</title>"@ =~= " \u{2014} editor"@ + "</title>"@);
    assert(" \u{2014} editor</title>"@ + "\n<style>\n"@ =~= " \u{2014} editor"@
        + "</title>\n<style>\n"@);
    assert(""@ =~= Seq::<char>::empty());
}

proof fn lemma_presented_page(d: DeckView)
    ensures
        in_turn(
            deck_page(d),
            seq![
                "<title>"@ + title_of(d) + "</title>"@,
                BASE_CSS@,
                theme_of(d),
                "<div id=\"deck\">\n"@ + (if d.slides.len() == 0 {
                    nothing_to_present()
                } else {
                    sections(d.slides, d.images)
                }) + "\n</div>\n"@,
                NAV_JS@,
            ],
        ),
{
    lemma_page_marks();
    let a = choose|a: Seq<char>| open_screen() == #[trigger] (a + "<title>"@);
    let p0 = "<title>"@ + title_of(d) + "</title>"@;
    let p3 = "<div id=\"deck\">\n"@ + (if d.slides.len() == 0 {
        nothing_to_present()
    } else {
        sections(d.slides, d.images)
    }) + "\n</div>\n"@;
    let end = "\n</script>\n</body>\n</html>\n"@;
    let gap = "<div class=\"slide-counter\">1 / 1</div>\n"@ + "<div class=\"deck-nav\">"@
        + "<button data-prev>\u{2039}</button><button data-next>\u{203a}</button></div>\n"@
        + "<script>\n"@;
    let none = Seq::<char>::empty();
    let s4 = gap + NAV_JS@ + end;
    let s3 = "\n</style>\n</head>\n<body>\n"@ + p3 + s4;
    let s2 = "\n\n/* theme */\n"@ + theme_of(d) + s3;
    let s1 = "\n<style>\n"@ + BASE_CSS@ + s2;
    lemma_in_turn(gap, NAV_JS@, end, Seq::empty());
    lemma_in_turn("\n</style>\n</head>\n<body>\n"@, p3, s4, seq![NAV_JS@]);
    lemma_in_turn("\n\n/* theme */\n"@, theme_of(d), s3, seq![p3, NAV_JS@]);
    lemma_in_turn("\n<style>\n"@, BASE_CSS@, s2, seq![theme_of(d), p3, NAV_JS@]);
    lemma_in_turn(a, p0, s1, seq![BASE_CSS@, theme_of(d), p3, NAV_JS@]);
    assert(page_head(d, ""@) =~= open_screen() + title_of(d) + ("</title>"@ + "\n<style>\n"@)
        + BASE_CSS@ + "\n\n/* theme */\n"@);
    assert(page_tail(d) =~= s3);
    assert(deck_page(d) =~= a + p0 + s1);
}

proof fn lemma_edited_page(d: DeckView)
    ensures
        in_turn(
            editor_page(d),
            seq![
                "<title>"@ + title_of(d) + " \u{2014} editor</title>"@,
                BASE_CSS@,
                theme_of(d),
                EDITOR_CSS@,
                "<div id=\"deck\">\n"@ + edited_slides(d) + "\n</div>\n"@,
                EDITOR_JS@,
            ],
        ),
{
    lemma_page_marks();
    let a = choose|a: Seq<char>| open_screen() == #[trigger] (a + "<title>"@);
    let p0 = "<title>"@ + title_of(d) + " \u{2014} editor</title>"@;
    let p4 = "<div id=\"deck\">\n"@ + edited_slides(d) + "\n</div>\n"@;
    let end = "\n</script>\n</body>\n</html>\n"@;
    let s5 = "<script>\n"@ + EDITOR_JS@ + end;
    let s4 = "\n</style>\n</head>\n<body>\n"@ + p4 + s5;
    let s3 = "\n\n/* editor */\n"@ + EDITOR_CSS@ + s4;
    let s2 = "\n\n/* theme */\n"@ + theme_of(d) + s3;
    let s1 = "\n<style>\n"@ + BASE_CSS@ + s2;
    lemma_in_turn("<script>\n"@, EDITOR_JS@, end, Seq::empty());
    lemma_in_turn("\n</style>\n</head>\n<body>\n"@, p4, s5, seq![EDITOR_JS@]);
    lemma_in_turn("\n\n/* editor */\n"@, EDITOR_CSS@, s4, seq![p4, EDITOR_JS@]);
    lemma_in_turn("\n\n/* theme */\n"@, theme_of(d), s3, seq![EDITOR_CSS@, p4, EDITOR_JS@]);
    lemma_in_turn(
        "\n<style>\n"@,
        BASE_CSS@,
        s2,
        seq![theme_of(d), EDITOR_CSS@, p4, EDITOR_JS@],
    );
    lemma_in_turn(a, p0, s1, seq![BASE_CSS@, theme_of(d), EDITOR_CSS@, p4, EDITOR_JS@]);
    let head = page_head(d, " \u{2014} editor"@);
    assert(head =~= open_screen() + title_of(d) + (" \u{2014} editor"@ + "</title>\n<style>\n"@)
        + BASE_CSS@ + "\n\n/* theme */\n"@);
    assert(editor_page(d) =~= a + p0 + s1);
}

proof fn lemma_printed_page(d: DeckView)
    ensures
        in_turn(
            print_page(d),
            seq![
                "<title>"@ + title_of(d) + "</title>"@,
                BASE_CSS@,
                theme_of(d),
                PRINT_CSS@,
                "<div id=\"deck\">\n"@ + print_sections(d.slides, d.images) + "\n</div>\n"@,
                PDF_AUTOPRINT_JS@,
            ],
        ),
{
    lemma_page_marks();
    let a = choose|a: Seq<char>| open_paper() == #[trigger] (a + "<title>"@);
    let p0 = "<title>"@ + title_of(d) + "</title>"@;
    let p4 = "<div id=\"deck\">\n"@ + print_sections(d.slides, d.images) + "\n</div>\n"@;
    let end = "\n</script>\n</body>\n</html>\n"@;
    let s5 = "<script>\n"@ + PDF_AUTOPRINT_JS@ + end;
    let s4 = "\n</style>\n</head>\n<body>\n"@ + p4 + s5;
    let s3 = "\n\n"@ + PRINT_CSS@ + s4;
    let s2 = "\n\n/* theme */\n"@ + theme_of(d) + s3;
    let s1 = "\n<style>\n"@ + BASE_CSS@ + s2;
    lemma_in_turn("<script>\n"@, PDF_AUTOPRINT_JS@, end, Seq::empty());
    lemma_in_turn("\n</style>\n</head>\n<body>\n"@, p4, s5, seq![PDF_AUTOPRINT_JS@]);
    lemma_in_turn("\n\n"@, PRINT_CSS@, s4, seq![p4, PDF_AUTOPRINT_JS@]);
    lemma_in_turn("\n\n/* theme */\n"@, theme_of(d), s3, seq![PRINT_CSS@, p4, PDF_AUTOPRINT_JS@]);
    lemma_in_turn(
        "\n<style>\n"@,
        BASE_CSS@,
        s2,
        seq![theme_of(d), PRINT_CSS@, p4, PDF_AUTOPRINT_JS@],
    );
    lemma_in_turn(a, p0, s1, seq![BASE_CSS@, theme_of(d), PRINT_CSS@, p4, PDF_AUTOPRINT_JS@]);
    assert(print_head(d) =~= open_paper() + title_of(d) + ("</title>"@ + "\n<style>\n"@)
        + BASE_CSS@ + "\n\n/* theme */\n"@);
    assert(print_page(d) =~= a + p0 + s1);
}

} // verus!
