//! What holds of the pages of a deck together.

use vstd::prelude::*;

use crate::assets::{
    BASE_CSS, DEFAULT_THEME_CSS, EDITOR_CSS, EDITOR_JS, NAV_JS, PDF_AUTOPRINT_JS, PRINT_CSS,
};
use crate::deck::{DeckView, ImageView, SlideView};
use crate::embed::injected;
use crate::fixed::{
    button_place, lemma_base_css, lemma_button_place, lemma_default_theme_css, lemma_editor_css,
    lemma_editor_js, lemma_nav_js, lemma_pdf_autoprint_js, lemma_print_css, lemma_tame, tame,
    tame_at, turning,
};
use crate::num::{dec, lemma_dec};
use crate::render::{
    deck_div, deck_page, edited_slides, editor_page, editor_rules, escaped,
    law_escaped_text_holds_no_markup, nothing_to_edit, page_head, page_tail, print_head,
    print_page, print_rules, print_section, print_sections, script_end, section, section_tag,
    sections, slide_body, theme_of, title_of,
};
use crate::text::{
    holds, lemma_holds, lemma_occurs, occurs_at, trimmed, trimmed_end, trimmed_start, upto, white,
};

verus! {

// ---- The editor shows what is presented --------------------------------

/// The editor shows what is presented: both pages hold the same slides in the same place,
/// under the same rules and the same theme. The rules of the editor come in addition, and
/// its script is all that stands after the slides.
pub proof fn law_editor_shows_what_is_presented(d: DeckView)
    requires
        d.slides.len() > 0,
    ensures
        holds(deck_page(d), deck_div(sections(d.slides, d.images))),
        holds(editor_page(d), deck_div(sections(d.slides, d.images))),
        holds(deck_page(d), BASE_CSS@ + "\n\n/* theme */\n"@ + theme_of(d)),
        holds(editor_page(d), BASE_CSS@ + "\n\n/* theme */\n"@ + theme_of(d)),
        holds(editor_page(d), EDITOR_CSS@),
        holds(editor_page(d), EDITOR_JS@),
        editor_page(d) == (page_head(d, " \u{2014} editor"@) + theme_of(d) + editor_rules())
            + deck_div(sections(d.slides, d.images)) + script_end(EDITOR_JS@),
{
    let mechanics = "\n\n/* theme */\n"@;
    let style = BASE_CSS@ + mechanics + theme_of(d);
    let slides = deck_div(sections(d.slides, d.images));
    let title = "<!doctype html>\n<html lang=\"en\">\n<head>\n<meta charset=\"utf-8\">\n<meta name=\"viewport\" content=\"width=device-width,initial-scale=1\">\n<title>"@
        + title_of(d);
    let shown_start = title + ""@ + "</title>\n<style>\n"@;
    let edit_start = title + " \u{2014} editor"@ + "</title>\n<style>\n"@;
    let shown_open = "\n</style>\n</head>\n<body>\n"@;
    let shown_end = "<div class=\"slide-counter\">1 / 1</div>\n"@ + button_place()
        + "<button data-prev>\u{2039}</button><button data-next>\u{203a}</button></div>\n"@
        + script_end(NAV_JS@);
    let edit_end = script_end(EDITOR_JS@);
    assert(deck_page(d) =~= shown_start + style + page_tail(d));
    lemma_holds(shown_start, style, page_tail(d));
    assert(deck_page(d) =~= (page_head(d, ""@) + theme_of(d) + shown_open) + slides + shown_end);
    lemma_holds(page_head(d, ""@) + theme_of(d) + shown_open, slides, shown_end);
    assert(editor_page(d) =~= edit_start + style + (editor_rules() + slides + edit_end));
    lemma_holds(edit_start, style, editor_rules() + slides + edit_end);
    let before = page_head(d, " \u{2014} editor"@) + theme_of(d) + editor_rules();
    lemma_holds(before, slides, edit_end);
    let mark = "\n\n/* editor */\n"@;
    let edit_head = page_head(d, " \u{2014} editor"@) + theme_of(d) + mark;
    assert(editor_page(d) =~= edit_head + EDITOR_CSS@ + (shown_open + slides + edit_end));
    lemma_holds(edit_head, EDITOR_CSS@, shown_open + slides + edit_end);
    let close = "\n</script>\n</body>\n</html>\n"@;
    assert(editor_page(d) =~= (before + slides + "<script>\n"@) + EDITOR_JS@ + close);
    lemma_holds(before + slides + "<script>\n"@, EDITOR_JS@, close);
}

// ---- Pages on which nothing turns --------------------------------------

/// Whether a text holds what turns the slides of a presented deck: the script, or the
/// place of the buttons.
pub open spec fn turns(s: Seq<char>) -> bool {
    holds(s, NAV_JS@) || holds(s, button_place())
}

/// Whether nothing that turns slides can reach over the beginning of a text.
spec fn closes(b: Seq<char>) -> bool {
    b.len() >= 3 && ((b[0] == '<' && b[1] != '0') || (b[0] == '\n' && (b[1] == '\n' || (b[1] == '<'
        && b[2] != '0'))))
}

proof fn lemma_tame_turns_nothing(s: Seq<char>, m: Seq<char>)
    requires
        tame(s),
        turning(m),
    ensures
        !holds(s, m),
{
    if holds(s, m) {
        let i = choose|i: int| #[trigger] occurs_at(s, m, i);
        lemma_occurs(s, m, i);
        let k = choose|k: int|
            0 <= k && k + 1 < m.len() && #[trigger] m[k] == '<' && (m[k + 1] == 'd' || m[k + 1]
                == '0');
        assert(s[i + k] == '<');
        assert(m[k + 1] == s[i + k + 1]);
    }
}

proof fn lemma_tame_both(a: Seq<char>, b: Seq<char>)
    requires
        tame(a),
        tame(b),
    ensures
        tame(a + b),
{
    let s = a + b;
    assert forall|i: int| 0 <= i < s.len() && #[trigger] s[i] == '<' implies i + 1 < s.len() && s[i
        + 1] != 'd' && s[i + 1] != '0' by {
        if i < a.len() {
            assert(a[i] == '<');
            assert(s[i + 1] == a[i + 1]);
        } else {
            assert(b[i - a.len()] == '<');
            assert(s[i + 1] == b[i - a.len() + 1]);
        }
    }
}

proof fn lemma_part_holds(s: Seq<char>, m: Seq<char>, i: int, part: Seq<char>, j: int)
    requires
        occurs_at(s, m, i),
        0 <= j,
        j + m.len() <= part.len(),
        forall|k: int| 0 <= k < m.len() ==> #[trigger] part[j + k] == s[i + k],
    ensures
        holds(part, m),
{
    lemma_occurs(s, m, i);
    assert(part.subrange(j, j + m.len()) =~= m) by {
        assert forall|k: int| 0 <= k < m.len() implies part.subrange(j, j + m.len())[k] == m[k] by {
            assert(part[j + k] == s[i + k]);
        }
    }
    assert(occurs_at(part, m, j));
}

proof fn lemma_cut(a: Seq<char>, b: Seq<char>, m: Seq<char>)
    requires
        turning(m),
        closes(b),
        !holds(a, m),
        !holds(b, m),
    ensures
        !holds(a + b, m),
{
    let s = a + b;
    let n = a.len() as int;
    if holds(s, m) {
        let i = choose|i: int| #[trigger] occurs_at(s, m, i);
        lemma_occurs(s, m, i);
        if i >= n {
            lemma_part_holds(s, m, i, b, i - n);
        } else if i + m.len() <= n {
            lemma_part_holds(s, m, i, a, i);
        } else {
            let k = n - i;
            assert(m[k] == s[n] && s[n] == b[0]);
            assert(k < m.len() - 1 ==> m[k + 1] == s[n + 1] && s[n + 1] == b[1]);
            assert(k < m.len() - 2 ==> m[k + 2] == s[n + 2] && s[n + 2] == b[2]);
            assert(m[m.len() - 1] == m.last());
        }
    }
}

/// Nothing that turns slides reaches over the end of what stands before a theme.
proof fn lemma_after_head(x: Seq<char>, r: Seq<char>, m: Seq<char>)
    requires
        turning(m),
        tame(x),
        x.len() >= 2,
        x[x.len() - 2] == '/',
        x[x.len() - 1] == '\n',
        !holds(r, m),
    ensures
        !holds(x + r, m),
{
    let s = x + r;
    let n = x.len() as int;
    lemma_tame_turns_nothing(x, m);
    if holds(s, m) {
        let i = choose|i: int| #[trigger] occurs_at(s, m, i);
        lemma_occurs(s, m, i);
        if i >= n {
            lemma_part_holds(s, m, i, r, i - n);
        } else if i + m.len() <= n {
            lemma_part_holds(s, m, i, x, i);
        } else {
            let k = n - 1 - i;
            assert(m[k] == s[n - 1] && s[n - 1] == x[n - 1]);
            if k > 0 {
                assert(m[k - 1] == s[n - 2] && s[n - 2] == x[n - 2]);
            }
        }
    }
}

/// What is opened for the content of a slide adds nothing that turns slides.
proof fn lemma_inner(body: Seq<char>, m: Seq<char>)
    requires
        turning(m),
        !holds(body, m),
    ensures
        !holds("<div class=\"slide-inner\">"@ + body, m),
        closes("<div class=\"slide-inner\">"@ + body),
{
    reveal_strlit("<div class=\"slide-inner\">");
    let open = "<div class=\"slide-inner\">"@;
    let s = open + body;
    let n = open.len() as int;
    let f = |i: int| open[i] != '(' && (i > 0 ==> open[i] != '<');
    reveal_with_fuel(upto, 27);
    assert(n == 25 && open[0] == '<' && open[1] == 'd' && open[12] == 's');
    crate::text::lemma_upto(f, 25);
    if holds(s, m) {
        let i = choose|i: int| #[trigger] occurs_at(s, m, i);
        lemma_occurs(s, m, i);
        if i >= n {
            lemma_part_holds(s, m, i, body, i - n);
        } else {
            assert(f(i));
            assert(m[0] == s[i] && s[i] == open[i]);
            assert(m[12] == s[i + 12]);
        }
    }
}

proof fn lemma_body(s: SlideView, images: Seq<(Seq<char>, ImageView)>, m: Seq<char>)
    requires
        turning(m),
        !holds(injected(s.html, images), m),
    ensures
        !holds(slide_body(s, images), m),
        closes(slide_body(s, images)),
{
    lemma_inner(injected(s.html, images), m);
    reveal_strlit("</div>");
    assert("</div>"@.len() == 6 && "</div>"@[0] == '<' && "</div>"@[1] == '/');
    reveal_with_fuel(upto, 8);
    lemma_tame("</div>"@);
    lemma_tame_turns_nothing("</div>"@, m);
    lemma_cut("<div class=\"slide-inner\">"@ + injected(s.html, images), "</div>"@, m);
}

/// A slide between a tag that turns nothing and the end of its section.
proof fn lemma_section_around(
    tag: Seq<char>,
    s: SlideView,
    images: Seq<(Seq<char>, ImageView)>,
    m: Seq<char>,
)
    requires
        turning(m),
        tame(tag),
        closes(tag),
        !holds(injected(s.html, images), m),
    ensures
        !holds(tag + slide_body(s, images) + "</section>"@, m),
        closes(tag + slide_body(s, images) + "</section>"@),
{
    lemma_body(s, images, m);
    lemma_tame_turns_nothing(tag, m);
    lemma_cut(tag, slide_body(s, images), m);
    reveal_strlit("</section>");
    assert("</section>"@.len() == 10 && "</section>"@[0] == '<' && "</section>"@[1] == '/');
    reveal_with_fuel(upto, 12);
    lemma_tame("</section>"@);
    lemma_tame_turns_nothing("</section>"@, m);
    lemma_cut(tag + slide_body(s, images), "</section>"@, m);
}

proof fn lemma_section_tag(i: int, s: SlideView)
    requires
        0 <= i,
    ensures
        tame(section_tag(i, s)),
        closes(section_tag(i, s)),
{
    reveal_strlit("<section class=\"slide");
    reveal_strlit(" active");
    reveal_strlit("");
    reveal_strlit("\" data-i=\"");
    reveal_strlit("\" data-id=\"");
    reveal_strlit("\">");
    reveal_with_fuel(upto, 24);
    let open = "<section class=\"slide"@;
    assert(open.len() == 21 && open[0] == '<' && open[1] == 's');
    lemma_tame(open);
    assert(" active"@.len() == 7 && "\" data-i=\""@.len() == 10 && "\" data-id=\""@.len() == 11);
    lemma_tame(" active"@);
    lemma_tame(""@);
    lemma_tame("\" data-i=\""@);
    lemma_tame("\" data-id=\""@);
    assert("\">"@.len() == 2);
    lemma_tame("\">"@);
    lemma_dec(i as nat);
    assert(tame(dec(i as nat)));
    law_escaped_text_holds_no_markup(s.id);
    assert(tame(escaped(s.id)));
    let active = if i == 0 {
        " active"@
    } else {
        ""@
    };
    lemma_tame_both(open, active);
    lemma_tame_both(open + active, "\" data-i=\""@);
    lemma_tame_both(open + active + "\" data-i=\""@, dec(i as nat));
    lemma_tame_both(open + active + "\" data-i=\""@ + dec(i as nat), "\" data-id=\""@);
    lemma_tame_both(
        open + active + "\" data-i=\""@ + dec(i as nat) + "\" data-id=\""@,
        escaped(s.id),
    );
    lemma_tame_both(
        open + active + "\" data-i=\""@ + dec(i as nat) + "\" data-id=\""@ + escaped(s.id),
        "\">"@,
    );
}

/// A slide after others, on a line of its own.
proof fn lemma_next_line(before: Seq<char>, one: Seq<char>, m: Seq<char>)
    requires
        turning(m),
        closes(one),
        one[0] == '<',
        !holds(before, m),
        !holds(one, m),
    ensures
        !holds(before + "\n"@ + one, m),
{
    reveal_strlit("\n");
    let line = "\n"@ + one;
    assert("\n"@.len() == 1 && "\n"@[0] == '\n');
    assert(tame("\n"@));
    lemma_tame_turns_nothing("\n"@, m);
    lemma_cut("\n"@, one, m);
    lemma_cut(before, line, m);
    assert(before + "\n"@ + one =~= before + line);
}

/// Whether no slide shows anything that turns slides.
pub open spec fn quiet(slides: Seq<SlideView>, images: Seq<(Seq<char>, ImageView)>) -> bool {
    forall|i: int| 0 <= i < slides.len() ==> !turns(injected((#[trigger] slides[i]).html, images))
}

proof fn lemma_sections(slides: Seq<SlideView>, images: Seq<(Seq<char>, ImageView)>, m: Seq<char>)
    requires
        turning(m),
        quiet(slides, images),
        m == NAV_JS@ || m == button_place(),
    ensures
        !holds(sections(slides, images), m),
        !holds(print_sections(slides, images), m),
        slides.len() > 0 ==> closes(sections(slides, images)) && sections(slides, images)[0] == '<',
        slides.len() > 0 ==> closes(print_sections(slides, images)) && print_sections(
            slides,
            images,
        )[0] == '<',
    decreases slides.len(),
{
    if slides.len() == 0 {
        assert(tame(Seq::<char>::empty()));
        lemma_tame_turns_nothing(Seq::empty(), m);
    } else {
        let rest = slides.drop_last();
        let last = slides.last();
        let i = slides.len() - 1;
        assert forall|j: int| 0 <= j < rest.len() implies !turns(
            injected((#[trigger] rest[j]).html, images),
        ) by {
            assert(rest[j] == slides[j]);
        }
        lemma_sections(rest, images, m);
        assert(slides[i] == last);
        lemma_section_tag(i, last);
        lemma_section_around(section_tag(i, last), last, images, m);
        let open = "<section class=\"slide\">"@;
        reveal_strlit("<section class=\"slide\">");
        reveal_strlit("<section class=\"slide");
        assert("<section class=\"slide"@[0] == '<');
        assert(open.len() == 23 && open[0] == '<' && open[1] == 's');
        reveal_with_fuel(upto, 25);
        lemma_tame(open);
        lemma_section_around(open, last, images, m);
        if slides.len() > 1 {
            lemma_next_line(sections(rest, images), section(i, last, images), m);
            lemma_next_line(print_sections(rest, images), print_section(last, images), m);
        }
    }
}

proof fn lemma_trimmed_start_holds(s: Seq<char>, m: Seq<char>)
    requires
        holds(trimmed_start(s), m),
    ensures
        holds(s, m),
    decreases s.len(),
{
    if s.len() > 0 && white(s[0]) {
        let t = s.drop_first();
        lemma_trimmed_start_holds(t, m);
        let i = choose|i: int| #[trigger] occurs_at(t, m, i);
        assert(s.subrange(i + 1, i + 1 + m.len()) =~= t.subrange(i, i + m.len()));
        assert(occurs_at(s, m, i + 1));
    }
}

proof fn lemma_trimmed_end_holds(s: Seq<char>, m: Seq<char>)
    requires
        holds(trimmed_end(s), m),
    ensures
        holds(s, m),
    decreases s.len(),
{
    if s.len() > 0 && white(s.last()) {
        let t = s.drop_last();
        lemma_trimmed_end_holds(t, m);
        let i = choose|i: int| #[trigger] occurs_at(t, m, i);
        assert(s.subrange(i, i + m.len()) =~= t.subrange(i, i + m.len()));
        assert(occurs_at(s, m, i));
    }
}

proof fn lemma_theme(d: DeckView, m: Seq<char>)
    requires
        turning(m),
        !holds(d.theme_css, m),
    ensures
        !holds(theme_of(d), m),
{
    lemma_default_theme_css();
    lemma_tame_turns_nothing(DEFAULT_THEME_CSS@, m);
    if holds(trimmed(d.theme_css), m) {
        lemma_trimmed_end_holds(trimmed_start(d.theme_css), m);
        lemma_trimmed_start_holds(d.theme_css, m);
    }
}

/// The slides of a page, and the script after them.
proof fn lemma_rest_of_page(slides: Seq<char>, script: Seq<char>, m: Seq<char>)
    requires
        turning(m),
        slides.len() > 0 ==> closes(slides),
        !holds(slides, m),
        tame(script),
    ensures
        !holds(deck_div(slides) + script_end(script), m),
        closes(deck_div(slides) + script_end(script)),
{
    reveal_strlit("<div id=\"deck\">\n");
    reveal_strlit("\n</div>\n");
    reveal_strlit("<script>\n");
    reveal_strlit("\n</script>\n</body>\n</html>\n");
    reveal_with_fuel(upto, 30);
    let open = "<div id=\"deck\">\n"@;
    let close = "\n</div>\n"@;
    let end = "\n</script>\n</body>\n</html>\n"@;
    assert(open.len() == 16 && open[0] == '<' && open[1] == 'd');
    assert(!holds(open, m));
    if slides.len() > 0 {
        lemma_cut(open, slides, m);
    } else {
        assert(open + slides =~= open);
    }
    assert(close.len() == 8 && close[0] == '\n' && close[1] == '<' && close[2] == '/');
    lemma_tame(close);
    assert("<script>\n"@.len() == 9);
    lemma_tame("<script>\n"@);
    assert(end.len() == 27);
    lemma_tame(end);
    lemma_tame_both("<script>\n"@, script);
    lemma_tame_both("<script>\n"@ + script, end);
    let tail = close + script_end(script);
    lemma_tame_both(close, script_end(script));
    lemma_tame_turns_nothing(tail, m);
    lemma_cut(open + slides, tail, m);
    assert(deck_div(slides) + script_end(script) =~= open + slides + tail);
}

/// What stands before the slides of a page: a head, the theme, and further rules.
proof fn lemma_page(
    head: Seq<char>,
    theme: Seq<char>,
    rules: Seq<char>,
    rest: Seq<char>,
    m: Seq<char>,
)
    requires
        turning(m),
        tame(head),
        head.len() >= 2,
        head[head.len() - 2] == '/',
        head[head.len() - 1] == '\n',
        !holds(theme, m),
        tame(rules),
        closes(rules),
        !holds(rest, m),
        closes(rest),
    ensures
        !holds(head + theme + rules + rest, m),
{
    lemma_tame_turns_nothing(rules, m);
    lemma_cut(theme, rules, m);
    lemma_cut(theme + rules, rest, m);
    lemma_after_head(head, theme + rules + rest, m);
    assert(head + theme + rules + rest =~= head + (theme + rules + rest));
}

proof fn lemma_title(d: DeckView)
    ensures
        tame(title_of(d)),
{
    law_escaped_text_holds_no_markup(
        if d.title.len() == 0 {
            "Untitled Deck"@
        } else {
            d.title
        },
    );
}

/// The end of a head: the rules that all pages share.
proof fn lemma_head_end(start: Seq<char>)
    requires
        tame(start),
    ensures
        ({
            let head = start + "</title>\n<style>\n"@ + BASE_CSS@ + "\n\n/* theme */\n"@;
            tame(head) && head.len() >= 2 && head[head.len() - 2] == '/' && head[head.len() - 1]
                == '\n'
        }),
{
    reveal_strlit("</title>\n<style>\n");
    reveal_strlit("\n\n/* theme */\n");
    reveal_with_fuel(upto, 20);
    let close = "</title>\n<style>\n"@;
    let mark = "\n\n/* theme */\n"@;
    assert(close.len() == 17);
    lemma_tame(close);
    assert(mark.len() == 14 && mark[12] == '/' && mark[13] == '\n');
    lemma_tame(mark);
    lemma_base_css();
    lemma_tame_both(start, close);
    lemma_tame_both(start + close, BASE_CSS@);
    lemma_tame_both(start + close + BASE_CSS@, mark);
}

proof fn lemma_editor_head(d: DeckView)
    ensures
        ({
            let head = page_head(d, " \u{2014} editor"@);
            tame(head) && head.len() >= 2 && head[head.len() - 2] == '/' && head[head.len() - 1]
                == '\n'
        }),
{
    reveal_strlit("<!doctype html>\n<html lang=\"en\">\n<head>\n<meta charset=\"utf-8\">\n<meta name=\"viewport\" content=\"width=device-width,initial-scale=1\">\n<title>");
    reveal_strlit(" \u{2014} editor");
    reveal_with_fuel(upto, 42);
    let open = "<!doctype html>\n<html lang=\"en\">\n<head>\n<meta charset=\"utf-8\">\n<meta name=\"viewport\" content=\"width=device-width,initial-scale=1\">\n<title>"@;
    let name = " \u{2014} editor"@;
    let f = tame_at(open);
    assert(upto(f, 40));
    assert(upto(f, 80));
    assert(upto(f, 120));
    lemma_tame(open);
    assert(name.len() == 9);
    lemma_tame(name);
    lemma_title(d);
    lemma_tame_both(open, title_of(d));
    lemma_tame_both(open + title_of(d), name);
    lemma_head_end(open + title_of(d) + name);
}

proof fn lemma_print_head(d: DeckView)
    ensures
        ({
            let head = print_head(d);
            tame(head) && head.len() >= 2 && head[head.len() - 2] == '/' && head[head.len() - 1]
                == '\n'
        }),
{
    reveal_strlit("<!doctype html>\n<html lang=\"en\">\n<head>\n<meta charset=\"utf-8\">\n<title>");
    reveal_with_fuel(upto, 42);
    let open = "<!doctype html>\n<html lang=\"en\">\n<head>\n<meta charset=\"utf-8\">\n<title>"@;
    assert(upto(tame_at(open), 40));
    lemma_tame(open);
    lemma_title(d);
    lemma_tame_both(open, title_of(d));
    lemma_head_end(open + title_of(d));
}

/// The rules that stand after a theme.
proof fn lemma_rules()
    ensures
        tame(editor_rules()),
        closes(editor_rules()),
        tame(print_rules()),
        closes(print_rules()),
{
    reveal_strlit("\n\n/* editor */\n");
    reveal_strlit("\n\n");
    reveal_strlit("\n</style>\n</head>\n<body>\n");
    reveal_with_fuel(upto, 30);
    let mark = "\n\n/* editor */\n"@;
    let gap = "\n\n"@;
    let end = "\n</style>\n</head>\n<body>\n"@;
    assert(mark.len() == 15 && mark[0] == '\n' && mark[1] == '\n');
    lemma_tame(mark);
    assert(gap.len() == 2 && gap[0] == '\n' && gap[1] == '\n');
    lemma_tame(gap);
    assert(end.len() == 25);
    lemma_tame(end);
    lemma_editor_css();
    lemma_print_css();
    lemma_tame_both(mark, EDITOR_CSS@);
    lemma_tame_both(mark + EDITOR_CSS@, end);
    lemma_tame_both(gap, PRINT_CSS@);
    lemma_tame_both(gap + PRINT_CSS@, end);
}

proof fn lemma_nothing_to_edit(m: Seq<char>)
    requires
        turning(m),
    ensures
        !holds(nothing_to_edit(), m),
        closes(nothing_to_edit()),
{
    reveal_strlit("<section class=\"slide active\">");
    reveal_strlit("<h1 class=\"slide-title\">No slides yet</h1></div></section>");
    reveal_with_fuel(upto, 42);
    let open = "<section class=\"slide active\">"@;
    let said = "<h1 class=\"slide-title\">No slides yet</h1></div></section>"@;
    assert(open.len() == 30 && open[0] == '<' && open[1] == 's');
    lemma_tame(open);
    assert(upto(tame_at(said), 30));
    lemma_tame(said);
    lemma_tame_turns_nothing(open, m);
    lemma_tame_turns_nothing(said, m);
    lemma_inner(said, m);
    let inner = "<div class=\"slide-inner\">"@ + said;
    lemma_cut(open, inner, m);
    assert(nothing_to_edit() =~= open + inner);
}

proof fn lemma_turns_nothing(d: DeckView, m: Seq<char>)
    requires
        turning(m),
        m == NAV_JS@ || m == button_place(),
        quiet(d.slides, d.images),
        !holds(d.theme_css, m),
    ensures
        !holds(editor_page(d), m),
        !holds(print_page(d), m),
{
    lemma_theme(d, m);
    lemma_sections(d.slides, d.images, m);
    lemma_nothing_to_edit(m);
    lemma_rules();
    lemma_editor_js();
    lemma_pdf_autoprint_js();
    lemma_rest_of_page(edited_slides(d), EDITOR_JS@, m);
    lemma_editor_head(d);
    let edit_rest = deck_div(edited_slides(d)) + script_end(EDITOR_JS@);
    let edit_head = page_head(d, " \u{2014} editor"@);
    lemma_page(edit_head, theme_of(d), editor_rules(), edit_rest, m);
    assert(editor_page(d) =~= edit_head + theme_of(d) + editor_rules() + edit_rest);
    let slides = print_sections(d.slides, d.images);
    lemma_rest_of_page(slides, PDF_AUTOPRINT_JS@, m);
    lemma_print_head(d);
    let print_rest = deck_div(slides) + script_end(PDF_AUTOPRINT_JS@);
    lemma_page(print_head(d), theme_of(d), print_rules(), print_rest, m);
    assert(print_page(d) =~= print_head(d) + theme_of(d) + print_rules() + print_rest);
}

proof fn lemma_within(a: Seq<char>, p: Seq<char>, b: Seq<char>, m: Seq<char>)
    requires
        holds(p, m),
    ensures
        holds(a + p + b, m),
{
    let i = choose|i: int| #[trigger] occurs_at(p, m, i);
    let s = a + p + b;
    assert(s.subrange(a.len() + i, a.len() + i + m.len()) =~= p.subrange(i, i + m.len()));
    assert(occurs_at(s, m, a.len() + i));
}

proof fn lemma_sections_show(
    slides: Seq<SlideView>,
    images: Seq<(Seq<char>, ImageView)>,
    i: int,
    m: Seq<char>,
)
    requires
        0 <= i < slides.len(),
        holds(injected(slides[i].html, images), m),
    ensures
        holds(sections(slides, images), m),
        holds(print_sections(slides, images), m),
    decreases slides.len(),
{
    let n = slides.len() - 1;
    let rest = slides.drop_last();
    let last = slides.last();
    let none = Seq::<char>::empty();
    let one = section(n, last, images);
    let paper = print_section(last, images);
    if i == n {
        let body = injected(last.html, images);
        lemma_within("<div class=\"slide-inner\">"@, body, "</div>"@, m);
        lemma_within(section_tag(n, last), slide_body(last, images), "</section>"@, m);
        lemma_within("<section class=\"slide\">"@, slide_body(last, images), "</section>"@, m);
        if n > 0 {
            lemma_within(sections(rest, images) + "\n"@, one, none, m);
            lemma_within(print_sections(rest, images) + "\n"@, paper, none, m);
            assert(sections(slides, images) =~= sections(rest, images) + "\n"@ + one + none);
            assert(print_sections(slides, images) =~= print_sections(rest, images) + "\n"@ + paper
                + none);
        }
    } else {
        assert(rest[i] == slides[i]);
        lemma_sections_show(rest, images, i, m);
        lemma_within(none, sections(rest, images), "\n"@ + one, m);
        lemma_within(none, print_sections(rest, images), "\n"@ + paper, m);
        assert(sections(slides, images) =~= none + sections(rest, images) + ("\n"@ + one));
        assert(print_sections(slides, images) =~= none + print_sections(rest, images) + ("\n"@
            + paper));
    }
}

proof fn lemma_start_kept(s: Seq<char>, m: Seq<char>)
    requires
        turning(m),
        holds(s, m),
    ensures
        holds(trimmed_start(s), m),
    decreases s.len(),
{
    if s.len() > 0 && white(s[0]) {
        let t = s.drop_first();
        let i = choose|i: int| #[trigger] occurs_at(s, m, i);
        lemma_occurs(s, m, i);
        assert(m[0] == s[i]);
        assert(t.subrange(i - 1, i - 1 + m.len()) =~= s.subrange(i, i + m.len()));
        assert(occurs_at(t, m, i - 1));
        lemma_start_kept(t, m);
    }
}

proof fn lemma_end_kept(s: Seq<char>, m: Seq<char>)
    requires
        turning(m),
        holds(s, m),
    ensures
        holds(trimmed_end(s), m),
    decreases s.len(),
{
    if s.len() > 0 && white(s.last()) {
        let t = s.drop_last();
        let i = choose|i: int| #[trigger] occurs_at(s, m, i);
        lemma_occurs(s, m, i);
        assert(m[m.len() - 1] == s[i + m.len() - 1]);
        assert(t.subrange(i, i + m.len()) =~= s.subrange(i, i + m.len()));
        assert(occurs_at(t, m, i));
        lemma_end_kept(t, m);
    }
}

/// What a slide or the theme shows, the pages show.
proof fn lemma_pages_show(d: DeckView, m: Seq<char>)
    requires
        turning(m),
        holds(d.theme_css, m) || exists|i: int|
            0 <= i < d.slides.len() && holds(injected((#[trigger] d.slides[i]).html, d.images), m),
    ensures
        holds(editor_page(d), m),
        holds(print_page(d), m),
{
    let edit_head = page_head(d, " \u{2014} editor"@);
    let edit_end = script_end(EDITOR_JS@);
    let slides = print_sections(d.slides, d.images);
    let print_end = script_end(PDF_AUTOPRINT_JS@);
    if holds(d.theme_css, m) {
        lemma_start_kept(d.theme_css, m);
        lemma_end_kept(trimmed_start(d.theme_css), m);
        let edit_rest = editor_rules() + deck_div(edited_slides(d)) + edit_end;
        lemma_within(edit_head, theme_of(d), edit_rest, m);
        assert(editor_page(d) =~= edit_head + theme_of(d) + edit_rest);
        let print_rest = print_rules() + deck_div(slides) + print_end;
        lemma_within(print_head(d), theme_of(d), print_rest, m);
        assert(print_page(d) =~= print_head(d) + theme_of(d) + print_rest);
    } else {
        let i = choose|i: int|
            0 <= i < d.slides.len() && holds(injected((#[trigger] d.slides[i]).html, d.images), m);
        lemma_sections_show(d.slides, d.images, i, m);
        lemma_within("<div id=\"deck\">\n"@, edited_slides(d), "\n</div>\n"@, m);
        lemma_within(
            edit_head + theme_of(d) + editor_rules(),
            deck_div(edited_slides(d)),
            edit_end,
            m,
        );
        lemma_within("<div id=\"deck\">\n"@, slides, "\n</div>\n"@, m);
        lemma_within(print_head(d) + theme_of(d) + print_rules(), deck_div(slides), print_end, m);
    }
}

/// A presented deck has both the script and the buttons.
proof fn lemma_deck_turns(d: DeckView)
    ensures
        holds(deck_page(d), NAV_JS@),
        holds(deck_page(d), button_place()),
{
    let buttons = "<button data-prev>\u{2039}</button><button data-next>\u{203a}</button></div>\n"@;
    let end = script_end(NAV_JS@);
    let after = button_place() + buttons + end;
    let n = page_tail(d).len() - after.len();
    let first = page_head(d, ""@) + theme_of(d) + page_tail(d).take(n);
    assert(page_tail(d) =~= page_tail(d).take(n) + after);
    assert(deck_page(d) =~= first + button_place() + (buttons + end));
    lemma_holds(first, button_place(), buttons + end);
    let close = "\n</script>\n</body>\n</html>\n"@;
    let before = first + button_place() + buttons + "<script>\n"@;
    assert(deck_page(d) =~= before + NAV_JS@ + close);
    lemma_holds(before, NAV_JS@, close);
}

/// Neither in the editor nor on paper is there anything that turns slides: neither the
/// presentation script nor the place of the buttons. The one exception is what a slide or
/// the theme shows of its own. A presented deck has both.
pub proof fn law_only_presented_decks_turn(d: DeckView)
    ensures
        turns(editor_page(d)) <==> turns(d.theme_css) || !quiet(d.slides, d.images),
        turns(print_page(d)) <==> turns(d.theme_css) || !quiet(d.slides, d.images),
        holds(deck_page(d), NAV_JS@),
        holds(deck_page(d), button_place()),
{
    lemma_nav_js();
    lemma_button_place();
    if quiet(d.slides, d.images) && !turns(d.theme_css) {
        lemma_turns_nothing(d, NAV_JS@);
        lemma_turns_nothing(d, button_place());
    }
    if !quiet(d.slides, d.images) {
        let i = choose|i: int|
            0 <= i < d.slides.len() && turns(injected((#[trigger] d.slides[i]).html, d.images));
        if holds(injected(d.slides[i].html, d.images), NAV_JS@) {
            lemma_pages_show(d, NAV_JS@);
        } else {
            lemma_pages_show(d, button_place());
        }
    }
    if holds(d.theme_css, NAV_JS@) {
        lemma_pages_show(d, NAV_JS@);
    }
    if holds(d.theme_css, button_place()) {
        lemma_pages_show(d, button_place());
    }
    lemma_deck_turns(d);
}

} // verus!
