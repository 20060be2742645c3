use serde_json::Value;
use slide_creator::assets::{EDITOR_CSS, EDITOR_JS, NAV_JS};
use slide_creator::deck::{id_set, Deck, Image, Slide};
use slide_creator::deck_json::{read_deck, snapshot_ids_fit, snapshot_text, DeckText};
use slide_creator::embed::inject_images;
use slide_creator::render::{
    esc, render_deck_editor_html, render_deck_html, render_deck_pdf_html,
};

fn json(text: &str) -> Value {
    serde_json::from_str(text).unwrap()
}

fn slide(id: &str, title: &str, html: &str) -> Slide {
    Slide { id: id.to_string(), title: title.to_string(), html: html.to_string() }
}

fn image(data_uri: &str, prompt: &str) -> Image {
    Image { data_uri: data_uri.to_string(), prompt: prompt.to_string() }
}

fn sample() -> Deck {
    let mut d = Deck::new();
    d.title = "Test".into();
    d.theme_css = "body{color:red}".into();
    d.slides = vec![
        slide("s1", "One", "<h1 class=\"slide-title\">Hello</h1>"),
        slide("s2", "Two", "<img class=\"slide-image\" data-img=\"img1\">"),
    ];
    d.insert_image("img1".into(), image("data:image/png;base64,AAAA", "x"));
    d.seq = 2;
    d.img_seq = 1;
    d
}

#[test]
fn full_json_round_trips() {
    let d = sample();
    let d2 = Deck::from_full_json(&d.to_full_json());
    assert_eq!(d2.title, "Test");
    assert_eq!(d2.slides.len(), 2);
    assert_eq!(d2.slides[0].id, "s1");
    assert_eq!(d2.seq, 2);
    assert_eq!(d2.img_seq, 1);
    assert_eq!(d2.image("img1").unwrap().data_uri, "data:image/png;base64,AAAA");
}

#[test]
fn counters_recover_from_ids_when_absent() {
    let v = json(
        r#"{
            "slides": [{"id": "s7", "title": "a", "html": "b"}],
            "images": [{"id": "img4", "data_uri": "x", "prompt": ""}]
        }"#,
    );
    let d = Deck::from_full_json(&v);
    let mut d = d;
    assert_eq!(d.new_id(), "s8");
    assert_eq!(d.new_image_id(), "img5");
}

#[test]
fn accepts_python_images_dict_shape() {
    let v = json(
        r#"{
            "title": "P",
            "slides": [],
            "images": {"img1": {"data_uri": "data:abc", "prompt": "p"}}
        }"#,
    );
    let d = Deck::from_full_json(&v);
    assert_eq!(d.image("img1").unwrap().data_uri, "data:abc");
}

#[test]
fn image_pool_upsert_reference_and_prune() {
    let mut d = Deck::new();
    d.slides = vec![slide("s1", "T", "<img class=\"slide-image\" data-img=\"lib1\">")];
    d.set_image("lib1".into(), image("data:a", "used"));
    d.set_image("lib2".into(), image("data:b", "unused"));
    d.set_image("lib1".into(), image("data:a2", "used2"));
    assert_eq!(d.images.len(), 2);
    assert_eq!(d.image("lib1").unwrap().data_uri, "data:a2");

    let referenced = d.referenced_image_ids();
    assert!(referenced.contains("lib1"));
    assert!(!referenced.contains("lib2"));

    let unused = id_set(&vec!["lib2".to_string()]);
    d.retain_images_not_in(&unused);
    assert_eq!(d.images.len(), 1);
    assert!(d.image("lib1").is_some());
    assert!(d.image("lib2").is_none());
}

#[test]
fn editor_render_has_runtime_export_does_not() {
    let d = sample();
    let eh = render_deck_editor_html(&d);
    assert!(eh.contains("ed-serialize"));
    assert!(eh.contains("contenteditable"));
    assert!(eh.contains("data-img=\"img1\" src=\"data:image/png;base64,AAAA\""));
    let ph = render_deck_html(&d);
    assert!(!ph.contains("ed-serialize"));
    assert!(ph.contains("deck-nav"));
}

#[test]
fn a_new_deck_is_empty() {
    let d = Deck::new();
    assert_eq!(d.title, "Untitled Deck");
    assert_eq!(d.theme_css, "");
    assert!(d.slides.is_empty());
    assert!(d.images.is_empty());
    assert_eq!((d.seq, d.img_seq), (0, 0));
}

#[test]
fn ids_are_minted_in_order() {
    let mut d = Deck::new();
    assert_eq!(d.new_id(), "s1");
    assert_eq!(d.new_id(), "s2");
    assert_eq!(d.new_image_id(), "img1");
    assert_eq!(d.new_image_id(), "img2");
    d.slides = vec![slide("", "a", ""), slide("s2", "b", ""), slide("", "c", "")];
    d.ensure_ids();
    let ids: Vec<&str> = d.slides.iter().map(|s| s.id.as_str()).collect();
    assert_eq!(ids, vec!["s3", "s2", "s4"]);
    assert_eq!(d.seq, 4);
}

#[test]
fn the_first_slide_with_an_id_is_found() {
    let mut d = Deck::new();
    d.slides = vec![slide("a", "1", ""), slide("b", "2", ""), slide("b", "3", "")];
    assert_eq!(d.index_of("b"), Some(1));
    assert_eq!(d.index_of("c"), None);
}

#[test]
fn a_clone_is_equal() {
    let d = sample();
    let c = d.clone();
    assert_eq!(c.to_full_json(), d.to_full_json());
}

#[test]
fn the_model_is_shown_no_data() {
    let d = sample();
    let shown = d.to_model_json();
    assert_eq!(
        shown,
        json(
            r#"{
                "title": "Test",
                "theme_css": "body{color:red}",
                "slides": [
                    {"id": "s1", "title": "One", "html": "<h1 class=\"slide-title\">Hello</h1>"},
                    {"id": "s2", "title": "Two", "html": "<img class=\"slide-image\" data-img=\"img1\">"}
                ],
                "images": [{"id": "img1", "prompt": "x"}]
            }"#
        )
    );
    let mut other = d.clone();
    other.set_image("img1".into(), image("data:image/png;base64,BBBB", "x"));
    assert_eq!(other.to_model_json(), shown);
}

#[test]
fn the_outline_holds_titles_only() {
    assert_eq!(
        sample().to_ui_json(),
        json(
            r#"{"title": "Test", "slides": [
                {"id": "s1", "title": "One"}, {"id": "s2", "title": "Two"}]}"#
        )
    );
}

#[test]
fn a_snapshot_is_read_back() {
    let d = sample();
    let text = snapshot_text(&d);
    let back: Value = serde_json::from_str(&text).unwrap();
    assert_eq!(back, d.to_full_json());
    match read_deck(&text) {
        DeckText::Deck(r) => assert_eq!(r.to_full_json(), d.to_full_json()),
        _ => panic!("no deck"),
    }
}

#[test]
fn a_text_that_is_no_json_is_no_deck() {
    assert!(matches!(read_deck("{"), DeckText::NotJson));
}

#[test]
fn a_deck_with_too_many_nameless_slides_is_told_apart() {
    let text = r#"{"_seq": 4294967295, "slides": [{"title": "a"}]}"#;
    assert!(!snapshot_ids_fit(&json(text)));
    assert!(matches!(read_deck(text), DeckText::OutOfIds));
}

#[test]
fn a_snapshot_without_ids_gets_them() {
    let d = Deck::from_full_json(&json(
        r#"{"slides": [{"title": "a"}, {"id": "s9"}, {"title": "c", "html": "h"}], "_seq": 3}"#,
    ));
    assert_eq!(d.title, "Untitled Deck");
    let ids: Vec<&str> = d.slides.iter().map(|s| s.id.as_str()).collect();
    assert_eq!(ids, vec!["s10", "s9", "s11"]);
    assert_eq!(d.seq, 11);
}

#[test]
fn images_of_a_snapshot_come_in_the_order_of_their_ids() {
    let d = Deck::from_full_json(&json(
        r#"{"images": {"img2": {"data_uri": "b"}, "img10": {"data_uri": "c"}, "img1": {"data_uri": "a"}}}"#,
    ));
    let ids: Vec<&str> = d.images.iter().map(|p| p.0.as_str()).collect();
    assert_eq!(ids, vec!["img1", "img10", "img2"]);
    assert_eq!(d.img_seq, 10);
}

#[test]
fn odd_snapshots_are_read_as_far_as_they_go() {
    let d = Deck::from_full_json(&json(r#"[1, 2]"#));
    assert_eq!(d.title, "Untitled Deck");
    assert!(d.slides.is_empty());
    let d = Deck::from_full_json(&json(r#"{"title": 5, "slides": [7], "_seq": -1, "images": "x"}"#));
    assert_eq!(d.slides.len(), 1);
    assert_eq!(d.slides[0].id, "s1");
}

#[test]
fn images_are_injected_where_they_are_referred_to() {
    let d = sample();
    assert_eq!(
        inject_images("<img data-img=\"img1\"><img data-img=\"img9\">", &d),
        "<img data-img=\"img1\" src=\"data:image/png;base64,AAAA\"><img data-img=\"img9\" data-broken=\"1\" class=\"slide-image broken\">"
    );
    assert_eq!(inject_images("no image", &d), "no image");
    assert_eq!(inject_images("data-img=\"img1", &d), "data-img=\"img1");
}

#[test]
fn titles_are_escaped() {
    assert_eq!(esc("a<b> & \"c\""), "a&lt;b&gt; &amp; &quot;c&quot;");
    let mut d = sample();
    d.title = "<script>".into();
    let page = render_deck_html(&d);
    assert!(page.contains("<title>&lt;script&gt;</title>"));
    assert!(!page.contains("<title><script>"));
}

#[test]
fn pages_do_not_change_when_unused_images_go() {
    let mut d = sample();
    d.set_image("lib3".into(), image("data:c", "never shown"));
    let (a, b, c) = (
        render_deck_html(&d),
        render_deck_pdf_html(&d),
        render_deck_editor_html(&d),
    );
    d.retain_images_not_in(&id_set(&vec!["lib3".to_string()]));
    assert_eq!(render_deck_html(&d), a);
    assert_eq!(render_deck_pdf_html(&d), b);
    assert_eq!(render_deck_editor_html(&d), c);
}

#[test]
fn the_print_page_holds_every_slide() {
    let page = render_deck_pdf_html(&sample());
    assert!(page.contains("Hello"));
    assert!(page.contains("src=\"data:image/png;base64,AAAA\""));
    assert!(page.contains("body{color:red}"));
    assert!(!page.contains("ed-serialize"));
}

#[test]
fn a_theme_changes_nothing_but_the_style() {
    let mut d = sample();
    let before = render_deck_html(&d);
    d.theme_css = "p{}".into();
    let after = render_deck_html(&d);
    assert_eq!(after, before.replace("body{color:red}", "p{}"));
    d.theme_css = "  ".into();
    let plain = render_deck_html(&d);
    let (head, tail) = before.split_once("body{color:red}").unwrap();
    assert!(plain.starts_with(head));
    assert!(plain.ends_with(tail));
}

#[test]
fn a_deck_with_library_images_is_read_back_with_its_counter_raised() {
    let mut d = sample();
    d.set_image("lib7".into(), image("data:l", "logo"));
    let back = match read_deck(&snapshot_text(&d)) {
        DeckText::Deck(b) => b,
        _ => panic!("no deck"),
    };
    assert_eq!(back.img_seq, 7);
    assert_eq!(back.seq, 2);
    d.img_seq = 7;
    assert_eq!(back.to_full_json(), d.to_full_json());
}

#[test]
fn the_editor_shows_what_is_presented() {
    let d = sample();
    let shown = render_deck_html(&d);
    let from = shown.find("<section").unwrap();
    let to = shown.rfind("</section>").unwrap() + "</section>".len();
    let slides = &shown[from..to];
    assert!(slides.contains("Hello") && slides.contains("data:image/png;base64,AAAA"));
    assert!(render_deck_editor_html(&d).contains(slides));
    assert!(render_deck_editor_html(&d).contains("/* theme */\nbody{color:red}\n"));
}

#[test]
fn only_presented_decks_turn() {
    let place = "<div class=\"deck-nav\">";
    for d in [Deck::new(), sample()] {
        let shown = render_deck_html(&d);
        assert!(shown.contains(NAV_JS) && shown.contains(place));
        for page in [render_deck_editor_html(&d), render_deck_pdf_html(&d)] {
            assert!(!page.contains(NAV_JS) && !page.contains(place));
        }
        let edited = render_deck_editor_html(&d);
        assert!(edited.contains(EDITOR_CSS) && edited.contains(EDITOR_JS));
    }
    let mut d = Deck::new();
    d.slides = vec![slide("s1", "", "<i data-img=\"a\"deck-nav\">")];
    d.insert_image("a".into(), image("<div class=", ""));
    assert!(render_deck_editor_html(&d).contains(place));
}

#[test]
fn an_empty_deck_has_its_pages() {
    let d = Deck::new();
    assert!(render_deck_html(&d).contains(
        "<div id=\"deck\">\n<section class=\"slide active\"><div class=\"slide-inner\"><div class=\"kicker\">slide deck</div>"
    ));
    assert!(render_deck_editor_html(&d).contains(
        "<div id=\"deck\">\n<section class=\"slide active\"><div class=\"slide-inner\"><h1 class=\"slide-title\">No slides yet</h1></div></section>\n</div>\n<script>\n(function(){"
    ));
    assert!(render_deck_pdf_html(&d).contains("<div id=\"deck\">\n\n</div>\n<script>\n"));
}
