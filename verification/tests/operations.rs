use serde_json::Value;
use slide_creator::deck::{Deck, Image, Slide};
use slide_creator::ops::{
    dispatch, ids_suffice, op_add_slide, op_delete_slide, op_edit_slide, op_move_slide,
    op_set_theme, op_set_title, op_write_deck,
};

fn json(text: &str) -> Value {
    serde_json::from_str(text).unwrap()
}

fn deck() -> Deck {
    let mut d = Deck::new();
    for t in ["One", "Two", "Three"] {
        let id = d.new_id();
        d.slides.push(Slide { id, title: t.to_string(), html: format!("<p>{t}</p>") });
    }
    d.title = "Talk".into();
    d.theme_css = "body{}".into();
    d
}

fn ids(d: &Deck) -> Vec<&str> {
    d.slides.iter().map(|s| s.id.as_str()).collect()
}

fn refuses(d: &mut Deck, name: &str, args: &str, error: &str) {
    let before = d.to_full_json();
    let r = dispatch(d, name, &json(args));
    assert_eq!(r["ok"], false);
    assert_eq!(r["error"], error);
    assert_eq!(d.to_full_json(), before);
}

#[test]
fn writing_replaces_everything_but_the_images() {
    let mut d = deck();
    d.insert_image("img1".into(), Image { data_uri: "data:a".into(), prompt: "p".into() });
    let r = op_write_deck(
        &mut d,
        &json(
            r#"{"title": "  ", "theme_css": "h1{}", "slides": [
                {"title": " New ", "html": "<b>"}, {"html": 5}]}"#,
        ),
    );
    assert_eq!(r, json(r#"{"ok": true, "desc": "rebuilt deck (2 slides)"}"#));
    assert_eq!(ids(&d), vec!["s4", "s5"]);
    assert_eq!(d.title, "New");
    assert_eq!(d.theme_css, "h1{}");
    assert_eq!(d.slides[0].title, "New");
    assert_eq!(d.slides[0].html, "<b>");
    assert_eq!((d.slides[1].title.as_str(), d.slides[1].html.as_str()), ("", ""));
    assert_eq!(d.images.len(), 1);
    assert_eq!(d.seq, 5);
    op_write_deck(&mut d, &json("{}"));
    assert_eq!(d.title, "Untitled Deck");
    assert!(d.slides.is_empty());
}

#[test]
fn a_slide_is_added_where_it_is_asked_for() {
    let mut d = deck();
    let r = op_add_slide(&mut d, &json(r#"{"title": " A ", "html": "x", "after_id": " s1 "}"#));
    assert_eq!(r, json("{\"ok\": true, \"desc\": \"added slide \u{201c}A\u{201d}\", \"id\": \"s4\"}"));
    assert_eq!(ids(&d), vec!["s1", "s4", "s2", "s3"]);
    op_add_slide(&mut d, &json(r#"{"title": "B", "after_id": "nope"}"#));
    assert_eq!(ids(&d), vec!["s1", "s4", "s2", "s3", "s5"]);
    assert_eq!(d.title, "Talk");
    let mut e = Deck::new();
    op_add_slide(&mut e, &json(r#"{"title": ""}"#));
    assert_eq!(e.title, "Untitled Deck");
    op_add_slide(&mut e, &json(r#"{"title": "First"}"#));
    assert_eq!(e.title, "First");
}

#[test]
fn an_edit_changes_one_slide() {
    let mut d = deck();
    let r = op_edit_slide(&mut d, &json(r#"{"id": "s2", "title": " T ", "html": "h"}"#));
    assert_eq!(r["desc"], "edited slide 2 (title/content)");
    assert_eq!((d.slides[1].title.as_str(), d.slides[1].html.as_str()), ("T", "h"));
    assert_eq!(op_edit_slide(&mut d, &json(r#"{"id": "s1", "title": "x"}"#))["desc"], "edited slide 1 (title)");
    assert_eq!(op_edit_slide(&mut d, &json(r#"{"id": "s3", "html": "y"}"#))["desc"], "edited slide 3 (content)");
    assert_eq!(d.slides[2].title, "Three");
    assert_eq!(ids(&d), vec!["s1", "s2", "s3"]);
    refuses(&mut d, "edit_slide", r#"{"id": "s1"}"#, "nothing to change");
    refuses(&mut d, "edit_slide", r#"{"id": "a\"b", "html": ""}"#, "no slide with id \"a\\\"b\"");
}

#[test]
fn a_slide_is_deleted() {
    let mut d = deck();
    let r = op_delete_slide(&mut d, &json(r#"{"id": "s2"}"#));
    assert_eq!(r["desc"], "deleted slide \u{201c}Two\u{201d}");
    assert_eq!(ids(&d), vec!["s1", "s3"]);
    refuses(&mut d, "delete_slide", r#"{"id": "s2"}"#, "no slide with id \"s2\"");
}

#[test]
fn a_slide_is_moved_within_the_deck() {
    let mut d = deck();
    let r = op_move_slide(&mut d, &json(r#"{"id": "s1", "to_index": 99}"#));
    assert_eq!(r["desc"], "moved slide to position 3");
    assert_eq!(ids(&d), vec!["s2", "s3", "s1"]);
    op_move_slide(&mut d, &json(r#"{"id": "s1", "to_index": -4}"#));
    assert_eq!(ids(&d), vec!["s1", "s2", "s3"]);
    op_move_slide(&mut d, &json(r#"{"id": "s3", "to_index": 1}"#));
    assert_eq!(ids(&d), vec!["s1", "s3", "s2"]);
    let r = op_move_slide(&mut d, &json(r#"{"id": "s3", "to_index": 1.5}"#));
    assert_eq!(r["desc"], "moved slide to position 2");
    op_move_slide(&mut d, &json(r#"{"id": "s3", "to_index": 18446744073709551615}"#));
    assert_eq!(ids(&d), vec!["s1", "s3", "s2"]);
    refuses(&mut d, "move_slide", "{}", "no slide with id \"\"");
}

#[test]
fn the_theme_and_the_title() {
    let mut d = deck();
    assert_eq!(op_set_theme(&mut d, &json(r#"{"theme_css": " a{} "}"#))["desc"], "restyled the deck");
    assert_eq!(d.theme_css, " a{} ");
    assert_eq!(
        op_set_title(&mut d, &json(r#"{"title": " New "}"#))["desc"],
        "renamed deck to \u{201c}New\u{201d}"
    );
    assert_eq!(d.title, "New");
    assert_eq!(d.slides.len(), 3);
    refuses(&mut d, "set_theme", r#"{"theme_css": " "}"#, "empty theme_css");
    refuses(&mut d, "set_title", r#"{"title": " "}"#, "empty title");
    refuses(&mut d, "fly", "{}", "unknown tool: fly");
}

#[test]
fn every_operation_can_be_dispatched() {
    for (name, args) in [
        ("write_deck", "{}"),
        ("add_slide", "{}"),
        ("edit_slide", r#"{"id": "s1", "html": ""}"#),
        ("delete_slide", r#"{"id": "s1"}"#),
        ("move_slide", r#"{"id": "s1", "to_index": 2}"#),
        ("set_theme", r#"{"theme_css": "x"}"#),
        ("set_title", r#"{"title": "x"}"#),
    ] {
        assert_eq!(dispatch(&mut deck(), name, &json(args))["ok"], true, "{name}");
    }
}

#[test]
fn ids_run_out() {
    let mut d = deck();
    d.seq = u32::MAX - 1;
    assert!(ids_suffice(&d, "add_slide", &json("{}")));
    assert!(ids_suffice(&d, "write_deck", &json(r#"{"slides": [{}]}"#)));
    assert!(!ids_suffice(&d, "write_deck", &json(r#"{"slides": [{}, {}]}"#)));
    d.seq = u32::MAX;
    assert!(!ids_suffice(&d, "add_slide", &json("{}")));
    assert!(ids_suffice(&d, "write_deck", &json("{}")));
    assert!(ids_suffice(&d, "edit_slide", &json("{}")));
}
