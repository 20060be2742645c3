use serde_json::Value;
use slide_creator::config::AppConfig;
use slide_creator::deck::Deck;
use slide_creator::images::{ImageStore, MAX_IMAGE_BYTES};
use slide_creator::refs::{RefStore, MAX_FILE_BYTES};
use slide_creator::relay::editor::{
    add_editor_image, answer_edits, answer_image, apply_edits, get_deck, load_deck, plan_image,
    saved_page, take_image, DeckPost, EditorImagePost, ImagePlan, SlideEdit,
};
use slide_creator::relay::library::{
    answer_stored, delete_image, delete_ref, described_by, get_image_data, get_images, get_refs,
    looks_textual, patch_image, patch_ref, plan_upload, post_image, post_ref, UploadPlan,
};
use slide_creator::relay::settings::{change_config, get_config, healthz, post_config, ConfigPost};
use slide_creator::relay::windows::{export_url, opened, page_url, refuse_window, window_url};
use slide_creator::relay::workspaces::{answer_created, answer_saved};
use slide_creator::relay::{ok, Answer};
use slide_creator::render::render_deck_html;

fn json(text: &str) -> Value {
    serde_json::from_str(text).unwrap()
}

fn some(t: &str) -> Option<String> {
    Some(t.to_string())
}

fn seed() -> String {
    r#"{
        "title": "Demo",
        "theme_css": "body{background:#101}",
        "slides": [
            {"id": "s1", "title": "Title", "html": "<h1 class=\"slide-title\">Original</h1>"},
            {"id": "s2", "title": "Two", "html": "<ul class=\"bullets\"><li>a</li></ul>"}
        ],
        "images": [],
        "_seq": 2, "_img_seq": 0
    }"#
    .to_string()
}

#[test]
fn editor_round_trip() {
    let mut d = load_deck(Some(&seed())).unwrap();
    let deck = get_deck(&d);
    assert_eq!(deck["title"], "Demo");
    assert_eq!(deck["slides"].as_array().unwrap().len(), 2);
    let editor_html = deck["editor_html"].as_str().unwrap();
    assert!(editor_html.contains("ed-serialize"));
    assert!(editor_html.contains("Original"));

    let edit = SlideEdit {
        id: "s1".into(),
        html: some("<h1 class=\"slide-title\" style=\"color: rgb(255,0,0);\">EDITED</h1>"),
        title: None,
    };
    let body = DeckPost { title: some("Demo"), slides: Some(vec![edit]) };
    let updated = apply_edits(&mut d, &body);
    let save = answer_edits(updated, d.slides.len(), Ok(()));
    assert_eq!(save.status, 200);
    assert_eq!(save.body["ok"], true);
    assert_eq!(save.body["updated"], 1);

    let on_disk = d.to_full_json();
    assert!(on_disk["slides"][0]["html"].as_str().unwrap().contains("EDITED"));
    assert!(on_disk["slides"][1]["html"].as_str().unwrap().contains("<li>a</li>"));

    let html = render_deck_html(&d);
    assert!(html.contains("EDITED"));
    assert!(html.contains("deck-nav"));
    assert!(!html.contains("ed-serialize"));

    let post = EditorImagePost {
        prompt: None,
        size: None,
        data_uri: some("data:image/png;base64,ZZZZ"),
    };
    let uri = match plan_image(&post, None) {
        ImagePlan::Take(u) => u,
        _ => panic!("not taken"),
    };
    let img = add_editor_image(&mut d, None, &uri);
    assert_eq!(img.body["ok"], true);
    assert_eq!(img.body["image_id"].as_str().unwrap(), "img1");
    let on_disk2 = d.to_full_json();
    let images = on_disk2["images"].as_array().unwrap();
    assert_eq!(images.len(), 1);
    assert_eq!(images[0]["data_uri"], "data:image/png;base64,ZZZZ");
    assert_eq!(images[0]["prompt"], "uploaded image");
}

#[test]
fn refs_round_trip() {
    let mut store = RefStore::new();
    assert_eq!(get_refs(&store)["refs"].as_array().unwrap().len(), 0);

    let up = post_ref(&mut store, some("brief.md"), "# Q3 Brief\nRevenue up 20%.");
    assert_eq!(up.body["ok"], true);
    let id = up.body["ref"]["id"].as_str().unwrap().to_string();
    assert_eq!(up.body["ref"]["enabled"], true);

    let bad = post_ref(&mut store, some("x.png"), "\u{0}\u{0}binary");
    assert_eq!(bad.status, 415);

    let manifest = store.manifest_block().unwrap();
    assert!(manifest.contains("brief.md"));
    assert!(manifest.contains(&format!("id \"{id}\"")));
    assert_eq!(store.read(&id).as_deref(), Some("# Q3 Brief\nRevenue up 20%."));

    let patch = patch_ref(&mut store, &id, false);
    assert_eq!(patch.body["ok"], true);
    assert!(store.manifest_block().is_none());
    assert!(store.read(&id).is_none());

    let del = delete_ref(&mut store, &id);
    assert_eq!(del.body["ok"], true);
    assert_eq!(get_refs(&store)["refs"].as_array().unwrap().len(), 0);
}

#[test]
fn images_round_trip() {
    let mut store = ImageStore::new();
    let uri = "data:image/png;base64,AAAA";
    let said = match plan_upload(uri, some("the engineering team on a rooftop"), None) {
        UploadPlan::Store(d) => d,
        _ => panic!("not stored"),
    };
    let up = post_image(&mut store, some("team.png"), uri, &said);
    assert_eq!(up.body["ok"], true);
    let id = up.body["image"]["id"].as_str().unwrap().to_string();
    assert_eq!(id, "lib1");
    assert_eq!(up.body["image"]["description"], "the engineering team on a rooftop");
    assert_eq!(up.body["image"]["enabled"], true);
    assert_eq!(up.body["image"]["pinned_slide"], 0);

    match plan_upload("data:text/plain;base64,AAAA", None, None) {
        UploadPlan::Refuse(a) => assert_eq!(a.status, 415),
        _ => panic!("not refused"),
    }

    let list = get_images(&store);
    assert_eq!(list["images"].as_array().unwrap().len(), 1);
    assert!(list["images"][0].get("data_uri").is_none());

    let data = get_image_data(&store, &id);
    assert_eq!(data.body["data_uri"], "data:image/png;base64,AAAA");

    let patch = patch_image(&mut store, &id, None, some("rooftop team photo, golden hour"), Some(2));
    assert_eq!(patch.body["ok"], true);

    let en = store.enabled_images();
    assert_eq!(en.len(), 1);
    assert_eq!(en[0].meta.pinned_slide, 2);
    assert_eq!(en[0].meta.description, "rooftop team photo, golden hour");
    assert_eq!(en[0].data_uri, "data:image/png;base64,AAAA");

    patch_image(&mut store, &id, Some(false), None, None);
    assert!(store.enabled_images().is_empty());

    let del = delete_image(&mut store, &id);
    assert_eq!(del.body["ok"], true);
    assert_eq!(get_images(&store)["images"].as_array().unwrap().len(), 0);
}

#[test]
fn decks_that_were_not_saved_are_empty() {
    assert_eq!(load_deck(None).unwrap().title, "Untitled Deck");
    assert_eq!(load_deck(Some("{")).unwrap().title, "Untitled Deck");
    assert!(load_deck(Some(r#"{"_seq": 4294967295, "slides": [{}]}"#)).is_none());
    assert!(saved_page(None).contains("No deck yet"));
    assert_eq!(saved_page(some("<p>")), "<p>");
}

#[test]
fn edits_meet_the_slides_that_they_name() {
    let mut d = load_deck(Some(&seed())).unwrap();
    let edits = vec![
        SlideEdit { id: "s2".into(), html: None, title: some(" New ") },
        SlideEdit { id: "nope".into(), html: some("x"), title: None },
        SlideEdit { id: "s2".into(), html: some("h"), title: None },
    ];
    let body = DeckPost { title: some("  "), slides: Some(edits) };
    assert_eq!(apply_edits(&mut d, &body), 2);
    assert_eq!(d.title, "Demo");
    assert_eq!((d.slides[1].title.as_str(), d.slides[1].html.as_str()), ("New", "h"));
    assert_eq!(d.slides[0].title, "Title");
    assert_eq!(d.theme_css, "body{background:#101}");
    assert_eq!(apply_edits(&mut d, &DeckPost { title: some(" T "), slides: None }), 0);
    assert_eq!(d.title, "T");
    let a = answer_edits(1, 2, Err("disk full".to_string()));
    assert_eq!((a.status, a.body.to_string()), (500, r#"{"error":"disk full","ok":false}"#.to_string()));
    assert_eq!(answer_edits(1, 2, Ok(())).body, json(r#"{"ok": true, "updated": 1, "slides": 2}"#));
}

#[test]
fn what_is_done_about_an_image() {
    let mut c = AppConfig::default();
    let ask = EditorImagePost { prompt: some(" a cat "), size: None, data_uri: some("  ") };
    match plan_image(&ask, Some(&c)) {
        ImagePlan::Refuse(a) => {
            assert_eq!((a.status, a.body["error"].as_str()), (400, Some("not configured")))
        }
        _ => panic!("not refused"),
    }
    c.api_key = "k".into();
    match plan_image(&ask, Some(&c)) {
        ImagePlan::Make(p, s) => assert_eq!((p.as_str(), s.as_str()), ("a cat", "1536x1024")),
        _ => panic!("not made"),
    }
    let sized = EditorImagePost { prompt: some("a"), size: some("1x1"), data_uri: None };
    assert!(matches!(plan_image(&sized, Some(&c)), ImagePlan::Make(_, s) if s == "1x1"));
    let empty = EditorImagePost { prompt: some(" "), size: None, data_uri: None };
    match plan_image(&empty, Some(&c)) {
        ImagePlan::Refuse(a) => assert_eq!(a.body["error"], "need prompt or data_uri"),
        _ => panic!("not refused"),
    }
    let mut d = Deck::new();
    let a = add_editor_image(&mut d, some(" a cat "), "data:x");
    assert_eq!(a.body, json(r#"{"ok": true, "image_id": "img1", "data_uri": "data:x"}"#));
    assert_eq!(d.image("img1").unwrap().prompt, "a cat");
}

#[test]
fn files_are_taken_for_text() {
    assert!(looks_textual(&some("A.MD"), "\u{0}"));
    assert!(looks_textual(&some("a.markdown"), "\u{0}"));
    assert!(looks_textual(&some("a.text"), "\u{0}"));
    assert!(looks_textual(&some("a.txt"), "\u{0}"));
    assert!(!looks_textual(&some("a.png"), "\u{0}"));
    assert!(!looks_textual(&None, "\u{0}"));
    assert!(looks_textual(&None, "text"));
    assert!(looks_textual(&some("docs.d/NOTES"), "text"));
    assert!(looks_textual(&some(".notes"), "text"));
    assert!(!looks_textual(&some("NOTES"), "\u{0}"));
    assert!(!looks_textual(&some("a.png"), "text"));
    let mut s = RefStore::new();
    let a = post_ref(&mut s, None, &"a".repeat(MAX_FILE_BYTES + 1));
    assert_eq!((a.status, a.body["error"].as_str()), (413, Some("file too large")));
    let a = post_ref(&mut s, None, &"a".repeat(MAX_FILE_BYTES));
    assert_eq!(a.status, 200);
    assert_eq!(a.body["ref"]["bytes"], MAX_FILE_BYTES);
    assert_eq!(a.body["ref"]["name"], "untitled.txt");
    let a = patch_ref(&mut s, "r7", true);
    assert_eq!((a.status, a.body["error"].as_str()), (404, Some("not found")));
    assert_eq!(delete_ref(&mut s, "r7").status, 404);
}

#[test]
fn uploads_are_described() {
    let mut c = AppConfig::default();
    let uri = "data:image/png;base64,AA";
    assert!(matches!(plan_upload(uri, None, Some(&c)), UploadPlan::Store(d) if d.is_empty()));
    c.api_key = "k".into();
    assert!(matches!(plan_upload(uri, some(" "), Some(&c)), UploadPlan::Describe));
    assert!(matches!(plan_upload(uri, some(" x "), Some(&c)), UploadPlan::Store(d) if d == "x"));
    let big = format!("data:image/{}", "a".repeat(MAX_IMAGE_BYTES));
    match plan_upload(&big, None, Some(&c)) {
        UploadPlan::Refuse(a) => {
            assert_eq!((a.status, a.body["error"].as_str()), (413, Some("image too large")))
        }
        _ => panic!("not refused"),
    }
    assert_eq!(described_by(Ok("a cat".to_string())), "a cat");
    assert_eq!(described_by(Err("no".to_string())), "");
    let mut s = ImageStore::new();
    let a = post_image(&mut s, None, "http:", "");
    assert_eq!((a.status, a.body["error"].as_str()), (500, Some("expected a data: URI")));
    let a = post_image(&mut s, None, uri, "");
    assert_eq!(a.body["image"]["name"], "image");
    assert_eq!(get_image_data(&s, "lib9").status, 404);
    assert_eq!(patch_image(&mut s, "lib9", None, None, None).status, 404);
    assert_eq!(delete_image(&mut s, "lib9").status, 404);
}

fn nothing() -> ConfigPost {
    ConfigPost {
        provider: None,
        api_key: None,
        openai_base_url: None,
        azure_endpoint: None,
        azure_api_version: None,
        image_api_version: None,
        realtime_model: None,
        slide_model: None,
        image_model: None,
        voice: None,
        reasoning_effort: None,
    }
}

#[test]
fn the_key_is_never_shown() {
    let mut c = AppConfig::default();
    assert_eq!(get_config(None), get_config(Some(&c)));
    assert_eq!(get_config(Some(&c))["api_key_set"], false);
    c.api_key = "sk-one".into();
    let one = get_config(Some(&c));
    assert!(!one.to_string().contains("sk-one"));
    assert_eq!(one["api_key_set"], true);
    assert_eq!(one["configured"], true);
    assert_eq!(one["provider"], "openai");
    c.api_key = "sk-two".into();
    assert_eq!(get_config(Some(&c)), one);
    assert_eq!(healthz(Some(&c)), json(r#"{"status": "ok", "configured": true}"#));
    assert_eq!(healthz(None)["configured"], false);
}

#[test]
fn settings_are_changed() {
    let mut c = AppConfig::default();
    c.api_key = "old".into();
    let same = change_config(Some(&c), nothing());
    assert_eq!(get_config(Some(&same)), get_config(Some(&c)));
    assert_eq!(same.api_key, "old");
    let mut p = nothing();
    p.provider = some("Azure");
    p.api_key = some("  ");
    p.openai_base_url = some(" ");
    p.azure_endpoint = some(" https://a/ ");
    p.voice = some("verse");
    p.slide_model = some("");
    let next = change_config(Some(&c), p);
    assert_eq!(next.api_key, "old");
    assert_eq!(next.provider.as_str(), "azure");
    assert_eq!(next.openai_base_url, "https://api.openai.com/v1");
    assert_eq!(next.azure_endpoint, "https://a");
    assert_eq!(next.voice, "verse");
    assert_eq!(next.slide_model, "");
    assert_eq!(next.image_model, "gpt-image-2");
    let mut p = nothing();
    p.api_key = some(" new ");
    p.openai_base_url = some("http://p/v1/");
    let next = change_config(None, p);
    assert_eq!(next.api_key, "new");
    assert_eq!(next.openai_base_url, "http://p/v1");
    let (kept, a) = post_config(Some(c.clone()), next.clone(), Err("denied".to_string()));
    assert_eq!((a.status, a.body["error"].as_str()), (500, Some("denied")));
    assert_eq!(kept.unwrap().api_key, "old");
    let (kept, a) = post_config(Some(c), next, Ok(()));
    assert_eq!((a.status, a.body.to_string()), (200, r#"{"configured":true,"ok":true}"#.to_string()));
    assert_eq!(kept.unwrap().api_key, "new");
}

#[test]
fn windows_open_on_the_relay() {
    assert_eq!(
        export_url(Some("127.0.0.1:5000")),
        "http://127.0.0.1:5000/slides/deck.pdf.html?print=1"
    );
    assert_eq!(page_url(None, "/editor"), "http://127.0.0.1/editor");
    assert_eq!(window_url(true, Some("h:1"), "/editor").ok().unwrap(), "http://h:1/editor");
    let a = window_url(false, Some("h"), "/editor").err().unwrap();
    assert_eq!((a.status, a.body["error"].as_str()), (503, Some("no app handle")));
    let a = window_url(true, Some("h:x"), "/editor").err().unwrap();
    assert_eq!((a.status, a.body["error"].as_str()), (400, Some("bad url: invalid port number")));
    assert!(refuse_window(true, Ok(None)).is_none());
    assert_eq!(refuse_window(true, Err("e".to_string())).unwrap().body["error"], "bad url: e");
    assert_eq!(opened(Ok(())).status, 200);
    let a = opened(Err("open failed: e".to_string()));
    assert_eq!((a.status, a.body["error"].as_str()), (500, Some("open failed: e")));
}

#[test]
fn what_could_not_be_saved_is_answered() {
    let told = |a: Answer| (a.status, a.body.to_string());
    let lost = || Err("disk full".to_string());
    let done = (200, r#"{"ok":true}"#.to_string());
    let why = r#"{"error":"disk full","ok":false}"#.to_string();
    assert_eq!(told(answer_stored(Ok(ok()))), done);
    assert_eq!(told(answer_stored(lost())), (500, why.clone()));
    assert_eq!(told(answer_created(Ok(ok()))), done);
    assert_eq!(told(answer_created(lost())), (500, why.clone()));
    assert_eq!(told(answer_saved(Ok(ok()))), done);
    assert_eq!(told(answer_saved(lost())), (400, why.clone()));
    assert_eq!(told(answer_image(Ok(ok()))), done);
    assert_eq!(told(answer_image(lost())), (500, why.clone()));
    assert!(matches!(take_image(Ok("data:x".to_string())), Ok(u) if u == "data:x"));
    match take_image(Err("disk full".to_string())) {
        Err(a) => assert_eq!(told(a), (502, why)),
        Ok(_) => panic!("an image"),
    }
}
