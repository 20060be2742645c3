use slide_creator::images::{ImageStore, MAX_IMAGE_BYTES};
use slide_creator::refs::{preview_of, RefStore, MAX_FILE_BYTES};

#[test]
fn add_list_toggle_remove() {
    let mut s = RefStore::new();
    let m = s.add("notes.md", "# Hello\nworld");
    assert_eq!(m.id, "r1");
    assert!(m.enabled);
    assert_eq!(s.list().len(), 1);

    let manifest = s.manifest_block().unwrap();
    assert!(manifest.contains("id \"r1\""));
    assert!(manifest.contains("notes.md"));
    assert!(manifest.contains("Hello"));
    assert_eq!(s.read("r1").as_deref(), Some("# Hello\nworld"));

    assert!(s.set_enabled("r1", false));
    assert!(s.manifest_block().is_none());
    assert!(s.read("r1").is_none());

    assert!(s.remove("r1"));
    assert_eq!(s.list().len(), 0);
}

#[test]
fn manifest_lists_all_enabled_with_preview_and_read_is_gated() {
    let mut s = RefStore::new();
    s.add("a.md", "alpha content about widgets");
    let b = s.add("b.txt", "beta notes");
    s.set_enabled(&b.id, false);

    let manifest = s.manifest_block().unwrap();
    assert!(manifest.contains("id \"r1\""));
    assert!(manifest.contains("a.md"));
    assert!(manifest.contains("alpha content about widgets"));
    assert!(!manifest.contains("b.txt"));

    assert!(s.read("r1").is_some());
    assert!(s.read("r2").is_none());
    assert!(s.read("nope").is_none());
}

#[test]
fn ids_increment_and_names_sanitized() {
    let mut s = RefStore::new();
    s.add("../../etc/passwd", "x");
    let m2 = s.add("b.txt", "y");
    assert_eq!(m2.id, "r2");
    assert_eq!(s.list()[0].name, "passwd");
}

#[test]
fn add_update_remove() {
    let mut s = ImageStore::new();
    let m = s.add("logo.png", "data:image/png;base64,AAAA", "company logo").unwrap();
    assert_eq!(m.id, "lib1");
    assert!(m.enabled);
    assert_eq!(m.pinned_slide, 0);
    assert_eq!(m.description, "company logo");

    let en = s.enabled_images();
    assert_eq!(en.len(), 1);
    assert_eq!(en[0].data_uri, "data:image/png;base64,AAAA");

    assert!(s.update("lib1", Some(false), Some("new desc".into()), Some(3)));
    let m2 = &s.list()[0];
    assert_eq!(m2.description, "new desc");
    assert_eq!(m2.pinned_slide, 3);
    assert!(!m2.enabled);
    assert!(s.enabled_images().is_empty());

    assert!(s.remove("lib1"));
    assert_eq!(s.list().len(), 0);
}

#[test]
fn rejects_non_data_uri_and_sanitizes_name() {
    let mut s = ImageStore::new();
    assert!(s.add("x.png", "http://evil/x.png", "").is_err());
    let m = s.add("../../secret.png", "data:image/png;base64,AAAA", "").unwrap();
    assert_eq!(m.name, "secret.png");
}

#[test]
fn a_ref_is_kept_up_to_the_limit() {
    let mut s = RefStore::new();
    let long = "é".repeat(MAX_FILE_BYTES);
    let m = s.add("", &long);
    assert_eq!(m.name, "untitled.txt");
    assert_eq!(m.bytes, MAX_FILE_BYTES);
    assert_eq!(s.read("r1").unwrap().len(), MAX_FILE_BYTES);
    let odd = format!("a{}", long);
    let m = s.add("odd.txt", &odd);
    assert_eq!(m.bytes, MAX_FILE_BYTES - 1);
}

#[test]
fn a_removed_ref_is_gone_and_its_number_too() {
    let mut s = RefStore::new();
    s.add("a", "1");
    s.add("b", "2");
    s.add("c", "3");
    assert!(s.remove("r2"));
    assert!(!s.remove("r2"));
    assert!(!s.set_enabled("r2", true));
    assert!(s.read("r2").is_none());
    assert_eq!(s.read("r3").as_deref(), Some("3"));
    assert_eq!(s.add("d", "4").id, "r4");
    assert_eq!(s.top_id(), 4);
}

#[test]
fn a_ref_without_its_file_has_no_preview() {
    let mut s = RefStore::new();
    s.add("a.md", "text");
    s.files.remove("r1");
    assert!(s.read("r1").is_none());
    assert!(s.manifest_block().unwrap().ends_with("- id \"r1\" — a.md (4 B): \n"));
    s.hold("r1", "found".to_string());
    assert!(s.manifest_block().unwrap().ends_with("- id \"r1\" — a.md (4 B): found\n"));
}

#[test]
fn the_manifest_says_nothing_of_what_is_off() {
    let mut s = RefStore::new();
    s.add("a", "1");
    let alone = s.manifest_block();
    s.add("b", "2");
    s.set_enabled("r2", false);
    assert_eq!(s.manifest_block(), alone);
    s.set_enabled("r2", true);
    assert_ne!(s.manifest_block(), alone);
}

#[test]
fn previews_are_short() {
    assert_eq!(preview_of(" a\n\n b "), "a b");
    let p = preview_of(&"x".repeat(300));
    assert_eq!(p, format!("{}…", "x".repeat(240)));
    assert_eq!(preview_of(&"x".repeat(240)), "x".repeat(240));
}

#[test]
fn images_are_refused_with_a_reason() {
    let mut s = ImageStore::new();
    assert_eq!(s.add("x", "http:", "").unwrap_err(), "expected a data: URI");
    let big = format!("data:{}", "a".repeat(MAX_IMAGE_BYTES));
    assert_eq!(s.add("x", &big, "").unwrap_err(), "image too large");
    let fits = format!("data:{}", "a".repeat(MAX_IMAGE_BYTES - 5));
    assert_eq!(s.add("", &fits, " d ").unwrap().bytes, MAX_IMAGE_BYTES);
    assert_eq!(s.list()[0].name, "image");
    assert_eq!(s.list()[0].description, "d");
}

#[test]
fn an_update_leaves_out_what_is_not_given() {
    let mut s = ImageStore::new();
    s.add("a", "data:1", "one").unwrap();
    s.add("b", "data:2", "two").unwrap();
    assert!(s.update("lib2", None, None, Some(7)));
    assert!(!s.update("lib9", Some(false), None, None));
    let l = s.list();
    assert_eq!((l[1].description.as_str(), l[1].enabled, l[1].pinned_slide), ("two", true, 7));
    assert_eq!((l[0].description.as_str(), l[0].enabled, l[0].pinned_slide), ("one", true, 0));
}

#[test]
fn an_image_without_its_data_is_not_offered() {
    let mut s = ImageStore::new();
    s.add("a", "data:1", "").unwrap();
    s.add("b", "data:2", "").unwrap();
    s.files.remove("lib1");
    let en = s.enabled_images();
    assert_eq!(en.len(), 1);
    assert_eq!(en[0].meta.id, "lib2");
    assert_eq!(s.read_data_uri("lib1"), None);
    s.hold("lib1", "data:3".to_string());
    assert_eq!(s.read_data_uri("lib1").as_deref(), Some("data:3"));
    assert!(s.remove("lib1"));
    assert_eq!(s.read_data_uri("lib1"), None);
    assert_eq!(s.top_id(), 2);
}
