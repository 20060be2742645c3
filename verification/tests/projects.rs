use std::collections::HashMap;

use slide_creator::deck_json::snapshot_text;
use slide_creator::projects::{name_shown, Project, ProjectStore};
use slide_creator::relay::editor::{apply_edits, get_deck, load_deck, DeckPost};
use slide_creator::relay::workspaces::{
    activate_project, delete_project, patch_project, post_project,
};

fn none() -> Vec<String> {
    Vec::new()
}

fn listed(s: &mut ProjectStore) -> Vec<String> {
    s.list_json()["projects"]
        .as_array()
        .unwrap()
        .iter()
        .map(|p| p["id"].as_str().unwrap().to_string())
        .collect()
}

#[test]
fn the_first_look_makes_a_project() {
    let mut s = ProjectStore::new();
    assert_eq!(s.active_id(), "default");
    assert_eq!(s.projects.len(), 1);
    assert_eq!(s.projects[0].name, "Default");
    assert_eq!(s.projects[0].seq, 1);
    assert_eq!(s.ensure_initialized(), "default");
    assert_eq!(s.seq, 1);
}

#[test]
fn a_lost_active_project_is_replaced() {
    let mut s = ProjectStore::new();
    s.projects = vec![
        Project { id: "a".into(), name: "A".into(), seq: 1 },
        Project { id: "b".into(), name: "B".into(), seq: 2 },
    ];
    s.active = "gone".into();
    s.seq = 2;
    assert_eq!(s.active_id(), "a");
}

#[test]
fn new_projects_get_ids_of_their_own() {
    let mut s = ProjectStore::new();
    assert_eq!(s.create("My Talk!", &none()), "my-talk");
    assert_eq!(s.create("my talk", &none()), "my-talk-2");
    assert_eq!(s.create("MY TALK", &vec!["my-talk-3".to_string()]), "my-talk-4");
    assert_eq!(s.create("  ", &none()), "untitled-project");
    assert_eq!(s.create("???", &none()), "project");
    assert_eq!(s.create("é", &none()), "project-2");
    assert_eq!(s.create("default", &none()), "default-2");
    assert_eq!(s.active, "default-2");
    assert_eq!(s.projects.len(), 8);
    assert_eq!(s.unique_id("a", &vec!["a".to_string()]), "a-2");
}

#[test]
fn the_most_recent_comes_first() {
    let mut s = ProjectStore::new();
    s.create("a", &none());
    s.create("b", &none());
    assert_eq!(listed(&mut s), vec!["b", "a", "default"]);
    s.set_active("default").unwrap();
    assert_eq!(listed(&mut s), vec!["default", "b", "a"]);
    assert_eq!(s.list_json()["active"], "default");
}

#[test]
fn equals_stay_in_order() {
    let mut s = ProjectStore::new();
    s.projects = vec![
        Project { id: "a".into(), name: "A".into(), seq: 1 },
        Project { id: "b".into(), name: "B".into(), seq: 1 },
        Project { id: "c".into(), name: "C".into(), seq: 2 },
    ];
    s.active = "c".into();
    s.seq = 2;
    assert_eq!(listed(&mut s), vec!["c", "a", "b"]);
    s.delete("c").unwrap();
    assert_eq!(s.active, "b");
}

#[test]
fn changes_are_refused_with_a_reason() {
    let mut s = ProjectStore::new();
    s.active_id();
    assert_eq!(s.set_active("x").unwrap_err(), "unknown project");
    assert_eq!(s.rename("x", "n").unwrap_err(), "unknown project");
    assert_eq!(s.rename("x", " ").unwrap_err(), "name required");
    assert_eq!(s.delete("default").unwrap_err(), "can't delete the last project");
    s.create("a", &none());
    assert_eq!(s.delete("x").unwrap_err(), "unknown project");
    s.rename("a", " New ").unwrap();
    assert_eq!(s.projects[1].name, "New");
    s.delete("a").unwrap();
    assert_eq!(s.active, "default");
    assert_eq!(s.projects.len(), 1);
}

#[test]
fn deleting_another_keeps_the_active_one() {
    let mut s = ProjectStore::new();
    s.create("a", &none());
    s.create("b", &none());
    s.delete("a").unwrap();
    assert_eq!(s.active, "b");
}

#[test]
fn directories() {
    let s = ProjectStore::new();
    assert_eq!(s.project_dir("a"), "projects/a");
    assert_ne!(s.project_dir("a"), s.project_dir("b"));
}

#[test]
fn requests_about_projects() {
    let mut s = ProjectStore::new();
    let a = post_project(&mut s, Some("Beta".to_string()), &none());
    assert_eq!((a.status, a.body.to_string()), (200, r#"{"id":"beta","ok":true}"#.to_string()));
    let a = post_project(&mut s, None, &none());
    assert_eq!(a.body["id"], "untitled-project");
    let a = patch_project(&mut s, "beta", "Gamma");
    assert_eq!((a.status, a.body.to_string()), (200, r#"{"ok":true}"#.to_string()));
    let a = patch_project(&mut s, "beta", "");
    assert_eq!(
        (a.status, a.body.to_string()),
        (400, r#"{"error":"name required","ok":false}"#.to_string())
    );
    let a = activate_project(&mut s, "beta");
    assert_eq!(a.status, 200);
    assert_eq!(s.active, "beta");
    let a = activate_project(&mut s, "nope");
    assert_eq!(a.status, 400);
    let a = delete_project(&mut s, "nope");
    assert_eq!((a.status, a.body["error"].as_str()), (400, Some("unknown project")));
    let a = delete_project(&mut s, "beta");
    assert_eq!(a.status, 200);
    assert_eq!(s.active, "untitled-project");
}

#[test]
fn projects_isolated() {
    let mut s = ProjectStore::new();
    let mut disk: HashMap<String, String> = HashMap::new();
    let deck_json = |s: &mut ProjectStore| -> String {
        let id = s.active_id();
        format!("{}/deck.json", s.project_dir(&id))
    };

    let list = s.list_json();
    assert_eq!(list["projects"].as_array().unwrap().len(), 1);
    let default_id = list["active"].as_str().unwrap().to_string();

    let path = deck_json(&mut s);
    let mut deck = load_deck(disk.get(&path).map(|t| t.as_str())).unwrap();
    apply_edits(&mut deck, &DeckPost { title: Some("Alpha Deck".into()), slides: Some(vec![]) });
    disk.insert(path, snapshot_text(&deck));

    let created = post_project(&mut s, Some("Beta".to_string()), &none());
    assert_eq!(created.body["ok"], true);
    let beta_id = created.body["id"].as_str().unwrap().to_string();

    let path = deck_json(&mut s);
    let mut deck = load_deck(disk.get(&path).map(|t| t.as_str())).unwrap();
    let deck_b = get_deck(&deck);
    assert_ne!(deck_b["title"], "Alpha Deck");

    apply_edits(&mut deck, &DeckPost { title: Some("Beta Deck".into()), slides: Some(vec![]) });
    disk.insert(path, snapshot_text(&deck));

    assert_eq!(activate_project(&mut s, &default_id).status, 200);
    let path = deck_json(&mut s);
    let deck_a = get_deck(&load_deck(disk.get(&path).map(|t| t.as_str())).unwrap());
    assert_eq!(deck_a["title"], "Alpha Deck");

    assert!(disk.contains_key(&format!("projects/{default_id}/deck.json")));
    assert!(disk.contains_key(&format!("projects/{beta_id}/deck.json")));
}

#[test]
fn ids_suit_file_names() {
    let s = ProjectStore::new();
    assert_eq!(s.unique_id(name_shown(" ../Über Plan 2! "), &none()), "ber-plan-2");
    assert_eq!(s.unique_id(name_shown("日本"), &none()), "project");
    assert_eq!(s.unique_id(name_shown("日本"), &vec!["project".to_string()]), "project-2");
    assert_eq!(s.unique_id(name_shown("  "), &none()), "untitled-project");
}

#[test]
fn a_listing_changes_nothing() {
    let mut s = ProjectStore::new();
    assert_eq!(s.listing().to_string(), r#"{"active":"","projects":[]}"#);
    assert!(s.projects.is_empty());
    let first = s.list_json();
    assert_eq!(
        first.to_string(),
        r#"{"active":"default","projects":[{"id":"default","name":"Default"}]}"#
    );
    assert_eq!(s.listing(), first);
}
