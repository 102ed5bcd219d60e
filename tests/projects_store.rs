use projects_client::projects::{Msg, Projects};

fn names(store: &Projects) -> Vec<String> {
    store.projects().iter().map(|p| p.name.clone()).collect()
}

fn open_is_listed(store: &Projects) -> bool {
    store.projects().iter().any(|p| p.id == store.open_project())
}

#[test]
fn new_store_holds_one_unnamed_project() {
    let store = Projects::new();
    assert_eq!(store.projects().len(), 1);
    let p = &store.projects()[0];
    assert_eq!(p.name, "Unnamed");
    assert!(p.is_owned);
    assert!(!p.is_public);
    assert_eq!(p.data, "");
    assert_eq!(store.open_project(), p.id);
    assert!(store.window_open());
}

#[test]
fn new_project_command_adds_open_unnamed_project() {
    let mut store = Projects::new();
    let first = store.open_project();
    store.apply_update(Msg::New { name: "Unnamed".to_string(), data: None });
    assert_eq!(store.projects().len(), 2);
    let p = &store.projects()[1];
    assert_eq!(p.name, "Unnamed");
    assert!(p.is_owned);
    assert!(!p.is_public);
    assert_eq!(store.open_project(), p.id);
    assert_ne!(p.id, first);
    assert_eq!(store.current().id, p.id);
}

#[test]
fn new_project_with_payload_keeps_it() {
    let mut store = Projects::new();
    store.apply_with(Msg::New { name: "P".to_string(), data: Some("{\"a\":1}".to_string()) }, 7, 1000);
    let p = store.current();
    assert_eq!(p.id, 7);
    assert_eq!(p.created_at, 1000);
    assert_eq!(p.data, "{\"a\":1}");
    assert_eq!(p.name, "P");
}

#[test]
fn rename_touches_only_the_open_project() {
    let mut store = Projects::new();
    let a = store.open_project();
    store.apply_with(Msg::New { name: "B".to_string(), data: None }, 100, 0);
    store.apply_with(Msg::Select { id: a }, 0, 0);
    assert_eq!(store.open_project(), a);
    store.apply_with(Msg::Rename { name: "Foo".to_string() }, 0, 0);
    store.apply_with(Msg::Select { id: 100 }, 0, 0);
    store.apply_with(Msg::Rename { name: "Bar".to_string() }, 0, 0);
    assert_eq!(names(&store), vec!["Foo".to_string(), "Bar".to_string()]);
}

#[test]
fn select_of_unknown_id_is_ignored() {
    let mut store = Projects::new();
    let a = store.open_project();
    store.apply_with(Msg::Select { id: a.wrapping_add(1) }, 0, 0);
    assert_eq!(store.open_project(), a);
}

#[test]
fn toggle_public_and_replace_data() {
    let mut store = Projects::new();
    store.apply_update(Msg::TogglePublic);
    assert!(store.current().is_public);
    store.apply_update(Msg::TogglePublic);
    assert!(!store.current().is_public);
    store.apply_update(Msg::UpdateData { data: "[1,2]".to_string() });
    assert_eq!(store.current().data, "[1,2]");
}

#[test]
fn delete_open_selects_first_remaining_then_makes_default() {
    let mut store = Projects::new();
    let a = store.open_project();
    store.apply_with(Msg::New { name: "B".to_string(), data: None }, 200, 0);
    assert_eq!(store.open_project(), 200);
    store.apply_update(Msg::Delete);
    assert_eq!(store.projects().len(), 1);
    assert_eq!(store.open_project(), a);
    store.apply_update(Msg::Delete);
    assert_eq!(store.projects().len(), 1);
    let p = store.current();
    assert_eq!(p.name, "Unnamed");
    assert_ne!(p.id, a);
    assert_eq!(store.open_project(), p.id);
}

#[test]
fn delete_of_single_project_makes_fresh_default() {
    let mut store = Projects::new();
    store.apply_with(Msg::Rename { name: "Mine".to_string() }, 0, 0);
    let old = store.open_project();
    store.apply_with(Msg::Delete, 999, 5);
    assert_eq!(store.projects().len(), 1);
    assert_eq!(store.open_project(), 999);
    assert_ne!(store.open_project(), old);
    assert_eq!(store.current().name, "Unnamed");
    assert_eq!(store.current().created_at, 5);
}

#[test]
fn drained_commands_apply_in_order_and_keep_store_valid() {
    let mut store = Projects::new();
    let msgs = vec![
        Msg::New { name: "X".to_string(), data: None },
        Msg::Rename { name: "Y".to_string() },
        Msg::Delete,
        Msg::Delete,
        Msg::TogglePublic,
        Msg::Select { id: 1 },
    ];
    store.apply_all(msgs);
    assert_eq!(store.projects().len(), 1);
    assert!(open_is_listed(&store));
    assert_eq!(store.current().name, "Unnamed");
    assert!(store.current().is_public);
}

#[test]
fn show_toggle_flips_window() {
    let mut store = Projects::new();
    store.show_toggle();
    assert!(!store.window_open());
    store.show_toggle();
    assert!(store.window_open());
}

#[test]
fn drawn_ids_stay_distinct() {
    let mut store = Projects::new();
    for i in 0..20 {
        store.apply_update(Msg::New { name: format!("P{i}"), data: None });
    }
    store.apply_update(Msg::Delete);
    store.apply_update(Msg::New { name: "Q".to_string(), data: None });
    let mut ids: Vec<u128> = store.projects().iter().map(|p| p.id).collect();
    let n = ids.len();
    assert_eq!(n, 21);
    ids.sort();
    ids.dedup();
    assert_eq!(ids.len(), n);
    assert!(open_is_listed(&store));
}

#[test]
fn deleting_only_project_never_reuses_its_id() {
    let mut store = Projects::new();
    for _ in 0..5 {
        let old = store.open_project();
        store.apply_update(Msg::Delete);
        assert_eq!(store.projects().len(), 1);
        assert_ne!(store.open_project(), old);
        assert!(store.open_project() > old);
    }
}
