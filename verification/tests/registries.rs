use kexsh::error::KexshError;
use kexsh::ident::{fresh_id, short_id};
use kexsh::ipc::message::Layout;
use kexsh::terminal::manager::TerminalManager;
use kexsh::view::manager::ViewManager;

const NOW: &str = "2024-03-09 17:05";

fn add(mgr: &mut TerminalManager<u32>, name: Option<&str>, pty: u32) -> String {
    mgr.create(name.map(String::from), Ok(pty), NOW.to_string()).unwrap()
}

fn view(mgr: &mut ViewManager, name: Option<&str>, terminal_id: &str) -> String {
    mgr.create(name.map(String::from), terminal_id.to_string(), NOW.to_string())
}

fn leaf() -> serde_json::Value {
    serde_json::from_str(r#"{"type": "leaf", "terminal_id": "t1"}"#).unwrap()
}

#[test]
fn create_returns_8char_hex_id() {
    let mut mgr: TerminalManager<u32> = TerminalManager::new();
    let id = add(&mut mgr, None, 1);
    assert_eq!(id.len(), 8);
    assert!(id.chars().all(|c| c.is_ascii_hexdigit() || c == '-'));
}

#[test]
fn create_with_name_and_resolve() {
    let mut mgr: TerminalManager<u32> = TerminalManager::new();
    let id = add(&mut mgr, Some("dev"), 1);
    assert_eq!(mgr.resolve_id("dev"), Some(id.clone()));
    assert_eq!(mgr.resolve_id(&id), Some(id));
}

#[test]
fn list_and_kill() {
    let mut mgr: TerminalManager<u32> = TerminalManager::new();
    let id = add(&mut mgr, None, 1);
    assert_eq!(mgr.list().len(), 1);
    mgr.kill(&id).unwrap();
    assert_eq!(mgr.list().len(), 0);
}

#[test]
fn kill_nonexistent_returns_error() {
    let mut mgr: TerminalManager<u32> = TerminalManager::new();
    assert!(mgr.kill("nonexistent").is_err());
}

#[test]
fn create_returns_8char_id() {
    let mut mgr = ViewManager::new();
    let id = view(&mut mgr, None, "t1");
    assert_eq!(id.len(), 8);
}

#[test]
fn manager_create_with_name_and_resolve() {
    let mut mgr = ViewManager::new();
    let id = view(&mut mgr, Some("dev"), "t1");
    assert_eq!(mgr.resolve_id("dev"), Some(id.clone()));
    assert_eq!(mgr.resolve_id(&id), Some(id));
}

#[test]
fn list_and_delete() {
    let mut mgr = ViewManager::new();
    let id = view(&mut mgr, None, "t1");
    assert_eq!(mgr.list().len(), 1);
    mgr.delete(&id).unwrap();
    assert_eq!(mgr.list().len(), 0);
}

#[test]
fn delete_nonexistent_returns_error() {
    let mut mgr = ViewManager::new();
    assert!(mgr.delete("nonexistent").is_err());
}

#[test]
fn get_returns_view_with_terminal() {
    let mut mgr = ViewManager::new();
    let id = view(&mut mgr, Some("work"), "t1");
    let view = mgr.get("work").unwrap();
    assert_eq!(view.id, id);
    assert_eq!(view.terminal_ids, vec!["t1"]);
}

#[test]
fn add_terminal_deduplicates() {
    let mut mgr = ViewManager::new();
    let id = view(&mut mgr, None, "t1");
    mgr.add_terminal(&id, "t2");
    mgr.add_terminal(&id, "t2");
    assert_eq!(mgr.get(&id).unwrap().terminal_ids, vec!["t1", "t2"]);
}

#[test]
fn remove_terminal_from_all_views() {
    let mut mgr = ViewManager::new();
    let v1 = view(&mut mgr, None, "t1");
    let v2 = view(&mut mgr, None, "t1");
    mgr.remove_terminal("t1");
    assert!(mgr.get(&v1).unwrap().terminal_ids.is_empty());
    assert!(mgr.get(&v2).unwrap().terminal_ids.is_empty());
}

#[test]
fn shared_terminal_survives_view_delete() {
    let mut mgr = ViewManager::new();
    let v1 = view(&mut mgr, Some("dev"), "t1");
    let v2 = view(&mut mgr, Some("ops"), "t1");
    mgr.add_terminal(&v2, "t2");
    mgr.delete(&v1).unwrap();
    let view2 = mgr.get(&v2).unwrap();
    assert_eq!(view2.terminal_ids, vec!["t1", "t2"]);
}

#[test]
fn update_layout_stores_value() {
    let mut mgr = ViewManager::new();
    let id = view(&mut mgr, None, "t1");
    let layout = Layout::Tree(leaf());
    mgr.update_layout(&id, layout.clone(), "t1".into());
    assert_eq!(mgr.get(&id).unwrap().layout, layout);
    assert_eq!(mgr.get(&id).unwrap().layout, Layout::Tree(leaf()));
    assert_eq!(mgr.get(&id).unwrap().focused, "t1");
}

#[test]
fn remove_terminal_from_specific_view() {
    let mut mgr = ViewManager::new();
    let v1 = view(&mut mgr, None, "t1");
    let v2 = view(&mut mgr, None, "t1");
    mgr.add_terminal(&v1, "t2");
    mgr.remove_terminal_from_view(&v1, "t2");
    assert_eq!(mgr.get(&v1).unwrap().terminal_ids, vec!["t1"]);
    assert_eq!(mgr.get(&v2).unwrap().terminal_ids, vec!["t1"]);
}

#[test]
fn new_view_shows_its_terminal() {
    let mut mgr = ViewManager::new();
    let id = view(&mut mgr, None, "t1");
    let view = mgr.get(&id).unwrap();
    assert_eq!(view.name, None);
    assert_eq!(view.layout, Layout::Null);
    assert_eq!(view.focused, "t1");
    assert_eq!(view.created_at, NOW);
}

#[test]
fn ids_are_random_and_distinct() {
    let mut mgr: TerminalManager<u32> = TerminalManager::new();
    let mut ids: Vec<String> = Vec::new();
    for pty in 0..200 {
        let id = add(&mut mgr, None, pty);
        assert!(id.chars().all(|c| c.is_ascii_digit() || ('a'..='f').contains(&c)));
        assert!(!ids.contains(&id));
        ids.push(id);
    }
    let mut sorted = ids.clone();
    sorted.sort();
    assert_ne!(sorted, ids);
    assert!(!ids.contains(&fresh_id(&ids)));
}

#[test]
fn short_id_is_the_front_of_the_uuid() {
    assert_eq!(short_id("67e55044-10b1-426f-9247-bb680e5fe0c8"), "67e55044");
}

#[test]
fn failed_start_adds_no_terminal() {
    let mut mgr: TerminalManager<u32> = TerminalManager::new();
    let failure = KexshError::Server("no pty".to_string());
    assert_eq!(mgr.create(None, Err(failure.clone()), NOW.to_string()), Err(failure));
    assert_eq!(mgr.len(), 0);
}

#[test]
fn ids_go_before_names() {
    let mut mgr: TerminalManager<u32> = TerminalManager::new();
    let first = add(&mut mgr, None, 1);
    let second = add(&mut mgr, Some(&first), 2);
    assert_eq!(mgr.resolve_id(&first), Some(first.clone()));
    assert_eq!(mgr.get(&first).unwrap().pty, 1);
    assert_eq!(mgr.kill(&first).unwrap().pty, 1);
    assert_eq!(mgr.resolve_id(&first), Some(second));
}

#[test]
fn names_stand_for_their_oldest_terminal() {
    let mut mgr: TerminalManager<u32> = TerminalManager::new();
    let first = add(&mut mgr, Some("dev"), 1);
    let second = add(&mut mgr, Some("dev"), 2);
    assert_eq!(mgr.resolve_id("dev"), Some(first));
    mgr.kill("dev").unwrap();
    assert_eq!(mgr.resolve_id("dev"), Some(second));
}

#[test]
fn killing_leaves_the_others() {
    let mut mgr: TerminalManager<u32> = TerminalManager::new();
    let a = add(&mut mgr, Some("a"), 1);
    let b = add(&mut mgr, Some("b"), 2);
    assert_eq!(
        mgr.kill("c").err().unwrap(),
        KexshError::Server("terminal not found: c".to_string())
    );
    assert_eq!(mgr.kill("a").unwrap().id, a);
    assert!(mgr.get(&a).is_none());
    assert_eq!(mgr.get(&b).unwrap().pty, 2);
    assert_eq!(mgr.get("b").unwrap().created_at, NOW);
}

#[test]
fn kill_all_empties_the_registry() {
    let mut mgr: TerminalManager<u32> = TerminalManager::default();
    add(&mut mgr, None, 1);
    add(&mut mgr, None, 2);
    let killed: Vec<u32> = mgr.kill_all().into_iter().map(|t| t.pty).collect();
    assert_eq!(killed, vec![1, 2]);
    assert_eq!(mgr.len(), 0);
}

#[test]
fn views_are_listed_by_age() {
    let mut mgr = ViewManager::new();
    let at = |mgr: &mut ViewManager, time: &str| mgr.create(None, "t1".into(), time.to_string());
    let newest = at(&mut mgr, "2024-03-10 08:00");
    let oldest = at(&mut mgr, "2023-12-31 23:59");
    let middle = at(&mut mgr, "2024-03-09 17:05");
    let tied = at(&mut mgr, "2024-03-09 17:05");
    let listed: Vec<String> = mgr.list().into_iter().map(|v| v.id).collect();
    assert_eq!(listed, vec![oldest, middle, tied, newest]);
    assert_eq!(mgr.list_full().len(), 4);
    assert_eq!(mgr.len(), 4);
}

#[test]
fn updates_need_the_id_of_a_view() {
    let mut mgr = ViewManager::new();
    let id = view(&mut mgr, Some("dev"), "t1");
    mgr.add_terminal("dev", "t2");
    mgr.remove_terminal_from_view("dev", "t1");
    mgr.update_layout("dev", Layout::Tree(leaf()), "t2".into());
    let view = mgr.get(&id).unwrap();
    assert_eq!(view.terminal_ids, vec!["t1"]);
    assert_eq!(view.layout, Layout::Null);
    assert_eq!(view.focused, "t1");
}

#[test]
fn removing_undoes_adding() {
    let mut mgr = ViewManager::new();
    let id = view(&mut mgr, None, "t1");
    mgr.add_terminal(&id, "t2");
    mgr.remove_terminal_from_view(&id, "t2");
    assert_eq!(mgr.get(&id).unwrap().terminal_ids, vec!["t1"]);
}

#[test]
fn deleting_a_view_by_name() {
    let mut mgr = ViewManager::default();
    let kept = view(&mut mgr, None, "t1");
    view(&mut mgr, Some("dev"), "t1");
    mgr.delete("dev").unwrap();
    assert_eq!(
        mgr.delete("dev").unwrap_err(),
        KexshError::Server("view not found: dev".to_string())
    );
    assert_eq!(mgr.get(&kept).unwrap().id, kept);
}
