use pane_shortcuts::dispatch::parse_message_index;
use pane_shortcuts::matcher::PaneDescriptor;
use pane_shortcuts::slots::{PaneId, State};

fn state_with_slots(titles: &[&str], plugin_id: Option<u32>) -> State {
    let mut s = State::default();
    let owned: Vec<String> = titles.iter().map(|t| t.to_string()).collect();
    s.populate_from_titles(&owned);
    s.own_plugin_id = plugin_id;
    s
}

fn resolve(s: &mut State, title: &str, id: u32) {
    s.log_pane_ids_as_needed(&vec![PaneDescriptor {
        title: title.to_string(),
        is_plugin: false,
        id,
    }]);
}

#[test]
fn bind_keys_without_plugin_id_is_none() {
    let s = state_with_slots(&["build"], None);
    assert!(s.bind_keys().is_none());
}

#[test]
fn bind_keys_one_slot_exact_text() {
    let s = state_with_slots(&["build"], Some(7));
    let cfg = s.bind_keys().unwrap();
    let expected = "keybinds {\n    shared {\n        bind \"F1\" {\n            MessagePluginId 7 {\n                name \"F1\"\n            }\n        }\n    }\n}\n";
    assert_eq!(cfg.text, expected);
    assert!(!cfg.truncated);
}

#[test]
fn bind_keys_empty_registry_has_no_bindings() {
    let s = state_with_slots(&[], Some(4));
    let cfg = s.bind_keys().unwrap();
    assert_eq!(cfg.text, "keybinds {\n    shared {\n    }\n}\n");
    assert!(!cfg.truncated);
}

#[test]
fn bind_keys_caps_at_twelve_bindings() {
    let titles: Vec<String> = (0..13).map(|i| format!("pane{}", i)).collect();
    let refs: Vec<&str> = titles.iter().map(|t| t.as_str()).collect();
    let s = state_with_slots(&refs, Some(2));
    let cfg = s.bind_keys().unwrap();
    assert!(cfg.truncated);
    assert_eq!(cfg.text.matches("bind \"F").count(), 12);
    assert!(cfg.text.contains("bind \"F12\""));
    assert!(!cfg.text.contains("bind \"F13\""));
}

#[test]
fn bind_keys_binds_unresolved_slots_too() {
    let s = state_with_slots(&["never-started"], Some(9));
    let cfg = s.bind_keys().unwrap();
    assert!(cfg.text.contains("bind \"F1\""));
}

#[test]
fn private_trigger_reruns_resolved_terminal() {
    let mut s = state_with_slots(&["build"], Some(1));
    resolve(&mut s, "build", 42);
    assert_eq!(s.handle_pipe_message("F1", true), Some(42));
}

#[test]
fn broadcast_trigger_is_ignored() {
    let mut s = state_with_slots(&["build"], Some(1));
    resolve(&mut s, "build", 42);
    assert_eq!(s.handle_pipe_message("F1", false), None);
}

#[test]
fn trigger_for_absent_slot_is_ignored() {
    let mut s = state_with_slots(&["build"], Some(1));
    resolve(&mut s, "build", 42);
    assert_eq!(s.handle_pipe_message("F13", true), None);
}

#[test]
fn unparsable_trigger_name_is_ignored() {
    let mut s = state_with_slots(&["build"], Some(1));
    resolve(&mut s, "build", 42);
    assert_eq!(s.handle_pipe_message("Fx", true), None);
}

#[test]
fn trigger_for_unresolved_slot_is_ignored() {
    let s = state_with_slots(&["build"], Some(1));
    assert_eq!(s.handle_pipe_message("F1", true), None);
}

#[test]
fn plugin_kind_slot_is_not_rerun() {
    let mut s = state_with_slots(&["status"], Some(1));
    s.log_pane_ids_as_needed(&vec![PaneDescriptor {
        title: "status".to_string(),
        is_plugin: true,
        id: 5,
    }]);
    assert_eq!(s.panes_to_run[0].pane_id, Some(PaneId::Plugin(5)));
    assert_eq!(s.handle_pipe_message("F1", true), None);
}

#[test]
fn zero_value_saturates_to_first_slot() {
    let mut s = state_with_slots(&["build"], Some(1));
    resolve(&mut s, "build", 42);
    assert_eq!(s.handle_pipe_message("F0", true), Some(42));
    assert_eq!(s.handle_pipe_message("0", true), Some(42));
}

#[test]
fn message_index_parsing() {
    assert_eq!(parse_message_index("F2"), Some(2));
    assert_eq!(parse_message_index("FF25F"), Some(25));
    assert_eq!(parse_message_index("7"), Some(7));
    assert_eq!(parse_message_index(""), None);
    assert_eq!(parse_message_index("F"), None);
    assert_eq!(parse_message_index("F1x"), None);
    assert_eq!(parse_message_index("x1"), None);
    assert_eq!(parse_message_index("99999999999999999999999999"), None);
}

#[test]
fn rerun_and_focus_lookup() {
    let mut s = state_with_slots(&["a", "b"], Some(1));
    resolve(&mut s, "b", 6);
    assert_eq!(s.rerun_and_focus_command_index(0), None);
    assert_eq!(s.rerun_and_focus_command_index(1), Some(6));
    assert_eq!(s.rerun_and_focus_command_index(2), None);
}

#[test]
fn end_to_end_scenario() {
    let mut s = State::default();
    let value = "build\ntest".to_string();
    s.parse_configuration_pane_names(Some(&value));
    s.own_plugin_id = Some(11);
    assert_eq!(s.panes_to_run.len(), 2);
    assert_eq!(s.panes_to_run[0].pane_title, "build");
    assert_eq!(s.panes_to_run[1].pane_title, "test");

    let renames = s.log_pane_ids_as_needed(&vec![PaneDescriptor {
        title: "test".to_string(),
        is_plugin: false,
        id: 7,
    }]);
    assert_eq!(s.panes_to_run[1].pane_id, Some(PaneId::Terminal(7)));
    assert_eq!(s.panes_to_run[0].pane_id, None);
    assert_eq!(renames.len(), 1);
    assert_eq!(renames[0].pane_id, PaneId::Terminal(7));
    assert_eq!(renames[0].label, "<F2> - test");

    assert_eq!(s.handle_pipe_message("F2", true), Some(7));
    assert_eq!(s.handle_pipe_message("F1", true), None);
}
