use pane_shortcuts::matcher::PaneDescriptor;
use pane_shortcuts::slots::{PaneId, PaneToRun, State};

fn state_with_slots(titles: &[&str], plugin_id: Option<u32>) -> State {
    let mut s = State::default();
    let owned: Vec<String> = titles.iter().map(|t| t.to_string()).collect();
    s.populate_from_titles(&owned);
    s.own_plugin_id = plugin_id;
    s
}

fn terminal_pane(title: &str, id: u32) -> PaneDescriptor {
    PaneDescriptor { title: title.to_string(), is_plugin: false, id }
}

#[test]
fn pane_to_run_new_starts_unresolved() {
    let p = PaneToRun::new("build".to_string());
    assert_eq!(p.pane_title, "build");
    assert_eq!(p.pane_id, None);
}

#[test]
fn default_state_is_empty() {
    let s = State::default();
    assert_eq!(s.panes_to_run.len(), 0);
    assert_eq!(s.own_plugin_id, None);
}

#[test]
fn parse_valid_document_yields_ordered_slots() {
    let mut s = State::default();
    let value = "build\ntest".to_string();
    s.parse_configuration_pane_names(Some(&value));
    assert_eq!(s.panes_to_run.len(), 2);
    assert_eq!(s.panes_to_run[0].pane_title, "build");
    assert_eq!(s.panes_to_run[1].pane_title, "test");
    assert_eq!(s.panes_to_run[0].pane_id, None);
    assert_eq!(s.panes_to_run[1].pane_id, None);
}

#[test]
fn parse_trims_node_names() {
    let mut s = State::default();
    let value = "\"  spaced  \"".to_string();
    s.parse_configuration_pane_names(Some(&value));
    assert_eq!(s.panes_to_run.len(), 1);
    assert_eq!(s.panes_to_run[0].pane_title, "spaced");
}

#[test]
fn parse_missing_value_keeps_registry_empty() {
    let mut s = State::default();
    s.parse_configuration_pane_names(None);
    assert_eq!(s.panes_to_run.len(), 0);
}

#[test]
fn parse_unparsable_value_keeps_registry_empty() {
    let mut s = State::default();
    let value = "node \"unterminated".to_string();
    s.parse_configuration_pane_names(Some(&value));
    assert_eq!(s.panes_to_run.len(), 0);
}

#[test]
fn snapshot_resolves_matching_slot_and_renames_it() {
    let mut s = state_with_slots(&["build", "test"], Some(1));
    let panes = vec![terminal_pane("test", 7)];
    let renames = s.log_pane_ids_as_needed(&panes);
    assert_eq!(s.panes_to_run[0].pane_id, None);
    assert_eq!(s.panes_to_run[1].pane_id, Some(PaneId::Terminal(7)));
    assert_eq!(renames.len(), 1);
    assert_eq!(renames[0].slot_index, 1);
    assert_eq!(renames[0].pane_id, PaneId::Terminal(7));
    assert_eq!(renames[0].label, "<F2> - test");
}

#[test]
fn plugin_pane_resolves_with_plugin_kind() {
    let mut s = state_with_slots(&["status"], Some(1));
    let panes = vec![PaneDescriptor { title: "status".to_string(), is_plugin: true, id: 3 }];
    let renames = s.log_pane_ids_as_needed(&panes);
    assert_eq!(s.panes_to_run[0].pane_id, Some(PaneId::Plugin(3)));
    assert_eq!(renames.len(), 1);
    assert_eq!(renames[0].pane_id, PaneId::Plugin(3));
    assert_eq!(renames[0].label, "<F1> - status");
}

#[test]
fn resolved_slot_unchanged_by_later_snapshot() {
    let mut s = state_with_slots(&["test"], Some(1));
    s.log_pane_ids_as_needed(&vec![terminal_pane("test", 7)]);
    let renames = s.log_pane_ids_as_needed(&vec![terminal_pane("test", 9)]);
    assert_eq!(s.panes_to_run[0].pane_id, Some(PaneId::Terminal(7)));
    assert!(renames.is_empty());
}

#[test]
fn rename_issued_once_per_slot() {
    let mut s = state_with_slots(&["build", "test"], Some(1));
    let first = s.log_pane_ids_as_needed(&vec![terminal_pane("test", 7)]);
    assert_eq!(first.len(), 1);
    let second = s.log_pane_ids_as_needed(&vec![terminal_pane("test", 7), terminal_pane("build", 8)]);
    assert_eq!(second.len(), 1);
    assert_eq!(second[0].slot_index, 0);
    assert_eq!(second[0].label, "<F1> - build");
}

#[test]
fn first_pane_wins_ties_in_snapshot_order() {
    let mut s = state_with_slots(&["dup", "dup"], Some(1));
    let renames = s.log_pane_ids_as_needed(&vec![terminal_pane("dup", 1), terminal_pane("dup", 2)]);
    assert_eq!(s.panes_to_run[0].pane_id, Some(PaneId::Terminal(1)));
    assert_eq!(s.panes_to_run[1].pane_id, Some(PaneId::Terminal(1)));
    assert_eq!(renames.len(), 2);
    assert_eq!(renames[0].label, "<F1> - dup");
    assert_eq!(renames[1].label, "<F2> - dup");
}

#[test]
fn unmatched_snapshot_changes_nothing() {
    let mut s = state_with_slots(&["build"], Some(1));
    let renames = s.log_pane_ids_as_needed(&vec![terminal_pane("other", 5)]);
    assert_eq!(s.panes_to_run[0].pane_id, None);
    assert!(renames.is_empty());
}

#[test]
fn registry_get_and_len() {
    let s = state_with_slots(&["a", "b"], None);
    assert_eq!(s.len(), 2);
    assert_eq!(s.get(0).unwrap().pane_title, "a");
    assert_eq!(s.get(1).unwrap().pane_title, "b");
    assert!(s.get(2).is_none());
}
