//! The slot table: one entry per configured pane-to-run.

use vstd::prelude::*;

verus! {

/// The runtime identifier of a host pane: a terminal pane or a plugin pane,
/// each carrying the numeric id the host assigned to it.
#[derive(Clone, Copy, PartialEq, Eq, Structural, Debug)]
pub enum PaneId {
    Terminal(u32),
    Plugin(u32),
}

/// One configured pane-to-run: the title the system watches for among
/// runtime panes, and the pane identifier once a snapshot resolved it.
///
/// `pane_id` only ever moves from unset to set: no function of this crate
/// clears or reassigns a resolved identifier.
#[derive(Debug)]
pub struct PaneToRun {
    pub pane_title: String,
    pub pane_id: Option<PaneId>,
}

impl PaneToRun {
    pub fn new(pane_title: String) -> (r: Self)
        ensures
            r.pane_title == pane_title,
            r.pane_id is None,
    {
        PaneToRun { pane_title, pane_id: None }
    }
}

/// The whole synchroniser state: the ordered slot table and this plugin's
/// own host-assigned id (set once at startup).
pub struct State {
    pub panes_to_run: Vec<PaneToRun>,
    pub own_plugin_id: Option<u32>,
}

impl State {
    /// The number of slots in the registry.
    pub fn len(&self) -> (n: usize)
        ensures
            n == self.panes_to_run@.len(),
    {
        self.panes_to_run.len()
    }

    /// The slot at `index`, where one exists.
    pub fn get(&self, index: usize) -> (r: Option<&PaneToRun>)
        ensures
            index < self.panes_to_run@.len() ==> (r matches Some(s) && *s
                == self.panes_to_run@[index as int]),
            index >= self.panes_to_run@.len() ==> r is None,
    {
        if index < self.panes_to_run.len() {
            Some(&self.panes_to_run[index])
        } else {
            None
        }
    }
}

impl Default for State {
    fn default() -> (r: Self)
        ensures
            r.panes_to_run@.len() == 0,
            r.own_plugin_id is None,
    {
        State { panes_to_run: Vec::new(), own_plugin_id: None }
    }
}

} // verus!
