//! The configuration parser: an ordered slot table out of the `pane_names`
//! configuration value, a KDL document whose top-level node names are the
//! pane titles to watch for.

use vstd::prelude::*;

use crate::slots::{PaneToRun, State};

verus! {

/// The trimmed top-level node names of the KDL document written in `s`, in
/// document order, or `None` where `s` is not a well-formed document.
pub uninterp spec fn kdl_pane_titles(s: Seq<char>) -> Option<Seq<Seq<char>>>;

/// Relies on `kdl::KdlDocument`'s `FromStr` impl and on `str::trim`: parses
/// the text as a KDL document and hands back the trimmed name of each
/// top-level node, in document order; `None` where the text does not parse.
#[verifier::external_body]
fn parse_pane_titles(s: &str) -> (r: Option<Vec<String>>)
    ensures
        r is Some <==> kdl_pane_titles(s@) is Some,
        r matches Some(v) ==> kdl_pane_titles(s@) matches Some(names) && v.deep_view() == names,
{
    match s.parse::<kdl::KdlDocument>() {
        Ok(doc) => Some(
            doc.nodes().iter().map(|n| n.name().value().trim().to_string()).collect(),
        ),
        Err(_) => None,
    }
}

impl State {
    /// Replaces the slot table with one fresh, unresolved slot per title,
    /// indices assigned in order.
    pub fn populate_from_titles(&mut self, titles: &Vec<String>)
        ensures
            final(self).own_plugin_id == old(self).own_plugin_id,
            final(self).panes_to_run@.len() == titles@.len(),
            forall|i: int|
                0 <= i < titles@.len() ==> (#[trigger] final(self).panes_to_run@[i]).pane_title@
                    == titles@[i]@ && final(self).panes_to_run@[i].pane_id is None,
    {
        let mut slots: Vec<PaneToRun> = Vec::new();
        let mut i: usize = 0;
        while i < titles.len()
            invariant
                i <= titles@.len(),
                slots@.len() == i,
                forall|t: int|
                    0 <= t < i ==> (#[trigger] slots@[t]).pane_title@ == titles@[t]@
                        && slots@[t].pane_id is None,
            decreases titles@.len() - i,
        {
            slots.push(PaneToRun::new(titles[i].clone()));
            i += 1;
        }
        self.panes_to_run = slots;
    }

    /// Parses the `pane_names` configuration value into the slot table.
    /// An absent or unparsable value leaves the table as it was (empty at
    /// startup): malformed configuration degrades to no slots, never to an
    /// error.
    pub fn parse_configuration_pane_names(&mut self, pane_names: Option<&String>)
        ensures
            final(self).own_plugin_id == old(self).own_plugin_id,
            match pane_names {
                None => final(self).panes_to_run == old(self).panes_to_run,
                Some(s) => match kdl_pane_titles(s@) {
                    None => final(self).panes_to_run == old(self).panes_to_run,
                    Some(names) => final(self).panes_to_run@.len() == names.len() && forall|i: int|
                        0 <= i < names.len() ==> (
                        #[trigger] final(self).panes_to_run@[i]).pane_title@ == names[i]
                            && final(self).panes_to_run@[i].pane_id is None,
                },
            },
    {
        match pane_names {
            None => {},
            Some(s) => {
                match parse_pane_titles(s.as_str()) {
                    None => {},
                    Some(titles) => {
                        self.populate_from_titles(&titles);
                    },
                }
            },
        }
    }
}

} // verus!
