//! The pane matcher: resolving slots against a full snapshot of runtime
//! panes, and the rename requests that resolution produces.

use vstd::prelude::*;
use vstd::string::StringExecFns;

use crate::slots::{PaneId, PaneToRun, State};
use crate::text::{dec_repr, push_decimal};

verus! {

/// One pane out of a runtime snapshot: its title, whether it is a plugin
/// pane, and the numeric id the host assigned to it.
#[derive(Debug)]
pub struct PaneDescriptor {
    pub title: String,
    pub is_plugin: bool,
    pub id: u32,
}

/// The tagged identifier a pane descriptor resolves to.
pub open spec fn pane_id_of(pane: PaneDescriptor) -> PaneId {
    if pane.is_plugin {
        PaneId::Plugin(pane.id)
    } else {
        PaneId::Terminal(pane.id)
    }
}

/// A pane resolves a slot when the slot is still unresolved and the titles
/// are equal.
pub open spec fn slot_matches(slot: PaneToRun, pane: PaneDescriptor) -> bool {
    slot.pane_id is None && slot.pane_title@ == pane.title@
}

pub open spec fn resolve_slot(slot: PaneToRun, pane: PaneDescriptor) -> PaneToRun {
    PaneToRun { pane_title: slot.pane_title, pane_id: Some(pane_id_of(pane)) }
}

/// The slot table after one pane of a snapshot was offered to every slot:
/// every still-unresolved slot with the pane's title resolves to it.
pub open spec fn apply_pane(slots: Seq<PaneToRun>, pane: PaneDescriptor) -> Seq<PaneToRun> {
    Seq::new(
        slots.len(),
        |i: int|
            if slot_matches(slots[i], pane) {
                resolve_slot(slots[i], pane)
            } else {
                slots[i]
            },
    )
}

/// The slot table after a whole snapshot, panes offered in order.
pub open spec fn match_panes(slots: Seq<PaneToRun>, panes: Seq<PaneDescriptor>) -> Seq<PaneToRun>
    decreases panes.len(),
{
    if panes.len() == 0 {
        slots
    } else {
        apply_pane(match_panes(slots, panes.drop_last()), panes.last())
    }
}

/// The decorated label a newly resolved pane is renamed to:
/// `<F{index+1}> - {original title}`.
pub open spec fn rename_label(index: nat, title: Seq<char>) -> Seq<char> {
    "<F"@ + dec_repr(index + 1) + "> - "@ + title
}

/// One rename request to hand to the host: which pane, and its new label.
/// `slot_index` records which slot the rename was issued for.
#[derive(Debug)]
pub struct RenameRequest {
    pub slot_index: usize,
    pub pane_id: PaneId,
    pub label: String,
}

pub struct RenameRequestView {
    pub slot_index: int,
    pub pane_id: PaneId,
    pub label: Seq<char>,
}

impl View for RenameRequest {
    type V = RenameRequestView;

    open spec fn view(&self) -> RenameRequestView {
        RenameRequestView {
            slot_index: self.slot_index as int,
            pane_id: self.pane_id,
            label: self.label@,
        }
    }
}

pub open spec fn rename_view(pane: PaneDescriptor, i: int) -> RenameRequestView {
    RenameRequestView {
        slot_index: i,
        pane_id: pane_id_of(pane),
        label: rename_label(i as nat, pane.title@),
    }
}

/// The rename requests one pane produces against slots `0..j`, in slot
/// order: one per slot it resolves.
pub open spec fn pane_renames_upto(
    slots: Seq<PaneToRun>,
    pane: PaneDescriptor,
    j: int,
) -> Seq<RenameRequestView>
    decreases j,
{
    if j <= 0 || j > slots.len() {
        Seq::empty()
    } else if slot_matches(slots[j - 1], pane) {
        pane_renames_upto(slots, pane, j - 1).push(rename_view(pane, j - 1))
    } else {
        pane_renames_upto(slots, pane, j - 1)
    }
}

pub open spec fn pane_renames(slots: Seq<PaneToRun>, pane: PaneDescriptor) -> Seq<
    RenameRequestView,
> {
    pane_renames_upto(slots, pane, slots.len() as int)
}

/// The rename requests a whole snapshot produces, in the order they are
/// issued.
pub open spec fn match_renames(slots: Seq<PaneToRun>, panes: Seq<PaneDescriptor>) -> Seq<
    RenameRequestView,
>
    decreases panes.len(),
{
    if panes.len() == 0 {
        Seq::empty()
    } else {
        match_renames(slots, panes.drop_last()) + pane_renames(
            match_panes(slots, panes.drop_last()),
            panes.last(),
        )
    }
}

/// Some pane of the snapshot carries this title.
pub open spec fn has_matching_pane(panes: Seq<PaneDescriptor>, title: Seq<char>) -> bool {
    exists|p: int| 0 <= p < panes.len() && panes[p].title@ == title
}

/// The position of the first pane of the snapshot carrying this title
/// (meaningful only where one exists).
pub open spec fn first_match_idx(panes: Seq<PaneDescriptor>, title: Seq<char>) -> int
    decreases panes.len(),
{
    if panes.len() == 0 {
        0
    } else if panes[0].title@ == title {
        0
    } else {
        1 + first_match_idx(panes.drop_first(), title)
    }
}

proof fn lemma_match_panes_front(slots: Seq<PaneToRun>, panes: Seq<PaneDescriptor>)
    requires
        panes.len() > 0,
    ensures
        match_panes(slots, panes) == match_panes(apply_pane(slots, panes[0]), panes.drop_first()),
    decreases panes.len(),
{
    if panes.len() == 1 {
        let e = Seq::<PaneDescriptor>::empty();
        assert(panes.drop_last() =~= e);
        assert(panes.drop_first() =~= e);
        assert(panes.last() == panes[0]);
        assert(match_panes(slots, e) == slots);
        assert(match_panes(slots, panes) == apply_pane(slots, panes[0]));
        assert(match_panes(apply_pane(slots, panes[0]), e) == apply_pane(slots, panes[0]));
    } else {
        let dl = panes.drop_last();
        let df = panes.drop_first();
        let s1 = apply_pane(slots, panes[0]);
        lemma_match_panes_front(slots, dl);
        assert(dl[0] == panes[0]);
        assert(match_panes(slots, panes) == apply_pane(match_panes(slots, dl), panes.last()));
        assert(match_panes(slots, dl) == match_panes(s1, dl.drop_first()));
        assert(df.drop_last() =~= dl.drop_first());
        assert(df.last() == panes.last());
        assert(df.len() > 0);
        assert(match_panes(s1, df) == apply_pane(match_panes(s1, df.drop_last()), df.last()));
    }
}

proof fn lemma_first_match_idx_valid(panes: Seq<PaneDescriptor>, title: Seq<char>)
    requires
        has_matching_pane(panes, title),
    ensures
        0 <= first_match_idx(panes, title) < panes.len(),
        panes[first_match_idx(panes, title)].title@ == title,
    decreases panes.len(),
{
    if panes.len() == 0 {
        let p = choose|p: int| 0 <= p < panes.len() && panes[p].title@ == title;
        assert(false);
    } else if panes[0].title@ == title {
    } else {
        let rest = panes.drop_first();
        let p = choose|p: int| 0 <= p < panes.len() && panes[p].title@ == title;
        assert(rest[p - 1] == panes[p]);
        assert(has_matching_pane(rest, title));
        lemma_first_match_idx_valid(rest, title);
        assert(panes[1 + first_match_idx(rest, title)] == rest[first_match_idx(rest, title)]);
    }
}

/// What one snapshot does to one slot.  A resolved slot is never touched
/// again, whatever the snapshot holds.  An unresolved slot whose title some
/// snapshot pane carries resolves to the first such pane, in snapshot
/// order; one that no pane matches stays as it was.  Slot count and titles
/// never change.
pub proof fn lemma_snapshot_resolution(slots: Seq<PaneToRun>, panes: Seq<PaneDescriptor>, i: int)
    requires
        0 <= i < slots.len(),
    ensures
        match_panes(slots, panes).len() == slots.len(),
        match_panes(slots, panes)[i].pane_title == slots[i].pane_title,
        slots[i].pane_id is Some ==> match_panes(slots, panes)[i] == slots[i],
        slots[i].pane_id is None && has_matching_pane(panes, slots[i].pane_title@) ==> match_panes(
            slots,
            panes,
        )[i].pane_id == Some(
            pane_id_of(panes[first_match_idx(panes, slots[i].pane_title@)]),
        ),
        slots[i].pane_id is None && !has_matching_pane(panes, slots[i].pane_title@) ==> match_panes(
            slots,
            panes,
        )[i] == slots[i],
    decreases panes.len(),
{
    if panes.len() == 0 {
    } else {
        lemma_match_panes_front(slots, panes);
        let slots1 = apply_pane(slots, panes[0]);
        lemma_snapshot_resolution(slots1, panes.drop_first(), i);
        let title = slots[i].pane_title@;
        let rest = panes.drop_first();
        assert(forall|q: int| 0 <= q < rest.len() ==> #[trigger] rest[q] == panes[q + 1]);
        if slots[i].pane_id is None {
            if panes[0].title@ == title {
                assert(slot_matches(slots[i], panes[0]));
                assert(slots1[i] == resolve_slot(slots[i], panes[0]));
                assert(first_match_idx(panes, title) == 0);
                assert(has_matching_pane(panes, title));
                assert(match_panes(slots, panes)[i] == slots1[i]);
                assert(match_panes(slots, panes)[i].pane_id == Some(pane_id_of(panes[0])));
            } else {
                assert(slots1[i] == slots[i]);
                if has_matching_pane(panes, title) {
                    let p = choose|p: int| 0 <= p < panes.len() && panes[p].title@ == title;
                    assert(rest[p - 1].title@ == title);
                    assert(has_matching_pane(rest, title));
                    lemma_first_match_idx_valid(rest, title);
                    assert(first_match_idx(panes, title) == 1 + first_match_idx(rest, title));
                    assert(panes[first_match_idx(panes, title)] == rest[first_match_idx(
                        rest,
                        title,
                    )]);
                    assert(match_panes(slots, panes)[i].pane_id == Some(
                        pane_id_of(panes[first_match_idx(panes, title)]),
                    ));
                } else {
                    assert(!has_matching_pane(rest, title)) by {
                        if has_matching_pane(rest, title) {
                            let q = choose|q: int|
                                0 <= q < rest.len() && rest[q].title@ == title;
                            assert(panes[q + 1].title@ == title);
                        }
                    }
                    assert(match_panes(slots, panes)[i] == slots[i]);
                }
            }
        } else {
            assert(slots1[i] == slots[i]);
        }
    }
}

proof fn lemma_pane_renames_matched(slots: Seq<PaneToRun>, pane: PaneDescriptor, j: int, k: int)
    requires
        0 <= k < pane_renames_upto(slots, pane, j).len(),
    ensures
        0 <= pane_renames_upto(slots, pane, j)[k].slot_index < slots.len(),
        slot_matches(
            slots[pane_renames_upto(slots, pane, j)[k].slot_index],
            pane,
        ),
    decreases j,
{
    if j <= 0 || j > slots.len() {
    } else {
        let prev = pane_renames_upto(slots, pane, j - 1);
        if slot_matches(slots[j - 1], pane) {
            if k < prev.len() {
                lemma_pane_renames_matched(slots, pane, j - 1, k);
            }
        } else {
            lemma_pane_renames_matched(slots, pane, j - 1, k);
        }
    }
}

/// A slot that is already resolved is never renamed: no rename request a
/// snapshot produces carries its index.
pub proof fn lemma_resolved_slot_never_renamed(
    slots: Seq<PaneToRun>,
    panes: Seq<PaneDescriptor>,
    i: int,
    k: int,
)
    requires
        0 <= i < slots.len(),
        slots[i].pane_id is Some,
        0 <= k < match_renames(slots, panes).len(),
    ensures
        match_renames(slots, panes)[k].slot_index != i,
    decreases panes.len(),
{
    if panes.len() == 0 {
    } else {
        let dl = panes.drop_last();
        let first = match_renames(slots, dl);
        if k < first.len() {
            lemma_resolved_slot_never_renamed(slots, dl, i, k);
        } else {
            let mid = match_panes(slots, dl);
            lemma_snapshot_resolution(slots, dl, i);
            lemma_pane_renames_matched(mid, panes.last(), mid.len() as int, k - first.len());
        }
    }
}

/// Renaming happens at most once per slot: once a snapshot has resolved a
/// slot, no later snapshot issues a rename request for it.
pub proof fn lemma_rename_issued_once(
    slots: Seq<PaneToRun>,
    earlier: Seq<PaneDescriptor>,
    later: Seq<PaneDescriptor>,
    i: int,
    k: int,
)
    requires
        0 <= i < slots.len(),
        match_panes(slots, earlier)[i].pane_id is Some,
        0 <= k < match_renames(match_panes(slots, earlier), later).len(),
    ensures
        match_renames(match_panes(slots, earlier), later)[k].slot_index != i,
{
    lemma_snapshot_resolution(slots, earlier, i);
    lemma_resolved_slot_never_renamed(match_panes(slots, earlier), later, i, k);
}

impl State {
    /// Processes one full pane snapshot: every still-unresolved slot whose
    /// title equals a snapshot pane's title is resolved to that pane's id
    /// and kind (ties broken by snapshot order, first pane wins), and one
    /// rename request is produced per newly resolved slot.  Already
    /// resolved slots are never touched and never renamed again.
    pub fn log_pane_ids_as_needed(&mut self, panes: &Vec<PaneDescriptor>) -> (renames: Vec<
        RenameRequest,
    >)
        ensures
            final(self).own_plugin_id == old(self).own_plugin_id,
            final(self).panes_to_run@ == match_panes(old(self).panes_to_run@, panes@),
            renames@.map_values(|r: RenameRequest| r@) == match_renames(
                old(self).panes_to_run@,
                panes@,
            ),
    {
        let mut renames: Vec<RenameRequest> = Vec::new();
        let mut p: usize = 0;
        proof {
            assert(panes@.subrange(0, 0) =~= Seq::<PaneDescriptor>::empty());
            assert(renames@.map_values(|r: RenameRequest| r@) =~= Seq::<
                RenameRequestView,
            >::empty());
        }
        while p < panes.len()
            invariant
                p <= panes@.len(),
                self.own_plugin_id == old(self).own_plugin_id,
                self.panes_to_run@ == match_panes(old(self).panes_to_run@, panes@.subrange(0, p as int)),
                renames@.map_values(|r: RenameRequest| r@) == match_renames(
                    old(self).panes_to_run@,
                    panes@.subrange(0, p as int),
                ),
            decreases panes@.len() - p,
        {
            let ghost slots_start = self.panes_to_run@;
            let ghost renames_start = renames@.map_values(|r: RenameRequest| r@);
            let mut j: usize = 0;
            while j < self.panes_to_run.len()
                invariant
                    j <= slots_start.len(),
                    p < panes@.len(),
                    self.panes_to_run@.len() == slots_start.len(),
                    self.own_plugin_id == old(self).own_plugin_id,
                    forall|t: int|
                        j <= t < slots_start.len() ==> self.panes_to_run@[t] == slots_start[t],
                    forall|t: int|
                        0 <= t < j ==> self.panes_to_run@[t] == apply_pane(
                            slots_start,
                            panes@[p as int],
                        )[t],
                    renames@.map_values(|r: RenameRequest| r@) == renames_start
                        + pane_renames_upto(slots_start, panes@[p as int], j as int),
                decreases slots_start.len() - j,
            {
                let ghost renames_before = renames@.map_values(|r: RenameRequest| r@);
                let unresolved = self.panes_to_run[j].pane_id.is_none();
                if unresolved && self.panes_to_run[j].pane_title == panes[p].title {
                    let id = if panes[p].is_plugin {
                        PaneId::Plugin(panes[p].id)
                    } else {
                        PaneId::Terminal(panes[p].id)
                    };
                    let mut label = String::new();
                    label.append("<F");
                    push_decimal(&mut label, j as u64 + 1);
                    label.append("> - ");
                    label.append(panes[p].title.as_str());
                    proof {
                        assert(label@ =~= rename_label(j as nat, panes@[p as int].title@));
                    }
                    self.panes_to_run[j].pane_id = Some(id);
                    let rename = RenameRequest { slot_index: j, pane_id: id, label };
                    renames.push(rename);
                    proof {
                        assert(slot_matches(slots_start[j as int], panes@[p as int]));
                        assert(self.panes_to_run@[j as int] == resolve_slot(
                            slots_start[j as int],
                            panes@[p as int],
                        ));
                        assert(renames@.map_values(|r: RenameRequest| r@) =~= renames_before.push(
                            rename_view(panes@[p as int], j as int),
                        ));
                    }
                } else {
                    proof {
                        assert(!slot_matches(slots_start[j as int], panes@[p as int]));
                    }
                }
                j += 1;
            }
            proof {
                assert(self.panes_to_run@ =~= apply_pane(slots_start, panes@[p as int]));
                assert(pane_renames_upto(slots_start, panes@[p as int], slots_start.len() as int)
                    == pane_renames(slots_start, panes@[p as int]));
                assert(panes@.subrange(0, p as int + 1).drop_last() =~= panes@.subrange(
                    0,
                    p as int,
                ));
                assert(panes@.subrange(0, p as int + 1).last() == panes@[p as int]);
            }
            p += 1;
        }
        proof {
            assert(panes@.subrange(0, panes@.len() as int) =~= panes@);
        }
        renames
    }
}

} // verus!
