//! The radio group interaction engine.
//!
//! A group aggregates radio items, each of which tracks press/hover/focus
//! through the shared press machine. On a valid activation of an item the
//! group emits exactly one [`SelectItem`] event naming the group and the
//! item; it never emits deselection events and never reads the current
//! selection. The host, as the sole owner of "which item is selected",
//! applies the event atomically: set the named item selected and every
//! sibling deselected. [`apply_select`] is the reference host handler and is
//! proved to leave exactly one item selected.

use crate::press::{press_emits, press_set_disabled, press_step, PressInput, PressState};
use vstd::prelude::*;

verus! {

/// Intent event: ask the host to make `item` the selected item of `group`
/// and to treat every sibling as deselected.
#[derive(Clone, Copy, Debug, PartialEq, Eq, Structural)]
pub struct SelectItem {
    /// The host's handle for the radio group.
    pub group: u64,
    /// The host's handle for the newly selected item.
    pub item: u64,
}

/// One radio item: a host handle plus the shared press machine. The item
/// does not know whether it is selected; selection is host state.
#[derive(Clone, Copy, Debug, PartialEq, Eq, Structural)]
pub struct CoreRadio {
    /// The host's handle for this item, echoed in [`SelectItem`] events.
    pub id: u64,
    /// The press machine that decides when this item activates.
    pub press: PressState,
}

/// A radio group: a host handle plus its member items. The group holds no
/// selection state of its own.
#[derive(Debug, PartialEq, Eq)]
pub struct CoreRadioGroup {
    /// The host's handle for the group, echoed in [`SelectItem`] events.
    pub id: u64,
    /// The member items, in the host's order.
    pub items: Vec<CoreRadio>,
}

impl CoreRadioGroup {
    /// Every member item satisfies the press machine's invariant.
    pub open spec fn wf(self) -> bool {
        forall|i: int| 0 <= i < self.items@.len() ==> (#[trigger] self.items@[i]).press.wf()
    }

    /// An empty group with the given host handle.
    pub fn new(id: u64) -> (g: CoreRadioGroup)
        ensures
            g.id == id,
            g.items@.len() == 0,
            g.wf(),
    {
        CoreRadioGroup { id, items: Vec::new() }
    }

    /// Adds a fresh, enabled item with the given host handle to the end of
    /// the group.
    pub fn add_item(&mut self, item_id: u64)
        ensures
            final(self).id == old(self).id,
            final(self).items@ == old(self).items@.push(
                (CoreRadio {
                    id: item_id,
                    press: PressState {
                        disabled: false,
                        pressed: false,
                        hovered: false,
                        focused: false,
                    },
                }),
            ),
            old(self).wf() ==> final(self).wf(),
    {
        let press = PressState::new();
        self.items.push(CoreRadio { id: item_id, press });
    }

    /// Feeds one input event to the item at `index`. Emits exactly one
    /// [`SelectItem`] naming this group and that item when the item's press
    /// machine reports an activation, and nothing otherwise; no other item
    /// is touched and no deselection event exists to be emitted.
    pub fn handle_item(&mut self, index: usize, ev: PressInput) -> (out: Option<SelectItem>)
        requires
            index < old(self).items@.len(),
        ensures
            final(self).id == old(self).id,
            final(self).items@ == old(self).items@.update(
                index as int,
                (CoreRadio {
                    id: old(self).items@[index as int].id,
                    press: press_step(old(self).items@[index as int].press, ev),
                }),
            ),
            out == (if press_emits(old(self).items@[index as int].press, ev) {
                Some(SelectItem { group: old(self).id, item: old(self).items@[index as int].id })
            } else {
                None::<SelectItem>
            }),
            old(self).wf() ==> final(self).wf(),
    {
        let item = &mut self.items[index];
        let activated = item.press.handle(ev);
        let item_id = item.id;
        let group_id = self.id;
        proof {
            if old(self).wf() {
                assert forall|i: int|
                    0 <= i < self.items@.len() implies (#[trigger] self.items@[i]).press.wf() by {
                    if i != index as int {
                        assert(self.items@[i] == old(self).items@[i]);
                    }
                }
            }
        }
        if activated {
            Some(SelectItem { group: group_id, item: item_id })
        } else {
            None
        }
    }

    /// Sets the disabled flag of the item at `index`; disabling mid-press
    /// force-releases that item's press without emitting anything.
    pub fn set_item_disabled(&mut self, index: usize, disabled: bool)
        requires
            index < old(self).items@.len(),
        ensures
            final(self).id == old(self).id,
            final(self).items@ == old(self).items@.update(
                index as int,
                (CoreRadio {
                    id: old(self).items@[index as int].id,
                    press: press_set_disabled(old(self).items@[index as int].press, disabled),
                }),
            ),
            old(self).wf() ==> final(self).wf(),
    {
        let item = &mut self.items[index];
        item.press.set_disabled(disabled);
        proof {
            if old(self).wf() {
                assert forall|i: int|
                    0 <= i < self.items@.len() implies (#[trigger] self.items@[i]).press.wf() by {
                    if i != index as int {
                        assert(self.items@[i] == old(self).items@[i]);
                    }
                }
            }
        }
    }
}

/// How many entries of a selection vector are set.
pub open spec fn count_selected(s: Seq<bool>) -> nat
    decreases s.len(),
{
    if s.len() == 0 {
        0
    } else {
        (if s[0] { 1nat } else { 0nat }) + count_selected(s.drop_first())
    }
}

proof fn lemma_count_selected_none(s: Seq<bool>)
    requires
        forall|j: int| 0 <= j < s.len() ==> !(#[trigger] s[j]),
    ensures
        count_selected(s) == 0,
    decreases s.len(),
{
    if s.len() > 0 {
        assert(!s[0]);
        lemma_count_selected_none(s.drop_first());
    }
}

proof fn lemma_count_selected_single(s: Seq<bool>, idx: int)
    requires
        0 <= idx < s.len(),
        forall|j: int| 0 <= j < s.len() ==> (#[trigger] s[j]) == (j == idx),
    ensures
        count_selected(s) == 1,
    decreases s.len(),
{
    let rest = s.drop_first();
    assert(forall|j: int| 0 <= j < rest.len() ==> (#[trigger] rest[j]) == s[j + 1]);
    if idx == 0 {
        assert(s[0]);
        lemma_count_selected_none(rest);
    } else {
        assert(!s[0]);
        lemma_count_selected_single(rest, idx - 1);
    }
}

/// The reference host handler for [`SelectItem`]: given the host's current
/// per-item selection flags and the index of the newly selected item, it
/// returns the new flags — the named item selected, every sibling
/// deselected. Afterwards exactly one item of the group is selected.
pub fn apply_select(selected: &Vec<bool>, index: usize) -> (out: Vec<bool>)
    requires
        index < selected@.len(),
    ensures
        out@.len() == selected@.len(),
        forall|j: int| 0 <= j < out@.len() ==> (#[trigger] out@[j]) == (j == index as int),
        count_selected(out@) == 1,
{
    let mut out: Vec<bool> = Vec::new();
    let mut j: usize = 0;
    let n = selected.len();
    while j < n
        invariant
            j <= n,
            n == selected@.len(),
            index < n,
            out@.len() == j,
            forall|k: int| 0 <= k < j ==> (#[trigger] out@[k]) == (k == index as int),
        decreases n - j,
    {
        out.push(j == index);
        j += 1;
    }
    proof {
        lemma_count_selected_single(out@, index as int);
    }
    out
}

} // verus!
