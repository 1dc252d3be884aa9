//! The annotations on the overlay, the selection among them, and the history
//! of edits to them.
//!
//! What an annotation looks like is opaque here (`T`); this module keeps ids,
//! order, selection and undo/redo consistent.

use vstd::prelude::*;
use crate::history::{
    apply_entry, apply_updates, chain_ok, entry_ok, find_id, has_id, ids_below, insertions_match,
    lemma_chain_drop_first, lemma_chain_raise_bound, lemma_entry_applicable,
    lemma_entry_round_trip, lemma_insertions_present, lemma_position_unique,
    lemma_take_then_restore, lemma_update_round_trip, lemma_updates_effect, position_of,
    replace_data_at, state_ok, take_inserted, take_out, unique_ids, updates_match, Element, Entry,
    EntryModel, History, HISTORY_LIMIT,
};

verus! {

/// The positions and ids, in ascending order, of the elements whose id is in `ids`.
pub open spec fn matching<T>(els: Seq<Element<T>>, ids: Seq<u64>) -> Seq<(usize, u64)>
    decreases els.len(),
{
    if els.len() == 0 {
        Seq::empty()
    } else {
        let m = matching(els.drop_last(), ids);
        if ids.contains(els.last().id) {
            m.push(((els.len() - 1) as usize, els.last().id))
        } else {
            m
        }
    }
}

/// The elements whose id is not in `ids`, in their order.
pub open spec fn kept<T>(els: Seq<Element<T>>, ids: Seq<u64>) -> Seq<Element<T>>
    decreases els.len(),
{
    if els.len() == 0 {
        els
    } else {
        let k = kept(els.drop_last(), ids);
        if ids.contains(els.last().id) {
            k
        } else {
            k.push(els.last())
        }
    }
}

/// The ids of `sel` that are not in `ids`, in their order.
pub open spec fn without(sel: Seq<u64>, ids: Seq<u64>) -> Seq<u64>
    decreases sel.len(),
{
    if sel.len() == 0 {
        sel
    } else {
        let w = without(sel.drop_last(), ids);
        if ids.contains(sel.last()) {
            w
        } else {
            w.push(sel.last())
        }
    }
}

/// The ids of the elements, in their order.
pub open spec fn ids_of<T>(els: Seq<Element<T>>) -> Seq<u64> {
    els.map_values(|e: Element<T>| e.id)
}

/// The changes whose id is present in `els`, in their order.
pub open spec fn present_changes<T>(changes: Seq<(u64, T)>, els: Seq<Element<T>>) -> Seq<(u64, T)>
    decreases changes.len(),
{
    if changes.len() == 0 {
        changes
    } else {
        let p = present_changes(changes.drop_last(), els);
        if has_id(els, changes.last().0) {
            p.push(changes.last())
        } else {
            p
        }
    }
}

/// No id occurs twice.
pub open spec fn distinct(ids: Seq<u64>) -> bool {
    forall|i: int, j: int| 0 <= i < ids.len() && 0 <= j < ids.len() && i != j ==> ids[i] != ids[j]
}

/// No change names the same id twice.
pub open spec fn distinct_changes<T>(changes: Seq<(u64, T)>) -> bool {
    forall|i: int, j: int|
        0 <= i < changes.len() && 0 <= j < changes.len() && i != j ==> changes[i].0 != changes[j].0
}

/// The history after recording `entry` on top of `stack`.
pub open spec fn recorded<T>(stack: Seq<EntryModel<T>>, entry: EntryModel<T>) -> Seq<EntryModel<T>> {
    (if stack.len() == HISTORY_LIMIT {
        stack.drop_first()
    } else {
        stack
    }).push(entry)
}

proof fn lemma_matching_fits<T>(els: Seq<Element<T>>, ids: Seq<u64>)
    requires
        els.len() <= usize::MAX,
    ensures
        insertions_match(matching(els, ids), els),
        forall|j: int|
            0 <= j < matching(els, ids).len() ==> matching(els, ids)[j].0 < els.len(),
    decreases els.len(),
{
    if els.len() > 0 {
        let d = els.drop_last();
        lemma_matching_fits(d, ids);
        let m = matching(d, ids);
        assert forall|j: int| 0 <= j < m.len() implies els[m[j].0 as int] == d[m[j].0 as int] by {}
    }
}

/// Taking out the matching elements leaves exactly the kept ones.
proof fn lemma_take_matching<T>(els: Seq<Element<T>>, ids: Seq<u64>)
    requires
        els.len() <= usize::MAX,
        unique_ids(els),
    ensures
        take_inserted(matching(els, ids), els).1 == kept(els, ids),
        (matching(els, ids).len() == 0) <==> (forall|i: int|
            0 <= i < els.len() ==> !ids.contains(els[i].id)),
    decreases els.len(),
{
    if els.len() > 0 {
        let d = els.drop_last();
        let x = els.last();
        assert(unique_ids(d));
        lemma_take_matching(d, ids);
        lemma_matching_fits(d, ids);
        let m = matching(d, ids);
        if ids.contains(x.id) {
            lemma_position_unique(els, els.len() - 1);
            assert(els.remove(els.len() - 1) =~= d);
            assert(m.push(((els.len() - 1) as usize, x.id)).drop_last() == m);
        } else {
            assert(d.push(x) =~= els);
            lemma_take_push(m, d, x);
            assert forall|i: int| 0 <= i < els.len() && i != els.len() - 1 implies els[i]
                == d[i] by {}
        }
    }
}

/// Taking out elements of a list does not touch an element added at its end.
proof fn lemma_take_push<T>(ins: Seq<(usize, u64)>, els: Seq<Element<T>>, x: Element<T>)
    requires
        unique_ids(els.push(x)),
        insertions_match(ins, els),
    ensures
        take_inserted(ins, els.push(x)) == (take_inserted(ins, els).0, take_inserted(
            ins,
            els,
        ).1.push(x)),
    decreases ins.len(),
{
    if ins.len() > 0 {
        let full = els.push(x);
        let p = ins.last().0 as int;
        assert(full[p] == els[p]);
        lemma_position_unique(full, p);
        assert(unique_ids(els)) by {
            assert forall|i: int, j: int|
                0 <= i < els.len() && 0 <= j < els.len() && i != j implies els[i].id
                != els[j].id by {
                assert(full[i] == els[i] && full[j] == els[j]);
            }
        }
        lemma_position_unique(els, p);
        let e1 = els.remove(p);
        assert(full.remove(p) =~= e1.push(x));
        let ins1 = ins.drop_last();
        assert(unique_ids(e1.push(x))) by {
            assert forall|i: int, j: int|
                0 <= i < e1.len() + 1 && 0 <= j < e1.len() + 1 && i != j implies e1.push(
                x,
            )[i].id != e1.push(x)[j].id by {
                let f = e1.push(x);
                let a = if i == e1.len() {
                    full.len() - 1
                } else if i < p {
                    i
                } else {
                    i + 1
                };
                let b = if j == e1.len() {
                    full.len() - 1
                } else if j < p {
                    j
                } else {
                    j + 1
                };
                assert(f[i] == full[a]);
                assert(f[j] == full[b]);
            }
        }
        assert(insertions_match(ins1, e1)) by {
            assert forall|j: int| 0 <= j < ins1.len() implies ins1[j].0 < e1.len()
                && e1[ins1[j].0 as int].id == ins1[j].1 by {
                assert(ins[j].0 < ins[ins.len() - 1].0);
                assert(ins1[j] == ins[j]);
            }
        }
        lemma_take_push(ins1, e1, x);
    }
}

/// What `without` keeps.
proof fn lemma_without(sel: Seq<u64>, ids: Seq<u64>)
    ensures
        forall|x: u64| without(sel, ids).contains(x) <==> (sel.contains(x) && !ids.contains(x)),
        distinct(sel) ==> distinct(without(sel, ids)),
    decreases sel.len(),
{
    if sel.len() > 0 {
        let d = sel.drop_last();
        lemma_without(d, ids);
        assert forall|x: u64| without(sel, ids).contains(x) <==> (sel.contains(x) && !ids.contains(
            x,
        )) by {
            if sel.contains(x) && !ids.contains(x) {
                let i = choose|i: int| 0 <= i < sel.len() && sel[i] == x;
                if i < sel.len() - 1 {
                    assert(d[i] == x);
                    assert(d.contains(x));
                    let w = without(d, ids);
                    let k = choose|k: int| 0 <= k < w.len() && w[k] == x;
                    if !ids.contains(sel.last()) {
                        assert(w.push(sel.last())[k] == x);
                    }
                } else {
                    assert(without(sel, ids).last() == x);
                }
            }
            if without(sel, ids).contains(x) {
                if without(d, ids).contains(x) {
                    assert(d.contains(x) && !ids.contains(x));
                    let i = choose|i: int| 0 <= i < d.len() && d[i] == x;
                    assert(sel[i] == x);
                } else {
                    let w = without(sel, ids);
                    let k = choose|k: int| 0 <= k < w.len() && w[k] == x;
                    assert(sel[sel.len() - 1] == x);
                }
            }
        }
        if distinct(sel) {
            assert(distinct(d)) by {
                assert forall|i: int, j: int|
                    0 <= i < d.len() && 0 <= j < d.len() && i != j implies d[i] != d[j] by {
                    assert(sel[i] == d[i] && sel[j] == d[j]);
                }
            }
            let w = without(d, ids);
            if !ids.contains(sel.last()) {
                assert(!d.contains(sel.last())) by {
                    if d.contains(sel.last()) {
                        let i = choose|i: int| 0 <= i < d.len() && d[i] == sel.last();
                        assert(sel[i] == sel[sel.len() - 1]);
                    }
                }
                assert(!w.contains(sel.last()));
                assert forall|i: int, j: int|
                    0 <= i < w.len() + 1 && 0 <= j < w.len() + 1 && i != j implies w.push(
                    sel.last(),
                )[i] != w.push(sel.last())[j] by {
                    if i == w.len() {
                        assert(w.contains(w.push(sel.last())[j]) || j == w.len());
                    }
                    if j == w.len() {
                        assert(w.contains(w.push(sel.last())[i]) || i == w.len());
                    }
                }
            }
        }
    }
}

/// Present changes with distinct ids match the list.
proof fn lemma_present_changes<T>(changes: Seq<(u64, T)>, els: Seq<Element<T>>)
    requires
        distinct_changes(changes),
    ensures
        updates_match(present_changes(changes, els), els),
        forall|j: int|
            #![trigger present_changes(changes, els)[j]]
            0 <= j < present_changes(changes, els).len() ==> exists|k: int|
                #![trigger changes[k]]
                0 <= k < changes.len() && changes[k] == present_changes(changes, els)[j],
        forall|k: int|
            #![trigger changes[k]]
            0 <= k < changes.len() && has_id(els, changes[k].0) ==> exists|j: int|
                #![trigger present_changes(changes, els)[j]]
                0 <= j < present_changes(changes, els).len() && present_changes(changes, els)[j]
                    == changes[k],
    decreases changes.len(),
{
    if changes.len() > 0 {
        let d = changes.drop_last();
        assert(distinct_changes(d)) by {
            assert forall|i: int, j: int|
                0 <= i < d.len() && 0 <= j < d.len() && i != j implies d[i].0 != d[j].0 by {
                assert(d[i] == changes[i] && d[j] == changes[j]);
            }
        }
        lemma_present_changes(d, els);
        let p = present_changes(d, els);
        let q = present_changes(changes, els);
        assert forall|j: int| #![trigger q[j]] 0 <= j < q.len() implies exists|k: int|
            #![trigger changes[k]]
            0 <= k < changes.len() && changes[k] == q[j] by {
            if j < p.len() {
                let k = choose|k: int| 0 <= k < d.len() && d[k] == p[j];
                assert(changes[k] == q[j]);
            } else {
                assert(changes[changes.len() - 1] == q[j]);
            }
        }
        assert forall|k: int|
            #![trigger changes[k]]
            0 <= k < changes.len() && has_id(els, changes[k].0) implies exists|
            j: int,
        | #![trigger q[j]] 0 <= j < q.len() && q[j] == changes[k] by {
            if k < changes.len() - 1 {
                assert(d[k] == changes[k]);
                let j = choose|j: int| 0 <= j < p.len() && p[j] == d[k];
                assert(q[j] == p[j]);
            } else {
                assert(q[q.len() - 1] == changes[k]);
            }
        }
        assert(updates_match(q, els)) by {
            assert forall|j: int, k: int| 0 <= j < k < q.len() implies q[j].0 != q[k].0 by {
                let a = choose|a: int| 0 <= a < changes.len() && changes[a] == q[j];
                let b = choose|b: int| 0 <= b < changes.len() && changes[b] == q[k];
                if a == b {
                    if k < p.len() {
                        assert(updates_match(p, els));
                    } else {
                        let c = choose|c: int| 0 <= c < d.len() && d[c] == p[j];
                        assert(changes[c] == q[j]);
                        assert(c != changes.len() - 1);
                    }
                }
            }
            assert forall|j: int| 0 <= j < q.len() implies has_id(els, q[j].0) by {
                if j < p.len() {
                    assert(q[j] == p[j]);
                }
            }
        }
    }
}

/// `after` is what undoing the most recent edit of `before` leaves: the edit
/// is applied in reverse to the annotations and moves to the redo stack as
/// the edit that reapplies it.
pub open spec fn undo_step<T>(before: Document<T>, after: Document<T>) -> bool {
    let edit = before.undo_stack().last();
    let (reverse, annotations) = apply_entry(edit, before.elements_view());
    &&& before.undo_stack().len() > 0
    &&& after.elements_view() == annotations
    &&& after.undo_stack() == before.undo_stack().drop_last()
    &&& after.redo_stack() == before.redo_stack().push(reverse)
    &&& after.next_id_view() == before.next_id_view()
}

/// `after` is what redoing the most recently undone edit of `before` leaves.
pub open spec fn redo_step<T>(before: Document<T>, after: Document<T>) -> bool {
    let edit = before.redo_stack().last();
    let (reverse, annotations) = apply_entry(edit, before.elements_view());
    &&& before.redo_stack().len() > 0
    &&& after.elements_view() == annotations
    &&& after.redo_stack() == before.redo_stack().drop_last()
    &&& after.undo_stack() == before.undo_stack().push(reverse)
    &&& after.next_id_view() == before.next_id_view()
}

/// `after` is `before` with the annotation `id` removed and the removal
/// recorded, or unchanged when no annotation has that id.
pub open spec fn id_removed<T>(before: Document<T>, after: Document<T>, id: u64) -> bool {
    &&& after.elements_view() == kept(before.elements_view(), seq![id])
    &&& after.next_id_view() == before.next_id_view()
    &&& if has_id(before.elements_view(), id) {
        &&& after.selected_view() == without(before.selected_view(), seq![id])
        &&& after.undo_stack() == recorded(
            before.undo_stack(),
            EntryModel::Remove(
                take_inserted(matching(before.elements_view(), seq![id]), before.elements_view()).0,
            ),
        )
        &&& after.redo_stack() == Seq::<EntryModel<T>>::empty()
    } else {
        &&& after.selected_view() == before.selected_view()
        &&& after.undo_stack() == before.undo_stack()
        &&& after.redo_stack() == before.redo_stack()
    }
}

/// `after` is `before` with only the selection changed, to `selection`.
pub open spec fn selection_set<T>(before: Document<T>, after: Document<T>, selection: Seq<u64>) -> bool {
    &&& after.selected_view() == selection
    &&& after.elements_view() == before.elements_view()
    &&& after.undo_stack() == before.undo_stack()
    &&& after.redo_stack() == before.redo_stack()
    &&& after.next_id_view() == before.next_id_view()
}

/// The selection after a Ctrl-click on `id`: without it when it was
/// selected, with it added last otherwise.
pub open spec fn toggled(selection: Seq<u64>, id: u64) -> Seq<u64> {
    if selection.contains(id) {
        selection.remove(selection.index_of(id))
    } else {
        selection.push(id)
    }
}

/// The selection after a plain click on `hit`: only the hit annotation when
/// it was not selected, unchanged when it was, empty on a miss.
pub open spec fn clicked(selection: Seq<u64>, hit: Option<u64>) -> Seq<u64> {
    match hit {
        None => Seq::<u64>::empty(),
        Some(id) => if selection.contains(id) {
            selection
        } else {
            seq![id]
        },
    }
}

/// Whether deleting the selection of `before` changes the annotations: the
/// selection is not empty, and it either names as many ids as there are
/// annotations or names one of them.
pub open spec fn deletes_something<T>(before: Document<T>) -> bool {
    let sel = before.selected_view();
    let els = before.elements_view();
    sel.len() > 0 && (sel.len() == els.len() || matching(els, sel).len() > 0)
}

/// `after` is `before` with its selection deleted and emptied: the whole
/// list cleared when as many ids are selected as there are annotations, else
/// the selected annotations removed; the change recorded for undo and the
/// redo stack emptied; nothing recorded when nothing changed.
pub open spec fn selection_deleted<T>(before: Document<T>, after: Document<T>, changed: bool) -> bool {
    let sel = before.selected_view();
    let els = before.elements_view();
    &&& changed == deletes_something(before)
    &&& after.selected_view() == Seq::<u64>::empty()
    &&& after.next_id_view() == before.next_id_view()
    &&& if sel.len() == 0 {
        &&& after.elements_view() == els
        &&& after.undo_stack() == before.undo_stack()
        &&& after.redo_stack() == before.redo_stack()
    } else if sel.len() == els.len() {
        &&& after.elements_view() == Seq::<Element<T>>::empty()
        &&& after.undo_stack() == recorded(before.undo_stack(), EntryModel::Clear(els))
        &&& after.redo_stack() == Seq::<EntryModel<T>>::empty()
    } else {
        &&& after.elements_view() == kept(els, sel)
        &&& if changed {
            &&& after.undo_stack() == recorded(
                before.undo_stack(),
                EntryModel::Remove(take_inserted(matching(els, sel), els).0),
            )
            &&& after.redo_stack() == Seq::<EntryModel<T>>::empty()
        } else {
            &&& after.undo_stack() == before.undo_stack()
            &&& after.redo_stack() == before.redo_stack()
        }
    }
}

/// The views of two documents are the same.
pub open spec fn same_document<T>(before: Document<T>, after: Document<T>) -> bool {
    &&& after.elements_view() == before.elements_view()
    &&& after.selected_view() == before.selected_view()
    &&& after.undo_stack() == before.undo_stack()
    &&& after.redo_stack() == before.redo_stack()
    &&& after.next_id_view() == before.next_id_view()
}

/// `after` is `before` emptied with the clearing recorded, or unchanged when
/// there was nothing to clear.
pub open spec fn list_cleared<T>(before: Document<T>, after: Document<T>) -> bool {
    if before.elements_view().len() > 0 {
        &&& after.elements_view() == Seq::<Element<T>>::empty()
        &&& after.selected_view() == Seq::<u64>::empty()
        &&& after.undo_stack() == recorded(
            before.undo_stack(),
            EntryModel::Clear(before.elements_view()),
        )
        &&& after.redo_stack() == Seq::<EntryModel<T>>::empty()
        &&& after.next_id_view() == before.next_id_view()
    } else {
        same_document(before, after)
    }
}

/// The annotations, which of them are selected, and the history of edits.
pub struct Document<T> {
    elements: Vec<Element<T>>,
    selected: Vec<u64>,
    history: History<T>,
    next_id: u64,
}

impl<T> Document<T> {
    /// The annotations, bottom first.
    pub closed spec fn elements_view(&self) -> Seq<Element<T>> {
        self.elements@
    }

    /// The selected ids, in the order they were selected.
    pub closed spec fn selected_view(&self) -> Seq<u64> {
        self.selected@
    }

    /// The id the next annotation will get.
    pub closed spec fn next_id_view(&self) -> u64 {
        self.next_id
    }

    /// The edits that undo would reverse, the most recent last.
    pub closed spec fn undo_stack(&self) -> Seq<EntryModel<T>> {
        self.history.undo_stack()
    }

    /// The edits that redo would reapply, the next one last.
    pub closed spec fn redo_stack(&self) -> Seq<EntryModel<T>> {
        self.history.redo_stack()
    }

    /// Ids are unique and below the next id, the selection names no id twice,
    /// and every edit in the history can be undone and redone from where it stands.
    pub closed spec fn wf(&self) -> bool {
        &&& state_ok(self.elements@, self.next_id)
        &&& distinct(self.selected@)
        &&& chain_ok(self.history.undo_stack(), self.elements@, self.next_id)
        &&& chain_ok(self.history.redo_stack(), self.elements@, self.next_id)
    }

    /// An empty document; the first annotation gets id 1.
    pub fn new() -> (document: Self)
        ensures
            document.wf(),
            document.elements_view() == Seq::<Element<T>>::empty(),
            document.selected_view() == Seq::<u64>::empty(),
            document.next_id_view() == 1,
            document.undo_stack() == Seq::<EntryModel<T>>::empty(),
            document.redo_stack() == Seq::<EntryModel<T>>::empty(),
    {
        Document { elements: Vec::new(), selected: Vec::new(), history: History::new(), next_id: 1 }
    }

    /// The annotations, bottom first.
    pub fn elements(&self) -> (elements: &Vec<Element<T>>)
        ensures
            elements@ == self.elements_view(),
    {
        &self.elements
    }

    /// The selected ids.
    pub fn selected(&self) -> (selected: &Vec<u64>)
        ensures
            selected@ == self.selected_view(),
    {
        &self.selected
    }

    /// The annotation with `id`, if any.
    pub fn element(&self, id: u64) -> (element: Option<&Element<T>>)
        ensures
            match element {
                Some(e) => has_id(self.elements_view(), id) && *e == self.elements_view()[position_of(
                    self.elements_view(),
                    id,
                )],
                None => !has_id(self.elements_view(), id),
            },
    {
        match find_id(&self.elements, id) {
            Some(p) => Some(&self.elements[p]),
            None => None,
        }
    }

    /// Whether `id` is selected.
    pub fn is_selected(&self, id: u64) -> (selected: bool)
        ensures
            selected == self.selected_view().contains(id),
    {
        contains_id(self.selected.as_slice(), id)
    }

    /// Adds an annotation on top with a fresh id and records the insertion.
    pub fn insert_kind(&mut self, data: T) -> (id: u64)
        requires
            old(self).wf(),
            old(self).next_id_view() < u64::MAX,
        ensures
            final(self).wf(),
            id == old(self).next_id_view(),
            final(self).next_id_view() == id + 1,
            final(self).elements_view() == old(self).elements_view().push(
                Element { id: id, data: data },
            ),
            final(self).selected_view() == old(self).selected_view(),
            final(self).undo_stack() == recorded(
                old(self).undo_stack(),
                EntryModel::Insert(seq![(old(self).elements_view().len() as usize, id)]),
            ),
            final(self).redo_stack() == Seq::<EntryModel<T>>::empty(),
            apply_entry(final(self).undo_stack().last(), final(self).elements_view()).1 == old(
                self,
            ).elements_view(),
    {
        let id = self.next_id;
        let index = self.elements.len();
        let ghost before = self.elements@;
        let ghost undo_before = self.history.undo_stack();
        self.elements.push(Element { id, data });
        self.next_id = id + 1;
        let mut inserted: Vec<(usize, u64)> = Vec::new();
        inserted.push((index, id));
        assert(inserted@ =~= seq![(index, id)]);
        self.history.record(Entry::Insert(inserted));
        proof {
            let after = self.elements@;
            let e = EntryModel::<T>::Insert(seq![(index, id)]);
            assert(seq![(index, id)].drop_last() =~= Seq::<(usize, u64)>::empty());
            assert(self.history.undo_stack().last() == e);
            assert(state_ok(after, self.next_id)) by {
                assert forall|i: int, j: int|
                    0 <= i < after.len() && 0 <= j < after.len() && i != j implies after[i].id
                    != after[j].id by {
                    if i < before.len() {
                        assert(after[i] == before[i]);
                    }
                    if j < before.len() {
                        assert(after[j] == before[j]);
                    }
                }
            }
            assert(entry_ok(e, after, self.next_id));
            lemma_position_unique(after, index as int);
            assert(after.remove(index as int) =~= before);
            let r = take_inserted(seq![(index, id)].drop_last(), after.remove(index as int));
            assert(r == (Seq::<(usize, Element<T>)>::empty(), before));
            assert(apply_entry(e, after).1 == before);
            lemma_chain_raise_bound(undo_before, before, id, self.next_id);
            if undo_before.len() == HISTORY_LIMIT {
                lemma_chain_drop_first(undo_before, before, self.next_id);
            }
            let kept_stack = if undo_before.len() == HISTORY_LIMIT {
                undo_before.drop_first()
            } else {
                undo_before
            };
            assert(self.history.undo_stack().drop_last() == kept_stack);
        }
        id
    }

    /// Removes the annotations whose id is in `ids` and records the removal;
    /// the removed ids leave the selection too. Returns whether any was removed.
    pub fn remove_ids(&mut self, ids: &[u64]) -> (removed: bool)
        requires
            old(self).wf(),
        ensures
            final(self).wf(),
            removed == (matching(old(self).elements_view(), ids@).len() > 0),
            removed == exists|i: int|
                0 <= i < old(self).elements_view().len() && ids@.contains(
                    old(self).elements_view()[i].id,
                ),
            final(self).elements_view() == kept(old(self).elements_view(), ids@),
            final(self).next_id_view() == old(self).next_id_view(),
            !removed ==> final(self).selected_view() == old(self).selected_view()
                && final(self).undo_stack() == old(self).undo_stack() && final(self).redo_stack()
                == old(self).redo_stack(),
            removed ==> {
                &&& final(self).selected_view() == without(old(self).selected_view(), ids@)
                &&& final(self).undo_stack() == recorded(
                    old(self).undo_stack(),
                    EntryModel::Remove(
                        take_inserted(
                            matching(old(self).elements_view(), ids@),
                            old(self).elements_view(),
                        ).0,
                    ),
                )
                &&& final(self).redo_stack() == Seq::<EntryModel<T>>::empty()
                &&& apply_entry(final(self).undo_stack().last(), final(self).elements_view()).1
                    == old(self).elements_view()
            },
    {
        let count = self.elements.len();
        let ghost before = self.elements@;
        let matches = matching_positions(&self.elements, ids);
        proof {
            lemma_matching_fits(before, ids@);
            lemma_take_matching(before, ids@);
        }
        if matches.len() == 0 {
            proof {
                let m = matching(before, ids@);
                assert(take_inserted(m, before).1 == before);
            }
            assert(kept(before, ids@) == before);
            return false;
        }
        let ghost m = matches@;
        proof {
            assert(!(forall|i: int| 0 <= i < before.len() ==> !ids@.contains(before[i].id)));
            let w = choose|i: int| !(0 <= i < before.len() ==> !ids@.contains(before[i].id));
            assert(0 <= w < old(self).elements_view().len() && ids@.contains(
                old(self).elements_view()[w].id,
            ));
        }
        let ghost undo_before = self.history.undo_stack();
        proof {
            lemma_insertions_present(matches@, self.elements@);
        }
        let removed = take_out(matches, &mut self.elements);
        let ghost rem = removed@;
        self.history.record(Entry::Remove(removed));
        let mut selected: Vec<u64> = Vec::new();
        let mut i: usize = 0;
        while i < self.selected.len()
            invariant
                0 <= i <= self.selected@.len(),
                selected@ == without(self.selected@.take(i as int), ids@),
            decreases self.selected@.len() - i,
        {
            assert(self.selected@.take(i + 1).drop_last() =~= self.selected@.take(i as int));
            if !contains_id(ids, self.selected[i]) {
                selected.push(self.selected[i]);
            }
            i += 1;
        }
        assert(self.selected@.take(self.selected@.len() as int) =~= self.selected@);
        let ghost old_selected = self.selected@;
        self.selected = selected;
        proof {
            lemma_without(old_selected, ids@);
            lemma_take_then_restore(m, before);
            let after = self.elements@;
            let e = EntryModel::Remove(rem);
            assert(self.history.undo_stack().last() == e);
            assert forall|j: int| 0 <= j < rem.len() implies rem[j].1.id < self.next_id by {
                assert(rem[j].1 == before[m[j].0 as int]);
            }
            assert forall|i: int| 0 <= i < after.len() implies after[i].id < self.next_id by {
                assert(has_id(after, after[i].id));
            }
            assert(entry_ok(e, after, self.next_id));
            if undo_before.len() == HISTORY_LIMIT {
                lemma_chain_drop_first(undo_before, before, self.next_id);
            }
            let kept_stack = if undo_before.len() == HISTORY_LIMIT {
                undo_before.drop_first()
            } else {
                undo_before
            };
            assert(self.history.undo_stack().drop_last() == kept_stack);
        }
        true
    }

    /// Removes the annotation with `id`, if present, and records the removal.
    pub fn remove_id(&mut self, id: u64) -> (removed: bool)
        requires
            old(self).wf(),
        ensures
            final(self).wf(),
            removed == has_id(old(self).elements_view(), id),
            final(self).elements_view() == kept(old(self).elements_view(), seq![id]),
            removed ==> final(self).selected_view() == without(old(self).selected_view(), seq![id])
                && apply_entry(final(self).undo_stack().last(), final(self).elements_view()).1
                == old(self).elements_view(),
            !removed ==> final(self).selected_view() == old(self).selected_view()
                && final(self).undo_stack() == old(self).undo_stack(),
            id_removed(*old(self), *final(self), id),
    {
        let ids = [id];
        let removed = self.remove_ids(ids.as_slice());
        proof {
            assert(ids@ == seq![id]);
            if has_id(old(self).elements_view(), id) {
                let i = choose|i: int|
                    0 <= i < old(self).elements_view().len() && old(self).elements_view()[i].id
                        == id;
                assert(ids@.contains(old(self).elements_view()[i].id));
            }
            if removed {
                let i = choose|i: int|
                    0 <= i < old(self).elements_view().len() && ids@.contains(
                        old(self).elements_view()[i].id,
                    );
                assert(ids@[0] == id);
            }
        }
        removed
    }

    /// Empties the document and records the whole list; the selection is cleared.
    /// Returns whether there was anything to clear.
    pub fn clear(&mut self) -> (cleared: bool)
        requires
            old(self).wf(),
        ensures
            final(self).wf(),
            cleared == (old(self).elements_view().len() > 0),
            !cleared ==> final(self).selected_view() == old(self).selected_view()
                && final(self).undo_stack() == old(self).undo_stack() && final(self).redo_stack()
                == old(self).redo_stack(),
            cleared ==> {
                &&& final(self).elements_view() == Seq::<Element<T>>::empty()
                &&& final(self).selected_view() == Seq::<u64>::empty()
                &&& final(self).undo_stack() == recorded(
                    old(self).undo_stack(),
                    EntryModel::Clear(old(self).elements_view()),
                )
                &&& final(self).redo_stack() == Seq::<EntryModel<T>>::empty()
            },
            final(self).next_id_view() == old(self).next_id_view(),
            apply_entry(final(self).undo_stack().last(), final(self).elements_view()).1 == old(
                self,
            ).elements_view() || !cleared,
            list_cleared(*old(self), *final(self)),
    {
        if self.elements.len() == 0 {
            return false;
        }
        self.record_clear();
        self.selected.clear();
        true
    }

    /// Reverses the most recent edit, if any; the selection is cleared.
    pub fn undo(&mut self) -> (undone: bool)
        requires
            old(self).wf(),
        ensures
            final(self).wf(),
            undone == (old(self).undo_stack().len() > 0),
            final(self).next_id_view() == old(self).next_id_view(),
            !undone ==> final(self).elements_view() == old(self).elements_view()
                && final(self).selected_view() == old(self).selected_view()
                && final(self).undo_stack() == old(self).undo_stack() && final(self).redo_stack()
                == old(self).redo_stack(),
            undone ==> undo_step(*old(self), *final(self)) && final(self).selected_view() == Seq::<
                u64,
            >::empty(),
            !undone ==> same_document(*old(self), *final(self)),
    {
        let ghost els = self.elements@;
        let ghost undo_before = self.history.undo_stack();
        let ghost redo_before = self.history.redo_stack();
        proof {
            if undo_before.len() > 0 {
                assert(entry_ok(undo_before.last(), els, self.next_id));
                lemma_entry_applicable(undo_before.last(), els, self.next_id);
            }
        }
        if !self.history.undo(&mut self.elements) {
            return false;
        }
        self.selected.clear();
        proof {
            lemma_entry_round_trip(undo_before.last(), els, self.next_id);
            let inv = apply_entry(undo_before.last(), els).0;
            assert(self.history.redo_stack().drop_last() == redo_before);
            assert(self.history.redo_stack().last() == inv);
            assert(distinct(self.selected@));
        }
        true
    }

    /// Reapplies the most recently undone edit, if any; the selection is cleared.
    pub fn redo(&mut self) -> (redone: bool)
        requires
            old(self).wf(),
        ensures
            final(self).wf(),
            redone == (old(self).redo_stack().len() > 0),
            final(self).next_id_view() == old(self).next_id_view(),
            !redone ==> final(self).elements_view() == old(self).elements_view()
                && final(self).selected_view() == old(self).selected_view()
                && final(self).undo_stack() == old(self).undo_stack() && final(self).redo_stack()
                == old(self).redo_stack(),
            redone ==> redo_step(*old(self), *final(self)) && final(self).selected_view() == Seq::<
                u64,
            >::empty(),
            !redone ==> same_document(*old(self), *final(self)),
    {
        let ghost els = self.elements@;
        let ghost undo_before = self.history.undo_stack();
        let ghost redo_before = self.history.redo_stack();
        proof {
            if redo_before.len() > 0 {
                assert(entry_ok(redo_before.last(), els, self.next_id));
                lemma_entry_applicable(redo_before.last(), els, self.next_id);
            }
        }
        if !self.history.redo(&mut self.elements) {
            return false;
        }
        self.selected.clear();
        proof {
            lemma_entry_round_trip(redo_before.last(), els, self.next_id);
            let inv = apply_entry(redo_before.last(), els).0;
            assert(self.history.undo_stack().drop_last() == undo_before);
            assert(self.history.undo_stack().last() == inv);
            assert(distinct(self.selected@));
        }
        true
    }

    /// Deletes the selected annotations and empties the selection; when as
    /// many ids are selected as there are annotations, the whole list is
    /// cleared. Returns whether the annotations changed.
    pub fn delete_selection(&mut self) -> (changed: bool)
        requires
            old(self).wf(),
        ensures
            final(self).wf(),
            final(self).selected_view() == Seq::<u64>::empty(),
            final(self).next_id_view() == old(self).next_id_view(),
            old(self).selected_view().len() == 0 ==> !changed && final(self).elements_view()
                == old(self).elements_view() && final(self).undo_stack() == old(self).undo_stack()
                && final(self).redo_stack() == old(self).redo_stack(),
            old(self).selected_view().len() > 0 && old(self).selected_view().len() == old(
                self,
            ).elements_view().len() ==> {
                &&& changed
                &&& final(self).elements_view() == Seq::<Element<T>>::empty()
                &&& final(self).undo_stack() == recorded(
                    old(self).undo_stack(),
                    EntryModel::Clear(old(self).elements_view()),
                )
            },
            old(self).selected_view().len() > 0 && old(self).selected_view().len() != old(
                self,
            ).elements_view().len() ==> {
                &&& changed == (matching(old(self).elements_view(), old(self).selected_view()).len()
                    > 0)
                &&& final(self).elements_view() == kept(
                    old(self).elements_view(),
                    old(self).selected_view(),
                )
            },
            changed ==> apply_entry(final(self).undo_stack().last(), final(self).elements_view()).1
                == old(self).elements_view(),
            selection_deleted(*old(self), *final(self), changed),
    {
        let mut selected: Vec<u64> = Vec::new();
        std::mem::swap(&mut selected, &mut self.selected);
        if selected.len() == 0 {
            self.selected = selected;
            return false;
        }
        if selected.len() == self.elements.len() {
            self.record_clear();
            return true;
        }
        assert(distinct(self.selected@));
        let changed = self.remove_ids(selected.as_slice());
        proof {
            if changed {
                assert(without(Seq::<u64>::empty(), selected@) == Seq::<u64>::empty());
            }
        }
        changed
    }

    /// Selects every annotation, bottom first. Returns whether the selection changed.
    pub fn select_all(&mut self) -> (changed: bool)
        requires
            old(self).wf(),
        ensures
            final(self).wf(),
            final(self).selected_view() == ids_of(old(self).elements_view()),
            changed == (old(self).selected_view() != ids_of(old(self).elements_view())),
            final(self).elements_view() == old(self).elements_view(),
            final(self).undo_stack() == old(self).undo_stack(),
            final(self).redo_stack() == old(self).redo_stack(),
            final(self).next_id_view() == old(self).next_id_view(),
            selection_set(*old(self), *final(self), ids_of(old(self).elements_view())),
    {
        let mut ids: Vec<u64> = Vec::new();
        let mut i: usize = 0;
        while i < self.elements.len()
            invariant
                0 <= i <= self.elements@.len(),
                ids@ == ids_of(self.elements@.take(i as int)),
            decreases self.elements@.len() - i,
        {
            ids.push(self.elements[i].id);
            i += 1;
            assert(ids@ =~= ids_of(self.elements@.take(i as int)));
        }
        assert(self.elements@.take(self.elements@.len() as int) =~= self.elements@);
        let same = ids_equal(ids.as_slice(), self.selected.as_slice());
        self.selected = ids;
        assert(distinct(self.selected@)) by {
            assert forall|a: int, b: int|
                0 <= a < self.selected@.len() && 0 <= b < self.selected@.len() && a != b implies self.selected@[a]
                != self.selected@[b] by {
                assert(self.selected@[a] == self.elements@[a].id);
                assert(self.selected@[b] == self.elements@[b].id);
            }
        }
        !same
    }

    /// A Ctrl-click on `id`: selects it when it is not selected, deselects it otherwise.
    pub fn toggle_selected(&mut self, id: u64)
        requires
            old(self).wf(),
        ensures
            final(self).wf(),
            forall|i: int|
                0 <= i < old(self).selected_view().len() && old(self).selected_view()[i] == id
                    ==> final(self).selected_view() == old(self).selected_view().remove(i),
            !old(self).selected_view().contains(id) ==> final(self).selected_view() == old(
                self,
            ).selected_view().push(id),
            final(self).elements_view() == old(self).elements_view(),
            final(self).undo_stack() == old(self).undo_stack(),
            final(self).redo_stack() == old(self).redo_stack(),
            final(self).next_id_view() == old(self).next_id_view(),
            selection_set(*old(self), *final(self), toggled(old(self).selected_view(), id)),
    {
        let ghost sel = self.selected@;
        match index_of_id(self.selected.as_slice(), id) {
            Some(i) => {
                self.selected.remove(i);
                assert forall|k: int| 0 <= k < sel.len() && sel[k] == id implies k == i by {}
                assert(distinct(self.selected@)) by {
                    assert forall|a: int, b: int|
                        0 <= a < self.selected@.len() && 0 <= b < self.selected@.len() && a
                            != b implies self.selected@[a] != self.selected@[b] by {
                        let x = if a < i {
                            a
                        } else {
                            a + 1
                        };
                        let y = if b < i {
                            b
                        } else {
                            b + 1
                        };
                        assert(self.selected@[a] == sel[x]);
                        assert(self.selected@[b] == sel[y]);
                    }
                }
            },
            None => {
                self.selected.push(id);
                assert(distinct(self.selected@)) by {
                    assert forall|a: int, b: int|
                        0 <= a < self.selected@.len() && 0 <= b < self.selected@.len() && a
                            != b implies self.selected@[a] != self.selected@[b] by {
                        if a < sel.len() {
                            assert(self.selected@[a] == sel[a]);
                        }
                        if b < sel.len() {
                            assert(self.selected@[b] == sel[b]);
                        }
                        if a == sel.len() && b < sel.len() {
                            assert(sel.contains(sel[b]));
                        }
                        if b == sel.len() && a < sel.len() {
                            assert(sel.contains(sel[a]));
                        }
                    }
                }
            },
        }
    }

    /// A plain click with the select tool on `hit` (or on nothing): a hit that
    /// is not yet selected becomes the only selection, a miss clears it.
    /// Returns whether the selection changed in that sense.
    pub fn select_hit(&mut self, hit: Option<u64>) -> (changed: bool)
        requires
            old(self).wf(),
        ensures
            final(self).wf(),
            changed == match hit {
                None => true,
                Some(id) => !old(self).selected_view().contains(id),
            },
            final(self).selected_view() == match hit {
                None => Seq::<u64>::empty(),
                Some(id) => if changed {
                    seq![id]
                } else {
                    old(self).selected_view()
                },
            },
            final(self).elements_view() == old(self).elements_view(),
            final(self).undo_stack() == old(self).undo_stack(),
            final(self).redo_stack() == old(self).redo_stack(),
            final(self).next_id_view() == old(self).next_id_view(),
            selection_set(*old(self), *final(self), clicked(old(self).selected_view(), hit)),
    {
        match hit {
            None => {
                self.selected.clear();
                true
            },
            Some(id) => {
                let changed = !contains_id(self.selected.as_slice(), id);
                if changed {
                    self.selected.clear();
                    self.selected.push(id);
                    assert(self.selected@ =~= seq![id]);
                }
                changed
            },
        }
    }

    /// Replaces the data of the annotations named in `changes` that exist,
    /// in order, and records the data they had. Returns whether any existed.
    pub fn replace_data(&mut self, changes: Vec<(u64, T)>) -> (changed: bool)
        requires
            old(self).wf(),
            distinct_changes(changes@),
        ensures
            final(self).wf(),
            changed == (present_changes(changes@, old(self).elements_view()).len() > 0),
            final(self).elements_view() == apply_updates(
                present_changes(changes@, old(self).elements_view()),
                old(self).elements_view(),
            ).1,
            final(self).selected_view() == old(self).selected_view(),
            final(self).next_id_view() == old(self).next_id_view(),
            !changed ==> final(self).undo_stack() == old(self).undo_stack() && final(self).redo_stack() == old(self).redo_stack(),
            changed ==> {
                &&& final(self).undo_stack() == recorded(
                    old(self).undo_stack(),
                    EntryModel::Update(
                        apply_updates(
                            present_changes(changes@, old(self).elements_view()),
                            old(self).elements_view(),
                        ).0,
                    ),
                )
                &&& final(self).redo_stack() == Seq::<EntryModel<T>>::empty()
                &&& apply_entry(final(self).undo_stack().last(), final(self).elements_view()).1
                    == old(self).elements_view()
            },
    {
        let ghost all = changes@;
        let ghost start = self.elements@;
        let ghost undo_before = self.history.undo_stack();
        let mut changes = changes;
        let mut olds: Vec<(u64, T)> = Vec::new();
        while changes.len() > 0
            invariant
                changes@ == all.skip(all.len() - changes@.len()),
                changes@.len() <= all.len(),
                unique_ids(start),
                distinct_changes(all),
                self.selected@ == old(self).selected@,
                self.next_id == old(self).next_id,
                self.history.undo_stack() == old(self).history.undo_stack(),
                self.history.redo_stack() == old(self).history.redo_stack(),
                start == old(self).elements@,
                (olds@, self.elements@) == apply_updates(
                    present_changes(all.take(all.len() - changes@.len()), start),
                    start,
                ),
            decreases changes@.len(),
        {
            let ghost done = all.len() - changes@.len();
            proof {
                let prefix = all.take(done);
                assert(distinct_changes(prefix)) by {
                    assert forall|i: int, j: int|
                        0 <= i < prefix.len() && 0 <= j < prefix.len() && i != j implies prefix[i].0
                        != prefix[j].0 by {
                        assert(prefix[i] == all[i] && prefix[j] == all[j]);
                    }
                }
                lemma_present_changes(prefix, start);
                lemma_updates_effect(present_changes(prefix, start), start);
                assert(all.take(done + 1).drop_last() =~= prefix);
                assert(all.take(done + 1).last() == all[done]);
                assert forall|x: u64| has_id(self.elements@, x) <==> has_id(start, x) by {
                    if has_id(self.elements@, x) {
                        let i = choose|i: int| 0 <= i < self.elements@.len() && self.elements@[i].id == x;
                        assert(start[i].id == x);
                    }
                    if has_id(start, x) {
                        let i = choose|i: int| 0 <= i < start.len() && start[i].id == x;
                        assert(self.elements@[i].id == x);
                    }
                }
            }
            let (id, data) = changes.remove(0);
            assert(changes@ =~= all.skip(done + 1));
            assert((id, data) == all[done]);
            let ghost pc0 = present_changes(all.take(done), start);
            let ghost els0 = self.elements@;
            let ghost olds0 = olds@;
            assert(pc0.push((id, data)).drop_last() == pc0);
            match find_id(&self.elements, id) {
                Some(p) => {
                    let previous = replace_data_at(&mut self.elements, p, data);
                    olds.push((id, previous));
                    proof {
                        assert(has_id(start, id));
                        assert(present_changes(all.take(done + 1), start) == pc0.push((id, data)));
                        assert(apply_updates(pc0, start) == (olds0, els0));
                        assert(self.elements@ == els0.update(
                            p as int,
                            Element { id: id, data: data },
                        ));
                    }
                },
                None => {
                    assert(!has_id(start, id));
                    assert(present_changes(all.take(done + 1), start) == pc0);
                },
            }
        }
        assert(changes@.len() == 0);
        assert(all.take(all.len() - changes@.len()) =~= all);
        assert((olds@, self.elements@) == apply_updates(present_changes(all, start), start));
        proof {
            lemma_present_changes(all, start);
            let pc = present_changes(all, start);
            lemma_update_round_trip(pc, start);
            lemma_updates_effect(pc, start);
        }
        if olds.len() == 0 {
            return false;
        }
        let ghost olds_view = olds@;
        self.history.record(Entry::Update(olds));
        proof {
            let after = self.elements@;
            let pc = present_changes(all, start);
            let e = EntryModel::Update(olds_view);
            assert(self.history.undo_stack().last() == e);
            assert forall|i: int| 0 <= i < after.len() implies after[i].id < self.next_id by {
                assert(has_id(after, after[i].id));
                assert(has_id(start, after[i].id));
                let j = choose|j: int| 0 <= j < start.len() && start[j].id == after[i].id;
                assert(start[j].id < self.next_id);
            }
            assert(entry_ok(e, after, self.next_id));
            if undo_before.len() == HISTORY_LIMIT {
                lemma_chain_drop_first(undo_before, start, self.next_id);
            }
            let kept_stack = if undo_before.len() == HISTORY_LIMIT {
                undo_before.drop_first()
            } else {
                undo_before
            };
            assert(self.history.undo_stack().drop_last() == kept_stack);
        }
        true
    }

    /// Moves every annotation into a `Clear` entry of the history.
    fn record_clear(&mut self)
        requires
            old(self).wf(),
        ensures
            final(self).elements@ == Seq::<Element<T>>::empty(),
            final(self).selected@ == old(self).selected@,
            final(self).next_id == old(self).next_id,
            final(self).history.undo_stack() == recorded(
                old(self).history.undo_stack(),
                EntryModel::Clear(old(self).elements@),
            ),
            final(self).history.redo_stack() == Seq::<EntryModel<T>>::empty(),
            chain_ok(final(self).history.undo_stack(), final(self).elements@, final(self).next_id),
            chain_ok(final(self).history.redo_stack(), final(self).elements@, final(self).next_id),
            state_ok(final(self).elements@, final(self).next_id),
    {
        let ghost before = self.elements@;
        let ghost undo_before = self.history.undo_stack();
        let mut elements: Vec<Element<T>> = Vec::new();
        std::mem::swap(&mut elements, &mut self.elements);
        self.history.record(Entry::Clear(elements));
        proof {
            let e = EntryModel::Clear(before);
            assert(entry_ok(e, self.elements@, self.next_id));
            if undo_before.len() == HISTORY_LIMIT {
                lemma_chain_drop_first(undo_before, before, self.next_id);
            }
            let kept_stack = if undo_before.len() == HISTORY_LIMIT {
                undo_before.drop_first()
            } else {
                undo_before
            };
            assert(self.history.undo_stack().drop_last() == kept_stack);
            assert(self.history.undo_stack().last() == e);
        }
    }
}

/// Whether `id` occurs in `ids`.
pub fn contains_id(ids: &[u64], id: u64) -> (found: bool)
    ensures
        found == ids@.contains(id),
{
    let mut i: usize = 0;
    while i < ids.len()
        invariant
            0 <= i <= ids@.len(),
            forall|j: int| 0 <= j < i ==> ids@[j] != id,
        decreases ids@.len() - i,
    {
        if ids[i] == id {
            assert(ids@[i as int] == id);
            return true;
        }
        i += 1;
    }
    false
}

/// The positions and ids of the elements whose id is in `ids`, ascending.
fn matching_positions<T>(elements: &Vec<Element<T>>, ids: &[u64]) -> (matches: Vec<(usize, u64)>)
    ensures
        matches@ == matching(elements@, ids@),
{
    let mut matches: Vec<(usize, u64)> = Vec::new();
    let mut i: usize = 0;
    while i < elements.len()
        invariant
            0 <= i <= elements@.len(),
            matches@ == matching(elements@.take(i as int), ids@),
        decreases elements@.len() - i,
    {
        assert(elements@.take(i + 1).drop_last() =~= elements@.take(i as int));
        if contains_id(ids, elements[i].id) {
            matches.push((i, elements[i].id));
        }
        i += 1;
    }
    assert(elements@.take(elements@.len() as int) =~= elements@);
    matches
}

/// The position of `id` in `ids`, if it occurs.
pub fn index_of_id(ids: &[u64], id: u64) -> (index: Option<usize>)
    ensures
        match index {
            Some(i) => i < ids@.len() && ids@[i as int] == id && forall|j: int|
                0 <= j < i ==> ids@[j] != id,
            None => !ids@.contains(id),
        },
{
    let mut i: usize = 0;
    while i < ids.len()
        invariant
            0 <= i <= ids@.len(),
            forall|j: int| 0 <= j < i ==> ids@[j] != id,
        decreases ids@.len() - i,
    {
        if ids[i] == id {
            return Some(i);
        }
        i += 1;
    }
    None
}

/// Compares two id lists.
pub fn ids_equal(a: &[u64], b: &[u64]) -> (equal: bool)
    ensures
        equal == (a@ == b@),
{
    if a.len() != b.len() {
        return false;
    }
    let mut i: usize = 0;
    while i < a.len()
        invariant
            a@.len() == b@.len(),
            0 <= i <= a@.len(),
            forall|j: int| 0 <= j < i ==> a@[j] == b@[j],
        decreases a@.len() - i,
    {
        if a[i] != b[i] {
            return false;
        }
        i += 1;
    }
    assert(a@ =~= b@);
    true
}

/// Undoing the most recent edit and then redoing it gives back the same
/// annotations, and the edit it hands back is the one that was undone, so
/// the history is as before.
pub proof fn lemma_undo_then_redo<T>(document: Document<T>)
    requires
        document.wf(),
        document.undo_stack().len() > 0,
    ensures
        ({
            let edit = document.undo_stack().last();
            let (reverse, undone) = apply_entry(edit, document.elements_view());
            apply_entry(reverse, undone) == (edit, document.elements_view())
        }),
{
    let edit = document.undo_stack().last();
    assert(entry_ok(edit, document.elements_view(), document.next_id_view()));
    lemma_entry_round_trip(edit, document.elements_view(), document.next_id_view());
}

/// Redoing the most recently undone edit and then undoing it gives back the
/// same annotations and the same history.
pub proof fn lemma_redo_then_undo<T>(document: Document<T>)
    requires
        document.wf(),
        document.redo_stack().len() > 0,
    ensures
        ({
            let edit = document.redo_stack().last();
            let (reverse, redone) = apply_entry(edit, document.elements_view());
            apply_entry(reverse, redone) == (edit, document.elements_view())
        }),
{
    let edit = document.redo_stack().last();
    assert(entry_ok(edit, document.elements_view(), document.next_id_view()));
    lemma_entry_round_trip(edit, document.elements_view(), document.next_id_view());
}

/// Undo followed by redo gives back the annotations and both stacks as they were.
pub proof fn lemma_undo_redo_restores<T>(start: Document<T>, undone: Document<T>, redone: Document<T>)
    requires
        start.wf(),
        undo_step(start, undone),
        redo_step(undone, redone),
    ensures
        redone.elements_view() == start.elements_view(),
        redone.undo_stack() == start.undo_stack(),
        redone.redo_stack() == start.redo_stack(),
{
    lemma_undo_then_redo(start);
    assert(start.undo_stack().drop_last().push(start.undo_stack().last()) =~= start.undo_stack());
}

/// Redo followed by undo gives back the annotations and both stacks as they were.
pub proof fn lemma_redo_undo_restores<T>(start: Document<T>, redone: Document<T>, undone: Document<T>)
    requires
        start.wf(),
        redo_step(start, redone),
        undo_step(redone, undone),
    ensures
        undone.elements_view() == start.elements_view(),
        undone.undo_stack() == start.undo_stack(),
        undone.redo_stack() == start.redo_stack(),
{
    lemma_redo_then_undo(start);
    assert(start.redo_stack().drop_last().push(start.redo_stack().last()) =~= start.redo_stack());
}

/// Deleting the selection and then undoing once brings back every
/// annotation, in its place.
pub proof fn lemma_delete_then_undo<T>(before: Document<T>, deleted: Document<T>, undone: Document<T>)
    requires
        before.wf(),
        before.elements_view().len() <= usize::MAX,
        selection_deleted(before, deleted, true),
        undo_step(deleted, undone),
    ensures
        undone.elements_view() == before.elements_view(),
{
    let els = before.elements_view();
    let sel = before.selected_view();
    if sel.len() != els.len() {
        let m = matching(els, sel);
        lemma_matching_fits(els, sel);
        lemma_take_matching(els, sel);
        lemma_take_then_restore(m, els);
    }
}

/// Clearing the annotations and then undoing once brings every one back,
/// in its place. (With no annotations, clearing records nothing, and undo
/// goes back to the edit before.)
pub proof fn lemma_clear_then_undo<T>(before: Document<T>, cleared: Document<T>, undone: Document<T>)
    requires
        before.elements_view().len() > 0,
        list_cleared(before, cleared),
        undo_step(cleared, undone),
    ensures
        undone.elements_view() == before.elements_view(),
{
    let entry = EntryModel::Clear(before.elements_view());
    assert(cleared.undo_stack().last() == entry);
}

/// A selection that names an annotation present in the document deletes
/// something, so deleting it records an edit that undo takes back.
pub proof fn lemma_selection_names_annotation<T>(before: Document<T>, id: u64)
    requires
        before.wf(),
        before.elements_view().len() <= usize::MAX,
        before.selected_view().contains(id),
        has_id(before.elements_view(), id),
    ensures
        deletes_something(before),
{
    let els = before.elements_view();
    let sel = before.selected_view();
    if sel.len() != els.len() {
        lemma_take_matching(els, sel);
        let i = choose|i: int| 0 <= i < els.len() && els[i].id == id;
        assert(sel.contains(els[i].id));
    }
}

/// Once a new edit is recorded the redo stack is empty, so redo has nothing
/// to reapply: no state is a redo step away.
pub proof fn lemma_nothing_to_redo<T>(document: Document<T>, next: Document<T>)
    requires
        document.redo_stack().len() == 0,
    ensures
        !redo_step(document, next),
{
}

/// Every annotation's id stays unique and below the next id, whatever is undone or redone.
pub proof fn lemma_ids_unique<T>(document: Document<T>)
    requires
        document.wf(),
    ensures
        unique_ids(document.elements_view()),
        ids_below(document.elements_view(), document.next_id_view()),
{
}

} // verus!
