//! Undo and redo of edits to the list of annotations.
//!
//! Every edit is recorded as an [`Entry`] that, applied to the list as it
//! stands after the edit, brings back the list as it stood before, and hands
//! out the entry that redoes the edit.

use vstd::prelude::*;

verus! {

/// How many edits can be undone; older ones are forgotten.
pub const HISTORY_LIMIT: usize = 256;

/// One annotation: a unique id and what the overlay draws for it.
pub struct Element<T> {
    pub id: u64,
    pub data: T,
}

/// A recorded edit.
pub enum Entry<T> {
    /// Elements that were added, by final position and id.
    Insert(Vec<(usize, u64)>),
    /// Elements that were taken out, by former position, in ascending order.
    Remove(Vec<(usize, Element<T>)>),
    /// Elements whose data changed, with the data to put back.
    Update(Vec<(u64, T)>),
    /// The whole list as it was before it was emptied.
    Clear(Vec<Element<T>>),
}

/// The mathematical content of an [`Entry`].
pub enum EntryModel<T> {
    Insert(Seq<(usize, u64)>),
    Remove(Seq<(usize, Element<T>)>),
    Update(Seq<(u64, T)>),
    Clear(Seq<Element<T>>),
}

impl<T> View for Entry<T> {
    type V = EntryModel<T>;

    open spec fn view(&self) -> EntryModel<T> {
        match self {
            Entry::Insert(v) => EntryModel::Insert(v@),
            Entry::Remove(v) => EntryModel::Remove(v@),
            Entry::Update(v) => EntryModel::Update(v@),
            Entry::Clear(v) => EntryModel::Clear(v@),
        }
    }
}

/// No two elements share an id.
pub open spec fn unique_ids<T>(els: Seq<Element<T>>) -> bool {
    forall|i: int, j: int|
        0 <= i < els.len() && 0 <= j < els.len() && i != j ==> els[i].id != els[j].id
}

/// Every id is below `bound`.
pub open spec fn ids_below<T>(els: Seq<Element<T>>, bound: u64) -> bool {
    forall|i: int| 0 <= i < els.len() ==> els[i].id < bound
}

/// Some element carries `id`.
pub open spec fn has_id<T>(els: Seq<Element<T>>, id: u64) -> bool {
    exists|i: int| 0 <= i < els.len() && els[i].id == id
}

/// `i` is the first position of an element with `id`.
pub open spec fn is_first_with_id<T>(els: Seq<Element<T>>, id: u64, i: int) -> bool {
    &&& 0 <= i < els.len()
    &&& els[i].id == id
    &&& forall|j: int| 0 <= j < i ==> els[j].id != id
}

/// The first position of an element with `id`, or -1.
pub open spec fn position_of<T>(els: Seq<Element<T>>, id: u64) -> int {
    if exists|i: int| is_first_with_id(els, id, i) {
        choose|i: int| is_first_with_id(els, id, i)
    } else {
        -1
    }
}

/// Undoing an insertion: takes the inserted elements out, last first.
pub open spec fn take_inserted<T>(ins: Seq<(usize, u64)>, els: Seq<Element<T>>) -> (Seq<
    (usize, Element<T>),
>, Seq<Element<T>>)
    decreases ins.len(),
{
    if ins.len() == 0 {
        (Seq::empty(), els)
    } else {
        let p = position_of(els, ins.last().1);
        let (removed, rest) = take_inserted(ins.drop_last(), els.remove(p));
        (removed.push((ins.last().0, els[p])), rest)
    }
}

/// Undoing a removal: puts the removed elements back, first first, each at its
/// former position or at the end when the list is shorter.
pub open spec fn restore_removed<T>(rem: Seq<(usize, Element<T>)>, els: Seq<Element<T>>) -> (Seq<
    (usize, u64),
>, Seq<Element<T>>)
    decreases rem.len(),
{
    if rem.len() == 0 {
        (Seq::empty(), els)
    } else {
        let (ins, mid) = restore_removed(rem.drop_last(), els);
        let index = rem.last().0;
        let at = if index < mid.len() {
            index as int
        } else {
            mid.len() as int
        };
        (ins.push((index, rem.last().1.id)), mid.insert(at, rem.last().1))
    }
}

/// Undoing an update: puts the recorded data back, first first, and keeps the
/// data it replaces.
pub open spec fn apply_updates<T>(ups: Seq<(u64, T)>, els: Seq<Element<T>>) -> (Seq<(u64, T)>, Seq<
    Element<T>,
>)
    decreases ups.len(),
{
    if ups.len() == 0 {
        (Seq::empty(), els)
    } else {
        let (olds, mid) = apply_updates(ups.drop_last(), els);
        let id = ups.last().0;
        let p = position_of(mid, id);
        (olds.push((id, mid[p].data)), mid.update(p, Element { id: id, data: ups.last().1 }))
    }
}

/// What applying `entry` to `els` gives: the entry that reverses it, and the new list.
pub open spec fn apply_entry<T>(entry: EntryModel<T>, els: Seq<Element<T>>) -> (EntryModel<T>, Seq<
    Element<T>,
>) {
    match entry {
        EntryModel::Insert(ins) => {
            let (removed, rest) = take_inserted(ins, els);
            (EntryModel::Remove(removed), rest)
        },
        EntryModel::Remove(rem) => {
            let (ins, full) = restore_removed(rem, els);
            (EntryModel::Insert(ins), full)
        },
        EntryModel::Update(ups) => {
            let (olds, new) = apply_updates(ups, els);
            (EntryModel::Update(olds), new)
        },
        EntryModel::Clear(prev) => (EntryModel::Clear(els), prev),
    }
}

/// Each inserted id stands at its recorded position, and the positions ascend.
pub open spec fn insertions_match<T>(ins: Seq<(usize, u64)>, els: Seq<Element<T>>) -> bool {
    &&& forall|j: int|
        0 <= j < ins.len() ==> ins[j].0 < els.len() && els[ins[j].0 as int].id == ins[j].1
    &&& forall|j: int, k: int| 0 <= j < k < ins.len() ==> ins[j].0 < ins[k].0
}

/// The removed elements fit back at their former positions: the positions
/// ascend, none lies past the end, and no id clashes.
pub open spec fn removals_match<T>(rem: Seq<(usize, Element<T>)>, els: Seq<Element<T>>) -> bool {
    &&& forall|j: int| 0 <= j < rem.len() ==> rem[j].0 <= els.len() + j
    &&& forall|j: int, k: int| 0 <= j < k < rem.len() ==> rem[j].0 < rem[k].0
    &&& forall|j: int, k: int| 0 <= j < k < rem.len() ==> rem[j].1.id != rem[k].1.id
    &&& forall|j: int| 0 <= j < rem.len() ==> !has_id(els, rem[j].1.id)
}

/// Each updated id is present, and none is updated twice.
pub open spec fn updates_match<T>(ups: Seq<(u64, T)>, els: Seq<Element<T>>) -> bool {
    &&& forall|j: int| 0 <= j < ups.len() ==> has_id(els, ups[j].0)
    &&& forall|j: int, k: int| 0 <= j < k < ups.len() ==> ups[j].0 != ups[k].0
}

/// The ids of `els` are unique and below `bound`.
pub open spec fn state_ok<T>(els: Seq<Element<T>>, bound: u64) -> bool {
    unique_ids(els) && ids_below(els, bound)
}

/// Each inserted id is present when its turn comes: the last one in `els`,
/// each earlier one once the later ones are taken out.
pub open spec fn inserted_present<T>(ins: Seq<(usize, u64)>, els: Seq<Element<T>>) -> bool
    decreases ins.len(),
{
    if ins.len() == 0 {
        true
    } else {
        &&& has_id(els, ins.last().1)
        &&& inserted_present(ins.drop_last(), els.remove(position_of(els, ins.last().1)))
    }
}

/// `entry` can be applied to `els`: every id it looks for is there.
pub open spec fn applicable<T>(entry: EntryModel<T>, els: Seq<Element<T>>) -> bool {
    match entry {
        EntryModel::Insert(ins) => inserted_present(ins, els),
        EntryModel::Update(ups) => forall|j: int| 0 <= j < ups.len() ==> has_id(els, ups[j].0),
        _ => true,
    }
}

/// `entry` fits `els`: applying it and then its reverse comes back to `els`.
pub open spec fn entry_ok<T>(entry: EntryModel<T>, els: Seq<Element<T>>, bound: u64) -> bool {
    &&& state_ok(els, bound)
    &&& match entry {
        EntryModel::Insert(ins) => insertions_match(ins, els),
        EntryModel::Remove(rem) => removals_match(rem, els) && forall|j: int|
            0 <= j < rem.len() ==> rem[j].1.id < bound,
        EntryModel::Update(ups) => updates_match(ups, els),
        EntryModel::Clear(prev) => state_ok(prev, bound),
    }
}

/// Applying the entries of `stack` from the last to the first, starting at
/// `els`, never fails and keeps the ids unique and below `bound`.
pub open spec fn chain_ok<T>(stack: Seq<EntryModel<T>>, els: Seq<Element<T>>, bound: u64) -> bool
    decreases stack.len(),
{
    if stack.len() == 0 {
        state_ok(els, bound)
    } else {
        &&& entry_ok(stack.last(), els, bound)
        &&& chain_ok(stack.drop_last(), apply_entry(stack.last(), els).1, bound)
    }
}

/// With unique ids, the first position of the id found at `i` is `i`.
pub proof fn lemma_position_unique<T>(els: Seq<Element<T>>, i: int)
    requires
        unique_ids(els),
        0 <= i < els.len(),
    ensures
        position_of(els, els[i].id) == i,
{
    assert(is_first_with_id(els, els[i].id, i));
    let c = choose|c: int| is_first_with_id(els, els[i].id, c);
    assert(c == i);
}

/// A present id has a position.
pub proof fn lemma_position_found<T>(els: Seq<Element<T>>, id: u64)
    requires
        unique_ids(els),
        has_id(els, id),
    ensures
        0 <= position_of(els, id) < els.len(),
        els[position_of(els, id)].id == id,
{
    let i = choose|i: int| 0 <= i < els.len() && els[i].id == id;
    lemma_position_unique(els, i);
}

/// A present id has a first position, and `position_of` finds it.
pub proof fn lemma_position_of_present<T>(els: Seq<Element<T>>, id: u64)
    requires
        has_id(els, id),
    ensures
        is_first_with_id(els, id, position_of(els, id)),
{
    let i = choose|i: int| 0 <= i < els.len() && els[i].id == id;
    lemma_first_at_most(els, id, i);
}

/// An element with `id` at `i` means a first one at or before `i`.
proof fn lemma_first_at_most<T>(els: Seq<Element<T>>, id: u64, i: int)
    requires
        0 <= i < els.len(),
        els[i].id == id,
    ensures
        exists|k: int| is_first_with_id(els, id, k),
    decreases i,
{
    if exists|j: int| 0 <= j < i && els[j].id == id {
        let j = choose|j: int| 0 <= j < i && els[j].id == id;
        lemma_first_at_most(els, id, j);
    } else {
        assert(is_first_with_id(els, id, i));
    }
}

/// Updating data leaves every position's id as it was, as long as every
/// updated id is present.
pub proof fn lemma_updates_keep_ids<T>(ups: Seq<(u64, T)>, els: Seq<Element<T>>)
    requires
        forall|j: int| 0 <= j < ups.len() ==> has_id(els, ups[j].0),
    ensures
        apply_updates(ups, els).1.len() == els.len(),
        forall|i: int| 0 <= i < els.len() ==> apply_updates(ups, els).1[i].id == els[i].id,
    decreases ups.len(),
{
    if ups.len() > 0 {
        let ups1 = ups.drop_last();
        assert forall|j: int| 0 <= j < ups1.len() implies has_id(els, ups1[j].0) by {
            assert(ups1[j] == ups[j]);
        }
        lemma_updates_keep_ids(ups1, els);
        let mid = apply_updates(ups1, els).1;
        let id = ups.last().0;
        assert(has_id(els, ups[ups.len() - 1].0));
        let i = choose|i: int| 0 <= i < els.len() && els[i].id == id;
        assert(mid[i].id == id);
        lemma_position_of_present(mid, id);
    }
}

/// Insertions whose positions match a list of unique ids are each present when their turn comes.
pub proof fn lemma_insertions_present<T>(ins: Seq<(usize, u64)>, els: Seq<Element<T>>)
    requires
        unique_ids(els),
        insertions_match(ins, els),
    ensures
        inserted_present(ins, els),
    decreases ins.len(),
{
    if ins.len() > 0 {
        let last = ins.last();
        let p = last.0 as int;
        lemma_position_unique(els, p);
        let rest = els.remove(p);
        let ins1 = ins.drop_last();
        assert(unique_ids(rest)) by {
            assert forall|i: int, j: int|
                0 <= i < rest.len() && 0 <= j < rest.len() && i != j implies rest[i].id
                != rest[j].id by {
                let a = if i < p {
                    i
                } else {
                    i + 1
                };
                let b = if j < p {
                    j
                } else {
                    j + 1
                };
                assert(rest[i] == els[a]);
                assert(rest[j] == els[b]);
            }
        }
        assert(insertions_match(ins1, rest)) by {
            assert forall|j: int| 0 <= j < ins1.len() implies ins1[j].0 < rest.len()
                && rest[ins1[j].0 as int].id == ins1[j].1 by {
                assert(ins[j].0 < ins[ins.len() - 1].0);
                assert(ins1[j] == ins[j]);
            }
        }
        lemma_insertions_present(ins1, rest);
    }
}

/// An entry that fits the list can be applied to it.
pub proof fn lemma_entry_applicable<T>(entry: EntryModel<T>, els: Seq<Element<T>>, bound: u64)
    requires
        entry_ok(entry, els, bound),
    ensures
        applicable(entry, els),
{
    match entry {
        EntryModel::Insert(ins) => lemma_insertions_present(ins, els),
        _ => {},
    }
}

/// Undoing an insertion whose positions match takes out exactly the elements
/// at those positions, and putting them back restores the list.
pub proof fn lemma_take_then_restore<T>(ins: Seq<(usize, u64)>, els: Seq<Element<T>>)
    requires
        unique_ids(els),
        insertions_match(ins, els),
    ensures
        ({
            let (rem, rest) = take_inserted(ins, els);
            &&& rem.len() == ins.len()
            &&& rest.len() == els.len() - ins.len()
            &&& forall|j: int|
                0 <= j < ins.len() ==> rem[j].0 == ins[j].0 && rem[j].1 == els[ins[j].0 as int]
            &&& removals_match(rem, rest)
            &&& unique_ids(rest)
            &&& forall|x: u64| has_id(rest, x) ==> has_id(els, x)
            &&& restore_removed(rem, rest) == (ins, els)
        }),
    decreases ins.len(),
{
    if ins.len() > 0 {
        let last = ins.last();
        let p = last.0 as int;
        lemma_position_unique(els, p);
        let els1 = els.remove(p);
        let ins1 = ins.drop_last();
        assert(unique_ids(els1)) by {
            assert forall|i: int, j: int|
                0 <= i < els1.len() && 0 <= j < els1.len() && i != j implies els1[i].id
                != els1[j].id by {
                let a = if i < p {
                    i
                } else {
                    i + 1
                };
                let b = if j < p {
                    j
                } else {
                    j + 1
                };
                assert(els1[i] == els[a]);
                assert(els1[j] == els[b]);
            }
        }
        assert(insertions_match(ins1, els1)) by {
            assert forall|j: int| 0 <= j < ins1.len() implies ins1[j].0 < els1.len()
                && els1[ins1[j].0 as int].id == ins1[j].1 by {
                assert(ins[j].0 < ins[ins.len() - 1].0);
                assert(ins1[j] == ins[j]);
            }
        }
        lemma_take_then_restore(ins1, els1);
        let (rem1, rest) = take_inserted(ins1, els1);
        let (rem, rest2) = take_inserted(ins, els);
        assert(rest2 == rest);
        assert(rem == rem1.push((last.0, els[p])));
        assert(forall|x: u64| has_id(els1, x) ==> has_id(els, x)) by {
            assert forall|x: u64| has_id(els1, x) implies has_id(els, x) by {
                let i = choose|i: int| 0 <= i < els1.len() && els1[i].id == x;
                if i < p {
                    assert(els1[i] == els[i]);
                } else {
                    assert(els1[i] == els[i + 1]);
                }
            }
        }
        assert forall|j: int| 0 <= j < ins.len() implies rem[j].0 == ins[j].0 && rem[j].1
            == els[ins[j].0 as int] by {
            if j < ins.len() - 1 {
                assert(ins[j].0 < ins[ins.len() - 1].0);
                assert(ins1[j] == ins[j]);
                assert(els1[ins[j].0 as int] == els[ins[j].0 as int]);
            }
        }
        assert(!has_id(els1, els[p].id)) by {
            if has_id(els1, els[p].id) {
                let i = choose|i: int| 0 <= i < els1.len() && els1[i].id == els[p].id;
                if i < p {
                    assert(els1[i] == els[i]);
                } else {
                    assert(els1[i] == els[i + 1]);
                }
            }
        }
        assert(removals_match(rem, rest)) by {
            assert forall|j: int, k: int| 0 <= j < k < rem.len() implies rem[j].1.id
                != rem[k].1.id by {
                assert(ins[j].0 < ins[k].0);
            }
            assert forall|j: int| 0 <= j < rem.len() implies !has_id(rest, rem[j].1.id) by {
                if j == rem.len() - 1 {
                    if has_id(rest, els[p].id) {
                        assert(has_id(els1, els[p].id));
                    }
                }
            }
        }
        let (ins_back, mid) = restore_removed(rem1, rest);
        assert(rem.drop_last() == rem1);
        assert(els1.insert(p, els[p]) =~= els);
        assert(ins1.push(last) =~= ins);
    }
}

/// Putting removed elements back at matching positions, and then undoing
/// that insertion, takes out the same elements again.
pub proof fn lemma_restore_then_take<T>(rem: Seq<(usize, Element<T>)>, els: Seq<Element<T>>)
    requires
        unique_ids(els),
        removals_match(rem, els),
    ensures
        ({
            let (ins, full) = restore_removed(rem, els);
            &&& ins.len() == rem.len()
            &&& full.len() == els.len() + rem.len()
            &&& forall|j: int| 0 <= j < rem.len() ==> ins[j] == (rem[j].0, rem[j].1.id)
            &&& insertions_match(ins, full)
            &&& unique_ids(full)
            &&& forall|x: u64|
                has_id(full, x) <==> (has_id(els, x) || exists|j: int|
                    0 <= j < rem.len() && rem[j].1.id == x)
            &&& take_inserted(ins, full) == (rem, els)
        }),
    decreases rem.len(),
{
    if rem.len() > 0 {
        let rem1 = rem.drop_last();
        let last = rem.last();
        let p = last.0 as int;
        let e = last.1;
        assert(removals_match(rem1, els)) by {
            assert forall|j: int, k: int| 0 <= j < k < rem1.len() implies rem1[j].0 < rem1[k].0
                && rem1[j].1.id != rem1[k].1.id by {
                assert(rem1[j] == rem[j] && rem1[k] == rem[k]);
            }
        }
        lemma_restore_then_take(rem1, els);
        let (ins1, mid) = restore_removed(rem1, els);
        assert(p <= mid.len()) by {
            assert(rem[rem.len() - 1].0 <= els.len() + (rem.len() - 1));
        }
        let full = mid.insert(p, e);
        let (ins, full2) = restore_removed(rem, els);
        assert(full2 == full);
        assert(ins == ins1.push((last.0, e.id)));
        assert(!has_id(mid, e.id)) by {
            if has_id(mid, e.id) {
                if !has_id(els, e.id) {
                    let j = choose|j: int| 0 <= j < rem1.len() && rem1[j].1.id == e.id;
                    assert(rem[j].1.id != rem[rem.len() - 1].1.id);
                }
            }
        }
        assert(unique_ids(full)) by {
            assert forall|i: int, j: int|
                0 <= i < full.len() && 0 <= j < full.len() && i != j implies full[i].id
                != full[j].id by {
                if i == p {
                    if j < p {
                        assert(full[j] == mid[j]);
                    } else {
                        assert(full[j] == mid[j - 1]);
                    }
                } else if j == p {
                    if i < p {
                        assert(full[i] == mid[i]);
                    } else {
                        assert(full[i] == mid[i - 1]);
                    }
                } else {
                    let a = if i < p {
                        i
                    } else {
                        i - 1
                    };
                    let b = if j < p {
                        j
                    } else {
                        j - 1
                    };
                    assert(full[i] == mid[a]);
                    assert(full[j] == mid[b]);
                }
            }
        }
        assert forall|j: int| 0 <= j < rem.len() implies ins[j] == (rem[j].0, rem[j].1.id) by {
            if j < rem.len() - 1 {
                assert(rem1[j] == rem[j]);
            }
        }
        assert(insertions_match(ins, full)) by {
            assert forall|j: int| 0 <= j < ins.len() implies ins[j].0 < full.len()
                && full[ins[j].0 as int].id == ins[j].1 by {
                if j < ins.len() - 1 {
                    assert(rem[j].0 < rem[rem.len() - 1].0);
                    assert(ins1[j] == ins[j]);
                    assert(full[ins[j].0 as int] == mid[ins[j].0 as int]);
                }
            }
            assert forall|j: int, k: int| 0 <= j < k < ins.len() implies ins[j].0 < ins[k].0 by {
                assert(rem[j].0 < rem[k].0);
            }
        }
        assert forall|x: u64|
            has_id(full, x) <==> (has_id(els, x) || exists|j: int|
                0 <= j < rem.len() && rem[j].1.id == x) by {
            if has_id(full, x) {
                let i = choose|i: int| 0 <= i < full.len() && full[i].id == x;
                if i == p {
                    assert(rem[rem.len() - 1].1.id == x);
                } else if i < p {
                    assert(full[i] == mid[i]);
                    assert(has_id(mid, x));
                    if !has_id(els, x) {
                        let j = choose|j: int| 0 <= j < rem1.len() && rem1[j].1.id == x;
                        assert(rem[j].1.id == x);
                    }
                } else {
                    assert(full[i] == mid[i - 1]);
                    assert(has_id(mid, x));
                    if !has_id(els, x) {
                        let j = choose|j: int| 0 <= j < rem1.len() && rem1[j].1.id == x;
                        assert(rem[j].1.id == x);
                    }
                }
            }
            if has_id(els, x) {
                assert(has_id(mid, x));
                let i = choose|i: int| 0 <= i < mid.len() && mid[i].id == x;
                if i < p {
                    assert(full[i] == mid[i]);
                } else {
                    assert(full[i + 1] == mid[i]);
                }
            } else if exists|j: int| 0 <= j < rem.len() && rem[j].1.id == x {
                let j = choose|j: int| 0 <= j < rem.len() && rem[j].1.id == x;
                if j == rem.len() - 1 {
                    assert(full[p].id == x);
                } else {
                    assert(rem1[j].1.id == x);
                    assert(has_id(mid, x));
                    let i = choose|i: int| 0 <= i < mid.len() && mid[i].id == x;
                    if i < p {
                        assert(full[i] == mid[i]);
                    } else {
                        assert(full[i + 1] == mid[i]);
                    }
                }
            }
        }
        lemma_position_unique(full, p);
        assert(full.remove(p) =~= mid);
        assert(ins.drop_last() == ins1);
        assert(rem1.push(last) =~= rem);
    }
}

/// The index in `ups` of the update for `id`.
pub open spec fn update_index<T>(ups: Seq<(u64, T)>, id: u64) -> int {
    choose|j: int| 0 <= j < ups.len() && ups[j].0 == id
}

/// What applying updates with distinct, present ids does, element by element.
pub proof fn lemma_updates_effect<T>(ups: Seq<(u64, T)>, els: Seq<Element<T>>)
    requires
        unique_ids(els),
        updates_match(ups, els),
    ensures
        ({
            let (olds, new) = apply_updates(ups, els);
            &&& olds.len() == ups.len()
            &&& new.len() == els.len()
            &&& forall|i: int| 0 <= i < els.len() ==> new[i].id == els[i].id
            &&& forall|j: int|
                0 <= j < ups.len() ==> olds[j] == (ups[j].0, els[position_of(els, ups[j].0)].data)
            &&& forall|j: int|
                0 <= j < ups.len() ==> new[position_of(els, ups[j].0)] == Element {
                    id: ups[j].0,
                    data: ups[j].1,
                }
            &&& forall|i: int|
                0 <= i < els.len() && (forall|j: int| 0 <= j < ups.len() ==> ups[j].0 != els[i].id)
                    ==> new[i] == els[i]
        }),
    decreases ups.len(),
{
    if ups.len() > 0 {
        let ups1 = ups.drop_last();
        assert(updates_match(ups1, els)) by {
            assert forall|j: int, k: int| 0 <= j < k < ups1.len() implies ups1[j].0
                != ups1[k].0 by {
                assert(ups1[j] == ups[j] && ups1[k] == ups[k]);
            }
        }
        lemma_updates_effect(ups1, els);
        let (olds1, mid) = apply_updates(ups1, els);
        let id = ups.last().0;
        lemma_position_found(els, id);
        let p = position_of(els, id);
        assert(unique_ids(mid));
        lemma_position_unique(mid, p);
        assert(position_of(mid, id) == p);
        assert(mid[p] == els[p]) by {
            assert forall|j: int| 0 <= j < ups1.len() implies ups1[j].0 != els[p].id by {
                assert(ups[j].0 != ups[ups.len() - 1].0);
            }
        }
        let (olds, new) = apply_updates(ups, els);
        assert forall|j: int| 0 <= j < ups.len() implies new[position_of(els, ups[j].0)]
            == Element::<T> { id: ups[j].0, data: ups[j].1 } by {
            if j < ups.len() - 1 {
                assert(ups1[j] == ups[j]);
                assert(ups[j].0 != id);
                lemma_position_found(els, ups[j].0);
            }
        }
        assert forall|j: int| 0 <= j < ups.len() implies olds[j] == (
            ups[j].0,
            els[position_of(els, ups[j].0)].data,
        ) by {
            if j < ups.len() - 1 {
                assert(ups1[j] == ups[j]);
            }
        }
        assert forall|i: int|
            0 <= i < els.len() && (forall|j: int| 0 <= j < ups.len() ==> ups[j].0 != els[i].id)
                implies new[i] == els[i] by {
            assert(ups[ups.len() - 1].0 != els[i].id);
            assert forall|j: int| 0 <= j < ups1.len() implies ups1[j].0 != els[i].id by {
                assert(ups1[j] == ups[j]);
            }
        }
    }
}

/// Applying an update and then the update it hands out restores the list.
pub proof fn lemma_update_round_trip<T>(ups: Seq<(u64, T)>, els: Seq<Element<T>>)
    requires
        unique_ids(els),
        updates_match(ups, els),
    ensures
        ({
            let (olds, new) = apply_updates(ups, els);
            &&& updates_match(olds, new)
            &&& unique_ids(new)
            &&& forall|x: u64| has_id(new, x) <==> has_id(els, x)
            &&& apply_updates(olds, new) == (ups, els)
        }),
{
    lemma_updates_effect(ups, els);
    let (olds, new) = apply_updates(ups, els);
    assert forall|x: u64| has_id(new, x) <==> has_id(els, x) by {
        if has_id(new, x) {
            let i = choose|i: int| 0 <= i < new.len() && new[i].id == x;
            assert(els[i].id == x);
        }
        if has_id(els, x) {
            let i = choose|i: int| 0 <= i < els.len() && els[i].id == x;
            assert(new[i].id == x);
        }
    }
    assert(unique_ids(new)) by {
        assert forall|i: int, j: int|
            0 <= i < new.len() && 0 <= j < new.len() && i != j implies new[i].id != new[j].id by {
            assert(new[i].id == els[i].id && new[j].id == els[j].id);
        }
    }
    assert(updates_match(olds, new)) by {
        assert forall|j: int| 0 <= j < olds.len() implies has_id(new, olds[j].0) by {
            assert(has_id(els, ups[j].0));
        }
        assert forall|j: int, k: int| 0 <= j < k < olds.len() implies olds[j].0 != olds[k].0 by {
            assert(ups[j].0 != ups[k].0);
        }
    }
    lemma_updates_effect(olds, new);
    let (ups2, els2) = apply_updates(olds, new);
    assert forall|j: int| 0 <= j < ups.len() implies position_of(new, ups[j].0) == position_of(
        els,
        ups[j].0,
    ) by {
        lemma_position_found(els, ups[j].0);
        let p = position_of(els, ups[j].0);
        lemma_position_unique(new, p);
    }
    assert(ups2 =~= ups) by {
        assert forall|j: int| 0 <= j < ups.len() implies ups2[j] == ups[j] by {
            let p = position_of(els, ups[j].0);
            assert(new[p] == Element::<T> { id: ups[j].0, data: ups[j].1 });
        }
    }
    assert(els2 =~= els) by {
        assert forall|i: int| 0 <= i < els.len() implies els2[i] == els[i] by {
            if exists|j: int| 0 <= j < ups.len() && ups[j].0 == els[i].id {
                let j = choose|j: int| 0 <= j < ups.len() && ups[j].0 == els[i].id;
                lemma_position_unique(els, i);
                assert(position_of(els, ups[j].0) == i);
                assert(olds[j] == (ups[j].0, els[i].data));
                assert(olds[j].0 == ups[j].0);
                assert(els2[i] == Element::<T> { id: olds[j].0, data: olds[j].1 });
            } else {
                assert forall|j: int| 0 <= j < olds.len() implies olds[j].0 != new[i].id by {
                    assert(olds[j].0 == ups[j].0);
                }
                assert(new[i] == els[i]);
            }
        }
    }
}

/// Applying a fitting entry and then the entry it hands out comes back to
/// the same list and the same entry; the handed-out entry fits as well.
pub proof fn lemma_entry_round_trip<T>(entry: EntryModel<T>, els: Seq<Element<T>>, bound: u64)
    requires
        entry_ok(entry, els, bound),
    ensures
        entry_ok(apply_entry(entry, els).0, apply_entry(entry, els).1, bound),
        apply_entry(apply_entry(entry, els).0, apply_entry(entry, els).1) == (entry, els),
{
    match entry {
        EntryModel::Insert(ins) => {
            lemma_take_then_restore(ins, els);
            let (rem, rest) = take_inserted(ins, els);
            assert forall|j: int| 0 <= j < rem.len() implies rem[j].1.id < bound by {
                assert(rem[j].1 == els[ins[j].0 as int]);
            }
            assert forall|i: int| 0 <= i < rest.len() implies rest[i].id < bound by {
                assert(has_id(rest, rest[i].id));
            }
        },
        EntryModel::Remove(rem) => {
            lemma_restore_then_take(rem, els);
            let (ins, full) = restore_removed(rem, els);
            assert forall|i: int| 0 <= i < full.len() implies full[i].id < bound by {
                assert(has_id(full, full[i].id));
                if !has_id(els, full[i].id) {
                    let j = choose|j: int| 0 <= j < rem.len() && rem[j].1.id == full[i].id;
                }
            }
        },
        EntryModel::Update(ups) => {
            lemma_update_round_trip(ups, els);
            let (olds, new) = apply_updates(ups, els);
            assert forall|i: int| 0 <= i < new.len() implies new[i].id < bound by {
                assert(has_id(new, new[i].id));
            }
        },
        EntryModel::Clear(prev) => {},
    }
}

/// Forgetting the oldest entry of a chain keeps it a chain.
pub proof fn lemma_chain_drop_first<T>(stack: Seq<EntryModel<T>>, els: Seq<Element<T>>, bound: u64)
    requires
        chain_ok(stack, els, bound),
        stack.len() > 0,
    ensures
        chain_ok(stack.drop_first(), els, bound),
    decreases stack.len(),
{
    if stack.len() == 1 {
        assert(stack.drop_first().len() == 0);
    } else {
        let next = apply_entry(stack.last(), els).1;
        lemma_chain_drop_first(stack.drop_last(), next, bound);
        assert(stack.drop_first().drop_last() =~= stack.drop_last().drop_first());
        assert(stack.drop_first().last() == stack.last());
    }
}

/// A chain stays a chain under a larger bound.
pub proof fn lemma_chain_raise_bound<T>(
    stack: Seq<EntryModel<T>>,
    els: Seq<Element<T>>,
    bound: u64,
    larger: u64,
)
    requires
        chain_ok(stack, els, bound),
        bound <= larger,
    ensures
        chain_ok(stack, els, larger),
    decreases stack.len(),
{
    if stack.len() > 0 {
        lemma_chain_raise_bound(stack.drop_last(), apply_entry(stack.last(), els).1, bound, larger);
    }
}

/// Finds the first element that carries `id`.
pub fn find_id<T>(elements: &Vec<Element<T>>, id: u64) -> (found: Option<usize>)
    ensures
        match found {
            Some(p) => p == position_of(elements@, id) && is_first_with_id(elements@, id, p as int),
            None => !has_id(elements@, id) && position_of(elements@, id) == -1,
        },
{
    let mut i: usize = 0;
    while i < elements.len()
        invariant
            0 <= i <= elements@.len(),
            forall|j: int| 0 <= j < i ==> elements@[j].id != id,
        decreases elements@.len() - i,
    {
        if elements[i].id == id {
            proof {
                assert(is_first_with_id(elements@, id, i as int));
                let c = choose|c: int| is_first_with_id(elements@, id, c);
                assert(c == i);
            }
            return Some(i);
        }
        i += 1;
    }
    assert(!exists|c: int| is_first_with_id(elements@, id, c));
    None
}

/// Replaces the data of the element at `p`, keeping its id, and returns the old data.
pub(crate) fn replace_data_at<T>(elements: &mut Vec<Element<T>>, p: usize, data: T) -> (previous: T)
    requires
        p < old(elements)@.len(),
    ensures
        previous == old(elements)@[p as int].data,
        final(elements)@ == old(elements)@.update(
            p as int,
            Element { id: old(elements)@[p as int].id, data: data },
        ),
{
    let element = elements.remove(p);
    let id = element.id;
    elements.insert(p, Element { id, data });
    assert(final(elements)@ =~= old(elements)@.update(p as int, Element { id: id, data: data }));
    element.data
}


/// Takes out the elements with the given ids, the last one first, and
/// returns them with the positions recorded beside the ids, in the order given.
pub fn take_out<T>(inserted: Vec<(usize, u64)>, elements: &mut Vec<Element<T>>) -> (removed: Vec<
    (usize, Element<T>),
>)
    requires
        inserted_present(inserted@, old(elements)@),
    ensures
        (removed@, final(elements)@) == take_inserted(inserted@, old(elements)@),
{
    let ghost all = inserted@;
    let ghost start = elements@;
    let mut inserted = inserted;
    let mut removed: Vec<(usize, Element<T>)> = Vec::new();
    while inserted.len() > 0
        invariant
            inserted_present(inserted@, elements@),
            inserted@ == all.take(inserted@.len() as int),
            inserted@.len() <= all.len(),
            take_inserted(all, start) == ({
                let (r, rest) = take_inserted(inserted@, elements@);
                (r + removed@, rest)
            }),
        decreases inserted@.len(),
    {
        let ghost before = inserted@;
        let ghost els = elements@;
        let ghost removed_before = removed@;
        let (index, id) = inserted.pop().unwrap();
        assert(before.drop_last() == inserted@);
        proof {
            lemma_position_of_present(els, id);
        }
        let p = find_id(elements, id).unwrap();
        let element = elements.remove(p);
        removed.insert(0, (index, element));
        proof {
            assert(all.take(inserted@.len() as int) =~= all.take(
                before.len() as int,
            ).drop_last());
            let (r, rest) = take_inserted(inserted@, elements@);
            assert(removed@ =~= seq![(index, element)] + removed_before);
            assert(r.push((index, element)) + removed_before =~= r + removed@);
        }
    }
    assert(all.take(0) =~= Seq::<(usize, u64)>::empty());
    assert(Seq::<(usize, Element<T>)>::empty() + removed@ =~= removed@);
    removed
}

/// Applies a recorded edit to `elements` and returns the edit that reverses it.
pub fn apply<T>(entry: Entry<T>, elements: &mut Vec<Element<T>>) -> (reverse: Entry<T>)
    requires
        applicable(entry@, old(elements)@),
    ensures
        (reverse@, final(elements)@) == apply_entry(entry@, old(elements)@),
{
    match entry {
        Entry::Insert(inserted) => {
            let removed = take_out(inserted, elements);
            Entry::Remove(removed)
        },
        Entry::Remove(removed) => {
            let ghost all = removed@;
            let ghost start = elements@;
            let mut removed = removed;
            let mut inserted: Vec<(usize, u64)> = Vec::new();
            while removed.len() > 0
                invariant
                    removed@ == all.skip(all.len() - removed@.len()),
                    removed@.len() <= all.len(),
                    (inserted@, elements@) == restore_removed(
                        all.take(all.len() - removed@.len()),
                        start,
                    ),
                decreases removed@.len(),
            {
                let ghost done = all.len() - removed@.len();
                let (index, element) = removed.remove(0);
                assert(all.take(done + 1).drop_last() =~= all.take(done));
                assert(all.take(done + 1).last() == all[done]);
                assert(removed@ =~= all.skip(done + 1));
                let id = element.id;
                let at = if index < elements.len() {
                    index
                } else {
                    elements.len()
                };
                elements.insert(at, element);
                inserted.push((index, id));
            }
            assert(all.take(all.len() as int) =~= all);
            Entry::Insert(inserted)
        },
        Entry::Update(updates) => {
            let ghost all = updates@;
            let ghost start = elements@;
            let mut updates = updates;
            let mut olds: Vec<(u64, T)> = Vec::new();
            assert(applicable(EntryModel::Update(all), start));
            while updates.len() > 0
                invariant
                    updates@ == all.skip(all.len() - updates@.len()),
                    updates@.len() <= all.len(),
                    forall|j: int| 0 <= j < all.len() ==> has_id(start, all[j].0),
                    (olds@, elements@) == apply_updates(all.take(all.len() - updates@.len()), start),
                decreases updates@.len(),
            {
                let ghost done = all.len() - updates@.len();
                proof {
                    let prefix = all.take(done);
                    assert forall|j: int| 0 <= j < prefix.len() implies has_id(
                        start,
                        prefix[j].0,
                    ) by {
                        assert(prefix[j] == all[j]);
                    }
                    lemma_updates_keep_ids(prefix, start);
                    let id = all[done].0;
                    assert(has_id(start, id));
                    let i = choose|i: int| 0 <= i < start.len() && start[i].id == id;
                    assert(elements@[i].id == id);
                    lemma_position_of_present(elements@, id);
                }
                let (id, data) = updates.remove(0);
                assert(all.take(done + 1).drop_last() =~= all.take(done));
                assert(all.take(done + 1).last() == all[done]);
                assert(updates@ =~= all.skip(done + 1));
                let p = find_id(elements, id).unwrap();
                let previous = replace_data_at(elements, p, data);
                olds.push((id, previous));
            }
            assert(all.take(all.len() as int) =~= all);
            Entry::Update(olds)
        },
        Entry::Clear(previous) => {
            let mut previous = previous;
            std::mem::swap(elements, &mut previous);
            Entry::Clear(previous)
        },
    }
}

/// The models of a stack of entries, oldest first.
pub open spec fn entry_models<T>(entries: Seq<Entry<T>>) -> Seq<EntryModel<T>> {
    entries.map_values(|e: Entry<T>| e@)
}

/// The edits that can be undone and redone, oldest first.
pub struct History<T> {
    undo: Vec<Entry<T>>,
    redo: Vec<Entry<T>>,
}

impl<T> History<T> {
    /// The edits that undo would reverse, the most recent last.
    pub closed spec fn undo_stack(&self) -> Seq<EntryModel<T>> {
        entry_models(self.undo@)
    }

    /// The edits that redo would reapply, the next one last.
    pub closed spec fn redo_stack(&self) -> Seq<EntryModel<T>> {
        entry_models(self.redo@)
    }

    /// An empty history.
    pub fn new() -> (history: Self)
        ensures
            history.undo_stack() == Seq::<EntryModel<T>>::empty(),
            history.redo_stack() == Seq::<EntryModel<T>>::empty(),
    {
        let history = History { undo: Vec::new(), redo: Vec::new() };
        assert(history.undo_stack() =~= Seq::<EntryModel<T>>::empty());
        assert(history.redo_stack() =~= Seq::<EntryModel<T>>::empty());
        history
    }

    /// Records a new edit: it becomes the next one to undo, the oldest one is
    /// forgotten when the limit is reached, and nothing can be redone any more.
    pub fn record(&mut self, entry: Entry<T>)
        ensures
            final(self).undo_stack() == (if old(self).undo_stack().len() == HISTORY_LIMIT {
                old(self).undo_stack().drop_first()
            } else {
                old(self).undo_stack()
            }).push(entry@),
            final(self).redo_stack() == Seq::<EntryModel<T>>::empty(),
    {
        let ghost before = self.undo@;
        if self.undo.len() == HISTORY_LIMIT {
            self.undo.remove(0);
            assert(entry_models(self.undo@) =~= entry_models(before).drop_first());
        }
        let ghost mid = self.undo@;
        self.undo.push(entry);
        self.redo.clear();
        assert(entry_models(self.undo@) =~= entry_models(mid).push(entry@));
        assert(entry_models(self.redo@) =~= Seq::<EntryModel<T>>::empty());
    }

    /// Reverses the most recent edit, if any, and makes it the next one to redo.
    pub fn undo(&mut self, elements: &mut Vec<Element<T>>) -> (undone: bool)
        requires
            old(self).undo_stack().len() > 0 ==> applicable(
                old(self).undo_stack().last(),
                old(elements)@,
            ),
        ensures
            undone == (old(self).undo_stack().len() > 0),
            !undone ==> final(self).undo_stack() == old(self).undo_stack() && final(self).redo_stack()
                == old(self).redo_stack() && final(elements)@ == old(elements)@,
            undone ==> {
                &&& final(self).undo_stack() == old(self).undo_stack().drop_last()
                &&& final(self).redo_stack() == old(self).redo_stack().push(
                    apply_entry(old(self).undo_stack().last(), old(elements)@).0,
                )
                &&& final(elements)@ == apply_entry(
                    old(self).undo_stack().last(),
                    old(elements)@,
                ).1
            },
    {
        let ghost undo_before = self.undo@;
        let ghost redo_before = self.redo@;
        match self.undo.pop() {
            None => {
                assert(entry_models(self.undo@) =~= entry_models(undo_before));
                false
            },
            Some(entry) => {
                assert(entry_models(undo_before).last() == entry@);
                let reverse = apply(entry, elements);
                self.redo.push(reverse);
                assert(entry_models(self.undo@) =~= entry_models(undo_before).drop_last());
                assert(entry_models(self.redo@) =~= entry_models(redo_before).push(reverse@));
                true
            },
        }
    }

    /// Reapplies the most recently undone edit, if any, and makes it the next one to undo.
    pub fn redo(&mut self, elements: &mut Vec<Element<T>>) -> (redone: bool)
        requires
            old(self).redo_stack().len() > 0 ==> applicable(
                old(self).redo_stack().last(),
                old(elements)@,
            ),
        ensures
            redone == (old(self).redo_stack().len() > 0),
            !redone ==> final(self).undo_stack() == old(self).undo_stack() && final(self).redo_stack()
                == old(self).redo_stack() && final(elements)@ == old(elements)@,
            redone ==> {
                &&& final(self).redo_stack() == old(self).redo_stack().drop_last()
                &&& final(self).undo_stack() == old(self).undo_stack().push(
                    apply_entry(old(self).redo_stack().last(), old(elements)@).0,
                )
                &&& final(elements)@ == apply_entry(
                    old(self).redo_stack().last(),
                    old(elements)@,
                ).1
            },
    {
        let ghost undo_before = self.undo@;
        let ghost redo_before = self.redo@;
        match self.redo.pop() {
            None => {
                assert(entry_models(self.redo@) =~= entry_models(redo_before));
                false
            },
            Some(entry) => {
                assert(entry_models(redo_before).last() == entry@);
                let reverse = apply(entry, elements);
                self.undo.push(reverse);
                assert(entry_models(self.redo@) =~= entry_models(redo_before).drop_last());
                assert(entry_models(self.undo@) =~= entry_models(undo_before).push(reverse@));
                true
            },
        }
    }
}

} // verus!
