//! Reconciliation: a list is replaced wholesale by a fresh snapshot while its
//! selection cursor stays on the same logical row wherever that row still
//! exists.

use vstd::prelude::*;
use crate::sorting::{is_stable_sort, lemma_stable_sort_keeps_rows, lemma_stable_sort_unique,
    sort_by_name, stable_sort, stable_sort_witness};
use crate::summary::Row;

verus! {

/// A cursor is valid for a list when it points at one of its rows, or at
/// nothing.
pub open spec fn cursor_valid(len: nat, cursor: Option<usize>) -> bool {
    match cursor {
        Some(i) => i < len,
        None => true,
    }
}

/// The row of `rows` at `index` has the identity `id`.
pub open spec fn has_id<T: Row>(rows: Seq<T>, index: int, id: Seq<char>) -> bool {
    0 <= index < rows.len() && rows[index].row_id() == Some(id)
}

/// The index of the first row with the identity `id`, if there is one.
pub open spec fn position_of<T: Row>(rows: Seq<T>, id: Seq<char>) -> Option<int>
    decreases rows.len(),
{
    if rows.len() == 0 {
        None
    } else if rows[0].row_id() == Some(id) {
        Some(0)
    } else {
        match position_of(rows.drop_first(), id) {
            Some(i) => Some(i + 1),
            None => None,
        }
    }
}

/// `position_of` finds the first row with the identity, and finds none only
/// where no row has it.
pub proof fn lemma_position_of<T: Row>(rows: Seq<T>, id: Seq<char>)
    ensures
        match position_of(rows, id) {
            Some(i) => has_id(rows, i, id) && forall|j: int| 0 <= j < i ==> !has_id(rows, j, id),
            None => forall|j: int| !has_id(rows, j, id),
        },
    decreases rows.len(),
{
    if rows.len() > 0 && rows[0].row_id() != Some(id) {
        let tail = rows.drop_first();
        lemma_position_of(tail, id);
        match position_of(tail, id) {
            Some(i) => {
                assert(has_id(tail, i, id));
                assert forall|j: int| 0 <= j < i + 1 implies !has_id(rows, j, id) by {
                    if j > 0 {
                        assert(!has_id(tail, j - 1, id));
                    }
                }
            },
            None => {
                assert forall|j: int| !has_id(rows, j, id) by {
                    if 0 < j < rows.len() {
                        assert(!has_id(tail, j - 1, id));
                    }
                }
            },
        }
    }
}

/// The identity of the row under the cursor, if the cursor points at a row
/// and that row has one.
pub open spec fn selected_id<T: Row>(rows: Seq<T>, cursor: Option<usize>) -> Option<Seq<char>> {
    match cursor {
        Some(i) => if i < rows.len() {
            rows[i as int].row_id()
        } else {
            None
        },
        None => None,
    }
}

/// Where the row that was under the cursor stands in `new_rows`.
pub open spec fn followed_position<T: Row>(
    old_rows: Seq<T>,
    cursor: Option<usize>,
    new_rows: Seq<T>,
) -> Option<int> {
    match selected_id(old_rows, cursor) {
        Some(id) => position_of(new_rows, id),
        None => None,
    }
}

/// The cursor after `old_rows` gave way to `new_rows`. With nothing selected
/// the first row is selected. A selection follows its row by identity; where
/// the row is gone the index is kept, clamped to the last row; an empty list
/// has no selection. A row without an identity, and a cursor that pointed
/// past the old list, cannot be followed and count as gone.
pub open spec fn reconciled_cursor<T: Row>(
    old_rows: Seq<T>,
    cursor: Option<usize>,
    new_rows: Seq<T>,
) -> Option<usize> {
    match cursor {
        None => if new_rows.len() > 0 {
            Some(0usize)
        } else {
            None
        },
        Some(i) => match followed_position(old_rows, cursor, new_rows) {
            Some(pos) => Some(pos as usize),
            None => if new_rows.len() == 0 {
                None
            } else if i < new_rows.len() {
                Some(i)
            } else {
                Some((new_rows.len() - 1) as usize)
            },
        },
    }
}

/// Finds the first row with the identity `id`.
pub fn find_by_id<T: Row>(rows: &Vec<T>, id: &String) -> (r: Option<usize>)
    ensures
        match r {
            Some(i) => position_of(rows@, id@) == Some(i as int),
            None => position_of(rows@, id@) is None,
        },
{
    let mut i: usize = 0;
    while i < rows.len()
        invariant
            i <= rows@.len(),
            forall|j: int| 0 <= j < i ==> !has_id(rows@, j, id@),
        decreases rows@.len() - i,
    {
        let found = match rows[i].id() {
            Some(row_id) => *row_id == *id,
            None => false,
        };
        if found {
            proof {
                assert(has_id(rows@, i as int, id@));
                lemma_position_of(rows@, id@);
            }
            return Some(i);
        }
        i = i + 1;
    }
    proof {
        lemma_position_of(rows@, id@);
    }
    None
}

/// Replaces `rows` by the snapshot, sorted by display name, and moves the
/// cursor with the row it was on.
pub fn reconcile<T: Row>(rows: &mut Vec<T>, cursor: &mut Option<usize>, snapshot: Vec<T>)
    ensures
        final(rows)@ == stable_sort(snapshot@),
        is_stable_sort(snapshot@, final(rows)@),
        *final(cursor) == reconciled_cursor(old(rows)@, *old(cursor), final(rows)@),
        cursor_valid(final(rows)@.len(), *final(cursor)),
{
    let sorted = sort_by_name(snapshot);
    let next = match *cursor {
        None => {
            if sorted.len() > 0 {
                Some(0)
            } else {
                None
            }
        },
        Some(i) => {
            let followed = if i < rows.len() {
                match rows[i].id() {
                    Some(id) => find_by_id(&sorted, id),
                    None => None,
                }
            } else {
                None
            };
            match followed {
                Some(pos) => Some(pos),
                None => {
                    if sorted.len() == 0 {
                        None
                    } else if i < sorted.len() {
                        Some(i)
                    } else {
                        Some(sorted.len() - 1)
                    }
                },
            }
        },
    };
    proof {
        match selected_id(rows@, *cursor) {
            Some(id) => {
                lemma_position_of(sorted@, id);
            },
            None => {},
        }
    }
    *rows = sorted;
    *cursor = next;
}

/// No two rows share an identity.
pub open spec fn distinct_ids<T: Row>(rows: Seq<T>) -> bool {
    forall|i: int, j: int|
        0 <= i < rows.len() && 0 <= j < rows.len() && i != j && (#[trigger] rows[i]).row_id() is Some
            ==> rows[i].row_id() != (#[trigger] rows[j]).row_id()
}

/// The row under the cursor is the first row of the list with its identity.
/// This holds of every valid cursor on a list with distinct identities.
pub open spec fn cursor_on_first_of_id<T: Row>(rows: Seq<T>, cursor: Option<usize>) -> bool {
    match selected_id(rows, cursor) {
        Some(id) => position_of(rows, id) == Some(cursor->0 as int),
        None => true,
    }
}

/// Reconciliation never leaves the cursor dangling: after it the cursor
/// points at a row of the new list, and at nothing exactly where the new
/// list is empty.
pub proof fn lemma_reconciled_cursor_valid<T: Row>(
    old_rows: Seq<T>,
    cursor: Option<usize>,
    new_rows: Seq<T>,
)
    requires
        new_rows.len() <= usize::MAX,
    ensures
        cursor_valid(new_rows.len(), reconciled_cursor(old_rows, cursor, new_rows)),
        reconciled_cursor(old_rows, cursor, new_rows) is None <==> new_rows.len() == 0,
{
    match selected_id(old_rows, cursor) {
        Some(id) => {
            lemma_position_of(new_rows, id);
        },
        None => {},
    }
}

/// The selection follows the row, not the index: where the new list still
/// holds a row with the identity that was selected, the cursor stands on the
/// first such row afterwards.
pub proof fn lemma_selection_follows_id<T: Row>(
    old_rows: Seq<T>,
    cursor: Option<usize>,
    new_rows: Seq<T>,
    id: Seq<char>,
)
    requires
        selected_id(old_rows, cursor) == Some(id),
        exists|j: int| has_id(new_rows, j, id),
        new_rows.len() <= usize::MAX,
    ensures
        selected_id(new_rows, reconciled_cursor(old_rows, cursor, new_rows)) == Some(id),
        reconciled_cursor(old_rows, cursor, new_rows) matches Some(pos) && position_of(new_rows, id)
            == Some(pos as int),
{
    lemma_position_of(new_rows, id);
}

/// Reconciliation is stable under pure reordering: where a row with identity
/// `id` is selected and the snapshot is any permutation of the current list,
/// the row selected afterwards has the identity `id`.
pub proof fn lemma_selection_stable_under_reordering<T: Row>(
    old_rows: Seq<T>,
    cursor: Option<usize>,
    snapshot: Seq<T>,
    new_rows: Seq<T>,
    id: Seq<char>,
)
    requires
        selected_id(old_rows, cursor) == Some(id),
        snapshot.to_multiset() == old_rows.to_multiset(),
        is_stable_sort(snapshot, new_rows),
        new_rows.len() <= usize::MAX,
    ensures
        selected_id(new_rows, reconciled_cursor(old_rows, cursor, new_rows)) == Some(id),
{
    let i = cursor->0 as int;
    let row = old_rows[i];
    assert(old_rows.contains(row));
    old_rows.to_multiset_ensures();
    snapshot.to_multiset_ensures();
    assert(old_rows.to_multiset().count(row) > 0);
    assert(snapshot.to_multiset().count(row) > 0);
    assert(snapshot.contains(row));
    lemma_stable_sort_keeps_rows(snapshot, new_rows);
    assert(new_rows.contains(row));
    let j = choose|j: int| 0 <= j < new_rows.len() && new_rows[j] == row;
    assert(has_id(new_rows, j, id));
    lemma_selection_follows_id(old_rows, cursor, new_rows, id);
}

/// Reconciliation clamps under deletion: where the selected row is gone from
/// the new list and that list is not empty, the cursor keeps its index, or
/// stands on the last row where the index is past the end.
pub proof fn lemma_cursor_clamped_when_row_gone<T: Row>(
    old_rows: Seq<T>,
    index: usize,
    new_rows: Seq<T>,
    id: Seq<char>,
)
    requires
        selected_id(old_rows, Some(index)) == Some(id),
        forall|j: int| !has_id(new_rows, j, id),
        0 < new_rows.len() <= usize::MAX,
    ensures
        reconciled_cursor(old_rows, Some(index), new_rows) == Some(
            if index <= new_rows.len() - 1 {
                index
            } else {
                (new_rows.len() - 1) as usize
            },
        ),
{
    lemma_position_of(new_rows, id);
    match position_of(new_rows, id) {
        Some(p) => {
            assert(has_id(new_rows, p, id));
        },
        None => {},
    }
}

/// Reconciliation clears the selection when the list becomes empty.
pub proof fn lemma_empty_list_clears_selection<T: Row>(
    old_rows: Seq<T>,
    cursor: Option<usize>,
    new_rows: Seq<T>,
)
    requires
        new_rows.len() == 0,
    ensures
        reconciled_cursor(old_rows, cursor, new_rows) is None,
{
    match selected_id(old_rows, cursor) {
        Some(id) => {
            lemma_position_of(new_rows, id);
        },
        None => {},
    }
}

/// Reconciliation selects the first row when a list that was empty, or had
/// no selection, becomes non-empty.
pub proof fn lemma_first_row_selected_from_nothing<T: Row>(
    old_rows: Seq<T>,
    cursor: Option<usize>,
    new_rows: Seq<T>,
)
    requires
        cursor is None || (old_rows.len() == 0 && cursor_valid(old_rows.len(), cursor)),
        new_rows.len() > 0,
    ensures
        reconciled_cursor(old_rows, cursor, new_rows) == Some(0usize),
{
}

/// Sorting keeps identities distinct.
pub proof fn lemma_sort_keeps_ids_distinct<T: Row>(snapshot: Seq<T>, sorted: Seq<T>)
    requires
        distinct_ids(snapshot),
        is_stable_sort(snapshot, sorted),
    ensures
        distinct_ids(sorted),
{
    let (from, to) = choose|from: Seq<int>, to: Seq<int>|
        stable_sort_witness(snapshot, sorted, from, to);
    assert forall|i: int, j: int|
        0 <= i < sorted.len() && 0 <= j < sorted.len() && i != j && (#[trigger] sorted[i]).row_id() is Some
        implies sorted[i].row_id() != (#[trigger] sorted[j]).row_id() by {
        assert(sorted[i] == snapshot[from[i]] && sorted[j] == snapshot[from[j]]);
        assert(to[from[i]] == i && to[from[j]] == j);
        assert(from[i] != from[j]);
    }
}

/// On a list with distinct identities every valid cursor stands on the first
/// row with its identity.
pub proof fn lemma_distinct_ids_cursor_on_first<T: Row>(rows: Seq<T>, cursor: Option<usize>)
    requires
        distinct_ids(rows),
    ensures
        cursor_on_first_of_id(rows, cursor),
{
    match selected_id(rows, cursor) {
        Some(id) => {
            let i = cursor->0 as int;
            lemma_position_of(rows, id);
            assert(has_id(rows, i, id));
            match position_of(rows, id) {
                Some(p) => {
                    if p != i {
                        assert(rows[p].row_id() != rows[i].row_id());
                    }
                },
                None => {},
            }
        },
        None => {},
    }
}

/// Reconciliation is idempotent: delivering the same snapshot a second time
/// leaves both the list and the cursor as the first delivery left them,
/// provided that the row the cursor came to stand on is the first with its
/// identity.
pub proof fn lemma_reconcile_idempotent<T: Row>(
    rows0: Seq<T>,
    cursor0: Option<usize>,
    snapshot: Seq<T>,
    rows1: Seq<T>,
    rows2: Seq<T>,
)
    requires
        is_stable_sort(snapshot, rows1),
        is_stable_sort(snapshot, rows2),
        rows1.len() <= usize::MAX,
        cursor_on_first_of_id(rows1, reconciled_cursor(rows0, cursor0, rows1)),
    ensures
        rows2 == rows1,
        reconciled_cursor(rows1, reconciled_cursor(rows0, cursor0, rows1), rows2)
            == reconciled_cursor(rows0, cursor0, rows1),
{
    lemma_stable_sort_unique(snapshot, rows1, rows2);
    lemma_reconciled_cursor_valid(rows0, cursor0, rows1);
}

/// Reconciliation is idempotent on snapshots with distinct identities:
/// delivering the same snapshot twice in a row gives the same list and the
/// same cursor both times.
pub proof fn lemma_reconcile_idempotent_distinct_ids<T: Row>(
    rows0: Seq<T>,
    cursor0: Option<usize>,
    snapshot: Seq<T>,
    rows1: Seq<T>,
    rows2: Seq<T>,
)
    requires
        is_stable_sort(snapshot, rows1),
        is_stable_sort(snapshot, rows2),
        rows1.len() <= usize::MAX,
        distinct_ids(snapshot),
    ensures
        rows2 == rows1,
        reconciled_cursor(rows1, reconciled_cursor(rows0, cursor0, rows1), rows2)
            == reconciled_cursor(rows0, cursor0, rows1),
{
    lemma_sort_keeps_ids_distinct(snapshot, rows1);
    lemma_distinct_ids_cursor_on_first(rows1, reconciled_cursor(rows0, cursor0, rows1));
    lemma_reconcile_idempotent(rows0, cursor0, snapshot, rows1, rows2);
}

} // verus!
