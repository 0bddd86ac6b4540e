//! Stable sorting of a snapshot by display name.

use vstd::prelude::*;
use vstd::utf8::*;
use crate::order::{bytes_le, lex_le, lemma_lex_le_total, lemma_lex_le_transitive,
    lemma_lex_le_antisymmetric};
use crate::summary::Row;

verus! {

/// The bytes by which a row is ordered: its display name in UTF-8.
pub open spec fn name_key<T: Row>(row: T) -> Seq<u8> {
    encode_utf8(row.row_name())
}

/// The rows stand in ascending order of their display names.
pub open spec fn sorted_by_name<T: Row>(rows: Seq<T>) -> bool {
    forall|i: int, j: int|
        0 <= i < j < rows.len() ==> lex_le(name_key(#[trigger] rows[i]), name_key(#[trigger] rows[j]))
}

/// `from` says where each row of `output` stood in `input`, and `to` where
/// each row of `input` stands in `output`: the two lists hold the same rows.
pub open spec fn rearranges<T>(input: Seq<T>, output: Seq<T>, from: Seq<int>, to: Seq<int>) -> bool {
    &&& output.len() == input.len()
    &&& from.len() == input.len()
    &&& to.len() == input.len()
    &&& forall|i: int|
        0 <= i < output.len() ==> 0 <= #[trigger] from[i] < input.len() && output[i] == input[from[i]]
            && to[from[i]] == i
    &&& forall|m: int|
        0 <= m < input.len() ==> 0 <= #[trigger] to[m] < output.len() && from[to[m]] == m
}

/// Rows of equal name stand in `output` in the order in which they stood in
/// the input.
pub open spec fn keeps_ties<T: Row>(output: Seq<T>, from: Seq<int>) -> bool {
    forall|i: int, j: int|
        0 <= i < j < output.len() && name_key(output[i]) == name_key(output[j]) ==> #[trigger] from[i]
            < #[trigger] from[j]
}

/// `from` and `to` show that `output` is `input` sorted by name, stably.
pub open spec fn stable_sort_witness<T: Row>(
    input: Seq<T>,
    output: Seq<T>,
    from: Seq<int>,
    to: Seq<int>,
) -> bool {
    &&& rearranges(input, output, from, to)
    &&& sorted_by_name(output)
    &&& keeps_ties(output, from)
}

/// `output` holds the rows of `input` in ascending order of display name,
/// rows of equal name in their input order.
pub open spec fn is_stable_sort<T: Row>(input: Seq<T>, output: Seq<T>) -> bool {
    exists|from: Seq<int>, to: Seq<int>| stable_sort_witness(input, output, from, to)
}

/// Decides whether `a` is listed before or with `b`.
pub fn name_le<T: Row>(a: &T, b: &T) -> (r: bool)
    ensures
        r == lex_le(name_key(*a), name_key(*b)),
{
    bytes_le(a.name().as_bytes(), b.name().as_bytes())
}

/// Where the rows of a list stand after a row was put in at `position`, as
/// the last row of the input: rows from `position` on have moved one place
/// on.
pub open spec fn with_row_at(to: Seq<int>, position: int) -> Seq<int> {
    Seq::new(
        to.len() + 1,
        |m: int|
            if m == to.len() {
                position
            } else if to[m] >= position {
                to[m] + 1
            } else {
                to[m]
            },
    )
}

/// One more row keeps a list sorted, stably, where it is put behind the rows
/// that are listed before or with it and before the rows that are listed
/// after it.
proof fn lemma_insert_row<T: Row>(
    input: Seq<T>,
    output: Seq<T>,
    from: Seq<int>,
    to: Seq<int>,
    row: T,
    position: int,
)
    requires
        stable_sort_witness(input, output, from, to),
        0 <= position <= output.len(),
        forall|j: int| 0 <= j < position ==> lex_le(name_key(#[trigger] output[j]), name_key(row)),
        forall|j: int|
            position <= j < output.len() ==> !lex_le(name_key(#[trigger] output[j]), name_key(row)),
    ensures
        stable_sort_witness(
            input.push(row),
            output.insert(position, row),
            from.insert(position, input.len() as int),
            with_row_at(to, position),
        ),
{
    let p = position;
    let k = input.len() as int;
    let input1 = input.push(row);
    let output1 = output.insert(p, row);
    let from1 = from.insert(p, k);
    let to1 = with_row_at(to, p);
    assert forall|i: int| 0 <= i < output1.len() implies 0 <= #[trigger] from1[i] < input1.len()
        && output1[i] == input1[from1[i]] && to1[from1[i]] == i by {
        if i < p {
            assert(from1[i] == from[i] && output1[i] == output[i]);
        } else if i > p {
            assert(from1[i] == from[i - 1] && output1[i] == output[i - 1]);
        }
    }
    assert forall|m: int| 0 <= m < input1.len() implies 0 <= #[trigger] to1[m] < output1.len()
        && from1[to1[m]] == m by {
        if m != k {
            assert(0 <= to[m] < output.len() && from[to[m]] == m);
        }
    }
    assert forall|i: int, j: int| 0 <= i < j < output1.len() implies lex_le(
        name_key(#[trigger] output1[i]),
        name_key(#[trigger] output1[j]),
    ) by {
        let a = if i < p { i } else { i - 1 };
        let b = if j < p { j } else { j - 1 };
        if i != p && j != p {
            assert(output1[i] == output[a] && output1[j] == output[b]);
        } else if i == p {
            assert(output1[j] == output[b]);
            lemma_lex_le_total(name_key(row), name_key(output[b]));
        } else {
            assert(output1[i] == output[a]);
        }
    }
    assert forall|i: int, j: int|
        0 <= i < j < output1.len() && name_key(output1[i]) == name_key(output1[j]) implies #[trigger] from1[i]
        < #[trigger] from1[j] by {
        let a = if i < p { i } else { i - 1 };
        let b = if j < p { j } else { j - 1 };
        if i != p && j != p {
            assert(output1[i] == output[a] && output1[j] == output[b]);
            assert(from1[i] == from[a] && from1[j] == from[b]);
        } else if i == p {
            assert(output1[j] == output[b]);
            lemma_lex_le_total(name_key(row), name_key(row));
        } else {
            assert(from1[i] == from[a]);
        }
    }
}

/// Sorts a snapshot by display name. The sort is stable.
pub fn sort_by_name<T: Row>(rows: Vec<T>) -> (sorted: Vec<T>)
    ensures
        sorted@ == stable_sort(rows@),
        is_stable_sort(rows@, sorted@),
{
    let ghost input = rows@;
    let mut out: Vec<T> = Vec::new();
    let ghost mut from: Seq<int> = Seq::empty();
    let ghost mut to: Seq<int> = Seq::empty();
    for row in it: rows
        invariant
            it.seq() == input,
            stable_sort_witness(input.take(it.index() as int), out@, from, to),
    {
        let ghost done = input.take(it.index() as int);
        let ghost sorted = out@;
        let mut pos: usize = 0;
        while pos < out.len() && name_le(&out[pos], &row)
            invariant
                pos <= out@.len(),
                out@ == sorted,
                forall|j: int| 0 <= j < pos ==> lex_le(name_key(#[trigger] out@[j]), name_key(row)),
            decreases out@.len() - pos,
        {
            pos = pos + 1;
        }
        proof {
            assert forall|j: int| pos <= j < sorted.len() implies !lex_le(
                name_key(#[trigger] sorted[j]),
                name_key(row),
            ) by {
                if j > pos && lex_le(name_key(sorted[j]), name_key(row)) {
                    lemma_lex_le_transitive(
                        name_key(sorted[pos as int]),
                        name_key(sorted[j]),
                        name_key(row),
                    );
                }
            }
            lemma_insert_row(done, sorted, from, to, row, pos as int);
            assert(done.push(row) =~= input.take(it.index() + 1));
            from = from.insert(pos as int, done.len() as int);
            to = with_row_at(to, pos as int);
        }
        out.insert(pos, row);
    }
    proof {
        assert(input.take(input.len() as int) =~= input);
        assert(is_stable_sort(input, out@));
        lemma_stable_sort(input);
    }
    out
}

/// Up to position `upto` two stable sorts of one input take their rows from
/// the same places of the input.
proof fn lemma_witnesses_agree<T: Row>(
    input: Seq<T>,
    a: Seq<T>,
    fa: Seq<int>,
    ta: Seq<int>,
    b: Seq<T>,
    fb: Seq<int>,
    tb: Seq<int>,
    upto: int,
)
    requires
        stable_sort_witness(input, a, fa, ta),
        stable_sort_witness(input, b, fb, tb),
        0 <= upto <= input.len(),
    ensures
        forall|j: int| 0 <= j < upto ==> fa[j] == fb[j],
    decreases upto,
{
    if upto > 0 {
        lemma_witnesses_agree(input, a, fa, ta, b, fb, tb, upto - 1);
        let j = upto - 1;
        let m = fa[j];
        let k = tb[m];
        let m2 = fb[j];
        let k2 = ta[m2];
        assert(fb[k] == m && fa[k2] == m2);
        if k < j {
            assert(fa[k] == fb[k]);
            assert(ta[fa[k]] == k && ta[fa[j]] == j);
        }
        if k2 < j {
            assert(fa[k2] == fb[k2]);
            assert(tb[fb[k2]] == k2 && tb[fb[j]] == j);
        }
        if k > j && k2 > j {
            assert(lex_le(name_key(b[j]), name_key(b[k])));
            assert(lex_le(name_key(a[j]), name_key(a[k2])));
            assert(b[j] == input[m2] && b[k] == input[m]);
            assert(a[j] == input[m] && a[k2] == input[m2]);
            lemma_lex_le_antisymmetric(name_key(input[m]), name_key(input[m2]));
            assert(fb[j] < fb[k]);
            assert(fa[j] < fa[k2]);
        }
    }
}

/// A list has one stable sort by name: the contract of `sort_by_name`
/// determines its result.
pub proof fn lemma_stable_sort_unique<T: Row>(input: Seq<T>, a: Seq<T>, b: Seq<T>)
    requires
        is_stable_sort(input, a),
        is_stable_sort(input, b),
    ensures
        a == b,
{
    let (fa, ta) = choose|from: Seq<int>, to: Seq<int>| stable_sort_witness(input, a, from, to);
    let (fb, tb) = choose|from: Seq<int>, to: Seq<int>| stable_sort_witness(input, b, from, to);
    lemma_witnesses_agree(input, a, fa, ta, b, fb, tb, input.len() as int);
    assert forall|i: int| 0 <= i < a.len() implies a[i] == b[i] by {
        assert(a[i] == input[fa[i]] && b[i] == input[fb[i]]);
    }
    assert(a =~= b);
}

/// Sorting neither drops nor invents a row: the sorted list holds exactly
/// the rows of the input, each as often as the input does.
pub proof fn lemma_stable_sort_keeps_rows<T: Row>(input: Seq<T>, output: Seq<T>)
    requires
        is_stable_sort(input, output),
    ensures
        output.len() == input.len(),
        forall|r: T| input.contains(r) <==> output.contains(r),
        sorted_by_name(output),
{
    let (from, to) = choose|from: Seq<int>, to: Seq<int>|
        stable_sort_witness(input, output, from, to);
    assert forall|r: T| input.contains(r) <==> output.contains(r) by {
        if input.contains(r) {
            let m = choose|m: int| 0 <= m < input.len() && input[m] == r;
            assert(output[to[m]] == input[from[to[m]]]);
        }
        if output.contains(r) {
            let i = choose|i: int| 0 <= i < output.len() && output[i] == r;
            assert(output[i] == input[from[i]]);
        }
    }
}

/// A list that is already in order is its own stable sort, so sorting it
/// again changes nothing.
pub proof fn lemma_sorted_is_own_sort<T: Row>(rows: Seq<T>)
    requires
        sorted_by_name(rows),
    ensures
        is_stable_sort(rows, rows),
{
    let id = Seq::new(rows.len(), |i: int| i);
    assert(stable_sort_witness(rows, rows, id, id));
}

/// Sorting is idempotent: the stable sort of a stable sort is that same list.
pub proof fn lemma_stable_sort_idempotent<T: Row>(input: Seq<T>, once: Seq<T>, twice: Seq<T>)
    requires
        is_stable_sort(input, once),
        is_stable_sort(once, twice),
    ensures
        twice == once,
{
    lemma_stable_sort_keeps_rows(input, once);
    lemma_sorted_is_own_sort(once);
    lemma_stable_sort_unique(once, once, twice);
}

/// The number of rows at the start of `sorted` that are listed before or
/// with a row of the key `key`: where such a row goes, behind its equals.
pub open spec fn upper_bound<T: Row>(sorted: Seq<T>, key: Seq<u8>) -> int
    decreases sorted.len(),
{
    if sorted.len() == 0 || !lex_le(name_key(sorted[0]), key) {
        0
    } else {
        1 + upper_bound(sorted.drop_first(), key)
    }
}

/// In a sorted list the rows before `upper_bound` are those listed before or
/// with the key, and the rows from it on are those listed after the key.
proof fn lemma_upper_bound<T: Row>(sorted: Seq<T>, key: Seq<u8>)
    requires
        sorted_by_name(sorted),
    ensures
        0 <= upper_bound(sorted, key) <= sorted.len(),
        forall|j: int|
            0 <= j < upper_bound(sorted, key) ==> lex_le(name_key(#[trigger] sorted[j]), key),
        forall|j: int|
            upper_bound(sorted, key) <= j < sorted.len() ==> !lex_le(
                name_key(#[trigger] sorted[j]),
                key,
            ),
    decreases sorted.len(),
{
    if sorted.len() == 0 {
    } else if !lex_le(name_key(sorted[0]), key) {
        assert forall|j: int| 0 <= j < sorted.len() implies !lex_le(
            name_key(#[trigger] sorted[j]),
            key,
        ) by {
            if j > 0 && lex_le(name_key(sorted[j]), key) {
                lemma_lex_le_transitive(name_key(sorted[0]), name_key(sorted[j]), key);
            }
        }
    } else {
        let tail = sorted.drop_first();
        assert forall|i: int, j: int| 0 <= i < j < tail.len() implies lex_le(
            name_key(#[trigger] tail[i]),
            name_key(#[trigger] tail[j]),
        ) by {
            assert(tail[i] == sorted[i + 1] && tail[j] == sorted[j + 1]);
        }
        lemma_upper_bound(tail, key);
        let b = upper_bound(tail, key);
        assert forall|j: int| 0 <= j < b + 1 implies lex_le(name_key(#[trigger] sorted[j]), key) by {
            if j > 0 {
                assert(sorted[j] == tail[j - 1]);
            }
        }
        assert forall|j: int| b + 1 <= j < sorted.len() implies !lex_le(
            name_key(#[trigger] sorted[j]),
            key,
        ) by {
            assert(sorted[j] == tail[j - 1]);
        }
    }
}

/// Every list has a stable sort by name.
pub proof fn lemma_stable_sort_exists<T: Row>(input: Seq<T>)
    ensures
        exists|output: Seq<T>| is_stable_sort(input, output),
    decreases input.len(),
{
    if input.len() == 0 {
        let none = Seq::<int>::empty();
        assert(stable_sort_witness(input, input, none, none));
        assert(is_stable_sort(input, input));
    } else {
        let head = input.drop_last();
        let row = input.last();
        lemma_stable_sort_exists(head);
        let sorted = choose|output: Seq<T>| is_stable_sort(head, output);
        let (from, to) = choose|from: Seq<int>, to: Seq<int>|
            stable_sort_witness(head, sorted, from, to);
        let position = upper_bound(sorted, name_key(row));
        lemma_upper_bound(sorted, name_key(row));
        lemma_insert_row(head, sorted, from, to, row, position);
        assert(head.push(row) =~= input);
        assert(is_stable_sort(input, sorted.insert(position, row)));
    }
}

/// The stable sort of a list by display name: its rows in ascending order
/// of name, rows of equal name in the order in which they stood.
pub open spec fn stable_sort<T: Row>(input: Seq<T>) -> Seq<T> {
    choose|output: Seq<T>| is_stable_sort(input, output)
}

/// `stable_sort` is the one list that is a stable sort of its argument.
pub proof fn lemma_stable_sort<T: Row>(input: Seq<T>)
    ensures
        is_stable_sort(input, stable_sort(input)),
        forall|output: Seq<T>| is_stable_sort(input, output) ==> output == stable_sort(input),
{
    lemma_stable_sort_exists(input);
    assert forall|output: Seq<T>| is_stable_sort(input, output) implies output == stable_sort(
        input,
    ) by {
        lemma_stable_sort_unique(input, output, stable_sort(input));
    }
}

} // verus!
