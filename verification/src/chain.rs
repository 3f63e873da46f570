//! How the symbols at a cursor relate to the nesting of the outline that they are taken from.

use vstd::prelude::*;

use crate::multi_buffer::ExcerptId;
use crate::outline::{
    OutlineItemView, enclosing, entries_at, grows_at, growing_run, lemma_depths_grow,
    lemma_growing_run,
};
use crate::text;
use crate::text::BufferSnapshot;

verus! {

/// Whether entry `i` is an ancestor of entry `j`: it comes first, and every entry after it up
/// to `j` is deeper.
pub open spec fn is_ancestor<T>(items: Seq<OutlineItemView<T>>, i: int, j: int) -> bool {
    &&& 0 <= i < j < items.len()
    &&& forall|k: int| i < k <= j ==> items[i].depth < (#[trigger] items[k]).depth
}

/// Whether every entry lies within its ancestors.
pub open spec fn nested(
    items: Seq<OutlineItemView<text::Anchor>>,
    snapshot: BufferSnapshot,
) -> bool {
    forall|i: int, j: int| #[trigger]
        is_ancestor(items, i, j) ==> snapshot.in_order(items[i].range.start, items[j].range.start)
            && snapshot.in_order(items[j].range.end, items[i].range.end)
}

/// Whether the ancestors of every entry that covers `cursor` cover it too.
pub open spec fn ancestors_cover(
    items: Seq<OutlineItemView<text::Anchor>>,
    cursor: text::Anchor,
    snapshot: BufferSnapshot,
) -> bool {
    forall|i: int, j: int| #[trigger]
        is_ancestor(items, i, j) && items[j].contains(cursor, snapshot) ==> items[i].contains(
            cursor,
            snapshot,
        )
}

/// Whether `indices` picks entries that cover `cursor`, in the order of `items`, none twice, and
/// each deeper than those before it.
pub open spec fn taken_in_order(
    items: Seq<OutlineItemView<text::Anchor>>,
    indices: Seq<int>,
    cursor: text::Anchor,
    snapshot: BufferSnapshot,
) -> bool {
    &&& forall|k: int|
        0 <= k < indices.len() ==> 0 <= #[trigger] indices[k] < items.len()
            && items[indices[k]].contains(cursor, snapshot)
    &&& forall|k: int, l: int|
        0 <= k < l < indices.len() ==> #[trigger] indices[k] < #[trigger] indices[l]
            && items[indices[k]].depth < items[indices[l]].depth
}

/// Of the first `n` entries, the ancestors of entry `leaf` and the leaf itself, in order.
pub open spec fn ancestor_chain<T>(items: Seq<OutlineItemView<T>>, leaf: int, n: int) -> Seq<
    OutlineItemView<T>,
>
    decreases n,
{
    if n <= 0 {
        Seq::empty()
    } else {
        let outer = ancestor_chain(items, leaf, n - 1);
        if n - 1 == leaf || is_ancestor(items, n - 1, leaf) {
            outer.push(items[n - 1])
        } else {
            outer
        }
    }
}

/// The indices below `n` of the entries that cover `cursor`.
spec fn covering(
    items: Seq<OutlineItemView<text::Anchor>>,
    cursor: text::Anchor,
    snapshot: BufferSnapshot,
    n: int,
) -> Seq<int>
    decreases n,
{
    if n <= 0 {
        Seq::empty()
    } else {
        let before = covering(items, cursor, snapshot, n - 1);
        if items[n - 1].contains(cursor, snapshot) {
            before.push(n - 1)
        } else {
            before
        }
    }
}

proof fn lemma_covering(
    items: Seq<OutlineItemView<text::Anchor>>,
    cursor: text::Anchor,
    snapshot: BufferSnapshot,
    n: int,
)
    requires
        0 <= n <= items.len(),
    ensures
        ({
            let indices = covering(items, cursor, snapshot, n);
            &&& enclosing(items.take(n), cursor, snapshot) == indices.map_values(|i: int| items[i])
            &&& forall|k: int|
                0 <= k < indices.len() ==> 0 <= #[trigger] indices[k] < n
                    && items[indices[k]].contains(cursor, snapshot)
            &&& forall|k: int, l: int| 0 <= k < l < indices.len() ==> indices[k] < indices[l]
            &&& forall|i: int|
                0 <= i < n && (#[trigger] items[i]).contains(cursor, snapshot)
                    ==> indices.contains(i)
        }),
    decreases n,
{
    reveal(Seq::filter);
    let at = |i: int| items[i];
    let indices = covering(items, cursor, snapshot, n);
    if n == 0 {
        assert(enclosing(items.take(n), cursor, snapshot) =~= indices.map_values(at));
    } else {
        lemma_covering(items, cursor, snapshot, n - 1);
        let before = covering(items, cursor, snapshot, n - 1);
        assert(items.take(n).drop_last() =~= items.take(n - 1));
        assert(items.take(n).last() == items[n - 1]);
        if items[n - 1].contains(cursor, snapshot) {
            assert(indices.map_values(at) =~= before.map_values(at).push(items[n - 1]));
            assert(indices[indices.len() - 1] == n - 1);
        }
        assert forall|i: int|
            0 <= i < n && (#[trigger] items[i]).contains(cursor, snapshot) implies indices.contains(
            i,
        ) by {
            if i < n - 1 {
                assert(before.contains(i));
                let k = choose|k: int| 0 <= k < before.len() && before[k] == i;
                assert(indices[k] == i);
            }
        }
    }
}

/// Between `low` and `j` there is an ancestor of `j`, where an entry there is less deep.
proof fn lemma_nearest_ancestor<T>(items: Seq<OutlineItemView<T>>, low: int, y: int, k: int, j: int)
    requires
        0 <= low < y <= k < j < items.len(),
        items[y].depth < items[j].depth,
        forall|l: int| k < l < j ==> (#[trigger] items[l]).depth >= items[j].depth,
    ensures
        exists|a: int| low < a < j && is_ancestor(items, a, j),
    decreases k - y,
{
    if items[k].depth < items[j].depth {
        assert(is_ancestor(items, k, j));
    } else {
        lemma_nearest_ancestor(items, low, y, k - 1, j);
    }
}

proof fn lemma_ancestor_transitive<T>(items: Seq<OutlineItemView<T>>, a: int, b: int, c: int)
    requires
        is_ancestor(items, a, b),
        is_ancestor(items, b, c),
    ensures
        is_ancestor(items, a, c),
{
    assert forall|k: int| a < k <= c implies items[a].depth < (#[trigger] items[k]).depth by {
        if k > b {
            assert(items[a].depth < items[b].depth);
        }
    }
}

/// Where every entry lies within its ancestors, the ancestors of what covers a cursor cover it
/// too.
pub proof fn law_nested_ancestors_cover(
    items: Seq<OutlineItemView<text::Anchor>>,
    cursor: text::Anchor,
    snapshot: BufferSnapshot,
)
    requires
        nested(items, snapshot),
    ensures
        ancestors_cover(items, cursor, snapshot),
{
}

/// Of two entries that cover the cursor, with none between them, the first is an ancestor of
/// the second if the second is deeper.
proof fn lemma_step_is_ancestor(
    items: Seq<OutlineItemView<text::Anchor>>,
    cursor: text::Anchor,
    snapshot: BufferSnapshot,
    k: int,
)
    requires
        ancestors_cover(items, cursor, snapshot),
        0 <= k,
        k + 1 < covering(items, cursor, snapshot, items.len() as int).len(),
        ({
            let indices = covering(items, cursor, snapshot, items.len() as int);
            items[indices[k]].depth < items[indices[k + 1]].depth
        }),
    ensures
        ({
            let indices = covering(items, cursor, snapshot, items.len() as int);
            is_ancestor(items, indices[k], indices[k + 1])
        }),
{
    let indices = covering(items, cursor, snapshot, items.len() as int);
    lemma_covering(items, cursor, snapshot, items.len() as int);
    let i = indices[k];
    let j = indices[k + 1];
    assert forall|y: int| i < y <= j implies items[i].depth < (#[trigger] items[y]).depth by {
        if y < j && items[y].depth <= items[i].depth {
            lemma_nearest_ancestor(items, i, y, j - 1, j);
            let a = choose|a: int| i < a < j && is_ancestor(items, a, j);
            assert(items[a].contains(cursor, snapshot));
            let t = choose|t: int| 0 <= t < indices.len() && indices[t] == a;
            if t <= k {
                assert(t == k || indices[t] < indices[k]);
            } else {
                assert(t == k + 1 || indices[k + 1] < indices[t]);
            }
            assert(false);
        }
    }
}

/// While the depths grow, each entry that covers the cursor is an ancestor of the later ones.
proof fn lemma_run_is_chain(
    items: Seq<OutlineItemView<text::Anchor>>,
    cursor: text::Anchor,
    snapshot: BufferSnapshot,
    k: int,
    m: int,
)
    requires
        ancestors_cover(items, cursor, snapshot),
        0 <= k < m < covering(items, cursor, snapshot, items.len() as int).len(),
        forall|l: int|
            0 < l <= m ==> #[trigger] grows_at(enclosing(items, cursor, snapshot), l),
    ensures
        ({
            let indices = covering(items, cursor, snapshot, items.len() as int);
            is_ancestor(items, indices[k], indices[m])
        }),
    decreases m - k,
{
    let indices = covering(items, cursor, snapshot, items.len() as int);
    let found = enclosing(items, cursor, snapshot);
    lemma_covering(items, cursor, snapshot, items.len() as int);
    assert(items.take(items.len() as int) =~= items);
    assert(grows_at(found, m));
    assert(found[m] == items[indices[m]] && found[m - 1] == items[indices[m - 1]]);
    lemma_step_is_ancestor(items, cursor, snapshot, m - 1);
    if k < m - 1 {
        lemma_run_is_chain(items, cursor, snapshot, k, m - 1);
        lemma_ancestor_transitive(items, indices[k], indices[m - 1], indices[m]);
    }
}

/// `ancestor_chain` picks the entries that cover the cursor, where those up to the leaf are the
/// leaf and its ancestors.
proof fn lemma_chain_is_enclosing(
    items: Seq<OutlineItemView<text::Anchor>>,
    cursor: text::Anchor,
    snapshot: BufferSnapshot,
    leaf: int,
    n: int,
)
    requires
        0 <= n <= leaf + 1 <= items.len(),
        forall|i: int|
            0 <= i <= leaf ==> ((#[trigger] items[i]).contains(cursor, snapshot) <==> (i == leaf
                || is_ancestor(items, i, leaf))),
    ensures
        ancestor_chain(items, leaf, n) == enclosing(items.take(n), cursor, snapshot),
    decreases n,
{
    reveal(Seq::filter);
    if n > 0 {
        lemma_chain_is_enclosing(items, cursor, snapshot, leaf, n - 1);
        assert(items.take(n).drop_last() =~= items.take(n - 1));
        assert(items.take(n).last() == items[n - 1]);
        assert(items[n - 1].contains(cursor, snapshot) <==> (n - 1 == leaf || is_ancestor(
            items,
            n - 1,
            leaf,
        )));
    } else {
        assert(enclosing(items.take(0), cursor, snapshot) =~= Seq::empty());
    }
}

/// The entries that cover the cursor, among those up to the one at place `m`, are the first
/// `m + 1` of all that do.
proof fn lemma_enclosing_prefix(
    items: Seq<OutlineItemView<text::Anchor>>,
    cursor: text::Anchor,
    snapshot: BufferSnapshot,
    m: int,
    n: int,
)
    requires
        0 <= n <= items.len(),
        0 <= m < covering(items, cursor, snapshot, n).len(),
    ensures
        ({
            let indices = covering(items, cursor, snapshot, n);
            covering(items, cursor, snapshot, indices[m] + 1) == indices.take(m + 1)
        }),
    decreases n,
{
    lemma_covering(items, cursor, snapshot, n);
    let indices = covering(items, cursor, snapshot, n);
    let before = covering(items, cursor, snapshot, n - 1);
    if indices[m] == n - 1 {
        assert(m == indices.len() - 1) by {
            if m < indices.len() - 1 {
                assert(indices[m] < indices[m + 1]);
            }
        }
        assert(indices.take(m + 1) =~= indices);
    } else {
        assert(before =~= indices || before =~= indices.drop_last());
        assert(m < before.len());
        lemma_enclosing_prefix(items, cursor, snapshot, m, n - 1);
        assert(before.take(m + 1) =~= indices.take(m + 1));
    }
}

/// To move entries into an excerpt changes nothing in which of them are in the run.
proof fn lemma_run_moved(items: Seq<OutlineItemView<text::Anchor>>, excerpt_id: ExcerptId)
    ensures
        ({
            let moved = |item: OutlineItemView<text::Anchor>| item.in_excerpt(excerpt_id);
            growing_run(items.map_values(moved)) == growing_run(items).map_values(moved)
        }),
    decreases items.len(),
{
    let moved = |item: OutlineItemView<text::Anchor>| item.in_excerpt(excerpt_id);
    if items.len() == 0 {
        assert(growing_run(items.map_values(moved)) =~= growing_run(items).map_values(moved));
    } else {
        lemma_run_moved(items.drop_last(), excerpt_id);
        assert(items.map_values(moved).drop_last() =~= items.drop_last().map_values(moved));
        assert(growing_run(items.map_values(moved)) =~= growing_run(items).map_values(moved));
    }
}

/// No entry after the leaf is in its chain.
proof fn lemma_chain_ends_at_leaf<T>(items: Seq<OutlineItemView<T>>, leaf: int, n: int)
    requires
        0 <= leaf < n,
    ensures
        ancestor_chain(items, leaf, n) == ancestor_chain(items, leaf, leaf + 1),
    decreases n,
{
    if n > leaf + 1 {
        lemma_chain_ends_at_leaf(items, leaf, n - 1);
    }
}

/// The entries that cover the cursor, up to the place `m` where their depths stop to grow, are
/// the chain of the entry at that place.
proof fn lemma_run_is_ancestor_chain(
    items: Seq<OutlineItemView<text::Anchor>>,
    cursor: text::Anchor,
    snapshot: BufferSnapshot,
    m: int,
) -> (leaf: int)
    requires
        ancestors_cover(items, cursor, snapshot),
        0 <= m < enclosing(items, cursor, snapshot).len(),
        forall|l: int|
            0 < l <= m ==> #[trigger] grows_at(enclosing(items, cursor, snapshot), l),
    ensures
        0 <= leaf < items.len(),
        items[leaf].contains(cursor, snapshot),
        ancestor_chain(items, leaf, items.len() as int) == enclosing(
            items,
            cursor,
            snapshot,
        ).take(m + 1),
{
    let size = items.len() as int;
    let found = enclosing(items, cursor, snapshot);
    let indices = covering(items, cursor, snapshot, size);
    lemma_covering(items, cursor, snapshot, size);
    assert(items.take(size) =~= items);
    let leaf = indices[m];

    // Up to the leaf, to cover the cursor is to be the leaf or one of its ancestors.
    assert forall|i: int| 0 <= i <= leaf implies ((#[trigger] items[i]).contains(cursor, snapshot)
        <==> (i == leaf || is_ancestor(items, i, leaf))) by {
        if items[i].contains(cursor, snapshot) && i != leaf {
            assert(indices.contains(i));
            let t = choose|t: int| 0 <= t < indices.len() && indices[t] == i;
            if t > m {
                assert(indices[m] < indices[t]);
            }
            lemma_run_is_chain(items, cursor, snapshot, t, m);
        }
    }
    lemma_chain_is_enclosing(items, cursor, snapshot, leaf, leaf + 1);
    lemma_enclosing_prefix(items, cursor, snapshot, m, size);
    lemma_covering(items, cursor, snapshot, leaf + 1);
    assert(enclosing(items.take(leaf + 1), cursor, snapshot) =~= found.take(m + 1));
    lemma_chain_ends_at_leaf(items, leaf, size);
    leaf
}

/// Where the ancestors of what covers the cursor cover it too, the symbols at the cursor are a
/// whole chain of ancestors: an entry that covers the cursor, and all of its ancestors, outermost
/// first.
///
/// Returns the index of the innermost entry of the chain.
pub proof fn law_ancestor_chain(
    items: Seq<OutlineItemView<text::Anchor>>,
    cursor: text::Anchor,
    snapshot: BufferSnapshot,
    excerpt_id: ExcerptId,
) -> (leaf: int)
    requires
        ancestors_cover(items, cursor, snapshot),
        enclosing(items, cursor, snapshot).len() > 0,
    ensures
        0 <= leaf < items.len(),
        items[leaf].contains(cursor, snapshot),
        entries_at(items, cursor, snapshot, excerpt_id) == ancestor_chain(
            items,
            leaf,
            items.len() as int,
        ).map_values(|item: OutlineItemView<text::Anchor>| item.in_excerpt(excerpt_id)),
{
    let found = enclosing(items, cursor, snapshot);
    lemma_growing_run(found);
    lemma_run_moved(found, excerpt_id);
    lemma_run_is_ancestor_chain(items, cursor, snapshot, growing_run(found).len() - 1)
}

/// Where of any two entries that cover the cursor the earlier is an ancestor of the later, no
/// entry that covers the cursor is left out.
pub proof fn law_unambiguous_cursor(
    items: Seq<OutlineItemView<text::Anchor>>,
    cursor: text::Anchor,
    snapshot: BufferSnapshot,
    excerpt_id: ExcerptId,
)
    requires
        forall|i: int, j: int|
            0 <= i < j < items.len() && (#[trigger] items[i]).contains(cursor, snapshot) && (
            #[trigger] items[j]).contains(cursor, snapshot) ==> is_ancestor(items, i, j),
    ensures
        entries_at(items, cursor, snapshot, excerpt_id) == enclosing(
            items,
            cursor,
            snapshot,
        ).map_values(|item: OutlineItemView<text::Anchor>| item.in_excerpt(excerpt_id)),
{
    let size = items.len() as int;
    let found = enclosing(items, cursor, snapshot);
    let indices = covering(items, cursor, snapshot, size);
    lemma_covering(items, cursor, snapshot, size);
    assert(items.take(size) =~= items);
    assert forall|l: int| 0 < l < found.len() implies #[trigger] grows_at(found, l) by {
        assert(found[l] == items[indices[l]]);
        assert(found[l - 1] == items[indices[l - 1]]);
        assert(indices[l - 1] < indices[l]);
        assert(is_ancestor(items, indices[l - 1], indices[l]));
    }
    lemma_growing_run(found);
    assert(found.take(found.len() as int) =~= found);
    lemma_run_moved(found, excerpt_id);
}

/// The symbols at a cursor are entries of the outline that cover the cursor, moved into the
/// excerpt. They come in the order of the outline, no entry is taken twice, and each is deeper
/// than the one before it. There are none exactly where no entry covers the cursor, and the first
/// one is the first entry that does. Between the entries of two neighbours no entry covers the
/// cursor, and the next one that does, after the last, is no deeper than it.
///
/// Returns, for each symbol, the index of its entry.
pub proof fn law_symbols_cover_cursor(
    items: Seq<OutlineItemView<text::Anchor>>,
    cursor: text::Anchor,
    snapshot: BufferSnapshot,
    excerpt_id: ExcerptId,
) -> (indices: Seq<int>)
    ensures
        taken_in_order(items, indices, cursor, snapshot),
        entries_at(items, cursor, snapshot, excerpt_id) == indices.map_values(
            |i: int| items[i].in_excerpt(excerpt_id),
        ),
        indices.len() == 0 <==> forall|i: int|
            0 <= i < items.len() ==> !(#[trigger] items[i]).contains(cursor, snapshot),
        indices.len() > 0 ==> forall|i: int|
            0 <= i < indices[0] ==> !(#[trigger] items[i]).contains(cursor, snapshot),
        forall|k: int, l: int, i: int|
            0 <= k && l == k + 1 && l < indices.len() && #[trigger] indices[k] < i
                < #[trigger] indices[l] ==> !(#[trigger] items[i]).contains(cursor, snapshot),
        indices.len() > 0 ==> forall|j: int|
            indices.last() < j < items.len() && (#[trigger] items[j]).contains(cursor, snapshot)
                && (forall|i: int|
                indices.last() < i < j ==> !(#[trigger] items[i]).contains(cursor, snapshot))
                ==> items[j].depth <= items[indices.last()].depth,
{
    let size = items.len() as int;
    let found = enclosing(items, cursor, snapshot);
    let all = covering(items, cursor, snapshot, size);
    lemma_covering(items, cursor, snapshot, size);
    assert(items.take(size) =~= items);
    lemma_growing_run(found);
    lemma_run_moved(found, excerpt_id);
    let count = growing_run(found).len() as int;
    let indices = all.take(count);
    assert(entries_at(items, cursor, snapshot, excerpt_id) =~= indices.map_values(
        |i: int| items[i].in_excerpt(excerpt_id),
    ));
    assert forall|k: int, l: int| 0 <= k < l < indices.len() implies items[
        #[trigger] indices[k]
    ].depth < items[#[trigger] indices[l]].depth by {
        lemma_depths_grow(found, k, l);
        assert(found[k] == items[all[k]] && found[l] == items[all[l]]);
    }
    assert forall|i: int|
        0 <= i < items.len() && (#[trigger] items[i]).contains(cursor, snapshot) implies all.len()
        > 0 && all[0] <= i by {
        assert(all.contains(i));
    }
    if indices.len() > 0 {
        assert(items[indices[0]].contains(cursor, snapshot));
    }
    assert forall|k: int, l: int, i: int|
        0 <= k && l == k + 1 && l < indices.len() && #[trigger] indices[k] < i
            < #[trigger] indices[l] implies !(#[trigger] items[i]).contains(cursor, snapshot) by {
        if items[i].contains(cursor, snapshot) {
            let t = choose|t: int| 0 <= t < all.len() && all[t] == i;
            if t <= k {
                assert(t == k || all[t] < all[k]);
            } else {
                assert(t == l || all[l] < all[t]);
            }
        }
    }
    if indices.len() > 0 {
        let last = indices.last();
        assert(last == all[count - 1]);
        assert forall|j: int|
            last < j < items.len() && (#[trigger] items[j]).contains(cursor, snapshot) && (forall|
                i: int,
            |
                last < i < j ==> !(#[trigger] items[i]).contains(cursor, snapshot)) implies items[
        j].depth <= items[last].depth by {
            let t = choose|t: int| 0 <= t < all.len() && all[t] == j;
            if t < count {
                assert(t == count - 1 || all[t] < all[count - 1]);
            } else if t > count {
                assert(all[count - 1] < all[count] && all[count] < all[t]);
                assert(items[all[count]].contains(cursor, snapshot));
            }
            assert(t == count);
            assert(found[count] == items[all[count]] && found[count - 1] == items[all[count - 1]]);
            assert(!grows_at(found, count));
        }
    }
    indices
}

} // verus!
