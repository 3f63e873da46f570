//! What the symbols at a cursor are, told by the numbers at which a snapshot places anchors.

use std::ops::Range;
use vstd::prelude::*;

use crate::chain::law_symbols_cover_cursor;
use crate::multi_buffer::{Anchor, ExcerptId, excerpt_range};
use crate::outline::{OutlineItemView, entries_at};
use crate::text;
use crate::text::BufferSnapshot;

verus! {

/// The number at which an anchor is placed, if it is.
pub open spec fn place(positions: Map<u64, u64>, anchor: text::Anchor) -> Option<u64> {
    if positions.contains_key(anchor.handle) {
        Some(positions[anchor.handle])
    } else {
        None
    }
}

/// Of two anchors that a snapshot places, one comes before the other or coincides with it exactly
/// where its number is not the larger. An anchor that the snapshot does not place is in order with
/// none.
pub proof fn law_order_follows_positions(snapshot: BufferSnapshot, a: text::Anchor, b: text::Anchor)
    ensures
        !snapshot.positions@.contains_key(a.handle) ==> !snapshot.in_order(a, b),
        !snapshot.positions@.contains_key(b.handle) ==> !snapshot.in_order(a, b),
        snapshot.positions@.contains_key(a.handle) && snapshot.positions@.contains_key(b.handle)
            ==> (snapshot.in_order(a, b) <==> snapshot.positions@[a.handle]
            <= snapshot.positions@[b.handle]),
{
}

/// The anchors that a snapshot places are ordered by it: of any two, one is before the other; of
/// three, being before carries over; and two that are before each other are at one number.
pub proof fn law_snapshot_orders_its_anchors(
    snapshot: BufferSnapshot,
    a: text::Anchor,
    b: text::Anchor,
    c: text::Anchor,
)
    requires
        snapshot.positions@.contains_key(a.handle),
        snapshot.positions@.contains_key(b.handle),
    ensures
        snapshot.in_order(a, a),
        snapshot.in_order(a, b) || snapshot.in_order(b, a),
        snapshot.in_order(a, b) && snapshot.in_order(b, c) ==> snapshot.in_order(a, c),
        (snapshot.in_order(a, b) && snapshot.in_order(b, a)) <==> snapshot.positions@[a.handle]
            == snapshot.positions@[b.handle],
{
}

/// Handles are mere names: anchors that two snapshots place at the same numbers are in the same
/// order, whatever they are called.
pub proof fn law_handles_are_names(
    snapshot: BufferSnapshot,
    a: text::Anchor,
    b: text::Anchor,
    renamed: BufferSnapshot,
    renamed_a: text::Anchor,
    renamed_b: text::Anchor,
)
    requires
        place(snapshot.positions@, a) == place(renamed.positions@, renamed_a),
        place(snapshot.positions@, b) == place(renamed.positions@, renamed_b),
    ensures
        snapshot.in_order(a, b) == renamed.in_order(renamed_a, renamed_b),
{
}

/// Whether the cursor's number is between those of the two ends of an entry, both included.
pub open spec fn lies_within(
    item: OutlineItemView<text::Anchor>,
    cursor: text::Anchor,
    positions: Map<u64, u64>,
) -> bool {
    match (
        place(positions, item.range.start),
        place(positions, cursor),
        place(positions, item.range.end),
    ) {
        (Some(start), Some(at), Some(end)) => start <= at <= end,
        _ => false,
    }
}

/// An entry covers the cursor exactly where the cursor's number is between those of its ends.
pub proof fn law_coverage_follows_positions(
    item: OutlineItemView<text::Anchor>,
    cursor: text::Anchor,
    snapshot: BufferSnapshot,
)
    ensures
        item.contains(cursor, snapshot) <==> lies_within(item, cursor, snapshot.positions@),
{
}

/// Whether `moved` is the range `range`, with each end in the excerpt.
pub open spec fn is_range_in(
    moved: Range<Anchor>,
    range: Range<text::Anchor>,
    excerpt_id: ExcerptId,
) -> bool {
    &&& moved.start.text_anchor == range.start
    &&& moved.end.text_anchor == range.end
    &&& moved.start.excerpt_id == excerpt_id
    &&& moved.end.excerpt_id == excerpt_id
}

/// Whether `moved` is the range `range`, with each end in the excerpt, or both are missing.
pub open spec fn is_optional_range_in(
    moved: Option<Range<Anchor>>,
    range: Option<Range<text::Anchor>>,
    excerpt_id: ExcerptId,
) -> bool {
    match (moved, range) {
        (Some(moved), Some(range)) => is_range_in(moved, range, excerpt_id),
        (None, None) => true,
        _ => false,
    }
}

/// Whether `moved` is the entry `item`, with each of its positions in the excerpt and all else the
/// same.
pub open spec fn is_entry_in(
    moved: OutlineItemView<Anchor>,
    item: OutlineItemView<text::Anchor>,
    excerpt_id: ExcerptId,
) -> bool {
    &&& moved.depth == item.depth
    &&& moved.text == item.text
    &&& moved.highlight_ranges == item.highlight_ranges
    &&& moved.name_ranges == item.name_ranges
    &&& is_range_in(moved.range, item.range, excerpt_id)
    &&& is_range_in(moved.source_range_for_text, item.source_range_for_text, excerpt_id)
    &&& is_optional_range_in(moved.body_range, item.body_range, excerpt_id)
    &&& is_optional_range_in(moved.annotation_range, item.annotation_range, excerpt_id)
}

/// To move an entry into an excerpt gives each of its positions the excerpt and changes nothing
/// else, and so does to move a range.
pub proof fn law_moving_keeps_entry(
    item: OutlineItemView<text::Anchor>,
    range: Range<text::Anchor>,
    excerpt_id: ExcerptId,
)
    ensures
        is_entry_in(item.in_excerpt(excerpt_id), item, excerpt_id),
        is_range_in(excerpt_range(excerpt_id, range), range, excerpt_id),
{
}

/// Whether `indices` picks the chain of entries at the cursor: it begins with the first entry that
/// the cursor lies within, goes on to the next such entry as long as that is deeper, and ends
/// where it is not or where there is none.
pub open spec fn picks_chain(
    items: Seq<OutlineItemView<text::Anchor>>,
    indices: Seq<int>,
    cursor: text::Anchor,
    positions: Map<u64, u64>,
) -> bool {
    &&& forall|k: int|
        0 <= k < indices.len() ==> 0 <= #[trigger] indices[k] < items.len() && lies_within(
            items[indices[k]],
            cursor,
            positions,
        )
    &&& indices.len() == 0 ==> forall|i: int|
        0 <= i < items.len() ==> !lies_within(#[trigger] items[i], cursor, positions)
    &&& indices.len() > 0 ==> forall|i: int|
        0 <= i < indices[0] ==> !lies_within(#[trigger] items[i], cursor, positions)
    &&& forall|k: int, l: int|
        0 <= k < l < indices.len() ==> #[trigger] indices[k] < #[trigger] indices[l]
            && items[indices[k]].depth < items[indices[l]].depth
    &&& forall|k: int, l: int, i: int|
        0 <= k && l == k + 1 && l < indices.len() && #[trigger] indices[k] < i
            < #[trigger] indices[l] ==> !lies_within(#[trigger] items[i], cursor, positions)
    &&& indices.len() > 0 ==> forall|j: int|
        indices.last() < j < items.len() && lies_within(#[trigger] items[j], cursor, positions) && (
        forall|i: int|
            indices.last() < i < j ==> !lies_within(#[trigger] items[i], cursor, positions))
            ==> items[j].depth <= items[indices.last()].depth
}

/// The entries at a cursor are the chain that the cursor's number picks among the numbers of the
/// entries' ends, each moved into the excerpt.
///
/// Returns the places of the chain's entries.
pub proof fn law_entries_at_cursor(
    items: Seq<OutlineItemView<text::Anchor>>,
    cursor: text::Anchor,
    snapshot: BufferSnapshot,
    excerpt_id: ExcerptId,
) -> (indices: Seq<int>)
    ensures
        picks_chain(items, indices, cursor, snapshot.positions@),
        entries_at(items, cursor, snapshot, excerpt_id).len() == indices.len(),
        forall|k: int|
            0 <= k < indices.len() ==> is_entry_in(
                entries_at(items, cursor, snapshot, excerpt_id)[k],
                items[#[trigger] indices[k]],
                excerpt_id,
            ),
{
    let positions = snapshot.positions@;
    let indices = law_symbols_cover_cursor(items, cursor, snapshot, excerpt_id);
    let symbols = entries_at(items, cursor, snapshot, excerpt_id);
    assert forall|i: int| 0 <= i < items.len() implies lies_within(
        #[trigger] items[i],
        cursor,
        positions,
    ) == items[i].contains(cursor, snapshot) by {
        law_coverage_follows_positions(items[i], cursor, snapshot);
    }
    assert forall|k: int| 0 <= k < indices.len() implies is_entry_in(
        symbols[k],
        items[#[trigger] indices[k]],
        excerpt_id,
    ) by {
        law_moving_keeps_entry(items[indices[k]], items[indices[k]].range, excerpt_id);
    }
    if indices.len() > 0 {
        let last = indices.last();
        assert(last == indices[indices.len() - 1]);
        assert forall|j: int|
            last < j < items.len() && lies_within(#[trigger] items[j], cursor, positions) && (
            forall|i: int| last < i < j ==> !lies_within(#[trigger] items[i], cursor, positions))
            implies items[j].depth <= items[last].depth by {
            assert forall|i: int| last < i < j implies !(#[trigger] items[i]).contains(
                cursor,
                snapshot,
            ) by {
                assert(!lies_within(items[i], cursor, positions));
            }
        }
    }
    indices
}

/// At the place `k` two picks of the chain agree.
proof fn lemma_picks_agree(
    items: Seq<OutlineItemView<text::Anchor>>,
    a: Seq<int>,
    b: Seq<int>,
    cursor: text::Anchor,
    positions: Map<u64, u64>,
    k: int,
)
    requires
        picks_chain(items, a, cursor, positions),
        picks_chain(items, b, cursor, positions),
        0 <= k < a.len(),
        k < b.len(),
    ensures
        a[k] == b[k],
    decreases k,
{
    assert(lies_within(items[a[k]], cursor, positions));
    assert(lies_within(items[b[k]], cursor, positions));
    if k > 0 {
        lemma_picks_agree(items, a, b, cursor, positions, k - 1);
        assert(a[k - 1] < a[k] && b[k - 1] < b[k]);
    }
}

proof fn lemma_pick_is_not_longer(
    items: Seq<OutlineItemView<text::Anchor>>,
    a: Seq<int>,
    b: Seq<int>,
    cursor: text::Anchor,
    positions: Map<u64, u64>,
)
    requires
        picks_chain(items, a, cursor, positions),
        picks_chain(items, b, cursor, positions),
    ensures
        b.len() <= a.len(),
{
    if a.len() < b.len() {
        let n = a.len() as int;
        assert(lies_within(items[b[n]], cursor, positions));
        if n > 0 {
            lemma_picks_agree(items, a, b, cursor, positions, n - 1);
            assert(a.last() == b[n - 1]);
            assert(b[n - 1] < b[n] && items[b[n - 1]].depth < items[b[n]].depth);
            assert forall|i: int| a.last() < i < b[n] implies !lies_within(
                #[trigger] items[i],
                cursor,
                positions,
            ) by {
                assert(b[n - 1] < i < b[n]);
            }
        }
    }
}

/// There is only one chain of entries at a cursor.
pub proof fn law_chain_is_unique(
    items: Seq<OutlineItemView<text::Anchor>>,
    a: Seq<int>,
    b: Seq<int>,
    cursor: text::Anchor,
    positions: Map<u64, u64>,
)
    requires
        picks_chain(items, a, cursor, positions),
        picks_chain(items, b, cursor, positions),
    ensures
        a == b,
{
    lemma_pick_is_not_longer(items, a, b, cursor, positions);
    lemma_pick_is_not_longer(items, b, a, cursor, positions);
    assert forall|k: int| 0 <= k < a.len() implies a[k] == b[k] by {
        lemma_picks_agree(items, a, b, cursor, positions, k);
    }
    assert(a =~= b);
}

/// The entries at a cursor do not depend on what anchors are called: where two outlines have the
/// same depths, and their entries and the cursors are placed at the same numbers, entries of the
/// same places in the outlines are picked.
///
/// Returns the places.
pub proof fn law_entries_ignore_handles(
    items: Seq<OutlineItemView<text::Anchor>>,
    cursor: text::Anchor,
    snapshot: BufferSnapshot,
    renamed_items: Seq<OutlineItemView<text::Anchor>>,
    renamed_cursor: text::Anchor,
    renamed: BufferSnapshot,
    excerpt_id: ExcerptId,
) -> (indices: Seq<int>)
    requires
        items.len() == renamed_items.len(),
        place(snapshot.positions@, cursor) == place(renamed.positions@, renamed_cursor),
        forall|i: int|
            0 <= i < items.len() ==> {
                &&& (#[trigger] items[i]).depth == renamed_items[i].depth
                &&& place(snapshot.positions@, items[i].range.start) == place(
                    renamed.positions@,
                    renamed_items[i].range.start,
                )
                &&& place(snapshot.positions@, items[i].range.end) == place(
                    renamed.positions@,
                    renamed_items[i].range.end,
                )
            },
    ensures
        ({
            let symbols = entries_at(items, cursor, snapshot, excerpt_id);
            let renamed_symbols = entries_at(renamed_items, renamed_cursor, renamed, excerpt_id);
            &&& symbols.len() == indices.len()
            &&& renamed_symbols.len() == indices.len()
            &&& forall|k: int|
                0 <= k < indices.len() ==> is_entry_in(
                    symbols[k],
                    items[#[trigger] indices[k]],
                    excerpt_id,
                ) && is_entry_in(renamed_symbols[k], renamed_items[indices[k]], excerpt_id)
        }),
{
    let indices = law_entries_at_cursor(items, cursor, snapshot, excerpt_id);
    let others = law_entries_at_cursor(renamed_items, renamed_cursor, renamed, excerpt_id);
    assert forall|i: int| 0 <= i < items.len() implies lies_within(
        #[trigger] items[i],
        cursor,
        snapshot.positions@,
    ) == lies_within(renamed_items[i], renamed_cursor, renamed.positions@) by {}
    lemma_same_pick(
        items,
        cursor,
        snapshot.positions@,
        renamed_items,
        renamed_cursor,
        renamed.positions@,
        others,
    );
    law_chain_is_unique(items, indices, others, cursor, snapshot.positions@);
    indices
}

proof fn lemma_same_pick(
    items: Seq<OutlineItemView<text::Anchor>>,
    cursor: text::Anchor,
    positions: Map<u64, u64>,
    others: Seq<OutlineItemView<text::Anchor>>,
    other_cursor: text::Anchor,
    other_positions: Map<u64, u64>,
    indices: Seq<int>,
)
    requires
        items.len() == others.len(),
        forall|i: int|
            0 <= i < items.len() ==> (#[trigger] items[i]).depth == others[i].depth && lies_within(
                items[i],
                cursor,
                positions,
            ) == lies_within(others[i], other_cursor, other_positions),
        picks_chain(others, indices, other_cursor, other_positions),
    ensures
        picks_chain(items, indices, cursor, positions),
{
    assert forall|i: int| 0 <= i < items.len() implies lies_within(
        #[trigger] others[i],
        other_cursor,
        other_positions,
    ) == lies_within(items[i], cursor, positions) by {
        assert(items[i].depth == others[i].depth);
    }
    assert forall|k: int| 0 <= k < indices.len() implies 0 <= #[trigger] indices[k] < items.len()
        && lies_within(items[indices[k]], cursor, positions) && items[indices[k]].depth
        == others[indices[k]].depth by {
        assert(lies_within(others[indices[k]], other_cursor, other_positions));
        assert(items[indices[k]].depth == others[indices[k]].depth);
    }
    if indices.len() > 0 {
        let last = indices.last();
        assert(last == indices[indices.len() - 1]);
        assert forall|j: int|
            last < j < items.len() && lies_within(#[trigger] items[j], cursor, positions) && (
            forall|i: int| last < i < j ==> !lies_within(#[trigger] items[i], cursor, positions))
            implies items[j].depth <= items[last].depth by {
            assert(lies_within(others[j], other_cursor, other_positions));
            assert forall|i: int| last < i < j implies !lies_within(
                #[trigger] others[i],
                other_cursor,
                other_positions,
            ) by {
                assert(!lies_within(items[i], cursor, positions));
            }
        }
    }
}

} // verus!
