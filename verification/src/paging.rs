//! Cutting groups of items into fixed-size pages laid end to end.
//!
//! Each group is cut into pages of `size` items (the last one possibly short); a group with
//! no item still gets one empty page, so every group owns a non-empty run of pages.

use vstd::prelude::*;

verus! {

/// `items` cut into pages of `size` (the last may be short; no items: one empty page).
pub open spec fn chunks<T>(items: Seq<T>, size: nat) -> Seq<Seq<T>>
    decreases items.len(),
{
    if items.len() <= size || size == 0 {
        seq![items]
    } else {
        seq![items.take(size as int)] + chunks(items.skip(size as int), size)
    }
}

/// Every group's pages, group after group.
pub open spec fn paged<T>(groups: Seq<Seq<T>>, size: nat) -> Seq<Seq<T>>
    decreases groups.len(),
{
    if groups.len() == 0 {
        Seq::empty()
    } else {
        paged(groups.drop_last(), size) + chunks(groups.last(), size)
    }
}

/// The first page of group `g`.
pub open spec fn first_page<T>(groups: Seq<Seq<T>>, size: nat, g: int) -> int {
    paged(groups.take(g), size).len() as int
}

/// The last page of group `g`.
pub open spec fn last_page<T>(groups: Seq<Seq<T>>, size: nat, g: int) -> int {
    paged(groups.take(g + 1), size).len() - 1
}

/// A group always makes at least one page (an empty group makes one empty page), and
/// with a positive page size, never more pages than items plus one.
pub proof fn lemma_chunks_len<T>(items: Seq<T>, size: nat)
    ensures
        chunks(items, size).len() >= 1,
        size > 0 ==> chunks(items, size).len() <= items.len() + 1,
    decreases items.len(),
{
    if !(items.len() <= size || size == 0) {
        lemma_chunks_len(items.skip(size as int), size);
    }
}

/// Page `w` of a group is the slice of its items starting at `w * size`.
pub proof fn lemma_chunk_at<T>(items: Seq<T>, size: nat, w: int)
    requires
        size > 0,
        0 <= w < chunks(items, size).len(),
    ensures
        w * size <= items.len(),
        chunks(items, size)[w] == items.subrange(
            w * size,
            if (w + 1) * size <= items.len() { (w + 1) * size } else { items.len() as int },
        ),
    decreases items.len(),
{
    if items.len() <= size {
        assert(w == 0);
        assert(w * size == 0) by (nonlinear_arith)
            requires
                w == 0,
        ;
        assert(items.subrange(0, items.len() as int) =~= items);
    } else if w == 0 {
        assert(w * size == 0) by (nonlinear_arith)
            requires
                w == 0,
        ;
        assert((w + 1) * size == size) by (nonlinear_arith)
            requires
                w == 0,
        ;
        assert(items.subrange(0, size as int) =~= items.take(size as int));
    } else {
        let rest = items.skip(size as int);
        lemma_chunk_at(rest, size, w - 1);
        assert((w - 1) * size + size == w * size) by (nonlinear_arith);
        assert((w - 1 + 1) * size + size == (w + 1) * size) by (nonlinear_arith);
        assert(rest.len() == items.len() - size);
        assert(w * size <= items.len());
        assert(rest.subrange(
            (w - 1) * size,
            if w * size <= rest.len() { w * size } else { rest.len() as int },
        ) =~= items.subrange(
            w * size,
            if (w + 1) * size <= items.len() { (w + 1) * size } else { items.len() as int },
        ));
    }
}

/// Pages of two runs of groups are the pages of the first run, then those of the second.
pub proof fn lemma_paged_append<T>(a: Seq<Seq<T>>, b: Seq<Seq<T>>, size: nat)
    ensures
        paged(a + b, size) == paged(a, size) + paged(b, size),
    decreases b.len(),
{
    if b.len() == 0 {
        assert(a + b =~= a);
        assert(paged(a, size) + paged(b, size) =~= paged(a, size));
    } else {
        lemma_paged_append(a, b.drop_last(), size);
        assert((a + b).drop_last() =~= a + b.drop_last());
        assert((a + b).last() == b.last());
    }
}

/// Adding group `g` adds exactly its pages.
pub proof fn lemma_paged_step<T>(groups: Seq<Seq<T>>, size: nat, g: int)
    requires
        0 <= g < groups.len(),
    ensures
        paged(groups.take(g + 1), size) == paged(groups.take(g), size) + chunks(groups[g], size),
        last_page(groups, size, g) == first_page(groups, size, g) + chunks(groups[g], size).len() - 1,
        first_page(groups, size, g) <= last_page(groups, size, g),
{
    assert(groups.take(g + 1).drop_last() =~= groups.take(g));
    assert(groups.take(g + 1).last() == groups[g]);
    lemma_chunks_len(groups[g], size);
}

/// Later groups start after earlier ones end.
pub proof fn lemma_pages_ordered<T>(groups: Seq<Seq<T>>, size: nat, g: int, h: int)
    requires
        0 <= g < h <= groups.len(),
    ensures
        last_page(groups, size, g) < first_page(groups, size, h),
    decreases h - g,
{
    lemma_paged_step(groups, size, g);
    if h > g + 1 {
        lemma_paged_step(groups, size, h - 1);
        lemma_pages_ordered(groups, size, g, h - 1);
    }
}

/// Group `g`'s first page is its page `0`; its page `w` sits at `first_page + w`.
pub proof fn lemma_page_of_group<T>(groups: Seq<Seq<T>>, size: nat, g: int, w: int)
    requires
        0 <= g < groups.len(),
        0 <= w < chunks(groups[g], size).len(),
    ensures
        first_page(groups, size, g) + w < paged(groups, size).len(),
        paged(groups, size)[first_page(groups, size, g) + w] == chunks(groups[g], size)[w],
{
    lemma_paged_step(groups, size, g);
    lemma_paged_append(groups.take(g + 1), groups.skip(g + 1), size);
    assert(groups.take(g + 1) + groups.skip(g + 1) =~= groups);
}

/// The pages of all the groups, and nothing more: the first group starts at page 0 and
/// the last ends at the last page.
pub proof fn lemma_pages_total<T>(groups: Seq<Seq<T>>, size: nat)
    ensures
        groups.len() > 0 ==> last_page(groups, size, groups.len() - 1) == paged(groups, size).len() - 1,
        first_page(groups, size, 0) == 0,
{
    assert(groups.take(0) =~= Seq::<Seq<T>>::empty());
    if groups.len() > 0 {
        assert(groups.take(groups.len() as int) =~= groups);
    }
}

/// Every page belongs to one group.
pub proof fn lemma_page_in_some_group<T>(groups: Seq<Seq<T>>, size: nat, page: int)
    requires
        0 <= page < paged(groups, size).len(),
    ensures
        exists|g: int|
            0 <= g < groups.len() && first_page(groups, size, g) <= page <= #[trigger] last_page(
                groups,
                size,
                g,
            ),
    decreases groups.len(),
{
    let n = groups.len() as int;
    assert(n > 0);
    lemma_pages_total(groups, size);
    lemma_paged_step(groups, size, n - 1);
    let g = n - 1;
    if page >= first_page(groups, size, g) {
        assert(last_page(groups, size, g) == paged(groups, size).len() - 1);
    } else {
        let smaller = groups.drop_last();
        assert(groups.take(g) =~= smaller);
        lemma_page_in_some_group(smaller, size, page);
        let h = choose|h: int|
            0 <= h < smaller.len() && first_page(smaller, size, h) <= page <= #[trigger] last_page(
                smaller,
                size,
                h,
            );
        assert(smaller.take(h) =~= groups.take(h));
        assert(smaller.take(h + 1) =~= groups.take(h + 1));
        assert(last_page(groups, size, h) == last_page(smaller, size, h));
    }
}

/// The parts, one after another.
pub open spec fn joined<T>(parts: Seq<Seq<T>>) -> Seq<T>
    decreases parts.len(),
{
    if parts.len() == 0 {
        Seq::empty()
    } else {
        joined(parts.drop_last()) + parts.last()
    }
}

/// Joining two runs of groups gives the first run's items, then the second's.
pub proof fn lemma_joined_append<T>(a: Seq<Seq<T>>, b: Seq<Seq<T>>)
    ensures
        joined(a + b) == joined(a) + joined(b),
    decreases b.len(),
{
    if b.len() == 0 {
        assert(a + b =~= a);
        assert(joined(a) + joined(b) =~= joined(a));
    } else {
        lemma_joined_append(a, b.drop_last());
        assert((a + b).drop_last() =~= a + b.drop_last());
        assert(joined(a) + joined(b.drop_last()) + b.last() =~= joined(a) + (joined(b.drop_last()) + b.last()));
    }
}

proof fn lemma_joined_single<T>(x: Seq<T>)
    ensures
        joined(seq![x]) == x,
{
    assert(seq![x].drop_last() =~= Seq::<Seq<T>>::empty());
    assert(seq![x].last() == x);
    assert(joined(Seq::<Seq<T>>::empty()) == Seq::<T>::empty());
    assert(Seq::<T>::empty() + x =~= x);
}

/// A group's pages hold its items, in order, each page at most `size` of them, and no
/// page is empty unless the group is.
pub proof fn lemma_chunks_hold_items<T>(items: Seq<T>, size: nat)
    requires
        size > 0,
    ensures
        joined(chunks(items, size)) == items,
        forall|w: int| 0 <= w < chunks(items, size).len() ==> (#[trigger] chunks(items, size)[w]).len() <= size,
        forall|w: int| 0 <= w < chunks(items, size).len() && items.len() > 0 ==> (#[trigger] chunks(items, size)[w]).len() > 0,
    decreases items.len(),
{
    let c = chunks(items, size);
    if items.len() <= size {
        lemma_joined_single(items);
    } else {
        let rest = items.skip(size as int);
        lemma_chunks_hold_items(rest, size);
        lemma_joined_append(seq![items.take(size as int)], chunks(rest, size));
        lemma_joined_single(items.take(size as int));
        assert(items.take(size as int) + rest =~= items);
        assert forall|w: int| 0 <= w < c.len() implies (#[trigger] c[w]).len() <= size && c[w].len() > 0 by {
            if w > 0 {
                assert(c[w] == chunks(rest, size)[w - 1]);
            }
        }
    }
}

/// The pages of all the groups hold every item of every group, in order.
pub proof fn lemma_pages_hold_items<T>(groups: Seq<Seq<T>>, size: nat)
    requires
        size > 0,
    ensures
        joined(paged(groups, size)) == joined(groups),
    decreases groups.len(),
{
    if groups.len() > 0 {
        lemma_pages_hold_items(groups.drop_last(), size);
        lemma_chunks_hold_items(groups.last(), size);
        lemma_joined_append(paged(groups.drop_last(), size), chunks(groups.last(), size));
    }
}

} // verus!
