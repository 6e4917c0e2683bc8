//! The warm-up feeder's plan: the groups in which the content entries are
//! touched ahead of their conversion, and the order of the groups.

use rand::seq::SliceRandom;
use rayon::slice::ParallelSlice;
use rayon::iter::ParallelIterator;
use vstd::prelude::*;

verus! {

/// The number of groups that the content entries are split into, where there
/// are enough of them.
pub const TARGET_CHUNKS: usize = 128;

/// The number of entries that may wait between the feeder and the converter.
pub const CHANNEL_CAPACITY: usize = 2048;

/// The size of a group, for `total` entries: the 128th part of them, and at
/// least one.
pub open spec fn chunk_size_for(total: nat) -> nat {
    if total / 128 == 0 {
        1
    } else {
        total / 128
    }
}

/// The number of groups of `size` items that `len` items fill, the last one
/// perhaps in part.
pub open spec fn chunk_count(len: nat, size: nat) -> nat {
    if size == 0 {
        0
    } else {
        ((len + size - 1) / (size as int)) as nat
    }
}

/// `items` cut into runs of `size` items, in order; the last run holds what
/// is left. There is no run where there is no item.
pub open spec fn chunks_of(items: Seq<u32>, size: nat) -> Seq<Seq<u32>> {
    Seq::new(
        chunk_count(items.len(), size),
        |i: int|
            items.subrange(
                i * size,
                if (i + 1) * size <= items.len() {
                    (i + 1) * size
                } else {
                    items.len() as int
                },
            ),
    )
}

/// The items of each chunk.
pub open spec fn chunk_views(chunks: Seq<&[u32]>) -> Seq<Seq<u32>> {
    chunks.map_values(|chunk: &[u32]| chunk@)
}

/// Where the last byte of an item of `size` bytes lies.
pub open spec fn trailing_offset(size: u64) -> Option<u64> {
    if size == 0 {
        None
    } else {
        Some((size - 1) as u64)
    }
}

/// The size of a group, for `total` entries.
pub fn chunk_size(total: usize) -> (size: usize)
    ensures
        size == chunk_size_for(total as nat),
        size >= 1,
{
    let size: usize = total / TARGET_CHUNKS;
    if size == 0 {
        1
    } else {
        size
    }
}

/// The offset of the one byte that is read to warm an item up: its last one.
/// An empty item has none.
pub fn trailing_byte_offset(size: u64) -> (offset: Option<u64>)
    ensures
        offset == trailing_offset(size),
{
    if size == 0 {
        None
    } else {
        Some(size - 1)
    }
}

/// Calls `par_chunks` of the crate `rayon` on `items` and collects what it
/// yields. Believed, not proved: the chunks come in order, do not overlap,
/// hold `size` items each but for the last, which holds what is left, and
/// together hold every item. `par_chunks` panics on a size of zero.
#[verifier::external_body]
fn split_chunks<'a>(items: &'a [u32], size: usize) -> (chunks: Vec<&'a [u32]>)
    requires
        size > 0,
    ensures
        chunk_views(chunks@) == chunks_of(items@, size as nat),
{
    items.par_chunks(size).collect()
}

/// Calls `shuffle` of the crate `rand` on the chunks, with the generator of
/// the running thread. Believed, not proved: the chunks afterwards are the
/// chunks before, in an order that nothing is said of.
#[verifier::external_body]
fn shuffle_chunks<'a>(chunks: &mut Vec<&'a [u32]>)
    ensures
        final(chunks)@.to_multiset() == old(chunks)@.to_multiset(),
{
    chunks.shuffle(&mut rand::thread_rng())
}

/// Every chunk but the last holds `size` items, and the last holds at least
/// one and at most `size`.
pub proof fn lemma_chunk_lengths(items: Seq<u32>, size: nat, i: int)
    requires
        size > 0,
        0 <= i < chunks_of(items, size).len(),
    ensures
        1 <= chunks_of(items, size)[i].len() <= size,
        i + 1 < chunks_of(items, size).len() ==> chunks_of(items, size)[i].len() == size,
        0 <= i * size < items.len(),
{
    let len = items.len() as int;
    let step = size as int;
    let count = chunk_count(items.len(), size) as int;
    assert(count == (len + step - 1) / step);
    assert(i * step < len && (i + 1 < count ==> (i + 1) * step <= len) && 0 <= i * step) by (nonlinear_arith)
        requires
            0 <= i < count,
            count == (len + step - 1) / step,
            step > 0,
            len >= 0,
    ;
    assert((i + 1) * step == i * step + step) by (nonlinear_arith);
}

/// Cutting into chunks loses no item and makes none twice: the item at `at`
/// is in the chunk `at / size`, at the place `at % size`.
pub proof fn lemma_chunks_cover(items: Seq<u32>, size: nat, at: int)
    requires
        size > 0,
        0 <= at < items.len(),
    ensures
        0 <= at / (size as int) < chunks_of(items, size).len(),
        0 <= at % (size as int) < chunks_of(items, size)[at / (size as int)].len(),
        chunks_of(items, size)[at / (size as int)][at % (size as int)] == items[at],
{
    let len = items.len() as int;
    let step = size as int;
    let count = chunk_count(items.len(), size) as int;
    let i = at / step;
    let rest = at % step;
    assert(count == (len + step - 1) / step);
    assert(0 <= i < count && 0 <= rest < step && at == i * step + rest) by (nonlinear_arith)
        requires
            0 <= at < len,
            step > 0,
            i == at / step,
            rest == at % step,
            count == (len + step - 1) / step,
    ;
    assert((i + 1) * step == i * step + step) by (nonlinear_arith);
}

/// Two sequences with the same items, each as often in the one as in the
/// other, still have the same items after one function is applied to each
/// item.
pub proof fn lemma_map_values_keeps_multiset<A, B>(a: Seq<A>, b: Seq<A>, f: spec_fn(A) -> B)
    requires
        a.to_multiset() == b.to_multiset(),
    ensures
        a.map_values(f).to_multiset() == b.map_values(f).to_multiset(),
    decreases a.len(),
{
    broadcast use vstd::seq_lib::group_to_multiset_ensures;

    if a.len() == 0 {
        assert(a.to_multiset().len() == a.len());
        assert(b.to_multiset().len() == b.len());
        assert(a.map_values(f) =~= b.map_values(f));
    } else {
        let x = a.last();
        let shorter = a.drop_last();
        assert(a =~= shorter.push(x));
        assert(a.contains(x));
        assert(b.to_multiset().count(x) > 0);
        assert(b.contains(x));
        let j = choose|j: int| 0 <= j < b.len() && b[j] == x;
        let rest = b.remove(j);
        assert(shorter.to_multiset() =~= a.to_multiset().remove(x));
        assert(rest.to_multiset() =~= b.to_multiset().remove(x));
        lemma_map_values_keeps_multiset(shorter, rest, f);
        assert(a.map_values(f) =~= shorter.map_values(f).push(f(x)));
        assert(rest.map_values(f) =~= b.map_values(f).remove(j));
        assert(b.map_values(f)[j] == f(x));
        assert(b.map_values(f).to_multiset().count(f(x)) > 0) by {
            assert(b.map_values(f).contains(f(x)));
        }
        assert(b.map_values(f).to_multiset() =~= rest.map_values(f).to_multiset().insert(f(x)));
    }
}

/// Plans the warm-up of the content entries at `content`: cuts them into
/// groups of the size that goes with their number, and puts the groups in a
/// random order. Each group keeps its entries in the order of `content`.
pub fn plan_chunks<'a>(content: &'a [u32]) -> (chunks: Vec<&'a [u32]>)
    ensures
        chunk_views(chunks@).to_multiset() == chunks_of(
            content@,
            chunk_size_for(content@.len()),
        ).to_multiset(),
{
    let size = chunk_size(content.len());
    let mut chunks = split_chunks(content, size);
    let ghost ordered = chunks@;
    shuffle_chunks(&mut chunks);
    proof {
        lemma_map_values_keeps_multiset(chunks@, ordered, |chunk: &[u32]| chunk@);
    }
    chunks
}

} // verus!
