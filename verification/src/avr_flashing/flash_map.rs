//! The sparse store of flash pages into which the fragments of all segments
//! are merged.

use std::collections::HashMap;
use vstd::prelude::*;

use super::page_content::{writes_of, PageContent, PageWrite};

verus! {

/// The pages of a store, by page index, each as the sequence of its bytes.
pub open spec fn pages_of<const N: usize>(store: Map<u16, [u8; N]>) -> Map<int, Seq<u8>> {
    Map::new(
        |index: int| 0 <= index <= u16::MAX && store.contains_key(index as u16),
        |index: int| store[index as u16]@,
    )
}

/// Every page of the store has `page_size` bytes.
pub open spec fn pages_sized(pages: Map<int, Seq<u8>>, page_size: int) -> bool {
    forall|index: int| #[trigger] pages.contains_key(index) ==> pages[index].len() == page_size
}

/// The pages of a store of arrays all have the arrays' length.
pub proof fn lemma_store_pages_sized<const N: usize>(store: Map<u16, [u8; N]>)
    ensures
        pages_sized(pages_of(store), N as int),
{
}

/// A page that nothing has been written to.
pub open spec fn blank_page(page_size: int) -> Seq<u8> {
    Seq::new(page_size as nat, |i: int| 0u8)
}

/// `base` with `bytes` written over it from position `start` on.
pub open spec fn overwrite(base: Seq<u8>, start: int, bytes: Seq<u8>) -> Seq<u8> {
    Seq::new(
        base.len(),
        |i: int|
            if start <= i < start + bytes.len() {
                bytes[i - start]
            } else {
                base[i]
            },
    )
}

/// The pages after one write: the page written to starts out blank if the
/// store did not hold it, and changes only where the write covers it.
pub open spec fn merge_write(pages: Map<int, Seq<u8>>, write: PageWrite, page_size: int) -> Map<
    int,
    Seq<u8>,
> {
    let base = if pages.contains_key(write.index) {
        pages[write.index]
    } else {
        blank_page(page_size)
    };
    pages.insert(write.index, overwrite(base, write.start, write.bytes))
}

/// The pages after a sequence of writes, the first of them made first.
pub open spec fn merge_writes(pages: Map<int, Seq<u8>>, writes: Seq<PageWrite>, page_size: int) -> Map<
    int,
    Seq<u8>,
>
    decreases writes.len(),
{
    if writes.len() == 0 {
        pages
    } else {
        merge_write(merge_writes(pages, writes.drop_last(), page_size), writes.last(), page_size)
    }
}

/// A write to a page that the store holds changes that page only where the
/// write covers it, and no other page.
pub proof fn lemma_write_changes_only_range(
    pages: Map<int, Seq<u8>>,
    write: PageWrite,
    page_size: int,
)
    requires
        pages_sized(pages, page_size),
        pages.contains_key(write.index),
        0 <= write.start,
        write.start + write.bytes.len() <= page_size,
    ensures
        ({
            let after = merge_write(pages, write, page_size);
            &&& pages_sized(after, page_size)
            &&& after.dom() == pages.dom()
            &&& forall|i: int|
                write.start <= i < write.start + write.bytes.len() ==> after[write.index][i]
                    == write.bytes[i - write.start]
            &&& forall|i: int|
                0 <= i < page_size && !(write.start <= i < write.start + write.bytes.len())
                    ==> after[write.index][i] == pages[write.index][i]
            &&& forall|other: int|
                other != write.index && pages.contains_key(other) ==> after[other] == pages[other]
        }),
{
    let after = merge_write(pages, write, page_size);
    assert(after.dom() =~= pages.dom());
}

/// A full page written to `index`, then `bytes` written over it from `start` on.
pub open spec fn full_then_part(index: int, full: Seq<u8>, start: int, bytes: Seq<u8>) -> Seq<
    PageWrite,
> {
    seq![
        PageWrite { index, start: 0, bytes: full },
        PageWrite { index, start, bytes },
    ]
}

/// Partial-overwrite composition: after a full page and then a partial write
/// to the same page, the page holds the partial write's bytes where that
/// write covers it and the full page's bytes everywhere else; the other
/// pages of the store are as before.
pub proof fn lemma_partial_overwrite(
    pages: Map<int, Seq<u8>>,
    index: int,
    full: Seq<u8>,
    start: int,
    bytes: Seq<u8>,
    page_size: int,
)
    requires
        pages_sized(pages, page_size),
        full.len() == page_size,
        0 <= start,
        start + bytes.len() <= page_size,
    ensures
        ({
            let after = merge_writes(pages, full_then_part(index, full, start, bytes), page_size);
            &&& pages_sized(after, page_size)
            &&& after.dom() == pages.dom().insert(index)
            &&& after[index] == overwrite(full, start, bytes)
            &&& after[index].len() == page_size
            &&& forall|i: int|
                start <= i < start + bytes.len() ==> after[index][i] == bytes[i - start]
            &&& forall|i: int|
                0 <= i < page_size && !(start <= i < start + bytes.len()) ==> after[index][i]
                    == full[i]
            &&& forall|other: int|
                other != index && pages.contains_key(other) ==> after[other] == pages[other]
        }),
{
    let writes = full_then_part(index, full, start, bytes);
    let first = writes.drop_last();
    assert(first.drop_last() =~= Seq::<PageWrite>::empty());
    assert(first.last() == writes[0]);
    let between = merge_writes(pages, first, page_size);
    assert(merge_writes(pages, first.drop_last(), page_size) == pages);
    assert(between == merge_write(pages, writes[0], page_size));
    assert(between[index] =~= full);
    let after = merge_writes(pages, writes, page_size);
    assert(after == merge_write(between, writes[1], page_size));
    assert(after.dom() =~= pages.dom().insert(index));
}

/// Copy `data` into `page` from position `offset` on.
fn write_part<const N: usize>(page: &mut [u8; N], offset: u16, data: &[u8])
    requires
        offset + data@.len() <= N,
    ensures
        final(page)@ == overwrite(old(page)@, offset as int, data@),
{
    let start: usize = offset as usize;
    let mut i: usize = 0;
    while i < data.len()
        invariant
            start == offset,
            start + data@.len() <= N,
            0 <= i <= data@.len(),
            page@.len() == N,
            forall|j: int| 0 <= j < N ==> #[trigger] page@[j] == if start <= j < start + i {
                data@[j - start]
            } else {
                old(page)@[j]
            },
        decreases data@.len() - i,
    {
        page[start + i] = data[i];
        i = i + 1;
    }
    assert(page@ =~= overwrite(old(page)@, offset as int, data@));
}

/// Fill `flash_map` with given page content, overwriting or joining existing data when necessary.
/// First item of each pair and map key is the page index (e.g. page index 1 equals 128 bytes offset).
pub fn fill_flash_map<'a, const N: usize>(
    flash_map: &mut HashMap<u16, [u8; N]>,
    with: &[(u16, PageContent<'a, N>)],
)
    requires
        forall|k: int| 0 <= k < with@.len() ==> (#[trigger] with@[k]).1.fits(),
    ensures
        pages_of(final(flash_map)@) == merge_writes(
            pages_of(old(flash_map)@),
            writes_of(with@),
            N as int,
        ),
{
    broadcast use vstd::std_specs::hash::group_hash_axioms;

    let ghost writes = writes_of(with@);
    let mut k: usize = 0;
    while k < with.len()
        invariant
            0 <= k <= with@.len(),
            writes == writes_of(with@),
            forall|j: int| 0 <= j < with@.len() ==> (#[trigger] with@[j]).1.fits(),
            pages_of(flash_map@) == merge_writes(
                pages_of(old(flash_map)@),
                writes.take(k as int),
                N as int,
            ),
        decreases with@.len() - k,
    {
        let ghost before = pages_of(flash_map@);
        let phys_addr: u16 = with[k].0;
        match &with[k].1 {
            PageContent::FullPage { data } => {
                let page: [u8; N] = **data;
                proof {
                    assert(page@ =~= overwrite(
                        if before.contains_key(phys_addr as int) {
                            before[phys_addr as int]
                        } else {
                            blank_page(N as int)
                        },
                        0,
                        page@,
                    ));
                }
                flash_map.insert(phys_addr, page);
            },
            PageContent::PartPage { offset, data } => {
                let page = flash_map.entry(phys_addr).or_insert([0u8; N]);
                proof {
                    if !before.contains_key(phys_addr as int) {
                        assert(page@ =~= blank_page(N as int));
                    }
                }
                write_part(page, *offset, data);
            },
        }
        proof {
            assert(writes.take(k + 1).drop_last() =~= writes.take(k as int));
            assert(writes.take(k + 1).last() == writes_of(with@)[k as int]);
            assert(pages_of(flash_map@) =~= merge_write(before, writes[k as int], N as int));
        }
        k = k + 1;
    }
    proof {
        assert(writes.take(with@.len() as int) =~= writes);
    }
}

} // verus!
