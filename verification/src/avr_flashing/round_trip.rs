//! What the store gives back: the bytes of a segment that was mapped to pages
//! and merged into an empty store are found again where its fragments put them.

use vstd::prelude::*;

use super::flash_map::{blank_page, merge_write, merge_writes, overwrite};
use super::page_content::{fragment, fragment_count, fragments, head_len, PageWrite};

verus! {

/// The bytes that the store `pages` holds where `writes` wrote, in the order
/// of the writes.
pub open spec fn read_back(pages: Map<int, Seq<u8>>, writes: Seq<PageWrite>) -> Seq<u8>
    decreases writes.len(),
{
    if writes.len() == 0 {
        Seq::empty()
    } else {
        let last = writes.last();
        read_back(pages, writes.drop_last()) + pages[last.index].subrange(
            last.start,
            last.start + last.bytes.len(),
        )
    }
}

/// How many bytes of a segment its first `k` fragments hold.
pub open spec fn covered(address: int, len: int, page_size: int, k: int) -> int {
    if k <= 0 {
        0
    } else {
        let reach = head_len(address, len, page_size) + (k - 1) * page_size;
        if reach < len {
            reach
        } else {
            len
        }
    }
}

proof fn lemma_below_page_count(tail: int, page_size: int, k: int)
    by (nonlinear_arith)
    requires
        0 < page_size,
        0 <= tail,
        1 <= k <= (tail + page_size - 1) / page_size,
    ensures
        (k - 1) * page_size < tail,
        0 <= (k - 1) * page_size,
        k * page_size == (k - 1) * page_size + page_size,
{
}

proof fn lemma_page_count_reaches(tail: int, page_size: int)
    by (nonlinear_arith)
    requires
        0 < page_size,
        0 <= tail,
    ensures
        ((tail + page_size - 1) / page_size) * page_size >= tail,
        (tail + page_size - 1) / page_size >= 0,
{
}

proof fn lemma_head(address: int, len: int, page_size: int)
    by (nonlinear_arith)
    requires
        0 <= address,
        0 <= len,
        0 < page_size,
    ensures
        0 <= address % page_size < page_size,
        0 <= head_len(address, len, page_size) <= len,
        address % page_size + head_len(address, len, page_size) <= page_size,
{
}

/// The `k`-th fragment of a segment lies within its page and holds the bytes
/// that follow those of the fragments before it.
pub proof fn lemma_fragment_shape(address: int, content: Seq<u8>, page_size: int, k: int)
    requires
        0 <= address,
        0 < page_size,
        0 <= k < fragment_count(address, content.len() as int, page_size),
    ensures
        ({
            let len = content.len() as int;
            let piece = fragment(address, content, page_size, k);
            &&& piece.index == address / page_size + k
            &&& 0 <= piece.start
            &&& piece.start + piece.bytes.len() <= page_size
            &&& 0 <= covered(address, len, page_size, k) <= covered(address, len, page_size, k + 1)
                <= len
            &&& piece.bytes == content.subrange(
                covered(address, len, page_size, k),
                covered(address, len, page_size, k + 1),
            )
            &&& k + 1 == fragment_count(address, len, page_size) ==> covered(
                address,
                len,
                page_size,
                k + 1,
            ) == len
        }),
{
    let len = content.len() as int;
    let head = head_len(address, len, page_size);
    let tail = len - head;
    lemma_head(address, len, page_size);
    lemma_page_count_reaches(tail, page_size);
    if k == 0 {
        assert(0 * page_size == 0) by (nonlinear_arith);
        if fragment_count(address, len, page_size) == 1 {
            assert(tail <= 0);
        }
    } else {
        lemma_below_page_count(tail, page_size, k);
        if k + 1 == fragment_count(address, len, page_size) {
            assert(k * page_size >= tail);
        }
    }
}

/// The store holds, for each of the first `count` fragments of a segment, a
/// page that is blank but for the fragment's bytes, and nothing else.
pub open spec fn holds_fragments(
    pages: Map<int, Seq<u8>>,
    address: int,
    content: Seq<u8>,
    page_size: int,
    count: int,
) -> bool {
    &&& forall|index: int| #[trigger]
        pages.contains_key(index) <==> address / page_size <= index < address / page_size + count
    &&& forall|k: int|
        0 <= k < count ==> #[trigger] pages[address / page_size + k] == overwrite(
            blank_page(page_size),
            fragment(address, content, page_size, k).start,
            fragment(address, content, page_size, k).bytes,
        )
}

/// Merging the first `count` fragments of a segment into an empty store gives
/// each of them a page of its own.
pub proof fn lemma_merged_fragments(address: int, content: Seq<u8>, page_size: int, count: int)
    requires
        0 <= address,
        0 < page_size,
        0 <= count <= fragment_count(address, content.len() as int, page_size),
    ensures
        holds_fragments(
            merge_writes(
                Map::empty(),
                fragments(address, content, page_size).take(count),
                page_size,
            ),
            address,
            content,
            page_size,
            count,
        ),
    decreases count,
{
    let writes = fragments(address, content, page_size);
    if count > 0 {
        lemma_merged_fragments(address, content, page_size, count - 1);
        lemma_fragment_shape(address, content, page_size, count - 1);
        assert(writes.take(count).drop_last() =~= writes.take(count - 1));
        assert(writes.take(count).last() == fragment(address, content, page_size, count - 1));
        let before = merge_writes(Map::empty(), writes.take(count - 1), page_size);
        let after = merge_writes(Map::empty(), writes.take(count), page_size);
        assert(after == merge_write(before, writes[count - 1], page_size));
        assert(!before.contains_key(address / page_size + count - 1));
        assert forall|k: int| 0 <= k < count implies #[trigger] after[address / page_size + k]
            == overwrite(
            blank_page(page_size),
            fragment(address, content, page_size, k).start,
            fragment(address, content, page_size, k).bytes,
        ) by {
            if k < count - 1 {
                assert(before[address / page_size + k] == after[address / page_size + k]);
            }
        }
    }
}

/// Reading back the first `count` fragments of a segment from a store that
/// holds them gives the segment's bytes as far as those fragments reach.
pub proof fn lemma_read_back_prefix(
    pages: Map<int, Seq<u8>>,
    address: int,
    content: Seq<u8>,
    page_size: int,
    count: int,
)
    requires
        0 <= address,
        0 < page_size,
        0 <= count <= fragment_count(address, content.len() as int, page_size),
        holds_fragments(
            pages,
            address,
            content,
            page_size,
            fragment_count(address, content.len() as int, page_size),
        ),
    ensures
        read_back(pages, fragments(address, content, page_size).take(count)) == content.take(
            covered(address, content.len() as int, page_size, count),
        ),
    decreases count,
{
    let writes = fragments(address, content, page_size);
    let len = content.len() as int;
    if count == 0 {
        assert(content.take(0) =~= Seq::<u8>::empty());
    } else {
        lemma_read_back_prefix(pages, address, content, page_size, count - 1);
        lemma_fragment_shape(address, content, page_size, count - 1);
        assert(writes.take(count).drop_last() =~= writes.take(count - 1));
        let piece = fragment(address, content, page_size, count - 1);
        assert(writes.take(count).last() == piece);
        assert(pages[address / page_size + (count - 1)] == overwrite(
            blank_page(page_size),
            piece.start,
            piece.bytes,
        ));
        assert(pages[piece.index].subrange(piece.start, piece.start + piece.bytes.len())
            =~= piece.bytes);
        assert(content.take(covered(address, len, page_size, count - 1)) + piece.bytes
            =~= content.take(covered(address, len, page_size, count)));
    }
}

/// Round trip: a segment that is split into fragments and merged into an
/// empty store is read back, page by page at the fragments' positions, as
/// exactly its bytes.
pub proof fn lemma_round_trip(address: int, content: Seq<u8>, page_size: int)
    requires
        0 <= address,
        0 < page_size,
    ensures
        read_back(
            merge_writes(Map::empty(), fragments(address, content, page_size), page_size),
            fragments(address, content, page_size),
        ) == content,
{
    let writes = fragments(address, content, page_size);
    let count = fragment_count(address, content.len() as int, page_size);
    lemma_head(address, content.len() as int, page_size);
    lemma_page_count_reaches(
        content.len() - head_len(address, content.len() as int, page_size),
        page_size,
    );
    assert(writes.take(count) =~= writes);
    lemma_merged_fragments(address, content, page_size, count);
    let pages = merge_writes(Map::empty(), writes, page_size);
    lemma_read_back_prefix(pages, address, content, page_size, count);
    lemma_fragment_shape(address, content, page_size, count - 1);
    assert(content.take(content.len() as int) =~= content);
}

proof fn lemma_split_address(address: int, page_size: int, at: int)
    by (nonlinear_arith)
    requires
        0 <= address,
        0 < page_size,
        0 <= at,
    ensures
        ({
            let k = (address + at) / page_size - address / page_size;
            let within = address % page_size + at;
            &&& 0 <= k
            &&& k * page_size <= within < (k + 1) * page_size
            &&& (address + at) % page_size == within - k * page_size
            &&& k >= 1 ==> (k - 1) * page_size >= 0
        }),
{
}

proof fn lemma_above_pages(tail: int, page_size: int, k: int)
    by (nonlinear_arith)
    requires
        0 < page_size,
        (k - 1) * page_size < tail,
    ensures
        k <= (tail + page_size - 1) / page_size,
{
}

/// Each byte of a segment lies where its address says: the byte at position
/// `at` of a segment at `address`, once the segment's fragments are merged
/// into an empty store, is the byte `(address + at) % page_size` of the page
/// `(address + at) / page_size`.
pub proof fn lemma_byte_at_address(address: int, content: Seq<u8>, page_size: int, at: int)
    requires
        0 <= address,
        0 < page_size,
        0 <= at < content.len(),
    ensures
        ({
            let pages = merge_writes(
                Map::empty(),
                fragments(address, content, page_size),
                page_size,
            );
            let place = address + at;
            &&& pages.contains_key(place / page_size)
            &&& pages[place / page_size].len() == page_size
            &&& pages[place / page_size][place % page_size] == content[at]
        }),
{
    let len = content.len() as int;
    let writes = fragments(address, content, page_size);
    let count = fragment_count(address, len, page_size);
    let head = head_len(address, len, page_size);
    let k = (address + at) / page_size - address / page_size;
    lemma_head(address, len, page_size);
    lemma_split_address(address, page_size, at);
    lemma_page_count_reaches(len - head, page_size);
    if k >= 1 {
        assert(k * page_size == (k - 1) * page_size + page_size) by (nonlinear_arith);
        lemma_above_pages(len - head, page_size, k);
    }
    assert(0 <= k < count);
    assert(writes.take(count) =~= writes);
    lemma_merged_fragments(address, content, page_size, count);
    lemma_fragment_shape(address, content, page_size, k);
    let pages = merge_writes(Map::empty(), writes, page_size);
    let piece = fragment(address, content, page_size, k);
    let page = pages[address / page_size + k];
    assert(page == overwrite(blank_page(page_size), piece.start, piece.bytes));
    assert(pages.contains_key(address / page_size + k));
    let from = covered(address, len, page_size, k);
    let within = address % page_size + at;
    if k == 0 {
        assert(0 * page_size == 0) by (nonlinear_arith);
        assert(from == 0);
        assert(at < head);
    } else {
        assert(head == page_size - address % page_size);
        assert(from == head + (k - 1) * page_size);
    }
    assert(from <= at < covered(address, len, page_size, k + 1));
    assert((address + at) % page_size == piece.start + (at - from));
    assert(piece.bytes[at - from] == content[at]);
    assert(page[piece.start + (at - from)] == piece.bytes[at - from]);
}

} // verus!
