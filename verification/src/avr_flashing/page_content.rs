//! Page fragments: the pieces into which a segment falls at page boundaries.

use vstd::prelude::*;
use vstd::slice::slice_subrange;

verus! {

/// A borrowed page content, representing either full page content (an array of size N)
/// or its part (a slice of size less than N at a specific offset).
#[derive(Debug, PartialEq, Eq)]
#[allow(inconsistent_fields)]
pub enum PageContent<'a, const N: usize> {
    /// Data takes full page (offset is implicitly 0)
    FullPage { data: &'a [u8; N] },
    /// Data takes part of the page starting at byte `offset`.
    PartPage { offset: u16, data: &'a [u8] },
}

impl<'a, const N: usize> PageContent<'a, N> {
    /// The position within the page at which the fragment's first byte lands.
    pub open spec fn start(self) -> int {
        match self {
            PageContent::FullPage { .. } => 0,
            PageContent::PartPage { offset, .. } => offset as int,
        }
    }

    /// The bytes that the fragment writes.
    pub open spec fn bytes(self) -> Seq<u8> {
        match self {
            PageContent::FullPage { data } => data@,
            PageContent::PartPage { data, .. } => data@,
        }
    }

    /// The fragment fits in a page of `N` bytes.
    pub open spec fn fits(self) -> bool {
        self.start() + self.bytes().len() <= N
    }

    /// The fragment writes `bytes` at `start`, as a full page exactly when
    /// `bytes` fills the page.
    pub open spec fn holds(self, start: int, bytes: Seq<u8>) -> bool {
        &&& self.start() == start
        &&& self.bytes() == bytes
        &&& (self is FullPage <==> bytes.len() == N)
    }

    /// Create a new object from a slice of page content `data` starting at `offset`
    /// within the page of size `N`. Returns [`Err`] with the total size (offset + data length)
    /// if it is larger than `N` (i.e. would not fit in the page).
    pub fn new(offset: u16, data: &'a [u8]) -> (r: Result<Self, usize>)
        requires
            offset + data@.len() <= usize::MAX,
        ensures
            offset + data@.len() > N ==> r == Err::<Self, usize>((offset + data@.len()) as usize),
            offset + data@.len() <= N ==> r is Ok && r->Ok_0.holds(offset as int, data@),
    {
        let total_size = offset as usize + data.len();
        if total_size > N {
            Err(total_size)
        } else {
            match as_full_page::<N>(data) {
                Ok(full_page) => Ok(PageContent::FullPage { data: full_page }),
                Err(_) => Ok(PageContent::PartPage { offset, data }),
            }
        }
    }
}

/// What one fragment writes: `bytes`, from position `start` of page `index` on.
pub struct PageWrite {
    pub index: int,
    pub start: int,
    pub bytes: Seq<u8>,
}

/// The write that a page-indexed fragment stands for.
pub open spec fn write_of<const N: usize>(item: (u16, PageContent<'_, N>)) -> PageWrite {
    PageWrite { index: item.0 as int, start: item.1.start(), bytes: item.1.bytes() }
}

/// The writes that a sequence of page-indexed fragments stands for, in order.
pub open spec fn writes_of<const N: usize>(items: Seq<(u16, PageContent<'_, N>)>) -> Seq<
    PageWrite,
> {
    Seq::new(items.len(), |k: int| write_of(items[k]))
}

/// How many bytes of a segment of `len` bytes at `address` land in its first page.
pub open spec fn head_len(address: int, len: int, page_size: int) -> int {
    let room = page_size - address % page_size;
    if len < room {
        len
    } else {
        room
    }
}

/// The number of fragments into which a segment of `len` bytes at `address` falls:
/// one for the first page, and one for each page that the rest reaches.
pub open spec fn fragment_count(address: int, len: int, page_size: int) -> int {
    let tail = len - head_len(address, len, page_size);
    1 + (tail + page_size - 1) / page_size
}

/// The `k`-th fragment of the segment `content` at `address`.
pub open spec fn fragment(address: int, content: Seq<u8>, page_size: int, k: int) -> PageWrite {
    let head = head_len(address, content.len() as int, page_size);
    if k == 0 {
        PageWrite {
            index: address / page_size,
            start: address % page_size,
            bytes: content.subrange(0, head),
        }
    } else {
        let lo = head + (k - 1) * page_size;
        let hi = if lo + page_size < content.len() {
            lo + page_size
        } else {
            content.len() as int
        };
        PageWrite { index: address / page_size + k, start: 0, bytes: content.subrange(lo, hi) }
    }
}

/// The fragments of the segment `content` at `address`, in page order.
pub open spec fn fragments(address: int, content: Seq<u8>, page_size: int) -> Seq<PageWrite> {
    Seq::new(
        fragment_count(address, content.len() as int, page_size) as nat,
        |k: int| fragment(address, content, page_size, k),
    )
}

/// `count` pages of `page_size` bytes are what `tail` bytes need when one page
/// less is not enough.
proof fn lemma_pages_needed(tail: int, page_size: int, count: int)
    by (nonlinear_arith)
    requires
        0 < page_size,
        (count - 1) * page_size < tail <= count * page_size,
    ensures
        (tail + page_size - 1) / page_size == count,
{
}

/// A remainder lies below the divisor and does not exceed the dividend.
proof fn lemma_mod_bounds(x: int, d: int)
    by (nonlinear_arith)
    requires
        0 <= x,
        0 < d,
    ensures
        0 <= x % d < d,
        x % d <= x,
        0 <= x / d <= x,
{
}

/// More than `count - 1` pages' worth of bytes need at least `count` pages.
proof fn lemma_pages_needed_at_least(tail: int, page_size: int, count: int)
    by (nonlinear_arith)
    requires
        0 < page_size,
        (count - 1) * page_size < tail,
    ensures
        (tail + page_size - 1) / page_size >= count,
{
}

/// Split `segment_content` starting at `phys_addr` into [`PageContent`] objects at page boundaries.
///
/// The `phys_addr` is the physical address of the data in bytes. The result
/// holds pairs of page index (e.g. page index 1 equals 128 bytes offset) and page content.
pub fn iter_page_content<'a, const N: usize>(phys_addr: u16, segment_content: &'a [u8]) -> (r: Vec<
    (u16, PageContent<'a, N>),
>)
    requires
        0 < N,
        phys_addr as int / N as int + fragment_count(
            phys_addr as int,
            segment_content@.len() as int,
            N as int,
        ) - 1 <= u16::MAX,
    ensures
        writes_of(r@) == fragments(phys_addr as int, segment_content@, N as int),
        forall|k: int|
            0 <= k < r@.len() ==> (#[trigger] r@[k].1 is FullPage <==> r@[k].1.bytes().len() == N),
        forall|k: int| 0 <= k < r@.len() ==> (#[trigger] r@[k]).1.fits(),
{
    let len: usize = segment_content.len();
    let first_page_addr: usize = phys_addr as usize / N;
    let first_page_offset: usize = phys_addr as usize % N;
    let num_bytes_first_page: usize = N - first_page_offset;
    let head: usize = if len < num_bytes_first_page {
        len
    } else {
        num_bytes_first_page
    };
    let ghost address = phys_addr as int;
    let ghost content = segment_content@;
    let ghost page_size = N as int;
    let ghost count = fragment_count(address, len as int, page_size);
    proof {
        lemma_mod_bounds(address, page_size);
        if head < len {
            lemma_pages_needed_at_least(len - head, page_size, 1);
        } else {
            lemma_pages_needed(0, page_size, 0);
        }
    }
    let first_page_content = slice_subrange(segment_content, 0, head);
    let mut pages: Vec<(u16, PageContent<'a, N>)> = Vec::new();
    pages.push(
        (
            first_page_addr as u16,
            PageContent::new(first_page_offset as u16, first_page_content).unwrap(),
        ),
    );
    let mut pos: usize = head;
    let mut page_addr: usize = first_page_addr;
    proof {
        assert(0 * page_size == 0) by (nonlinear_arith);
        assert(write_of(pages@[0]) == fragment(address, content, page_size, 0));
    }
    while pos < len
        invariant
            0 < N,
            len == segment_content@.len(),
            content == segment_content@,
            address == phys_addr as int,
            page_size == N as int,
            count == fragment_count(address, len as int, page_size),
            head == head_len(address, len as int, page_size),
            first_page_addr == address / page_size,
            first_page_addr + count - 1 <= u16::MAX,
            1 <= pages@.len() <= count,
            page_addr == first_page_addr + pages@.len() - 1,
            head <= pos <= len,
            pos < len ==> pos == head + (pages@.len() - 1) * page_size,
            pos == len ==> pages@.len() == count,
            forall|k: int|
                0 <= k < pages@.len() ==> write_of(#[trigger] pages@[k]) == fragment(
                    address,
                    content,
                    page_size,
                    k,
                ),
            forall|k: int|
                0 <= k < pages@.len() ==> (#[trigger] pages@[k].1 is FullPage
                    <==> pages@[k].1.bytes().len() == N),
            forall|k: int| 0 <= k < pages@.len() ==> (#[trigger] pages@[k]).1.fits(),
        decreases len - pos,
    {
        let ghost k = pages@.len() as int;
        let end: usize = if len - pos <= N {
            len
        } else {
            pos + N
        };
        proof {
            assert(k * page_size == (k - 1) * page_size + page_size) by (nonlinear_arith);
            if end == len {
                lemma_pages_needed(len - head, page_size, k);
            } else {
                lemma_pages_needed_at_least(len - head, page_size, k + 1);
            }
        }
        let chunk = slice_subrange(segment_content, pos, end);
        page_addr = page_addr + 1;
        pages.push((page_addr as u16, PageContent::new(0, chunk).unwrap()));
        pos = end;
    }
    proof {
        assert(writes_of(pages@) =~= fragments(address, content, page_size));
    }
    pages
}

/// The error of a slice whose length is not that of the array asked for.
#[verifier::external_type_specification]
#[verifier::external_body]
pub struct ExTryFromSliceError(core::array::TryFromSliceError);

/// `TryFrom<&[u8]>` for `&[u8; N]`: the conversion succeeds exactly when the
/// slice has `N` elements, and the array then holds the slice's elements.
#[verifier::external_body]
fn as_full_page<'a, const N: usize>(data: &'a [u8]) -> (r: Result<
    &'a [u8; N],
    core::array::TryFromSliceError,
>)
    ensures
        r is Ok <==> data@.len() == N,
        r matches Ok(page) ==> page@ == data@,
{
    <&[u8; N]>::try_from(data)
}

} // verus!
