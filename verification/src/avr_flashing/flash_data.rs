//! The flash image: the pages of the store in the order in which they are
//! transferred.

use std::collections::HashMap;
use vstd::prelude::*;

use super::flash_map::pages_of;
use super::target::FlashPageContent;

verus! {

/// The page indices of `image` grow strictly from each entry to the next.
pub open spec fn ascending(image: Seq<(int, Seq<u8>)>) -> bool {
    forall|i: int, j: int| 0 <= i < j < image.len() ==> image[i].0 < image[j].0
}

/// `image` lists the pages of the store `pages`, each once, by ascending page index.
pub open spec fn image_of(pages: Map<int, Seq<u8>>, image: Seq<(int, Seq<u8>)>) -> bool {
    &&& ascending(image)
    &&& forall|i: int|
        0 <= i < image.len() ==> pages.contains_key((#[trigger] image[i]).0) && pages[image[i].0]
            == image[i].1
    &&& forall|index: int| #[trigger]
        pages.contains_key(index) ==> exists|i: int| 0 <= i < image.len() && image[i].0 == index
}

/// Two images of one store agree on the indices of their first `count` pages.
proof fn lemma_images_agree(
    pages: Map<int, Seq<u8>>,
    a: Seq<(int, Seq<u8>)>,
    b: Seq<(int, Seq<u8>)>,
    count: int,
)
    requires
        image_of(pages, a),
        image_of(pages, b),
        0 <= count <= a.len(),
        count <= b.len(),
    ensures
        forall|i: int| 0 <= i < count ==> a[i].0 == b[i].0,
    decreases count,
{
    if count > 0 {
        lemma_images_agree(pages, a, b, count - 1);
        let last = count - 1;
        if a[last].0 < b[last].0 {
            assert(pages.contains_key(a[last].0));
            let j = choose|j: int| 0 <= j < b.len() && b[j].0 == a[last].0;
            assert(j < last);
            assert(a[j].0 == a[last].0);
        } else if b[last].0 < a[last].0 {
            assert(pages.contains_key(b[last].0));
            let j = choose|j: int| 0 <= j < a.len() && a[j].0 == b[last].0;
            assert(j < last);
            assert(b[j].0 == b[last].0);
        }
    }
}

/// A store has one image only: the page indices and their order leave no choice.
pub proof fn lemma_image_unique(
    pages: Map<int, Seq<u8>>,
    a: Seq<(int, Seq<u8>)>,
    b: Seq<(int, Seq<u8>)>,
)
    requires
        image_of(pages, a),
        image_of(pages, b),
    ensures
        a == b,
{
    if a.len() < b.len() {
        lemma_images_agree(pages, a, b, a.len() as int);
        let extra = a.len() as int;
        assert(pages.contains_key(b[extra].0));
        let j = choose|j: int| 0 <= j < a.len() && a[j].0 == b[extra].0;
        assert(b[j].0 == b[extra].0);
    } else if b.len() < a.len() {
        lemma_images_agree(pages, a, b, b.len() as int);
        let extra = b.len() as int;
        assert(pages.contains_key(a[extra].0));
        let j = choose|j: int| 0 <= j < b.len() && b[j].0 == a[extra].0;
        assert(a[j].0 == a[extra].0);
    } else {
        lemma_images_agree(pages, a, b, a.len() as int);
        assert forall|i: int| 0 <= i < a.len() implies a[i] == b[i] by {
            assert(pages[a[i].0] == a[i].1);
            assert(pages[b[i].0] == b[i].1);
        }
        assert(a =~= b);
    }
}

/// `keys` grows strictly from each element to the next.
pub open spec fn strictly_ascending(keys: Seq<u16>) -> bool {
    forall|i: int, j: int| 0 <= i < j < keys.len() ==> keys[i] < keys[j]
}

/// Put `key` into `keys` at the place that keeps them ascending.
fn insert_ascending(keys: &mut Vec<u16>, key: u16)
    requires
        strictly_ascending(old(keys)@),
        !old(keys)@.contains(key),
    ensures
        strictly_ascending(final(keys)@),
        final(keys)@.len() == old(keys)@.len() + 1,
        forall|x: u16| final(keys)@.contains(x) <==> old(keys)@.contains(x) || x == key,
{
    let mut at: usize = 0;
    while at < keys.len() && keys[at] < key
        invariant
            keys@ == old(keys)@,
            0 <= at <= keys@.len(),
            forall|j: int| 0 <= j < at ==> keys@[j] < key,
        decreases keys@.len() - at,
    {
        at = at + 1;
    }
    proof {
        if at < keys@.len() {
            assert(keys@.contains(keys@[at as int]));
        }
    }
    keys.insert(at, key);
    proof {
        let before = old(keys)@;
        let after = keys@;
        assert forall|x: u16| after.contains(x) <==> before.contains(x) || x == key by {
            if before.contains(x) {
                let j = choose|j: int| 0 <= j < before.len() && before[j] == x;
                if j < at {
                    assert(after[j] == x);
                } else {
                    assert(after[j + 1] == x);
                }
            }
            if x == key {
                assert(after[at as int] == x);
            }
            if after.contains(x) {
                let j = choose|j: int| 0 <= j < after.len() && after[j] == x;
                if j < at {
                    assert(before[j] == x);
                } else if j > at {
                    assert(before[j - 1] == x);
                }
            }
        }
    }
}

/// Opaque type holding the data to be written to the AVR microcontroller:
/// the pages that the segments of an ELF file touch, by ascending page index.
pub struct FlashData {
    pages: Vec<(u16, FlashPageContent)>,
}

impl View for FlashData {
    type V = Seq<(int, Seq<u8>)>;

    /// The pages in transfer order, each with its index and its bytes.
    closed spec fn view(&self) -> Seq<(int, Seq<u8>)> {
        Seq::new(self.pages@.len(), |i: int| (self.pages@[i].0 as int, self.pages@[i].1@))
    }
}

impl FlashData {
    /// The pages come by ascending page index, and each has an index that a
    /// page index can hold and the length of a flash page.
    pub open spec fn wf(&self) -> bool {
        &&& ascending(self@)
        &&& forall|i: int|
            0 <= i < self@.len() ==> 0 <= (#[trigger] self@[i]).0 <= u16::MAX && self@[i].1.len()
                == 128
    }

    /// The number of pages.
    pub fn len(&self) -> (r: usize)
        ensures
            r == self@.len(),
    {
        self.pages.len()
    }

    /// The index of the `i`-th page to transfer.
    pub fn page_index(&self, i: usize) -> (r: u16)
        requires
            i < self@.len(),
        ensures
            r == self@[i as int].0,
    {
        self.pages[i].0
    }

    /// The content of the `i`-th page to transfer.
    pub fn page_content(&self, i: usize) -> (r: &FlashPageContent)
        requires
            i < self@.len(),
        ensures
            r@ == self@[i as int].1,
    {
        &self.pages[i].1
    }

    /// Collect the pages of `flash_map` and order them by page index.
    pub fn from_flash_map(flash_map: &HashMap<u16, FlashPageContent>) -> (r: FlashData)
        ensures
            r.wf(),
            image_of(pages_of(flash_map@), r@),
    {
        broadcast use vstd::std_specs::hash::group_hash_axioms;

        let mut keys: Vec<u16> = Vec::new();
        for key in iter: flash_map.keys()
            invariant
                strictly_ascending(keys@),
                iter.seq().no_duplicates(),
                iter.seq().unref().to_set() == flash_map@.dom(),
                forall|x: u16|
                    keys@.contains(x) <==> exists|j: int|
                        0 <= j < iter.index() && *iter.seq()[j] == x,
                forall|x: u16| keys@.contains(x) ==> flash_map@.contains_key(x),
                iter.index() == iter.seq().len() ==> forall|x: u16|
                    flash_map@.contains_key(x) ==> keys@.contains(x),
        {
            let ghost seen = iter.index();
            proof {
                assert(*iter.seq()[seen] == *key);
                if keys@.contains(*key) {
                    let j = choose|j: int| 0 <= j < seen && *iter.seq()[j] == *key;
                    assert(iter.seq()[j] == iter.seq()[seen]);
                }
            }
            let ghost before = keys@;
            insert_ascending(&mut keys, *key);
            proof {
                assert forall|x: u16| keys@.contains(x) implies exists|j: int|
                    0 <= j < seen + 1 && *iter.seq()[j] == x by {
                    if before.contains(x) {
                        let j = choose|j: int| 0 <= j < seen && *iter.seq()[j] == x;
                        assert(0 <= j < seen + 1 && *iter.seq()[j] == x);
                    } else {
                        assert(0 <= seen < seen + 1 && *iter.seq()[seen] == x);
                    }
                }
                assert forall|x: u16| (exists|j: int| 0 <= j < seen + 1 && *iter.seq()[j] == x)
                    implies keys@.contains(x) by {
                    let j = choose|j: int| 0 <= j < seen + 1 && *iter.seq()[j] == x;
                    if j < seen {
                        assert(before.contains(x));
                    }
                }
                assert forall|x: u16| keys@.contains(x) implies flash_map@.contains_key(x) by {
                    let j = choose|j: int| 0 <= j < seen + 1 && *iter.seq()[j] == x;
                    assert(iter.seq().unref()[j] == x);
                    assert(iter.seq().unref().to_set().contains(x));
                }
                assert forall|x: u16|
                    seen + 1 == iter.seq().len() && flash_map@.contains_key(
                        x,
                    ) implies keys@.contains(x) by {
                    assert(iter.seq().unref().to_set().contains(x));
                    let j = choose|j: int|
                        0 <= j < iter.seq().unref().len() && iter.seq().unref()[j] == x;
                    assert(0 <= j < seen + 1 && *iter.seq()[j] == x);
                }
            }
        }
        let ghost store = pages_of(flash_map@);
        let mut pages: Vec<(u16, FlashPageContent)> = Vec::new();
        let mut at: usize = 0;
        while at < keys.len()
            invariant
                0 <= at <= keys@.len(),
                pages@.len() == at,
                forall|x: u16| keys@.contains(x) <==> flash_map@.contains_key(x),
                forall|i: int|
                    0 <= i < at ==> (#[trigger] pages@[i]).0 == keys@[i] && flash_map@.contains_key(
                        keys@[i],
                    ) && flash_map@[keys@[i]] == pages@[i].1,
            decreases keys@.len() - at,
        {
            let key: u16 = keys[at];
            assert(keys@.contains(key));
            match flash_map.get(&key) {
                Some(page) => {
                    pages.push((key, *page));
                },
                None => {
                    assert(false);
                },
            }
            at = at + 1;
        }
        let r = FlashData { pages };
        proof {
            assert forall|index: int| #[trigger] store.contains_key(index) implies exists|i: int|
                0 <= i < r@.len() && r@[i].0 == index by {
                assert(keys@.contains(index as u16));
                let i = choose|i: int| 0 <= i < keys@.len() && keys@[i] == index as u16;
                assert(r@[i].0 == index);
            }
            assert forall|i: int| 0 <= i < r@.len() implies store.contains_key((#[trigger] r@[i]).0)
                && store[r@[i].0] == r@[i].1 by {
                assert(keys@.contains(keys@[i]));
            }
        }
        r

    }
}

} // verus!
