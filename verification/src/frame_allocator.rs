//! Physical frame allocator: hands out and reclaims 4 KiB frames by
//! physical page number over a bitmap, one bit per page (bit set = free).

use vstd::prelude::*;

verus! {

/// First physical address of the kernel image.
pub const KERNEL_BEGIN_PADDR: usize = 0x80200000;
/// First virtual address of the kernel image (identity-mapped).
pub const KERNEL_BEGIN_VADDR: usize = 0x80200000;
/// One past the last byte of physical memory.
pub const PHYSICAL_MEMORY_END: usize = 0x88000000;
/// Number of 4 KiB physical pages below `PHYSICAL_MEMORY_END`.
pub const MAX_PHYSICAL_PAGES: usize = PHYSICAL_MEMORY_END >> 12;
/// Size of the bitmap backing the allocator, in bytes.
pub const MAX_BITS: usize = MAX_PHYSICAL_PAGES / 8 + 1;

/// True iff bit `off` of `b` is set.
pub open spec fn bit_set(b: u8, off: u8) -> bool
    recommends
        off < 8,
{
    (b >> off) & 1 == 1
}

/// Setting bit `off` leaves every other bit alone.
proof fn lemma_set_bit(b: u8, off: u8)
    requires
        off < 8,
    ensures
        forall|k: u8|
            k < 8 ==> #[trigger] bit_set(b | (1u8 << off), k) == (k == off || bit_set(b, k)),
{
    assert forall|k: u8| k < 8 implies #[trigger] bit_set(b | (1u8 << off), k) == (k == off
        || bit_set(b, k)) by {
        assert((off < 8 && k < 8) ==> ((((b | (1u8 << off)) >> k) & 1 == 1) == ((k == off) || ((b
            >> k) & 1 == 1)))) by (bit_vector);
    }
}

/// Toggling a set bit `off` clears it and leaves every other bit alone.
proof fn lemma_clear_bit(b: u8, off: u8)
    requires
        off < 8,
        bit_set(b, off),
    ensures
        forall|k: u8|
            k < 8 ==> #[trigger] bit_set(b ^ (1u8 << off), k) == (k != off && bit_set(b, k)),
{
    assert forall|k: u8| k < 8 implies #[trigger] bit_set(b ^ (1u8 << off), k) == (k != off
        && bit_set(b, k)) by {
        assert((off < 8 && k < 8 && (b >> off) & 1 == 1) ==> ((((b ^ (1u8 << off)) >> k) & 1 == 1)
            == ((k != off) && ((b >> k) & 1 == 1)))) by (bit_vector);
    }
}

/// Bitmap frame allocator over page numbers `0 .. MAX_PHYSICAL_PAGES`.
pub struct SegFrameAlloc {
    vis: Vec<u8>,
}

impl SegFrameAlloc {
    /// The bitmap spans all representable pages.
    pub closed spec fn wf(self) -> bool {
        self.vis@.len() == MAX_BITS
    }

    /// True iff page `i` is currently free (allocatable).
    pub closed spec fn page_is_free(self, i: int) -> bool {
        0 <= i < MAX_PHYSICAL_PAGES && bit_set(self.vis@[i / 8], (i % 8) as u8)
    }

    /// A byte update at `n / 8` touching only bit `n % 8` changes only page `n`.
    proof fn lemma_one_page_changed(pre: Self, post: Self, n: int)
        requires
            pre.wf(),
            post.wf(),
            0 <= n < MAX_PHYSICAL_PAGES,
            forall|b: int| 0 <= b < MAX_BITS && b != n / 8 ==> post.vis@[b] == pre.vis@[b],
            forall|k: u8|
                k < 8 && k != (n % 8) as u8 ==> #[trigger] bit_set(post.vis@[n / 8], k)
                    == bit_set(pre.vis@[n / 8], k),
        ensures
            forall|j: int| j != n ==> #[trigger] post.page_is_free(j) == pre.page_is_free(j),
    {
        assert forall|j: int| j != n implies #[trigger] post.page_is_free(j)
            == pre.page_is_free(j) by {
            if 0 <= j < MAX_PHYSICAL_PAGES {
                if j / 8 == n / 8 {
                    assert(j % 8 != n % 8);
                    assert(bit_set(post.vis@[j / 8], (j % 8) as u8) == bit_set(
                        pre.vis@[j / 8],
                        (j % 8) as u8,
                    ));
                } else {
                    assert(post.vis@[j / 8] == pre.vis@[j / 8]);
                }
            }
        }
    }

    /// Fresh allocator with every page reserved.
    pub fn new() -> (r: SegFrameAlloc)
        ensures
            r.wf(),
            forall|i: int| !r.page_is_free(i),
    {
        let mut vis: Vec<u8> = Vec::new();
        let mut k: usize = 0;
        while k < MAX_BITS
            invariant
                vis@.len() == k,
                k <= MAX_BITS,
                forall|j: int| 0 <= j < k ==> vis@[j] == 0u8,
            decreases MAX_BITS - k,
        {
            vis.push(0u8);
            k = k + 1;
        }
        let r = SegFrameAlloc { vis };
        proof {
            assert forall|i: int| !r.page_is_free(i) by {
                if 0 <= i < MAX_PHYSICAL_PAGES {
                    let off = (i % 8) as u8;
                    assert(r.vis@[i / 8] == 0u8);
                    assert(!((0u8 >> off) & 1 == 1)) by (bit_vector);
                }
            }
        }
        r
    }

    /// Mark every page in `[l, r)` free; pages outside keep their state.
    pub fn init(&mut self, l: usize, r: usize)
        requires
            old(self).wf(),
            l <= r <= MAX_PHYSICAL_PAGES,
        ensures
            final(self).wf(),
            forall|i: int|
                #[trigger] final(self).page_is_free(i) == (l <= i < r || old(self).page_is_free(
                    i,
                )),
    {
        let mut i: usize = l;
        while i < r
            invariant
                self.wf(),
                l <= i <= r <= MAX_PHYSICAL_PAGES,
                forall|j: int|
                    #[trigger] self.page_is_free(j) == (l <= j < i || old(self).page_is_free(j)),
            decreases r - i,
        {
            let ghost pre = *self;
            let idx = i / 8;
            let offset = i % 8;
            let b = self.vis[idx];
            self.vis.set(idx, b | (1u8 << (offset as u8)));
            proof {
                let off = offset as u8;
                lemma_set_bit(b, off);
                Self::lemma_one_page_changed(pre, *self, i as int);
                assert(bit_set(self.vis@[i as int / 8], off));
                assert(self.page_is_free(i as int));
            }
            i = i + 1;
        }
    }

    /// Allocate the lowest-numbered free page, or report exhaustion.
    ///
    /// Returns `Some(i)`, with `i` the least free page now marked
    /// allocated, exactly when some page is free; `None` leaves the
    /// allocator unchanged.
    pub fn alloc_page(&mut self) -> (r: Option<usize>)
        requires
            old(self).wf(),
        ensures
            final(self).wf(),
            match r {
                Some(i) => {
                    &&& old(self).page_is_free(i as int)
                    &&& forall|j: int| 0 <= j < i ==> !old(self).page_is_free(j)
                    &&& forall|j: int|
                        #[trigger] final(self).page_is_free(j) == (j != i && old(
                            self,
                        ).page_is_free(j))
                },
                None => {
                    &&& forall|j: int| !old(self).page_is_free(j)
                    &&& *final(self) == *old(self)
                },
            },
    {
        let mut i: usize = 0;
        while i < MAX_PHYSICAL_PAGES
            invariant
                self.wf(),
                *self == *old(self),
                i <= MAX_PHYSICAL_PAGES,
                forall|j: int| 0 <= j < i ==> !old(self).page_is_free(j),
            decreases MAX_PHYSICAL_PAGES - i,
        {
            let ghost pre = *self;
            let idx = i / 8;
            let offset = i % 8;
            let b = self.vis[idx];
            if (b >> (offset as u8)) & 1 == 1 {
                self.vis.set(idx, b ^ (1u8 << (offset as u8)));
                proof {
                    let off = offset as u8;
                    assert(bit_set(b, off));
                    assert(pre.page_is_free(i as int));
                    lemma_clear_bit(b, off);
                    Self::lemma_one_page_changed(pre, *self, i as int);
                    assert(!bit_set(self.vis@[i as int / 8], off));
                    assert(!self.page_is_free(i as int));
                }
                return Some(i);
            }
            proof {
                assert(!pre.page_is_free(i as int));
            }
            i = i + 1;
        }
        None
    }

    /// Return page `n` to the free set. Freeing a page that is already
    /// free is a caller error and is excluded.
    pub fn dealloc(&mut self, n: usize)
        requires
            old(self).wf(),
            n < MAX_PHYSICAL_PAGES,
            !old(self).page_is_free(n as int),
        ensures
            final(self).wf(),
            forall|i: int|
                #[trigger] final(self).page_is_free(i) == (i == n || old(self).page_is_free(i)),
    {
        let ghost pre = *self;
        let idx = n / 8;
        let offset = n % 8;
        let b = self.vis[idx];
        self.vis.set(idx, b | (1u8 << (offset as u8)));
        proof {
            let off = offset as u8;
            lemma_set_bit(b, off);
            Self::lemma_one_page_changed(pre, *self, n as int);
            assert(bit_set(self.vis@[n as int / 8], off));
            assert(self.page_is_free(n as int));
        }
    }
}

} // verus!
