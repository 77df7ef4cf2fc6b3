//! The kernel heap: blocks carved from a bump region, each behind a header,
//! and a free list searched first-fit before carving anew.
use vstd::prelude::*;
use crate::memory::addr::{round_up, lemma_round_up};
use crate::memory::frame_allocator::MemoryRegion;

verus! {

/// Bytes of the header in front of every block (its size and two links).
pub const BLOCK_HEADER: u64 = 24;

/// Alignment of a block header.
pub const BLOCK_ALIGN: u64 = 8;

/// The direct-map offset added to the heap's physical start.
pub const HEAP_VIRT_OFFSET: u64 = 0xFFFF800000000000;

/// Regions smaller than this are not used for the heap.
pub const MIN_HEAP_REGION: u64 = 16 * 1024 * 1024;

/// A carved block: the address of its header and the size of its payload.
#[derive(Clone, Copy, Debug, PartialEq, Eq, Structural)]
pub struct Block {
    pub addr: u64,
    pub size: u64,
}

/// End of a block (header and payload).
pub open spec fn block_end(b: Block) -> int {
    b.addr + BLOCK_HEADER + b.size
}

/// Block `b` lies in `[start, end)`.
pub open spec fn within(b: Block, start: int, end: int) -> bool {
    start <= b.addr && block_end(b) <= end
}

/// Two blocks do not overlap.
pub open spec fn apart(a: Block, b: Block) -> bool {
    block_end(a) <= b.addr || block_end(b) <= a.addr
}

/// No two blocks of `s` overlap.
pub open spec fn pairwise_apart(s: Seq<Block>) -> bool {
    forall|i: int, j: int| 0 <= i < s.len() && 0 <= j < s.len() && i != j ==> apart(#[trigger] s[i], #[trigger] s[j])
}

/// Every block of `a` is apart from every block of `b`.
pub open spec fn all_apart(a: Seq<Block>, b: Seq<Block>) -> bool {
    forall|i: int, j: int| 0 <= i < a.len() && 0 <= j < b.len() ==> apart(#[trigger] a[i], #[trigger] b[j])
}

/// The heap allocator's state.
pub struct LinkAllocator {
    heap_start: u64,
    heap_size: u64,
    heap_offset: u64,
    free_list: Vec<Block>,
    live: Vec<Block>,
}

impl LinkAllocator {
    /// Start of the heap, 0 before initialisation.
    pub closed spec fn heap_start(&self) -> u64 {
        self.heap_start
    }

    pub closed spec fn heap_size(&self) -> u64 {
        self.heap_size
    }

    /// The break: bytes of the heap handed out so far.
    pub closed spec fn heap_offset(&self) -> u64 {
        self.heap_offset
    }

    /// Freed blocks, in the order they are searched.
    pub closed spec fn free_blocks(&self) -> Seq<Block> {
        self.free_list@
    }

    /// Blocks handed out and not freed.
    pub closed spec fn live_blocks(&self) -> Seq<Block> {
        self.live@
    }

    /// The heap fits below 2^52 bytes and ends inside the address space, and
    /// the break is inside it.
    pub open spec fn bounds_ok(&self) -> bool {
        &&& self.heap_size() <= 0x10_0000_0000_0000
        &&& self.heap_start() + self.heap_size() <= u64::MAX
        &&& self.heap_offset() <= self.heap_size()
    }

    /// Block `b` lies inside the heap.
    pub open spec fn inside(&self, b: Block) -> bool {
        within(b, self.heap_start() as int, self.heap_start() + self.heap_size())
    }

    /// The bounds hold and every block lies inside the heap. Every operation
    /// keeps this, moving the break back included.
    pub open spec fn sound(&self) -> bool {
        &&& self.bounds_ok()
        &&& forall|i: int|
            0 <= i < self.live_blocks().len() ==> within(
                #[trigger] self.live_blocks()[i],
                self.heap_start() as int,
                self.heap_start() + self.heap_size(),
            )
        &&& forall|i: int|
            0 <= i < self.free_blocks().len() ==> within(
                #[trigger] self.free_blocks()[i],
                self.heap_start() as int,
                self.heap_start() + self.heap_size(),
            )
    }

    /// The bounds hold, every block lies below the break, and no two blocks
    /// overlap.
    pub open spec fn wf(&self) -> bool {
        &&& self.bounds_ok()
        &&& forall|i: int| 0 <= i < self.live_blocks().len() ==> self.heap_start() <= (#[trigger] self.live_blocks()[i]).addr
            && block_end(self.live_blocks()[i]) <= self.heap_start() + self.heap_offset()
        &&& forall|i: int| 0 <= i < self.free_blocks().len() ==> self.heap_start() <= (#[trigger] self.free_blocks()[i]).addr
            && block_end(self.free_blocks()[i]) <= self.heap_start() + self.heap_offset()
        &&& pairwise_apart(self.live_blocks())
        &&& pairwise_apart(self.free_blocks())
        &&& all_apart(self.live_blocks(), self.free_blocks())
    }

    /// An allocator with no heap.
    pub fn new() -> (r: Self)
        ensures
            r.wf(),
            r.sound(),
            r.heap_start() == 0 && r.heap_size() == 0 && r.heap_offset() == 0,
            r.free_blocks() == Seq::<Block>::empty(),
            r.live_blocks() == Seq::<Block>::empty(),
    {
        LinkAllocator { heap_start: 0, heap_size: 0, heap_offset: 0, free_list: Vec::new(), live: Vec::new() }
    }

    /// Places the heap at `start` with `size` bytes, nothing handed out and
    /// an empty free list.
    pub fn init(&mut self, start: u64, size: u64)
        requires
            size <= 0x10_0000_0000_0000,
            start + size <= u64::MAX,
        ensures
            final(self).wf(),
            final(self).sound(),
            final(self).heap_start() == start && final(self).heap_size() == size && final(self).heap_offset() == 0,
            final(self).free_blocks() == Seq::<Block>::empty(),
            final(self).live_blocks() == Seq::<Block>::empty(),
    {
        self.heap_start = start;
        self.heap_size = size;
        self.heap_offset = 0;
        self.free_list = Vec::new();
        self.live = Vec::new();
    }

    /// Allocates `size` bytes aligned to `align` (a power of two). The first
    /// freed block that is large enough and whose payload has that alignment
    /// is reused whole; otherwise a new block is carved at the break, its
    /// payload aligned to `align` (at least 8) with the header just in front,
    /// when it fits in the heap. Returns the payload address.
    pub fn allocate(&mut self, size: u64, align: u64) -> (r: Option<u64>)
        requires
            old(self).sound(),
            is_pow2(align),
            size + align - 1 <= 0x7FFF_FFFF_FFFF_FFFF,
        ensures
            final(self).sound(),
            old(self).wf() ==> final(self).wf(),
            final(self).heap_start() == old(self).heap_start(),
            final(self).heap_size() == old(self).heap_size(),
            alloc_outcome(old(self), final(self), size, align, r),
            r matches Some(p) ==> p % align == 0,
    {
        let mut i: usize = 0;
        while i < self.free_list.len()
            invariant
                *self == *old(self),
                self.sound(),
                align >= 1,
                i <= self.free_list@.len(),
                forall|k: int| 0 <= k < i ==> !reusable(#[trigger] self.free_list@[k], size, align),
            decreases self.free_list@.len() - i,
        {
            let cand = self.free_list[i];
            assert(self.inside(self.free_blocks()[i as int]));
            if cand.size >= size && (cand.addr + BLOCK_HEADER) % align == 0 {
                let ghost f0 = self.free_list@;
                let ghost l0 = self.live@;
                let b = self.free_list.remove(i);
                self.live.push(b);
                proof {
                    assert(self.free_list@ == f0.remove(i as int));
                    assert(self.live@ == l0.push(b));
                    assert forall|x: int| 0 <= x < self.free_list@.len() implies self.inside(#[trigger] self.free_blocks()[x]) by {
                        let x0 = if x < i { x } else { x + 1 };
                        assert(self.free_list@[x] == f0[x0]);
                    }
                    assert(old(self).inside(old(self).free_blocks()[i as int]));
                    assert forall|x: int| 0 <= x < self.live@.len() implies self.inside(#[trigger] self.live_blocks()[x]) by {
                        if x < l0.len() {
                            assert(self.live@[x] == l0[x]);
                            assert(old(self).inside(old(self).live_blocks()[x]));
                        } else {
                            assert(self.live_blocks()[x] == f0[i as int]);
                        }
                    }
                    if old(self).wf() {
                    assert forall|x: int, y: int| 0 <= x < self.live@.len() && 0 <= y < self.live@.len() && x != y
                        implies apart(#[trigger] self.live@[x], #[trigger] self.live@[y]) by {
                        if x == l0.len() {
                            assert(apart(l0[y], f0[i as int]));
                        } else if y == l0.len() {
                            assert(apart(l0[x], f0[i as int]));
                        }
                    }
                    assert forall|x: int, y: int| 0 <= x < self.free_list@.len() && 0 <= y < self.free_list@.len() && x != y
                        implies apart(#[trigger] self.free_list@[x], #[trigger] self.free_list@[y]) by {
                        let x0 = if x < i { x } else { x + 1 };
                        let y0 = if y < i { y } else { y + 1 };
                        assert(self.free_list@[x] == f0[x0]);
                        assert(self.free_list@[y] == f0[y0]);
                    }
                    assert forall|x: int, y: int| 0 <= x < self.live@.len() && 0 <= y < self.free_list@.len()
                        implies apart(#[trigger] self.live@[x], #[trigger] self.free_list@[y]) by {
                        let y0 = if y < i { y } else { y + 1 };
                        assert(self.free_list@[y] == f0[y0]);
                        if x == l0.len() {
                            assert(y0 != i);
                            assert(apart(f0[i as int], f0[y0]));
                        }
                    }
                    assert forall|x: int| 0 <= x < self.free_list@.len() implies self.heap_start <= (#[trigger] self.free_list@[x]).addr
                        && block_end(self.free_list@[x]) <= self.heap_start + self.heap_offset by {
                        let x0 = if x < i { x } else { x + 1 };
                        assert(self.free_list@[x] == f0[x0]);
                    }
                    }
                    assert(reusable(f0[i as int], size, align));
                    let c = choose|c: int|
                        0 <= c < f0.len() && reusable(#[trigger] f0[c], size, align) && forall|k: int|
                            0 <= k < c ==> !reusable(#[trigger] f0[k], size, align);
                    if c < i {
                        assert(!reusable(f0[c], size, align));
                    } else if c > i {
                        assert(!reusable(f0[i as int], size, align));
                    }
                }
                return Some(b.addr + BLOCK_HEADER);
            }
            i = i + 1;
        }
        proof {
            assert forall|k: int| 0 <= k < self.free_list@.len() implies !reusable(#[trigger] self.free_list@[k], size, align) by {
            }
        }
        if self.heap_start == 0 {
            return None;
        }
        let a = if align > BLOCK_ALIGN { align } else { BLOCK_ALIGN };
        let heap_end = self.heap_start + self.heap_size;
        let base = self.heap_start + self.heap_offset;
        proof { lemma_align_up(base + BLOCK_HEADER, a as int); }
        if heap_end - base < BLOCK_HEADER {
            return None;
        }
        let x = base + BLOCK_HEADER;
        let rem = x % a;
        if rem != 0 && a - rem > heap_end - x {
            return None;
        }
        let p = if rem == 0 { x } else { x + (a - rem) };
        if size > heap_end - p {
            return None;
        }
        let block = Block { addr: p - BLOCK_HEADER, size };
        let ghost l0 = self.live@;
        self.live.push(block);
        self.heap_offset = p + size - self.heap_start;
        proof {
            lemma_pow2_divides(align, a);
            assert forall|x: int| 0 <= x < self.live@.len() implies self.inside(#[trigger] self.live_blocks()[x]) by {
                if x < l0.len() {
                    assert(self.live@[x] == l0[x]);
                    assert(old(self).inside(old(self).live_blocks()[x]));
                } else {
                    assert(self.live_blocks()[x] == block);
                }
            }
            if old(self).wf() {
                assert forall|x: int, y: int| 0 <= x < self.live@.len() && 0 <= y < self.live@.len() && x != y
                    implies apart(#[trigger] self.live@[x], #[trigger] self.live@[y]) by {
                    if x != l0.len() && y != l0.len() {
                        assert(apart(l0[x], l0[y]));
                    }
                }
                assert forall|x: int, y: int| 0 <= x < self.live@.len() && 0 <= y < self.free_list@.len()
                    implies apart(#[trigger] self.live@[x], #[trigger] self.free_list@[y]) by {
                    if x != l0.len() {
                        assert(apart(l0[x], self.free_list@[y]));
                    }
                }
            }
        }
        Some(p)
    }

    /// Returns the block of payload address `ptr` to the end of the free list;
    /// a null pointer is ignored.
    pub fn dealloc(&mut self, ptr: u64)
        requires
            old(self).sound(),
            ptr != 0 ==> exists|j: int| 0 <= j < old(self).live_blocks().len() && (#[trigger] old(self).live_blocks()[j]).addr
                + BLOCK_HEADER == ptr,
        ensures
            final(self).sound(),
            old(self).wf() ==> final(self).wf(),
            final(self).heap_start() == old(self).heap_start(),
            final(self).heap_size() == old(self).heap_size(),
            final(self).heap_offset() == old(self).heap_offset(),
            ptr == 0 ==> final(self).live_blocks() == old(self).live_blocks() && final(self).free_blocks()
                == old(self).free_blocks(),
            ptr != 0 ==> exists|j: int| 0 <= j < old(self).live_blocks().len() && (#[trigger] old(self).live_blocks()[j]).addr
                + BLOCK_HEADER == ptr && final(self).live_blocks() == old(self).live_blocks().remove(j)
                && final(self).free_blocks() == old(self).free_blocks().push(old(self).live_blocks()[j]),
    {
        if ptr == 0 {
            return;
        }
        let mut j: usize = 0;
        while j < self.live.len()
            invariant
                *self == *old(self),
                self.sound(),
                j <= self.live@.len(),
                exists|k: int| j <= k < self.live@.len() && (#[trigger] self.live@[k]).addr + BLOCK_HEADER == ptr,
            decreases self.live@.len() - j,
        {
            assert(self.inside(self.live_blocks()[j as int]));
            if self.live[j].addr + BLOCK_HEADER == ptr {
                let ghost f0 = self.free_list@;
                let ghost l0 = self.live@;
                let b = self.live.remove(j);
                self.free_list.push(b);
                proof {
                    assert(self.live@ == l0.remove(j as int));
                    assert(self.free_list@ == f0.push(b));
                    assert forall|x: int| 0 <= x < self.live@.len() implies self.inside(#[trigger] self.live_blocks()[x]) by {
                        let x0 = if x < j { x } else { x + 1 };
                        assert(self.live@[x] == l0[x0]);
                    }
                    assert(old(self).inside(old(self).live_blocks()[j as int]));
                    assert forall|x: int| 0 <= x < self.free_list@.len() implies self.inside(#[trigger] self.free_blocks()[x]) by {
                        if x < f0.len() {
                            assert(self.free_list@[x] == f0[x]);
                            assert(old(self).inside(old(self).free_blocks()[x]));
                        } else {
                            assert(self.free_blocks()[x] == l0[j as int]);
                        }
                    }
                    if old(self).wf() {
                    assert forall|x: int, y: int| 0 <= x < self.free_list@.len() && 0 <= y < self.free_list@.len() && x != y
                        implies apart(#[trigger] self.free_list@[x], #[trigger] self.free_list@[y]) by {
                        if x == f0.len() {
                            assert(apart(l0[j as int], f0[y]));
                        } else if y == f0.len() {
                            assert(apart(l0[j as int], f0[x]));
                        }
                    }
                    assert forall|x: int, y: int| 0 <= x < self.live@.len() && 0 <= y < self.live@.len() && x != y
                        implies apart(#[trigger] self.live@[x], #[trigger] self.live@[y]) by {
                        let x0 = if x < j { x } else { x + 1 };
                        let y0 = if y < j { y } else { y + 1 };
                        assert(self.live@[x] == l0[x0]);
                        assert(self.live@[y] == l0[y0]);
                    }
                    assert forall|x: int, y: int| 0 <= x < self.live@.len() && 0 <= y < self.free_list@.len()
                        implies apart(#[trigger] self.live@[x], #[trigger] self.free_list@[y]) by {
                        let x0 = if x < j { x } else { x + 1 };
                        assert(self.live@[x] == l0[x0]);
                        if y == f0.len() {
                            assert(x0 != j);
                            assert(apart(l0[x0], l0[j as int]));
                        }
                    }
                    assert forall|x: int| 0 <= x < self.live@.len() implies self.heap_start <= (#[trigger] self.live@[x]).addr
                        && block_end(self.live@[x]) <= self.heap_start + self.heap_offset by {
                        let x0 = if x < j { x } else { x + 1 };
                        assert(self.live@[x] == l0[x0]);
                    }
                    }
                }
                return;
            }
            j = j + 1;
        }
    }

    /// Moves the break by `increment` bytes and returns the old break
    /// address; `None` (out of memory) when there is no heap or the break
    /// would leave `[0, heap_size]`.
    pub fn sbrk(&mut self, increment: i64) -> (r: Option<u64>)
        requires
            old(self).sound(),
            old(self).heap_offset() + increment <= i64::MAX,
        ensures
            final(self).sound(),
            final(self).heap_start() == old(self).heap_start(),
            final(self).heap_size() == old(self).heap_size(),
            final(self).free_blocks() == old(self).free_blocks(),
            final(self).live_blocks() == old(self).live_blocks(),
            old(self).heap_start() == 0 || old(self).heap_offset() + increment < 0
                || old(self).heap_offset() + increment > old(self).heap_size() ==> r is None
                && final(self).heap_offset() == old(self).heap_offset(),
            !(old(self).heap_start() == 0 || old(self).heap_offset() + increment < 0
                || old(self).heap_offset() + increment > old(self).heap_size()) ==> r == Some(
                (old(self).heap_start() + old(self).heap_offset()) as u64,
            ) && final(self).heap_offset() == old(self).heap_offset() + increment,
            increment >= 0 && old(self).wf() ==> final(self).wf(),
    {
        if self.heap_start == 0 {
            return None;
        }
        let current = self.heap_offset as i64;
        let new_offset = current + increment;
        if new_offset < 0 || new_offset as u64 > self.heap_size {
            return None;
        }
        self.heap_offset = new_offset as u64;
        assert(self.live_blocks() == old(self).live_blocks() && self.free_blocks() == old(self).free_blocks());
        Some(self.heap_start + current as u64)
    }

    /// The break address, or `None` when there is no heap.
    pub fn brk_current(&self) -> (r: Option<u64>)
        requires
            self.bounds_ok(),
        ensures
            self.heap_start() == 0 ==> r is None,
            self.heap_start() != 0 ==> r == Some((self.heap_start() + self.heap_offset()) as u64),
    {
        if self.heap_start == 0 {
            return None;
        }
        Some(self.heap_start + self.heap_offset)
    }
}

/// `align` is a power of two.
pub open spec fn is_pow2(align: u64) -> bool {
    align >= 1 && align & ((align - 1) as u64) == 0
}

/// The least multiple of `a` at or above `x`.
pub open spec fn align_up(x: int, a: int) -> int {
    if x % a == 0 {
        x
    } else {
        x + (a - x % a)
    }
}

/// A freed block can serve a request of `size` bytes at `align`: it is large
/// enough and its payload has the alignment.
pub open spec fn reusable(b: Block, size: u64, align: u64) -> bool {
    b.size >= size && (b.addr + BLOCK_HEADER) % (align as int) == 0
}

/// What `allocate(size, align)` does from `a0` to `a1` with result `r`.
pub open spec fn alloc_outcome(a0: &LinkAllocator, a1: &LinkAllocator, size: u64, align: u64, r: Option<u64>) -> bool {
    let fit = exists|i: int| 0 <= i < a0.free_blocks().len() && reusable(#[trigger] a0.free_blocks()[i], size, align);
    if fit {
        let i = choose|i: int|
            0 <= i < a0.free_blocks().len() && reusable(#[trigger] a0.free_blocks()[i], size, align) && forall|k: int|
                0 <= k < i ==> !reusable(#[trigger] a0.free_blocks()[k], size, align);
        &&& r == Some((a0.free_blocks()[i].addr + BLOCK_HEADER) as u64)
        &&& a1.free_blocks() == a0.free_blocks().remove(i)
        &&& a1.live_blocks() == a0.live_blocks().push(a0.free_blocks()[i])
        &&& a1.heap_offset() == a0.heap_offset()
    } else {
        let a = if align > BLOCK_ALIGN { align } else { BLOCK_ALIGN };
        let p = align_up(a0.heap_start() + a0.heap_offset() + BLOCK_HEADER, a as int);
        if a0.heap_start() == 0 || p + size > a0.heap_start() + a0.heap_size() {
            &&& r is None
            &&& a1.free_blocks() == a0.free_blocks()
            &&& a1.live_blocks() == a0.live_blocks()
            &&& a1.heap_offset() == a0.heap_offset()
        } else {
            &&& r == Some(p as u64)
            &&& a1.free_blocks() == a0.free_blocks()
            &&& a1.live_blocks() == a0.live_blocks().push(Block { addr: (p - BLOCK_HEADER) as u64, size })
            &&& a1.heap_offset() == p + size - a0.heap_start()
        }
    }
}

/// Rounding up to `a` gives the least multiple of `a` at or above `x`.
pub proof fn lemma_align_up(x: int, a: int)
    requires
        x >= 0,
        a > 0,
    ensures
        align_up(x, a) % a == 0,
        x <= align_up(x, a) < x + a,
        align_up(x, a) == x <==> x % a == 0,
{
    vstd::arithmetic::div_mod::lemma_fundamental_div_mod(x, a);
    vstd::arithmetic::div_mod::lemma_mod_pos_bound(x, a);
    let q = x / a;
    if x % a != 0 {
        assert(align_up(x, a) == (q + 1) * a) by (nonlinear_arith)
            requires
                x == a * q + x % a,
                align_up(x, a) == x + (a - x % a),
        ;
        vstd::arithmetic::div_mod::lemma_mod_multiples_basic(q + 1, a);
    }
}

/// A power of two not above 8 divides 8, and a multiple of the larger of
/// the two is a multiple of `align`.
proof fn lemma_pow2_divides(align: u64, a: u64)
    requires
        is_pow2(align),
        a == if align > BLOCK_ALIGN { align } else { BLOCK_ALIGN },
    ensures
        forall|p: int| p % (a as int) == 0 ==> #[trigger] (p % (align as int)) == 0,
{
    if align <= 8 {
        assert(align == 1 || align == 2 || align == 4 || align == 8) by (bit_vector)
            requires
                align >= 1,
                align <= 8,
                align & ((align - 1) as u64) == 0,
        ;
        assert forall|p: int| p % 8 == 0 implies #[trigger] (p % (align as int)) == 0 by {
            vstd::arithmetic::div_mod::lemma_fundamental_div_mod(p, 8);
            let q = p / 8;
            if align == 2 {
                vstd::arithmetic::div_mod::lemma_mod_multiples_basic(4 * q, 2);
            } else if align == 4 {
                vstd::arithmetic::div_mod::lemma_mod_multiples_basic(2 * q, 4);
            }
        }
    }
}

/// In a well-formed allocator no two blocks handed out overlap: the payload
/// of every live allocation is disjoint from every other live block.
pub proof fn law_live_blocks_disjoint(a: &LinkAllocator, i: int, j: int)
    requires
        a.wf(),
        0 <= i < a.live_blocks().len(),
        0 <= j < a.live_blocks().len(),
        i != j,
    ensures
        block_end(a.live_blocks()[i]) <= a.live_blocks()[j].addr || block_end(a.live_blocks()[j])
            <= a.live_blocks()[i].addr,
{
    assert(apart(a.live_blocks()[i], a.live_blocks()[j]));
}

/// The largest end address of the regions (0 for none).
pub open spec fn max_end(regions: Seq<MemoryRegion>) -> int
    decreases regions.len(),
{
    if regions.len() == 0 {
        0
    } else {
        let m = max_end(regions.drop_last());
        let e = regions.last().base + regions.last().length;
        if e > m { e } else { m }
    }
}

/// Bytes set aside at the start of the heap region for a bitmap of all
/// frames up to the highest address: one bit per frame, rounded up to whole
/// 64-bit words and then to whole pages.
pub open spec fn bitmap_bytes(regions: Seq<MemoryRegion>) -> int {
    let frames = (max_end(regions) + 4095) / 4096;
    let words = (frames + 63) / 64;
    ((words * 8 + 4095) / 4096) * 4096
}

/// Region `i` is the first usable region larger than `MIN_HEAP_REGION`.
pub open spec fn first_heap_region(regions: Seq<MemoryRegion>, i: int) -> bool {
    &&& 0 <= i < regions.len()
    &&& regions[i].usable && regions[i].length > MIN_HEAP_REGION
    &&& forall|k: int| 0 <= k < i ==> !((#[trigger] regions[k]).usable && regions[k].length > MIN_HEAP_REGION)
}

/// Where the heap goes: in the first usable region larger than 16 MiB,
/// after the frame bitmap, at its direct-map address; `None` if there is no
/// such region.
pub open spec fn heap_region_spec(regions: Seq<MemoryRegion>) -> Option<(u64, u64)> {
    if exists|i: int| first_heap_region(regions, i) {
        let i = choose|i: int| first_heap_region(regions, i);
        Some(
            (
                (regions[i].base + bitmap_bytes(regions) + HEAP_VIRT_OFFSET) as u64,
                (regions[i].length - bitmap_bytes(regions)) as u64,
            ),
        )
    } else {
        None
    }
}

/// The regions lie below 2^46 and every usable region larger than 16 MiB
/// can hold the frame bitmap.
pub open spec fn heap_regions_ok(regions: Seq<MemoryRegion>) -> bool {
    &&& forall|k: int| 0 <= k < regions.len() ==> (#[trigger] regions[k]).base + regions[k].length <= 0x4000_0000_0000
    &&& forall|k: int| 0 <= k < regions.len() && (#[trigger] regions[k]).usable && regions[k].length > MIN_HEAP_REGION
        ==> regions[k].length >= bitmap_bytes(regions)
}

proof fn lemma_max_end_bound(regions: Seq<MemoryRegion>)
    requires
        forall|k: int| 0 <= k < regions.len() ==> (#[trigger] regions[k]).base + regions[k].length <= 0x4000_0000_0000,
    ensures
        0 <= max_end(regions) <= 0x4000_0000_0000,
    decreases regions.len(),
{
    if regions.len() > 0 {
        let t = regions.drop_last();
        assert forall|k: int| 0 <= k < t.len() implies (#[trigger] t[k]).base + t[k].length <= 0x4000_0000_0000 by {
            assert(t[k] == regions[k]);
        }
        lemma_max_end_bound(t);
        assert(regions.last() == regions[regions.len() - 1]);
    }
}

/// Finds where the heap goes (see `heap_region_spec`).
/// The regions all end below 2^46.
pub open spec fn regions_below_limit(regions: Seq<MemoryRegion>) -> bool {
    forall|k: int| 0 <= k < regions.len() ==> (#[trigger] regions[k]).base + regions[k].length <= 0x4000_0000_0000
}

/// The bytes of the frame bitmap (see `bitmap_bytes`).
fn bitmap_size(regions: &[MemoryRegion]) -> (r: u64)
    requires
        regions_below_limit(regions@),
    ensures
        r == bitmap_bytes(regions@),
{
    let mut max_addr: u64 = 0;
    let mut k: usize = 0;
    while k < regions.len()
        invariant
            regions_below_limit(regions@),
            k <= regions@.len(),
            max_addr == max_end(regions@.take(k as int)),
        decreases regions@.len() - k,
    {
        proof {
            assert(regions@.take(k + 1).drop_last() =~= regions@.take(k as int));
            assert(regions@.take(k + 1).last() == regions@[k as int]);
        }
        let end = regions[k].base + regions[k].length;
        if end > max_addr {
            max_addr = end;
        }
        k = k + 1;
    }
    assert(regions@.take(regions@.len() as int) =~= regions@);
    proof { lemma_max_end_bound(regions@); }
    let total_frames = (max_addr + 4095) / 4096;
    let bitmap_size = (total_frames + 63) / 64;
    let y = bitmap_size * 8 + 4095;
    assert(y & !4095u64 == (y / 4096) * 4096) by (bit_vector);
    let bitmap_size_bytes = (bitmap_size * 8 + 4095) & !4095u64;
    bitmap_size_bytes
}

/// Whether the regions may be handed to `heap_region` and `init_allocator`
/// (see `heap_regions_ok`).
pub fn heap_regions_check(regions: &[MemoryRegion]) -> (r: bool)
    ensures
        r == heap_regions_ok(regions@),
{
    let mut k: usize = 0;
    while k < regions.len()
        invariant
            k <= regions@.len(),
            forall|j: int| 0 <= j < k ==> (#[trigger] regions@[j]).base + regions@[j].length <= 0x4000_0000_0000,
        decreases regions@.len() - k,
    {
        let e = regions[k];
        if e.length > 0x4000_0000_0000 || e.base > 0x4000_0000_0000 - e.length {
            return false;
        }
        k = k + 1;
    }
    let bm = bitmap_size(regions);
    let mut i: usize = 0;
    while i < regions.len()
        invariant
            i <= regions@.len(),
            regions_below_limit(regions@),
            bm == bitmap_bytes(regions@),
            forall|j: int| 0 <= j < i && (#[trigger] regions@[j]).usable && regions@[j].length > MIN_HEAP_REGION
                ==> regions@[j].length >= bm,
        decreases regions@.len() - i,
    {
        let e = regions[i];
        if e.usable && e.length > MIN_HEAP_REGION && e.length < bm {
            return false;
        }
        i = i + 1;
    }
    true
}

pub fn heap_region(regions: &[MemoryRegion]) -> (r: Option<(u64, u64)>)
    requires
        heap_regions_ok(regions@),
    ensures
        r == heap_region_spec(regions@),
{
    let bitmap_size_bytes = bitmap_size(regions);
    let mut i: usize = 0;
    while i < regions.len()
        invariant
            heap_regions_ok(regions@),
            i <= regions@.len(),
            bitmap_size_bytes == bitmap_bytes(regions@),
            forall|k: int| 0 <= k < i ==> !((#[trigger] regions@[k]).usable && regions@[k].length > MIN_HEAP_REGION),
        decreases regions@.len() - i,
    {
        let e = regions[i];
        if e.usable && e.length > MIN_HEAP_REGION {
            proof {
                assert(first_heap_region(regions@, i as int));
                let c = choose|c: int| first_heap_region(regions@, c);
                if c < i {
                    assert(!((regions@[c]).usable && regions@[c].length > MIN_HEAP_REGION));
                } else if c > i {
                    assert(!((regions@[i as int]).usable && regions@[i as int].length > MIN_HEAP_REGION));
                }
            }
            let heap_phys = e.base + bitmap_size_bytes;
            let heap_len = e.length - bitmap_size_bytes;
            return Some((heap_phys + HEAP_VIRT_OFFSET, heap_len));
        }
        i = i + 1;
    }
    proof {
        assert forall|c: int| !first_heap_region(regions@, c) by {
            if first_heap_region(regions@, c) {
                assert(!((regions@[c]).usable && regions@[c].length > MIN_HEAP_REGION));
            }
        }
    }
    None
}

impl LinkAllocator {
    /// Places the heap in the region `heap_region` finds, with an empty free
    /// list.
    pub fn init_allocator(&mut self, regions: &[MemoryRegion])
        requires
            heap_regions_ok(regions@),
            heap_region_spec(regions@) is Some,
        ensures
            final(self).wf(),
            final(self).sound(),
            final(self).heap_start() == (heap_region_spec(regions@)->0).0,
            final(self).heap_size() == (heap_region_spec(regions@)->0).1,
            final(self).heap_offset() == 0,
            final(self).free_blocks() == Seq::<Block>::empty(),
            final(self).live_blocks() == Seq::<Block>::empty(),
    {
        match heap_region(regions) {
            Some((start, size)) => {
                proof {
                    let i = choose|i: int| first_heap_region(regions@, i);
                    assert(regions@[i].base + regions@[i].length <= 0x4000_0000_0000);
                }
                self.init(start, size);
            },
            None => {},
        }
    }
}

} // verus!
