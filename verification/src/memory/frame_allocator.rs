use vstd::prelude::*;
use crate::memory::addr::PhysAddr;

verus! {

/// Size of a physical frame.
pub const PAGE_SIZE: u64 = 0x1000;

/// A region of the physical memory map.
#[derive(Clone, Copy, Debug)]
pub struct MemoryRegion {
    pub base: u64,
    pub length: u64,
    pub usable: bool,
}

/// The free list after `addr` is freed onto `s`: the frame goes on top, and
/// freeing frame 0, which also marks the end of the list, empties it.
pub open spec fn freed(s: Seq<u64>, addr: u64) -> Seq<u64> {
    if addr == 0 {
        Seq::empty()
    } else {
        s.push(addr)
    }
}

/// Frees each of `addrs` in order.
pub open spec fn freed_all(s: Seq<u64>, addrs: Seq<u64>) -> Seq<u64>
    decreases addrs.len(),
{
    if addrs.len() == 0 {
        s
    } else {
        freed(freed_all(s, addrs.drop_last()), addrs.last())
    }
}

/// The frame addresses `base, base + PAGE_SIZE, ...` below `base + length`.
pub open spec fn region_frames(base: u64, length: u64) -> Seq<u64> {
    Seq::new(
        ((length as int + PAGE_SIZE - 1) / (PAGE_SIZE as int)) as nat,
        |i: int| (base + i * PAGE_SIZE) as u64,
    )
}

/// The frames of the usable regions of `regions`, in order.
pub open spec fn usable_frames(regions: Seq<MemoryRegion>) -> Seq<u64>
    decreases regions.len(),
{
    if regions.len() == 0 {
        Seq::empty()
    } else {
        let r = regions.last();
        usable_frames(regions.drop_last()) + if r.usable {
            region_frames(r.base, r.length)
        } else {
            Seq::empty()
        }
    }
}

/// The physical frame allocator: a stack of free frames, the top handed out
/// first.
pub struct FrameAllocator {
    free: Vec<u64>,
}

impl FrameAllocator {
    /// The free frames, the next one to be handed out last.
    pub closed spec fn view(&self) -> Seq<u64> {
        self.free@
    }

    /// Every free frame is a non-zero multiple of `PAGE_SIZE`.
    pub open spec fn wf(&self) -> bool {
        forall|i: int| 0 <= i < self@.len() ==> #[trigger] self@[i] != 0 && self@[i] % PAGE_SIZE == 0
    }

    pub fn new() -> (r: Self)
        ensures
            r@ == Seq::<u64>::empty(),
            r.wf(),
    {
        FrameAllocator { free: Vec::new() }
    }

    /// How many frames are free; taking one from an empty allocator is out
    /// of memory.
    pub fn free_count(&self) -> (r: usize)
        ensures
            r == self@.len(),
    {
        self.free.len()
    }

    /// Takes the most recently freed frame.
    pub fn alloc_frame(&mut self) -> (r: Option<PhysAddr>)
        requires
            old(self).wf(),
            old(self)@.len() > 0,
        ensures
            final(self).wf(),
            r matches Some(f) && f@ == old(self)@.last(),
            final(self)@ == old(self)@.drop_last(),
    {
        let addr = match self.free.pop() {
            Some(a) => a,
            None => 0,
        };
        if addr == 0 {
            None
        } else {
            Some(PhysAddr::new(addr))
        }
    }

    /// Returns `frame` to the free list.
    pub fn free_frame(&mut self, frame: PhysAddr)
        requires
            old(self).wf(),
            frame@ % PAGE_SIZE == 0,
        ensures
            final(self).wf(),
            final(self)@ == freed(old(self)@, frame@),
    {
        let addr = frame.as_u64();
        if addr == 0 {
            self.free.clear();
        } else {
            let ghost before = self@;
            self.free.push(addr);
            assert forall|i: int| 0 <= i < self@.len() implies #[trigger] self@[i] != 0 && self@[i] % PAGE_SIZE == 0 by {
                if i < before.len() {
                    assert(self@[i] == before[i]);
                }
            }
        }
    }

    /// Frees every frame of the usable regions, region by region.
    pub fn init_frame_allocator(&mut self, regions: &[MemoryRegion])
        requires
            old(self).wf(),
            forall|i: int| 0 <= i < regions@.len() && (#[trigger] regions@[i]).usable ==> regions@[i].base % PAGE_SIZE == 0
                && regions@[i].base + regions@[i].length + PAGE_SIZE <= u64::MAX,
        ensures
            final(self).wf(),
            final(self)@ == freed_all(old(self)@, usable_frames(regions@)),
    {
        let mut k: usize = 0;
        while k < regions.len()
            invariant
                self.wf(),
                k <= regions@.len(),
                forall|i: int| 0 <= i < regions@.len() && (#[trigger] regions@[i]).usable ==> regions@[i].base % PAGE_SIZE == 0
                    && regions@[i].base + regions@[i].length + PAGE_SIZE <= u64::MAX,
                self@ == freed_all(old(self)@, usable_frames(regions@.take(k as int))),
            decreases regions@.len() - k,
        {
            let r = regions[k];
            proof {
                assert(regions@.take(k + 1).drop_last() =~= regions@.take(k as int));
                assert(regions@.take(k + 1).last() == r);
            }
            let ghost before = usable_frames(regions@.take(k as int));
            if r.usable {
                let mut current = r.base;
                let end = r.base + r.length;
                let ghost frames = region_frames(r.base, r.length);
                let ghost mut n: int = 0;
                while current < end
                    invariant
                        self.wf(),
                        r.base % PAGE_SIZE == 0,
                        r.base + r.length + PAGE_SIZE <= u64::MAX,
                        end == r.base + r.length,
                        frames == region_frames(r.base, r.length),
                        0 <= n,
                        current == r.base + n * PAGE_SIZE,
                        current <= end + PAGE_SIZE,
                        n <= frames.len(),
                        n < frames.len() <==> current < end,
                        self@ == freed_all(old(self)@, before + frames.take(n)),
                    decreases end + PAGE_SIZE - current,
                {
                    proof {
                        assert((before + frames.take(n + 1)).drop_last() =~= before + frames.take(n));
                        assert(frames[n] == current);
                        assert(current % PAGE_SIZE == 0) by (nonlinear_arith)
                            requires current == r.base + n * PAGE_SIZE, r.base % PAGE_SIZE == 0, PAGE_SIZE == 0x1000;
                        assert(n + 1 < frames.len() <==> current + PAGE_SIZE < end) by (nonlinear_arith)
                            requires
                                current == r.base + n * PAGE_SIZE,
                                frames.len() == (r.length as int + PAGE_SIZE - 1) / (PAGE_SIZE as int),
                                end == r.base + r.length,
                                PAGE_SIZE == 0x1000,
                                n >= 0;
                    }
                    self.free_frame(PhysAddr::new(current));
                    current = current + PAGE_SIZE;
                    proof { n = n + 1; }
                }
                proof {
                    assert(frames.take(n) =~= frames);
                }
            } else {
                assert(before + Seq::<u64>::empty() =~= before);
            }
            k = k + 1;
        }
        assert(regions@.take(regions@.len() as int) =~= regions@);
    }
}

/// Freeing a non-zero frame and allocating again hands the same frame back
/// and restores the free list.
pub proof fn law_free_then_alloc(s: Seq<u64>, addr: u64)
    requires
        addr != 0,
    ensures
        freed(s, addr).last() == addr,
        freed(s, addr).drop_last() == s,
{
    assert(s.push(addr).drop_last() =~= s);
}

} // verus!
