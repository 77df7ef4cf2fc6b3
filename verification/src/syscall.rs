//! System call dispatch: the call numbers, plotting a pixel, the framebuffer
//! queries, printing and growing the heap. What a call does to the screen
//! or the console is handed back as an action for the caller to carry out.
use vstd::prelude::*;
use crate::memory::allocator::LinkAllocator;

verus! {

/// The answer to an unknown call number.
pub const ENOSYS: i64 = -38;

/// The calls the kernel serves.
#[derive(Debug, Clone, Copy, PartialEq, Eq, Structural)]
pub enum Syscall {
    PlotPoint,
    FramebufferInfo,
    Print,
    Sbrk,
}

pub open spec fn syscall_of(n: u64) -> Option<Syscall> {
    if n == 0 {
        Some(Syscall::PlotPoint)
    } else if n == 1 {
        Some(Syscall::FramebufferInfo)
    } else if n == 2 {
        Some(Syscall::Print)
    } else if n == 5 {
        Some(Syscall::Sbrk)
    } else {
        None
    }
}

impl Syscall {
    /// The call with number `n`: 0 plots a point, 1 asks about the
    /// framebuffer, 2 prints and 5 moves the heap break.
    pub fn from_u64(n: u64) -> (r: Option<Self>)
        ensures
            r == syscall_of(n),
    {
        match n {
            0 => Some(Syscall::PlotPoint),
            1 => Some(Syscall::FramebufferInfo),
            2 => Some(Syscall::Print),
            5 => Some(Syscall::Sbrk),
            _ => None,
        }
    }
}

/// The geometry of the framebuffer the calls draw on.
#[derive(Debug, Clone, Copy, PartialEq, Eq, Structural)]
pub struct FramebufferGeometry {
    pub width: u64,
    pub height: u64,
    pub pitch: u64,
    pub bpp: u16,
}

impl FramebufferGeometry {
    /// Dimensions small enough for pixel offsets to fit in an `i64`.
    pub open spec fn wf(&self) -> bool {
        &&& self.width < 0x8000_0000
        &&& self.height < 0x8000_0000
        &&& self.pitch < 0x8000_0000
    }
}

/// What a call leaves for the caller to do.
#[derive(Debug, Clone, Copy, PartialEq, Eq, Structural)]
pub enum SyscallAction {
    Nothing,
    /// Write the 32-bit `color` at byte `offset` of the framebuffer.
    Plot { offset: u64, color: u32 },
    /// Print the `len` bytes at user address `ptr` as a line, if they are
    /// UTF-8.
    Print { ptr: u64, len: u64 },
}

/// The handler, with the framebuffer it draws on if there is one.
pub struct SyscallHandler {
    pub fb: Option<FramebufferGeometry>,
}

/// The answer and action of plotting `color` at `(x, y)`: outside the
/// framebuffer the answer is -1, else 0 with the pixel written; with no
/// framebuffer nothing happens and the answer is 0.
pub open spec fn plot_outcome(fb: Option<FramebufferGeometry>, x: i64, y: i64, color: i64) -> (i64, SyscallAction) {
    match fb {
        None => (0i64, SyscallAction::Nothing),
        Some(g) => if x < 0 || y < 0 || x >= g.width || y >= g.height {
            (-1i64, SyscallAction::Nothing)
        } else {
            (0i64, SyscallAction::Plot { offset: (y * g.pitch + x * 4) as u64, color: color as u32 })
        },
    }
}

/// The answer to a framebuffer query: 0 for the width, 1 the height, 2 the
/// pitch, 3 the bits per pixel, 0 otherwise or with no framebuffer.
pub open spec fn info_outcome(fb: Option<FramebufferGeometry>, query: i64) -> i64 {
    match fb {
        None => 0,
        Some(g) => if query == 0 {
            g.width as i64
        } else if query == 1 {
            g.height as i64
        } else if query == 2 {
            g.pitch as i64
        } else if query == 3 {
            g.bpp as i64
        } else {
            0
        },
    }
}

/// The action of printing `len` bytes at `ptr`: only a non-null pointer
/// and a positive length print.
pub open spec fn print_outcome(ptr: i64, len: i64) -> SyscallAction {
    if ptr != 0 && len > 0 {
        SyscallAction::Print { ptr: ptr as u64, len: len as u64 }
    } else {
        SyscallAction::Nothing
    }
}

impl SyscallHandler {
    pub fn new(fb: Option<FramebufferGeometry>) -> (r: Self)
        ensures
            r.fb == fb,
    {
        SyscallHandler { fb }
    }

    pub open spec fn wf(&self) -> bool {
        self.fb matches Some(g) ==> g.wf()
    }

    /// Plots a point.
    pub fn plot_point(&self, x: i64, y: i64, color: i64) -> (r: (i64, SyscallAction))
        requires
            self.wf(),
        ensures
            r == plot_outcome(self.fb, x, y, color),
    {
        match self.fb {
            None => (0, SyscallAction::Nothing),
            Some(g) => {
                if x < 0 || y < 0 || x >= g.width as i64 || y >= g.height as i64 {
                    return (-1, SyscallAction::Nothing);
                }
                let pitch = g.pitch as i64;
                assert(y * pitch <= 0x8000_0000 * 0x8000_0000) by (nonlinear_arith)
                    requires 0 <= y < 0x8000_0000, 0 <= pitch < 0x8000_0000;
                let offset = (y * pitch + x * 4) as u64;
                (0, SyscallAction::Plot { offset, color: color as u32 })
            },
        }
    }

    /// Answers a framebuffer query.
    pub fn framebuffer_info(&self, query: i64) -> (r: i64)
        ensures
            r == info_outcome(self.fb, query),
    {
        match self.fb {
            None => 0,
            Some(g) => {
                if query == 0 {
                    g.width as i64
                } else if query == 1 {
                    g.height as i64
                } else if query == 2 {
                    g.pitch as i64
                } else if query == 3 {
                    g.bpp as i64
                } else {
                    0
                }
            },
        }
    }

    /// Prints a user buffer; the answer is always 0.
    pub fn print(&self, ptr: i64, len: i64) -> (r: (i64, SyscallAction))
        ensures
            r == (0i64, print_outcome(ptr, len)),
    {
        if ptr != 0 && len > 0 {
            (0, SyscallAction::Print { ptr: ptr as u64, len: len as u64 })
        } else {
            (0, SyscallAction::Nothing)
        }
    }

    /// Moves the heap break by `increment`: the old break on success, -1
    /// when there is no heap or the break would leave it.
    pub fn sbrk(&self, heap: &mut LinkAllocator, increment: i64) -> (r: i64)
        requires
            old(heap).sound(),
            old(heap).heap_offset() + increment <= i64::MAX,
        ensures
            final(heap).sound(),
            final(heap).heap_start() == old(heap).heap_start(),
            final(heap).heap_size() == old(heap).heap_size(),
            final(heap).live_blocks() == old(heap).live_blocks(),
            final(heap).free_blocks() == old(heap).free_blocks(),
            (old(heap).heap_start() == 0 || old(heap).heap_offset() + increment < 0 || old(heap).heap_offset()
                + increment > old(heap).heap_size()) ==> r == -1 && final(heap).heap_offset() == old(
                heap,
            ).heap_offset(),
            !(old(heap).heap_start() == 0 || old(heap).heap_offset() + increment < 0 || old(heap).heap_offset()
                + increment > old(heap).heap_size()) ==> r == ((old(heap).heap_start() + old(heap).heap_offset()) as u64) as i64
                && final(heap).heap_offset() == old(heap).heap_offset() + increment,
    {
        match heap.sbrk(increment) {
            None => -1,
            Some(p) => p as i64,
        }
    }

    /// Dispatches call `syscall_number` with its arguments; an unknown
    /// number is answered with `ENOSYS`.
    pub fn handle(&self, heap: &mut LinkAllocator, syscall_number: u64, arg1: i64, arg2: i64, arg3: i64) -> (r: (
        i64,
        SyscallAction,
    ))
        requires
            self.wf(),
            old(heap).sound(),
            syscall_number == 5 ==> old(heap).heap_offset() + arg1 <= i64::MAX,
        ensures
            final(heap).sound(),
            syscall_of(syscall_number) is None ==> r == (ENOSYS, SyscallAction::Nothing) && *final(heap) == *old(heap),
            syscall_of(syscall_number) == Some(Syscall::PlotPoint) ==> r == plot_outcome(self.fb, arg1, arg2, arg3)
                && *final(heap) == *old(heap),
            syscall_of(syscall_number) == Some(Syscall::FramebufferInfo) ==> r == (
                info_outcome(self.fb, arg1),
                SyscallAction::Nothing,
            ) && *final(heap) == *old(heap),
            syscall_of(syscall_number) == Some(Syscall::Print) ==> r == (0i64, print_outcome(arg1, arg2))
                && *final(heap) == *old(heap),
            syscall_of(syscall_number) == Some(Syscall::Sbrk) ==> r.1 == SyscallAction::Nothing && ({
                let h0 = old(heap);
                let fails = h0.heap_start() == 0 || h0.heap_offset() + arg1 < 0 || h0.heap_offset() + arg1
                    > h0.heap_size();
                &&& fails ==> r.0 == -1 && final(heap).heap_offset() == h0.heap_offset()
                &&& !fails ==> r.0 == ((h0.heap_start() + h0.heap_offset()) as u64) as i64
                    && final(heap).heap_offset() == h0.heap_offset() + arg1
                &&& final(heap).live_blocks() == h0.live_blocks()
            }),
    {
        match Syscall::from_u64(syscall_number) {
            Some(Syscall::PlotPoint) => self.plot_point(arg1, arg2, arg3),
            Some(Syscall::FramebufferInfo) => (self.framebuffer_info(arg1), SyscallAction::Nothing),
            Some(Syscall::Print) => self.print(arg1, arg2),
            Some(Syscall::Sbrk) => (self.sbrk(heap, arg1), SyscallAction::Nothing),
            None => (ENOSYS, SyscallAction::Nothing),
        }
    }
}

} // verus!
