//! Thread control blocks, the fixed-size thread table and the round-robin
//! scheduler that the timer interrupt drives.
use vstd::prelude::*;

verus! {

pub type ThreadId = u64;

#[derive(Debug, Clone, Copy, PartialEq, Eq, Structural)]
pub enum ThreadState {
    Ready,
    Running,
    Blocked,
    Sleeping,
    Zombie,
    Dead,
}

/// The callee-saved registers, instruction and stack pointer and flags of a
/// suspended thread.
#[derive(Debug, Clone, Copy)]
pub struct CpuContext {
    pub rbx: u64,
    pub rbp: u64,
    pub r12: u64,
    pub r13: u64,
    pub r14: u64,
    pub r15: u64,
    pub rip: u64,
    pub rsp: u64,
    pub rflags: u64,
}

impl CpuContext {
    /// A context with every register zero except the stack pointer.
    pub fn with_rsp(rsp: u64) -> (r: Self)
        ensures
            r.rsp == rsp,
            r.rbx == 0 && r.rbp == 0 && r.r12 == 0 && r.r13 == 0 && r.r14 == 0 && r.r15 == 0,
            r.rip == 0 && r.rflags == 0,
    {
        CpuContext { rbx: 0, rbp: 0, r12: 0, r13: 0, r14: 0, r15: 0, rip: 0, rsp, rflags: 0 }
    }
}

impl Default for CpuContext {
    fn default() -> (r: Self)
        ensures
            r.rsp == 0 && r.rbx == 0 && r.rbp == 0 && r.r12 == 0 && r.r13 == 0 && r.r14 == 0
                && r.r15 == 0 && r.rip == 0 && r.rflags == 0,
    {
        CpuContext::with_rsp(0)
    }
}

/// A scheduling priority; higher is more urgent.
#[derive(Debug, Clone, Copy, PartialEq, Eq, Structural)]
pub struct Priority(pub u8);

impl Priority {
    pub fn idle() -> (r: Self)
        ensures
            r == Priority(0),
    {
        Priority(0)
    }

    pub fn low() -> (r: Self)
        ensures
            r == Priority(64),
    {
        Priority(64)
    }

    pub fn normal() -> (r: Self)
        ensures
            r == Priority(128),
    {
        Priority(128)
    }

    pub fn high() -> (r: Self)
        ensures
            r == Priority(192),
    {
        Priority(192)
    }

    pub fn realtime() -> (r: Self)
        ensures
            r == Priority(255),
    {
        Priority(255)
    }
}

/// A thread control block. Addresses are kept as integers.
#[derive(Debug, Clone, Copy)]
pub struct TCB {
    pub tid: ThreadId,
    pub stack_size: u64,
    pub stack_base: u64,
    pub stack_top: u64,
    pub cpu_context: CpuContext,
    pub next: u64,
    pub cr3: u64,
    pub state: ThreadState,
    pub priority: Priority,
    pub is_userspace: bool,
    pub kernel_stack_top: u64,
}

/// The capacity of the thread table.
pub const MAX_THREADS: usize = 16;

/// Ticks between two scheduling decisions.
pub const TICKS_PER_SLICE: usize = 10;

/// The kernel code and data selectors and the flags a new kernel thread
/// starts with.
pub const KERNEL_CS: u64 = 0x08;
pub const KERNEL_SS: u64 = 0x10;
pub const INITIAL_RFLAGS: u64 = 0x202;

/// The words of the initial stack of a kernel thread, from its initial stack
/// pointer upward: fifteen saved registers (all zero but `rbx`, which holds
/// the entry point), then the interrupt return frame RIP, CS, RFLAGS, RSP, SS.
pub open spec fn initial_frame(stack_top: u64, entry: u64, wrapper: u64) -> Seq<u64> {
    Seq::new(13, |i: int| 0u64) + seq![entry, 0u64, wrapper, KERNEL_CS, INITIAL_RFLAGS, stack_top, KERNEL_SS]
}

/// Lays out the initial stack of a kernel thread below `stack_top`: returns
/// the initial stack pointer and the twenty words to store from it upward.
/// `wrapper` is the address of the code that enables interrupts and calls
/// the entry point held in `rbx`.
pub fn setup_stack(stack_top: u64, entry: u64, wrapper: u64) -> (r: (u64, Vec<u64>))
    requires
        stack_top >= 160,
    ensures
        r.0 == stack_top - 160,
        r.1@ == initial_frame(stack_top, entry, wrapper),
{
    let mut words: Vec<u64> = Vec::new();
    let mut i: usize = 0;
    while i < 13
        invariant
            i <= 13,
            words@ == Seq::new(i as nat, |k: int| 0u64),
        decreases 13 - i,
    {
        words.push(0);
        i = i + 1;
        assert(words@ =~= Seq::new(i as nat, |k: int| 0u64));
    }
    words.push(entry);
    words.push(0);
    words.push(wrapper);
    words.push(KERNEL_CS);
    words.push(INITIAL_RFLAGS);
    words.push(stack_top);
    words.push(KERNEL_SS);
    assert(words@ =~= initial_frame(stack_top, entry, wrapper));
    (stack_top - 160, words)
}

/// A thread can be switched to: it is ready and has a saved stack.
pub open spec fn eligible(t: TCB) -> bool {
    t.state == ThreadState::Ready && t.cpu_context.rsp != 0
}

/// The position `j + 1` places after `o` in a ring of `n` (for `o < n`, `j < n`).
pub open spec fn ring_next(o: int, j: int, n: int) -> int {
    if o + 1 + j >= n {
        o + 1 + j - n
    } else {
        o + 1 + j
    }
}

/// `j` is the least offset after `o` at which an eligible thread stands.
pub open spec fn first_eligible(s: Seq<TCB>, o: int, j: int) -> bool {
    &&& 0 <= j < s.len()
    &&& eligible(s[ring_next(o, j, s.len() as int)])
    &&& forall|k: int| 0 <= k < j ==> !eligible(#[trigger] s[ring_next(o, k, s.len() as int)])
}

/// The thread `t` suspended with stack pointer `rsp`: running becomes ready.
pub open spec fn suspended(t: TCB, rsp: u64) -> TCB {
    TCB {
        state: if t.state == ThreadState::Running { ThreadState::Ready } else { t.state },
        cpu_context: CpuContext { rsp, ..t.cpu_context },
        ..t
    }
}

/// `t` marked running.
pub open spec fn running(t: TCB) -> TCB {
    TCB { state: ThreadState::Running, ..t }
}

/// What the interrupt path must do after a scheduling decision: resume on
/// stack `rsp`, load `tss_rsp0` into the task state segment if given, and
/// switch to the page table `cr3` if given and not already loaded.
#[derive(Debug, Clone, Copy, PartialEq, Eq, Structural)]
pub struct ScheduleOutcome {
    pub rsp: u64,
    pub tss_rsp0: Option<u64>,
    pub cr3: Option<u64>,
}

/// The thread table with the scheduler's state.
pub struct ThreadTable {
    threads: Vec<TCB>,
    next_tid: u64,
    current_index: usize,
    current_thread: Option<usize>,
    tick_count: usize,
    enabled: bool,
}

impl ThreadTable {
    pub closed spec fn view(&self) -> Seq<TCB> {
        self.threads@
    }

    pub closed spec fn next_tid(&self) -> u64 {
        self.next_tid
    }

    pub closed spec fn current_index(&self) -> usize {
        self.current_index
    }

    pub closed spec fn current_thread(&self) -> Option<usize> {
        self.current_thread
    }

    pub closed spec fn tick_count(&self) -> usize {
        self.tick_count
    }

    pub closed spec fn enabled(&self) -> bool {
        self.enabled
    }

    /// The table never holds more than `MAX_THREADS` threads.
    pub open spec fn wf(&self) -> bool {
        self@.len() <= MAX_THREADS
    }

    pub fn new() -> (r: Self)
        ensures
            r@ == Seq::<TCB>::empty(),
            r.next_tid() == 1,
            r.current_index() == 0,
            r.current_thread() is None,
            r.tick_count() == 0,
            !r.enabled(),
            r.wf(),
    {
        ThreadTable {
            threads: Vec::new(),
            next_tid: 1,
            current_index: 0,
            current_thread: None,
            tick_count: 0,
            enabled: false,
        }
    }

    pub fn enable_scheduler(&mut self)
        ensures
            final(self).enabled(),
            final(self)@ == old(self)@,
            final(self).current_index() == old(self).current_index(),
            final(self).current_thread() == old(self).current_thread(),
            final(self).tick_count() == old(self).tick_count(),
            final(self).next_tid() == old(self).next_tid(),
    {
        self.enabled = true;
    }

    pub fn disable_scheduler(&mut self)
        ensures
            !final(self).enabled(),
            final(self)@ == old(self)@,
            final(self).current_index() == old(self).current_index(),
            final(self).current_thread() == old(self).current_thread(),
            final(self).tick_count() == old(self).tick_count(),
            final(self).next_tid() == old(self).next_tid(),
    {
        self.enabled = false;
    }

    pub fn get_thread_count(&self) -> (r: usize)
        ensures
            r == self@.len(),
    {
        self.threads.len()
    }

    /// The slot of the thread that is running, if one was set.
    pub fn get_current_thread(&self) -> (r: Option<usize>)
        ensures
            r == self.current_thread(),
    {
        self.current_thread
    }

    pub fn set_current_thread(&mut self, tcb: Option<usize>)
        ensures
            final(self).current_thread() == tcb,
            final(self)@ == old(self)@,
            final(self).current_index() == old(self).current_index(),
            final(self).tick_count() == old(self).tick_count(),
            final(self).enabled() == old(self).enabled(),
            final(self).next_tid() == old(self).next_tid(),
    {
        self.current_thread = tcb;
    }

    pub fn set_current_index(&mut self, index: usize)
        ensures
            final(self).current_index() == index,
            final(self)@ == old(self)@,
            final(self).current_thread() == old(self).current_thread(),
            final(self).tick_count() == old(self).tick_count(),
            final(self).enabled() == old(self).enabled(),
            final(self).next_tid() == old(self).next_tid(),
    {
        self.current_index = index;
    }

    pub fn get_current_index(&self) -> (r: usize)
        ensures
            r == self.current_index(),
    {
        self.current_index
    }

    /// Stores `tcb` in the next free slot and returns that slot.
    fn add(&mut self, tcb: TCB) -> (r: usize)
        requires
            old(self).wf(),
            old(self)@.len() < MAX_THREADS,
        ensures
            final(self).wf(),
            r == old(self)@.len(),
            final(self)@ == old(self)@.push(tcb),
            final(self).next_tid() == old(self).next_tid(),
            final(self).current_index() == old(self).current_index(),
            final(self).current_thread() == old(self).current_thread(),
            final(self).tick_count() == old(self).tick_count(),
            final(self).enabled() == old(self).enabled(),
    {
        let index = self.threads.len();
        self.threads.push(tcb);
        index
    }

    /// Registers a new kernel thread whose stack of `stack_size` bytes starts
    /// at `stack_base` and whose initial stack pointer is `rsp` (as laid out
    /// by `setup_stack`); it runs on the kernel page table `kernel_cr3`.
    /// Returns its slot.
    pub fn new_thread(&mut self, stack_base: u64, stack_size: u64, rsp: u64, kernel_cr3: u64) -> (r: usize)
        requires
            old(self).wf(),
            old(self)@.len() < MAX_THREADS,
            stack_base + stack_size <= u64::MAX,
        ensures
            final(self).wf(),
            r == old(self)@.len(),
            final(self).next_tid() == old(self).next_tid().wrapping_add(1),
            final(self)@ == old(self)@.push(TCB {
                tid: old(self).next_tid(),
                stack_size,
                stack_base,
                stack_top: (stack_base + stack_size) as u64,
                cpu_context: final(self)@[r as int].cpu_context,
                next: 0,
                cr3: kernel_cr3,
                state: ThreadState::Ready,
                priority: Priority(128),
                is_userspace: false,
                kernel_stack_top: (stack_base + stack_size) as u64,
            }),
            final(self)@[r as int].cpu_context == CpuContext::with_rsp_spec(rsp),
            final(self).current_index() == old(self).current_index(),
            final(self).current_thread() == old(self).current_thread(),
            final(self).tick_count() == old(self).tick_count(),
            final(self).enabled() == old(self).enabled(),
    {
        let tid = self.next_tid;
        self.next_tid = self.next_tid.wrapping_add(1);
        let stack_top = stack_base + stack_size;
        let tcb = TCB {
            tid,
            stack_size,
            stack_base,
            stack_top,
            cpu_context: CpuContext::with_rsp(rsp),
            next: 0,
            cr3: kernel_cr3,
            state: ThreadState::Ready,
            priority: Priority::normal(),
            is_userspace: false,
            kernel_stack_top: stack_top,
        };
        self.add(tcb)
    }

    /// Registers a new user thread: its kernel stack of `kstack_size` bytes
    /// starts at `kstack_base` and holds the initial frame at `rsp` (which
    /// returns to user mode); it runs on the page table at `pml4_phys`, and
    /// the top of its kernel stack is what the CPU switches to on entry to
    /// the kernel. Returns its slot.
    pub fn spawn_userspace_process(&mut self, kstack_base: u64, kstack_size: u64, rsp: u64, pml4_phys: u64) -> (r: usize)
        requires
            old(self).wf(),
            old(self)@.len() < MAX_THREADS,
            kstack_base + kstack_size <= u64::MAX,
        ensures
            final(self).wf(),
            r == old(self)@.len(),
            final(self).next_tid() == old(self).next_tid().wrapping_add(1),
            final(self)@ == old(self)@.push(TCB {
                tid: old(self).next_tid(),
                stack_size: kstack_size,
                stack_base: kstack_base,
                stack_top: (kstack_base + kstack_size) as u64,
                cpu_context: CpuContext::with_rsp_spec(rsp),
                next: 0,
                cr3: pml4_phys,
                state: ThreadState::Ready,
                priority: Priority(128),
                is_userspace: true,
                kernel_stack_top: (kstack_base + kstack_size) as u64,
            }),
            final(self).current_index() == old(self).current_index(),
            final(self).current_thread() == old(self).current_thread(),
            final(self).tick_count() == old(self).tick_count(),
            final(self).enabled() == old(self).enabled(),
    {
        let tid = self.next_tid;
        self.next_tid = self.next_tid.wrapping_add(1);
        let kstack_top = kstack_base + kstack_size;
        let tcb = TCB {
            tid,
            stack_size: kstack_size,
            stack_base: kstack_base,
            stack_top: kstack_top,
            cpu_context: CpuContext::with_rsp(rsp),
            next: 0,
            cr3: pml4_phys,
            state: ThreadState::Ready,
            priority: Priority::normal(),
            is_userspace: true,
            kernel_stack_top: kstack_top,
        };
        self.add(tcb)
    }

    /// Registers the code already running on the current stack as thread
    /// `tid`: it is running, has high priority and no stack of its own.
    pub fn from_current_stack(&mut self, tid: u64, cr3: u64, rsp: u64) -> (r: usize)
        requires
            old(self).wf(),
            old(self)@.len() < MAX_THREADS,
        ensures
            final(self).wf(),
            r == old(self)@.len(),
            final(self)@.len() == old(self)@.len() + 1,
            final(self)@.take(r as int) == old(self)@,
            final(self)@[r as int].tid == tid,
            final(self)@[r as int].cr3 == cr3,
            final(self)@[r as int].cpu_context == CpuContext::with_rsp_spec(rsp),
            final(self)@[r as int].state == ThreadState::Running,
            final(self)@[r as int].priority == Priority(192),
            final(self)@[r as int].stack_size == 0 && final(self)@[r as int].stack_base == 0
                && final(self)@[r as int].stack_top == 0,
            !final(self)@[r as int].is_userspace && final(self)@[r as int].kernel_stack_top == 0,
            final(self).next_tid() == old(self).next_tid(),
            final(self).current_index() == old(self).current_index(),
            final(self).current_thread() == old(self).current_thread(),
            final(self).tick_count() == old(self).tick_count(),
            final(self).enabled() == old(self).enabled(),
    {
        let tcb = TCB {
            tid,
            stack_size: 0,
            stack_base: 0,
            stack_top: 0,
            cpu_context: CpuContext::with_rsp(rsp),
            next: 0,
            cr3,
            state: ThreadState::Running,
            priority: Priority::high(),
            is_userspace: false,
            kernel_stack_top: 0,
        };
        let r = self.add(tcb);
        assert(self@.take(r as int) =~= old(self)@);
        r
    }

    /// Makes the code on the current stack thread 0 of the kernel and the
    /// current thread.
    pub fn init_kernel_thread(&mut self, kernel_pml4: u64, current_rsp: u64)
        requires
            old(self).wf(),
            old(self)@.len() < MAX_THREADS,
        ensures
            final(self).wf(),
            final(self)@.len() == old(self)@.len() + 1,
            final(self)@.last().tid == 0,
            final(self)@.last().cr3 == kernel_pml4,
            final(self)@.last().cpu_context.rsp == current_rsp,
            final(self)@.last().state == ThreadState::Running,
            final(self).current_thread() == Some(old(self)@.len() as usize),
            final(self).current_index() == 0,
    {
        let slot = self.from_current_stack(0, kernel_pml4, current_rsp);
        self.set_current_thread(Some(slot));
        self.set_current_index(0);
    }

    /// One timer tick of the round-robin scheduler. The current thread is
    /// suspended with `old_rsp`; every `TICKS_PER_SLICE` ticks the first
    /// ready thread with a saved stack after it (in slot order, wrapping, the
    /// current thread last) is switched to. Between slices, or when nothing
    /// is eligible, the current thread keeps running.
    pub fn schedule(&mut self, old_rsp: u64) -> (r: ScheduleOutcome)
        requires
            old(self).wf(),
            old(self).enabled() && old(self)@.len() >= 2 ==> old(self).current_index() < old(self)@.len()
                && old(self).tick_count() < usize::MAX,
        ensures
            final(self).wf(),
            final(self).enabled() == old(self).enabled(),
            final(self).next_tid() == old(self).next_tid(),
            schedule_outcome(old(self), final(self), old_rsp, r),
    {
        let count = self.threads.len();
        if !self.enabled || count < 2 {
            return ScheduleOutcome { rsp: old_rsp, tss_rsp0: None, cr3: None };
        }
        let o = self.current_index;
        let ghost s0 = self@;
        let mut t = self.threads[o];
        if t.state == ThreadState::Running {
            t.state = ThreadState::Ready;
        }
        t.cpu_context.rsp = old_rsp;
        self.threads.set(o, t);
        let ghost s1 = self@;
        assert(s1 == s0.update(o as int, suspended(s0[o as int], old_rsp)));
        let ticks = self.tick_count;
        self.tick_count = ticks + 1;
        if (ticks + 1) % TICKS_PER_SLICE != 0 {
            let mut t = self.threads[o];
            t.state = ThreadState::Running;
            self.threads.set(o, t);
            return ScheduleOutcome { rsp: old_rsp, tss_rsp0: None, cr3: None };
        }
        let mut j: usize = 0;
        let found: bool;
        loop
            invariant_except_break
                count == self@.len(),
                self@ == s1,
                o < count,
                count <= MAX_THREADS,
                j < count,
                forall|k: int| 0 <= k < j ==> !eligible(#[trigger] s1[ring_next(o as int, k, count as int)]),
            ensures
                self@ == s1,
                found ==> first_eligible(s1, o as int, j as int),
                !found ==> forall|k: int| 0 <= k < count ==> !eligible(#[trigger] s1[ring_next(o as int, k, count as int)]),
            decreases count - j,
        {
            let idx = if o + 1 + j >= count { o + 1 + j - count } else { o + 1 + j };
            let cand = &self.threads[idx];
            if cand.state == ThreadState::Ready && cand.cpu_context.rsp != 0 {
                found = true;
                break;
            }
            j = j + 1;
            if j >= count {
                found = false;
                break;
            }
        }
        proof {
            if found {
                let c = choose|x: int| first_eligible(s1, o as int, x);
                lemma_first_eligible_unique(s1, o as int, c, j as int);
            } else {
                assert forall|x: int| !first_eligible(s1, o as int, x) by {
                    if first_eligible(s1, o as int, x) {
                        assert(!eligible(s1[ring_next(o as int, x, count as int)]));
                    }
                }
            }
        }
        if !found {
            let mut t = self.threads[o];
            t.state = ThreadState::Running;
            self.threads.set(o, t);
            return ScheduleOutcome { rsp: old_rsp, tss_rsp0: None, cr3: None };
        }
        let next = if o + 1 + j >= count { o + 1 + j - count } else { o + 1 + j };
        let mut n = self.threads[next];
        n.state = ThreadState::Running;
        self.threads.set(next, n);
        self.current_index = next;
        self.current_thread = Some(next);
        let tss_rsp0 = if n.is_userspace && n.kernel_stack_top != 0 {
            Some(n.kernel_stack_top)
        } else {
            None
        };
        let cr3 = if n.cr3 != 0 { Some(n.cr3) } else { None };
        ScheduleOutcome { rsp: n.cpu_context.rsp, tss_rsp0, cr3 }
    }
}

impl CpuContext {
    pub open spec fn with_rsp_spec(rsp: u64) -> CpuContext {
        CpuContext { rbx: 0, rbp: 0, r12: 0, r13: 0, r14: 0, r15: 0, rip: 0, rsp, rflags: 0 }
    }
}

/// The effect of one `schedule(old_rsp)` call from `t0` to `t1` with result `r`.
pub open spec fn schedule_outcome(t0: &ThreadTable, t1: &ThreadTable, old_rsp: u64, r: ScheduleOutcome) -> bool {
    let n = t0@.len() as int;
    let o = t0.current_index() as int;
    if !t0.enabled() || n < 2 {
        &&& r == ScheduleOutcome { rsp: old_rsp, tss_rsp0: None, cr3: None }
        &&& t1@ == t0@
        &&& t1.current_index() == t0.current_index()
        &&& t1.current_thread() == t0.current_thread()
        &&& t1.tick_count() == t0.tick_count()
    } else {
        let s1 = t0@.update(o, suspended(t0@[o], old_rsp));
        &&& t1.tick_count() == t0.tick_count() + 1
        &&& if (t0.tick_count() + 1) % (TICKS_PER_SLICE as int) != 0 || !(exists|j: int| first_eligible(s1, o, j)) {
            &&& r == ScheduleOutcome { rsp: old_rsp, tss_rsp0: None, cr3: None }
            &&& t1@ == s1.update(o, running(s1[o]))
            &&& t1.current_index() == t0.current_index()
            &&& t1.current_thread() == t0.current_thread()
        } else {
            let k = ring_next(o, choose|j: int| first_eligible(s1, o, j), n);
            let chosen = s1[k];
            &&& t1@ == s1.update(k, running(chosen))
            &&& t1.current_index() == k
            &&& t1.current_thread() == Some(k as usize)
            &&& r.rsp == chosen.cpu_context.rsp
            &&& r.rsp != 0
            &&& r.tss_rsp0 == if chosen.is_userspace && chosen.kernel_stack_top != 0 {
                Some(chosen.kernel_stack_top)
            } else {
                None::<u64>
            }
            &&& r.cr3 == if chosen.cr3 != 0 { Some(chosen.cr3) } else { None::<u64> }
        }
    }
}

/// Two least offsets are the same.
pub proof fn lemma_first_eligible_unique(s: Seq<TCB>, o: int, a: int, b: int)
    requires
        first_eligible(s, o, a),
        first_eligible(s, o, b),
    ensures
        a == b,
{
    if a < b {
        assert(!eligible(s[ring_next(o, a, s.len() as int)]));
    } else if b < a {
        assert(!eligible(s[ring_next(o, b, s.len() as int)]));
    }
}

} // verus!
