//! The priority round-robin process scheduler: a table of process slots,
//! a time quantum, sleeping processes woken by the tick count, and the
//! choice of the next process to run.
use vstd::prelude::*;
use crate::thread::Priority;

verus! {

/// Ticks a process runs before it is preempted.
pub const QUANTUM_TICKS: u64 = 25;

/// The higher half direct map offset used to turn a page table's virtual
/// address into its physical address.
pub const HHDM_OFFSET: u64 = 0xFFFF_8000_0000_0000;

#[derive(Debug, Clone, Copy, PartialEq, Eq, Structural)]
pub enum SchedState {
    Ready,
    Running,
    Blocked,
    Sleeping,
    Terminated,
}

/// A schedulable process. Addresses are kept as integers.
#[derive(Debug, Clone, Copy)]
pub struct Process {
    pub pid: u64,
    pub rsp: u64,
    pub stack_base: u64,
    pub entry: u64,
    pub pml4: u64,
    pub state: SchedState,
    pub priority: Priority,
    pub ticks_ready: u64,
    pub wake_at_tick: u64,
}

/// What the interrupt path must do after a decision: resume on `rsp` and,
/// if given, load the page table at physical address `cr3` unless it is
/// already loaded.
#[derive(Debug, Clone, Copy, PartialEq, Eq, Structural)]
pub struct SwitchOutcome {
    pub rsp: u64,
    pub cr3: Option<u64>,
}

/// The physical address of a page table given by its address: addresses in
/// the direct map are translated, others taken as physical.
pub open spec fn pml4_phys(pml4: u64) -> u64 {
    if pml4 >= HHDM_OFFSET {
        (pml4 - HHDM_OFFSET) as u64
    } else {
        pml4
    }
}

/// The physical address `load_cr3` loads for the page table `pml4`.
pub fn pml4_to_phys(pml4: u64) -> (r: u64)
    ensures
        r == pml4_phys(pml4),
{
    if pml4 >= HHDM_OFFSET {
        pml4 - HHDM_OFFSET
    } else {
        pml4
    }
}

/// Whether the page table at physical `phys` is already the one in `cr3`
/// (whose low flag bits are ignored).
pub fn cr3_matches(current_cr3: u64, phys: u64) -> (r: bool)
    ensures
        r == (current_cr3 & 0x000F_FFFF_FFFF_F000 == phys),
{
    current_cr3 & 0x000F_FFFF_FFFF_F000 == phys
}

/// The position `j + 1` places after `o` in a ring of `n` (for `o < n`, `j < n`).
pub open spec fn ring(o: int, j: int, n: int) -> int {
    if o + 1 + j >= n {
        o + 1 + j - n
    } else {
        o + 1 + j
    }
}

/// Slot `i` holds a ready process.
pub open spec fn ready_at(s: Seq<Option<Process>>, i: int) -> bool {
    s[i] matches Some(p) && p.state == SchedState::Ready
}

/// The priority of the process in slot `i`.
pub open spec fn prio_at(s: Seq<Option<Process>>, i: int) -> u8 {
    s[i]->0.priority.0
}

/// Offset `j` (after `cur`) is the first ready slot of the highest priority
/// among the ready slots.
pub open spec fn best_offset(s: Seq<Option<Process>>, cur: int, j: int) -> bool {
    let n = s.len() as int;
    &&& 0 <= j < n
    &&& ready_at(s, ring(cur, j, n))
    &&& forall|k: int| 0 <= k < n && ready_at(s, #[trigger] ring(cur, k, n)) ==> prio_at(s, ring(cur, k, n)) <= prio_at(s, ring(cur, j, n))
    &&& forall|k: int| 0 <= k < j && ready_at(s, #[trigger] ring(cur, k, n)) ==> prio_at(s, ring(cur, k, n)) < prio_at(s, ring(cur, j, n))
}

/// The slot `find_next_ready` picks, if any.
pub open spec fn next_ready(s: Seq<Option<Process>>, cur: int, allow_idle: bool) -> Option<int> {
    if exists|j: int| best_offset(s, cur, j) {
        let j = choose|j: int| best_offset(s, cur, j);
        if !allow_idle && prio_at(s, ring(cur, j, s.len() as int)) == 0 {
            None
        } else {
            Some(ring(cur, j, s.len() as int))
        }
    } else {
        None
    }
}

pub proof fn lemma_best_offset_unique(s: Seq<Option<Process>>, cur: int, a: int, b: int)
    requires
        best_offset(s, cur, a),
        best_offset(s, cur, b),
    ensures
        a == b,
{
    let n = s.len() as int;
    if a < b {
        assert(prio_at(s, ring(cur, a, n)) < prio_at(s, ring(cur, b, n)));
        assert(prio_at(s, ring(cur, a, n)) <= prio_at(s, ring(cur, b, n)));
        assert(prio_at(s, ring(cur, b, n)) <= prio_at(s, ring(cur, a, n)));
    } else if b < a {
        assert(prio_at(s, ring(cur, b, n)) < prio_at(s, ring(cur, a, n)));
        assert(prio_at(s, ring(cur, a, n)) <= prio_at(s, ring(cur, b, n)));
    }
}

/// The process slots with the scheduler's state.
pub struct ProcessScheduler {
    processes: Vec<Option<Process>>,
    current: usize,
    current_ticks: u64,
    quantum_remaining: u64,
    enabled: bool,
}

impl ProcessScheduler {
    pub closed spec fn view(&self) -> Seq<Option<Process>> {
        self.processes@
    }

    pub closed spec fn current(&self) -> usize {
        self.current
    }

    pub closed spec fn current_ticks(&self) -> u64 {
        self.current_ticks
    }

    pub closed spec fn quantum_remaining(&self) -> u64 {
        self.quantum_remaining
    }

    pub closed spec fn enabled(&self) -> bool {
        self.enabled
    }

    /// The current slot is in the table (when there is one).
    pub open spec fn wf(&self) -> bool {
        if self@.len() > 0 {
            self.current() < self@.len()
        } else {
            self.current() == 0
        }
    }

    /// An empty, disabled scheduler.
    pub fn new() -> (r: Self)
        ensures
            r@ == Seq::<Option<Process>>::empty(),
            r.current() == 0,
            r.current_ticks() == 0,
            r.quantum_remaining() == QUANTUM_TICKS,
            !r.enabled(),
            r.wf(),
    {
        ProcessScheduler {
            processes: Vec::new(),
            current: 0,
            current_ticks: 0,
            quantum_remaining: QUANTUM_TICKS,
            enabled: false,
        }
    }

    /// Adds a process slot.
    pub fn add_slot(&mut self, p: Option<Process>)
        requires
            old(self).wf(),
        ensures
            final(self).wf(),
            final(self)@ == old(self)@.push(p),
            final(self).current() == old(self).current(),
            final(self).current_ticks() == old(self).current_ticks(),
            final(self).quantum_remaining() == old(self).quantum_remaining(),
            final(self).enabled() == old(self).enabled(),
    {
        self.processes.push(p);
    }

    /// Starts with slot 0 running and a full quantum; does nothing on an
    /// empty table.
    pub fn init_scheduler(&mut self)
        requires
            old(self).wf(),
        ensures
            final(self).wf(),
            old(self)@.len() == 0 ==> final(self)@ == old(self)@ && final(self).current() == old(self).current()
                && final(self).quantum_remaining() == old(self).quantum_remaining(),
            old(self)@.len() > 0 ==> final(self).current() == 0 && final(self).quantum_remaining() == QUANTUM_TICKS
                && final(self)@ == match old(self)@[0] {
                Some(p) => old(self)@.update(0, Some(Process { state: SchedState::Running, ..p })),
                None => old(self)@,
            },
            final(self).current_ticks() == old(self).current_ticks(),
            final(self).enabled() == old(self).enabled(),
    {
        if self.processes.len() == 0 {
            return;
        }
        self.current = 0;
        self.quantum_remaining = QUANTUM_TICKS;
        if let Some(mut p) = self.processes[0] {
            p.state = SchedState::Running;
            self.processes.set(0, Some(p));
        }
    }

    pub fn enable_scheduler(&mut self)
        ensures
            final(self).enabled(),
            final(self)@ == old(self)@,
            final(self).current() == old(self).current(),
            final(self).current_ticks() == old(self).current_ticks(),
            final(self).quantum_remaining() == old(self).quantum_remaining(),
    {
        self.enabled = true;
    }

    pub fn disable_scheduler(&mut self)
        ensures
            !final(self).enabled(),
            final(self)@ == old(self)@,
            final(self).current() == old(self).current(),
            final(self).current_ticks() == old(self).current_ticks(),
            final(self).quantum_remaining() == old(self).quantum_remaining(),
    {
        self.enabled = false;
    }

    /// The first ready slot of the highest priority, looking from the slot
    /// after `current` round to `current` itself; when `allow_idle` is false
    /// a choice of idle priority counts as none.
    pub fn find_next_ready(&self, current: usize, allow_idle: bool) -> (r: Option<usize>)
        requires
            self@.len() > 0 ==> current < self@.len(),
        ensures
            match r {
                Some(i) => next_ready(self@, current as int, allow_idle) == Some(i as int),
                None => next_ready(self@, current as int, allow_idle) is None,
            },
    {
        let count = self.processes.len();
        let ghost s = self@;
        let mut best_idx: Option<usize> = None;
        let ghost mut best_j: int = -1;
        let mut best_priority: u8 = 0;
        let mut j: usize = 0;
        while j < count
            invariant
                count == s.len(),
                s == self@,
                count > 0 ==> current < count,
                j <= count,
                best_idx is None ==> best_priority == 0 && best_j == -1
                    && forall|k: int| 0 <= k < j ==> !ready_at(s, #[trigger] ring(current as int, k, count as int)),
                best_idx matches Some(b) ==> {
                    &&& 0 <= best_j < j
                    &&& b == ring(current as int, best_j, count as int)
                    &&& ready_at(s, b as int)
                    &&& best_priority == prio_at(s, b as int)
                    &&& forall|k: int| 0 <= k < j && ready_at(s, #[trigger] ring(current as int, k, count as int))
                        ==> prio_at(s, ring(current as int, k, count as int)) <= best_priority
                    &&& forall|k: int| 0 <= k < best_j && ready_at(s, #[trigger] ring(current as int, k, count as int))
                        ==> prio_at(s, ring(current as int, k, count as int)) < best_priority
                },
            decreases count - j,
        {
            let idx = if j >= count - 1 - current { j - (count - 1 - current) } else { current + 1 + j };
            if let Some(p) = &self.processes[idx] {
                if p.state == SchedState::Ready {
                    if p.priority.0 > best_priority {
                        best_priority = p.priority.0;
                        best_idx = Some(idx);
                        proof { best_j = j as int; }
                        if best_priority == 255 {
                            proof {
                                assert forall|k: int| 0 <= k < count && ready_at(s, #[trigger] ring(current as int, k, count as int))
                                    implies prio_at(s, ring(current as int, k, count as int)) <= prio_at(s, idx as int) by {
                                }
                                assert(best_offset(s, current as int, j as int));
                                let c = choose|x: int| best_offset(s, current as int, x);
                                lemma_best_offset_unique(s, current as int, c, j as int);
                            }
                            return Some(idx);
                        }
                    } else if p.priority.0 == best_priority && best_idx.is_none() {
                        best_idx = Some(idx);
                        proof { best_j = j as int; }
                    }
                }
            }
            j = j + 1;
        }
        proof {
            match best_idx {
                Some(b) => {
                    assert(best_offset(s, current as int, best_j));
                    let c = choose|x: int| best_offset(s, current as int, x);
                    lemma_best_offset_unique(s, current as int, c, best_j);
                },
                None => {
                    assert forall|x: int| !best_offset(s, current as int, x) by {
                        if best_offset(s, current as int, x) {
                            assert(ready_at(s, ring(current as int, x, count as int)));
                        }
                    }
                },
            }
        }
        if best_priority == 0 && !allow_idle {
            return None;
        }
        best_idx
    }
}

/// The slots after the current process `cur` is suspended on stack `rsp`
/// (running becomes ready) and the process in slot `next` is made running.
pub open spec fn switched(s: Seq<Option<Process>>, cur: int, rsp: u64, next: int) -> Seq<Option<Process>> {
    let s1 = match s[cur] {
        Some(p) => s.update(
            cur,
            Some(
                Process {
                    rsp,
                    state: if p.state == SchedState::Running {
                        SchedState::Ready
                    } else {
                        p.state
                    },
                    ..p
                },
            ),
        ),
        None => s,
    };
    s1.update(next, Some(Process { state: SchedState::Running, ..s1[next]->0 }))
}

/// The slots after waking every sleeping process whose wake-up tick is at
/// or before `t`.
pub open spec fn woken(s: Seq<Option<Process>>, t: u64) -> Seq<Option<Process>> {
    s.map_values(
        |o: Option<Process>|
            match o {
                Some(p) => if p.state == SchedState::Sleeping && t >= p.wake_at_tick {
                    Some(Process { state: SchedState::Ready, ..p })
                } else {
                    o
                },
                None => o,
            },
    )
}

/// The decision `schedule(rsp)` takes on `s0` (current slot `cur`, quantum
/// `q`): the new slots, current slot, quantum and outcome.
pub open spec fn schedule_spec(s: Seq<Option<Process>>, cur: int, q: u64, rsp: u64) -> (
    Seq<Option<Process>>,
    int,
    u64,
    SwitchOutcome,
) {
    let stay = SwitchOutcome { rsp, cr3: None };
    match s[cur] {
        Some(p) => if p.state == SchedState::Running {
            let q1: u64 = if q > 0 { (q - 1) as u64 } else { q };
            if q1 == 0 {
                match next_ready(s, cur, true) {
                    Some(k) => {
                        let s2 = switched(s, cur, rsp, k);
                        (s2, k, QUANTUM_TICKS, SwitchOutcome { rsp: s2[k]->0.rsp, cr3: Some(pml4_phys(s2[k]->0.pml4)) })
                    },
                    None => (s, cur, QUANTUM_TICKS, stay),
                }
            } else {
                (s, cur, q1, stay)
            }
        } else if p.state == SchedState::Ready {
            (s, cur, q, stay)
        } else {
            match next_ready(s, cur, true) {
                Some(k) => {
                    let s2 = switched(s, cur, rsp, k);
                    (s2, k, QUANTUM_TICKS, SwitchOutcome { rsp: s2[k]->0.rsp, cr3: Some(pml4_phys(s2[k]->0.pml4)) })
                },
                None => (s, cur, q, stay),
            }
        },
        None => (s, cur, q, stay),
    }
}

impl ProcessScheduler {
    fn switch_to(&mut self, current: usize, current_rsp: u64, next: usize) -> (r: SwitchOutcome)
        requires
            old(self).wf(),
            current < old(self)@.len(),
            next < old(self)@.len(),
            ready_at(old(self)@, next as int),
        ensures
            final(self).wf(),
            final(self)@ == switched(old(self)@, current as int, current_rsp, next as int),
            final(self).current() == next,
            r == (SwitchOutcome {
                rsp: final(self)@[next as int]->0.rsp,
                cr3: Some(pml4_phys(final(self)@[next as int]->0.pml4)),
            }),
            final(self).current_ticks() == old(self).current_ticks(),
            final(self).quantum_remaining() == old(self).quantum_remaining(),
            final(self).enabled() == old(self).enabled(),
    {
        if let Some(mut p) = self.processes[current] {
            p.rsp = current_rsp;
            if p.state == SchedState::Running {
                p.state = SchedState::Ready;
            }
            self.processes.set(current, Some(p));
        }
        let mut p = match self.processes[next] {
            Some(p) => p,
            None => {
                assert(false);
                return SwitchOutcome { rsp: current_rsp, cr3: None };
            },
        };
        p.state = SchedState::Running;
        self.processes.set(next, Some(p));
        self.current = next;
        let phys = pml4_to_phys(p.pml4);
        SwitchOutcome { rsp: p.rsp, cr3: Some(phys) }
    }

    fn schedule(&mut self, current_rsp: u64) -> (r: SwitchOutcome)
        requires
            old(self).wf(),
            old(self)@.len() > 0,
        ensures
            final(self).wf(),
            (final(self)@, final(self).current() as int, final(self).quantum_remaining(), r) == schedule_spec(
                old(self)@,
                old(self).current() as int,
                old(self).quantum_remaining(),
                current_rsp,
            ),
            final(self).current_ticks() == old(self).current_ticks(),
            final(self).enabled() == old(self).enabled(),
    {
        let current = self.current;
        let stay = SwitchOutcome { rsp: current_rsp, cr3: None };
        let state = match self.processes[current] {
            Some(p) => p.state,
            None => {
                return stay;
            },
        };
        if state == SchedState::Running {
            if self.quantum_remaining > 0 {
                self.quantum_remaining = self.quantum_remaining - 1;
            }
            if self.quantum_remaining == 0 {
                match self.find_next_ready(current, true) {
                    Some(next) => {
                        proof { lemma_next_ready_is_ready(self@, current as int, true); }
                        self.quantum_remaining = QUANTUM_TICKS;
                        return self.switch_to(current, current_rsp, next);
                    },
                    None => {
                        self.quantum_remaining = QUANTUM_TICKS;
                    },
                }
            }
            stay
        } else if state == SchedState::Ready {
            stay
        } else {
            match self.find_next_ready(current, true) {
                Some(next) => {
                    proof { lemma_next_ready_is_ready(self@, current as int, true); }
                    self.quantum_remaining = QUANTUM_TICKS;
                    self.switch_to(current, current_rsp, next)
                },
                None => stay,
            }
        }
    }

    /// One timer tick: when enabled, counts the tick, wakes the sleepers that
    /// are due and takes a scheduling decision.
    pub fn handle_timer_interrupt(&mut self, current_rsp: u64) -> (r: SwitchOutcome)
        requires
            old(self).wf(),
            old(self)@.len() > 0,
            old(self).current_ticks() < u64::MAX,
        ensures
            final(self).wf(),
            final(self).enabled() == old(self).enabled(),
            !old(self).enabled() ==> r == (SwitchOutcome { rsp: current_rsp, cr3: None })
                && final(self)@ == old(self)@ && final(self).current() == old(self).current()
                && final(self).current_ticks() == old(self).current_ticks()
                && final(self).quantum_remaining() == old(self).quantum_remaining(),
            old(self).enabled() ==> final(self).current_ticks() == old(self).current_ticks() + 1
                && (final(self)@, final(self).current() as int, final(self).quantum_remaining(), r)
                == schedule_spec(
                woken(old(self)@, (old(self).current_ticks() + 1) as u64),
                old(self).current() as int,
                old(self).quantum_remaining(),
                current_rsp,
            ),
    {
        if !self.enabled {
            return SwitchOutcome { rsp: current_rsp, cr3: None };
        }
        self.current_ticks = self.current_ticks + 1;
        let t = self.current_ticks;
        let ghost s0 = self@;
        let mut i: usize = 0;
        while i < self.processes.len()
            invariant
                self.wf(),
                s0.len() == self@.len(),
                i <= self@.len(),
                self.current_ticks() == t,
                self.current() == old(self).current(),
                self.quantum_remaining() == old(self).quantum_remaining(),
                self.enabled() == old(self).enabled(),
                forall|k: int| 0 <= k < i ==> self@[k] == woken(s0, t)[k],
                forall|k: int| i <= k < self@.len() ==> self@[k] == s0[k],
            decreases self@.len() - i,
        {
            if let Some(mut p) = self.processes[i] {
                if p.state == SchedState::Sleeping && t >= p.wake_at_tick {
                    p.state = SchedState::Ready;
                    self.processes.set(i, Some(p));
                }
            }
            i = i + 1;
        }
        assert(self@ =~= woken(s0, t));
        self.schedule(current_rsp)
    }

    /// Marks the current process ready and empties its quantum; the caller
    /// then raises the scheduling interrupt.
    pub fn yield_process(&mut self)
        requires
            old(self).wf(),
            old(self)@.len() > 0,
        ensures
            final(self).wf(),
            final(self)@ == match old(self)@[old(self).current() as int] {
                Some(p) => old(self)@.update(old(self).current() as int, Some(Process { state: SchedState::Ready, ..p })),
                None => old(self)@,
            },
            final(self).quantum_remaining() == 0,
            final(self).current() == old(self).current(),
            final(self).current_ticks() == old(self).current_ticks(),
            final(self).enabled() == old(self).enabled(),
    {
        let c = self.current;
        if let Some(mut p) = self.processes[c] {
            p.state = SchedState::Ready;
            self.processes.set(c, Some(p));
        }
        self.quantum_remaining = 0;
    }

    /// Marks the current process blocked; the caller then raises the
    /// scheduling interrupt.
    pub fn block_current(&mut self)
        requires
            old(self).wf(),
            old(self)@.len() > 0,
        ensures
            final(self).wf(),
            final(self)@ == match old(self)@[old(self).current() as int] {
                Some(p) => old(self)@.update(old(self).current() as int, Some(Process { state: SchedState::Blocked, ..p })),
                None => old(self)@,
            },
            final(self).quantum_remaining() == old(self).quantum_remaining(),
            final(self).current() == old(self).current(),
            final(self).current_ticks() == old(self).current_ticks(),
            final(self).enabled() == old(self).enabled(),
    {
        let c = self.current;
        if let Some(mut p) = self.processes[c] {
            p.state = SchedState::Blocked;
            self.processes.set(c, Some(p));
        }
    }

    /// Makes the first process with id `pid` ready again if it is blocked.
    pub fn unblock_process(&mut self, pid: u64)
        requires
            old(self).wf(),
        ensures
            final(self).wf(),
            (forall|i: int| 0 <= i < old(self)@.len() ==> !has_pid(old(self)@, i, pid))
                ==> final(self)@ == old(self)@,
            forall|i: int| first_pid(old(self)@, pid, i) ==> final(self)@ == old(self)@.update(
                i,
                Some(Process {
                    state: if old(self)@[i]->0.state == SchedState::Blocked {
                        SchedState::Ready
                    } else {
                        old(self)@[i]->0.state
                    },
                    ..old(self)@[i]->0
                }),
            ),
            final(self).quantum_remaining() == old(self).quantum_remaining(),
            final(self).current() == old(self).current(),
            final(self).current_ticks() == old(self).current_ticks(),
            final(self).enabled() == old(self).enabled(),
    {
        let mut i: usize = 0;
        while i < self.processes.len()
            invariant
                *self == *old(self),
                self.wf(),
                i <= self@.len(),
                forall|k: int| 0 <= k < i ==> !has_pid(self@, k, pid),
            decreases self@.len() - i,
        {
            if let Some(mut p) = self.processes[i] {
                if p.pid == pid {
                    proof {
                        assert forall|x: int| first_pid(old(self)@, pid, x) implies x == i by {
                            if x < i {
                                assert(!has_pid(self@, x, pid));
                            } else if x > i {
                                assert(!has_pid(old(self)@, i as int, pid));
                            }
                        }
                    }
                    assert(has_pid(old(self)@, i as int, pid));
                    if p.state == SchedState::Blocked {
                        p.state = SchedState::Ready;
                    }
                    self.processes.set(i, Some(p));
                    return;
                }
            }
            i = i + 1;
        }
    }

    /// Puts the current process to sleep for `ticks` ticks.
    pub fn sleep_current(&mut self, ticks: u64)
        requires
            old(self).wf(),
            old(self)@.len() > 0,
            old(self).current_ticks() + ticks <= u64::MAX,
        ensures
            final(self).wf(),
            final(self)@ == match old(self)@[old(self).current() as int] {
                Some(p) => old(self)@.update(
                    old(self).current() as int,
                    Some(Process {
                        wake_at_tick: (old(self).current_ticks() + ticks) as u64,
                        state: SchedState::Sleeping,
                        ..p
                    }),
                ),
                None => old(self)@,
            },
            final(self).quantum_remaining() == old(self).quantum_remaining(),
            final(self).current() == old(self).current(),
            final(self).current_ticks() == old(self).current_ticks(),
            final(self).enabled() == old(self).enabled(),
    {
        let c = self.current;
        if let Some(mut p) = self.processes[c] {
            p.wake_at_tick = self.current_ticks + ticks;
            p.state = SchedState::Sleeping;
            self.processes.set(c, Some(p));
        }
    }

    /// Puts the current process to sleep for `ms` milliseconds at
    /// `ticks_per_sec` timer ticks per second (at least one tick); the caller
    /// then raises the scheduling interrupt until it is woken.
    pub fn sleep_proc_ms(&mut self, ms: u64, ticks_per_sec: u64)
        requires
            old(self).wf(),
            old(self)@.len() > 0,
            ms * ticks_per_sec + 999 <= u64::MAX,
            old(self).current_ticks() + sleep_ticks(ms, ticks_per_sec, 1000) <= u64::MAX,
        ensures
            final(self).wf(),
            final(self)@ == match old(self)@[old(self).current() as int] {
                Some(p) => old(self)@.update(
                    old(self).current() as int,
                    Some(Process {
                        wake_at_tick: (old(self).current_ticks() + sleep_ticks(ms, ticks_per_sec, 1000)) as u64,
                        state: SchedState::Sleeping,
                        ..p
                    }),
                ),
                None => old(self)@,
            },
            final(self).current() == old(self).current(),
            final(self).current_ticks() == old(self).current_ticks(),
    {
        let ticks = ticks_for(ms, ticks_per_sec, 1000);
        self.sleep_current(ticks);
    }

    /// As `sleep_proc_ms`, for `us` microseconds.
    pub fn sleep_proc_us(&mut self, us: u64, ticks_per_sec: u64)
        requires
            old(self).wf(),
            old(self)@.len() > 0,
            us * ticks_per_sec + 999_999 <= u64::MAX,
            old(self).current_ticks() + sleep_ticks(us, ticks_per_sec, 1_000_000) <= u64::MAX,
        ensures
            final(self).wf(),
            final(self)@ == match old(self)@[old(self).current() as int] {
                Some(p) => old(self)@.update(
                    old(self).current() as int,
                    Some(Process {
                        wake_at_tick: (old(self).current_ticks() + sleep_ticks(us, ticks_per_sec, 1_000_000)) as u64,
                        state: SchedState::Sleeping,
                        ..p
                    }),
                ),
                None => old(self)@,
            },
            final(self).current() == old(self).current(),
            final(self).current_ticks() == old(self).current_ticks(),
    {
        let ticks = ticks_for(us, ticks_per_sec, 1_000_000);
        self.sleep_current(ticks);
    }

    /// Whether the current slot holds a sleeping process (the sleeper keeps
    /// raising the scheduling interrupt while this holds).
    pub fn current_is_sleeping(&self) -> (r: bool)
        requires
            self.wf(),
            self@.len() > 0,
        ensures
            r == (self@[self.current() as int] matches Some(p) && p.state == SchedState::Sleeping),
    {
        match self.processes[self.current] {
            Some(p) => p.state == SchedState::Sleeping,
            None => false,
        }
    }
}

/// Slot `k` holds a process with id `pid`.
pub open spec fn has_pid(s: Seq<Option<Process>>, k: int, pid: u64) -> bool {
    s[k] matches Some(q) && q.pid == pid
}

/// `i` is the first slot holding a process with id `pid`.
pub open spec fn first_pid(s: Seq<Option<Process>>, pid: u64, i: int) -> bool {
    &&& 0 <= i < s.len()
    &&& has_pid(s, i, pid)
    &&& forall|k: int| 0 <= k < i ==> !has_pid(s, k, pid)
}

/// Ticks of a sleep of `amount` units of `1/per` second at `tps` ticks per
/// second: rounded up, and at least one.
pub open spec fn sleep_ticks(amount: u64, tps: u64, per: u64) -> u64 {
    let t = ((amount * tps + (per - 1)) / (per as int)) as u64;
    if t > 1 { t } else { 1 }
}

fn ticks_for(amount: u64, tps: u64, per: u64) -> (r: u64)
    requires
        per >= 1,
        amount * tps + (per - 1) <= u64::MAX,
    ensures
        r == sleep_ticks(amount, tps, per),
{
    assert(amount * tps <= u64::MAX) by (nonlinear_arith)
        requires amount * tps + (per - 1) <= u64::MAX, per >= 1;
    let t = (amount * tps + (per - 1)) / per;
    if t > 1 { t } else { 1 }
}

/// A sleep lasts the number of ticks that first covers the time asked for:
/// at least one tick, enough ticks to cover `amount / per` seconds at `tps`
/// ticks per second, and, when more than one, one tick fewer would fall
/// short.
pub proof fn law_sleep_ticks_rounds_up(amount: u64, tps: u64, per: u64)
    requires
        per >= 1,
        amount * tps + (per - 1) <= u64::MAX,
    ensures
        sleep_ticks(amount, tps, per) >= 1,
        sleep_ticks(amount, tps, per) * per >= amount * tps,
        sleep_ticks(amount, tps, per) > 1 ==> (sleep_ticks(amount, tps, per) - 1) * per < amount * tps,
{
    let x = amount * tps;
    let p = per as int;
    let q = (x + (p - 1)) / p;
    vstd::arithmetic::div_mod::lemma_fundamental_div_mod(x + (p - 1), p);
    vstd::arithmetic::div_mod::lemma_mod_pos_bound(x + (p - 1), p);
    assert(0 <= q <= x + (p - 1)) by (nonlinear_arith)
        requires q == (x + (p - 1)) / p, p >= 1, x >= 0;
    let m = (x + (p - 1)) % p;
    assert(q * p >= x && (q - 1) * p < x + 0) by (nonlinear_arith)
        requires x + (p - 1) == p * q + m, 0 <= m < p, p >= 1;
    let r = sleep_ticks(amount, tps, per);
    if q <= 1 {
        assert(r == 1);
        assert(1 * p >= x) by (nonlinear_arith)
            requires q * p >= x, q <= 1, p >= 1, q >= 0;
    } else {
        assert(r == q);
    }
}

/// A sleep of a whole number of milliseconds lasts as many ticks asked in
/// microseconds as in milliseconds.
pub proof fn law_sleep_us_matches_ms(us: u64, tps: u64)
    requires
        us % 1000 == 0,
        us * tps + 999_999 <= u64::MAX,
    ensures
        sleep_ticks(us, tps, 1_000_000) == sleep_ticks((us / 1000) as u64, tps, 1000),
{
    let ms = (us / 1000) as u64;
    assert(us == 1000 * ms);
    assert(us * tps == 1000 * (ms * tps)) by (nonlinear_arith)
        requires us == 1000 * ms;
    assert(ms * tps + 999 <= u64::MAX) by (nonlinear_arith)
        requires us * tps == 1000 * (ms * tps), us * tps + 999_999 <= u64::MAX, ms * tps >= 0;
    law_sleep_ticks_rounds_up(us, tps, 1_000_000);
    law_sleep_ticks_rounds_up(ms, tps, 1000);
    let r1 = sleep_ticks(us, tps, 1_000_000) as int;
    let r2 = sleep_ticks(ms, tps, 1000) as int;
    let y = ms * tps;
    assert(r1 * 1000 >= y) by (nonlinear_arith)
        requires r1 * 1_000_000 >= 1000 * y;
    assert(r1 > 1 ==> (r1 - 1) * 1000 < y) by (nonlinear_arith)
        requires r1 > 1 ==> (r1 - 1) * 1_000_000 < 1000 * y;
    if r1 < r2 {
        assert(r1 * 1000 < y) by (nonlinear_arith)
            requires r1 < r2, r2 > 1 ==> (r2 - 1) * 1000 < y, r1 >= 1;
    } else if r2 < r1 {
        assert(r2 * 1000 < y) by (nonlinear_arith)
            requires r2 < r1, r1 > 1 ==> (r1 - 1) * 1000 < y, r2 >= 1;
    }
}

proof fn lemma_next_ready_is_ready(s: Seq<Option<Process>>, cur: int, allow_idle: bool)
    requires
        0 <= cur < s.len(),
        next_ready(s, cur, allow_idle) is Some,
    ensures
        0 <= next_ready(s, cur, allow_idle)->0 < s.len(),
        ready_at(s, next_ready(s, cur, allow_idle)->0),
{
}

} // verus!
