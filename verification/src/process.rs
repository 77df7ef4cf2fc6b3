//! The process table: process control blocks with their threads, file
//! descriptors and life-cycle state.
use vstd::prelude::*;

verus! {

/// Thread identifiers.
pub type ThreadId = u64;

#[derive(Debug, Clone, Copy, PartialEq, Eq, Structural)]
pub enum ProcessState {
    Running,
    Zombie,
    Dead,
}

/// The stream a descriptor is bound to.
pub const D_STDIN: u32 = 0;
pub const D_STDOUT: u32 = 1;
pub const D_STDERR: u32 = 2;

/// A file descriptor: its number and the stream it is bound to.
#[derive(Debug, Clone, Copy, PartialEq, Eq, Structural)]
pub struct FD {
    pub num: u32,
    pub device: u32,
}

impl FD {
    pub fn new(num: u32, device: u32) -> (r: Self)
        ensures
            r.num == num,
            r.device == device,
    {
        FD { num, device }
    }
}

pub struct PCB {
    pub pid: u64,
    pub cr3: u64,
    pub fd_table: Vec<FD>,
    pub threads: Vec<ThreadId>,
    pub state: ProcessState,
    pub parent: Option<u64>,
}

/// A process control block as a value.
pub struct PcbView {
    pub pid: u64,
    pub cr3: u64,
    pub fds: Seq<FD>,
    pub threads: Seq<ThreadId>,
    pub state: ProcessState,
    pub parent: Option<u64>,
}

impl PCB {
    pub open spec fn view(&self) -> PcbView {
        PcbView {
            pid: self.pid,
            cr3: self.cr3,
            fds: self.fd_table@,
            threads: self.threads@,
            state: self.state,
            parent: self.parent,
        }
    }
}

/// The three standard descriptors every new process starts with.
pub open spec fn std_fds() -> Seq<FD> {
    seq![FD { num: 0, device: D_STDIN }, FD { num: 1, device: D_STDOUT }, FD { num: 2, device: D_STDERR }]
}

/// The global process list and the next process id to hand out.
pub struct ProcessTable {
    next_pid: u64,
    list: Vec<PCB>,
}

/// `t` with every occurrence of `tid` removed.
pub open spec fn without(t: Seq<ThreadId>, tid: ThreadId) -> Seq<ThreadId> {
    t.filter(|x: ThreadId| x != tid)
}

/// `i` is the first position of `s` holding process `pid`.
pub open spec fn first_with_pid(s: Seq<PcbView>, pid: u64, i: int) -> bool {
    &&& 0 <= i < s.len()
    &&& s[i].pid == pid
    &&& forall|k: int| 0 <= k < i ==> s[k].pid != pid
}

/// The processes of `s` that are not dead, in order.
pub open spec fn live(s: Seq<PcbView>) -> Seq<PcbView> {
    s.filter(|p: PcbView| p.state != ProcessState::Dead)
}

impl ProcessTable {
    pub closed spec fn view(&self) -> Seq<PcbView> {
        self.list@.map_values(|p: PCB| p@)
    }

    /// The control block at position `i`.
    pub closed spec fn pcb_at(&self, i: int) -> PCB {
        self.list@[i]
    }

    pub closed spec fn next_pid(&self) -> u64 {
        self.next_pid
    }

    /// Every pid is in `[1, next_pid)` and no pid occurs twice.
    pub open spec fn wf(&self) -> bool {
        &&& self.next_pid() >= 1
        &&& forall|i: int| 0 <= i < self@.len() ==> 1 <= #[trigger] self@[i].pid < self.next_pid()
        &&& forall|i: int, j: int| 0 <= i < j < self@.len() ==> #[trigger] self@[i].pid != #[trigger] self@[j].pid
    }

    /// The position of the first process with id `pid`, if any.
    pub open spec fn index_of(&self, pid: u64) -> Option<int> {
        if exists|i: int| first_with_pid(self@, pid, i) {
            Some(choose|i: int| first_with_pid(self@, pid, i))
        } else {
            None
        }
    }

    pub open spec fn has(&self, pid: u64) -> bool {
        self.index_of(pid) is Some
    }

    /// The block of process `pid`.
    pub open spec fn get(&self, pid: u64) -> PcbView
        recommends
            self.has(pid),
    {
        self@[self.index_of(pid)->0]
    }

    pub fn new() -> (r: Self)
        ensures
            r@ == Seq::<PcbView>::empty(),
            r.next_pid() == 1,
            r.wf(),
    {
        let r = ProcessTable { next_pid: 1, list: Vec::new() };
        assert(r@ =~= Seq::<PcbView>::empty());
        r
    }

    /// The first position holding `pid` is the one `index_of` names.
    proof fn lemma_index_of(&self, pid: u64, i: int)
        requires
            first_with_pid(self@, pid, i),
        ensures
            self.index_of(pid) == Some(i),
    {
        let c = choose|k: int| first_with_pid(self@, pid, k);
        if c < i {
            assert(self@[c].pid != pid);
        } else if c > i {
            assert(self@[i].pid != pid);
        }
    }

    fn find(&self, pid: u64) -> (r: Option<usize>)
        ensures
            match r {
                Some(i) => i < self@.len() && self.index_of(pid) == Some(i as int),
                None => self.index_of(pid) is None,
            },
    {
        let mut i: usize = 0;
        while i < self.list.len()
            invariant
                i <= self.list@.len(),
                self@.len() == self.list@.len(),
                forall|k: int| 0 <= k < i ==> self@[k].pid != pid,
            decreases self.list@.len() - i,
        {
            if self.list[i].pid == pid {
                proof { self.lemma_index_of(pid, i as int); }
                return Some(i);
            }
            i = i + 1;
        }
        proof {
            if exists|k: int| first_with_pid(self@, pid, k) {
                let k = choose|k: int| first_with_pid(self@, pid, k);
                assert(self@[k].pid == pid);
            }
        }
        None
    }

    /// Registers a new process whose top-level page table is `pml4` (the
    /// outcome of creating it); the process id is consumed even when no page
    /// table could be made.
    pub fn new_process(&mut self, parent: Option<u64>, pml4: Option<u64>) -> (r: Option<u64>)
        requires
            old(self).wf(),
            old(self).next_pid() < u64::MAX,
        ensures
            final(self).wf(),
            final(self).next_pid() == old(self).next_pid() + 1,
            pml4 is None ==> r is None && final(self)@ == old(self)@,
            pml4 matches Some(cr3) ==> r == Some(old(self).next_pid()) && final(self)@ == old(self)@.push(
                PcbView {
                    pid: old(self).next_pid(),
                    cr3,
                    fds: std_fds(),
                    threads: Seq::empty(),
                    state: ProcessState::Running,
                    parent,
                },
            ),
    {
        let pid = self.next_pid;
        self.next_pid = self.next_pid + 1;
        let cr3 = match pml4 {
            Some(c) => c,
            None => {
                return None;
            },
        };
        let mut fd_table: Vec<FD> = Vec::new();
        fd_table.push(FD::new(0, D_STDIN));
        fd_table.push(FD::new(1, D_STDOUT));
        fd_table.push(FD::new(2, D_STDERR));
        let ghost before = self@;
        self.list.push(PCB { pid, cr3, fd_table, threads: Vec::new(), state: ProcessState::Running, parent });
        proof {
            assert(fd_table@ =~= std_fds());
            assert(self@ =~= before.push(self.list@.last()@));
            assert(self.list@.last().threads@ =~= Seq::<ThreadId>::empty());
            assert forall|a: int, b: int| 0 <= a < b < self@.len() implies #[trigger] self@[a].pid != #[trigger] self@[b].pid by {
                if b == self@.len() - 1 {
                    assert(before[a].pid < pid);
                } else {
                    assert(before[a].pid != before[b].pid);
                }
            }
            assert forall|a: int| 0 <= a < self@.len() implies 1 <= #[trigger] self@[a].pid < self.next_pid() by {
                if a < before.len() {
                    assert(before[a].pid < pid);
                }
            }
        }
        Some(pid)
    }

    /// Number of live processes: those in the table that are not dead.
    pub fn get_process_count(&self) -> (r: usize)
        ensures
            r == live(self@).len(),
    {
        let mut count: usize = 0;
        let mut i: usize = 0;
        while i < self.list.len()
            invariant
                i <= self.list@.len(),
                self@.len() == self.list@.len(),
                count == live(self@.take(i as int)).len(),
                count <= i,
            decreases self.list@.len() - i,
        {
            proof {
                assert(self@.take(i + 1).drop_last() =~= self@.take(i as int));
                assert(self@.take(i + 1).last() == self@[i as int]);
                reveal_with_fuel(Seq::filter, 1);
            }
            if self.list[i].state != ProcessState::Dead {
                count = count + 1;
            }
            i = i + 1;
        }
        assert(self@.take(i as int) =~= self@);
        count
    }

    /// Calls `f` on the block of process `pid`; `None` if there is none.
    pub fn with_process<R, F: FnOnce(&PCB) -> R>(&self, pid: u64, f: F) -> (r: Option<R>)
        requires
            forall|p: &PCB| call_requires(f, (p,)),
        ensures
            self.index_of(pid) is None ==> r is None,
            self.index_of(pid) matches Some(i) ==> (r matches Some(v) && call_ensures(
                f,
                (&self.pcb_at(i),),
                v,
            )),
    {
        match self.find(pid) {
            None => None,
            Some(i) => Some(f(&self.list[i])),
        }
    }

    /// Lets `f` update the first block of process `pid`: `f` is handed the
    /// block and gives back the block to keep and a result; `None`, with `f`
    /// not called, if there is no such process. A table stays well formed
    /// when `f` keeps the pid.
    pub fn with_process_mut<R, F: FnOnce(PCB) -> (PCB, R)>(&mut self, pid: u64, f: F) -> (r: Option<R>)
        requires
            forall|p: PCB| call_requires(f, (p,)),
        ensures
            final(self).next_pid() == old(self).next_pid(),
            old(self).index_of(pid) is None ==> r is None && final(self)@ == old(self)@,
            old(self).index_of(pid) matches Some(i) ==> exists|out: (PCB, R)|
                #![trigger call_ensures(f, (old(self).pcb_at(i),), out)]
                call_ensures(f, (old(self).pcb_at(i),), out) && r == Some(out.1) && final(self)@ == old(self)@.update(
                    i,
                    out.0@,
                ) && (old(self).wf() && out.0.pid == pid ==> final(self).wf()),
    {
        match self.find(pid) {
            None => None,
            Some(i) => {
                let ghost before = self@;
                let ghost pcb = self.pcb_at(i as int);
                let old_pcb = self.list.remove(i);
                assert(old_pcb == pcb);
                let (new_pcb, result) = f(old_pcb);
                let ghost out = (new_pcb, result);
                self.list.insert(i, new_pcb);
                assert(self@ =~= before.update(i as int, out.0@));
                assert(call_ensures(f, (pcb,), out));
                Some(result)
            },
        }
    }

    /// Appends `tid` to the threads of process `pid`.
    pub fn add_thread_to_process(&mut self, pid: u64, tid: ThreadId)
        requires
            old(self).wf(),
        ensures
            final(self).wf(),
            final(self).next_pid() == old(self).next_pid(),
            old(self).index_of(pid) is None ==> final(self)@ == old(self)@,
            old(self).index_of(pid) matches Some(i) ==> final(self)@ == old(self)@.update(
                i,
                PcbView { threads: old(self)@[i].threads.push(tid), ..old(self)@[i] },
            ),
    {
        if let Some(i) = self.find(pid) {
            let ghost before = self@;
            self.list[i].threads.push(tid);
            assert(self@ =~= before.update(i as int, PcbView { threads: before[i as int].threads.push(tid), ..before[i as int] }));
        }
    }

    /// Removes `tid` from process `pid`; a process left with no threads
    /// becomes a zombie.
    pub fn remove_thread_from_process(&mut self, pid: u64, tid: ThreadId)
        requires
            old(self).wf(),
        ensures
            final(self).wf(),
            final(self).next_pid() == old(self).next_pid(),
            old(self).index_of(pid) is None ==> final(self)@ == old(self)@,
            old(self).index_of(pid) matches Some(i) ==> final(self)@ == old(self)@.update(
                i,
                PcbView {
                    threads: without(old(self)@[i].threads, tid),
                    state: if without(old(self)@[i].threads, tid).len() == 0 {
                        ProcessState::Zombie
                    } else {
                        old(self)@[i].state
                    },
                    ..old(self)@[i]
                },
            ),
    {
        if let Some(i) = self.find(pid) {
            let ghost before = self@;
            let kept = retain_other(&self.list[i].threads, tid);
            self.list[i].threads = kept;
            if self.list[i].threads.len() == 0 {
                self.list[i].state = ProcessState::Zombie;
            }
            assert(self@ =~= before.update(
                i as int,
                PcbView {
                    threads: without(before[i as int].threads, tid),
                    state: if without(before[i as int].threads, tid).len() == 0 {
                        ProcessState::Zombie
                    } else {
                        before[i as int].state
                    },
                    ..before[i as int]
                },
            ));
        }
    }

    /// Whether process `pid` has no threads; a missing process counts as
    /// threadless.
    pub fn is_threadless(&self, pid: u64) -> (r: bool)
        requires
            self.wf(),
        ensures
            r == match self.index_of(pid) {
                Some(i) => self@[i].threads.len() == 0,
                None => true,
            },
    {
        match self.find(pid) {
            Some(i) => self.list[i].threads.len() == 0,
            None => true,
        }
    }

    /// Marks a zombie process dead; any other state is left alone.
    pub fn reap_process(&mut self, pid: u64)
        requires
            old(self).wf(),
        ensures
            final(self).wf(),
            final(self).next_pid() == old(self).next_pid(),
            old(self).index_of(pid) is None ==> final(self)@ == old(self)@,
            old(self).index_of(pid) matches Some(i) ==> final(self)@ == old(self)@.update(
                i,
                PcbView {
                    state: if old(self)@[i].state == ProcessState::Zombie {
                        ProcessState::Dead
                    } else {
                        old(self)@[i].state
                    },
                    ..old(self)@[i]
                },
            ),
    {
        if let Some(i) = self.find(pid) {
            let ghost before = self@;
            if self.list[i].state == ProcessState::Zombie {
                self.list[i].state = ProcessState::Dead;
            }
            assert(self@ =~= before.update(
                i as int,
                PcbView {
                    state: if before[i as int].state == ProcessState::Zombie {
                        ProcessState::Dead
                    } else {
                        before[i as int].state
                    },
                    ..before[i as int]
                },
            ));
        }
    }

    /// Drops every dead process from the table, keeping the others in order.
    pub fn collect_dead_processes(&mut self)
        requires
            old(self).wf(),
        ensures
            final(self).wf(),
            final(self).next_pid() == old(self).next_pid(),
            final(self)@ == live(old(self)@),
    {
        let ghost orig = self@;
        let ghost mut k: int = 0;
        let mut i: usize = 0;
        while i < self.list.len()
            invariant
                self.next_pid() == old(self).next_pid(),
                orig == old(self)@,
                old(self).wf(),
                0 <= i <= k <= orig.len(),
                i <= self@.len(),
                self@.len() == self.list@.len(),
                self@.take(i as int) == live(orig.take(k)),
                self@.skip(i as int) == orig.skip(k),
                self@.len() - i == orig.len() - k,
            decreases self.list@.len() - i,
        {
            proof {
                assert(orig.take(k + 1).drop_last() =~= orig.take(k));
                assert(self@.skip(i as int)[0] == self@[i as int]);
                assert(orig.skip(k)[0] == orig[k]);
                assert(self@[i as int] == orig[k]);
                assert(orig.take(k + 1).last() == orig[k]);
                reveal_with_fuel(Seq::filter, 1);
            }
            if self.list[i].state == ProcessState::Dead {
                let ghost before = self@;
                let _ = self.list.remove(i);
                proof {
                    assert(self@ =~= before.remove(i as int));
                    assert(self@.take(i as int) =~= before.take(i as int));
                    assert(self@.skip(i as int) =~= before.skip(i as int + 1));
                    assert(orig.skip(k + 1) =~= orig.skip(k).drop_first());
                    assert(before.skip(i as int + 1) =~= before.skip(i as int).drop_first());
                    k = k + 1;
                }
            } else {
                proof {
                    assert(self@.take(i + 1) =~= self@.take(i as int).push(self@[i as int]));
                    assert(orig.skip(k + 1) =~= orig.skip(k).drop_first());
                    assert(self@.skip(i + 1) =~= self@.skip(i as int).drop_first());
                    k = k + 1;
                }
                i = i + 1;
            }
        }
        proof {
            assert(orig.skip(k).len() == 0);
            assert(k == orig.len());
            assert(orig.take(k) =~= orig);
            assert(self@.take(i as int) =~= self@);
            lemma_live_sub(orig);
            assert forall|a: int, b: int| 0 <= a < b < self@.len() implies #[trigger] self@[a].pid != #[trigger] self@[b].pid by {
                lemma_live_order(orig, a, b);
            }
        }
    }
}

/// Marking a zombie dead lowers the number of live processes by one.
pub proof fn law_reaping_zombie_lowers_live_count(s: Seq<PcbView>, i: int)
    requires
        0 <= i < s.len(),
        s[i].state == ProcessState::Zombie,
    ensures
        live(s.update(i, PcbView { state: ProcessState::Dead, ..s[i] })).len() + 1 == live(s).len(),
    decreases s.len(),
{
    reveal_with_fuel(Seq::filter, 1);
    let d = PcbView { state: ProcessState::Dead, ..s[i] };
    let t = s.update(i, d);
    if i == s.len() - 1 {
        assert(t.drop_last() =~= s.drop_last());
    } else {
        law_reaping_zombie_lowers_live_count(s.drop_last(), i);
        assert(t.drop_last() =~= s.drop_last().update(i, d));
        assert(t.last() == s.last());
    }
}

/// Dropping the dead processes leaves the live ones as they were, so the
/// live count does not change.
pub proof fn law_collecting_keeps_live(s: Seq<PcbView>)
    ensures
        live(live(s)) == live(s),
    decreases s.len(),
{
    reveal_with_fuel(Seq::filter, 1);
    if s.len() > 0 {
        law_collecting_keeps_live(s.drop_last());
        if s.last().state != ProcessState::Dead {
            let x = live(s.drop_last());
            assert(x.push(s.last()).drop_last() =~= x);
        }
    }
}

/// Everything kept by `live` is an element of the list it filters.
proof fn lemma_live_sub(s: Seq<PcbView>)
    ensures
        forall|i: int| 0 <= i < live(s).len() ==> s.contains(#[trigger] live(s)[i]),
    decreases s.len(),
{
    reveal_with_fuel(Seq::filter, 1);
    if s.len() > 0 {
        lemma_live_sub(s.drop_last());
        assert forall|i: int| 0 <= i < live(s).len() implies s.contains(#[trigger] live(s)[i]) by {
            if i < live(s.drop_last()).len() {
                let x = live(s.drop_last())[i];
                assert(s.drop_last().contains(x));
                let w = choose|w: int| 0 <= w < s.drop_last().len() && s.drop_last()[w] == x;
                assert(s[w] == x);
            } else {
                assert(live(s)[i] == s.last());
                assert(s[s.len() - 1] == s.last());
            }
        }
    }
}

/// Two kept elements come from two distinct positions of the list it filters,
/// in the same order.
proof fn lemma_live_order(s: Seq<PcbView>, a: int, b: int)
    requires
        0 <= a < b < live(s).len(),
    ensures
        exists|x: int, y: int| 0 <= x < y < s.len() && s[x] == live(s)[a] && s[y] == live(s)[b],
    decreases s.len(),
{
    reveal_with_fuel(Seq::filter, 1);
    let t = s.drop_last();
    if b < live(t).len() {
        lemma_live_order(t, a, b);
        let (x, y) = choose|x: int, y: int| 0 <= x < y < t.len() && t[x] == live(t)[a] && t[y] == live(t)[b];
        assert(s[x] == t[x] && s[y] == t[y]);
    } else {
        lemma_live_sub(t);
        assert(live(s)[b] == s.last());
        assert(live(s)[a] == live(t)[a]);
        assert(t.contains(live(t)[a]));
        let x = choose|x: int| 0 <= x < t.len() && t[x] == live(t)[a];
        assert(s[x] == t[x]);
        assert(s[s.len() - 1] == s.last());
    }
}

/// The thread ids of `t` other than `tid`, in order.
fn retain_other(t: &Vec<ThreadId>, tid: ThreadId) -> (r: Vec<ThreadId>)
    ensures
        r@ == without(t@, tid),
{
    let mut out: Vec<ThreadId> = Vec::new();
    let mut i: usize = 0;
    while i < t.len()
        invariant
            i <= t@.len(),
            out@ == without(t@.take(i as int), tid),
        decreases t@.len() - i,
    {
        proof {
            assert(t@.take(i + 1).drop_last() =~= t@.take(i as int));
            assert(t@.take(i + 1).last() == t@[i as int]);
            reveal_with_fuel(Seq::filter, 1);
        }
        if t[i] != tid {
            out.push(t[i]);
        }
        i = i + 1;
    }
    assert(t@.take(t@.len() as int) =~= t@);
    out
}

} // verus!
