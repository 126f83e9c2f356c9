//! The task control block: scheduling status, program break and per-task
//! system-call statistics, plus the decisions behind byte access and mapping.
use std::collections::BTreeMap;
use vstd::prelude::*;
use crate::memory::{page_offset, AddrRange, FramedArea, MapPermission, PageTableEntry, PAGE_SIZE};

verus! {

broadcast use {vstd::std_specs::btree::group_btree_axioms, vstd::laws_cmp::group_laws_cmp};

/// Task status: uninitialised, ready to run, running, or exited.
#[derive(PartialEq, Eq, Structural, Debug, Clone, Copy)]
pub enum TaskStatus {
    UnInit,
    Ready,
    Running,
    Exited,
}

/// A program-break change to apply to the address space: the heap area that
/// starts at `heap_bottom` is shrunk (`shrink`) or grown to end at `new_brk`.
#[derive(PartialEq, Eq, Structural, Debug, Clone, Copy)]
pub struct BrkRequest {
    pub shrink: bool,
    pub heap_bottom: usize,
    pub new_brk: usize,
}

/// The task control block.
pub struct TaskControlBlock {
    /// Scheduling status.
    pub task_status: TaskStatus,
    /// Top of the program as loaded (the initial user stack pointer).
    pub base_size: usize,
    /// Bottom of the heap.
    pub heap_bottom: usize,
    /// Current program break.
    pub program_brk: usize,
    /// Number of calls of each system call.
    pub syscall_stats: BTreeMap<usize, usize>,
}

/// Number of calls recorded for `id`.
pub open spec fn stat_count(stats: Map<usize, usize>, id: usize) -> nat {
    if stats.contains_key(id) {
        stats[id] as nat
    } else {
        0
    }
}

/// The statistics after one more call of `id`.
pub open spec fn recorded(stats: Map<usize, usize>, id: usize) -> Map<usize, usize> {
    stats.insert(id, (stat_count(stats, id) + 1) as usize)
}

/// The statistics after recording the calls `ids` in order.
pub open spec fn record_all(stats: Map<usize, usize>, ids: Seq<usize>) -> Map<usize, usize>
    decreases ids.len(),
{
    if ids.len() == 0 {
        stats
    } else {
        recorded(record_all(stats, ids.drop_last()), ids.last())
    }
}

/// Number of times `j` occurs in `ids`.
pub open spec fn occurrences(ids: Seq<usize>, j: usize) -> nat
    decreases ids.len(),
{
    if ids.len() == 0 {
        0
    } else {
        occurrences(ids.drop_last(), j) + if ids.last() == j {
            1nat
        } else {
            0nat
        }
    }
}

/// The byte that reading `virt_addr` gives, `frame` being the frame named by `pte`.
pub open spec fn byte_read(virt_addr: usize, pte: Option<PageTableEntry>, frame: Seq<u8>) -> Option<u8> {
    if readable_entry(pte) {
        Some(frame[(virt_addr % PAGE_SIZE) as int])
    } else {
        None
    }
}

/// The frame after writing `data` at `virt_addr`, `frame` being the frame named by `pte`.
pub open spec fn frame_after_write(virt_addr: usize, data: u8, pte: Option<PageTableEntry>, frame: Seq<u8>) -> Seq<u8> {
    if writable_entry(pte) {
        frame.update((virt_addr % PAGE_SIZE) as int, data)
    } else {
        frame
    }
}

/// The program break after adding `size` to `brk`.
pub open spec fn brk_target(brk: usize, size: i32) -> int {
    brk + size
}

/// Permission granted to a mapping by its `port` argument, if the value is known.
pub open spec fn port_permission(port: usize) -> Option<MapPermission> {
    if port == 0 {
        Some(MapPermission { read: false, write: false, execute: false, user: false })
    } else if port == 1 {
        Some(MapPermission { read: true, write: false, execute: false, user: false })
    } else if port == 2 {
        Some(MapPermission { read: true, write: true, execute: false, user: false })
    } else if port == 3 {
        Some(MapPermission { read: true, write: false, execute: true, user: false })
    } else if port == 4 {
        Some(MapPermission { read: true, write: true, execute: true, user: false })
    } else {
        None
    }
}

/// The entry translates to a frame that may be read.
pub open spec fn readable_entry(pte: Option<PageTableEntry>) -> bool {
    pte matches Some(e) && e.valid && e.readable
}

/// The entry translates to a frame that may be written.
pub open spec fn writable_entry(pte: Option<PageTableEntry>) -> bool {
    pte matches Some(e) && e.valid && e.writable
}

impl TaskControlBlock {
    /// The heap lies between its bottom and the break, and the break fits in an `isize`.
    pub open spec fn wf(&self) -> bool {
        self.heap_bottom <= self.program_brk <= isize::MAX
    }

    /// A new ready task whose program ends at `user_sp`: the heap is empty and
    /// starts there, and no system call has been counted.
    pub fn new(user_sp: usize) -> (tcb: Self)
        ensures
            tcb.task_status == TaskStatus::Ready,
            tcb.base_size == user_sp,
            tcb.heap_bottom == user_sp,
            tcb.program_brk == user_sp,
            tcb.syscall_stats@ == Map::<usize, usize>::empty(),
            user_sp <= isize::MAX ==> tcb.wf(),
    {
        TaskControlBlock {
            task_status: TaskStatus::Ready,
            base_size: user_sp,
            heap_bottom: user_sp,
            program_brk: user_sp,
            syscall_stats: BTreeMap::new(),
        }
    }

    /// The address-space change that moving the break by `size` asks for, or
    /// `None` when the break would fall below the heap bottom.
    pub fn brk_request(&self, size: i32) -> (r: Option<BrkRequest>)
        requires
            self.wf(),
            brk_target(self.program_brk, size) <= isize::MAX,
        ensures
            match r {
                Some(req) => {
                    &&& brk_target(self.program_brk, size) >= self.heap_bottom
                    &&& req == (BrkRequest {
                        shrink: size < 0,
                        heap_bottom: self.heap_bottom,
                        new_brk: brk_target(self.program_brk, size) as usize,
                    })
                },
                None => brk_target(self.program_brk, size) < self.heap_bottom,
            },
    {
        let new_brk: i64 = self.program_brk as i64 + size as i64;
        if new_brk < self.heap_bottom as i64 {
            return None;
        }
        Some(BrkRequest { shrink: size < 0, heap_bottom: self.heap_bottom, new_brk: new_brk as usize })
    }

    /// Moves the program break by `size` and returns the old break.  Fails with
    /// `None` (nothing changes) when the break would fall below the heap bottom,
    /// or when the address space could not be resized (`area_resized` is the
    /// outcome of the change that [`Self::brk_request`] asked for).
    pub fn change_program_brk(&mut self, size: i32, area_resized: bool) -> (r: Option<usize>)
        requires
            old(self).wf(),
            brk_target(old(self).program_brk, size) <= isize::MAX,
        ensures
            final(self).wf(),
            final(self).task_status == old(self).task_status,
            final(self).base_size == old(self).base_size,
            final(self).heap_bottom == old(self).heap_bottom,
            final(self).syscall_stats == old(self).syscall_stats,
            if brk_target(old(self).program_brk, size) >= old(self).heap_bottom && area_resized {
                &&& r == Some(old(self).program_brk)
                &&& final(self).program_brk == brk_target(old(self).program_brk, size)
            } else {
                &&& r is None
                &&& final(self).program_brk == old(self).program_brk
            },
            r is Some ==> final(self).program_brk as int == old(self).program_brk as int + size as int,
            r is Some <==> (area_resized && old(self).program_brk as int + size as int >= old(self).heap_bottom as int),
    {
        let old_break = self.program_brk;
        match self.brk_request(size) {
            None => None,
            Some(req) => {
                if area_resized {
                    self.program_brk = req.new_brk;
                    Some(old_break)
                } else {
                    None
                }
            },
        }
    }

    /// Counts one more call of system call `syscall_id`.
    pub fn record_syscall(&mut self, syscall_id: usize)
        requires
            stat_count(old(self).syscall_stats@, syscall_id) < usize::MAX,
        ensures
            final(self).syscall_stats@ == recorded(old(self).syscall_stats@, syscall_id),
            final(self).task_status == old(self).task_status,
            final(self).base_size == old(self).base_size,
            final(self).heap_bottom == old(self).heap_bottom,
            final(self).program_brk == old(self).program_brk,
    {
        let c = self.get_syscall_count(syscall_id);
        self.syscall_stats.insert(syscall_id, c + 1);
    }

    /// Number of calls of system call `syscall_id` counted so far.
    pub fn get_syscall_count(&self, syscall_id: usize) -> (r: usize)
        ensures
            r == stat_count(self.syscall_stats@, syscall_id),
    {
        match self.syscall_stats.get(&syscall_id) {
            Some(c) => *c,
            None => 0,
        }
    }

    /// Reads the byte at `virt_addr`, given `pte`, the translation of its page,
    /// and `frame`, the bytes of the frame that `pte` names.  `None` when the
    /// page is not mapped readable.
    pub fn read_a_byte(&self, virt_addr: usize, pte: Option<PageTableEntry>, frame: &[u8]) -> (r:
        Option<u8>)
        requires
            readable_entry(pte) ==> frame@.len() == PAGE_SIZE,
        ensures
            r == byte_read(virt_addr, pte, frame@),
    {
        let offset = page_offset(virt_addr);
        if let Some(e) = pte {
            if e.valid && e.readable {
                return Some(frame[offset]);
            }
        }
        None
    }

    /// Writes `data` at `virt_addr`, given `pte`, the translation of its page,
    /// and `frame`, the bytes of the frame that `pte` names.  Returns `false`
    /// (nothing written) when the page is not mapped writable.
    pub fn write_a_byte(
        &self,
        virt_addr: usize,
        data: u8,
        pte: Option<PageTableEntry>,
        frame: &mut [u8],
    ) -> (r: bool)
        requires
            writable_entry(pte) ==> old(frame)@.len() == PAGE_SIZE,
        ensures
            r == writable_entry(pte),
            final(frame)@ == frame_after_write(virt_addr, data, pte, old(frame)@),
            final(frame)@.len() == old(frame)@.len(),
            forall|j: int|
                0 <= j < old(frame)@.len() && j != (virt_addr % PAGE_SIZE) as int ==> #[trigger] final(frame)@[j]
                    == old(frame)@[j],
            r ==> final(frame)@[(virt_addr % PAGE_SIZE) as int] == data,
            !r ==> final(frame)@ == old(frame)@,
    {
        let offset = page_offset(virt_addr);
        if let Some(e) = pte {
            if e.valid && e.writable {
                frame[offset] = data;
                return true;
            }
        }
        false
    }

    /// The area to map for `[addr, addr + len)` with the permission named by
    /// `port`, or `Err(-1)` when `port` names none.
    pub fn task_mmap(&self, addr: usize, len: usize, port: usize) -> (r: Result<FramedArea, isize>)
        requires
            addr + len <= usize::MAX,
        ensures
            r == match port_permission(port) {
                Some(perm) => Ok(FramedArea { start: addr, end: (addr + len) as usize, perm }),
                None => Err(-1isize),
            },
            port > 4 ==> r == Err::<FramedArea, isize>(-1isize),
            r matches Ok(area) ==> area.start == addr && area.end == addr + len && !area.perm.user,
    {
        let addr_end = addr + len;
        let (read, write, execute) = if port == 0 {
            (false, false, false)
        } else if port == 1 {
            (true, false, false)
        } else if port == 2 {
            (true, true, false)
        } else if port == 3 {
            (true, false, true)
        } else if port == 4 {
            (true, true, true)
        } else {
            return Err(-1);
        };
        Ok(FramedArea { start: addr, end: addr_end, perm: MapPermission { read, write, execute, user: false } })
    }

    /// The range to unmap for `[addr, addr + len)`.
    pub fn task_unmap(&self, addr: usize, len: usize) -> (r: AddrRange)
        requires
            addr + len <= usize::MAX,
        ensures
            r == (AddrRange { start: addr, end: (addr + len) as usize }),
    {
        AddrRange { start: addr, end: addr + len }
    }
}

/// The new break is the old break moved by exactly `size` bytes.
pub proof fn law_brk_moves_by_size(brk: usize, size: i32)
    ensures
        brk_target(brk, size) == brk as int + size as int,
        size >= 0 ==> brk_target(brk, size) >= brk,
        size < 0 ==> brk_target(brk, size) < brk,
{
}

/// A write changes only the addressed byte of a writable page, to `data`, and
/// nothing at all otherwise; the frame keeps its size.
pub proof fn law_write_touches_one_byte(
    virt_addr: usize,
    data: u8,
    pte: Option<PageTableEntry>,
    frame: Seq<u8>,
    j: int,
)
    requires
        frame.len() == PAGE_SIZE,
    ensures
        frame_after_write(virt_addr, data, pte, frame).len() == frame.len(),
        0 <= j < frame.len() && j != (virt_addr % PAGE_SIZE) as int ==> frame_after_write(
            virt_addr,
            data,
            pte,
            frame,
        )[j] == frame[j],
        pte matches Some(e) && e.valid && e.writable ==> frame_after_write(virt_addr, data, pte, frame)[(
        virt_addr % PAGE_SIZE) as int] == data,
        !(pte matches Some(e) && e.valid && e.writable) ==> frame_after_write(virt_addr, data, pte, frame)
            == frame,
{
}

/// A read gives the addressed byte of a readable page, and nothing otherwise.
pub proof fn law_read_gives_addressed_byte(virt_addr: usize, pte: Option<PageTableEntry>, frame: Seq<u8>)
    ensures
        pte matches Some(e) && e.valid && e.readable ==> byte_read(virt_addr, pte, frame) == Some(
            frame[(virt_addr % PAGE_SIZE) as int],
        ),
        !(pte matches Some(e) && e.valid && e.readable) ==> byte_read(virt_addr, pte, frame) is None,
{
}

/// The `port` argument of a mapping names: 0 no access, 1 read, 2 read and
/// write, 3 read and execute, 4 read, write and execute; any other value names
/// nothing.  No mapping is reachable from user mode by this permission alone.
pub proof fn law_port_table(port: usize)
    ensures
        port > 4 <==> port_permission(port) is None,
        port_permission(port) matches Some(p) ==> !p.user,
        port == 0 ==> port_permission(port) == Some(
            MapPermission { read: false, write: false, execute: false, user: false },
        ),
        port == 1 ==> port_permission(port) == Some(
            MapPermission { read: true, write: false, execute: false, user: false },
        ),
        port == 2 ==> port_permission(port) == Some(
            MapPermission { read: true, write: true, execute: false, user: false },
        ),
        port == 3 ==> port_permission(port) == Some(
            MapPermission { read: true, write: false, execute: true, user: false },
        ),
        port == 4 ==> port_permission(port) == Some(
            MapPermission { read: true, write: true, execute: true, user: false },
        ),
{
}

/// Moving the break by `size` and then by `-size` brings it back where it was.
pub proof fn law_brk_round_trip(brk: usize, size: i32)
    requires
        size != i32::MIN,
        0 <= brk_target(brk, size) <= usize::MAX,
    ensures
        brk_target(brk_target(brk, size) as usize, (-size) as i32) == brk,
{
}

/// Counting a call raises that call's count by one and leaves every other count.
pub proof fn law_record_then_count(stats: Map<usize, usize>, id: usize, other: usize)
    requires
        stat_count(stats, id) < usize::MAX,
    ensures
        stat_count(recorded(stats, id), id) == stat_count(stats, id) + 1,
        other != id ==> stat_count(recorded(stats, other), id) == stat_count(stats, id),
{
}

/// Starting from no statistics, after the calls `ids` have been recorded in
/// order, the count of every system call is the number of times it was called.
pub proof fn law_count_after_records(ids: Seq<usize>, j: usize)
    requires
        ids.len() < usize::MAX,
    ensures
        stat_count(record_all(Map::empty(), ids), j) == occurrences(ids, j),
    decreases ids.len(),
{
    if ids.len() > 0 {
        let last = ids.last();
        law_count_after_records(ids.drop_last(), j);
        law_count_after_records(ids.drop_last(), last);
        lemma_occurrences_bound(ids.drop_last(), last);
    }
}

proof fn lemma_occurrences_bound(ids: Seq<usize>, j: usize)
    ensures
        occurrences(ids, j) <= ids.len(),
    decreases ids.len(),
{
    if ids.len() > 0 {
        lemma_occurrences_bound(ids.drop_last(), j);
    }
}

/// A byte written to a page mapped readable and writable reads back as written.
pub proof fn law_write_then_read(
    virt_addr: usize,
    data: u8,
    pte: Option<PageTableEntry>,
    frame: Seq<u8>,
)
    requires
        readable_entry(pte),
        writable_entry(pte),
        frame.len() == PAGE_SIZE,
    ensures
        byte_read(virt_addr, pte, frame_after_write(virt_addr, data, pte, frame)) == Some(data),
{
}

} // verus!
