//! Decisions of the process-management system calls: reaping children,
//! argument checks of memory mapping, the program break, stride priority and
//! the layout of the time value handed to user space.
use vstd::prelude::*;
use crate::memory::{AddrRange, PAGE_SIZE};
use crate::manager::{is_next_ready, with_status, TaskManager};
use crate::task::{brk_target, TaskControlBlock, TaskStatus};

verus! {

// ---------------------------------------------------------------------------
// waitpid
/// What the parent knows of a child process.
#[derive(PartialEq, Eq, Structural, Debug, Clone, Copy)]
pub struct ChildProcess {
    pub pid: usize,
    /// The child has exited and awaits reaping.
    pub is_zombie: bool,
    pub exit_code: i32,
}

/// Child `child_pid` is one that a wait for `pid` is about (`-1`: any child).
pub open spec fn pid_matches(pid: isize, child_pid: usize) -> bool {
    pid == -1 || pid as usize == child_pid
}

/// A wait for `-1` is about every child; a wait for a non-negative `pid` is
/// about the child with that pid only.
pub proof fn law_pid_matching(pid: isize, child_pid: usize)
    ensures
        pid == -1 ==> pid_matches(pid, child_pid),
        pid >= 0 ==> (pid_matches(pid, child_pid) <==> child_pid == pid),
{
}

/// `i` is the first child that a wait for `pid` can reap.
pub open spec fn first_reapable(children: Seq<ChildProcess>, pid: isize, i: int) -> bool {
    &&& 0 <= i < children.len()
    &&& children[i].is_zombie && pid_matches(pid, children[i].pid)
    &&& forall|q: int|
        0 <= q < i ==> !(#[trigger] children[q].is_zombie && pid_matches(pid, children[q].pid))
}

/// Waits for child `pid` (`-1`: any child).  Returns `-1` when no child matches,
/// `-2` when none of the matching children has exited, and otherwise removes the
/// first exited matching child and returns its pid together with its exit code,
/// to be written to user space.
pub fn sys_waitpid(children: &mut Vec<ChildProcess>, pid: isize) -> (r: (isize, Option<i32>))
    ensures
        !(exists|i: int| 0 <= i < old(children)@.len() && pid_matches(pid, #[trigger] old(children)@[i].pid)) ==> {
            &&& r == (-1isize, None::<i32>)
            &&& final(children)@ == old(children)@
        },
        (exists|i: int| 0 <= i < old(children)@.len() && pid_matches(pid, #[trigger] old(children)@[i].pid)) ==> {
            ||| exists|i: int| {
                &&& #[trigger] first_reapable(old(children)@, pid, i)
                &&& r == (old(children)@[i].pid as isize, Some(old(children)@[i].exit_code))
                &&& final(children)@ == old(children)@.remove(i)
            }
            ||| {
                &&& forall|i: int| 0 <= i < old(children)@.len() ==> !(#[trigger] old(children)@[i].is_zombie && pid_matches(pid, old(children)@[i].pid))
                &&& r == (-2isize, None::<i32>)
                &&& final(children)@ == old(children)@
            }
        },
{
    let mut any = false;
    let mut k: usize = 0;
    while k < children.len()
        invariant
            k <= children@.len(),
            children@ == old(children)@,
            any <==> exists|i: int| 0 <= i < k && pid_matches(pid, #[trigger] children@[i].pid),
        decreases children@.len() - k,
    {
        let hit = pid == -1 || pid as usize == children[k].pid;
        assert(hit == pid_matches(pid, children@[k as int].pid));
        if hit {
            any = true;
        }
        k = k + 1;
    }
    if !any {
        return (-1, None);
    }
    let mut i: usize = 0;
    while i < children.len()
        invariant
            i <= children@.len(),
            children@ == old(children)@,
            forall|q: int| 0 <= q < i ==> !(#[trigger] children@[q].is_zombie && pid_matches(pid, children@[q].pid)),
        decreases children@.len() - i,
    {
        let c = children[i];
        if c.is_zombie && (pid == -1 || pid as usize == c.pid) {
            let child = children.remove(i);
            assert(first_reapable(old(children)@, pid, i as int));
            return (child.pid as isize, Some(child.exit_code));
        }
        i = i + 1;
    }
    (-2, None)
}

/// Records a spawned child and returns its pid: `spawned` is the pid of the
/// task created from the program at the requested path, or `None` when no
/// such program exists, which is refused with `-1`.
pub fn sys_spawn(children: &mut Vec<ChildProcess>, spawned: Option<usize>) -> (r: isize)
    ensures
        match spawned {
            Some(pid) => {
                &&& r == pid as isize
                &&& final(children)@ == old(children)@.push(ChildProcess { pid, is_zombie: false, exit_code: 0 })
            },
            None => r == -1 && final(children)@ == old(children)@,
        },
{
    match spawned {
        Some(pid) => {
            children.push(ChildProcess { pid, is_zombie: false, exit_code: 0 });
            pid as isize
        },
        None => -1,
    }
}

// ---------------------------------------------------------------------------
// yield
/// Gives up the processor: the calling task is marked ready and the first ready
/// task after it in cyclic order runs (the caller itself when no other task is
/// ready).  Replies `0`, with the ids of the tasks to switch between.
pub fn sys_yield(manager: &mut TaskManager) -> (r: (isize, (usize, usize)))
    requires
        old(manager).wf(),
        old(manager).num_app > 0,
    ensures
        final(manager).wf(),
        r.0 == 0,
        ({
            let cur = old(manager).current_task as int;
            let suspended = with_status(old(manager).tasks@, cur, TaskStatus::Ready);
            let (prev, next) = r.1;
            &&& prev == cur
            &&& next < old(manager).num_app
            &&& is_next_ready(suspended, cur, next as int)
            &&& final(manager).current_task == next
            &&& final(manager).tasks@ == with_status(suspended, next as int, TaskStatus::Running)
        }),
{
    let switch = manager.suspend_current_and_run_next();
    (0, switch)
}

// ---------------------------------------------------------------------------
// mmap / munmap
/// A mapping request that passed the argument checks.
#[derive(PartialEq, Eq, Structural, Debug, Clone, Copy)]
pub struct MmapRequest {
    pub start: usize,
    pub end: usize,
    pub len: usize,
    pub prot: usize,
}

/// Checks the arguments of a mapping of `len` bytes at `start` with protection
/// `prot` (bit 0 read, bit 1 write, bit 2 execute).  `Err` carries the reply when
/// the call ends here: `0` for an empty length, `-1` for an unaligned start or a
/// protection that is empty or has other bits; `Ok` is the area to check for
/// overlap and map.
pub fn sys_mmap(start: usize, len: usize, prot: usize) -> (r: Result<MmapRequest, isize>)
    requires
        len != 0 && start % PAGE_SIZE == 0 && 1 <= prot <= 7 ==> start + len <= usize::MAX,
    ensures
        r == if len == 0 {
            Err(0isize)
        } else if start % PAGE_SIZE != 0 {
            Err(-1isize)
        } else if prot > 7 || prot == 0 {
            Err(-1isize)
        } else {
            Ok(MmapRequest { start, end: (start + len) as usize, len, prot })
        },
{
    if len == 0 {
        return Err(0);
    }
    if start % PAGE_SIZE != 0 {
        return Err(-1);
    }
    let high = prot & !0x7usize;
    let low = prot & 0x7usize;
    proof {
        assert((prot & !0x7usize) == 0 <==> prot <= 7) by (bit_vector);
        assert(prot <= 7 ==> (prot & 0x7usize) == prot) by (bit_vector);
    }
    if high != 0 {
        return Err(-1);
    }
    if low == 0 {
        return Err(-1);
    }
    Ok(MmapRequest { start, end: start + len, len, prot })
}

/// Reply to a checked mapping request: `-1` when the area overlaps a mapped one
/// or could not be mapped, `0` when it was mapped.
pub fn mmap_reply(overlaps: bool, mapped: bool) -> (r: isize)
    ensures
        r == if !overlaps && mapped {
            0isize
        } else {
            -1isize
        },
{
    if overlaps {
        return -1;
    }
    if mapped {
        0
    } else {
        -1
    }
}

/// Checks the arguments of an unmapping of `len` bytes at `start`.  `Err` carries
/// the reply when the call ends here: `0` for an empty length, `-1` for an
/// unaligned start; `Ok` is the range to unmap.
pub fn sys_munmap(start: usize, len: usize) -> (r: Result<AddrRange, isize>)
    requires
        len != 0 && start % PAGE_SIZE == 0 ==> start + len <= usize::MAX,
    ensures
        r == if len == 0 {
            Err(0isize)
        } else if start % PAGE_SIZE != 0 {
            Err(-1isize)
        } else {
            Ok(AddrRange { start, end: (start + len) as usize })
        },
{
    if len == 0 {
        return Err(0);
    }
    if start % PAGE_SIZE != 0 {
        return Err(-1);
    }
    Ok(AddrRange { start, end: start + len })
}

/// Reply to a checked unmapping: `0` when every page of the range was unmapped,
/// `-1` when some page was not mapped.
pub fn munmap_reply(unmapped: bool) -> (r: isize)
    ensures
        r == if unmapped {
            0isize
        } else {
            -1isize
        },
{
    if unmapped {
        0
    } else {
        -1
    }
}

// ---------------------------------------------------------------------------
// sbrk
/// Moves the calling task's program break by `size` and returns the old break,
/// or `-1` (nothing changes) when the break would fall below the heap bottom or
/// the address space could not be resized.
pub fn sys_sbrk(task: &mut TaskControlBlock, size: i32, area_resized: bool) -> (r: isize)
    requires
        old(task).wf(),
        brk_target(old(task).program_brk, size) <= isize::MAX,
    ensures
        final(task).wf(),
        final(task).heap_bottom == old(task).heap_bottom,
        if brk_target(old(task).program_brk, size) >= old(task).heap_bottom && area_resized {
            &&& r == old(task).program_brk as isize
            &&& final(task).program_brk == brk_target(old(task).program_brk, size)
        } else {
            &&& r == -1
            &&& final(task).program_brk == old(task).program_brk
        },
        r != -1 ==> final(task).program_brk as int == old(task).program_brk as int + size as int,
{
    match task.change_program_brk(size, area_resized) {
        Some(old_brk) => old_brk as isize,
        None => -1,
    }
}

// ---------------------------------------------------------------------------
// set_priority
/// Stride-scheduling parameters of a task.
#[derive(PartialEq, Eq, Structural, Debug, Clone, Copy)]
pub struct StrideParams {
    pub priority: isize,
    /// Stride added to the task's pass each time it runs.
    pub pass: usize,
}

/// Sets the calling task's priority to `prio` and its stride to
/// `big_stride / prio`, returning the old priority; priorities below `2` are
/// refused with `-1`.
pub fn sys_set_priority(sched: &mut StrideParams, prio: isize, big_stride: usize) -> (r: isize)
    ensures
        prio < 2 ==> r == -1 && *final(sched) == *old(sched),
        prio >= 2 ==> {
            &&& r == old(sched).priority
            &&& final(sched).priority == prio
            &&& final(sched).pass == big_stride / (prio as usize)
        },
{
    if prio < 2 {
        return -1;
    }
    let old_priority = sched.priority;
    sched.priority = prio;
    sched.pass = big_stride / (prio as usize);
    old_priority
}

// ---------------------------------------------------------------------------
// get_time
/// Time as seconds and microseconds, as laid out for user space.
#[derive(PartialEq, Eq, Structural, Debug, Clone, Copy)]
pub struct TimeVal {
    pub sec: usize,
    pub usec: usize,
}

/// Bytes of a [`TimeVal`] in user memory.
pub const TIME_VAL_BYTES: usize = 16;

impl TimeVal {
    /// The time value for `time_us` microseconds.
    pub fn from_us(time_us: usize) -> (tv: TimeVal)
        ensures
            tv.sec == time_us / 1_000_000,
            tv.usec == time_us % 1_000_000,
            tv.sec * 1_000_000 + tv.usec == time_us,
    {
        TimeVal { sec: time_us / 1_000_000, usec: time_us % 1_000_000 }
    }
}

/// How a time value written at user address `ts` is split over pages: `None`
/// when its bytes `[ts, ts + TIME_VAL_BYTES)` lie in one page (one copy),
/// otherwise the number of bytes that go to the page of `ts`, the rest going to
/// the next page.
pub fn time_val_split(ts: usize) -> (r: Option<usize>)
    requires
        ts + TIME_VAL_BYTES <= usize::MAX,
    ensures
        r == if ts / PAGE_SIZE == (ts + TIME_VAL_BYTES - 1) / PAGE_SIZE as int {
            None::<usize>
        } else {
            Some((PAGE_SIZE - ts % PAGE_SIZE) as usize)
        },
        r is None <==> ts % PAGE_SIZE <= PAGE_SIZE - TIME_VAL_BYTES,
        r matches Some(first) ==> 0 < first < TIME_VAL_BYTES,
{
    let start_page = ts / PAGE_SIZE;
    let end_page = (ts + TIME_VAL_BYTES - 1) / PAGE_SIZE;
    if start_page == end_page {
        None
    } else {
        Some(PAGE_SIZE - ts % PAGE_SIZE)
    }
}

/// Reply of `get_time`: `0` when every page the value is split over (see
/// [`time_val_split`]) was translated and written, `-1` otherwise.
pub fn sys_get_time(split: Option<usize>, first_translated: bool, second_translated: bool) -> (r: isize)
    ensures
        r == if first_translated && (split is None || second_translated) {
            0isize
        } else {
            -1isize
        },
{
    match split {
        None => if first_translated {
            0
        } else {
            -1
        },
        Some(_) => if !first_translated {
            -1
        } else if !second_translated {
            -1
        } else {
            0
        },
    }
}

} // verus!
