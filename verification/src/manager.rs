//! The task manager: the list of tasks, the running one, and round-robin
//! choice of the next task to run.
//!
//! Context switches are carried out by the kernel: the functions that schedule
//! return the indices of the tasks to switch between.
use vstd::prelude::*;
use crate::memory::{AddrRange, FramedArea, PAGE_SIZE};
use crate::task::{brk_target, port_permission, stat_count, BrkRequest, TaskControlBlock, TaskStatus};

verus! {

/// The task manager.
pub struct TaskManager {
    /// Number of tasks.
    pub num_app: usize,
    /// The tasks, by id.
    pub tasks: Vec<TaskControlBlock>,
    /// Id of the current task.
    pub current_task: usize,
}

/// Id of the task `k` places after `cur` in cyclic order over `n` tasks (`1 <= k <= n`).
pub open spec fn cyclic(cur: int, k: int, n: int) -> int {
    if cur + k < n {
        cur + k
    } else {
        cur + k - n
    }
}

/// The task `k` places after `cur` among `n` tasks numbered in a ring is
/// `(cur + k) mod n`.
pub proof fn law_cyclic_is_ring_order(cur: int, k: int, n: int)
    requires
        0 <= cur < n,
        1 <= k <= n,
    ensures
        cyclic(cur, k, n) == (cur + k) % n,
        0 <= cyclic(cur, k, n) < n,
        k < n ==> cyclic(cur, k, n) != cur,
        cyclic(cur, n, n) == cur,
{
    if cur + k < n {
        vstd::arithmetic::div_mod::lemma_small_mod((cur + k) as nat, n as nat);
    } else {
        vstd::arithmetic::div_mod::lemma_small_mod((cur + k - n) as nat, n as nat);
        vstd::arithmetic::div_mod::lemma_mod_add_multiples_vanish(cur + k - n, n);
    }
}

/// Changing one task's status changes that status only.
pub proof fn law_with_status_changes_one_status(tasks: Seq<TaskControlBlock>, i: int, status: TaskStatus, j: int)
    requires
        0 <= i < tasks.len(),
        0 <= j < tasks.len(),
    ensures
        with_status(tasks, i, status).len() == tasks.len(),
        with_status(tasks, i, status)[i].task_status == status,
        same_but_status(with_status(tasks, i, status)[i], tasks[i]),
        j != i ==> with_status(tasks, i, status)[j] == tasks[j],
{
}

/// Status of task `i`.
pub open spec fn status_of(tasks: Seq<TaskControlBlock>, i: int) -> TaskStatus {
    tasks[i].task_status
}

/// `id` is the first ready task after `cur` in cyclic order.
pub open spec fn is_next_ready(tasks: Seq<TaskControlBlock>, cur: int, id: int) -> bool {
    let n = tasks.len() as int;
    exists|k: int|
        1 <= k <= n && id == cyclic(cur, k, n) && status_of(tasks, id) == TaskStatus::Ready
            && forall|k2: int| 1 <= k2 < k ==> #[trigger] status_of(tasks, cyclic(cur, k2, n)) != TaskStatus::Ready
}

/// Some task is ready.
pub open spec fn some_ready(tasks: Seq<TaskControlBlock>) -> bool {
    exists|i: int| 0 <= i < tasks.len() && #[trigger] status_of(tasks, i) == TaskStatus::Ready
}

/// Only the current task may be running.
pub open spec fn only_current_runs(tasks: Seq<TaskControlBlock>, cur: int) -> bool {
    forall|i: int| 0 <= i < tasks.len() && i != cur ==> #[trigger] status_of(tasks, i) != TaskStatus::Running
}

/// Every task other than `changed` is as it was; `changed` differs at most in status.
pub open spec fn others_unchanged(old_tasks: Seq<TaskControlBlock>, new_tasks: Seq<TaskControlBlock>, changed: int) -> bool {
    &&& new_tasks.len() == old_tasks.len()
    &&& forall|i: int| 0 <= i < old_tasks.len() && i != changed ==> #[trigger] new_tasks[i] == old_tasks[i]
}

/// The tasks with the status of task `i` set to `status`.
pub open spec fn with_status(tasks: Seq<TaskControlBlock>, i: int, status: TaskStatus) -> Seq<TaskControlBlock> {
    tasks.update(i, TaskControlBlock { task_status: status, ..tasks[i] })
}

/// Task `i` keeps everything but its status.
pub open spec fn same_but_status(a: TaskControlBlock, b: TaskControlBlock) -> bool {
    &&& a.base_size == b.base_size
    &&& a.heap_bottom == b.heap_bottom
    &&& a.program_brk == b.program_brk
    &&& a.syscall_stats == b.syscall_stats
}

impl TaskManager {
    /// The manager's bookkeeping is consistent.
    pub open spec fn wf(&self) -> bool {
        &&& self.num_app == self.tasks@.len()
        &&& self.num_app <= isize::MAX
        &&& (self.current_task < self.num_app || (self.num_app == 0 && self.current_task == 0))
    }

    /// A manager of the given tasks, the first of which is current.
    pub fn new(tasks: Vec<TaskControlBlock>) -> (tm: Self)
        requires
            tasks@.len() <= isize::MAX,
        ensures
            tm.wf(),
            tm.tasks@ == tasks@,
            tm.current_task == 0,
    {
        let num_app = tasks.len();
        TaskManager { num_app, tasks, current_task: 0 }
    }

    /// Sets the status of task `id`.
    fn set_status(&mut self, id: usize, status: TaskStatus)
        requires
            old(self).wf(),
            id < old(self).num_app,
        ensures
            final(self).wf(),
            final(self).num_app == old(self).num_app,
            final(self).current_task == old(self).current_task,
            others_unchanged(old(self).tasks@, final(self).tasks@, id as int),
            final(self).tasks@[id as int].task_status == status,
            same_but_status(final(self).tasks@[id as int], old(self).tasks@[id as int]),
            final(self).tasks@ == with_status(old(self).tasks@, id as int, status),
    {
        self.tasks[id].task_status = status;
        proof {
            assert(self.tasks@ =~= with_status(old(self).tasks@, id as int, status));
        }
    }

    /// Counts a call of system call `id` for the current task.
    pub fn add_count_syscall(&mut self, id: usize)
        requires
            old(self).wf(),
            old(self).num_app > 0,
            stat_count(old(self).tasks@[old(self).current_task as int].syscall_stats@, id) < usize::MAX,
        ensures
            final(self).wf(),
            final(self).num_app == old(self).num_app,
            final(self).current_task == old(self).current_task,
            ({
                let c = old(self).current_task as int;
                let st = old(self).tasks@[c].syscall_stats@;
                &&& final(self).tasks@[c].syscall_stats@ == st.insert(id, (stat_count(st, id) + 1) as usize)
                &&& final(self).tasks@[c].task_status == old(self).tasks@[c].task_status
                &&& final(self).tasks@[c].program_brk == old(self).tasks@[c].program_brk
                &&& final(self).tasks@[c].heap_bottom == old(self).tasks@[c].heap_bottom
                &&& final(self).tasks@[c].base_size == old(self).tasks@[c].base_size
                &&& others_unchanged(old(self).tasks@, final(self).tasks@, c)
            }),
    {
        let cur = self.current_task;
        self.tasks[cur].record_syscall(id);
    }

    /// Number of calls of system call `id` made by the current task.
    pub fn count_syscall(&self, id: usize) -> (r: usize)
        requires
            self.wf(),
            self.num_app > 0,
        ensures
            r == stat_count(self.tasks@[self.current_task as int].syscall_stats@, id),
    {
        self.tasks[self.current_task].get_syscall_count(id)
    }

    /// Marks the first task running and returns its id, to switch to.
    pub fn run_first_task(&mut self) -> (next: usize)
        requires
            old(self).wf(),
            old(self).num_app > 0,
        ensures
            next == 0,
            final(self).wf(),
            final(self).num_app == old(self).num_app,
            final(self).current_task == old(self).current_task,
            others_unchanged(old(self).tasks@, final(self).tasks@, 0),
            final(self).tasks@[0].task_status == TaskStatus::Running,
            same_but_status(final(self).tasks@[0], old(self).tasks@[0]),
            final(self).tasks@ == with_status(old(self).tasks@, 0, TaskStatus::Running),
    {
        self.set_status(0, TaskStatus::Running);
        0
    }

    /// Marks the current task ready.
    pub fn mark_current_suspended(&mut self)
        requires
            old(self).wf(),
            old(self).num_app > 0,
        ensures
            final(self).wf(),
            final(self).num_app == old(self).num_app,
            final(self).current_task == old(self).current_task,
            others_unchanged(old(self).tasks@, final(self).tasks@, old(self).current_task as int),
            final(self).tasks@[old(self).current_task as int].task_status == TaskStatus::Ready,
            same_but_status(
                final(self).tasks@[old(self).current_task as int],
                old(self).tasks@[old(self).current_task as int],
            ),
            final(self).tasks@ == with_status(old(self).tasks@, old(self).current_task as int, TaskStatus::Ready),
    {
        let cur = self.current_task;
        self.set_status(cur, TaskStatus::Ready);
    }

    /// Marks the current task exited.
    pub fn mark_current_exited(&mut self)
        requires
            old(self).wf(),
            old(self).num_app > 0,
        ensures
            final(self).wf(),
            final(self).num_app == old(self).num_app,
            final(self).current_task == old(self).current_task,
            others_unchanged(old(self).tasks@, final(self).tasks@, old(self).current_task as int),
            final(self).tasks@[old(self).current_task as int].task_status == TaskStatus::Exited,
            same_but_status(
                final(self).tasks@[old(self).current_task as int],
                old(self).tasks@[old(self).current_task as int],
            ),
            final(self).tasks@ == with_status(old(self).tasks@, old(self).current_task as int, TaskStatus::Exited),
    {
        let cur = self.current_task;
        self.set_status(cur, TaskStatus::Exited);
    }

    /// The first ready task after the current one in cyclic order (the current
    /// task itself coming last), or `None` when no task is ready.
    pub fn find_next_task(&self) -> (r: Option<usize>)
        requires
            self.wf(),
        ensures
            match r {
                Some(id) => id < self.num_app && is_next_ready(self.tasks@, self.current_task as int, id as int),
                None => forall|i: int| 0 <= i < self.num_app ==> #[trigger] status_of(self.tasks@, i) != TaskStatus::Ready,
            },
    {
        let n = self.num_app;
        let cur = self.current_task;
        let mut k: usize = 1;
        while k <= n
            invariant
                self.wf(),
                n == self.num_app,
                cur == self.current_task,
                1 <= k <= n + 1,
                forall|k2: int| 1 <= k2 < k ==> #[trigger] status_of(self.tasks@, cyclic(cur as int, k2, n as int)) != TaskStatus::Ready,
            decreases n + 1 - k,
        {
            let id = if cur + k < n {
                cur + k
            } else {
                cur + k - n
            };
            if self.tasks[id].task_status == TaskStatus::Ready {
                assert(status_of(self.tasks@, id as int) == TaskStatus::Ready);
                assert(id as int == cyclic(cur as int, k as int, n as int));
                assert(is_next_ready(self.tasks@, cur as int, id as int));
                return Some(id);
            }
            k = k + 1;
        }
        proof {
            assert forall|i: int| 0 <= i < n implies #[trigger] status_of(self.tasks@, i) != TaskStatus::Ready by {
                let k2 = if i > cur { i - cur } else { i + n - cur };
                assert(cyclic(cur as int, k2, n as int) == i);
            }
        }
        None
    }

    /// Switches to the next ready task: it is marked running and made current,
    /// and the ids of the previous and the new current task are returned for the
    /// context switch.  Some task must be ready: when none is, every application
    /// has completed and the kernel stops.
    pub fn run_next_task(&mut self) -> (r: (usize, usize))
        requires
            old(self).wf(),
            some_ready(old(self).tasks@),
        ensures
            final(self).wf(),
            final(self).num_app == old(self).num_app,
            ({
                let (prev, next) = r;
                &&& prev == old(self).current_task
                &&& next < old(self).num_app
                &&& is_next_ready(old(self).tasks@, prev as int, next as int)
                &&& final(self).current_task == next
                &&& final(self).tasks@ == with_status(old(self).tasks@, next as int, TaskStatus::Running)
            }),
    {
        let next = self.find_next_task().unwrap();
        let current = self.current_task;
        self.set_status(next, TaskStatus::Running);
        self.current_task = next;
        (current, next)
    }

    /// Whether a task other than the current one is ready.
    pub fn other_task_ready(&self) -> (r: bool)
        requires
            self.wf(),
        ensures
            r == exists|i: int|
                0 <= i < self.num_app && i != self.current_task && #[trigger] status_of(self.tasks@, i)
                    == TaskStatus::Ready,
    {
        let mut i: usize = 0;
        while i < self.num_app
            invariant
                self.wf(),
                i <= self.num_app,
                forall|q: int|
                    0 <= q < i && q != self.current_task ==> #[trigger] status_of(self.tasks@, q)
                        != TaskStatus::Ready,
            decreases self.num_app - i,
        {
            if i != self.current_task && self.tasks[i].task_status == TaskStatus::Ready {
                assert(status_of(self.tasks@, i as int) == TaskStatus::Ready);
                return true;
            }
            i = i + 1;
        }
        false
    }

    /// Marks the current task ready and gives the processor to the first ready
    /// task after it in cyclic order, which is the current task itself when no
    /// other task is ready.  Returns the ids of the tasks to switch between.
    pub fn suspend_current_and_run_next(&mut self) -> (r: (usize, usize))
        requires
            old(self).wf(),
            old(self).num_app > 0,
        ensures
            final(self).wf(),
            final(self).num_app == old(self).num_app,
            ({
                let cur = old(self).current_task as int;
                let suspended = with_status(old(self).tasks@, cur, TaskStatus::Ready);
                let (prev, next) = r;
                &&& prev == cur
                &&& next < old(self).num_app
                &&& is_next_ready(suspended, cur, next as int)
                &&& final(self).current_task == next
                &&& final(self).tasks@ == with_status(suspended, next as int, TaskStatus::Running)
            }),
            only_current_runs(old(self).tasks@, old(self).current_task as int) ==> only_current_runs(final(self).tasks@, final(self).current_task as int),
            forall|i: int|
                0 <= i < old(self).num_app && i != old(self).current_task && #[trigger] status_of(old(self).tasks@, i)
                    == TaskStatus::Exited ==> status_of(final(self).tasks@, i) == TaskStatus::Exited,
    {
        self.mark_current_suspended();
        let ghost mid = self.tasks@;
        let ghost cur = self.current_task as int;
        assert(status_of(mid, cur) == TaskStatus::Ready);
        let r = self.run_next_task();
        proof {
            let next = r.1 as int;
            let k = choose|k: int|
                1 <= k <= mid.len() && next == cyclic(cur, k, mid.len() as int) && status_of(mid, next) == TaskStatus::Ready
                    && forall|k2: int| 1 <= k2 < k ==> #[trigger] status_of(mid, cyclic(cur, k2, mid.len() as int)) != TaskStatus::Ready;
            assert(status_of(mid, next) == TaskStatus::Ready);
            if only_current_runs(old(self).tasks@, cur) {
                assert forall|i: int| 0 <= i < self.tasks@.len() && i != next implies #[trigger] status_of(self.tasks@, i) != TaskStatus::Running by {
                    assert(self.tasks@[i] == mid[i]);
                    if i != cur {
                        assert(mid[i] == old(self).tasks@[i]);
                        assert(status_of(old(self).tasks@, i) != TaskStatus::Running);
                    }
                }
            }
            assert forall|i: int|
                0 <= i < old(self).num_app && i != cur && #[trigger] status_of(old(self).tasks@, i)
                    == TaskStatus::Exited implies status_of(self.tasks@, i) == TaskStatus::Exited by {
                assert(mid[i] == old(self).tasks@[i]);
                if i != next {
                    assert(self.tasks@[i] == mid[i]);
                }
            }
        }
        r
    }

    /// Marks the current task exited and gives the processor to the first ready
    /// task after it in cyclic order.  Another task must be ready: when none is,
    /// every application has completed and the kernel stops.
    pub fn exit_current_and_run_next(&mut self) -> (r: (usize, usize))
        requires
            old(self).wf(),
            old(self).num_app > 0,
            exists|i: int|
                0 <= i < old(self).num_app && i != old(self).current_task && #[trigger] status_of(old(self).tasks@, i)
                    == TaskStatus::Ready,
        ensures
            final(self).wf(),
            final(self).num_app == old(self).num_app,
            ({
                let cur = old(self).current_task as int;
                let exited = with_status(old(self).tasks@, cur, TaskStatus::Exited);
                let (prev, next) = r;
                &&& prev == cur
                &&& next != prev
                &&& next < old(self).num_app
                &&& is_next_ready(exited, cur, next as int)
                &&& final(self).current_task == next
                &&& final(self).tasks@ == with_status(exited, next as int, TaskStatus::Running)
            }),
            only_current_runs(old(self).tasks@, old(self).current_task as int) ==> only_current_runs(final(self).tasks@, final(self).current_task as int),
            forall|i: int| 0 <= i < old(self).num_app && #[trigger] status_of(old(self).tasks@, i) == TaskStatus::Exited ==> status_of(final(self).tasks@, i) == TaskStatus::Exited,
    {
        self.mark_current_exited();
        let ghost mid = self.tasks@;
        proof {
            let w = choose|i: int|
                0 <= i < old(self).num_app && i != old(self).current_task && #[trigger] status_of(old(self).tasks@, i)
                    == TaskStatus::Ready;
            assert(mid[w] == old(self).tasks@[w]);
            assert(status_of(mid, w) == TaskStatus::Ready);
        }
        let r = self.run_next_task();
        proof {
            let cur = old(self).current_task as int;
            let next = r.1 as int;
            let k = choose|k: int|
                1 <= k <= mid.len() && next == cyclic(cur, k, mid.len() as int) && status_of(mid, next) == TaskStatus::Ready
                    && forall|k2: int| 1 <= k2 < k ==> #[trigger] status_of(mid, cyclic(cur, k2, mid.len() as int)) != TaskStatus::Ready;
            assert(status_of(mid, next) == TaskStatus::Ready);
            assert(next != cur);
            if only_current_runs(old(self).tasks@, cur) {
                assert forall|i: int| 0 <= i < self.tasks@.len() && i != next implies #[trigger] status_of(self.tasks@, i) != TaskStatus::Running by {
                    assert(self.tasks@[i] == mid[i]);
                    if i != cur {
                        assert(mid[i] == old(self).tasks@[i]);
                        assert(status_of(old(self).tasks@, i) != TaskStatus::Running);
                    }
                }
            }
            assert forall|i: int|
                0 <= i < old(self).num_app && #[trigger] status_of(old(self).tasks@, i)
                    == TaskStatus::Exited implies status_of(self.tasks@, i) == TaskStatus::Exited by {
                if i != cur {
                    assert(mid[i] == old(self).tasks@[i]);
                }
                if i != next {
                    assert(self.tasks@[i] == mid[i]);
                }
            }
        }
        r
    }

    /// The address-space change that moving the current task's break by `size` asks for.
    pub fn current_brk_request(&self, size: i32) -> (r: Option<BrkRequest>)
        requires
            self.wf(),
            self.num_app > 0,
            self.tasks@[self.current_task as int].wf(),
            brk_target(self.tasks@[self.current_task as int].program_brk, size) <= isize::MAX,
        ensures
            ({
                let t = self.tasks@[self.current_task as int];
                match r {
                    Some(req) => {
                        &&& brk_target(t.program_brk, size) >= t.heap_bottom
                        &&& req == (BrkRequest {
                            shrink: size < 0,
                            heap_bottom: t.heap_bottom,
                            new_brk: brk_target(t.program_brk, size) as usize,
                        })
                    },
                    None => brk_target(t.program_brk, size) < t.heap_bottom,
                }
            }),
    {
        self.tasks[self.current_task].brk_request(size)
    }

    /// Moves the current task's program break by `size` (see
    /// [`TaskControlBlock::change_program_brk`]).
    pub fn change_current_program_brk(&mut self, size: i32, area_resized: bool) -> (r: Option<usize>)
        requires
            old(self).wf(),
            old(self).num_app > 0,
            old(self).tasks@[old(self).current_task as int].wf(),
            brk_target(old(self).tasks@[old(self).current_task as int].program_brk, size) <= isize::MAX,
        ensures
            final(self).wf(),
            final(self).num_app == old(self).num_app,
            final(self).current_task == old(self).current_task,
            others_unchanged(old(self).tasks@, final(self).tasks@, old(self).current_task as int),
            ({
                let t = old(self).tasks@[old(self).current_task as int];
                let t2 = final(self).tasks@[old(self).current_task as int];
                &&& t2.wf()
                &&& t2.task_status == t.task_status
                &&& t2.heap_bottom == t.heap_bottom
                &&& t2.syscall_stats == t.syscall_stats
                &&& if brk_target(t.program_brk, size) >= t.heap_bottom && area_resized {
                    &&& r == Some(t.program_brk)
                    &&& t2.program_brk == brk_target(t.program_brk, size)
                } else {
                    &&& r is None
                    &&& t2.program_brk == t.program_brk
                }
            }),
    {
        let cur = self.current_task;
        self.tasks[cur].change_program_brk(size, area_resized)
    }
}

/// Page of the first byte of `[addr, addr + len)`.
pub open spec fn first_page(addr: usize) -> int {
    (addr / PAGE_SIZE) as int
}

/// Page of the last byte of `[addr, addr + len)`.
pub open spec fn last_page(addr: usize, len: usize) -> int {
    ((addr + len - 1) / (PAGE_SIZE as int)) as int
}

/// Some page of `[first, last]` gets the answer `answer`.
pub open spec fn some_page_answers<F: Fn(usize) -> bool>(page_query: F, first: int, last: int, answer: bool) -> bool {
    exists|vpn: usize| first <= vpn <= last && call_ensures(page_query, (vpn,), answer)
}

/// Whether some page of `[addr, addr + len)` is mapped in the current task,
/// where `is_mapped(vpn)` tells whether page `vpn` is; `false` for an empty range.
pub fn check_if_address_exist<F: Fn(usize) -> bool>(addr: usize, len: usize, is_mapped: F) -> (r: bool)
    requires
        addr + len <= usize::MAX,
        forall|vpn: usize| call_requires(is_mapped, (vpn,)),
    ensures
        len == 0 ==> !r,
        r ==> some_page_answers(is_mapped, first_page(addr), last_page(addr, len), true),
        !r && len > 0 ==> forall|vpn: usize| first_page(addr) <= vpn <= last_page(addr, len) ==> #[trigger] call_ensures(is_mapped, (vpn,), false),
{
    if len == 0 {
        return false;
    }
    page_scan(addr, len, is_mapped, true, false)
}

/// Whether some page of `[addr, addr + len)` is not mapped in the current task,
/// where `is_mapped(vpn)` tells whether page `vpn` is; `false` for an empty range.
pub fn check_if_address_inexist<F: Fn(usize) -> bool>(addr: usize, len: usize, is_mapped: F) -> (r: bool)
    requires
        addr + len <= usize::MAX,
        forall|vpn: usize| call_requires(is_mapped, (vpn,)),
    ensures
        len == 0 ==> !r,
        r ==> some_page_answers(is_mapped, first_page(addr), last_page(addr, len), false),
        !r && len > 0 ==> forall|vpn: usize| first_page(addr) <= vpn <= last_page(addr, len) ==> #[trigger] call_ensures(is_mapped, (vpn,), true),
{
    if len == 0 {
        return false;
    }
    page_scan(addr, len, is_mapped, false, true)
}

/// Whether some page of `[addr, addr + len)` gets the answer `target`.
fn page_scan<F: Fn(usize) -> bool>(addr: usize, len: usize, is_mapped: F, target: bool, miss: bool) -> (r: bool)
    requires
        miss == !target,
        1 <= addr + len <= usize::MAX,
        forall|vpn: usize| call_requires(is_mapped, (vpn,)),
    ensures
        r ==> some_page_answers(is_mapped, first_page(addr), last_page(addr, len), target),
        !r ==> forall|vpn: usize| first_page(addr) <= vpn <= last_page(addr, len) ==> #[trigger] call_ensures(is_mapped, (vpn,), miss),
{
    let first = crate::memory::page_number(addr);
    let last = crate::memory::page_number(addr + len - 1);
    let mut vpn = first;
    while vpn <= last
        invariant
            first == first_page(addr),
            last == last_page(addr, len),
            first <= vpn,
            vpn <= last + 1,
            last < usize::MAX,
            miss == !target,
            forall|v: usize| call_requires(is_mapped, (v,)),
            forall|v: usize| first <= v < vpn ==> #[trigger] call_ensures(is_mapped, (v,), miss),
        decreases last + 1 - vpn,
    {
        let answer = is_mapped(vpn);
        if answer == target {
            assert(call_ensures(is_mapped, (vpn,), target));
            return true;
        }
        vpn = vpn + 1;
    }
    false
}

/// Maps `[addr, addr + len)` for the current task with the permission named by
/// `port`: refused with `-1` when some page of the range is already mapped or
/// `port` names no permission; otherwise the area to map.
pub fn task_mmap<F: Fn(usize) -> bool>(manager: &TaskManager, addr: usize, len: usize, port: usize, is_mapped: F) -> (r: Result<FramedArea, isize>)
    requires
        manager.wf(),
        manager.num_app > 0,
        addr + len <= usize::MAX,
        forall|vpn: usize| call_requires(is_mapped, (vpn,)),
    ensures
        match r {
            Ok(area) => {
                &&& len > 0 ==> forall|vpn: usize| first_page(addr) <= vpn <= last_page(addr, len) ==> #[trigger] call_ensures(is_mapped, (vpn,), false)
                &&& port_permission(port) == Some(area.perm)
                &&& area.start == addr
                &&& area.end == addr + len
            },
            Err(code) => code == -1 && (port_permission(port) is None || (len > 0 && some_page_answers(is_mapped, first_page(addr), last_page(addr, len), true))),
        },
{
    if check_if_address_exist(addr, len, is_mapped) {
        return Err(-1);
    }
    manager.tasks[manager.current_task].task_mmap(addr, len, port)
}

/// Unmaps `[addr, addr + len)` for the current task: refused with `-1` when some
/// page of the range is not mapped; otherwise the range to unmap.
pub fn task_unmap<F: Fn(usize) -> bool>(manager: &TaskManager, addr: usize, len: usize, is_mapped: F) -> (r: Result<AddrRange, isize>)
    requires
        manager.wf(),
        manager.num_app > 0,
        addr + len <= usize::MAX,
        forall|vpn: usize| call_requires(is_mapped, (vpn,)),
    ensures
        match r {
            Ok(range) => {
                &&& len > 0 ==> forall|vpn: usize| first_page(addr) <= vpn <= last_page(addr, len) ==> #[trigger] call_ensures(is_mapped, (vpn,), true)
                &&& range == (AddrRange { start: addr, end: (addr + len) as usize })
            },
            Err(code) => code == -1 && len > 0 && some_page_answers(is_mapped, first_page(addr), last_page(addr, len), false),
        },
{
    if check_if_address_inexist(addr, len, is_mapped) {
        return Err(-1);
    }
    Ok(manager.tasks[manager.current_task].task_unmap(addr, len))
}

} // verus!
