//! A process's synchronisation tables (mutexes, semaphores, condition
//! variables), the system calls that act on them, and the deadlock checks that
//! guard blocking requests.
//!
//! Each system call takes the calling thread's id and returns its reply code
//! together with the scheduling action that the kernel must carry out.
use std::collections::VecDeque;
use vstd::prelude::*;
use crate::deadlock::{deadlocked, detect_deadlock, totals_fit, well_shaped};
use crate::semaphore::{down_spec, held, release, up_spec, SemState, Semaphore};

verus! {

broadcast use {vstd::std_specs::btree::group_btree_axioms, vstd::laws_cmp::group_laws_cmp};

/// Reply code of a request refused because it would deadlock.
pub const DEADLOCK_REPLY: isize = -0xDEAD;

/// What the kernel must do after a synchronisation system call.
#[derive(PartialEq, Eq, Structural, Debug, Clone, Copy)]
pub enum SyncAction {
    /// Return to the caller.
    Continue,
    /// Block the calling thread (it has been queued).
    Block,
    /// Wake the given thread.
    Wakeup(usize),
    /// Lock the given mutex on behalf of the caller.
    LockMutex(usize),
    /// Unlock the given mutex.
    UnlockMutex(usize),
    /// Signal the given condition variable.
    SignalCondvar(usize),
    /// Wait on a condition variable, releasing the given mutex meanwhile.
    WaitCondvar { condvar_id: usize, mutex_id: usize },
    /// Block the caller until the given time (in milliseconds).
    SleepUntil(usize),
}

/// State of a blocking mutex as the deadlock check sees it.
pub struct MutexBlockingState {
    /// Thread that holds the mutex, if any.
    pub owner: Option<usize>,
    /// Threads waiting for the mutex, oldest first.
    pub wait_queue: VecDeque<usize>,
}

/// A mutex of a process.
pub enum KernelMutex {
    /// A spinning mutex; it takes no part in deadlock detection.
    Spin,
    /// A blocking mutex.
    Blocking(MutexBlockingState),
}

/// A condition variable of a process; its waiting threads are kept by the
/// kernel's condition variable object.
pub struct Condvar {}

/// The synchronisation part of a process control block.
pub struct ProcessSync {
    /// Number of thread slots of the process (threads are named by slot).
    pub task_count: usize,
    /// Mutexes by id; `None` marks a free id.
    pub mutex_list: Vec<Option<KernelMutex>>,
    /// Semaphores by id; `None` marks a free id.
    pub semaphore_list: Vec<Option<Semaphore>>,
    /// Condition variables by id; `None` marks a free id.
    pub condvar_list: Vec<Option<Condvar>>,
    /// Whether blocking requests are checked for deadlock.
    pub deadlock_detection_enabled: bool,
}

// ---------------------------------------------------------------------------
// Id allocation
/// `id` is where `alloc_slot` puts a new item: the first free slot, or a new
/// slot at the end when none is free.
pub open spec fn slot_choice<T>(list: Seq<Option<T>>, id: int) -> bool {
    &&& 0 <= id <= list.len()
    &&& forall|q: int| 0 <= q < id ==> #[trigger] list[q] is Some
    &&& id < list.len() ==> list[id] is None
}

/// The list after `item` was stored at `id`.
pub open spec fn slot_stored<T>(list: Seq<Option<T>>, id: int, item: T) -> Seq<Option<T>> {
    if id < list.len() {
        list.update(id, Some(item))
    } else {
        list.push(Some(item))
    }
}

/// Stores `item` in the first free slot of `list`, or at its end, and returns the slot.
pub fn alloc_slot<T>(list: &mut Vec<Option<T>>, item: T) -> (id: usize)
    requires
        old(list).len() < usize::MAX,
    ensures
        slot_choice(old(list)@, id as int),
        final(list)@ == slot_stored(old(list)@, id as int, item),
{
    let mut i: usize = 0;
    while i < list.len()
        invariant
            i <= list.len(),
            list@ == old(list)@,
            forall|q: int| 0 <= q < i ==> #[trigger] list@[q] is Some,
        decreases list.len() - i,
    {
        if list[i].is_none() {
            list.set(i, Some(item));
            return i;
        }
        i = i + 1;
    }
    list.push(Some(item));
    i
}

/// Creates a mutex (blocking or spinning) in the first free id and returns the id.
pub fn sys_mutex_create(process: &mut ProcessSync, blocking: bool) -> (r: isize)
    requires
        old(process).mutex_list.len() < isize::MAX,
    ensures
        slot_choice(old(process).mutex_list@, r as int),
        final(process).mutex_list@.len() == if r < old(process).mutex_list@.len() {
            old(process).mutex_list@.len()
        } else {
            old(process).mutex_list@.len() + 1
        },
        forall|q: int|
            0 <= q < final(process).mutex_list@.len() && q != r ==> #[trigger] final(process).mutex_list@[q] == old(process).mutex_list@[q],
        match final(process).mutex_list@[r as int] {
            Some(KernelMutex::Blocking(m)) => blocking && m.owner is None && m.wait_queue@.len()
                == 0,
            Some(KernelMutex::Spin) => !blocking,
            None => false,
        },
        final(process).task_count == old(process).task_count,
        final(process).semaphore_list == old(process).semaphore_list,
        final(process).condvar_list == old(process).condvar_list,
        final(process).deadlock_detection_enabled == old(process).deadlock_detection_enabled,
{
    let mutex = if !blocking {
        KernelMutex::Spin
    } else {
        KernelMutex::Blocking(MutexBlockingState { owner: None, wait_queue: VecDeque::new() })
    };
    let id = alloc_slot(&mut process.mutex_list, mutex);
    id as isize
}

/// Creates a semaphore with `res_count` free units in the first free id and returns the id.
pub fn sys_semaphore_create(process: &mut ProcessSync, res_count: usize) -> (r: isize)
    requires
        old(process).semaphore_list.len() < isize::MAX,
    ensures
        slot_choice(old(process).semaphore_list@, r as int),
        final(process).semaphore_list@.len() == if r < old(process).semaphore_list@.len() {
            old(process).semaphore_list@.len()
        } else {
            old(process).semaphore_list@.len() + 1
        },
        forall|q: int|
            0 <= q < final(process).semaphore_list@.len() && q != r ==> #[trigger] final(process).semaphore_list@[q] == old(process).semaphore_list@[q],
        final(process).semaphore_list@[r as int] is Some,
        final(process).semaphore_list@[r as int].unwrap()@ == (SemState {
            count: (res_count as isize) as int,
            owners: Map::empty(),
            queue: Seq::empty(),
        }),
        final(process).task_count == old(process).task_count,
        final(process).mutex_list == old(process).mutex_list,
        final(process).condvar_list == old(process).condvar_list,
        final(process).deadlock_detection_enabled == old(process).deadlock_detection_enabled,
{
    let sem = Semaphore::new(res_count);
    let id = alloc_slot(&mut process.semaphore_list, sem);
    id as isize
}

/// Creates a condition variable in the first free id and returns the id.
pub fn sys_condvar_create(process: &mut ProcessSync) -> (r: isize)
    requires
        old(process).condvar_list.len() < isize::MAX,
    ensures
        slot_choice(old(process).condvar_list@, r as int),
        final(process).condvar_list@ == slot_stored(
            old(process).condvar_list@,
            r as int,
            Condvar {},
        ),
        final(process).task_count == old(process).task_count,
        final(process).mutex_list == old(process).mutex_list,
        final(process).semaphore_list == old(process).semaphore_list,
        final(process).deadlock_detection_enabled == old(process).deadlock_detection_enabled,
{
    let id = alloc_slot(&mut process.condvar_list, Condvar {});
    id as isize
}

// ---------------------------------------------------------------------------
// Deadlock checks
/// `t` occurs in `q`.
pub fn queue_contains(q: &VecDeque<usize>, t: usize) -> (r: bool)
    ensures
        r == q@.contains(t),
{
    let mut i: usize = 0;
    while i < q.len()
        invariant
            i <= q@.len(),
            forall|k: int| 0 <= k < i ==> #[trigger] q@[k] != t,
        decreases q@.len() - i,
    {
        if q[i] == t {
            assert(q@[i as int] == t);
            return true;
        }
        i = i + 1;
    }
    false
}

/// Free units of each mutex: one for an unlocked blocking mutex, none otherwise.
pub open spec fn mutex_work(list: Seq<Option<KernelMutex>>) -> Seq<usize> {
    Seq::new(
        list.len(),
        |mid: int|
            match list[mid] {
                Some(KernelMutex::Blocking(m)) => if m.owner is None {
                    1usize
                } else {
                    0usize
                },
                _ => 0usize,
            },
    )
}

/// Units of each mutex held by each of `n` threads.
pub open spec fn mutex_alloc(list: Seq<Option<KernelMutex>>, n: nat) -> Seq<Seq<usize>> {
    Seq::new(
        n,
        |t: int|
            Seq::new(
                list.len(),
                |mid: int|
                    match list[mid] {
                        Some(KernelMutex::Blocking(m)) => if m.owner == Some(t as usize) {
                            1usize
                        } else {
                            0usize
                        },
                        _ => 0usize,
                    },
            ),
    )
}

/// Units of each mutex awaited by each of `n` threads, counting the request of
/// `requester` for mutex `requested`.
pub open spec fn mutex_need(
    list: Seq<Option<KernelMutex>>,
    n: nat,
    requester: int,
    requested: int,
) -> Seq<Seq<usize>> {
    Seq::new(
        n,
        |t: int|
            Seq::new(
                list.len(),
                |mid: int|
                    if t == requester && mid == requested {
                        1usize
                    } else {
                        match list[mid] {
                            Some(KernelMutex::Blocking(m)) => if m.wait_queue@.contains(t as usize) {
                                1usize
                            } else {
                                0usize
                            },
                            _ => 0usize,
                        }
                    },
            ),
    )
}

/// Every thread recorded by a blocking mutex is one of the `n` threads.
pub open spec fn mutex_threads_known(list: Seq<Option<KernelMutex>>, n: nat) -> bool {
    forall|mid: int|
        0 <= mid < list.len() ==> match #[trigger] list[mid] {
            Some(KernelMutex::Blocking(m)) => {
                &&& (m.owner matches Some(o) ==> o < n)
                &&& forall|k: int| 0 <= k < m.wait_queue@.len() ==> #[trigger] m.wait_queue@[k] < n
            },
            _ => true,
        }
}

/// Free units of each semaphore (a negative count counts as none).
pub open spec fn sem_work(list: Seq<Option<Semaphore>>) -> Seq<usize> {
    Seq::new(
        list.len(),
        |sid: int|
            match list[sid] {
                Some(sem) => if sem@.count > 0 {
                    sem@.count as usize
                } else {
                    0usize
                },
                None => 0usize,
            },
    )
}

/// Units of each semaphore held by each of `n` threads.
pub open spec fn sem_alloc(list: Seq<Option<Semaphore>>, n: nat) -> Seq<Seq<usize>> {
    Seq::new(
        n,
        |t: int|
            Seq::new(
                list.len(),
                |sid: int|
                    match list[sid] {
                        Some(sem) => held(sem@.owners, t as usize) as usize,
                        None => 0usize,
                    },
            ),
    )
}

/// Units of each semaphore awaited by each of `n` threads, counting the request
/// of `requester` for semaphore `requested`.
pub open spec fn sem_need(
    list: Seq<Option<Semaphore>>,
    n: nat,
    requester: int,
    requested: int,
) -> Seq<Seq<usize>> {
    Seq::new(
        n,
        |t: int|
            Seq::new(
                list.len(),
                |sid: int|
                    if t == requester && sid == requested {
                        1usize
                    } else {
                        match list[sid] {
                            Some(sem) => if sem@.queue.contains(t as usize) {
                                1usize
                            } else {
                                0usize
                            },
                            None => 0usize,
                        }
                    },
            ),
    )
}

/// Every thread recorded by a semaphore is one of the `n` threads.
pub open spec fn sem_threads_known(list: Seq<Option<Semaphore>>, n: nat) -> bool {
    forall|sid: int|
        0 <= sid < list.len() ==> match #[trigger] list[sid] {
            Some(sem) => {
                &&& forall|t: usize| #[trigger] sem@.owners.contains_key(t) ==> t < n
                &&& forall|k: int| 0 <= k < sem@.queue.len() ==> #[trigger] sem@.queue[k] < n
            },
            None => true,
        }
}

/// What the mutex tables say of thread `t` and mutex `mid`: a blocking mutex
/// is free (one unit) when it has no owner; its owner holds its unit; every
/// thread anywhere in its wait queue, and the requester for the requested
/// mutex, awaits one unit.  Spinning mutexes and free ids take no part.
pub proof fn law_mutex_tables_meaning(
    list: Seq<Option<KernelMutex>>,
    n: nat,
    requester: int,
    requested: int,
    t: int,
    mid: int,
)
    requires
        0 <= t < n,
        0 <= mid < list.len(),
    ensures
        mutex_work(list).len() == list.len(),
        mutex_alloc(list, n).len() == n,
        mutex_need(list, n, requester, requested).len() == n,
        mutex_alloc(list, n)[t].len() == list.len(),
        mutex_need(list, n, requester, requested)[t].len() == list.len(),
        list[mid] matches Some(KernelMutex::Blocking(m)) ==> {
            &&& (m.owner is None <==> mutex_work(list)[mid] == 1)
            &&& (m.owner is Some <==> mutex_work(list)[mid] == 0)
            &&& (m.owner == Some(t as usize) <==> mutex_alloc(list, n)[t][mid] == 1)
            &&& (m.owner != Some(t as usize) <==> mutex_alloc(list, n)[t][mid] == 0)
            &&& (m.wait_queue@.contains(t as usize) ==> mutex_need(list, n, requester, requested)[t][mid] == 1)
            &&& (!m.wait_queue@.contains(t as usize) && !(t == requester && mid == requested) ==> mutex_need(
                list,
                n,
                requester,
                requested,
            )[t][mid] == 0)
        },
        !(list[mid] matches Some(KernelMutex::Blocking(_))) ==> {
            &&& mutex_work(list)[mid] == 0
            &&& mutex_alloc(list, n)[t][mid] == 0
            &&& !(t == requester && mid == requested) ==> mutex_need(list, n, requester, requested)[t][mid] == 0
        },
        t == requester && mid == requested ==> mutex_need(list, n, requester, requested)[t][mid] == 1,
{
}

/// What the semaphore tables say of thread `t` and semaphore `sid`: the free
/// units are the positive part of the count; a thread holds the units its owner
/// record counts (none without a record); every thread anywhere in the wait
/// queue, and the requester for the requested semaphore, awaits one unit.
/// Free ids take no part.
pub proof fn law_semaphore_tables_meaning(
    list: Seq<Option<Semaphore>>,
    n: nat,
    requester: int,
    requested: int,
    t: int,
    sid: int,
)
    requires
        0 <= t < n,
        n <= usize::MAX + 1,
        0 <= sid < list.len(),
    ensures
        sem_work(list).len() == list.len(),
        sem_alloc(list, n).len() == n,
        sem_need(list, n, requester, requested).len() == n,
        sem_alloc(list, n)[t].len() == list.len(),
        sem_need(list, n, requester, requested)[t].len() == list.len(),
        list[sid] matches Some(sem) ==> {
            &&& (sem@.count > 0 ==> sem_work(list)[sid] == sem@.count)
            &&& (sem@.count <= 0 ==> sem_work(list)[sid] == 0)
            &&& (sem@.owners.contains_key(t as usize) ==> sem_alloc(list, n)[t][sid] == sem@.owners[t as usize])
            &&& (!sem@.owners.contains_key(t as usize) ==> sem_alloc(list, n)[t][sid] == 0)
            &&& (sem@.queue.contains(t as usize) ==> sem_need(list, n, requester, requested)[t][sid] == 1)
            &&& (!sem@.queue.contains(t as usize) && !(t == requester && sid == requested) ==> sem_need(
                list,
                n,
                requester,
                requested,
            )[t][sid] == 0)
        },
        list[sid] is None ==> {
            &&& sem_work(list)[sid] == 0
            &&& sem_alloc(list, n)[t][sid] == 0
            &&& !(t == requester && sid == requested) ==> sem_need(list, n, requester, requested)[t][sid] == 0
        },
        t == requester && sid == requested ==> sem_need(list, n, requester, requested)[t][sid] == 1,
{
}

proof fn lemma_rows_view(v: &Vec<Vec<usize>>, spec_rows: Seq<Seq<usize>>)
    requires
        v@.len() == spec_rows.len(),
        forall|i: int| 0 <= i < v@.len() ==> #[trigger] v@[i]@ == spec_rows[i],
    ensures
        v.deep_view() == spec_rows,
{
    assert forall|i: int| 0 <= i < v@.len() implies #[trigger] v.deep_view()[i] == spec_rows[i] by {
        assert(v.deep_view()[i] =~= v@[i]@);
    }
    assert(v.deep_view() =~= spec_rows);
}

fn mutex_tables(list: &Vec<Option<KernelMutex>>, n: usize, requester: usize, requested: usize) -> (r: (
    Vec<usize>,
    Vec<Vec<usize>>,
    Vec<Vec<usize>>,
))
    ensures
        r.0@ == mutex_work(list@),
        r.1.deep_view() == mutex_alloc(list@, n as nat),
        r.2.deep_view() == mutex_need(list@, n as nat, requester as int, requested as int),
{
    let m = list.len();
    let mut work: Vec<usize> = Vec::new();
    let mut mid: usize = 0;
    while mid < m
        invariant
            m == list@.len(),
            mid <= m,
            work@ =~= mutex_work(list@).take(mid as int),
        decreases m - mid,
    {
        let v: usize = match &list[mid] {
            Some(KernelMutex::Blocking(mx)) => if mx.owner.is_none() {
                1
            } else {
                0
            },
            _ => 0,
        };
        work.push(v);
        mid = mid + 1;
    }
    let ghost sa = mutex_alloc(list@, n as nat);
    let ghost sn = mutex_need(list@, n as nat, requester as int, requested as int);
    let mut alloc: Vec<Vec<usize>> = Vec::new();
    let mut need: Vec<Vec<usize>> = Vec::new();
    let mut t: usize = 0;
    while t < n
        invariant
            m == list@.len(),
            t <= n,
            sa == mutex_alloc(list@, n as nat),
            sn == mutex_need(list@, n as nat, requester as int, requested as int),
            alloc@.len() == t,
            need@.len() == t,
            forall|i: int| 0 <= i < t ==> #[trigger] alloc@[i]@ == sa[i],
            forall|i: int| 0 <= i < t ==> #[trigger] need@[i]@ == sn[i],
        decreases n - t,
    {
        let mut arow: Vec<usize> = Vec::new();
        let mut nrow: Vec<usize> = Vec::new();
        let mut mid: usize = 0;
        while mid < m
            invariant
                m == list@.len(),
                t < n,
                mid <= m,
                sa == mutex_alloc(list@, n as nat),
                sn == mutex_need(list@, n as nat, requester as int, requested as int),
                arow@ =~= sa[t as int].take(mid as int),
                nrow@ =~= sn[t as int].take(mid as int),
            decreases m - mid,
        {
            let (a, w): (usize, usize) = match &list[mid] {
                Some(KernelMutex::Blocking(mx)) => {
                    let a: usize = match mx.owner {
                        Some(o) => if o == t {
                            1
                        } else {
                            0
                        },
                        None => 0,
                    };
                    let w: usize = if queue_contains(&mx.wait_queue, t) {
                        1
                    } else {
                        0
                    };
                    (a, w)
                },
                _ => (0, 0),
            };
            let nv: usize = if t == requester && mid == requested {
                1
            } else {
                w
            };
            arow.push(a);
            nrow.push(nv);
            mid = mid + 1;
        }
        alloc.push(arow);
        need.push(nrow);
        t = t + 1;
    }
    proof {
        lemma_rows_view(&alloc, sa);
        lemma_rows_view(&need, sn);
    }
    (work, alloc, need)
}

fn sem_tables(list: &Vec<Option<Semaphore>>, n: usize, requester: usize, requested: usize) -> (r: (
    Vec<usize>,
    Vec<Vec<usize>>,
    Vec<Vec<usize>>,
))
    ensures
        r.0@ == sem_work(list@),
        r.1.deep_view() == sem_alloc(list@, n as nat),
        r.2.deep_view() == sem_need(list@, n as nat, requester as int, requested as int),
{
    let m = list.len();
    let mut work: Vec<usize> = Vec::new();
    let mut sid: usize = 0;
    while sid < m
        invariant
            m == list@.len(),
            sid <= m,
            work@ =~= sem_work(list@).take(sid as int),
        decreases m - sid,
    {
        let v: usize = match &list[sid] {
            Some(sem) => if sem.inner.count > 0 {
                sem.inner.count as usize
            } else {
                0
            },
            None => 0,
        };
        work.push(v);
        sid = sid + 1;
    }
    let ghost sa = sem_alloc(list@, n as nat);
    let ghost sn = sem_need(list@, n as nat, requester as int, requested as int);
    let mut alloc: Vec<Vec<usize>> = Vec::new();
    let mut need: Vec<Vec<usize>> = Vec::new();
    let mut t: usize = 0;
    while t < n
        invariant
            m == list@.len(),
            t <= n,
            sa == sem_alloc(list@, n as nat),
            sn == sem_need(list@, n as nat, requester as int, requested as int),
            alloc@.len() == t,
            need@.len() == t,
            forall|i: int| 0 <= i < t ==> #[trigger] alloc@[i]@ == sa[i],
            forall|i: int| 0 <= i < t ==> #[trigger] need@[i]@ == sn[i],
        decreases n - t,
    {
        let mut arow: Vec<usize> = Vec::new();
        let mut nrow: Vec<usize> = Vec::new();
        let mut sid: usize = 0;
        while sid < m
            invariant
                m == list@.len(),
                t < n,
                sid <= m,
                sa == sem_alloc(list@, n as nat),
                sn == sem_need(list@, n as nat, requester as int, requested as int),
                arow@ =~= sa[t as int].take(sid as int),
                nrow@ =~= sn[t as int].take(sid as int),
            decreases m - sid,
        {
            let (a, w): (usize, usize) = match &list[sid] {
                Some(sem) => {
                    let a = sem.held_by(t);
                    let w: usize = if queue_contains(&sem.inner.wait_queue, t) {
                        1
                    } else {
                        0
                    };
                    (a, w)
                },
                None => (0, 0),
            };
            let nv: usize = if t == requester && sid == requested {
                1
            } else {
                w
            };
            arow.push(a);
            nrow.push(nv);
            sid = sid + 1;
        }
        alloc.push(arow);
        need.push(nrow);
        t = t + 1;
    }
    proof {
        lemma_rows_view(&alloc, sa);
        lemma_rows_view(&need, sn);
    }
    (work, alloc, need)
}

/// Reports whether thread `requester_tid`, asking for mutex `requested_mutex_id`,
/// would be deadlocked: only blocking mutexes take part; each holds one unit.
pub fn check_mutex_deadlock(process: &ProcessSync, requester_tid: usize, requested_mutex_id: usize) -> (r: bool)
    requires
        requester_tid < process.task_count,
        requested_mutex_id < process.mutex_list@.len(),
        mutex_threads_known(process.mutex_list@, process.task_count as nat),
    ensures
        r == deadlocked(
            mutex_work(process.mutex_list@),
            mutex_alloc(process.mutex_list@, process.task_count as nat),
            mutex_need(process.mutex_list@, process.task_count as nat, requester_tid as int, requested_mutex_id as int),
            requester_tid as int,
        ),
{
    let (work, allocation, need) = mutex_tables(&process.mutex_list, process.task_count, requester_tid, requested_mutex_id);
    proof {
        let w = mutex_work(process.mutex_list@);
        let a = mutex_alloc(process.mutex_list@, process.task_count as nat);
        assert(well_shaped(w, a, need.deep_view()));
        assert forall|j: int| 0 <= j < w.len() implies #[trigger] crate::deadlock::available(w, a, Set::full(), j) <= usize::MAX by {
            lemma_mutex_released_bound(process.mutex_list@, process.task_count as nat, j, process.task_count as int);
        }
    }
    detect_deadlock(work, &allocation, &need, requester_tid)
}

/// At most one thread holds a mutex.
proof fn lemma_mutex_released_bound(list: Seq<Option<KernelMutex>>, n: nat, j: int, k: int)
    requires
        0 <= j < list.len(),
        0 <= k <= n,
        n <= usize::MAX,
    ensures
        crate::deadlock::released(mutex_alloc(list, n), Set::full(), j, k) + mutex_work(list)[j] <= 1,
        crate::deadlock::released(mutex_alloc(list, n), Set::full(), j, k) <= 1,
    decreases k,
{
    if k > 0 {
        lemma_mutex_released_bound(list, n, j, k - 1);
        match list[j] {
            Some(KernelMutex::Blocking(m)) => {
                if m.owner == Some((k - 1) as usize) {
                    assert(crate::deadlock::released(mutex_alloc(list, n), Set::full(), j, k - 1) == 0) by {
                        lemma_mutex_released_before_owner(list, n, j, k - 1);
                    }
                }
            },
            _ => {},
        }
    }
}

proof fn lemma_mutex_released_before_owner(list: Seq<Option<KernelMutex>>, n: nat, j: int, k: int)
    requires
        0 <= j < list.len(),
        0 <= k <= n,
        list[j] matches Some(KernelMutex::Blocking(m)) && m.owner matches Some(o) && o >= k,
    ensures
        crate::deadlock::released(mutex_alloc(list, n), Set::full(), j, k) == 0,
    decreases k,
{
    if k > 0 {
        lemma_mutex_released_before_owner(list, n, j, k - 1);
    }
}

/// Reports whether thread `requester_tid`, asking for semaphore `requested_sem_id`,
/// would be deadlocked.
pub fn check_semaphore_deadlock(process: &ProcessSync, requester_tid: usize, requested_sem_id: usize) -> (r: bool)
    requires
        requester_tid < process.task_count,
        requested_sem_id < process.semaphore_list@.len(),
        sem_threads_known(process.semaphore_list@, process.task_count as nat),
        totals_fit(sem_work(process.semaphore_list@), sem_alloc(process.semaphore_list@, process.task_count as nat)),
    ensures
        r == deadlocked(
            sem_work(process.semaphore_list@),
            sem_alloc(process.semaphore_list@, process.task_count as nat),
            sem_need(process.semaphore_list@, process.task_count as nat, requester_tid as int, requested_sem_id as int),
            requester_tid as int,
        ),
{
    let (work, allocation, need) = sem_tables(&process.semaphore_list, process.task_count, requester_tid, requested_sem_id);
    detect_deadlock(work, &allocation, &need, requester_tid)
}

// ---------------------------------------------------------------------------
// System calls
/// The deadlock check of a lock request applies: detection is on and the
/// requested mutex is a locked blocking mutex.
pub open spec fn mutex_lock_checked(process: ProcessSync, mutex_id: int) -> bool {
    &&& process.deadlock_detection_enabled
    &&& process.mutex_list@[mutex_id] matches Some(KernelMutex::Blocking(m))
    &&& m.owner is Some
}

/// The deadlock check runs on a lock request exactly when detection is on and
/// the mutex is a blocking mutex that some thread holds.
pub proof fn law_lock_check_condition(process: ProcessSync, mutex_id: int)
    requires
        0 <= mutex_id < process.mutex_list@.len(),
    ensures
        !process.deadlock_detection_enabled ==> !mutex_lock_checked(process, mutex_id),
        process.mutex_list@[mutex_id] matches Some(KernelMutex::Spin) ==> !mutex_lock_checked(process, mutex_id),
        (process.mutex_list@[mutex_id] matches Some(KernelMutex::Blocking(m)) && m.owner is None)
            ==> !mutex_lock_checked(process, mutex_id),
        process.deadlock_detection_enabled ==> ((process.mutex_list@[mutex_id] matches Some(
            KernelMutex::Blocking(m),
        ) && m.owner is Some) ==> mutex_lock_checked(process, mutex_id)),
{
}

/// Locks mutex `mutex_id` for thread `tid`: refused with [`DEADLOCK_REPLY`] when
/// detection is on, the mutex is a held blocking mutex, and the request would
/// deadlock; otherwise the kernel is told to lock it.
pub fn sys_mutex_lock(process: &ProcessSync, mutex_id: usize, tid: usize) -> (r: (isize, SyncAction))
    requires
        mutex_id < process.mutex_list@.len(),
        process.mutex_list@[mutex_id as int] is Some,
        mutex_lock_checked(*process, mutex_id as int) ==> {
            &&& tid < process.task_count
            &&& mutex_threads_known(process.mutex_list@, process.task_count as nat)
        },
    ensures
        r == if mutex_lock_checked(*process, mutex_id as int) && deadlocked(
            mutex_work(process.mutex_list@),
            mutex_alloc(process.mutex_list@, process.task_count as nat),
            mutex_need(process.mutex_list@, process.task_count as nat, tid as int, mutex_id as int),
            tid as int,
        ) {
            (DEADLOCK_REPLY, SyncAction::Continue)
        } else {
            (0, SyncAction::LockMutex(mutex_id))
        },
        !mutex_lock_checked(*process, mutex_id as int) ==> r == (0isize, SyncAction::LockMutex(mutex_id)),
{
    let (is_locked, is_blocking) = match &process.mutex_list[mutex_id] {
        Some(KernelMutex::Blocking(m)) => (m.owner.is_some(), true),
        _ => (false, false),
    };
    if is_blocking && process.deadlock_detection_enabled && is_locked {
        if check_mutex_deadlock(process, tid, mutex_id) {
            return (DEADLOCK_REPLY, SyncAction::Continue);
        }
    }
    (0, SyncAction::LockMutex(mutex_id))
}

/// Unlocks mutex `mutex_id`: the kernel is told to unlock it.
pub fn sys_mutex_unlock(process: &ProcessSync, mutex_id: usize) -> (r: (isize, SyncAction))
    requires
        mutex_id < process.mutex_list@.len(),
        process.mutex_list@[mutex_id as int] is Some,
    ensures
        r == (0isize, SyncAction::UnlockMutex(mutex_id)),
{
    (0, SyncAction::UnlockMutex(mutex_id))
}

/// Thread `tid` gives back a unit of semaphore `sem_id`; the oldest waiter, if
/// one is woken, is named in the action.
pub fn sys_semaphore_up(process: &mut ProcessSync, sem_id: usize, tid: usize) -> (r: (isize, SyncAction))
    requires
        sem_id < old(process).semaphore_list@.len(),
        old(process).semaphore_list@[sem_id as int] is Some,
        ({
            let s = old(process).semaphore_list@[sem_id as int].unwrap()@;
            &&& s.count < isize::MAX
            &&& s.count + 1 <= 0 && s.queue.len() > 0 ==> held(release(s.owners, tid), s.queue[0])
                < usize::MAX
        }),
    ensures
        ({
            let s = old(process).semaphore_list@[sem_id as int].unwrap()@;
            let (s2, woken) = up_spec(s, tid);
            &&& final(process).semaphore_list@.len() == old(process).semaphore_list@.len()
            &&& final(process).semaphore_list@[sem_id as int] is Some
            &&& final(process).semaphore_list@[sem_id as int].unwrap()@ == s2
            &&& r == (0isize, match woken {
                Some(w) => SyncAction::Wakeup(w),
                None => SyncAction::Continue,
            })
        }),
        forall|q: int|
            0 <= q < old(process).semaphore_list@.len() && q != sem_id ==> #[trigger] final(process).semaphore_list@[q]
                == old(process).semaphore_list@[q],
        final(process).task_count == old(process).task_count,
        final(process).mutex_list == old(process).mutex_list,
        final(process).condvar_list == old(process).condvar_list,
        final(process).deadlock_detection_enabled == old(process).deadlock_detection_enabled,
{
    let woken = match &mut process.semaphore_list[sem_id] {
        Some(sem) => sem.up(tid),
        None => None,
    };
    match woken {
        Some(w) => (0, SyncAction::Wakeup(w)),
        None => (0, SyncAction::Continue),
    }
}

/// The deadlock check of a semaphore request applies: detection is on and no
/// unit is free.
pub open spec fn sem_down_checked(process: ProcessSync, sem_id: int) -> bool {
    &&& process.deadlock_detection_enabled
    &&& process.semaphore_list@[sem_id].unwrap()@.count < 1
}

/// The deadlock check runs on a semaphore request exactly when detection is on
/// and no unit of the semaphore is free.
pub proof fn law_down_check_condition(process: ProcessSync, sem_id: int)
    requires
        0 <= sem_id < process.semaphore_list@.len(),
        process.semaphore_list@[sem_id] is Some,
    ensures
        sem_down_checked(process, sem_id) <==> (process.deadlock_detection_enabled
            && process.semaphore_list@[sem_id].unwrap().inner.count < 1),
{
}

/// Thread `tid` asks for a unit of semaphore `sem_id`: refused with
/// [`DEADLOCK_REPLY`] (nothing changes) when detection is on, no unit is free
/// and the request would deadlock; otherwise the semaphore's `down` runs and the
/// caller blocks when it was queued.
pub fn sys_semaphore_down(process: &mut ProcessSync, sem_id: usize, tid: usize) -> (r: (isize, SyncAction))
    requires
        sem_id < old(process).semaphore_list@.len(),
        old(process).semaphore_list@[sem_id as int] is Some,
        ({
            let s = old(process).semaphore_list@[sem_id as int].unwrap()@;
            &&& s.count > isize::MIN
            &&& s.count >= 1 ==> held(s.owners, tid) < usize::MAX
        }),
        sem_down_checked(*old(process), sem_id as int) ==> {
            &&& tid < old(process).task_count
            &&& sem_threads_known(old(process).semaphore_list@, old(process).task_count as nat)
            &&& totals_fit(
                sem_work(old(process).semaphore_list@),
                sem_alloc(old(process).semaphore_list@, old(process).task_count as nat),
            )
        },
    ensures
        ({
            let s = old(process).semaphore_list@[sem_id as int].unwrap()@;
            let (s2, blocked) = down_spec(s, tid);
            if sem_down_checked(*old(process), sem_id as int) && deadlocked(
                sem_work(old(process).semaphore_list@),
                sem_alloc(old(process).semaphore_list@, old(process).task_count as nat),
                sem_need(
                    old(process).semaphore_list@,
                    old(process).task_count as nat,
                    tid as int,
                    sem_id as int,
                ),
                tid as int,
            ) {
                &&& r == (DEADLOCK_REPLY, SyncAction::Continue)
                &&& final(process).semaphore_list == old(process).semaphore_list
            } else {
                &&& r == (0isize, if blocked {
                    SyncAction::Block
                } else {
                    SyncAction::Continue
                })
                &&& final(process).semaphore_list@.len() == old(process).semaphore_list@.len()
                &&& final(process).semaphore_list@[sem_id as int] is Some
                &&& final(process).semaphore_list@[sem_id as int].unwrap()@ == s2
                &&& forall|q: int|
                    0 <= q < old(process).semaphore_list@.len() && q != sem_id ==> #[trigger] final(process).semaphore_list@[q]
                        == old(process).semaphore_list@[q]
            }
        }),
        final(process).task_count == old(process).task_count,
        final(process).mutex_list == old(process).mutex_list,
        final(process).condvar_list == old(process).condvar_list,
        final(process).deadlock_detection_enabled == old(process).deadlock_detection_enabled,
        !sem_down_checked(*old(process), sem_id as int) ==> r.0 == 0,
{
    if process.deadlock_detection_enabled {
        let count = match &process.semaphore_list[sem_id] {
            Some(sem) => sem.inner.count,
            None => 1,
        };
        if count < 1 {
            if check_semaphore_deadlock(process, tid, sem_id) {
                return (DEADLOCK_REPLY, SyncAction::Continue);
            }
        }
    }
    let blocked = match &mut process.semaphore_list[sem_id] {
        Some(sem) => sem.down(tid),
        None => false,
    };
    if blocked {
        (0, SyncAction::Block)
    } else {
        (0, SyncAction::Continue)
    }
}

/// Signals condition variable `condvar_id`.
pub fn sys_condvar_signal(process: &ProcessSync, condvar_id: usize) -> (r: (isize, SyncAction))
    requires
        condvar_id < process.condvar_list@.len(),
        process.condvar_list@[condvar_id as int] is Some,
    ensures
        r == (0isize, SyncAction::SignalCondvar(condvar_id)),
{
    (0, SyncAction::SignalCondvar(condvar_id))
}

/// Waits on condition variable `condvar_id`, releasing mutex `mutex_id` meanwhile.
pub fn sys_condvar_wait(process: &ProcessSync, condvar_id: usize, mutex_id: usize) -> (r: (
    isize,
    SyncAction,
))
    requires
        condvar_id < process.condvar_list@.len(),
        process.condvar_list@[condvar_id as int] is Some,
        mutex_id < process.mutex_list@.len(),
        process.mutex_list@[mutex_id as int] is Some,
    ensures
        r == (0isize, SyncAction::WaitCondvar { condvar_id, mutex_id }),
{
    (0, SyncAction::WaitCondvar { condvar_id, mutex_id })
}

/// Turns deadlock detection on (`1`) or off (`0`); any other value is refused with `-1`.
pub fn sys_enable_deadlock_detect(process: &mut ProcessSync, enabled: usize) -> (r: isize)
    ensures
        r == if enabled > 1 {
            -1isize
        } else {
            0isize
        },
        final(process).deadlock_detection_enabled == if enabled > 1 {
            old(process).deadlock_detection_enabled
        } else {
            enabled == 1
        },
        final(process).task_count == old(process).task_count,
        final(process).mutex_list == old(process).mutex_list,
        final(process).semaphore_list == old(process).semaphore_list,
        final(process).condvar_list == old(process).condvar_list,
{
    if enabled > 1 {
        return -1;
    }
    process.deadlock_detection_enabled = enabled == 1;
    0
}

/// Puts the calling thread to sleep for `ms` milliseconds from `now_ms`.
pub fn sys_sleep(now_ms: usize, ms: usize) -> (r: (isize, SyncAction))
    requires
        now_ms + ms <= usize::MAX,
    ensures
        r == (0isize, SyncAction::SleepUntil((now_ms + ms) as usize)),
{
    let expire_ms = now_ms + ms;
    (0, SyncAction::SleepUntil(expire_ms))
}

} // verus!
