//! Counting semaphore with per-task ownership records.
//!
//! Tasks are named by their thread ids.  The semaphore decides; the scheduler
//! acts: `down` reports whether the caller must block (it is then queued), and
//! `up` reports which waiting task, if any, must be woken (it already owns the
//! unit it was waiting for).
use std::collections::BTreeMap;
use std::collections::VecDeque;
use vstd::prelude::*;

verus! {

broadcast use {vstd::std_specs::btree::group_btree_axioms, vstd::laws_cmp::group_laws_cmp};

/// Abstract state of a semaphore.
pub struct SemState {
    /// Free units; when negative, its magnitude is the number of waiting tasks.
    pub count: int,
    /// Units held by each task that was ever recorded as an owner.
    pub owners: Map<usize, usize>,
    /// Waiting tasks, oldest first.
    pub queue: Seq<usize>,
}

/// Units held by task `tid` (zero when it has no record).
pub open spec fn held(owners: Map<usize, usize>, tid: usize) -> nat {
    if owners.contains_key(tid) {
        owners[tid] as nat
    } else {
        0
    }
}

/// Records one more unit for `tid`.
pub open spec fn grant(owners: Map<usize, usize>, tid: usize) -> Map<usize, usize> {
    owners.insert(tid, (held(owners, tid) + 1) as usize)
}

/// Gives back one unit of `tid`, if it holds any.
pub open spec fn release(owners: Map<usize, usize>, tid: usize) -> Map<usize, usize> {
    if owners.contains_key(tid) && owners[tid] > 0 {
        owners.insert(tid, (owners[tid] - 1) as usize)
    } else {
        owners
    }
}

/// The waiting queue holds exactly as many tasks as the count is below zero.
pub open spec fn sem_wf(s: SemState) -> bool {
    s.queue.len() == if s.count < 0 {
        -s.count
    } else {
        0
    }
}

/// Effect of `down` by task `tid`: the new state and whether `tid` blocks.
pub open spec fn down_spec(s: SemState, tid: usize) -> (SemState, bool) {
    let count = s.count - 1;
    if count < 0 {
        (SemState { count, owners: s.owners, queue: s.queue.push(tid) }, true)
    } else {
        (SemState { count, owners: grant(s.owners, tid), queue: s.queue }, false)
    }
}

/// Effect of `up` by task `tid`: the new state and the task to wake, if any.
pub open spec fn up_spec(s: SemState, tid: usize) -> (SemState, Option<usize>) {
    let owners = release(s.owners, tid);
    let count = s.count + 1;
    if count <= 0 && s.queue.len() > 0 {
        let w = s.queue[0];
        (
            SemState { count, owners: grant(owners, w), queue: s.queue.subrange(1, s.queue.len() as int) },
            Some(w),
        )
    } else {
        (SemState { count, owners, queue: s.queue }, None)
    }
}

/// Inner state of a semaphore.
pub struct SemaphoreInner {
    /// Free units; negative when tasks wait.
    pub count: isize,
    /// Units held by each task.
    pub owners: BTreeMap<usize, usize>,
    /// Thread ids of the waiting tasks, oldest first.
    pub wait_queue: VecDeque<usize>,
}

impl SemaphoreInner {
    pub open spec fn view(&self) -> SemState {
        SemState { count: self.count as int, owners: self.owners@, queue: self.wait_queue@ }
    }
}

/// A counting semaphore.
pub struct Semaphore {
    /// The semaphore's state.
    pub inner: SemaphoreInner,
}

impl Semaphore {
    pub open spec fn view(&self) -> SemState {
        self.inner.view()
    }

    /// Creates a semaphore with `res_count` free units, no owners and no waiters.
    pub fn new(res_count: usize) -> (s: Self)
        ensures
            s@.count == res_count as isize,
            s@.owners == Map::<usize, usize>::empty(),
            s@.queue == Seq::<usize>::empty(),
            res_count <= isize::MAX ==> sem_wf(s@),
    {
        Semaphore {
            inner: SemaphoreInner {
                count: res_count as isize,
                owners: BTreeMap::new(),
                wait_queue: VecDeque::new(),
            },
        }
    }

    /// Units of this semaphore that task `tid` holds.
    pub fn held_by(&self, tid: usize) -> (r: usize)
        ensures
            r == held(self@.owners, tid),
    {
        match self.inner.owners.get(&tid) {
            Some(c) => *c,
            None => 0,
        }
    }

    /// Task `tid` gives back a unit.  If a task waits, the oldest one is granted
    /// the unit and returned, to be woken.
    pub fn up(&mut self, tid: usize) -> (woken: Option<usize>)
        requires
            old(self)@.count < isize::MAX,
            old(self)@.count + 1 <= 0 && old(self)@.queue.len() > 0 ==> held(
                release(old(self)@.owners, tid),
                old(self)@.queue[0],
            ) < usize::MAX,
        ensures
            (final(self)@, woken) == up_spec(old(self)@, tid),
            sem_wf(old(self)@) ==> sem_wf(final(self)@),
    {
        let held_now = self.held_by(tid);
        if held_now > 0 {
            self.inner.owners.insert(tid, held_now - 1);
        }
        proof {
            assert(self@.owners =~= release(old(self)@.owners, tid));
        }
        self.inner.count = self.inner.count + 1;
        if self.inner.count <= 0 {
            if let Some(w) = self.inner.wait_queue.pop_front() {
                let h = self.held_by(w);
                self.inner.owners.insert(w, h + 1);
                return Some(w);
            }
        }
        None
    }

    /// Task `tid` asks for a unit.  Returns `true` when none is free: the task is
    /// then queued and must block; otherwise it now holds one more unit.
    pub fn down(&mut self, tid: usize) -> (blocked: bool)
        requires
            old(self)@.count > isize::MIN,
            old(self)@.count >= 1 ==> held(old(self)@.owners, tid) < usize::MAX,
        ensures
            (final(self)@, blocked) == down_spec(old(self)@, tid),
            blocked <==> old(self)@.count < 1,
            sem_wf(old(self)@) ==> sem_wf(final(self)@),
    {
        self.inner.count = self.inner.count - 1;
        if self.inner.count < 0 {
            self.inner.wait_queue.push_back(tid);
            true
        } else {
            let h = self.held_by(tid);
            self.inner.owners.insert(tid, h + 1);
            false
        }
    }
}

/// What `down` by task `tid` does: the count drops by one; when no unit was
/// free the task joins the back of the queue and nobody's holding changes;
/// otherwise the task holds one more unit, every other holding and the queue
/// stay as they were.
pub proof fn law_down_effect(s: SemState, tid: usize, other: usize)
    requires
        s.count >= 1 ==> held(s.owners, tid) < usize::MAX,
    ensures
        ({
            let (s2, blocked) = down_spec(s, tid);
            &&& s2.count == s.count - 1
            &&& blocked <==> s.count <= 0
            &&& blocked ==> s2.queue == s.queue.push(tid) && s2.owners == s.owners
            &&& !blocked ==> s2.queue == s.queue && held(s2.owners, tid) == held(s.owners, tid) + 1
            &&& other != tid ==> held(s2.owners, other) == held(s.owners, other)
        }),
{
}

/// What `up` by task `tid` does: the count rises by one; `tid` gives back one
/// unit if it holds any; when tasks were waiting and the count was below zero,
/// the oldest waiter leaves the queue, is returned, and holds one more unit;
/// otherwise nobody is woken and the queue stays.  Every other holding stays.
pub proof fn law_up_effect(s: SemState, tid: usize, other: usize)
    requires
        sem_wf(s),
        s.count < 0 ==> held(release(s.owners, tid), s.queue[0]) < usize::MAX,
    ensures
        ({
            let (s2, woken) = up_spec(s, tid);
            let given_back: int = if held(s.owners, tid) > 0 {
                held(s.owners, tid) - 1
            } else {
                held(s.owners, tid) as int
            };
            &&& s2.count == s.count + 1
            &&& (s.count < 0 <==> woken is Some)
            &&& match woken {
                None => {
                    &&& s2.queue == s.queue
                    &&& held(s2.owners, tid) == given_back
                    &&& other != tid ==> held(s2.owners, other) == held(s.owners, other)
                },
                Some(w) => {
                    &&& w == s.queue[0]
                    &&& s2.queue == s.queue.subrange(1, s.queue.len() as int)
                    &&& w != tid ==> held(s2.owners, w) == held(s.owners, w) + 1
                    &&& w != tid ==> held(s2.owners, tid) == given_back
                    &&& w == tid ==> held(s2.owners, tid) == given_back + 1
                    &&& other != tid && other != w ==> held(s2.owners, other) == held(s.owners, other)
                },
            }
        }),
{
}

/// Units held by a task are its owner record, or none without a record.
pub proof fn law_held_is_owner_record(owners: Map<usize, usize>, tid: usize)
    ensures
        owners.contains_key(tid) ==> held(owners, tid) == owners[tid],
        !owners.contains_key(tid) ==> held(owners, tid) == 0,
{
}

/// Taking a free unit and giving it back leaves the count, the waiting queue and
/// every task's holding as they were.
pub proof fn law_down_then_up_restores(s: SemState, tid: usize)
    requires
        s.count >= 1,
        held(s.owners, tid) < usize::MAX,
    ensures
        ({
            let (s1, blocked) = down_spec(s, tid);
            let (s2, woken) = up_spec(s1, tid);
            &&& !blocked
            &&& woken is None
            &&& s2.count == s.count
            &&& s2.queue == s.queue
            &&& forall|t: usize| #[trigger] held(s2.owners, t) == held(s.owners, t)
        }),
{
}

/// The count and the waiting queue stay in step under `down` and `up`.
pub proof fn law_queue_matches_count(s: SemState, tid: usize)
    requires
        sem_wf(s),
    ensures
        sem_wf(down_spec(s, tid).0),
        sem_wf(up_spec(s, tid).0),
{
}

/// The state after the operations `ops` in order: `(true, t)` is a `down` by
/// task `t`, `(false, t)` an `up` by task `t`.
pub open spec fn run_ops(s: SemState, ops: Seq<(bool, usize)>) -> SemState
    decreases ops.len(),
{
    if ops.len() == 0 {
        s
    } else {
        let prev = run_ops(s, ops.drop_last());
        let (is_down, tid) = ops.last();
        if is_down {
            down_spec(prev, tid).0
        } else {
            up_spec(prev, tid).0
        }
    }
}

/// A semaphore made with `n` units keeps, through any sequence of `down` and
/// `up`, exactly one waiting task per missing unit.
pub proof fn law_queue_matches_count_after_any_run(n: usize, ops: Seq<(bool, usize)>)
    requires
        n <= isize::MAX,
    ensures
        sem_wf(run_ops(SemState { count: n as int, owners: Map::empty(), queue: Seq::empty() }, ops)),
    decreases ops.len(),
{
    if ops.len() > 0 {
        law_queue_matches_count_after_any_run(n, ops.drop_last());
    }
}

/// Waiting tasks are woken in the order in which they blocked: a task that blocks
/// joins the back of the queue, and `up` wakes the front.
pub proof fn law_first_come_first_woken(s: SemState, tid: usize, other: usize)
    requires
        sem_wf(s),
        s.count <= 0,
    ensures
        down_spec(s, tid).0.queue == s.queue.push(tid),
        s.count < 0 ==> up_spec(s, other).1 == Some(s.queue[0]),
{
}

} // verus!
