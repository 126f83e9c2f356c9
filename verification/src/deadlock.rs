//! Deadlock detection by the banker's safety test.
//!
//! A snapshot of a process's synchronisation state is summed up as three
//! tables over `n` tasks and `m` resources:
//! * `work[j]`: units of resource `j` that are free right now;
//! * `allocation[i][j]`: units of resource `j` that task `i` holds;
//! * `need[i][j]`: units of resource `j` that task `i` is waiting for.
//!
//! A task can run to completion when everything it waits for is free; once it
//! finishes it gives back what it holds.  A *safe order* is a sequence of
//! tasks in which every task can proceed with what is free at the start plus
//! what the tasks before it in the sequence have given back.  A task is
//! deadlocked when no safe order reaches it.
use vstd::prelude::*;

verus! {

/// Units of resource `j` held by the tasks of `finished` among the first `k` tasks.
pub open spec fn released(alloc: Seq<Seq<usize>>, finished: Set<int>, j: int, k: int) -> int
    decreases k,
{
    if k <= 0 {
        0
    } else {
        released(alloc, finished, j, k - 1) + if finished.contains(k - 1) {
            alloc[k - 1][j] as int
        } else {
            0
        }
    }
}

/// Units of resource `j` free once every task of `finished` has given back what it holds.
pub open spec fn available(
    work: Seq<usize>,
    alloc: Seq<Seq<usize>>,
    finished: Set<int>,
    j: int,
) -> int {
    work[j] + released(alloc, finished, j, alloc.len() as int)
}

/// Task `i` can proceed once the tasks of `finished` have given back their resources.
pub open spec fn can_proceed(
    work: Seq<usize>,
    alloc: Seq<Seq<usize>>,
    need: Seq<Seq<usize>>,
    finished: Set<int>,
    i: int,
) -> bool {
    forall|j: int| 0 <= j < work.len() ==> need[i][j] <= #[trigger] available(work, alloc, finished, j)
}

/// `order` lists tasks each of which can proceed after those before it have finished.
pub open spec fn is_safe_order(
    work: Seq<usize>,
    alloc: Seq<Seq<usize>>,
    need: Seq<Seq<usize>>,
    order: Seq<int>,
) -> bool {
    forall|k: int|
        0 <= k < order.len() ==> {
            &&& 0 <= #[trigger] order[k] < alloc.len()
            &&& can_proceed(work, alloc, need, order.take(k).to_set(), order[k])
        }
}

/// No safe order lets task `t` finish.
pub open spec fn deadlocked(
    work: Seq<usize>,
    alloc: Seq<Seq<usize>>,
    need: Seq<Seq<usize>>,
    t: int,
) -> bool {
    !exists|order: Seq<int>| is_safe_order(work, alloc, need, order) && #[trigger] order.contains(t)
}

/// The tables describe `alloc.len()` tasks over `work.len()` resources.
pub open spec fn well_shaped(work: Seq<usize>, alloc: Seq<Seq<usize>>, need: Seq<Seq<usize>>) -> bool {
    &&& alloc.len() == need.len()
    &&& forall|i: int| 0 <= i < alloc.len() ==> #[trigger] alloc[i].len() == work.len()
    &&& forall|i: int| 0 <= i < need.len() ==> #[trigger] need[i].len() == work.len()
}

/// Giving back everything that every task holds keeps each resource count in a `usize`.
pub open spec fn totals_fit(work: Seq<usize>, alloc: Seq<Seq<usize>>) -> bool {
    forall|j: int|
        0 <= j < work.len() ==> #[trigger] available(work, alloc, Set::<int>::full(), j)
            <= usize::MAX
}

/// No task outside `finished` can proceed.
pub open spec fn stuck(
    work: Seq<usize>,
    alloc: Seq<Seq<usize>>,
    need: Seq<Seq<usize>>,
    finished: Set<int>,
) -> bool {
    forall|i: int|
        0 <= i < alloc.len() && !finished.contains(i) ==> !#[trigger] can_proceed(
            work,
            alloc,
            need,
            finished,
            i,
        )
}

/// Every entry of `row` fits in the matching entry of `avail`.
pub open spec fn fits(row: Seq<usize>, avail: Seq<usize>) -> bool {
    forall|j: int| 0 <= j < row.len() ==> #[trigger] row[j] <= avail[j]
}

/// Number of `true` entries.
pub open spec fn count_true(s: Seq<bool>) -> nat
    decreases s.len(),
{
    if s.len() == 0 {
        0
    } else {
        count_true(s.drop_last()) + if s.last() {
            1nat
        } else {
            0nat
        }
    }
}

proof fn lemma_count_true_bound(s: Seq<bool>)
    ensures
        count_true(s) <= s.len(),
        count_true(s) == s.len() ==> forall|i: int| 0 <= i < s.len() ==> #[trigger] s[i],
    decreases s.len(),
{
    if s.len() > 0 {
        lemma_count_true_bound(s.drop_last());
        if count_true(s) == s.len() {
            assert forall|i: int| 0 <= i < s.len() implies #[trigger] s[i] by {
                if i < s.len() - 1 {
                    assert(s.drop_last()[i] == s[i]);
                }
            }
        }
    }
}

proof fn lemma_count_true_set(s: Seq<bool>, i: int)
    requires
        0 <= i < s.len(),
        !s[i],
    ensures
        count_true(s.update(i, true)) == count_true(s) + 1,
    decreases s.len(),
{
    let t = s.update(i, true);
    if i == s.len() - 1 {
        assert(t.drop_last() =~= s.drop_last());
    } else {
        assert(t.drop_last() =~= s.drop_last().update(i, true));
        lemma_count_true_set(s.drop_last(), i);
    }
}

proof fn lemma_released_insert(alloc: Seq<Seq<usize>>, s: Set<int>, x: int, j: int, k: int)
    requires
        !s.contains(x),
        0 <= x,
    ensures
        released(alloc, s.insert(x), j, k) == released(alloc, s, j, k) + if x < k {
            alloc[x][j] as int
        } else {
            0
        },
    decreases k,
{
    if k > 0 {
        lemma_released_insert(alloc, s, x, j, k - 1);
    }
}

proof fn lemma_released_none(alloc: Seq<Seq<usize>>, s: Set<int>, j: int, k: int)
    requires
        forall|x: int| 0 <= x < k ==> !#[trigger] s.contains(x),
    ensures
        released(alloc, s, j, k) == 0,
    decreases k,
{
    if k > 0 {
        lemma_released_none(alloc, s, j, k - 1);
    }
}

proof fn lemma_released_mono(alloc: Seq<Seq<usize>>, s: Set<int>, t: Set<int>, j: int, k: int)
    requires
        forall|x: int| #[trigger] s.contains(x) ==> t.contains(x),
    ensures
        released(alloc, s, j, k) <= released(alloc, t, j, k),
    decreases k,
{
    if k > 0 {
        lemma_released_mono(alloc, s, t, j, k - 1);
    }
}

/// A task that can proceed after `s` has finished can also proceed after any larger set.
proof fn lemma_can_proceed_mono(
    work: Seq<usize>,
    alloc: Seq<Seq<usize>>,
    need: Seq<Seq<usize>>,
    s: Set<int>,
    t: Set<int>,
    i: int,
)
    requires
        forall|x: int| #[trigger] s.contains(x) ==> t.contains(x),
        can_proceed(work, alloc, need, s, i),
    ensures
        can_proceed(work, alloc, need, t, i),
{
    assert forall|j: int| 0 <= j < work.len() implies need[i][j] <= #[trigger] available(
        work,
        alloc,
        t,
        j,
    ) by {
        lemma_released_mono(alloc, s, t, j, alloc.len() as int);
        assert(need[i][j] <= available(work, alloc, s, j));
    }
}

/// Every task of a safe order lies in any set that is closed under "can proceed".
proof fn lemma_safe_order_inside_stuck_set(
    work: Seq<usize>,
    alloc: Seq<Seq<usize>>,
    need: Seq<Seq<usize>>,
    fin: Set<int>,
    order: Seq<int>,
    k: int,
)
    requires
        is_safe_order(work, alloc, need, order),
        stuck(work, alloc, need, fin),
        0 <= k <= order.len(),
    ensures
        forall|q: int| 0 <= q < k ==> fin.contains(#[trigger] order[q]),
    decreases k,
{
    if k > 0 {
        lemma_safe_order_inside_stuck_set(work, alloc, need, fin, order, k - 1);
        let q = k - 1;
        let before = order.take(q).to_set();
        assert forall|x: int| #[trigger] before.contains(x) implies fin.contains(x) by {
            assert(order.take(q).contains(x));
            let p = choose|p: int| 0 <= p < order.take(q).len() && order.take(q)[p] == x;
            assert(order[p] == x);
        }
        assert(0 <= order[q] < alloc.len());
        lemma_can_proceed_mono(work, alloc, need, before, fin, order[q]);
    }
}

/// A task whose needs are already free is never deadlocked.
pub proof fn law_free_request_is_not_deadlocked(
    work: Seq<usize>,
    alloc: Seq<Seq<usize>>,
    need: Seq<Seq<usize>>,
    t: int,
)
    requires
        well_shaped(work, alloc, need),
        0 <= t < alloc.len(),
        forall|j: int| 0 <= j < work.len() ==> need[t][j] <= #[trigger] work[j],
    ensures
        !deadlocked(work, alloc, need, t),
{
    let order = seq![t];
    assert forall|j: int| 0 <= j < work.len() implies need[t][j] <= #[trigger] available(
        work,
        alloc,
        order.take(0).to_set(),
        j,
    ) by {
        assert(order.take(0).to_set() =~= Set::empty());
        lemma_released_none(alloc, order.take(0).to_set(), j, alloc.len() as int);
        assert(need[t][j] <= work[j]);
    }
    assert(is_safe_order(work, alloc, need, order));
    assert(order.contains(t)) by {
        assert(order[0] == t);
    }
}

/// Freeing more resources never creates a deadlock: a task that is not deadlocked
/// stays so when each free count grows.
pub proof fn law_more_free_resources_keep_progress(
    work: Seq<usize>,
    more: Seq<usize>,
    alloc: Seq<Seq<usize>>,
    need: Seq<Seq<usize>>,
    t: int,
)
    requires
        work.len() == more.len(),
        forall|j: int| 0 <= j < work.len() ==> #[trigger] work[j] <= more[j],
        !deadlocked(work, alloc, need, t),
    ensures
        !deadlocked(more, alloc, need, t),
{
    let order = choose|order: Seq<int>|
        is_safe_order(work, alloc, need, order) && #[trigger] order.contains(t);
    assert forall|k: int| 0 <= k < order.len() implies {
        &&& 0 <= #[trigger] order[k] < alloc.len()
        &&& can_proceed(more, alloc, need, order.take(k).to_set(), order[k])
    } by {
        let s = order.take(k).to_set();
        assert(can_proceed(work, alloc, need, s, order[k]));
        assert forall|j: int| 0 <= j < more.len() implies need[order[k]][j] <= #[trigger] available(
            more,
            alloc,
            s,
            j,
        ) by {
            assert(need[order[k]][j] <= available(work, alloc, s, j));
        }
    }
    assert(is_safe_order(more, alloc, need, order));
}

/// Finds the first unfinished task whose needs fit in `avail`.
fn first_ready(finish: &Vec<bool>, need: &Vec<Vec<usize>>, avail: &Vec<usize>) -> (r: Option<usize>)
    requires
        finish.len() == need.len(),
        forall|q: int| 0 <= q < need.len() ==> #[trigger] need@[q]@.len() == avail@.len(),
    ensures
        match r {
            Some(i) => {
                &&& i < need.len()
                &&& !finish@[i as int]
                &&& fits(need@[i as int]@, avail@)
                &&& forall|q: int| 0 <= q < i ==> #[trigger] finish@[q] || !fits(need@[q]@, avail@)
            },
            None => forall|q: int|
                0 <= q < need.len() ==> #[trigger] finish@[q] || !fits(need@[q]@, avail@),
        },
{
    let mut i: usize = 0;
    while i < need.len()
        invariant
            finish.len() == need.len(),
            forall|q: int| 0 <= q < need.len() ==> #[trigger] need@[q]@.len() == avail@.len(),
            i <= need.len(),
            forall|q: int| 0 <= q < i ==> #[trigger] finish@[q] || !fits(need@[q]@, avail@),
        decreases need.len() - i,
    {
        if !finish[i] && row_fits(&need[i], avail) {
            return Some(i);
        }
        i = i + 1;
    }
    None
}

/// Checks whether every entry of `row` fits in `avail`.
fn row_fits(row: &Vec<usize>, avail: &Vec<usize>) -> (r: bool)
    requires
        row.len() == avail.len(),
    ensures
        r == fits(row@, avail@),
{
    let mut j: usize = 0;
    while j < row.len()
        invariant
            row.len() == avail.len(),
            j <= row.len(),
            forall|q: int| 0 <= q < j ==> #[trigger] row@[q] <= avail@[q],
        decreases row.len() - j,
    {
        if row[j] > avail[j] {
            return false;
        }
        j = j + 1;
    }
    true
}

/// Runs the banker's safety test on the given tables and reports whether task
/// `requester` is deadlocked: the test repeatedly lets the first unfinished task
/// whose needs fit in the free resources finish and give back what it holds,
/// until no further task can finish.
pub fn detect_deadlock(
    work: Vec<usize>,
    allocation: &Vec<Vec<usize>>,
    need: &Vec<Vec<usize>>,
    requester: usize,
) -> (r: bool)
    requires
        well_shaped(work@, allocation.deep_view(), need.deep_view()),
        totals_fit(work@, allocation.deep_view()),
        requester < allocation.len(),
    ensures
        r == deadlocked(work@, allocation.deep_view(), need.deep_view(), requester as int),
{
    let ghost w0 = work@;
    let ghost al = allocation.deep_view();
    let ghost nd = need.deep_view();
    let n = allocation.len();
    let m = work.len();
    let mut work = work;
    let mut finish: Vec<bool> = Vec::new();
    let mut t: usize = 0;
    while t < n
        invariant
            t <= n,
            finish@.len() == t,
            forall|q: int| 0 <= q < t ==> !#[trigger] finish@[q],
        decreases n - t,
    {
        finish.push(false);
        t = t + 1;
    }
    let ghost mut fin: Set<int> = Set::empty();
    let ghost mut order: Seq<int> = Seq::empty();
    proof {
        assert forall|j: int| 0 <= j < m implies #[trigger] work@[j] == available(w0, al, fin, j) by {
            lemma_released_none(al, fin, j, n as int);
        }
        assert(count_true(finish@) == 0) by {
            lemma_count_true_bound(finish@);
            assert forall|q: int| 0 <= q < finish@.len() implies !#[trigger] finish@[q] by {}
            lemma_count_zero(finish@);
        }
    }
    let mut done: usize = 0;
    loop
        invariant
            n == allocation.len(),
            m == w0.len(),
            al == allocation.deep_view(),
            nd == need.deep_view(),
            well_shaped(w0, al, nd),
            totals_fit(w0, al),
            requester < n,
            work@.len() == m,
            finish@.len() == n,
            done == count_true(finish@),
            done <= n,
            forall|j: int| 0 <= j < m ==> #[trigger] work@[j] == available(w0, al, fin, j),
            forall|i: int| 0 <= i < n ==> (#[trigger] finish@[i] <==> fin.contains(i)),
            forall|x: int| #[trigger] fin.contains(x) ==> 0 <= x < n,
            forall|x: int| #[trigger] fin.contains(x) <==> order.contains(x),
            is_safe_order(w0, al, nd, order),
        ensures
            forall|i: int| 0 <= i < n ==> (#[trigger] finish@[i] <==> fin.contains(i)),
            forall|x: int| #[trigger] fin.contains(x) <==> order.contains(x),
            is_safe_order(w0, al, nd, order),
            stuck(w0, al, nd, fin),
        decreases n - done,
    {
        proof {
            assert forall|q: int| 0 <= q < n implies #[trigger] need@[q]@ == nd[q] by {}
        }
        let chosen = first_ready(&finish, need, &work);
        if chosen.is_none() {
            proof {
                assert forall|q: int|
                    0 <= q < n && !fin.contains(q) implies !#[trigger] can_proceed(
                    w0,
                    al,
                    nd,
                    fin,
                    q,
                ) by {
                    assert(!finish@[q]);
                    assert(!fits(nd[q], work@));
                    let j = choose|j: int| 0 <= j < nd[q].len() && !(nd[q][j] <= work@[j]);
                    assert(work@[j] == available(w0, al, fin, j));
                }
            }
            break;
        }
        let c = chosen.unwrap();
        proof {
            assert(can_proceed(w0, al, nd, fin, c as int)) by {
                assert forall|j: int| 0 <= j < w0.len() implies nd[c as int][j] <= #[trigger] available(
                    w0,
                    al,
                    fin,
                    j,
                ) by {
                    assert(work@[j] == available(w0, al, fin, j));
                }
            }
            lemma_count_true_bound(finish@);
            lemma_count_true_set(finish@, c as int);
            lemma_count_true_bound(finish@.update(c as int, true));
        }
        let ghost old_fin = fin;
        let mut j: usize = 0;
        while j < m
            invariant
                n == allocation.len(),
                m == w0.len(),
                al == allocation.deep_view(),
                well_shaped(w0, al, nd),
                totals_fit(w0, al),
                c < n,
                !old_fin.contains(c as int),
                work@.len() == m,
                j <= m,
                forall|q: int| 0 <= q < j ==> #[trigger] work@[q] == available(w0, al, old_fin.insert(c as int), q),
                forall|q: int| j <= q < m ==> #[trigger] work@[q] == available(w0, al, old_fin, q),
            decreases m - j,
        {
            proof {
                lemma_released_insert(al, old_fin, c as int, j as int, n as int);
                lemma_released_mono(al, old_fin.insert(c as int), Set::full(), j as int, n as int);
                assert(al[c as int].len() == m);
                assert(allocation@[c as int]@ == al[c as int]);
            }
            let add = allocation[c][j];
            proof {
                assert(add == al[c as int][j as int]);
                assert(available(w0, al, Set::full(), j as int) <= usize::MAX);
            }
            work.set(j, work[j] + add);
            j = j + 1;
        }
        finish.set(c, true);
        proof {
            let old_order = order;
            let new_order = order.push(c as int);
            assert(order.to_set() =~= old_fin) by {
                assert forall|x: int| order.to_set().contains(x) <==> old_fin.contains(x) by {}
            }
            assert forall|k: int| 0 <= k < new_order.len() implies {
                &&& 0 <= #[trigger] new_order[k] < al.len()
                &&& can_proceed(w0, al, nd, new_order.take(k).to_set(), new_order[k])
            } by {
                if k < order.len() {
                    assert(new_order.take(k) =~= order.take(k));
                    assert(new_order[k] == order[k]);
                } else {
                    assert(new_order.take(k) =~= order);
                }
            }
            fin = old_fin.insert(c as int);
            order = new_order;
            assert forall|x: int| #[trigger] fin.contains(x) <==> order.contains(x) by {
                if x == c as int {
                    assert(order[order.len() - 1] == x);
                } else if old_fin.contains(x) {
                    assert(old_order.contains(x));
                    let p = choose|p: int| 0 <= p < old_order.len() && old_order[p] == x;
                    assert(order[p] == x);
                }
                if order.contains(x) && x != c as int {
                    let p = choose|p: int| 0 <= p < order.len() && order[p] == x;
                    assert(p < order.len() - 1);
                    assert(old_order[p] == x);
                    assert(old_order.contains(x));
                }
            }
        }
        done = done + 1;
    }
    proof {
        if finish@[requester as int] {
            assert(order.contains(requester as int));
        } else {
            if exists|o: Seq<int>| is_safe_order(w0, al, nd, o) && #[trigger] o.contains(requester as int) {
                let o = choose|o: Seq<int>| is_safe_order(w0, al, nd, o) && #[trigger] o.contains(requester as int);
                lemma_safe_order_inside_stuck_set(w0, al, nd, fin, o, o.len() as int);
                let p = choose|p: int| 0 <= p < o.len() && o[p] == requester as int;
                assert(fin.contains(o[p]));
            }
        }
    }
    !finish[requester]
}

proof fn lemma_count_zero(s: Seq<bool>)
    requires
        forall|q: int| 0 <= q < s.len() ==> !#[trigger] s[q],
    ensures
        count_true(s) == 0,
    decreases s.len(),
{
    if s.len() > 0 {
        assert forall|q: int| 0 <= q < s.drop_last().len() implies !#[trigger] s.drop_last()[q] by {
            assert(s.drop_last()[q] == s[q]);
        }
        lemma_count_zero(s.drop_last());
    }
}

} // verus!
