//! The analysis queue: queue orders, queue positions, enqueueing and the
//! recovery of a queue that a previous run left behind.

use vstd::prelude::*;
use crate::text::{chars_of, decimal_int, i64_to_string, parse_i64_chars, parse_i64_spec, str_eq, owned};

verus! {

/// The order that the next enqueued task gets: one past the largest order in
/// use, or 1 when no task holds one.
pub open spec fn next_order_after(max_order: Option<i64>) -> int {
    match max_order {
        Some(m) => m + 1,
        None => 1,
    }
}

/// `max` is the largest of the orders that are set (`None` when none is).
pub open spec fn is_max_order(orders: Seq<Option<i64>>, max: Option<i64>) -> bool {
    match max {
        None => forall|i: int| 0 <= i < orders.len() ==> orders[i] is None,
        Some(m) => (exists|i: int| 0 <= i < orders.len() && orders[i] == Some(m)) && (forall|i: int|
            0 <= i < orders.len() && orders[i] is Some ==> orders[i].unwrap() <= m),
    }
}

/// The order that `enqueue_tasks` and `ensure_queue_orders_for_queued_tasks`
/// start from, given `SELECT MAX(queue_order)`.
pub fn next_queue_order(max_order: Option<i64>) -> (r: i64)
    requires
        max_order != Some(i64::MAX),
    ensures
        r == next_order_after(max_order),
{
    match max_order {
        Some(m) => m + 1,
        None => 1,
    }
}

/// The orders given to the queued tasks that have none, in the order in which
/// they are listed (oldest first), starting one past the largest order.
pub open spec fn fill_orders(ids: Seq<i64>, first: int) -> Seq<(i64, i64)> {
    Seq::new(ids.len(), |i: int| (ids[i], (first + i) as i64))
}

/// Gives every queued task without a queue order one, continuing after the
/// largest order in use. Nothing is assigned when no task lacks an order.
pub fn ensure_queue_orders_for_queued_tasks(ids_without_order: &Vec<i64>, max_order: Option<i64>) -> (r: Vec<(i64, i64)>)
    requires
        next_order_after(max_order) + ids_without_order.len() <= i64::MAX,
    ensures
        r@ == fill_orders(ids_without_order@, next_order_after(max_order)),
{
    let mut r: Vec<(i64, i64)> = Vec::new();
    if ids_without_order.len() == 0 {
        assert(r@ =~= fill_orders(ids_without_order@, next_order_after(max_order)));
        return r;
    }
    let mut next = next_queue_order(max_order);
    let mut i: usize = 0;
    while i < ids_without_order.len()
        invariant
            i <= ids_without_order.len(),
            next == next_order_after(max_order) + i,
            next_order_after(max_order) + ids_without_order.len() <= i64::MAX,
            r@ == fill_orders(ids_without_order@.take(i as int), next_order_after(max_order)),
        decreases ids_without_order.len() - i,
    {
        r.push((ids_without_order[i], next));
        next = next + 1;
        i += 1;
        assert(r@ =~= fill_orders(ids_without_order@.take(i as int), next_order_after(max_order)));
    }
    assert(ids_without_order@.take(i as int) == ids_without_order@);
    r
}

/// The queue positions of the queued tasks, listed in queue order: each task
/// with a queue order gets its place in the list (counting from 1), and the
/// tasks without one are left out but still take their place.
pub open spec fn queued_positions(rows: Seq<(i64, Option<i64>)>) -> Seq<(i64, i64)>
    decreases rows.len(),
{
    if rows.len() == 0 {
        Seq::<(i64, i64)>::empty()
    } else {
        let init = queued_positions(rows.drop_last());
        match rows.last().1 {
            Some(_) => init.push((rows.last().0, rows.len() as i64)),
            None => init,
        }
    }
}

/// The queue positions of the queued tasks; `rows` are the queued tasks' ids
/// and queue orders sorted by queue order, creation time and id.
pub fn load_queued_task_positions(rows: &Vec<(i64, Option<i64>)>) -> (r: Vec<(i64, i64)>)
    requires
        rows.len() < i64::MAX,
    ensures
        r@ == queued_positions(rows@),
{
    let mut r: Vec<(i64, i64)> = Vec::new();
    let mut i: usize = 0;
    while i < rows.len()
        invariant
            i <= rows.len(),
            rows.len() < i64::MAX,
            r@ == queued_positions(rows@.take(i as int)),
        decreases rows.len() - i,
    {
        let (task_id, order) = rows[i];
        assert(rows@.take(i + 1).drop_last() == rows@.take(i as int));
        if order.is_some() {
            r.push((task_id, (i + 1) as i64));
        }
        i += 1;
    }
    assert(rows@.take(i as int) == rows@);
    r
}

/// The queue order of the queued task `task_id`, if it is queued and has one.
pub open spec fn order_of(rows: Seq<(i64, Option<i64>)>, task_id: i64) -> Option<i64>
    decreases rows.len(),
{
    if rows.len() == 0 {
        None
    } else if rows[0].0 == task_id {
        rows[0].1
    } else {
        order_of(rows.drop_first(), task_id)
    }
}

/// How many queued tasks hold an order no greater than `q`.
pub open spec fn count_at_or_below(rows: Seq<(i64, Option<i64>)>, q: i64) -> nat
    decreases rows.len(),
{
    if rows.len() == 0 {
        0
    } else {
        count_at_or_below(rows.drop_last(), q) + match rows.last().1 {
            Some(o) => if o <= q { 1nat } else { 0nat },
            None => 0nat,
        }
    }
}

/// The queue position of one task: how many queued tasks are at or ahead of it
/// by queue order. `None` when the task is not queued or has no queue order.
pub open spec fn queue_position(rows: Seq<(i64, Option<i64>)>, task_id: i64) -> Option<i64> {
    match order_of(rows, task_id) {
        None => None,
        Some(q) => Some(count_at_or_below(rows, q) as i64),
    }
}

/// The queue position of `task_id` among the queued tasks `rows` (their ids
/// and queue orders, in any order).
pub fn queue_position_for_task(rows: &Vec<(i64, Option<i64>)>, task_id: i64) -> (r: Option<i64>)
    requires
        rows.len() < i64::MAX,
    ensures
        r == queue_position(rows@, task_id),
{
    let mut k: usize = 0;
    assert(rows@.skip(0) == rows@);
    while k < rows.len() && rows[k].0 != task_id
        invariant
            k <= rows.len(),
            order_of(rows@, task_id) == order_of(rows@.skip(k as int), task_id),
        decreases rows.len() - k,
    {
        assert(rows@.skip(k as int).drop_first() == rows@.skip(k + 1));
        k += 1;
    }
    if k == rows.len() {
        return None;
    }
    let q = match rows[k].1 {
        Some(q) => q,
        None => {
            return None;
        },
    };
    let mut count: i64 = 0;
    let mut i: usize = 0;
    proof {
        lemma_count_bounded(rows@, q);
    }
    while i < rows.len()
        invariant
            i <= rows.len(),
            rows.len() < i64::MAX,
            count == count_at_or_below(rows@.take(i as int), q),
            count <= i,
        decreases rows.len() - i,
    {
        assert(rows@.take(i + 1).drop_last() == rows@.take(i as int));
        match rows[i].1 {
            Some(o) => {
                if o <= q {
                    count = count + 1;
                }
            },
            None => {},
        }
        i += 1;
    }
    assert(rows@.take(i as int) == rows@);
    Some(count)
}

pub proof fn lemma_count_bounded(rows: Seq<(i64, Option<i64>)>, q: i64)
    ensures
        count_at_or_below(rows, q) <= rows.len(),
    decreases rows.len(),
{
    if rows.len() > 0 {
        lemma_count_bounded(rows.drop_last(), q);
    }
}

/// The orders that enqueueing gives to the first `n` requested tasks: one
/// after the other, from `next` on.
pub open spec fn enqueue_assignments(ids: Seq<i64>, next: int, n: int) -> Seq<(i64, i64)> {
    Seq::new(n as nat, |i: int| (ids[i], (next + i) as i64))
}

/// The status that the `k`-th requested task has when its turn comes: a task
/// that was requested earlier in the same call has just been queued.
pub open spec fn status_at_turn(ids: Seq<i64>, statuses: Seq<Option<Seq<char>>>, k: int) -> Option<Seq<char>> {
    if exists|j: int| 0 <= j < k && ids[j] == ids[k] {
        Some("QUEUED"@)
    } else {
        statuses[k]
    }
}

/// Whether the `k`-th requested task stops the enqueueing: it does not exist,
/// or its status is not among the allowed ones.
pub open spec fn refused_at(ids: Seq<i64>, statuses: Seq<Option<Seq<char>>>, allowed: Seq<Seq<char>>, k: int) -> bool {
    match status_at_turn(ids, statuses, k) {
        None => true,
        Some(st) => !allowed.contains(st),
    }
}

pub open spec fn opt_views(v: Seq<Option<String>>) -> Seq<Option<Seq<char>>> {
    v.map_values(|o: Option<String>| match o { Some(s) => Some(s@), None => None })
}

pub open spec fn str_views(v: Seq<&str>) -> Seq<Seq<char>> {
    v.map_values(|s: &str| s@)
}

/// Why tasks could not be queued.
#[derive(Debug, Clone)]
pub enum EnqueueError {
    /// The queue of the previous run waits for the user's decision.
    RecoveryPending,
    /// No task has this id.
    TaskNotFound(i64),
    /// The task's status does not allow queueing.
    StatusNotAllowed(String),
}

/// Plans `enqueue_tasks`: which tasks get which queue order, and the error
/// that stops it. `statuses[k]` is the stored status of `task_ids[k]` (`None`
/// when no such task exists), `next_order` what `next_queue_order` gives. The
/// tasks before the first refused one are queued even when one is refused.
pub fn enqueue_tasks(
    recovery_pending: bool,
    task_ids: &Vec<i64>,
    statuses: &Vec<Option<String>>,
    allowed_statuses: &[&str],
    next_order: i64,
) -> (r: (Vec<(i64, i64)>, Option<EnqueueError>))
    requires
        statuses.len() == task_ids.len(),
        next_order + task_ids.len() <= i64::MAX,
    ensures
        recovery_pending ==> r.0@.len() == 0 && r.1 matches Some(EnqueueError::RecoveryPending),
        !recovery_pending ==> {
            let n = r.0@.len() as int;
            &&& n <= task_ids.len()
            &&& r.0@ == enqueue_assignments(task_ids@, next_order as int, n)
            &&& forall|k: int| 0 <= k < n ==> !refused_at(task_ids@, opt_views(statuses@), str_views(allowed_statuses@), k)
            &&& (r.1 is None <==> n == task_ids.len())
            &&& (n < task_ids.len() ==> match status_at_turn(task_ids@, opt_views(statuses@), n) {
                None => r.1 == Some(EnqueueError::TaskNotFound(task_ids@[n])),
                Some(st) => !str_views(allowed_statuses@).contains(st) && (r.1 matches Some(EnqueueError::StatusNotAllowed(x)) && x@ == st),
            })
        },
{
    let mut updates: Vec<(i64, i64)> = Vec::new();
    if recovery_pending {
        return (updates, Some(EnqueueError::RecoveryPending));
    }
    let mut next = next_order;
    let mut k: usize = 0;
    while k < task_ids.len()
        invariant
            k <= task_ids.len(),
            statuses.len() == task_ids.len(),
            next_order + task_ids.len() <= i64::MAX,
            !recovery_pending,
            next == next_order + k,
            updates@ == enqueue_assignments(task_ids@, next_order as int, k as int),
            forall|j: int| 0 <= j < k ==> !refused_at(task_ids@, opt_views(statuses@), str_views(allowed_statuses@), j),
        decreases task_ids.len() - k,
    {
        let id = task_ids[k];
        let mut seen = false;
        let mut j: usize = 0;
        while j < k
            invariant
                j <= k < task_ids.len(),
                id == task_ids@[k as int],
                seen == exists|x: int| 0 <= x < j && task_ids@[x] == task_ids@[k as int],
            decreases k - j,
        {
            if task_ids[j] == id {
                seen = true;
            }
            j += 1;
        }
        let ghost turn = status_at_turn(task_ids@, opt_views(statuses@), k as int);
        let status: Option<String> = if seen {
            Some(owned("QUEUED"))
        } else {
            match &statuses[k] {
                Some(st) => Some(st.clone()),
                None => None,
            }
        };
        assert(opt_views(statuses@)[k as int] == match statuses@[k as int] { Some(s) => Some(s@), None => None::<Seq<char>> });
        match status {
            None => {
                return (updates, Some(EnqueueError::TaskNotFound(id)));
            },
            Some(st) => {
                let mut ok = false;
                let mut a: usize = 0;
                while a < allowed_statuses.len()
                    invariant
                        a <= allowed_statuses.len(),
                        ok == exists|x: int| 0 <= x < a && allowed_statuses@[x]@ == st@,
                    decreases allowed_statuses.len() - a,
                {
                    if str_eq(allowed_statuses[a], st.as_str()) {
                        ok = true;
                    }
                    a += 1;
                }
                proof {
                    if ok {
                        let x = choose|x: int| 0 <= x < a && allowed_statuses@[x]@ == st@;
                        assert(str_views(allowed_statuses@)[x] == st@);
                    } else {
                        assert forall|x: int| 0 <= x < str_views(allowed_statuses@).len() implies str_views(allowed_statuses@)[x] != st@ by {
                            assert(str_views(allowed_statuses@)[x] == allowed_statuses@[x]@);
                        }
                    }
                }
                if !ok {
                    return (updates, Some(EnqueueError::StatusNotAllowed(st)));
                }
            },
        }
        updates.push((id, next));
        next = next + 1;
        k += 1;
        assert(updates@ =~= enqueue_assignments(task_ids@, next_order as int, k as int));
    }
    (updates, None)
}

/// Law: enqueueing keeps the queue first-in first-out. Every order that
/// `enqueue_tasks` assigns, starting from `next_queue_order` of the largest
/// order in use, is larger than every order already in the queue, and the
/// tasks of one request get increasing orders in the order they were given.
pub proof fn law_enqueue_appends_to_queue(
    orders: Seq<Option<i64>>,
    max_order: Option<i64>,
    ids: Seq<i64>,
    n: int,
)
    requires
        is_max_order(orders, max_order),
        0 <= n <= ids.len(),
        next_order_after(max_order) + n <= i64::MAX,
    ensures
        forall|i: int, x: int|
            #![trigger orders[x], enqueue_assignments(ids, next_order_after(max_order), n)[i]]
            0 <= i < n && 0 <= x < orders.len() && orders[x] is Some ==> orders[x].unwrap()
                < enqueue_assignments(ids, next_order_after(max_order), n)[i].1,
        forall|i: int, j: int|
            0 <= i < j < n ==> #[trigger] enqueue_assignments(ids, next_order_after(max_order), n)[i].1
                < #[trigger] enqueue_assignments(ids, next_order_after(max_order), n)[j].1,
{
    assert forall|i: int, x: int|
        #![trigger orders[x], enqueue_assignments(ids, next_order_after(max_order), n)[i]]
        0 <= i < n && 0 <= x < orders.len() && orders[x] is Some implies orders[x].unwrap()
            < enqueue_assignments(ids, next_order_after(max_order), n)[i].1 by {
        match max_order {
            Some(m) => {},
            None => {},
        }
    }
}

/// Law: the queue positions that `load_queued_task_positions` reports start
/// at 1 or later, never exceed the number of queued tasks, and strictly
/// increase along the queue.
pub proof fn law_queue_positions_increase(rows: Seq<(i64, Option<i64>)>)
    requires
        rows.len() < i64::MAX,
    ensures
        forall|i: int| 0 <= i < queued_positions(rows).len() ==> 1 <= #[trigger] queued_positions(rows)[i].1 <= rows.len(),
        forall|i: int, j: int|
            0 <= i < j < queued_positions(rows).len() ==> #[trigger] queued_positions(rows)[i].1
                < #[trigger] queued_positions(rows)[j].1,
    decreases rows.len(),
{
    if rows.len() > 0 {
        let init = rows.drop_last();
        law_queue_positions_increase(init);
        let p = queued_positions(init);
        match rows.last().1 {
            Some(_) => {
                let q = p.push((rows.last().0, rows.len() as i64));
                assert(queued_positions(rows) == q);
                assert forall|i: int| 0 <= i < q.len() implies 1 <= #[trigger] q[i].1 <= rows.len() by {
                    if i < p.len() {
                        assert(q[i] == p[i]);
                    }
                }
                assert forall|i: int, j: int| 0 <= i < j < q.len() implies #[trigger] q[i].1 < #[trigger] q[j].1 by {
                    assert(q[i] == p[i]);
                    if j < p.len() {
                        assert(q[j] == p[j]);
                    }
                }
            },
            None => {
                assert(queued_positions(rows) == p);
            },
        }
    }
}

/// The queued rows are listed by strictly increasing queue order, every row
/// has one, and no task appears twice.
pub open spec fn well_ordered_queue(rows: Seq<(i64, Option<i64>)>) -> bool {
    &&& forall|i: int| 0 <= i < rows.len() ==> (#[trigger] rows[i]).1 is Some
    &&& forall|i: int, j: int| 0 <= i < j < rows.len() ==> (#[trigger] rows[i]).1.unwrap() < (#[trigger] rows[j]).1.unwrap()
    &&& forall|i: int, j: int| 0 <= i < j < rows.len() ==> (#[trigger] rows[i]).0 != (#[trigger] rows[j]).0
}

proof fn lemma_positions_of_ordered(rows: Seq<(i64, Option<i64>)>)
    requires
        rows.len() < i64::MAX,
        forall|i: int| 0 <= i < rows.len() ==> (#[trigger] rows[i]).1 is Some,
    ensures
        queued_positions(rows) == Seq::new(rows.len(), |i: int| (rows[i].0, (i + 1) as i64)),
    decreases rows.len(),
{
    if rows.len() > 0 {
        let init = rows.drop_last();
        assert forall|i: int| 0 <= i < init.len() implies (#[trigger] init[i]).1 is Some by {
            assert(init[i] == rows[i]);
        }
        lemma_positions_of_ordered(init);
        assert(rows.last() == rows[rows.len() - 1]);
        assert(queued_positions(rows) =~= Seq::new(rows.len(), |i: int| (rows[i].0, (i + 1) as i64)));
    }
}

proof fn lemma_order_of_distinct(rows: Seq<(i64, Option<i64>)>, i: int)
    requires
        0 <= i < rows.len(),
        forall|a: int, b: int| 0 <= a < b < rows.len() ==> (#[trigger] rows[a]).0 != (#[trigger] rows[b]).0,
    ensures
        order_of(rows, rows[i].0) == rows[i].1,
    decreases rows.len(),
{
    if i > 0 {
        let rest = rows.drop_first();
        assert(rows[0].0 != rows[i].0) by {
            assert(rows[0] == rows[0]);
        }
        assert forall|a: int, b: int| 0 <= a < b < rest.len() implies (#[trigger] rest[a]).0 != (#[trigger] rest[b]).0 by {
            assert(rest[a] == rows[a + 1]);
            assert(rest[b] == rows[b + 1]);
        }
        assert(rest[i - 1] == rows[i]);
        lemma_order_of_distinct(rest, i - 1);
    }
}

proof fn lemma_count_in_ordered(rows: Seq<(i64, Option<i64>)>, i: int, k: int)
    requires
        0 <= i < rows.len(),
        0 <= k <= rows.len(),
        forall|a: int| 0 <= a < rows.len() ==> (#[trigger] rows[a]).1 is Some,
        forall|a: int, b: int| 0 <= a < b < rows.len() ==> (#[trigger] rows[a]).1.unwrap() < (#[trigger] rows[b]).1.unwrap(),
    ensures
        count_at_or_below(rows.take(k), rows[i].1.unwrap()) == if k <= i { k } else { i + 1 },
    decreases k,
{
    if k > 0 {
        lemma_count_in_ordered(rows, i, k - 1);
        assert(rows.take(k).drop_last() == rows.take(k - 1));
        assert(rows.take(k).last() == rows[k - 1]);
        if k - 1 < i {
            assert(rows[k - 1].1.unwrap() < rows[i].1.unwrap());
        } else if k - 1 > i {
            assert(rows[i].1.unwrap() < rows[k - 1].1.unwrap());
        }
    }
}

proof fn lemma_order_of_found(rows: Seq<(i64, Option<i64>)>, task_id: i64) -> (i: int)
    requires
        order_of(rows, task_id) is Some,
    ensures
        0 <= i < rows.len(),
        rows[i].0 == task_id,
    decreases rows.len(),
{
    if rows[0].0 == task_id {
        0
    } else {
        let j = lemma_order_of_found(rows.drop_first(), task_id);
        j + 1
    }
}

/// Law: the two ways of telling a task's place in the queue agree. When the
/// queued tasks are listed by strictly increasing queue order, every one has
/// an order and no task appears twice, the `i`-th task is at position `i + 1`
/// in the listing of `load_queued_task_positions`, and
/// `queue_position_for_task` gives it that same position. A task has position
/// `p` by `queue_position_for_task` exactly when the listing holds it at `p`;
/// so a task that is not queued has no position.
pub proof fn law_queue_position_matches_listing(rows: Seq<(i64, Option<i64>)>)
    requires
        rows.len() < i64::MAX,
        well_ordered_queue(rows),
    ensures
        queued_positions(rows).len() == rows.len(),
        forall|i: int| 0 <= i < rows.len() ==> #[trigger] queued_positions(rows)[i] == (rows[i].0, (i + 1) as i64),
        forall|i: int| 0 <= i < rows.len() ==> queue_position(rows, (#[trigger] rows[i]).0) == Some((i + 1) as i64),
        forall|task_id: i64, p: i64|
            #[trigger] queued_positions(rows).contains((task_id, p)) ==> queue_position(rows, task_id) == Some(p),
        forall|task_id: i64|
            #[trigger] queue_position(rows, task_id) is Some ==> queued_positions(rows).contains(
                (task_id, queue_position(rows, task_id)->0),
            ),
        forall|task_id: i64|
            (forall|i: int| 0 <= i < rows.len() ==> (#[trigger] rows[i]).0 != task_id) ==> #[trigger] queue_position(
                rows,
                task_id,
            ) is None,
{
    lemma_positions_of_ordered(rows);
    assert forall|i: int| 0 <= i < rows.len() implies queue_position(rows, (#[trigger] rows[i]).0) == Some((i + 1) as i64) by {
        lemma_order_of_distinct(rows, i);
        lemma_count_in_ordered(rows, i, rows.len() as int);
        assert(rows.take(rows.len() as int) == rows);
    }
    assert forall|task_id: i64, p: i64|
        #[trigger] queued_positions(rows).contains((task_id, p)) implies queue_position(rows, task_id) == Some(p) by {
        let j = choose|j: int| 0 <= j < queued_positions(rows).len() && queued_positions(rows)[j] == (task_id, p);
        assert(queued_positions(rows)[j] == (rows[j].0, (j + 1) as i64));
        assert(queue_position(rows, rows[j].0) == Some((j + 1) as i64));
    }
    assert forall|task_id: i64|
        #[trigger] queue_position(rows, task_id) is Some implies queued_positions(rows).contains(
            (task_id, queue_position(rows, task_id)->0),
        ) by {
        let i = lemma_order_of_found(rows, task_id);
        assert(queue_position(rows, rows[i].0) == Some((i + 1) as i64));
        assert(queued_positions(rows)[i] == (task_id, (i + 1) as i64));
    }
    assert forall|task_id: i64|
        (forall|i: int| 0 <= i < rows.len() ==> (#[trigger] rows[i]).0 != task_id) implies #[trigger] queue_position(
            rows,
            task_id,
        ) is None by {
        if order_of(rows, task_id) is Some {
            let i = lemma_order_of_found(rows, task_id);
            assert(rows[i].0 == task_id);
        }
    }
}

/// Law: a task's queue position and the list of queued positions agree.
/// Given the queued tasks as the database lists them — each with a queue
/// order, the orders distinct, listed by ascending order, and each task
/// once — `queue_position_for_task(rows, task_id)` (which gives
/// `queue_position(rows, task_id)`) is `Some(p)` exactly when
/// `load_queued_task_positions(rows)` (which gives `queued_positions(rows)`)
/// holds `(task_id, p)`, and it is `None` exactly when the task is not among
/// the queued tasks.
pub proof fn law_queue_position_iff_listed(rows: Seq<(i64, Option<i64>)>, task_id: i64, p: i64)
    requires
        rows.len() < i64::MAX,
        forall|i: int| 0 <= i < rows.len() ==> (#[trigger] rows[i]).1 is Some,
        forall|i: int, j: int|
            0 <= i < rows.len() && 0 <= j < rows.len() && i != j ==> (#[trigger] rows[i]).1 != (#[trigger] rows[j]).1,
        forall|i: int, j: int| 0 <= i < j < rows.len() ==> (#[trigger] rows[i]).1.unwrap() <= (#[trigger] rows[j]).1.unwrap(),
        forall|i: int, j: int| 0 <= i < j < rows.len() ==> (#[trigger] rows[i]).0 != (#[trigger] rows[j]).0,
    ensures
        queue_position(rows, task_id) == Some(p) <==> queued_positions(rows).contains((task_id, p)),
        queue_position(rows, task_id) is None <==> (forall|i: int| 0 <= i < rows.len() ==> (#[trigger] rows[i]).0 != task_id),
{
    assert forall|i: int, j: int| 0 <= i < j < rows.len() implies (#[trigger] rows[i]).1.unwrap() < (#[trigger] rows[j]).1.unwrap() by {
        assert(rows[i].1 != rows[j].1);
    }
    assert(well_ordered_queue(rows));
    law_queue_position_matches_listing(rows);
    if queue_position(rows, task_id) == Some(p) {
        assert(queued_positions(rows).contains((task_id, queue_position(rows, task_id)->0)));
    }
    if queued_positions(rows).contains((task_id, p)) {
        assert(queue_position(rows, task_id) == Some(p));
    }
    if !(forall|i: int| 0 <= i < rows.len() ==> (#[trigger] rows[i]).0 != task_id) {
        let i = choose|i: int| 0 <= i < rows.len() && (#[trigger] rows[i]).0 == task_id;
        assert(queue_position(rows, rows[i].0) == Some((i + 1) as i64));
    }
}

/// A task that was queued when the application last stopped.
#[derive(Debug, Clone)]
pub struct QueueRecoveryTask {
    pub task_id: String,
    pub name: String,
    pub queue_order: i64,
}

impl View for QueueRecoveryTask {
    type V = (Seq<char>, Seq<char>, i64);

    open spec fn view(&self) -> (Seq<char>, Seq<char>, i64) {
        (self.task_id@, self.name@, self.queue_order)
    }
}

pub open spec fn task_views(v: Seq<QueueRecoveryTask>) -> Seq<(Seq<char>, Seq<char>, i64)> {
    v.map_values(|t: QueueRecoveryTask| t@)
}

impl QueueRecoveryTask {
    /// A copy of the task.
    pub fn duplicate(&self) -> (r: QueueRecoveryTask)
        ensures
            r@ == self@,
    {
        QueueRecoveryTask { task_id: self.task_id.clone(), name: self.name.clone(), queue_order: self.queue_order }
    }
}

/// A copy of a list of recovery tasks.
pub fn duplicate_tasks(tasks: &Vec<QueueRecoveryTask>) -> (r: Vec<QueueRecoveryTask>)
    ensures
        task_views(r@) == task_views(tasks@),
{
    let mut r: Vec<QueueRecoveryTask> = Vec::new();
    let mut i: usize = 0;
    while i < tasks.len()
        invariant
            i <= tasks.len(),
            r.len() == i,
            forall|j: int| 0 <= j < i ==> #[trigger] r@[j]@ == tasks@[j]@,
        decreases tasks.len() - i,
    {
        r.push(tasks[i].duplicate());
        i += 1;
    }
    assert(task_views(r@) =~= task_views(tasks@));
    r
}

/// The recovery tasks of the queued rows `(id, name, queue order)`, each id
/// written in decimal.
pub fn load_pending_queue_recovery_tasks(rows: &Vec<(i64, String, i64)>) -> (r: Vec<QueueRecoveryTask>)
    ensures
        r@.len() == rows@.len(),
        forall|i: int| 0 <= i < rows@.len() ==> #[trigger] r@[i]@ == (decimal_int(rows@[i].0 as int), rows@[i].1@, rows@[i].2),
{
    let mut r: Vec<QueueRecoveryTask> = Vec::new();
    let mut i: usize = 0;
    while i < rows.len()
        invariant
            i <= rows.len(),
            r.len() == i,
            forall|j: int| 0 <= j < i ==> #[trigger] r@[j]@ == (decimal_int(rows@[j].0 as int), rows@[j].1@, rows@[j].2),
        decreases rows.len() - i,
    {
        let row = &rows[i];
        r.push(QueueRecoveryTask { task_id: i64_to_string(row.0), name: row.1.clone(), queue_order: row.2 });
        i += 1;
    }
    r
}

/// What the application keeps of the queue found at start-up: nothing when it
/// is empty.
pub fn initialize_runtime_task_state(tasks: Vec<QueueRecoveryTask>) -> (r: Option<Vec<QueueRecoveryTask>>)
    ensures
        tasks@.len() == 0 ==> r is None,
        tasks@.len() > 0 ==> r == Some(tasks),
{
    if tasks.len() == 0 {
        None
    } else {
        Some(tasks)
    }
}

/// Whether a queue from the previous run waits for the user's decision.
pub fn has_pending_queue_recovery(pending: &Option<Vec<QueueRecoveryTask>>) -> (r: bool)
    ensures
        r == (pending matches Some(t) && t@.len() > 0),
{
    match pending {
        Some(tasks) => tasks.len() > 0,
        None => false,
    }
}

/// What the recovery dialog shows.
#[derive(Debug, Clone)]
pub struct QueueRecoveryStateResponse {
    pub has_pending_recovery: bool,
    pub tasks: Vec<QueueRecoveryTask>,
}

/// The recovery state: the waiting tasks, or none.
pub fn get_queue_recovery_state(pending: &Option<Vec<QueueRecoveryTask>>) -> (r: QueueRecoveryStateResponse)
    ensures
        pending is None ==> r.tasks@.len() == 0,
        pending matches Some(t) ==> task_views(r.tasks@) == task_views(t@),
        r.has_pending_recovery == (r.tasks@.len() > 0),
{
    let tasks = match pending {
        Some(t) => duplicate_tasks(t),
        None => Vec::new(),
    };
    let has = tasks.len() > 0;
    QueueRecoveryStateResponse { has_pending_recovery: has, tasks }
}

/// How the user's answer to the recovery dialog is carried out. The waiting
/// queue is dropped from the application's state in every case.
#[derive(Debug, Clone)]
pub enum QueueRecoveryResolution {
    /// There was nothing to recover.
    NothingPending,
    /// The queued tasks stay queued and the scheduler resumes.
    Resume,
    /// These tasks go back to `PENDING`.
    Cancel(Vec<QueueRecoveryTask>),
}

/// Decides the answer to the recovery dialog.
pub fn resolve_queue_recovery(pending: Option<Vec<QueueRecoveryTask>>, continue_analysis: bool) -> (r: QueueRecoveryResolution)
    ensures
        (pending is None || pending.unwrap()@.len() == 0) ==> r matches QueueRecoveryResolution::NothingPending,
        (pending matches Some(t) && t@.len() > 0) ==> (
            if continue_analysis {
                r matches QueueRecoveryResolution::Resume
            } else {
                r matches QueueRecoveryResolution::Cancel(c) && c == pending.unwrap()
            }),
{
    let tasks = match pending {
        Some(t) => t,
        None => Vec::new(),
    };
    if tasks.len() == 0 {
        QueueRecoveryResolution::NothingPending
    } else if continue_analysis {
        QueueRecoveryResolution::Resume
    } else {
        QueueRecoveryResolution::Cancel(tasks)
    }
}

impl QueueRecoveryResolution {
    /// The message that the command returns.
    pub fn message(&self) -> (r: String)
        ensures
            self matches QueueRecoveryResolution::NothingPending ==> r@ == "当前没有待恢复的排队任务"@,
            self matches QueueRecoveryResolution::Resume ==> r@ == "已恢复上次排队任务"@,
            self matches QueueRecoveryResolution::Cancel(_) ==> r@ == "已取消恢复并将任务改回待启动"@,
    {
        match self {
            QueueRecoveryResolution::NothingPending => owned("当前没有待恢复的排队任务"),
            QueueRecoveryResolution::Resume => owned("已恢复上次排队任务"),
            QueueRecoveryResolution::Cancel(_) => owned("已取消恢复并将任务改回待启动"),
        }
    }
}

/// The ids of the recovery tasks to set back to `PENDING`, in order, and the
/// first id that is not a number: the tasks before it are reset, the rest not.
pub fn cancel_recovery_tasks(tasks: &Vec<QueueRecoveryTask>) -> (r: (Vec<i64>, Option<String>))
    ensures
        r.0@.len() <= tasks@.len(),
        forall|i: int| 0 <= i < r.0@.len() ==> parse_i64_spec(tasks@[i].task_id@) == Some(r.0@[i] as int),
        r.1 is None <==> r.0@.len() == tasks@.len(),
        r.1 matches Some(bad) ==> bad@ == tasks@[r.0@.len() as int].task_id@
            && parse_i64_spec(bad@) is None,
{
    let mut ids: Vec<i64> = Vec::new();
    let mut i: usize = 0;
    while i < tasks.len()
        invariant
            i <= tasks.len(),
            ids.len() == i,
            forall|j: int| 0 <= j < i ==> parse_i64_spec(tasks@[j].task_id@) == Some(ids@[j] as int),
        decreases tasks.len() - i,
    {
        let chars = chars_of(tasks[i].task_id.as_str());
        match parse_i64_chars(chars.as_slice()) {
            Some(v) => ids.push(v),
            None => {
                return (ids, Some(tasks[i].task_id.clone()));
            },
        }
        i += 1;
    }
    (ids, None)
}

} // verus!

verus! {

/// The queue that a recovery offers is the queue that cancelling it acts
/// on: every task id that `load_pending_queue_recovery_tasks` writes out is
/// read back unchanged by `cancel_recovery_tasks`.
pub proof fn law_recovery_ids_read_back(id: i64)
    ensures
        parse_i64_spec(decimal_int(id as int)) == Some(id as int),
{
    if id < 0 {
        let n: nat = (-(id as int)) as nat;
        crate::text::lemma_decimal_roundtrip(n);
        let s = decimal_int(id as int);
        assert(s.drop_first() =~= crate::text::decimal(n));
    } else {
        let n: nat = id as nat;
        crate::text::lemma_decimal_roundtrip(n);
        crate::text::lemma_parse_decimal(n, 0x8000_0000_0000_0000);
        assert(crate::text::is_digit(crate::text::decimal(n)[0]));
    }
}

} // verus!
