//! The scheduler's decisions: how many queued tasks start, which, and with
//! what status; and the settings it runs under.

use vstd::prelude::*;
use crate::text::{owned, str_eq};

verus! {

/// The largest number of tasks that may run at once.
pub const MAX_CONCURRENCY_LIMIT: usize = 6;

/// Whether `v` is an allowed limit on concurrently running tasks (1 to 6);
/// the error is the message shown to the user.
pub fn validate_max_concurrency(v: usize) -> (r: Result<usize, String>)
    ensures
        1 <= v <= MAX_CONCURRENCY_LIMIT ==> r == Ok::<usize, String>(v),
        !(1 <= v <= MAX_CONCURRENCY_LIMIT) ==> (r matches Err(e) && e@ == "最大并发数必须在 1 到 6 之间"@),
{
    if 1 <= v && v <= MAX_CONCURRENCY_LIMIT {
        Ok(v)
    } else {
        Err(owned("最大并发数必须在 1 到 6 之间"))
    }
}

/// Whether one more queued task may start: no queue recovery is pending,
/// fewer than `max_concurrency` tasks run, and, where some task already
/// runs, the machine's resources allow another.
pub open spec fn can_dispatch(recovery_pending: bool, active_count: int, max_concurrency: int, resources_allow: bool) -> bool {
    !recovery_pending && active_count < max_concurrency && (active_count == 0 || resources_allow)
}

/// Whether one more queued task may start (see `can_dispatch`).
pub fn scheduler_can_dispatch(recovery_pending: bool, active_count: usize, max_concurrency: usize, resources_allow: bool) -> (r: bool)
    ensures
        r == can_dispatch(recovery_pending, active_count as int, max_concurrency as int, resources_allow),
{
    !recovery_pending && active_count < max_concurrency && (active_count == 0 || resources_allow)
}

/// How many of the queued tasks one scheduling round starts, counting from
/// the `k`-th: tasks start in queue order while one is queued and may start;
/// `resources_allow[k]` is the answer of the resource probe made before the
/// `k`-th start.
pub open spec fn round_count(
    recovery_pending: bool,
    active_count: int,
    max_concurrency: int,
    queued: int,
    resources_allow: Seq<bool>,
    k: int,
) -> int
    decreases queued - k,
{
    if k < queued && k < resources_allow.len() && can_dispatch(
        recovery_pending,
        active_count + k,
        max_concurrency,
        resources_allow[k],
    ) {
        round_count(recovery_pending, active_count, max_concurrency, queued, resources_allow, k + 1)
    } else {
        k
    }
}

/// The `k`-th start of a round may go ahead as far as the machine's
/// resources go: nothing runs yet, or the probe made before it consented.
pub open spec fn consented(active_count: int, resources_allow: Seq<bool>, k: int) -> bool {
    k < resources_allow.len() && (active_count + k == 0 || resources_allow[k])
}

proof fn lemma_round_count_bounds(
    recovery_pending: bool,
    active_count: int,
    max_concurrency: int,
    queued: int,
    resources_allow: Seq<bool>,
    k: int,
)
    requires
        0 <= k <= queued,
        active_count + k <= max_concurrency,
    ensures
        k <= round_count(recovery_pending, active_count, max_concurrency, queued, resources_allow, k) <= queued,
        active_count + round_count(recovery_pending, active_count, max_concurrency, queued, resources_allow, k)
            <= max_concurrency,
        recovery_pending ==> round_count(recovery_pending, active_count, max_concurrency, queued, resources_allow, k)
            == k,
        forall|j: int|
            k <= j < round_count(recovery_pending, active_count, max_concurrency, queued, resources_allow, k) ==> #[trigger] consented(
                active_count,
                resources_allow,
                j,
            ) && can_dispatch(recovery_pending, active_count + j, max_concurrency, resources_allow[j]),
        round_count(recovery_pending, active_count, max_concurrency, queued, resources_allow, k) < queued
            && round_count(recovery_pending, active_count, max_concurrency, queued, resources_allow, k)
            < resources_allow.len() ==> !can_dispatch(
            recovery_pending,
            active_count + round_count(recovery_pending, active_count, max_concurrency, queued, resources_allow, k),
            max_concurrency,
            resources_allow[round_count(recovery_pending, active_count, max_concurrency, queued, resources_allow, k)],
        ),
    decreases queued - k,
{
    if k < queued && k < resources_allow.len() && can_dispatch(
        recovery_pending,
        active_count + k,
        max_concurrency,
        resources_allow[k],
    ) {
        lemma_round_count_bounds(recovery_pending, active_count, max_concurrency, queued, resources_allow, k + 1);
        let n = round_count(recovery_pending, active_count, max_concurrency, queued, resources_allow, k);
        assert(n == round_count(recovery_pending, active_count, max_concurrency, queued, resources_allow, k + 1));
        assert(active_count + k == 0 || resources_allow[k]);
        assert forall|j: int| k <= j < n implies #[trigger] consented(active_count, resources_allow, j) by {
            if j > k {
                assert(k + 1 <= j < round_count(recovery_pending, active_count, max_concurrency, queued, resources_allow, k + 1));
            }
        }
    }
}

/// One scheduling round: the queued tasks (`queued`, in queue order) that
/// start, given the tasks running and the answers of the resource probes
/// (see `round_count`).
pub fn try_schedule_tasks_locked(
    recovery_pending: bool,
    active_count: usize,
    max_concurrency: usize,
    queued: &Vec<i64>,
    resources_allow: &Vec<bool>,
) -> (r: Vec<i64>)
    ensures
        r@ == queued@.take(
            round_count(
                recovery_pending,
                active_count as int,
                max_concurrency as int,
                queued@.len() as int,
                resources_allow@,
                0,
            ),
        ),
{
    let mut r: Vec<i64> = Vec::new();
    let mut k: usize = 0;
    let mut open = true;
    while open && k < queued.len() && k < resources_allow.len()
        invariant
            k <= queued.len(),
            r@ == queued@.take(k as int),
            round_count(recovery_pending, active_count as int, max_concurrency as int, queued@.len() as int, resources_allow@, 0)
                == round_count(recovery_pending, active_count as int, max_concurrency as int, queued@.len() as int, resources_allow@, k as int),
            !open ==> round_count(recovery_pending, active_count as int, max_concurrency as int, queued@.len() as int, resources_allow@, k as int) == k,
        decreases queued.len() - k, (if open { 1int } else { 0int }),
    {
        if active_count >= max_concurrency || k >= max_concurrency - active_count {
            open = false;
        } else if !scheduler_can_dispatch(recovery_pending, active_count + k, max_concurrency, resources_allow[k]) {
            open = false;
        } else {
            r.push(queued[k]);
            k += 1;
            assert(r@ =~= queued@.take(k as int));
        }
    }
    r
}

/// The number of running tasks never exceeds the limit: a scheduling round
/// started with at most `max_concurrency` tasks running starts at most as
/// many as the limit leaves room for, and none while a queue recovery is
/// pending. Every start but one made while nothing runs had the consent of
/// the resource probe made just before it.
pub proof fn law_schedule_respects_concurrency(
    recovery_pending: bool,
    active_count: int,
    max_concurrency: int,
    queued: Seq<i64>,
    resources_allow: Seq<bool>,
)
    requires
        0 <= active_count <= max_concurrency,
    ensures
        ({
            let n = round_count(recovery_pending, active_count, max_concurrency, queued.len() as int, resources_allow, 0);
            &&& 0 <= n <= queued.len()
            &&& active_count + n <= max_concurrency
            &&& recovery_pending ==> n == 0
            &&& forall|k: int| 0 <= k < n ==> #[trigger] consented(active_count, resources_allow, k)
        }),
{
    lemma_round_count_bounds(recovery_pending, active_count, max_concurrency, queued.len() as int, resources_allow, 0);
}

/// What the scheduler does next in a round.
#[derive(Debug, Clone, Copy, PartialEq, Eq)]
pub enum ScheduleAction {
    /// The round ends.
    Stop,
    /// Ask the resource probe whether the machine can take one more task.
    ProbeResources,
    /// Take the next queued task, if there is one, and start it.
    StartNext,
}

/// The next step of a round, given whether a queue recovery is pending, the
/// tasks running now, the limit, and the answer of the resource probe made
/// for this start (`None` while none was made). The probe is asked only
/// where some task already runs and the limit leaves room.
pub open spec fn schedule_step_spec(
    recovery_pending: bool,
    active_count: int,
    max_concurrency: int,
    probe: Option<bool>,
) -> ScheduleAction {
    if recovery_pending || active_count >= max_concurrency {
        ScheduleAction::Stop
    } else if active_count == 0 {
        ScheduleAction::StartNext
    } else {
        match probe {
            None => ScheduleAction::ProbeResources,
            Some(true) => ScheduleAction::StartNext,
            Some(false) => ScheduleAction::Stop,
        }
    }
}

/// One step of a scheduling round (see `schedule_step_spec`). The shell
/// reads the running count and the settings afresh before each step, probes
/// the resources when asked to, and starts the next queued task on
/// `StartNext`, so that each start has a probe of its own.
pub fn schedule_step(recovery_pending: bool, active_count: usize, max_concurrency: usize, probe: Option<bool>) -> (r:
    ScheduleAction)
    ensures
        r == schedule_step_spec(recovery_pending, active_count as int, max_concurrency as int, probe),
        r == ScheduleAction::StartNext <==> can_dispatch(
            recovery_pending,
            active_count as int,
            max_concurrency as int,
            probe == Some(true),
        ),
        r == ScheduleAction::ProbeResources <==> !recovery_pending && 0 < active_count < max_concurrency
            && probe is None,
{
    if recovery_pending || active_count >= max_concurrency {
        ScheduleAction::Stop
    } else if active_count == 0 {
        ScheduleAction::StartNext
    } else {
        match probe {
            None => ScheduleAction::ProbeResources,
            Some(true) => ScheduleAction::StartNext,
            Some(false) => ScheduleAction::Stop,
        }
    }
}

/// Law: a round taken step by step starts the same tasks as the round of
/// `try_schedule_tasks_locked`. With the `k`-th probe answering
/// `resources_allow[k]`, every step before the round's count says
/// `StartNext`, and the step at the count says `Stop` where a task is still
/// queued and a probe answer is given for it.
pub proof fn law_steps_follow_round(
    recovery_pending: bool,
    active_count: int,
    max_concurrency: int,
    queued: Seq<i64>,
    resources_allow: Seq<bool>,
)
    requires
        0 <= active_count <= max_concurrency,
    ensures
        ({
            let n = round_count(recovery_pending, active_count, max_concurrency, queued.len() as int, resources_allow, 0);
            &&& forall|k: int|
                0 <= k < n ==> #[trigger] schedule_step_spec(
                    recovery_pending,
                    active_count + k,
                    max_concurrency,
                    Some(resources_allow[k]),
                ) == ScheduleAction::StartNext
            &&& n < queued.len() && n < resources_allow.len() ==> schedule_step_spec(
                recovery_pending,
                active_count + n,
                max_concurrency,
                Some(resources_allow[n]),
            ) == ScheduleAction::Stop
        }),
{
    lemma_round_count_bounds(recovery_pending, active_count, max_concurrency, queued.len() as int, resources_allow, 0);
    let n = round_count(recovery_pending, active_count, max_concurrency, queued.len() as int, resources_allow, 0);
    assert forall|k: int| 0 <= k < n implies #[trigger] schedule_step_spec(
        recovery_pending,
        active_count + k,
        max_concurrency,
        Some(resources_allow[k]),
    ) == ScheduleAction::StartNext by {
        assert(consented(active_count, resources_allow, k));
    }
}

/// Law: the limit is reached, not only respected. With no queue recovery
/// pending and fewer than `max_concurrency` tasks running, one more task may
/// start when nothing runs yet or the resource probe consents; a step of the
/// round then starts the next task.
pub proof fn law_dispatch_up_to_limit(recovery_pending: bool, active_count: int, max_concurrency: int, resources_allow: bool)
    requires
        !recovery_pending,
        0 <= active_count < max_concurrency,
        active_count == 0 || resources_allow,
    ensures
        can_dispatch(recovery_pending, active_count, max_concurrency, resources_allow),
        schedule_step_spec(recovery_pending, active_count, max_concurrency, Some(resources_allow))
            == ScheduleAction::StartNext,
        active_count == 0 ==> schedule_step_spec(recovery_pending, active_count, max_concurrency, None)
            == ScheduleAction::StartNext,
{
}

proof fn lemma_round_fills_room(
    active_count: int,
    max_concurrency: int,
    queued: int,
    resources_allow: Seq<bool>,
    k: int,
)
    requires
        0 <= active_count,
        0 <= k <= queued,
        queued <= resources_allow.len(),
        k <= max_concurrency - active_count,
        forall|j: int| 0 <= j < queued ==> #[trigger] resources_allow[j],
    ensures
        round_count(false, active_count, max_concurrency, queued, resources_allow, k) == if queued
            < max_concurrency - active_count {
            queued
        } else {
            max_concurrency - active_count
        },
    decreases queued - k,
{
    if k < queued && k < max_concurrency - active_count {
        assert(resources_allow[k]);
        lemma_round_fills_room(active_count, max_concurrency, queued, resources_allow, k + 1);
    }
}

/// Law: with no queue recovery pending and every resource probe consenting,
/// a round starts as many queued tasks as the limit leaves room for, or all
/// of them where fewer are queued.
pub proof fn law_round_fills_limit(active_count: int, max_concurrency: int, queued: Seq<i64>, resources_allow: Seq<bool>)
    requires
        0 <= active_count <= max_concurrency,
        queued.len() <= resources_allow.len(),
        forall|j: int| 0 <= j < queued.len() ==> #[trigger] resources_allow[j],
    ensures
        round_count(false, active_count, max_concurrency, queued.len() as int, resources_allow, 0) == if queued.len()
            < max_concurrency - active_count {
            queued.len() as int
        } else {
            max_concurrency - active_count
        },
{
    lemma_round_fills_room(active_count, max_concurrency, queued.len() as int, resources_allow, 0);
}

/// Why a queued task could not be started.
#[derive(Debug, Clone, Copy, PartialEq, Eq)]
pub enum DispatchError {
    /// The task has no settings.
    MissingConfig,
}

impl DispatchError {
    /// The message shown to the user.
    pub fn message(&self) -> (r: String)
        ensures
            r@ == "任务缺少配置"@,
    {
        owned("任务缺少配置")
    }
}

/// The status a queued task starts in: preprocessing where it is enabled,
/// else analysis. A task that is no longer queued is left alone (none).
pub fn dispatch_queued_task(status: &str, enable_preprocessing: Option<bool>) -> (r: Result<Option<String>, DispatchError>)
    ensures
        status@ != "QUEUED"@ ==> r == Ok::<Option<String>, DispatchError>(None),
        status@ == "QUEUED"@ ==> match enable_preprocessing {
            None => r == Err::<Option<String>, DispatchError>(DispatchError::MissingConfig),
            Some(true) => (r matches Ok(Some(s)) && s@ == "PREPROCESSING"@),
            Some(false) => (r matches Ok(Some(s)) && s@ == "ANALYZING"@),
        },
{
    if !str_eq(status, "QUEUED") {
        return Ok(None);
    }
    match enable_preprocessing {
        None => Err(DispatchError::MissingConfig),
        Some(true) => Ok(Some(owned("PREPROCESSING"))),
        Some(false) => Ok(Some(owned("ANALYZING"))),
    }
}

} // verus!
