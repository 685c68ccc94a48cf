use var_desktop::scheduler::{schedule_step, ScheduleAction};
use var_desktop::scheduler::{
    dispatch_queued_task, scheduler_can_dispatch, try_schedule_tasks_locked, validate_max_concurrency,
    DispatchError, MAX_CONCURRENCY_LIMIT,
};

#[test]
fn max_concurrency_is_between_one_and_six() {
    assert_eq!(validate_max_concurrency(1), Ok(1));
    assert_eq!(validate_max_concurrency(6), Ok(6));
    assert_eq!(validate_max_concurrency(0), Err("最大并发数必须在 1 到 6 之间".to_string()));
    assert_eq!(validate_max_concurrency(7), Err("最大并发数必须在 1 到 6 之间".to_string()));
    assert_eq!(MAX_CONCURRENCY_LIMIT, 6);
}

#[test]
fn one_more_task_may_start() {
    assert!(scheduler_can_dispatch(false, 0, 3, false));
    assert!(scheduler_can_dispatch(false, 2, 3, true));
    assert!(!scheduler_can_dispatch(false, 2, 3, false));
    assert!(!scheduler_can_dispatch(false, 3, 3, true));
    assert!(!scheduler_can_dispatch(true, 0, 3, true));
}

#[test]
fn a_round_never_exceeds_the_limit() {
    let queued = vec![11, 12, 13, 14];
    let allow = vec![true, true, true, true];
    assert_eq!(try_schedule_tasks_locked(false, 0, 3, &queued, &allow), vec![11, 12, 13]);
    assert_eq!(try_schedule_tasks_locked(false, 2, 3, &queued, &allow), vec![11]);
    assert_eq!(try_schedule_tasks_locked(false, 3, 3, &queued, &allow), Vec::<i64>::new());
    assert_eq!(try_schedule_tasks_locked(false, 5, 3, &queued, &allow), Vec::<i64>::new());
    assert_eq!(try_schedule_tasks_locked(true, 0, 3, &queued, &allow), Vec::<i64>::new());
    for active in 0..4usize {
        let started = try_schedule_tasks_locked(false, active, 3, &queued, &allow);
        assert!(active + started.len() <= 3);
    }
}

#[test]
fn a_round_stops_when_resources_are_short() {
    let queued = vec![1, 2, 3];
    // The first start does not consult the resources: no task is running yet.
    assert_eq!(try_schedule_tasks_locked(false, 0, 6, &queued, &vec![false, true, false]), vec![1, 2]);
    assert_eq!(try_schedule_tasks_locked(false, 1, 6, &queued, &vec![false, true, true]), Vec::<i64>::new());
    assert_eq!(try_schedule_tasks_locked(false, 0, 6, &vec![], &vec![true]), Vec::<i64>::new());
}

#[test]
fn queued_tasks_start_in_the_right_phase() {
    assert_eq!(dispatch_queued_task("QUEUED", Some(true)), Ok(Some("PREPROCESSING".to_string())));
    assert_eq!(dispatch_queued_task("QUEUED", Some(false)), Ok(Some("ANALYZING".to_string())));
    assert_eq!(dispatch_queued_task("QUEUED", None), Err(DispatchError::MissingConfig));
    assert_eq!(dispatch_queued_task("PENDING", Some(true)), Ok(None));
    assert_eq!(DispatchError::MissingConfig.message(), "任务缺少配置");
}

#[test]
fn schedule_step_probes_only_when_a_task_runs() {
    assert_eq!(schedule_step(false, 0, 2, None), ScheduleAction::StartNext);
    assert_eq!(schedule_step(false, 1, 2, None), ScheduleAction::ProbeResources);
    assert_eq!(schedule_step(false, 1, 2, Some(true)), ScheduleAction::StartNext);
    assert_eq!(schedule_step(false, 1, 2, Some(false)), ScheduleAction::Stop);
    assert_eq!(schedule_step(false, 2, 2, None), ScheduleAction::Stop);
    assert_eq!(schedule_step(true, 0, 2, None), ScheduleAction::Stop);
}

#[test]
fn stepwise_round_matches_batch_round() {
    let queued = vec![5, 6, 7, 8];
    let allow = vec![true, true, false, true];
    let batch = try_schedule_tasks_locked(false, 1, 6, &queued, &allow);
    let mut started = Vec::new();
    let mut active = 1usize;
    for k in 0..queued.len() {
        let mut action = schedule_step(false, active, 6, None);
        if action == ScheduleAction::ProbeResources {
            action = schedule_step(false, active, 6, Some(allow[k]));
        }
        if action != ScheduleAction::StartNext {
            break;
        }
        started.push(queued[k]);
        active += 1;
    }
    assert_eq!(started, batch);
    assert_eq!(batch, vec![5, 6]);
}
