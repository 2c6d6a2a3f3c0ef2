use task_scheduler::engine::{EngineState, TriggerKind};
use task_scheduler::error::{TaskError, WinError};
use task_scheduler::pipeline::execute_task_at;
use task_scheduler::pipeline::execute_task;
use task_scheduler::triggers::{Actions, DailyTrigger, SpecificTimeTrigger, TaskTriggersBuilder};
use task_scheduler::wire::DEFAULT_END_OFFSET_SECONDS;

fn rfc3339(secs: i64) -> String {
    chrono::DateTime::<chrono::Utc>::from_timestamp(secs, 0)
        .unwrap()
        .to_rfc3339()
}

#[test]
fn nightly_backup_scenario() {
    let mut eng = EngineState::new();
    let now: i64 = 1_700_000_000;
    let actions = Actions::new("/usr/local/bin/backup".to_string());
    let triggers = TaskTriggersBuilder::new()
        .with_daily(DailyTrigger::new("trg-1".to_string()).with_interval(1))
        .build();

    let r = execute_task_at(&mut eng, &actions, &"Nightly Backup".to_string(), &triggers, now);
    assert_eq!(r, Ok(()));

    assert_eq!(eng.registered.len(), 1);
    let entry = &eng.registered[0];
    assert_eq!(entry.name, "Nightly Backup");
    let task = &entry.task;
    assert_eq!(task.author.as_deref(), Some("Author"));
    assert_eq!(task.start_when_available, Some(true));
    assert_eq!(task.wait_timeout.as_deref(), Some("PT5M"));
    assert_eq!(task.actions.len(), 1);
    assert_eq!(task.actions[0].path.as_deref(), Some("/usr/local/bin/backup"));
    assert_eq!(task.triggers.len(), 1);
    let trig = &task.triggers[0];
    assert_eq!(trig.kind, TriggerKind::Daily);
    assert_eq!(trig.id.as_deref(), Some("trg-1"));
    assert_eq!(trig.days_interval, Some(1));
    // Start defaults to "now", end to roughly one hundred years later.
    assert_eq!(trig.start_boundary.as_deref(), Some(rfc3339(now).as_str()));
    assert_eq!(
        trig.end_boundary.as_deref(),
        Some(rfc3339(now + DEFAULT_END_OFFSET_SECONDS).as_str())
    );

    // Everything acquired was released and the context went down once.
    assert_eq!(eng.stack.len(), 0);
    assert!(!eng.com_active);
    assert_eq!(eng.com_inits, 1);
    assert_eq!(eng.com_uninits, 1);
}

#[test]
fn ensure_twice_leaves_exactly_one_task() {
    let mut eng = EngineState::new();
    let now: i64 = 1_700_000_000;
    let actions = Actions::new("/usr/local/bin/backup".to_string());
    let triggers = TaskTriggersBuilder::new()
        .with_daily(DailyTrigger::new("trg-1".to_string()))
        .build();
    let name = "Nightly Backup".to_string();

    execute_task_at(&mut eng, &actions, &name, &triggers, now).unwrap();
    let after_first = eng.registered.clone();

    execute_task_at(&mut eng, &actions, &name, &triggers, now).unwrap();
    assert_eq!(eng.registered, after_first);
    let matching = eng
        .registered
        .iter()
        .filter(|e| e.name == "Nightly Backup")
        .count();
    assert_eq!(matching, 1);
    assert_eq!(eng.com_inits, 2);
    assert_eq!(eng.com_uninits, 2);
    assert_eq!(eng.stack.len(), 0);
}

#[test]
fn failed_registration_still_releases_everything() {
    let mut eng = EngineState::new();
    let now: i64 = 1_700_000_000;
    // An empty executable path is rejected by the registration call.
    let actions = Actions::new(String::new());
    let triggers = TaskTriggersBuilder::new()
        .with_daily(DailyTrigger::new("trg-1".to_string()))
        .build();

    let r = execute_task_at(&mut eng, &actions, &"Backup".to_string(), &triggers, now);
    assert_eq!(
        r,
        Err(TaskError::WinError(WinError::InvalidArg(
            "task name or action path rejected".to_string()
        )))
    );
    assert!(eng.registered.is_empty());
    assert_eq!(eng.stack.len(), 0);
    assert!(!eng.com_active);
    assert_eq!(eng.com_inits, 1);
    assert_eq!(eng.com_uninits, 1);
}

#[test]
fn invalid_task_name_is_rejected() {
    let mut eng = EngineState::new();
    let now: i64 = 1_700_000_000;
    let actions = Actions::new("/bin/true".to_string());
    let triggers = TaskTriggersBuilder::new()
        .with_daily(DailyTrigger::new("trg-1".to_string()))
        .build();

    let r = execute_task_at(&mut eng, &actions, &".hidden".to_string(), &triggers, now);
    assert_eq!(
        r,
        Err(TaskError::WinError(WinError::InvalidArg(
            "task name or action path rejected".to_string()
        )))
    );
    assert!(eng.registered.is_empty());
    assert_eq!(eng.stack.len(), 0);
    assert_eq!(eng.com_uninits, 1);
}

#[test]
fn out_of_range_boundary_is_rejected() {
    let mut eng = EngineState::new();
    let now: i64 = 1_700_000_000;
    let actions = Actions::new("/bin/true".to_string());
    let triggers = TaskTriggersBuilder::new()
        .with_daily(DailyTrigger::new("far".to_string()).with_start_time(5_000_000_000_000))
        .build();

    let r = execute_task_at(&mut eng, &actions, &"Far".to_string(), &triggers, now);
    assert_eq!(
        r,
        Err(TaskError::WinError(WinError::InvalidArg(
            "timestamp out of range".to_string()
        )))
    );
    assert!(eng.registered.is_empty());
    assert_eq!(eng.stack.len(), 0);
    assert_eq!(eng.com_uninits, 1);
}

#[test]
fn registration_supersedes_existing_task() {
    let mut eng = EngineState::new();
    let now: i64 = 1_700_000_000;
    let name = "Rotate Logs".to_string();
    let first = Actions::new("/usr/bin/rotate".to_string());
    let second = Actions::new("/usr/local/bin/rotate2".to_string());
    let triggers = TaskTriggersBuilder::new()
        .with_daily(DailyTrigger::new("d".to_string()))
        .build();

    execute_task_at(&mut eng, &first, &name, &triggers, now).unwrap();
    execute_task_at(&mut eng, &second, &name, &triggers, now).unwrap();
    assert_eq!(eng.registered.len(), 1);
    assert_eq!(
        eng.registered[0].task.actions[0].path.as_deref(),
        Some("/usr/local/bin/rotate2")
    );
}

#[test]
fn other_names_survive_an_ensure() {
    let mut eng = EngineState::new();
    let now: i64 = 1_700_000_000;
    let actions = Actions::new("/bin/true".to_string());
    let triggers = TaskTriggersBuilder::new()
        .with_daily(DailyTrigger::new("d".to_string()))
        .build();

    execute_task_at(&mut eng, &actions, &"One".to_string(), &triggers, now).unwrap();
    execute_task_at(&mut eng, &actions, &"Two".to_string(), &triggers, now).unwrap();
    assert_eq!(eng.registered.len(), 2);
    assert_eq!(eng.registered[0].name, "One");
    assert_eq!(eng.registered[1].name, "Two");
}

#[test]
fn mixed_trigger_kinds_fill_in_order() {
    let mut eng = EngineState::new();
    let now: i64 = 1_700_000_000;
    let actions = Actions::new("/bin/true".to_string());
    let triggers = TaskTriggersBuilder::new()
        .with_daily(DailyTrigger::new("daily-a".to_string()).with_start_time(now + 10))
        .with_specific_time(
            SpecificTimeTrigger::new("once-b".to_string(), now + 60).deactivate_date(now + 120),
        )
        .build();

    execute_task_at(&mut eng, &actions, &"Mixed".to_string(), &triggers, now).unwrap();
    let task = &eng.registered[0].task;
    assert_eq!(task.triggers.len(), 2);
    assert_eq!(task.triggers[0].kind, TriggerKind::Daily);
    assert_eq!(task.triggers[0].id.as_deref(), Some("daily-a"));
    assert_eq!(
        task.triggers[0].start_boundary.as_deref(),
        Some(rfc3339(now + 10).as_str())
    );
    assert_eq!(task.triggers[1].kind, TriggerKind::Time);
    assert_eq!(task.triggers[1].id.as_deref(), Some("once-b"));
    assert_eq!(
        task.triggers[1].start_boundary.as_deref(),
        Some(rfc3339(now + 60).as_str())
    );
    assert_eq!(
        task.triggers[1].end_boundary.as_deref(),
        Some(rfc3339(now + 120).as_str())
    );
}

#[test]
fn oversized_interval_wraps_like_the_wire_type() {
    let mut eng = EngineState::new();
    let now: i64 = 1_700_000_000;
    let actions = Actions::new("/bin/true".to_string());
    let triggers = TaskTriggersBuilder::new()
        .with_daily(DailyTrigger::new("wide".to_string()).with_interval(40000))
        .build();

    execute_task_at(&mut eng, &actions, &"Wide".to_string(), &triggers, now).unwrap();
    let trig = &eng.registered[0].task.triggers[0];
    assert_eq!(trig.days_interval, Some(40000u16 as i16));
    assert_eq!(trig.days_interval, Some(-25536));
}

#[test]
fn execute_task_uses_the_wall_clock() {
    let mut eng = EngineState::new();
    let actions = Actions::new("/bin/true".to_string());
    let triggers = TaskTriggersBuilder::new()
        .with_daily(DailyTrigger::new("d".to_string()))
        .build();
    let r = execute_task(&mut eng, actions, "Clocked".to_string(), triggers);
    assert_eq!(r, Ok(()));
    assert_eq!(eng.registered.len(), 1);
    assert_eq!(eng.registered[0].name, "Clocked");
    assert_eq!(eng.stack.len(), 0);
    assert!(!eng.com_active);
}
