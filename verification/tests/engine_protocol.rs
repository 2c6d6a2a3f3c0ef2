use task_scheduler::engine::{EngineState, TriggerKind};
use task_scheduler::error::{ComError, TaskError, WinError};
use task_scheduler::pipeline::register_definition;

#[test]
fn narrowing_mismatch_is_capability_not_supported() {
    let mut eng = EngineState::new();
    eng.com_initialize().unwrap();
    eng.security_initialize().unwrap();
    let svc = eng.create_service().unwrap();
    eng.connect(svc).unwrap();
    let defh = eng.new_task(svc).unwrap();
    let tc = eng.get_triggers(defh).unwrap();
    let tr = eng.create_trigger(tc, TriggerKind::Daily).unwrap();

    // A daily trigger does not expose the time-trigger capability.
    let narrowed = eng.narrow_time_trigger(tr);
    assert_eq!(narrowed, Err(TaskError::WinError(WinError::NoInterface)));

    // Narrowing to its own capability succeeds.
    let cap = eng.narrow_daily_trigger(tr).unwrap();
    eng.release(cap);
    eng.release(tr);
    eng.release(tc);
    eng.release(defh);
    eng.release(svc);
    eng.com_uninitialize();
    assert_eq!(eng.stack.len(), 0);
}

#[test]
fn zero_triggers_rejected_before_the_engine() {
    let mut eng = EngineState::new();
    eng.com_initialize().unwrap();
    eng.security_initialize().unwrap();
    let svc = eng.create_service().unwrap();
    eng.connect(svc).unwrap();
    let folder = eng.get_folder(svc, "\\").unwrap();
    let defh = eng.new_task(svc).unwrap();

    let registered_before = eng.registered.clone();
    let stack_before = eng.stack.clone();
    let r = register_definition(&mut eng, folder, &"valid-name".to_string(), defh);
    assert_eq!(
        r,
        Err(TaskError::Error(
            "a task definition needs at least one trigger".to_string()
        ))
    );
    // Nothing reached the engine: no handle moved, nothing was persisted.
    assert_eq!(eng.registered, registered_before);
    assert_eq!(eng.stack, stack_before);

    eng.release(defh);
    eng.release(folder);
    eng.release(svc);
    eng.com_uninitialize();
}

#[test]
fn double_initialize_is_surfaced_not_crashed() {
    let mut eng = EngineState::new();
    eng.com_initialize().unwrap();
    let second = eng.com_initialize();
    assert_eq!(second, Err(ComError::RpcChangedMode));
    eng.com_uninitialize();
}

#[test]
fn delete_of_missing_task_reports_but_removes_nothing() {
    let mut eng = EngineState::new();
    eng.com_initialize().unwrap();
    eng.security_initialize().unwrap();
    let svc = eng.create_service().unwrap();
    eng.connect(svc).unwrap();
    let folder = eng.get_folder(svc, "\\").unwrap();
    let r = eng.delete_task(folder, &"absent".to_string());
    assert_eq!(
        r,
        Err(TaskError::WinError(WinError::UnknownError(
            "no such task".to_string()
        )))
    );
    assert!(eng.registered.is_empty());
    eng.release(folder);
    eng.release(svc);
    eng.com_uninitialize();
}

#[test]
fn folder_paths_other_than_root_are_not_found() {
    let mut eng = EngineState::new();
    eng.com_initialize().unwrap();
    eng.security_initialize().unwrap();
    let svc = eng.create_service().unwrap();
    eng.connect(svc).unwrap();
    let r = eng.get_folder(svc, "\\Tasks\\Sub");
    assert_eq!(
        r,
        Err(TaskError::WinError(WinError::UnknownError(
            "folder not found".to_string()
        )))
    );
    eng.release(svc);
    eng.com_uninitialize();
}
