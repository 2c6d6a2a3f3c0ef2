use task_scheduler::engine::TaskLogon;
use task_scheduler::triggers::{
    Actions, BootTrigger, DailyTrigger, EventTrigger, IdleTrigger, LogonTrigger, MonthlyTrigger,
    RegistrationTrigger, SpecificTimeTrigger, TaskTriggerType, TaskTriggers, TaskTriggersBuilder,
    WeeklyTrigger, MAX_TRIGGERS,
};

#[test]
fn actions_holds_one_path() {
    let a = Actions::new("/usr/local/bin/backup".to_string());
    assert_eq!(a.0.len(), 1);
    assert_eq!(a.0[0], "/usr/local/bin/backup");
}

#[test]
fn daily_trigger_builder_fields() {
    let t = DailyTrigger::new("trg-1".to_string());
    assert_eq!(t.id, "trg-1");
    assert_eq!(t.start_time, None);
    assert_eq!(t.end_time, None);
    assert_eq!(t.interval, None);

    let t = t.with_start_time(100).with_end_time(200).with_interval(3);
    assert_eq!(t.start_time, Some(100));
    assert_eq!(t.end_time, Some(200));
    assert_eq!(t.interval, Some(3));
}

#[test]
fn specific_time_trigger_builder_fields() {
    let t = SpecificTimeTrigger::new("once".to_string(), 42);
    assert_eq!(t.id, "once");
    assert_eq!(t.time, 42);
    assert_eq!(t.deactivate_date, None);
    let t = t.deactivate_date(99);
    assert_eq!(t.deactivate_date, Some(99));
}

#[test]
fn builder_counts_triggers() {
    let b = TaskTriggersBuilder::new();
    assert_eq!(b.number_of_triggers, 0);
    let b = b.with_daily(DailyTrigger::new("a".to_string()));
    let b = b.with_specific_time(SpecificTimeTrigger::new("b".to_string(), 7));
    let b = b.with_daily(DailyTrigger::new("c".to_string()));
    assert_eq!(b.number_of_triggers, 3);
    let t = b.build();
    assert_eq!(t.daily.as_ref().unwrap().len(), 2);
    assert_eq!(t.time.as_ref().unwrap().len(), 1);
    assert_eq!(t.daily.as_ref().unwrap()[0].id, "a");
    assert_eq!(t.daily.as_ref().unwrap()[1].id, "c");
    assert_eq!(t.time.as_ref().unwrap()[0].id, "b");
}

#[test]
fn builder_accepts_up_to_the_ceiling() {
    let mut b = TaskTriggersBuilder::new();
    for i in 0..MAX_TRIGGERS {
        b = b.with_daily(DailyTrigger::new(format!("t{}", i)));
    }
    assert_eq!(b.number_of_triggers, MAX_TRIGGERS);
    let t = b.build();
    assert_eq!(t.daily.as_ref().unwrap().len(), MAX_TRIGGERS as usize);
}

#[test]
fn sealed_triggers_via_new() {
    let b = TaskTriggersBuilder::new().with_daily(DailyTrigger::new("only".to_string()));
    let t = TaskTriggers::new(b);
    assert_eq!(t.daily.as_ref().unwrap().len(), 1);
    assert!(t.time.is_none());
}

#[test]
fn trigger_type_taxonomy_constructs() {
    let variants = vec![
        TaskTriggerType::Event,
        TaskTriggerType::SpecificTime(SpecificTimeTrigger::new("s".to_string(), 1)),
        TaskTriggerType::Daily(DailyTrigger::new("d".to_string())),
        TaskTriggerType::Weekly,
        TaskTriggerType::Monthly,
        TaskTriggerType::MonthlyDow,
        TaskTriggerType::Idle,
        TaskTriggerType::Registration,
        TaskTriggerType::Boot,
        TaskTriggerType::Logon,
        TaskTriggerType::SessionStateChange,
        TaskTriggerType::CustomTrigger01,
    ];
    assert_eq!(variants.len(), 12);
    let _declared_kinds = (
        EventTrigger {},
        IdleTrigger {},
        RegistrationTrigger {},
        LogonTrigger {},
        BootTrigger {},
        MonthlyTrigger {},
        WeeklyTrigger {},
    );
}

#[test]
fn logon_codes_match_the_wire_enumeration() {
    assert_eq!(TaskLogon::Unspecified.code(), 0);
    assert_eq!(TaskLogon::Password.code(), 1);
    assert_eq!(TaskLogon::S4U.code(), 2);
    assert_eq!(TaskLogon::InteractiveToken.code(), 3);
    assert_eq!(TaskLogon::Group.code(), 4);
    assert_eq!(TaskLogon::ServiceAccount.code(), 5);
    assert_eq!(TaskLogon::InteractiveTokenOrPassword.code(), 6);
}
