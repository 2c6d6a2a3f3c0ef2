//! Caller-facing descriptions of a task: what to run and when to run it.
//!
//! A trigger's boundary timestamps are whole seconds since the Unix epoch;
//! boundaries the caller leaves unset are defaulted late, when the
//! definition is built (start: the current time; end: effectively never,
//! see [`crate::wire::resolve_boundaries`]).

use vstd::prelude::*;

verus! {

/// The executables a task runs when it fires.  The engine caps a task at
/// 32 actions; this wrapper currently builds tasks with exactly one.
#[derive(Debug, Clone, PartialEq, Eq)]
pub struct Actions(pub Vec<String>);

impl Actions {
    /// One action: run the executable at `path`.  Whether the path points
    /// at a real file is for the caller to establish.
    pub fn new(path: String) -> (r: Self)
        ensures
            r.0@.len() == 1,
            r.0@[0] == path,
    {
        Actions(vec![path])
    }
}

/// A trigger that fires on a daily stride.
///
/// The recurrence stride crosses the wire as a 16-bit signed integer, so
/// the interval is capped at `i16::MAX` days.
#[derive(Debug, Clone, PartialEq, Eq)]
pub struct DailyTrigger {
    pub start_time: Option<i64>,
    pub end_time: Option<i64>,
    pub interval: Option<u16>,
    pub id: String,
}

impl DailyTrigger {
    /// A daily trigger with only its identifier set: the start boundary
    /// will default to the current time, the end boundary to roughly one
    /// hundred years later, and the interval to every day.
    pub fn new(id: String) -> (r: Self)
        ensures
            r.id == id,
            r.start_time is None,
            r.end_time is None,
            r.interval is None,
    {
        DailyTrigger { id, start_time: None, end_time: None, interval: None }
    }

    /// Sets the start boundary, which is also the time of day the task
    /// runs at on each firing.
    pub fn with_start_time(self, start: i64) -> (r: Self)
        ensures
            r == (DailyTrigger { start_time: Some(start), ..self }),
    {
        DailyTrigger { start_time: Some(start), ..self }
    }

    /// Sets the end boundary, past which the trigger no longer fires.
    pub fn with_end_time(self, end: i64) -> (r: Self)
        ensures
            r == (DailyTrigger { end_time: Some(end), ..self }),
    {
        DailyTrigger { end_time: Some(end), ..self }
    }

    /// Sets the recurrence stride in days; 1 means every day.
    pub fn with_interval(self, interval: u16) -> (r: Self)
        ensures
            r == (DailyTrigger { interval: Some(interval), ..self }),
    {
        DailyTrigger { interval: Some(interval), ..self }
    }
}

/// A trigger that fires once at a specific time.
#[derive(Debug, Clone, PartialEq, Eq)]
pub struct SpecificTimeTrigger {
    pub id: String,
    pub time: i64,
    pub deactivate_date: Option<i64>,
}

impl SpecificTimeTrigger {
    /// A one-shot trigger firing at `time`.
    pub fn new(id: String, time: i64) -> (r: Self)
        ensures
            r.id == id,
            r.time == time,
            r.deactivate_date is None,
    {
        SpecificTimeTrigger { id, time, deactivate_date: None }
    }

    /// Sets the date past which the trigger is deactivated; defaults to
    /// roughly one hundred years after the current time.
    pub fn deactivate_date(self, time: i64) -> (r: Self)
        ensures
            r == (SpecificTimeTrigger { deactivate_date: Some(time), ..self }),
    {
        SpecificTimeTrigger { deactivate_date: Some(time), ..self }
    }
}

/// Fires when a matching event is logged.  Declared in the taxonomy; its
/// kind-specific fields are not populated yet.
#[derive(Debug, Clone, PartialEq, Eq)]
pub struct EventTrigger {}

/// Fires when the machine goes idle.  Declared in the taxonomy; its
/// kind-specific fields are not populated yet.
#[derive(Debug, Clone, PartialEq, Eq)]
pub struct IdleTrigger {}

/// Fires when the task is registered.  Declared in the taxonomy; its
/// kind-specific fields are not populated yet.
#[derive(Debug, Clone, PartialEq, Eq)]
pub struct RegistrationTrigger {}

/// Fires when a user logs on.  Declared in the taxonomy; its kind-specific
/// fields are not populated yet.
#[derive(Debug, Clone, PartialEq, Eq)]
pub struct LogonTrigger {}

/// Fires when the machine boots.  Declared in the taxonomy; its
/// kind-specific fields are not populated yet.
#[derive(Debug, Clone, PartialEq, Eq)]
pub struct BootTrigger {}

/// Fires on a monthly schedule.  Declared in the taxonomy; its
/// kind-specific fields are not populated yet.
#[derive(Debug, Clone, PartialEq, Eq)]
pub struct MonthlyTrigger {}

/// Fires on a weekly schedule.  Declared in the taxonomy; its
/// kind-specific fields are not populated yet.
#[derive(Debug, Clone, PartialEq, Eq)]
pub struct WeeklyTrigger {}

/// When a task fires, as a tagged union over the trigger categories the
/// engine knows.  Only the daily and specific-time categories carry
/// populated payloads so far.
#[derive(Debug, Clone, PartialEq, Eq)]
pub enum TaskTriggerType {
    /// Fires when a specific event occurs.
    Event,
    /// Fires at a specific time of day.
    SpecificTime(SpecificTimeTrigger),
    /// Fires on a daily stride: every day, every other day, and so on.
    Daily(DailyTrigger),
    /// Fires on a weekly schedule.
    Weekly,
    /// Fires on a monthly schedule.
    Monthly,
    /// Fires on a monthly day-of-week schedule.
    MonthlyDow,
    /// Fires when the machine goes idle.
    Idle,
    /// Fires when the task is registered.
    Registration,
    /// Fires when the machine boots.
    Boot,
    /// Fires when a specific user logs on.
    Logon,
    /// Fires when a specific session state changes.
    SessionStateChange,
    /// A custom trigger category without further documentation.
    CustomTrigger01,
}

/// A task can carry at most this many triggers.
pub const MAX_TRIGGERS: u8 = 48;

/// The triggers of a task, grouped by category.  Built through
/// [`TaskTriggersBuilder`]; holds at least one trigger.
#[derive(Debug, Clone, PartialEq, Eq)]
pub struct TaskTriggers {
    pub daily: Option<Vec<DailyTrigger>>,
    pub event: Option<Vec<EventTrigger>>,
    pub idle: Option<IdleTrigger>,
    pub registration: Option<RegistrationTrigger>,
    pub time: Option<Vec<SpecificTimeTrigger>>,
    pub logon: Option<LogonTrigger>,
    pub boot: Option<BootTrigger>,
    pub monthly: Option<Vec<MonthlyTrigger>>,
    pub weekly: Option<Vec<WeeklyTrigger>>,
}

impl TaskTriggers {
    /// The daily triggers, empty when none were added.
    pub open spec fn daily_seq(&self) -> Seq<DailyTrigger> {
        match self.daily {
            Some(v) => v@,
            None => Seq::empty(),
        }
    }

    /// The specific-time triggers, empty when none were added.
    pub open spec fn time_seq(&self) -> Seq<SpecificTimeTrigger> {
        match self.time {
            Some(v) => v@,
            None => Seq::empty(),
        }
    }

    /// How many triggers the task carries.
    pub open spec fn count(&self) -> int {
        self.daily_seq().len() + self.time_seq().len() as int
    }

    /// Well-formed: only the populated categories are used, a category that
    /// is present is nonempty, and there is at least one trigger but no
    /// more than the engine's ceiling.
    pub open spec fn wf(&self) -> bool {
        &&& self.event is None
        &&& self.idle is None
        &&& self.registration is None
        &&& self.logon is None
        &&& self.boot is None
        &&& self.monthly is None
        &&& self.weekly is None
        &&& 1 <= self.count() <= MAX_TRIGGERS
    }

    /// Seals a builder.  The builder must hold at least one trigger; a
    /// task that can never fire is refused before it gets anywhere near
    /// the engine.
    pub fn new(builder: TaskTriggersBuilder) -> (r: Self)
        requires
            builder.wf(),
            builder.number_of_triggers > 0,
        ensures
            r.wf(),
            r.daily_seq() == builder.daily_seq(),
            r.time_seq() == builder.time_seq(),
    {
        TaskTriggers {
            daily: builder.daily,
            event: builder.event,
            idle: builder.idle,
            registration: builder.registration,
            time: builder.specific_times,
            logon: builder.logon,
            boot: builder.boot,
            monthly: builder.monthly,
            weekly: builder.weekly,
        }
    }
}

/// Accumulates triggers for a task, up to the engine's ceiling of
/// [`MAX_TRIGGERS`].
#[derive(Debug, Clone, PartialEq, Eq)]
pub struct TaskTriggersBuilder {
    pub number_of_triggers: u8,
    pub daily: Option<Vec<DailyTrigger>>,
    pub event: Option<Vec<EventTrigger>>,
    pub idle: Option<IdleTrigger>,
    pub registration: Option<RegistrationTrigger>,
    pub specific_times: Option<Vec<SpecificTimeTrigger>>,
    pub logon: Option<LogonTrigger>,
    pub boot: Option<BootTrigger>,
    pub monthly: Option<Vec<MonthlyTrigger>>,
    pub weekly: Option<Vec<WeeklyTrigger>>,
}

impl TaskTriggersBuilder {
    /// The daily triggers added so far.
    pub open spec fn daily_seq(&self) -> Seq<DailyTrigger> {
        match self.daily {
            Some(v) => v@,
            None => Seq::empty(),
        }
    }

    /// The specific-time triggers added so far.
    pub open spec fn time_seq(&self) -> Seq<SpecificTimeTrigger> {
        match self.specific_times {
            Some(v) => v@,
            None => Seq::empty(),
        }
    }

    /// Well-formed: the count field tallies the triggers added so far,
    /// only the populated categories are used, and a category that is
    /// present is nonempty.
    pub open spec fn wf(&self) -> bool {
        &&& self.number_of_triggers <= MAX_TRIGGERS
        &&& self.number_of_triggers as int == self.daily_seq().len() + self.time_seq().len()
        &&& (self.daily is Some ==> self.daily_seq().len() > 0)
        &&& (self.specific_times is Some ==> self.time_seq().len() > 0)
        &&& self.event is None
        &&& self.idle is None
        &&& self.registration is None
        &&& self.logon is None
        &&& self.boot is None
        &&& self.monthly is None
        &&& self.weekly is None
    }

    /// An empty builder.
    pub fn new() -> (r: Self)
        ensures
            r.wf(),
            r.number_of_triggers == 0,
            r.daily_seq() == Seq::<DailyTrigger>::empty(),
            r.time_seq() == Seq::<SpecificTimeTrigger>::empty(),
    {
        TaskTriggersBuilder {
            number_of_triggers: 0,
            daily: None,
            event: None,
            idle: None,
            registration: None,
            specific_times: None,
            logon: None,
            boot: None,
            monthly: None,
            weekly: None,
        }
    }

    /// Adds a daily trigger.
    pub fn with_daily(self, daily: DailyTrigger) -> (r: Self)
        requires
            self.wf(),
            self.number_of_triggers < MAX_TRIGGERS,
        ensures
            r.wf(),
            r.number_of_triggers == self.number_of_triggers + 1,
            r.daily_seq() == self.daily_seq().push(daily),
            r.time_seq() == self.time_seq(),
    {
        let mut this = self;
        match this.daily {
            Some(ref mut daily_triggers) => {
                daily_triggers.push(daily);
            },
            None => {
                let mut daily_triggers = Vec::new();
                daily_triggers.push(daily);
                this.daily = Some(daily_triggers);
            },
        }
        this.number_of_triggers = this.number_of_triggers + 1;
        proof {
            assert(this.daily_seq() =~= self.daily_seq().push(daily));
        }
        this
    }

    /// Adds a specific-time trigger.
    pub fn with_specific_time(self, specific_time: SpecificTimeTrigger) -> (r: Self)
        requires
            self.wf(),
            self.number_of_triggers < MAX_TRIGGERS,
        ensures
            r.wf(),
            r.number_of_triggers == self.number_of_triggers + 1,
            r.time_seq() == self.time_seq().push(specific_time),
            r.daily_seq() == self.daily_seq(),
    {
        let mut this = self;
        match this.specific_times {
            Some(ref mut specific_time_triggers) => {
                specific_time_triggers.push(specific_time);
            },
            None => {
                let mut specific_time_triggers = Vec::new();
                specific_time_triggers.push(specific_time);
                this.specific_times = Some(specific_time_triggers);
            },
        }
        this.number_of_triggers = this.number_of_triggers + 1;
        proof {
            assert(this.time_seq() =~= self.time_seq().push(specific_time));
        }
        this
    }

    /// Seals the builder; see [`TaskTriggers::new`].
    pub fn build(self) -> (r: TaskTriggers)
        requires
            self.wf(),
            self.number_of_triggers > 0,
        ensures
            r.wf(),
            r.daily_seq() == self.daily_seq(),
            r.time_seq() == self.time_seq(),
    {
        TaskTriggers::new(self)
    }
}

} // verus!
