//! The registration pipeline: ensure that exactly one task of a given
//! name is registered, built from a caller-supplied description.
//!
//! The flow is strictly top-down and synchronous: initialize the runtime
//! context, connect the service, resolve the root folder, delete any task
//! of the name (absence tolerated), build a fresh definition, fill its
//! property bags, triggers and actions, register it, and tear everything
//! down in reverse acquisition order.  Every contract below pins the
//! engine state after the call, on the success path and on every failure
//! path: no failure leaks a handle, no failure leaves the context
//! initialized, and nothing is persisted unless registration itself
//! succeeded.

use vstd::prelude::*;

use crate::engine::{
    register_accepts, without_name, ActionRecordView, EngineState, HandleRole, LiveHandle,
    RegisteredEntryView, TaskDefinitionView, TaskLogon, TriggerKind, TriggerRecordView,
};
use crate::error::{ComError, TaskError, WinError};
use crate::triggers::{Actions, DailyTrigger, SpecificTimeTrigger, TaskTriggers};
use crate::wire::{
    encode_boundary, iso_duration_minutes, now_epoch_seconds, resolve_boundaries, rfc3339_of,
    wait_timeout_wire, DEFAULT_END_OFFSET_SECONDS, MAX_ENCODABLE_SECONDS,
};

verus! {

/// The author written into every definition's registration info.
pub open spec fn default_author() -> Seq<char> {
    "Author"@
}

/// The idle wait timeout written into every definition, in minutes.
pub const WAIT_TIMEOUT_MINUTES: u64 = 5;

/// The start boundary a daily trigger resolves to: what the caller set,
/// else the current time.
pub open spec fn resolved_start_daily(t: DailyTrigger, now: int) -> int {
    if t.start_time is Some {
        t.start_time->0 as int
    } else {
        now
    }
}

/// The end boundary a daily trigger resolves to: what the caller set,
/// else effectively never.
pub open spec fn resolved_end_daily(t: DailyTrigger, now: int) -> int {
    if t.end_time is Some {
        t.end_time->0 as int
    } else {
        now + DEFAULT_END_OFFSET_SECONDS
    }
}

/// The recurrence stride a daily trigger resolves to: what the caller
/// set, else every day.  The stride crosses the wire as a 16-bit signed
/// integer, so a larger setting wraps, as it always has.
pub open spec fn resolved_interval_daily(t: DailyTrigger) -> i16 {
    if t.interval is Some {
        wire_interval(t.interval->0)
    } else {
        1i16
    }
}

/// The end boundary a specific-time trigger resolves to: what the caller
/// set, else effectively never.
pub open spec fn resolved_end_time(t: SpecificTimeTrigger, now: int) -> int {
    if t.deactivate_date is Some {
        t.deactivate_date->0 as int
    } else {
        now + DEFAULT_END_OFFSET_SECONDS
    }
}

/// Whether both resolved boundaries of a daily trigger fit the calendar
/// range of the wire encoding.
pub open spec fn daily_encodable(t: DailyTrigger, now: int) -> bool {
    &&& -MAX_ENCODABLE_SECONDS <= resolved_start_daily(t, now) <= MAX_ENCODABLE_SECONDS
    &&& -MAX_ENCODABLE_SECONDS <= resolved_end_daily(t, now) <= MAX_ENCODABLE_SECONDS
}

/// Whether both resolved boundaries of a specific-time trigger fit the
/// calendar range of the wire encoding.
pub open spec fn time_encodable(t: SpecificTimeTrigger, now: int) -> bool {
    &&& -MAX_ENCODABLE_SECONDS <= t.time as int <= MAX_ENCODABLE_SECONDS
    &&& -MAX_ENCODABLE_SECONDS <= resolved_end_time(t, now) <= MAX_ENCODABLE_SECONDS
}

/// Whether every trigger's boundaries fit the wire encoding.
pub open spec fn all_encodable(tr: TaskTriggers, now: int) -> bool {
    &&& (forall|i: int|
        0 <= i < tr.daily_seq().len() ==> daily_encodable(#[trigger] tr.daily_seq()[i], now))
    &&& (forall|i: int|
        0 <= i < tr.time_seq().len() ==> time_encodable(#[trigger] tr.time_seq()[i], now))
}

/// The trigger slot a daily trigger is planned to become.
pub open spec fn daily_record(t: DailyTrigger, now: int) -> TriggerRecordView {
    TriggerRecordView {
        kind: TriggerKind::Daily,
        id: Some(t.id@),
        start_boundary: Some(rfc3339_of(resolved_start_daily(t, now))),
        end_boundary: Some(rfc3339_of(resolved_end_daily(t, now))),
        days_interval: Some(resolved_interval_daily(t)),
    }
}

/// The trigger slot a specific-time trigger is planned to become.
pub open spec fn time_record(t: SpecificTimeTrigger, now: int) -> TriggerRecordView {
    TriggerRecordView {
        kind: TriggerKind::Time,
        id: Some(t.id@),
        start_boundary: Some(rfc3339_of(t.time as int)),
        end_boundary: Some(rfc3339_of(resolved_end_time(t, now))),
        days_interval: None,
    }
}

/// The trigger slots the pipeline fills: the daily triggers in order,
/// then the specific-time triggers in order.
pub open spec fn planned_triggers(tr: TaskTriggers, now: int) -> Seq<TriggerRecordView> {
    tr.daily_seq().map_values(|t: DailyTrigger| daily_record(t, now as int)) + tr.time_seq().map_values(
        |t: SpecificTimeTrigger| time_record(t, now as int),
    )
}

/// The definition the pipeline builds from a task description.
pub open spec fn planned_def(actions: Actions, tr: TaskTriggers, now: int) -> TaskDefinitionView {
    TaskDefinitionView {
        author: Some(default_author()),
        logon: Some(TaskLogon::InteractiveToken),
        start_when_available: Some(true),
        wait_timeout: Some(iso_duration_minutes(WAIT_TIMEOUT_MINUTES as int)),
        triggers: planned_triggers(tr, now),
        actions: seq![ActionRecordView { path: Some(actions.0@[0]@) }],
    }
}

/// The registered task the pipeline leaves behind on success.
pub open spec fn planned_entry(
    actions: Actions,
    name: Seq<char>,
    tr: TaskTriggers,
    now: int,
) -> RegisteredEntryView {
    RegisteredEntryView { name, task: planned_def(actions, tr, now) }
}

/// When the whole pipeline succeeds: every boundary fits the wire
/// encoding and the engine accepts the planned definition under the given
/// name.
pub open spec fn ensure_ok(actions: Actions, name: Seq<char>, tr: TaskTriggers, now: int) -> bool {
    all_encodable(tr, now) && register_accepts(name, planned_def(actions, tr, now))
}

/// Gates registration on the one hard precondition of the flow: a
/// definition with no triggers is refused here, before anything reaches
/// the engine, with an error of the free-form layer — distinguishable
/// from every engine-reported error.  With at least one trigger the
/// definition goes to the engine's registration call unchanged.
pub fn register_definition(eng: &mut EngineState, folder: u64, name: &String, defh: u64) -> (r:
    Result<u64, TaskError>)
    requires
        old(eng).wf(),
        old(eng).has_live(folder, HandleRole::Folder),
        old(eng).has_live(defh, HandleRole::Definition),
        old(eng).next_handle < u64::MAX,
    ensures
        final(eng).wf(),
        old(eng).def->0.triggers@.len() == 0 ==> (r matches Err(TaskError::Error(m)) && m@
            == "a task definition needs at least one trigger"@) && *final(eng) == *old(eng),
        old(eng).def->0.triggers@.len() > 0 && register_accepts(name@, old(eng).def->0@) ==> {
            &&& r matches Ok(h) && h == old(eng).next_handle && final(eng).stack@ == old(
                eng,
            ).stack@.push(LiveHandle { id: h, role: HandleRole::RegisteredTask })
            &&& final(eng).next_handle == old(eng).next_handle + 1
            &&& final(eng).same_context(*old(eng))
            &&& final(eng).connected == old(eng).connected
            &&& final(eng).def == old(eng).def
            &&& final(eng).registry_view() == without_name(
                old(eng).registry_view(),
                name@,
            ).push(RegisteredEntryView { name: name@, task: old(eng).def->0@ })
        },
        old(eng).def->0.triggers@.len() > 0 && !register_accepts(name@, old(eng).def->0@) ==> (
        r matches Err(TaskError::WinError(WinError::InvalidArg(m))) && m@
            == "task name or action path rejected"@) && *final(eng) == *old(eng),
{
    proof {
        eng.lemma_def_present(defh);
    }
    let mut count: usize = 0;
    if let Some(d) = &eng.def {
        count = d.triggers.len();
    }
    if count == 0 {
        return Err(TaskError::Error("a task definition needs at least one trigger".to_owned()));
    }
    eng.register_task(folder, name, defh)
}

/// A definition with no triggers is refused by the wrapper itself: the
/// gate in [`register_definition`] returns, with the engine state
/// untouched, an error of the free-form domain layer
/// ([`TaskError::Error`]), while the engine model reports every failure
/// of its own through the platform layer ([`TaskError::WinError`]) and
/// the context operations through the context layer
/// ([`TaskError::ComError`]).  Those constructors never coincide, so the
/// precondition violation is distinguishable from any engine-reported
/// error, whatever texts either side carries.
pub proof fn lemma_zero_trigger_error_distinct(m: String, w: WinError, c: ComError)
    ensures
        TaskError::Error(m) != TaskError::WinError(w),
        TaskError::Error(m) != TaskError::ComError(c),
{
}

/// Fills the definition's property bags: author, logon method,
/// start-when-available, and the idle wait timeout, each through its own
/// sub-object handle, every handle released before the next is fetched.
fn fill_metadata(eng: &mut EngineState, defh: u64) -> (r: Result<(), TaskError>)
    requires
        old(eng).wf(),
        old(eng).has_live(defh, HandleRole::Definition),
        old(eng).next_handle < u64::MAX - 8,
    ensures
        final(eng).wf(),
        r is Ok,
        final(eng).same_context(*old(eng)),
        final(eng).stack@ == old(eng).stack@,
        final(eng).connected == old(eng).connected,
        final(eng).next_handle == old(eng).next_handle + 4,
        final(eng).registered == old(eng).registered,
        final(eng).def_view() matches Some(d) && d == (TaskDefinitionView {
            author: Some(default_author()),
            logon: Some(TaskLogon::InteractiveToken),
            start_when_available: Some(true),
            wait_timeout: Some(iso_duration_minutes(WAIT_TIMEOUT_MINUTES as int)),
            ..old(eng).def->0@
        }),
{
    let author: String = "Author".to_owned();
    let ri = match eng.get_registration_info(defh) {
        Ok(h) => h,
        Err(e) => {
            return Err(e);
        },
    };
    proof {
        eng.lemma_handle_at(ri, eng.stack@.len() - 1);
    }
    match eng.put_author(ri, &author) {
        Ok(()) => {},
        Err(e) => {
            return Err(e);
        },
    }
    eng.release(ri);
    proof {
        EngineState::lemma_live_preserved(*old(eng), *eng, defh, HandleRole::Definition);
    }
    let pr = match eng.get_principal(defh) {
        Ok(h) => h,
        Err(e) => {
            return Err(e);
        },
    };
    proof {
        eng.lemma_handle_at(pr, eng.stack@.len() - 1);
    }
    match eng.put_logon_type(pr, TaskLogon::InteractiveToken) {
        Ok(()) => {},
        Err(e) => {
            return Err(e);
        },
    }
    eng.release(pr);
    proof {
        EngineState::lemma_live_preserved(*old(eng), *eng, defh, HandleRole::Definition);
    }
    let st = match eng.get_settings(defh) {
        Ok(h) => h,
        Err(e) => {
            return Err(e);
        },
    };
    proof {
        eng.lemma_handle_at(st, eng.stack@.len() - 1);
    }
    match eng.put_start_when_available(st, true) {
        Ok(()) => {},
        Err(e) => {
            return Err(e);
        },
    }
    proof {
        eng.lemma_handle_at(st, eng.stack@.len() - 1);
    }
    let idle = match eng.get_idle_settings(st) {
        Ok(h) => h,
        Err(e) => {
            return Err(e);
        },
    };
    let timeout = wait_timeout_wire(WAIT_TIMEOUT_MINUTES);
    proof {
        eng.lemma_handle_at(idle, eng.stack@.len() - 1);
    }
    match eng.put_wait_timeout(idle, &timeout) {
        Ok(()) => {},
        Err(e) => {
            return Err(e);
        },
    }
    eng.release(idle);
    eng.release(st);
    proof {
        assert(eng.def->0@ =~= (TaskDefinitionView {
            author: Some(default_author()),
            logon: Some(TaskLogon::InteractiveToken),
            start_when_available: Some(true),
            wait_timeout: Some(iso_duration_minutes(WAIT_TIMEOUT_MINUTES as int)),
            ..old(eng).def->0@
        }));
    }
    Ok(())
}

/// Fills the definition's action collection with the one run-executable
/// action: create, narrow to the run-executable capability, set the path,
/// release the narrowed handle before the generic one before the
/// collection.
fn fill_actions(eng: &mut EngineState, defh: u64, actions: &Actions) -> (r: Result<(), TaskError>)
    requires
        old(eng).wf(),
        old(eng).has_live(defh, HandleRole::Definition),
        old(eng).next_handle < u64::MAX - 8,
        actions.0@.len() == 1,
        old(eng).def->0@.actions.len() == 0,
    ensures
        final(eng).wf(),
        r is Ok,
        final(eng).same_context(*old(eng)),
        final(eng).stack@ == old(eng).stack@,
        final(eng).connected == old(eng).connected,
        final(eng).next_handle == old(eng).next_handle + 3,
        final(eng).registered == old(eng).registered,
        final(eng).def_view() matches Some(d) && d == (TaskDefinitionView {
            actions: seq![ActionRecordView { path: Some(actions.0@[0]@) }],
            ..old(eng).def->0@
        }),
{
    let ac = match eng.get_actions(defh) {
        Ok(h) => h,
        Err(e) => {
            return Err(e);
        },
    };
    proof {
        eng.lemma_handle_at(ac, eng.stack@.len() - 1);
    }
    let a = match eng.create_action(ac) {
        Ok(h) => h,
        Err(e) => {
            return Err(e);
        },
    };
    proof {
        eng.lemma_handle_at(a, eng.stack@.len() - 1);
    }
    let ea = match eng.narrow_exec_action(a) {
        Ok(h) => h,
        Err(e) => {
            return Err(e);
        },
    };
    proof {
        eng.lemma_handle_at(ea, eng.stack@.len() - 1);
    }
    match eng.put_action_path(ea, &actions.0[0]) {
        Ok(()) => {},
        Err(e) => {
            return Err(e);
        },
    }
    eng.release(ea);
    eng.release(a);
    eng.release(ac);
    proof {
        assert(eng.def->0@.actions =~= seq![ActionRecordView { path: Some(actions.0@[0]@) }]);
        assert(eng.def->0@ =~= (TaskDefinitionView {
            actions: seq![ActionRecordView { path: Some(actions.0@[0]@) }],
            ..old(eng).def->0@
        }));
    }
    Ok(())
}

/// The recurrence stride as it crosses the wire: reinterpreted as a
/// 16-bit signed integer, so a stride past the signed ceiling wraps.
pub open spec fn wire_interval(v: u16) -> i16 {
    if v < 32768 {
        v as i16
    } else {
        ((v as int) - 65536) as i16
    }
}

fn interval_to_wire(v: u16) -> (r: i16)
    ensures
        r == wire_interval(v),
{
    if v < 32768 {
        v as i16
    } else {
        ((v as i32) - 65536) as i16
    }
}

/// Fills the definition's trigger collection from the task description:
/// for each trigger, create it with its category, narrow the generic
/// handle to that category's capability, set identifier and boundaries in
/// their wire form, and release the narrowed handle before the generic
/// one.  A boundary outside the calendar range of the wire encoding
/// aborts the fill with an invalid-argument error, with every handle this
/// function acquired released again.
fn fill_triggers(eng: &mut EngineState, defh: u64, triggers: &TaskTriggers, now: i64) -> (r:
    Result<(), TaskError>)
    requires
        old(eng).wf(),
        old(eng).has_live(defh, HandleRole::Definition),
        triggers.wf(),
        0 <= now <= MAX_ENCODABLE_SECONDS - DEFAULT_END_OFFSET_SECONDS,
        old(eng).next_handle < u64::MAX - 256,
        old(eng).def->0@.triggers.len() == 0,
    ensures
        final(eng).wf(),
        final(eng).same_context(*old(eng)),
        final(eng).stack@ == old(eng).stack@,
        final(eng).connected == old(eng).connected,
        final(eng).registered == old(eng).registered,
        final(eng).next_handle <= old(eng).next_handle + 256,
        r is Ok <==> all_encodable(*triggers, now as int),
        r is Ok ==> (final(eng).def_view() matches Some(d) && d == (TaskDefinitionView {
            triggers: planned_triggers(*triggers, now as int),
            ..old(eng).def->0@
        })),
        r is Err ==> (r matches Err(TaskError::WinError(WinError::InvalidArg(m))) && m@
            == "timestamp out of range"@),
        final(eng).def is Some,
{
    let tc = match eng.get_triggers(defh) {
        Ok(h) => h,
        Err(e) => {
            return Err(e);
        },
    };
    let no_daily: Vec<DailyTrigger> = Vec::new();
    let no_time: Vec<SpecificTimeTrigger> = Vec::new();
    let dv: &Vec<DailyTrigger> = match &triggers.daily {
        Some(v) => v,
        None => &no_daily,
    };
    let tv: &Vec<SpecificTimeTrigger> = match &triggers.time {
        Some(v) => v,
        None => &no_time,
    };
    proof {
        assert(dv@ =~= triggers.daily_seq());
        assert(tv@ =~= triggers.time_seq());
    }
    let dn: usize = dv.len();
    let tn: usize = tv.len();
    let mut di: usize = 0;
    while di < dn
        invariant
            old(eng).wf(),
            old(eng).def->0@.triggers.len() == 0,
            old(eng).next_handle < u64::MAX - 256,
            triggers.wf(),
            0 <= now <= MAX_ENCODABLE_SECONDS - DEFAULT_END_OFFSET_SECONDS,
            dn == triggers.daily_seq().len(),
            dv@ == triggers.daily_seq(),
            di <= dn,
            eng.wf(),
            eng.stack@ == old(eng).stack@.push(
                LiveHandle { id: tc, role: HandleRole::TriggerCollection },
            ),
            eng.same_context(*old(eng)),
            eng.connected == old(eng).connected,
            eng.registered == old(eng).registered,
            eng.next_handle <= old(eng).next_handle + 1 + 2 * di,
            forall|j: int| 0 <= j < di ==> daily_encodable(#[trigger] triggers.daily_seq()[j], now as int),
            eng.def_view() matches Some(d) && d == (TaskDefinitionView {
                triggers: triggers.daily_seq().subrange(0, di as int).map_values(
                    |t: DailyTrigger| daily_record(t, now as int),
                ),
                ..old(eng).def->0@
            }),
        decreases dn - di,
    {
        let t = &dv[di];
        proof {
            eng.lemma_handle_at(tc, eng.stack@.len() - 1);
            // The collection holds one slot per processed trigger, well
            // below the ceiling.
            assert(eng.def_view() matches Some(d0) && d0.triggers.len() == di as int);
            assert(eng.def->0.triggers@.len() == di as nat);
            assert(triggers.count() <= 48);
            assert((di as int) < 48);
        }
        let tr = match eng.create_trigger(tc, TriggerKind::Daily) {
            Ok(h) => h,
            Err(e) => {
                proof {
                    assert(false);
                }
                return Err(e);
            },
        };
        proof {
            eng.lemma_handle_at(tr, eng.stack@.len() - 1);
            // The fresh slot carries the daily category, so narrowing to
            // the daily capability resolves.
            assert(eng.def is Some);
            assert(eng.def_view() matches Some(d1) && d1.triggers.len() == di + 1);
            assert(eng.def->0@ == eng.def_view()->0);
            assert(eng.def->0@.triggers.len() == di + 1);
            assert(eng.def->0.triggers@.len() == di + 1);
            assert(eng.role_of(tr) == HandleRole::Trigger(di));
            assert(eng.def_view()->0.triggers[di as int] == (TriggerRecordView {
                kind: TriggerKind::Daily,
                id: None,
                start_boundary: None,
                end_boundary: None,
                days_interval: None,
            }));
            assert(eng.def->0.triggers@[di as int]@ == eng.def_view()->0.triggers[di as int]);
            assert(eng.def->0.triggers@[di as int]@.kind == TriggerKind::Daily);
        }
        let cap = match eng.narrow_daily_trigger(tr) {
            Ok(h) => h,
            Err(e) => {
                proof {
                    assert(false);
                }
                return Err(e);
            },
        };
        proof {
            eng.lemma_handle_at(cap, eng.stack@.len() - 1);
        }
        match eng.put_trigger_id(cap, &t.id) {
            Ok(()) => {},
            Err(e) => {
                return Err(e);
            },
        }
        let bounds = resolve_boundaries(t.start_time, t.end_time, now);
        let s = bounds.0;
        let e = bounds.1;
        if s < -MAX_ENCODABLE_SECONDS || s > MAX_ENCODABLE_SECONDS || e < -MAX_ENCODABLE_SECONDS
            || e > MAX_ENCODABLE_SECONDS {
            proof {
                eng.lemma_handle_at(cap, eng.stack@.len() - 1);
                assert(!daily_encodable(triggers.daily_seq()[di as int], now as int));
            }
            eng.release(cap);
            eng.release(tr);
            eng.release(tc);
            return Err(TaskError::WinError(WinError::InvalidArg("timestamp out of range".to_owned())));
        }
        let sw = match encode_boundary(s) {
            Ok(w) => w,
            Err(er) => {
                proof {
                    assert(false);
                }
                return Err(er);
            },
        };
        proof {
            eng.lemma_handle_at(cap, eng.stack@.len() - 1);
        }
        match eng.put_start_boundary(cap, &sw) {
            Ok(()) => {},
            Err(er) => {
                return Err(er);
            },
        }
        let ew = match encode_boundary(e) {
            Ok(w) => w,
            Err(er) => {
                proof {
                    assert(false);
                }
                return Err(er);
            },
        };
        proof {
            eng.lemma_handle_at(cap, eng.stack@.len() - 1);
        }
        match eng.put_end_boundary(cap, &ew) {
            Ok(()) => {},
            Err(er) => {
                return Err(er);
            },
        }
        let days: i16 = match t.interval {
            Some(iv) => interval_to_wire(iv),
            None => 1,
        };
        proof {
            eng.lemma_handle_at(cap, eng.stack@.len() - 1);
        }
        match eng.put_days_interval(cap, days) {
            Ok(()) => {},
            Err(er) => {
                return Err(er);
            },
        }
        proof {
            eng.lemma_handle_at(cap, eng.stack@.len() - 1);
        }
        eng.release(cap);
        proof {
            eng.lemma_handle_at(tr, eng.stack@.len() - 1);
        }
        eng.release(tr);
        proof {
            let prefix = triggers.daily_seq().subrange(0, di as int).map_values(
                |t: DailyTrigger| daily_record(t, now as int),
            );
            let full = triggers.daily_seq().subrange(0, di as int + 1).map_values(
                |t: DailyTrigger| daily_record(t, now as int),
            );
            assert(triggers.daily_seq()[di as int] == *t);
            assert(eng.def->0@.triggers =~= prefix.push(daily_record(*t, now as int)));
            assert(full =~= prefix.push(daily_record(*t, now as int)));
            assert(eng.def->0@ =~= (TaskDefinitionView {
                triggers: full,
                ..old(eng).def->0@
            }));
        }
        di = di + 1;
    }
    let ghost daily_part = triggers.daily_seq().map_values(
        |t: DailyTrigger| daily_record(t, now as int),
    );
    proof {
        assert(triggers.daily_seq().subrange(0, dn as int) =~= triggers.daily_seq());
    }
    let mut ti: usize = 0;
    while ti < tn
        invariant
            old(eng).wf(),
            old(eng).def->0@.triggers.len() == 0,
            old(eng).next_handle < u64::MAX - 256,
            triggers.wf(),
            0 <= now <= MAX_ENCODABLE_SECONDS - DEFAULT_END_OFFSET_SECONDS,
            tn == triggers.time_seq().len(),
            tv@ == triggers.time_seq(),
            ti <= tn,
            daily_part == triggers.daily_seq().map_values(
                |t: DailyTrigger| daily_record(t, now as int),
            ),
            daily_part.len() == triggers.daily_seq().len(),
            eng.wf(),
            eng.stack@ == old(eng).stack@.push(
                LiveHandle { id: tc, role: HandleRole::TriggerCollection },
            ),
            eng.same_context(*old(eng)),
            eng.connected == old(eng).connected,
            eng.registered == old(eng).registered,
            eng.next_handle <= old(eng).next_handle + 1 + 2 * triggers.daily_seq().len() + 2 * ti,
            forall|j: int| 0 <= j < ti ==> time_encodable(#[trigger] triggers.time_seq()[j], now as int),
            eng.def_view() matches Some(d) && d == (TaskDefinitionView {
                triggers: daily_part + triggers.time_seq().subrange(0, ti as int).map_values(
                    |t: SpecificTimeTrigger| time_record(t, now as int),
                ),
                ..old(eng).def->0@
            }),
        decreases tn - ti,
    {
        let t = &tv[ti];
        proof {
            eng.lemma_handle_at(tc, eng.stack@.len() - 1);
            assert(eng.def_view() matches Some(d0) && d0.triggers.len() == daily_part.len()
                + ti);
            assert(eng.def->0.triggers@.len() == daily_part.len() + ti);
            assert(triggers.count() <= 48);
            assert(daily_part.len() + ti < 48);
        }
        let tr = match eng.create_trigger(tc, TriggerKind::Time) {
            Ok(h) => h,
            Err(e) => {
                proof {
                    assert(false);
                }
                return Err(e);
            },
        };
        proof {
            eng.lemma_handle_at(tr, eng.stack@.len() - 1);
            assert(eng.def is Some);
            assert(eng.def_view() matches Some(d1) && d1.triggers.len() == daily_part.len() + ti
                + 1);
            assert(eng.def->0@ == eng.def_view()->0);
            assert(eng.def->0.triggers@.len() == daily_part.len() + ti + 1);
            assert(eng.role_of(tr) == HandleRole::Trigger((daily_part.len() + ti) as usize));
            assert(eng.def_view()->0.triggers[daily_part.len() + ti] == (TriggerRecordView {
                kind: TriggerKind::Time,
                id: None,
                start_boundary: None,
                end_boundary: None,
                days_interval: None,
            }));
            assert(eng.def->0.triggers@[daily_part.len() + ti]@ == eng.def_view()->0.triggers[
                daily_part.len() + ti]);
            assert(eng.def->0.triggers@[daily_part.len() + ti]@.kind == TriggerKind::Time);
        }
        let cap = match eng.narrow_time_trigger(tr) {
            Ok(h) => h,
            Err(e) => {
                proof {
                    assert(false);
                }
                return Err(e);
            },
        };
        proof {
            eng.lemma_handle_at(cap, eng.stack@.len() - 1);
        }
        match eng.put_trigger_id(cap, &t.id) {
            Ok(()) => {},
            Err(e) => {
                return Err(e);
            },
        }
        let bounds = resolve_boundaries(Some(t.time), t.deactivate_date, now);
        let s = bounds.0;
        let e = bounds.1;
        if s < -MAX_ENCODABLE_SECONDS || s > MAX_ENCODABLE_SECONDS || e < -MAX_ENCODABLE_SECONDS
            || e > MAX_ENCODABLE_SECONDS {
            proof {
                eng.lemma_handle_at(cap, eng.stack@.len() - 1);
                assert(!time_encodable(triggers.time_seq()[ti as int], now as int));
            }
            eng.release(cap);
            eng.release(tr);
            eng.release(tc);
            return Err(TaskError::WinError(WinError::InvalidArg("timestamp out of range".to_owned())));
        }
        let sw = match encode_boundary(s) {
            Ok(w) => w,
            Err(er) => {
                proof {
                    assert(false);
                }
                return Err(er);
            },
        };
        proof {
            eng.lemma_handle_at(cap, eng.stack@.len() - 1);
        }
        match eng.put_start_boundary(cap, &sw) {
            Ok(()) => {},
            Err(er) => {
                return Err(er);
            },
        }
        let ew = match encode_boundary(e) {
            Ok(w) => w,
            Err(er) => {
                proof {
                    assert(false);
                }
                return Err(er);
            },
        };
        proof {
            eng.lemma_handle_at(cap, eng.stack@.len() - 1);
        }
        match eng.put_end_boundary(cap, &ew) {
            Ok(()) => {},
            Err(er) => {
                return Err(er);
            },
        }
        proof {
            eng.lemma_handle_at(cap, eng.stack@.len() - 1);
        }
        eng.release(cap);
        proof {
            eng.lemma_handle_at(tr, eng.stack@.len() - 1);
        }
        eng.release(tr);
        proof {
            let prefix = daily_part + triggers.time_seq().subrange(0, ti as int).map_values(
                |t: SpecificTimeTrigger| time_record(t, now as int),
            );
            let full = daily_part + triggers.time_seq().subrange(0, ti as int + 1).map_values(
                |t: SpecificTimeTrigger| time_record(t, now as int),
            );
            assert(triggers.time_seq()[ti as int] == *t);
            assert(eng.def->0@.triggers =~= prefix.push(time_record(*t, now as int)));
            assert(full =~= prefix.push(time_record(*t, now as int)));
            assert(eng.def->0@ =~= (TaskDefinitionView {
                triggers: full,
                ..old(eng).def->0@
            }));
        }
        ti = ti + 1;
    }
    proof {
        eng.lemma_handle_at(tc, eng.stack@.len() - 1);
    }
    eng.release(tc);
    proof {
        assert(triggers.time_seq().subrange(0, tn as int) =~= triggers.time_seq());
        assert(eng.def->0@.triggers =~= planned_triggers(*triggers, now as int));
        assert(eng.def->0@ =~= (TaskDefinitionView {
            triggers: planned_triggers(*triggers, now as int),
            ..old(eng).def->0@
        }));
    }
    Ok(())
}

/// Builds a fresh definition, fills it, and registers it under the given
/// name, releasing the definition handle on every path.
fn with_definition(
    eng: &mut EngineState,
    svc: u64,
    folder: u64,
    name: &String,
    actions: &Actions,
    triggers: &TaskTriggers,
    now: i64,
) -> (r: Result<(), TaskError>)
    requires
        old(eng).wf(),
        old(eng).has_live(svc, HandleRole::Service),
        old(eng).has_live(folder, HandleRole::Folder),
        old(eng).connected,
        !old(eng).has_def_handles(),
        triggers.wf(),
        actions.0@.len() == 1,
        0 <= now <= MAX_ENCODABLE_SECONDS - DEFAULT_END_OFFSET_SECONDS,
        old(eng).next_handle < u64::MAX - 512,
    ensures
        final(eng).wf(),
        final(eng).same_context(*old(eng)),
        final(eng).stack@ == old(eng).stack@,
        final(eng).connected == old(eng).connected,
        final(eng).next_handle <= old(eng).next_handle + 512,
        r is Ok <==> ensure_ok(*actions, name@, *triggers, now as int),
        r is Ok ==> final(eng).registry_view() == without_name(
            old(eng).registry_view(),
            name@,
        ).push(planned_entry(*actions, name@, *triggers, now as int)),
        r is Err ==> final(eng).registry_view() == old(eng).registry_view(),
        !all_encodable(*triggers, now as int) ==> (r matches Err(
            TaskError::WinError(WinError::InvalidArg(m)),
        ) && m@ == "timestamp out of range"@),
        all_encodable(*triggers, now as int) && !register_accepts(
            name@,
            planned_def(*actions, *triggers, now as int),
        ) ==> (r matches Err(TaskError::WinError(WinError::InvalidArg(m))) && m@
            == "task name or action path rejected"@),
{
    let defh = match eng.new_task(svc) {
        Ok(h) => h,
        Err(e) => {
            proof {
                assert(false);
            }
            return Err(e);
        },
    };
    proof {
        eng.lemma_handle_at(defh, eng.stack@.len() - 1);
        EngineState::lemma_live_preserved(*old(eng), *eng, folder, HandleRole::Folder);
    }
    match fill_metadata(eng, defh) {
        Ok(()) => {},
        Err(e) => {
            proof {
                assert(false);
            }
            return Err(e);
        },
    }
    match fill_triggers(eng, defh, triggers, now) {
        Ok(()) => {},
        Err(e) => {
            proof {
                eng.lemma_handle_at(defh, eng.stack@.len() - 1);
            }
            eng.release(defh);
            return Err(e);
        },
    }
    match fill_actions(eng, defh, actions) {
        Ok(()) => {},
        Err(e) => {
            proof {
                assert(false);
            }
            return Err(e);
        },
    }
    proof {
        EngineState::lemma_live_preserved(*old(eng), *eng, folder, HandleRole::Folder);
        assert(eng.def->0@ =~= planned_def(*actions, *triggers, now as int));
        assert(triggers.count() >= 1);
        assert(eng.def->0@.triggers.len() >= 1);
        assert(eng.def->0.triggers@.len() >= 1);
    }
    let rt = match register_definition(eng, folder, name, defh) {
        Ok(h) => h,
        Err(e) => {
            proof {
                eng.lemma_handle_at(defh, eng.stack@.len() - 1);
            }
            eng.release(defh);
            return Err(e);
        },
    };
    proof {
        eng.lemma_handle_at(rt, eng.stack@.len() - 1);
    }
    eng.release(rt);
    proof {
        eng.lemma_handle_at(defh, eng.stack@.len() - 1);
    }
    eng.release(defh);
    Ok(())
}

/// Connects the service, resolves the root folder, deletes any existing
/// task of the name (absence tolerated and ignored, the deliberate
/// idempotency policy of "ensure task"), and hands over to definition
/// building; the folder handle is released on every path.
fn run_with_service(
    eng: &mut EngineState,
    svc: u64,
    name: &String,
    actions: &Actions,
    triggers: &TaskTriggers,
    now: i64,
) -> (r: Result<(), TaskError>)
    requires
        old(eng).wf(),
        old(eng).has_live(svc, HandleRole::Service),
        !old(eng).has_def_handles(),
        triggers.wf(),
        actions.0@.len() == 1,
        0 <= now <= MAX_ENCODABLE_SECONDS - DEFAULT_END_OFFSET_SECONDS,
        old(eng).next_handle < u64::MAX - 1024,
    ensures
        final(eng).wf(),
        final(eng).same_context(*old(eng)),
        final(eng).stack@ == old(eng).stack@,
        final(eng).next_handle <= old(eng).next_handle + 1024,
        r is Ok <==> ensure_ok(*actions, name@, *triggers, now as int),
        r is Ok ==> final(eng).registry_view() == without_name(
            old(eng).registry_view(),
            name@,
        ).push(planned_entry(*actions, name@, *triggers, now as int)),
        r is Err ==> final(eng).registry_view() == without_name(old(eng).registry_view(), name@),
        !all_encodable(*triggers, now as int) ==> (r matches Err(
            TaskError::WinError(WinError::InvalidArg(m)),
        ) && m@ == "timestamp out of range"@),
        all_encodable(*triggers, now as int) && !register_accepts(
            name@,
            planned_def(*actions, *triggers, now as int),
        ) ==> (r matches Err(TaskError::WinError(WinError::InvalidArg(m))) && m@
            == "task name or action path rejected"@),
{
    match eng.connect(svc) {
        Ok(()) => {},
        Err(e) => {
            proof {
                assert(false);
            }
            return Err(e);
        },
    }
    proof {
        EngineState::lemma_live_preserved(*old(eng), *eng, svc, HandleRole::Service);
        reveal_strlit("\\");
    }
    let folder = match eng.get_folder(svc, "\\") {
        Ok(f) => f,
        Err(e) => {
            proof {
                assert(false);
            }
            return Err(e);
        },
    };
    proof {
        eng.lemma_handle_at(folder, eng.stack@.len() - 1);
    }
    let _ = eng.delete_task(folder, name);
    proof {
        EngineState::lemma_live_preserved(*old(eng), *eng, svc, HandleRole::Service);
        assert forall|i: int|
            0 <= i < eng.stack@.len() implies !EngineState::role_needs_def(
            #[trigger] eng.stack@[i].role,
        ) by {
            if i < eng.stack@.len() - 1 {
                assert(!EngineState::role_needs_def(old(eng).stack@[i].role));
            }
        }
        lemma_without_name_idem_helper(old(eng).registry_view(), name@);
    }
    let r = with_definition(eng, svc, folder, name, actions, triggers, now);
    proof {
        eng.lemma_handle_at(folder, eng.stack@.len() - 1);
    }
    eng.release(folder);
    r
}

/// Filtering a name out twice filters it out once; restated here so the
/// folder flow can compose the delete step with registration's own
/// supersede step.
proof fn lemma_without_name_idem_helper(s: Seq<RegisteredEntryView>, n: Seq<char>)
    ensures
        without_name(without_name(s, n), n) == without_name(s, n),
{
    crate::engine::lemma_without_name_idempotent(s, n);
}

/// Ensures that exactly one task of the given name is registered, built
/// from the given description, with boundary defaulting anchored at the
/// given current time: delete whatever task carries the name (absence
/// tolerated), then build and register a fresh definition.  On success
/// the registry holds, besides the tasks of other names, exactly the
/// planned task; on failure it holds no task of the name at all, nothing
/// half-built.  Either way every acquired handle has been released, in
/// reverse acquisition order, and the runtime context has been torn down
/// exactly once.
pub fn execute_task_at(
    eng: &mut EngineState,
    actions: &Actions,
    task_name: &String,
    triggers: &TaskTriggers,
    now: i64,
) -> (r: Result<(), TaskError>)
    requires
        old(eng).wf(),
        !old(eng).com_active,
        old(eng).stack@.len() == 0,
        triggers.wf(),
        actions.0@.len() == 1,
        0 <= now <= MAX_ENCODABLE_SECONDS - DEFAULT_END_OFFSET_SECONDS,
        old(eng).com_inits < u64::MAX,
        old(eng).com_uninits < u64::MAX,
        old(eng).next_handle < u64::MAX - 2048,
    ensures
        final(eng).wf(),
        final(eng).stack@.len() == 0,
        !final(eng).com_active,
        !final(eng).security_set,
        final(eng).next_handle <= old(eng).next_handle + 2048,
        final(eng).com_inits == old(eng).com_inits + 1,
        final(eng).com_uninits == old(eng).com_uninits + 1,
        r is Ok <==> ensure_ok(*actions, task_name@, *triggers, now as int),
        r is Ok ==> final(eng).registry_view() == without_name(
            old(eng).registry_view(),
            task_name@,
        ).push(planned_entry(*actions, task_name@, *triggers, now as int)),
        r is Err ==> final(eng).registry_view() == without_name(
            old(eng).registry_view(),
            task_name@,
        ),
        !all_encodable(*triggers, now as int) ==> (r matches Err(
            TaskError::WinError(WinError::InvalidArg(m)),
        ) && m@ == "timestamp out of range"@),
        all_encodable(*triggers, now as int) && !register_accepts(
            task_name@,
            planned_def(*actions, *triggers, now as int),
        ) ==> (r matches Err(TaskError::WinError(WinError::InvalidArg(m))) && m@
            == "task name or action path rejected"@),
{
    match eng.com_initialize() {
        Ok(()) => {},
        Err(e) => {
            proof {
                assert(false);
            }
            return Err(TaskError::ComError(e));
        },
    }
    match eng.security_initialize() {
        Ok(()) => {},
        Err(e) => {
            proof {
                assert(false);
            }
            return Err(TaskError::ComError(e));
        },
    }
    let svc = match eng.create_service() {
        Ok(h) => h,
        Err(e) => {
            proof {
                assert(false);
            }
            return Err(e);
        },
    };
    proof {
        eng.lemma_handle_at(svc, eng.stack@.len() - 1);
        assert forall|i: int|
            0 <= i < eng.stack@.len() implies !EngineState::role_needs_def(
            #[trigger] eng.stack@[i].role,
        ) by {}
    }
    let r = run_with_service(eng, svc, task_name, actions, triggers, now);
    proof {
        eng.lemma_handle_at(svc, eng.stack@.len() - 1);
    }
    eng.release(svc);
    eng.com_uninitialize();
    r
}

/// Ensures that exactly one task of the given name is registered, with
/// boundary defaulting anchored at the current wall clock; see
/// [`execute_task_at`].  A wall clock outside the calendar range of the
/// wire encoding is rejected up front, before anything is touched.
pub fn execute_task(
    eng: &mut EngineState,
    actions: Actions,
    task_name: String,
    triggers: TaskTriggers,
) -> (r: Result<(), TaskError>)
    requires
        old(eng).wf(),
        !old(eng).com_active,
        old(eng).stack@.len() == 0,
        triggers.wf(),
        actions.0@.len() == 1,
        old(eng).com_inits < u64::MAX,
        old(eng).com_uninits < u64::MAX,
        old(eng).next_handle < u64::MAX - 2048,
    ensures
        final(eng).wf(),
        final(eng).stack@.len() == 0,
        !final(eng).com_active,
        !final(eng).security_set,
        final(eng).next_handle <= old(eng).next_handle + 2048,
        final(eng).com_inits as int - old(eng).com_inits as int == final(eng).com_uninits as int
            - old(eng).com_uninits as int,
        final(eng).com_inits as int - old(eng).com_inits as int <= 1,
        r is Ok ==> (exists|now: int|
            0 <= now <= MAX_ENCODABLE_SECONDS - DEFAULT_END_OFFSET_SECONDS && ensure_ok(
                actions,
                task_name@,
                triggers,
                now,
            ) && final(eng).registry_view() == without_name(
                old(eng).registry_view(),
                task_name@,
            ).push(planned_entry(actions, task_name@, triggers, now))),
        r is Err ==> final(eng).registry_view() == without_name(
            old(eng).registry_view(),
            task_name@,
        ) || *final(eng) == *old(eng),
{
    let now = now_epoch_seconds();
    if now > MAX_ENCODABLE_SECONDS - DEFAULT_END_OFFSET_SECONDS {
        return Err(TaskError::WinError(WinError::InvalidArg("timestamp out of range".to_owned())));
    }
    let r = execute_task_at(eng, &actions, &task_name, &triggers, now);
    proof {
        if r is Ok {
            assert(ensure_ok(actions, task_name@, triggers, now as int));
            assert(eng.registry_view() == without_name(old(eng).registry_view(), task_name@).push(
                planned_entry(actions, task_name@, triggers, now as int),
            ));
        }
    }
    r
}

/// Ensuring the same task twice in a row is the same as ensuring it
/// once: the second run's delete-then-recreate collapses to a no-op
/// delete followed by a registration of the identical entry, so the
/// registry ends exactly where the first run left it — holding, in
/// particular, exactly one task of that name.
pub proof fn lemma_ensure_idempotent(reg: Seq<RegisteredEntryView>, e: RegisteredEntryView)
    ensures
        without_name(without_name(reg, e.name).push(e), e.name).push(e) == without_name(
            reg,
            e.name,
        ).push(e),
        crate::engine::count_with_name(without_name(reg, e.name).push(e), e.name) == 1,
{
    crate::engine::lemma_without_name_push(without_name(reg, e.name), e.name, e);
    crate::engine::lemma_without_name_idempotent(reg, e.name);
    crate::engine::lemma_without_name_count(reg, e.name);
    crate::engine::lemma_count_after_push(without_name(reg, e.name), e.name, e);
}

} // verus!

