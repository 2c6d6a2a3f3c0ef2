//! A model of the scheduling engine as the wrapper observes it.
//!
//! The engine is a foreign service reached through a graph of
//! reference-counted interface handles.  This module states its observable
//! contract as a state machine over plain values: a runtime-context flag, a
//! stack of live handles, one task definition under construction, and the
//! table of registered tasks.  The operations mirror the engine's calls one
//! for one and pin down, clause by clause, what each call does to that
//! state.  The handle stack is the heart of it: acquisition pushes, release
//! requires the handle on top, so verified client code demonstrably
//! releases every handle in reverse acquisition order, on every path.
//!
//! The model is scoped to the wrapper's serial use of the engine: one
//! thread, one service connection, and one definition under construction
//! at a time, with the security policy scoped to the runtime context.

use vstd::prelude::*;

use crate::error::{ComError, TaskError, WinError};

verus! {

/// The security logon method a task runs under.
#[derive(Debug, Clone, Copy, PartialEq, Eq, Structural)]
pub enum TaskLogon {
    /// No logon method specified; used for non-NT credentials.
    Unspecified,
    /// Log the user on with a password supplied at registration time.
    Password,
    /// Service-for-user logon: no password stored, no network access.
    S4U,
    /// The user must already be logged on interactively.
    InteractiveToken,
    /// Group activation.
    Group,
    /// A built-in service account runs the task.
    ServiceAccount,
    /// Interactive token when available, password otherwise.
    InteractiveTokenOrPassword,
}

impl TaskLogon {
    /// The numeric code of this logon method on the wire.
    pub open spec fn code_spec(self) -> int {
        match self {
            TaskLogon::Unspecified => 0,
            TaskLogon::Password => 1,
            TaskLogon::S4U => 2,
            TaskLogon::InteractiveToken => 3,
            TaskLogon::Group => 4,
            TaskLogon::ServiceAccount => 5,
            TaskLogon::InteractiveTokenOrPassword => 6,
        }
    }

    /// The numeric code of this logon method on the wire.
    pub fn code(&self) -> (r: i32)
        ensures
            r == self.code_spec(),
    {
        match self {
            TaskLogon::Unspecified => 0,
            TaskLogon::Password => 1,
            TaskLogon::S4U => 2,
            TaskLogon::InteractiveToken => 3,
            TaskLogon::Group => 4,
            TaskLogon::ServiceAccount => 5,
            TaskLogon::InteractiveTokenOrPassword => 6,
        }
    }
}

/// The trigger categories of the engine's polymorphic trigger collection.
#[derive(Debug, Clone, Copy, PartialEq, Eq, Structural)]
pub enum TriggerKind {
    Event,
    Time,
    Daily,
    Weekly,
    Monthly,
    MonthlyDow,
    Idle,
    Registration,
    Boot,
    Logon,
    SessionStateChange,
    Custom,
}

/// What a live handle refers to.  Handles whose role carries an index
/// point at one slot of the definition's trigger or action collection.
#[derive(Debug, Clone, Copy, PartialEq, Eq, Structural)]
pub enum HandleRole {
    /// The service root object.
    Service,
    /// A folder of registered tasks.
    Folder,
    /// A task definition under construction.
    Definition,
    /// The registration-info property bag of the definition.
    RegistrationInfo,
    /// The principal of the definition.
    Principal,
    /// The settings of the definition.
    Settings,
    /// The idle settings owned by the settings object.
    IdleSettings,
    /// The trigger collection of the definition.
    TriggerCollection,
    /// A generic trigger, not yet narrowed to its concrete capability.
    Trigger(usize),
    /// A trigger narrowed to the time-trigger capability.
    TimeTrigger(usize),
    /// A trigger narrowed to the daily-trigger capability.
    DailyTrigger(usize),
    /// The action collection of the definition.
    ActionCollection,
    /// A generic action, not yet narrowed.
    Action(usize),
    /// An action narrowed to the run-executable capability.
    ExecAction(usize),
    /// The durable result of registering a definition.
    RegisteredTask,
}

/// One live handle: its identifier and what it refers to.
#[derive(Debug, Clone, Copy, PartialEq, Eq, Structural)]
pub struct LiveHandle {
    pub id: u64,
    pub role: HandleRole,
}

/// One trigger slot of a definition, as the engine stores it: the category
/// fixed at creation, the kind-specific fields filled through a narrowed
/// handle.
#[derive(Debug, Clone, PartialEq, Eq)]
pub struct TriggerRecord {
    pub kind: TriggerKind,
    pub id: Option<String>,
    pub start_boundary: Option<String>,
    pub end_boundary: Option<String>,
    pub days_interval: Option<i16>,
}

/// The mathematical value of a trigger slot.
#[verifier::ext_equal]
pub ghost struct TriggerRecordView {
    pub kind: TriggerKind,
    pub id: Option<Seq<char>>,
    pub start_boundary: Option<Seq<char>>,
    pub end_boundary: Option<Seq<char>>,
    pub days_interval: Option<i16>,
}

impl View for TriggerRecord {
    type V = TriggerRecordView;

    open spec fn view(&self) -> TriggerRecordView {
        TriggerRecordView {
            kind: self.kind,
            id: match self.id {
                Some(s) => Some(s@),
                None => None,
            },
            start_boundary: match self.start_boundary {
                Some(s) => Some(s@),
                None => None,
            },
            end_boundary: match self.end_boundary {
                Some(s) => Some(s@),
                None => None,
            },
            days_interval: self.days_interval,
        }
    }
}

/// One action slot of a definition.  The only action category so far is
/// "run an executable", so the slot holds just the executable path.
#[derive(Debug, Clone, PartialEq, Eq)]
pub struct ActionRecord {
    pub path: Option<String>,
}

/// The mathematical value of an action slot.
#[verifier::ext_equal]
pub ghost struct ActionRecordView {
    pub path: Option<Seq<char>>,
}

impl View for ActionRecord {
    type V = ActionRecordView;

    open spec fn view(&self) -> ActionRecordView {
        ActionRecordView {
            path: match self.path {
                Some(s) => Some(s@),
                None => None,
            },
        }
    }
}

/// A task definition under construction: the property bags and the two
/// collections, all still in memory, nothing persisted.
#[derive(Debug, Clone, PartialEq, Eq)]
pub struct TaskDefinitionState {
    pub author: Option<String>,
    pub logon: Option<TaskLogon>,
    pub start_when_available: Option<bool>,
    pub wait_timeout: Option<String>,
    pub triggers: Vec<TriggerRecord>,
    pub actions: Vec<ActionRecord>,
}

/// The mathematical value of a definition.
#[verifier::ext_equal]
pub ghost struct TaskDefinitionView {
    pub author: Option<Seq<char>>,
    pub logon: Option<TaskLogon>,
    pub start_when_available: Option<bool>,
    pub wait_timeout: Option<Seq<char>>,
    pub triggers: Seq<TriggerRecordView>,
    pub actions: Seq<ActionRecordView>,
}

impl View for TaskDefinitionState {
    type V = TaskDefinitionView;

    open spec fn view(&self) -> TaskDefinitionView {
        TaskDefinitionView {
            author: match self.author {
                Some(s) => Some(s@),
                None => None,
            },
            logon: self.logon,
            start_when_available: self.start_when_available,
            wait_timeout: match self.wait_timeout {
                Some(s) => Some(s@),
                None => None,
            },
            triggers: Seq::new(self.triggers@.len(), |i: int| self.triggers@[i]@),
            actions: Seq::new(self.actions@.len(), |i: int| self.actions@[i]@),
        }
    }
}

/// A registered task: its name and the definition it was registered with.
#[derive(Debug, Clone, PartialEq, Eq)]
pub struct RegisteredEntry {
    pub name: String,
    pub task: TaskDefinitionState,
}

/// The mathematical value of a registered task.
#[verifier::ext_equal]
pub ghost struct RegisteredEntryView {
    pub name: Seq<char>,
    pub task: TaskDefinitionView,
}

impl View for RegisteredEntry {
    type V = RegisteredEntryView;

    open spec fn view(&self) -> RegisteredEntryView {
        RegisteredEntryView { name: self.name@, task: self.task@ }
    }
}

/// The registered tasks that do not carry the given name, in order.
pub open spec fn without_name(s: Seq<RegisteredEntryView>, n: Seq<char>) -> Seq<
    RegisteredEntryView,
> {
    s.filter(|e: RegisteredEntryView| e.name != n)
}

/// How many registered tasks carry the given name.
pub open spec fn count_with_name(s: Seq<RegisteredEntryView>, n: Seq<char>) -> int {
    s.filter(|e: RegisteredEntryView| e.name == n).len() as int
}

/// A sequence in which no entry carries the given name keeps every entry
/// when the entries with that name are filtered out.
pub proof fn lemma_without_name_all_kept(s: Seq<RegisteredEntryView>, n: Seq<char>)
    requires
        forall|i: int| 0 <= i < s.len() ==> (#[trigger] s[i]).name != n,
    ensures
        without_name(s, n) == s,
    decreases s.len(),
{
    reveal(Seq::filter);
    if s.len() == 0 {
        assert(without_name(s, n) =~= s);
    } else {
        lemma_without_name_all_kept(s.drop_last(), n);
        assert(without_name(s, n) =~= s);
    }
}

/// When exactly one entry carries the given name, filtering that name out
/// is removing that entry.
pub proof fn lemma_without_name_removes(s: Seq<RegisteredEntryView>, n: Seq<char>, k: int)
    requires
        0 <= k < s.len(),
        s[k].name == n,
        forall|j: int| 0 <= j < s.len() && j != k ==> (#[trigger] s[j]).name != n,
    ensures
        without_name(s, n) == s.remove(k),
    decreases s.len(),
{
    reveal(Seq::filter);
    if k == s.len() - 1 {
        lemma_without_name_all_kept(s.drop_last(), n);
        assert(s.remove(k) =~= s.drop_last());
    } else {
        let t = s.drop_last();
        lemma_without_name_removes(t, n, k);
        assert(s.remove(k) =~= t.remove(k).push(s.last()));
        assert(without_name(s, n) =~= t.remove(k).push(s.last()));
    }
}

/// Filtering a name out of a sequence that ends in an entry of that very
/// name gives the same result as filtering the rest, and appending an
/// entry of another name passes it through.
pub proof fn lemma_without_name_push(s: Seq<RegisteredEntryView>, n: Seq<char>, e: RegisteredEntryView)
    ensures
        e.name == n ==> without_name(s.push(e), n) == without_name(s, n),
        e.name != n ==> without_name(s.push(e), n) == without_name(s, n).push(e),
{
    reveal(Seq::filter);
    assert(s.push(e).drop_last() =~= s);
    assert(s.push(e).last() == e);
}

/// Filtering the same name out twice filters it out once.
pub proof fn lemma_without_name_idempotent(s: Seq<RegisteredEntryView>, n: Seq<char>)
    ensures
        without_name(without_name(s, n), n) == without_name(s, n),
    decreases s.len(),
{
    reveal(Seq::filter);
    if s.len() == 0 {
        assert(without_name(without_name(s, n), n) =~= without_name(s, n));
    } else {
        lemma_without_name_idempotent(s.drop_last(), n);
        if s.last().name != n {
            lemma_without_name_push(without_name(s.drop_last(), n), n, s.last());
            assert(without_name(s, n) =~= without_name(s.drop_last(), n).push(s.last()));
        }
    }
}

/// After the entries with a name are filtered out, no entry carries it.
pub proof fn lemma_without_name_count(s: Seq<RegisteredEntryView>, n: Seq<char>)
    ensures
        count_with_name(without_name(s, n), n) == 0,
    decreases s.len(),
{
    reveal(Seq::filter);
    if s.len() == 0 {
    } else {
        lemma_without_name_count(s.drop_last(), n);
        if s.last().name != n {
            let t = without_name(s.drop_last(), n);
            assert(without_name(s, n) =~= t.push(s.last()));
            assert(without_name(s, n).drop_last() =~= t);
        }
    }
}

/// A sequence that counts zero entries of a name has no entry of it.
pub proof fn lemma_count_none_elements(s: Seq<RegisteredEntryView>, n: Seq<char>)
    requires
        count_with_name(s, n) == 0,
    ensures
        forall|i: int| 0 <= i < s.len() ==> (#[trigger] s[i]).name != n,
    decreases s.len(),
{
    reveal(Seq::filter);
    if s.len() > 0 {
        lemma_count_none_elements(s.drop_last(), n);
        assert forall|i: int| 0 <= i < s.len() implies (#[trigger] s[i]).name != n by {
            if i < s.len() - 1 {
                assert(s.drop_last()[i].name != n);
            }
        }
    }
}

/// Appending an entry of the given name to a sequence free of it leaves
/// exactly one entry of that name.
pub proof fn lemma_count_after_push(s: Seq<RegisteredEntryView>, n: Seq<char>, e: RegisteredEntryView)
    requires
        count_with_name(s, n) == 0,
        e.name == n,
    ensures
        count_with_name(s.push(e), n) == 1,
{
    reveal(Seq::filter);
    assert(s.push(e).drop_last() =~= s);
    assert(s.push(e).last() == e);
}

/// The folder paths the model resolves: the root folder, spelled as a
/// single separator.
pub open spec fn valid_folder_path(p: Seq<char>) -> bool {
    p.len() == 1 && p[0] == '\\'
}

/// A sequence in which no entry carries the given name counts zero
/// entries of that name.
pub proof fn lemma_count_none(s: Seq<RegisteredEntryView>, n: Seq<char>)
    requires
        forall|i: int| 0 <= i < s.len() ==> (#[trigger] s[i]).name != n,
    ensures
        count_with_name(s, n) == 0,
    decreases s.len(),
{
    reveal(Seq::filter);
    if s.len() > 0 {
        lemma_count_none(s.drop_last(), n);
    }
}

/// A task can carry at most this many actions; the ceiling is the
/// engine's, not the wrapper's.
pub const MAX_ACTIONS: u8 = 32;

/// The collection slot a narrowed or generic handle points at.
pub open spec fn slot_of(role: HandleRole) -> int {
    match role {
        HandleRole::Trigger(k) => k as int,
        HandleRole::TimeTrigger(k) => k as int,
        HandleRole::DailyTrigger(k) => k as int,
        HandleRole::Action(k) => k as int,
        HandleRole::ExecAction(k) => k as int,
        _ => 0,
    }
}

/// The task names the engine accepts: nonempty and not starting with a
/// period.
pub open spec fn valid_task_name(n: Seq<char>) -> bool {
    n.len() > 0 && n[0] != '.'
}

/// An action slot the engine can run: its executable path is set and
/// nonempty.
pub open spec fn action_ok(a: ActionRecordView) -> bool {
    a.path matches Some(p) && p.len() > 0
}

/// Every action slot of the definition can run.
pub open spec fn actions_runnable(d: TaskDefinitionView) -> bool {
    forall|i: int| 0 <= i < d.actions.len() ==> action_ok(#[trigger] d.actions[i])
}

/// What the engine accepts for registration: a valid task name and
/// runnable actions.  A definition without triggers is accepted — the
/// engine would happily persist a task that never runs, which is exactly
/// why the wrapper refuses one before it gets here.
pub open spec fn register_accepts(n: Seq<char>, d: TaskDefinitionView) -> bool {
    valid_task_name(n) && actions_runnable(d)
}

fn clone_opt_string(o: &Option<String>) -> (r: Option<String>)
    ensures
        r == *o,
{
    match o {
        Some(s) => Some(s.clone()),
        None => None,
    }
}

fn clone_trigger_record(t: &TriggerRecord) -> (r: TriggerRecord)
    ensures
        r == *t,
{
    TriggerRecord {
        kind: t.kind,
        id: clone_opt_string(&t.id),
        start_boundary: clone_opt_string(&t.start_boundary),
        end_boundary: clone_opt_string(&t.end_boundary),
        days_interval: t.days_interval,
    }
}

fn clone_action_record(a: &ActionRecord) -> (r: ActionRecord)
    ensures
        r == *a,
{
    ActionRecord { path: clone_opt_string(&a.path) }
}

/// Snapshots a definition; registration persists the copy, not the
/// handle.
fn clone_def(d: &TaskDefinitionState) -> (r: TaskDefinitionState)
    ensures
        r@ == d@,
{
    let mut triggers: Vec<TriggerRecord> = Vec::new();
    let n = d.triggers.len();
    let mut i: usize = 0;
    while i < n
        invariant
            i <= n,
            n == d.triggers@.len(),
            triggers@.len() == i,
            forall|j: int| 0 <= j < i ==> #[trigger] triggers@[j] == d.triggers@[j],
        decreases n - i,
    {
        triggers.push(clone_trigger_record(&d.triggers[i]));
        i = i + 1;
    }
    let mut actions: Vec<ActionRecord> = Vec::new();
    let m = d.actions.len();
    let mut k: usize = 0;
    while k < m
        invariant
            k <= m,
            m == d.actions@.len(),
            actions@.len() == k,
            forall|j: int| 0 <= j < k ==> #[trigger] actions@[j] == d.actions@[j],
        decreases m - k,
    {
        actions.push(clone_action_record(&d.actions[k]));
        k = k + 1;
    }
    let r = TaskDefinitionState {
        author: clone_opt_string(&d.author),
        logon: d.logon,
        start_when_available: d.start_when_available,
        wait_timeout: clone_opt_string(&d.wait_timeout),
        triggers,
        actions,
    };
    proof {
        assert(r@.triggers =~= d@.triggers);
        assert(r@.actions =~= d@.actions);
        assert(r@ =~= d@);
    }
    r
}

/// The engine's observable state.
#[derive(Debug)]
pub struct EngineState {
    /// Whether the runtime context is initialized on this thread.
    pub com_active: bool,
    /// Whether the security policy has been applied to the context.
    pub security_set: bool,
    /// How many times the context has been initialized.
    pub com_inits: u64,
    /// How many times the context has been torn down.
    pub com_uninits: u64,
    /// Whether the live service object has completed its connect handshake.
    pub connected: bool,
    /// The identifier the next acquired handle will get.
    pub next_handle: u64,
    /// The live handles, in acquisition order.
    pub stack: Vec<LiveHandle>,
    /// The definition under construction, if any.
    pub def: Option<TaskDefinitionState>,
    /// The registered tasks.
    pub registered: Vec<RegisteredEntry>,
}

impl EngineState {
    /// The registered tasks as a sequence of mathematical values.
    pub open spec fn registry_view(&self) -> Seq<RegisteredEntryView> {
        Seq::new(self.registered@.len(), |i: int| self.registered@[i]@)
    }

    /// The definition under construction as a mathematical value.
    pub open spec fn def_view(&self) -> Option<TaskDefinitionView> {
        match self.def {
            Some(d) => Some(d@),
            None => None,
        }
    }

    /// Whether some live handle has the given identifier.
    pub open spec fn is_live(&self, h: u64) -> bool {
        exists|i: int| 0 <= i < self.stack@.len() && self.stack@[i].id == h
    }

    /// The stack position of the live handle with the given identifier.
    pub open spec fn handle_index(&self, h: u64) -> int {
        choose|i: int| 0 <= i < self.stack@.len() && self.stack@[i].id == h
    }

    /// What the live handle with the given identifier refers to.
    pub open spec fn role_of(&self, h: u64) -> HandleRole {
        self.stack@[self.handle_index(h)].role
    }

    /// Whether the given identifier is live and refers to `role`.
    pub open spec fn has_live(&self, h: u64, role: HandleRole) -> bool {
        self.is_live(h) && self.role_of(h) == role
    }

    /// Whether a handle role is derived from the definition under
    /// construction.
    pub open spec fn role_needs_def(role: HandleRole) -> bool {
        match role {
            HandleRole::Definition => true,
            HandleRole::RegistrationInfo => true,
            HandleRole::Principal => true,
            HandleRole::Settings => true,
            HandleRole::IdleSettings => true,
            HandleRole::TriggerCollection => true,
            HandleRole::Trigger(_) => true,
            HandleRole::TimeTrigger(_) => true,
            HandleRole::DailyTrigger(_) => true,
            HandleRole::ActionCollection => true,
            HandleRole::Action(_) => true,
            HandleRole::ExecAction(_) => true,
            _ => false,
        }
    }

    /// Whether a handle role's index points inside the definition's
    /// collections.
    pub open spec fn role_index_ok(&self, role: HandleRole) -> bool {
        match role {
            HandleRole::Trigger(k) => self.def matches Some(d) && k < d.triggers@.len(),
            HandleRole::TimeTrigger(k) => self.def matches Some(d) && k < d.triggers@.len(),
            HandleRole::DailyTrigger(k) => self.def matches Some(d) && k < d.triggers@.len(),
            HandleRole::Action(k) => self.def matches Some(d) && k < d.actions@.len(),
            HandleRole::ExecAction(k) => self.def matches Some(d) && k < d.actions@.len(),
            _ => true,
        }
    }

    /// Whether any live handle refers to the definition or one of its
    /// sub-objects.
    pub open spec fn has_def_handles(&self) -> bool {
        exists|i: int|
            0 <= i < self.stack@.len() && Self::role_needs_def(#[trigger] self.stack@[i].role)
    }

    /// Whether a live service handle exists.
    pub open spec fn has_service(&self) -> bool {
        exists|i: int|
            0 <= i < self.stack@.len() && #[trigger] self.stack@[i].role == HandleRole::Service
    }

    /// Well-formed engine state: handle identifiers are unique and below
    /// the allocation counter, handles exist only inside an initialized
    /// context, the security policy is scoped to the context, definition
    /// handles point at an existing definition and inside its collections,
    /// registered task names are unique, and the context counters balance.
    pub open spec fn wf(&self) -> bool {
        &&& (forall|i: int, j: int|
            0 <= i < j < self.stack@.len() ==> #[trigger] self.stack@[i].id != #[trigger] self.stack@[j].id)
        &&& (forall|i: int|
            0 <= i < self.stack@.len() ==> #[trigger] self.stack@[i].id < self.next_handle)
        &&& (forall|i: int|
            0 <= i < self.stack@.len() ==> self.role_index_ok(#[trigger] self.stack@[i].role))
        &&& (forall|i: int|
            0 <= i < self.stack@.len() && Self::role_needs_def(#[trigger] self.stack@[i].role)
                ==> self.def is Some)
        &&& (self.stack@.len() > 0 ==> self.com_active)
        &&& (self.security_set ==> self.com_active)
        &&& (self.connected ==> self.has_service())
        &&& (forall|i: int, j: int|
            0 <= i < j < self.registered@.len() ==> #[trigger] self.registered@[i]@.name
                != #[trigger] self.registered@[j]@.name)
        &&& self.com_inits as int == self.com_uninits as int + (if self.com_active {
            1int
        } else {
            0int
        })
    }

    /// A fresh engine model: context down, no handles, no definition, and
    /// an empty registry.
    pub fn new() -> (r: Self)
        ensures
            r.wf(),
            !r.com_active,
            !r.security_set,
            r.com_inits == 0,
            r.com_uninits == 0,
            r.next_handle == 0,
            r.stack@.len() == 0,
            r.def is None,
            r.registry_view() == Seq::<RegisteredEntryView>::empty(),
    {
        let r = EngineState {
            com_active: false,
            security_set: false,
            com_inits: 0,
            com_uninits: 0,
            connected: false,
            next_handle: 0,
            stack: Vec::new(),
            def: None,
            registered: Vec::new(),
        };
        proof {
            assert(r.registry_view() =~= Seq::<RegisteredEntryView>::empty());
        }
        r
    }

    /// The live handle with the given identifier sits at this stack
    /// position, and nowhere else.
    pub proof fn lemma_handle_at(&self, h: u64, i: int)
        requires
            self.wf(),
            0 <= i < self.stack@.len(),
            self.stack@[i].id == h,
        ensures
            self.is_live(h),
            self.handle_index(h) == i,
            self.role_of(h) == self.stack@[i].role,
    {
        assert(self.is_live(h));
        let j = self.handle_index(h);
        if i < j {
            assert(self.stack@[i].id != self.stack@[j].id);
        } else if j < i {
            assert(self.stack@[j].id != self.stack@[i].id);
        }
    }

    /// A live handle stays live, with its role, across an operation that
    /// only appended to or kept the handle stack.
    pub proof fn lemma_live_preserved(pre: EngineState, post: EngineState, h: u64, role: HandleRole)
        requires
            pre.wf(),
            post.wf(),
            pre.has_live(h, role),
            post.stack@.len() >= pre.stack@.len(),
            forall|i: int| 0 <= i < pre.stack@.len() ==> post.stack@[i] == pre.stack@[i],
        ensures
            post.has_live(h, role),
    {
        let i = pre.handle_index(h);
        assert(pre.stack@[i].id == h);
        post.lemma_handle_at(h, i);
    }

    /// Finds the stack position of a handle identifier.
    fn find_index(&self, h: u64) -> (r: Option<usize>)
        ensures
            match r {
                Some(i) => i < self.stack@.len() && self.stack@[i as int].id == h,
                None => !self.is_live(h),
            },
    {
        let n = self.stack.len();
        let mut i: usize = 0;
        while i < n
            invariant
                i <= n,
                n == self.stack@.len(),
                forall|j: int| 0 <= j < i ==> #[trigger] self.stack@[j].id != h,
            decreases n - i,
        {
            if self.stack[i].id == h {
                return Some(i);
            }
            i = i + 1;
        }
        None
    }

    /// Pushes a newly acquired handle.
    fn push_handle(&mut self, role: HandleRole) -> (h: u64)
        requires
            old(self).wf(),
            old(self).com_active,
            old(self).next_handle < u64::MAX,
            old(self).role_index_ok(role),
            Self::role_needs_def(role) ==> old(self).def is Some,
        ensures
            final(self).wf(),
            h == old(self).next_handle,
            final(self).next_handle == old(self).next_handle + 1,
            final(self).stack@ == old(self).stack@.push(LiveHandle { id: h, role }),
            final(self).com_active == old(self).com_active,
            final(self).security_set == old(self).security_set,
            final(self).com_inits == old(self).com_inits,
            final(self).com_uninits == old(self).com_uninits,
            final(self).connected == old(self).connected,
            final(self).def == old(self).def,
            final(self).registered == old(self).registered,
            final(self).has_live(h, role),
    {
        let h = self.next_handle;
        self.next_handle = self.next_handle + 1;
        self.stack.push(LiveHandle { id: h, role });
        proof {
            let s = self.stack@;
            let os = old(self).stack@;
            assert forall|i: int, j: int| 0 <= i < j < s.len() implies #[trigger] s[i].id
                != #[trigger] s[j].id by {
                if j < s.len() - 1 {
                    assert(os[i].id != os[j].id);
                } else {
                    assert(os[i].id < old(self).next_handle);
                }
            }
            assert forall|i: int| 0 <= i < s.len() implies #[trigger] s[i].id
                < self.next_handle by {
                if i < s.len() - 1 {
                    assert(os[i].id < old(self).next_handle);
                }
            }
            assert forall|i: int| 0 <= i < s.len() implies self.role_index_ok(
                #[trigger] s[i].role,
            ) by {
                if i < s.len() - 1 {
                    assert(old(self).role_index_ok(os[i].role));
                }
            }
            assert forall|i: int|
                0 <= i < s.len() && Self::role_needs_def(#[trigger] s[i].role) implies self.def
                is Some by {
                if i < s.len() - 1 {
                    assert(Self::role_needs_def(os[i].role));
                }
            }
            if self.connected {
                let i = choose|i: int|
                    0 <= i < os.len() && #[trigger] os[i].role == HandleRole::Service;
                assert(s[i].role == HandleRole::Service);
            }
            self.lemma_handle_at(h, self.stack@.len() - 1);
        }
        h
    }

    /// Releases a handle.  Release order is the reverse of acquisition
    /// order: only the most recently acquired live handle may be released,
    /// mirroring the rule that no parent may be released while a handle
    /// derived from it is still outstanding.
    pub fn release(&mut self, h: u64)
        requires
            old(self).wf(),
            old(self).stack@.len() > 0,
            old(self).stack@.last().id == h,
        ensures
            final(self).wf(),
            final(self).stack@ == old(self).stack@.drop_last(),
            final(self).com_active == old(self).com_active,
            final(self).security_set == old(self).security_set,
            final(self).com_inits == old(self).com_inits,
            final(self).com_uninits == old(self).com_uninits,
            final(self).connected == (if old(self).stack@.last().role == HandleRole::Service {
                false
            } else {
                old(self).connected
            }),
            final(self).next_handle == old(self).next_handle,
            final(self).def == old(self).def,
            final(self).registered == old(self).registered,
    {
        let n = self.stack.len();
        let top = self.stack[n - 1];
        if matches!(top.role, HandleRole::Service) {
            self.connected = false;
        }
        self.stack.pop();
        proof {
            if self.connected {
                let i = choose|i: int|
                    0 <= i < old(self).stack@.len() && #[trigger] old(self).stack@[i].role
                        == HandleRole::Service;
                assert(self.stack@[i].role == HandleRole::Service);
                assert(self.has_service());
            }
        }
    }

    /// Context flags and counters unchanged between two states.
    pub open spec fn same_context(self, pre: EngineState) -> bool {
        &&& self.com_active == pre.com_active
        &&& self.security_set == pre.security_set
        &&& self.com_inits == pre.com_inits
        &&& self.com_uninits == pre.com_uninits
    }

    /// Handle stack, allocation counter and connection unchanged between
    /// two states.
    pub open spec fn same_handles(self, pre: EngineState) -> bool {
        &&& self.stack@ == pre.stack@
        &&& self.next_handle == pre.next_handle
        &&& self.connected == pre.connected
    }

    /// The definition under construction exists because a live handle
    /// refers to it.
    pub proof fn lemma_def_present(&self, h: u64)
        requires
            self.wf(),
            self.is_live(h),
            Self::role_needs_def(self.role_of(h)),
        ensures
            self.def is Some,
    {
        let i = self.handle_index(h);
        assert(Self::role_needs_def(self.stack@[i].role));
    }

    /// Initializes the runtime context on this thread.  A context that is
    /// already active is a usage error, surfaced as the
    /// concurrency-model-conflict error, never a crash.
    pub fn com_initialize(&mut self) -> (r: Result<(), ComError>)
        requires
            old(self).wf(),
            old(self).com_inits < u64::MAX,
        ensures
            final(self).wf(),
            old(self).com_active ==> r == Err::<(), ComError>(ComError::RpcChangedMode) && *final(self) == *old(self),
            !old(self).com_active ==> {
                &&& r is Ok
                &&& final(self).com_active
                &&& !final(self).security_set
                &&& final(self).com_inits == old(self).com_inits + 1
                &&& final(self).com_uninits == old(self).com_uninits
                &&& final(self).connected == old(self).connected
                &&& final(self).next_handle == old(self).next_handle
                &&& final(self).stack@ == old(self).stack@
                &&& final(self).def == old(self).def
                &&& final(self).registered == old(self).registered
            },
    {
        if self.com_active {
            Err(ComError::RpcChangedMode)
        } else {
            self.com_active = true;
            self.com_inits = self.com_inits + 1;
            Ok(())
        }
    }

    /// Applies the security policy to the active context.  A policy that
    /// is already applied is surfaced as the already-initialized error.
    pub fn security_initialize(&mut self) -> (r: Result<(), ComError>)
        requires
            old(self).wf(),
            old(self).com_active,
        ensures
            final(self).wf(),
            old(self).security_set ==> r == Err::<(), ComError>(ComError::RpcTooLate) && *final(self) == *old(self),
            !old(self).security_set ==> {
                &&& r is Ok
                &&& final(self).security_set
                &&& final(self).com_active == old(self).com_active
                &&& final(self).com_inits == old(self).com_inits
                &&& final(self).com_uninits == old(self).com_uninits
                &&& final(self).connected == old(self).connected
                &&& final(self).next_handle == old(self).next_handle
                &&& final(self).stack@ == old(self).stack@
                &&& final(self).def == old(self).def
                &&& final(self).registered == old(self).registered
            },
    {
        if self.security_set {
            Err(ComError::RpcTooLate)
        } else {
            self.security_set = true;
            Ok(())
        }
    }

    /// Tears the runtime context down.  Every handle derived from the
    /// context must have been released first; the security policy is
    /// scoped to the context and goes down with it, as does the
    /// bookkeeping slot of the definition under construction.
    pub fn com_uninitialize(&mut self)
        requires
            old(self).wf(),
            old(self).com_active,
            old(self).stack@.len() == 0,
            old(self).com_uninits < u64::MAX,
        ensures
            final(self).wf(),
            !final(self).com_active,
            !final(self).security_set,
            !final(self).connected,
            final(self).com_inits == old(self).com_inits,
            final(self).com_uninits == old(self).com_uninits + 1,
            final(self).next_handle == old(self).next_handle,
            final(self).stack@ == old(self).stack@,
            final(self).def is None,
            final(self).registered == old(self).registered,
    {
        self.com_active = false;
        self.security_set = false;
        self.connected = false;
        self.def = None;
        self.com_uninits = self.com_uninits + 1;
    }

    /// Creates the service root object through its class factory.  The
    /// model serves one pipeline at a time, so at most one service object
    /// is live; the fresh object has not yet connected.
    pub fn create_service(&mut self) -> (r: Result<u64, TaskError>)
        requires
            old(self).wf(),
            old(self).com_active,
            !old(self).has_service(),
            old(self).next_handle < u64::MAX,
        ensures
            final(self).wf(),
            r matches Ok(h) && h == old(self).next_handle && final(self).stack@ == old(self).stack@.push(LiveHandle { id: h, role: HandleRole::Service }),
            !final(self).connected,
            final(self).next_handle == old(self).next_handle + 1,
            final(self).com_active == old(self).com_active,
            final(self).security_set == old(self).security_set,
            final(self).com_inits == old(self).com_inits,
            final(self).com_uninits == old(self).com_uninits,
            final(self).def == old(self).def,
            final(self).registered == old(self).registered,
    {
        self.connected = false;
        let h = self.push_handle(HandleRole::Service);
        Ok(h)
    }

    /// Connects the service object to the engine under the ambient
    /// identity.  Remote-connection parameters are a non-goal.
    pub fn connect(&mut self, svc: u64) -> (r: Result<(), TaskError>)
        requires
            old(self).wf(),
            old(self).has_live(svc, HandleRole::Service),
        ensures
            final(self).wf(),
            r is Ok,
            final(self).connected,
            final(self).com_active == old(self).com_active,
            final(self).security_set == old(self).security_set,
            final(self).com_inits == old(self).com_inits,
            final(self).com_uninits == old(self).com_uninits,
            final(self).next_handle == old(self).next_handle,
            final(self).stack@ == old(self).stack@,
            final(self).def == old(self).def,
            final(self).registered == old(self).registered,
    {
        self.connected = true;
        proof {
            let i = old(self).handle_index(svc);
            assert(self.stack@[i].role == HandleRole::Service);
            assert(self.has_service());
        }
        Ok(())
    }

    /// Resolves a task folder by path.  The model resolves the root
    /// folder, a single separator; any other path is reported as not
    /// found.  Path syntax beyond that is the engine's own affair and is
    /// not validated here.
    pub fn get_folder(&mut self, svc: u64, path: &str) -> (r: Result<u64, TaskError>)
        requires
            old(self).wf(),
            old(self).has_live(svc, HandleRole::Service),
            old(self).connected,
            old(self).next_handle < u64::MAX,
        ensures
            final(self).wf(),
            valid_folder_path(path@) ==> {
                &&& r matches Ok(h) && h == old(self).next_handle && final(self).stack@ == old(self).stack@.push(LiveHandle { id: h, role: HandleRole::Folder })
                &&& final(self).next_handle == old(self).next_handle + 1
                &&& final(self).com_active == old(self).com_active
                &&& final(self).security_set == old(self).security_set
                &&& final(self).com_inits == old(self).com_inits
                &&& final(self).com_uninits == old(self).com_uninits
                &&& final(self).connected == old(self).connected
                &&& final(self).def == old(self).def
                &&& final(self).registered == old(self).registered
            },
            !valid_folder_path(path@) ==> (r matches Err(
                TaskError::WinError(WinError::UnknownError(m)),
            ) && m@ == "folder not found"@) && *final(self) == *old(self),
    {
        let ok = path.unicode_len() == 1 && path.get_char(0) == '\\';
        if ok {
            let h = self.push_handle(HandleRole::Folder);
            Ok(h)
        } else {
            Err(TaskError::WinError(WinError::UnknownError("folder not found".to_owned())))
        }
    }

    /// Removes the registered task of the given name.  Deleting a name
    /// that is not registered reports an error, but either way the name
    /// is absent afterwards: the operation is the absence-establishing
    /// half of "ensure exactly one task".
    pub fn delete_task(&mut self, folder: u64, name: &String) -> (r: Result<(), TaskError>)
        requires
            old(self).wf(),
            old(self).has_live(folder, HandleRole::Folder),
        ensures
            final(self).wf(),
            final(self).registry_view() == without_name(old(self).registry_view(), name@),
            r is Ok <==> count_with_name(old(self).registry_view(), name@) != 0,
            r is Err ==> (r matches Err(TaskError::WinError(WinError::UnknownError(m))) && m@
                == "no such task"@),
            final(self).com_active == old(self).com_active,
            final(self).security_set == old(self).security_set,
            final(self).com_inits == old(self).com_inits,
            final(self).com_uninits == old(self).com_uninits,
            final(self).connected == old(self).connected,
            final(self).next_handle == old(self).next_handle,
            final(self).stack@ == old(self).stack@,
            final(self).def == old(self).def,
    {
        let n = self.registered.len();
        let mut i: usize = 0;
        while i < n
            invariant
                old(self).wf(),
                i <= n,
                *self == *old(self),
                n == self.registered@.len(),
                forall|j: int| 0 <= j < i ==> (#[trigger] self.registered@[j])@.name != name@,
            decreases n - i,
        {
            if self.registered[i].name == *name {
                proof {
                    let ov = self.registry_view();
                    assert(ov[i as int].name == name@);
                    assert forall|j: int| 0 <= j < ov.len() && j != i as int implies (
                    #[trigger] ov[j]).name != name@ by {
                        if j > i as int {
                            assert(self.registered@[i as int]@.name
                                != self.registered@[j]@.name);
                        }
                    }
                    lemma_without_name_removes(ov, name@, i as int);
                }
                self.registered.remove(i);
                proof {
                    assert(self.registry_view() =~= old(self).registry_view().remove(i as int));
                    assert forall|a: int, b: int|
                        0 <= a < b < self.registered@.len() implies (
                    #[trigger] self.registered@[a])@.name != (
                    #[trigger] self.registered@[b])@.name by {
                        let oa = if a < i as int {
                            a
                        } else {
                            a + 1
                        };
                        let ob = if b < i as int {
                            b
                        } else {
                            b + 1
                        };
                        assert(old(self).registered@[oa]@.name
                            != old(self).registered@[ob]@.name);
                    }
                    assert(count_with_name(old(self).registry_view(), name@) != 0) by {
                        let ov = old(self).registry_view();
                        assert(ov.filter(|e: RegisteredEntryView| e.name == name@).contains(
                            ov[i as int],
                        )) by {
                            ov.lemma_filter_contains(
                                |e: RegisteredEntryView| e.name == name@,
                                i as int,
                            );
                        }
                    }
                }
                return Ok(());
            }
            i = i + 1;
        }
        proof {
            lemma_without_name_all_kept(self.registry_view(), name@);
            lemma_count_none(self.registry_view(), name@);
        }
        Err(TaskError::WinError(WinError::UnknownError("no such task".to_owned())))
    }

    /// Creates a fresh, empty task definition.  The model builds one
    /// definition at a time, so no handle may still refer to a previous
    /// one.
    pub fn new_task(&mut self, svc: u64) -> (r: Result<u64, TaskError>)
        requires
            old(self).wf(),
            old(self).has_live(svc, HandleRole::Service),
            old(self).connected,
            !old(self).has_def_handles(),
            old(self).next_handle < u64::MAX,
        ensures
            final(self).wf(),
            r matches Ok(h) && h == old(self).next_handle && final(self).stack@ == old(self).stack@.push(
                LiveHandle { id: h, role: HandleRole::Definition },
            ),
            final(self).next_handle == old(self).next_handle + 1,
            final(self).same_context(*old(self)),
            final(self).connected == old(self).connected,
            final(self).registered == old(self).registered,
            final(self).def_view() matches Some(d) && d == (TaskDefinitionView {
                author: None,
                logon: None,
                start_when_available: None,
                wait_timeout: None,
                triggers: Seq::<TriggerRecordView>::empty(),
                actions: Seq::<ActionRecordView>::empty(),
            }),
    {
        self.def = Some(
            TaskDefinitionState {
                author: None,
                logon: None,
                start_when_available: None,
                wait_timeout: None,
                triggers: Vec::new(),
                actions: Vec::new(),
            },
        );
        proof {
            assert forall|i: int| 0 <= i < self.stack@.len() implies self.role_index_ok(
                #[trigger] self.stack@[i].role,
            ) by {
                assert(!Self::role_needs_def(old(self).stack@[i].role));
                assert(old(self).role_index_ok(old(self).stack@[i].role));
            }
            assert(self.def_view() matches Some(d) && d == (TaskDefinitionView {
                author: None,
                logon: None,
                start_when_available: None,
                wait_timeout: None,
                triggers: Seq::<TriggerRecordView>::empty(),
                actions: Seq::<ActionRecordView>::empty(),
            })) by {
                assert(self.def->0@.triggers =~= Seq::<TriggerRecordView>::empty());
                assert(self.def->0@.actions =~= Seq::<ActionRecordView>::empty());
                assert(self.def->0@ =~= (TaskDefinitionView {
                    author: None,
                    logon: None,
                    start_when_available: None,
                    wait_timeout: None,
                    triggers: Seq::<TriggerRecordView>::empty(),
                    actions: Seq::<ActionRecordView>::empty(),
                }));
            }
        }
        let h = self.push_handle(HandleRole::Definition);
        Ok(h)
    }

    /// Fetches the registration-info property bag of the definition.
    pub fn get_registration_info(&mut self, defh: u64) -> (r: Result<u64, TaskError>)
        requires
            old(self).wf(),
            old(self).has_live(defh, HandleRole::Definition),
            old(self).next_handle < u64::MAX,
        ensures
            final(self).wf(),
            r matches Ok(h) && h == old(self).next_handle && final(self).stack@ == old(self).stack@.push(
                LiveHandle { id: h, role: HandleRole::RegistrationInfo },
            ),
            final(self).next_handle == old(self).next_handle + 1,
            final(self).same_context(*old(self)),
            final(self).connected == old(self).connected,
            final(self).def == old(self).def,
            final(self).registered == old(self).registered,
    {
        proof {
            self.lemma_def_present(defh);
        }
        let h = self.push_handle(HandleRole::RegistrationInfo);
        Ok(h)
    }

    /// Fetches the principal of the definition.
    pub fn get_principal(&mut self, defh: u64) -> (r: Result<u64, TaskError>)
        requires
            old(self).wf(),
            old(self).has_live(defh, HandleRole::Definition),
            old(self).next_handle < u64::MAX,
        ensures
            final(self).wf(),
            r matches Ok(h) && h == old(self).next_handle && final(self).stack@ == old(self).stack@.push(
                LiveHandle { id: h, role: HandleRole::Principal },
            ),
            final(self).next_handle == old(self).next_handle + 1,
            final(self).same_context(*old(self)),
            final(self).connected == old(self).connected,
            final(self).def == old(self).def,
            final(self).registered == old(self).registered,
    {
        proof {
            self.lemma_def_present(defh);
        }
        let h = self.push_handle(HandleRole::Principal);
        Ok(h)
    }

    /// Fetches the settings of the definition.
    pub fn get_settings(&mut self, defh: u64) -> (r: Result<u64, TaskError>)
        requires
            old(self).wf(),
            old(self).has_live(defh, HandleRole::Definition),
            old(self).next_handle < u64::MAX,
        ensures
            final(self).wf(),
            r matches Ok(h) && h == old(self).next_handle && final(self).stack@ == old(self).stack@.push(
                LiveHandle { id: h, role: HandleRole::Settings },
            ),
            final(self).next_handle == old(self).next_handle + 1,
            final(self).same_context(*old(self)),
            final(self).connected == old(self).connected,
            final(self).def == old(self).def,
            final(self).registered == old(self).registered,
    {
        proof {
            self.lemma_def_present(defh);
        }
        let h = self.push_handle(HandleRole::Settings);
        Ok(h)
    }

    /// Fetches the idle settings owned by a settings object.
    pub fn get_idle_settings(&mut self, settings: u64) -> (r: Result<u64, TaskError>)
        requires
            old(self).wf(),
            old(self).has_live(settings, HandleRole::Settings),
            old(self).next_handle < u64::MAX,
        ensures
            final(self).wf(),
            r matches Ok(h) && h == old(self).next_handle && final(self).stack@ == old(self).stack@.push(
                LiveHandle { id: h, role: HandleRole::IdleSettings },
            ),
            final(self).next_handle == old(self).next_handle + 1,
            final(self).same_context(*old(self)),
            final(self).connected == old(self).connected,
            final(self).def == old(self).def,
            final(self).registered == old(self).registered,
    {
        proof {
            self.lemma_def_present(settings);
        }
        let h = self.push_handle(HandleRole::IdleSettings);
        Ok(h)
    }

    /// Fetches the trigger collection of the definition.
    pub fn get_triggers(&mut self, defh: u64) -> (r: Result<u64, TaskError>)
        requires
            old(self).wf(),
            old(self).has_live(defh, HandleRole::Definition),
            old(self).next_handle < u64::MAX,
        ensures
            final(self).wf(),
            r matches Ok(h) && h == old(self).next_handle && final(self).stack@ == old(self).stack@.push(
                LiveHandle { id: h, role: HandleRole::TriggerCollection },
            ),
            final(self).next_handle == old(self).next_handle + 1,
            final(self).same_context(*old(self)),
            final(self).connected == old(self).connected,
            final(self).def == old(self).def,
            final(self).registered == old(self).registered,
    {
        proof {
            self.lemma_def_present(defh);
        }
        let h = self.push_handle(HandleRole::TriggerCollection);
        Ok(h)
    }

    /// Fetches the action collection of the definition.
    pub fn get_actions(&mut self, defh: u64) -> (r: Result<u64, TaskError>)
        requires
            old(self).wf(),
            old(self).has_live(defh, HandleRole::Definition),
            old(self).next_handle < u64::MAX,
        ensures
            final(self).wf(),
            r matches Ok(h) && h == old(self).next_handle && final(self).stack@ == old(self).stack@.push(
                LiveHandle { id: h, role: HandleRole::ActionCollection },
            ),
            final(self).next_handle == old(self).next_handle + 1,
            final(self).same_context(*old(self)),
            final(self).connected == old(self).connected,
            final(self).def == old(self).def,
            final(self).registered == old(self).registered,
    {
        proof {
            self.lemma_def_present(defh);
        }
        let h = self.push_handle(HandleRole::ActionCollection);
        Ok(h)
    }

    /// Sets the author in the registration info.
    pub fn put_author(&mut self, info: u64, author: &String) -> (r: Result<(), TaskError>)
        requires
            old(self).wf(),
            old(self).has_live(info, HandleRole::RegistrationInfo),
        ensures
            final(self).wf(),
            r is Ok,
            final(self).same_context(*old(self)),
            final(self).same_handles(*old(self)),
            final(self).registered == old(self).registered,
            final(self).def_view() matches Some(d) && old(self).def_view() matches Some(od) && d
                == (TaskDefinitionView { author: Some(author@), ..od }),
    {
        proof {
            self.lemma_def_present(info);
        }
        if let Some(d) = &mut self.def {
            d.author = Some(author.clone());
        }
        proof {
            assert(self.def->0@ =~= (TaskDefinitionView {
                author: Some(author@),
                ..old(self).def->0@
            }));
        }
        Ok(())
    }

    /// Sets the logon method in the principal.
    pub fn put_logon_type(&mut self, principal: u64, logon: TaskLogon) -> (r: Result<
        (),
        TaskError,
    >)
        requires
            old(self).wf(),
            old(self).has_live(principal, HandleRole::Principal),
        ensures
            final(self).wf(),
            r is Ok,
            final(self).same_context(*old(self)),
            final(self).same_handles(*old(self)),
            final(self).registered == old(self).registered,
            final(self).def_view() matches Some(d) && old(self).def_view() matches Some(od) && d
                == (TaskDefinitionView { logon: Some(logon), ..od }),
    {
        proof {
            self.lemma_def_present(principal);
        }
        if let Some(d) = &mut self.def {
            d.logon = Some(logon);
        }
        proof {
            assert(self.def->0@ =~= (TaskDefinitionView {
                logon: Some(logon),
                ..old(self).def->0@
            }));
        }
        Ok(())
    }

    /// Sets whether the task may start late when its scheduled start was
    /// missed.
    pub fn put_start_when_available(&mut self, settings: u64, value: bool) -> (r: Result<
        (),
        TaskError,
    >)
        requires
            old(self).wf(),
            old(self).has_live(settings, HandleRole::Settings),
        ensures
            final(self).wf(),
            r is Ok,
            final(self).same_context(*old(self)),
            final(self).same_handles(*old(self)),
            final(self).registered == old(self).registered,
            final(self).def_view() matches Some(d) && old(self).def_view() matches Some(od) && d
                == (TaskDefinitionView { start_when_available: Some(value), ..od }),
    {
        proof {
            self.lemma_def_present(settings);
        }
        if let Some(d) = &mut self.def {
            d.start_when_available = Some(value);
        }
        proof {
            assert(self.def->0@ =~= (TaskDefinitionView {
                start_when_available: Some(value),
                ..old(self).def->0@
            }));
        }
        Ok(())
    }

    /// Sets the idle wait timeout, already rendered in its wire form.
    pub fn put_wait_timeout(&mut self, idle: u64, timeout: &String) -> (r: Result<(), TaskError>)
        requires
            old(self).wf(),
            old(self).has_live(idle, HandleRole::IdleSettings),
        ensures
            final(self).wf(),
            r is Ok,
            final(self).same_context(*old(self)),
            final(self).same_handles(*old(self)),
            final(self).registered == old(self).registered,
            final(self).def_view() matches Some(d) && old(self).def_view() matches Some(od) && d
                == (TaskDefinitionView { wait_timeout: Some(timeout@), ..od }),
    {
        proof {
            self.lemma_def_present(idle);
        }
        if let Some(d) = &mut self.def {
            d.wait_timeout = Some(timeout.clone());
        }
        proof {
            assert(self.def->0@ =~= (TaskDefinitionView {
                wait_timeout: Some(timeout@),
                ..old(self).def->0@
            }));
        }
        Ok(())
    }

    /// Appends a trigger of the requested category to the collection and
    /// hands back a generic trigger handle.  The generic handle exposes no
    /// category-specific fields; those are reached by narrowing it.
    pub fn create_trigger(&mut self, tc: u64, kind: TriggerKind) -> (r: Result<u64, TaskError>)
        requires
            old(self).wf(),
            old(self).has_live(tc, HandleRole::TriggerCollection),
            old(self).next_handle < u64::MAX,
        ensures
            final(self).wf(),
            old(self).def->0.triggers@.len() < crate::triggers::MAX_TRIGGERS as nat ==> {
                &&& r matches Ok(h) && h == old(self).next_handle && final(self).stack@ == old(
                    self,
                ).stack@.push(
                    LiveHandle {
                        id: h,
                        role: HandleRole::Trigger(old(self).def->0.triggers@.len() as usize),
                    },
                )
                &&& final(self).next_handle == old(self).next_handle + 1
                &&& final(self).same_context(*old(self))
                &&& final(self).connected == old(self).connected
                &&& final(self).registered == old(self).registered
                &&& final(self).def_view() matches Some(d) && d == (TaskDefinitionView {
                    triggers: old(self).def->0@.triggers.push(
                        TriggerRecordView {
                            kind,
                            id: None,
                            start_boundary: None,
                            end_boundary: None,
                            days_interval: None,
                        },
                    ),
                    ..old(self).def->0@
                })
            },
            old(self).def->0.triggers@.len() >= crate::triggers::MAX_TRIGGERS as nat ==> (r matches Err(
                TaskError::WinError(WinError::UnknownError(m)),
            ) && m@ == "trigger collection is full"@) && *final(self) == *old(self),
    {
        proof {
            self.lemma_def_present(tc);
        }
        let mut idx: usize = 0;
        let mut full = false;
        if let Some(d) = &self.def {
            idx = d.triggers.len();
            full = idx >= crate::triggers::MAX_TRIGGERS as usize;
        }
        if full {
            return Err(
                TaskError::WinError(WinError::UnknownError("trigger collection is full".to_owned())),
            );
        }
        if let Some(d) = &mut self.def {
            d.triggers.push(
                TriggerRecord {
                    kind,
                    id: None,
                    start_boundary: None,
                    end_boundary: None,
                    days_interval: None,
                },
            );
        }
        proof {
            assert forall|i: int| 0 <= i < self.stack@.len() implies self.role_index_ok(
                #[trigger] self.stack@[i].role,
            ) by {
                assert(old(self).role_index_ok(old(self).stack@[i].role));
            }
            assert(self.def->0@.triggers =~= old(self).def->0@.triggers.push(
                TriggerRecordView {
                    kind,
                    id: None,
                    start_boundary: None,
                    end_boundary: None,
                    days_interval: None,
                },
            ));
            assert(self.def->0@.actions =~= old(self).def->0@.actions);
            assert(self.def->0@ =~= (TaskDefinitionView {
                triggers: old(self).def->0@.triggers.push(
                    TriggerRecordView {
                        kind,
                        id: None,
                        start_boundary: None,
                        end_boundary: None,
                        days_interval: None,
                    },
                ),
                ..old(self).def->0@
            }));
        }
        let h = self.push_handle(HandleRole::Trigger(idx));
        Ok(h)
    }

    /// Narrows a generic trigger handle to the time-trigger capability.
    /// Narrowing is a fallible cast: it hands back a fresh handle when the
    /// trigger was created with the time category, and reports
    /// capability-not-supported otherwise — never a silent null.
    pub fn narrow_time_trigger(&mut self, t: u64) -> (r: Result<u64, TaskError>)
        requires
            old(self).wf(),
            old(self).is_live(t),
            old(self).role_of(t) matches HandleRole::Trigger(_),
            old(self).next_handle < u64::MAX,
        ensures
            final(self).wf(),
            old(self).def->0.triggers@[slot_of(old(self).role_of(t))]@.kind == TriggerKind::Time
                ==> {
                &&& r matches Ok(h) && h == old(self).next_handle && final(self).stack@ == old(
                    self,
                ).stack@.push(
                    LiveHandle {
                        id: h,
                        role: HandleRole::TimeTrigger(
                            slot_of(old(self).role_of(t)) as usize,
                        ),
                    },
                )
                &&& final(self).next_handle == old(self).next_handle + 1
                &&& final(self).same_context(*old(self))
                &&& final(self).connected == old(self).connected
                &&& final(self).def == old(self).def
                &&& final(self).registered == old(self).registered
            },
            old(self).def->0.triggers@[slot_of(old(self).role_of(t))]@.kind != TriggerKind::Time
                ==> r == Err::<u64, TaskError>(TaskError::WinError(WinError::NoInterface))
                && *final(self) == *old(self),
    {
        proof {
            self.lemma_def_present(t);
        }
        let found = self.find_index(t);
        if let Some(i) = found {
            proof {
                self.lemma_handle_at(t, i as int);
            }
            if let HandleRole::Trigger(k) = self.stack[i].role {
                let mut is_time = false;
                if let Some(d) = &self.def {
                    is_time = matches!(d.triggers[k].kind, TriggerKind::Time);
                }
                if is_time {
                    let h = self.push_handle(HandleRole::TimeTrigger(k));
                    return Ok(h);
                } else {
                    return Err(TaskError::WinError(WinError::NoInterface));
                }
            }
        }
        Err(TaskError::WinError(WinError::NoInterface))
    }

    /// Narrows a generic trigger handle to the daily-trigger capability;
    /// see [`Self::narrow_time_trigger`].
    pub fn narrow_daily_trigger(&mut self, t: u64) -> (r: Result<u64, TaskError>)
        requires
            old(self).wf(),
            old(self).is_live(t),
            old(self).role_of(t) matches HandleRole::Trigger(_),
            old(self).next_handle < u64::MAX,
        ensures
            final(self).wf(),
            old(self).def->0.triggers@[slot_of(old(self).role_of(t))]@.kind == TriggerKind::Daily
                ==> {
                &&& r matches Ok(h) && h == old(self).next_handle && final(self).stack@ == old(
                    self,
                ).stack@.push(
                    LiveHandle {
                        id: h,
                        role: HandleRole::DailyTrigger(
                            slot_of(old(self).role_of(t)) as usize,
                        ),
                    },
                )
                &&& final(self).next_handle == old(self).next_handle + 1
                &&& final(self).same_context(*old(self))
                &&& final(self).connected == old(self).connected
                &&& final(self).def == old(self).def
                &&& final(self).registered == old(self).registered
            },
            old(self).def->0.triggers@[slot_of(old(self).role_of(t))]@.kind != TriggerKind::Daily
                ==> r == Err::<u64, TaskError>(TaskError::WinError(WinError::NoInterface))
                && *final(self) == *old(self),
    {
        proof {
            self.lemma_def_present(t);
        }
        let found = self.find_index(t);
        if let Some(i) = found {
            proof {
                self.lemma_handle_at(t, i as int);
            }
            if let HandleRole::Trigger(k) = self.stack[i].role {
                let mut is_daily = false;
                if let Some(d) = &self.def {
                    is_daily = matches!(d.triggers[k].kind, TriggerKind::Daily);
                }
                if is_daily {
                    let h = self.push_handle(HandleRole::DailyTrigger(k));
                    return Ok(h);
                } else {
                    return Err(TaskError::WinError(WinError::NoInterface));
                }
            }
        }
        Err(TaskError::WinError(WinError::NoInterface))
    }

    /// Whether a handle is narrowed to a concrete trigger capability.
    pub open spec fn narrowed_trigger(role: HandleRole) -> bool {
        role matches HandleRole::TimeTrigger(_) || role matches HandleRole::DailyTrigger(_)
    }

    /// Sets the local identifier of a trigger through its narrowed
    /// handle.
    pub fn put_trigger_id(&mut self, t: u64, id: &String) -> (r: Result<(), TaskError>)
        requires
            old(self).wf(),
            old(self).is_live(t),
            Self::narrowed_trigger(old(self).role_of(t)),
        ensures
            final(self).wf(),
            r is Ok,
            final(self).same_context(*old(self)),
            final(self).same_handles(*old(self)),
            final(self).registered == old(self).registered,
            final(self).def_view() matches Some(d) && d == (TaskDefinitionView {
                triggers: old(self).def->0@.triggers.update(
                    slot_of(old(self).role_of(t)),
                    (TriggerRecordView {
                        id: Some(id@),
                        ..old(self).def->0@.triggers[slot_of(old(self).role_of(t))]
                    }),
                ),
                ..old(self).def->0@
            }),
    {
        proof {
            self.lemma_def_present(t);
        }
        let found = self.find_index(t);
        if let Some(i) = found {
            proof {
                self.lemma_handle_at(t, i as int);
            }
            let k = match self.stack[i].role {
                HandleRole::TimeTrigger(k) => k,
                HandleRole::DailyTrigger(k) => k,
                _ => 0,
            };
            if let Some(d) = &mut self.def {
                d.triggers[k].id = Some(id.clone());
            }
            proof {
                let ghost s = slot_of(old(self).role_of(t));
                assert(self.def->0@.triggers =~= old(self).def->0@.triggers.update(
                    s,
                    (TriggerRecordView { id: Some(id@), ..old(self).def->0@.triggers[s] }),
                ));
                assert(self.def->0@ =~= (TaskDefinitionView {
                    triggers: old(self).def->0@.triggers.update(
                        s,
                        (TriggerRecordView { id: Some(id@), ..old(self).def->0@.triggers[s] }),
                    ),
                    ..old(self).def->0@
                }));
            }
        }
        Ok(())
    }

    /// Sets the start boundary of a trigger, already rendered in its wire
    /// form, through its narrowed handle.
    pub fn put_start_boundary(&mut self, t: u64, when: &String) -> (r: Result<(), TaskError>)
        requires
            old(self).wf(),
            old(self).is_live(t),
            Self::narrowed_trigger(old(self).role_of(t)),
        ensures
            final(self).wf(),
            r is Ok,
            final(self).same_context(*old(self)),
            final(self).same_handles(*old(self)),
            final(self).registered == old(self).registered,
            final(self).def_view() matches Some(d) && d == (TaskDefinitionView {
                triggers: old(self).def->0@.triggers.update(
                    slot_of(old(self).role_of(t)),
                    (TriggerRecordView {
                        start_boundary: Some(when@),
                        ..old(self).def->0@.triggers[slot_of(old(self).role_of(t))]
                    }),
                ),
                ..old(self).def->0@
            }),
    {
        proof {
            self.lemma_def_present(t);
        }
        let found = self.find_index(t);
        if let Some(i) = found {
            proof {
                self.lemma_handle_at(t, i as int);
            }
            let k = match self.stack[i].role {
                HandleRole::TimeTrigger(k) => k,
                HandleRole::DailyTrigger(k) => k,
                _ => 0,
            };
            if let Some(d) = &mut self.def {
                d.triggers[k].start_boundary = Some(when.clone());
            }
            proof {
                let ghost s = slot_of(old(self).role_of(t));
                assert(self.def->0@.triggers =~= old(self).def->0@.triggers.update(
                    s,
                    (TriggerRecordView {
                        start_boundary: Some(when@),
                        ..old(self).def->0@.triggers[s]
                    }),
                ));
                assert(self.def->0@ =~= (TaskDefinitionView {
                    triggers: old(self).def->0@.triggers.update(
                        s,
                        (TriggerRecordView {
                            start_boundary: Some(when@),
                            ..old(self).def->0@.triggers[s]
                        }),
                    ),
                    ..old(self).def->0@
                }));
            }
        }
        Ok(())
    }

    /// Sets the end boundary of a trigger, already rendered in its wire
    /// form, through its narrowed handle.
    pub fn put_end_boundary(&mut self, t: u64, when: &String) -> (r: Result<(), TaskError>)
        requires
            old(self).wf(),
            old(self).is_live(t),
            Self::narrowed_trigger(old(self).role_of(t)),
        ensures
            final(self).wf(),
            r is Ok,
            final(self).same_context(*old(self)),
            final(self).same_handles(*old(self)),
            final(self).registered == old(self).registered,
            final(self).def_view() matches Some(d) && d == (TaskDefinitionView {
                triggers: old(self).def->0@.triggers.update(
                    slot_of(old(self).role_of(t)),
                    (TriggerRecordView {
                        end_boundary: Some(when@),
                        ..old(self).def->0@.triggers[slot_of(old(self).role_of(t))]
                    }),
                ),
                ..old(self).def->0@
            }),
    {
        proof {
            self.lemma_def_present(t);
        }
        let found = self.find_index(t);
        if let Some(i) = found {
            proof {
                self.lemma_handle_at(t, i as int);
            }
            let k = match self.stack[i].role {
                HandleRole::TimeTrigger(k) => k,
                HandleRole::DailyTrigger(k) => k,
                _ => 0,
            };
            if let Some(d) = &mut self.def {
                d.triggers[k].end_boundary = Some(when.clone());
            }
            proof {
                let ghost s = slot_of(old(self).role_of(t));
                assert(self.def->0@.triggers =~= old(self).def->0@.triggers.update(
                    s,
                    (TriggerRecordView {
                        end_boundary: Some(when@),
                        ..old(self).def->0@.triggers[s]
                    }),
                ));
                assert(self.def->0@ =~= (TaskDefinitionView {
                    triggers: old(self).def->0@.triggers.update(
                        s,
                        (TriggerRecordView {
                            end_boundary: Some(when@),
                            ..old(self).def->0@.triggers[s]
                        }),
                    ),
                    ..old(self).def->0@
                }));
            }
        }
        Ok(())
    }

    /// Sets the recurrence stride of a daily trigger through its narrowed
    /// handle.  The stride crosses the wire as a 16-bit signed integer.
    pub fn put_days_interval(&mut self, t: u64, days: i16) -> (r: Result<(), TaskError>)
        requires
            old(self).wf(),
            old(self).is_live(t),
            old(self).role_of(t) matches HandleRole::DailyTrigger(_),
        ensures
            final(self).wf(),
            r is Ok,
            final(self).same_context(*old(self)),
            final(self).same_handles(*old(self)),
            final(self).registered == old(self).registered,
            final(self).def_view() matches Some(d) && d == (TaskDefinitionView {
                triggers: old(self).def->0@.triggers.update(
                    slot_of(old(self).role_of(t)),
                    (TriggerRecordView {
                        days_interval: Some(days),
                        ..old(self).def->0@.triggers[slot_of(old(self).role_of(t))]
                    }),
                ),
                ..old(self).def->0@
            }),
    {
        proof {
            self.lemma_def_present(t);
        }
        let found = self.find_index(t);
        if let Some(i) = found {
            proof {
                self.lemma_handle_at(t, i as int);
            }
            let k = match self.stack[i].role {
                HandleRole::DailyTrigger(k) => k,
                _ => 0,
            };
            if let Some(d) = &mut self.def {
                d.triggers[k].days_interval = Some(days);
            }
            proof {
                let ghost s = slot_of(old(self).role_of(t));
                assert(self.def->0@.triggers =~= old(self).def->0@.triggers.update(
                    s,
                    (TriggerRecordView {
                        days_interval: Some(days),
                        ..old(self).def->0@.triggers[s]
                    }),
                ));
                assert(self.def->0@ =~= (TaskDefinitionView {
                    triggers: old(self).def->0@.triggers.update(
                        s,
                        (TriggerRecordView {
                            days_interval: Some(days),
                            ..old(self).def->0@.triggers[s]
                        }),
                    ),
                    ..old(self).def->0@
                }));
            }
        }
        Ok(())
    }

    /// Appends a run-executable action to the collection and hands back a
    /// generic action handle.
    pub fn create_action(&mut self, ac: u64) -> (r: Result<u64, TaskError>)
        requires
            old(self).wf(),
            old(self).has_live(ac, HandleRole::ActionCollection),
            old(self).next_handle < u64::MAX,
        ensures
            final(self).wf(),
            old(self).def->0.actions@.len() < MAX_ACTIONS as nat ==> {
                &&& r matches Ok(h) && h == old(self).next_handle && final(self).stack@ == old(
                    self,
                ).stack@.push(
                    LiveHandle {
                        id: h,
                        role: HandleRole::Action(old(self).def->0.actions@.len() as usize),
                    },
                )
                &&& final(self).next_handle == old(self).next_handle + 1
                &&& final(self).same_context(*old(self))
                &&& final(self).connected == old(self).connected
                &&& final(self).registered == old(self).registered
                &&& final(self).def_view() matches Some(d) && d == (TaskDefinitionView {
                    actions: old(self).def->0@.actions.push(ActionRecordView { path: None }),
                    ..old(self).def->0@
                })
            },
            old(self).def->0.actions@.len() >= MAX_ACTIONS as nat ==> (r matches Err(
                TaskError::WinError(WinError::UnknownError(m)),
            ) && m@ == "action collection is full"@) && *final(self) == *old(self),
    {
        proof {
            self.lemma_def_present(ac);
        }
        let mut idx: usize = 0;
        let mut full = false;
        if let Some(d) = &self.def {
            idx = d.actions.len();
            full = idx >= MAX_ACTIONS as usize;
        }
        if full {
            return Err(
                TaskError::WinError(WinError::UnknownError("action collection is full".to_owned())),
            );
        }
        if let Some(d) = &mut self.def {
            d.actions.push(ActionRecord { path: None });
        }
        proof {
            assert forall|i: int| 0 <= i < self.stack@.len() implies self.role_index_ok(
                #[trigger] self.stack@[i].role,
            ) by {
                assert(old(self).role_index_ok(old(self).stack@[i].role));
            }
            assert(self.def->0@.actions =~= old(self).def->0@.actions.push(
                ActionRecordView { path: None },
            ));
            assert(self.def->0@.triggers =~= old(self).def->0@.triggers);
            assert(self.def->0@ =~= (TaskDefinitionView {
                actions: old(self).def->0@.actions.push(ActionRecordView { path: None }),
                ..old(self).def->0@
            }));
        }
        let h = self.push_handle(HandleRole::Action(idx));
        Ok(h)
    }

    /// Narrows a generic action handle to the run-executable capability.
    /// Run-executable is the only action category, so this narrowing
    /// always resolves.
    pub fn narrow_exec_action(&mut self, a: u64) -> (r: Result<u64, TaskError>)
        requires
            old(self).wf(),
            old(self).is_live(a),
            old(self).role_of(a) matches HandleRole::Action(_),
            old(self).next_handle < u64::MAX,
        ensures
            final(self).wf(),
            r matches Ok(h) && h == old(self).next_handle && final(self).stack@ == old(self).stack@.push(
                LiveHandle {
                    id: h,
                    role: HandleRole::ExecAction(slot_of(old(self).role_of(a)) as usize),
                },
            ),
            final(self).next_handle == old(self).next_handle + 1,
            final(self).same_context(*old(self)),
            final(self).connected == old(self).connected,
            final(self).def == old(self).def,
            final(self).registered == old(self).registered,
    {
        proof {
            self.lemma_def_present(a);
        }
        let found = self.find_index(a);
        if let Some(i) = found {
            proof {
                self.lemma_handle_at(a, i as int);
            }
            if let HandleRole::Action(k) = self.stack[i].role {
                let h = self.push_handle(HandleRole::ExecAction(k));
                return Ok(h);
            }
        }
        proof {
            assert(false);
        }
        Err(TaskError::WinError(WinError::NoInterface))
    }

    /// Sets the executable path of an action through its narrowed handle.
    pub fn put_action_path(&mut self, a: u64, path: &String) -> (r: Result<(), TaskError>)
        requires
            old(self).wf(),
            old(self).is_live(a),
            old(self).role_of(a) matches HandleRole::ExecAction(_),
        ensures
            final(self).wf(),
            r is Ok,
            final(self).same_context(*old(self)),
            final(self).same_handles(*old(self)),
            final(self).registered == old(self).registered,
            final(self).def_view() matches Some(d) && d == (TaskDefinitionView {
                actions: old(self).def->0@.actions.update(
                    slot_of(old(self).role_of(a)),
                    (ActionRecordView { path: Some(path@) }),
                ),
                ..old(self).def->0@
            }),
    {
        proof {
            self.lemma_def_present(a);
        }
        let found = self.find_index(a);
        if let Some(i) = found {
            proof {
                self.lemma_handle_at(a, i as int);
            }
            let k = match self.stack[i].role {
                HandleRole::ExecAction(k) => k,
                _ => 0,
            };
            if let Some(d) = &mut self.def {
                d.actions[k].path = Some(path.clone());
            }
            proof {
                let ghost s = slot_of(old(self).role_of(a));
                assert(self.def->0@.actions =~= old(self).def->0@.actions.update(
                    s,
                    (ActionRecordView { path: Some(path@) }),
                ));
                assert(self.def->0@ =~= (TaskDefinitionView {
                    actions: old(self).def->0@.actions.update(
                        s,
                        (ActionRecordView { path: Some(path@) }),
                    ),
                    ..old(self).def->0@
                }));
            }
        }
        Ok(())
    }

    /// Registers the definition under the given name, create-or-update:
    /// any existing task of that name is superseded, and afterwards
    /// exactly one task of that name is registered, holding a snapshot of
    /// the definition.  The engine rejects an invalid name or an action
    /// without a runnable path; on rejection nothing is persisted and
    /// nothing else changes.
    pub fn register_task(&mut self, folder: u64, name: &String, defh: u64) -> (r: Result<
        u64,
        TaskError,
    >)
        requires
            old(self).wf(),
            old(self).has_live(folder, HandleRole::Folder),
            old(self).has_live(defh, HandleRole::Definition),
            old(self).next_handle < u64::MAX,
        ensures
            final(self).wf(),
            register_accepts(name@, old(self).def->0@) ==> {
                &&& r matches Ok(h) && h == old(self).next_handle && final(self).stack@ == old(
                    self,
                ).stack@.push(LiveHandle { id: h, role: HandleRole::RegisteredTask })
                &&& final(self).next_handle == old(self).next_handle + 1
                &&& final(self).same_context(*old(self))
                &&& final(self).connected == old(self).connected
                &&& final(self).def == old(self).def
                &&& final(self).registry_view() == without_name(
                    old(self).registry_view(),
                    name@,
                ).push(RegisteredEntryView { name: name@, task: old(self).def->0@ })
            },
            !register_accepts(name@, old(self).def->0@) ==> (r matches Err(
                TaskError::WinError(WinError::InvalidArg(m)),
            ) && m@ == "task name or action path rejected"@) && *final(self) == *old(self),
    {
        proof {
            self.lemma_def_present(defh);
        }
        let name_ok = !name.as_str().is_empty() && name.as_str().get_char(0) != '.';
        let mut acts_ok = true;
        if let Some(d) = &self.def {
            let m = d.actions.len();
            let mut i: usize = 0;
            while i < m
                invariant
                    i <= m,
                    m == d.actions@.len(),
                    acts_ok == (forall|j: int|
                        0 <= j < i ==> action_ok((#[trigger] d.actions@[j])@)),
                decreases m - i,
            {
                let this_ok = match &d.actions[i].path {
                    Some(p) => !p.as_str().is_empty(),
                    None => false,
                };
                proof {
                    assert(this_ok == action_ok(d.actions@[i as int]@));
                    if acts_ok && this_ok {
                        assert forall|j: int| 0 <= j < i + 1 implies action_ok((
                        #[trigger] d.actions@[j])@) by {
                            if j < i {
                                assert(action_ok(d.actions@[j]@));
                            }
                        }
                    }
                }
                acts_ok = acts_ok && this_ok;
                i = i + 1;
            }
            proof {
                assert forall|j: int| 0 <= j < d@.actions.len() implies #[trigger] d@.actions[j]
                    == d.actions@[j]@ by {}
                assert(acts_ok == actions_runnable(d@)) by {
                    if acts_ok {
                    } else {
                        let j = choose|j: int|
                            0 <= j < m && !action_ok((#[trigger] d.actions@[j])@);
                        assert(!action_ok(d@.actions[j]));
                    }
                }
            }
        }
        if !(name_ok && acts_ok) {
            return Err(
                TaskError::WinError(
                    WinError::InvalidArg("task name or action path rejected".to_owned()),
                ),
            );
        }
        let snapshot = match &self.def {
            Some(d) => clone_def(d),
            None => TaskDefinitionState {
                author: None,
                logon: None,
                start_when_available: None,
                wait_timeout: None,
                triggers: Vec::new(),
                actions: Vec::new(),
            },
        };
        let n = self.registered.len();
        let mut i: usize = 0;
        let mut found: Option<usize> = None;
        while i < n
            invariant
                old(self).wf(),
                *self == *old(self),
                i <= n,
                n == self.registered@.len(),
                found is None ==> forall|j: int|
                    0 <= j < i ==> (#[trigger] self.registered@[j])@.name != name@,
                found matches Some(k) ==> k < n && self.registered@[k as int]@.name == name@,
            ensures
                *self == *old(self),
                n == self.registered@.len(),
                found is None ==> forall|j: int|
                    0 <= j < n ==> (#[trigger] self.registered@[j])@.name != name@,
                found matches Some(k) ==> k < n && self.registered@[k as int]@.name == name@,
            decreases n - i,
        {
            if self.registered[i].name == *name {
                found = Some(i);
                break;
            }
            i = i + 1;
        }
        match found {
            Some(k) => {
                proof {
                    let ov = self.registry_view();
                    assert(ov[k as int].name == name@);
                    assert forall|j: int| 0 <= j < ov.len() && j != k as int implies (
                    #[trigger] ov[j]).name != name@ by {
                        if j > k as int {
                            assert(self.registered@[k as int]@.name
                                != self.registered@[j]@.name);
                        } else {
                            assert(self.registered@[j]@.name
                                != self.registered@[k as int]@.name);
                        }
                    }
                    lemma_without_name_removes(ov, name@, k as int);
                }
                self.registered.remove(k);
                proof {
                    assert(self.registry_view() =~= old(self).registry_view().remove(k as int));
                    assert forall|a: int, b: int|
                        0 <= a < b < self.registered@.len() implies (
                    #[trigger] self.registered@[a])@.name != (
                    #[trigger] self.registered@[b])@.name by {
                        let oa = if a < k as int {
                            a
                        } else {
                            a + 1
                        };
                        let ob = if b < k as int {
                            b
                        } else {
                            b + 1
                        };
                        assert(old(self).registered@[oa]@.name
                            != old(self).registered@[ob]@.name);
                    }
                }
            },
            None => {
                proof {
                    lemma_without_name_all_kept(self.registry_view(), name@);
                }
            },
        }
        proof {
            assert(self.registry_view() == without_name(old(self).registry_view(), name@));
            lemma_without_name_count(old(self).registry_view(), name@);
        }
        let ghost before_push = self.registry_view();
        self.registered.push(RegisteredEntry { name: name.clone(), task: snapshot });
        proof {
            assert(self.registry_view() =~= before_push.push(
                RegisteredEntryView { name: name@, task: old(self).def->0@ },
            ));
            assert forall|a: int, b: int|
                0 <= a < b < self.registered@.len() implies (
            #[trigger] self.registered@[a])@.name != (#[trigger] self.registered@[b])@.name by {
                if b == self.registered@.len() - 1 {
                    assert(before_push[a].name != name@) by {
                        lemma_count_none_elements(before_push, name@);
                    }
                }
            }
        }
        let h = self.push_handle(HandleRole::RegisteredTask);
        Ok(h)
    }
}

} // verus!
