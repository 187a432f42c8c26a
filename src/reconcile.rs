//! One reconciliation cycle: from a configuration snapshot to the calls that
//! rebuild the published entry group.
//!
//! The cycle is a state machine. The caller performs each [`Action`] it hands
//! out and answers with the [`Event`] that came of it, until the cycle ends.
use crate::config::{Config, ConfigView, ServiceConfigView};
use crate::name::{NameBuf, name_text};
use crate::rdata::Cname;
use crate::record::Record;
use crate::service::{Service, ServiceView};
use crate::types::Ttl;
use vstd::prelude::*;

verus! {

/// Seconds that a published alias record lives.
pub const ALIAS_TTL_SECS: u32 = 60;

/// One step of a cycle's plan.
#[derive(Debug)]
pub enum Task {
    /// Publish an alias of this host, unless the name is already taken.
    Alias(NameBuf),
    /// Publish a service.
    Service(Service),
}

pub enum TaskView {
    Alias(Seq<u8>),
    Service(ServiceView),
}

impl View for Task {
    type V = TaskView;

    open spec fn view(&self) -> TaskView {
        match self {
            Task::Alias(n) => TaskView::Alias(n@),
            Task::Service(s) => TaskView::Service(s@),
        }
    }
}

/// The tasks for one configured service: its alias first, if it has one,
/// then the service with its single kind.
pub open spec fn entry_tasks(e: (Seq<char>, ServiceConfigView)) -> Seq<TaskView> {
    let service = TaskView::Service(
        ServiceView { name: e.0, kinds: seq![e.1.kind], protocol: e.1.protocol, port: e.1.port },
    );
    match e.1.alias {
        Some(a) => seq![TaskView::Alias(a), service],
        None => seq![service],
    }
}

pub open spec fn service_tasks(entries: Seq<(Seq<char>, ServiceConfigView)>) -> Seq<TaskView>
    decreases entries.len(),
{
    if entries.len() == 0 {
        seq![]
    } else {
        service_tasks(entries.drop_last()) + entry_tasks(entries.last())
    }
}

/// The plan of a cycle: every configured alias in order, then each service
/// in order, preceded by its own alias if it has one.
pub open spec fn plan_spec(c: ConfigView) -> Seq<TaskView> {
    c.aliases.map_values(|a: Seq<u8>| TaskView::Alias(a)) + service_tasks(c.services)
}

/// The tasks of a cycle for the snapshot `config`.
pub fn plan(config: &Config) -> (r: Vec<Task>)
    ensures
        r@.map_values(|t: Task| t@) == plan_spec(config@),
{
    let mut out: Vec<Task> = Vec::new();
    let mut i: usize = 0;
    while i < config.aliases.len()
        invariant
            i <= config.aliases@.len(),
            out@.map_values(|t: Task| t@) == config@.aliases.take(i as int).map_values(
                |a: Seq<u8>| TaskView::Alias(a),
            ),
        decreases config.aliases@.len() - i,
    {
        let ghost prev = out@;
        let a = config.aliases[i].clone();
        out.push(Task::Alias(a));
        i += 1;
        proof {
            assert(out@ == prev.push(Task::Alias(a)));
            assert(out@.map_values(|t: Task| t@) =~= prev.map_values(|t: Task| t@).push(
                TaskView::Alias(a@),
            ));
            assert(config@.aliases.take(i as int) =~= config@.aliases.take(i - 1).push(
                config.aliases@[i - 1]@,
            ));
            assert(out@.map_values(|t: Task| t@) =~= config@.aliases.take(i as int).map_values(
                |a: Seq<u8>| TaskView::Alias(a),
            ));
        }
    }
    assert(config@.aliases.take(i as int) == config@.aliases);
    let ghost head = out@.map_values(|t: Task| t@);
    let mut j: usize = 0;
    while j < config.services.len()
        invariant
            j <= config.services@.len(),
            head == config@.aliases.map_values(|a: Seq<u8>| TaskView::Alias(a)),
            out@.map_values(|t: Task| t@) == head + service_tasks(
                config@.services.take(j as int),
            ),
        decreases config.services@.len() - j,
    {
        let (name, sc) = &config.services[j];
        let ghost before = out@.map_values(|t: Task| t@);
        match &sc.alias {
            Some(a) => {
                let ghost prev = out@;
                let c = a.clone();
                out.push(Task::Alias(c));
                proof {
                    assert(out@.map_values(|t: Task| t@) =~= prev.map_values(|t: Task| t@).push(
                        TaskView::Alias(a@),
                    ));
                }
            },
            None => {},
        }
        let ghost mid = out@;
        let service = Service::new(name.clone(), sc.kind.clone(), sc.protocol, sc.port);
        proof {
            assert(service@.kinds =~= seq![sc.kind@]);
        }
        out.push(Task::Service(service));
        j += 1;
        proof {
            assert(out@.map_values(|t: Task| t@) =~= mid.map_values(|t: Task| t@).push(
                TaskView::Service(service@),
            ));
            let e = config@.services[j - 1];
            assert(e.0 == name@);
            assert(e.1 == sc@);
            assert(config@.services.take(j as int).drop_last() == config@.services.take(j - 1));
            assert(config@.services.take(j as int).last() == e);
            assert(out@.map_values(|t: Task| t@) =~= before + entry_tasks(e));
        }
    }
    assert(config@.services.take(j as int) == config@.services);
    out
}

/// Where a cycle stands.
#[derive(Clone, Copy, PartialEq, Eq, Structural, Debug)]
pub enum Phase {
    /// Not started.
    Idle,
    /// Waiting for the entry group to be cleared.
    Resetting,
    /// Waiting for the owner of the current alias.
    Resolving,
    /// Waiting for the current record or service to be added.
    Adding,
    /// Waiting for a report on the current alias to be taken.
    Reporting,
    /// Waiting for the commit.
    Committing,
    /// Done, committed or with nothing to commit.
    Finished,
    /// Given up after a failed call.
    Aborted,
}

/// What the caller reports back after performing an action.
#[derive(Debug)]
pub enum Event {
    /// Begin the cycle.
    Start,
    /// The action was performed.
    Done,
    /// The action failed.
    Failed,
    /// The owner of the alias that was looked up: the host name owning it,
    /// or `None` when the lookup failed or timed out.
    Resolved(Option<String>),
}

pub enum EventView {
    Start,
    Done,
    Failed,
    Resolved(Option<Seq<char>>),
}

impl View for Event {
    type V = EventView;

    open spec fn view(&self) -> EventView {
        match self {
            Event::Start => EventView::Start,
            Event::Done => EventView::Done,
            Event::Failed => EventView::Failed,
            Event::Resolved(None) => EventView::Resolved(None),
            Event::Resolved(Some(o)) => EventView::Resolved(Some(o@)),
        }
    }
}

/// What the caller is to do next.
#[derive(Debug)]
pub enum Action {
    /// Clear the entry group.
    Reset,
    /// Look up who owns this alias.
    Resolve(NameBuf),
    /// Add this record to the entry group.
    AddRecord(Record<Cname>),
    /// Add this service, with its sub-types, to the entry group.
    AddService(Service),
    /// The alias is owned by another host, named here; it is left alone.
    Conflict(NameBuf, String),
    /// The alias already points at this host.
    AlreadyPublished(NameBuf),
    /// Commit the entry group.
    Commit,
    /// The cycle is over.
    Finished,
    /// The cycle was given up.
    Aborted,
}

pub enum ActionView {
    Reset,
    Resolve(Seq<u8>),
    AddRecord { name: Seq<u8>, ttl: Ttl, target: Seq<u8> },
    AddService(ServiceView),
    Conflict(Seq<u8>, Seq<char>),
    AlreadyPublished(Seq<u8>),
    Commit,
    Finished,
    Aborted,
}

impl View for Action {
    type V = ActionView;

    open spec fn view(&self) -> ActionView {
        match self {
            Action::Reset => ActionView::Reset,
            Action::Resolve(n) => ActionView::Resolve(n@),
            Action::AddRecord(r) => ActionView::AddRecord {
                name: r.name@,
                ttl: r.ttl,
                target: r.data@,
            },
            Action::AddService(s) => ActionView::AddService(s@),
            Action::Conflict(n, o) => ActionView::Conflict(n@, o@),
            Action::AlreadyPublished(n) => ActionView::AlreadyPublished(n@),
            Action::Commit => ActionView::Commit,
            Action::Finished => ActionView::Finished,
            Action::Aborted => ActionView::Aborted,
        }
    }
}

/// The state of a cycle: its plan, this host's canonical name, the current
/// task, how many records and services were added, and the phase.
pub struct CycleState {
    pub tasks: Seq<TaskView>,
    pub host: Seq<u8>,
    pub index: nat,
    pub staged: nat,
    pub phase: Phase,
}

/// The alias of the current task.
pub open spec fn current_alias(s: CycleState) -> Seq<u8> {
    match s.tasks[s.index as int] {
        TaskView::Alias(a) => a,
        TaskView::Service(_) => seq![],
    }
}

/// Moves on to the current task, or ends the cycle when none is left:
/// with a commit if anything was added, without one otherwise.
pub open spec fn advance_spec(s: CycleState) -> (CycleState, ActionView) {
    if s.index < s.tasks.len() {
        match s.tasks[s.index as int] {
            TaskView::Alias(a) => (CycleState { phase: Phase::Resolving, ..s }, ActionView::Resolve(a)),
            TaskView::Service(v) => (
                CycleState { phase: Phase::Adding, ..s },
                ActionView::AddService(v),
            ),
        }
    } else if s.staged > 0 {
        (CycleState { phase: Phase::Committing, ..s }, ActionView::Commit)
    } else {
        (CycleState { phase: Phase::Finished, ..s }, ActionView::Finished)
    }
}

/// What a cycle in state `s` does on event `e`.
pub open spec fn step_spec(s: CycleState, e: EventView) -> (CycleState, ActionView) {
    let abort = (CycleState { phase: Phase::Aborted, ..s }, ActionView::Aborted);
    match s.phase {
        Phase::Idle => match e {
            EventView::Start => (CycleState { phase: Phase::Resetting, ..s }, ActionView::Reset),
            _ => abort,
        },
        Phase::Resetting => match e {
            EventView::Done => advance_spec(s),
            _ => abort,
        },
        Phase::Resolving => match e {
            EventView::Resolved(None) => (
                CycleState { phase: Phase::Adding, ..s },
                ActionView::AddRecord {
                    name: current_alias(s),
                    ttl: Ttl(ALIAS_TTL_SECS),
                    target: s.host,
                },
            ),
            EventView::Resolved(Some(owner)) => {
                let next = CycleState { phase: Phase::Reporting, index: s.index + 1, ..s };
                if owner == name_text(s.host) {
                    (next, ActionView::AlreadyPublished(current_alias(s)))
                } else {
                    (next, ActionView::Conflict(current_alias(s), owner))
                }
            },
            _ => abort,
        },
        Phase::Adding => match e {
            EventView::Done => advance_spec(
                CycleState { index: s.index + 1, staged: s.staged + 1, ..s },
            ),
            _ => abort,
        },
        Phase::Reporting => match e {
            EventView::Done => advance_spec(s),
            _ => abort,
        },
        Phase::Committing => match e {
            EventView::Done => (CycleState { phase: Phase::Finished, ..s }, ActionView::Finished),
            _ => abort,
        },
        Phase::Finished => (s, ActionView::Finished),
        Phase::Aborted => (s, ActionView::Aborted),
    }
}

/// A cycle's state is one that a cycle can reach.
pub open spec fn state_wf(s: CycleState) -> bool {
    &&& s.index <= s.tasks.len()
    &&& s.staged <= s.index
    &&& s.phase == Phase::Resolving ==> s.index < s.tasks.len() && s.tasks[s.index as int] is Alias
    &&& s.phase == Phase::Adding ==> s.index < s.tasks.len()
}

/// One reconciliation cycle for one snapshot.
#[derive(Debug)]
pub struct Cycle {
    tasks: Vec<Task>,
    host: Cname,
    host_text: String,
    index: usize,
    staged: usize,
    phase: Phase,
}

impl Cycle {
    pub closed spec fn state(&self) -> CycleState {
        CycleState {
            tasks: self.tasks@.map_values(|t: Task| t@),
            host: self.host@,
            index: self.index as nat,
            staged: self.staged as nat,
            phase: self.phase,
        }
    }

    pub closed spec fn wf(&self) -> bool {
        &&& state_wf(self.state())
        &&& self.host_text@ == name_text(self.host@)
    }

    /// A cycle, not started, that publishes `config` for the host whose
    /// canonical name is `host`.
    pub fn new(config: &Config, host: Cname) -> (r: Cycle)
        ensures
            r.wf(),
            r.state() == (CycleState {
                tasks: plan_spec(config@),
                host: host@,
                index: 0,
                staged: 0,
                phase: Phase::Idle,
            }),
    {
        let tasks = plan(config);
        let host_text = host.to_string();
        Cycle { tasks, host, host_text, index: 0, staged: 0, phase: Phase::Idle }
    }

    /// Where the cycle stands.
    pub fn phase(&self) -> (r: Phase)
        ensures
            r == self.state().phase,
    {
        self.phase
    }

    /// How many records and services were added so far.
    pub fn staged(&self) -> (r: usize)
        ensures
            r == self.state().staged,
    {
        self.staged
    }

    fn abort(&mut self) -> (r: Action)
        requires
            old(self).wf(),
        ensures
            final(self).wf(),
            final(self).state() == (CycleState { phase: Phase::Aborted, ..old(self).state() }),
            r@ == ActionView::Aborted,
    {
        self.phase = Phase::Aborted;
        Action::Aborted
    }

    fn advance(&mut self) -> (r: Action)
        requires
            old(self).wf(),
        ensures
            final(self).wf(),
            (final(self).state(), r@) == advance_spec(old(self).state()),
    {
        if self.index < self.tasks.len() {
            match &self.tasks[self.index] {
                Task::Alias(a) => {
                    let a = a.clone();
                    self.phase = Phase::Resolving;
                    Action::Resolve(a)
                },
                Task::Service(v) => {
                    let v = v.clone();
                    self.phase = Phase::Adding;
                    Action::AddService(v)
                },
            }
        } else if self.staged > 0 {
            self.phase = Phase::Committing;
            Action::Commit
        } else {
            self.phase = Phase::Finished;
            Action::Finished
        }
    }

    /// Takes the outcome of the last action and hands out the next one.
    pub fn step(&mut self, event: Event) -> (r: Action)
        requires
            old(self).wf(),
        ensures
            final(self).wf(),
            (final(self).state(), r@) == step_spec(old(self).state(), event@),
    {
        let n = self.tasks.len();
        proof {
            assert(self.state().tasks.len() == n);
        }
        match self.phase {
            Phase::Idle => match event {
                Event::Start => {
                    self.phase = Phase::Resetting;
                    Action::Reset
                },
                _ => self.abort(),
            },
            Phase::Resetting => match event {
                Event::Done => self.advance(),
                _ => self.abort(),
            },
            Phase::Resolving => match event {
                Event::Resolved(owner) => {
                    let alias = match &self.tasks[self.index] {
                        Task::Alias(a) => a.clone(),
                        Task::Service(_) => {
                            return self.abort();
                        },
                    };
                    match owner {
                        None => {
                            self.phase = Phase::Adding;
                            let target = self.host.clone();
                            let ttl = Ttl::from_secs(ALIAS_TTL_SECS);
                            Action::AddRecord(Record::new(alias, ttl, target))
                        },
                        Some(o) => {
                            self.index = self.index + 1;
                            self.phase = Phase::Reporting;
                            if o == self.host_text {
                                Action::AlreadyPublished(alias)
                            } else {
                                Action::Conflict(alias, o)
                            }
                        },
                    }
                },
                _ => self.abort(),
            },
            Phase::Adding => match event {
                Event::Done => {
                    // the added task is behind us; `advance` picks the phase
                    self.phase = Phase::Reporting;
                    self.index = self.index + 1;
                    self.staged = self.staged + 1;
                    self.advance()
                },
                _ => self.abort(),
            },
            Phase::Reporting => match event {
                Event::Done => self.advance(),
                _ => self.abort(),
            },
            Phase::Committing => match event {
                Event::Done => {
                    self.phase = Phase::Finished;
                    Action::Finished
                },
                _ => self.abort(),
            },
            Phase::Finished => Action::Finished,
            Phase::Aborted => Action::Aborted,
        }
    }
}

/// Conflict policy. While the owner of an alias is looked up: when the lookup
/// fails or times out, the alias is added as a record pointing at this host;
/// when it names this host, the alias is reported as already published; when
/// it names another host, a conflict with that owner is reported. In the last
/// two cases nothing is added and the cycle moves past the alias.
pub proof fn lemma_conflict_policy(c: Cycle, owner: Option<Seq<char>>)
    requires
        c.wf(),
        c.state().phase == Phase::Resolving,
    ensures
        ({
            let s = c.state();
            let (t, a) = step_spec(s, EventView::Resolved(owner));
            &&& owner is None ==> a == (ActionView::AddRecord {
                name: current_alias(s),
                ttl: Ttl(ALIAS_TTL_SECS),
                target: s.host,
            })
            &&& owner is Some && owner->Some_0 == name_text(s.host) ==> a
                == ActionView::AlreadyPublished(current_alias(s))
            &&& owner is Some && owner->Some_0 != name_text(s.host) ==> a == ActionView::Conflict(
                current_alias(s),
                owner->Some_0,
            )
            &&& owner is Some ==> !(a is AddRecord) && t.staged == s.staged && t.index == s.index
                + 1
        }),
{
}

/// Empty-commit avoidance: a step asks for a commit only when some record or
/// service has been added in the cycle, and the count of added ones grows
/// only when an add is reported done.
pub proof fn lemma_commit_needs_staging(s: CycleState, e: EventView)
    ensures
        step_spec(s, e).1 is Commit ==> step_spec(s, e).0.staged > 0,
        step_spec(s, e).0.staged == s.staged + (if s.phase == Phase::Adding && e is Done {
            1int
        } else {
            0
        }),
{
}

} // verus!
