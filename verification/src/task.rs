//! One task of an install run, as a machine: it is told what happened and
//! answers with what is to be done next.

use crate::installer::{install_path, install_path_of, installed_manifest_path};
use crate::manager::{
    after_claim, after_settle, children_of, lock_key_of, of_lock_entry, InstallOutcome, Manager,
    ManagerView, ResolvedPackage, ResolvedView, TaskPlan,
};
use crate::name_map::text_pairs;
use crate::registry::lookup_target;
use crate::text::pair_texts;
use crate::types::{clone_bin, opt_bin, BinField, BinView};
use crate::version::lock_serves;
use vstd::prelude::*;
use vstd::string::*;

verus! {

/// How far a task has come.
pub enum TaskState {
    /// Nothing has happened yet.
    Start,
    /// The registry has been asked for the package's record.
    Resolving,
    /// The name is claimed and the package is being placed.
    Placing(ResolvedPackage),
    /// The task is over.
    Finished,
}

/// The task that installs the package declared as `name` with `range`
/// under `target_dir`.
pub struct Task {
    pub name: String,
    pub range: String,
    pub target_dir: String,
    pub state: TaskState,
}

/// What a task is told.
pub enum TaskEvent {
    /// The task may begin.
    Begin,
    /// The registry has answered: with the version that the range selects,
    /// or not at all.
    Resolved(Option<ResolvedPackage>),
    /// The package stands under `node_modules`, stood there already, or
    /// could not be placed.
    Placed(InstallOutcome),
}

/// What a task asks for.
pub enum TaskAction {
    /// Ask the registry which version of `name` the range selects, and tell
    /// the task.
    Fetch { name: String, range: String },
    /// Place the package at `install_path` from the store, unless the
    /// manifest at `manifest_path` shows that one stands there, and tell
    /// the task.
    Place {
        name: String,
        version: String,
        tarball: String,
        install_path: String,
        manifest_path: String,
    },
    /// The package stands and is recorded: link its commands, run the tasks
    /// of `children` together, then those of `optional` one after the
    /// other, each where its platform admits it.
    Continue {
        bin: Option<BinField>,
        children: Vec<(String, String)>,
        optional: Vec<(String, String)>,
    },
    /// There is nothing more to do; `failed` tells whether the package
    /// could not be installed.
    Stop { failed: bool },
}

/// How far a task has come, as texts.
pub enum TaskStateView {
    Start,
    Resolving,
    Placing(ResolvedView),
    Finished,
}

/// A task, as texts.
pub struct TaskView {
    pub name: Seq<char>,
    pub range: Seq<char>,
    pub target_dir: Seq<char>,
    pub state: TaskStateView,
}

/// What a task is told, as texts.
pub enum TaskEventView {
    Begin,
    Resolved(Option<ResolvedView>),
    Placed(InstallOutcome),
}

/// What a task asks for, as texts.
pub enum TaskActionView {
    Fetch { name: Seq<char>, range: Seq<char> },
    Place {
        name: Seq<char>,
        version: Seq<char>,
        tarball: Seq<char>,
        install_path: Seq<char>,
        manifest_path: Seq<char>,
    },
    Continue {
        bin: Option<BinView>,
        children: Seq<(Seq<char>, Seq<char>)>,
        optional: Seq<(Seq<char>, Seq<char>)>,
    },
    Stop { failed: bool },
}

impl View for TaskState {
    type V = TaskStateView;

    open spec fn view(&self) -> TaskStateView {
        match self {
            TaskState::Start => TaskStateView::Start,
            TaskState::Resolving => TaskStateView::Resolving,
            TaskState::Placing(p) => TaskStateView::Placing(p@),
            TaskState::Finished => TaskStateView::Finished,
        }
    }
}

impl View for Task {
    type V = TaskView;

    open spec fn view(&self) -> TaskView {
        TaskView {
            name: self.name@,
            range: self.range@,
            target_dir: self.target_dir@,
            state: self.state@,
        }
    }
}

impl View for TaskEvent {
    type V = TaskEventView;

    open spec fn view(&self) -> TaskEventView {
        match self {
            TaskEvent::Begin => TaskEventView::Begin,
            TaskEvent::Resolved(Some(p)) => TaskEventView::Resolved(Some(p@)),
            TaskEvent::Resolved(None) => TaskEventView::Resolved(None),
            TaskEvent::Placed(outcome) => TaskEventView::Placed(*outcome),
        }
    }
}

impl View for TaskAction {
    type V = TaskActionView;

    open spec fn view(&self) -> TaskActionView {
        match self {
            TaskAction::Fetch { name, range } => TaskActionView::Fetch {
                name: name@,
                range: range@,
            },
            TaskAction::Place { name, version, tarball, install_path, manifest_path } => TaskActionView::Place {
                name: name@,
                version: version@,
                tarball: tarball@,
                install_path: install_path@,
                manifest_path: manifest_path@,
            },
            TaskAction::Continue { bin, children, optional } => TaskActionView::Continue {
                bin: opt_bin(*bin),
                children: pair_texts(children@),
                optional: pair_texts(optional@),
            },
            TaskAction::Stop { failed } => TaskActionView::Stop { failed: *failed },
        }
    }
}

/// The task, over.
pub open spec fn finished(t: TaskView) -> TaskView {
    TaskView { state: TaskStateView::Finished, ..t }
}

/// What happens once a task knows its package: it claims its name, and
/// where it wins the claim it asks for the package to be placed.
pub open spec fn claim_step(t: TaskView, s: ManagerView, p: ResolvedView) -> (
    TaskView,
    ManagerView,
    TaskActionView,
) {
    let claimed = after_claim(s, t.name, p.version);
    if s.claims.contains_key(t.name) {
        (finished(t), claimed, TaskActionView::Stop { failed: false })
    } else {
        (
            TaskView { state: TaskStateView::Placing(p), ..t },
            claimed,
            TaskActionView::Place {
                name: t.name,
                version: p.version,
                tarball: p.tarball,
                install_path: install_path_of(t.target_dir, t.name),
                manifest_path: install_path_of(t.target_dir, t.name) + "/package.json"@,
            },
        )
    }
}

/// One step of a task: the task and the state of the run afterwards, and
/// what the task asks for.
///
/// A task that begins stops at once where its name is claimed; it takes
/// its package from the lockfile where the locked version serves its
/// range; else it asks the registry. With its package known it claims its
/// name and has the package placed. Once the package stands it is recorded
/// and the packages that follow from it are handed out. A task that is told
/// something out of turn stops as failed.
pub open spec fn task_step(t: TaskView, s: ManagerView, e: TaskEventView) -> (
    TaskView,
    ManagerView,
    TaskActionView,
) {
    match (t.state, e) {
        (TaskStateView::Start, TaskEventView::Begin) => {
            let key = lock_key_of(t.name);
            if s.claims.contains_key(t.name) {
                (finished(t), s, TaskActionView::Stop { failed: false })
            } else if s.lock.contains_key(key) && lock_serves(s.lock[key].version, t.range) {
                claim_step(t, s, of_lock_entry(s.lock[key]))
            } else {
                (
                    TaskView { state: TaskStateView::Resolving, ..t },
                    s,
                    TaskActionView::Fetch {
                        name: lookup_target(t.name, t.range).0,
                        range: lookup_target(t.name, t.range).1,
                    },
                )
            }
        },
        (TaskStateView::Resolving, TaskEventView::Resolved(Some(p))) => claim_step(t, s, p),
        (TaskStateView::Resolving, TaskEventView::Resolved(None)) => (
            finished(t),
            s,
            TaskActionView::Stop { failed: true },
        ),
        (TaskStateView::Placing(p), TaskEventView::Placed(outcome)) => {
            let settled = after_settle(
                s,
                t.name,
                p,
                install_path_of(t.target_dir, t.name),
                outcome,
            );
            if outcome == InstallOutcome::Failed {
                (finished(t), settled, TaskActionView::Stop { failed: true })
            } else {
                (
                    finished(t),
                    settled,
                    TaskActionView::Continue {
                        bin: p.bin,
                        children: children_of(settled, p),
                        optional: p.optional_dependencies,
                    },
                )
            }
        },
        _ => (finished(t), s, TaskActionView::Stop { failed: true }),
    }
}

/// A package is placed only by the task that won the claim of its name,
/// at the one directory of that name, in the version that was claimed.
pub proof fn lemma_placed_by_the_claimant(t: TaskView, s: ManagerView, e: TaskEventView)
    requires
        task_step(t, s, e).2 is Place,
    ensures
        !s.claims.contains_key(t.name),
        task_step(t, s, e).1.claims.contains_key(t.name),
        task_step(t, s, e).1.claims[t.name] == task_step(t, s, e).2->Place_version,
        task_step(t, s, e).2->Place_install_path == install_path_of(t.target_dir, t.name),
{
}

/// A task whose name is claimed does nothing: no request, no placing, and
/// the lockfile and the claims stay as they are.
pub proof fn lemma_claimed_name_is_left_alone(t: TaskView, s: ManagerView)
    requires
        t.state is Start,
        s.claims.contains_key(t.name),
    ensures
        task_step(t, s, TaskEventView::Begin) == (
            finished(t),
            s,
            TaskActionView::Stop { failed: false },
        ),
{
}

/// A claim lasts for the whole run: no step of any task takes a name out
/// of the claims or gives it another version.
pub proof fn lemma_claims_last(t: TaskView, s: ManagerView, e: TaskEventView, name: Seq<char>)
    requires
        s.claims.contains_key(name),
    ensures
        task_step(t, s, e).1.claims.contains_key(name),
        task_step(t, s, e).1.claims[name] == s.claims[name],
{
}

/// A task writes no lock entry but its own.
pub proof fn lemma_task_records_its_own_package(
    t: TaskView,
    s: ManagerView,
    e: TaskEventView,
    key: Seq<char>,
)
    requires
        key != lock_key_of(t.name),
    ensures
        task_step(t, s, e).1.lock.contains_key(key) == s.lock.contains_key(key),
        s.lock.contains_key(key) ==> task_step(t, s, e).1.lock[key] == s.lock[key],
{
}

/// A task that the lockfile serves does not ask the registry.
pub proof fn lemma_locked_task_asks_nothing(t: TaskView, s: ManagerView)
    requires
        t.state is Start,
        s.lock.contains_key(lock_key_of(t.name)),
        lock_serves(s.lock[lock_key_of(t.name)].version, t.range),
    ensures
        !(task_step(t, s, TaskEventView::Begin).2 is Fetch),
{
}

/// A package that could not be placed is not recorded in the lockfile.
pub proof fn lemma_failed_package_is_not_locked(t: TaskView, s: ManagerView, p: ResolvedView)
    requires
        t.state == TaskStateView::Placing(p),
    ensures
        task_step(t, s, TaskEventView::Placed(InstallOutcome::Failed)).1 == s,
        task_step(t, s, TaskEventView::Placed(InstallOutcome::Failed)).2
            == (TaskActionView::Stop { failed: true }),
{
}

impl Task {
    /// The task that installs `name` with `range` under `target_dir`.
    pub fn new(name: &str, range: &str, target_dir: &str) -> (t: Self)
        ensures
            t@ == (TaskView {
                name: name@,
                range: range@,
                target_dir: target_dir@,
                state: TaskStateView::Start,
            }),
    {
        Task {
            name: name.to_owned(),
            range: range.to_owned(),
            target_dir: target_dir.to_owned(),
            state: TaskState::Start,
        }
    }

    fn claim_and_place(&mut self, m: &mut Manager, package: ResolvedPackage) -> (action: TaskAction)
        ensures
            (final(self)@, final(m)@, action@) == claim_step(old(self)@, old(m)@, package@),
    {
        let won = m.claim(self.name.as_str(), package.version.as_str());
        if !won {
            self.state = TaskState::Finished;
            TaskAction::Stop { failed: false }
        } else {
            let action = TaskAction::Place {
                name: self.name.clone(),
                version: package.version.clone(),
                tarball: package.tarball.clone(),
                install_path: install_path(self.target_dir.as_str(), self.name.as_str()),
                manifest_path: installed_manifest_path(
                    self.target_dir.as_str(),
                    self.name.as_str(),
                ),
            };
            self.state = TaskState::Placing(package);
            action
        }
    }

    /// Tells the task what happened and asks it what to do next.
    pub fn advance(&mut self, m: &mut Manager, event: TaskEvent) -> (action: TaskAction)
        ensures
            (final(self)@, final(m)@, action@) == task_step(old(self)@, old(m)@, event@),
    {
        let mut state = TaskState::Finished;
        core::mem::swap(&mut self.state, &mut state);
        match (state, event) {
            (TaskState::Start, TaskEvent::Begin) => {
                match m.plan(self.name.as_str(), self.range.as_str()) {
                    TaskPlan::AlreadyInstalled => TaskAction::Stop { failed: false },
                    TaskPlan::FromLockfile(package) => self.claim_and_place(m, package),
                    TaskPlan::Fetch { name, range } => {
                        self.state = TaskState::Resolving;
                        TaskAction::Fetch { name, range }
                    },
                }
            },
            (TaskState::Resolving, TaskEvent::Resolved(Some(package))) => self.claim_and_place(
                m,
                package,
            ),
            (TaskState::Resolving, TaskEvent::Resolved(None)) => TaskAction::Stop { failed: true },
            (TaskState::Placing(package), TaskEvent::Placed(outcome)) => {
                let place = install_path(self.target_dir.as_str(), self.name.as_str());
                let ok = m.settle(self.name.as_str(), &package, place.as_str(), outcome);
                if !ok {
                    TaskAction::Stop { failed: true }
                } else {
                    let children = m.children(&package);
                    let optional = package.optional_dependencies.pairs();
                    TaskAction::Continue { bin: clone_bin(&package.bin), children, optional }
                }
            },
            _ => TaskAction::Stop { failed: true },
        }
    }
}

} // verus!
