//! The lifecycle of one run, as a state machine. The machine owns every
//! decision — which step comes next, and what each step's outcome means —
//! while the application performs the steps themselves (filesystem and
//! terminal work) and reports each outcome back as an event.
//!
//! The `init` intent runs on a branch of its own: it sets up the
//! configuration file and an empty database, takes no lock and dispatches no
//! command, so the impossibility of dispatching `init` is structural. Every
//! other intent opens the configuration and the database, acquires the lock,
//! dispatches once, flushes the database and releases the lock — and the
//! flush and the release happen even when the dispatched command fails,
//! so no exit path leaves the lock behind or the flush skipped.

use vstd::prelude::*;

use crate::errors::Error;

verus! {

/// The validated user intent, one per subcommand.
#[derive(Clone, Copy, Debug, PartialEq, Eq, Structural)]
pub enum Intent {
    /// Set up a configuration file and an empty database.
    Init,
    /// Add a record interactively.
    New,
    /// Display one record by name, or all records.
    Query,
    /// Remove a record interactively.
    Remove,
    /// Serve the database over the network until stopped.
    Serve,
}

/// One unit of outside work the application must perform next.
#[derive(Clone, Copy, Debug, PartialEq, Eq, Structural)]
pub enum Action {
    /// Resolve the platform directories and create them if either is absent.
    ResolveLocations,
    /// Prompt for configuration values and write the configuration file.
    InitConfig,
    /// Create the database file exclusively and write an empty image.
    InitDatabase,
    /// Read and decode the configuration file.
    OpenConfig,
    /// Read and decode the database file named by the configuration.
    OpenDatabase,
    /// Create the lock file with exclusive-create semantics.
    AcquireLock,
    /// Dispatch the one command of this run onto the open database.
    RunCommand,
    /// Overwrite the database file with the current in-memory image.
    SyncDatabase,
    /// Remove the lock file.
    ReleaseLock,
}

/// The outcome of the action the application just performed.
#[derive(Clone, Copy, Debug, PartialEq, Eq, Structural)]
pub enum Event {
    Succeeded,
    Failed(Error),
}

/// How a finished run ended.
#[derive(Clone, Copy, Debug, PartialEq, Eq, Structural)]
pub enum Completion {
    /// Every step succeeded.
    Success,
    /// Another instance holds the lock; a human must act, not a debugger.
    AlreadyRunning,
    /// The lock file was gone at release: outside interference or a logic
    /// fault, surfaced with a non-zero exit.
    LockVanished,
    /// A step failed; the originating error is carried to the top.
    Failed(Error),
}

/// Where the run stands. `Commanded` and `Synced` carry the first failure
/// seen since the lock was taken, so that the flush and the release still
/// run before the failure surfaces.
#[derive(Clone, Copy, Debug)]
pub enum Phase {
    /// Nothing has happened yet.
    Start,
    /// Both platform directories exist.
    Located,
    /// Init branch: the configuration file is written.
    ConfigInitialized,
    /// Normal branch: the configuration is loaded.
    ConfigOpened,
    /// Normal branch: the database is loaded.
    DatabaseOpened,
    /// The lock file exists and belongs to this run.
    LockHeld,
    /// The command was dispatched; its failure, if any, is carried.
    Commanded { failure: Option<Error> },
    /// The database image was flushed; the first failure is carried.
    Synced { failure: Option<Error> },
    /// The run is over.
    Finished(Completion),
}

/// The action owed in each phase. `None` only once the run is finished.
pub open spec fn spec_pending(p: Phase, intent: Intent) -> Option<Action> {
    match p {
        Phase::Start => Some(Action::ResolveLocations),
        Phase::Located => if intent is Init {
            Some(Action::InitConfig)
        } else {
            Some(Action::OpenConfig)
        },
        Phase::ConfigInitialized => Some(Action::InitDatabase),
        Phase::ConfigOpened => Some(Action::OpenDatabase),
        Phase::DatabaseOpened => Some(Action::AcquireLock),
        Phase::LockHeld => Some(Action::RunCommand),
        Phase::Commanded { .. } => Some(Action::SyncDatabase),
        Phase::Synced { .. } => Some(Action::ReleaseLock),
        Phase::Finished(_) => None,
    }
}

/// The transition table: where each phase moves on each outcome of its
/// pending action.
pub open spec fn spec_advance(p: Phase, intent: Intent, ev: Event) -> Phase {
    match p {
        Phase::Start => match ev {
            Event::Succeeded => Phase::Located,
            Event::Failed(e) => Phase::Finished(Completion::Failed(e)),
        },
        Phase::Located => match ev {
            Event::Succeeded => if intent is Init {
                Phase::ConfigInitialized
            } else {
                Phase::ConfigOpened
            },
            Event::Failed(e) => Phase::Finished(Completion::Failed(e)),
        },
        Phase::ConfigInitialized => match ev {
            Event::Succeeded => Phase::Finished(Completion::Success),
            Event::Failed(e) => Phase::Finished(Completion::Failed(e)),
        },
        Phase::ConfigOpened => match ev {
            Event::Succeeded => Phase::DatabaseOpened,
            Event::Failed(e) => Phase::Finished(Completion::Failed(e)),
        },
        Phase::DatabaseOpened => match ev {
            Event::Succeeded => Phase::LockHeld,
            Event::Failed(e) => if e is AlreadyRunning {
                Phase::Finished(Completion::AlreadyRunning)
            } else {
                Phase::Finished(Completion::Failed(e))
            },
        },
        Phase::LockHeld => match ev {
            Event::Succeeded => Phase::Commanded { failure: None },
            Event::Failed(e) => Phase::Commanded { failure: Some(e) },
        },
        Phase::Commanded { failure } => match ev {
            Event::Succeeded => Phase::Synced { failure },
            Event::Failed(e) => Phase::Synced {
                failure: if failure is Some {
                    failure
                } else {
                    Some(e)
                },
            },
        },
        Phase::Synced { failure } => match ev {
            Event::Succeeded => match failure {
                None => Phase::Finished(Completion::Success),
                Some(e) => Phase::Finished(Completion::Failed(e)),
            },
            Event::Failed(e) => if e is LockVanished {
                Phase::Finished(Completion::LockVanished)
            } else {
                Phase::Finished(
                    Completion::Failed(
                        match failure {
                            Some(first) => first,
                            None => e,
                        },
                    ),
                )
            },
        },
        Phase::Finished(c) => Phase::Finished(c),
    }
}

/// The exit status a completion calls for: zero on success, one otherwise.
pub open spec fn spec_exit_code(c: Completion) -> u8 {
    match c {
        Completion::Success => 0,
        _ => 1,
    }
}

/// The phase a run begins in.
pub fn start() -> (p: Phase)
    ensures
        p is Start,
{
    Phase::Start
}

/// The action the application owes next, `None` once the run is finished.
pub fn pending_action(p: &Phase, intent: &Intent) -> (a: Option<Action>)
    ensures
        a == spec_pending(*p, *intent),
{
    match p {
        Phase::Start => Some(Action::ResolveLocations),
        Phase::Located => match intent {
            Intent::Init => Some(Action::InitConfig),
            _ => Some(Action::OpenConfig),
        },
        Phase::ConfigInitialized => Some(Action::InitDatabase),
        Phase::ConfigOpened => Some(Action::OpenDatabase),
        Phase::DatabaseOpened => Some(Action::AcquireLock),
        Phase::LockHeld => Some(Action::RunCommand),
        Phase::Commanded { .. } => Some(Action::SyncDatabase),
        Phase::Synced { .. } => Some(Action::ReleaseLock),
        Phase::Finished(_) => None,
    }
}

/// Moves the run one step: the application performed the pending action and
/// reports how it went.
pub fn advance(p: Phase, intent: &Intent, ev: Event) -> (q: Phase)
    ensures
        q == spec_advance(p, *intent, ev),
{
    match p {
        Phase::Start => match ev {
            Event::Succeeded => Phase::Located,
            Event::Failed(e) => Phase::Finished(Completion::Failed(e)),
        },
        Phase::Located => match ev {
            Event::Succeeded => match intent {
                Intent::Init => Phase::ConfigInitialized,
                _ => Phase::ConfigOpened,
            },
            Event::Failed(e) => Phase::Finished(Completion::Failed(e)),
        },
        Phase::ConfigInitialized => match ev {
            Event::Succeeded => Phase::Finished(Completion::Success),
            Event::Failed(e) => Phase::Finished(Completion::Failed(e)),
        },
        Phase::ConfigOpened => match ev {
            Event::Succeeded => Phase::DatabaseOpened,
            Event::Failed(e) => Phase::Finished(Completion::Failed(e)),
        },
        Phase::DatabaseOpened => match ev {
            Event::Succeeded => Phase::LockHeld,
            Event::Failed(e) => match e {
                Error::AlreadyRunning => Phase::Finished(Completion::AlreadyRunning),
                _ => Phase::Finished(Completion::Failed(e)),
            },
        },
        Phase::LockHeld => match ev {
            Event::Succeeded => Phase::Commanded { failure: None },
            Event::Failed(e) => Phase::Commanded { failure: Some(e) },
        },
        Phase::Commanded { failure } => match ev {
            Event::Succeeded => Phase::Synced { failure },
            Event::Failed(e) => match failure {
                Some(first) => Phase::Synced { failure: Some(first) },
                None => Phase::Synced { failure: Some(e) },
            },
        },
        Phase::Synced { failure } => match ev {
            Event::Succeeded => match failure {
                None => Phase::Finished(Completion::Success),
                Some(e) => Phase::Finished(Completion::Failed(e)),
            },
            Event::Failed(e) => match e {
                Error::LockVanished => Phase::Finished(Completion::LockVanished),
                _ => match failure {
                    Some(first) => Phase::Finished(Completion::Failed(first)),
                    None => Phase::Finished(Completion::Failed(e)),
                },
            },
        },
        Phase::Finished(c) => Phase::Finished(c),
    }
}

/// The exit status of a finished run: zero on success, one otherwise. An
/// already-running instance and a vanished lock are user-facing terminal
/// conditions; both exit non-zero.
pub fn exit_code(c: &Completion) -> (r: u8)
    ensures
        r == spec_exit_code(*c),
{
    match c {
        Completion::Success => 0,
        _ => 1,
    }
}

/// The phases a run with the `init` intent can be in.
pub open spec fn init_branch(p: Phase) -> bool {
    ||| p is Start
    ||| p is Located
    ||| p is ConfigInitialized
    ||| p is Finished
}

/// True while the run holds the lock.
pub open spec fn holds_lock(p: Phase) -> bool {
    ||| p is LockHeld
    ||| p is Commanded
    ||| p is Synced
}

/// Law: the `init` branch is closed under the transition table and never
/// owes a lock action or a dispatch — `init` is lock-free, and dispatching
/// `init` as a command is structurally impossible.
pub proof fn lemma_init_takes_no_lock(p: Phase, ev: Event)
    requires
        init_branch(p),
    ensures
        init_branch(spec_advance(p, Intent::Init, ev)),
        spec_pending(p, Intent::Init) != Some(Action::AcquireLock),
        spec_pending(p, Intent::Init) != Some(Action::ReleaseLock),
        spec_pending(p, Intent::Init) != Some(Action::RunCommand),
        spec_pending(p, Intent::Init) != Some(Action::SyncDatabase),
{
}

/// Law: while the lock is held, the only transition that stops holding it is
/// the one whose pending action is the release itself. No failure path drops
/// the lock without performing `ReleaseLock`.
pub proof fn lemma_release_is_the_only_exit(p: Phase, intent: Intent, ev: Event)
    requires
        holds_lock(p),
    ensures
        holds_lock(spec_advance(p, intent, ev)) || spec_pending(p, intent) == Some(
            Action::ReleaseLock,
        ),
{
}

/// Law: the release is owed only once the flush has been attempted, and the
/// flush is owed as soon as the command was dispatched — whether or not the
/// dispatch succeeded. A failing command therefore still gets its flush and
/// its release before the run finishes.
pub proof fn lemma_sync_precedes_release(p: Phase, intent: Intent, ev: Event)
    ensures
        spec_pending(p, intent) == Some(Action::ReleaseLock) ==> p is Synced,
        (spec_advance(p, intent, ev) is Synced) ==> spec_pending(p, intent) == Some(
            Action::SyncDatabase,
        ),
        (spec_advance(p, intent, ev) is Commanded) ==> spec_pending(p, intent) == Some(
            Action::RunCommand,
        ),
{
}

/// Law: a failing dispatch is carried, not dropped: the run still owes the
/// flush next, and the carried failure is the one that surfaces when the run
/// finishes without further failures.
pub proof fn lemma_command_failure_still_syncs(intent: Intent, e: Error)
    ensures
        spec_advance(Phase::LockHeld, intent, Event::Failed(e)) == (Phase::Commanded {
            failure: Some(e),
        }),
        spec_pending(Phase::Commanded { failure: Some(e) }, intent) == Some(Action::SyncDatabase),
        spec_advance(
            spec_advance(
                spec_advance(Phase::LockHeld, intent, Event::Failed(e)),
                intent,
                Event::Succeeded,
            ),
            intent,
            Event::Succeeded,
        ) == Phase::Finished(Completion::Failed(e)),
{
}

/// Law: a second instance is turned away before anything is dispatched: when
/// acquisition fails because the lock exists, the run finishes at once as
/// `AlreadyRunning` with exit status one, owing no further action.
pub proof fn lemma_already_running_is_terminal(intent: Intent)
    ensures
        spec_advance(Phase::DatabaseOpened, intent, Event::Failed(Error::AlreadyRunning))
            == Phase::Finished(Completion::AlreadyRunning),
        spec_exit_code(Completion::AlreadyRunning) == 1,
        spec_pending(Phase::Finished(Completion::AlreadyRunning), intent) is None,
{
}

/// The phase a run is in after the application has performed the first
/// `events.len()` actions and reported these outcomes, in order.
pub open spec fn spec_run(intent: Intent, events: Seq<Event>) -> Phase
    decreases events.len(),
{
    if events.len() == 0 {
        Phase::Start
    } else {
        spec_advance(spec_run(intent, events.drop_last()), intent, events.last())
    }
}

/// Law: over a whole run, the lock is never dropped without performing
/// `ReleaseLock`: between any point where the run holds the lock and any
/// later point where it does not, some step's pending action was the
/// release. This holds of every outcome sequence — success, a failing
/// command, a failing flush — so no exit path leaves the lock behind.
pub proof fn lemma_no_exit_without_release(intent: Intent, events: Seq<Event>, i: int, k: int)
    requires
        0 <= i <= k <= events.len(),
        holds_lock(spec_run(intent, events.take(i))),
        !holds_lock(spec_run(intent, events.take(k))),
    ensures
        exists|j: int|
            i <= j < k && spec_pending(spec_run(intent, events.take(j)), intent) == Some(
                Action::ReleaseLock,
            ),
    decreases k - i,
{
    let prev = spec_run(intent, events.take(k - 1));
    assert(events.take(k).drop_last() =~= events.take(k - 1));
    assert(events.take(k).last() == events[k - 1]);
    assert(spec_run(intent, events.take(k)) == spec_advance(prev, intent, events[k - 1]));
    if holds_lock(prev) {
        lemma_release_is_the_only_exit(prev, intent, events[k - 1]);
        assert(spec_pending(spec_run(intent, events.take(k - 1)), intent) == Some(
            Action::ReleaseLock,
        ));
    } else {
        lemma_no_exit_without_release(intent, events, i, k - 1);
    }
}

/// Law: a run with the `init` intent stays on the init branch from start to
/// finish, whatever the outcomes, and at no step owes a lock action or a
/// dispatch: `init` creates no lock file and leaves none behind.
pub proof fn lemma_init_run_never_locks(events: Seq<Event>, i: int)
    requires
        0 <= i <= events.len(),
    ensures
        init_branch(spec_run(Intent::Init, events.take(i))),
        spec_pending(spec_run(Intent::Init, events.take(i)), Intent::Init) != Some(
            Action::AcquireLock,
        ),
        spec_pending(spec_run(Intent::Init, events.take(i)), Intent::Init) != Some(
            Action::ReleaseLock,
        ),
    decreases i,
{
    if i == 0 {
        assert(events.take(0) =~= Seq::<Event>::empty());
    } else {
        lemma_init_run_never_locks(events, i - 1);
        assert(events.take(i).drop_last() =~= events.take(i - 1));
        assert(events.take(i).last() == events[i - 1]);
        lemma_init_takes_no_lock(spec_run(Intent::Init, events.take(i - 1)), events[i - 1]);
    }
}

/// Law: the only way into a lock-holding phase is a successful acquisition:
/// the lock is held exactly between `AcquireLock` succeeding and
/// `ReleaseLock` being owed.
pub proof fn lemma_lock_entered_only_by_acquire(p: Phase, intent: Intent, ev: Event)
    ensures
        (!holds_lock(p) && holds_lock(spec_advance(p, intent, ev))) ==> (spec_pending(p, intent)
            == Some(Action::AcquireLock) && ev == Event::Succeeded),
{
}

} // verus!
