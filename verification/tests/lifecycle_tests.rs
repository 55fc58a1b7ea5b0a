use gondolin::errors::Error;
use gondolin::lifecycle::{advance, exit_code, pending_action, start, Action, Completion, Event, Intent, Phase};

/// Drives the machine with the given outcomes and returns the actions it
/// asked for, in order, plus the final phase.
fn drive(intent: Intent, outcomes: &[Event]) -> (Vec<Action>, Phase) {
    let mut phase = start();
    let mut actions = Vec::new();
    let mut next = 0;
    while let Some(action) = pending_action(&phase, &intent) {
        actions.push(action);
        let ev = outcomes[next];
        next += 1;
        phase = advance(phase, &intent, ev);
    }
    (actions, phase)
}

#[test]
fn init_run_creates_config_and_database_and_never_touches_the_lock() {
    let ok = [Event::Succeeded, Event::Succeeded, Event::Succeeded];
    let (actions, phase) = drive(Intent::Init, &ok);
    assert_eq!(
        actions,
        vec![Action::ResolveLocations, Action::InitConfig, Action::InitDatabase]
    );
    assert!(!actions.contains(&Action::AcquireLock));
    assert!(!actions.contains(&Action::ReleaseLock));
    match phase {
        Phase::Finished(c) => {
            assert_eq!(c, Completion::Success);
            assert_eq!(exit_code(&c), 0);
        }
        _ => panic!("run did not finish"),
    }
}

#[test]
fn normal_run_locks_dispatches_syncs_and_releases_in_order() {
    let ok = [Event::Succeeded; 7];
    let (actions, phase) = drive(Intent::New, &ok);
    assert_eq!(
        actions,
        vec![
            Action::ResolveLocations,
            Action::OpenConfig,
            Action::OpenDatabase,
            Action::AcquireLock,
            Action::RunCommand,
            Action::SyncDatabase,
            Action::ReleaseLock,
        ]
    );
    match phase {
        Phase::Finished(c) => assert_eq!(exit_code(&c), 0),
        _ => panic!("run did not finish"),
    }
}

#[test]
fn second_instance_is_turned_away_before_any_dispatch() {
    let outcomes = [
        Event::Succeeded,
        Event::Succeeded,
        Event::Succeeded,
        Event::Failed(Error::AlreadyRunning),
    ];
    let (actions, phase) = drive(Intent::Query, &outcomes);
    assert_eq!(*actions.last().unwrap(), Action::AcquireLock);
    assert!(!actions.contains(&Action::RunCommand));
    assert!(!actions.contains(&Action::SyncDatabase));
    assert!(!actions.contains(&Action::ReleaseLock));
    match phase {
        Phase::Finished(c) => {
            assert_eq!(c, Completion::AlreadyRunning);
            assert_eq!(exit_code(&c), 1);
        }
        _ => panic!("run did not finish"),
    }
}

#[test]
fn failing_command_still_gets_its_sync_and_its_release() {
    let outcomes = [
        Event::Succeeded,
        Event::Succeeded,
        Event::Succeeded,
        Event::Succeeded,
        Event::Failed(Error::RecordNotFound),
        Event::Succeeded,
        Event::Succeeded,
    ];
    let (actions, phase) = drive(Intent::Remove, &outcomes);
    assert!(actions.contains(&Action::SyncDatabase));
    assert!(actions.contains(&Action::ReleaseLock));
    match phase {
        Phase::Finished(c) => {
            assert_eq!(c, Completion::Failed(Error::RecordNotFound));
            assert_eq!(exit_code(&c), 1);
        }
        _ => panic!("run did not finish"),
    }
}

#[test]
fn first_failure_outranks_a_later_sync_failure() {
    let outcomes = [
        Event::Succeeded,
        Event::Succeeded,
        Event::Succeeded,
        Event::Succeeded,
        Event::Failed(Error::DuplicateName),
        Event::Failed(Error::DatabaseSync),
        Event::Succeeded,
    ];
    let (_, phase) = drive(Intent::New, &outcomes);
    match phase {
        Phase::Finished(c) => assert_eq!(c, Completion::Failed(Error::DuplicateName)),
        _ => panic!("run did not finish"),
    }
}

#[test]
fn vanished_lock_at_release_exits_nonzero() {
    let outcomes = [
        Event::Succeeded,
        Event::Succeeded,
        Event::Succeeded,
        Event::Succeeded,
        Event::Succeeded,
        Event::Succeeded,
        Event::Failed(Error::LockVanished),
    ];
    let (_, phase) = drive(Intent::Query, &outcomes);
    match phase {
        Phase::Finished(c) => {
            assert_eq!(c, Completion::LockVanished);
            assert_eq!(exit_code(&c), 1);
        }
        _ => panic!("run did not finish"),
    }
}

#[test]
fn early_failure_aborts_with_its_error() {
    let outcomes = [Event::Failed(Error::DirectoryResolution)];
    let (actions, phase) = drive(Intent::New, &outcomes);
    assert_eq!(actions, vec![Action::ResolveLocations]);
    match phase {
        Phase::Finished(c) => assert_eq!(c, Completion::Failed(Error::DirectoryResolution)),
        _ => panic!("run did not finish"),
    }
}

#[test]
fn corrupt_config_aborts_before_the_lock() {
    let outcomes = [Event::Succeeded, Event::Failed(Error::ConfigCorrupt)];
    let (actions, phase) = drive(Intent::Query, &outcomes);
    assert!(!actions.contains(&Action::AcquireLock));
    match phase {
        Phase::Finished(c) => assert_eq!(c, Completion::Failed(Error::ConfigCorrupt)),
        _ => panic!("run did not finish"),
    }
}

#[test]
fn serving_respects_the_same_lock_discipline() {
    let ok = [Event::Succeeded; 7];
    let (actions, phase) = drive(Intent::Serve, &ok);
    let acquire = actions.iter().position(|a| *a == Action::AcquireLock).unwrap();
    let dispatch = actions.iter().position(|a| *a == Action::RunCommand).unwrap();
    let sync = actions.iter().position(|a| *a == Action::SyncDatabase).unwrap();
    let release = actions.iter().position(|a| *a == Action::ReleaseLock).unwrap();
    assert!(acquire < dispatch && dispatch < sync && sync < release);
    match phase {
        Phase::Finished(c) => assert_eq!(c, Completion::Success),
        _ => panic!("run did not finish"),
    }
}
