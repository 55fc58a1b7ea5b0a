//! A model of the single-instance lock: a zero-byte file at a fixed path in
//! the shared temporary directory. Its mere existence is the lock state; no
//! content is read or written. The application realises `acquire` with
//! exclusive-create semantics and `release` by removing the file; this module
//! states what those semantics do to the one shared lock, whichever process
//! acts on it.

use vstd::prelude::*;

use crate::errors::Error;

verus! {

/// The state of the machine-wide lock: whether the lock file at the fixed
/// path currently exists. All instances on the machine share this one state,
/// regardless of which database they target.
#[derive(Clone, Copy, Debug, PartialEq, Eq, Structural)]
pub struct LockState {
    pub present: bool,
}

/// What acquiring does to the shared lock: exclusive creation succeeds and
/// sets the file exactly when the file was absent, and changes nothing when
/// it was already there.
pub open spec fn spec_acquire(s: LockState) -> (LockState, Result<(), Error>) {
    if s.present {
        (s, Err(Error::AlreadyRunning))
    } else {
        (LockState { present: true }, Ok(()))
    }
}

/// What releasing does to the shared lock: removal clears the file exactly
/// when it was present; an absent file means the lock vanished between
/// acquisition and release, a condition worth surfacing.
pub open spec fn spec_release(s: LockState) -> (LockState, Result<(), Error>) {
    if s.present {
        (LockState { present: false }, Ok(()))
    } else {
        (s, Err(Error::LockVanished))
    }
}

impl LockState {
    /// The state before any instance has taken the lock.
    pub fn new() -> (s: LockState)
        ensures
            !s.present,
    {
        LockState { present: false }
    }

    /// Takes the lock with exclusive-create semantics. Fails with
    /// `AlreadyRunning`, changing nothing, exactly when another instance
    /// holds it.
    pub fn acquire(&mut self) -> (r: Result<(), Error>)
        ensures
            (*final(self), r) == spec_acquire(*old(self)),
    {
        if self.present {
            Err(Error::AlreadyRunning)
        } else {
            self.present = true;
            Ok(())
        }
    }

    /// Releases the lock by removing the file. Fails with `LockVanished`,
    /// changing nothing, exactly when the file was already gone.
    pub fn release(&mut self) -> (r: Result<(), Error>)
        ensures
            (*final(self), r) == spec_release(*old(self)),
    {
        if self.present {
            self.present = false;
            Ok(())
        } else {
            Err(Error::LockVanished)
        }
    }
}

/// The exclusion law. From a free lock: a first acquisition succeeds; a
/// second acquisition before the first is released fails with
/// `AlreadyRunning` and leaves the holder undisturbed; after a release, a
/// fresh acquisition succeeds again.
pub proof fn lemma_lock_exclusion(s0: LockState)
    requires
        !s0.present,
    ensures
        ({
            let (s1, r1) = spec_acquire(s0);
            let (s2, r2) = spec_acquire(s1);
            let (s3, r3) = spec_release(s2);
            let (s4, r4) = spec_acquire(s3);
            &&& r1 == Ok::<(), Error>(())
            &&& r2 == Err::<(), Error>(Error::AlreadyRunning)
            &&& s2 == s1
            &&& r3 == Ok::<(), Error>(())
            &&& r4 == Ok::<(), Error>(())
        }),
{
}

} // verus!
