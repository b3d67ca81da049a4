//! The set-up that has to be made once in a process before secret memory
//! is used.
//!
//! Two things are asked of the system: that the process leave no core dump,
//! which would hold every secret, and that the library which manages the
//! memory prepare itself. [`Setup`] records what came of them the first
//! time and answers every later question from that record.

use vstd::prelude::*;

verus! {

/// What is known of the set-up of this process.
#[derive(Clone, Copy, Debug, PartialEq, Eq, Structural)]
pub enum Setup {
    /// Nothing was tried yet.
    Pending,
    /// The set-up was made, and this is whether it succeeded.
    Done(bool),
}

/// The result with which a call of the system reports failure.
pub const FAILED: i32 = -1;

impl Setup {
    /// Whether a set-up succeeded in which switching off core dumps gave
    /// `limit`, or was not asked for, and preparing the library gave
    /// `init`. Only [`FAILED`] is a failure: a library that says it was
    /// prepared before is as good as one that was prepared now.
    pub open spec fn outcome(limit: Option<i32>, init: i32) -> bool {
        limit != Some(FAILED) && init != FAILED
    }

    /// The record after the results `limit` and `init` were reported: they
    /// are taken down if nothing was recorded before, and ignored
    /// otherwise.
    pub open spec fn completed(self, limit: Option<i32>, init: i32) -> Setup {
        match self {
            Setup::Pending => Setup::Done(Self::outcome(limit, init)),
            Setup::Done(ok) => Setup::Done(ok),
        }
    }

    /// The record of a process in which nothing was tried yet.
    pub fn new() -> (setup: Setup)
        ensures
            setup == Setup::Pending,
    {
        Setup::Pending
    }

    /// Returns true if the set-up has still to be made: the caller then
    /// makes the two calls and reports their results with
    /// [`complete`](Setup::complete).
    pub fn is_pending(&self) -> (pending: bool)
        ensures
            pending == (*self == Setup::Pending),
    {
        match self {
            Setup::Pending => true,
            Setup::Done(_) => false,
        }
    }

    /// Returns true if the set-up was made and succeeded. Secret memory
    /// must not be used before it did.
    pub fn initialized(&self) -> (ready: bool)
        ensures
            ready == (*self == Setup::Done(true)),
    {
        match self {
            Setup::Pending => false,
            Setup::Done(ok) => *ok,
        }
    }

    /// Records the results of the two calls: `limit` of switching off core
    /// dumps, `None` where that was not asked for, and `init` of preparing
    /// the library. The first report is taken down and every later one is
    /// ignored, so that the answer never changes. Returns true if the
    /// set-up succeeded.
    pub fn complete(&mut self, limit: Option<i32>, init: i32) -> (ready: bool)
        ensures
            *final(self) == old(self).completed(limit, init),
            ready == (*final(self) == Setup::Done(true)),
    {
        match self {
            Setup::Pending => {
                let mut failure: bool = false;
                match limit {
                    Some(result) => {
                        failure = failure || result == FAILED;
                    },
                    None => {},
                }
                failure = failure || init == FAILED;
                *self = Setup::Done(!failure);
            },
            Setup::Done(_) => {},
        }
        self.initialized()
    }
}

/// The set-up is made once: after the first report the record is final,
/// whatever is reported later.
pub proof fn lemma_setup_is_made_once(
    setup: Setup,
    limit: Option<i32>,
    init: i32,
    later_limit: Option<i32>,
    later_init: i32,
)
    ensures
        setup.completed(limit, init) != Setup::Pending,
        setup.completed(limit, init).completed(later_limit, later_init) == setup.completed(
            limit,
            init,
        ),
{
}

} // verus!
