//! The protection state machine of a region of secret memory.
//!
//! A region is at rest when nobody may touch it ([`Prot::NoAccess`]) and is
//! opened either for any number of readers or for one writer. [`Access`]
//! keeps the level and the number of outstanding retains, decides whether a
//! retain or a release is legal, and says when the page protection of the
//! region has to change.

use vstd::prelude::*;

verus! {

/// The page protection applied to the memory underlying a region.
#[derive(Clone, Copy, Debug, PartialEq, Eq, Structural)]
pub enum Prot {
    /// Any attempt to read, write, or execute this memory faults.
    NoAccess,
    /// Reads are permitted; writes and execution fault.
    ReadOnly,
    /// Reads and writes are permitted; execution faults.
    ReadWrite,
}

/// A breach of the borrow discipline. Each one is a bug of the caller and is
/// never recovered from: a checking caller stops the program with
/// [`Misuse::message`].
#[derive(Clone, Copy, Debug, PartialEq, Eq, Structural)]
pub enum Misuse {
    /// A locked region was retained at [`Prot::NoAccess`].
    RetainNoAccess,
    /// The counter says that the region is borrowed, the level says that it
    /// is locked: a release came before its retain.
    OutOfOrder,
    /// The region is open for writing and was retained once more.
    AlreadyMutable,
    /// The region is open for reading and was retained at another level.
    MutableWhileShared,
    /// The counter stands at its maximum and cannot count another reader.
    TooManyRetains,
    /// A release without an outstanding retain.
    ReleaseWithoutRetain,
    /// A release of a region whose level is already [`Prot::NoAccess`].
    ReleaseWhileLocked,
    /// A region was given up while retains were outstanding.
    RetainedAtDrop,
    /// A region was given up while its level still allowed access.
    AccessibleAtDrop,
    /// An element of a region without elements was asked for.
    ZeroLength,
    /// A region was read while locked.
    ReadWhileLocked,
    /// A region was written while not open for writing.
    WriteWhileNotMutable,
}

impl Misuse {
    /// The text with which a checking caller stops the program.
    pub fn message(&self) -> (text: &'static str)
        ensures
            text@ == self.spec_message()@,
    {
        match self {
            Misuse::RetainNoAccess => "secrets: must retain readably or writably",
            Misuse::OutOfOrder => "secrets: out-of-order retain/release detected",
            Misuse::AlreadyMutable => "secrets: cannot unlock mutably more than once",
            Misuse::MutableWhileShared => "secrets: cannot unlock mutably while unlocked immutably",
            Misuse::TooManyRetains => "secrets: retained too many times",
            Misuse::ReleaseWithoutRetain => "secrets: releases exceeded retains",
            Misuse::ReleaseWhileLocked => "secrets: releasing memory that's already locked",
            Misuse::RetainedAtDrop => "secrets: retains exceeded releases",
            Misuse::AccessibleAtDrop => "secrets: dropped secret was still accessible",
            Misuse::ZeroLength => "secrets: attempted to dereference a zero-length pointer",
            Misuse::ReadWhileLocked => "secrets: may not call Box::as_ref while locked",
            Misuse::WriteWhileNotMutable => "secrets: may not call Box::as_mut unless mutably unlocked",
        }
    }

    /// The text of each breach.
    pub open spec fn spec_message(&self) -> &'static str {
        match self {
            Misuse::RetainNoAccess => "secrets: must retain readably or writably",
            Misuse::OutOfOrder => "secrets: out-of-order retain/release detected",
            Misuse::AlreadyMutable => "secrets: cannot unlock mutably more than once",
            Misuse::MutableWhileShared => "secrets: cannot unlock mutably while unlocked immutably",
            Misuse::TooManyRetains => "secrets: retained too many times",
            Misuse::ReleaseWithoutRetain => "secrets: releases exceeded retains",
            Misuse::ReleaseWhileLocked => "secrets: releasing memory that's already locked",
            Misuse::RetainedAtDrop => "secrets: retains exceeded releases",
            Misuse::AccessibleAtDrop => "secrets: dropped secret was still accessible",
            Misuse::ZeroLength => "secrets: attempted to dereference a zero-length pointer",
            Misuse::ReadWhileLocked => "secrets: may not call Box::as_ref while locked",
            Misuse::WriteWhileNotMutable => "secrets: may not call Box::as_mut unless mutably unlocked",
        }
    }
}

/// The largest number of retains that can be outstanding at one time.
pub const MAX_REFS: u8 = 255;

/// The access state of one region: its protection level and the number of
/// outstanding retains. A writer is counted like a reader, so that an
/// unbalanced release of either is noticed.
#[derive(Clone, Copy, Debug, PartialEq, Eq, Structural)]
pub struct Access {
    /// The protection level that is in force.
    pub prot: Prot,
    /// The number of outstanding retains.
    pub refs: u8,
}

impl Access {
    /// The states that a region can be in as long as every retain and every
    /// release was legal: it is locked exactly when nothing is outstanding,
    /// and a writer is alone.
    pub open spec fn wf(self) -> bool {
        &&& self.refs == 0 <==> self.prot == Prot::NoAccess
        &&& self.prot == Prot::ReadWrite ==> self.refs == 1
    }

    /// The state at rest.
    pub open spec fn spec_locked() -> Access {
        Access { prot: Prot::NoAccess, refs: 0 }
    }

    /// The state in which a region is handed to its initialiser: open for
    /// writing, held once.
    pub open spec fn spec_fresh() -> Access {
        Access { prot: Prot::ReadWrite, refs: 1 }
    }

    /// Why `retain(prot)` is illegal in this state, if it is.
    pub open spec fn retain_fault(self, prot: Prot) -> Option<Misuse> {
        if self.refs == 0 {
            if prot == Prot::NoAccess {
                Some(Misuse::RetainNoAccess)
            } else {
                None
            }
        } else if self.prot == Prot::NoAccess {
            Some(Misuse::OutOfOrder)
        } else if self.prot == Prot::ReadWrite {
            Some(Misuse::AlreadyMutable)
        } else if prot != Prot::ReadOnly {
            Some(Misuse::MutableWhileShared)
        } else if self.refs == MAX_REFS {
            Some(Misuse::TooManyRetains)
        } else {
            None
        }
    }

    /// Why `release()` is illegal in this state, if it is.
    pub open spec fn release_fault(self) -> Option<Misuse> {
        if self.refs == 0 {
            Some(Misuse::ReleaseWithoutRetain)
        } else if self.prot == Prot::NoAccess {
            Some(Misuse::ReleaseWhileLocked)
        } else {
            None
        }
    }

    /// Why a region in this state may not be given up, if it may not.
    pub open spec fn drop_fault(self) -> Option<Misuse> {
        if self.refs != 0 {
            Some(Misuse::RetainedAtDrop)
        } else if self.prot != Prot::NoAccess {
            Some(Misuse::AccessibleAtDrop)
        } else {
            None
        }
    }

    /// The state after a legal `retain(prot)`.
    pub open spec fn retained(self, prot: Prot) -> Access {
        Access {
            prot: if self.refs == 0 { prot } else { self.prot },
            refs: (self.refs + 1) as u8,
        }
    }

    /// The protection that a legal `retain(prot)` has to put in force:
    /// `prot` for the first retain, none for a further reader.
    pub open spec fn retain_change(self, prot: Prot) -> Option<Prot> {
        if self.refs == 0 {
            Some(prot)
        } else {
            None
        }
    }

    /// The state after a legal `release()`.
    pub open spec fn released(self) -> Access {
        Access {
            prot: if self.refs == 1 { Prot::NoAccess } else { self.prot },
            refs: (self.refs - 1) as u8,
        }
    }

    /// The protection that a legal `release()` has to put in force:
    /// [`Prot::NoAccess`] when the last retain goes, none before.
    pub open spec fn release_change(self) -> Option<Prot> {
        if self.refs == 1 {
            Some(Prot::NoAccess)
        } else {
            None
        }
    }

    /// The state at rest: locked, nothing outstanding.
    pub fn locked() -> (a: Access)
        ensures
            a == Access::spec_locked(),
            a.wf(),
    {
        Access { prot: Prot::NoAccess, refs: 0 }
    }

    /// The state of a region that was just allocated: open for writing and
    /// held once, by whoever initialises it.
    pub fn fresh() -> (a: Access)
        ensures
            a == Access::spec_fresh(),
            a.wf(),
    {
        Access { prot: Prot::ReadWrite, refs: 1 }
    }

    /// The protection level in force.
    pub fn prot(&self) -> (p: Prot)
        ensures
            p == self.prot,
    {
        self.prot
    }

    /// The number of outstanding retains.
    pub fn refs(&self) -> (n: u8)
        ensures
            n == self.refs,
    {
        self.refs
    }

    /// True if the level is [`Prot::NoAccess`], whatever the counter says.
    pub fn is_locked(&self) -> (b: bool)
        ensures
            b == (self.prot == Prot::NoAccess),
    {
        self.prot == Prot::NoAccess
    }

    /// Tells whether `retain(prot)` is legal now, and why not if it is not.
    pub fn check_retain(&self, prot: Prot) -> (fault: Option<Misuse>)
        ensures
            fault == self.retain_fault(prot),
    {
        if self.refs == 0 {
            if prot == Prot::NoAccess {
                Some(Misuse::RetainNoAccess)
            } else {
                None
            }
        } else if self.prot == Prot::NoAccess {
            Some(Misuse::OutOfOrder)
        } else if self.prot == Prot::ReadWrite {
            Some(Misuse::AlreadyMutable)
        } else if prot != Prot::ReadOnly {
            Some(Misuse::MutableWhileShared)
        } else {
            match self.refs.checked_add(1) {
                Some(_) => None,
                None => Some(Misuse::TooManyRetains),
            }
        }
    }

    /// Tells whether `release()` is legal now, and why not if it is not.
    pub fn check_release(&self) -> (fault: Option<Misuse>)
        ensures
            fault == self.release_fault(),
    {
        if self.refs == 0 {
            Some(Misuse::ReleaseWithoutRetain)
        } else if self.prot == Prot::NoAccess {
            Some(Misuse::ReleaseWhileLocked)
        } else {
            None
        }
    }

    /// Tells whether the region may be given up now, and why not if it may
    /// not.
    pub fn check_drop(&self) -> (fault: Option<Misuse>)
        ensures
            fault == self.drop_fault(),
    {
        if self.refs != 0 {
            Some(Misuse::RetainedAtDrop)
        } else if self.prot != Prot::NoAccess {
            Some(Misuse::AccessibleAtDrop)
        } else {
            None
        }
    }

    /// Counts one more retain at `prot`. The first retain opens the region
    /// at `prot`; a further one must be a reader joining readers. Returns
    /// the protection that the caller has to put in force on the memory, if
    /// it changes.
    pub fn retain(&mut self, prot: Prot) -> (change: Option<Prot>)
        requires
            old(self).retain_fault(prot) is None,
        ensures
            *final(self) == old(self).retained(prot),
            change == old(self).retain_change(prot),
            old(self).wf() ==> final(self).wf(),
    {
        let refs: u8 = self.refs;
        let change: Option<Prot> = if refs == 0 {
            self.prot = prot;
            Some(prot)
        } else {
            None
        };
        self.refs = refs + 1;
        change
    }

    /// Removes one outstanding retain. When the last one goes the region is
    /// locked again. Returns the protection that the caller has to put in
    /// force on the memory, if it changes.
    pub fn release(&mut self) -> (change: Option<Prot>)
        requires
            old(self).release_fault() is None,
        ensures
            *final(self) == old(self).released(),
            change == old(self).release_change(),
            old(self).wf() ==> final(self).wf(),
    {
        // The counter wraps rather than stopping at zero: were a release ever
        // to run unbalanced, the counter would stand at its maximum and the
        // next retain would be refused.
        let refs: u8 = self.refs.wrapping_sub(1);
        self.refs = refs;
        if refs == 0 {
            self.prot = Prot::NoAccess;
            Some(Prot::NoAccess)
        } else {
            None
        }
    }

    /// Retains if that is legal, and says why not if it is not; the state
    /// is then left as it was.
    pub fn try_retain(&mut self, prot: Prot) -> (r: Result<Option<Prot>, Misuse>)
        ensures
            match old(self).retain_fault(prot) {
                Some(fault) => r == Err::<Option<Prot>, Misuse>(fault) && *final(self) == *old(self),
                None => r == Ok::<Option<Prot>, Misuse>(old(self).retain_change(prot))
                    && *final(self) == old(self).retained(prot),
            },
            old(self).wf() ==> final(self).wf(),
    {
        match self.check_retain(prot) {
            Some(fault) => Err(fault),
            None => Ok(self.retain(prot)),
        }
    }

    /// Releases if that is legal, and says why not if it is not; the state
    /// is then left as it was.
    pub fn try_release(&mut self) -> (r: Result<Option<Prot>, Misuse>)
        ensures
            match old(self).release_fault() {
                Some(fault) => r == Err::<Option<Prot>, Misuse>(fault) && *final(self) == *old(self),
                None => r == Ok::<Option<Prot>, Misuse>(old(self).release_change())
                    && *final(self) == old(self).released(),
            },
            old(self).wf() ==> final(self).wf(),
    {
        match self.check_release() {
            Some(fault) => Err(fault),
            None => Ok(self.release()),
        }
    }
}

/// One move of the borrow discipline.
#[derive(Clone, Copy, Debug, PartialEq, Eq, Structural)]
pub enum Step {
    /// A retain at the given level.
    Retain(Prot),
    /// A release.
    Release,
}

impl Access {
    /// Why `step` is illegal in this state, if it is.
    pub open spec fn step_fault(self, step: Step) -> Option<Misuse> {
        match step {
            Step::Retain(prot) => self.retain_fault(prot),
            Step::Release => self.release_fault(),
        }
    }

    /// The state after a legal `step`.
    pub open spec fn stepped(self, step: Step) -> Access {
        match step {
            Step::Retain(prot) => self.retained(prot),
            Step::Release => self.released(),
        }
    }

    /// The protection that a legal `step` has to put in force, if any.
    pub open spec fn step_change(self, step: Step) -> Option<Prot> {
        match step {
            Step::Retain(prot) => self.retain_change(prot),
            Step::Release => self.release_change(),
        }
    }

    /// The state after `steps`, taken one after another, or `None` if one
    /// of them is illegal where it stands.
    pub open spec fn run(self, steps: Seq<Step>) -> Option<Access>
        decreases steps.len(),
    {
        if steps.len() == 0 {
            Some(self)
        } else if self.step_fault(steps[0]) is Some {
            None
        } else {
            self.stepped(steps[0]).run(steps.drop_first())
        }
    }

    /// Makes one move if it is legal, and says why not if it is not; the
    /// state is then left as it was.
    pub fn step(&mut self, step: Step) -> (r: Result<Option<Prot>, Misuse>)
        ensures
            match old(self).step_fault(step) {
                Some(fault) => r == Err::<Option<Prot>, Misuse>(fault) && *final(self) == *old(self),
                None => r == Ok::<Option<Prot>, Misuse>(old(self).step_change(step))
                    && *final(self) == old(self).stepped(step),
            },
            old(self).wf() ==> final(self).wf(),
    {
        match step {
            Step::Retain(prot) => self.try_retain(prot),
            Step::Release => self.try_release(),
        }
    }
}

/// The number of retains among `steps` less the number of releases.
pub open spec fn balance(steps: Seq<Step>) -> int
    decreases steps.len(),
{
    if steps.len() == 0 {
        0
    } else {
        (if steps[0] is Release { -1int } else { 1int }) + balance(steps.drop_first())
    }
}

/// `n` retains for reading.
pub open spec fn reader_retains(n: nat) -> Seq<Step> {
    Seq::new(n, |i: int| Step::Retain(Prot::ReadOnly))
}

/// `n` releases.
pub open spec fn releases(n: nat) -> Seq<Step> {
    Seq::new(n, |i: int| Step::Release)
}

/// `n` retains for reading, then `n` releases.
pub open spec fn matched_readers(n: nat) -> Seq<Step> {
    reader_retains(n) + releases(n)
}

/// The state of a region that `k` readers hold: at rest if there is none.
pub open spec fn held_by_readers(k: nat) -> Access {
    Access { prot: if k == 0 { Prot::NoAccess } else { Prot::ReadOnly }, refs: k as u8 }
}

/// A legal move keeps a well-formed state well-formed and moves the counter
/// by one: up for a retain, down for a release.
pub proof fn lemma_step_counts(a: Access, step: Step)
    requires
        a.wf(),
        a.step_fault(step) is None,
    ensures
        a.stepped(step).wf(),
        a.stepped(step).refs == a.refs + balance(seq![step]),
{
    assert(balance(seq![step]) == (if step is Release { -1int } else { 1int })) by {
        reveal_with_fuel(balance, 2);
    }
}

/// A borrow that is given back leaves no trace: after a legal retain the
/// release is legal, and it leads back to the state before the retain.
pub proof fn lemma_release_undoes_retain(a: Access, prot: Prot)
    requires
        a.wf(),
        a.retain_fault(prot) is None,
    ensures
        a.retained(prot).release_fault() is None,
        a.retained(prot).released() == a,
{
}

/// Whatever legal moves are made from a well-formed state, the state stays
/// well-formed and the counter has moved by the number of retains less the
/// number of releases.
pub proof fn lemma_run_counts(a: Access, steps: Seq<Step>)
    requires
        a.wf(),
        a.run(steps) is Some,
    ensures
        a.run(steps)->0.wf(),
        a.run(steps)->0.refs == a.refs + balance(steps),
    decreases steps.len(),
{
    if steps.len() > 0 {
        lemma_step_counts(a, steps[0]);
        assert(balance(seq![steps[0]]) == (if steps[0] is Release { -1int } else { 1int })) by {
            reveal_with_fuel(balance, 2);
        }
        lemma_run_counts(a.stepped(steps[0]), steps.drop_first());
    }
}

/// Every retain matched by a release: a legal run that starts at rest and
/// holds as many releases as retains, in whatever order and at whatever
/// levels, ends at rest, with nothing outstanding and no access.
pub proof fn lemma_balanced_run_locks(steps: Seq<Step>)
    requires
        Access::spec_locked().run(steps) is Some,
        balance(steps) == 0,
    ensures
        Access::spec_locked().run(steps) == Some(Access::spec_locked()),
{
    lemma_run_counts(Access::spec_locked(), steps);
}

/// Releasing `n` times what `k + n` readers hold is legal and leaves it
/// held by `k`.
pub proof fn lemma_release_readers(k: nat, n: nat)
    requires
        k + n <= MAX_REFS,
    ensures
        held_by_readers(k + n).run(releases(n)) == Some(held_by_readers(k)),
    decreases n,
{
    if n > 0 {
        assert(releases(n).drop_first() =~= releases((n - 1) as nat));
        lemma_release_readers(k, (n - 1) as nat);
    }
}

/// When `m` more readers retain what `k` readers hold, and `n` of them all
/// release it, each move is legal and `k + m - n` readers are left.
pub proof fn lemma_retain_then_release_readers(k: nat, m: nat, n: nat)
    requires
        k + m <= MAX_REFS,
        n <= k + m,
    ensures
        held_by_readers(k).run(reader_retains(m) + releases(n)) == Some(
            held_by_readers((k + m - n) as nat),
        ),
    decreases m,
{
    let steps = reader_retains(m) + releases(n);
    if m == 0 {
        lemma_release_readers((k - n) as nat, n);
    } else {
        assert(steps.drop_first() =~= reader_retains((m - 1) as nat) + releases(n));
        lemma_retain_then_release_readers(k + 1, (m - 1) as nat, n);
    }
}

/// True if every one of `steps` is a retain for reading or a release.
pub open spec fn readers_only(steps: Seq<Step>) -> bool {
    forall|i: int|
        0 <= i < steps.len() ==> #[trigger] steps[i] == Step::Retain(Prot::ReadOnly)
            || steps[i] == Step::Release
}

/// True if `steps`, taken by readers of a region that `k` of them hold,
/// never release what nobody holds and never retain what the counter
/// cannot count.
pub open spec fn keeps_count(k: nat, steps: Seq<Step>) -> bool
    decreases steps.len(),
{
    if steps.len() == 0 {
        k <= MAX_REFS
    } else if steps[0] is Release {
        0 < k <= MAX_REFS && keeps_count((k - 1) as nat, steps.drop_first())
    } else {
        k < MAX_REFS && keeps_count(k + 1, steps.drop_first())
    }
}

/// Readers may come and go in any order: as long as none releases what
/// nobody holds and no more hold the region than the counter can count,
/// every move is legal, and the region is held by as many as have retained
/// it and not released it.
pub proof fn lemma_readers_come_and_go(k: nat, steps: Seq<Step>)
    requires
        readers_only(steps),
        keeps_count(k, steps),
    ensures
        k + balance(steps) >= 0,
        held_by_readers(k).run(steps) == Some(held_by_readers((k + balance(steps)) as nat)),
    decreases steps.len(),
{
    if steps.len() > 0 {
        let rest = steps.drop_first();
        assert forall|i: int| 0 <= i < rest.len() implies #[trigger] rest[i] == Step::Retain(
            Prot::ReadOnly,
        ) || rest[i] == Step::Release by {
            assert(rest[i] == steps[i + 1]);
        }
        if steps[0] is Release {
            lemma_readers_come_and_go((k - 1) as nat, rest);
        } else {
            lemma_readers_come_and_go(k + 1, rest);
        }
    }
}

/// Every retain matched by a release: when readers that come and go as
/// above have released as often as they have retained, a region that was
/// at rest is at rest again, with no access and nothing outstanding.
pub proof fn lemma_matched_pairs_lock(steps: Seq<Step>)
    requires
        readers_only(steps),
        keeps_count(0, steps),
        balance(steps) == 0,
    ensures
        Access::spec_locked().run(steps) == Some(Access::spec_locked()),
{
    lemma_readers_come_and_go(0, steps);
}

/// Any number of readers that the counter can hold may open a region at
/// rest one after another, and when each has released it the region is at
/// rest again: no access, nothing outstanding.
pub proof fn lemma_matched_readers_lock(n: nat)
    requires
        n <= MAX_REFS,
    ensures
        Access::spec_locked().run(matched_readers(n)) == Some(Access::spec_locked()),
{
    lemma_retain_then_release_readers(0, n, n);
}

/// A region that is open for reading cannot be opened for writing, and a
/// region that is open for writing cannot be opened again, for reading or
/// for writing.
pub proof fn lemma_writer_excludes(a: Access, prot: Prot)
    requires
        a.wf(),
        a.refs > 0,
    ensures
        a.prot == Prot::ReadOnly ==> a.retain_fault(Prot::ReadWrite) == Some(
            Misuse::MutableWhileShared,
        ),
        a.prot == Prot::ReadWrite ==> a.retain_fault(prot) == Some(Misuse::AlreadyMutable),
{
}

/// Nothing can be released where nothing is retained.
pub proof fn lemma_release_needs_retain(a: Access)
    requires
        a.refs == 0,
    ensures
        a.release_fault() == Some(Misuse::ReleaseWithoutRetain),
{
}

/// A region may be given up only at rest: with a retain outstanding, or
/// with a level that still allows access, it may not.
pub proof fn lemma_drop_needs_rest(a: Access)
    ensures
        a.drop_fault() is None <==> a == Access::spec_locked(),
        a.refs != 0 ==> a.drop_fault() == Some(Misuse::RetainedAtDrop),
{
}

/// The counter does not wrap: as many readers as it can count may hold a
/// region, and the next one is refused.
pub proof fn lemma_counter_saturates()
    ensures
        Access::spec_locked().run(reader_retains(MAX_REFS as nat)) == Some(
            held_by_readers(MAX_REFS as nat),
        ),
        held_by_readers(MAX_REFS as nat).retain_fault(Prot::ReadOnly) == Some(
            Misuse::TooManyRetains,
        ),
{
    lemma_retain_then_release_readers(0, MAX_REFS as nat, 0);
}

} // verus!
