use vstd::prelude::*;

verus! {

/// The aliasing mode a `Cell` is in: no borrow, `n >= 1` read borrows, or one
/// write borrow.
#[derive(Debug, Clone, Copy, PartialEq, Eq, Structural)]
pub enum BorrowState {
    Unborrowed,
    Shared(usize),
    Exclusive,
}

/// Why a borrow request was refused.
#[derive(Debug, Clone, Copy, PartialEq, Eq, Structural)]
pub enum BorrowError {
    /// A write borrow is outstanding.
    AlreadyMutablyBorrowed,
    /// Read borrows are outstanding, so no write borrow can be granted.
    AlreadyBorrowed,
    /// The number of read borrows cannot grow any further.
    TooManyReaders,
}

/// Outcome of a read-borrow request made in state `s`: the next state, or the refusal.
pub open spec fn borrow_step(s: BorrowState) -> Result<BorrowState, BorrowError> {
    match s {
        BorrowState::Unborrowed => Ok(BorrowState::Shared(1)),
        BorrowState::Shared(n) => if n < usize::MAX {
            Ok(BorrowState::Shared((n + 1) as usize))
        } else {
            Err(BorrowError::TooManyReaders)
        },
        BorrowState::Exclusive => Err(BorrowError::AlreadyMutablyBorrowed),
    }
}

/// Outcome of a write-borrow request made in state `s`.
pub open spec fn borrow_mut_step(s: BorrowState) -> Result<BorrowState, BorrowError> {
    match s {
        BorrowState::Unborrowed => Ok(BorrowState::Exclusive),
        BorrowState::Shared(_) => Err(BorrowError::AlreadyBorrowed),
        BorrowState::Exclusive => Err(BorrowError::AlreadyMutablyBorrowed),
    }
}

/// State after one read borrow is released.
pub open spec fn release_read_step(s: BorrowState) -> BorrowState {
    match s {
        BorrowState::Shared(n) => if n > 1 {
            BorrowState::Shared((n - 1) as usize)
        } else {
            BorrowState::Unborrowed
        },
        _ => s,
    }
}

/// State after the write borrow is released.
pub open spec fn release_write_step(s: BorrowState) -> BorrowState {
    match s {
        BorrowState::Exclusive => BorrowState::Unborrowed,
        _ => s,
    }
}

/// A write borrow followed by a second write borrow, before the first is
/// released, is refused as an aliasing violation.
pub proof fn lemma_second_borrow_mut_refused(s: BorrowState)
    requires
        borrow_mut_step(s) is Ok,
    ensures
        borrow_mut_step(borrow_mut_step(s)->Ok_0) == Err::<BorrowState, BorrowError>(
            BorrowError::AlreadyMutablyBorrowed,
        ),
{
}

/// A read borrow followed by a second read borrow is never refused as an
/// aliasing violation; only the reader limit can stop it.
pub proof fn lemma_second_borrow_not_aliasing(s: BorrowState)
    requires
        borrow_step(s) is Ok,
    ensures
        borrow_step(borrow_step(s)->Ok_0) is Ok || borrow_step(borrow_step(s)->Ok_0) == Err::<
            BorrowState,
            BorrowError,
        >(BorrowError::TooManyReaders),
{
}

/// Proof of an outstanding read borrow, handed back on release.
pub struct ReadGuard {
    marker: (),
}

/// Proof of the outstanding write borrow, handed back on release.
pub struct WriteGuard {
    marker: (),
}

/// A value whose read and write borrows are checked when they are requested.
pub struct Cell<T> {
    value: T,
    state: BorrowState,
}

impl<T> Cell<T> {
    pub closed spec fn value(&self) -> T {
        self.value
    }

    pub closed spec fn state(&self) -> BorrowState {
        self.state
    }

    /// Two cells with the same value and the same borrow state are equal.
    pub proof fn lemma_ext_equal(a: Cell<T>, b: Cell<T>)
        requires
            a.value() == b.value(),
            a.state() == b.state(),
        ensures
            a == b,
    {
    }

    /// A shared state always counts at least one reader.
    pub open spec fn wf(&self) -> bool {
        match self.state() {
            BorrowState::Shared(n) => n >= 1,
            _ => true,
        }
    }

    pub fn new(value: T) -> (c: Cell<T>)
        ensures
            c.wf(),
            c.value() == value,
            c.state() == BorrowState::Unborrowed,
    {
        Cell { value, state: BorrowState::Unborrowed }
    }

    /// The current borrow state.
    pub fn borrow_state(&self) -> (s: BorrowState)
        ensures
            s == self.state(),
    {
        self.state
    }

    /// Requests a read borrow; refused while a write borrow is outstanding.
    pub fn try_borrow(&mut self) -> (r: Result<ReadGuard, BorrowError>)
        requires
            old(self).wf(),
        ensures
            final(self).wf(),
            final(self).value() == old(self).value(),
            match borrow_step(old(self).state()) {
                Ok(s) => r is Ok && final(self).state() == s,
                Err(e) => r matches Err(f) && f == e && final(self).state() == old(self).state(),
            },
    {
        match self.state {
            BorrowState::Unborrowed => {
                self.state = BorrowState::Shared(1);
                Ok(ReadGuard { marker: () })
            },
            BorrowState::Shared(n) => {
                if n < usize::MAX {
                    self.state = BorrowState::Shared(n + 1);
                    Ok(ReadGuard { marker: () })
                } else {
                    Err(BorrowError::TooManyReaders)
                }
            },
            BorrowState::Exclusive => Err(BorrowError::AlreadyMutablyBorrowed),
        }
    }

    /// Read borrow for a caller that knows no write borrow is outstanding.
    pub fn borrow(&mut self) -> (g: ReadGuard)
        requires
            old(self).wf(),
            borrow_step(old(self).state()) is Ok,
        ensures
            final(self).wf(),
            final(self).value() == old(self).value(),
            final(self).state() == borrow_step(old(self).state())->Ok_0,
    {
        match self.try_borrow() {
            Ok(g) => g,
            Err(_) => vstd::pervasive::unreached(),
        }
    }

    /// Requests the write borrow; refused while any borrow is outstanding.
    pub fn try_borrow_mut(&mut self) -> (r: Result<WriteGuard, BorrowError>)
        requires
            old(self).wf(),
        ensures
            final(self).wf(),
            final(self).value() == old(self).value(),
            match borrow_mut_step(old(self).state()) {
                Ok(s) => r is Ok && final(self).state() == s,
                Err(e) => r matches Err(f) && f == e && final(self).state() == old(self).state(),
            },
    {
        match self.state {
            BorrowState::Unborrowed => {
                self.state = BorrowState::Exclusive;
                Ok(WriteGuard { marker: () })
            },
            BorrowState::Shared(_) => Err(BorrowError::AlreadyBorrowed),
            BorrowState::Exclusive => Err(BorrowError::AlreadyMutablyBorrowed),
        }
    }

    /// Write borrow for a caller that knows no borrow is outstanding.
    pub fn borrow_mut(&mut self) -> (g: WriteGuard)
        requires
            old(self).wf(),
            old(self).state() == BorrowState::Unborrowed,
        ensures
            final(self).wf(),
            final(self).value() == old(self).value(),
            final(self).state() == BorrowState::Exclusive,
    {
        match self.try_borrow_mut() {
            Ok(g) => g,
            Err(_) => vstd::pervasive::unreached(),
        }
    }

    /// Releases one read borrow.
    pub fn release_read(&mut self, guard: ReadGuard)
        requires
            old(self).wf(),
            old(self).state() is Shared,
        ensures
            final(self).wf(),
            final(self).value() == old(self).value(),
            final(self).state() == release_read_step(old(self).state()),
    {
        match self.state {
            BorrowState::Shared(n) => {
                if n > 1 {
                    self.state = BorrowState::Shared(n - 1);
                } else {
                    self.state = BorrowState::Unborrowed;
                }
            },
            _ => {},
        }
    }

    /// Releases the write borrow.
    pub fn release_write(&mut self, guard: WriteGuard)
        requires
            old(self).wf(),
            old(self).state() == BorrowState::Exclusive,
        ensures
            final(self).wf(),
            final(self).value() == old(self).value(),
            final(self).state() == BorrowState::Unborrowed,
    {
        self.state = BorrowState::Unborrowed;
    }

    /// Reads the value under a read borrow.
    pub fn read(&self, guard: &ReadGuard) -> (v: &T)
        requires
            self.state() is Shared,
        ensures
            *v == self.value(),
    {
        &self.value
    }

    /// Writes the value under the write borrow.
    pub fn write(&mut self, guard: &WriteGuard) -> (v: &mut T)
        requires
            old(self).state() == BorrowState::Exclusive,
        ensures
            *v == old(self).value(),
            final(self).value() == *final(v),
            final(self).state() == old(self).state(),
    {
        &mut self.value
    }

    /// Puts `v` in the cell under the write borrow and returns the old value.
    pub fn replace(&mut self, guard: &WriteGuard, v: T) -> (prev: T)
        requires
            old(self).state() == BorrowState::Exclusive,
        ensures
            prev == old(self).value(),
            final(self).value() == v,
            final(self).state() == old(self).state(),
    {
        let mut v = v;
        core::mem::swap(&mut self.value, &mut v);
        v
    }

    /// Gives up the cell and returns its value.
    pub fn into_inner(self) -> (v: T)
        ensures
            v == self.value(),
    {
        self.value
    }
}

} // verus!
