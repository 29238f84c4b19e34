use vstd::prelude::*;

verus! {

/// Whether the processor takes interrupts.
#[derive(Clone, Copy, Debug, PartialEq, Eq, Structural)]
pub enum IntrLevel {
    IntrOn,
    IntrOff,
}

/// The interrupt flag of the processor, as the library keeps track of it.
pub struct InterruptFlag {
    level: IntrLevel,
}

/// What an acquisition saved: the level to go back to.
pub struct InterruptGuard {
    saved: IntrLevel,
}

impl InterruptFlag {
    /// The level the flag stands at.
    pub closed spec fn level(&self) -> IntrLevel {
        self.level
    }

    /// A flag that stands at `level`.
    pub fn new(level: IntrLevel) -> (flag: InterruptFlag)
        ensures
            flag.level() == level,
    {
        InterruptFlag { level }
    }

    /// The level the flag stands at.
    pub fn intr_get_level(&self) -> (level: IntrLevel)
        ensures
            level == self.level(),
    {
        self.level
    }

    /// Turns interrupts on and returns the level from before.
    pub fn intr_enable(&mut self) -> (previous: IntrLevel)
        ensures
            previous == old(self).level(),
            final(self).level() is IntrOn,
    {
        let previous: IntrLevel = self.level;
        self.level = IntrLevel::IntrOn;
        previous
    }

    /// Turns interrupts off and returns the level from before.
    pub fn intr_disable(&mut self) -> (previous: IntrLevel)
        ensures
            previous == old(self).level(),
            final(self).level() is IntrOff,
    {
        let previous: IntrLevel = self.level;
        self.level = IntrLevel::IntrOff;
        previous
    }
}

impl InterruptGuard {
    /// The level that `release` goes back to.
    pub closed spec fn saved(&self) -> IntrLevel {
        self.saved
    }

    /// Ends the acquisition: the flag goes back to the level it stood at
    /// when the guard was made.
    pub fn release(self, flag: &mut InterruptFlag)
        ensures
            final(flag).level() == self.saved(),
    {
        flag.level = self.saved;
    }
}

/// Sets the flag to `level` for the time until the guard is released,
/// which puts back the level from before.
pub fn hold_interrupts(flag: &mut InterruptFlag, level: IntrLevel) -> (guard: InterruptGuard)
    ensures
        final(flag).level() == level,
        guard.saved() == old(flag).level(),
{
    let saved: IntrLevel = flag.level;
    flag.level = level;
    InterruptGuard { saved }
}

/// A value that is only touched with interrupts off.
///
/// Locking saves the level of the interrupt flag and turns interrupts
/// off; unlocking puts the saved level back. The lock is not taken twice.
pub struct MutexIrq<T> {
    value: T,
    holder: Option<InterruptGuard>,
}

impl<T> MutexIrq<T> {
    /// The value behind the lock.
    pub closed spec fn value(&self) -> T {
        self.value
    }

    /// Whether the lock is held.
    pub closed spec fn locked(&self) -> bool {
        self.holder is Some
    }

    /// The level that unlocking goes back to, while the lock is held.
    pub closed spec fn saved_level(&self) -> IntrLevel {
        self.holder->0.saved()
    }

    /// A lock around `value`, not held.
    pub fn new(value: T) -> (mutex: MutexIrq<T>)
        ensures
            mutex.value() == value,
            !mutex.locked(),
    {
        MutexIrq { value, holder: None }
    }

    /// Takes the lock: interrupts are off from here on, and the level
    /// from before is kept for `unlock`.
    pub fn lock(&mut self, flag: &mut InterruptFlag)
        requires
            !old(self).locked(),
        ensures
            final(self).locked(),
            final(self).saved_level() == old(flag).level(),
            final(self).value() == old(self).value(),
            final(flag).level() is IntrOff,
    {
        self.holder = Some(hold_interrupts(flag, IntrLevel::IntrOff));
    }

    /// The value, to read.
    pub fn get(&self) -> (value: &T)
        requires
            self.locked(),
        ensures
            *value == self.value(),
    {
        &self.value
    }

    /// The value, to change.
    pub fn get_mut(&mut self) -> (value: &mut T)
        requires
            old(self).locked(),
        ensures
            *value == old(self).value(),
            final(self).value() == *final(value),
            final(self).locked(),
            final(self).saved_level() == old(self).saved_level(),
    {
        &mut self.value
    }

    /// Puts `value` behind the lock.
    pub fn set(&mut self, value: T)
        requires
            old(self).locked(),
        ensures
            final(self).locked(),
            final(self).saved_level() == old(self).saved_level(),
            final(self).value() == value,
    {
        self.value = value;
    }

    /// Gives the lock back: the interrupt flag returns to the level at
    /// which it stood when the lock was taken.
    pub fn unlock(&mut self, flag: &mut InterruptFlag)
        requires
            old(self).locked(),
        ensures
            !final(self).locked(),
            final(self).value() == old(self).value(),
            final(flag).level() == old(self).saved_level(),
    {
        match self.holder.take() {
            Some(guard) => guard.release(flag),
            None => {},
        }
    }
}

} // verus!
