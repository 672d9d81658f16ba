//! A cache of one value: computed when it is first asked for, handed out
//! again until the cache is cleared.
//!
//! The cache takes no lock of its own. Whoever calls it holds it alone, as
//! `&mut` says; callers that share one cache keep it behind a mutex, and hold
//! the mutex for the length of the call.

use vstd::prelude::*;

verus! {

/// A slot for one value that is costly to make. The slot belongs to whoever
/// holds the cache: a copy of the cache has a slot of its own.
pub struct CacheMutex<T: Clone> {
    slot: Option<T>,
}

impl<T: Clone> View for CacheMutex<T> {
    type V = Option<T>;

    /// The value in the slot, if there is one.
    closed spec fn view(&self) -> Option<T> {
        self.slot
    }
}

/// What a cache hands out when it is asked for its value: the value in its
/// slot, or for an empty slot what the factory made.
pub open spec fn handed_out<T, E>(slot: Option<T>, made: Result<T, E>) -> Result<T, E> {
    match slot {
        Some(cached) => Ok(cached),
        None => made,
    }
}

/// `slot` is what a cache keeps once it has handed out `handed`: a copy of
/// the value, or nothing where the making of the value failed.
pub open spec fn keeps<T: Clone, E>(slot: Option<T>, handed: Result<T, E>) -> bool {
    match handed {
        Ok(value) => slot matches Some(kept) && cloned(value, kept),
        Err(_) => slot is None,
    }
}

/// `copy` is the slot of a copy of a cache with the slot `slot`: it holds a
/// copy of the value, or nothing where the cache holds nothing.
pub open spec fn copies<T: Clone>(slot: Option<T>, copy: Option<T>) -> bool {
    match slot {
        Some(value) => copy matches Some(copied) && cloned(value, copied),
        None => copy is None,
    }
}

impl<T: Clone> Clone for CacheMutex<T> {
    /// A cache with a slot of its own, which holds a copy of the value that
    /// this one holds, or nothing where this one holds nothing.
    fn clone(&self) -> (copy: Self)
        ensures
            copies(self@, copy@),
    {
        match &self.slot {
            Some(value) => CacheMutex { slot: Some(value.clone()) },
            None => CacheMutex { slot: None },
        }
    }
}

impl<T: Clone> Default for CacheMutex<T> {
    /// The empty cache.
    fn default() -> (cache: Self)
        ensures
            cache@ is None,
    {
        CacheMutex { slot: None }
    }
}

impl<T: Clone> CacheMutex<T> {
    /// The cached value. Where the slot is empty, `factory` is called for the
    /// value, which is kept if the call succeeds; a failure is handed on and
    /// nothing is kept. Where the slot is full, `factory` is not called.
    pub fn get<E>(&mut self, factory: impl FnOnce() -> Result<T, E>) -> (value: Result<T, E>)
        requires
            old(self)@ is None ==> call_requires(factory, ()),
        ensures
            exists|made: Result<T, E>|
                (old(self)@ is None ==> call_ensures(factory, (), made)) && value
                    == #[trigger] handed_out(old(self)@, made),
            keeps(final(self)@, value),
    {
        let value = match self.slot.take() {
            Some(value) => value,
            None => match factory() {
                Ok(value) => value,
                Err(e) => {
                    assert(Err::<T, E>(e) == handed_out(old(self)@, Err::<T, E>(e)));
                    return Err(e);
                },
            },
        };
        self.slot = Some(value.clone());
        assert(Ok::<T, E>(value) == handed_out(old(self)@, Ok::<T, E>(value)));
        Ok(value)
    }

    /// Empties the slot.
    pub fn clear(&mut self)
        ensures
            final(self)@ is None,
    {
        self.slot = None;
    }
}

/// A cache that has handed out a value hands out a copy of it the next time,
/// whatever the factory of the next time would make.
pub proof fn law_cached_value_is_handed_out_again<T: Clone, E>(
    value: T,
    slot: Option<T>,
    made: Result<T, E>,
)
    requires
        keeps(slot, Ok::<T, E>(value)),
    ensures
        handed_out(slot, made) matches Ok(again) && cloned(value, again),
{
}

/// Nothing is kept of a factory that failed: the next time the factory is
/// asked again.
pub proof fn law_failure_is_not_cached<T: Clone, E>(error: E, slot: Option<T>, made: Result<T, E>)
    requires
        keeps(slot, Err::<T, E>(error)),
    ensures
        handed_out(slot, made) == made,
{
}

/// A cache and its copy are apart. Once the one is cleared, which leaves its
/// slot empty, it hands out what its factory makes, and the other still
/// hands out the value that the cache held when it was copied: the copy a
/// copy of that value, the cache the value itself.
pub proof fn law_copy_is_apart<T: Clone, E>(
    value: T,
    copy: Option<T>,
    made: Result<T, E>,
)
    requires
        copies(Some(value), copy),
    ensures
        handed_out(None::<T>, made) == made,
        handed_out(copy, made) matches Ok(kept) && cloned(value, kept),
        handed_out(Some(value), made) == Ok::<T, E>(value),
{
}

} // verus!
