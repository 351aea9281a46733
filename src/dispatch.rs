//! The dispatch engine's registry: handlers by id, one-shot handlers, and a
//! bound on concurrent invocations.
//!
//! An invocation is `acquire` (admission), a call of the handler found by
//! `handler`, then `release`, which drops a one-shot handler and ends the
//! invocation. The caller runs the handler outside any lock it holds on the
//! registry.

use vstd::prelude::*;

use crate::error::{Error, ErrorKind};
use crate::table::{KeyedTable, TableKey};

verus! {

/// A registered handler; a `once` handler is dropped after its first
/// invocation ends.
pub struct Handler<F> {
    pub func: F,
    pub once: bool,
}

/// Handlers by id, with the count of invocations under way and an optional
/// bound on it.
pub struct Dispatch<Id: TableKey, F> {
    handlers: KeyedTable<Id, Handler<F>>,
    count: u32,
    max_count: Option<u32>,
}

impl<Id: TableKey, F> Dispatch<Id, F> {
    /// The registered handlers by id.
    pub closed spec fn handlers(&self) -> Map<Id::V, Handler<F>> {
        self.handlers@
    }

    /// Invocations admitted and not yet released.
    pub closed spec fn active(&self) -> u32 {
        self.count
    }

    /// The bound on concurrent invocations, if any.
    pub closed spec fn limit(&self) -> Option<u32> {
        self.max_count
    }

    /// An empty registry.
    pub fn new(max_count: Option<u32>) -> (r: Self)
        ensures
            r.handlers() == Map::<Id::V, Handler<F>>::empty(),
            r.active() == 0,
            r.limit() == max_count,
    {
        Dispatch { handlers: KeyedTable::new(), count: 0, max_count }
    }

    /// Register `func` under `id`; refused with `AlreadyExists`, leaving the
    /// registry as it was, when `id` is taken.
    pub fn add(&mut self, id: Id, func: F, once: bool) -> (r: Result<(), Error>)
        ensures
            old(self).handlers().contains_key(id@) ==> {
                &&& r matches Err(e) && e.kind == ErrorKind::AlreadyExists
                &&& final(self).handlers() == old(self).handlers()
            },
            !old(self).handlers().contains_key(id@) ==> {
                &&& r is Ok
                &&& final(self).handlers() == old(self).handlers().insert(
                    id@,
                    Handler { func, once },
                )
            },
            final(self).active() == old(self).active(),
            final(self).limit() == old(self).limit(),
    {
        if self.handlers.insert_new(id, Handler { func, once }) {
            Ok(())
        } else {
            ErrorKind::AlreadyExists.err("handler already exists for this id")
        }
    }

    /// Drop the handler registered under `id`, if there is one; with none
    /// there, nothing changes.
    pub fn remove(&mut self, id: &Id)
        ensures
            final(self).handlers() == old(self).handlers().remove(id@),
            !old(self).handlers().contains_key(id@) ==> final(self).handlers() == old(
                self,
            ).handlers(),
            final(self).active() == old(self).active(),
            final(self).limit() == old(self).limit(),
    {
        self.handlers.remove(id);
    }

    /// Admit an invocation of the handler under `id`: refused with
    /// `LimitReached` when the bound (or the counter's range) is reached,
    /// else with `NotFound` when no handler is registered, in both cases
    /// changing nothing. On admission the count goes up by one and the
    /// handler's `once` flag is returned.
    pub fn acquire(&mut self, id: &Id) -> (r: Result<bool, Error>)
        ensures
            ({
                let full = old(self).active() == u32::MAX || (old(self).limit() matches Some(
                    m,
                ) && old(self).active() >= m);
                &&& full ==> (r matches Err(e) && e.kind == ErrorKind::LimitReached)
                &&& !full && !old(self).handlers().contains_key(id@) ==> (r matches Err(e)
                    && e.kind == ErrorKind::NotFound)
                &&& !full && old(self).handlers().contains_key(id@) ==> r == Ok::<bool, Error>(
                    old(self).handlers()[id@].once,
                )
            }),
            r is Ok ==> final(self).active() == old(self).active() + 1,
            r is Err ==> final(self).active() == old(self).active(),
            final(self).handlers() == old(self).handlers(),
            final(self).limit() == old(self).limit(),
    {
        if self.count == u32::MAX {
            return ErrorKind::LimitReached.err("maximum tasks count reached");
        }
        if let Some(max_count) = self.max_count {
            if self.count >= max_count {
                return ErrorKind::LimitReached.err("maximum tasks count reached");
            }
        }
        match self.handlers.get(id) {
            None => ErrorKind::NotFound.err("handler not found"),
            Some(handler) => {
                let once = handler.once;
                self.count = self.count + 1;
                Ok(once)
            },
        }
    }

    /// The handler function registered under `id`, if any.
    pub fn handler(&self, id: &Id) -> (r: Option<&F>)
        ensures
            r is Some <==> self.handlers().contains_key(id@),
            r matches Some(f) ==> *f == self.handlers()[id@].func,
    {
        match self.handlers.get(id) {
            None => None,
            Some(handler) => Some(&handler.func),
        }
    }

    /// End an invocation admitted under `id`: drop the handler when the
    /// invocation was of a `once` handler, and count the invocation as done.
    pub fn release(&mut self, id: &Id, once: bool)
        ensures
            final(self).handlers() == (if once {
                old(self).handlers().remove(id@)
            } else {
                old(self).handlers()
            }),
            final(self).active() == (if old(self).active() > 0 {
                (old(self).active() - 1) as u32
            } else {
                0
            }),
            final(self).limit() == old(self).limit(),
    {
        if once {
            self.remove(id);
        }
        if self.count > 0 {
            self.count = self.count - 1;
        }
    }

    /// Invocations admitted and not yet released.
    pub fn active_count(&self) -> (r: u32)
        ensures
            r == self.active(),
    {
        self.count
    }

    /// The bound on concurrent invocations, if any.
    pub fn max_count(&self) -> (r: Option<u32>)
        ensures
            r == self.limit(),
    {
        self.max_count
    }

    /// Whether a handler is registered under `id`.
    pub fn contains(&self, id: &Id) -> (r: bool)
        ensures
            r == self.handlers().contains_key(id@),
    {
        self.handlers.contains(id)
    }
}

} // verus!
