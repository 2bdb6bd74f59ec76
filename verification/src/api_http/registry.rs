//! Executions in flight, by id, and whether each was asked to stop waiting.
use vstd::prelude::*;
use crate::store::keyed::KeyedStore;

verus! {

/// The executions in flight; each maps to whether cancellation was requested. Cancelling
/// only stops the wait: the server may already have acted.
pub struct ExecutionRegistry {
    inflight: KeyedStore<bool>,
}

impl ExecutionRegistry {
    pub closed spec fn wf(&self) -> bool {
        self.inflight.wf()
    }

    /// Executions in flight, with their cancellation flags.
    pub closed spec fn flags(&self) -> Map<Seq<char>, bool> {
        self.inflight.map()
    }

    /// An empty registry.
    pub fn new() -> (r: Self)
        ensures
            r.wf(),
            r.flags() == Map::<Seq<char>, bool>::empty(),
    {
        ExecutionRegistry { inflight: KeyedStore::new() }
    }

    /// Records an execution as in flight, not cancelled.
    pub fn register(&mut self, execution_id: &str)
        requires
            old(self).wf(),
        ensures
            final(self).wf(),
            final(self).flags() == old(self).flags().insert(execution_id@, false),
    {
        self.inflight.insert(crate::text::string_of(crate::text::chars_of(execution_id).as_slice()), false);
    }

    /// Forgets an execution once it is over.
    pub fn unregister(&mut self, execution_id: &str)
        requires
            old(self).wf(),
        ensures
            final(self).wf(),
            final(self).flags() == old(self).flags().remove(execution_id@),
    {
        let _ = self.inflight.remove(execution_id);
    }

    /// Asks an execution to stop waiting; answers whether it was in flight.
    pub fn cancel(&mut self, execution_id: &str) -> (r: Result<bool, String>)
        requires
            old(self).wf(),
        ensures
            final(self).wf(),
            r == Ok::<bool, String>(old(self).flags().contains_key(execution_id@)),
            old(self).flags().contains_key(execution_id@) ==> final(self).flags() == old(self).flags().insert(
                execution_id@,
                true,
            ),
            !old(self).flags().contains_key(execution_id@) ==> final(self).flags() == old(self).flags(),
    {
        if self.inflight.contains(execution_id) {
            self.inflight.insert(crate::text::string_of(crate::text::chars_of(execution_id).as_slice()), true);
            Ok(true)
        } else {
            Ok(false)
        }
    }

    /// Whether an execution is in flight.
    pub fn is_inflight(&self, execution_id: &str) -> (r: bool)
        requires
            self.wf(),
        ensures
            r == self.flags().contains_key(execution_id@),
    {
        self.inflight.contains(execution_id)
    }

    /// Whether an execution in flight was asked to stop waiting.
    pub fn is_cancelled(&self, execution_id: &str) -> (r: bool)
        requires
            self.wf(),
        ensures
            r == (self.flags().contains_key(execution_id@) && self.flags()[execution_id@]),
    {
        match self.inflight.get(execution_id) {
            Some(flag) => *flag,
            None => false,
        }
    }
}

} // verus!
