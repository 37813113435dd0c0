//! When to try a catalog operation again: the engine says "busy" while
//! another connection writes.

use vstd::prelude::*;

verus! {

/// How often an operation is tried again where nothing else is asked for.
pub const MAX_RETRY_DEFAULT: u64 = 10;

/// What to do after an attempt.
#[derive(Clone, Copy, Debug, PartialEq, Eq)]
pub enum RetryAction {
    /// Hand the attempt's result on, be it a value or an error.
    Return,
    /// Wait this many seconds, then try again.
    RetryAfter(u64),
}

/// The attempts made of one operation.
#[derive(Clone, Copy, Debug)]
pub struct Retry {
    tried: u64,
    max: u64,
}

impl Retry {
    #[verifier::type_invariant]
    spec fn within_budget(self) -> bool {
        self.tried <= self.max
    }

    /// How often the operation was tried again so far.
    pub closed spec fn retries(self) -> nat {
        self.tried as nat
    }

    /// How often the operation may be tried again.
    pub closed spec fn budget(self) -> nat {
        self.max as nat
    }

    /// Before the first attempt of an operation that may be tried again
    /// `max` times.
    pub fn new(max: u64) -> (state: Retry)
        ensures
            state.retries() == 0,
            state.budget() == max,
    {
        Retry { tried: 0, max }
    }

    /// After an attempt: `busy` says whether it failed because the catalog
    /// was busy. A busy attempt is tried again while the budget lasts, the
    /// `i`-th time after a wait of `i` seconds; anything else is handed on
    /// at once.
    pub fn after_attempt(&mut self, busy: bool) -> (action: RetryAction)
        ensures
            final(self).budget() == old(self).budget(),
            final(self).retries() <= final(self).budget(),
            busy && old(self).retries() < old(self).budget() ==> final(self).retries() == old(self).retries() + 1 && action == RetryAction::RetryAfter(final(self).retries() as u64),
            !(busy && old(self).retries() < old(self).budget()) ==> final(self).retries() == old(self).retries() && action == RetryAction::Return,
    {
        proof {
            use_type_invariant(&*self);
        }
        if busy && self.tried < self.max {
            self.tried = self.tried + 1;
            RetryAction::RetryAfter(self.tried)
        } else {
            RetryAction::Return
        }
    }
}

} // verus!
