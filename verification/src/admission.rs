//! The cap on the number of batches that run at once.

use vstd::prelude::*;

verus! {

/// The answer to a task that asks to run.
#[derive(Debug, Clone, Copy, PartialEq, Eq, Structural)]
pub enum Admission {
    /// The task holds a permit now.
    Admitted,
    /// Every permit is held; the task waits.
    Busy,
    /// The run was cancelled: the task is abandoned and holds nothing.
    Cancelled,
}

/// What a task can do to the controller.
#[derive(Debug, Clone, Copy, PartialEq, Eq, Structural)]
pub enum PermitRequest {
    /// Ask for a permit, with the cancellation signal as observed.
    Admit { cancelled: bool },
    /// Give a permit back.
    Release,
}

/// Hands out at most `limit` permits at any time.
#[derive(Debug)]
pub struct ConcurrencyController {
    limit: usize,
    active: usize,
}

/// The number of permits held once `request` was served with `active`
/// permits held out of `limit`.
pub open spec fn held_after(limit: nat, active: nat, request: PermitRequest) -> nat {
    match request {
        PermitRequest::Admit { cancelled } => if !cancelled && active < limit {
            active + 1
        } else {
            active
        },
        PermitRequest::Release => if active > 0 {
            (active - 1) as nat
        } else {
            active
        },
    }
}

/// The number of permits held once `requests` were served in order.
pub open spec fn held_after_all(limit: nat, active: nat, requests: Seq<PermitRequest>) -> nat
    decreases requests.len(),
{
    if requests.len() == 0 {
        active
    } else {
        held_after_all(limit, held_after(limit, active, requests[0]), requests.drop_first())
    }
}

/// Whatever tasks ask and in whatever order, never more than `limit`
/// permits are held.
pub proof fn lemma_bounded_concurrency(limit: nat, active: nat, requests: Seq<PermitRequest>)
    requires
        active <= limit,
    ensures
        held_after_all(limit, active, requests) <= limit,
    decreases requests.len(),
{
    if requests.len() > 0 {
        lemma_bounded_concurrency(
            limit,
            held_after(limit, active, requests[0]),
            requests.drop_first(),
        );
    }
}

impl ConcurrencyController {
    #[verifier::type_invariant]
    spec fn bounded(self) -> bool {
        self.active <= self.limit
    }

    /// The number of permits there are.
    pub closed spec fn limit(&self) -> nat {
        self.limit as nat
    }

    /// The number of permits that tasks hold.
    pub closed spec fn active(&self) -> nat {
        self.active as nat
    }

    /// A controller with `limit` permits, none of them held.
    pub fn new(limit: usize) -> (controller: Self)
        ensures
            controller.limit() == limit,
            controller.active() == 0,
    {
        ConcurrencyController { limit, active: 0 }
    }

    /// The number of permits there are.
    pub fn max_permits(&self) -> (n: usize)
        ensures
            n == self.limit(),
    {
        self.limit
    }

    /// The number of permits that tasks hold: never more than there are.
    pub fn permits_held(&self) -> (n: usize)
        ensures
            n == self.active(),
            n <= self.limit(),
    {
        proof {
            use_type_invariant(self);
        }
        self.active
    }

    /// Serves a task that asks to run. A cancelled task gets nothing; any
    /// other gets a permit if one is free.
    pub fn try_admit(&mut self, cancelled: bool) -> (answer: Admission)
        ensures
            final(self).limit() == old(self).limit(),
            final(self).active() == held_after(
                old(self).limit(),
                old(self).active(),
                PermitRequest::Admit { cancelled },
            ),
            final(self).active() <= final(self).limit(),
            answer == if cancelled {
                Admission::Cancelled
            } else if old(self).active() < old(self).limit() {
                Admission::Admitted
            } else {
                Admission::Busy
            },
    {
        proof {
            use_type_invariant(&*self);
        }
        if cancelled {
            Admission::Cancelled
        } else if self.active < self.limit {
            self.active = self.active + 1;
            Admission::Admitted
        } else {
            Admission::Busy
        }
    }

    /// Takes back the permit of a task whose outcome is final.
    pub fn release(&mut self)
        requires
            old(self).active() > 0,
        ensures
            final(self).limit() == old(self).limit(),
            final(self).active() == old(self).active() - 1,
            final(self).active() == held_after(
                old(self).limit(),
                old(self).active(),
                PermitRequest::Release,
            ),
    {
        proof {
            use_type_invariant(&*self);
        }
        self.active = self.active - 1;
    }
}

} // verus!
