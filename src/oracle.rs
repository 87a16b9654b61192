//! The oracle as a kernel service: gates system calls and holds those
//! deferred for review.

use vstd::prelude::*;
use crate::audit::AuditTrail;
use crate::constitutional::{resource_rule, syscall_rule, ConstitutionalOracle, Context, Operation};
use crate::syscalls::SystemCall;

pub use crate::constitutional::VerificationResult;

verus! {

/// Constitutional oracle service for compliance verification.
pub struct OracleService<'a> {
    oracle: &'a ConstitutionalOracle,
    review_queue: Vec<SystemCall>,
}

impl<'a> OracleService<'a> {
    /// System calls awaiting review, oldest first.
    pub closed spec fn pending(&self) -> Seq<SystemCall> {
        self.review_queue@
    }

    pub fn init(oracle: &'a ConstitutionalOracle, _audit: &AuditTrail) -> (r: Self)
        ensures
            r.pending() == Seq::<SystemCall>::empty(),
    {
        OracleService { oracle, review_queue: Vec::new() }
    }

    /// The oracle's verdict on `syscall`: raw sovereign requests are escalated.
    pub fn verify_syscall(&self, syscall: &SystemCall) -> (r: VerificationResult)
        ensures
            r@ == syscall_rule(*syscall),
    {
        self.oracle.verify_syscall(syscall)
    }

    /// The oracle's verdict on accessing `resource` under `context`.
    pub fn verify_resource_access(&self, resource: &String, operation: &String, context: Context) -> (r:
        VerificationResult)
        ensures
            r@ == resource_rule(resource@, context),
    {
        self.oracle.verify_operation(
            Operation::ResourceAccess { resource: resource.clone(), operation: operation.clone() },
            &context,
        )
    }

    /// Hold `syscall` until it is resolved outside the kernel; nothing here
    /// escalates it.
    pub fn queue_for_review(&mut self, syscall: SystemCall)
        ensures
            final(self).pending() == old(self).pending().push(syscall),
    {
        self.review_queue.push(syscall);
    }

    /// Periodic upkeep; the review queue is left as it is.
    pub fn maintenance_tick(&mut self)
        ensures
            final(self).pending() == old(self).pending(),
    {
    }

    /// System calls awaiting review, oldest first.
    pub fn pending_reviews(&self) -> (r: &Vec<SystemCall>)
        ensures
            r@ == self.pending(),
    {
        &self.review_queue
    }
}

} // verus!
