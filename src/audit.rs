//! Audit events, and the trail that buffers them for the external audit log.

use vstd::prelude::*;
use crate::constitutional::{ConstitutionalOracle, VerificationResult};
use crate::memory::{ProcessId, SovereigntyLevel};
use crate::syscalls::SystemCall;

verus! {

/// A structured audit event.
#[derive(Debug)]
pub enum AuditEvent {
    KernelInitialized { version: &'static str, constitutional_hash: crate::crypto::Hash, timestamp: u64 },
    ConstitutionalViolation { syscall: SystemCall, reason: String, timestamp: u64 },
    ProcessCreated { pid: ProcessId, sovereignty_level: SovereigntyLevel, timestamp: u64 },
    SyscallExecuted { syscall: SystemCall, result: VerificationResult, timestamp: u64 },
    /// A system call was held for review at `position` of the review queue.
    ReviewQueued { position: usize, timestamp: u64 },
}

/// Append-only buffer of emitted events, handed on to the audit collaborator.
pub struct AuditTrail {
    events: Vec<AuditEvent>,
}

impl AuditTrail {
    /// The events emitted so far, oldest first.
    pub closed spec fn log(&self) -> Seq<AuditEvent> {
        self.events@
    }

    pub fn init(_oracle: &ConstitutionalOracle) -> (r: Self)
        ensures
            r.log() == Seq::<AuditEvent>::empty(),
    {
        AuditTrail { events: Vec::new() }
    }

    /// Emit `event`.
    pub fn log_event(&mut self, event: AuditEvent)
        ensures
            final(self).log() == old(self).log().push(event),
    {
        self.events.push(event);
    }

    /// Periodic upkeep; retention belongs to the audit collaborator, so the
    /// buffer is left as it is.
    pub fn maintenance_tick(&mut self)
        ensures
            final(self).log() == old(self).log(),
    {
    }

    /// The events emitted so far, oldest first.
    pub fn events(&self) -> (r: &Vec<AuditEvent>)
        ensures
            r@ == self.log(),
    {
        &self.events
    }
}

} // verus!
