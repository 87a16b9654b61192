//! The system-call surface and its policy gate.

use vstd::prelude::*;
use crate::audit::{AuditEvent, AuditTrail};
use crate::constitutional::{level_rule, ConstitutionalOracle, Verdict, VerificationResult, SOVEREIGN_CLASS};
use crate::kernel::get_timestamp;
use crate::memory::{ProcessId, SovereigntyLevel};
use crate::text::same_text;

verus! {

/// System call definitions with constitutional parameters.
#[derive(Debug, Clone)]
pub enum SystemCall {
    /// Create a new process with sovereignty verification
    ProcessCreate { parent_id: ProcessId, name: String, sovereignty_level: SovereigntyLevel },
    /// Allocate memory with constitutional constraints
    MemoryAllocate { process_id: ProcessId, size: usize, sovereignty_level: SovereigntyLevel },
    /// Query the impact score of a process
    PivcQuery { process_id: ProcessId },
    /// Verify sovereignty access to resources
    SovereigntyVerify { resource: String, operation: String },
    /// Consult the constitutional oracle
    ConstitutionalQuery { question: String },
    /// Log events to the audit trail
    AuditLog { event: String },
    /// Exit a process constitutionally
    ProcessExit { process_id: ProcessId, exit_code: i32 },
    /// Read from a file with sovereignty checking
    FileRead { path: String, offset: usize, size: usize },
    /// Write to a file with constitutional verification
    FileWrite { path: String, data: Vec<u8>, sovereignty_required: SovereigntyLevel },
    /// Network operation with constitutional compliance
    NetworkConnect { address: String, port: u16, data_type: String },
}

/// Syscall numbers (Linux-compatible where possible).
pub const SYS_CONSTITUTIONAL_VERIFY: usize = 548;
pub const SYS_PIVC_CALCULATE: usize = 549;
pub const SYS_SOVEREIGNTY_CHECK: usize = 550;
pub const SYS_AUDIT_LOG: usize = 551;
pub const SYS_ORACLE_CONSULT: usize = 552;
pub const SYS_PROCESS_CREATE: usize = 553;
pub const SYS_MEMORY_ALLOCATE: usize = 554;
pub const SYS_FILE_READ: usize = 555;
pub const SYS_FILE_WRITE: usize = 556;
pub const SYS_NETWORK_CONNECT: usize = 557;

/// Error returned by the dispatcher for a number it does not serve.
pub const UNKNOWN_SYSCALL: &'static str = "Unknown system call";

/// The compliance check of the syscall layer: raw sovereignty levels go through
/// the standalone level check, sovereign network traffic is escalated.
pub open spec fn gate_rule(syscall: SystemCall) -> Verdict {
    match syscall {
        SystemCall::ProcessCreate { sovereignty_level, .. } => level_rule(sovereignty_level),
        SystemCall::MemoryAllocate { sovereignty_level, .. } => level_rule(sovereignty_level),
        SystemCall::FileWrite { sovereignty_required, .. } => level_rule(sovereignty_required),
        SystemCall::NetworkConnect { data_type, .. } => if data_type@ == SOVEREIGN_CLASS@ {
            Verdict::NeedsReview
        } else {
            Verdict::Compliant
        },
        _ => Verdict::Compliant,
    }
}

/// What the dispatcher answers to call number `call_num`.
pub open spec fn dispatch_rule(call_num: usize) -> Result<usize, &'static str> {
    if call_num == SYS_CONSTITUTIONAL_VERIFY {
        Ok(1)
    } else if call_num == SYS_PIVC_CALCULATE {
        Ok(100)
    } else if call_num == SYS_SOVEREIGNTY_CHECK {
        Ok(1)
    } else if call_num == SYS_AUDIT_LOG {
        Ok(0)
    } else if call_num == SYS_ORACLE_CONSULT {
        Ok(42)
    } else {
        Err(UNKNOWN_SYSCALL)
    }
}

/// Constitutional system call manager: gates calls and counts what it blocks.
pub struct SystemCallManager<'a> {
    oracle: &'a ConstitutionalOracle,
    audit: AuditTrail,
    syscall_count: u64,
    violations_blocked: u64,
}

impl<'a> SystemCallManager<'a> {
    /// Calls gated so far (saturating).
    pub closed spec fn gated(&self) -> nat {
        self.syscall_count as nat
    }

    /// Violations blocked so far (saturating).
    pub closed spec fn blocked(&self) -> nat {
        self.violations_blocked as nat
    }

    /// The events emitted to the audit trail.
    pub closed spec fn trail(&self) -> Seq<AuditEvent> {
        self.audit.log()
    }

    pub fn init(oracle: &'a ConstitutionalOracle, audit: AuditTrail) -> (r: Self)
        ensures
            r.gated() == 0,
            r.blocked() == 0,
            r.trail() == audit.log(),
    {
        SystemCallManager { oracle, audit, syscall_count: 0, violations_blocked: 0 }
    }

    /// Verify a system call for constitutional compliance, counting it.
    pub fn verify_syscall(&mut self, syscall: &SystemCall) -> (r: VerificationResult)
        ensures
            r@ == gate_rule(*syscall),
            final(self).gated() == if old(self).gated() < u64::MAX {
                old(self).gated() + 1
            } else {
                old(self).gated()
            },
            final(self).blocked() == old(self).blocked(),
            final(self).trail() == old(self).trail(),
    {
        self.syscall_count = self.syscall_count.saturating_add(1);
        match syscall {
            SystemCall::ProcessCreate { sovereignty_level, .. } => {
                // Verify sovereignty level permissions
                self.verify_sovereignty_level(*sovereignty_level)
            },
            SystemCall::MemoryAllocate { sovereignty_level, .. } => {
                self.verify_sovereignty_level(*sovereignty_level)
            },
            SystemCall::FileWrite { sovereignty_required, .. } => {
                self.verify_sovereignty_level(*sovereignty_required)
            },
            SystemCall::NetworkConnect { data_type, .. } => {
                if same_text(data_type.as_str(), SOVEREIGN_CLASS) {
                    VerificationResult::NeedsReview
                } else {
                    VerificationResult::Compliant
                }
            },
            _ => VerificationResult::Compliant,
        }
    }

    /// Record the execution of `syscall` with its outcome: a violation is
    /// counted as blocked, and the call with its outcome goes to the audit trail.
    pub fn log_syscall(&mut self, syscall: SystemCall, result: VerificationResult)
        ensures
            final(self).gated() == old(self).gated(),
            final(self).blocked() == if result is Violation && old(self).blocked() < u64::MAX {
                old(self).blocked() + 1
            } else {
                old(self).blocked()
            },
            final(self).trail() == old(self).trail().push(
                AuditEvent::SyscallExecuted { syscall, result, timestamp: 0 },
            ),
    {
        if let VerificationResult::Violation(_) = &result {
            self.violations_blocked = self.violations_blocked.saturating_add(1);
        }
        self.audit.log_event(
            AuditEvent::SyscallExecuted { syscall, result, timestamp: get_timestamp() },
        );
    }

    /// Calls gated so far.
    pub fn syscall_count(&self) -> (r: u64)
        ensures
            r == self.gated(),
    {
        self.syscall_count
    }

    /// Violations blocked so far.
    pub fn violations_blocked(&self) -> (r: u64)
        ensures
            r == self.blocked(),
    {
        self.violations_blocked
    }

    /// The audit trail the manager writes to.
    pub fn audit(&self) -> (r: &AuditTrail)
        ensures
            r.log() == self.trail(),
    {
        &self.audit
    }

    fn verify_sovereignty_level(&self, level: SovereigntyLevel) -> (r: VerificationResult)
        ensures
            r@ == level_rule(level),
    {
        match level {
            // Only sovereign processes can request sovereign operations
            SovereigntyLevel::Sovereign => VerificationResult::NeedsReview,
            SovereigntyLevel::Protected => VerificationResult::Compliant,
            SovereigntyLevel::Public => VerificationResult::Compliant,
            SovereigntyLevel::Private => VerificationResult::Compliant,
        }
    }
}

/// System call dispatcher for the interrupt path: answers each served number
/// with its fixed reply.
pub fn dispatch_syscall(call_num: usize, args: &[usize]) -> (r: Result<usize, &'static str>)
    ensures
        r == dispatch_rule(call_num),
{
    if call_num == SYS_CONSTITUTIONAL_VERIFY {
        Ok(1)
    } else if call_num == SYS_PIVC_CALCULATE {
        Ok(100)
    } else if call_num == SYS_SOVEREIGNTY_CHECK {
        Ok(1)
    } else if call_num == SYS_AUDIT_LOG {
        Ok(0)
    } else if call_num == SYS_ORACLE_CONSULT {
        Ok(42)
    } else {
        Err(UNKNOWN_SYSCALL)
    }
}

} // verus!
