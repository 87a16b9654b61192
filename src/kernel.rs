//! Kernel-level glue: the clock, boot of the init process, and the
//! system-call pipeline from gate to execution.

use vstd::prelude::*;
use crate::audit::{AuditEvent, AuditTrail};
use crate::constitutional::{
    resource_rule, syscall_rule, ConstitutionalOracle, Context, Operation, Verdict,
    VerificationResult, SOVEREIGN_MEMORY_DENIED,
};
use crate::memory::{pages_for, MemoryError, MemoryManager, ProcessId, SovereigntyLevel, PAGE_SIZE};
use crate::oracle::OracleService;
use crate::pivc::ImpactScore;
use crate::process::Process;
use crate::scheduler::{ProcessError, Scheduler};
use crate::syscalls::SystemCall;

verus! {

/// Id of the init process.
pub const INIT_PID: u32 = 1;

/// Pages of the init process's stack.
pub const INIT_STACK_PAGES: usize = 4;

/// Pages of the init process's heap.
pub const INIT_HEAP_PAGES: usize = 16;

/// Name of the init process.
pub const INIT_NAME: &'static str = "init";

/// Current kernel time in ticks. No timer source is wired into the kernel, so
/// every reading is 0.
pub fn get_timestamp() -> (r: u64)
    ensures
        r == 0,
{
    0
}

/// The next system call raised from user space. Interrupt handlers feed no
/// queue here, so there never is one.
pub fn check_pending_syscalls() -> (r: Option<SystemCall>)
    ensures
        r is None,
{
    None
}

/// Build the sovereign init process: a stack and a heap of sovereign pages,
/// the maximum impact score, and a compliant creation verdict. The allocator
/// asks as a kernel operation, which may not hold sovereign memory, so the
/// stack request is refused and the allocator is left untouched.
pub fn create_init_process(memory: &mut MemoryManager, oracle: &ConstitutionalOracle) -> (r: Result<
    Process,
    MemoryError,
>)
    requires
        old(memory).wf(),
    ensures
        final(memory).wf(),
        r matches Err(MemoryError::ConstitutionalViolation(s)) && s@ == SOVEREIGN_MEMORY_DENIED@,
        *final(memory) == *old(memory),
{
    let stack_base = match memory.allocate_pages(INIT_STACK_PAGES, SovereigntyLevel::Sovereign) {
        Ok(address) => address,
        Err(e) => {
            return Err(e);
        },
    };
    let heap_base = match memory.allocate_pages(INIT_HEAP_PAGES, SovereigntyLevel::Sovereign) {
        Ok(address) => address,
        Err(e) => {
            return Err(e);
        },
    };
    let mut init_process = Process::new(ProcessId(INIT_PID), INIT_NAME, SovereigntyLevel::Sovereign);
    init_process.set_stack(stack_base, INIT_STACK_PAGES * PAGE_SIZE);
    init_process.set_heap(heap_base, INIT_HEAP_PAGES * PAGE_SIZE);
    init_process.set_pivc_score(ImpactScore::maximum());
    let compliance = oracle.verify_operation(
        Operation::ProcessCreation {
            parent_sovereignty: SovereigntyLevel::Sovereign,
            child_sovereignty: SovereigntyLevel::Sovereign,
        },
        &Context::InitProcess,
    );
    assert(compliance@ == Verdict::Compliant);
    Ok(init_process)
}

/// What an executed system call hands back to its caller.
#[derive(Debug)]
pub enum SyscallReply {
    /// Nothing is returned.
    Done,
    /// The created process, or why it was not created.
    Created(Result<Process, ProcessError>),
    /// The address of the allocated pages, or why they were not allocated.
    Allocated(Result<usize, MemoryError>),
    /// The impact score of the queried process, if registered.
    Score(Option<ImpactScore>),
    /// Whether the requested resource access is granted.
    Access(bool),
}

/// The audit trail `after` is `before` with what a creation outcome `r` for
/// `syscall` emits: a creation event, a violation with its reason, or nothing.
pub open spec fn creation_audit(
    syscall: SystemCall,
    level: SovereigntyLevel,
    r: Result<Process, ProcessError>,
    before: Seq<AuditEvent>,
    after: Seq<AuditEvent>,
) -> bool {
    match r {
        Ok(p) => after == before.push(
            AuditEvent::ProcessCreated { pid: p.id, sovereignty_level: level, timestamp: 0 },
        ),
        Err(ProcessError::Refused(VerificationResult::Violation(reason))) => after == before.push(
            AuditEvent::ConstitutionalViolation { syscall, reason, timestamp: 0 },
        ),
        _ => after == before,
    }
}

/// What executing an admitted `syscall` does and answers: process creation
/// goes through the scheduler and is audited; a memory request goes through
/// the allocator on behalf of the calling process; a score query reads the
/// tracker; a sovereignty check asks the oracle under the public context of
/// user space. Other calls change nothing and answer nothing.
pub open spec fn execution_outcome<'a, 'b>(
    syscall: SystemCall,
    s0: &Scheduler<'a>,
    s1: &Scheduler<'a>,
    m0: &MemoryManager<'b>,
    m1: &MemoryManager<'b>,
    before: Seq<AuditEvent>,
    after: Seq<AuditEvent>,
    reply: SyscallReply,
) -> bool {
    match syscall {
        SystemCall::ProcessCreate { parent_id, name, sovereignty_level } => {
            &&& reply matches SyscallReply::Created(r)
            &&& Scheduler::creation_outcome(s0, s1, parent_id, name@, sovereignty_level, r)
            &&& creation_audit(syscall, sovereignty_level, r, before, after)
            &&& m1 == m0
        },
        SystemCall::MemoryAllocate { process_id, size, sovereignty_level } => {
            &&& reply matches SyscallReply::Allocated(r)
            &&& MemoryManager::allocation_outcome(
                m0,
                m1,
                process_id,
                pages_for(size),
                sovereignty_level,
                r,
            )
            &&& s1 == s0
            &&& after == before
        },
        SystemCall::PivcQuery { process_id } => {
            &&& reply == SyscallReply::Score(
                if s0.tracker()@.contains_key(process_id) {
                    Some(s0.tracker()@[process_id])
                } else {
                    None
                },
            )
            &&& s1 == s0
            &&& m1 == m0
            &&& after == before
        },
        SystemCall::SovereigntyVerify { resource, .. } => {
            &&& reply == SyscallReply::Access(
                resource_rule(resource@, Context::PublicOperation) is Compliant,
            )
            &&& s1 == s0
            &&& m1 == m0
            &&& after == before
        },
        _ => reply == SyscallReply::Done && after == before && s1 == s0 && m1 == m0,
    }
}

/// Execute a system call that passed the compliance check.
pub fn execute_syscall(
    syscall: &SystemCall,
    scheduler: &mut Scheduler,
    memory: &mut MemoryManager,
    oracle: &OracleService,
    audit: &mut AuditTrail,
) -> (reply: SyscallReply)
    requires
        old(scheduler).wf(),
        old(memory).wf(),
    ensures
        final(scheduler).wf(),
        final(memory).wf(),
        execution_outcome(
            *syscall,
            &*old(scheduler),
            &*final(scheduler),
            &*old(memory),
            &*final(memory),
            old(audit).log(),
            final(audit).log(),
            reply,
        ),
{
    match syscall {
        SystemCall::ProcessCreate { parent_id, name, sovereignty_level } => {
            let r = scheduler.create_process(*parent_id, name.as_str(), *sovereignty_level);
            match r {
                Ok(process) => {
                    audit.log_event(
                        AuditEvent::ProcessCreated {
                            pid: process.id,
                            sovereignty_level: *sovereignty_level,
                            timestamp: get_timestamp(),
                        },
                    );
                    SyscallReply::Created(Ok(process))
                },
                Err(ProcessError::Refused(VerificationResult::Violation(reason))) => {
                    audit.log_event(
                        AuditEvent::ConstitutionalViolation {
                            syscall: SystemCall::ProcessCreate {
                                parent_id: *parent_id,
                                name: name.clone(),
                                sovereignty_level: *sovereignty_level,
                            },
                            reason: reason.clone(),
                            timestamp: get_timestamp(),
                        },
                    );
                    SyscallReply::Created(Err(ProcessError::Refused(VerificationResult::Violation(reason))))
                },
                Err(e) => SyscallReply::Created(Err(e)),
            }
        },
        SystemCall::MemoryAllocate { process_id, size, sovereignty_level } => {
            let num_pages = *size / PAGE_SIZE + if *size % PAGE_SIZE != 0 { 1usize } else { 0usize };
            SyscallReply::Allocated(memory.allocate_pages_for(*process_id, num_pages, *sovereignty_level))
        },
        SystemCall::PivcQuery { process_id } => SyscallReply::Score(scheduler.get_pivc_score(*process_id)),
        SystemCall::SovereigntyVerify { resource, operation } => {
            let verdict = oracle.verify_resource_access(resource, operation, Context::PublicOperation);
            SyscallReply::Access(matches!(verdict, VerificationResult::Compliant))
        },
        // Exit, query, file and network calls are served outside this core
        _ => SyscallReply::Done,
    }
}

/// Check `syscall` through the oracle service and act on the outcome. Each
/// call leaves one audit event that carries its outcome: an admitted call is
/// executed and then recorded with its descriptor; a violation is recorded
/// with its descriptor and reason; a call needing review is queued and its
/// place in the queue recorded. Returns the outcome and the reply.
pub fn handle_system_call(
    syscall: SystemCall,
    scheduler: &mut Scheduler,
    memory: &mut MemoryManager,
    oracle: &mut OracleService,
    audit: &mut AuditTrail,
) -> (r: (VerificationResult, SyscallReply))
    requires
        old(scheduler).wf(),
        old(memory).wf(),
    ensures
        final(scheduler).wf(),
        final(memory).wf(),
        r.0@ == syscall_rule(syscall),
        r.0 is Compliant ==> {
            &&& final(audit).log().len() > 0
            &&& final(audit).log().last() == (AuditEvent::SyscallExecuted {
                syscall,
                result: VerificationResult::Compliant,
                timestamp: 0,
            })
            &&& execution_outcome(
                syscall,
                &*old(scheduler),
                &*final(scheduler),
                &*old(memory),
                &*final(memory),
                old(audit).log(),
                final(audit).log().drop_last(),
                r.1,
            )
            &&& final(oracle).pending() == old(oracle).pending()
        },
        r.0 matches VerificationResult::Violation(reason) ==> {
            &&& final(audit).log() == old(audit).log().push(
                AuditEvent::ConstitutionalViolation { syscall, reason, timestamp: 0 },
            )
            &&& r.1 == SyscallReply::Done
            &&& *final(scheduler) == *old(scheduler)
            &&& *final(memory) == *old(memory)
            &&& final(oracle).pending() == old(oracle).pending()
        },
        r.0 is NeedsReview ==> {
            &&& final(oracle).pending() == old(oracle).pending().push(syscall)
            &&& final(audit).log() == old(audit).log().push(
                AuditEvent::ReviewQueued {
                    position: old(oracle).pending().len() as usize,
                    timestamp: 0,
                },
            )
            &&& r.1 == SyscallReply::Done
            &&& *final(scheduler) == *old(scheduler)
            &&& *final(memory) == *old(memory)
        },
{
    let compliance = oracle.verify_syscall(&syscall);
    match compliance {
        VerificationResult::Compliant => {
            let reply = execute_syscall(&syscall, scheduler, memory, oracle, audit);
            let ghost executed = audit.log();
            audit.log_event(
                AuditEvent::SyscallExecuted {
                    syscall,
                    result: VerificationResult::Compliant,
                    timestamp: get_timestamp(),
                },
            );
            assert(audit.log().drop_last() == executed);
            (VerificationResult::Compliant, reply)
        },
        VerificationResult::Violation(reason) => {
            audit.log_event(
                AuditEvent::ConstitutionalViolation {
                    syscall,
                    reason: reason.clone(),
                    timestamp: get_timestamp(),
                },
            );
            (VerificationResult::Violation(reason), SyscallReply::Done)
        },
        VerificationResult::NeedsReview => {
            let position = oracle.pending_reviews().len();
            oracle.queue_for_review(syscall);
            audit.log_event(AuditEvent::ReviewQueued { position, timestamp: get_timestamp() });
            (VerificationResult::NeedsReview, SyscallReply::Done)
        },
    }
}

} // verus!
