use azora_kernel::audit::{AuditEvent, AuditTrail};
use azora_kernel::constitutional::{ConstitutionalOracle, VerificationResult};
use azora_kernel::kernel::{check_pending_syscalls, create_init_process, get_timestamp, handle_system_call, SyscallReply};
use azora_kernel::memory::{MemoryError, MemoryManager, ProcessId, SovereigntyLevel, HEAP_BASE, TOTAL_PAGES};
use azora_kernel::oracle::OracleService;
use azora_kernel::pivc::PivcManager;
use azora_kernel::process::Process;
use azora_kernel::scheduler::{ProcessError, Scheduler, SchedulingMode};
use azora_kernel::sovereignty::SovereigntyManager;
use azora_kernel::syscalls::{dispatch_syscall, SystemCall, SystemCallManager};

#[test]
fn dispatcher_replies() {
    assert_eq!(dispatch_syscall(548, &[]), Ok(1));
    assert_eq!(dispatch_syscall(549, &[1, 2]), Ok(100));
    assert_eq!(dispatch_syscall(550, &[]), Ok(1));
    assert_eq!(dispatch_syscall(551, &[]), Ok(0));
    assert_eq!(dispatch_syscall(552, &[]), Ok(42));
    assert_eq!(dispatch_syscall(553, &[]), Err("Unknown system call"));
    assert_eq!(dispatch_syscall(0, &[]), Err("Unknown system call"));
}

#[test]
fn manager_checks_and_counts_calls() {
    let oracle = ConstitutionalOracle::init();
    let mut manager = SystemCallManager::init(&oracle, AuditTrail::init(&oracle));
    let sovereign_write = SystemCall::FileWrite {
        path: "/etc/x".to_string(),
        data: vec![1],
        sovereignty_required: SovereigntyLevel::Sovereign,
    };
    assert_eq!(manager.verify_syscall(&sovereign_write), VerificationResult::NeedsReview);
    let private_alloc = SystemCall::MemoryAllocate { process_id: ProcessId(1), size: 1, sovereignty_level: SovereigntyLevel::Private };
    assert_eq!(manager.verify_syscall(&private_alloc), VerificationResult::Compliant);
    let sovereign_net = SystemCall::NetworkConnect { address: "a".to_string(), port: 80, data_type: "sovereign".to_string() };
    assert_eq!(manager.verify_syscall(&sovereign_net), VerificationResult::NeedsReview);
    let public_net = SystemCall::NetworkConnect { address: "a".to_string(), port: 80, data_type: "public".to_string() };
    assert_eq!(manager.verify_syscall(&public_net), VerificationResult::Compliant);
    let exit = SystemCall::ProcessExit { process_id: ProcessId(1), exit_code: 0 };
    assert_eq!(manager.verify_syscall(&exit), VerificationResult::Compliant);
    assert_eq!(manager.syscall_count(), 5);
    assert_eq!(manager.violations_blocked(), 0);
}

#[test]
fn logging_counts_violations_and_audits() {
    let oracle = ConstitutionalOracle::init();
    let mut manager = SystemCallManager::init(&oracle, AuditTrail::init(&oracle));
    let call = SystemCall::AuditLog { event: "hello".to_string() };
    manager.log_syscall(call.clone(), VerificationResult::Compliant);
    manager.log_syscall(call.clone(), VerificationResult::Violation("no".to_string()));
    manager.log_syscall(call, VerificationResult::NeedsReview);
    assert_eq!(manager.violations_blocked(), 1);
    let events = manager.audit().events();
    assert_eq!(events.len(), 3);
    assert!(matches!(
        &events[1],
        AuditEvent::SyscallExecuted { result: VerificationResult::Violation(r), timestamp: 0, .. } if r == "no"
    ));
}

#[test]
fn pipeline_executes_queues_and_audits() {
    let oracle = ConstitutionalOracle::init();
    let sovereignty = SovereigntyManager::init(&oracle);
    let mut memory = MemoryManager::init(&oracle, &sovereignty);
    let mut tracker = PivcManager::init(&oracle);
    tracker.register_process(ProcessId(1), azora_kernel::pivc::ImpactScore::maximum()).unwrap();
    let mut scheduler = Scheduler::init(&oracle, &tracker, SchedulingMode::PivcOptimized);
    scheduler.add_process(Process::new(ProcessId(1), "init", SovereigntyLevel::Sovereign));
    let mut audit = AuditTrail::init(&oracle);
    let mut service = OracleService::init(&oracle, &audit);

    let sovereign = SystemCall::ProcessCreate { parent_id: ProcessId(1), name: "s".to_string(), sovereignty_level: SovereigntyLevel::Sovereign };
    let (verdict, reply) = handle_system_call(sovereign, &mut scheduler, &mut memory, &mut service, &mut audit);
    assert_eq!(verdict, VerificationResult::NeedsReview);
    assert!(matches!(reply, SyscallReply::Done));
    assert_eq!(service.pending_reviews().len(), 1);
    assert!(matches!(audit.events()[0], AuditEvent::ReviewQueued { position: 0, timestamp: 0 }));

    let public = SystemCall::ProcessCreate { parent_id: ProcessId(1), name: "p".to_string(), sovereignty_level: SovereigntyLevel::Public };
    let (verdict, reply) = handle_system_call(public, &mut scheduler, &mut memory, &mut service, &mut audit);
    assert_eq!(verdict, VerificationResult::Compliant);
    assert!(matches!(reply, SyscallReply::Created(Ok(ref p)) if p.id == ProcessId(2) && p.name == "p"));
    assert!(matches!(
        audit.events()[1],
        AuditEvent::ProcessCreated { pid: ProcessId(2), sovereignty_level: SovereigntyLevel::Public, timestamp: 0 }
    ));
    assert!(matches!(
        &audit.events()[2],
        AuditEvent::SyscallExecuted { syscall: SystemCall::ProcessCreate { .. }, result: VerificationResult::Compliant, timestamp: 0 }
    ));
    assert_eq!(scheduler.get_process(ProcessId(2)).unwrap().name, "p");

    let note = SystemCall::AuditLog { event: "checkpoint".to_string() };
    let (verdict, _) = handle_system_call(note, &mut scheduler, &mut memory, &mut service, &mut audit);
    assert_eq!(verdict, VerificationResult::Compliant);
    assert!(matches!(
        &audit.events()[3],
        AuditEvent::SyscallExecuted { syscall: SystemCall::AuditLog { event }, .. } if event == "checkpoint"
    ));

    let orphan = SystemCall::ProcessCreate { parent_id: ProcessId(99), name: "o".to_string(), sovereignty_level: SovereigntyLevel::Private };
    let (verdict, reply) = handle_system_call(orphan, &mut scheduler, &mut memory, &mut service, &mut audit);
    assert_eq!(verdict, VerificationResult::Compliant);
    assert!(matches!(reply, SyscallReply::Created(Err(ProcessError::UnknownParent))));
    assert_eq!(audit.events().len(), 5);

    let alloc = SystemCall::MemoryAllocate { process_id: ProcessId(2), size: 4097, sovereignty_level: SovereigntyLevel::Public };
    let (verdict, reply) = handle_system_call(alloc, &mut scheduler, &mut memory, &mut service, &mut audit);
    assert_eq!(verdict, VerificationResult::Compliant);
    assert!(matches!(reply, SyscallReply::Allocated(Ok(a)) if a == HEAP_BASE));
    assert_eq!(memory.free_page_count(), TOTAL_PAGES - 2);

    let private = SystemCall::MemoryAllocate { process_id: ProcessId(2), size: 1, sovereignty_level: SovereigntyLevel::Private };
    let (_, reply) = handle_system_call(private, &mut scheduler, &mut memory, &mut service, &mut audit);
    assert!(matches!(reply, SyscallReply::Allocated(Err(MemoryError::ConstitutionalViolation(_)))));

    let query = SystemCall::PivcQuery { process_id: ProcessId(1) };
    let (_, reply) = handle_system_call(query, &mut scheduler, &mut memory, &mut service, &mut audit);
    assert!(matches!(reply, SyscallReply::Score(Some(s)) if s.total == 100));
    let unknown = SystemCall::PivcQuery { process_id: ProcessId(5) };
    let (_, reply) = handle_system_call(unknown, &mut scheduler, &mut memory, &mut service, &mut audit);
    assert!(matches!(reply, SyscallReply::Score(None)));

    let kernel = SystemCall::SovereigntyVerify { resource: "kernel_memory".to_string(), operation: "read".to_string() };
    let (_, reply) = handle_system_call(kernel, &mut scheduler, &mut memory, &mut service, &mut audit);
    assert!(matches!(reply, SyscallReply::Access(false)));
    let files = SystemCall::SovereigntyVerify { resource: "public_files".to_string(), operation: "read".to_string() };
    let (_, reply) = handle_system_call(files, &mut scheduler, &mut memory, &mut service, &mut audit);
    assert!(matches!(reply, SyscallReply::Access(true)));
    assert_eq!(audit.events().len(), 11);

    let sovereign_alloc = SystemCall::MemoryAllocate { process_id: ProcessId(2), size: 4096, sovereignty_level: SovereigntyLevel::Sovereign };
    let (verdict, _) = handle_system_call(sovereign_alloc, &mut scheduler, &mut memory, &mut service, &mut audit);
    assert_eq!(verdict, VerificationResult::NeedsReview);
    assert!(matches!(audit.events()[11], AuditEvent::ReviewQueued { position: 1, timestamp: 0 }));
    assert_eq!(service.pending_reviews().len(), 2);

    service.maintenance_tick();
    audit.maintenance_tick();
    assert_eq!(service.pending_reviews().len(), 2);
    assert_eq!(audit.events().len(), 12);
}

#[test]
fn init_process_cannot_get_sovereign_memory() {
    let oracle = ConstitutionalOracle::init();
    let sovereignty = SovereigntyManager::init(&oracle);
    let mut memory = MemoryManager::init(&oracle, &sovereignty);
    assert_eq!(
        create_init_process(&mut memory, &oracle).err(),
        Some(MemoryError::ConstitutionalViolation(
            "Only sovereign processes can allocate sovereign memory".to_string()
        ))
    );
    assert_eq!(memory.free_page_count(), TOTAL_PAGES);
}

#[test]
fn clock_and_pending_queue_are_idle() {
    assert_eq!(get_timestamp(), 0);
    assert!(check_pending_syscalls().is_none());
}
