use azora_kernel::constitutional::{ConstitutionalOracle, Context, Operation, VerificationResult};
use azora_kernel::memory::{ProcessId, SovereigntyLevel};
use azora_kernel::syscalls::SystemCall;

const LEVELS: [SovereigntyLevel; 4] = [
    SovereigntyLevel::Sovereign,
    SovereigntyLevel::Protected,
    SovereigntyLevel::Public,
    SovereigntyLevel::Private,
];

const CONTEXTS: [Context; 6] = [
    Context::InitProcess,
    Context::KernelOperation,
    Context::SovereignProcess,
    Context::PivcVerifiedProcess,
    Context::UserConsented,
    Context::PublicOperation,
];

fn violation(reason: &str) -> VerificationResult {
    VerificationResult::Violation(reason.to_string())
}

fn expected_memory_verdict(level: SovereigntyLevel, context: Context) -> VerificationResult {
    match level {
        SovereigntyLevel::Sovereign => {
            if context == Context::SovereignProcess {
                VerificationResult::Compliant
            } else {
                violation("Only sovereign processes can allocate sovereign memory")
            }
        }
        SovereigntyLevel::Protected => {
            if context == Context::PivcVerifiedProcess {
                VerificationResult::Compliant
            } else {
                VerificationResult::NeedsReview
            }
        }
        SovereigntyLevel::Public => VerificationResult::Compliant,
        SovereigntyLevel::Private => {
            if context == Context::UserConsented {
                VerificationResult::Compliant
            } else {
                violation("Private memory allocation requires user consent")
            }
        }
    }
}

#[test]
fn memory_allocation_table_is_exhaustive() {
    let oracle = ConstitutionalOracle::init();
    for level in LEVELS {
        for context in CONTEXTS {
            for size in [0usize, 4096, 1 << 20] {
                let verdict = oracle.verify_operation(Operation::MemoryAllocation { size, level }, &context);
                assert_eq!(verdict, expected_memory_verdict(level, context), "{:?} {:?}", level, context);
            }
        }
    }
}

#[test]
fn process_creation_inheritance_rules() {
    let oracle = ConstitutionalOracle::init();
    for parent in LEVELS {
        for child in LEVELS {
            let verdict = oracle.verify_operation(
                Operation::ProcessCreation { parent_sovereignty: parent, child_sovereignty: child },
                &Context::PublicOperation,
            );
            if parent != SovereigntyLevel::Sovereign && child == SovereigntyLevel::Sovereign {
                assert_eq!(verdict, violation("Only sovereign processes can create sovereign children"));
            } else {
                assert_eq!(verdict, VerificationResult::Compliant);
            }
        }
    }
}

fn access(resource: &str) -> Operation {
    Operation::ResourceAccess { resource: resource.to_string(), operation: "read".to_string() }
}

#[test]
fn resource_access_rules() {
    let oracle = ConstitutionalOracle::init();
    assert_eq!(oracle.verify_operation(access("kernel_memory"), &Context::KernelOperation), VerificationResult::Compliant);
    assert_eq!(
        oracle.verify_operation(access("kernel_memory"), &Context::SovereignProcess),
        violation("Kernel memory access restricted to kernel operations")
    );
    assert_eq!(oracle.verify_operation(access("user_data"), &Context::UserConsented), VerificationResult::Compliant);
    assert_eq!(
        oracle.verify_operation(access("user_data"), &Context::KernelOperation),
        violation("User data access requires explicit consent")
    );
    assert_eq!(oracle.verify_operation(access("kernel_memory2"), &Context::PublicOperation), VerificationResult::Compliant);
    assert_eq!(oracle.verify_operation(access("public_files"), &Context::PublicOperation), VerificationResult::Compliant);
    assert_eq!(oracle.verify_operation(access(""), &Context::PublicOperation), VerificationResult::Compliant);
}

fn send(destination: &str, data_type: &str) -> Operation {
    Operation::NetworkCommunication { destination: destination.to_string(), data_type: data_type.to_string() }
}

#[test]
fn network_rules() {
    let oracle = ConstitutionalOracle::init();
    let denied = violation("Sovereign data cannot be transmitted outside sovereign network");
    assert_eq!(oracle.verify_operation(send("sovereign:node1", "sovereign"), &Context::PublicOperation), VerificationResult::Compliant);
    assert_eq!(oracle.verify_operation(send("sovereign:", "sovereign"), &Context::PublicOperation), VerificationResult::Compliant);
    assert_eq!(oracle.verify_operation(send("example.org", "sovereign"), &Context::SovereignProcess), denied);
    assert_eq!(oracle.verify_operation(send("sovereign", "sovereign"), &Context::PublicOperation), denied);
    assert_eq!(oracle.verify_operation(send("x:sovereign:", "sovereign"), &Context::PublicOperation), denied);
    assert_eq!(oracle.verify_operation(send("example.org", "public"), &Context::PublicOperation), VerificationResult::Compliant);
    assert_eq!(oracle.verify_operation(send("example.org", "sovereignty"), &Context::PublicOperation), VerificationResult::Compliant);
}

fn store(data: &str, persistence: &str) -> Operation {
    Operation::DataStorage { data: data.to_string(), persistence: persistence.to_string() }
}

#[test]
fn storage_rules() {
    let oracle = ConstitutionalOracle::init();
    let denied = violation("Permanent storage of sovereign data requires sovereignty");
    assert_eq!(oracle.verify_operation(store("my_sovereign_keys", "permanent"), &Context::KernelOperation), denied);
    assert_eq!(oracle.verify_operation(store("sovereign", "permanent"), &Context::UserConsented), denied);
    assert_eq!(
        oracle.verify_operation(store("my_sovereign_keys", "permanent"), &Context::SovereignProcess),
        VerificationResult::Compliant
    );
    assert_eq!(oracle.verify_operation(store("my_sovereign_keys", "temporary"), &Context::KernelOperation), VerificationResult::Compliant);
    assert_eq!(oracle.verify_operation(store("sovereig", "permanent"), &Context::KernelOperation), VerificationResult::Compliant);
    assert_eq!(oracle.verify_operation(store("pivc_update_42", "permanent"), &Context::KernelOperation), VerificationResult::Compliant);
}

#[test]
fn syscall_level_check_escalates_sovereign_only() {
    let oracle = ConstitutionalOracle::init();
    for level in LEVELS {
        let create = SystemCall::ProcessCreate { parent_id: ProcessId(1), name: "p".to_string(), sovereignty_level: level };
        let alloc = SystemCall::MemoryAllocate { process_id: ProcessId(1), size: 4096, sovereignty_level: level };
        let expected = if level == SovereigntyLevel::Sovereign {
            VerificationResult::NeedsReview
        } else {
            VerificationResult::Compliant
        };
        assert_eq!(oracle.verify_syscall(&create), expected);
        assert_eq!(oracle.verify_syscall(&alloc), expected);
    }
    let write = SystemCall::FileWrite { path: "/x".to_string(), data: vec![1, 2], sovereignty_required: SovereigntyLevel::Sovereign };
    assert_eq!(oracle.verify_syscall(&write), VerificationResult::Compliant);
}

#[test]
fn oracle_hashes_embed_identifiers() {
    let oracle = ConstitutionalOracle::init();
    let hash = oracle.get_constitution_hash().bytes();
    let id = b"AZORA_CONSTITUTION_v1.0_HASH";
    assert_eq!(&hash[..id.len()], &id[..]);
    assert!(hash[id.len()..].iter().all(|b| *b == 0));
    let genesis = oracle.get_genesis_hash().bytes();
    let gid = b"GENESIS_PROTOCOL_v1.0_HASH";
    assert_eq!(&genesis[..gid.len()], &gid[..]);
    assert!(genesis[gid.len()..].iter().all(|b| *b == 0));
}

#[test]
fn digest_truncates_long_input() {
    let input: Vec<u8> = (0u8..40).collect();
    let hash = azora_kernel::crypto::Hash::from_bytes(&input);
    let expected: Vec<u8> = (0u8..32).collect();
    assert_eq!(hash.bytes().to_vec(), expected);
    let empty = azora_kernel::crypto::Hash::from_bytes(&[]);
    assert_eq!(empty.bytes(), [0u8; 32]);
}

#[test]
fn proof_binds_operation_and_verdict() {
    let oracle = ConstitutionalOracle::init();
    let op = Operation::MemoryAllocation { size: 4096, level: SovereigntyLevel::Public };
    let proof = oracle.create_proof(op, VerificationResult::NeedsReview);
    assert!(matches!(proof.operation, Operation::MemoryAllocation { size: 4096, level: SovereigntyLevel::Public }));
    assert_eq!(proof.result, VerificationResult::NeedsReview);
    assert_eq!(proof.timestamp, 0);
    assert_eq!(proof.constitution_hash.bytes(), oracle.get_constitution_hash().bytes());
    assert_eq!(proof.oracle_signature.bytes(), &vec![0u8; 64]);
}

#[test]
fn signature_placeholder_is_blank() {
    let key = azora_kernel::crypto::Signature::generate_key();
    assert_eq!(key.bytes(), &vec![0u8; 64]);
    assert_eq!(key.sign("message").bytes(), &vec![0u8; 64]);
}
