//! The policy oracle: classifies a proposed operation under a declared
//! execution context and returns an admit / deny / defer verdict.
//!
//! The context is taken at face value: deriving it is the caller's
//! responsibility and forms a trust boundary of the kernel.

use vstd::prelude::*;
use vstd::string::StringSliceAdditionalSpecFns;
use crate::crypto::{blank_signature, digest_of, Signature};
use crate::kernel::get_timestamp;
use crate::memory::SovereigntyLevel;
use crate::syscalls::SystemCall;
use crate::text::{contains_seq, contains_text, is_prefix_of, same_text, starts_with_text};

verus! {

/// Identifier of the embedded constitution; its digest is the policy hash.
pub const CONSTITUTION_ID: &'static str = "AZORA_CONSTITUTION_v1.0_HASH";

/// Identifier of the embedded genesis protocol.
pub const GENESIS_PROTOCOL_ID: &'static str = "GENESIS_PROTOCOL_v1.0_HASH";

/// Resource name reserved for kernel operations.
pub const KERNEL_MEMORY: &'static str = "kernel_memory";

/// Resource name that needs the user's consent.
pub const USER_DATA: &'static str = "user_data";

/// Data classification (and payload marker) of sovereign data.
pub const SOVEREIGN_CLASS: &'static str = "sovereign";

/// Destinations inside the sovereign network start with this prefix.
pub const SOVEREIGN_NETWORK_PREFIX: &'static str = "sovereign:";

/// Persistence class of permanent storage.
pub const PERMANENT: &'static str = "permanent";

pub const SOVEREIGN_MEMORY_DENIED: &'static str = "Only sovereign processes can allocate sovereign memory";

pub const PRIVATE_MEMORY_DENIED: &'static str = "Private memory allocation requires user consent";

pub const SOVEREIGN_CHILD_DENIED: &'static str = "Only sovereign processes can create sovereign children";

pub const KERNEL_MEMORY_DENIED: &'static str = "Kernel memory access restricted to kernel operations";

pub const USER_DATA_DENIED: &'static str = "User data access requires explicit consent";

pub const SOVEREIGN_TRANSMISSION_DENIED: &'static str =
    "Sovereign data cannot be transmitted outside sovereign network";

pub const SOVEREIGN_STORAGE_DENIED: &'static str =
    "Permanent storage of sovereign data requires sovereignty";

/// Operations that require constitutional verification.
#[derive(Debug, Clone)]
pub enum Operation {
    MemoryAllocation { size: usize, level: SovereigntyLevel },
    ProcessCreation { parent_sovereignty: SovereigntyLevel, child_sovereignty: SovereigntyLevel },
    ResourceAccess { resource: String, operation: String },
    NetworkCommunication { destination: String, data_type: String },
    DataStorage { data: String, persistence: String },
}

/// The calling environment of a verification request.
#[derive(Debug, Clone, Copy, PartialEq, Eq, Structural)]
pub enum Context {
    InitProcess,
    KernelOperation,
    SovereignProcess,
    PivcVerifiedProcess,
    UserConsented,
    PublicOperation,
}

/// Outcome of a policy check.
#[derive(Debug, Clone, PartialEq)]
pub enum VerificationResult {
    Compliant,
    Violation(String),
    NeedsReview,
}

/// Mathematical model of a `VerificationResult`, with the violation reason as characters.
pub enum Verdict {
    Compliant,
    Violation(Seq<char>),
    NeedsReview,
}

impl View for VerificationResult {
    type V = Verdict;

    open spec fn view(&self) -> Verdict {
        match self {
            VerificationResult::Compliant => Verdict::Compliant,
            VerificationResult::Violation(reason) => Verdict::Violation(reason@),
            VerificationResult::NeedsReview => Verdict::NeedsReview,
        }
    }
}

/// Rule table for memory allocation at `level`.
pub open spec fn memory_rule(level: SovereigntyLevel, context: Context) -> Verdict {
    match level {
        SovereigntyLevel::Sovereign => if context == Context::SovereignProcess {
            Verdict::Compliant
        } else {
            Verdict::Violation(SOVEREIGN_MEMORY_DENIED@)
        },
        SovereigntyLevel::Protected => if context == Context::PivcVerifiedProcess {
            Verdict::Compliant
        } else {
            Verdict::NeedsReview
        },
        SovereigntyLevel::Public => Verdict::Compliant,
        SovereigntyLevel::Private => if context == Context::UserConsented {
            Verdict::Compliant
        } else {
            Verdict::Violation(PRIVATE_MEMORY_DENIED@)
        },
    }
}

/// Rule table for a `parent` creating a `child`: only sovereign parents may
/// create sovereign children.
pub open spec fn process_creation_rule(parent: SovereigntyLevel, child: SovereigntyLevel) -> Verdict {
    if parent != SovereigntyLevel::Sovereign && child == SovereigntyLevel::Sovereign {
        Verdict::Violation(SOVEREIGN_CHILD_DENIED@)
    } else {
        Verdict::Compliant
    }
}

/// Rule table for access to the resource named `resource`.
pub open spec fn resource_rule(resource: Seq<char>, context: Context) -> Verdict {
    if resource == KERNEL_MEMORY@ {
        if context == Context::KernelOperation {
            Verdict::Compliant
        } else {
            Verdict::Violation(KERNEL_MEMORY_DENIED@)
        }
    } else if resource == USER_DATA@ {
        if context == Context::UserConsented {
            Verdict::Compliant
        } else {
            Verdict::Violation(USER_DATA_DENIED@)
        }
    } else {
        Verdict::Compliant
    }
}

/// Rule for sending data classified `data_type` to `destination`.
pub open spec fn network_rule(destination: Seq<char>, data_type: Seq<char>) -> Verdict {
    if data_type == SOVEREIGN_CLASS@ && !is_prefix_of(SOVEREIGN_NETWORK_PREFIX@, destination) {
        Verdict::Violation(SOVEREIGN_TRANSMISSION_DENIED@)
    } else {
        Verdict::Compliant
    }
}

/// Rule for storing `data` with the given persistence class.
pub open spec fn storage_rule(data: Seq<char>, persistence: Seq<char>, context: Context) -> Verdict {
    if persistence == PERMANENT@ && contains_seq(data, SOVEREIGN_CLASS@) && context
        != Context::SovereignProcess {
        Verdict::Violation(SOVEREIGN_STORAGE_DENIED@)
    } else {
        Verdict::Compliant
    }
}

/// The full rule table: the verdict on `op` under `context`.
pub open spec fn operation_rule(op: Operation, context: Context) -> Verdict {
    match op {
        Operation::MemoryAllocation { level, .. } => memory_rule(level, context),
        Operation::ProcessCreation { parent_sovereignty, child_sovereignty } => process_creation_rule(
            parent_sovereignty,
            child_sovereignty,
        ),
        Operation::ResourceAccess { resource, .. } => resource_rule(resource@, context),
        Operation::NetworkCommunication { destination, data_type } => network_rule(
            destination@,
            data_type@,
        ),
        Operation::DataStorage { data, persistence } => storage_rule(
            data@,
            persistence@,
            context,
        ),
    }
}

/// Standalone check of a raw sovereignty level: `Sovereign` alone is always
/// escalated for review.
pub open spec fn level_rule(level: SovereigntyLevel) -> Verdict {
    if level == SovereigntyLevel::Sovereign {
        Verdict::NeedsReview
    } else {
        Verdict::Compliant
    }
}

/// The oracle's verdict on a system call.
pub open spec fn syscall_rule(syscall: SystemCall) -> Verdict {
    match syscall {
        SystemCall::ProcessCreate { sovereignty_level, .. } => level_rule(sovereignty_level),
        SystemCall::MemoryAllocate { sovereignty_level, .. } => level_rule(sovereignty_level),
        _ => Verdict::Compliant,
    }
}

/// A violation verdict carrying `reason`.
fn violation(reason: &str) -> (r: VerificationResult)
    ensures
        r@ == Verdict::Violation(reason@),
{
    VerificationResult::Violation(reason.to_owned())
}

/// Core constitutional oracle that verifies all operations.
pub struct ConstitutionalOracle {
    constitution_hash: crate::crypto::Hash,
    genesis_protocol_hash: crate::crypto::Hash,
    verification_key: Signature,
}

/// Constitutional proof for audit trails.
#[derive(Debug, Clone)]
pub struct ConstitutionalProof {
    pub operation: Operation,
    pub result: VerificationResult,
    pub timestamp: u64,
    pub constitution_hash: crate::crypto::Hash,
    pub oracle_signature: Signature,
}

/// Relies on std's `format!` with the derived `Debug` impls: renders the
/// message that a proof's signature covers.
#[verifier::external_body]
fn proof_message(operation: &Operation, result: &VerificationResult, timestamp: u64) -> String {
    format!("{:?}:{:?}:{}", operation, result, timestamp)
}

impl ConstitutionalOracle {
    /// Digest identifying the active rule set.
    pub closed spec fn policy_hash(&self) -> crate::crypto::Hash {
        self.constitution_hash
    }

    /// Digest of the genesis protocol.
    pub closed spec fn genesis_hash(&self) -> crate::crypto::Hash {
        self.genesis_protocol_hash
    }

    /// Initialize the constitutional oracle with the embedded constitution.
    pub fn init() -> (o: Self)
        ensures
            o.policy_hash()@ == digest_of(CONSTITUTION_ID.spec_bytes()),
            o.genesis_hash()@ == digest_of(GENESIS_PROTOCOL_ID.spec_bytes()),
    {
        let constitution_hash = crate::crypto::Hash::from_bytes(CONSTITUTION_ID.as_bytes());
        let genesis_protocol_hash = crate::crypto::Hash::from_bytes(GENESIS_PROTOCOL_ID.as_bytes());
        let verification_key = Signature::generate_key();
        ConstitutionalOracle { constitution_hash, genesis_protocol_hash, verification_key }
    }

    /// Verify that an operation complies with the rule table.
    pub fn verify_operation(&self, operation: Operation, context: &Context) -> (r: VerificationResult)
        ensures
            r@ == operation_rule(operation, *context),
    {
        match operation {
            Operation::MemoryAllocation { size, level } => {
                self.verify_memory_allocation(size, level, context)
            },
            Operation::ProcessCreation { parent_sovereignty, child_sovereignty } => {
                self.verify_process_creation(parent_sovereignty, child_sovereignty, context)
            },
            Operation::ResourceAccess { resource, operation: op } => {
                self.verify_resource_access(resource, op, context)
            },
            Operation::NetworkCommunication { destination, data_type } => {
                self.verify_network_communication(destination, data_type, context)
            },
            Operation::DataStorage { data, persistence } => {
                self.verify_data_storage(data, persistence, context)
            },
        }
    }

    /// Verify system call compliance.
    pub fn verify_syscall(&self, syscall: &SystemCall) -> (r: VerificationResult)
        ensures
            r@ == syscall_rule(*syscall),
    {
        match syscall {
            SystemCall::ProcessCreate { sovereignty_level, .. } => {
                self.verify_sovereignty_level(*sovereignty_level)
            },
            SystemCall::MemoryAllocate { sovereignty_level, .. } => {
                self.verify_sovereignty_level(*sovereignty_level)
            },
            _ => VerificationResult::Compliant,
        }
    }

    /// The constitution hash, for verification.
    pub fn get_constitution_hash(&self) -> (r: crate::crypto::Hash)
        ensures
            r == self.policy_hash(),
    {
        self.constitution_hash
    }

    /// The genesis protocol hash.
    pub fn get_genesis_hash(&self) -> (r: crate::crypto::Hash)
        ensures
            r == self.genesis_hash(),
    {
        self.genesis_protocol_hash
    }

    /// Create a signed, timestamped record binding an operation to its verdict.
    pub fn create_proof(&self, operation: Operation, result: VerificationResult) -> (p:
        ConstitutionalProof)
        ensures
            p.operation == operation,
            p.result == result,
            p.timestamp == 0,
            p.constitution_hash == self.policy_hash(),
            p.oracle_signature@ == blank_signature(),
    {
        let timestamp = get_timestamp();
        let message = proof_message(&operation, &result, timestamp);
        let signature = self.verification_key.sign(message.as_str());
        ConstitutionalProof {
            operation,
            result,
            timestamp,
            constitution_hash: self.constitution_hash,
            oracle_signature: signature,
        }
    }

    fn verify_memory_allocation(&self, size: usize, level: SovereigntyLevel, context: &Context) -> (r:
        VerificationResult)
        ensures
            r@ == memory_rule(level, *context),
    {
        match level {
            SovereigntyLevel::Sovereign => {
                // Sovereign memory can only be allocated by sovereign processes
                if matches!(*context, Context::SovereignProcess) {
                    VerificationResult::Compliant
                } else {
                    violation(SOVEREIGN_MEMORY_DENIED)
                }
            },
            SovereigntyLevel::Protected => {
                // Protected memory requires impact verification
                if matches!(*context, Context::PivcVerifiedProcess) {
                    VerificationResult::Compliant
                } else {
                    VerificationResult::NeedsReview
                }
            },
            SovereigntyLevel::Public => VerificationResult::Compliant,
            SovereigntyLevel::Private => {
                // Private memory requires user consent
                if matches!(*context, Context::UserConsented) {
                    VerificationResult::Compliant
                } else {
                    violation(PRIVATE_MEMORY_DENIED)
                }
            },
        }
    }

    fn verify_process_creation(
        &self,
        parent: SovereigntyLevel,
        child: SovereigntyLevel,
        _context: &Context,
    ) -> (r: VerificationResult)
        ensures
            r@ == process_creation_rule(parent, child),
    {
        match (parent, child) {
            (SovereigntyLevel::Sovereign, SovereigntyLevel::Sovereign) => VerificationResult::Compliant,
            // A sovereign parent may create a child of any level
            (SovereigntyLevel::Sovereign, _) => VerificationResult::Compliant,
            (_, SovereigntyLevel::Sovereign) => violation(SOVEREIGN_CHILD_DENIED),
            _ => VerificationResult::Compliant,
        }
    }

    fn verify_resource_access(&self, resource: String, operation: String, context: &Context) -> (r:
        VerificationResult)
        ensures
            r@ == resource_rule(resource@, *context),
    {
        if same_text(resource.as_str(), KERNEL_MEMORY) {
            if matches!(*context, Context::KernelOperation) {
                VerificationResult::Compliant
            } else {
                violation(KERNEL_MEMORY_DENIED)
            }
        } else if same_text(resource.as_str(), USER_DATA) {
            if matches!(*context, Context::UserConsented) {
                VerificationResult::Compliant
            } else {
                violation(USER_DATA_DENIED)
            }
        } else {
            VerificationResult::Compliant
        }
    }

    fn verify_network_communication(
        &self,
        destination: String,
        data_type: String,
        _context: &Context,
    ) -> (r: VerificationResult)
        ensures
            r@ == network_rule(destination@, data_type@),
    {
        if same_text(data_type.as_str(), SOVEREIGN_CLASS) && !starts_with_text(
            destination.as_str(),
            SOVEREIGN_NETWORK_PREFIX,
        ) {
            violation(SOVEREIGN_TRANSMISSION_DENIED)
        } else {
            VerificationResult::Compliant
        }
    }

    fn verify_data_storage(&self, data: String, persistence: String, context: &Context) -> (r:
        VerificationResult)
        ensures
            r@ == storage_rule(data@, persistence@, *context),
    {
        if same_text(persistence.as_str(), PERMANENT) && contains_text(data.as_str(), SOVEREIGN_CLASS) {
            if matches!(*context, Context::SovereignProcess) {
                VerificationResult::Compliant
            } else {
                violation(SOVEREIGN_STORAGE_DENIED)
            }
        } else {
            VerificationResult::Compliant
        }
    }

    fn verify_sovereignty_level(&self, level: SovereigntyLevel) -> (r: VerificationResult)
        ensures
            r@ == level_rule(level),
    {
        match level {
            // Raw sovereign requests are always escalated
            SovereigntyLevel::Sovereign => VerificationResult::NeedsReview,
            _ => VerificationResult::Compliant,
        }
    }
}

} // verus!
