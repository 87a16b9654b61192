//! Sovereignty-tagged page allocator: every allocation is ruled on by the
//! policy oracle, and page ownership is tracked per sovereignty class.

use vstd::prelude::*;
use crate::constitutional::{memory_rule, SOVEREIGN_MEMORY_DENIED, ConstitutionalOracle, Context, Operation, Verdict, VerificationResult};
use crate::sovereignty::SovereigntyManager;

verus! {

/// Size of one page in bytes.
pub const PAGE_SIZE: usize = 4096;

/// Memory under the allocator's governance: 128 MiB.
pub const TOTAL_MEMORY: usize = 134217728;

/// Number of pages under the allocator's governance.
pub const TOTAL_PAGES: usize = 32768;

/// First address handed out by the allocator.
pub const HEAP_BASE: usize = 0x1000_0000;

/// Process id under which the kernel itself owns memory.
pub const KERNEL_PROCESS: u32 = 0;

/// Reason given when an allocation is deferred for review: the allocator never escalates.
pub const REVIEW_DENIED: &'static str = "Allocation requires constitutional review";

/// Trust class attached to memory pages, processes and operations.
#[derive(Debug, Clone, Copy, PartialEq, Eq, Structural)]
pub enum SovereigntyLevel {
    /// Core constitutional data - maximum protection
    Sovereign,
    /// Sensitive data requiring oversight
    Protected,
    /// Public data for general use
    Public,
    /// Private user data
    Private,
}

/// Process identifier for memory ownership.
#[derive(Debug, Clone, Copy, PartialEq, Eq, Hash, Structural)]
pub struct ProcessId(pub u32);

/// Access capabilities of a memory page, as a typed set of named flags.
#[derive(Debug, Clone, Copy, PartialEq, Eq, Structural)]
pub struct ConstitutionalFlags {
    /// Page is constitutionally compliant
    pub compliant: bool,
    /// Page content is impact verified
    pub pivc_verified: bool,
    /// Page is sovereign owned
    pub sovereign_owned: bool,
    /// Page requires audit logging
    pub audit_required: bool,
    /// Page allows emergency override
    pub emergency_override: bool,
    /// Page is immutable (cannot be modified)
    pub constitutional_immutable: bool,
    /// Page contains sensitive data
    pub sensitive_data: bool,
    /// Page is shared across processes
    pub shared_memory: bool,
}

/// `2^k` when `set`, else 0.
pub open spec fn flag_bit(set: bool, k: nat) -> int {
    if set {
        vstd::arithmetic::power2::pow2(k) as int
    } else {
        0
    }
}

/// Flags of a freshly allocated page: it passed the oracle, and sovereign pages
/// are marked sovereign-owned.
pub open spec fn page_flags(level: SovereigntyLevel) -> ConstitutionalFlags {
    ConstitutionalFlags {
        compliant: true,
        pivc_verified: false,
        sovereign_owned: level == SovereigntyLevel::Sovereign,
        audit_required: false,
        emergency_override: false,
        constitutional_immutable: false,
        sensitive_data: false,
        shared_memory: false,
    }
}

impl ConstitutionalFlags {
    /// The bit encoding: flag `k` in declaration order is bit `k`.
    pub open spec fn spec_bits(&self) -> int {
        flag_bit(self.compliant, 0) + flag_bit(self.pivc_verified, 1) + flag_bit(
            self.sovereign_owned,
            2,
        ) + flag_bit(self.audit_required, 3) + flag_bit(self.emergency_override, 4) + flag_bit(
            self.constitutional_immutable,
            5,
        ) + flag_bit(self.sensitive_data, 6) + flag_bit(self.shared_memory, 7)
    }

    /// The flags of a page allocated at `level`.
    pub fn for_allocation(level: SovereigntyLevel) -> (r: ConstitutionalFlags)
        ensures
            r == page_flags(level),
    {
        ConstitutionalFlags {
            compliant: true,
            pivc_verified: false,
            sovereign_owned: matches!(level, SovereigntyLevel::Sovereign),
            audit_required: false,
            emergency_override: false,
            constitutional_immutable: false,
            sensitive_data: false,
            shared_memory: false,
        }
    }

    /// The flags as a bit set: flag `k` in declaration order is bit `k`.
    pub fn bits(&self) -> (r: u32)
        ensures
            r == self.spec_bits(),
    {
        proof {
            vstd::arithmetic::power2::lemma2_to64();
        }
        let mut r: u32 = 0;
        if self.compliant {
            r = r + 1;
        }
        if self.pivc_verified {
            r = r + 2;
        }
        if self.sovereign_owned {
            r = r + 4;
        }
        if self.audit_required {
            r = r + 8;
        }
        if self.emergency_override {
            r = r + 16;
        }
        if self.constitutional_immutable {
            r = r + 32;
        }
        if self.sensitive_data {
            r = r + 64;
        }
        if self.shared_memory {
            r = r + 128;
        }
        r
    }

    /// The flags whose bits are set in `bits`; other bits are ignored.
    pub fn from_bits_truncate(bits: u32) -> (r: ConstitutionalFlags)
        ensures
            r.compliant == (bits & 1 != 0),
            r.pivc_verified == (bits & 2 != 0),
            r.sovereign_owned == (bits & 4 != 0),
            r.audit_required == (bits & 8 != 0),
            r.emergency_override == (bits & 16 != 0),
            r.constitutional_immutable == (bits & 32 != 0),
            r.sensitive_data == (bits & 64 != 0),
            r.shared_memory == (bits & 128 != 0),
    {
        ConstitutionalFlags {
            compliant: bits & 1 != 0,
            pivc_verified: bits & 2 != 0,
            sovereign_owned: bits & 4 != 0,
            audit_required: bits & 8 != 0,
            emergency_override: bits & 16 != 0,
            constitutional_immutable: bits & 32 != 0,
            sensitive_data: bits & 64 != 0,
            shared_memory: bits & 128 != 0,
        }
    }
}

/// One allocated unit, owned by the allocator until freed; the owning process
/// holds only its address.
#[derive(Debug)]
pub struct ConstitutionalPage {
    pub address: usize,
    pub size: usize,
    pub num_pages: usize,
    pub sovereignty_level: SovereigntyLevel,
    pub allocated_by: ProcessId,
    pub allocation_time: u64,
    pub pivc_score: u32,
    pub access_flags: ConstitutionalFlags,
    pub verification_proof: crate::crypto::Hash,
}

/// The record created for `n` pages at `address`, owned by `owner`.
pub open spec fn page_record(
    address: usize,
    owner: ProcessId,
    n: usize,
    level: SovereigntyLevel,
    proof_hash: crate::crypto::Hash,
) -> ConstitutionalPage {
    ConstitutionalPage {
        address,
        size: (n * PAGE_SIZE) as usize,
        num_pages: n,
        sovereignty_level: level,
        allocated_by: owner,
        allocation_time: 0,
        pivc_score: 0,
        access_flags: page_flags(level),
        verification_proof: proof_hash,
    }
}

/// Pages held by the records of `pages` at `level`.
pub open spec fn pages_at(pages: Seq<ConstitutionalPage>, level: SovereigntyLevel) -> nat
    decreases pages.len(),
{
    if pages.len() == 0 {
        0
    } else {
        pages_at(pages.drop_last(), level) + if pages.last().sovereignty_level == level {
            pages.last().num_pages as nat
        } else {
            0
        }
    }
}

/// Some record of `pages` starts at `address`.
pub open spec fn holds_page(pages: Seq<ConstitutionalPage>, address: usize) -> bool {
    exists|i: int| 0 <= i < pages.len() && pages[i].address == address
}

/// The position of the record that starts at `address`.
pub open spec fn page_index(pages: Seq<ConstitutionalPage>, address: usize) -> int {
    choose|i: int| 0 <= i < pages.len() && pages[i].address == address
}

proof fn lemma_pages_at_push(pages: Seq<ConstitutionalPage>, page: ConstitutionalPage)
    ensures
        forall|level: SovereigntyLevel| #[trigger]
            pages_at(pages.push(page), level) == pages_at(pages, level) + if page.sovereignty_level
                == level {
                page.num_pages as nat
            } else {
                0
            },
{
    assert(pages.push(page).drop_last() =~= pages);
}

proof fn lemma_pages_at_remove(pages: Seq<ConstitutionalPage>, i: int, level: SovereigntyLevel)
    requires
        0 <= i < pages.len(),
    ensures
        pages_at(pages.remove(i), level) + (if pages[i].sovereignty_level == level {
            pages[i].num_pages as nat
        } else {
            0
        }) == pages_at(pages, level),
    decreases pages.len(),
{
    if i == pages.len() - 1 {
        assert(pages.remove(i) =~= pages.drop_last());
    } else {
        lemma_pages_at_remove(pages.drop_last(), i, level);
        assert(pages.remove(i).drop_last() =~= pages.drop_last().remove(i));
    }
}

proof fn lemma_pages_at_remove_all(pages: Seq<ConstitutionalPage>, i: int)
    requires
        0 <= i < pages.len(),
    ensures
        forall|level: SovereigntyLevel| #[trigger]
            pages_at(pages.remove(i), level) + (if pages[i].sovereignty_level == level {
                pages[i].num_pages as nat
            } else {
                0
            }) == pages_at(pages, level),
{
    lemma_pages_at_remove(pages, i, SovereigntyLevel::Sovereign);
    lemma_pages_at_remove(pages, i, SovereigntyLevel::Protected);
    lemma_pages_at_remove(pages, i, SovereigntyLevel::Public);
    lemma_pages_at_remove(pages, i, SovereigntyLevel::Private);
    assert forall|level: SovereigntyLevel| #[trigger]
        pages_at(pages.remove(i), level) + (if pages[i].sovereignty_level == level {
            pages[i].num_pages as nat
        } else {
            0
        }) == pages_at(pages, level) by {
        match level {
            SovereigntyLevel::Sovereign => {},
            SovereigntyLevel::Protected => {},
            SovereigntyLevel::Public => {},
            SovereigntyLevel::Private => {},
        }
    }
}

/// Pages in use, per sovereignty class.
#[derive(Debug, Clone, Copy)]
pub struct SovereigntyStats {
    pub sovereign_pages: usize,
    pub protected_pages: usize,
    pub public_pages: usize,
    pub private_pages: usize,
}

impl SovereigntyStats {
    /// The counter of `level`.
    pub open spec fn count_of(&self, level: SovereigntyLevel) -> nat {
        match level {
            SovereigntyLevel::Sovereign => self.sovereign_pages as nat,
            SovereigntyLevel::Protected => self.protected_pages as nat,
            SovereigntyLevel::Public => self.public_pages as nat,
            SovereigntyLevel::Private => self.private_pages as nat,
        }
    }

    /// Sum of the four counters.
    pub open spec fn total(&self) -> nat {
        (self.sovereign_pages + self.protected_pages + self.public_pages + self.private_pages) as nat
    }

    fn add(&mut self, level: SovereigntyLevel, n: usize)
        requires
            old(self).total() + n <= usize::MAX,
        ensures
            final(self).total() == old(self).total() + n,
            forall|l: SovereigntyLevel| #[trigger]
                final(self).count_of(l) == old(self).count_of(l) + if l == level {
                    n as nat
                } else {
                    0
                },
    {
        match level {
            SovereigntyLevel::Sovereign => self.sovereign_pages = self.sovereign_pages + n,
            SovereigntyLevel::Protected => self.protected_pages = self.protected_pages + n,
            SovereigntyLevel::Public => self.public_pages = self.public_pages + n,
            SovereigntyLevel::Private => self.private_pages = self.private_pages + n,
        }
    }

    fn subtract(&mut self, level: SovereigntyLevel, n: usize)
        requires
            old(self).count_of(level) >= n,
        ensures
            final(self).total() == old(self).total() - n,
            forall|l: SovereigntyLevel| #[trigger]
                final(self).count_of(l) == old(self).count_of(l) - if l == level {
                    n as nat
                } else {
                    0
                },
    {
        match level {
            SovereigntyLevel::Sovereign => self.sovereign_pages = self.sovereign_pages - n,
            SovereigntyLevel::Protected => self.protected_pages = self.protected_pages - n,
            SovereigntyLevel::Public => self.public_pages = self.public_pages - n,
            SovereigntyLevel::Private => self.private_pages = self.private_pages - n,
        }
    }
}

/// Memory allocation error.
#[derive(Debug, PartialEq)]
pub enum MemoryError {
    OutOfMemory,
    ConstitutionalViolation(String),
    SovereigntyViolation(String),
    InvalidSize,
    PermissionDenied,
}

/// Memory access types.
#[derive(Debug, Clone, Copy)]
pub enum AccessType {
    Read,
    Write,
    Execute,
}

/// Memory statistics.
#[derive(Debug, Clone, Copy)]
pub struct MemoryStats {
    pub total_memory: usize,
    pub allocated_memory: usize,
    pub free_memory: usize,
    pub sovereignty_stats: SovereigntyStats,
}

/// Constitutional memory manager: page accounting gated by the oracle.
pub struct MemoryManager<'a> {
    oracle: &'a ConstitutionalOracle,
    sovereignty: &'a SovereigntyManager,
    allocated_pages: usize,
    free_pages: usize,
    sovereignty_stats: SovereigntyStats,
    pages: Vec<ConstitutionalPage>,
    next_address: usize,
}

impl<'a> MemoryManager<'a> {
    /// Free pages.
    pub closed spec fn free_count(&self) -> nat {
        self.free_pages as nat
    }

    /// Pages in use.
    pub closed spec fn allocated_count(&self) -> nat {
        self.allocated_pages as nat
    }

    /// Pages in use at `level`.
    pub closed spec fn level_count(&self, level: SovereigntyLevel) -> nat {
        self.sovereignty_stats.count_of(level)
    }

    /// The live page records, in order of allocation.
    pub closed spec fn pages(&self) -> Seq<ConstitutionalPage> {
        self.pages@
    }

    /// The address the next allocation receives.
    pub closed spec fn next_handle(&self) -> usize {
        self.next_address
    }

    /// The oracle that rules on allocations.
    pub closed spec fn policy(&self) -> ConstitutionalOracle {
        *self.oracle
    }

    /// Counters and records agree, and record addresses strictly increase.
    pub closed spec fn wf(&self) -> bool {
        &&& self.free_pages + self.allocated_pages == TOTAL_PAGES
        &&& self.sovereignty_stats.total() == self.allocated_pages
        &&& forall|l: SovereigntyLevel| #[trigger]
            self.sovereignty_stats.count_of(l) == pages_at(self.pages@, l)
        &&& self.next_address >= HEAP_BASE
        &&& forall|i: int|
            0 <= i < self.pages@.len() ==> #[trigger] self.pages@[i].address < self.next_address
        &&& forall|i: int, j: int|
            0 <= i < j < self.pages@.len() ==> #[trigger] self.pages@[i].address
                < #[trigger] self.pages@[j].address
    }

    /// The page counters agree: free and allocated pages make up the whole
    /// pool, and the per-level counters add up to the allocated pages.
    pub proof fn lemma_counters_consistent(&self)
        requires
            self.wf(),
        ensures
            self.free_count() + self.allocated_count() == TOTAL_PAGES,
            self.level_count(SovereigntyLevel::Sovereign) + self.level_count(SovereigntyLevel::Protected)
                + self.level_count(SovereigntyLevel::Public) + self.level_count(SovereigntyLevel::Private)
                == self.allocated_count(),
    {
    }

    /// `n` pages fit both in the free pool and in the address window.
    pub open spec fn can_reserve(&self, n: usize) -> bool {
        n <= self.free_count() && self.next_handle() + n * PAGE_SIZE <= usize::MAX
    }

    /// `self` is `old` after reserving `n` pages at `level` for `owner`.
    pub open spec fn reserved_from(&self, old: &Self, owner: ProcessId, n: usize, level: SovereigntyLevel) -> bool {
        &&& self.wf()
        &&& self.free_count() == old.free_count() - n
        &&& self.allocated_count() == old.allocated_count() + n
        &&& forall|l: SovereigntyLevel| #[trigger]
            self.level_count(l) == old.level_count(l) + if l == level {
                n as nat
            } else {
                0
            }
        &&& self.pages() == old.pages().push(
            page_record(old.next_handle(), owner, n, level, old.policy().policy_hash()),
        )
        &&& self.next_handle() == old.next_handle() + n * PAGE_SIZE
        &&& self.policy() == old.policy()
    }

    /// The outcome of asking `old` for `n` pages at `level` on behalf of
    /// `owner`: `r` is returned and the manager becomes `new`.
    pub open spec fn allocation_outcome(
        old: &Self,
        new: &Self,
        owner: ProcessId,
        n: usize,
        level: SovereigntyLevel,
        r: Result<usize, MemoryError>,
    ) -> bool {
        if n == 0 {
            r matches Err(MemoryError::InvalidSize) && new == old
        } else {
            match memory_rule(level, Context::KernelOperation) {
                Verdict::Violation(reason) => {
                    &&& r matches Err(MemoryError::ConstitutionalViolation(s))
                    &&& s@ == reason
                    &&& new == old
                },
                Verdict::NeedsReview => {
                    &&& r matches Err(MemoryError::ConstitutionalViolation(s))
                    &&& s@ == REVIEW_DENIED@
                    &&& new == old
                },
                Verdict::Compliant => if old.can_reserve(n) {
                    r == Ok::<usize, MemoryError>(old.next_handle()) && new.reserved_from(
                        old,
                        owner,
                        n,
                        level,
                    )
                } else {
                    r matches Err(MemoryError::OutOfMemory) && new == old
                },
            }
        }
    }

    /// The outcome of returning `n` pages at `address` to `old`: `r` is
    /// returned and the manager becomes `new`.
    pub open spec fn release_outcome(
        old: &Self,
        new: &Self,
        address: usize,
        n: usize,
        r: Result<(), MemoryError>,
    ) -> bool {
        if !holds_page(old.pages(), address) {
            r matches Err(MemoryError::PermissionDenied) && new == old
        } else {
            let i = page_index(old.pages(), address);
            let page = old.pages()[i];
            if page.num_pages != n {
                r matches Err(MemoryError::InvalidSize) && new == old
            } else {
                &&& r == Ok::<(), MemoryError>(())
                &&& new.wf()
                &&& new.free_count() == old.free_count() + n
                &&& new.allocated_count() == old.allocated_count() - n
                &&& forall|l: SovereigntyLevel| #[trigger]
                    new.level_count(l) == old.level_count(l) - if l == page.sovereignty_level {
                        n as nat
                    } else {
                        0
                    }
                &&& new.pages() == old.pages().remove(i)
                &&& new.next_handle() == old.next_handle()
                &&& new.policy() == old.policy()
            }
        }
    }

    /// Initialize the memory manager over `TOTAL_MEMORY` bytes, all free.
    pub fn init(oracle: &'a ConstitutionalOracle, sovereignty: &'a SovereigntyManager) -> (r: Self)
        ensures
            r.wf(),
            r.free_count() == TOTAL_PAGES,
            r.allocated_count() == 0,
            forall|l: SovereigntyLevel| #[trigger] r.level_count(l) == 0,
            r.pages() == Seq::<ConstitutionalPage>::empty(),
            r.next_handle() == HEAP_BASE,
            r.policy() == *oracle,
    {
        MemoryManager {
            oracle,
            sovereignty,
            allocated_pages: 0,
            free_pages: TOTAL_PAGES,
            sovereignty_stats: SovereigntyStats {
                sovereign_pages: 0,
                protected_pages: 0,
                public_pages: 0,
                private_pages: 0,
            },
            pages: Vec::new(),
            next_address: HEAP_BASE,
        }
    }

    /// Allocate `num_pages` pages at `sovereignty_level`, owned by the kernel.
    pub fn allocate_pages(&mut self, num_pages: usize, sovereignty_level: SovereigntyLevel) -> (r:
        Result<usize, MemoryError>)
        requires
            old(self).wf(),
        ensures
            final(self).wf(),
            Self::allocation_outcome(
                &*old(self),
                &*final(self),
                ProcessId(KERNEL_PROCESS),
                num_pages,
                sovereignty_level,
                r,
            ),
    {
        self.allocate_pages_for(ProcessId(KERNEL_PROCESS), num_pages, sovereignty_level)
    }

    /// Allocate `num_pages` pages at `sovereignty_level` on behalf of `owner`.
    /// The oracle rules on the request as a kernel operation; pages are
    /// reserved only on a compliant verdict.
    pub fn allocate_pages_for(
        &mut self,
        owner: ProcessId,
        num_pages: usize,
        sovereignty_level: SovereigntyLevel,
    ) -> (r: Result<usize, MemoryError>)
        requires
            old(self).wf(),
        ensures
            final(self).wf(),
            Self::allocation_outcome(&*old(self), &*final(self), owner, num_pages, sovereignty_level, r),
    {
        if num_pages == 0 {
            return Err(MemoryError::InvalidSize);
        }
        let total_size = match num_pages.checked_mul(PAGE_SIZE) {
            Some(size) => size,
            None => usize::MAX,
        };
        let verification = self.oracle.verify_operation(
            Operation::MemoryAllocation { size: total_size, level: sovereignty_level },
            &Context::KernelOperation,
        );
        match verification {
            VerificationResult::Compliant => self.perform_allocation(owner, num_pages, sovereignty_level),
            VerificationResult::Violation(reason) => Err(MemoryError::ConstitutionalViolation(reason)),
            VerificationResult::NeedsReview => {
                // Deferred requests are denied: the allocator never escalates
                Err(MemoryError::ConstitutionalViolation(REVIEW_DENIED.to_owned()))
            },
        }
    }

    /// Return the `num_pages` pages allocated at `address`. The sovereignty
    /// class is taken from the stored record, never from the caller. An
    /// address that starts no record is `PermissionDenied`; a page count that
    /// differs from the record's is `InvalidSize`.
    pub fn free_pages(&mut self, address: usize, num_pages: usize) -> (r: Result<(), MemoryError>)
        requires
            old(self).wf(),
        ensures
            final(self).wf(),
            Self::release_outcome(&*old(self), &*final(self), address, num_pages, r),
    {
        match self.find_page(address) {
            None => Err(MemoryError::PermissionDenied),
            Some(i) => {
                if self.pages[i].num_pages != num_pages {
                    Err(MemoryError::InvalidSize)
                } else {
                    self.perform_deallocation(i);
                    Ok(())
                }
            },
        }
    }

    /// Memory statistics.
    pub fn get_stats(&self) -> (r: MemoryStats)
        requires
            self.wf(),
        ensures
            r.total_memory == TOTAL_MEMORY,
            r.allocated_memory == self.allocated_count() * PAGE_SIZE,
            r.free_memory == self.free_count() * PAGE_SIZE,
            r.allocated_memory + r.free_memory == r.total_memory,
            r.sovereignty_stats.total() * PAGE_SIZE == r.allocated_memory,
            forall|l: SovereigntyLevel| #[trigger]
                r.sovereignty_stats.count_of(l) == self.level_count(l),
    {
        MemoryStats {
            total_memory: TOTAL_MEMORY,
            allocated_memory: self.allocated_pages * PAGE_SIZE,
            free_memory: self.free_pages * PAGE_SIZE,
            sovereignty_stats: self.sovereignty_stats,
        }
    }

    /// Free pages, as a count.
    pub fn free_page_count(&self) -> (r: usize)
        ensures
            r == self.free_count(),
    {
        self.free_pages
    }

    /// Sovereignty access to a memory region: every requester is admitted,
    /// since no per-region access policy is defined.
    pub fn verify_sovereignty_access(
        &self,
        address: usize,
        access_type: AccessType,
        requester_sovereignty: SovereigntyLevel,
    ) -> (r: bool)
        ensures
            r,
    {
        true
    }

    /// Position of the record that starts at `address`.
    fn find_page(&self, address: usize) -> (r: Option<usize>)
        requires
            self.wf(),
        ensures
            r is None <==> !holds_page(self.pages(), address),
            r matches Some(i) ==> i == page_index(self.pages(), address) && i < self.pages().len(),
    {
        let mut i: usize = 0;
        while i < self.pages.len()
            invariant
                self.wf(),
                i <= self.pages@.len(),
                forall|k: int| 0 <= k < i ==> self.pages@[k].address != address,
            decreases self.pages@.len() - i,
        {
            if self.pages[i].address == address {
                assert(holds_page(self.pages(), address));
                let ghost j = page_index(self.pages(), address);
                assert(j == i) by {
                    if j < i {
                        assert(self.pages@[j].address < self.pages@[i as int].address);
                    } else if j > i {
                        assert(self.pages@[i as int].address < self.pages@[j].address);
                    }
                }
                return Some(i);
            }
            i = i + 1;
        }
        None
    }

    fn perform_allocation(&mut self, owner: ProcessId, num_pages: usize, sovereignty_level: SovereigntyLevel) -> (r:
        Result<usize, MemoryError>)
        requires
            old(self).wf(),
            num_pages > 0,
        ensures
            final(self).wf(),
            old(self).can_reserve(num_pages) ==> r == Ok::<usize, MemoryError>(old(self).next_handle())
                && final(self).reserved_from(&*old(self), owner, num_pages, sovereignty_level),
            !old(self).can_reserve(num_pages) ==> (r matches Err(MemoryError::OutOfMemory)) && *final(self)
                == *old(self),
    {
        if self.free_pages < num_pages {
            return Err(MemoryError::OutOfMemory);
        }
        let size = num_pages * PAGE_SIZE;
        if self.next_address > usize::MAX - size {
            return Err(MemoryError::OutOfMemory);
        }
        let address = self.next_address;
        let page = ConstitutionalPage {
            address,
            size,
            num_pages,
            sovereignty_level,
            allocated_by: owner,
            allocation_time: crate::kernel::get_timestamp(),
            pivc_score: 0,
            access_flags: ConstitutionalFlags::for_allocation(sovereignty_level),
            verification_proof: self.oracle.get_constitution_hash(),
        };
        proof {
            lemma_pages_at_push(self.pages@, page);
        }
        self.pages.push(page);
        self.next_address = address + size;
        self.allocated_pages = self.allocated_pages + num_pages;
        self.free_pages = self.free_pages - num_pages;
        self.sovereignty_stats.add(sovereignty_level, num_pages);
        Ok(address)
    }

    /// A request for zero pages is rejected as `InvalidSize` whatever the
    /// level, and the manager is left exactly as it was.
    pub proof fn zero_page_request_rejected(
        old: &Self,
        new: &Self,
        owner: ProcessId,
        level: SovereigntyLevel,
        r: Result<usize, MemoryError>,
    )
        requires
            Self::allocation_outcome(old, new, owner, 0, level, r),
        ensures
            r matches Err(MemoryError::InvalidSize),
            new == old,
    {
    }

    /// The allocator asks as a kernel operation, which is not a sovereign
    /// process: a non-empty request for sovereign pages always ends in a
    /// constitutional violation, and nothing is reserved.
    pub proof fn sovereign_request_refused(
        old: &Self,
        new: &Self,
        owner: ProcessId,
        n: usize,
        r: Result<usize, MemoryError>,
    )
        requires
            n > 0,
            Self::allocation_outcome(old, new, owner, n, SovereigntyLevel::Sovereign, r),
        ensures
            r matches Err(MemoryError::ConstitutionalViolation(s)) && s@ == SOVEREIGN_MEMORY_DENIED@,
            new == old,
    {
    }

    /// Freeing the `n` pages that an allocation of `n` pages at `level` just
    /// returned succeeds, and restores the free pool, the per-level counters
    /// and the page records to what they were before the allocation.
    pub proof fn allocation_round_trip(
        m0: &Self,
        m1: &Self,
        m2: &Self,
        owner: ProcessId,
        n: usize,
        level: SovereigntyLevel,
        handle: usize,
        r: Result<(), MemoryError>,
    )
        requires
            m0.wf(),
            Self::allocation_outcome(m0, m1, owner, n, level, Ok(handle)),
            Self::release_outcome(m1, m2, handle, n, r),
        ensures
            r == Ok::<(), MemoryError>(()),
            m2.free_count() == m0.free_count(),
            m2.allocated_count() == m0.allocated_count(),
            forall|l: SovereigntyLevel| #[trigger] m2.level_count(l) == m0.level_count(l),
            m2.pages() == m0.pages(),
    {
        let last = m0.pages().len() as int;
        assert(m1.pages()[last].address == handle);
        assert(holds_page(m1.pages(), handle));
        let i = page_index(m1.pages(), handle);
        assert(i == last) by {
            if i < last {
                assert(m1.pages()[i] == m0.pages()[i]);
            }
        }
        assert(m1.pages().remove(last) =~= m0.pages());
    }

    fn perform_deallocation(&mut self, index: usize)
        requires
            old(self).wf(),
            index < old(self).pages().len(),
        ensures
            final(self).wf(),
            final(self).free_count() == old(self).free_count() + old(self).pages()[index as int].num_pages,
            final(self).allocated_count() == old(self).allocated_count() - old(self).pages()[index as int].num_pages,
            forall|l: SovereigntyLevel| #[trigger]
                final(self).level_count(l) == old(self).level_count(l) - if l == old(self).pages()[index as int].sovereignty_level {
                    old(self).pages()[index as int].num_pages as nat
                } else {
                    0
                },
            final(self).pages() == old(self).pages().remove(index as int),
            final(self).next_handle() == old(self).next_handle(),
            final(self).policy() == old(self).policy(),
    {
        let ghost before = self.pages@;
        let level = self.pages[index].sovereignty_level;
        let n = self.pages[index].num_pages;
        proof {
            lemma_pages_at_remove_all(before, index as int);
            assert(pages_at(before.remove(index as int), level) + n == pages_at(before, level));
        }
        self.pages.remove(index);
        self.sovereignty_stats.subtract(level, n);
        self.allocated_pages = self.allocated_pages - n;
        self.free_pages = self.free_pages + n;
        proof {
            before.remove_ensures(index as int);
        }
    }
}

/// Page-granular front end of the allocator for byte-sized requests: the
/// logic behind the kernel's global allocator.
pub struct ConstitutionalAllocator<'a> {
    manager: Option<MemoryManager<'a>>,
}

/// Pages needed to hold `size` bytes.
pub open spec fn pages_for(size: usize) -> usize {
    (size / PAGE_SIZE + if size % PAGE_SIZE != 0 { 1usize } else { 0usize }) as usize
}

impl<'a> ConstitutionalAllocator<'a> {
    /// The manager behind the allocator, once installed.
    pub closed spec fn backing(&self) -> Option<MemoryManager<'a>> {
        self.manager
    }

    /// An allocator with no manager installed yet.
    pub fn new() -> (r: Self)
        ensures
            r.backing() is None,
    {
        ConstitutionalAllocator { manager: None }
    }

    /// Install the memory manager that serves requests.
    pub fn init(&mut self, manager: MemoryManager<'a>)
        ensures
            final(self).backing() == Some(manager),
    {
        self.manager = Some(manager);
    }

    /// Allocate `size` bytes as public pages owned by the kernel; `None` when
    /// no manager is installed or the request is refused.
    pub fn alloc_bytes(&mut self, size: usize) -> (r: Option<usize>)
        requires
            old(self).backing() matches Some(m) ==> m.wf(),
        ensures
            old(self).backing() is None ==> r is None && final(self).backing() is None,
            old(self).backing() matches Some(m) ==> {
                &&& final(self).backing() matches Some(m2)
                &&& m2.wf()
                &&& exists|res: Result<usize, MemoryError>|
                    MemoryManager::allocation_outcome(
                        &m,
                        &m2,
                        ProcessId(KERNEL_PROCESS),
                        pages_for(size),
                        SovereigntyLevel::Public,
                        res,
                    ) && r == match res {
                        Ok(a) => Some(a),
                        Err(_) => None::<usize>,
                    }
            },
    {
        match self.manager.take() {
            None => None,
            Some(mut manager) => {
                let ghost before = manager;
                let num_pages = size / PAGE_SIZE + if size % PAGE_SIZE != 0 { 1usize } else { 0usize };
                let res = manager.allocate_pages(num_pages, SovereigntyLevel::Public);
                assert(MemoryManager::allocation_outcome(
                    &before,
                    &manager,
                    ProcessId(KERNEL_PROCESS),
                    pages_for(size),
                    SovereigntyLevel::Public,
                    res,
                ));
                self.manager = Some(manager);
                let r = match res {
                    Ok(address) => Some(address),
                    Err(_) => None,
                };
                assert(r == match res {
                    Ok(a) => Some(a),
                    Err(_) => None::<usize>,
                });
                r
            },
        }
    }

    /// Return the `size` bytes allocated at `address`.
    pub fn dealloc_bytes(&mut self, address: usize, size: usize)
        requires
            old(self).backing() matches Some(m) ==> m.wf(),
        ensures
            old(self).backing() is None ==> final(self).backing() is None,
            old(self).backing() matches Some(m) ==> {
                &&& final(self).backing() matches Some(m2)
                &&& m2.wf()
                &&& exists|res: Result<(), MemoryError>|
                    MemoryManager::release_outcome(&m, &m2, address, pages_for(size), res)
            },
    {
        match self.manager.take() {
            None => {},
            Some(mut manager) => {
                let ghost before = manager;
                let num_pages = size / PAGE_SIZE + if size % PAGE_SIZE != 0 { 1usize } else { 0usize };
                let res = manager.free_pages(address, num_pages);
                assert(MemoryManager::release_outcome(&before, &manager, address, pages_for(size), res));
                self.manager = Some(manager);
            },
        }
    }
}

} // verus!
