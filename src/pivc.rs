//! Impact tracker: per-process impact scores, the scoring formula, and the
//! strategies that apportion a shared resource budget by impact.

use vstd::prelude::*;
use vstd::string::StringExecFns;
use crate::constitutional::{
    operation_rule, storage_rule, ConstitutionalOracle, Context, Operation, Verdict,
    VerificationResult, PERMANENT, SOVEREIGN_CLASS,
};
use crate::memory::{ProcessId, SovereigntyLevel};
use crate::table::{
    find_entry, lemma_entry_count_bounded, lemma_entry_at, lemma_table_view_len, sorted_by_pid, table_view, upsert_entry,
};
use crate::text::{contains_seq, occurs_at};

verus! {

/// Upper bound of every score component and of the total.
pub const SCORE_CAP: u32 = 100;

/// Data tag under which a registered score is stored.
pub const SCORE_TAG: &'static str = "pivc_score_";

/// Data tag under which a score update is stored.
pub const UPDATE_TAG: &'static str = "pivc_update_";

/// Persistence class of registered scores.
pub const PROCESS_LIFETIME: &'static str = "process_lifetime";

/// Data tag of a change of optimization mode.
pub const MODE_CHANGE_TAG: &'static str = "pivc_optimization_mode_change";

/// Persistence class of system configuration.
pub const SYSTEM_CONFIGURATION: &'static str = "system_configuration";

/// Data tag of an impact measurement.
pub const MEASUREMENT_TAG: &'static str = "operation_impact_measurement";

/// Persistence class of transient data.
pub const TEMPORARY: &'static str = "temporary";

/// Impact score of a process.
#[derive(Debug, Clone, Copy, PartialEq, Eq, Structural)]
pub struct ImpactScore {
    /// Knowledge contribution (0-100)
    pub knowledge: u32,
    /// Application impact (0-100)
    pub application: u32,
    /// Societal contribution (0-100)
    pub contribution: u32,
    /// Total calculated score (0-100)
    pub total: u32,
    /// Verified by constitutional oracle
    pub verified_by_oracle: bool,
}

/// `round(0.3 * knowledge + 0.4 * application + 0.3 * contribution)`, halves
/// rounded up, capped at `SCORE_CAP`.
pub open spec fn weighted_total(knowledge: u32, application: u32, contribution: u32) -> int {
    let t = (3 * knowledge + 4 * application + 3 * contribution + 5) / 10;
    if t > SCORE_CAP {
        SCORE_CAP as int
    } else {
        t
    }
}

/// `score` with its total recomputed from its components.
pub open spec fn recomputed(score: ImpactScore) -> ImpactScore {
    ImpactScore {
        knowledge: score.knowledge,
        application: score.application,
        contribution: score.contribution,
        total: weighted_total(score.knowledge, score.application, score.contribution) as u32,
        verified_by_oracle: score.verified_by_oracle,
    }
}

/// Every component lies in `0..=SCORE_CAP`.
pub open spec fn components_valid(score: ImpactScore) -> bool {
    score.knowledge <= SCORE_CAP && score.application <= SCORE_CAP && score.contribution <= SCORE_CAP
}

impl ImpactScore {
    /// Recompute the total from the components with the fixed weighting.
    pub fn calculate_total(&mut self)
        ensures
            *final(self) == recomputed(*old(self)),
    {
        let weighted: u64 = 3 * (self.knowledge as u64) + 4 * (self.application as u64) + 3 * (
        self.contribution as u64) + 5;
        let t = weighted / 10;
        self.total = if t > SCORE_CAP as u64 {
            SCORE_CAP
        } else {
            t as u32
        };
    }

    /// Zero impact score.
    pub fn zero() -> (r: Self)
        ensures
            r == (ImpactScore {
                knowledge: 0,
                application: 0,
                contribution: 0,
                total: 0,
                verified_by_oracle: false,
            }),
    {
        ImpactScore {
            knowledge: 0,
            application: 0,
            contribution: 0,
            total: 0,
            verified_by_oracle: false,
        }
    }

    /// Maximum impact score, for system processes.
    pub fn maximum() -> (r: Self)
        ensures
            r == (ImpactScore {
                knowledge: 100,
                application: 100,
                contribution: 100,
                total: 100,
                verified_by_oracle: true,
            }),
    {
        ImpactScore {
            knowledge: 100,
            application: 100,
            contribution: 100,
            total: 100,
            verified_by_oracle: true,
        }
    }
}

/// Recomputing the total is idempotent, and the total never exceeds the cap.
pub proof fn total_recompute_idempotent(score: ImpactScore)
    ensures
        recomputed(recomputed(score)) == recomputed(score),
        recomputed(score).total <= SCORE_CAP,
{
}

/// The character of decimal digit `d`.
pub open spec fn digit_char(d: nat) -> char {
    if d == 0 {
        '0'
    } else if d == 1 {
        '1'
    } else if d == 2 {
        '2'
    } else if d == 3 {
        '3'
    } else if d == 4 {
        '4'
    } else if d == 5 {
        '5'
    } else if d == 6 {
        '6'
    } else if d == 7 {
        '7'
    } else if d == 8 {
        '8'
    } else {
        '9'
    }
}

/// Decimal digits of `n`, most significant first, without leading zeros.
pub open spec fn decimal(n: nat) -> Seq<char>
    decreases n,
{
    if n < 10 {
        seq![digit_char(n)]
    } else {
        decimal(n / 10).push(digit_char(n % 10))
    }
}

/// The one-character text of decimal digit `d`.
fn digit_text(d: u32) -> (r: &'static str)
    requires
        d < 10,
    ensures
        r@ == seq![digit_char(d as nat)],
{
    proof {
        reveal_strlit("0");
        reveal_strlit("1");
        reveal_strlit("2");
        reveal_strlit("3");
        reveal_strlit("4");
        reveal_strlit("5");
        reveal_strlit("6");
        reveal_strlit("7");
        reveal_strlit("8");
        reveal_strlit("9");
    }
    let r = if d == 0 {
        "0"
    } else if d == 1 {
        "1"
    } else if d == 2 {
        "2"
    } else if d == 3 {
        "3"
    } else if d == 4 {
        "4"
    } else if d == 5 {
        "5"
    } else if d == 6 {
        "6"
    } else if d == 7 {
        "7"
    } else if d == 8 {
        "8"
    } else {
        "9"
    };
    assert(r@ =~= seq![digit_char(d as nat)]);
    r
}

/// The decimal digits of `n`, without sign or leading zeros.
fn decimal_string(n: u32) -> (r: String)
    ensures
        r@ == decimal(n as nat),
    decreases n,
{
    if n < 10 {
        digit_text(n).to_owned()
    } else {
        let mut text = decimal_string(n / 10);
        text.append(digit_text(n % 10));
        assert(text@ =~= decimal(n as nat));
        text
    }
}

/// Data descriptor under which the score of `pid` is registered.
pub fn score_tag(pid: ProcessId) -> (r: String)
    ensures
        r@ == SCORE_TAG@ + decimal(pid.0 as nat),
{
    SCORE_TAG.to_owned().concat(decimal_string(pid.0).as_str())
}

/// Data descriptor under which an update of `pid`'s score is stored.
pub fn update_tag(pid: ProcessId) -> (r: String)
    ensures
        r@ == UPDATE_TAG@ + decimal(pid.0 as nat),
{
    UPDATE_TAG.to_owned().concat(decimal_string(pid.0).as_str())
}

proof fn lemma_decimal_has_no(n: nat, c: char)
    requires
        c != '0' && c != '1' && c != '2' && c != '3' && c != '4' && c != '5' && c != '6' && c
            != '7' && c != '8' && c != '9',
    ensures
        forall|i: int| 0 <= i < decimal(n).len() ==> decimal(n)[i] != c,
    decreases n,
{
    if n >= 10 {
        lemma_decimal_has_no(n / 10, c);
        let d = digit_char(n % 10);
        assert(d != c);
        assert forall|i: int| 0 <= i < decimal(n).len() implies decimal(n)[i] != c by {
            if i < decimal(n / 10).len() {
                assert(decimal(n)[i] == decimal(n / 10)[i]);
            } else {
                assert(decimal(n)[i] == d);
            }
        }
    } else {
        assert(digit_char(n) != c);
    }
}

/// The stored form of an update of `pid`'s score never mentions sovereign data.
proof fn lemma_update_tag_not_sovereign(pid: u32)
    ensures
        !contains_seq(UPDATE_TAG@ + decimal(pid as nat), SOVEREIGN_CLASS@),
{
    reveal_strlit("pivc_update_");
    reveal_strlit("sovereign");
    let data = UPDATE_TAG@ + decimal(pid as nat);
    lemma_decimal_has_no(pid as nat, 's');
    assert forall|i: int| !occurs_at(data, SOVEREIGN_CLASS@, i) by {
        if occurs_at(data, SOVEREIGN_CLASS@, i) {
            assert(data.subrange(i, i + 9)[0] == 's');
            assert(data[i] == 's');
            if i < 12 {
                assert(UPDATE_TAG@[i] == 's');
            } else {
                assert(decimal(pid as nat)[i - 12] == 's');
            }
        }
    }
}

/// Strategy for apportioning a resource budget.
#[derive(Debug, Clone, Copy, PartialEq, Eq, Structural)]
pub enum PivcOptimizationMode {
    /// Maximize collective impact across all processes
    MaximizeCollectiveImpact,
    /// Ensure fairness in resource distribution
    EnsureFairness,
    /// Preserve user sovereignty above all
    PreserveSovereignty,
    /// Emergency mode - prioritize system stability
    EmergencyMode,
}

/// Impact tracker errors.
#[derive(Debug, PartialEq)]
pub enum PivcError {
    ProcessNotRegistered,
    InvalidScore,
    ConstitutionalViolation,
}

/// System-wide impact statistics.
#[derive(Debug)]
pub struct PivcSystemStats {
    pub total_processes: usize,
    pub verified_processes: usize,
    pub average_score: u32,
    pub system_total_pivc: u64,
    pub optimization_mode: PivcOptimizationMode,
}

/// A resource budget split among processes, in ascending `ProcessId` order,
/// with what was left unassigned.
#[derive(Debug)]
pub struct PivcAllocation {
    pub allocations: Vec<(ProcessId, u64)>,
    pub unallocated: u64,
}

/// Sum of the totals of the entries.
pub open spec fn sum_totals(s: Seq<(ProcessId, ImpactScore)>) -> nat
    decreases s.len(),
{
    if s.len() == 0 {
        0
    } else {
        sum_totals(s.drop_last()) + s.last().1.total as nat
    }
}

/// Number of entries verified by the oracle.
pub open spec fn count_verified(s: Seq<(ProcessId, ImpactScore)>) -> nat
    decreases s.len(),
{
    if s.len() == 0 {
        0
    } else {
        count_verified(s.drop_last()) + if s.last().1.verified_by_oracle {
            1nat
        } else {
            0nat
        }
    }
}

/// Scheduling priority of `pid`: the total of a verified score, half the
/// total of an unverified one, 0 for an unknown process.
pub open spec fn priority(scores: Map<ProcessId, ImpactScore>, pid: ProcessId) -> u32 {
    if !scores.contains_key(pid) {
        0
    } else if scores[pid].verified_by_oracle {
        scores[pid].total
    } else {
        scores[pid].total / 2
    }
}

proof fn lemma_sum_totals_bounded(s: Seq<(ProcessId, ImpactScore)>)
    requires
        forall|i: int| 0 <= i < s.len() ==> (#[trigger] s[i]).1.total <= SCORE_CAP,
    ensures
        sum_totals(s) <= SCORE_CAP * s.len(),
    decreases s.len(),
{
    if s.len() > 0 {
        lemma_sum_totals_bounded(s.drop_last());
    }
}

proof fn lemma_count_verified_bounded(s: Seq<(ProcessId, ImpactScore)>)
    ensures
        count_verified(s) <= s.len(),
    decreases s.len(),
{
    if s.len() > 0 {
        lemma_count_verified_bounded(s.drop_last());
    }
}

/// A process that is not registered has priority 0.
pub proof fn unknown_process_has_no_priority(scores: Map<ProcessId, ImpactScore>, pid: ProcessId)
    requires
        !scores.contains_key(pid),
    ensures
        priority(scores, pid) == 0,
{
}

/// Proportional share of `total` impact out of a pool of `resources` split
/// among `n` processes: `floor(total * resources / (100 * n))`.
pub open spec fn impact_share(total: u32, resources: u64, n: nat) -> u64 {
    ((total as int * resources as int) / (100 * n as int)) as u64
}

/// Fair share: the equal base `resources / n` plus a bonus of
/// `floor(total * base / 200)`, saturating at `u64::MAX`.
pub open spec fn fairness_share(total: u32, resources: u64, n: nat) -> u64 {
    let base = resources as int / n as int;
    let amount = base + (total as int * base) / 200;
    if amount > u64::MAX {
        u64::MAX
    } else {
        amount as u64
    }
}

/// Every process receives its proportional share, in process-id order.
pub open spec fn impact_plan(s: Seq<(ProcessId, ImpactScore)>, resources: u64) -> Seq<(ProcessId, u64)> {
    Seq::new(s.len(), |i: int| (s[i].0, impact_share(s[i].1.total, resources, s.len())))
}

/// Every process receives its fair share, in process-id order.
pub open spec fn fairness_plan(s: Seq<(ProcessId, ImpactScore)>, resources: u64) -> Seq<(ProcessId, u64)> {
    Seq::new(s.len(), |i: int| (s[i].0, fairness_share(s[i].1.total, resources, s.len())))
}

/// Process designated system-critical: the init process.
pub const CRITICAL_PROCESS: u32 = 1;

/// `pid` belongs to the priority group of `mode`: sovereign-level processes
/// when preserving sovereignty, the designated critical process in an
/// emergency, nobody otherwise.
pub open spec fn group_member(
    mode: PivcOptimizationMode,
    levels: Map<ProcessId, SovereigntyLevel>,
    pid: ProcessId,
) -> bool {
    match mode {
        PivcOptimizationMode::PreserveSovereignty => levels.contains_key(pid) && levels[pid]
            == SovereigntyLevel::Sovereign,
        PivcOptimizationMode::EmergencyMode => pid.0 == CRITICAL_PROCESS,
        _ => false,
    }
}

/// Number of entries of `s` in the first pass (`first`) or in the second.
pub open spec fn pass_size(
    s: Seq<(ProcessId, ImpactScore)>,
    mode: PivcOptimizationMode,
    levels: Map<ProcessId, SovereigntyLevel>,
    first: bool,
) -> nat
    decreases s.len(),
{
    if s.len() == 0 {
        0
    } else {
        pass_size(s.drop_last(), mode, levels, first) + if group_member(mode, levels, s.last().0)
            == first {
            1nat
        } else {
            0nat
        }
    }
}

/// Sum of the proportional shares of `resources` among `n`, over the entries
/// of `s` in the given pass.
pub open spec fn pass_shares(
    s: Seq<(ProcessId, ImpactScore)>,
    resources: u64,
    n: nat,
    mode: PivcOptimizationMode,
    levels: Map<ProcessId, SovereigntyLevel>,
    first: bool,
) -> nat
    decreases s.len(),
{
    if s.len() == 0 {
        0
    } else {
        pass_shares(s.drop_last(), resources, n, mode, levels, first) + if group_member(
            mode,
            levels,
            s.last().0,
        ) == first {
            impact_share(s.last().1.total, resources, n) as nat
        } else {
            0nat
        }
    }
}

/// What the priority group leaves of the pool for the other processes.
pub open spec fn group_remainder(
    s: Seq<(ProcessId, ImpactScore)>,
    levels: Map<ProcessId, SovereigntyLevel>,
    mode: PivcOptimizationMode,
    resources: u64,
) -> u64 {
    (resources - pass_shares(s, resources, pass_size(s, mode, levels, true), mode, levels, true)) as u64
}

/// Two proportional passes: the priority group of `mode` splits the whole
/// pool first; the other processes split what the group leaves. Amounts are
/// listed in process-id order.
pub open spec fn priority_plan(
    s: Seq<(ProcessId, ImpactScore)>,
    levels: Map<ProcessId, SovereigntyLevel>,
    mode: PivcOptimizationMode,
    resources: u64,
) -> Seq<(ProcessId, u64)> {
    let first = pass_size(s, mode, levels, true);
    let second = pass_size(s, mode, levels, false);
    let rest = group_remainder(s, levels, mode, resources);
    Seq::new(
        s.len(),
        |i: int|
            (s[i].0, if group_member(mode, levels, s[i].0) {
                impact_share(s[i].1.total, resources, first)
            } else {
                impact_share(s[i].1.total, rest, second)
            }),
    )
}

/// The plan of `mode`.
pub open spec fn allocation_plan(
    mode: PivcOptimizationMode,
    s: Seq<(ProcessId, ImpactScore)>,
    levels: Map<ProcessId, SovereigntyLevel>,
    resources: u64,
) -> Seq<(ProcessId, u64)> {
    match mode {
        PivcOptimizationMode::MaximizeCollectiveImpact => impact_plan(s, resources),
        PivcOptimizationMode::EnsureFairness => fairness_plan(s, resources),
        _ => priority_plan(s, levels, mode, resources),
    }
}

/// Sum of the amounts of a plan.
pub open spec fn allotted(p: Seq<(ProcessId, u64)>) -> nat
    decreases p.len(),
{
    if p.len() == 0 {
        0
    } else {
        allotted(p.drop_last()) + p.last().1 as nat
    }
}

/// What a plan leaves of the pool; 0 when it hands out more than the pool.
pub open spec fn leftover(resources: u64, p: Seq<(ProcessId, u64)>) -> u64 {
    if allotted(p) <= resources {
        (resources - allotted(p)) as u64
    } else {
        0
    }
}

proof fn lemma_share_bounded(t: int, r: int, n: int)
    requires
        0 <= t <= 100,
        n >= 1,
        r >= 0,
    ensures
        0 <= (t * r) / (100 * n) <= r,
{
    assert(t * r <= (100 * n) * r) by (nonlinear_arith)
        requires
            0 <= t <= 100,
            n >= 1,
            r >= 0,
    ;
    assert(0 <= t * r) by (nonlinear_arith)
        requires
            t >= 0,
            r >= 0,
    ;
    vstd::arithmetic::div_mod::lemma_div_is_ordered(t * r, (100 * n) * r, 100 * n);
    vstd::arithmetic::mul::lemma_mul_is_commutative(100 * n, r);
    vstd::arithmetic::div_mod::lemma_div_multiples_vanish(r, 100 * n);
    vstd::arithmetic::div_mod::lemma_div_pos_is_pos(t * r, 100 * n);
}

proof fn lemma_bonus_bounded(t: int, base: int)
    requires
        0 <= t <= 100,
        base >= 0,
    ensures
        0 <= (t * base) / 200 <= base,
{
    assert(t * base <= 200 * base) by (nonlinear_arith)
        requires
            0 <= t <= 100,
            base >= 0,
    ;
    assert(0 <= t * base) by (nonlinear_arith)
        requires
            t >= 0,
            base >= 0,
    ;
    vstd::arithmetic::div_mod::lemma_div_is_ordered(t * base, 200 * base, 200);
    vstd::arithmetic::div_mod::lemma_div_multiples_vanish(base, 200);
    vstd::arithmetic::div_mod::lemma_div_pos_is_pos(t * base, 200);
}

proof fn lemma_share_times_n(t: int, r: int, n: int)
    requires
        0 <= t <= 100,
        n >= 1,
        r >= 0,
    ensures
        ((t * r) / (100 * n)) * n <= r,
{
    let d = 100 * n;
    let a = (t * r) / d;
    vstd::arithmetic::div_mod::lemma_fundamental_div_mod(t * r, d);
    vstd::arithmetic::div_mod::lemma_mod_pos_bound(t * r, d);
    assert(t * r <= 100 * r) by (nonlinear_arith)
        requires
            0 <= t <= 100,
            r >= 0,
    ;
    assert(a * n <= r) by (nonlinear_arith)
        requires
            d == 100 * n,
            d * a + (t * r) % d == t * r,
            (t * r) % d >= 0,
            t * r <= 100 * r,
            n >= 1,
    ;
}

proof fn lemma_allotted_scaled(p: Seq<(ProcessId, u64)>, n: int, r: int)
    requires
        n >= 1,
        forall|i: int| 0 <= i < p.len() ==> (#[trigger] p[i]).1 * n <= r,
    ensures
        allotted(p) * n <= p.len() * r,
    decreases p.len(),
{
    if p.len() > 0 {
        lemma_allotted_scaled(p.drop_last(), n, r);
        let k = p.len() - 1;
        assert(p.last().1 * n <= r);
        assert(allotted(p) * n == allotted(p.drop_last()) * n + p.last().1 * n) by (nonlinear_arith)
            requires
                allotted(p) == allotted(p.drop_last()) + p.last().1,
        ;
        assert(p.len() * r == k * r + r) by (nonlinear_arith)
            requires
                k == p.len() - 1,
        ;
        assert(p.drop_last().len() == k);
        let a = allotted(p.drop_last()) as int;
        let l = p.last().1 as int;
        assert(allotted(p) * n <= p.len() * r) by (nonlinear_arith)
            requires
                a * n <= k * r,
                l * n <= r,
                allotted(p) == a + l,
                k == p.len() - 1,
        ;
    } else {
        assert(allotted(p) == 0);
        assert(allotted(p) * n <= p.len() * r) by (nonlinear_arith)
            requires
                allotted(p) == 0,
                p.len() == 0,
        ;
    }
}

/// The proportional split never hands out more than the pool: what rounding
/// leaves stays unallocated, so the residue is the pool minus the shares.
pub proof fn proportional_split_within_pool(s: Seq<(ProcessId, ImpactScore)>, resources: u64)
    requires
        forall|i: int| 0 <= i < s.len() ==> (#[trigger] s[i]).1.total <= SCORE_CAP,
    ensures
        allotted(impact_plan(s, resources)) <= resources,
        leftover(resources, impact_plan(s, resources)) == resources - allotted(impact_plan(s, resources)),
{
    let p = impact_plan(s, resources);
    let n = s.len() as int;
    if n > 0 {
        assert forall|i: int| 0 <= i < p.len() implies (#[trigger] p[i]).1 * n <= resources by {
            lemma_share_bounded(s[i].1.total as int, resources as int, n);
            lemma_share_times_n(s[i].1.total as int, resources as int, n);
        }
        lemma_allotted_scaled(p, n, resources as int);
        assert(allotted(p) <= resources) by (nonlinear_arith)
            requires
                allotted(p) * n <= n * resources,
                n >= 1,
        ;
    } else {
        assert(p.len() == 0);
    }
}

/// The shares of a pass grow with the prefix of entries considered.
proof fn lemma_pass_shares_prefix(
    s: Seq<(ProcessId, ImpactScore)>,
    k: int,
    resources: u64,
    n: nat,
    mode: PivcOptimizationMode,
    levels: Map<ProcessId, SovereigntyLevel>,
    first: bool,
)
    requires
        0 <= k <= s.len(),
    ensures
        pass_shares(s.subrange(0, k), resources, n, mode, levels, first) <= pass_shares(
            s,
            resources,
            n,
            mode,
            levels,
            first,
        ),
    decreases s.len() - k,
{
    if k < s.len() {
        lemma_pass_shares_prefix(s, k + 1, resources, n, mode, levels, first);
        assert(s.subrange(0, k + 1).drop_last() =~= s.subrange(0, k));
    } else {
        assert(s.subrange(0, k) =~= s);
    }
}

/// A pass that holds entry `i` is not empty.
proof fn lemma_pass_member_counted(
    s: Seq<(ProcessId, ImpactScore)>,
    mode: PivcOptimizationMode,
    levels: Map<ProcessId, SovereigntyLevel>,
    first: bool,
    i: int,
)
    requires
        0 <= i < s.len(),
        group_member(mode, levels, s[i].0) == first,
    ensures
        pass_size(s, mode, levels, first) >= 1,
    decreases s.len(),
{
    if i < s.len() - 1 {
        lemma_pass_member_counted(s.drop_last(), mode, levels, first, i);
    }
}

/// The shares of a pass of `n` processes add up to at most the pool.
proof fn lemma_pass_shares_bounded(
    s: Seq<(ProcessId, ImpactScore)>,
    resources: u64,
    n: nat,
    mode: PivcOptimizationMode,
    levels: Map<ProcessId, SovereigntyLevel>,
    first: bool,
)
    requires
        n >= 1,
        forall|i: int| 0 <= i < s.len() ==> (#[trigger] s[i]).1.total <= SCORE_CAP,
    ensures
        pass_shares(s, resources, n, mode, levels, first) * n <= pass_size(s, mode, levels, first)
            * resources,
    decreases s.len(),
{
    if s.len() > 0 {
        let t = s.drop_last();
        lemma_pass_shares_bounded(t, resources, n, mode, levels, first);
        let a = pass_shares(t, resources, n, mode, levels, first) as int;
        let k = pass_size(t, mode, levels, first) as int;
        if group_member(mode, levels, s.last().0) == first {
            let total = s.last().1.total as int;
            assert(s[s.len() - 1].1.total <= SCORE_CAP);
            lemma_share_times_n(total, resources as int, n as int);
            let l = impact_share(s.last().1.total, resources, n) as int;
            lemma_share_bounded(total, resources as int, n as int);
            assert(l * n <= resources);
            assert(pass_shares(s, resources, n, mode, levels, first) * n <= pass_size(
                s,
                mode,
                levels,
                first,
            ) * resources) by (nonlinear_arith)
                requires
                    a * n <= k * resources,
                    l * n <= resources,
                    pass_shares(s, resources, n, mode, levels, first) == a + l,
                    pass_size(s, mode, levels, first) == k + 1,
            ;
        } else {
            assert(pass_shares(s, resources, n, mode, levels, first) == a);
            assert(pass_size(s, mode, levels, first) == k);
        }
    } else {
        assert(pass_shares(s, resources, n, mode, levels, first) * n <= pass_size(
            s,
            mode,
            levels,
            first,
        ) * resources) by (nonlinear_arith)
            requires
                pass_shares(s, resources, n, mode, levels, first) == 0,
        ;
    }
}

/// An empty pass hands out nothing.
proof fn lemma_empty_pass(
    s: Seq<(ProcessId, ImpactScore)>,
    resources: u64,
    n: nat,
    mode: PivcOptimizationMode,
    levels: Map<ProcessId, SovereigntyLevel>,
    first: bool,
)
    requires
        pass_size(s, mode, levels, first) == 0,
    ensures
        pass_shares(s, resources, n, mode, levels, first) == 0,
    decreases s.len(),
{
    if s.len() > 0 {
        lemma_empty_pass(s.drop_last(), resources, n, mode, levels, first);
    }
}

/// The priority group never takes more than the pool.
proof fn lemma_group_within_pool(
    s: Seq<(ProcessId, ImpactScore)>,
    levels: Map<ProcessId, SovereigntyLevel>,
    mode: PivcOptimizationMode,
    resources: u64,
)
    requires
        forall|i: int| 0 <= i < s.len() ==> (#[trigger] s[i]).1.total <= SCORE_CAP,
    ensures
        pass_shares(s, resources, pass_size(s, mode, levels, true), mode, levels, true) <= resources,
{
    let n = pass_size(s, mode, levels, true);
    if n == 0 {
        lemma_empty_pass(s, resources, n, mode, levels, true);
    } else {
        lemma_pass_shares_bounded(s, resources, n, mode, levels, true);
        let a = pass_shares(s, resources, n, mode, levels, true);
        assert(a <= resources) by (nonlinear_arith)
            requires
                a * n <= n * resources,
                n >= 1,
        ;
    }
}

/// Base impact of each kind of operation.
pub open spec fn base_impact_of(operation_type: OperationType) -> u32 {
    match operation_type {
        OperationType::KnowledgeCreation => 80,
        OperationType::ProblemSolving => 70,
        OperationType::ValueCreation => 90,
        OperationType::SystemMaintenance => 60,
        OperationType::ResourceConsumption => 20,
        OperationType::WastefulComputation => 0,
    }
}

/// Base impact of an operation of kind `operation_type`.
pub fn base_impact(operation_type: OperationType) -> (r: u32)
    ensures
        r == base_impact_of(operation_type),
{
    match operation_type {
        OperationType::KnowledgeCreation => 80,
        OperationType::ProblemSolving => 70,
        OperationType::ValueCreation => 90,
        OperationType::SystemMaintenance => 60,
        OperationType::ResourceConsumption => 20,
        OperationType::WastefulComputation => 0,
    }
}

/// Types of computational operations.
#[derive(Debug, Clone, Copy)]
pub enum OperationType {
    KnowledgeCreation,
    ProblemSolving,
    ValueCreation,
    SystemMaintenance,
    ResourceConsumption,
    WastefulComputation,
}

/// Context of computational operations.
#[derive(Debug, Clone, Copy)]
pub enum OperationContext {
    Educational,
    Research,
    Production,
    Maintenance,
    Speculative,
    Wasteful,
}

/// Resource allocation hints by impact.
#[derive(Debug)]
pub enum PivcResourceHint {
    HighImpactOperation,
    EducationalContent,
    ResearchComputation,
    SystemCritical,
    UserInteractive,
    BackgroundTask,
    SpeculativeWork,
}

/// Tracks the impact score of every registered process.
pub struct PivcManager<'a> {
    oracle: &'a ConstitutionalOracle,
    process_scores: Vec<(ProcessId, ImpactScore)>,
    levels: Vec<(ProcessId, SovereigntyLevel)>,
    system_total_pivc: u64,
    optimization_mode: PivcOptimizationMode,
}

impl<'a> View for PivcManager<'a> {
    type V = Map<ProcessId, ImpactScore>;

    open spec fn view(&self) -> Map<ProcessId, ImpactScore> {
        table_view(self.entries())
    }
}

impl<'a> PivcManager<'a> {
    /// The registered scores in ascending process-id order.
    pub closed spec fn entries(&self) -> Seq<(ProcessId, ImpactScore)> {
        self.process_scores@
    }

    /// The sovereignty level assigned to each process.
    pub closed spec fn levels(&self) -> Map<ProcessId, SovereigntyLevel> {
        table_view(self.levels@)
    }

    /// The active optimization mode.
    pub closed spec fn mode(&self) -> PivcOptimizationMode {
        self.optimization_mode
    }

    /// Entries sorted by process id, each total recomputed from its
    /// components, and the system total equal to the sum of totals.
    pub closed spec fn wf(&self) -> bool {
        &&& sorted_by_pid(self.process_scores@)
        &&& sorted_by_pid(self.levels@)
        &&& forall|i: int|
            0 <= i < self.process_scores@.len() ==> #[trigger] recomputed(self.process_scores@[i].1)
                == self.process_scores@[i].1
        &&& self.system_total_pivc == sum_totals(self.process_scores@)
    }

    /// The entries are the registered scores, one per registered process,
    /// in strictly ascending process-id order, each total recomputed from
    /// its components.
    pub proof fn lemma_entries_match_view(&self)
        requires
            self.wf(),
        ensures
            sorted_by_pid(self.entries()),
            self@.dom().finite(),
            self@.dom().len() == self.entries().len(),
            forall|i: int|
                0 <= i < self.entries().len() ==> #[trigger] self@.contains_key(self.entries()[i].0)
                    && self@[self.entries()[i].0] == self.entries()[i].1,
            forall|pid: ProcessId| #[trigger]
                self@.contains_key(pid) ==> exists|i: int|
                    0 <= i < self.entries().len() && self.entries()[i].0 == pid,
            forall|i: int|
                0 <= i < self.entries().len() ==> #[trigger] recomputed(self.entries()[i].1)
                    == self.entries()[i].1,
    {
        let s = self.process_scores@;
        lemma_table_view_len(s);
        assert forall|i: int| 0 <= i < s.len() implies #[trigger] self@.contains_key(s[i].0)
            && self@[s[i].0] == s[i].1 by {
            lemma_entry_at(s, i);
        }
    }

    /// Initialize the tracker with no process registered.
    pub fn init(oracle: &'a ConstitutionalOracle) -> (r: Self)
        ensures
            r.wf(),
            r@ == Map::<ProcessId, ImpactScore>::empty(),
            r.entries() == Seq::<(ProcessId, ImpactScore)>::empty(),
            r.mode() == PivcOptimizationMode::MaximizeCollectiveImpact,
            r.levels() == Map::<ProcessId, SovereigntyLevel>::empty(),
    {
        let r = PivcManager {
            oracle,
            process_scores: Vec::new(),
            levels: Vec::new(),
            system_total_pivc: 0,
            optimization_mode: PivcOptimizationMode::MaximizeCollectiveImpact,
        };
        assert(r@ =~= Map::<ProcessId, ImpactScore>::empty());
        assert(r.levels() =~= Map::<ProcessId, SovereigntyLevel>::empty());
        r
    }

    /// Register a process with its initial score, total recomputed. The score
    /// is stored for the process lifetime, which the oracle always admits. A
    /// component above `SCORE_CAP` is `InvalidScore`, and nothing is stored.
    pub fn register_process(&mut self, pid: ProcessId, initial_score: ImpactScore) -> (r: Result<
        (),
        PivcError,
    >)
        requires
            old(self).wf(),
        ensures
            final(self).wf(),
            final(self).mode() == old(self).mode(),
            final(self).levels() == old(self).levels(),
            components_valid(initial_score) ==> r == Ok::<(), PivcError>(()) && final(self)@ == old(
                self,
            )@.insert(pid, recomputed(initial_score)),
            !components_valid(initial_score) ==> r == Err::<(), PivcError>(PivcError::InvalidScore)
                && final(self).entries() == old(self).entries(),
    {
        if initial_score.knowledge > SCORE_CAP || initial_score.application > SCORE_CAP
            || initial_score.contribution > SCORE_CAP {
            return Err(PivcError::InvalidScore);
        }
        let data = score_tag(pid);
        let verification = self.oracle.verify_operation(
            Operation::DataStorage { data, persistence: PROCESS_LIFETIME.to_owned() },
            &Context::KernelOperation,
        );
        proof {
            reveal_strlit("process_lifetime");
            reveal_strlit("permanent");
            assert(PROCESS_LIFETIME@.len() != PERMANENT@.len());
        }
        if matches!(verification, VerificationResult::Compliant) {
            let mut score = initial_score;
            score.calculate_total();
            self.upsert(pid, score);
            self.update_system_total();
            Ok(())
        } else {
            Err(PivcError::ConstitutionalViolation)
        }
    }

    /// Replace the score of a registered process, total recomputed. Fails
    /// with `ProcessNotRegistered` for an unknown process and with
    /// `InvalidScore` when a component exceeds `SCORE_CAP`.
    pub fn update_score(&mut self, pid: ProcessId, new_score: ImpactScore) -> (r: Result<(), PivcError>)
        requires
            old(self).wf(),
        ensures
            final(self).wf(),
            final(self).mode() == old(self).mode(),
            final(self).levels() == old(self).levels(),
            !old(self)@.contains_key(pid) ==> r == Err::<(), PivcError>(PivcError::ProcessNotRegistered)
                && final(self).entries() == old(self).entries(),
            old(self)@.contains_key(pid) && !components_valid(new_score) ==> r == Err::<(), PivcError>(
                PivcError::InvalidScore,
            ) && final(self).entries() == old(self).entries(),
            old(self)@.contains_key(pid) && components_valid(new_score) ==> r == Ok::<(), PivcError>(())
                && final(self)@ == old(self)@.insert(pid, recomputed(new_score)),
    {
        if !self.contains(pid) {
            return Err(PivcError::ProcessNotRegistered);
        }
        if new_score.knowledge > SCORE_CAP || new_score.application > SCORE_CAP
            || new_score.contribution > SCORE_CAP {
            return Err(PivcError::InvalidScore);
        }
        let mut score = new_score;
        score.calculate_total();
        let data = update_tag(pid);
        let ghost data_view = data@;
        let verification = self.oracle.verify_operation(
            Operation::DataStorage { data, persistence: PERMANENT.to_owned() },
            &Context::KernelOperation,
        );
        proof {
            lemma_update_tag_not_sovereign(pid.0);
            assert(data_view == UPDATE_TAG@ + decimal(pid.0 as nat));
        }
        match verification {
            VerificationResult::Compliant => {
                self.upsert(pid, score);
                self.update_system_total();
                Ok(())
            },
            _ => Err(PivcError::ConstitutionalViolation),
        }
    }

    /// The score of `pid`, if registered.
    pub fn get_score(&self, pid: ProcessId) -> (r: Option<ImpactScore>)
        requires
            self.wf(),
        ensures
            r == (if self@.contains_key(pid) {
                Some(self@[pid])
            } else {
                None::<ImpactScore>
            }),
    {
        match find_entry(&self.process_scores, pid) {
            Some(i) => Some(self.process_scores[i].1),
            None => None,
        }
    }

    /// Number of registered processes.
    pub fn process_count(&self) -> (r: usize)
        requires
            self.wf(),
        ensures
            r == self@.dom().len(),
    {
        proof {
            self.lemma_entries_match_view();
        }
        self.process_scores.len()
    }

    /// Resource allocation priority of `pid`: a verified score counts in
    /// full, an unverified one at half, an unknown process at 0.
    pub fn calculate_priority(&self, pid: ProcessId) -> (r: u32)
        requires
            self.wf(),
        ensures
            r == priority(self@, pid),
    {
        if let Some(score) = self.get_score(pid) {
            if score.verified_by_oracle {
                score.total
            } else {
                // Unverified scores get half priority
                score.total / 2
            }
        } else {
            0
        }
    }

    /// System-wide statistics.
    pub fn get_system_stats(&self) -> (r: PivcSystemStats)
        requires
            self.wf(),
        ensures
            r.total_processes == self.entries().len(),
            r.verified_processes == count_verified(self.entries()),
            r.average_score == (if self.entries().len() > 0 {
                sum_totals(self.entries()) / self.entries().len()
            } else {
                0
            }),
            r.system_total_pivc == sum_totals(self.entries()),
            r.optimization_mode == self.mode(),
    {
        let ghost s = self.process_scores@;
        let total_processes = self.process_scores.len();
        let mut verified_processes: usize = 0;
        let mut i: usize = 0;
        while i < total_processes
            invariant
                self.process_scores@ == s,
                total_processes == s.len(),
                i <= s.len(),
                verified_processes == count_verified(s.subrange(0, i as int)),
            decreases s.len() - i,
        {
            proof {
                assert(s.subrange(0, i as int + 1).drop_last() =~= s.subrange(0, i as int));
                lemma_count_verified_bounded(s.subrange(0, i as int));
            }
            if self.process_scores[i].1.verified_by_oracle {
                verified_processes = verified_processes + 1;
            }
            i = i + 1;
        }
        assert(s.subrange(0, s.len() as int) =~= s);
        let average_score: u32 = if total_processes > 0 {
            proof {
                assert forall|k: int| 0 <= k < s.len() implies (#[trigger] s[k]).1.total <= SCORE_CAP by {
                    assert(recomputed(s[k].1) == s[k].1);
                }
                lemma_sum_totals_bounded(s);
                vstd::arithmetic::div_mod::lemma_div_is_ordered(
                    sum_totals(s) as int,
                    100 * s.len() as int,
                    s.len() as int,
                );
                vstd::arithmetic::mul::lemma_mul_is_commutative(100, s.len() as int);
                vstd::arithmetic::div_mod::lemma_div_multiples_vanish(100, s.len() as int);
            }
            (self.system_total_pivc / total_processes as u64) as u32
        } else {
            0
        };
        PivcSystemStats {
            total_processes,
            verified_processes,
            average_score,
            system_total_pivc: self.system_total_pivc,
            optimization_mode: self.optimization_mode,
        }
    }

    /// Split `available_resources` according to the active mode.
    pub fn optimize_allocation(&self, available_resources: u64) -> (r: PivcAllocation)
        requires
            self.wf(),
        ensures
            r.allocations@ == allocation_plan(
                self.mode(),
                self.entries(),
                self.levels(),
                available_resources,
            ),
            r.unallocated == leftover(
                available_resources,
                allocation_plan(self.mode(), self.entries(), self.levels(), available_resources),
            ),
            self.mode() == PivcOptimizationMode::MaximizeCollectiveImpact ==> allotted(
                r.allocations@,
            ) <= available_resources,
            r.allocations@.len() == self@.dom().len(),
            forall|i: int, j: int|
                0 <= i < j < r.allocations@.len() ==> (#[trigger] r.allocations@[i]).0.0 < (
                #[trigger] r.allocations@[j]).0.0,
            forall|i: int|
                0 <= i < r.allocations@.len() ==> #[trigger] self@.contains_key(r.allocations@[i].0),
            forall|pid: ProcessId| #[trigger]
                self@.contains_key(pid) ==> exists|i: int|
                    0 <= i < r.allocations@.len() && r.allocations@[i].0 == pid,
            self.mode() == PivcOptimizationMode::EnsureFairness ==> forall|i: int|
                0 <= i < r.allocations@.len() ==> #[trigger] r.allocations@[i].1 == fairness_share(
                    self@[r.allocations@[i].0].total,
                    available_resources,
                    self@.dom().len(),
                ),
            self.mode() == PivcOptimizationMode::MaximizeCollectiveImpact ==> forall|i: int|
                0 <= i < r.allocations@.len() ==> #[trigger] r.allocations@[i].1 == impact_share(
                    self@[r.allocations@[i].0].total,
                    available_resources,
                    self@.dom().len(),
                ),
    {
        proof {
            self.lemma_entries_match_view();
            let s = self.process_scores@;
            assert forall|i: int| 0 <= i < s.len() implies (#[trigger] s[i]).1.total <= SCORE_CAP by {
                assert(recomputed(s[i].1) == s[i].1);
            }
            proportional_split_within_pool(s, available_resources);
        }
        let r = match self.optimization_mode {
            PivcOptimizationMode::MaximizeCollectiveImpact => self.optimize_for_impact(available_resources),
            PivcOptimizationMode::EnsureFairness => self.optimize_for_fairness(available_resources),
            PivcOptimizationMode::PreserveSovereignty => self.optimize_for_sovereignty(available_resources),
            PivcOptimizationMode::EmergencyMode => self.optimize_for_emergency(available_resources),
        };
        proof {
            let s = self.process_scores@;
            assert forall|pid: ProcessId| #[trigger] self@.contains_key(pid) implies exists|i: int|
                0 <= i < r.allocations@.len() && r.allocations@[i].0 == pid by {
                let i = choose|i: int| 0 <= i < s.len() && s[i].0 == pid;
                assert(r.allocations@[i].0 == pid);
            }
        }
        r
    }

    /// Change the optimization mode; a configuration change the oracle admits.
    pub fn set_optimization_mode(&mut self, mode: PivcOptimizationMode)
        requires
            old(self).wf(),
        ensures
            final(self).wf(),
            final(self).mode() == mode,
            final(self).entries() == old(self).entries(),
            final(self).levels() == old(self).levels(),
    {
        let verification = self.oracle.verify_operation(
            Operation::DataStorage {
                data: MODE_CHANGE_TAG.to_owned(),
                persistence: SYSTEM_CONFIGURATION.to_owned(),
            },
            &Context::KernelOperation,
        );
        proof {
            reveal_strlit("system_configuration");
            reveal_strlit("permanent");
            assert(SYSTEM_CONFIGURATION@.len() != PERMANENT@.len());
        }
        if matches!(verification, VerificationResult::Compliant) {
            self.optimization_mode = mode;
        }
    }

    /// Whether the oracle admits recording an impact measurement; it is
    /// temporary data, which is always admitted.
    pub fn measurement_verified(&self) -> (r: bool)
        ensures
            r,
    {
        let verification = self.oracle.verify_operation(
            Operation::DataStorage { data: MEASUREMENT_TAG.to_owned(), persistence: TEMPORARY.to_owned() },
            &Context::KernelOperation,
        );
        proof {
            reveal_strlit("temporary");
            reveal_strlit("permanent");
            assert(TEMPORARY@[0] != PERMANENT@[0]);
        }
        matches!(verification, VerificationResult::Compliant)
    }

    /// The proportional pass: process `i` receives
    /// `floor(total_i * resources / (100 * N))`; the rounding residue stays
    /// unallocated.
    fn optimize_for_impact(&self, resources: u64) -> (r: PivcAllocation)
        requires
            self.wf(),
        ensures
            r.allocations@ == impact_plan(self.entries(), resources),
            r.unallocated == leftover(resources, impact_plan(self.entries(), resources)),
    {
        let ghost s = self.process_scores@;
        let ghost plan = impact_plan(s, resources);
        proof {
            lemma_entry_count_bounded(s);
        }
        let n = self.process_scores.len();
        let mut allocations: Vec<(ProcessId, u64)> = Vec::new();
        let mut sum: u128 = 0;
        let mut i: usize = 0;
        while i < n
            invariant
                self.process_scores@ == s,
                n == s.len(),
                n <= 0x1_0000_0000,
                forall|k: int| 0 <= k < s.len() ==> #[trigger] recomputed(s[k].1) == s[k].1,
                plan == impact_plan(s, resources),
                i <= n,
                allocations@ == plan.subrange(0, i as int),
                sum == allotted(allocations@),
                sum <= i * 0x1_0000_0000_0000_0000,
            decreases n - i,
        {
            let pid = self.process_scores[i].0;
            let t = self.process_scores[i].1.total;
            proof {
                assert(recomputed(s[i as int].1) == s[i as int].1);
                lemma_share_bounded(t as int, resources as int, n as int);
                assert((t as int) * (resources as int) <= 100 * 0x1_0000_0000_0000_0000) by (nonlinear_arith)
                    requires
                        t <= 100,
                        resources < 0x1_0000_0000_0000_0000,
                ;
            }
            let share = ((t as u128) * (resources as u128)) / (100u128 * (n as u128));
            let amount = share as u64;
            proof {
                assert(allocations@.push((pid, amount)).drop_last() =~= allocations@);
            }
            allocations.push((pid, amount));
            sum = sum + share;
            i = i + 1;
            proof {
                assert(allocations@ =~= plan.subrange(0, i as int));
            }
        }
        assert(plan.subrange(0, n as int) =~= plan);
        let unallocated = if sum <= resources as u128 {
            (resources as u128 - sum) as u64
        } else {
            0
        };
        PivcAllocation { allocations, unallocated }
    }

    /// The fair pass: each process receives the equal base `resources / N`
    /// plus a bonus of `floor(total_i * base / 200)`, at most half the base.
    /// The amounts may add up to more than the pool. No process, no allocation.
    fn optimize_for_fairness(&self, resources: u64) -> (r: PivcAllocation)
        requires
            self.wf(),
        ensures
            r.allocations@ == fairness_plan(self.entries(), resources),
            r.unallocated == leftover(resources, fairness_plan(self.entries(), resources)),
    {
        let ghost s = self.process_scores@;
        let ghost plan = fairness_plan(s, resources);
        proof {
            lemma_entry_count_bounded(s);
        }
        let n = self.process_scores.len();
        let mut allocations: Vec<(ProcessId, u64)> = Vec::new();
        if n == 0 {
            assert(plan =~= Seq::<(ProcessId, u64)>::empty());
            return PivcAllocation { allocations, unallocated: resources };
        }
        let base = resources / n as u64;
        let mut sum: u128 = 0;
        let mut i: usize = 0;
        while i < n
            invariant
                self.process_scores@ == s,
                n == s.len(),
                1 <= n <= 0x1_0000_0000,
                base == resources as int / n as int,
                forall|k: int| 0 <= k < s.len() ==> #[trigger] recomputed(s[k].1) == s[k].1,
                plan == fairness_plan(s, resources),
                i <= n,
                allocations@ == plan.subrange(0, i as int),
                sum == allotted(allocations@),
                sum <= i * 0x1_0000_0000_0000_0000,
            decreases n - i,
        {
            let pid = self.process_scores[i].0;
            let t = self.process_scores[i].1.total;
            proof {
                assert(recomputed(s[i as int].1) == s[i as int].1);
                lemma_bonus_bounded(t as int, base as int);
                assert((t as int) * (base as int) <= 100 * 0x1_0000_0000_0000_0000) by (nonlinear_arith)
                    requires
                        t <= 100,
                        base < 0x1_0000_0000_0000_0000,
                ;
            }
            let bonus = ((t as u128) * (base as u128)) / 200u128;
            let wide = base as u128 + bonus;
            let amount: u64 = if wide > u64::MAX as u128 {
                u64::MAX
            } else {
                wide as u64
            };
            proof {
                assert(allocations@.push((pid, amount)).drop_last() =~= allocations@);
            }
            allocations.push((pid, amount));
            sum = sum + amount as u128;
            i = i + 1;
            proof {
                assert(allocations@ =~= plan.subrange(0, i as int));
            }
        }
        assert(plan.subrange(0, n as int) =~= plan);
        let unallocated = if sum <= resources as u128 {
            (resources as u128 - sum) as u64
        } else {
            0
        };
        PivcAllocation { allocations, unallocated }
    }

    /// Sovereignty-preserving split: sovereign-level processes split the
    /// pool first, the others split what they leave.
    fn optimize_for_sovereignty(&self, resources: u64) -> (r: PivcAllocation)
        requires
            self.wf(),
        ensures
            r.allocations@ == priority_plan(
                self.entries(),
                self.levels(),
                PivcOptimizationMode::PreserveSovereignty,
                resources,
            ),
            r.unallocated == leftover(
                resources,
                priority_plan(
                    self.entries(),
                    self.levels(),
                    PivcOptimizationMode::PreserveSovereignty,
                    resources,
                ),
            ),
    {
        self.optimize_in_groups(PivcOptimizationMode::PreserveSovereignty, resources)
    }

    /// Emergency split: the designated critical process is served first, as
    /// a guaranteed floor; the others split what it leaves.
    fn optimize_for_emergency(&self, resources: u64) -> (r: PivcAllocation)
        requires
            self.wf(),
        ensures
            r.allocations@ == priority_plan(
                self.entries(),
                self.levels(),
                PivcOptimizationMode::EmergencyMode,
                resources,
            ),
            r.unallocated == leftover(
                resources,
                priority_plan(self.entries(), self.levels(), PivcOptimizationMode::EmergencyMode, resources),
            ),
    {
        self.optimize_in_groups(PivcOptimizationMode::EmergencyMode, resources)
    }

    /// Whether `pid` is in the priority group of `mode`.
    fn in_priority_group(&self, mode: PivcOptimizationMode, pid: ProcessId) -> (r: bool)
        requires
            self.wf(),
        ensures
            r == group_member(mode, self.levels(), pid),
    {
        match mode {
            PivcOptimizationMode::PreserveSovereignty => match find_entry(&self.levels, pid) {
                Some(i) => matches!(self.levels[i].1, SovereigntyLevel::Sovereign),
                None => false,
            },
            PivcOptimizationMode::EmergencyMode => pid.0 == CRITICAL_PROCESS,
            _ => false,
        }
    }

    /// Process id and share of entry `i` of a proportional pass.
    fn pass_entry(&self, i: usize, resources: u64, n: usize) -> (r: (ProcessId, u64))
        requires
            self.wf(),
            i < self.entries().len(),
            n >= 1,
        ensures
            r == (self.entries()[i as int].0, impact_share(
                self.entries()[i as int].1.total,
                resources,
                n as nat,
            )),
    {
        let pid = self.process_scores[i].0;
        let t = self.process_scores[i].1.total;
        proof {
            assert(recomputed(self.process_scores@[i as int].1) == self.process_scores@[i as int].1);
            lemma_share_bounded(t as int, resources as int, n as int);
            assert((t as int) * (resources as int) <= 100 * 0x1_0000_0000_0000_0000) by (nonlinear_arith)
                requires
                    t <= 100,
                    resources < 0x1_0000_0000_0000_0000,
            ;
        }
        let share = ((t as u128) * (resources as u128)) / (100u128 * (n as u128));
        (pid, share as u64)
    }

    /// The two-pass split of `mode`'s priority group.
    fn optimize_in_groups(&self, mode: PivcOptimizationMode, resources: u64) -> (r: PivcAllocation)
        requires
            self.wf(),
        ensures
            r.allocations@ == priority_plan(self.entries(), self.levels(), mode, resources),
            r.unallocated == leftover(
                resources,
                priority_plan(self.entries(), self.levels(), mode, resources),
            ),
    {
        let ghost s = self.process_scores@;
        let ghost lv = self.levels();
        proof {
            lemma_entry_count_bounded(s);
            assert forall|k: int| 0 <= k < s.len() implies (#[trigger] s[k]).1.total <= SCORE_CAP by {
                assert(recomputed(s[k].1) == s[k].1);
            }
            lemma_group_within_pool(s, lv, mode, resources);
        }
        let n = self.process_scores.len();
        // Sizes of the two passes
        let mut first: usize = 0;
        let mut second: usize = 0;
        let mut i: usize = 0;
        while i < n
            invariant
                self.wf(),
                self.process_scores@ == s,
                self.levels() == lv,
                n == s.len(),
                i <= n,
                first == pass_size(s.subrange(0, i as int), mode, lv, true),
                second == pass_size(s.subrange(0, i as int), mode, lv, false),
                first + second == i,
            decreases n - i,
        {
            proof {
                assert(s.subrange(0, i as int + 1).drop_last() =~= s.subrange(0, i as int));
            }
            if self.in_priority_group(mode, self.process_scores[i].0) {
                first = first + 1;
            } else {
                second = second + 1;
            }
            i = i + 1;
        }
        assert(s.subrange(0, n as int) =~= s);
        // What the priority group takes from the pool
        let mut taken: u64 = 0;
        i = 0;
        while i < n
            invariant
                self.wf(),
                self.process_scores@ == s,
                self.levels() == lv,
                n == s.len(),
                i <= n,
                first == pass_size(s, mode, lv, true),
                pass_shares(s, resources, first as nat, mode, lv, true) <= resources,
                taken == pass_shares(s.subrange(0, i as int), resources, first as nat, mode, lv, true),
                taken <= pass_shares(s, resources, first as nat, mode, lv, true),
            decreases n - i,
        {
            proof {
                assert(s.subrange(0, i as int + 1).drop_last() =~= s.subrange(0, i as int));
                lemma_pass_shares_prefix(s, i as int + 1, resources, first as nat, mode, lv, true);
            }
            if self.in_priority_group(mode, self.process_scores[i].0) {
                proof {
                    lemma_pass_member_counted(s, mode, lv, true, i as int);
                }
                let (_, share) = self.pass_entry(i, resources, first);
                taken = taken + share;
            }
            i = i + 1;
        }
        assert(s.subrange(0, n as int) =~= s);
        let rest = resources - taken;
        let ghost plan = priority_plan(s, lv, mode, resources);
        let mut allocations: Vec<(ProcessId, u64)> = Vec::new();
        let mut sum: u128 = 0;
        i = 0;
        while i < n
            invariant
                self.wf(),
                self.process_scores@ == s,
                self.levels() == lv,
                n == s.len(),
                n <= 0x1_0000_0000,
                i <= n,
                first == pass_size(s, mode, lv, true),
                second == pass_size(s, mode, lv, false),
                rest == group_remainder(s, lv, mode, resources),
                plan == priority_plan(s, lv, mode, resources),
                allocations@ == plan.subrange(0, i as int),
                sum == allotted(allocations@),
                sum <= i * 0x1_0000_0000_0000_0000,
            decreases n - i,
        {
            let entry = if self.in_priority_group(mode, self.process_scores[i].0) {
                proof {
                    lemma_pass_member_counted(s, mode, lv, true, i as int);
                }
                self.pass_entry(i, resources, first)
            } else {
                proof {
                    lemma_pass_member_counted(s, mode, lv, false, i as int);
                }
                self.pass_entry(i, rest, second)
            };
            proof {
                assert(allocations@.push(entry).drop_last() =~= allocations@);
            }
            allocations.push(entry);
            sum = sum + entry.1 as u128;
            i = i + 1;
            proof {
                assert(allocations@ =~= plan.subrange(0, i as int));
            }
        }
        assert(plan.subrange(0, n as int) =~= plan);
        let unallocated = if sum <= resources as u128 {
            (resources as u128 - sum) as u64
        } else {
            0
        };
        PivcAllocation { allocations, unallocated }
    }

    /// Assign the sovereignty level of `pid`, used to pick the priority
    /// group when preserving sovereignty.
    pub fn set_sovereignty_level(&mut self, pid: ProcessId, level: SovereigntyLevel)
        requires
            old(self).wf(),
        ensures
            final(self).wf(),
            final(self).levels() == old(self).levels().insert(pid, level),
            final(self).entries() == old(self).entries(),
            final(self).mode() == old(self).mode(),
    {
        upsert_entry(&mut self.levels, pid, level);
    }

    /// Whether `pid` is registered.
    fn contains(&self, pid: ProcessId) -> (r: bool)
        requires
            self.wf(),
        ensures
            r == self@.contains_key(pid),
    {
        self.get_score(pid).is_some()
    }

    /// Put `score` under `pid`, keeping the entries sorted.
    fn upsert(&mut self, pid: ProcessId, score: ImpactScore)
        requires
            sorted_by_pid(old(self).process_scores@),
            forall|i: int|
                0 <= i < old(self).process_scores@.len() ==> #[trigger] recomputed(
                    old(self).process_scores@[i].1,
                ) == old(self).process_scores@[i].1,
            recomputed(score) == score,
        ensures
            sorted_by_pid(final(self).process_scores@),
            forall|i: int|
                0 <= i < final(self).process_scores@.len() ==> #[trigger] recomputed(
                    final(self).process_scores@[i].1,
                ) == final(self).process_scores@[i].1,
            final(self)@ == old(self)@.insert(pid, score),
            final(self).optimization_mode == old(self).optimization_mode,
            final(self).oracle == old(self).oracle,
            final(self).levels == old(self).levels,
    {
        let ghost before = self.process_scores@;
        upsert_entry(&mut self.process_scores, pid, score);
        proof {
            assert forall|i: int| 0 <= i < self.process_scores@.len() implies #[trigger] recomputed(
                self.process_scores@[i].1,
            ) == self.process_scores@[i].1 by {
                if self.process_scores@[i] != (pid, score) {
                    let j = choose|j: int| 0 <= j < before.len() && before[j] == self.process_scores@[i];
                    assert(recomputed(before[j].1) == before[j].1);
                }
            }
        }
    }

    /// Recompute the system-wide total from the entries.
    fn update_system_total(&mut self)
        requires
            sorted_by_pid(old(self).levels@),
            sorted_by_pid(old(self).process_scores@),
            forall|i: int|
                0 <= i < old(self).process_scores@.len() ==> #[trigger] recomputed(
                    old(self).process_scores@[i].1,
                ) == old(self).process_scores@[i].1,
        ensures
            final(self).wf(),
            final(self).process_scores == old(self).process_scores,
            final(self).optimization_mode == old(self).optimization_mode,
            final(self).oracle == old(self).oracle,
            final(self).levels == old(self).levels,
    {
        let ghost s = self.process_scores@;
        proof {
            lemma_entry_count_bounded(s);
        }
        let mut sum: u64 = 0;
        let mut i: usize = 0;
        while i < self.process_scores.len()
            invariant
                self.process_scores@ == s,
                s.len() <= 0x1_0000_0000,
                forall|k: int| 0 <= k < s.len() ==> #[trigger] recomputed(s[k].1) == s[k].1,
                i <= s.len(),
                sum == sum_totals(s.subrange(0, i as int)),
            decreases s.len() - i,
        {
            proof {
                let p = s.subrange(0, i as int + 1);
                assert(p.drop_last() =~= s.subrange(0, i as int));
                assert forall|k: int| 0 <= k < s.subrange(0, i as int).len() implies (
                #[trigger] s.subrange(0, i as int)[k]).1.total <= SCORE_CAP by {
                    assert(recomputed(s[k].1) == s[k].1);
                }
                lemma_sum_totals_bounded(s.subrange(0, i as int));
                assert(recomputed(s[i as int].1) == s[i as int].1);
            }
            sum = sum + self.process_scores[i].1.total as u64;
            i = i + 1;
        }
        assert(s.subrange(0, s.len() as int) =~= s);
        self.system_total_pivc = sum;
    }
}

} // verus!
