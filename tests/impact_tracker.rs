use azora_kernel::constitutional::ConstitutionalOracle;
use azora_kernel::memory::{ProcessId, SovereigntyLevel};
use azora_kernel::pivc::{
    base_impact, score_tag, update_tag, ImpactScore, OperationType, PivcError, PivcManager, PivcOptimizationMode,
};

fn score(knowledge: u32, application: u32, contribution: u32, verified: bool) -> ImpactScore {
    ImpactScore { knowledge, application, contribution, total: 0, verified_by_oracle: verified }
}

fn total_of(knowledge: u32, application: u32, contribution: u32) -> u32 {
    let mut s = score(knowledge, application, contribution, false);
    s.calculate_total();
    s.total
}

#[test]
fn weighted_total_examples() {
    assert_eq!(total_of(100, 100, 100), 100);
    assert_eq!(total_of(0, 0, 0), 0);
    assert_eq!(total_of(50, 50, 50), 50);
    assert_eq!(total_of(95, 92, 97), 94);
    assert_eq!(total_of(80, 80, 80), 80);
    assert_eq!(total_of(0, 1, 0), 0);
    assert_eq!(total_of(0, 2, 0), 1);
    assert_eq!(total_of(5, 0, 0), 2);
    assert_eq!(total_of(10, 0, 0), 3);
    assert_eq!(total_of(u32::MAX, u32::MAX, u32::MAX), 100);
}

#[test]
fn recomputing_total_is_idempotent() {
    for (k, a, c) in [(100, 100, 100), (0, 0, 0), (50, 50, 50), (33, 67, 12), (1, 99, 2)] {
        let mut s = score(k, a, c, true);
        s.calculate_total();
        let once = s;
        s.calculate_total();
        assert_eq!(s, once);
        assert!(s.total <= 100);
        assert_eq!((s.knowledge, s.application, s.contribution, s.verified_by_oracle), (k, a, c, true));
    }
}

#[test]
fn zero_and_maximum_scores() {
    assert_eq!(ImpactScore::zero(), score(0, 0, 0, false));
    let max = ImpactScore::maximum();
    assert_eq!((max.knowledge, max.application, max.contribution, max.total), (100, 100, 100, 100));
    assert!(max.verified_by_oracle);
}

#[test]
fn priority_of_unknown_and_unverified_processes() {
    let oracle = ConstitutionalOracle::init();
    let mut tracker = PivcManager::init(&oracle);
    assert_eq!(tracker.calculate_priority(ProcessId(9)), 0);
    tracker.register_process(ProcessId(1), score(80, 80, 80, false)).unwrap();
    assert_eq!(tracker.get_score(ProcessId(1)).unwrap().total, 80);
    assert_eq!(tracker.calculate_priority(ProcessId(1)), 40);
    tracker.register_process(ProcessId(2), score(80, 80, 80, true)).unwrap();
    assert_eq!(tracker.calculate_priority(ProcessId(2)), 80);
    tracker.register_process(ProcessId(3), score(10, 0, 10, false)).unwrap();
    assert_eq!(tracker.calculate_priority(ProcessId(3)), 3);
    assert_eq!(tracker.calculate_priority(ProcessId(4)), 0);
}

#[test]
fn register_recomputes_total_and_replaces() {
    let oracle = ConstitutionalOracle::init();
    let mut tracker = PivcManager::init(&oracle);
    let mut given = score(50, 50, 50, true);
    given.total = 7;
    tracker.register_process(ProcessId(5), given).unwrap();
    assert_eq!(tracker.get_score(ProcessId(5)).unwrap().total, 50);
    tracker.register_process(ProcessId(5), score(100, 100, 100, true)).unwrap();
    assert_eq!(tracker.get_score(ProcessId(5)).unwrap().total, 100);
    assert_eq!(tracker.get_system_stats().total_processes, 1);
    assert_eq!(tracker.get_score(ProcessId(6)), None);
}

#[test]
fn update_score_outcomes() {
    let oracle = ConstitutionalOracle::init();
    let mut tracker = PivcManager::init(&oracle);
    assert_eq!(tracker.update_score(ProcessId(1), score(1, 1, 1, true)), Err(PivcError::ProcessNotRegistered));
    assert_eq!(tracker.register_process(ProcessId(1), score(10, 101, 10, false)), Err(PivcError::InvalidScore));
    assert_eq!(tracker.get_score(ProcessId(1)), None);
    tracker.register_process(ProcessId(1), score(10, 10, 10, false)).unwrap();
    assert_eq!(tracker.process_count(), 1);
    assert_eq!(tracker.update_score(ProcessId(1), score(101, 0, 0, true)), Err(PivcError::InvalidScore));
    assert_eq!(tracker.get_score(ProcessId(1)).unwrap().total, 10);
    assert_eq!(tracker.update_score(ProcessId(1), score(100, 100, 100, true)), Ok(()));
    let s = tracker.get_score(ProcessId(1)).unwrap();
    assert_eq!(s.total, 100);
    assert!(s.verified_by_oracle);
    tracker.register_process(ProcessId(4294967295), score(0, 0, 0, false)).unwrap();
    assert_eq!(tracker.update_score(ProcessId(4294967295), score(20, 20, 20, false)), Ok(()));
    assert_eq!(tracker.get_score(ProcessId(4294967295)).unwrap().total, 20);
}

#[test]
fn system_stats_summarise_scores() {
    let oracle = ConstitutionalOracle::init();
    let mut tracker = PivcManager::init(&oracle);
    let empty = tracker.get_system_stats();
    assert_eq!((empty.total_processes, empty.verified_processes, empty.average_score, empty.system_total_pivc), (0, 0, 0, 0));
    tracker.register_process(ProcessId(3), score(100, 100, 100, true)).unwrap();
    tracker.register_process(ProcessId(1), score(50, 50, 50, false)).unwrap();
    tracker.register_process(ProcessId(2), score(0, 0, 0, true)).unwrap();
    let stats = tracker.get_system_stats();
    assert_eq!(stats.total_processes, 3);
    assert_eq!(stats.verified_processes, 2);
    assert_eq!(stats.system_total_pivc, 150);
    assert_eq!(stats.average_score, 50);
    assert_eq!(stats.optimization_mode, PivcOptimizationMode::MaximizeCollectiveImpact);
}

#[test]
fn fairness_split_with_bonus_may_exceed_pool() {
    let oracle = ConstitutionalOracle::init();
    let mut tracker = PivcManager::init(&oracle);
    tracker.register_process(ProcessId(2), score(0, 0, 0, false)).unwrap();
    tracker.register_process(ProcessId(1), score(100, 100, 100, true)).unwrap();
    tracker.set_optimization_mode(PivcOptimizationMode::EnsureFairness);
    let plan = tracker.optimize_allocation(100);
    assert_eq!(plan.allocations, vec![(ProcessId(1), 75), (ProcessId(2), 50)]);
    assert_eq!(plan.unallocated, 0);
}

#[test]
fn fairness_split_with_no_process_is_empty() {
    let oracle = ConstitutionalOracle::init();
    let mut tracker = PivcManager::init(&oracle);
    tracker.set_optimization_mode(PivcOptimizationMode::EnsureFairness);
    let plan = tracker.optimize_allocation(100);
    assert!(plan.allocations.is_empty());
    assert_eq!(plan.unallocated, 100);
}

#[test]
fn fairness_split_saturates() {
    let oracle = ConstitutionalOracle::init();
    let mut tracker = PivcManager::init(&oracle);
    tracker.register_process(ProcessId(1), score(100, 100, 100, true)).unwrap();
    tracker.set_optimization_mode(PivcOptimizationMode::EnsureFairness);
    let plan = tracker.optimize_allocation(u64::MAX);
    assert_eq!(plan.allocations, vec![(ProcessId(1), u64::MAX)]);
}

#[test]
fn proportional_split_leaves_residue() {
    let oracle = ConstitutionalOracle::init();
    let mut tracker = PivcManager::init(&oracle);
    tracker.register_process(ProcessId(7), score(50, 50, 50, false)).unwrap();
    tracker.register_process(ProcessId(3), score(100, 100, 100, true)).unwrap();
    tracker.register_process(ProcessId(5), score(10, 0, 10, true)).unwrap();
    let plan = tracker.optimize_allocation(1000);
    assert_eq!(plan.allocations, vec![(ProcessId(3), 333), (ProcessId(5), 20), (ProcessId(7), 166)]);
    assert_eq!(plan.unallocated, 1000 - 333 - 20 - 166);
    let zero = tracker.optimize_allocation(0);
    assert_eq!(zero.allocations, vec![(ProcessId(3), 0), (ProcessId(5), 0), (ProcessId(7), 0)]);
    assert_eq!(zero.unallocated, 0);
    let huge = tracker.optimize_allocation(u64::MAX);
    assert_eq!(huge.allocations[0], (ProcessId(3), u64::MAX / 3));
}

#[test]
fn sovereign_processes_split_the_pool_first() {
    let oracle = ConstitutionalOracle::init();
    let mut tracker = PivcManager::init(&oracle);
    tracker.register_process(ProcessId(1), score(100, 100, 100, true)).unwrap();
    tracker.register_process(ProcessId(2), score(50, 50, 50, true)).unwrap();
    tracker.register_process(ProcessId(3), score(50, 50, 50, true)).unwrap();
    tracker.set_sovereignty_level(ProcessId(2), SovereigntyLevel::Sovereign);
    tracker.set_sovereignty_level(ProcessId(3), SovereigntyLevel::Public);
    tracker.set_optimization_mode(PivcOptimizationMode::PreserveSovereignty);
    let plan = tracker.optimize_allocation(1000);
    // Process 2 alone takes 50% of the pool; 1 and 3 split the 500 left.
    assert_eq!(plan.allocations, vec![(ProcessId(1), 250), (ProcessId(2), 500), (ProcessId(3), 125)]);
    assert_eq!(plan.unallocated, 125);
}

#[test]
fn without_sovereign_processes_the_pool_is_split_once() {
    let oracle = ConstitutionalOracle::init();
    let mut tracker = PivcManager::init(&oracle);
    tracker.register_process(ProcessId(1), score(100, 100, 100, true)).unwrap();
    tracker.register_process(ProcessId(2), score(50, 50, 50, true)).unwrap();
    tracker.set_sovereignty_level(ProcessId(1), SovereigntyLevel::Protected);
    tracker.set_optimization_mode(PivcOptimizationMode::PreserveSovereignty);
    let plan = tracker.optimize_allocation(200);
    assert_eq!(plan.allocations, vec![(ProcessId(1), 100), (ProcessId(2), 50)]);
    assert_eq!(plan.unallocated, 50);
}

#[test]
fn emergency_serves_the_critical_process_first() {
    let oracle = ConstitutionalOracle::init();
    let mut tracker = PivcManager::init(&oracle);
    tracker.register_process(ProcessId(1), score(50, 50, 50, true)).unwrap();
    tracker.register_process(ProcessId(2), score(100, 100, 100, true)).unwrap();
    tracker.register_process(ProcessId(3), score(50, 50, 50, false)).unwrap();
    tracker.set_optimization_mode(PivcOptimizationMode::EmergencyMode);
    assert_eq!(tracker.get_system_stats().optimization_mode, PivcOptimizationMode::EmergencyMode);
    let plan = tracker.optimize_allocation(1000);
    assert_eq!(plan.allocations, vec![(ProcessId(1), 500), (ProcessId(2), 250), (ProcessId(3), 125)]);
    assert_eq!(plan.unallocated, 125);
}

#[test]
fn empty_tracker_allocates_nothing() {
    let oracle = ConstitutionalOracle::init();
    let tracker = PivcManager::init(&oracle);
    let plan = tracker.optimize_allocation(500);
    assert!(plan.allocations.is_empty());
    assert_eq!(plan.unallocated, 500);
}

#[test]
fn base_impacts_and_measurement_check() {
    assert_eq!(base_impact(OperationType::KnowledgeCreation), 80);
    assert_eq!(base_impact(OperationType::ProblemSolving), 70);
    assert_eq!(base_impact(OperationType::ValueCreation), 90);
    assert_eq!(base_impact(OperationType::SystemMaintenance), 60);
    assert_eq!(base_impact(OperationType::ResourceConsumption), 20);
    assert_eq!(base_impact(OperationType::WastefulComputation), 0);
    let oracle = ConstitutionalOracle::init();
    assert!(PivcManager::init(&oracle).measurement_verified());
}

#[test]
fn storage_tags_spell_the_process_id() {
    assert_eq!(score_tag(ProcessId(0)), "pivc_score_0");
    assert_eq!(score_tag(ProcessId(1207)), "pivc_score_1207");
    assert_eq!(update_tag(ProcessId(42)), "pivc_update_42");
    assert_eq!(update_tag(ProcessId(u32::MAX)), "pivc_update_4294967295");
}

#[test]
fn zero_and_round_ids_render_exactly() {
    assert_eq!(score_tag(ProcessId(10)), "pivc_score_10");
    assert_eq!(update_tag(ProcessId(100000)), "pivc_update_100000");
}
