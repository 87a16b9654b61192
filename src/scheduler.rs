//! Impact-aware scheduler: owns the live process table, creates processes
//! under the oracle's rules, and orders ready processes by priority.

use vstd::prelude::*;
use crate::constitutional::{
    process_creation_rule, ConstitutionalOracle, Context, Operation, Verdict, VerificationResult,
};
use crate::memory::{ProcessId, SovereigntyLevel};
use crate::pivc::{priority, ImpactScore, PivcManager};
use crate::process::{Process, ProcessState};
use crate::table::{find_entry, lemma_entry_at, sorted_by_pid, table_view, upsert_entry};

verus! {

/// Largest number of process ids the counter can issue, plus one.
pub const PID_LIMIT: u64 = 0x1_0000_0000;

/// Scheduling policy.
#[derive(Debug, Clone, Copy, PartialEq, Eq, Structural)]
pub enum SchedulingMode {
    PivcOptimized,
    FairShare,
    RealTime,
    SovereignFirst,
}

/// Why a process was not created.
#[derive(Debug, PartialEq)]
pub enum ProcessError {
    /// The parent is not in the process table.
    UnknownParent,
    /// Every process id has been issued.
    IdsExhausted,
    /// The oracle did not rule the creation compliant.
    Refused(VerificationResult),
}

/// `a` runs before `b`: higher priority first, ties by ascending id.
pub open spec fn runs_before(scores: Map<ProcessId, ImpactScore>, a: ProcessId, b: ProcessId) -> bool {
    priority(scores, a) > priority(scores, b) || (priority(scores, a) == priority(scores, b) && a.0
        < b.0)
}

/// Among the first `n` entries of `s` there is a ready process `x`.
pub open spec fn ready_among(s: Seq<(ProcessId, Process)>, n: int, x: ProcessId) -> bool {
    exists|k: int| 0 <= k < n && s[k].0 == x && s[k].1.state == ProcessState::Ready
}

/// The process table and run order.
pub struct Scheduler<'a> {
    oracle: &'a ConstitutionalOracle,
    pivc_manager: &'a PivcManager<'a>,
    processes: Vec<(ProcessId, Process)>,
    current_process: Option<ProcessId>,
    mode: SchedulingMode,
    next_pid: u64,
    run_queue: Vec<ProcessId>,
}

impl<'a> View for Scheduler<'a> {
    type V = Map<ProcessId, Process>;

    open spec fn view(&self) -> Map<ProcessId, Process> {
        table_view(self.table())
    }
}

impl<'a> Scheduler<'a> {
    /// The process table in ascending id order.
    pub closed spec fn table(&self) -> Seq<(ProcessId, Process)> {
        self.processes@
    }

    /// The id the next created process receives.
    pub closed spec fn next_id(&self) -> nat {
        self.next_pid as nat
    }

    /// The run order computed at the last tick.
    pub closed spec fn run_order(&self) -> Seq<ProcessId> {
        self.run_queue@
    }

    /// The impact tracker consulted for priorities.
    pub closed spec fn tracker(&self) -> PivcManager<'a> {
        *self.pivc_manager
    }

    /// The scheduling policy.
    pub closed spec fn scheduling_mode(&self) -> SchedulingMode {
        self.mode
    }

    /// Table sorted by id, each entry keyed by its process's id, every id
    /// below the counter, and the tracker well formed.
    pub closed spec fn wf(&self) -> bool {
        &&& sorted_by_pid(self.processes@)
        &&& forall|i: int|
            0 <= i < self.processes@.len() ==> (#[trigger] self.processes@[i]).0 == self.processes@[i].1.id
        &&& forall|i: int|
            0 <= i < self.processes@.len() ==> (#[trigger] self.processes@[i]).0.0 < self.next_pid
        &&& 1 <= self.next_pid <= PID_LIMIT
        &&& self.pivc_manager.wf()
    }

    /// A scheduler with an empty table; the first id issued is 1.
    pub fn init(oracle: &'a ConstitutionalOracle, pivc: &'a PivcManager<'a>, mode: SchedulingMode) -> (r:
        Self)
        requires
            pivc.wf(),
        ensures
            r.wf(),
            r@ == Map::<ProcessId, Process>::empty(),
            r.next_id() == 1,
            r.run_order() == Seq::<ProcessId>::empty(),
            r.tracker() == *pivc,
            r.scheduling_mode() == mode,
    {
        let r = Scheduler {
            oracle,
            pivc_manager: pivc,
            processes: Vec::new(),
            current_process: None,
            mode,
            next_pid: 1,
            run_queue: Vec::new(),
        };
        assert(r@ =~= Map::<ProcessId, Process>::empty());
        r
    }

    /// Put `process` in the table under its id, replacing any entry with that
    /// id; the id counter moves past it.
    pub fn add_process(&mut self, process: Process)
        requires
            old(self).wf(),
        ensures
            final(self).wf(),
            final(self)@ == old(self)@.insert(process.id, process),
            final(self).next_id() == if process.id.0 as nat + 1 > old(self).next_id() {
                process.id.0 as nat + 1
            } else {
                old(self).next_id()
            },
            final(self).run_order() == old(self).run_order(),
            final(self).tracker() == old(self).tracker(),
    {
        let id = process.id;
        let ghost before = self.processes@;
        upsert_entry(&mut self.processes, id, process);
        if id.0 as u64 >= self.next_pid {
            self.next_pid = id.0 as u64 + 1;
        }
        proof {
            assert forall|i: int| 0 <= i < self.processes@.len() implies (#[trigger] self.processes@[i]).0
                == self.processes@[i].1.id && self.processes@[i].0.0 < self.next_pid by {
                if self.processes@[i] != (id, process) {
                    let j = choose|j: int| 0 <= j < before.len() && before[j] == self.processes@[i];
                    assert(before[j].0 == before[j].1.id);
                }
            }
        }
    }

    /// The outcome of asking `old` to create a process named `name` at
    /// `level` under `parent_id`: `r` is returned and the scheduler becomes `new`.
    pub open spec fn creation_outcome(
        old: &Self,
        new: &Self,
        parent_id: ProcessId,
        name: Seq<char>,
        level: SovereigntyLevel,
        r: Result<Process, ProcessError>,
    ) -> bool {
        if old.next_id() >= PID_LIMIT {
            &&& r matches Err(ProcessError::IdsExhausted)
            &&& new@ == old@
            &&& new.next_id() == old.next_id()
        } else if !old@.contains_key(parent_id) {
            &&& r matches Err(ProcessError::UnknownParent)
            &&& new@ == old@
            &&& new.next_id() == old.next_id() + 1
        } else {
            let id = ProcessId(old.next_id() as u32);
            let verdict = process_creation_rule(old@[parent_id].sovereignty_level, level);
            &&& new.next_id() == old.next_id() + 1
            &&& if verdict is Compliant {
                &&& r matches Ok(p) && p.is_fresh(id, name, level) && new@ == old@.insert(id, p)
                &&& !old@.contains_key(id)
            } else {
                &&& r matches Err(ProcessError::Refused(res)) && res@ == verdict
                &&& new@ == old@
            }
        }
    }

    /// Create a process named `name` at `sovereignty_level` under `parent_id`.
    /// The next id is consumed whatever the outcome; the oracle rules on
    /// the parent's level against the child's as a kernel operation, and the
    /// process enters the table only on a compliant verdict.
    pub fn create_process(&mut self, parent_id: ProcessId, name: &str, sovereignty_level: SovereigntyLevel) -> (r:
        Result<Process, ProcessError>)
        requires
            old(self).wf(),
        ensures
            final(self).wf(),
            final(self).run_order() == old(self).run_order(),
            final(self).tracker() == old(self).tracker(),
            Self::creation_outcome(&*old(self), &*final(self), parent_id, name@, sovereignty_level, r),
    {
        if self.next_pid >= PID_LIMIT {
            return Err(ProcessError::IdsExhausted);
        }
        let id = ProcessId(self.next_pid as u32);
        // The id is consumed even when the creation is refused
        self.next_pid = self.next_pid + 1;
        let parent_level = match find_entry(&self.processes, parent_id) {
            None => {
                return Err(ProcessError::UnknownParent);
            },
            Some(i) => self.processes[i].1.sovereignty_level,
        };
        let verification = self.oracle.verify_operation(
            Operation::ProcessCreation {
                parent_sovereignty: parent_level,
                child_sovereignty: sovereignty_level,
            },
            &Context::KernelOperation,
        );
        match verification {
            VerificationResult::Compliant => {
                let ghost before = self.processes@;
                proof {
                    if table_view(before).contains_key(id) {
                        let j = choose|j: int| 0 <= j < before.len() && before[j].0 == id;
                        assert(before[j].0.0 < id.0);
                    }
                }
                let process = Process::new(id, name, sovereignty_level);
                upsert_entry(&mut self.processes, id, process.duplicate());
                proof {
                    assert forall|i: int| 0 <= i < self.processes@.len() implies (
                    #[trigger] self.processes@[i]).0 == self.processes@[i].1.id
                        && self.processes@[i].0.0 < self.next_pid by {
                        if self.processes@[i].0 != id {
                            let j = choose|j: int|
                                0 <= j < before.len() && before[j] == self.processes@[i];
                            assert(before[j].0 == before[j].1.id);
                        }
                    }
                }
                Ok(process)
            },
            other => Err(ProcessError::Refused(other)),
        }
    }

    /// Recompute the run order: every ready process, highest priority first,
    /// ties broken by ascending id. The order is advisory.
    pub fn schedule_tick(&mut self)
        requires
            old(self).wf(),
        ensures
            final(self).wf(),
            final(self)@ == old(self)@,
            final(self).next_id() == old(self).next_id(),
            final(self).tracker() == old(self).tracker(),
            forall|x: ProcessId|
                final(self).run_order().contains(x) <==> (old(self)@.contains_key(x) && old(
                    self,
                )@[x].state == ProcessState::Ready),
            forall|a: int, b: int|
                0 <= a < b < final(self).run_order().len() ==> #[trigger] runs_before(
                    old(self).tracker()@,
                    final(self).run_order()[a],
                    final(self).run_order()[b],
                ),
    {
        let ghost s = self.processes@;
        let ghost scores = self.pivc_manager@;
        let mut queue: Vec<ProcessId> = Vec::new();
        let mut i: usize = 0;
        while i < self.processes.len()
            invariant
                self.wf(),
                self.processes@ == s,
                self.pivc_manager@ == scores,
                i <= s.len(),
                forall|x: ProcessId| queue@.contains(x) <==> ready_among(s, i as int, x),
                forall|a: int, b: int|
                    0 <= a < b < queue@.len() ==> #[trigger] runs_before(scores, queue@[a], queue@[b]),
            decreases s.len() - i,
        {
            if self.processes[i].1.state == ProcessState::Ready {
                let pid = self.processes[i].0;
                let p = self.pivc_manager.calculate_priority(pid);
                let mut j: usize = 0;
                while j < queue.len() && self.pivc_manager.calculate_priority(queue[j]) >= p
                    invariant
                        self.wf(),
                        self.pivc_manager@ == scores,
                        p == priority(scores, pid),
                        j <= queue@.len(),
                        forall|a: int| 0 <= a < j ==> priority(scores, #[trigger] queue@[a]) >= p,
                    decreases queue@.len() - j,
                {
                    j = j + 1;
                }
                let ghost q = queue@;
                proof {
                    // Every queued id belongs to an earlier entry, so it is smaller.
                    assert forall|a: int| 0 <= a < q.len() implies (#[trigger] q[a]).0 < pid.0 by {
                        assert(q.contains(q[a]));
                        let k = choose|k: int|
                            0 <= k < i && s[k].0 == q[a] && s[k].1.state == ProcessState::Ready;
                        assert(s[k].0.0 < s[i as int].0.0);
                    }
                    assert forall|b: int| j <= b < q.len() implies priority(scores, #[trigger] q[b]) < p by {
                        if b > j {
                            assert(runs_before(scores, q[j as int], q[b]));
                        }
                    }
                }
                queue.insert(j, pid);
                proof {
                    let nq = queue@;
                    assert forall|a: int, b: int| 0 <= a < b < nq.len() implies #[trigger] runs_before(
                        scores,
                        nq[a],
                        nq[b],
                    ) by {
                        if b < j {
                            assert(runs_before(scores, q[a], q[b]));
                        } else if b == j {
                            assert(q[a].0 < pid.0);
                        } else if a < j {
                            assert(runs_before(scores, q[a], q[b - 1]));
                        } else if a == j {
                            assert(priority(scores, q[b - 1]) < p);
                        } else {
                            assert(runs_before(scores, q[a - 1], q[b - 1]));
                        }
                    }
                    assert forall|x: ProcessId| nq.contains(x) <==> ready_among(s, i + 1, x) by {
                        if nq.contains(x) {
                            let a = choose|a: int| 0 <= a < nq.len() && nq[a] == x;
                            if a < j {
                                assert(q.contains(q[a]));
                            } else if a > j {
                                assert(q.contains(q[a - 1]));
                            }
                        }
                        if ready_among(s, i + 1, x) {
                            let k = choose|k: int|
                                0 <= k < i + 1 && s[k].0 == x && s[k].1.state == ProcessState::Ready;
                            if k < i {
                                assert(ready_among(s, i as int, x));
                                let a = choose|a: int| 0 <= a < q.len() && q[a] == x;
                                if a < j {
                                    assert(nq[a] == x);
                                } else {
                                    assert(nq[a + 1] == x);
                                }
                            } else {
                                assert(nq[j as int] == x);
                            }
                        }
                    }
                }
            } else {
                proof {
                    assert forall|x: ProcessId| queue@.contains(x) <==> ready_among(s, i + 1, x) by {
                        if ready_among(s, i + 1, x) {
                            let k = choose|k: int|
                                0 <= k < i + 1 && s[k].0 == x && s[k].1.state == ProcessState::Ready;
                            assert(k < i);
                        }
                    }
                }
            }
            i = i + 1;
        }
        proof {
            assert forall|x: ProcessId| ready_among(s, s.len() as int, x) <==> (table_view(s).contains_key(x)
                && table_view(s)[x].state == ProcessState::Ready) by {
                if ready_among(s, s.len() as int, x) {
                    let k = choose|k: int|
                        0 <= k < s.len() && s[k].0 == x && s[k].1.state == ProcessState::Ready;
                    lemma_entry_at(s, k);
                }
                if table_view(s).contains_key(x) {
                    let k = choose|k: int| 0 <= k < s.len() && s[k].0 == x;
                    lemma_entry_at(s, k);
                }
            }
        }
        self.run_queue = queue;
    }

    /// The impact score of `pid`, from the tracker.
    pub fn get_pivc_score(&self, pid: ProcessId) -> (r: Option<ImpactScore>)
        requires
            self.wf(),
        ensures
            r == (if self.tracker()@.contains_key(pid) {
                Some(self.tracker()@[pid])
            } else {
                None::<ImpactScore>
            }),
    {
        self.pivc_manager.get_score(pid)
    }

    /// The run order computed at the last tick.
    pub fn run_queue(&self) -> (r: &Vec<ProcessId>)
        ensures
            r@ == self.run_order(),
    {
        &self.run_queue
    }

    /// The process `pid`, if in the table.
    pub fn get_process(&self, pid: ProcessId) -> (r: Option<&Process>)
        requires
            self.wf(),
        ensures
            r is Some <==> self@.contains_key(pid),
            r matches Some(p) ==> *p == self@[pid],
    {
        match find_entry(&self.processes, pid) {
            Some(i) => Some(&self.processes[i].1),
            None => None,
        }
    }
}

} // verus!
