//! Process records.

use vstd::prelude::*;
use crate::memory::{ProcessId, SovereigntyLevel};
use crate::pivc::ImpactScore;

verus! {

/// Run state of a process.
#[derive(Debug, Clone, Copy, PartialEq, Eq, Structural)]
pub enum ProcessState {
    Ready,
    Running,
    Waiting,
    Terminated,
}

/// A process: its identity, sovereignty class, impact score, state, and the
/// memory regions it holds (by address).
#[derive(Debug)]
pub struct Process {
    pub id: ProcessId,
    pub name: String,
    pub sovereignty_level: SovereigntyLevel,
    pub pivc_score: ImpactScore,
    pub state: ProcessState,
    pub stack_base: Option<usize>,
    pub heap_base: Option<usize>,
    pub stack_size: usize,
    pub heap_size: usize,
}

impl Process {
    /// `self` is a freshly created process `id` named `name` at `level`.
    pub open spec fn is_fresh(&self, id: ProcessId, name: Seq<char>, level: SovereigntyLevel) -> bool {
        &&& self.id == id
        &&& self.name@ == name
        &&& self.sovereignty_level == level
        &&& self.pivc_score == (ImpactScore {
            knowledge: 0,
            application: 0,
            contribution: 0,
            total: 0,
            verified_by_oracle: false,
        })
        &&& self.state == ProcessState::Ready
        &&& self.stack_base is None
        &&& self.heap_base is None
        &&& self.stack_size == 0
        &&& self.heap_size == 0
    }

    /// A ready process with a zero score and no memory regions.
    pub fn new(id: ProcessId, name: &str, sovereignty_level: SovereigntyLevel) -> (r: Self)
        ensures
            r.is_fresh(id, name@, sovereignty_level),
    {
        Process {
            id,
            name: name.to_owned(),
            sovereignty_level,
            pivc_score: ImpactScore::zero(),
            state: ProcessState::Ready,
            stack_base: None,
            heap_base: None,
            stack_size: 0,
            heap_size: 0,
        }
    }

    /// A copy of this process record.
    pub fn duplicate(&self) -> (r: Self)
        ensures
            r == *self,
    {
        Process {
            id: self.id,
            name: self.name.clone(),
            sovereignty_level: self.sovereignty_level,
            pivc_score: self.pivc_score,
            state: self.state,
            stack_base: self.stack_base,
            heap_base: self.heap_base,
            stack_size: self.stack_size,
            heap_size: self.heap_size,
        }
    }

    /// Record the stack region.
    pub fn set_stack(&mut self, base: usize, size: usize)
        ensures
            *final(self) == (Process { stack_base: Some(base), stack_size: size, ..*old(self) }),
    {
        self.stack_base = Some(base);
        self.stack_size = size;
    }

    /// Record the heap region.
    pub fn set_heap(&mut self, base: usize, size: usize)
        ensures
            *final(self) == (Process { heap_base: Some(base), heap_size: size, ..*old(self) }),
    {
        self.heap_base = Some(base);
        self.heap_size = size;
    }

    /// Record the impact score.
    pub fn set_pivc_score(&mut self, score: ImpactScore)
        ensures
            *final(self) == (Process { pivc_score: score, ..*old(self) }),
    {
        self.pivc_score = score;
    }
}

} // verus!
