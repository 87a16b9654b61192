//! Policy-gated resource governance for the Azora kernel: a policy oracle that
//! rules on every privileged operation, a sovereignty-tagged page allocator, an
//! impact tracker that weights processes, and the scheduler that ties them together.

pub mod text;
pub mod crypto;
pub mod memory;
pub mod syscalls;
pub mod kernel;
pub mod constitutional;
pub mod sovereignty;
pub mod pivc;
pub mod table;
pub mod process;
pub mod scheduler;
pub mod audit;
pub mod oracle;
