//! A static-analysis engine for a stack-based bytecode intermediate
//! representation of smart-contract modules: for every local variable slot of
//! every analyzed function it derives a symbolic dependency tree, a
//! conservative upper bound on the value's magnitude, and a flag stating
//! whether the value is fully constant. A small set of detectors consumes the
//! per-function summaries.

pub mod u256;
pub mod model;
pub mod bounds;
pub mod node;
pub mod table;
pub mod builder;
pub mod detectors;
pub mod laws;
