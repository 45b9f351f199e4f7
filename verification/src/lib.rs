//! Debug information of compiled Cairo programs for coverage, profiling and debugging
//! tools: the annotations that the tools attach to a program, the mapping of a VM trace
//! back to Sierra statements, and the arithmetic of resource snapshots.
pub mod annotations;
pub mod map_pcs_to_sierra_statement_ids;
pub mod ordered_map;
pub mod trace_data;

pub use map_pcs_to_sierra_statement_ids::{
    map_pcs_to_sierra_statement_ids, MappingResult, SierraStatementDebugInfo,
};
