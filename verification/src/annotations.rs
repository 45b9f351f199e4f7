//! Tool-specific annotations of a compiled program, and how they are read from and written
//! to the raw annotations that the debug information of the program carries.
pub mod coverage;
pub mod debugger;
pub mod decimal;
pub mod json;
pub mod profiler;
pub mod schema;
pub mod traits;

pub use schema::{Mismatch, Schema, Shape};
pub use traits::{AnnotationStore, AnnotationsError, StructuralMismatch, TryFromDebugInfo};
