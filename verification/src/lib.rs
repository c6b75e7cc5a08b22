//! An arithmetic-circuit arithmetization and witness-consistency engine.
//!
//! A circuit is described once as a set of typed columns, polynomial gates
//! over cells at relative rotations, and equality (copy) constraints; a
//! layouter then places concrete witness values into the table region by
//! region, and a mock verifier checks the finished assignment against every
//! gate, selector, copy constraint and public-input binding.

pub mod connectivity;
pub mod error;
pub mod fib_copy;
pub mod fib_rotation;
pub mod field;
pub mod laws;
pub mod layout;
mod permutation;
pub mod simple;
pub mod system;
pub mod trace;
pub mod verify;

pub use error::Error;
pub use error::Violation;
pub use field::Fp;
pub use field::FpValue;
pub use field::P;
pub use layout::AssignedCell;
pub use layout::Layouter;
pub use system::Cell;
pub use system::Column;
pub use system::ColumnKind;
pub use system::ConstraintSystem;
pub use system::Expression;
pub use system::Rotation;
pub use system::Selector;
pub use trace::Trace;
pub use verify::verify;
