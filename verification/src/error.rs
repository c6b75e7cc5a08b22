//! Errors raised during configuration and synthesis, and the violations
//! reported by the mock verifier.
//!
//! The two families are deliberately separate: a synthesis error aborts the
//! run fail-fast, while verification findings are the verifier's primary
//! output and are aggregated, never thrown at the first one encountered.

use vstd::prelude::*;
use crate::field::Fp;
use crate::system::Cell;
use crate::system::Column;

verus! {

/// A configuration- or synthesis-time failure.
#[derive(Clone, Copy, Debug, PartialEq, Eq, Structural)]
pub enum Error {
    /// A copy constraint was requested on a column that never had equality
    /// capability enabled.
    ColumnNotEqualityEnabled { column: Column },
    /// A cell that already holds a known value was reassigned to a
    /// different value.
    CellAlreadyAssigned { cell: Cell },
    /// A cell was placed at or beyond the declared table size.
    RowOutOfRange { row: usize, max: usize },
}

/// One finding of the mock verifier.
#[derive(Clone, Copy, Debug, PartialEq, Eq, Structural)]
pub enum Violation {
    /// A gate whose selector is enabled at `row` references `cell`, but the
    /// trace holds no known value for it.
    CellNotAssigned { gate: usize, row: usize, cell: Cell },
    /// Polynomial `poly` of gate `gate` evaluated to the non-zero `value`
    /// on an enabled `row`.
    ConstraintNotSatisfied { gate: usize, poly: usize, row: usize, value: Fp },
    /// Two copy-connected cells hold different known values.
    PermutationMismatch { a: Cell, b: Cell, left: Fp, right: Fp },
    /// A cell copy-connected to an instance cell disagrees with the public
    /// input supplied for that row.
    PublicInputMismatch { column: usize, row: usize, expected: Fp, actual: Fp },
    /// The public-input vector of an instance column is not exactly as long
    /// as the highest row referenced by a binding to that column, plus one.
    PublicInputWrongLength { column: usize, expected_len: usize, actual_len: usize },
}

} // verus!
