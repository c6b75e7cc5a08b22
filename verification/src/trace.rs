//! The assignment trace: everything synthesis produces for one run of a
//! circuit — the witness table, the enabled selector rows, and the concrete
//! copy constraints.

use vstd::prelude::*;
use crate::field::FpValue;
use crate::system::Cell;
use crate::system::ColumnKind;
use crate::system::ConstraintSystemV;

verus! {

/// Turns a vector of vectors into a sequence of sequences.
pub open spec fn grid_view<T>(v: Seq<Vec<T>>) -> Seq<Seq<T>> {
    v.map_values(|x: Vec<T>| x@)
}

/// Replacing one inner vector commutes with taking the grid's view.
pub proof fn lemma_grid_update<T>(s: Seq<Vec<T>>, i: int, x: Vec<T>)
    requires
        0 <= i < s.len(),
    ensures
        grid_view(s.update(i, x)) == grid_view(s).update(i, x@),
{
    assert(grid_view(s.update(i, x)) =~= grid_view(s).update(i, x@));
}

/// The spec-level value of an assignment trace.
pub ghost struct TraceV {
    /// The declared table size: rows are `0 .. k`.
    pub k: nat,
    /// One sequence of cell values per advice column.
    pub advice: Seq<Seq<FpValue>>,
    /// One sequence of cell values per fixed column.
    pub fixed: Seq<Seq<FpValue>>,
    /// One sequence of per-row flags per selector.
    pub selectors: Seq<Seq<bool>>,
    /// The registered copy constraints: unordered pairs of cells that must
    /// hold equal values.
    pub copies: Seq<(Cell, Cell)>,
}

impl TraceV {
    /// Is one endpoint of a copy constraint addressable in this trace?
    pub open spec fn copy_cell_wf(self, c: Cell, cs: ConstraintSystemV) -> bool {
        &&& cs.col_valid(c.column)
        &&& c.column.kind != ColumnKind::Instance ==> c.row < self.k
    }

    /// Every row vector spans the whole table and every stored value is a
    /// reduced field element.
    pub open spec fn rows_wf(self) -> bool {
        &&& 1 <= self.k
        &&& forall|i: int| 0 <= i < self.advice.len() ==> (#[trigger] self.advice[i]).len()
            == self.k
        &&& forall|i: int, r: int|
            0 <= i < self.advice.len() && 0 <= r < self.k ==> (#[trigger] self.advice[i][r]).wf()
        &&& forall|i: int| 0 <= i < self.fixed.len() ==> (#[trigger] self.fixed[i]).len() == self.k
        &&& forall|i: int, r: int|
            0 <= i < self.fixed.len() && 0 <= r < self.k ==> (#[trigger] self.fixed[i][r]).wf()
        &&& forall|i: int| 0 <= i < self.selectors.len() ==> (#[trigger] self.selectors[i]).len()
            == self.k
    }

    /// The trace matches the shape of the constraint system, every stored
    /// value is reduced, and every copy constraint addresses real cells.
    pub open spec fn wf(self, cs: ConstraintSystemV) -> bool {
        &&& self.rows_wf()
        &&& self.advice.len() == cs.num_advice()
        &&& self.fixed.len() == cs.num_fixed()
        &&& self.selectors.len() == cs.num_selectors
        &&& forall|i: int|
            0 <= i < self.copies.len() ==> self.copy_cell_wf((#[trigger] self.copies[i]).0, cs)
                && self.copy_cell_wf(self.copies[i].1, cs)
    }
}

/// An assignment trace under construction or finished.  The mock verifier
/// consumes it read-only; once synthesis has finished it is frozen.
#[derive(Debug)]
pub struct Trace {
    pub k: usize,
    pub advice: Vec<Vec<FpValue>>,
    pub fixed: Vec<Vec<FpValue>>,
    pub selectors: Vec<Vec<bool>>,
    pub copies: Vec<(Cell, Cell)>,
}

impl View for Trace {
    type V = TraceV;

    open spec fn view(&self) -> TraceV {
        TraceV {
            k: self.k as nat,
            advice: grid_view(self.advice@),
            fixed: grid_view(self.fixed@),
            selectors: grid_view(self.selectors@),
            copies: self.copies@,
        }
    }
}

} // verus!
