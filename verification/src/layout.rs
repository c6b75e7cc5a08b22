//! The region placement protocol: a layouter opens regions one after the
//! other, resolves region-relative offsets to absolute rows, records every
//! assignment into the trace, and registers copy constraints.
//!
//! Regions are placed contiguously in program order and never alias rows:
//! every row at or above the current watermark is still unassigned.

use vstd::prelude::*;
use crate::field::Fp;
use crate::field::FpValue;
use crate::system::Cell;
use crate::system::Column;
use crate::system::ColumnKind;
use crate::system::ConstraintSystem;
use crate::system::ConstraintSystemV;
use crate::system::Selector;
use crate::trace::Trace;
use crate::trace::TraceV;
use crate::trace::grid_view;
use crate::error::Error;

verus! {

/// A cell together with the value the layouter wrote into it; the handle a
/// region operation returns, so that later operations can re-use the value
/// and copy-constrain against the cell.
#[derive(Clone, Copy, Debug, PartialEq, Eq, Structural)]
pub struct AssignedCell {
    pub cell: Cell,
    pub value: FpValue,
}

/// What a second assignment to a cell leaves behind: a known value is never
/// displaced, an unknown cell takes the incoming value.
pub open spec fn merge_value(existing: FpValue, incoming: FpValue) -> FpValue {
    match existing {
        FpValue::Known(_) => existing,
        FpValue::Unknown => incoming,
    }
}

/// A reassignment conflicts exactly when both the existing and the incoming
/// value are known and differ.
pub open spec fn assign_conflict(existing: FpValue, incoming: FpValue) -> bool {
    match (existing, incoming) {
        (FpValue::Known(w), FpValue::Known(x)) => w != x,
        _ => false,
    }
}

/// The spec-level value of a layouter.
pub ghost struct LayouterV {
    /// The declared table size.
    pub k: nat,
    /// The public-input values available to synthesis, one sequence per
    /// instance column.
    pub instance: Seq<Seq<Fp>>,
    /// The trace built so far.
    pub trace: TraceV,
    /// Copies of the constraint system's equality capabilities.
    pub eq_advice: Seq<bool>,
    pub eq_fixed: Seq<bool>,
    pub eq_instance: Seq<bool>,
    /// Fixed columns usable for global constants.
    pub constants: Seq<Column>,
    /// The first row after all closed regions.
    pub next_row: nat,
    /// Region state: open?, its base row, and the rows it has claimed.
    pub in_region: bool,
    pub region_base: nat,
    pub region_rows: nat,
    /// The next free row of the constants column.
    pub next_constant: nat,
}

impl LayouterV {
    /// The first row no closed or open region has claimed yet.
    pub open spec fn watermark(self) -> int {
        if self.in_region {
            self.region_base + self.region_rows as int
        } else {
            self.next_row as int
        }
    }

    /// Can this cell stand as the endpoint of a copy constraint?
    pub open spec fn cell_in_range(self, c: Cell) -> bool {
        &&& match c.column.kind {
            ColumnKind::Advice => c.column.index < self.eq_advice.len(),
            ColumnKind::Fixed => c.column.index < self.eq_fixed.len(),
            ColumnKind::Instance => c.column.index < self.eq_instance.len(),
        }
        &&& c.column.kind != ColumnKind::Instance ==> c.row < self.k
    }

    /// Is the column marked as a legal copy-constraint endpoint?
    pub open spec fn eq_enabled(self, c: Column) -> bool {
        match c.kind {
            ColumnKind::Advice => c.index < self.eq_advice.len() && self.eq_advice[c.index as int],
            ColumnKind::Fixed => c.index < self.eq_fixed.len() && self.eq_fixed[c.index as int],
            ColumnKind::Instance => c.index < self.eq_instance.len() && self.eq_instance[
                c.index as int
            ],
        }
    }

    pub open spec fn wf(self) -> bool {
        &&& 1 <= self.k
        &&& self.trace.k == self.k
        &&& self.next_row <= self.k
        &&& self.in_region ==> self.region_base == self.next_row && self.region_base
            + self.region_rows <= self.k
        &&& self.next_constant <= self.k
        // the trace matches the column counts
        &&& self.trace.advice.len() == self.eq_advice.len()
        &&& forall|i: int| 0 <= i < self.trace.advice.len() ==> (#[trigger] self.trace.advice[
            i
        ]).len() == self.k
        &&& forall|i: int, r: int|
            0 <= i < self.trace.advice.len() && 0 <= r < self.k ==> (#[trigger] self.trace.advice[
                i
            ][r]).wf()
        &&& self.trace.fixed.len() == self.eq_fixed.len()
        &&& forall|i: int| 0 <= i < self.trace.fixed.len() ==> (#[trigger] self.trace.fixed[
            i
        ]).len() == self.k
        &&& forall|i: int, r: int|
            0 <= i < self.trace.fixed.len() && 0 <= r < self.k ==> (#[trigger] self.trace.fixed[i][
                r
            ]).wf()
        &&& forall|i: int| 0 <= i < self.trace.selectors.len() ==> (
        #[trigger] self.trace.selectors[i]).len() == self.k
        // the public input matches the instance columns
        &&& self.instance.len() == self.eq_instance.len()
        &&& forall|i: int, r: int|
            0 <= i < self.instance.len() && 0 <= r < self.instance[i].len() ==> (
            #[trigger] self.instance[i][r]).wf()
        // rows at or above the watermark are untouched
        &&& forall|i: int, r: int|
            0 <= i < self.trace.advice.len() && self.watermark() <= r < self.k
                ==> #[trigger] self.trace.advice[i][r] == FpValue::Unknown
        // rows of the constants column at or above its cursor are untouched
        &&& forall|i: int, r: int|
            0 <= i < self.trace.fixed.len() && self.next_constant <= r < self.k
                ==> #[trigger] self.trace.fixed[i][r] == FpValue::Unknown
        // every registered copy constraint addresses real cells
        &&& forall|i: int|
            0 <= i < self.trace.copies.len() ==> self.cell_in_range(
                (#[trigger] self.trace.copies[i]).0,
            ) && self.cell_in_range(self.trace.copies[i].1)
        // the constants columns are equality-enabled fixed columns
        &&& forall|i: int|
            0 <= i < self.constants.len() ==> (#[trigger] self.constants[i]).kind
                == ColumnKind::Fixed && self.eq_enabled(self.constants[i])
    }
}

/// The layouter: resolves region-relative addressing to absolute rows and
/// accumulates the assignment trace.
#[derive(Debug)]
pub struct Layouter {
    pub k: usize,
    pub instance: Vec<Vec<Fp>>,
    pub trace: Trace,
    pub eq_advice: Vec<bool>,
    pub eq_fixed: Vec<bool>,
    pub eq_instance: Vec<bool>,
    pub constants: Vec<Column>,
    pub next_row: usize,
    pub in_region: bool,
    pub region_base: usize,
    pub region_rows: usize,
    pub next_constant: usize,
}

impl View for Layouter {
    type V = LayouterV;

    open spec fn view(&self) -> LayouterV {
        LayouterV {
            k: self.k as nat,
            instance: grid_view(self.instance@),
            trace: self.trace@,
            eq_advice: self.eq_advice@,
            eq_fixed: self.eq_fixed@,
            eq_instance: self.eq_instance@,
            constants: self.constants@,
            next_row: self.next_row as nat,
            in_region: self.in_region,
            region_base: self.region_base as nat,
            region_rows: self.region_rows as nat,
            next_constant: self.next_constant as nat,
        }
    }
}

/// Builds `cols` columns of `k` unassigned cells each.
fn make_value_grid(cols: usize, k: usize) -> (r: Vec<Vec<FpValue>>)
    ensures
        r@.len() == cols,
        forall|i: int| 0 <= i < cols ==> (#[trigger] r@[i])@.len() == k,
        forall|i: int, j: int| 0 <= i < cols && 0 <= j < k ==> (#[trigger] r@[i]@[j])
            == FpValue::Unknown,
{
    let mut r: Vec<Vec<FpValue>> = Vec::new();
    let mut i: usize = 0;
    while i < cols
        invariant
            i <= cols,
            r@.len() == i,
            forall|a: int| 0 <= a < i ==> (#[trigger] r@[a])@.len() == k,
            forall|a: int, j: int| 0 <= a < i && 0 <= j < k ==> (#[trigger] r@[a]@[j])
                == FpValue::Unknown,
        decreases cols - i,
    {
        let mut col: Vec<FpValue> = Vec::new();
        let mut j: usize = 0;
        while j < k
            invariant
                j <= k,
                col@.len() == j,
                forall|b: int| 0 <= b < j ==> #[trigger] col@[b] == FpValue::Unknown,
            decreases k - j,
        {
            col.push(FpValue::Unknown);
            j = j + 1;
        }
        r.push(col);
        i = i + 1;
    }
    r
}

/// Builds `cols` columns of `k` disabled selector rows each.
fn make_bool_grid(cols: usize, k: usize) -> (r: Vec<Vec<bool>>)
    ensures
        r@.len() == cols,
        forall|i: int| 0 <= i < cols ==> (#[trigger] r@[i])@.len() == k,
        forall|i: int, j: int| 0 <= i < cols && 0 <= j < k ==> (#[trigger] r@[i]@[j]) == false,
{
    let mut r: Vec<Vec<bool>> = Vec::new();
    let mut i: usize = 0;
    while i < cols
        invariant
            i <= cols,
            r@.len() == i,
            forall|a: int| 0 <= a < i ==> (#[trigger] r@[a])@.len() == k,
            forall|a: int, j: int| 0 <= a < i && 0 <= j < k ==> (#[trigger] r@[a]@[j]) == false,
        decreases cols - i,
    {
        let mut col: Vec<bool> = Vec::new();
        let mut j: usize = 0;
        while j < k
            invariant
                j <= k,
                col@.len() == j,
                forall|b: int| 0 <= b < j ==> #[trigger] col@[b] == false,
            decreases k - j,
        {
            col.push(false);
            j = j + 1;
        }
        r.push(col);
        i = i + 1;
    }
    r
}

/// Replaces one cell of a grid, leaving every other cell in place.
fn grid_set<T>(grid: &mut Vec<Vec<T>>, i: usize, row: usize, v: T)
    requires
        i < old(grid)@.len(),
        row < old(grid)@[i as int]@.len(),
    ensures
        grid_view(final(grid)@) == grid_view(old(grid)@).update(
            i as int,
            grid_view(old(grid)@)[i as int].update(row as int, v),
        ),
{
    let mut inner: Vec<T> = grid.remove(i);
    inner.set(row, v);
    grid.insert(i, inner);
    proof {
        assert(grid@ =~= old(grid)@.update(i as int, grid@[i as int]));
        crate::trace::lemma_grid_update(old(grid)@, i as int, grid@[i as int]);
    }
}

/// Copies a vector of flags.
fn copy_flags(v: &Vec<bool>) -> (r: Vec<bool>)
    ensures
        r@ == v@,
{
    let mut r: Vec<bool> = Vec::new();
    let mut i: usize = 0;
    while i < v.len()
        invariant
            i <= v@.len(),
            r@ == v@.subrange(0, i as int),
        decreases v@.len() - i,
    {
        r.push(v[i]);
        i = i + 1;
    }
    proof {
        assert(v@.subrange(0, v@.len() as int) =~= v@);
    }
    r
}

/// Copies a vector of columns.
fn copy_columns(v: &Vec<Column>) -> (r: Vec<Column>)
    ensures
        r@ == v@,
{
    let mut r: Vec<Column> = Vec::new();
    let mut i: usize = 0;
    while i < v.len()
        invariant
            i <= v@.len(),
            r@ == v@.subrange(0, i as int),
        decreases v@.len() - i,
    {
        r.push(v[i]);
        i = i + 1;
    }
    proof {
        assert(v@.subrange(0, v@.len() as int) =~= v@);
    }
    r
}

impl Layouter {
    /// A fresh layouter for a table of `k` rows, shaped after the given
    /// constraint system, with the public input each instance column will
    /// hand out during synthesis.
    pub fn new(cs: &ConstraintSystem, k: usize, instance: Vec<Vec<Fp>>) -> (l: Layouter)
        requires
            1 <= k,
            cs@.wf(),
            instance@.len() == cs@.num_instance(),
            forall|i: int, r: int|
                0 <= i < instance@.len() && 0 <= r < instance@[i]@.len() ==> (
                #[trigger] instance@[i]@[r]).wf(),
        ensures
            l@.wf(),
            l@.k == k,
            l@.instance == grid_view(instance@),
            l@.eq_advice == cs@.eq_advice,
            l@.eq_fixed == cs@.eq_fixed,
            l@.eq_instance == cs@.eq_instance,
            l@.constants == cs@.constants,
            l@.next_row == 0,
            !l@.in_region,
            l@.next_constant == 0,
            l@.trace == (TraceV {
                k: k as nat,
                advice: l@.trace.advice,
                fixed: l@.trace.fixed,
                selectors: l@.trace.selectors,
                copies: Seq::<(Cell, Cell)>::empty(),
            }),
            l@.trace.advice.len() == cs@.num_advice(),
            l@.trace.fixed.len() == cs@.num_fixed(),
            l@.trace.selectors.len() == cs@.num_selectors,
            forall|i: int, r: int|
                0 <= i < l@.trace.advice.len() && 0 <= r < k ==> (#[trigger] l@.trace.advice[i][r])
                    == FpValue::Unknown,
            forall|i: int, r: int|
                0 <= i < l@.trace.fixed.len() && 0 <= r < k ==> (#[trigger] l@.trace.fixed[i][r])
                    == FpValue::Unknown,
            forall|i: int, r: int|
                0 <= i < l@.trace.selectors.len() && 0 <= r < k ==> (#[trigger] l@.trace.selectors[
                    i
                ][r]) == false,
    {
        let num_advice = cs.eq_advice.len();
        let num_fixed = cs.eq_fixed.len();
        let trace = Trace {
            k,
            advice: make_value_grid(num_advice, k),
            fixed: make_value_grid(num_fixed, k),
            selectors: make_bool_grid(cs.num_selectors, k),
            copies: Vec::new(),
        };
        let l = Layouter {
            k,
            instance,
            trace,
            eq_advice: copy_flags(&cs.eq_advice),
            eq_fixed: copy_flags(&cs.eq_fixed),
            eq_instance: copy_flags(&cs.eq_instance),
            constants: copy_columns(&cs.constants),
            next_row: 0,
            in_region: false,
            region_base: 0,
            region_rows: 0,
            next_constant: 0,
        };
        proof {
            assert(l@.trace.copies =~= Seq::<(Cell, Cell)>::empty());
        }
        l
    }

    /// Opens a fresh region: its offset `0` is the first row after every
    /// region closed so far.
    pub fn begin_region(&mut self)
        requires
            old(self)@.wf(),
            !old(self)@.in_region,
        ensures
            final(self)@.wf(),
            final(self)@ == (LayouterV {
                in_region: true,
                region_base: old(self)@.next_row,
                region_rows: 0nat,
                ..old(self)@
            }),
    {
        self.in_region = true;
        self.region_base = self.next_row;
        self.region_rows = 0;
    }

    /// Closes the open region; the rows it claimed are sealed and the next
    /// region starts after them.
    pub fn end_region(&mut self)
        requires
            old(self)@.wf(),
            old(self)@.in_region,
        ensures
            final(self)@.wf(),
            final(self)@ == (LayouterV {
                in_region: false,
                next_row: old(self)@.region_base + old(self)@.region_rows,
                ..old(self)@
            }),
    {
        self.in_region = false;
        self.next_row = self.region_base + self.region_rows;
    }

    /// Writes a freshly computed value into an advice cell of the open
    /// region.  Fails with `RowOutOfRange` when the absolute row falls at or
    /// beyond the table size, and with `CellAlreadyAssigned` when the cell
    /// already holds a different known value.
    pub fn assign_advice(&mut self, column: Column, offset: usize, value: FpValue) -> (r: Result<
        AssignedCell,
        Error,
    >)
        requires
            old(self)@.wf(),
            old(self)@.in_region,
            column.kind == ColumnKind::Advice,
            column.index < old(self)@.trace.advice.len(),
            value.wf(),
        ensures
            final(self)@.wf(),
            ({
                let lv = old(self)@;
                let row = lv.region_base + offset;
                if row >= lv.k {
                    &&& r == Err::<AssignedCell, Error>(
                        Error::RowOutOfRange {
                            row: if row <= usize::MAX {
                                row as usize
                            } else {
                                usize::MAX
                            },
                            max: old(self).k,
                        },
                    )
                    &&& final(self)@ == lv
                } else {
                    let existing = lv.trace.advice[column.index as int][row as int];
                    let cell = Cell { column, row: row as usize };
                    if assign_conflict(existing, value) {
                        &&& r == Err::<AssignedCell, Error>(
                            Error::CellAlreadyAssigned { cell: cell },
                        )
                        &&& final(self)@ == lv
                    } else {
                        let merged = merge_value(existing, value);
                        &&& r == Ok::<AssignedCell, Error>(
                            AssignedCell { cell: cell, value: merged },
                        )
                        &&& final(self)@ == (LayouterV {
                            trace: TraceV {
                                advice: lv.trace.advice.update(
                                    column.index as int,
                                    lv.trace.advice[column.index as int].update(
                                        row as int,
                                        merged,
                                    ),
                                ),
                                ..lv.trace
                            },
                            region_rows: if offset + 1 > lv.region_rows {
                                (offset + 1) as nat
                            } else {
                                lv.region_rows
                            },
                            ..lv
                        })
                    }
                }
            }),
    {
        if offset >= self.k - self.region_base {
            let row_rep: usize = if offset <= usize::MAX - self.region_base {
                self.region_base + offset
            } else {
                usize::MAX
            };
            return Err(Error::RowOutOfRange { row: row_rep, max: self.k });
        }
        let row = self.region_base + offset;
        let cell = Cell { column, row };
        let existing = self.trace.advice[column.index][row];
        let conflict = match (existing, value) {
            (FpValue::Known(w), FpValue::Known(x)) => w != x,
            _ => false,
        };
        if conflict {
            return Err(Error::CellAlreadyAssigned { cell });
        }
        let merged = match existing {
            FpValue::Known(_) => existing,
            FpValue::Unknown => value,
        };
        grid_set(&mut self.trace.advice, column.index, row, merged);
        if offset + 1 > self.region_rows {
            self.region_rows = offset + 1;
        }
        Ok(AssignedCell { cell, value: merged })
    }

    /// Copies a public-input value into an advice cell of the open region
    /// and simultaneously registers a copy constraint between the instance
    /// cell and the new advice cell, binding the claim to the externally
    /// supplied value.
    pub fn assign_advice_from_instance(
        &mut self,
        instance: Column,
        instance_row: usize,
        advice: Column,
        offset: usize,
    ) -> (r: Result<AssignedCell, Error>)
        requires
            old(self)@.wf(),
            old(self)@.in_region,
            instance.kind == ColumnKind::Instance,
            instance.index < old(self)@.instance.len(),
            advice.kind == ColumnKind::Advice,
            advice.index < old(self)@.trace.advice.len(),
        ensures
            final(self)@.wf(),
            ({
                let lv = old(self)@;
                let row = lv.region_base + offset;
                if !lv.eq_enabled(instance) {
                    &&& r == Err::<AssignedCell, Error>(
                        Error::ColumnNotEqualityEnabled { column: instance },
                    )
                    &&& final(self)@ == lv
                } else if !lv.eq_enabled(advice) {
                    &&& r == Err::<AssignedCell, Error>(
                        Error::ColumnNotEqualityEnabled { column: advice },
                    )
                    &&& final(self)@ == lv
                } else if instance_row >= lv.instance[instance.index as int].len() {
                    &&& r == Err::<AssignedCell, Error>(
                        Error::RowOutOfRange {
                            row: instance_row,
                            max: lv.instance[instance.index as int].len() as usize,
                        },
                    )
                    &&& final(self)@ == lv
                } else if row >= lv.k {
                    &&& r == Err::<AssignedCell, Error>(
                        Error::RowOutOfRange {
                            row: if row <= usize::MAX {
                                row as usize
                            } else {
                                usize::MAX
                            },
                            max: old(self).k,
                        },
                    )
                    &&& final(self)@ == lv
                } else {
                    let value = FpValue::Known(lv.instance[instance.index as int][instance_row as int]);
                    let existing = lv.trace.advice[advice.index as int][row as int];
                    let cell = Cell { column: advice, row: row as usize };
                    let source = Cell { column: instance, row: instance_row };
                    if assign_conflict(existing, value) {
                        &&& r == Err::<AssignedCell, Error>(
                            Error::CellAlreadyAssigned { cell: cell },
                        )
                        &&& final(self)@ == lv
                    } else {
                        &&& r == Ok::<AssignedCell, Error>(
                            AssignedCell { cell: cell, value: value },
                        )
                        &&& final(self)@ == (LayouterV {
                            trace: TraceV {
                                advice: lv.trace.advice.update(
                                    advice.index as int,
                                    lv.trace.advice[advice.index as int].update(row as int, value),
                                ),
                                copies: lv.trace.copies.push((source, cell)),
                                ..lv.trace
                            },
                            region_rows: if offset + 1 > lv.region_rows {
                                (offset + 1) as nat
                            } else {
                                lv.region_rows
                            },
                            ..lv
                        })
                    }
                }
            }),
    {
        if !self.eq_instance[instance.index] {
            return Err(Error::ColumnNotEqualityEnabled { column: instance });
        }
        if !self.eq_advice[advice.index] {
            return Err(Error::ColumnNotEqualityEnabled { column: advice });
        }
        if instance_row >= self.instance[instance.index].len() {
            return Err(
                Error::RowOutOfRange { row: instance_row, max: self.instance[instance.index].len() },
            );
        }
        if offset >= self.k - self.region_base {
            let row_rep: usize = if offset <= usize::MAX - self.region_base {
                self.region_base + offset
            } else {
                usize::MAX
            };
            return Err(Error::RowOutOfRange { row: row_rep, max: self.k });
        }
        let row = self.region_base + offset;
        let value = FpValue::Known(self.instance[instance.index][instance_row]);
        let cell = Cell { column: advice, row };
        let source = Cell { column: instance, row: instance_row };
        let existing = self.trace.advice[advice.index][row];
        let conflict = match (existing, value) {
            (FpValue::Known(w), FpValue::Known(x)) => w != x,
            _ => false,
        };
        if conflict {
            return Err(Error::CellAlreadyAssigned { cell });
        }
        grid_set(&mut self.trace.advice, advice.index, row, value);
        self.trace.copies.push((source, cell));
        if offset + 1 > self.region_rows {
            self.region_rows = offset + 1;
        }
        Ok(AssignedCell { cell, value })
    }

    /// Registers a copy constraint between an already-assigned cell and a
    /// specific instance row: how a circuit exposes a computed value as a
    /// public output.
    pub fn constrain_instance(&mut self, cell: Cell, column: Column, row: usize) -> (r: Result<
        (),
        Error,
    >)
        requires
            old(self)@.wf(),
            column.kind == ColumnKind::Instance,
            column.index < old(self)@.eq_instance.len(),
            old(self)@.cell_in_range(cell),
        ensures
            final(self)@.wf(),
            ({
                let lv = old(self)@;
                if !lv.eq_enabled(cell.column) {
                    &&& r == Err::<(), Error>(
                        Error::ColumnNotEqualityEnabled { column: cell.column },
                    )
                    &&& final(self)@ == lv
                } else if !lv.eq_enabled(column) {
                    &&& r == Err::<(), Error>(Error::ColumnNotEqualityEnabled { column: column })
                    &&& final(self)@ == lv
                } else {
                    &&& r == Ok::<(), Error>(())
                    &&& final(self)@ == (LayouterV {
                        trace: TraceV {
                            copies: lv.trace.copies.push(
                                (cell, Cell { column: column, row: row }),
                            ),
                            ..lv.trace
                        },
                        ..lv
                    })
                }
            }),
    {
        let enabled = match cell.column.kind {
            ColumnKind::Advice => self.eq_advice[cell.column.index],
            ColumnKind::Fixed => self.eq_fixed[cell.column.index],
            ColumnKind::Instance => self.eq_instance[cell.column.index],
        };
        if !enabled {
            return Err(Error::ColumnNotEqualityEnabled { column: cell.column });
        }
        if !self.eq_instance[column.index] {
            return Err(Error::ColumnNotEqualityEnabled { column });
        }
        self.trace.copies.push((cell, Cell { column, row }));
        Ok(())
    }

    /// Writes a global constant into the next free row of the constants
    /// column, copies it into an advice cell of the open region, and
    /// registers the copy constraint binding the two.
    pub fn assign_advice_from_constant(&mut self, constant: Fp, column: Column, offset: usize) -> (
        r: Result<AssignedCell, Error>
    )
        requires
            old(self)@.wf(),
            old(self)@.in_region,
            column.kind == ColumnKind::Advice,
            column.index < old(self)@.trace.advice.len(),
            constant.wf(),
            old(self)@.constants.len() > 0,
        ensures
            final(self)@.wf(),
            ({
                let lv = old(self)@;
                let row = lv.region_base + offset;
                let ccol = lv.constants[0];
                if !lv.eq_enabled(column) {
                    &&& r == Err::<AssignedCell, Error>(
                        Error::ColumnNotEqualityEnabled { column: column },
                    )
                    &&& final(self)@ == lv
                } else if row >= lv.k {
                    &&& r == Err::<AssignedCell, Error>(
                        Error::RowOutOfRange {
                            row: if row <= usize::MAX {
                                row as usize
                            } else {
                                usize::MAX
                            },
                            max: old(self).k,
                        },
                    )
                    &&& final(self)@ == lv
                } else if lv.next_constant >= lv.k {
                    &&& r == Err::<AssignedCell, Error>(
                        Error::RowOutOfRange { row: old(self).next_constant, max: old(self).k },
                    )
                    &&& final(self)@ == lv
                } else {
                    let value = FpValue::Known(constant);
                    let existing = lv.trace.advice[column.index as int][row as int];
                    let cell = Cell { column: column, row: row as usize };
                    let fixed_cell = Cell { column: ccol, row: old(self).next_constant };
                    if assign_conflict(existing, value) {
                        &&& r == Err::<AssignedCell, Error>(
                            Error::CellAlreadyAssigned { cell: cell },
                        )
                        &&& final(self)@ == lv
                    } else {
                        &&& r == Ok::<AssignedCell, Error>(
                            AssignedCell { cell: cell, value: value },
                        )
                        &&& final(self)@ == (LayouterV {
                            trace: TraceV {
                                advice: lv.trace.advice.update(
                                    column.index as int,
                                    lv.trace.advice[column.index as int].update(row as int, value),
                                ),
                                fixed: lv.trace.fixed.update(
                                    ccol.index as int,
                                    lv.trace.fixed[ccol.index as int].update(
                                        lv.next_constant as int,
                                        value,
                                    ),
                                ),
                                copies: lv.trace.copies.push((fixed_cell, cell)),
                                ..lv.trace
                            },
                            region_rows: if offset + 1 > lv.region_rows {
                                (offset + 1) as nat
                            } else {
                                lv.region_rows
                            },
                            next_constant: lv.next_constant + 1,
                            ..lv
                        })
                    }
                }
            }),
    {
        if !self.eq_advice[column.index] {
            return Err(Error::ColumnNotEqualityEnabled { column });
        }
        if offset >= self.k - self.region_base {
            let row_rep: usize = if offset <= usize::MAX - self.region_base {
                self.region_base + offset
            } else {
                usize::MAX
            };
            return Err(Error::RowOutOfRange { row: row_rep, max: self.k });
        }
        if self.next_constant >= self.k {
            return Err(Error::RowOutOfRange { row: self.next_constant, max: self.k });
        }
        let row = self.region_base + offset;
        let ccol = self.constants[0];
        let value = FpValue::Known(constant);
        let cell = Cell { column, row };
        let fixed_cell = Cell { column: ccol, row: self.next_constant };
        let existing = self.trace.advice[column.index][row];
        let conflict = match (existing, value) {
            (FpValue::Known(w), FpValue::Known(x)) => w != x,
            _ => false,
        };
        if conflict {
            return Err(Error::CellAlreadyAssigned { cell });
        }
        grid_set(&mut self.trace.advice, column.index, row, value);
        grid_set(&mut self.trace.fixed, ccol.index, self.next_constant, value);
        self.trace.copies.push((fixed_cell, cell));
        self.next_constant = self.next_constant + 1;
        if offset + 1 > self.region_rows {
            self.region_rows = offset + 1;
        }
        Ok(AssignedCell { cell, value })
    }
}

impl AssignedCell {
    /// Writes this cell's value into a new advice cell of the open region
    /// and registers a copy constraint between the source cell and the new
    /// one.
    pub fn copy_advice(&self, l: &mut Layouter, column: Column, offset: usize) -> (r: Result<
        AssignedCell,
        Error,
    >)
        requires
            old(l)@.wf(),
            old(l)@.in_region,
            column.kind == ColumnKind::Advice,
            column.index < old(l)@.trace.advice.len(),
            old(l)@.cell_in_range(self.cell),
            self.value.wf(),
        ensures
            final(l)@.wf(),
            ({
                let lv = old(l)@;
                let row = lv.region_base + offset;
                if !lv.eq_enabled(self.cell.column) {
                    &&& r == Err::<AssignedCell, Error>(
                        Error::ColumnNotEqualityEnabled { column: self.cell.column },
                    )
                    &&& final(l)@ == lv
                } else if !lv.eq_enabled(column) {
                    &&& r == Err::<AssignedCell, Error>(
                        Error::ColumnNotEqualityEnabled { column: column },
                    )
                    &&& final(l)@ == lv
                } else if row >= lv.k {
                    &&& r == Err::<AssignedCell, Error>(
                        Error::RowOutOfRange {
                            row: if row <= usize::MAX {
                                row as usize
                            } else {
                                usize::MAX
                            },
                            max: old(l).k,
                        },
                    )
                    &&& final(l)@ == lv
                } else {
                    let existing = lv.trace.advice[column.index as int][row as int];
                    let cell = Cell { column: column, row: row as usize };
                    if assign_conflict(existing, self.value) {
                        &&& r == Err::<AssignedCell, Error>(
                            Error::CellAlreadyAssigned { cell: cell },
                        )
                        &&& final(l)@ == lv
                    } else {
                        let merged = merge_value(existing, self.value);
                        &&& r == Ok::<AssignedCell, Error>(
                            AssignedCell { cell: cell, value: merged },
                        )
                        &&& final(l)@ == (LayouterV {
                            trace: TraceV {
                                advice: lv.trace.advice.update(
                                    column.index as int,
                                    lv.trace.advice[column.index as int].update(row as int, merged),
                                ),
                                copies: lv.trace.copies.push((self.cell, cell)),
                                ..lv.trace
                            },
                            region_rows: if offset + 1 > lv.region_rows {
                                (offset + 1) as nat
                            } else {
                                lv.region_rows
                            },
                            ..lv
                        })
                    }
                }
            }),
    {
        let source_enabled = match self.cell.column.kind {
            ColumnKind::Advice => l.eq_advice[self.cell.column.index],
            ColumnKind::Fixed => l.eq_fixed[self.cell.column.index],
            ColumnKind::Instance => l.eq_instance[self.cell.column.index],
        };
        if !source_enabled {
            return Err(Error::ColumnNotEqualityEnabled { column: self.cell.column });
        }
        if !l.eq_advice[column.index] {
            return Err(Error::ColumnNotEqualityEnabled { column });
        }
        if offset >= l.k - l.region_base {
            let row_rep: usize = if offset <= usize::MAX - l.region_base {
                l.region_base + offset
            } else {
                usize::MAX
            };
            return Err(Error::RowOutOfRange { row: row_rep, max: l.k });
        }
        let row = l.region_base + offset;
        let cell = Cell { column, row };
        let existing = l.trace.advice[column.index][row];
        let conflict = match (existing, self.value) {
            (FpValue::Known(w), FpValue::Known(x)) => w != x,
            _ => false,
        };
        if conflict {
            return Err(Error::CellAlreadyAssigned { cell });
        }
        let merged = match existing {
            FpValue::Known(_) => existing,
            FpValue::Unknown => self.value,
        };
        grid_set(&mut l.trace.advice, column.index, row, merged);
        l.trace.copies.push((self.cell, cell));
        if offset + 1 > l.region_rows {
            l.region_rows = offset + 1;
        }
        Ok(AssignedCell { cell, value: merged })
    }
}

impl Selector {
    /// Marks the absolute row `base + offset` of the open region as active
    /// for this selector.
    pub fn enable(&self, l: &mut Layouter, offset: usize) -> (r: Result<(), Error>)
        requires
            old(l)@.wf(),
            old(l)@.in_region,
            self.index < old(l)@.trace.selectors.len(),
        ensures
            final(l)@.wf(),
            ({
                let lv = old(l)@;
                let row = lv.region_base + offset;
                if row >= lv.k {
                    &&& r == Err::<(), Error>(
                        Error::RowOutOfRange {
                            row: if row <= usize::MAX {
                                row as usize
                            } else {
                                usize::MAX
                            },
                            max: old(l).k,
                        },
                    )
                    &&& final(l)@ == lv
                } else {
                    &&& r == Ok::<(), Error>(())
                    &&& final(l)@ == (LayouterV {
                        trace: TraceV {
                            selectors: lv.trace.selectors.update(
                                self.index as int,
                                lv.trace.selectors[self.index as int].update(row as int, true),
                            ),
                            ..lv.trace
                        },
                        region_rows: if offset + 1 > lv.region_rows {
                            (offset + 1) as nat
                        } else {
                            lv.region_rows
                        },
                        ..lv
                    })
                }
            }),
    {
        if offset >= l.k - l.region_base {
            let row_rep: usize = if offset <= usize::MAX - l.region_base {
                l.region_base + offset
            } else {
                usize::MAX
            };
            return Err(Error::RowOutOfRange { row: row_rep, max: l.k });
        }
        let row = l.region_base + offset;
        grid_set(&mut l.trace.selectors, self.index, row, true);
        if offset + 1 > l.region_rows {
            l.region_rows = offset + 1;
        }
        Ok(())
    }
}

} // verus!
