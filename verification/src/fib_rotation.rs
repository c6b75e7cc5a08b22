//! The single-column rotation recurrence: one advice column holds the whole
//! sequence, a gate reads rotations (current, next, +2) and asserts
//! `cur + next = row+2`, and a selector is enabled at every row except the
//! last two so the recurrence chains across the column.  Only the two seed
//! cells are bound to the instance column by copy constraints.

use vstd::prelude::*;
use crate::error::Error;
use crate::field::Fp;
use crate::field::FpValue;
use crate::layout::AssignedCell;
use crate::layout::Layouter;
use crate::layout::LayouterV;
use crate::system::Cell;
use crate::system::Column;
use crate::system::ColumnKind;
use crate::system::ConstraintSystem;
use crate::system::Expression;
use crate::system::GateV;
use crate::system::Rotation;
use crate::system::Selector;
use crate::trace::TraceV;

verus! {

/// The recurrence over the field: every value is the field sum of the two
/// before it, from the seeds `a` and `b`.
pub open spec fn fib_at(a: Fp, b: Fp, i: nat) -> Fp
    decreases i,
{
    if i == 0 {
        a
    } else if i == 1 {
        b
    } else {
        fib_at(a, b, (i - 2) as nat).spec_add(fib_at(a, b, (i - 1) as nat))
    }
}

/// Is this polynomial `advice@cur + advice@next - advice@(+2)`?
pub open spec fn is_fib_poly(e: Expression, advice: Column) -> bool {
    &&& e matches Expression::Sum(ab, nc)
    &&& *ab matches Expression::Sum(qa, qb)
    &&& *qa == Expression::Query(advice, Rotation { offset: 0i64 })
    &&& *qb == Expression::Query(advice, Rotation { offset: 1i64 })
    &&& *nc matches Expression::Negated(qc)
    &&& *qc == Expression::Query(advice, Rotation { offset: 2i64 })
}

/// Is this gate the recurrence gate on `advice`, gated by `selector`?
pub open spec fn is_fib_gate(g: GateV, advice: Column, selector: Selector) -> bool {
    &&& g.selector == selector
    &&& g.polys.len() == 1
    &&& is_fib_poly(g.polys[0], advice)
}

/// The columns and the selector the recurrence chip works with.
#[derive(Clone, Copy, Debug)]
pub struct FibonacciConfig {
    pub advice: Column,
    pub instance: Column,
    pub selector: Selector,
}

impl FibonacciConfig {
    /// The columns exist in the layouter's shape and carry the equality
    /// capability that seeding from the instance column relies on.
    pub open spec fn wf(self, lv: LayouterV) -> bool {
        &&& self.advice.kind == ColumnKind::Advice
        &&& self.advice.index < lv.trace.advice.len()
        &&& lv.eq_enabled(self.advice)
        &&& self.instance.kind == ColumnKind::Instance
        &&& self.instance.index < lv.instance.len()
        &&& lv.eq_enabled(self.instance)
        &&& self.selector.index < lv.trace.selectors.len()
    }
}

/// A handle on one assigned cell of the recurrence column.
#[derive(Clone, Copy, Debug)]
pub struct ACell(pub AssignedCell);

/// The recurrence chip.
#[derive(Clone, Copy, Debug)]
pub struct FibonacciChip {
    pub config: FibonacciConfig,
}

impl FibonacciChip {
    /// Wraps a finished configuration.
    pub fn construct(config: FibonacciConfig) -> (r: FibonacciChip)
        ensures
            r.config == config,
    {
        FibonacciChip { config }
    }

    /// Registers the recurrence gate and the equality capabilities the chip
    /// needs: one selector, and `advice@cur + advice@next - advice@(+2)`
    /// asserted zero wherever the selector is enabled.
    pub fn configure(cs: &mut ConstraintSystem, advice: Column, instance: Column) -> (r:
        FibonacciConfig)
        requires
            old(cs)@.wf(),
            advice.kind == ColumnKind::Advice,
            old(cs)@.col_valid(advice),
            instance.kind == ColumnKind::Instance,
            old(cs)@.col_valid(instance),
            old(cs)@.num_selectors < usize::MAX,
            old(cs)@.gates.len() < usize::MAX,
        ensures
            final(cs)@.wf(),
            r.advice == advice,
            r.instance == instance,
            r.selector == (Selector { index: old(cs).num_selectors }),
            final(cs)@.eq_advice == old(cs)@.eq_advice.update(advice.index as int, true),
            final(cs)@.eq_fixed == old(cs)@.eq_fixed,
            final(cs)@.eq_instance == old(cs)@.eq_instance.update(instance.index as int, true),
            final(cs)@.num_selectors == old(cs)@.num_selectors + 1,
            final(cs)@.constants == old(cs)@.constants,
            final(cs)@.gates.len() == old(cs)@.gates.len() + 1,
            final(cs)@.gates == old(cs)@.gates.push(final(cs)@.gates.last()),
            is_fib_gate(final(cs)@.gates.last(), advice, r.selector),
    {
        cs.enable_equality(advice);
        cs.enable_equality(instance);
        let selector = cs.selector();
        let qa = Expression::Query(advice, Rotation::cur());
        let qb = Expression::Query(advice, Rotation::next());
        let qc = Expression::Query(advice, Rotation::at(2));
        let poly = Expression::difference(Expression::sum(qa, qb), qc);
        let ghost gpoly = poly;
        let mut polys: Vec<Expression> = Vec::new();
        polys.push(poly);
        proof {
            reveal_with_fuel(Expression::wf, 6);
            assert(polys@[0] == gpoly);
            assert(is_fib_poly(gpoly, advice));
            assert(gpoly.wf());
        }
        cs.create_gate("add", selector, polys);
        FibonacciConfig { advice, instance, selector }
    }

    /// Fills `n` rows of the recurrence column in one region: the two seeds
    /// are copied in from instance rows 0 and 1, each later row is the field
    /// sum of the two rows before it, and the recurrence gate is enabled on
    /// every row except the last two.  Returns the handle on the last cell.
    #[verifier::loop_isolation(false)]
    #[verifier::rlimit(100)]
    pub fn assign_row(&self, l: &mut Layouter, n: usize) -> (r: Result<ACell, Error>)
        requires
            old(l)@.wf(),
            !old(l)@.in_region,
            self.config.wf(old(l)@),
            2 <= n,
            old(l)@.instance[self.config.instance.index as int].len() >= 2,
        ensures
            final(l)@.wf(),
            !final(l)@.in_region,
            ({
                let lv = old(l)@;
                let base = lv.next_row as int;
                if base + n <= lv.k {
                    r == Ok::<ACell, Error>(
                        ACell(
                            AssignedCell {
                                cell: Cell {
                                    column: self.config.advice,
                                    row: (base + n - 1) as usize,
                                },
                                value: FpValue::Known(
                                    fib_at(
                                        lv.instance[self.config.instance.index as int][0],
                                        lv.instance[self.config.instance.index as int][1],
                                        (n - 1) as nat,
                                    ),
                                ),
                            },
                        ),
                    )
                } else {
                    r == Err::<ACell, Error>(Error::RowOutOfRange { row: old(l).k, max: old(l).k })
                        && final(l)@ == lv
                }
            }),
            ({
                let lv = old(l)@;
                let base = lv.next_row as int;
                base + n <= lv.k ==> final(l)@ == (LayouterV {
                    trace: final(l)@.trace,
                    next_row: (base + n) as nat,
                    region_base: final(l)@.region_base,
                    region_rows: final(l)@.region_rows,
                    ..lv
                })
            }),
            ({
                let lv = old(l)@;
                let base = lv.next_row as int;
                base + n <= lv.k ==> final(l)@.trace == (TraceV {
                    advice: final(l)@.trace.advice,
                    selectors: final(l)@.trace.selectors,
                    copies: lv.trace.copies.push(
                        (
                            Cell { column: self.config.instance, row: 0 },
                            Cell { column: self.config.advice, row: base as usize },
                        ),
                    ).push(
                        (
                            Cell { column: self.config.instance, row: 1 },
                            Cell { column: self.config.advice, row: (base + 1) as usize },
                        ),
                    ),
                    ..lv.trace
                })
            }),
            ({
                let lv = old(l)@;
                let base = lv.next_row as int;
                let col = self.config.advice.index as int;
                base + n <= lv.k ==> {
                    &&& final(l)@.trace.advice.len() == lv.trace.advice.len()
                    &&& forall|rr: int|
                        base <= rr < base + n ==> #[trigger] final(l)@.trace.advice[col][rr]
                            == FpValue::Known(
                            fib_at(
                                lv.instance[self.config.instance.index as int][0],
                                lv.instance[self.config.instance.index as int][1],
                                (rr - base) as nat,
                            ),
                        )
                    &&& forall|j: int, rr: int|
                        0 <= j < lv.trace.advice.len() && 0 <= rr < lv.k && !(j == col && base
                            <= rr < base + n) ==> final(l)@.trace.advice[j][rr]
                            == lv.trace.advice[j][rr]
                }
            }),
            ({
                let lv = old(l)@;
                let base = lv.next_row as int;
                base + n <= lv.k ==> final(l)@.trace.selectors.len() == lv.trace.selectors.len()
            }),
            ({
                let lv = old(l)@;
                let base = lv.next_row as int;
                let sel = self.config.selector.index as int;
                base + n <= lv.k ==> forall|rr: int|
                    0 <= rr < lv.k ==> (#[trigger] final(l)@.trace.selectors[sel][rr] <==> (
                    lv.trace.selectors[sel][rr] || (base <= rr < base + n - 2)))
            }),
            ({
                let lv = old(l)@;
                let base = lv.next_row as int;
                let sel = self.config.selector.index as int;
                base + n <= lv.k ==> forall|j: int|
                    0 <= j < lv.trace.selectors.len() && j != sel
                        ==> final(l)@.trace.selectors[j] == lv.trace.selectors[j]
            }),
    {
        let ghost lv = l@;
        let ghost base = l@.next_row as int;
        let ghost col = self.config.advice.index as int;
        let ghost sel = self.config.selector.index as int;
        let ghost s0 = l@.instance[self.config.instance.index as int][0];
        let ghost s1 = l@.instance[self.config.instance.index as int][1];
        if n > l.k - l.next_row {
            return Err(Error::RowOutOfRange { row: l.k, max: l.k });
        }
        l.begin_region();
        let a0 = l.assign_advice_from_instance(self.config.instance, 0, self.config.advice, 0)?;
        let b0 = l.assign_advice_from_instance(self.config.instance, 1, self.config.advice, 1)?;
        let mut a = a0;
        let mut b = b0;
        let mut row: usize = 2;
        while row < n
            invariant
                2 <= row <= n,
                l@.wf(),
                l@.in_region,
                l@.region_base == base,
                l@.region_rows == row,
                l@.next_row == base,
                a == (AssignedCell {
                    cell: Cell { column: self.config.advice, row: (base + row - 2) as usize },
                    value: FpValue::Known(fib_at(s0, s1, (row - 2) as nat)),
                }),
                b == (AssignedCell {
                    cell: Cell { column: self.config.advice, row: (base + row - 1) as usize },
                    value: FpValue::Known(fib_at(s0, s1, (row - 1) as nat)),
                }),
                l@ == (LayouterV {
                    trace: l@.trace,
                    in_region: true,
                    region_base: base as nat,
                    region_rows: row as nat,
                    ..lv
                }),
                l@.trace == (TraceV { advice: l@.trace.advice, copies: l@.trace.copies, ..lv.trace }),
                l@.trace.advice.len() == lv.trace.advice.len(),
                l@.trace.copies == lv.trace.copies.push(
                    (
                        Cell { column: self.config.instance, row: 0 },
                        Cell { column: self.config.advice, row: base as usize },
                    ),
                ).push(
                    (
                        Cell { column: self.config.instance, row: 1 },
                        Cell { column: self.config.advice, row: (base + 1) as usize },
                    ),
                ),
                forall|rr: int|
                    base <= rr < base + row ==> #[trigger] l@.trace.advice[col][rr]
                        == FpValue::Known(fib_at(s0, s1, (rr - base) as nat)),
                forall|j: int, rr: int|
                    0 <= j < lv.trace.advice.len() && 0 <= rr < lv.k && !(j == col && base <= rr
                        < base + row) ==> l@.trace.advice[j][rr] == lv.trace.advice[j][rr],
            decreases n - row,
        {
            let cval = a.value.add(b.value);
            let c = l.assign_advice(self.config.advice, row, cval)?;
            proof {
                assert(fib_at(s0, s1, row as nat) == fib_at(s0, s1, (row - 2) as nat).spec_add(
                    fib_at(s0, s1, (row - 1) as nat),
                ));
            }
            a = b;
            b = c;
            row = row + 1;
        }
        let mut i: usize = 0;
        while i < n - 2
            invariant
                0 <= i <= n - 2,
                l@.wf(),
                l@.in_region,
                l@.region_base == base,
                l@.region_rows == n,
                l@.next_row == base,
                l@ == (LayouterV {
                    trace: l@.trace,
                    in_region: true,
                    region_base: base as nat,
                    region_rows: n as nat,
                    ..lv
                }),
                l@.trace == (TraceV {
                    advice: l@.trace.advice,
                    selectors: l@.trace.selectors,
                    copies: l@.trace.copies,
                    ..lv.trace
                }),
                forall|rr: int|
                    base <= rr < base + n ==> #[trigger] l@.trace.advice[col][rr]
                        == FpValue::Known(fib_at(s0, s1, (rr - base) as nat)),
                forall|j: int, rr: int|
                    0 <= j < lv.trace.advice.len() && 0 <= rr < lv.k && !(j == col && base <= rr
                        < base + n) ==> l@.trace.advice[j][rr] == lv.trace.advice[j][rr],
                l@.trace.advice.len() == lv.trace.advice.len(),
                l@.trace.copies == lv.trace.copies.push(
                    (
                        Cell { column: self.config.instance, row: 0 },
                        Cell { column: self.config.advice, row: base as usize },
                    ),
                ).push(
                    (
                        Cell { column: self.config.instance, row: 1 },
                        Cell { column: self.config.advice, row: (base + 1) as usize },
                    ),
                ),
                forall|rr: int|
                    0 <= rr < lv.k ==> (l@.trace.selectors[sel][rr] <==> (lv.trace.selectors[sel][
                        rr
                    ] || (base <= rr < base + i))),
                forall|j: int|
                    0 <= j < lv.trace.selectors.len() && j != sel ==> l@.trace.selectors[j]
                        == lv.trace.selectors[j],
                l@.trace.selectors.len() == lv.trace.selectors.len(),
            decreases n - 2 - i,
        {
            let res = self.config.selector.enable(l, i);
            proof {
                assert(res is Ok);
            }
            i = i + 1;
        }
        proof {
            assert(i == n - 2);
            assert(forall|rr: int|
                0 <= rr < lv.k ==> (#[trigger] l@.trace.selectors[sel][rr] <==> (
                lv.trace.selectors[sel][rr] || (base <= rr < base + n - 2))));
        }
        l.end_region();
        Ok(ACell(b))
    }

    /// Registers a copy constraint between an assigned cell and an instance
    /// row: the circuit's way of exposing a computed value as a public
    /// output.
    pub fn expose_public(&self, l: &mut Layouter, c: &ACell, row: usize) -> (r: Result<(), Error>)
        requires
            old(l)@.wf(),
            self.config.wf(old(l)@),
            old(l)@.cell_in_range(c.0.cell),
            old(l)@.eq_enabled(c.0.cell.column),
        ensures
            final(l)@.wf(),
            r == Ok::<(), Error>(()),
            final(l)@ == (LayouterV {
                trace: TraceV {
                    copies: old(l)@.trace.copies.push(
                        (c.0.cell, Cell { column: self.config.instance, row: row }),
                    ),
                    ..old(l)@.trace
                },
                ..old(l)@
            }),
    {
        let r = l.constrain_instance(c.0.cell, self.config.instance, row);
        proof {
            assert(r is Ok);
        }
        r
    }
}

/// The rotation-based recurrence circuit: ten rows, seeded from instance
/// rows 0 and 1, with the tenth value exposed at instance row 2.
pub struct FibonacciCircuit;

impl FibonacciCircuit {
    /// The witness-free copy of the circuit; this circuit carries no
    /// private input at all.
    pub fn without_witnesses(&self) -> (r: FibonacciCircuit) {
        FibonacciCircuit
    }

    /// Builds the circuit shape: one advice column, one instance column,
    /// and the recurrence gate.
    pub fn configure(cs: &mut ConstraintSystem) -> (r: FibonacciConfig)
        requires
            old(cs)@.wf(),
            old(cs)@.num_advice() < usize::MAX,
            old(cs)@.num_instance() < usize::MAX,
            old(cs)@.num_selectors < usize::MAX,
            old(cs)@.gates.len() < usize::MAX,
        ensures
            final(cs)@.wf(),
            r.advice == (Column { kind: ColumnKind::Advice, index: old(cs).eq_advice.len() }),
            r.instance == (Column { kind: ColumnKind::Instance, index: old(cs).eq_instance.len() }),
            r.selector == (Selector { index: old(cs).num_selectors }),
            final(cs)@.eq_advice == old(cs)@.eq_advice.push(false).update(
                old(cs)@.eq_advice.len() as int,
                true,
            ),
            final(cs)@.eq_instance == old(cs)@.eq_instance.push(false).update(
                old(cs)@.eq_instance.len() as int,
                true,
            ),
            final(cs)@.eq_fixed == old(cs)@.eq_fixed,
            final(cs)@.num_selectors == old(cs)@.num_selectors + 1,
            final(cs)@.constants == old(cs)@.constants,
            final(cs)@.gates.len() == old(cs)@.gates.len() + 1,
            final(cs)@.gates == old(cs)@.gates.push(final(cs)@.gates.last()),
            is_fib_gate(final(cs)@.gates.last(), r.advice, r.selector),
    {
        let advice = cs.advice_column();
        let instance = cs.instance_column();
        FibonacciChip::configure(cs, advice, instance)
    }

    /// Fills the ten-row recurrence table and exposes the last value at
    /// instance row 2.
    pub fn synthesize(&self, config: FibonacciConfig, l: &mut Layouter) -> (r: Result<(), Error>)
        requires
            old(l)@.wf(),
            !old(l)@.in_region,
            config.wf(old(l)@),
            old(l)@.instance[config.instance.index as int].len() >= 2,
        ensures
            final(l)@.wf(),
            !final(l)@.in_region,
            ({
                let lv = old(l)@;
                let base = lv.next_row as int;
                let s0 = lv.instance[config.instance.index as int][0];
                let s1 = lv.instance[config.instance.index as int][1];
                if base + 10 <= lv.k {
                    &&& r == Ok::<(), Error>(())
                    &&& final(l)@.next_row == base + 10
                    &&& forall|rr: int|
                        base <= rr < base + 10 ==> #[trigger] final(l)@.trace.advice[
                            config.advice.index as int
                        ][rr] == FpValue::Known(fib_at(s0, s1, (rr - base) as nat))
                    &&& forall|rr: int|
                        0 <= rr < lv.k ==> (final(l)@.trace.selectors[config.selector.index as int][
                            rr
                        ] <==> (lv.trace.selectors[config.selector.index as int][rr] || (base <= rr
                            < base + 8)))
                    &&& final(l)@.trace.copies == lv.trace.copies.push(
                        (
                            Cell { column: config.instance, row: 0 },
                            Cell { column: config.advice, row: base as usize },
                        ),
                    ).push(
                        (
                            Cell { column: config.instance, row: 1 },
                            Cell { column: config.advice, row: (base + 1) as usize },
                        ),
                    ).push(
                        (
                            Cell { column: config.advice, row: (base + 9) as usize },
                            Cell { column: config.instance, row: 2 },
                        ),
                    )
                } else {
                    &&& r == Err::<(), Error>(Error::RowOutOfRange { row: old(l).k, max: old(l).k })
                    &&& final(l)@ == lv
                }
            }),
            ({
                let lv = old(l)@;
                let base = lv.next_row as int;
                base + 10 <= lv.k ==> final(l)@ == (LayouterV {
                    trace: final(l)@.trace,
                    next_row: (base + 10) as nat,
                    region_base: final(l)@.region_base,
                    region_rows: final(l)@.region_rows,
                    ..lv
                })
            }),
            ({
                let lv = old(l)@;
                let base = lv.next_row as int;
                base + 10 <= lv.k ==> final(l)@.trace == (TraceV {
                    advice: final(l)@.trace.advice,
                    selectors: final(l)@.trace.selectors,
                    copies: final(l)@.trace.copies,
                    ..lv.trace
                })
            }),
            ({
                let lv = old(l)@;
                let base = lv.next_row as int;
                let col = config.advice.index as int;
                base + 10 <= lv.k ==> {
                    &&& final(l)@.trace.advice.len() == lv.trace.advice.len()
                    &&& forall|j: int, rr: int|
                        0 <= j < lv.trace.advice.len() && 0 <= rr < lv.k && !(j == col && base
                            <= rr < base + 10) ==> final(l)@.trace.advice[j][rr]
                            == lv.trace.advice[j][rr]
                }
            }),
            ({
                let lv = old(l)@;
                let sel = config.selector.index as int;
                let base = lv.next_row as int;
                base + 10 <= lv.k ==> {
                    &&& final(l)@.trace.selectors.len() == lv.trace.selectors.len()
                    &&& forall|j: int|
                        0 <= j < lv.trace.selectors.len() && j != sel
                            ==> final(l)@.trace.selectors[j] == lv.trace.selectors[j]
                }
            }),
    {
        let chip = FibonacciChip::construct(config);
        let out = chip.assign_row(l, 10)?;
        chip.expose_public(l, &out, 2)?;
        Ok(())
    }
}

} // verus!
