//! The `constant · a² · b² = c` circuit: private inputs `a` and `b`, a
//! fixed constant, one multiplication gate, and the product exposed as the
//! public input at instance row 0.

use vstd::prelude::*;
use crate::error::Error;
use crate::field::Fp;
use crate::field::FpValue;
use crate::layout::AssignedCell;
use crate::layout::Layouter;
use crate::layout::LayouterV;
use crate::system::Cell;
use crate::system::Column;
use crate::system::ColumnKind;
use crate::system::ConstraintSystem;
use crate::system::Expression;
use crate::system::GateV;
use crate::system::Rotation;
use crate::system::Selector;
use crate::trace::TraceV;

verus! {

/// Is this polynomial `lhs@cur · rhs@cur - out@next` over the two advice
/// columns?
pub open spec fn is_mul_poly(e: Expression, a0: Column, a1: Column) -> bool {
    &&& e matches Expression::Sum(lr, no)
    &&& *lr matches Expression::Product(ql, qr)
    &&& *ql == Expression::Query(a0, Rotation { offset: 0i64 })
    &&& *qr == Expression::Query(a1, Rotation { offset: 0i64 })
    &&& *no matches Expression::Negated(qo)
    &&& *qo == Expression::Query(a0, Rotation { offset: 1i64 })
}

/// Is this gate the multiplication gate?
pub open spec fn is_mul_gate(g: GateV, a0: Column, a1: Column, s_mul: Selector) -> bool {
    &&& g.selector == s_mul
    &&& g.polys.len() == 1
    &&& is_mul_poly(g.polys[0], a0, a1)
}

/// The two advice columns, the instance column and the multiplication
/// selector.
#[derive(Clone, Copy, Debug)]
pub struct SimpleConfig {
    pub advice: [Column; 2],
    pub instance: Column,
    pub s_mul: Selector,
}

impl SimpleConfig {
    pub open spec fn wf(self, lv: LayouterV) -> bool {
        &&& forall|i: int|
            0 <= i < 2 ==> (#[trigger] self.advice[i]).kind == ColumnKind::Advice
                && self.advice[i].index < lv.trace.advice.len() && lv.eq_enabled(self.advice[i])
        &&& self.advice[0].index != self.advice[1].index
        &&& self.instance.kind == ColumnKind::Instance
        &&& self.instance.index < lv.instance.len()
        &&& lv.eq_enabled(self.instance)
        &&& self.s_mul.index < lv.trace.selectors.len()
        &&& lv.constants.len() > 0
    }
}

/// The chip implementing the four instructions the circuit needs: loading
/// a private value, loading a constant, multiplying, and exposing a result.
#[derive(Clone, Copy, Debug)]
pub struct SimpleChip {
    pub config: SimpleConfig,
}

impl SimpleChip {
    /// Wraps a finished configuration.
    pub fn construct(config: SimpleConfig) -> (r: SimpleChip)
        ensures
            r.config == config,
    {
        SimpleChip { config }
    }

    /// A copy of the chip's configuration.
    pub fn config(&self) -> (r: SimpleConfig)
        ensures
            r == self.config,
    {
        self.config
    }

    /// Registers the multiplication gate, the equality capabilities, and
    /// the constants column.
    pub fn configure(
        cs: &mut ConstraintSystem,
        advice: [Column; 2],
        instance: Column,
        constant: Column,
    ) -> (r: SimpleConfig)
        requires
            old(cs)@.wf(),
            forall|i: int|
                0 <= i < 2 ==> (#[trigger] advice[i]).kind == ColumnKind::Advice && old(
                    cs,
                )@.col_valid(advice[i]),
            instance.kind == ColumnKind::Instance,
            old(cs)@.col_valid(instance),
            constant.kind == ColumnKind::Fixed,
            old(cs)@.col_valid(constant),
            old(cs)@.num_selectors < usize::MAX,
            old(cs)@.gates.len() < usize::MAX,
            old(cs)@.constants.len() < usize::MAX,
        ensures
            final(cs)@.wf(),
            r.advice == advice,
            r.instance == instance,
            r.s_mul == (Selector { index: old(cs).num_selectors }),
            final(cs)@.eq_advice == old(cs)@.eq_advice.update(advice[0].index as int, true).update(
                advice[1].index as int,
                true,
            ),
            final(cs)@.eq_fixed == old(cs)@.eq_fixed.update(constant.index as int, true),
            final(cs)@.eq_instance == old(cs)@.eq_instance.update(instance.index as int, true),
            final(cs)@.num_selectors == old(cs)@.num_selectors + 1,
            final(cs)@.constants == old(cs)@.constants.push(constant),
            final(cs)@.gates.len() == old(cs)@.gates.len() + 1,
            final(cs)@.gates == old(cs)@.gates.push(final(cs)@.gates.last()),
            is_mul_gate(final(cs)@.gates.last(), advice[0], advice[1], r.s_mul),
    {
        cs.enable_equality(instance);
        cs.enable_equality(advice[0]);
        cs.enable_equality(advice[1]);
        cs.enable_constant(constant);
        let s_mul = cs.selector();
        let ql = Expression::Query(advice[0], Rotation::cur());
        let qr = Expression::Query(advice[1], Rotation::cur());
        let qo = Expression::Query(advice[0], Rotation::next());
        let poly = Expression::difference(Expression::product(ql, qr), qo);
        let ghost gpoly = poly;
        let mut polys: Vec<Expression> = Vec::new();
        polys.push(poly);
        proof {
            reveal_with_fuel(Expression::wf, 6);
            assert(polys@[0] == gpoly);
            assert(is_mul_poly(gpoly, advice[0], advice[1]));
            assert(gpoly.wf());
        }
        cs.create_gate("mul", s_mul, polys);
        SimpleConfig { advice, instance, s_mul }
    }

    /// Loads a private witness value into a fresh one-row region.
    pub fn load_private(&self, l: &mut Layouter, a: FpValue) -> (r: Result<AssignedCell, Error>)
        requires
            old(l)@.wf(),
            !old(l)@.in_region,
            self.config.wf(old(l)@),
            a.wf(),
        ensures
            final(l)@.wf(),
            !final(l)@.in_region,
            ({
                let lv = old(l)@;
                let base = lv.next_row as int;
                if base < lv.k {
                    &&& r == Ok::<AssignedCell, Error>(
                        AssignedCell {
                            cell: Cell { column: self.config.advice[0], row: base as usize },
                            value: a,
                        },
                    )
                    &&& final(l)@ == (LayouterV {
                        trace: TraceV {
                            advice: lv.trace.advice.update(
                                self.config.advice[0].index as int,
                                lv.trace.advice[self.config.advice[0].index as int].update(
                                    base,
                                    a,
                                ),
                            ),
                            ..lv.trace
                        },
                        next_row: (base + 1) as nat,
                        region_base: final(l)@.region_base,
                        region_rows: final(l)@.region_rows,
                        ..lv
                    })
                } else {
                    &&& r == Err::<AssignedCell, Error>(
                        Error::RowOutOfRange { row: old(l).next_row, max: old(l).k },
                    )
                    &&& final(l)@ == lv
                }
            }),
    {
        if l.next_row >= l.k {
            return Err(Error::RowOutOfRange { row: l.next_row, max: l.k });
        }
        l.begin_region();
        let c = l.assign_advice(self.config.advice[0], 0, a)?;
        l.end_region();
        Ok(c)
    }

    /// Loads a constant: the value is written into the next free row of
    /// the constants column and copied into a fresh advice cell, with a
    /// copy constraint binding the two.
    pub fn load_constant(&self, l: &mut Layouter, constant: Fp) -> (r: Result<AssignedCell, Error>)
        requires
            old(l)@.wf(),
            !old(l)@.in_region,
            self.config.wf(old(l)@),
            constant.wf(),
        ensures
            final(l)@.wf(),
            !final(l)@.in_region,
            ({
                let lv = old(l)@;
                let base = lv.next_row as int;
                let ccol = lv.constants[0];
                if base >= lv.k {
                    &&& r == Err::<AssignedCell, Error>(
                        Error::RowOutOfRange { row: old(l).next_row, max: old(l).k },
                    )
                    &&& final(l)@ == lv
                } else if lv.next_constant >= lv.k {
                    &&& r == Err::<AssignedCell, Error>(
                        Error::RowOutOfRange { row: old(l).next_constant, max: old(l).k },
                    )
                    &&& final(l)@ == lv
                } else {
                    &&& r == Ok::<AssignedCell, Error>(
                        AssignedCell {
                            cell: Cell { column: self.config.advice[0], row: base as usize },
                            value: FpValue::Known(constant),
                        },
                    )
                    &&& final(l)@ == (LayouterV {
                        trace: TraceV {
                            advice: lv.trace.advice.update(
                                self.config.advice[0].index as int,
                                lv.trace.advice[self.config.advice[0].index as int].update(
                                    base,
                                    FpValue::Known(constant),
                                ),
                            ),
                            fixed: lv.trace.fixed.update(
                                ccol.index as int,
                                lv.trace.fixed[ccol.index as int].update(
                                    lv.next_constant as int,
                                    FpValue::Known(constant),
                                ),
                            ),
                            copies: lv.trace.copies.push(
                                (
                                    Cell { column: ccol, row: old(l).next_constant },
                                    Cell { column: self.config.advice[0], row: base as usize },
                                ),
                            ),
                            ..lv.trace
                        },
                        next_row: (base + 1) as nat,
                        next_constant: lv.next_constant + 1,
                        region_base: final(l)@.region_base,
                        region_rows: final(l)@.region_rows,
                        ..lv
                    })
                }
            }),
    {
        if l.next_row >= l.k {
            return Err(Error::RowOutOfRange { row: l.next_row, max: l.k });
        }
        if l.next_constant >= l.k {
            return Err(Error::RowOutOfRange { row: l.next_constant, max: l.k });
        }
        l.begin_region();
        let c = l.assign_advice_from_constant(constant, self.config.advice[0], 0)?;
        l.end_region();
        Ok(c)
    }

    /// Multiplies two previously assigned values in a fresh two-row
    /// region: both inputs are copied into the region, the product is
    /// written below them, and the multiplication gate is enabled on the
    /// region's first row.
    #[verifier::loop_isolation(false)]
    #[verifier::rlimit(100)]
    pub fn mul(&self, l: &mut Layouter, a: AssignedCell, b: AssignedCell) -> (r: Result<
        AssignedCell,
        Error,
    >)
        requires
            old(l)@.wf(),
            !old(l)@.in_region,
            self.config.wf(old(l)@),
            old(l)@.cell_in_range(a.cell),
            old(l)@.eq_enabled(a.cell.column),
            old(l)@.cell_in_range(b.cell),
            old(l)@.eq_enabled(b.cell.column),
            a.value.wf(),
            b.value.wf(),
        ensures
            final(l)@.wf(),
            !final(l)@.in_region,
            ({
                let lv = old(l)@;
                let base = lv.next_row as int;
                if base + 2 <= lv.k {
                    r == Ok::<AssignedCell, Error>(
                        AssignedCell {
                            cell: Cell { column: self.config.advice[0], row: (base + 1) as usize },
                            value: a.value.spec_mul(b.value),
                        },
                    )
                } else {
                    r == Err::<AssignedCell, Error>(
                        Error::RowOutOfRange { row: old(l).k, max: old(l).k },
                    ) && final(l)@ == lv
                }
            }),
            ({
                let lv = old(l)@;
                let base = lv.next_row as int;
                base + 2 <= lv.k ==> final(l)@ == (LayouterV {
                    trace: final(l)@.trace,
                    next_row: (base + 2) as nat,
                    region_base: final(l)@.region_base,
                    region_rows: final(l)@.region_rows,
                    ..lv
                })
            }),
            ({
                let lv = old(l)@;
                let base = lv.next_row as int;
                base + 2 <= lv.k ==> final(l)@.trace == (TraceV {
                    advice: final(l)@.trace.advice,
                    selectors: final(l)@.trace.selectors,
                    copies: lv.trace.copies.push(
                        (a.cell, Cell { column: self.config.advice[0], row: base as usize }),
                    ).push((b.cell, Cell { column: self.config.advice[1], row: base as usize })),
                    ..lv.trace
                })
            }),
            ({
                let lv = old(l)@;
                let base = lv.next_row as int;
                let c0 = self.config.advice[0].index as int;
                let c1 = self.config.advice[1].index as int;
                base + 2 <= lv.k ==> {
                    &&& final(l)@.trace.advice.len() == lv.trace.advice.len()
                    &&& final(l)@.trace.advice[c0][base] == a.value
                    &&& final(l)@.trace.advice[c1][base] == b.value
                    &&& final(l)@.trace.advice[c0][base + 1] == a.value.spec_mul(b.value)
                    &&& forall|j: int, rr: int|
                        0 <= j < lv.trace.advice.len() && 0 <= rr < lv.k && !(j == c0 && (rr == base
                            || rr == base + 1)) && !(j == c1 && rr == base)
                            ==> final(l)@.trace.advice[j][rr] == lv.trace.advice[j][rr]
                }
            }),
            ({
                let lv = old(l)@;
                let base = lv.next_row as int;
                let sel = self.config.s_mul.index as int;
                base + 2 <= lv.k ==> {
                    &&& final(l)@.trace.selectors.len() == lv.trace.selectors.len()
                    &&& forall|rr: int|
                        0 <= rr < lv.k ==> (#[trigger] final(l)@.trace.selectors[sel][rr] <==> (
                        lv.trace.selectors[sel][rr] || rr == base))
                    &&& forall|j: int|
                        0 <= j < lv.trace.selectors.len() && j != sel
                            ==> final(l)@.trace.selectors[j] == lv.trace.selectors[j]
                }
            }),
    {
        if 2 > l.k - l.next_row {
            return Err(Error::RowOutOfRange { row: l.k, max: l.k });
        }
        l.begin_region();
        let lhs = a.copy_advice(l, self.config.advice[0], 0)?;
        let rhs = b.copy_advice(l, self.config.advice[1], 0)?;
        let out = l.assign_advice(self.config.advice[0], 1, lhs.value.mul(rhs.value))?;
        let rs = self.config.s_mul.enable(l, 0);
        proof {
            assert(rs is Ok);
        }
        l.end_region();
        Ok(out)
    }

    /// Registers a copy constraint between an assigned cell and an
    /// instance row, exposing a computed value as a public output.
    pub fn expose_public(&self, l: &mut Layouter, c: AssignedCell, row: usize) -> (r: Result<
        (),
        Error,
    >)
        requires
            old(l)@.wf(),
            self.config.wf(old(l)@),
            old(l)@.cell_in_range(c.cell),
            old(l)@.eq_enabled(c.cell.column),
        ensures
            final(l)@.wf(),
            r == Ok::<(), Error>(()),
            final(l)@ == (LayouterV {
                trace: TraceV {
                    copies: old(l)@.trace.copies.push(
                        (c.cell, Cell { column: self.config.instance, row: row }),
                    ),
                    ..old(l)@.trace
                },
                ..old(l)@
            }),
    {
        let r = l.constrain_instance(c.cell, self.config.instance, row);
        proof {
            assert(r is Ok);
        }
        r
    }
}

/// The `constant · a² · b² = c` circuit, with `a` and `b` private.
#[derive(Clone, Copy, Debug)]
pub struct SimpleCircuit {
    pub constant: Fp,
    pub a: FpValue,
    pub b: FpValue,
}

impl SimpleCircuit {
    /// The witness-free copy of the circuit: the private inputs are left
    /// unknown, and the constant falls back to zero, as a shape-only run
    /// needs no values.
    pub fn without_witnesses(&self) -> (r: SimpleCircuit)
        ensures
            r == (SimpleCircuit {
                constant: Fp { v: 0u64 },
                a: FpValue::Unknown,
                b: FpValue::Unknown,
            }),
    {
        SimpleCircuit { constant: Fp::zero(), a: FpValue::Unknown, b: FpValue::Unknown }
    }

    /// Builds the circuit shape: two advice columns, one instance column,
    /// one fixed constants column, and the multiplication gate.
    pub fn configure(cs: &mut ConstraintSystem) -> (r: SimpleConfig)
        requires
            old(cs)@.wf(),
            old(cs)@.num_advice() + 2 < usize::MAX,
            old(cs)@.num_instance() < usize::MAX,
            old(cs)@.num_fixed() < usize::MAX,
            old(cs)@.num_selectors < usize::MAX,
            old(cs)@.gates.len() < usize::MAX,
            old(cs)@.constants.len() < usize::MAX,
        ensures
            final(cs)@.wf(),
            r.advice[0] == (Column { kind: ColumnKind::Advice, index: old(cs).eq_advice.len() }),
            r.advice[1] == (Column {
                kind: ColumnKind::Advice,
                index: (old(cs)@.num_advice() + 1) as usize,
            }),
            r.instance == (Column { kind: ColumnKind::Instance, index: old(cs).eq_instance.len() }),
            r.s_mul == (Selector { index: old(cs).num_selectors }),
            final(cs)@.eq_advice == old(cs)@.eq_advice.push(false).push(false).update(
                old(cs)@.num_advice() as int,
                true,
            ).update(old(cs)@.num_advice() as int + 1, true),
            final(cs)@.eq_fixed == old(cs)@.eq_fixed.push(false).update(
                old(cs)@.num_fixed() as int,
                true,
            ),
            final(cs)@.eq_instance == old(cs)@.eq_instance.push(false).update(
                old(cs)@.num_instance() as int,
                true,
            ),
            final(cs)@.num_selectors == old(cs)@.num_selectors + 1,
            final(cs)@.constants == old(cs)@.constants.push(
                Column { kind: ColumnKind::Fixed, index: old(cs).eq_fixed.len() },
            ),
            final(cs)@.gates.len() == old(cs)@.gates.len() + 1,
            final(cs)@.gates == old(cs)@.gates.push(final(cs)@.gates.last()),
            is_mul_gate(final(cs)@.gates.last(), r.advice[0], r.advice[1], r.s_mul),
    {
        let a0 = cs.advice_column();
        let a1 = cs.advice_column();
        let advice = [a0, a1];
        let instance = cs.instance_column();
        let constant = cs.fixed_column();
        SimpleChip::configure(cs, advice, instance, constant)
    }

    /// Loads `a`, `b` and the constant, multiplies out
    /// `constant · a² · b²`, and exposes the result at instance row 0.
    #[verifier::loop_isolation(false)]
    #[verifier::rlimit(100)]
    pub fn synthesize(&self, config: SimpleConfig, l: &mut Layouter) -> (r: Result<(), Error>)
        requires
            old(l)@.wf(),
            !old(l)@.in_region,
            config.wf(old(l)@),
            self.constant.wf(),
            self.a.wf(),
            self.b.wf(),
        ensures
            final(l)@.wf(),
            !final(l)@.in_region,
            ({
                let lv = old(l)@;
                let base = lv.next_row as int;
                if base + 11 <= lv.k && lv.next_constant < lv.k {
                    &&& r == Ok::<(), Error>(())
                    &&& final(l)@.next_row == base + 11
                    &&& final(l)@.next_constant == lv.next_constant + 1
                } else {
                    r matches Err(e) && e matches Error::RowOutOfRange { .. }
                }
            }),
            ({
                let lv = old(l)@;
                let base = lv.next_row as int;
                base + 11 <= lv.k && lv.next_constant < lv.k ==> final(l)@ == (LayouterV {
                    trace: final(l)@.trace,
                    next_row: (base + 11) as nat,
                    next_constant: lv.next_constant + 1,
                    region_base: final(l)@.region_base,
                    region_rows: final(l)@.region_rows,
                    ..lv
                })
            }),
            ({
                let lv = old(l)@;
                let base = lv.next_row as int;
                let a0 = config.advice[0];
                let a1 = config.advice[1];
                let ccol = lv.constants[0];
                base + 11 <= lv.k && lv.next_constant < lv.k ==> final(l)@.trace.copies
                    == lv.trace.copies + seq![
                    (
                        Cell { column: ccol, row: old(l).next_constant },
                        Cell { column: a0, row: (base + 2) as usize },
                    ),
                    (
                        Cell { column: a0, row: base as usize },
                        Cell { column: a0, row: (base + 3) as usize },
                    ),
                    (
                        Cell { column: a0, row: base as usize },
                        Cell { column: a1, row: (base + 3) as usize },
                    ),
                    (
                        Cell { column: a0, row: (base + 1) as usize },
                        Cell { column: a0, row: (base + 5) as usize },
                    ),
                    (
                        Cell { column: a0, row: (base + 1) as usize },
                        Cell { column: a1, row: (base + 5) as usize },
                    ),
                    (
                        Cell { column: a0, row: (base + 4) as usize },
                        Cell { column: a0, row: (base + 7) as usize },
                    ),
                    (
                        Cell { column: a0, row: (base + 6) as usize },
                        Cell { column: a1, row: (base + 7) as usize },
                    ),
                    (
                        Cell { column: a0, row: (base + 2) as usize },
                        Cell { column: a0, row: (base + 9) as usize },
                    ),
                    (
                        Cell { column: a0, row: (base + 8) as usize },
                        Cell { column: a1, row: (base + 9) as usize },
                    ),
                    (
                        Cell { column: a0, row: (base + 10) as usize },
                        Cell { column: config.instance, row: 0 },
                    ),
                ]
            }),
            ({
                let lv = old(l)@;
                let base = lv.next_row as int;
                let c0 = config.advice[0].index as int;
                let c1 = config.advice[1].index as int;
                let va = self.a;
                let vb = self.b;
                let kz = FpValue::Known(self.constant);
                let sq_a = va.spec_mul(va);
                let sq_b = vb.spec_mul(vb);
                let prod = sq_a.spec_mul(sq_b);
                base + 11 <= lv.k && lv.next_constant < lv.k ==> {
                    &&& final(l)@.trace.advice.len() == lv.trace.advice.len()
                    &&& final(l)@.trace.advice[c0][base] == va
                    &&& final(l)@.trace.advice[c0][base + 1] == vb
                    &&& final(l)@.trace.advice[c0][base + 2] == kz
                    &&& final(l)@.trace.advice[c0][base + 3] == va
                    &&& final(l)@.trace.advice[c1][base + 3] == va
                    &&& final(l)@.trace.advice[c0][base + 4] == sq_a
                    &&& final(l)@.trace.advice[c0][base + 5] == vb
                    &&& final(l)@.trace.advice[c1][base + 5] == vb
                }
            }),
            ({
                let lv = old(l)@;
                let base = lv.next_row as int;
                let c0 = config.advice[0].index as int;
                let c1 = config.advice[1].index as int;
                let va = self.a;
                let vb = self.b;
                let kz = FpValue::Known(self.constant);
                let sq_a = va.spec_mul(va);
                let sq_b = vb.spec_mul(vb);
                let prod = sq_a.spec_mul(sq_b);
                base + 11 <= lv.k && lv.next_constant < lv.k ==> {
                    &&& final(l)@.trace.advice[c0][base + 6] == sq_b
                    &&& final(l)@.trace.advice[c0][base + 7] == sq_a
                    &&& final(l)@.trace.advice[c1][base + 7] == sq_b
                    &&& final(l)@.trace.advice[c0][base + 8] == prod
                    &&& final(l)@.trace.advice[c0][base + 9] == kz
                    &&& final(l)@.trace.advice[c1][base + 9] == prod
                    &&& final(l)@.trace.advice[c0][base + 10] == kz.spec_mul(prod)
                }
            }),
            ({
                let lv = old(l)@;
                let base = lv.next_row as int;
                let c0 = config.advice[0].index as int;
                let c1 = config.advice[1].index as int;
                base + 11 <= lv.k && lv.next_constant < lv.k ==> forall|j: int, rr: int|
                    0 <= j < lv.trace.advice.len() && 0 <= rr < lv.k && !(j == c0 && base <= rr
                        < base + 11) && !(j == c1 && (rr == base + 3 || rr == base + 5 || rr == base
                        + 7 || rr == base + 9)) ==> final(l)@.trace.advice[j][rr]
                        == lv.trace.advice[j][rr]
            }),
            ({
                let lv = old(l)@;
                let base = lv.next_row as int;
                let ccol = lv.constants[0];
                base + 11 <= lv.k && lv.next_constant < lv.k ==> {
                    &&& final(l)@.trace.k == lv.trace.k
                    &&& final(l)@.trace.fixed == lv.trace.fixed.update(
                        ccol.index as int,
                        lv.trace.fixed[ccol.index as int].update(
                            lv.next_constant as int,
                            FpValue::Known(self.constant),
                        ),
                    )
                }
            }),
            ({
                let lv = old(l)@;
                let base = lv.next_row as int;
                let sel = config.s_mul.index as int;
                base + 11 <= lv.k && lv.next_constant < lv.k ==> {
                    &&& final(l)@.trace.selectors.len() == lv.trace.selectors.len()
                    &&& forall|rr: int|
                        0 <= rr < lv.k ==> (#[trigger] final(l)@.trace.selectors[sel][rr] <==> (
                        lv.trace.selectors[sel][rr] || rr == base + 3 || rr == base + 5 || rr == base
                            + 7 || rr == base + 9))
                    &&& forall|j: int|
                        0 <= j < lv.trace.selectors.len() && j != sel
                            ==> final(l)@.trace.selectors[j] == lv.trace.selectors[j]
                }
            }),
    {
        let ghost lv = l@;
        let chip = SimpleChip::construct(config);
        let a = chip.load_private(l, self.a)?;
        proof {
            if lv.next_row + 11 <= lv.k && lv.next_constant < lv.k {
                let base = lv.next_row as int;
                let c0 = config.advice[0].index as int;
                let c1 = config.advice[1].index as int;
                let sel = config.s_mul.index as int;
                assert(l@.trace.advice[c0][base] == self.a);
                assert(forall|j: int, rr: int|
                    0 <= j < lv.trace.advice.len() && 0 <= rr < lv.k && !((j == c0 && rr == base))
                    ==> l@.trace.advice[j][rr] == lv.trace.advice[j][rr]);
                assert(l@.trace.selectors == lv.trace.selectors);
                assert(l@.trace.fixed == lv.trace.fixed);
            }
        }
        let b = chip.load_private(l, self.b)?;
        proof {
            if lv.next_row + 11 <= lv.k && lv.next_constant < lv.k {
                let base = lv.next_row as int;
                let c0 = config.advice[0].index as int;
                let c1 = config.advice[1].index as int;
                let sel = config.s_mul.index as int;
                assert(l@.trace.advice[c0][base] == self.a);
                assert(l@.trace.advice[c0][base + 1] == self.b);
                assert(forall|j: int, rr: int|
                    0 <= j < lv.trace.advice.len() && 0 <= rr < lv.k && !((j == c0 && (rr == base || rr == base + 1)))
                    ==> l@.trace.advice[j][rr] == lv.trace.advice[j][rr]);
                assert(l@.trace.selectors == lv.trace.selectors);
                assert(l@.trace.fixed == lv.trace.fixed);
            }
        }
        let constant = chip.load_constant(l, self.constant)?;
        proof {
            if lv.next_row + 11 <= lv.k && lv.next_constant < lv.k {
                let base = lv.next_row as int;
                let c0 = config.advice[0].index as int;
                let c1 = config.advice[1].index as int;
                let sel = config.s_mul.index as int;
                assert(l@.trace.advice[c0][base] == self.a);
                assert(l@.trace.advice[c0][base + 1] == self.b);
                assert(l@.trace.advice[c0][base + 2] == FpValue::Known(self.constant));
                assert(forall|j: int, rr: int|
                    0 <= j < lv.trace.advice.len() && 0 <= rr < lv.k && !((j == c0 && base <= rr < base + 3))
                    ==> l@.trace.advice[j][rr] == lv.trace.advice[j][rr]);
                assert(l@.trace.selectors == lv.trace.selectors);
                assert(l@.trace.fixed == lv.trace.fixed.update(
                    lv.constants[0].index as int,
                    lv.trace.fixed[lv.constants[0].index as int].update(
                        lv.next_constant as int,
                        FpValue::Known(self.constant),
                    ),
                ));
            }
        }
        let a2 = chip.mul(l, a, a)?;
        proof {
            if lv.next_row + 11 <= lv.k && lv.next_constant < lv.k {
                let base = lv.next_row as int;
                let c0 = config.advice[0].index as int;
                let c1 = config.advice[1].index as int;
                let sel = config.s_mul.index as int;
                assert(l@.trace.advice[c0][base] == self.a);
                assert(l@.trace.advice[c0][base + 1] == self.b);
                assert(l@.trace.advice[c0][base + 2] == FpValue::Known(self.constant));
                assert(l@.trace.advice[c0][base + 3] == self.a);
                assert(l@.trace.advice[c1][base + 3] == self.a);
                assert(l@.trace.advice[c0][base + 4] == self.a.spec_mul(self.a));
                assert(forall|j: int, rr: int|
                    0 <= j < lv.trace.advice.len() && 0 <= rr < lv.k && !((j == c0 && base <= rr < base + 5) || (j == c1 && rr == base + 3))
                    ==> l@.trace.advice[j][rr] == lv.trace.advice[j][rr]);
                assert(forall|rr: int|
                    0 <= rr < lv.k ==> (#[trigger] l@.trace.selectors[sel][rr] <==> (
                    lv.trace.selectors[sel][rr] || rr == base + 3)));
                assert(forall|j: int|
                    0 <= j < lv.trace.selectors.len() && j != sel
                        ==> l@.trace.selectors[j] == lv.trace.selectors[j]);
                assert(l@.trace.fixed == lv.trace.fixed.update(
                    lv.constants[0].index as int,
                    lv.trace.fixed[lv.constants[0].index as int].update(
                        lv.next_constant as int,
                        FpValue::Known(self.constant),
                    ),
                ));
            }
        }
        let b2 = chip.mul(l, b, b)?;
        proof {
            if lv.next_row + 11 <= lv.k && lv.next_constant < lv.k {
                let base = lv.next_row as int;
                let c0 = config.advice[0].index as int;
                let c1 = config.advice[1].index as int;
                let sel = config.s_mul.index as int;
                assert(l@.trace.advice[c0][base] == self.a);
                assert(l@.trace.advice[c0][base + 1] == self.b);
                assert(l@.trace.advice[c0][base + 2] == FpValue::Known(self.constant));
                assert(l@.trace.advice[c0][base + 3] == self.a);
                assert(l@.trace.advice[c1][base + 3] == self.a);
                assert(l@.trace.advice[c0][base + 4] == self.a.spec_mul(self.a));
                assert(l@.trace.advice[c0][base + 5] == self.b);
                assert(l@.trace.advice[c1][base + 5] == self.b);
                assert(l@.trace.advice[c0][base + 6] == self.b.spec_mul(self.b));
                assert(forall|j: int, rr: int|
                    0 <= j < lv.trace.advice.len() && 0 <= rr < lv.k && !((j == c0 && base <= rr < base + 7) || (j == c1 && (rr == base + 3 || rr == base + 5)))
                    ==> l@.trace.advice[j][rr] == lv.trace.advice[j][rr]);
                assert(forall|rr: int|
                    0 <= rr < lv.k ==> (#[trigger] l@.trace.selectors[sel][rr] <==> (
                    lv.trace.selectors[sel][rr] || rr == base + 3 || rr == base + 5)));
                assert(forall|j: int|
                    0 <= j < lv.trace.selectors.len() && j != sel
                        ==> l@.trace.selectors[j] == lv.trace.selectors[j]);
                assert(l@.trace.fixed == lv.trace.fixed.update(
                    lv.constants[0].index as int,
                    lv.trace.fixed[lv.constants[0].index as int].update(
                        lv.next_constant as int,
                        FpValue::Known(self.constant),
                    ),
                ));
            }
        }
        let a2b2 = chip.mul(l, a2, b2)?;
        proof {
            if lv.next_row + 11 <= lv.k && lv.next_constant < lv.k {
                let base = lv.next_row as int;
                let c0 = config.advice[0].index as int;
                let c1 = config.advice[1].index as int;
                let sel = config.s_mul.index as int;
                assert(l@.trace.advice[c0][base] == self.a);
                assert(l@.trace.advice[c0][base + 1] == self.b);
                assert(l@.trace.advice[c0][base + 2] == FpValue::Known(self.constant));
                assert(l@.trace.advice[c0][base + 3] == self.a);
                assert(l@.trace.advice[c1][base + 3] == self.a);
                assert(l@.trace.advice[c0][base + 4] == self.a.spec_mul(self.a));
                assert(l@.trace.advice[c0][base + 5] == self.b);
                assert(l@.trace.advice[c1][base + 5] == self.b);
                assert(l@.trace.advice[c0][base + 6] == self.b.spec_mul(self.b));
                assert(l@.trace.advice[c0][base + 7] == self.a.spec_mul(self.a));
                assert(l@.trace.advice[c1][base + 7] == self.b.spec_mul(self.b));
                assert(l@.trace.advice[c0][base + 8] == self.a.spec_mul(self.a).spec_mul(self.b.spec_mul(self.b)));
                assert(forall|j: int, rr: int|
                    0 <= j < lv.trace.advice.len() && 0 <= rr < lv.k && !((j == c0 && base <= rr < base + 9) || (j == c1 && (rr == base + 3 || rr == base + 5 || rr == base + 7)))
                    ==> l@.trace.advice[j][rr] == lv.trace.advice[j][rr]);
                assert(forall|rr: int|
                    0 <= rr < lv.k ==> (#[trigger] l@.trace.selectors[sel][rr] <==> (
                    lv.trace.selectors[sel][rr] || rr == base + 3 || rr == base + 5 || rr == base + 7)));
                assert(forall|j: int|
                    0 <= j < lv.trace.selectors.len() && j != sel
                        ==> l@.trace.selectors[j] == lv.trace.selectors[j]);
                assert(l@.trace.fixed == lv.trace.fixed.update(
                    lv.constants[0].index as int,
                    lv.trace.fixed[lv.constants[0].index as int].update(
                        lv.next_constant as int,
                        FpValue::Known(self.constant),
                    ),
                ));
            }
        }
        let c = chip.mul(l, constant, a2b2)?;
        proof {
            if lv.next_row + 11 <= lv.k && lv.next_constant < lv.k {
                let base = lv.next_row as int;
                let c0 = config.advice[0].index as int;
                let c1 = config.advice[1].index as int;
                let sel = config.s_mul.index as int;
                assert(l@.trace.advice[c0][base] == self.a);
                assert(l@.trace.advice[c0][base + 1] == self.b);
                assert(l@.trace.advice[c0][base + 2] == FpValue::Known(self.constant));
                assert(l@.trace.advice[c0][base + 3] == self.a);
                assert(l@.trace.advice[c1][base + 3] == self.a);
                assert(l@.trace.advice[c0][base + 4] == self.a.spec_mul(self.a));
                assert(l@.trace.advice[c0][base + 5] == self.b);
                assert(l@.trace.advice[c1][base + 5] == self.b);
                assert(l@.trace.advice[c0][base + 6] == self.b.spec_mul(self.b));
                assert(l@.trace.advice[c0][base + 7] == self.a.spec_mul(self.a));
                assert(l@.trace.advice[c1][base + 7] == self.b.spec_mul(self.b));
                assert(l@.trace.advice[c0][base + 8] == self.a.spec_mul(self.a).spec_mul(self.b.spec_mul(self.b)));
                assert(l@.trace.advice[c0][base + 9] == FpValue::Known(self.constant));
                assert(l@.trace.advice[c1][base + 9] == self.a.spec_mul(self.a).spec_mul(self.b.spec_mul(self.b)));
                assert(l@.trace.advice[c0][base + 10] == FpValue::Known(self.constant).spec_mul(self.a.spec_mul(self.a).spec_mul(self.b.spec_mul(self.b))));
                assert(forall|j: int, rr: int|
                    0 <= j < lv.trace.advice.len() && 0 <= rr < lv.k && !((j == c0 && base <= rr < base + 11) || (j == c1 && (rr == base + 3 || rr == base + 5 || rr == base + 7 || rr == base + 9)))
                    ==> l@.trace.advice[j][rr] == lv.trace.advice[j][rr]);
                assert(forall|rr: int|
                    0 <= rr < lv.k ==> (#[trigger] l@.trace.selectors[sel][rr] <==> (
                    lv.trace.selectors[sel][rr] || rr == base + 3 || rr == base + 5 || rr == base + 7 || rr == base + 9)));
                assert(forall|j: int|
                    0 <= j < lv.trace.selectors.len() && j != sel
                        ==> l@.trace.selectors[j] == lv.trace.selectors[j]);
                assert(l@.trace.fixed == lv.trace.fixed.update(
                    lv.constants[0].index as int,
                    lv.trace.fixed[lv.constants[0].index as int].update(
                        lv.next_constant as int,
                        FpValue::Known(self.constant),
                    ),
                ));
            }
        }
        chip.expose_public(l, c, 0)?;
        proof {
            if lv.next_row + 11 <= lv.k && lv.next_constant < lv.k {
                let base = lv.next_row as int;
                let c0 = config.advice[0].index as int;
                let c1 = config.advice[1].index as int;
                let sel = config.s_mul.index as int;
                assert(l@.trace.advice[c0][base] == self.a);
                assert(l@.trace.advice[c0][base + 1] == self.b);
                assert(l@.trace.advice[c0][base + 2] == FpValue::Known(self.constant));
                assert(l@.trace.advice[c0][base + 3] == self.a);
                assert(l@.trace.advice[c1][base + 3] == self.a);
                assert(l@.trace.advice[c0][base + 4] == self.a.spec_mul(self.a));
                assert(l@.trace.advice[c0][base + 5] == self.b);
                assert(l@.trace.advice[c1][base + 5] == self.b);
                assert(l@.trace.advice[c0][base + 6] == self.b.spec_mul(self.b));
                assert(l@.trace.advice[c0][base + 7] == self.a.spec_mul(self.a));
                assert(l@.trace.advice[c1][base + 7] == self.b.spec_mul(self.b));
                assert(l@.trace.advice[c0][base + 8] == self.a.spec_mul(self.a).spec_mul(self.b.spec_mul(self.b)));
                assert(l@.trace.advice[c0][base + 9] == FpValue::Known(self.constant));
                assert(l@.trace.advice[c1][base + 9] == self.a.spec_mul(self.a).spec_mul(self.b.spec_mul(self.b)));
                assert(l@.trace.advice[c0][base + 10] == FpValue::Known(self.constant).spec_mul(self.a.spec_mul(self.a).spec_mul(self.b.spec_mul(self.b))));
                assert(forall|j: int, rr: int|
                    0 <= j < lv.trace.advice.len() && 0 <= rr < lv.k && !((j == c0 && base <= rr < base + 11) || (j == c1 && (rr == base + 3 || rr == base + 5 || rr == base + 7 || rr == base + 9)))
                    ==> l@.trace.advice[j][rr] == lv.trace.advice[j][rr]);
                assert(forall|rr: int|
                    0 <= rr < lv.k ==> (#[trigger] l@.trace.selectors[sel][rr] <==> (
                    lv.trace.selectors[sel][rr] || rr == base + 3 || rr == base + 5 || rr == base + 7 || rr == base + 9)));
                assert(forall|j: int|
                    0 <= j < lv.trace.selectors.len() && j != sel
                        ==> l@.trace.selectors[j] == lv.trace.selectors[j]);
                assert(l@.trace.fixed == lv.trace.fixed.update(
                    lv.constants[0].index as int,
                    lv.trace.fixed[lv.constants[0].index as int].update(
                        lv.next_constant as int,
                        FpValue::Known(self.constant),
                    ),
                ));
            }
        }
        proof {
            if lv.next_row + 11 <= lv.k && lv.next_constant < lv.k {
                let base = lv.next_row as int;
                assert(l@.trace.copies =~= lv.trace.copies + seq![
                    (
                        Cell { column: lv.constants[0], row: old(l).next_constant },
                        Cell { column: config.advice[0], row: (base + 2) as usize },
                    ),
                    (
                        Cell { column: config.advice[0], row: base as usize },
                        Cell { column: config.advice[0], row: (base + 3) as usize },
                    ),
                    (
                        Cell { column: config.advice[0], row: base as usize },
                        Cell { column: config.advice[1], row: (base + 3) as usize },
                    ),
                    (
                        Cell { column: config.advice[0], row: (base + 1) as usize },
                        Cell { column: config.advice[0], row: (base + 5) as usize },
                    ),
                    (
                        Cell { column: config.advice[0], row: (base + 1) as usize },
                        Cell { column: config.advice[1], row: (base + 5) as usize },
                    ),
                    (
                        Cell { column: config.advice[0], row: (base + 4) as usize },
                        Cell { column: config.advice[0], row: (base + 7) as usize },
                    ),
                    (
                        Cell { column: config.advice[0], row: (base + 6) as usize },
                        Cell { column: config.advice[1], row: (base + 7) as usize },
                    ),
                    (
                        Cell { column: config.advice[0], row: (base + 2) as usize },
                        Cell { column: config.advice[0], row: (base + 9) as usize },
                    ),
                    (
                        Cell { column: config.advice[0], row: (base + 8) as usize },
                        Cell { column: config.advice[1], row: (base + 9) as usize },
                    ),
                    (
                        Cell { column: config.advice[0], row: (base + 10) as usize },
                        Cell { column: config.instance, row: 0 },
                    ),
                ]);
            }
        }
        Ok(())
    }
}

} // verus!
