//! The copy-forward recurrence: three advice columns hold one step per
//! region, each step re-derives its first two cells by copying the previous
//! step's second and third cells, and one gate `a + b - c` is checked once
//! per region at offset 0.

use vstd::prelude::*;
use crate::error::Error;
use crate::field::FpValue;
use crate::fib_rotation::fib_at;
use crate::layout::AssignedCell;
use crate::layout::Layouter;
use crate::layout::LayouterV;
use crate::system::Cell;
use crate::system::Column;
use crate::system::ColumnKind;
use crate::system::ConstraintSystem;
use crate::system::Expression;
use crate::system::GateV;
use crate::system::Rotation;
use crate::system::Selector;
use crate::trace::TraceV;

verus! {

/// Is this polynomial `a@cur + b@cur - c@cur` over the three step columns?
pub open spec fn is_step_poly(e: Expression, a: Column, b: Column, c: Column) -> bool {
    &&& e matches Expression::Sum(ab, nc)
    &&& *ab matches Expression::Sum(qa, qb)
    &&& *qa == Expression::Query(a, Rotation { offset: 0i64 })
    &&& *qb == Expression::Query(b, Rotation { offset: 0i64 })
    &&& *nc matches Expression::Negated(qc)
    &&& *qc == Expression::Query(c, Rotation { offset: 0i64 })
}

/// Is this gate the per-step sum gate?
pub open spec fn is_step_gate(g: GateV, a: Column, b: Column, c: Column, selector: Selector) -> bool {
    &&& g.selector == selector
    &&& g.polys.len() == 1
    &&& is_step_poly(g.polys[0], a, b, c)
}

/// The three step columns, the instance column and the selector.
#[derive(Clone, Copy, Debug)]
pub struct FibonacciConfig {
    pub advice: [Column; 3],
    pub instance: Column,
    pub selector: Selector,
}

impl FibonacciConfig {
    pub open spec fn wf(self, lv: LayouterV) -> bool {
        &&& forall|i: int|
            0 <= i < 3 ==> (#[trigger] self.advice[i]).kind == ColumnKind::Advice
                && self.advice[i].index < lv.trace.advice.len() && lv.eq_enabled(self.advice[i])
        &&& self.advice[0].index != self.advice[1].index
        &&& self.advice[0].index != self.advice[2].index
        &&& self.advice[1].index != self.advice[2].index
        &&& self.instance.kind == ColumnKind::Instance
        &&& self.instance.index < lv.instance.len()
        &&& lv.eq_enabled(self.instance)
        &&& self.selector.index < lv.trace.selectors.len()
    }
}

/// A handle on one assigned cell of the step table.
#[derive(Clone, Copy, Debug)]
pub struct ACell(pub AssignedCell);

/// The chip running the copy-forward recurrence.
#[derive(Clone, Copy, Debug)]
pub struct FibonacciChip {
    pub config: FibonacciConfig,
}

/// The copy constraints the first `steps` regions of the copy-forward
/// layout register, in order: the two seed bindings, then two copies for
/// every later step.
pub open spec fn step_pairs(cfg: FibonacciConfig, base: int, steps: nat) -> Seq<(Cell, Cell)>
    decreases steps,
{
    if steps == 0 {
        Seq::<(Cell, Cell)>::empty()
    } else if steps == 1 {
        seq![
            (
                Cell { column: cfg.instance, row: 0 },
                Cell { column: cfg.advice[0], row: base as usize },
            ),
            (
                Cell { column: cfg.instance, row: 1 },
                Cell { column: cfg.advice[1], row: base as usize },
            ),
        ]
    } else {
        step_pairs(cfg, base, (steps - 1) as nat) + seq![
            (
                Cell { column: cfg.advice[1], row: (base + steps - 2) as usize },
                Cell { column: cfg.advice[0], row: (base + steps - 1) as usize },
            ),
            (
                Cell { column: cfg.advice[2], row: (base + steps - 2) as usize },
                Cell { column: cfg.advice[1], row: (base + steps - 1) as usize },
            ),
        ]
    }
}

impl FibonacciChip {
    /// Wraps a finished configuration.
    pub fn construct(config: FibonacciConfig) -> (r: FibonacciChip)
        ensures
            r.config == config,
    {
        FibonacciChip { config }
    }

    /// Registers the per-step sum gate and the equality capabilities every
    /// copy-forward step relies on.
    pub fn configure(cs: &mut ConstraintSystem, advice: [Column; 3], instance: Column) -> (r:
        FibonacciConfig)
        requires
            old(cs)@.wf(),
            forall|i: int|
                0 <= i < 3 ==> (#[trigger] advice[i]).kind == ColumnKind::Advice && old(
                    cs,
                )@.col_valid(advice[i]),
            instance.kind == ColumnKind::Instance,
            old(cs)@.col_valid(instance),
            old(cs)@.num_selectors < usize::MAX,
            old(cs)@.gates.len() < usize::MAX,
        ensures
            final(cs)@.wf(),
            r.advice == advice,
            r.instance == instance,
            r.selector == (Selector { index: old(cs).num_selectors }),
            final(cs)@.eq_advice == old(cs)@.eq_advice.update(advice[0].index as int, true).update(
                advice[1].index as int,
                true,
            ).update(advice[2].index as int, true),
            final(cs)@.eq_fixed == old(cs)@.eq_fixed,
            final(cs)@.eq_instance == old(cs)@.eq_instance.update(instance.index as int, true),
            final(cs)@.num_selectors == old(cs)@.num_selectors + 1,
            final(cs)@.constants == old(cs)@.constants,
            final(cs)@.gates.len() == old(cs)@.gates.len() + 1,
            final(cs)@.gates == old(cs)@.gates.push(final(cs)@.gates.last()),
            is_step_gate(final(cs)@.gates.last(), advice[0], advice[1], advice[2], r.selector),
    {
        cs.enable_equality(instance);
        cs.enable_equality(advice[0]);
        cs.enable_equality(advice[1]);
        cs.enable_equality(advice[2]);
        let selector = cs.selector();
        let qa = Expression::Query(advice[0], Rotation::cur());
        let qb = Expression::Query(advice[1], Rotation::cur());
        let qc = Expression::Query(advice[2], Rotation::cur());
        let poly = Expression::difference(Expression::sum(qa, qb), qc);
        let ghost gpoly = poly;
        let mut polys: Vec<Expression> = Vec::new();
        polys.push(poly);
        proof {
            reveal_with_fuel(Expression::wf, 6);
            assert(polys@[0] == gpoly);
            assert(is_step_poly(gpoly, advice[0], advice[1], advice[2]));
            assert(gpoly.wf());
        }
        cs.create_gate("add", selector, polys);
        FibonacciConfig { advice, instance, selector }
    }

    /// Runs the recurrence over `n - 2` one-row regions.  The first region
    /// copies the two seeds in from instance rows 0 and 1 and computes
    /// their sum; every later region copies the previous region's second
    /// and third cells forward and computes the next sum; the sum gate is
    /// enabled at offset 0 of every region.  Returns the handle on the last
    /// sum cell, which holds the `n`-th value of the sequence.
    #[verifier::loop_isolation(false)]
    #[verifier::rlimit(100)]
    pub fn assign_row(&self, l: &mut Layouter, n: usize) -> (r: Result<ACell, Error>)
        requires
            old(l)@.wf(),
            !old(l)@.in_region,
            self.config.wf(old(l)@),
            3 <= n,
            old(l)@.instance[self.config.instance.index as int].len() >= 2,
        ensures
            final(l)@.wf(),
            !final(l)@.in_region,
            ({
                let lv = old(l)@;
                let base = lv.next_row as int;
                if base + (n - 2) <= lv.k {
                    r == Ok::<ACell, Error>(
                        ACell(
                            AssignedCell {
                                cell: Cell {
                                    column: self.config.advice[2],
                                    row: (base + n - 3) as usize,
                                },
                                value: FpValue::Known(
                                    fib_at(
                                        lv.instance[self.config.instance.index as int][0],
                                        lv.instance[self.config.instance.index as int][1],
                                        (n - 1) as nat,
                                    ),
                                ),
                            },
                        ),
                    )
                } else {
                    r == Err::<ACell, Error>(Error::RowOutOfRange { row: old(l).k, max: old(l).k })
                        && final(l)@ == lv
                }
            }),
            ({
                let lv = old(l)@;
                let base = lv.next_row as int;
                base + (n - 2) <= lv.k ==> final(l)@ == (LayouterV {
                    trace: final(l)@.trace,
                    next_row: (base + (n - 2)) as nat,
                    region_base: final(l)@.region_base,
                    region_rows: final(l)@.region_rows,
                    ..lv
                })
            }),
            ({
                let lv = old(l)@;
                let base = lv.next_row as int;
                base + (n - 2) <= lv.k ==> final(l)@.trace == (TraceV {
                    advice: final(l)@.trace.advice,
                    selectors: final(l)@.trace.selectors,
                    copies: lv.trace.copies + step_pairs(self.config, base, (n - 2) as nat),
                    ..lv.trace
                })
            }),
            ({
                let lv = old(l)@;
                let base = lv.next_row as int;
                let s0 = lv.instance[self.config.instance.index as int][0];
                let s1 = lv.instance[self.config.instance.index as int][1];
                base + (n - 2) <= lv.k ==> {
                    &&& final(l)@.trace.advice.len() == lv.trace.advice.len()
                    &&& forall|rr: int|
                        base <= rr < base + (n - 2) ==> #[trigger] final(l)@.trace.advice[
                            self.config.advice[0].index as int
                        ][rr] == FpValue::Known(fib_at(s0, s1, (rr - base) as nat))
                    &&& forall|rr: int|
                        base <= rr < base + (n - 2) ==> #[trigger] final(l)@.trace.advice[
                            self.config.advice[1].index as int
                        ][rr] == FpValue::Known(fib_at(s0, s1, (rr - base + 1) as nat))
                    &&& forall|rr: int|
                        base <= rr < base + (n - 2) ==> #[trigger] final(l)@.trace.advice[
                            self.config.advice[2].index as int
                        ][rr] == FpValue::Known(fib_at(s0, s1, (rr - base + 2) as nat))
                    &&& forall|j: int, rr: int|
                        0 <= j < lv.trace.advice.len() && 0 <= rr < lv.k && !((j
                            == self.config.advice[0].index || j == self.config.advice[1].index || j
                            == self.config.advice[2].index) && base <= rr < base + (n - 2))
                            ==> final(l)@.trace.advice[j][rr] == lv.trace.advice[j][rr]
                }
            }),
            ({
                let lv = old(l)@;
                let base = lv.next_row as int;
                let sel = self.config.selector.index as int;
                base + (n - 2) <= lv.k ==> {
                    &&& final(l)@.trace.selectors.len() == lv.trace.selectors.len()
                    &&& forall|rr: int|
                        0 <= rr < lv.k ==> (#[trigger] final(l)@.trace.selectors[sel][rr] <==> (
                        lv.trace.selectors[sel][rr] || (base <= rr < base + (n - 2))))
                    &&& forall|j: int|
                        0 <= j < lv.trace.selectors.len() && j != sel
                            ==> final(l)@.trace.selectors[j] == lv.trace.selectors[j]
                }
            }),
    {
        let ghost lv = l@;
        let ghost base = l@.next_row as int;
        let ghost sel = self.config.selector.index as int;
        let ghost s0 = l@.instance[self.config.instance.index as int][0];
        let ghost s1 = l@.instance[self.config.instance.index as int][1];
        let steps = n - 2;
        if steps > l.k - l.next_row {
            return Err(Error::RowOutOfRange { row: l.k, max: l.k });
        }
        l.begin_region();
        let a0 = l.assign_advice_from_instance(self.config.instance, 0, self.config.advice[0], 0)?;
        let b0 = l.assign_advice_from_instance(self.config.instance, 1, self.config.advice[1], 0)?;
        let c0 = l.assign_advice(self.config.advice[2], 0, a0.value.add(b0.value))?;
        let r0 = self.config.selector.enable(l, 0);
        proof {
            assert(r0 is Ok);
            assert(fib_at(s0, s1, 0) == s0);
            assert(fib_at(s0, s1, 1) == s1);
            assert(fib_at(s0, s1, 2) == fib_at(s0, s1, 0).spec_add(fib_at(s0, s1, 1)));
            assert(l@.trace.copies =~= lv.trace.copies + step_pairs(self.config, base, 1));
        }
        l.end_region();
        let mut b = b0;
        let mut c = c0;
        let mut t: usize = 1;
        while t < steps
            invariant
                1 <= t <= steps,
                l@.wf(),
                !l@.in_region,
                l@.next_row == base + t,
                b == (AssignedCell {
                    cell: Cell { column: self.config.advice[1], row: (base + t - 1) as usize },
                    value: FpValue::Known(fib_at(s0, s1, t as nat)),
                }),
                c == (AssignedCell {
                    cell: Cell { column: self.config.advice[2], row: (base + t - 1) as usize },
                    value: FpValue::Known(fib_at(s0, s1, (t + 1) as nat)),
                }),
                l@ == (LayouterV {
                    trace: l@.trace,
                    next_row: (base + t) as nat,
                    region_base: l@.region_base,
                    region_rows: l@.region_rows,
                    ..lv
                }),
                l@.trace == (TraceV {
                    advice: l@.trace.advice,
                    selectors: l@.trace.selectors,
                    copies: lv.trace.copies + step_pairs(self.config, base, t as nat),
                    ..lv.trace
                }),
                l@.trace.advice.len() == lv.trace.advice.len(),
                forall|rr: int|
                    base <= rr < base + t ==> #[trigger] l@.trace.advice[
                        self.config.advice[0].index as int
                    ][rr] == FpValue::Known(fib_at(s0, s1, (rr - base) as nat)),
                forall|rr: int|
                    base <= rr < base + t ==> #[trigger] l@.trace.advice[
                        self.config.advice[1].index as int
                    ][rr] == FpValue::Known(fib_at(s0, s1, (rr - base + 1) as nat)),
                forall|rr: int|
                    base <= rr < base + t ==> #[trigger] l@.trace.advice[
                        self.config.advice[2].index as int
                    ][rr] == FpValue::Known(fib_at(s0, s1, (rr - base + 2) as nat)),
                forall|j: int, rr: int|
                    0 <= j < lv.trace.advice.len() && 0 <= rr < lv.k && !((j
                        == self.config.advice[0].index || j == self.config.advice[1].index || j
                        == self.config.advice[2].index) && base <= rr < base + t)
                        ==> l@.trace.advice[j][rr] == lv.trace.advice[j][rr],
                l@.trace.selectors.len() == lv.trace.selectors.len(),
                forall|rr: int|
                    0 <= rr < lv.k ==> (#[trigger] l@.trace.selectors[sel][rr] <==> (
                    lv.trace.selectors[sel][rr] || (base <= rr < base + t))),
                forall|j: int|
                    0 <= j < lv.trace.selectors.len() && j != sel ==> l@.trace.selectors[j]
                        == lv.trace.selectors[j],
            decreases steps - t,
        {
            l.begin_region();
            let a = b.copy_advice(l, self.config.advice[0], 0)?;
            let b2 = c.copy_advice(l, self.config.advice[1], 0)?;
            let c2 = l.assign_advice(self.config.advice[2], 0, a.value.add(b2.value))?;
            let rs = self.config.selector.enable(l, 0);
            proof {
                assert(rs is Ok);
                assert(fib_at(s0, s1, (t + 2) as nat) == fib_at(s0, s1, t as nat).spec_add(
                    fib_at(s0, s1, (t + 1) as nat),
                ));
                assert(l@.trace.copies =~= lv.trace.copies + step_pairs(
                    self.config,
                    base,
                    (t + 1) as nat,
                ));
            }
            l.end_region();
            b = b2;
            c = c2;
            t = t + 1;
        }
        Ok(ACell(c))
    }

    /// Registers a copy constraint between an assigned cell and an instance
    /// row, exposing a computed value as a public output.
    pub fn expose_public(&self, l: &mut Layouter, c: &ACell, row: usize) -> (r: Result<(), Error>)
        requires
            old(l)@.wf(),
            self.config.wf(old(l)@),
            old(l)@.cell_in_range(c.0.cell),
            old(l)@.eq_enabled(c.0.cell.column),
        ensures
            final(l)@.wf(),
            r == Ok::<(), Error>(()),
            final(l)@ == (LayouterV {
                trace: TraceV {
                    copies: old(l)@.trace.copies.push(
                        (c.0.cell, Cell { column: self.config.instance, row: row }),
                    ),
                    ..old(l)@.trace
                },
                ..old(l)@
            }),
    {
        let r = l.constrain_instance(c.0.cell, self.config.instance, row);
        proof {
            assert(r is Ok);
        }
        r
    }
}

/// The copy-forward recurrence circuit: ten logical values over eight
/// one-row regions, seeded from instance rows 0 and 1, with the tenth value
/// exposed at instance row 2.
pub struct FibonacciCircuit;

impl FibonacciCircuit {
    /// The witness-free copy of the circuit; it carries no private input.
    pub fn without_witnesses(&self) -> (r: FibonacciCircuit) {
        FibonacciCircuit
    }

    /// Builds the circuit shape: three advice columns, one instance column,
    /// and the per-step sum gate.
    pub fn configure(cs: &mut ConstraintSystem) -> (r: FibonacciConfig)
        requires
            old(cs)@.wf(),
            old(cs)@.num_advice() + 3 < usize::MAX,
            old(cs)@.num_instance() < usize::MAX,
            old(cs)@.num_selectors < usize::MAX,
            old(cs)@.gates.len() < usize::MAX,
        ensures
            final(cs)@.wf(),
            r.advice[0] == (Column { kind: ColumnKind::Advice, index: old(cs).eq_advice.len() }),
            r.advice[1] == (Column {
                kind: ColumnKind::Advice,
                index: (old(cs)@.num_advice() + 1) as usize,
            }),
            r.advice[2] == (Column {
                kind: ColumnKind::Advice,
                index: (old(cs)@.num_advice() + 2) as usize,
            }),
            r.instance == (Column { kind: ColumnKind::Instance, index: old(cs).eq_instance.len() }),
            r.selector == (Selector { index: old(cs).num_selectors }),
            final(cs)@.eq_advice == old(cs)@.eq_advice.push(false).push(false).push(false).update(
                old(cs)@.num_advice() as int,
                true,
            ).update(old(cs)@.num_advice() as int + 1, true).update(old(cs)@.num_advice() as int + 2, true),
            final(cs)@.eq_fixed == old(cs)@.eq_fixed,
            final(cs)@.eq_instance == old(cs)@.eq_instance.push(false).update(
                old(cs)@.num_instance() as int,
                true,
            ),
            final(cs)@.num_selectors == old(cs)@.num_selectors + 1,
            final(cs)@.constants == old(cs)@.constants,
            final(cs)@.gates.len() == old(cs)@.gates.len() + 1,
            final(cs)@.gates == old(cs)@.gates.push(final(cs)@.gates.last()),
            is_step_gate(
                final(cs)@.gates.last(),
                r.advice[0],
                r.advice[1],
                r.advice[2],
                r.selector,
            ),
    {
        let a0 = cs.advice_column();
        let a1 = cs.advice_column();
        let a2 = cs.advice_column();
        let advice = [a0, a1, a2];
        let instance = cs.instance_column();
        FibonacciChip::configure(cs, advice, instance)
    }

    /// Runs the ten-value recurrence and exposes the last value at instance
    /// row 2.
    pub fn synthesize(&self, config: FibonacciConfig, l: &mut Layouter) -> (r: Result<(), Error>)
        requires
            old(l)@.wf(),
            !old(l)@.in_region,
            config.wf(old(l)@),
            old(l)@.instance[config.instance.index as int].len() >= 2,
        ensures
            final(l)@.wf(),
            !final(l)@.in_region,
            ({
                let lv = old(l)@;
                let base = lv.next_row as int;
                if base + 8 <= lv.k {
                    &&& r == Ok::<(), Error>(())
                    &&& final(l)@.next_row == base + 8
                    &&& final(l)@.trace.copies == lv.trace.copies + step_pairs(config, base, 8).push(
                        (
                            Cell { column: config.advice[2], row: (base + 7) as usize },
                            Cell { column: config.instance, row: 2 },
                        ),
                    )
                } else {
                    &&& r == Err::<(), Error>(Error::RowOutOfRange { row: old(l).k, max: old(l).k })
                    &&& final(l)@ == lv
                }
            }),
            ({
                let lv = old(l)@;
                let base = lv.next_row as int;
                base + 8 <= lv.k ==> final(l)@ == (LayouterV {
                    trace: final(l)@.trace,
                    next_row: (base + 8) as nat,
                    region_base: final(l)@.region_base,
                    region_rows: final(l)@.region_rows,
                    ..lv
                })
            }),
            ({
                let lv = old(l)@;
                let base = lv.next_row as int;
                base + 8 <= lv.k ==> final(l)@.trace == (TraceV {
                    advice: final(l)@.trace.advice,
                    selectors: final(l)@.trace.selectors,
                    copies: final(l)@.trace.copies,
                    ..lv.trace
                })
            }),
            ({
                let lv = old(l)@;
                let base = lv.next_row as int;
                let s0 = lv.instance[config.instance.index as int][0];
                let s1 = lv.instance[config.instance.index as int][1];
                base + 8 <= lv.k ==> {
                    &&& final(l)@.trace.advice.len() == lv.trace.advice.len()
                    &&& forall|rr: int|
                        base <= rr < base + 8 ==> #[trigger] final(l)@.trace.advice[
                            config.advice[0].index as int
                        ][rr] == FpValue::Known(fib_at(s0, s1, (rr - base) as nat))
                    &&& forall|rr: int|
                        base <= rr < base + 8 ==> #[trigger] final(l)@.trace.advice[
                            config.advice[1].index as int
                        ][rr] == FpValue::Known(fib_at(s0, s1, (rr - base + 1) as nat))
                    &&& forall|rr: int|
                        base <= rr < base + 8 ==> #[trigger] final(l)@.trace.advice[
                            config.advice[2].index as int
                        ][rr] == FpValue::Known(fib_at(s0, s1, (rr - base + 2) as nat))
                    &&& forall|j: int, rr: int|
                        0 <= j < lv.trace.advice.len() && 0 <= rr < lv.k && !((j
                            == config.advice[0].index || j == config.advice[1].index || j
                            == config.advice[2].index) && base <= rr < base + 8)
                            ==> final(l)@.trace.advice[j][rr] == lv.trace.advice[j][rr]
                }
            }),
            ({
                let lv = old(l)@;
                let base = lv.next_row as int;
                let sel = config.selector.index as int;
                base + 8 <= lv.k ==> {
                    &&& final(l)@.trace.selectors.len() == lv.trace.selectors.len()
                    &&& forall|rr: int|
                        0 <= rr < lv.k ==> (#[trigger] final(l)@.trace.selectors[sel][rr] <==> (
                        lv.trace.selectors[sel][rr] || (base <= rr < base + 8)))
                    &&& forall|j: int|
                        0 <= j < lv.trace.selectors.len() && j != sel
                            ==> final(l)@.trace.selectors[j] == lv.trace.selectors[j]
                }
            }),
    {
        let chip = FibonacciChip::construct(config);
        let out = chip.assign_row(l, 10)?;
        chip.expose_public(l, &out, 2)?;
        Ok(())
    }
}

} // verus!
