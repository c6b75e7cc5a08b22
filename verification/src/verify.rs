//! The mock verifier: decides whether a finished assignment trace satisfies
//! every registered gate, copy constraint and public-input binding of a
//! constraint system, and aggregates all violations instead of stopping at
//! the first.

use vstd::prelude::*;
use vstd::arithmetic::div_mod::lemma_add_mod_noop;
use vstd::arithmetic::div_mod::lemma_mod_multiples_vanish;
use vstd::arithmetic::div_mod::lemma_small_mod;
use crate::connectivity::connected;
use crate::error::Violation;
use crate::field::Fp;
use crate::field::FpValue;
use crate::system::Cell;
use crate::system::ColumnKind;
use crate::system::ConstraintSystem;
use crate::system::ConstraintSystemV;
use crate::system::Expression;
use crate::system::Rotation;
use crate::trace::Trace;
use crate::trace::TraceV;
use crate::trace::grid_view;

verus! {

/// Caps a mathematical count at the largest representable size.
pub open spec fn sat_usize(n: int) -> usize {
    if n <= usize::MAX {
        n as usize
    } else {
        usize::MAX
    }
}

/// Are all the supplied public-input values reduced field elements?
pub open spec fn pubs_wf(pubs: Seq<Seq<Fp>>) -> bool {
    forall|i: int, r: int|
        0 <= i < pubs.len() && 0 <= r < pubs[i].len() ==> (#[trigger] pubs[i][r]).wf()
}

/// The value a cell resolves to: a known trace value for advice and fixed
/// cells, the supplied public input for instance cells, and nothing when
/// the cell is out of range or still unknown.
pub open spec fn cell_value(t: TraceV, pubs: Seq<Seq<Fp>>, c: Cell) -> Option<Fp> {
    match c.column.kind {
        ColumnKind::Advice => if c.column.index < t.advice.len() && c.row < t.advice[
            c.column.index as int
        ].len() {
            match t.advice[c.column.index as int][c.row as int] {
                FpValue::Known(f) => Some(f),
                FpValue::Unknown => None,
            }
        } else {
            None
        },
        ColumnKind::Fixed => if c.column.index < t.fixed.len() && c.row < t.fixed[
            c.column.index as int
        ].len() {
            match t.fixed[c.column.index as int][c.row as int] {
                FpValue::Known(f) => Some(f),
                FpValue::Unknown => None,
            }
        } else {
            None
        },
        ColumnKind::Instance => if c.column.index < pubs.len() && c.row < pubs[
            c.column.index as int
        ].len() {
            Some(pubs[c.column.index as int][c.row as int])
        } else {
            None
        },
    }
}

/// The absolute row a rotation resolves to, wrapping cyclically around the
/// table.
pub open spec fn wrap_row(k: int, row: int, offset: int) -> int {
    (row + offset) % k
}

/// Evaluates a polynomial against the trace at a row; `None` as soon as any
/// referenced cell has no known value.
pub open spec fn eval(t: TraceV, pubs: Seq<Seq<Fp>>, e: Expression, row: int) -> Option<Fp>
    decreases e,
{
    match e {
        Expression::Constant(f) => Some(f),
        Expression::Query(col, rot) => cell_value(
            t,
            pubs,
            Cell { column: col, row: wrap_row(t.k as int, row, rot.offset as int) as usize },
        ),
        Expression::Sum(a, b) => match (eval(t, pubs, *a, row), eval(t, pubs, *b, row)) {
            (Some(x), Some(y)) => Some(x.spec_add(y)),
            _ => None,
        },
        Expression::Product(a, b) => match (eval(t, pubs, *a, row), eval(t, pubs, *b, row)) {
            (Some(x), Some(y)) => Some(x.spec_mul(y)),
            _ => None,
        },
        Expression::Negated(a) => match eval(t, pubs, *a, row) {
            Some(x) => Some(x.spec_neg()),
            None => None,
        },
    }
}

/// The cells a polynomial references at a row that resolve to no known
/// value, in query order.
pub open spec fn missing_cells(t: TraceV, pubs: Seq<Seq<Fp>>, e: Expression, row: int) -> Seq<Cell>
    decreases e,
{
    match e {
        Expression::Constant(_) => Seq::<Cell>::empty(),
        Expression::Query(col, rot) => {
            let c = Cell { column: col, row: wrap_row(t.k as int, row, rot.offset as int) as usize };
            if cell_value(t, pubs, c) is None {
                seq![c]
            } else {
                Seq::<Cell>::empty()
            }
        },
        Expression::Sum(a, b) => missing_cells(t, pubs, *a, row) + missing_cells(t, pubs, *b, row),
        Expression::Product(a, b) => missing_cells(t, pubs, *a, row) + missing_cells(
            t,
            pubs,
            *b,
            row,
        ),
        Expression::Negated(a) => missing_cells(t, pubs, *a, row),
    }
}

/// A polynomial fails to evaluate exactly when it references a cell with no
/// known value.
pub proof fn lemma_eval_none_iff_missing(t: TraceV, pubs: Seq<Seq<Fp>>, e: Expression, row: int)
    ensures
        eval(t, pubs, e, row) is None <==> missing_cells(t, pubs, e, row).len() > 0,
    decreases e,
{
    match e {
        Expression::Constant(_) => {},
        Expression::Query(_, _) => {},
        Expression::Sum(a, b) => {
            lemma_eval_none_iff_missing(t, pubs, *a, row);
            lemma_eval_none_iff_missing(t, pubs, *b, row);
        },
        Expression::Product(a, b) => {
            lemma_eval_none_iff_missing(t, pubs, *a, row);
            lemma_eval_none_iff_missing(t, pubs, *b, row);
        },
        Expression::Negated(a) => {
            lemma_eval_none_iff_missing(t, pubs, *a, row);
        },
    }
}

/// Is the selector enabled at this row of the trace?
pub open spec fn selector_enabled(t: TraceV, s: crate::system::Selector, row: int) -> bool {
    &&& s.index < t.selectors.len()
    &&& 0 <= row < t.selectors[s.index as int].len()
    &&& t.selectors[s.index as int][row]
}

/// Does one polynomial of one gate hold at one row?  Trivially true when
/// the controlling selector is off.
pub open spec fn gate_ok_at(
    cs: ConstraintSystemV,
    t: TraceV,
    pubs: Seq<Seq<Fp>>,
    g: int,
    p: int,
    r: int,
) -> bool {
    selector_enabled(t, cs.gates[g].selector, r) ==> eval(t, pubs, cs.gates[g].polys[p], r)
        == Some(Fp { v: 0u64 })
}

/// Every gate vanishes on every row where its selector is enabled, and
/// every referenced cell resolves there.
pub open spec fn gates_ok(cs: ConstraintSystemV, t: TraceV, pubs: Seq<Seq<Fp>>) -> bool {
    forall|g: int, p: int, r: int|
        0 <= g < cs.gates.len() && 0 <= p < cs.gates[g].polys.len() && 0 <= r < t.k
            ==> #[trigger] gate_ok_at(cs, t, pubs, g, p, r)
}

/// How many rows of public input a binding to this instance cell demands.
pub open spec fn cell_rows_demand(c: Cell, col: int) -> nat {
    if c.column.kind == ColumnKind::Instance && c.column.index == col {
        (c.row + 1) as nat
    } else {
        0
    }
}

/// The number of public-input rows the copy constraints demand of one
/// instance column: the highest row referenced, plus one.
pub open spec fn instance_rows_bound(ccs: Seq<(Cell, Cell)>, col: int) -> nat
    decreases ccs.len(),
{
    if ccs.len() == 0 {
        0
    } else {
        let rest = instance_rows_bound(ccs.drop_last(), col);
        let a = cell_rows_demand(ccs.last().0, col);
        let b = cell_rows_demand(ccs.last().1, col);
        if a >= rest && a >= b {
            a
        } else if b >= rest {
            b
        } else {
            rest
        }
    }
}

/// Each instance column's public input is exactly as long as the bindings
/// demand.
pub open spec fn pub_lens_ok(t: TraceV, pubs: Seq<Seq<Fp>>) -> bool {
    forall|c: int| 0 <= c < pubs.len() ==> (#[trigger] pubs[c]).len() == instance_rows_bound(
        t.copies,
        c,
    )
}

/// Two resolved cell values agree unless one of them is unknown.
pub open spec fn values_agree(a: Option<Fp>, b: Option<Fp>) -> bool {
    match (a, b) {
        (Some(x), Some(y)) => x == y,
        _ => true,
    }
}

/// Which pass of the verifier reports a violation of this shape?
pub open spec fn is_length_violation(v: Violation) -> bool {
    v matches Violation::PublicInputWrongLength { .. }
}

pub open spec fn is_gate_violation(v: Violation) -> bool {
    v matches Violation::CellNotAssigned { .. } || v matches Violation::ConstraintNotSatisfied {
        ..
    }
}

pub open spec fn is_copy_violation(v: Violation) -> bool {
    v matches Violation::PermutationMismatch { .. } || v matches Violation::PublicInputMismatch {
        ..
    }
}

/// The finding the permutation pass reports for one ordered pair of
/// disagreeing cells: a pair touching an instance cell is reported against
/// the public input, any other against the pair itself.
pub open spec fn mismatch_violation(a: Cell, b: Cell, va: Fp, vb: Fp) -> Violation {
    if a.column.kind == ColumnKind::Instance {
        Violation::PublicInputMismatch { column: a.column.index, row: a.row, expected: va, actual: vb }
    } else if b.column.kind == ColumnKind::Instance {
        Violation::PublicInputMismatch { column: b.column.index, row: b.row, expected: vb, actual: va }
    } else {
        Violation::PermutationMismatch { a: a, b: b, left: va, right: vb }
    }
}

/// The known value of a resolved cell, where it has one.
pub open spec fn cell_known_value(t: TraceV, pubs: Seq<Seq<Fp>>, c: Cell) -> Fp {
    match cell_value(t, pubs, c) {
        Some(v) => v,
        None => Fp { v: 0u64 },
    }
}

/// If this ordered pair of cells disagrees on known values, the list holds
/// the finding the permutation pass assembles for it.
pub open spec fn pair_reported(
    t: TraceV,
    pubs: Seq<Seq<Fp>>,
    vs: Seq<Violation>,
    x: Cell,
    y: Cell,
) -> bool {
    cell_value(t, pubs, x) is Some && cell_value(t, pubs, y) is Some && cell_value(t, pubs, x)
        != cell_value(t, pubs, y) ==> vs.contains(
        mismatch_violation(x, y, cell_known_value(t, pubs, x), cell_known_value(t, pubs, y)),
    )
}

/// An element stays present when the sequence grows by one.
pub proof fn lemma_contains_push<T>(s: Seq<T>, x: T, c: T)
    requires
        s.contains(c),
    ensures
        s.push(x).contains(c),
{
    let j = choose|j: int| 0 <= j < s.len() && s[j] == c;
    assert(s.push(x)[j] == c);
}

/// An element of a prefix is an element of the whole.
pub proof fn lemma_contains_prefix<T>(s1: Seq<T>, s2: Seq<T>, c: T)
    requires
        s1.contains(c),
        s1.is_prefix_of(s2),
    ensures
        s2.contains(c),
{
    let j = choose|j: int| 0 <= j < s1.len() && s1[j] == c;
    assert(s2[j] == c);
}

/// A reported pair stays reported as the list grows.
pub proof fn lemma_pair_reported_prefix(
    t: TraceV,
    pubs: Seq<Seq<Fp>>,
    vs1: Seq<Violation>,
    vs2: Seq<Violation>,
    x: Cell,
    y: Cell,
)
    requires
        pair_reported(t, pubs, vs1, x, y),
        vs1.is_prefix_of(vs2),
    ensures
        pair_reported(t, pubs, vs2, x, y),
{
    if cell_value(t, pubs, x) is Some && cell_value(t, pubs, y) is Some && cell_value(t, pubs, x)
        != cell_value(t, pubs, y) {
        lemma_contains_prefix(
            vs1,
            vs2,
            mismatch_violation(x, y, cell_known_value(t, pubs, x), cell_known_value(t, pubs, y)),
        );
    }
}

/// Is the violation already in the list?
pub(crate) fn contains_violation(vs: &Vec<Violation>, v: &Violation) -> (r: bool)
    ensures
        r == vs@.contains(*v),
{
    let mut i: usize = 0;
    while i < vs.len()
        invariant
            i <= vs@.len(),
            forall|j: int| 0 <= j < i ==> vs@[j] != *v,
        decreases vs@.len() - i,
    {
        if vs[i] == *v {
            return true;
        }
        i = i + 1;
    }
    false
}

/// Appends the finding unless an identical one is already listed, keeping
/// the aggregated list free of duplicates.
pub(crate) fn push_new(vs: &mut Vec<Violation>, v: Violation)
    ensures
        old(vs)@.is_prefix_of(final(vs)@),
        final(vs)@.contains(v),
        final(vs)@.len() <= old(vs)@.len() + 1,
        forall|i: int| old(vs)@.len() <= i < final(vs)@.len() ==> final(vs)@[i] == v,
        (forall|i: int, j: int| 0 <= i < j < old(vs)@.len() ==> old(vs)@[i] != old(vs)@[j])
            ==> (forall|i: int, j: int|
            0 <= i < j < final(vs)@.len() ==> final(vs)@[i] != final(vs)@[j]),
{
    if !contains_violation(vs, &v) {
        vs.push(v);
        proof {
            assert(vs@[vs@.len() - 1] == v);
        }
    }
}

/// Every pair of copy-connected cells with known values agrees; instance
/// cells resolve to the supplied public input, so this also binds exposed
/// cells to the public values.
pub open spec fn copies_ok(t: TraceV, pubs: Seq<Seq<Fp>>) -> bool {
    forall|x: Cell, y: Cell|
        #[trigger] connected(t.copies, x, y) ==> values_agree(
            cell_value(t, pubs, x),
            cell_value(t, pubs, y),
        )
}

/// Does the trace, with this public input, satisfy the constraint system?
pub open spec fn accepts(cs: ConstraintSystemV, t: TraceV, pubs: Seq<Seq<Fp>>) -> bool {
    &&& pub_lens_ok(t, pubs)
    &&& gates_ok(cs, t, pubs)
    &&& copies_ok(t, pubs)
}

/// Is a reported violation genuine for this system, trace and input?
pub open spec fn violation_valid(
    cs: ConstraintSystemV,
    t: TraceV,
    pubs: Seq<Seq<Fp>>,
    v: Violation,
) -> bool {
    match v {
        Violation::CellNotAssigned { gate, row, cell } => {
            &&& gate < cs.gates.len()
            &&& selector_enabled(t, cs.gates[gate as int].selector, row as int)
            &&& exists|p: int|
                0 <= p < cs.gates[gate as int].polys.len() && missing_cells(
                    t,
                    pubs,
                    #[trigger] cs.gates[gate as int].polys[p],
                    row as int,
                ).contains(cell)
        },
        Violation::ConstraintNotSatisfied { gate, poly, row, value } => {
            &&& gate < cs.gates.len()
            &&& poly < cs.gates[gate as int].polys.len()
            &&& row < t.k
            &&& selector_enabled(t, cs.gates[gate as int].selector, row as int)
            &&& eval(t, pubs, cs.gates[gate as int].polys[poly as int], row as int) == Some(value)
            &&& value.v != 0
        },
        Violation::PermutationMismatch { a, b, left, right } => {
            &&& connected(t.copies, a, b)
            &&& cell_value(t, pubs, a) == Some(left)
            &&& cell_value(t, pubs, b) == Some(right)
            &&& left != right
        },
        Violation::PublicInputMismatch { column, row, expected, actual } => {
            let icell = Cell {
                column: crate::system::Column { kind: ColumnKind::Instance, index: column },
                row,
            };
            exists|other: Cell|
                {
                    &&& #[trigger] connected(t.copies, icell, other)
                    &&& cell_value(t, pubs, icell) == Some(expected)
                    &&& cell_value(t, pubs, other) == Some(actual)
                    &&& expected != actual
                }
        },
        Violation::PublicInputWrongLength { column, expected_len, actual_len } => {
            &&& column < pubs.len()
            &&& actual_len == pubs[column as int].len()
            &&& pubs[column as int].len() != instance_rows_bound(t.copies, column as int)
            &&& expected_len == sat_usize(instance_rows_bound(t.copies, column as int) as int)
        },
    }
}

/// A genuine violation refutes acceptance.
pub proof fn lemma_violation_refutes(
    cs: ConstraintSystemV,
    t: TraceV,
    pubs: Seq<Seq<Fp>>,
    v: Violation,
)
    requires
        cs.wf(),
        t.wf(cs),
        violation_valid(cs, t, pubs, v),
    ensures
        !accepts(cs, t, pubs),
{
    match v {
        Violation::CellNotAssigned { gate, row, cell } => {
            let p = choose|p: int|
                0 <= p < cs.gates[gate as int].polys.len() && missing_cells(
                    t,
                    pubs,
                    #[trigger] cs.gates[gate as int].polys[p],
                    row as int,
                ).contains(cell);
            lemma_eval_none_iff_missing(t, pubs, cs.gates[gate as int].polys[p], row as int);
            assert(!gate_ok_at(cs, t, pubs, gate as int, p, row as int));
        },
        Violation::ConstraintNotSatisfied { gate, poly, row, value } => {
            assert(!gate_ok_at(cs, t, pubs, gate as int, poly as int, row as int));
        },
        Violation::PermutationMismatch { a, b, left, right } => {
            assert(!values_agree(cell_value(t, pubs, a), cell_value(t, pubs, b)));
        },
        Violation::PublicInputMismatch { column, row, expected, actual } => {
            let icell = Cell {
                column: crate::system::Column { kind: ColumnKind::Instance, index: column },
                row,
            };
            let other = choose|other: Cell|
                {
                    &&& #[trigger] connected(t.copies, icell, other)
                    &&& cell_value(t, pubs, icell) == Some(expected)
                    &&& cell_value(t, pubs, other) == Some(actual)
                    &&& expected != actual
                };
            assert(!values_agree(cell_value(t, pubs, icell), cell_value(t, pubs, other)));
        },
        Violation::PublicInputWrongLength { column, expected_len, actual_len } => {
            assert(!pub_lens_ok(t, pubs));
        },
    }
}

/// Resolves a rotation against a row of a `k`-row table, wrapping
/// cyclically.
fn resolve_row(k: usize, row: usize, rot: Rotation) -> (r: usize)
    requires
        1 <= k,
        row < k,
    ensures
        r as int == wrap_row(k as int, row as int, rot.offset as int),
        r < k,
{
    let kk: u128 = k as u128;
    let off_red: u128 = if rot.offset >= 0 {
        (rot.offset as u128) % kk
    } else {
        let m: u128 = ((-(rot.offset as i128)) as u128) % kk;
        if m == 0 {
            0
        } else {
            kk - m
        }
    };
    let t: u128 = ((row as u128) + off_red) % kk;
    proof {
        let ki = k as int;
        let off = rot.offset as int;
        if off >= 0 {
            assert(off_red as int == off % ki);
        } else {
            let m = (-off) % ki;
            let q = (-off) / ki;
            vstd::arithmetic::div_mod::lemma_fundamental_div_mod(-off, ki);
            assert(ki * (-q) == -(ki * q)) by (nonlinear_arith);
            assert(off == ki * (-q) + (-m));
            lemma_mod_multiples_vanish(-q, -m, ki);
            assert(off % ki == (-m) % ki);
            if m == 0 {
                lemma_small_mod(0nat, ki as nat);
                assert(off_red as int == off % ki);
            } else {
                lemma_mod_multiples_vanish(1, -m, ki);
                assert((ki - m) % ki == (-m) % ki);
                lemma_small_mod((ki - m) as nat, ki as nat);
                assert(off_red as int == off % ki);
            }
        }
        lemma_add_mod_noop(row as int, off, ki);
        lemma_small_mod(row as nat, ki as nat);
        assert((row as int + off_red as int) % ki == (row as int + off) % ki);
    }
    t as usize
}

/// Resolves a cell to its known value, if it has one.
pub(crate) fn cell_value_exec(trace: &Trace, pubs: &Vec<Vec<Fp>>, c: Cell) -> (r: Option<Fp>)
    ensures
        r == cell_value(trace@, grid_view(pubs@), c),
{
    match c.column.kind {
        ColumnKind::Advice => {
            if c.column.index < trace.advice.len() && c.row < trace.advice[c.column.index].len() {
                match trace.advice[c.column.index][c.row] {
                    FpValue::Known(f) => Some(f),
                    FpValue::Unknown => None,
                }
            } else {
                None
            }
        },
        ColumnKind::Fixed => {
            if c.column.index < trace.fixed.len() && c.row < trace.fixed[c.column.index].len() {
                match trace.fixed[c.column.index][c.row] {
                    FpValue::Known(f) => Some(f),
                    FpValue::Unknown => None,
                }
            } else {
                None
            }
        },
        ColumnKind::Instance => {
            if c.column.index < pubs.len() && c.row < pubs[c.column.index].len() {
                Some(pubs[c.column.index][c.row])
            } else {
                None
            }
        },
    }
}

/// Evaluates a polynomial at a row of the trace.
fn eval_exec(trace: &Trace, pubs: &Vec<Vec<Fp>>, e: &Expression, row: usize) -> (r: Option<Fp>)
    requires
        1 <= trace@.k,
        row < trace@.k,
        e.wf(),
        trace@.rows_wf(),
        pubs_wf(grid_view(pubs@)),
    ensures
        r == eval(trace@, grid_view(pubs@), *e, row as int),
        r matches Some(f) ==> f.wf(),
    decreases *e,
{
    match e {
        Expression::Constant(f) => Some(*f),
        Expression::Query(col, rot) => {
            let target = resolve_row(trace.k, row, *rot);
            let r = cell_value_exec(trace, pubs, Cell { column: *col, row: target });
            r
        },
        Expression::Sum(a, b) => {
            let ra = eval_exec(trace, pubs, a, row);
            let rb = eval_exec(trace, pubs, b, row);
            match (ra, rb) {
                (Some(x), Some(y)) => Some(x.add(y)),
                _ => None,
            }
        },
        Expression::Product(a, b) => {
            let ra = eval_exec(trace, pubs, a, row);
            let rb = eval_exec(trace, pubs, b, row);
            match (ra, rb) {
                (Some(x), Some(y)) => Some(x.mul(y)),
                _ => None,
            }
        },
        Expression::Negated(a) => {
            match eval_exec(trace, pubs, a, row) {
                Some(x) => Some(x.neg()),
                None => None,
            }
        },
    }
}

/// Collects the referenced cells with no known value, in query order.
fn missing_exec(trace: &Trace, pubs: &Vec<Vec<Fp>>, e: &Expression, row: usize) -> (r: Vec<Cell>)
    requires
        1 <= trace@.k,
        row < trace@.k,
    ensures
        r@ == missing_cells(trace@, grid_view(pubs@), *e, row as int),
    decreases *e,
{
    match e {
        Expression::Constant(_) => {
            let r: Vec<Cell> = Vec::new();
            proof {
                assert(r@ =~= Seq::<Cell>::empty());
            }
            r
        },
        Expression::Query(col, rot) => {
            let target = resolve_row(trace.k, row, *rot);
            let c = Cell { column: *col, row: target };
            let mut r: Vec<Cell> = Vec::new();
            if cell_value_exec(trace, pubs, c).is_none() {
                r.push(c);
                proof {
                    assert(r@ =~= seq![c]);
                }
            } else {
                proof {
                    assert(r@ =~= Seq::<Cell>::empty());
                }
            }
            r
        },
        Expression::Sum(a, b) => {
            let mut ra = missing_exec(trace, pubs, a, row);
            let mut rb = missing_exec(trace, pubs, b, row);
            ra.append(&mut rb);
            ra
        },
        Expression::Product(a, b) => {
            let mut ra = missing_exec(trace, pubs, a, row);
            let mut rb = missing_exec(trace, pubs, b, row);
            ra.append(&mut rb);
            ra
        },
        Expression::Negated(a) => missing_exec(trace, pubs, a, row),
    }
}

/// The highest row of one instance column that any copy constraint
/// references, if any.
fn max_instance_row(copies: &Vec<(Cell, Cell)>, col: usize) -> (r: Option<usize>)
    ensures
        match r {
            Option::None => instance_rows_bound(copies@, col as int) == 0,
            Option::Some(m) => instance_rows_bound(copies@, col as int) == m + 1,
        },
{
    let mut r: Option<usize> = None;
    let mut e: usize = 0;
    while e < copies.len()
        invariant
            e <= copies@.len(),
            match r {
                Option::None => instance_rows_bound(copies@.take(e as int), col as int) == 0,
                Option::Some(m) => instance_rows_bound(copies@.take(e as int), col as int) == m
                    + 1,
            },
        decreases copies@.len() - e,
    {
        proof {
            assert(copies@.take(e as int + 1).drop_last() =~= copies@.take(e as int));
            assert(copies@.take(e as int + 1).last() == copies@[e as int]);
        }
        let pair = copies[e];
        let c0 = pair.0;
        if c0.column.kind == ColumnKind::Instance && c0.column.index == col {
            r = match r {
                Option::None => Some(c0.row),
                Option::Some(m) => if c0.row > m {
                    Some(c0.row)
                } else {
                    Some(m)
                },
            };
        }
        let c1 = pair.1;
        if c1.column.kind == ColumnKind::Instance && c1.column.index == col {
            r = match r {
                Option::None => Some(c1.row),
                Option::Some(m) => if c1.row > m {
                    Some(c1.row)
                } else {
                    Some(m)
                },
            };
        }
        e = e + 1;
    }
    proof {
        assert(copies@.take(copies@.len() as int) =~= copies@);
    }
    r
}

/// The length pass: each instance column's public input must be exactly as
/// long as its highest referenced row plus one.
fn pass_lengths(trace: &Trace, pubs: &Vec<Vec<Fp>>, vs: &mut Vec<Violation>)
    requires
        forall|i: int| 0 <= i < old(vs)@.len() ==> !is_length_violation(#[trigger] old(vs)@[i]),
        forall|i: int, j: int| 0 <= i < j < old(vs)@.len() ==> old(vs)@[i] != old(vs)@[j],
    ensures
        old(vs)@.is_prefix_of(final(vs)@),
        forall|i: int, csa: ConstraintSystemV|
            old(vs)@.len() <= i < final(vs)@.len() ==> #[trigger] violation_valid(
                csa,
                trace@,
                grid_view(pubs@),
                final(vs)@[i],
            ),
        forall|i: int|
            old(vs)@.len() <= i < final(vs)@.len() ==> is_length_violation(#[trigger] final(vs)@[i]),
        forall|i: int, j: int| 0 <= i < j < final(vs)@.len() ==> final(vs)@[i] != final(vs)@[j],
        (final(vs)@.len() == old(vs)@.len()) <==> pub_lens_ok(trace@, grid_view(pubs@)),
        forall|c: int|
            0 <= c < grid_view(pubs@).len() && grid_view(pubs@)[c].len() != instance_rows_bound(
                trace@.copies,
                c,
            ) ==> #[trigger] final(vs)@.contains(
                Violation::PublicInputWrongLength {
                    column: c as usize,
                    expected_len: sat_usize(instance_rows_bound(trace@.copies, c) as int),
                    actual_len: grid_view(pubs@)[c].len() as usize,
                },
            ),
{
    let ghost vs0 = vs@;
    let ghost tv = trace@;
    let ghost pv = grid_view(pubs@);
    let mut c: usize = 0;
    while c < pubs.len()
        invariant
            c <= pubs@.len(),
            pv == grid_view(pubs@),
            tv == trace@,
            vs0.is_prefix_of(vs@),
            forall|i: int| 0 <= i < vs0.len() ==> !is_length_violation(#[trigger] vs0[i]),
            forall|i: int, csa: ConstraintSystemV|
                vs0.len() <= i < vs@.len() ==> #[trigger] violation_valid(
                    csa,
                    tv,
                    pv,
                    vs@[i],
                ),
            forall|i: int|
                vs0.len() <= i < vs@.len() ==> is_length_violation(#[trigger] vs@[i]),
            forall|i: int, j: int| 0 <= i < j < vs@.len() ==> vs@[i] != vs@[j],
            (vs@.len() == vs0.len()) <==> (forall|cc: int|
                0 <= cc < c ==> (#[trigger] pv[cc]).len() == instance_rows_bound(tv.copies, cc)),
            forall|cc: int|
                0 <= cc < c && pv[cc].len() != instance_rows_bound(tv.copies, cc)
                    ==> #[trigger] vs@.contains(
                    Violation::PublicInputWrongLength {
                        column: cc as usize,
                        expected_len: sat_usize(instance_rows_bound(tv.copies, cc) as int),
                        actual_len: pv[cc].len() as usize,
                    },
                ),
        decreases pubs@.len() - c,
    {
        proof {
            assert(pv[c as int] == pubs@[c as int]@);
        }
        let bound = max_instance_row(&trace.copies, c);
        let len = pubs[c].len();
        let bad = match bound {
            Option::None => len != 0,
            Option::Some(m) => len == 0 || len - 1 != m,
        };
        let ghost vs_pre = vs@;
        if bad {
            let expected: usize = match bound {
                Option::None => 0,
                Option::Some(m) => if m < usize::MAX {
                    m + 1
                } else {
                    usize::MAX
                },
            };
            let viol = Violation::PublicInputWrongLength {
                column: c,
                expected_len: expected,
                actual_len: len,
            };
            push_new(vs, viol);
            proof {
                assert(pv[c as int].len() != instance_rows_bound(tv.copies, c as int));
                assert(forall|csa: ConstraintSystemV| violation_valid(csa, tv, pv, viol));
                assert(viol == (Violation::PublicInputWrongLength {
                    column: c as usize,
                    expected_len: sat_usize(instance_rows_bound(tv.copies, c as int) as int),
                    actual_len: pv[c as int].len() as usize,
                }));
                // the finding sits past the untouched entries handed in
                assert(vs0.is_prefix_of(vs_pre));
                assert(vs_pre.is_prefix_of(vs@));
                assert(forall|i: int| 0 <= i < vs0.len() ==> vs@[i] == vs0[i]);
                let idx = choose|idx: int| 0 <= idx < vs@.len() && vs@[idx] == viol;
                assert(idx >= vs0.len()) by {
                    if 0 <= idx < vs0.len() {
                        assert(vs@[idx] == vs0[idx]);
                        assert(!is_length_violation(vs0[idx]));
                    }
                }
                assert(vs@.len() > vs0.len());
                assert(forall|i: int| 0 <= i < vs_pre.len() ==> vs@[i] == vs_pre[i]);
                assert forall|i: int| vs0.len() <= i < vs@.len() implies is_length_violation(
                    #[trigger] vs@[i],
                ) by {
                    if i < vs_pre.len() {
                        assert(vs@[i] == vs_pre[i]);
                    } else {
                        assert(vs@[i] == viol);
                    }
                }
                assert forall|i: int, csa: ConstraintSystemV|
                    vs0.len() <= i < vs@.len() implies #[trigger] violation_valid(
                    csa,
                    tv,
                    pv,
                    vs@[i],
                ) by {
                    if i < vs_pre.len() {
                        assert(vs@[i] == vs_pre[i]);
                        assert(violation_valid(csa, tv, pv, vs_pre[i]));
                    } else {
                        assert(vs@[i] == viol);
                    }
                }
                assert forall|cc: int|
                    0 <= cc < c + 1 && pv[cc].len() != instance_rows_bound(tv.copies, cc)
                        implies #[trigger] vs@.contains(
                    Violation::PublicInputWrongLength {
                        column: cc as usize,
                        expected_len: sat_usize(instance_rows_bound(tv.copies, cc) as int),
                        actual_len: pv[cc].len() as usize,
                    },
                ) by {
                    if cc < c {
                        lemma_contains_prefix(
                            vs_pre,
                            vs@,
                            Violation::PublicInputWrongLength {
                                column: cc as usize,
                                expected_len: sat_usize(instance_rows_bound(tv.copies, cc) as int),
                                actual_len: pv[cc].len() as usize,
                            },
                        );
                    }
                }
            }
        } else {
            proof {
                assert(pv[c as int].len() == instance_rows_bound(tv.copies, c as int));
            }
        }
        c = c + 1;
    }
}

/// Did the polynomial evaluate to a non-zero value at the row?
pub open spec fn eval_nonzero(t: TraceV, pubs: Seq<Seq<Fp>>, e: Expression, r: int) -> bool {
    match eval(t, pubs, e, r) {
        Some(v) => v.v != 0,
        None => false,
    }
}

/// The value the polynomial evaluated to, where it evaluated at all.
pub open spec fn eval_value(t: TraceV, pubs: Seq<Seq<Fp>>, e: Expression, r: int) -> Fp {
    match eval(t, pubs, e, r) {
        Some(v) => v,
        None => Fp { v: 0u64 },
    }
}

/// Everything wrong with one polynomial of one gate at one row stands in
/// the list: a finding for every unresolved referenced cell, and one for a
/// non-zero evaluation.
pub open spec fn gate_reported(
    cs: ConstraintSystemV,
    t: TraceV,
    pubs: Seq<Seq<Fp>>,
    vs: Seq<Violation>,
    g: int,
    p: int,
    r: int,
) -> bool {
    selector_enabled(t, cs.gates[g].selector, r) ==> {
        &&& forall|ci: int|
            0 <= ci < missing_cells(t, pubs, cs.gates[g].polys[p], r).len()
                ==> #[trigger] vs.contains(
                Violation::CellNotAssigned {
                    gate: g as usize,
                    row: r as usize,
                    cell: missing_cells(t, pubs, cs.gates[g].polys[p], r)[ci],
                },
            )
        &&& (missing_cells(t, pubs, cs.gates[g].polys[p], r).len() == 0 && eval_nonzero(
            t,
            pubs,
            cs.gates[g].polys[p],
            r,
        ) ==> vs.contains(
            Violation::ConstraintNotSatisfied {
                gate: g as usize,
                poly: p as usize,
                row: r as usize,
                value: eval_value(t, pubs, cs.gates[g].polys[p], r),
            },
        ))
    }
}

/// Reported findings stay reported as the list grows.
proof fn lemma_gate_reported_prefix(
    cs: ConstraintSystemV,
    t: TraceV,
    pubs: Seq<Seq<Fp>>,
    vs1: Seq<Violation>,
    vs2: Seq<Violation>,
    g: int,
    p: int,
    r: int,
)
    requires
        gate_reported(cs, t, pubs, vs1, g, p, r),
        vs1.is_prefix_of(vs2),
    ensures
        gate_reported(cs, t, pubs, vs2, g, p, r),
{
    if selector_enabled(t, cs.gates[g].selector, r) {
        assert forall|ci: int|
            0 <= ci < missing_cells(t, pubs, cs.gates[g].polys[p], r).len()
                implies #[trigger] vs2.contains(
            Violation::CellNotAssigned {
                gate: g as usize,
                row: r as usize,
                cell: missing_cells(t, pubs, cs.gates[g].polys[p], r)[ci],
            },
        ) by {
            lemma_contains_prefix(
                vs1,
                vs2,
                Violation::CellNotAssigned {
                    gate: g as usize,
                    row: r as usize,
                    cell: missing_cells(t, pubs, cs.gates[g].polys[p], r)[ci],
                },
            );
        }
        if missing_cells(t, pubs, cs.gates[g].polys[p], r).len() == 0 && eval_nonzero(
            t,
            pubs,
            cs.gates[g].polys[p],
            r,
        ) {
            lemma_contains_prefix(
                vs1,
                vs2,
                Violation::ConstraintNotSatisfied {
                    gate: g as usize,
                    poly: p as usize,
                    row: r as usize,
                    value: eval_value(t, pubs, cs.gates[g].polys[p], r),
                },
            );
        }
    }
}

/// The resolution and evaluation passes: wherever a selector is switched
/// on, the cells its polynomials reference must all resolve, and each
/// polynomial must vanish.
#[verifier::loop_isolation(false)]
#[verifier::rlimit(100)]
fn pass_gates(cs: &ConstraintSystem, trace: &Trace, pubs: &Vec<Vec<Fp>>, vs: &mut Vec<Violation>)
    requires
        cs@.wf(),
        trace@.wf(cs@),
        pubs_wf(grid_view(pubs@)),
        forall|i: int| 0 <= i < old(vs)@.len() ==> !is_gate_violation(#[trigger] old(vs)@[i]),
        forall|i: int, j: int| 0 <= i < j < old(vs)@.len() ==> old(vs)@[i] != old(vs)@[j],
    ensures
        old(vs)@.is_prefix_of(final(vs)@),
        forall|i: int|
            old(vs)@.len() <= i < final(vs)@.len() ==> violation_valid(
                cs@,
                trace@,
                grid_view(pubs@),
                #[trigger] final(vs)@[i],
            ),
        forall|i: int|
            old(vs)@.len() <= i < final(vs)@.len() ==> is_gate_violation(#[trigger] final(vs)@[i]),
        forall|i: int, j: int| 0 <= i < j < final(vs)@.len() ==> final(vs)@[i] != final(vs)@[j],
        (final(vs)@.len() == old(vs)@.len()) <==> gates_ok(cs@, trace@, grid_view(pubs@)),
        forall|g: int, p: int, r: int|
            0 <= g < cs@.gates.len() && 0 <= p < cs@.gates[g].polys.len() && 0 <= r < trace@.k
                ==> #[trigger] gate_reported(cs@, trace@, grid_view(pubs@), final(vs)@, g, p, r),
{
    let ghost vs0 = vs@;
    let ghost csv = cs@;
    let ghost tv = trace@;
    let ghost pv = grid_view(pubs@);
    let mut g: usize = 0;
    while g < cs.gates.len()
        invariant
            g <= cs.gates@.len(),
            vs0.is_prefix_of(vs@),
            forall|i: int|
                vs0.len() <= i < vs@.len() ==> violation_valid(csv, tv, pv, #[trigger] vs@[i]),
            forall|i: int| vs0.len() <= i < vs@.len() ==> is_gate_violation(#[trigger] vs@[i]),
            forall|i: int, j: int| 0 <= i < j < vs@.len() ==> vs@[i] != vs@[j],
            (vs@.len() == vs0.len()) <==> (forall|gg: int, pp: int, rr: int|
                0 <= gg < g && 0 <= pp < csv.gates[gg].polys.len() && 0 <= rr < tv.k
                    ==> #[trigger] gate_ok_at(csv, tv, pv, gg, pp, rr)),
            forall|gg: int, pp: int, rr: int|
                0 <= gg < g && 0 <= pp < csv.gates[gg].polys.len() && 0 <= rr < tv.k
                    ==> #[trigger] gate_reported(csv, tv, pv, vs@, gg, pp, rr),
        decreases cs.gates@.len() - g,
    {
        let num_polys = cs.gates[g].polys.len();
        let mut p: usize = 0;
        while p < num_polys
            invariant
                p <= num_polys,
                num_polys == csv.gates[g as int].polys.len(),
                g < cs.gates@.len(),
                vs0.is_prefix_of(vs@),
                forall|i: int|
                    vs0.len() <= i < vs@.len() ==> violation_valid(csv, tv, pv, #[trigger] vs@[i]),
                forall|i: int| vs0.len() <= i < vs@.len() ==> is_gate_violation(#[trigger] vs@[i]),
                forall|i: int, j: int| 0 <= i < j < vs@.len() ==> vs@[i] != vs@[j],
                (vs@.len() == vs0.len()) <==> ((forall|gg: int, pp: int, rr: int|
                    0 <= gg < g && 0 <= pp < csv.gates[gg].polys.len() && 0 <= rr < tv.k
                        ==> #[trigger] gate_ok_at(csv, tv, pv, gg, pp, rr)) && (forall|
                    pp: int,
                    rr: int,
                |
                    0 <= pp < p && 0 <= rr < tv.k ==> #[trigger] gate_ok_at(
                        csv,
                        tv,
                        pv,
                        g as int,
                        pp,
                        rr,
                    ))),
                forall|gg: int, pp: int, rr: int|
                    0 <= gg < g && 0 <= pp < csv.gates[gg].polys.len() && 0 <= rr < tv.k
                        ==> #[trigger] gate_reported(csv, tv, pv, vs@, gg, pp, rr),
                forall|pp: int, rr: int|
                    0 <= pp < p && 0 <= rr < tv.k ==> #[trigger] gate_reported(
                        csv,
                        tv,
                        pv,
                        vs@,
                        g as int,
                        pp,
                        rr,
                    ),
            decreases num_polys - p,
        {
            let mut row: usize = 0;
            while row < trace.k
                invariant
                    row <= trace.k,
                    p < num_polys,
                    g < cs.gates@.len(),
                    vs0.is_prefix_of(vs@),
                    forall|i: int|
                        vs0.len() <= i < vs@.len() ==> violation_valid(
                            csv,
                            tv,
                            pv,
                            #[trigger] vs@[i],
                        ),
                    forall|i: int|
                        vs0.len() <= i < vs@.len() ==> is_gate_violation(#[trigger] vs@[i]),
                    forall|i: int, j: int| 0 <= i < j < vs@.len() ==> vs@[i] != vs@[j],
                    (vs@.len() == vs0.len()) <==> ((forall|gg: int, pp: int, rr: int|
                        0 <= gg < g && 0 <= pp < csv.gates[gg].polys.len() && 0 <= rr < tv.k
                            ==> #[trigger] gate_ok_at(csv, tv, pv, gg, pp, rr)) && (forall|
                        pp: int,
                        rr: int,
                    |
                        0 <= pp < p && 0 <= rr < tv.k ==> #[trigger] gate_ok_at(
                            csv,
                            tv,
                            pv,
                            g as int,
                            pp,
                            rr,
                        )) && (forall|rr: int|
                        0 <= rr < row ==> #[trigger] gate_ok_at(csv, tv, pv, g as int, p as int, rr))),
                    forall|gg: int, pp: int, rr: int|
                        0 <= gg < g && 0 <= pp < csv.gates[gg].polys.len() && 0 <= rr < tv.k
                            ==> #[trigger] gate_reported(csv, tv, pv, vs@, gg, pp, rr),
                    forall|pp: int, rr: int|
                        0 <= pp < p && 0 <= rr < tv.k ==> #[trigger] gate_reported(
                            csv,
                            tv,
                            pv,
                            vs@,
                            g as int,
                            pp,
                            rr,
                        ),
                    forall|rr: int|
                        0 <= rr < row ==> #[trigger] gate_reported(
                            csv,
                            tv,
                            pv,
                            vs@,
                            g as int,
                            p as int,
                            rr,
                        ),
                decreases trace.k - row,
            {
                let ghost vs_iter = vs@;
                proof {
                    assert(csv.gates[g as int] == cs.gates@[g as int]@);
                    assert(csv.gate_wf(csv.gates[g as int]));
                }
                let sel = cs.gates[g].selector;
                proof {
                    assert(sel == csv.gates[g as int].selector);
                    assert(tv.selectors.len() == csv.num_selectors);
                    assert(trace.selectors@.len() == tv.selectors.len());
                    assert((trace.selectors@[sel.index as int])@ == tv.selectors[sel.index as int]);
                    assert(tv.selectors[sel.index as int].len() == tv.k);
                }
                let enabled = trace.selectors[sel.index][row];
                if enabled {
                    proof {
                        assert(selector_enabled(tv, csv.gates[g as int].selector, row as int));
                    }
                    let poly = &cs.gates[g].polys[p];
                    proof {
                        assert(csv.gates[g as int].polys[p as int] == *poly);
                    }
                    let miss = missing_exec(trace, pubs, poly, row);
                    if miss.len() == 0 {
                        proof {
                            lemma_eval_none_iff_missing(tv, pv, *poly, row as int);
                        }
                        match eval_exec(trace, pubs, poly, row) {
                            Some(f) => {
                                if f.v != 0 {
                                    let viol = Violation::ConstraintNotSatisfied {
                                        gate: g,
                                        poly: p,
                                        row,
                                        value: f,
                                    };
                                    let ghost vs_pre = vs@;
                                    push_new(vs, viol);
                                    proof {
                                        assert(!gate_ok_at(csv, tv, pv, g as int, p as int, row as int));
                                        assert(violation_valid(csv, tv, pv, viol));
                                        assert(forall|i: int|
                                            0 <= i < vs_pre.len() ==> vs@[i] == vs_pre[i]);
                                        assert(forall|i: int|
                                            0 <= i < vs0.len() ==> vs@[i] == vs0[i]);
                                        assert forall|i: int|
                                            vs0.len() <= i < vs@.len() implies violation_valid(
                                            csv,
                                            tv,
                                            pv,
                                            #[trigger] vs@[i],
                                        ) by {
                                            if i < vs_pre.len() {
                                                assert(vs@[i] == vs_pre[i]);
                                            } else {
                                                assert(vs@[i] == viol);
                                            }
                                        }
                                        assert forall|i: int|
                                            vs0.len() <= i < vs@.len() implies is_gate_violation(
                                            #[trigger] vs@[i],
                                        ) by {
                                            if i < vs_pre.len() {
                                                assert(vs@[i] == vs_pre[i]);
                                            } else {
                                                assert(vs@[i] == viol);
                                            }
                                        }
                                        let idx = choose|idx: int|
                                            0 <= idx < vs@.len() && vs@[idx] == viol;
                                        assert(idx >= vs0.len()) by {
                                            if 0 <= idx < vs0.len() {
                                                assert(vs@[idx] == vs0[idx]);
                                                assert(!is_gate_violation(vs0[idx]));
                                            }
                                        }
                                        assert(vs@.len() > vs0.len());
                                        assert(eval_value(tv, pv, csv.gates[g as int].polys[p as int], row as int) == f);
                                        assert(gate_reported(csv, tv, pv, vs@, g as int, p as int, row as int));
                                    }
                                } else {
                                    proof {
                                        assert(gate_ok_at(csv, tv, pv, g as int, p as int, row as int));
                                        assert(gate_reported(csv, tv, pv, vs@, g as int, p as int, row as int));
                                    }
                                }
                            },
                            None => {
                                proof {
                                    assert(false);
                                }
                            },
                        }
                    } else {
                        let ghost vs_before = vs@;
                        let mut mi: usize = 0;
                        while mi < miss.len()
                            invariant
                                mi <= miss@.len(),
                                miss@ == missing_cells(tv, pv, csv.gates[g as int].polys[p as int], row as int),
                                g < csv.gates.len(),
                                p < csv.gates[g as int].polys.len(),
                                selector_enabled(tv, csv.gates[g as int].selector, row as int),
                                vs_before.is_prefix_of(vs@),
                                vs0.is_prefix_of(vs_before),
                                forall|i: int|
                                    vs0.len() <= i < vs_before.len() ==> violation_valid(
                                        csv,
                                        tv,
                                        pv,
                                        #[trigger] vs_before[i],
                                    ),
                                forall|i: int|
                                    vs0.len() <= i < vs_before.len() ==> is_gate_violation(
                                        #[trigger] vs_before[i],
                                    ),
                                forall|i: int|
                                    vs0.len() <= i < vs@.len() ==> violation_valid(
                                        csv,
                                        tv,
                                        pv,
                                        #[trigger] vs@[i],
                                    ),
                                forall|i: int|
                                    vs0.len() <= i < vs@.len() ==> is_gate_violation(
                                        #[trigger] vs@[i],
                                    ),
                                forall|i: int, j: int| 0 <= i < j < vs@.len() ==> vs@[i] != vs@[j],
                                forall|ci: int|
                                    0 <= ci < mi ==> #[trigger] vs@.contains(
                                        Violation::CellNotAssigned {
                                            gate: g,
                                            row: row,
                                            cell: miss@[ci],
                                        },
                                    ),
                            decreases miss@.len() - mi,
                        {
                            let cell = miss[mi];
                            let viol = Violation::CellNotAssigned { gate: g, row, cell };
                            let ghost vs_pre = vs@;
                            push_new(vs, viol);
                            proof {
                                assert(missing_cells(
                                    tv,
                                    pv,
                                    #[trigger] csv.gates[g as int].polys[p as int],
                                    row as int,
                                ).contains(cell));
                                assert(violation_valid(csv, tv, pv, viol));
                                assert(forall|i: int|
                                    0 <= i < vs_pre.len() ==> vs@[i] == vs_pre[i]);
                                assert forall|i: int|
                                    vs0.len() <= i < vs@.len() implies violation_valid(
                                    csv,
                                    tv,
                                    pv,
                                    #[trigger] vs@[i],
                                ) by {
                                    if i < vs_pre.len() {
                                        assert(vs@[i] == vs_pre[i]);
                                    } else {
                                        assert(vs@[i] == viol);
                                    }
                                }
                                assert forall|i: int|
                                    vs0.len() <= i < vs@.len() implies is_gate_violation(
                                    #[trigger] vs@[i],
                                ) by {
                                    if i < vs_pre.len() {
                                        assert(vs@[i] == vs_pre[i]);
                                    } else {
                                        assert(vs@[i] == viol);
                                    }
                                }
                                assert forall|ci: int| 0 <= ci < mi + 1 implies #[trigger] vs@.contains(
                                    Violation::CellNotAssigned { gate: g, row: row, cell: miss@[ci] },
                                ) by {
                                    if ci < mi {
                                        lemma_contains_prefix(
                                            vs_pre,
                                            vs@,
                                            Violation::CellNotAssigned {
                                                gate: g,
                                                row: row,
                                                cell: miss@[ci],
                                            },
                                        );
                                    }
                                }
                            }
                            mi = mi + 1;
                        }
                        proof {
                            lemma_eval_none_iff_missing(tv, pv, csv.gates[g as int].polys[p as int], row as int);
                            assert(!gate_ok_at(csv, tv, pv, g as int, p as int, row as int));
                            assert(forall|i: int| 0 <= i < vs0.len() ==> vs@[i] == vs0[i]);
                            let fviol = Violation::CellNotAssigned {
                                gate: g,
                                row: row,
                                cell: miss@[0],
                            };
                            assert(vs@.contains(fviol));
                            let idx = choose|idx: int| 0 <= idx < vs@.len() && vs@[idx] == fviol;
                            assert(idx >= vs0.len()) by {
                                if 0 <= idx < vs0.len() {
                                    assert(vs@[idx] == vs0[idx]);
                                    assert(!is_gate_violation(vs0[idx]));
                                }
                            }
                            assert(vs@.len() > vs0.len());
                            assert(old(vs)@.is_prefix_of(vs@));
                            assert(gate_reported(csv, tv, pv, vs@, g as int, p as int, row as int));
                        }
                    }
                } else {
                    proof {
                        assert(!selector_enabled(tv, csv.gates[g as int].selector, row as int));
                        assert(gate_ok_at(csv, tv, pv, g as int, p as int, row as int));
                        assert(gate_reported(csv, tv, pv, vs@, g as int, p as int, row as int));
                    }
                }
                proof {
                    assert(vs_iter.is_prefix_of(vs@));
                    assert forall|gg: int, pp: int, rr: int|
                        0 <= gg < g && 0 <= pp < csv.gates[gg].polys.len() && 0 <= rr < tv.k
                            implies #[trigger] gate_reported(csv, tv, pv, vs@, gg, pp, rr) by {
                        lemma_gate_reported_prefix(csv, tv, pv, vs_iter, vs@, gg, pp, rr);
                    }
                    assert forall|pp: int, rr: int|
                        0 <= pp < p && 0 <= rr < tv.k implies #[trigger] gate_reported(
                        csv,
                        tv,
                        pv,
                        vs@,
                        g as int,
                        pp,
                        rr,
                    ) by {
                        lemma_gate_reported_prefix(csv, tv, pv, vs_iter, vs@, g as int, pp, rr);
                    }
                    assert forall|rr: int| 0 <= rr < row implies #[trigger] gate_reported(
                        csv,
                        tv,
                        pv,
                        vs@,
                        g as int,
                        p as int,
                        rr,
                    ) by {
                        lemma_gate_reported_prefix(csv, tv, pv, vs_iter, vs@, g as int, p as int, rr);
                    }
                }
                row = row + 1;
            }
            p = p + 1;
        }
        g = g + 1;
    }
}

/// Checks a finished assignment trace, with its public input, against every
/// registered gate, selector, copy constraint and public-input binding of
/// the constraint system.  All violations of all three passes are
/// aggregated into one returned list, without duplicates and without
/// stopping at the first: every wrong-length column, every unresolved or
/// non-vanishing gate instance, and every disagreeing copy-connected pair
/// is represented, and every reported finding is genuine.  `Ok(())` is
/// returned exactly when the trace satisfies the system.  The verifier
/// only reads its inputs, so it can be invoked again for another
/// public-input vector against the same frozen trace.
pub fn verify(cs: &ConstraintSystem, trace: &Trace, pubs: &Vec<Vec<Fp>>) -> (r: Result<
    (),
    Vec<Violation>,
>)
    requires
        cs@.wf(),
        trace@.wf(cs@),
        pubs@.len() == cs@.num_instance(),
        pubs_wf(grid_view(pubs@)),
    ensures
        match r {
            Ok(_) => accepts(cs@, trace@, grid_view(pubs@)),
            Err(vs) => {
                &&& !accepts(cs@, trace@, grid_view(pubs@))
                &&& vs@.len() > 0
                &&& forall|i: int|
                    0 <= i < vs@.len() ==> violation_valid(
                        cs@,
                        trace@,
                        grid_view(pubs@),
                        #[trigger] vs@[i],
                    )
                &&& forall|i: int, j: int| 0 <= i < j < vs@.len() ==> vs@[i] != vs@[j]
                &&& forall|c: int|
                    0 <= c < grid_view(pubs@).len() && grid_view(pubs@)[c].len()
                        != instance_rows_bound(trace@.copies, c) ==> #[trigger] vs@.contains(
                        Violation::PublicInputWrongLength {
                            column: c as usize,
                            expected_len: sat_usize(instance_rows_bound(trace@.copies, c) as int),
                            actual_len: grid_view(pubs@)[c].len() as usize,
                        },
                    )
                &&& forall|g: int, p: int, rr: int|
                    0 <= g < cs@.gates.len() && 0 <= p < cs@.gates[g].polys.len() && 0 <= rr
                        < trace@.k ==> #[trigger] gate_reported(
                        cs@,
                        trace@,
                        grid_view(pubs@),
                        vs@,
                        g,
                        p,
                        rr,
                    )
                &&& forall|x: Cell, y: Cell|
                    #[trigger] connected(trace@.copies, x, y) && cell_value(
                        trace@,
                        grid_view(pubs@),
                        x,
                    ) is Some && cell_value(trace@, grid_view(pubs@), y) is Some && cell_value(
                        trace@,
                        grid_view(pubs@),
                        x,
                    ) != cell_value(trace@, grid_view(pubs@), y) ==> vs@.contains(
                        mismatch_violation(
                            x,
                            y,
                            cell_known_value(trace@, grid_view(pubs@), x),
                            cell_known_value(trace@, grid_view(pubs@), y),
                        ),
                    ) || vs@.contains(
                        mismatch_violation(
                            y,
                            x,
                            cell_known_value(trace@, grid_view(pubs@), y),
                            cell_known_value(trace@, grid_view(pubs@), x),
                        ),
                    )
            },
        },
{
    let ghost csv = cs@;
    let ghost tv = trace@;
    let ghost pv = grid_view(pubs@);
    let mut vs: Vec<Violation> = Vec::new();
    pass_lengths(trace, pubs, &mut vs);
    let ghost s1 = vs@;
    proof {
        assert(forall|i: int| 0 <= i < s1.len() ==> is_length_violation(#[trigger] s1[i]));
        assert(forall|i: int| 0 <= i < s1.len() ==> !is_gate_violation(#[trigger] s1[i]));
    }
    pass_gates(cs, trace, pubs, &mut vs);
    let ghost s2 = vs@;
    proof {
        assert forall|i: int| 0 <= i < s2.len() implies !is_copy_violation(#[trigger] s2[i]) by {
            if i < s1.len() {
                assert(s2[i] == s1[i]);
                assert(is_length_violation(s1[i]));
            } else {
                assert(is_gate_violation(s2[i]));
            }
        }
    }
    crate::permutation::pass_copies(trace, pubs, &mut vs);
    proof {
        assert((vs@.len() == 0) <==> (s1.len() == 0 && s2.len() == s1.len() && vs@.len()
            == s2.len()));
        assert((vs@.len() == 0) <==> accepts(csv, tv, pv));
        assert forall|i: int| 0 <= i < vs@.len() implies violation_valid(
            csv,
            tv,
            pv,
            #[trigger] vs@[i],
        ) by {
            if i < s1.len() {
                assert(vs@[i] == s2[i]);
                assert(s2[i] == s1[i]);
                assert(violation_valid(csv, tv, pv, s1[i]));
            } else if i < s2.len() {
                assert(vs@[i] == s2[i]);
                assert(violation_valid(csv, tv, pv, s2[i]));
            } else {
                assert(violation_valid(csv, tv, pv, vs@[i]));
            }
        }
        assert(s1.is_prefix_of(vs@));
        assert forall|c: int|
            0 <= c < pv.len() && pv[c].len() != instance_rows_bound(tv.copies, c)
                implies #[trigger] vs@.contains(
            Violation::PublicInputWrongLength {
                column: c as usize,
                expected_len: sat_usize(instance_rows_bound(tv.copies, c) as int),
                actual_len: pv[c].len() as usize,
            },
        ) by {
            lemma_contains_prefix(
                s1,
                vs@,
                Violation::PublicInputWrongLength {
                    column: c as usize,
                    expected_len: sat_usize(instance_rows_bound(tv.copies, c) as int),
                    actual_len: pv[c].len() as usize,
                },
            );
        }
        assert forall|g: int, p: int, rr: int|
            0 <= g < csv.gates.len() && 0 <= p < csv.gates[g].polys.len() && 0 <= rr < tv.k
                implies #[trigger] gate_reported(csv, tv, pv, vs@, g, p, rr) by {
            lemma_gate_reported_prefix(csv, tv, pv, s2, vs@, g, p, rr);
        }
    }
    if vs.len() == 0 {
        Ok(())
    } else {
        Err(vs)
    }
}

} // verus!
