//! Properties of the mock verifier that hold for every constraint system,
//! assignment trace and public input.

use vstd::prelude::*;
use crate::connectivity::connected;
use crate::connectivity::lemma_connected_trans;
use crate::error::Violation;
use crate::field::Fp;
use crate::system::Cell;
use crate::system::ConstraintSystemV;
use crate::trace::TraceV;
use crate::verify::accepts;
use crate::verify::cell_value;
use crate::verify::copies_ok;
use crate::verify::gate_ok_at;
use crate::verify::selector_enabled;
use crate::verify::values_agree;
use crate::verify::violation_valid;

verus! {

/// Copy-constraint transitivity: when a chain of copy constraints joins
/// cell `a` to cell `c` — here through `b`, with no direct `a`–`c`
/// constraint required — and the two resolve to different known values, no
/// trace is accepted.  By the verifier's contract, `verify` then returns a
/// non-empty violation list.
pub proof fn lemma_copy_transitivity(
    cs: ConstraintSystemV,
    t: TraceV,
    pubs: Seq<Seq<Fp>>,
    a: Cell,
    b: Cell,
    c: Cell,
    va: Fp,
    vc: Fp,
)
    requires
        connected(t.copies, a, b),
        connected(t.copies, b, c),
        cell_value(t, pubs, a) == Some(va),
        cell_value(t, pubs, c) == Some(vc),
        va != vc,
    ensures
        connected(t.copies, a, c),
        !copies_ok(t, pubs),
        !accepts(cs, t, pubs),
{
    lemma_connected_trans(t.copies, a, b, c);
    assert(!values_agree(cell_value(t, pubs, a), cell_value(t, pubs, c)));
}

/// A selector is a per-row switch: where it is off, the polynomials it
/// controls demand nothing of the cells there, and no finding naming that
/// gate and row is ever genuine.  As the verifier reports only genuine
/// findings, such a row stays quiet even when its cells would break the
/// polynomial.
pub proof fn lemma_gate_locality(
    cs: ConstraintSystemV,
    t: TraceV,
    pubs: Seq<Seq<Fp>>,
    g: usize,
    row: usize,
)
    requires
        g < cs.gates.len(),
        !selector_enabled(t, cs.gates[g as int].selector, row as int),
    ensures
        forall|p: int|
            0 <= p < cs.gates[g as int].polys.len() ==> #[trigger] gate_ok_at(
                cs,
                t,
                pubs,
                g as int,
                p,
                row as int,
            ),
        forall|p: usize, value: Fp|
            !(#[trigger] violation_valid(
                cs,
                t,
                pubs,
                Violation::ConstraintNotSatisfied { gate: g, poly: p, row, value },
            )),
        forall|cell: Cell|
            !(#[trigger] violation_valid(
                cs,
                t,
                pubs,
                Violation::CellNotAssigned { gate: g, row, cell },
            )),
{
}

} // verus!
