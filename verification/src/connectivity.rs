//! The transitive closure of the registered copy constraints.
//!
//! Two cells are connected when a chain of copy constraints joins them,
//! each link usable in either direction.  The closure is what the
//! permutation pass of the mock verifier checks: every connected pair of
//! cells with known values must agree.

use vstd::prelude::*;
use crate::system::Cell;

verus! {

/// Does one single copy constraint join `x` and `y`?
pub open spec fn linked(ccs: Seq<(Cell, Cell)>, x: Cell, y: Cell) -> bool {
    exists|i: int| 0 <= i < ccs.len() && ((#[trigger] ccs[i]) == (x, y) || ccs[i] == (y, x))
}

/// Is `p` a chain of copy constraints leading from `x` to `y`?
pub open spec fn is_path(ccs: Seq<(Cell, Cell)>, p: Seq<Cell>, x: Cell, y: Cell) -> bool {
    &&& p.len() >= 1
    &&& p[0] == x
    &&& p[p.len() - 1] == y
    &&& forall|i: int| 0 <= i < p.len() - 1 ==> linked(ccs, #[trigger] p[i], p[i + 1])
}

/// Are `x` and `y` joined by some chain of copy constraints?  Reflexive,
/// symmetric and transitive: the equivalence closure of the constraint set.
pub open spec fn connected(ccs: Seq<(Cell, Cell)>, x: Cell, y: Cell) -> bool {
    exists|p: Seq<Cell>| is_path(ccs, p, x, y)
}

/// Does the cell stand in some copy constraint?
pub open spec fn appears(ccs: Seq<(Cell, Cell)>, c: Cell) -> bool {
    exists|i: int| 0 <= i < ccs.len() && ((#[trigger] ccs[i]).0 == c || ccs[i].1 == c)
}

/// Every cell is connected to itself.
pub proof fn lemma_connected_refl(ccs: Seq<(Cell, Cell)>, x: Cell)
    ensures
        connected(ccs, x, x),
{
    let p = seq![x];
    assert(is_path(ccs, p, x, x));
}

/// A single copy constraint connects its endpoints.
pub proof fn lemma_linked_connected(ccs: Seq<(Cell, Cell)>, x: Cell, y: Cell)
    requires
        linked(ccs, x, y),
    ensures
        connected(ccs, x, y),
{
    let p = seq![x, y];
    assert(is_path(ccs, p, x, y));
}

/// Connectivity is symmetric.
pub proof fn lemma_connected_sym(ccs: Seq<(Cell, Cell)>, x: Cell, y: Cell)
    requires
        connected(ccs, x, y),
    ensures
        connected(ccs, y, x),
{
    let p = choose|p: Seq<Cell>| is_path(ccs, p, x, y);
    let q = p.reverse();
    assert forall|i: int| 0 <= i < q.len() - 1 implies linked(ccs, #[trigger] q[i], q[i + 1]) by {
        let j = p.len() - 2 - i;
        assert(q[i] == p[j + 1]);
        assert(q[i + 1] == p[j]);
        assert(linked(ccs, p[j], p[j + 1]));
    }
    assert(is_path(ccs, q, y, x));
}

/// Connectivity is transitive.
pub proof fn lemma_connected_trans(ccs: Seq<(Cell, Cell)>, x: Cell, y: Cell, z: Cell)
    requires
        connected(ccs, x, y),
        connected(ccs, y, z),
    ensures
        connected(ccs, x, z),
{
    let p = choose|p: Seq<Cell>| is_path(ccs, p, x, y);
    let q = choose|q: Seq<Cell>| is_path(ccs, q, y, z);
    let r = p + q.subrange(1, q.len() as int);
    assert(r[0] == x);
    assert(r[r.len() - 1] == z);
    assert forall|i: int| 0 <= i < r.len() - 1 implies linked(ccs, #[trigger] r[i], r[i + 1]) by {
        if i < p.len() - 1 {
            assert(r[i] == p[i]);
            assert(r[i + 1] == p[i + 1]);
            assert(linked(ccs, p[i], p[i + 1]));
        } else if i == p.len() - 1 {
            assert(r[i] == y);
            assert(r[i + 1] == q[1]);
            assert(linked(ccs, q[0], q[1]));
        } else {
            let j = i - p.len() + 1;
            assert(r[i] == q[j]);
            assert(r[i + 1] == q[j + 1]);
            assert(linked(ccs, q[j], q[j + 1]));
        }
    }
    assert(is_path(ccs, r, x, z));
}

/// A chain over a prefix of the constraints is a chain over all of them.
pub proof fn lemma_connected_mono(ccs1: Seq<(Cell, Cell)>, ccs2: Seq<(Cell, Cell)>, x: Cell, y: Cell)
    requires
        connected(ccs1, x, y),
        ccs1.is_prefix_of(ccs2),
    ensures
        connected(ccs2, x, y),
{
    let p = choose|p: Seq<Cell>| is_path(ccs1, p, x, y);
    assert forall|i: int| 0 <= i < p.len() - 1 implies linked(ccs2, #[trigger] p[i], p[i + 1]) by {
        let j = choose|j: int|
            0 <= j < ccs1.len() && (ccs1[j] == (p[i], p[i + 1]) || ccs1[j] == (p[i + 1], p[i]));
        assert(ccs2[j] == ccs1[j]);
    }
    assert(is_path(ccs2, p, x, y));
}

/// Every chain over the constraints extended by one edge either avoids the
/// new edge, or splits into chains over the old constraints that meet the
/// new edge's endpoints.
proof fn lemma_path_extend(es: Seq<(Cell, Cell)>, e: (Cell, Cell), p: Seq<Cell>, x: Cell, y: Cell)
    requires
        is_path(es.push(e), p, x, y),
    ensures
        connected(es, x, y) || (connected(es, x, e.0) && connected(es, e.1, y)) || (connected(
            es,
            x,
            e.1,
        ) && connected(es, e.0, y)),
    decreases p.len(),
{
    if p.len() == 1 {
        assert(x == y);
        lemma_connected_refl(es, x);
    } else {
        let x1 = p[1];
        let tail = p.subrange(1, p.len() as int);
        assert forall|i: int| 0 <= i < tail.len() - 1 implies linked(
            es.push(e),
            #[trigger] tail[i],
            tail[i + 1],
        ) by {
            assert(tail[i] == p[i + 1]);
            assert(tail[i + 1] == p[i + 2]);
            assert(linked(es.push(e), p[i + 1], p[i + 2]));
        }
        assert(is_path(es.push(e), tail, x1, y));
        lemma_path_extend(es, e, tail, x1, y);
        assert(linked(es.push(e), p[0], p[1]));
        let i = choose|i: int|
            0 <= i < es.push(e).len() && (es.push(e)[i] == (x, x1) || es.push(e)[i] == (x1, x));
        if i < es.len() {
            assert(linked(es, x, x1));
            lemma_linked_connected(es, x, x1);
            if connected(es, x1, y) {
                lemma_connected_trans(es, x, x1, y);
            } else if connected(es, x1, e.0) && connected(es, e.1, y) {
                lemma_connected_trans(es, x, x1, e.0);
            } else {
                lemma_connected_trans(es, x, x1, e.1);
            }
        } else {
            assert(es.push(e)[i] == e);
            if x == e.0 && x1 == e.1 {
                lemma_connected_refl(es, x);
                if connected(es, x1, y) {
                    // x is the edge's first endpoint and the tail starts at
                    // the second: the split through the new edge.
                } else if connected(es, x1, e.0) && connected(es, e.1, y) {
                    // the tail already reaches back to e.0; keep the split.
                } else {
                    assert(connected(es, e.0, y));
                }
            } else {
                assert(x == e.1 && x1 == e.0);
                lemma_connected_refl(es, x);
                if connected(es, x1, y) {
                    // symmetric split: x is the second endpoint.
                } else if connected(es, x1, e.0) && connected(es, e.1, y) {
                    assert(connected(es, x, y));
                } else {
                    assert(connected(es, e.0, e.1) && connected(es, e.0, y));
                    lemma_connected_sym(es, e.0, e.1);
                    lemma_connected_trans(es, e.1, e.0, y);
                }
            }
        }
    }
}

/// The decomposition of connectivity over one added constraint.
pub proof fn lemma_connected_push(es: Seq<(Cell, Cell)>, e: (Cell, Cell), x: Cell, y: Cell)
    requires
        connected(es.push(e), x, y),
    ensures
        connected(es, x, y) || (connected(es, x, e.0) && connected(es, e.1, y)) || (connected(
            es,
            x,
            e.1,
        ) && connected(es, e.0, y)),
{
    let p = choose|p: Seq<Cell>| is_path(es.push(e), p, x, y);
    lemma_path_extend(es, e, p, x, y);
}

/// Chains on either side of a new constraint join across it.
pub proof fn lemma_connected_via_edge(es: Seq<(Cell, Cell)>, e: (Cell, Cell), x: Cell, y: Cell)
    requires
        connected(es, x, e.0),
        connected(es, e.1, y),
    ensures
        connected(es.push(e), x, y),
{
    assert(es.is_prefix_of(es.push(e)));
    lemma_connected_mono(es, es.push(e), x, e.0);
    lemma_connected_mono(es, es.push(e), e.1, y);
    assert(es.push(e)[es.len() as int] == e);
    assert(linked(es.push(e), e.0, e.1));
    lemma_linked_connected(es.push(e), e.0, e.1);
    lemma_connected_trans(es.push(e), x, e.0, e.1);
    lemma_connected_trans(es.push(e), x, e.1, y);
}

/// Two distinct connected cells both stand in some copy constraint.
pub proof fn lemma_connected_appears(ccs: Seq<(Cell, Cell)>, x: Cell, y: Cell)
    requires
        connected(ccs, x, y),
        x != y,
    ensures
        appears(ccs, x),
        appears(ccs, y),
{
    let p = choose|p: Seq<Cell>| is_path(ccs, p, x, y);
    assert(p.len() >= 2);
    assert(linked(ccs, p[0], p[1]));
    let i = choose|i: int| 0 <= i < ccs.len() && (ccs[i] == (p[0], p[1]) || ccs[i] == (p[1], p[0]));
    assert(ccs[i].0 == x || ccs[i].1 == x);
    assert(linked(ccs, p[p.len() - 2], p[p.len() - 1]));
    let j = choose|j: int|
        0 <= j < ccs.len() && (ccs[j] == (p[p.len() - 2], p[p.len() - 1]) || ccs[j] == (
            p[p.len() - 1],
            p[p.len() - 2],
        ));
    assert(ccs[j].0 == y || ccs[j].1 == y);
}

} // verus!
