//! The permutation-closure pass of the mock verifier: partitions the cells
//! that stand in copy constraints into equivalence classes by repeated
//! relabelling, then checks that every class is consistent and matches the
//! public input wherever it contains an instance cell.

use vstd::prelude::*;
use crate::connectivity::appears;
use crate::connectivity::connected;
use crate::connectivity::lemma_connected_appears;
use crate::connectivity::lemma_connected_mono;
use crate::connectivity::lemma_connected_push;
use crate::connectivity::lemma_connected_refl;
use crate::connectivity::lemma_connected_sym;
use crate::connectivity::lemma_connected_via_edge;
use crate::error::Violation;
use crate::field::Fp;
use crate::system::Cell;
use crate::system::Column;
use crate::system::ColumnKind;
use crate::system::ConstraintSystemV;
use crate::trace::Trace;
use crate::trace::grid_view;
use crate::verify::cell_known_value;
use crate::verify::cell_value;
use crate::verify::cell_value_exec;
use crate::verify::is_copy_violation;
use crate::verify::lemma_pair_reported_prefix;
use crate::verify::mismatch_violation;
use crate::verify::pair_reported;
use crate::verify::push_new;
use crate::verify::copies_ok;
use crate::verify::values_agree;
use crate::verify::violation_valid;

verus! {

/// One copy-constraint endpoint is already listed.
proof fn lemma_contains_push(s: Seq<Cell>, x: Cell, c: Cell)
    requires
        s.contains(c),
    ensures
        s.push(x).contains(c),
{
    let j = choose|j: int| 0 <= j < s.len() && s[j] == c;
    assert(s.push(x)[j] == c);
}

/// Is the cell among the listed ones?
fn vec_contains(v: &Vec<Cell>, c: Cell) -> (r: bool)
    ensures
        r == v@.contains(c),
{
    let mut i: usize = 0;
    while i < v.len()
        invariant
            i <= v@.len(),
            forall|j: int| 0 <= j < i ==> v@[j] != c,
        decreases v@.len() - i,
    {
        if v[i] == c {
            return true;
        }
        i = i + 1;
    }
    false
}

/// The position of a listed cell.
fn index_of(v: &Vec<Cell>, c: Cell) -> (r: usize)
    requires
        v@.contains(c),
    ensures
        r < v@.len(),
        v@[r as int] == c,
{
    let mut i: usize = 0;
    while i < v.len()
        invariant
            i <= v@.len(),
            forall|j: int| 0 <= j < i ==> v@[j] != c,
            v@.contains(c),
        decreases v@.len() - i,
    {
        if v[i] == c {
            return i;
        }
        i = i + 1;
    }
    proof {
        assert(false);
    }
    0
}

/// Lists each cell that stands in some copy constraint, once.
fn build_nodes(copies: &Vec<(Cell, Cell)>) -> (nodes: Vec<Cell>)
    ensures
        forall|c: Cell| #[trigger] appears(copies@, c) ==> nodes@.contains(c),
        forall|i: int| 0 <= i < nodes@.len() ==> appears(copies@, #[trigger] nodes@[i]),
        forall|m: int, n: int| 0 <= m < n < nodes@.len() ==> nodes@[m] != nodes@[n],
{
    let mut nodes: Vec<Cell> = Vec::new();
    let mut e: usize = 0;
    while e < copies.len()
        invariant
            e <= copies@.len(),
            forall|c: Cell| #[trigger] appears(copies@.take(e as int), c) ==> nodes@.contains(c),
            forall|i: int| 0 <= i < nodes@.len() ==> appears(copies@, #[trigger] nodes@[i]),
            forall|m: int, n: int| 0 <= m < n < nodes@.len() ==> nodes@[m] != nodes@[n],
        decreases copies@.len() - e,
    {
        let pair = copies[e];
        let ghost nodes_pre = nodes@;
        if !vec_contains(&nodes, pair.0) {
            proof {
                assert(copies@[e as int] == pair);
            }
            nodes.push(pair.0);
        }
        let ghost nodes_mid = nodes@;
        if !vec_contains(&nodes, pair.1) {
            proof {
                assert(copies@[e as int] == pair);
            }
            nodes.push(pair.1);
        }
        proof {
            if nodes_mid.contains(pair.1) {
                assert(nodes@.contains(pair.1));
            } else {
                assert(nodes@ == nodes_mid.push(pair.1));
                assert(nodes@[nodes_mid.len() as int] == pair.1);
                assert(nodes@.contains(pair.1));
            }
            if nodes_pre.contains(pair.0) {
                if nodes@ == nodes_mid.push(pair.1) {
                    lemma_contains_push(nodes_mid, pair.1, pair.0);
                } else {
                    assert(nodes@.contains(pair.0));
                }
            } else {
                assert(nodes_mid[nodes_pre.len() as int] == pair.0);
                assert(nodes_mid.contains(pair.0));
                if nodes@ == nodes_mid.push(pair.1) {
                    lemma_contains_push(nodes_mid, pair.1, pair.0);
                } else {
                    assert(nodes@.contains(pair.0));
                }
            }
            assert forall|c: Cell| #[trigger] appears(copies@.take(e as int + 1), c) implies nodes@.contains(
                c,
            ) by {
                let i = choose|i: int|
                    0 <= i < copies@.take(e as int + 1).len() && (((
                    #[trigger] copies@.take(e as int + 1)[i]).0 == c) || copies@.take(
                        e as int + 1,
                    )[i].1 == c);
                if i < e {
                    assert(copies@.take(e as int)[i] == copies@.take(e as int + 1)[i]);
                    assert(appears(copies@.take(e as int), c));
                    assert(nodes_pre.contains(c));
                    if nodes_mid == nodes_pre.push(pair.0) {
                        lemma_contains_push(nodes_pre, pair.0, c);
                    }
                    if nodes@ == nodes_mid.push(pair.1) {
                        lemma_contains_push(nodes_mid, pair.1, c);
                    }
                } else {
                    assert(copies@.take(e as int + 1)[e as int] == pair);
                    assert(c == pair.0 || c == pair.1);
                }
            }
        }
        e = e + 1;
    }
    proof {
        assert(copies@.take(copies@.len() as int) =~= copies@);
    }
    nodes
}

/// The permutation pass: appends one violation for every same-class pair of
/// cells whose known values differ; the class containing an instance cell
/// disagreeing with the public input is reported against that input.
#[verifier::loop_isolation(false)]
pub(crate) fn pass_copies(trace: &Trace, pubs: &Vec<Vec<Fp>>, vs: &mut Vec<Violation>)
    requires
        forall|i: int| 0 <= i < old(vs)@.len() ==> !is_copy_violation(#[trigger] old(vs)@[i]),
        forall|i: int, j: int| 0 <= i < j < old(vs)@.len() ==> old(vs)@[i] != old(vs)@[j],
    ensures
        old(vs)@.is_prefix_of(final(vs)@),
        forall|i: int, csa: ConstraintSystemV|
            old(vs)@.len() <= i < final(vs)@.len() ==> #[trigger] violation_valid(
                csa,
                trace@,
                grid_view(pubs@),
                final(vs)@[i],
            ),
        forall|i: int|
            old(vs)@.len() <= i < final(vs)@.len() ==> is_copy_violation(#[trigger] final(vs)@[i]),
        forall|i: int, j: int| 0 <= i < j < final(vs)@.len() ==> final(vs)@[i] != final(vs)@[j],
        (final(vs)@.len() == old(vs)@.len()) <==> copies_ok(trace@, grid_view(pubs@)),
        forall|x: Cell, y: Cell|
            #[trigger] connected(trace@.copies, x, y) && cell_value(trace@, grid_view(pubs@), x)
                is Some && cell_value(trace@, grid_view(pubs@), y) is Some && cell_value(
                trace@,
                grid_view(pubs@),
                x,
            ) != cell_value(trace@, grid_view(pubs@), y) ==> final(vs)@.contains(
                mismatch_violation(
                    x,
                    y,
                    cell_known_value(trace@, grid_view(pubs@), x),
                    cell_known_value(trace@, grid_view(pubs@), y),
                ),
            ) || final(vs)@.contains(
                mismatch_violation(
                    y,
                    x,
                    cell_known_value(trace@, grid_view(pubs@), y),
                    cell_known_value(trace@, grid_view(pubs@), x),
                ),
            ),
{
    let ghost vs0 = vs@;
    let ghost tv = trace@;
    let ghost pv = grid_view(pubs@);
    let ghost ccs = tv.copies;
    proof {
        assert(ccs == trace.copies@);
    }
    let nodes = build_nodes(&trace.copies);
    let n = nodes.len();
    let mut labels: Vec<usize> = Vec::new();
    let mut i: usize = 0;
    while i < n
        invariant
            i <= n,
            labels@.len() == i,
            forall|j: int| 0 <= j < i ==> labels@[j] == j,
        decreases n - i,
    {
        labels.push(i);
        i = i + 1;
    }
    proof {
        assert forall|m: int, j: int| 0 <= m < n && 0 <= j < n implies ((labels@[m] == labels@[j])
            <==> connected(ccs.take(0), #[trigger] nodes@[m], #[trigger] nodes@[j])) by {
            if labels@[m] == labels@[j] {
                assert(m == j);
                lemma_connected_refl(ccs.take(0), nodes@[m]);
            }
            if connected(ccs.take(0), nodes@[m], nodes@[j]) {
                if nodes@[m] != nodes@[j] {
                    lemma_connected_appears(ccs.take(0), nodes@[m], nodes@[j]);
                    assert(false);
                }
                if m != j {
                    assert(nodes@[m] != nodes@[j]);
                }
            }
        }
    }
    let mut e: usize = 0;
    while e < trace.copies.len()
        invariant
            e <= ccs.len(),
            labels@.len() == nodes@.len(),
            forall|m: int, j: int|
                0 <= m < nodes@.len() && 0 <= j < nodes@.len() ==> ((labels@[m] == labels@[j])
                    <==> connected(ccs.take(e as int), #[trigger] nodes@[m], #[trigger] nodes@[j])),
        decreases ccs.len() - e,
    {
        let pair = trace.copies[e];
        proof {
            assert(ccs[e as int] == pair);
            assert(appears(ccs, pair.0));
            assert(appears(ccs, pair.1));
        }
        let ia = index_of(&nodes, pair.0);
        let ib = index_of(&nodes, pair.1);
        let la = labels[ia];
        let lb = labels[ib];
        let ghost es = ccs.take(e as int);
        let ghost es1 = ccs.take(e as int + 1);
        proof {
            assert(es1 =~= es.push(ccs[e as int]));
            assert(es.is_prefix_of(es1));
        }
        if la != lb {
            let ghost gl = labels@;
            let mut j: usize = 0;
            while j < labels.len()
                invariant
                    labels@.len() == gl.len(),
                    j <= gl.len(),
                    forall|m: int| 0 <= m < j ==> labels@[m] == (if gl[m] == lb {
                        la
                    } else {
                        gl[m]
                    }),
                    forall|m: int| j <= m < gl.len() ==> labels@[m] == gl[m],
                decreases gl.len() - j,
            {
                if labels[j] == lb {
                    labels.set(j, la);
                }
                j = j + 1;
            }
            proof {
                let edge = ccs[e as int];
                assert forall|m: int, jj: int| 0 <= m < nodes@.len() && 0 <= jj < nodes@.len()
                    implies ((labels@[m] == labels@[jj]) <==> connected(
                    es1,
                    #[trigger] nodes@[m],
                    #[trigger] nodes@[jj],
                )) by {
                    let x = nodes@[m];
                    let y = nodes@[jj];
                    if labels@[m] == labels@[jj] {
                        if gl[m] == gl[jj] {
                            assert(connected(es, x, y));
                            lemma_connected_mono(es, es1, x, y);
                        } else if gl[m] == lb {
                            assert(labels@[m] == la && labels@[jj] == gl[jj]);
                            assert(gl[jj] == la);
                            assert(connected(es, x, pair.1));
                            assert(connected(es, y, pair.0));
                            lemma_connected_sym(es, x, pair.1);
                            lemma_connected_via_edge(es, edge, y, x);
                            lemma_connected_sym(es1, y, x);
                        } else {
                            assert(gl[jj] == lb);
                            assert(gl[m] == la);
                            assert(connected(es, y, pair.1));
                            assert(connected(es, x, pair.0));
                            lemma_connected_sym(es, y, pair.1);
                            lemma_connected_via_edge(es, edge, x, y);
                        }
                    }
                    if connected(es1, x, y) {
                        lemma_connected_push(es, edge, x, y);
                        if connected(es, x, y) {
                            assert(gl[m] == gl[jj]);
                        } else if connected(es, x, edge.0) && connected(es, edge.1, y) {
                            assert(gl[m] == gl[ia as int]);
                            lemma_connected_sym(es, edge.1, y);
                            assert(gl[jj] == gl[ib as int]);
                            assert(labels@[m] == la);
                            assert(labels@[jj] == la);
                        } else {
                            assert(connected(es, x, edge.1) && connected(es, edge.0, y));
                            assert(gl[m] == gl[ib as int]);
                            lemma_connected_sym(es, edge.0, y);
                            assert(gl[jj] == gl[ia as int]);
                            assert(labels@[m] == la);
                            assert(labels@[jj] == la);
                        }
                    }
                }
            }
        } else {
            proof {
                let edge = ccs[e as int];
                assert forall|m: int, jj: int| 0 <= m < nodes@.len() && 0 <= jj < nodes@.len()
                    implies ((labels@[m] == labels@[jj]) <==> connected(
                    es1,
                    #[trigger] nodes@[m],
                    #[trigger] nodes@[jj],
                )) by {
                    let x = nodes@[m];
                    let y = nodes@[jj];
                    if labels@[m] == labels@[jj] {
                        assert(connected(es, x, y));
                        lemma_connected_mono(es, es1, x, y);
                    }
                    if connected(es1, x, y) {
                        lemma_connected_push(es, edge, x, y);
                        if connected(es, x, y) {
                        } else if connected(es, x, edge.0) && connected(es, edge.1, y) {
                            assert(labels@[m] == labels@[ia as int]);
                            lemma_connected_sym(es, edge.1, y);
                            assert(labels@[jj] == labels@[ib as int]);
                        } else {
                            assert(connected(es, x, edge.1) && connected(es, edge.0, y));
                            assert(labels@[m] == labels@[ib as int]);
                            lemma_connected_sym(es, edge.0, y);
                            assert(labels@[jj] == labels@[ia as int]);
                        }
                    }
                }
            }
        }
        e = e + 1;
    }
    proof {
        assert(ccs.take(ccs.len() as int) =~= ccs);
    }
    let mut m: usize = 0;
    while m < n
        invariant
            m <= n,
            vs0.is_prefix_of(vs@),
            forall|i: int, csa: ConstraintSystemV|
                vs0.len() <= i < vs@.len() ==> #[trigger] violation_valid(csa, tv, pv, vs@[i]),
            forall|i: int| vs0.len() <= i < vs@.len() ==> is_copy_violation(#[trigger] vs@[i]),
            forall|i: int, j: int| 0 <= i < j < vs@.len() ==> vs@[i] != vs@[j],
            vs@.len() > vs0.len() ==> !copies_ok(tv, pv),
            (vs@.len() == vs0.len()) ==> (forall|a: int, b: int|
                0 <= a < m && a < b < n && labels@[a] == labels@[b] ==> values_agree(
                    cell_value(tv, pv, #[trigger] nodes@[a]),
                    cell_value(tv, pv, #[trigger] nodes@[b]),
                )),
            forall|a: int, b: int|
                0 <= a < m && a < b < n && labels@[a] == labels@[b] ==> #[trigger] pair_reported(
                    tv,
                    pv,
                    vs@,
                    nodes@[a],
                    nodes@[b],
                ),
        decreases n - m,
    {
        let vm = cell_value_exec(trace, pubs, nodes[m]);
        let mut j: usize = m + 1;
        while j < n
            invariant
                m < n,
                m < j,
                j <= n,
                vm == cell_value(tv, pv, nodes@[m as int]),
                vs0.is_prefix_of(vs@),
                forall|i: int, csa: ConstraintSystemV|
                    vs0.len() <= i < vs@.len() ==> #[trigger] violation_valid(csa, tv, pv, vs@[i]),
                forall|i: int| vs0.len() <= i < vs@.len() ==> is_copy_violation(#[trigger] vs@[i]),
                forall|i: int, j2: int| 0 <= i < j2 < vs@.len() ==> vs@[i] != vs@[j2],
                vs@.len() > vs0.len() ==> !copies_ok(tv, pv),
                (vs@.len() == vs0.len()) ==> (forall|a: int, b: int|
                    0 <= a < m && a < b < n && labels@[a] == labels@[b] ==> values_agree(
                        cell_value(tv, pv, #[trigger] nodes@[a]),
                        cell_value(tv, pv, #[trigger] nodes@[b]),
                    )),
                (vs@.len() == vs0.len()) ==> (forall|b: int|
                    m < b < j && labels@[m as int] == labels@[b] ==> values_agree(
                        cell_value(tv, pv, nodes@[m as int]),
                        cell_value(tv, pv, #[trigger] nodes@[b]),
                    )),
                forall|a: int, b: int|
                    0 <= a < m && a < b < n && labels@[a] == labels@[b] ==> #[trigger] pair_reported(
                        tv,
                        pv,
                        vs@,
                        nodes@[a],
                        nodes@[b],
                    ),
                forall|b: int|
                    m < b < j && labels@[m as int] == labels@[b] ==> #[trigger] pair_reported(
                        tv,
                        pv,
                        vs@,
                        nodes@[m as int],
                        nodes@[b],
                    ),
            decreases n - j,
        {
            if labels[m] == labels[j] {
                proof {
                    assert(connected(ccs, nodes@[m as int], nodes@[j as int]));
                }
                let vj = cell_value_exec(trace, pubs, nodes[j]);
                match (vm, vj) {
                    (Some(x), Some(y)) => {
                        if x != y {
                            let cm = nodes[m];
                            let cj = nodes[j];
                            proof {
                                assert(!copies_ok(tv, pv)) by {
                                    if copies_ok(tv, pv) {
                                        assert(values_agree(
                                            cell_value(tv, pv, cm),
                                            cell_value(tv, pv, cj),
                                        ));
                                    }
                                }
                            }
                            proof {
                                lemma_connected_sym(ccs, cm, cj);
                            }
                            let viol = if cm.column.kind == ColumnKind::Instance {
                                Violation::PublicInputMismatch {
                                    column: cm.column.index,
                                    row: cm.row,
                                    expected: x,
                                    actual: y,
                                }
                            } else if cj.column.kind == ColumnKind::Instance {
                                Violation::PublicInputMismatch {
                                    column: cj.column.index,
                                    row: cj.row,
                                    expected: y,
                                    actual: x,
                                }
                            } else {
                                Violation::PermutationMismatch { a: cm, b: cj, left: x, right: y }
                            };
                            proof {
                                if cm.column.kind == ColumnKind::Instance {
                                    assert((Cell {
                                        column: Column {
                                            kind: ColumnKind::Instance,
                                            index: cm.column.index,
                                        },
                                        row: cm.row,
                                    }) == cm);
                                } else if cj.column.kind == ColumnKind::Instance {
                                    assert((Cell {
                                        column: Column {
                                            kind: ColumnKind::Instance,
                                            index: cj.column.index,
                                        },
                                        row: cj.row,
                                    }) == cj);
                                }
                                assert(forall|csa: ConstraintSystemV|
                                    violation_valid(csa, tv, pv, viol));
                                assert(viol == mismatch_violation(cm, cj, x, y));
                                assert(is_copy_violation(viol));
                            }
                            let ghost vs_pre = vs@;
                            push_new(vs, viol);
                            proof {
                                assert(forall|i: int|
                                    0 <= i < vs_pre.len() ==> vs@[i] == vs_pre[i]);
                                assert(forall|i: int| 0 <= i < vs0.len() ==> vs@[i] == vs0[i]);
                                assert forall|i: int, csa: ConstraintSystemV|
                                    vs0.len() <= i < vs@.len() implies #[trigger] violation_valid(
                                    csa,
                                    tv,
                                    pv,
                                    vs@[i],
                                ) by {
                                    if i < vs_pre.len() {
                                        assert(vs@[i] == vs_pre[i]);
                                        assert(violation_valid(csa, tv, pv, vs_pre[i]));
                                    } else {
                                        assert(vs@[i] == viol);
                                    }
                                }
                                assert forall|i: int|
                                    vs0.len() <= i < vs@.len() implies is_copy_violation(
                                    #[trigger] vs@[i],
                                ) by {
                                    if i < vs_pre.len() {
                                        assert(vs@[i] == vs_pre[i]);
                                    } else {
                                        assert(vs@[i] == viol);
                                    }
                                }
                                let idx = choose|idx: int| 0 <= idx < vs@.len() && vs@[idx] == viol;
                                assert(idx >= vs0.len()) by {
                                    if 0 <= idx < vs0.len() {
                                        assert(vs@[idx] == vs0[idx]);
                                        assert(!is_copy_violation(vs0[idx]));
                                    }
                                }
                                assert(vs@.len() > vs0.len());
                                assert(cell_known_value(tv, pv, cm) == x);
                                assert(cell_known_value(tv, pv, cj) == y);
                                assert(vs@.contains(mismatch_violation(cm, cj, x, y)));
                                assert(pair_reported(tv, pv, vs@, cm, cj));
                                assert forall|a: int, b: int|
                                    0 <= a < m && a < b < n && labels@[a] == labels@[b]
                                        implies #[trigger] pair_reported(
                                    tv,
                                    pv,
                                    vs@,
                                    nodes@[a],
                                    nodes@[b],
                                ) by {
                                    lemma_pair_reported_prefix(tv, pv, vs_pre, vs@, nodes@[a], nodes@[b]);
                                }
                                assert forall|b: int|
                                    m < b < j && labels@[m as int] == labels@[b]
                                        implies #[trigger] pair_reported(
                                    tv,
                                    pv,
                                    vs@,
                                    nodes@[m as int],
                                    nodes@[b],
                                ) by {
                                    lemma_pair_reported_prefix(
                                        tv,
                                        pv,
                                        vs_pre,
                                        vs@,
                                        nodes@[m as int],
                                        nodes@[b],
                                    );
                                }
                            }
                        }
                    },
                    _ => {},
                }
            }
            j = j + 1;
        }
        m = m + 1;
    }
    proof {
        if vs@.len() == vs0.len() {
            assert forall|x: Cell, y: Cell| #[trigger] connected(ccs, x, y) implies values_agree(
                cell_value(tv, pv, x),
                cell_value(tv, pv, y),
            ) by {
                if x != y {
                    lemma_connected_appears(ccs, x, y);
                    assert(nodes@.contains(x));
                    assert(nodes@.contains(y));
                    let im = choose|i: int| 0 <= i < nodes@.len() && nodes@[i] == x;
                    let jm = choose|i: int| 0 <= i < nodes@.len() && nodes@[i] == y;
                    assert(labels@[im] == labels@[jm]);
                    assert(im != jm);
                    if im < jm {
                        assert(values_agree(cell_value(tv, pv, nodes@[im]), cell_value(tv, pv, nodes@[jm])));
                    } else {
                        assert(values_agree(cell_value(tv, pv, nodes@[jm]), cell_value(tv, pv, nodes@[im])));
                    }
                }
            }
            assert(copies_ok(tv, pv));
        }
        assert forall|x: Cell, y: Cell|
            #[trigger] connected(ccs, x, y) && cell_value(tv, pv, x) is Some && cell_value(
                tv,
                pv,
                y,
            ) is Some && cell_value(tv, pv, x) != cell_value(tv, pv, y) implies vs@.contains(
            mismatch_violation(x, y, cell_known_value(tv, pv, x), cell_known_value(tv, pv, y)),
        ) || vs@.contains(
            mismatch_violation(y, x, cell_known_value(tv, pv, y), cell_known_value(tv, pv, x)),
        ) by {
            assert(x != y);
            lemma_connected_appears(ccs, x, y);
            assert(nodes@.contains(x));
            assert(nodes@.contains(y));
            let im = choose|i: int| 0 <= i < nodes@.len() && nodes@[i] == x;
            let jm = choose|i: int| 0 <= i < nodes@.len() && nodes@[i] == y;
            assert(labels@[im] == labels@[jm]);
            assert(im != jm);
            if im < jm {
                assert(pair_reported(tv, pv, vs@, nodes@[im], nodes@[jm]));
            } else {
                assert(pair_reported(tv, pv, vs@, nodes@[jm], nodes@[im]));
            }
        }
    }
}

} // verus!
