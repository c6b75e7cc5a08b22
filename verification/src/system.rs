//! The static circuit shape: columns, selectors, gate expressions, and the
//! constraint system that registers them during configuration.

use vstd::prelude::*;
use crate::field::Fp;

verus! {

/// The three column kinds of the table.
#[derive(Clone, Copy, Debug, PartialEq, Eq, Structural)]
pub enum ColumnKind {
    /// Per-instance witness values, assigned during synthesis.
    Advice,
    /// Values fixed by the circuit shape, such as constants.
    Fixed,
    /// The public input, supplied externally.
    Instance,
}

/// A column, identified by its kind and its index within that kind.
#[derive(Clone, Copy, Debug, PartialEq, Eq, Structural)]
pub struct Column {
    pub kind: ColumnKind,
    pub index: usize,
}

/// A per-row boolean switch gating whether a gate is enforced on a row.
#[derive(Clone, Copy, Debug, PartialEq, Eq, Structural)]
pub struct Selector {
    pub index: usize,
}

/// The fundamental addressable unit: a column at an absolute row.
#[derive(Clone, Copy, Debug, PartialEq, Eq, Structural)]
pub struct Cell {
    pub column: Column,
    pub row: usize,
}

/// A row offset applied relative to the row at which a gate is evaluated.
/// Offsets wrap around the table cyclically.
#[derive(Clone, Copy, Debug, PartialEq, Eq, Structural)]
pub struct Rotation {
    pub offset: i64,
}

impl Rotation {
    /// The current row.
    pub fn cur() -> (r: Rotation)
        ensures
            r == (Rotation { offset: 0i64 }),
    {
        Rotation { offset: 0 }
    }

    /// The next row.
    pub fn next() -> (r: Rotation)
        ensures
            r == (Rotation { offset: 1i64 }),
    {
        Rotation { offset: 1 }
    }

    /// An arbitrary relative offset.
    pub fn at(offset: i64) -> (r: Rotation)
        ensures
            r == (Rotation { offset: offset }),
    {
        Rotation { offset }
    }
}

/// A polynomial over cells at relative rotations.  Wherever its selector
/// is switched on, a gate demands that each of its polynomials evaluate to
/// the additive identity.
#[derive(Debug)]
pub enum Expression {
    /// A constant field element.
    Constant(Fp),
    /// The value of a column at a rotation relative to the evaluation row.
    Query(Column, Rotation),
    /// The sum of two polynomials.
    Sum(Box<Expression>, Box<Expression>),
    /// The product of two polynomials.
    Product(Box<Expression>, Box<Expression>),
    /// The additive inverse of a polynomial.
    Negated(Box<Expression>),
}

impl Expression {
    /// Every constant embedded in the polynomial is a reduced field element.
    pub open spec fn wf(self) -> bool
        decreases self,
    {
        match self {
            Expression::Constant(f) => f.wf(),
            Expression::Query(_, _) => true,
            Expression::Sum(a, b) => a.wf() && b.wf(),
            Expression::Product(a, b) => a.wf() && b.wf(),
            Expression::Negated(a) => a.wf(),
        }
    }

    /// Builds the sum of two polynomials.
    pub fn sum(a: Expression, b: Expression) -> (r: Expression)
        ensures
            r == Expression::Sum(Box::new(a), Box::new(b)),
    {
        Expression::Sum(Box::new(a), Box::new(b))
    }

    /// Builds the product of two polynomials.
    pub fn product(a: Expression, b: Expression) -> (r: Expression)
        ensures
            r == Expression::Product(Box::new(a), Box::new(b)),
    {
        Expression::Product(Box::new(a), Box::new(b))
    }

    /// Builds the additive inverse of a polynomial.
    pub fn negated(a: Expression) -> (r: Expression)
        ensures
            r == Expression::Negated(Box::new(a)),
    {
        Expression::Negated(Box::new(a))
    }

    /// Builds the difference `a - b`.
    pub fn difference(a: Expression, b: Expression) -> (r: Expression)
        ensures
            r == Expression::Sum(Box::new(a), Box::new(Expression::Negated(Box::new(b)))),
    {
        Expression::Sum(Box::new(a), Box::new(Expression::Negated(Box::new(b))))
    }
}

/// A named gate: one selector and the polynomials it gates.
#[derive(Debug)]
pub struct Gate {
    pub name: String,
    pub selector: Selector,
    pub polys: Vec<Expression>,
}

/// The spec-level value of a gate.
pub ghost struct GateV {
    pub name: Seq<char>,
    pub selector: Selector,
    pub polys: Seq<Expression>,
}

impl View for Gate {
    type V = GateV;

    open spec fn view(&self) -> GateV {
        GateV { name: self.name@, selector: self.selector, polys: self.polys@ }
    }
}

/// The spec-level value of a constraint system.
pub ghost struct ConstraintSystemV {
    /// One flag per advice column: is the column equality-enabled?
    pub eq_advice: Seq<bool>,
    /// One flag per fixed column.
    pub eq_fixed: Seq<bool>,
    /// One flag per instance column.
    pub eq_instance: Seq<bool>,
    /// How many selectors have been allocated.
    pub num_selectors: nat,
    /// Fixed columns enabled for global constant assignment, in order.
    pub constants: Seq<Column>,
    /// The registered gates, in order.
    pub gates: Seq<GateV>,
}

impl ConstraintSystemV {
    pub open spec fn num_advice(self) -> nat {
        self.eq_advice.len()
    }

    pub open spec fn num_fixed(self) -> nat {
        self.eq_fixed.len()
    }

    pub open spec fn num_instance(self) -> nat {
        self.eq_instance.len()
    }

    /// Is the column allocated in this system?
    pub open spec fn col_valid(self, c: Column) -> bool {
        match c.kind {
            ColumnKind::Advice => c.index < self.eq_advice.len(),
            ColumnKind::Fixed => c.index < self.eq_fixed.len(),
            ColumnKind::Instance => c.index < self.eq_instance.len(),
        }
    }

    /// Is the column marked as a legal endpoint of a copy constraint?
    pub open spec fn eq_enabled(self, c: Column) -> bool {
        match c.kind {
            ColumnKind::Advice => c.index < self.eq_advice.len() && self.eq_advice[c.index as int],
            ColumnKind::Fixed => c.index < self.eq_fixed.len() && self.eq_fixed[c.index as int],
            ColumnKind::Instance => c.index < self.eq_instance.len() && self.eq_instance[
                c.index as int
            ],
        }
    }

    pub open spec fn gate_wf(self, g: GateV) -> bool {
        &&& g.selector.index < self.num_selectors
        &&& forall|p: int| 0 <= p < g.polys.len() ==> (#[trigger] g.polys[p]).wf()
    }

    pub open spec fn wf(self) -> bool {
        &&& forall|i: int| 0 <= i < self.gates.len() ==> self.gate_wf(#[trigger] self.gates[i])
        &&& forall|i: int|
            0 <= i < self.constants.len() ==> (#[trigger] self.constants[i]).kind
                == ColumnKind::Fixed && self.eq_enabled(self.constants[i])
    }
}

/// The registry built once during configuration: columns, selectors, gates
/// and copy-constraint legality.  It is immutable once synthesis begins.
#[derive(Debug)]
pub struct ConstraintSystem {
    pub eq_advice: Vec<bool>,
    pub eq_fixed: Vec<bool>,
    pub eq_instance: Vec<bool>,
    pub num_selectors: usize,
    pub constants: Vec<Column>,
    pub gates: Vec<Gate>,
}

impl View for ConstraintSystem {
    type V = ConstraintSystemV;

    open spec fn view(&self) -> ConstraintSystemV {
        ConstraintSystemV {
            eq_advice: self.eq_advice@,
            eq_fixed: self.eq_fixed@,
            eq_instance: self.eq_instance@,
            num_selectors: self.num_selectors as nat,
            constants: self.constants@,
            gates: self.gates@.map_values(|g: Gate| g@),
        }
    }
}

impl ConstraintSystem {
    /// An empty system: no columns, no selectors, no gates.
    pub fn new() -> (r: ConstraintSystem)
        ensures
            r@ == (ConstraintSystemV {
                eq_advice: Seq::<bool>::empty(),
                eq_fixed: Seq::<bool>::empty(),
                eq_instance: Seq::<bool>::empty(),
                num_selectors: 0nat,
                constants: Seq::<Column>::empty(),
                gates: Seq::<GateV>::empty(),
            }),
            r@.wf(),
    {
        let r = ConstraintSystem {
            eq_advice: Vec::new(),
            eq_fixed: Vec::new(),
            eq_instance: Vec::new(),
            num_selectors: 0,
            constants: Vec::new(),
            gates: Vec::new(),
        };
        proof {
            assert(r@.eq_advice =~= Seq::<bool>::empty());
            assert(r@.eq_fixed =~= Seq::<bool>::empty());
            assert(r@.eq_instance =~= Seq::<bool>::empty());
            assert(r@.constants =~= Seq::<Column>::empty());
            assert(r@.gates =~= Seq::<GateV>::empty());
        }
        r
    }

    /// Allocates a fresh advice column, with a monotonically increasing index.
    pub fn advice_column(&mut self) -> (c: Column)
        requires
            old(self)@.num_advice() < usize::MAX,
        ensures
            c == (Column { kind: ColumnKind::Advice, index: old(self).eq_advice.len() }),
            final(self)@ == (ConstraintSystemV {
                eq_advice: old(self)@.eq_advice.push(false),
                ..old(self)@
            }),
    {
        let index = self.eq_advice.len();
        self.eq_advice.push(false);
        Column { kind: ColumnKind::Advice, index }
    }

    /// Allocates a fresh fixed column.
    pub fn fixed_column(&mut self) -> (c: Column)
        requires
            old(self)@.num_fixed() < usize::MAX,
        ensures
            c == (Column { kind: ColumnKind::Fixed, index: old(self).eq_fixed.len() }),
            final(self)@ == (ConstraintSystemV {
                eq_fixed: old(self)@.eq_fixed.push(false),
                ..old(self)@
            }),
    {
        let index = self.eq_fixed.len();
        self.eq_fixed.push(false);
        Column { kind: ColumnKind::Fixed, index }
    }

    /// Allocates a fresh instance column.
    pub fn instance_column(&mut self) -> (c: Column)
        requires
            old(self)@.num_instance() < usize::MAX,
        ensures
            c == (Column { kind: ColumnKind::Instance, index: old(self).eq_instance.len() }),
            final(self)@ == (ConstraintSystemV {
                eq_instance: old(self)@.eq_instance.push(false),
                ..old(self)@
            }),
    {
        let index = self.eq_instance.len();
        self.eq_instance.push(false);
        Column { kind: ColumnKind::Instance, index }
    }

    /// Allocates a fresh selector.
    pub fn selector(&mut self) -> (s: Selector)
        requires
            old(self)@.num_selectors < usize::MAX,
        ensures
            s == (Selector { index: old(self).num_selectors }),
            final(self)@ == (ConstraintSystemV {
                num_selectors: old(self)@.num_selectors + 1,
                ..old(self)@
            }),
    {
        let index = self.num_selectors;
        self.num_selectors = self.num_selectors + 1;
        Selector { index }
    }

    /// Marks a column as a legal endpoint of copy constraints.
    pub fn enable_equality(&mut self, column: Column)
        requires
            old(self)@.col_valid(column),
        ensures
            final(self)@ == (match column.kind {
                ColumnKind::Advice => ConstraintSystemV {
                    eq_advice: old(self)@.eq_advice.update(column.index as int, true),
                    ..old(self)@
                },
                ColumnKind::Fixed => ConstraintSystemV {
                    eq_fixed: old(self)@.eq_fixed.update(column.index as int, true),
                    ..old(self)@
                },
                ColumnKind::Instance => ConstraintSystemV {
                    eq_instance: old(self)@.eq_instance.update(column.index as int, true),
                    ..old(self)@
                },
            }),
            final(self)@.eq_enabled(column),
    {
        match column.kind {
            ColumnKind::Advice => self.eq_advice.set(column.index, true),
            ColumnKind::Fixed => self.eq_fixed.set(column.index, true),
            ColumnKind::Instance => self.eq_instance.set(column.index, true),
        }
    }

    /// Enables a fixed column for global constant assignment; such a column
    /// is also equality-enabled, since a constant binds through a copy
    /// constraint.
    pub fn enable_constant(&mut self, column: Column)
        requires
            old(self)@.col_valid(column),
            column.kind == ColumnKind::Fixed,
            old(self)@.constants.len() < usize::MAX,
        ensures
            final(self)@ == (ConstraintSystemV {
                eq_fixed: old(self)@.eq_fixed.update(column.index as int, true),
                constants: old(self)@.constants.push(column),
                ..old(self)@
            }),
    {
        self.eq_fixed.set(column.index, true);
        self.constants.push(column);
    }

    /// Registers a gate: each polynomial must vanish on every row where the
    /// selector is enabled; on other rows the polynomials are unconstrained.
    pub fn create_gate(&mut self, name: &str, selector: Selector, polys: Vec<Expression>)
        requires
            selector.index < old(self)@.num_selectors,
            forall|p: int| 0 <= p < polys@.len() ==> (#[trigger] polys@[p]).wf(),
            old(self)@.gates.len() < usize::MAX,
        ensures
            final(self)@ == (ConstraintSystemV {
                gates: old(self)@.gates.push(
                    GateV { name: name@, selector: selector, polys: polys@ },
                ),
                ..old(self)@
            }),
    {
        let name_owned: String = name.to_string();
        proof {
            vstd::string::to_string_from_display_ensures_for_str(name, name_owned);
        }
        let g = Gate { name: name_owned, selector, polys };
        self.gates.push(g);
        proof {
            assert(self@.gates =~= old(self)@.gates.push(
                GateV { name: name@, selector: selector, polys: polys@ },
            ));
        }
    }
}

} // verus!
