//! The abstract syntax tree of generated expressions.
//!
//! A tree is a closed set of node variants: terminals (coordinates, time,
//! a constant) and compounds that own one or two children. The constant
//! payload is held in thousandths, so a payload of 300 stands for the
//! value 0.3; generation keeps it within [-1000, 1000].

use vstd::prelude::*;

verus! {

/// The two children of a binary operator node.
#[derive(Debug, PartialEq)]
pub struct NodeBinop {
    pub lhs: Box<NodeKind>,
    pub rhs: Box<NodeKind>,
}

/// The single child of a unary operator node.
#[derive(Debug, PartialEq)]
pub struct NodeUnop {
    pub value: Box<NodeKind>,
}

/// One expression-tree node: a terminal leaf or an operator with children.
#[derive(Debug, PartialEq)]
pub enum NodeKind {
    X,
    Y,
    Z,
    /// A constant, in thousandths of its value.
    Random(i32),
    Add(NodeBinop),
    Mult(NodeBinop),
    Sqrt(NodeUnop),
    Abs(NodeUnop),
    Sin(NodeUnop),
    Mod(NodeBinop),
    Gt(NodeBinop),
    Time,
}

impl NodeKind {
    /// Whether this node is a leaf: no children.
    pub open spec fn is_terminal(self) -> bool {
        match self {
            NodeKind::X | NodeKind::Y | NodeKind::Z | NodeKind::Random(_) | NodeKind::Time => true,
            _ => false,
        }
    }

    /// The maximum nesting depth of the tree: 0 for a leaf, one more than
    /// the deepest child for an operator node.
    pub open spec fn depth(self) -> nat
        decreases self,
    {
        match self {
            NodeKind::X | NodeKind::Y | NodeKind::Z | NodeKind::Random(_) | NodeKind::Time => 0,
            NodeKind::Add(b) | NodeKind::Mult(b) | NodeKind::Mod(b) | NodeKind::Gt(b) => {
                1 + if b.lhs.depth() >= b.rhs.depth() {
                    b.lhs.depth()
                } else {
                    b.rhs.depth()
                }
            },
            NodeKind::Sqrt(u) | NodeKind::Abs(u) | NodeKind::Sin(u) => 1 + u.value.depth(),
        }
    }

    /// Whether every constant payload in the tree lies within one unit of
    /// magnitude, that is within [-1000, 1000] thousandths.
    pub open spec fn constants_in_range(self) -> bool
        decreases self,
    {
        match self {
            NodeKind::X | NodeKind::Y | NodeKind::Z | NodeKind::Time => true,
            NodeKind::Random(m) => -1000 <= m <= 1000,
            NodeKind::Add(b) | NodeKind::Mult(b) | NodeKind::Mod(b) | NodeKind::Gt(b) => {
                b.lhs.constants_in_range() && b.rhs.constants_in_range()
            },
            NodeKind::Sqrt(u) | NodeKind::Abs(u) | NodeKind::Sin(u) => {
                u.value.constants_in_range()
            },
        }
    }
}

} // verus!
