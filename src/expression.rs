//! Operator kinds of the untyped expression tree.
use vstd::prelude::*;

verus! {

#[derive(Clone, Copy, Debug, PartialEq, Eq, Structural)]
pub enum BuiltinProperty {
    SizeOfType,
    IsRefType,
}

/// Operators that evaluate their right side only when needed.
#[derive(Clone, Copy, Debug, PartialEq, Eq, Structural, Hash)]
pub enum LazyOp {
    And,
    Or,
}

/// Binary operators as the parser reads them.
#[derive(Clone, Copy, Debug, PartialEq, Eq, Structural)]
pub enum OpVariant {
    Add,
    Subtract,
    Divide,
    Multiply,
    Modulo,
    Or,
    And,
    Equals,
    NotEquals,
    Xor,
    BinaryOr,
    BinaryAnd,
    GreaterThan,
    LessThan,
    GreaterThanOrEqualTo,
    LessThanOrEqualTo,
}

impl LazyOp {
    /// The lazy operator for `&&` or `||`; no other operator is lazy.
    pub fn from(op_variant: OpVariant) -> (r: LazyOp)
        requires
            op_variant == OpVariant::And || op_variant == OpVariant::Or,
        ensures
            op_variant == OpVariant::And ==> r == LazyOp::And,
            op_variant == OpVariant::Or ==> r == LazyOp::Or,
    {
        match op_variant {
            OpVariant::And => LazyOp::And,
            _ => LazyOp::Or,
        }
    }
}

} // verus!
