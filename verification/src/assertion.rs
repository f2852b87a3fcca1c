//! Diagnostic rendering for failed unit tests that were recognized as a
//! binary comparison: given the rendered evaluations of the two sides, the
//! message follows a fixed table keyed by the operator and the test's
//! polarity.

use vstd::prelude::*;

verus! {

/// A binary operator of the surface language, as far as test hints name
/// one. Only the boolean and comparison operators render a message; the
/// arithmetic ones are unsupported there.
#[derive(Debug, Clone, Copy, PartialEq, Eq, Structural)]
pub enum BinaryOp {
    And,
    Or,
    Eq,
    NotEq,
    LtInt,
    LtEqInt,
    GtEqInt,
    GtInt,
    AddInt,
    SubInt,
    MultInt,
    DivInt,
    ModInt,
}

/// The rendered message for a failed comparison, or `None` for an operator
/// the table does not support.
pub open spec fn message_of(
    bin_op: BinaryOp,
    can_error: bool,
    left: Seq<char>,
    right: Seq<char>,
) -> Option<Seq<char>> {
    if can_error {
        match bin_op {
            BinaryOp::And => Some(left + "\n\nand\n\n"@ + right + "\n\nare both true but shouldn't."@),
            BinaryOp::Or => Some("neither\n\n"@ + left + "\n\nnor\n\n"@ + right + "\n\nshould be true."@),
            BinaryOp::Eq => Some(left + "\n\nshould not be equal to\n\n"@ + right),
            BinaryOp::NotEq => Some(left + "\n\nshould be equal to\n\n"@ + right),
            BinaryOp::LtInt => Some(left + "\n\nshould be greater than or equal to\n\n"@ + right),
            BinaryOp::LtEqInt => Some(left + "\n\nshould be greater than\n\n"@ + right),
            BinaryOp::GtEqInt => Some(left + "\n\nshould be lower than or equal\n\n"@ + right),
            BinaryOp::GtInt => Some(left + "\n\nshould be lower than\n\n"@ + right),
            _ => None,
        }
    } else {
        match bin_op {
            BinaryOp::And => Some(left + "\n\nand\n\n"@ + right + "\n\nshould both be true."@),
            BinaryOp::Or => Some(left + "\n\nor\n\n"@ + right + "\n\nshould be true."@),
            BinaryOp::Eq => Some(left + "\n\nshould be equal to\n\n"@ + right),
            BinaryOp::NotEq => Some(left + "\n\nshould not be equal to\n\n"@ + right),
            BinaryOp::LtInt => Some(left + "\n\nshould be lower than\n\n"@ + right),
            BinaryOp::LtEqInt => Some(left + "\n\nshould be lower than or equal to\n\n"@ + right),
            BinaryOp::GtEqInt => Some(left + "\n\nshould be greater than\n\n"@ + right),
            BinaryOp::GtInt => Some(left + "\n\nshould be greater than or equal to\n\n"@ + right),
            _ => None,
        }
    }
}

/// A test hint: the comparison a failing unit test was built from, with
/// the boxed renderings of its two sides' independent evaluations.
#[derive(Debug, Clone)]
pub struct Assertion {
    pub bin_op: BinaryOp,
    pub left: String,
    pub right: String,
    pub can_error: bool,
}

impl Assertion {
    /// Render the diagnostic message, exactly as [`message_of`] fixes it.
    pub fn message(&self) -> (r: Option<String>)
        ensures
            r is Some <==> message_of(self.bin_op, self.can_error, self.left@, self.right@)
                is Some,
            r matches Some(m) ==> message_of(self.bin_op, self.can_error, self.left@, self.right@)
                == Some(m@),
    {
        let mut out = String::new();
        if self.can_error {
            match self.bin_op {
                BinaryOp::And => {
                    out.append(self.left.as_str());
                    out.append("\n\nand\n\n");
                    out.append(self.right.as_str());
                    out.append("\n\nare both true but shouldn't.");
                },
                BinaryOp::Or => {
                    out.append("neither\n\n");
                    out.append(self.left.as_str());
                    out.append("\n\nnor\n\n");
                    out.append(self.right.as_str());
                    out.append("\n\nshould be true.");
                },
                BinaryOp::Eq => {
                    out.append(self.left.as_str());
                    out.append("\n\nshould not be equal to\n\n");
                    out.append(self.right.as_str());
                },
                BinaryOp::NotEq => {
                    out.append(self.left.as_str());
                    out.append("\n\nshould be equal to\n\n");
                    out.append(self.right.as_str());
                },
                BinaryOp::LtInt => {
                    out.append(self.left.as_str());
                    out.append("\n\nshould be greater than or equal to\n\n");
                    out.append(self.right.as_str());
                },
                BinaryOp::LtEqInt => {
                    out.append(self.left.as_str());
                    out.append("\n\nshould be greater than\n\n");
                    out.append(self.right.as_str());
                },
                BinaryOp::GtEqInt => {
                    out.append(self.left.as_str());
                    out.append("\n\nshould be lower than or equal\n\n");
                    out.append(self.right.as_str());
                },
                BinaryOp::GtInt => {
                    out.append(self.left.as_str());
                    out.append("\n\nshould be lower than\n\n");
                    out.append(self.right.as_str());
                },
                _ => {
                    return None;
                },
            }
        } else {
            match self.bin_op {
                BinaryOp::And => {
                    out.append(self.left.as_str());
                    out.append("\n\nand\n\n");
                    out.append(self.right.as_str());
                    out.append("\n\nshould both be true.");
                },
                BinaryOp::Or => {
                    out.append(self.left.as_str());
                    out.append("\n\nor\n\n");
                    out.append(self.right.as_str());
                    out.append("\n\nshould be true.");
                },
                BinaryOp::Eq => {
                    out.append(self.left.as_str());
                    out.append("\n\nshould be equal to\n\n");
                    out.append(self.right.as_str());
                },
                BinaryOp::NotEq => {
                    out.append(self.left.as_str());
                    out.append("\n\nshould not be equal to\n\n");
                    out.append(self.right.as_str());
                },
                BinaryOp::LtInt => {
                    out.append(self.left.as_str());
                    out.append("\n\nshould be lower than\n\n");
                    out.append(self.right.as_str());
                },
                BinaryOp::LtEqInt => {
                    out.append(self.left.as_str());
                    out.append("\n\nshould be lower than or equal to\n\n");
                    out.append(self.right.as_str());
                },
                BinaryOp::GtEqInt => {
                    out.append(self.left.as_str());
                    out.append("\n\nshould be greater than\n\n");
                    out.append(self.right.as_str());
                },
                BinaryOp::GtInt => {
                    out.append(self.left.as_str());
                    out.append("\n\nshould be greater than or equal to\n\n");
                    out.append(self.right.as_str());
                },
                _ => {
                    return None;
                },
            }
        }
        Some(out)
    }
}

} // verus!
