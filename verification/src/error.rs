//! The single error of the evaluator: a malformed expression, together with
//! the specific way the input was malformed.

use vstd::prelude::*;
use vstd::string::StringExecFns;

verus! {

/// The specific failure behind a malformed expression.
#[derive(Debug, Clone, Copy, PartialEq, Eq, Structural)]
pub enum Reason {
    /// An operator was reached while fewer than two operands were on the stack.
    Underflow,
    /// The scan ended with an empty stack, so there is no result.
    NoResult,
    /// The scan ended with more than one operand left on the stack.
    Leftover,
}

/// The evaluator's error: the expression is malformed, for the carried reason.
#[derive(Debug, Clone, Copy, PartialEq, Eq, Structural)]
pub enum RpnError {
    MalformedExpression(Reason),
}

impl RpnError {
    /// A human-readable description of the failure.
    pub fn message(&self) -> (r: String)
        ensures
            *self == RpnError::MalformedExpression(Reason::Underflow) ==> r@
                == "malformed expression: operator found fewer than two operands"@,
            *self == RpnError::MalformedExpression(Reason::NoResult) ==> r@
                == "malformed expression: no operands remain"@,
            *self == RpnError::MalformedExpression(Reason::Leftover) ==> r@
                == "malformed expression: more than one operand remains"@,
    {
        match self {
            RpnError::MalformedExpression(Reason::Underflow) => String::from_str(
                "malformed expression: operator found fewer than two operands",
            ),
            RpnError::MalformedExpression(Reason::NoResult) => String::from_str(
                "malformed expression: no operands remain",
            ),
            RpnError::MalformedExpression(Reason::Leftover) => String::from_str(
                "malformed expression: more than one operand remains",
            ),
        }
    }
}

} // verus!
