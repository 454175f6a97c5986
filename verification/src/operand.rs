//! The symbolic operands the evaluator's stack holds, and the specification of
//! running a token sequence against such a stack.

use vstd::prelude::*;

use crate::error::Reason;
use crate::token::{tokens_from, Token};

verus! {

/// One of the five recognized binary operators.
#[derive(Debug, Clone, Copy, PartialEq, Eq, Structural)]
pub enum BinOp {
    Add,
    Sub,
    Mul,
    Div,
    Rem,
}

/// The operator a character stands for, by its code point, or `None` for a
/// character that is no recognized operator.
pub open spec fn op_of_code(u: u32) -> Option<BinOp> {
    if u == '+' as u32 {
        Some(BinOp::Add)
    } else if u == '-' as u32 {
        Some(BinOp::Sub)
    } else if u == '*' as u32 {
        Some(BinOp::Mul)
    } else if u == '/' as u32 {
        Some(BinOp::Div)
    } else if u == '%' as u32 {
        Some(BinOp::Rem)
    } else {
        None
    }
}

/// A symbolic operand: either a number literal, kept as its digit text, or the
/// application of an operator to the two operands it popped.
#[derive(Debug, PartialEq, Eq)]
pub enum Operand {
    /// A number literal: a maximal run of decimal digits.
    Lit(String),
    /// `Apply(op, left, right)`: operator `op` applied to the two popped
    /// operands, `right` having been above `left` on the stack.
    Apply(BinOp, Box<Operand>, Box<Operand>),
}

/// The mathematical shape of an `Operand`, with the literal as its characters.
pub ghost enum OperandV {
    Lit(Seq<char>),
    Apply(BinOp, Box<OperandV>, Box<OperandV>),
}

/// The shape of the operand `o`.
pub open spec fn operand_view(o: Operand) -> OperandV
    decreases o,
{
    match o {
        Operand::Lit(s) => OperandV::Lit(s@),
        Operand::Apply(op, l, r) => OperandV::Apply(
            op,
            Box::new(operand_view(*l)),
            Box::new(operand_view(*r)),
        ),
    }
}

impl View for Operand {
    type V = OperandV;

    open spec fn view(&self) -> OperandV {
        operand_view(*self)
    }
}

/// The views of a stack of operands, bottom first.
pub open spec fn stack_view(st: Seq<Operand>) -> Seq<OperandV> {
    st.map_values(|o: Operand| o@)
}

/// Runs the token sequence `ts` against the operand stack `st`: a number token
/// pushes a literal; any operator token pops two operands (`None` when fewer
/// than two are there), and only a recognized operator pushes the application
/// back — an unrecognized one discards the pair.
pub open spec fn run_tokens(ts: Seq<Token>, st: Seq<OperandV>) -> Option<Seq<OperandV>>
    decreases ts.len(),
{
    if ts.len() == 0 {
        Some(st)
    } else {
        match ts[0] {
            Token::Num(d) => run_tokens(ts.drop_first(), st.push(OperandV::Lit(d))),
            Token::Op(u) => if st.len() < 2 {
                None
            } else {
                let right = st[st.len() - 1];
                let left = st[st.len() - 2];
                let rest = st.take(st.len() - 2);
                match op_of_code(u) {
                    Some(op) => run_tokens(
                        ts.drop_first(),
                        rest.push(OperandV::Apply(op, Box::new(left), Box::new(right))),
                    ),
                    None => run_tokens(ts.drop_first(), rest),
                }
            },
        }
    }
}

/// One step of `run_tokens` on a leading number token.
pub proof fn lemma_run_num(d: Seq<char>, rest: Seq<Token>, st: Seq<OperandV>)
    ensures
        run_tokens(seq![Token::Num(d)] + rest, st) == run_tokens(rest, st.push(OperandV::Lit(d))),
{
    let ts = seq![Token::Num(d)] + rest;
    assert(ts.drop_first() =~= rest);
}

/// One step of `run_tokens` on a leading operator token: underflow below two
/// operands, application of a recognized operator, discard of any other.
pub proof fn lemma_run_op(u: u32, rest: Seq<Token>, st: Seq<OperandV>)
    ensures
        st.len() < 2 ==> run_tokens(seq![Token::Op(u)] + rest, st) is None,
        st.len() >= 2 && op_of_code(u) is Some ==> run_tokens(seq![Token::Op(u)] + rest, st)
            == run_tokens(
            rest,
            st.take(st.len() - 2).push(
                OperandV::Apply(
                    op_of_code(u).unwrap(),
                    Box::new(st[st.len() - 2]),
                    Box::new(st[st.len() - 1]),
                ),
            ),
        ),
        st.len() >= 2 && op_of_code(u) is None ==> run_tokens(seq![Token::Op(u)] + rest, st)
            == run_tokens(rest, st.take(st.len() - 2)),
{
    let ts = seq![Token::Op(u)] + rest;
    assert(ts.drop_first() =~= rest);
}

/// Pushing on the stack pushes its view.
pub proof fn lemma_stack_view_push(st: Seq<Operand>, o: Operand)
    ensures
        stack_view(st.push(o)) == stack_view(st).push(o@),
{
    assert(stack_view(st.push(o)) =~= stack_view(st).push(o@));
}

/// Taking a prefix of the stack takes the same prefix of its view.
pub proof fn lemma_stack_view_take(st: Seq<Operand>, n: int)
    requires
        0 <= n <= st.len(),
    ensures
        stack_view(st.take(n)) == stack_view(st).take(n),
{
    assert(stack_view(st.take(n)) =~= stack_view(st).take(n));
}

/// What evaluating the text `s` yields: the sole surviving operand, or the
/// reason the expression is malformed.
pub open spec fn calc_spec(s: Seq<char>) -> Result<OperandV, Reason> {
    match run_tokens(tokens_from(s, 0), Seq::empty()) {
        None => Err(Reason::Underflow),
        Some(st) => if st.len() == 1 {
            Ok(st[0])
        } else if st.len() == 0 {
            Err(Reason::NoResult)
        } else {
            Err(Reason::Leftover)
        },
    }
}

} // verus!
