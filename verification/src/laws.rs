//! General properties of the evaluator, proved once for all inputs.

use vstd::prelude::*;

use crate::chars::is_digit_char;
use crate::operand::{calc_spec, op_of_code, run_tokens, OperandV};
use crate::token::{digit_run_end, lemma_digit_run_end, tokens_from, Token};

verus! {

/// A token that cannot reach the catch-all dispatch: a number, or an operator
/// character that is one of the five recognized symbols.
pub open spec fn recognized_token(t: Token) -> bool {
    match t {
        Token::Num(_) => true,
        Token::Op(u) => op_of_code(u) is Some,
    }
}

/// Every operator token in `ts` is a recognized operator.
pub open spec fn all_recognized(ts: Seq<Token>) -> bool {
    forall|k: int| 0 <= k < ts.len() ==> recognized_token(#[trigger] ts[k])
}

/// How many number tokens `ts` holds.
pub open spec fn num_count(ts: Seq<Token>) -> int
    decreases ts.len(),
{
    if ts.len() == 0 {
        0
    } else {
        (match ts[0] {
            Token::Num(_) => 1int,
            Token::Op(_) => 0int,
        }) + num_count(ts.drop_first())
    }
}

/// How many operator tokens `ts` holds.
pub open spec fn op_count(ts: Seq<Token>) -> int
    decreases ts.len(),
{
    if ts.len() == 0 {
        0
    } else {
        (match ts[0] {
            Token::Num(_) => 0int,
            Token::Op(_) => 1int,
        }) + op_count(ts.drop_first())
    }
}

/// Running `ts` from a stack of depth `d` never lets an operator find fewer
/// than two operands, counting each number as one push and each operator as a
/// net pop of one.
pub open spec fn no_underflow(ts: Seq<Token>, d: int) -> bool
    decreases ts.len(),
{
    if ts.len() == 0 {
        true
    } else {
        match ts[0] {
            Token::Num(_) => no_underflow(ts.drop_first(), d + 1),
            Token::Op(_) => d >= 2 && no_underflow(ts.drop_first(), d - 1),
        }
    }
}

/// A well-formed RPN token sequence: every operator is one of the recognized
/// symbols, no operator finds fewer than two operands, and the tokens hold one
/// more number literal than they hold operators.
pub open spec fn well_formed(ts: Seq<Token>) -> bool {
    all_recognized(ts) && no_underflow(ts, 0) && num_count(ts) == op_count(ts) + 1
}

/// Running a sequence of recognized tokens that never underflows always
/// succeeds, and each number deepens the final stack by one while each
/// operator shallows it by one.
proof fn lemma_run_no_underflow(ts: Seq<Token>, st: Seq<OperandV>)
    requires
        all_recognized(ts),
        no_underflow(ts, st.len() as int),
    ensures
        run_tokens(ts, st) matches Some(out) && out.len() == st.len() + num_count(ts) - op_count(
            ts,
        ),
    decreases ts.len(),
{
    if ts.len() != 0 {
        let rest = ts.drop_first();
        assert forall|k: int| 0 <= k < rest.len() implies recognized_token(#[trigger] rest[k]) by {
            assert(rest[k] == ts[k + 1]);
        }
        match ts[0] {
            Token::Num(d) => {
                lemma_run_no_underflow(rest, st.push(OperandV::Lit(d)));
            },
            Token::Op(u) => {
                let op = op_of_code(u).unwrap();
                let next = st.take(st.len() - 2).push(
                    OperandV::Apply(op, Box::new(st[st.len() - 2]), Box::new(st[st.len() - 1])),
                );
                lemma_run_no_underflow(rest, next);
            },
        }
    }
}

/// Every well-formed RPN text evaluates successfully: when the text's tokens
/// hold N number literals and N−1 recognized operators, arranged so that no
/// operator finds fewer than two operands, the evaluator returns the surviving
/// operand rather than an error.  Which operand that is — the postfix
/// combination of the literals — is pinned by `calc_spec`.
pub proof fn lemma_well_formed_succeeds(s: Seq<char>)
    requires
        well_formed(tokens_from(s, 0)),
    ensures
        calc_spec(s) is Ok,
{
    lemma_run_no_underflow(tokens_from(s, 0), Seq::empty());
}

/// Evaluation has no hidden state: the outcome is a function of the text
/// alone, so evaluating the same text twice yields identical outcomes.
pub proof fn lemma_calc_deterministic(a: Seq<char>, b: Seq<char>)
    requires
        a == b,
    ensures
        calc_spec(a) == calc_spec(b),
{
}

/// A nonempty run of decimal digits.
pub open spec fn digit_run(d: Seq<char>) -> bool {
    d.len() > 0 && forall|k: int| 0 <= k < d.len() ==> is_digit_char(#[trigger] d[k])
}

/// Every literal inside the operand is a nonempty run of decimal digits.
pub open spec fn literals_are_digit_runs(o: OperandV) -> bool
    decreases o,
{
    match o {
        OperandV::Lit(d) => digit_run(d),
        OperandV::Apply(_, l, r) => literals_are_digit_runs(*l) && literals_are_digit_runs(*r),
    }
}

/// Whether every number token of `t` carries a nonempty digit run.
pub open spec fn digit_run_token(t: Token) -> bool {
    match t {
        Token::Num(d) => digit_run(d),
        Token::Op(_) => true,
    }
}

/// Every number token of `ts` carries a nonempty digit run.
pub open spec fn num_tokens_are_digit_runs(ts: Seq<Token>) -> bool {
    forall|k: int| 0 <= k < ts.len() ==> digit_run_token(#[trigger] ts[k])
}

/// The tokenizer only makes number tokens out of maximal digit runs, which
/// are nonempty and all digits.
proof fn lemma_tokens_digit_runs(s: Seq<char>, i: int)
    requires
        0 <= i <= s.len(),
    ensures
        num_tokens_are_digit_runs(tokens_from(s, i)),
    decreases s.len() - i,
{
    if i >= s.len() {
    } else if crate::chars::is_space_char(s[i]) {
        lemma_tokens_digit_runs(s, i + 1);
    } else if is_digit_char(s[i]) {
        let j = digit_run_end(s, i);
        lemma_digit_run_end(s, i);
        lemma_tokens_digit_runs(s, j);
        let head = Token::Num(s.subrange(i, j));
        let ts = seq![head] + tokens_from(s, j);
        assert(digit_run(s.subrange(i, j)));
        assert forall|k: int| 0 <= k < ts.len() implies digit_run_token(#[trigger] ts[k]) by {
            if k > 0 {
                assert(ts[k] == tokens_from(s, j)[k - 1]);
            }
        }
    } else {
        lemma_tokens_digit_runs(s, i + 1);
        let ts = seq![Token::Op(s[i] as u32)] + tokens_from(s, i + 1);
        assert forall|k: int| 0 <= k < ts.len() implies digit_run_token(#[trigger] ts[k]) by {
            if k > 0 {
                assert(ts[k] == tokens_from(s, i + 1)[k - 1]);
            }
        }
    }
}

/// Every operand on a stack whose literals are all digit runs.
pub open spec fn stack_literals_ok(st: Seq<OperandV>) -> bool {
    forall|k: int| 0 <= k < st.len() ==> literals_are_digit_runs(#[trigger] st[k])
}

/// Running tokens whose number tokens are digit runs keeps every literal on
/// the stack a digit run.
proof fn lemma_run_keeps_digit_runs(ts: Seq<Token>, st: Seq<OperandV>)
    requires
        num_tokens_are_digit_runs(ts),
        stack_literals_ok(st),
    ensures
        run_tokens(ts, st) matches Some(out) ==> stack_literals_ok(out),
    decreases ts.len(),
{
    if ts.len() != 0 {
        let rest = ts.drop_first();
        assert forall|k: int| 0 <= k < rest.len() implies digit_run_token(#[trigger] rest[k]) by {
            assert(rest[k] == ts[k + 1]);
        }
        match ts[0] {
            Token::Num(d) => {
                let next = st.push(OperandV::Lit(d));
                assert forall|k: int|
                    0 <= k < next.len() implies literals_are_digit_runs(#[trigger] next[k]) by {}
                lemma_run_keeps_digit_runs(rest, next);
            },
            Token::Op(u) => {
                if st.len() >= 2 {
                    let taken = st.take(st.len() - 2);
                    assert forall|k: int|
                        0 <= k < taken.len() implies literals_are_digit_runs(
                        #[trigger] taken[k],
                    ) by {
                        assert(taken[k] == st[k]);
                    }
                    match op_of_code(u) {
                        Some(op) => {
                            let next = taken.push(
                                OperandV::Apply(
                                    op,
                                    Box::new(st[st.len() - 2]),
                                    Box::new(st[st.len() - 1]),
                                ),
                            );
                            assert forall|k: int|
                                0 <= k < next.len() implies literals_are_digit_runs(
                                #[trigger] next[k],
                            ) by {}
                            lemma_run_keeps_digit_runs(rest, next);
                        },
                        None => {
                            lemma_run_keeps_digit_runs(rest, taken);
                        },
                    }
                }
            },
        }
    }
}

/// A successful result carries only the number literals the scan pushed:
/// nonempty runs of decimal digits.  Reading such a literal back as a number
/// therefore cannot fail, though a caller must still treat that read as
/// fallible.
pub proof fn lemma_result_literals_are_digit_runs(s: Seq<char>)
    ensures
        calc_spec(s) matches Ok(o) ==> literals_are_digit_runs(o),
{
    lemma_tokens_digit_runs(s, 0);
    lemma_run_keeps_digit_runs(tokens_from(s, 0), Seq::empty());
}

} // verus!
