//! The evaluator: a scanning cursor over the input text, the operand stack,
//! and the single left-to-right scan that drives them.

use vstd::prelude::*;
use vstd::string::StrSliceExecFns;

use crate::chars::{char_is_digit, char_is_space, is_digit_char, is_space_char};
use crate::error::{Reason, RpnError};
use crate::operand::{
    calc_spec, lemma_run_num, lemma_run_op, lemma_stack_view_push, lemma_stack_view_take,
    op_of_code, run_tokens, stack_view, BinOp, Operand, OperandV,
};
use crate::token::{
    digit_run_end, lemma_digit_run_end, lemma_digit_run_end_unique, lemma_space_run_end,
    lemma_space_run_end_unique, lemma_tokens_skip_spaces, space_run_end, tokens_from, Token,
};

verus! {

/// The evaluator's state: the input text and the scanning cursor, a character
/// offset into it.
pub struct RPN {
    pos: usize,
    input: String,
}

impl RPN {
    /// The characters of the input text.
    pub closed spec fn text(&self) -> Seq<char> {
        self.input@
    }

    /// The cursor: how many characters have been consumed.
    pub closed spec fn cursor(&self) -> int {
        self.pos as int
    }

    /// The cursor stays within the text, whose character count fits a `usize`.
    pub open spec fn wf(&self) -> bool {
        self.cursor() <= self.text().len() && self.text().len() <= usize::MAX as int
    }

    /// A fresh evaluator over `input`, with the cursor at the start.
    pub fn new(input: String) -> (r: RPN)
        ensures
            r.text() == input@,
            r.cursor() == 0,
            r.wf(),
    {
        // Measuring the character count once shows that it fits a `usize`.
        let _len = input.as_str().unicode_len();
        RPN { input, pos: 0 }
    }

    /// Whether the cursor has reached the end of the text.
    pub fn eof(&self) -> (b: bool)
        ensures
            b == (self.cursor() >= self.text().len()),
    {
        self.pos >= self.input.as_str().unicode_len()
    }

    /// The character under the cursor, if any; the cursor does not move.
    pub fn peek_char(&self) -> (r: Option<char>)
        ensures
            match r {
                Some(c) => self.cursor() < self.text().len() && c == self.text()[self.cursor()],
                None => self.cursor() >= self.text().len(),
            },
    {
        if self.pos >= self.input.as_str().unicode_len() {
            None
        } else {
            Some(self.input.as_str().get_char(self.pos))
        }
    }

    /// Returns the character under the cursor and advances past it.
    pub fn consume_char(&mut self) -> (c: char)
        requires
            old(self).wf(),
            old(self).cursor() < old(self).text().len(),
        ensures
            final(self).wf(),
            final(self).text() == old(self).text(),
            final(self).cursor() == old(self).cursor() + 1,
            c == old(self).text()[old(self).cursor()],
    {
        let c = self.input.as_str().get_char(self.pos);
        self.pos = self.pos + 1;
        c
    }

    /// Advances the cursor while `test` accepts the character under it, and
    /// returns the consumed characters.  The cursor stops at the end of the
    /// text or at the first rejected character.
    pub fn consume_while<F: Fn(char) -> bool>(&mut self, test: F) -> (r: String)
        requires
            old(self).wf(),
            forall|c: char| #[trigger] test.requires((c,)),
        ensures
            final(self).wf(),
            final(self).text() == old(self).text(),
            old(self).cursor() <= final(self).cursor() <= final(self).text().len(),
            r@ == final(self).text().subrange(old(self).cursor(), final(self).cursor()),
            forall|i: int|
                old(self).cursor() <= i < final(self).cursor() ==> test.ensures(
                    (final(self).text()[i],),
                    true,
                ),
            final(self).cursor() < final(self).text().len() ==> test.ensures(
                (final(self).text()[final(self).cursor()],),
                false,
            ),
    {
        let start = self.pos;
        let ghost text = self.input@;
        loop
            invariant
                self.wf(),
                self.input@ == text,
                start as int <= self.cursor() <= text.len(),
                forall|c: char| #[trigger] test.requires((c,)),
                forall|i: int| start as int <= i < self.cursor() ==> test.ensures((text[i],), true),
            ensures
                self.wf(),
                self.input@ == text,
                start as int <= self.cursor() <= text.len(),
                forall|i: int| start as int <= i < self.cursor() ==> test.ensures((text[i],), true),
                self.cursor() == text.len() || test.ensures((text[self.cursor()],), false),
            decreases text.len() - self.cursor(),
        {
            if self.eof() {
                break ;
            }
            let c = match self.peek_char() {
                Some(c) => c,
                None => {
                    break ;
                },
            };
            if !test(c) {
                break ;
            }
            self.consume_char();
        }
        self.input.as_str().substring_char(start, self.pos).to_owned()
    }

    /// Consumes the maximal run of decimal digits under the cursor and returns
    /// it; the run is empty when the cursor is not on a digit.
    pub fn consume_num(&mut self) -> (r: String)
        requires
            old(self).wf(),
        ensures
            final(self).wf(),
            final(self).text() == old(self).text(),
            final(self).cursor() == digit_run_end(
                final(self).text(),
                old(self).cursor(),
            ),
            r@ == final(self).text().subrange(old(self).cursor(), final(self).cursor()),
    {
        let ghost start = self.cursor();
        let digit_test = |c: char| -> (b: bool)
            ensures
                b == is_digit_char(c),
            { char_is_digit(c) };
        let r = self.consume_while(digit_test);
        proof {
            lemma_digit_run_end_unique(self.text(), start, self.cursor());
        }
        r
    }

    /// Consumes the maximal run of whitespace under the cursor.
    pub fn consume_whitespace(&mut self)
        requires
            old(self).wf(),
        ensures
            final(self).wf(),
            final(self).text() == old(self).text(),
            final(self).cursor() == space_run_end(
                final(self).text(),
                old(self).cursor(),
            ),
    {
        let ghost start = self.cursor();
        let space_test = |c: char| -> (b: bool)
            ensures
                b == is_space_char(c),
            { char_is_space(c) };
        self.consume_while(space_test);
        proof {
            lemma_space_run_end_unique(self.text(), start, self.cursor());
        }
    }

    /// The scan loop: runs the tokens of the remaining text against an operand
    /// stack that starts empty, and returns the final stack, or the underflow
    /// error when some operator finds fewer than two operands.
    fn parse(&mut self) -> (r: Result<Vec<Operand>, RpnError>)
        requires
            old(self).wf(),
        ensures
            final(self).wf(),
            final(self).text() == old(self).text(),
            match r {
                Ok(st) => run_tokens(
                    tokens_from(old(self).text(), old(self).cursor()),
                    Seq::empty(),
                ) == Some(stack_view(st@)),
                Err(e) => run_tokens(
                    tokens_from(old(self).text(), old(self).cursor()),
                    Seq::empty(),
                ) is None && e == RpnError::MalformedExpression(Reason::Underflow),
            },
    {
        let mut nums: Vec<Operand> = Vec::new();
        let ghost text = self.text();
        let ghost c0 = self.cursor();
        proof {
            assert(stack_view(nums@) =~= Seq::<OperandV>::empty());
        }
        loop
            invariant
                self.wf(),
                self.text() == text,
                text == old(self).text(),
                c0 == old(self).cursor(),
                0 <= c0 <= text.len(),
                run_tokens(tokens_from(text, self.cursor()), stack_view(nums@)) == run_tokens(
                    tokens_from(text, c0),
                    Seq::<OperandV>::empty(),
                ),
            ensures
                self.wf(),
                self.text() == text,
                self.cursor() == text.len(),
                run_tokens(tokens_from(text, self.cursor()), stack_view(nums@)) == run_tokens(
                    tokens_from(text, c0),
                    Seq::<OperandV>::empty(),
                ),
            decreases text.len() - self.cursor(),
        {
            if self.eof() {
                break ;
            }
            let ghost i0 = self.cursor();
            self.consume_whitespace();
            proof {
                lemma_space_run_end(text, i0);
                lemma_tokens_skip_spaces(text, i0, self.cursor());
            }
            let peek_char = match self.peek_char() {
                Some(c) => c,
                None => {
                    // Only whitespace was left: the token sequence is empty.
                    assert(tokens_from(text, self.cursor()) == Seq::<Token>::empty());
                    return Ok(nums);
                },
            };
            let ghost j = self.cursor();
            if char_is_digit(peek_char) {
                let num = self.consume_num();
                let ghost d = num@;
                let ghost st_pre = nums@;
                proof {
                    lemma_digit_run_end(text, j);
                    assert(tokens_from(text, j) == seq![Token::Num(text.subrange(j, self.cursor()))]
                        + tokens_from(text, self.cursor()));
                    lemma_run_num(d, tokens_from(text, self.cursor()), stack_view(st_pre));
                }
                nums.push(Operand::Lit(num));
                proof {
                    lemma_stack_view_push(st_pre, nums@.last());
                    assert(nums@ == st_pre.push(nums@.last()));
                }
            } else {
                proof {
                    assert(tokens_from(text, j) == seq![Token::Op(text[j] as u32)] + tokens_from(
                        text,
                        j + 1,
                    ));
                    lemma_run_op(text[j] as u32, tokens_from(text, j + 1), stack_view(nums@));
                }
                let ghost st0 = nums@;
                let l2 = match nums.pop() {
                    Some(x) => x,
                    None => {
                        return Err(RpnError::MalformedExpression(Reason::Underflow));
                    },
                };
                let l1 = match nums.pop() {
                    Some(x) => x,
                    None => {
                        return Err(RpnError::MalformedExpression(Reason::Underflow));
                    },
                };
                let ghost l1v = l1@;
                let ghost l2v = l2@;
                proof {
                    assert(nums@ =~= st0.take(st0.len() - 2));
                    lemma_stack_view_take(st0, st0.len() - 2);
                }
                let ghost st_mid = nums@;
                let code = peek_char as u32;
                if code == '+' as u32 {
                    nums.push(Operand::Apply(BinOp::Add, Box::new(l1), Box::new(l2)));
                } else if code == '-' as u32 {
                    nums.push(Operand::Apply(BinOp::Sub, Box::new(l1), Box::new(l2)));
                } else if code == '*' as u32 {
                    nums.push(Operand::Apply(BinOp::Mul, Box::new(l1), Box::new(l2)));
                } else if code == '/' as u32 {
                    nums.push(Operand::Apply(BinOp::Div, Box::new(l1), Box::new(l2)));
                } else if code == '%' as u32 {
                    nums.push(Operand::Apply(BinOp::Rem, Box::new(l1), Box::new(l2)));
                }
                proof {
                    match op_of_code(text[j] as u32) {
                        Some(op) => {
                            lemma_stack_view_push(st_mid, nums@.last());
                            assert(nums@ == st_mid.push(nums@.last()));
                            assert(nums@.last()@ == OperandV::Apply(
                                op,
                                Box::new(l1v),
                                Box::new(l2v),
                            ));
                        },
                        None => {
                            assert(nums@ == st_mid);
                        },
                    }
                }
                self.consume_char();
            }
        }
        assert(tokens_from(text, self.cursor()) == Seq::<Token>::empty());
        Ok(nums)
    }

    /// Evaluates the RPN expression `input`.  On success the result is the
    /// sole operand that survives the scan; otherwise the expression is
    /// malformed, for the reason the error carries.
    pub fn calc(input: String) -> (r: Result<Operand, RpnError>)
        ensures
            match r {
                Ok(v) => calc_spec(input@) == Ok::<OperandV, Reason>(v@),
                Err(e) => match e {
                    RpnError::MalformedExpression(why) => calc_spec(input@) == Err::<
                        OperandV,
                        Reason,
                    >(why),
                },
            },
    {
        let mut rpn = RPN::new(input);
        let mut nums = match rpn.parse() {
            Ok(v) => v,
            Err(e) => {
                return Err(e);
            },
        };
        if nums.len() == 1 {
            let v = nums.pop().unwrap();
            Ok(v)
        } else if nums.len() == 0 {
            Err(RpnError::MalformedExpression(Reason::NoResult))
        } else {
            Err(RpnError::MalformedExpression(Reason::Leftover))
        }
    }
}

} // verus!
