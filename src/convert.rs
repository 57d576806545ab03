use vstd::prelude::*;

use crate::token::{
    lemma_tokens_view_drop_last, lemma_tokens_view_push, tokens_view, Token, TokenView,
};

verus! {

/// A token after which an opening parenthesis or a function means
/// multiplication: a number or a closing parenthesis.
pub open spec fn juxtaposes(prev: TokenView) -> bool {
    prev.is_number() || prev is ClosingParentheses
}

/// What may stand on the operator stack: an operator or an opening
/// parenthesis.
pub open spec fn stackable(t: TokenView) -> bool {
    t.is_operator() || t is OpeningParentheses
}

/// The operator that token `i` of `ts` stands for: a minus that starts the
/// expression or follows an operator or an opening parenthesis is a negation.
pub open spec fn operator_at(ts: Seq<TokenView>, i: int) -> TokenView {
    if ts[i] is Minus && (i == 0 || ts[i - 1].is_operator() || ts[i - 1] is OpeningParentheses) {
        TokenView::Negation
    } else {
        ts[i]
    }
}

/// Moves operators from the top of `stack` to `out` while they bind tighter
/// than `t`, stopping at an opening parenthesis.
pub open spec fn flush(stack: Seq<TokenView>, out: Seq<TokenView>, t: TokenView) -> (
    Seq<TokenView>,
    Seq<TokenView>,
)
    decreases stack.len(),
{
    if stack.len() > 0 && !(stack.last() is OpeningParentheses) && stack.last().precedes(t) {
        flush(stack.drop_last(), out.push(stack.last()), t)
    } else {
        (stack, out)
    }
}

/// Moves operators from the top of `stack` to `out` up to the nearest
/// opening parenthesis, which is dropped.
pub open spec fn unwind(stack: Seq<TokenView>, out: Seq<TokenView>) -> (
    Seq<TokenView>,
    Seq<TokenView>,
)
    decreases stack.len(),
{
    if stack.len() == 0 {
        (stack, out)
    } else if stack.last() is OpeningParentheses {
        (stack.drop_last(), out)
    } else {
        unwind(stack.drop_last(), out.push(stack.last()))
    }
}

/// `out` followed by the whole of `stack`, top first.
pub open spec fn drain(stack: Seq<TokenView>, out: Seq<TokenView>) -> Seq<TokenView>
    decreases stack.len(),
{
    if stack.len() == 0 {
        out
    } else {
        drain(stack.drop_last(), out.push(stack.last()))
    }
}

/// Operator stack and output after token `i` of `ts`, given them before it.
pub open spec fn step(
    ts: Seq<TokenView>,
    i: int,
    stack: Seq<TokenView>,
    out: Seq<TokenView>,
) -> (Seq<TokenView>, Seq<TokenView>) {
    let t = ts[i];
    let implicit = i != 0 && juxtaposes(ts[i - 1]);
    if t.is_number() {
        (stack, out.push(t))
    } else if t is OpeningParentheses {
        let s = if implicit {
            stack.push(TokenView::Multiplication)
        } else {
            stack
        };
        (s.push(t), out)
    } else if t is ClosingParentheses {
        unwind(stack, out)
    } else {
        let op = operator_at(ts, i);
        let s = if op.is_unary_operator() && !(op is Negation) && !(op is Factorial) && implicit {
            stack.push(TokenView::Multiplication)
        } else {
            stack
        };
        let (s2, o2) = flush(s, out, op);
        if op is Factorial {
            (s2, o2.push(op))
        } else {
            (s2.push(op), o2)
        }
    }
}

/// Operator stack and output after the first `n` tokens of `ts`.
pub open spec fn run(ts: Seq<TokenView>, n: nat) -> (Seq<TokenView>, Seq<TokenView>)
    decreases n,
{
    if n == 0 || n > ts.len() {
        (seq![], seq![])
    } else {
        let (stack, out) = run(ts, (n - 1) as nat);
        step(ts, n - 1, stack, out)
    }
}

/// The postfix form of the infix sequence `ts`.
pub open spec fn postfix(ts: Seq<TokenView>) -> Seq<TokenView> {
    let (stack, out) = run(ts, ts.len());
    drain(stack, out)
}

pub open spec fn all_stackable(stack: Seq<TokenView>) -> bool {
    forall|k: int| 0 <= k < stack.len() ==> stackable(#[trigger] stack[k])
}

/// Whether `t` is an opening parenthesis.
fn is_opening(t: &Token) -> (r: bool)
    ensures
        r == (t@ is OpeningParentheses),
{
    match t {
        Token::OpeningParentheses => true,
        _ => false,
    }
}

/// Pops and moves operators that bind tighter than `op` to `out`.
fn flush_exec(stack: &mut Vec<Token>, out: &mut Vec<Token>, op: &Token)
    requires
        op@.is_operator(),
        all_stackable(tokens_view(old(stack)@)),
    ensures
        (tokens_view(final(stack)@), tokens_view(final(out)@)) == flush(
            tokens_view(old(stack)@),
            tokens_view(old(out)@),
            op@,
        ),
        all_stackable(tokens_view(final(stack)@)),
{
    let ghost target = flush(tokens_view(stack@), tokens_view(out@), op@);
    while stack.len() > 0 && !is_opening(&stack[stack.len() - 1])
        && stack[stack.len() - 1].has_higher_precedence_than(op)
        invariant
            op@.is_operator(),
            all_stackable(tokens_view(stack@)),
            flush(tokens_view(stack@), tokens_view(out@), op@) == target,
        decreases stack.len(),
    {
        proof {
            lemma_tokens_view_drop_last(stack@);
        }
        let top = stack.pop().unwrap();
        proof {
            lemma_tokens_view_push(out@, top);
        }
        out.push(top);
    }
}

/// Pops and moves operators to `out` up to the nearest opening
/// parenthesis, which is dropped.
fn unwind_exec(stack: &mut Vec<Token>, out: &mut Vec<Token>)
    requires
        all_stackable(tokens_view(old(stack)@)),
    ensures
        (tokens_view(final(stack)@), tokens_view(final(out)@)) == unwind(
            tokens_view(old(stack)@),
            tokens_view(old(out)@),
        ),
        all_stackable(tokens_view(final(stack)@)),
{
    let ghost target = unwind(tokens_view(stack@), tokens_view(out@));
    while stack.len() > 0 && !is_opening(&stack[stack.len() - 1])
        invariant
            all_stackable(tokens_view(stack@)),
            unwind(tokens_view(stack@), tokens_view(out@)) == target,
        decreases stack.len(),
    {
        proof {
            lemma_tokens_view_drop_last(stack@);
        }
        let top = stack.pop().unwrap();
        proof {
            lemma_tokens_view_push(out@, top);
        }
        out.push(top);
    }
    if stack.len() > 0 {
        proof {
            lemma_tokens_view_drop_last(stack@);
        }
        stack.pop();
    }
}

/// Rewrites an infix token sequence in postfix order (shunting yard).
///
/// A minus that starts the expression or follows an operator or an opening
/// parenthesis becomes a negation. A number or a closing parenthesis
/// directly before an opening parenthesis or a function means
/// multiplication. An operator is stacked after the stacked operators that
/// bind strictly tighter have been emitted, so equal operators group to the
/// right; a factorial is emitted at once. A closing parenthesis without its
/// opening one emits the whole stack.
pub fn infix_to_postfix(expression: &Vec<Token>) -> (r: Vec<Token>)
    ensures
        tokens_view(r@) == postfix(tokens_view(expression@)),
{
    let ghost ts = tokens_view(expression@);
    let mut stack: Vec<Token> = Vec::new();
    let mut result: Vec<Token> = Vec::new();
    let n = expression.len();
    let mut i: usize = 0;
    while i < n
        invariant
            n == expression.len(),
            ts == tokens_view(expression@),
            i <= n,
            (tokens_view(stack@), tokens_view(result@)) == run(ts, i as nat),
            all_stackable(tokens_view(stack@)),
        decreases n - i,
    {
        let token = &expression[i];
        let implicit = i != 0 && (expression[i - 1].is_number() || matches!(
            expression[i - 1],
            Token::ClosingParentheses
        ));
        assert(implicit == (i != 0 && juxtaposes(ts[i - 1])));
        if token.is_number() {
            let t = token.duplicate();
            proof {
                lemma_tokens_view_push(result@, t);
            }
            result.push(t);
        } else if is_opening(token) {
            if implicit {
                proof {
                    lemma_tokens_view_push(stack@, Token::Multiplication);
                }
                stack.push(Token::Multiplication);
            }
            proof {
                lemma_tokens_view_push(stack@, Token::OpeningParentheses);
            }
            stack.push(Token::OpeningParentheses);
        } else if matches!(token, Token::ClosingParentheses) {
            unwind_exec(&mut stack, &mut result);
        } else {
            let op = if matches!(token, Token::Minus) && (i == 0 || expression[i
                - 1].is_operator() || is_opening(&expression[i - 1])) {
                Token::Negation
            } else {
                token.duplicate()
            };
            assert(op@ == operator_at(ts, i as int));
            if op.is_unary_operator() && !matches!(op, Token::Negation) && !matches!(
                op,
                Token::Factorial
            ) && implicit {
                proof {
                    lemma_tokens_view_push(stack@, Token::Multiplication);
                }
                stack.push(Token::Multiplication);
            }
            flush_exec(&mut stack, &mut result, &op);
            if matches!(op, Token::Factorial) {
                proof {
                    lemma_tokens_view_push(result@, op);
                }
                result.push(op);
            } else {
                proof {
                    lemma_tokens_view_push(stack@, op);
                }
                stack.push(op);
            }
        }
        i += 1;
    }
    let ghost target = postfix(ts);
    while stack.len() > 0
        invariant
            drain(tokens_view(stack@), tokens_view(result@)) == target,
        decreases stack.len(),
    {
        proof {
            lemma_tokens_view_drop_last(stack@);
        }
        let top = stack.pop().unwrap();
        proof {
            lemma_tokens_view_push(result@, top);
        }
        result.push(top);
    }
    result
}

} // verus!
