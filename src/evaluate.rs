use vstd::prelude::*;

use crate::token::{tokens_view, Token, TokenView};

verus! {

/// An operator of one operand that evaluation supports.
#[derive(Debug, Clone, Copy, PartialEq, Eq, Structural)]
pub enum UnaryOp {
    Negation,
    Factorial,
    Sin,
    Cos,
    Tan,
    ArcSin,
    SquareRoot,
    Logarithm,
    NaturalLogarithm,
}

/// An operator of two operands that evaluation supports.
#[derive(Debug, Clone, Copy, PartialEq, Eq, Structural)]
pub enum BinaryOp {
    Plus,
    Minus,
    Multiplication,
    Division,
    Power,
    Permutation,
    Combination,
}

/// An operator that tokenizes and converts but has no evaluation.
#[derive(Debug, Clone, Copy, PartialEq, Eq, Structural)]
pub enum Unsupported {
    Modulo,
    ArcCos,
    ArcTan,
}

/// Why a postfix sequence does not describe one expression.
#[derive(Debug, Clone, Copy, PartialEq, Eq, Structural)]
pub enum EvalError {
    /// An operator found fewer operands than it takes.
    StackUnderflow,
    /// An operator with no evaluation.
    UnsupportedOperator(Unsupported),
    /// The sequence left no value, or more than one.
    InvalidResult,
}

/// An expression tree whose leaves are decimal numbers.
#[derive(Debug, PartialEq)]
pub enum Expr {
    Number(String),
    Unary(UnaryOp, Box<Expr>),
    Binary(BinaryOp, Box<Expr>, Box<Expr>),
}

/// The mathematical value of an [`Expr`]: a leaf is its text.
pub enum ExprView {
    Number(Seq<char>),
    Unary(UnaryOp, Box<ExprView>),
    Binary(BinaryOp, Box<ExprView>, Box<ExprView>),
}

impl View for Expr {
    type V = ExprView;

    open spec fn view(&self) -> ExprView
        decreases self,
    {
        match self {
            Expr::Number(text) => ExprView::Number(text@),
            Expr::Unary(op, a) => ExprView::Unary(*op, Box::new((**a).view())),
            Expr::Binary(op, a, b) => ExprView::Binary(
                *op,
                Box::new((**a).view()),
                Box::new((**b).view()),
            ),
        }
    }
}

pub open spec fn exprs_view(es: Seq<Expr>) -> Seq<ExprView> {
    es.map_values(|e: Expr| e@)
}

pub open spec fn unary_of(t: TokenView) -> Option<UnaryOp> {
    match t {
        TokenView::Negation => Some(UnaryOp::Negation),
        TokenView::Factorial => Some(UnaryOp::Factorial),
        TokenView::Sin => Some(UnaryOp::Sin),
        TokenView::Cos => Some(UnaryOp::Cos),
        TokenView::Tan => Some(UnaryOp::Tan),
        TokenView::ArcSin => Some(UnaryOp::ArcSin),
        TokenView::SquareRoot => Some(UnaryOp::SquareRoot),
        TokenView::Logarithm => Some(UnaryOp::Logarithm),
        TokenView::NaturalLogarithm => Some(UnaryOp::NaturalLogarithm),
        _ => None,
    }
}

pub open spec fn binary_of(t: TokenView) -> Option<BinaryOp> {
    match t {
        TokenView::Plus => Some(BinaryOp::Plus),
        TokenView::Minus => Some(BinaryOp::Minus),
        TokenView::Multiplication => Some(BinaryOp::Multiplication),
        TokenView::Division => Some(BinaryOp::Division),
        TokenView::Power => Some(BinaryOp::Power),
        TokenView::Permutation => Some(BinaryOp::Permutation),
        TokenView::Combination => Some(BinaryOp::Combination),
        _ => None,
    }
}

pub open spec fn unsupported_of(t: TokenView) -> Option<Unsupported> {
    match t {
        TokenView::Modulo => Some(Unsupported::Modulo),
        TokenView::ArcCos => Some(Unsupported::ArcCos),
        TokenView::ArcTan => Some(Unsupported::ArcTan),
        _ => None,
    }
}

/// How many operands operator `t` takes.
pub open spec fn arity(t: TokenView) -> nat {
    if t.is_unary_operator() {
        1
    } else {
        2
    }
}

/// The value stack after postfix token `t`: a number is pushed, an operator
/// replaces its operands (the deeper one on the left) by its application,
/// and a parenthesis is passed over.
pub open spec fn apply(stack: Seq<ExprView>, t: TokenView) -> Result<Seq<ExprView>, EvalError> {
    let n = stack.len();
    if let TokenView::Number(text) = t {
        Ok(stack.push(ExprView::Number(text)))
    } else if !t.is_operator() {
        Ok(stack)
    } else if n < arity(t) {
        Err(EvalError::StackUnderflow)
    } else if let Some(op) = unary_of(t) {
        Ok(stack.drop_last().push(ExprView::Unary(op, Box::new(stack[n - 1]))))
    } else if let Some(op) = binary_of(t) {
        Ok(
            stack.subrange(0, n - 2).push(
                ExprView::Binary(op, Box::new(stack[n - 2]), Box::new(stack[n - 1])),
            ),
        )
    } else {
        Err(EvalError::UnsupportedOperator(unsupported_of(t)->0))
    }
}

/// The value stack after the postfix sequence `ts`, or the first error.
pub open spec fn stack_after(ts: Seq<TokenView>) -> Result<Seq<ExprView>, EvalError>
    decreases ts.len(),
{
    if ts.len() == 0 {
        Ok(seq![])
    } else {
        match stack_after(ts.drop_last()) {
            Ok(stack) => apply(stack, ts.last()),
            Err(e) => Err(e),
        }
    }
}

/// The one expression that the postfix sequence `ts` describes.
pub open spec fn tree_of(ts: Seq<TokenView>) -> Result<ExprView, EvalError> {
    match stack_after(ts) {
        Ok(stack) => if stack.len() == 1 {
            Ok(stack[0])
        } else {
            Err(EvalError::InvalidResult)
        },
        Err(e) => Err(e),
    }
}

/// Once a prefix of a postfix sequence fails, the whole sequence fails
/// with the same error.
proof fn lemma_error_persists(ts: Seq<TokenView>, i: int)
    requires
        0 <= i <= ts.len(),
        stack_after(ts.subrange(0, i)) is Err,
    ensures
        stack_after(ts) == stack_after(ts.subrange(0, i)),
    decreases ts.len() - i,
{
    if i == ts.len() {
        assert(ts.subrange(0, i) =~= ts);
    } else {
        assert(ts.drop_last().subrange(0, i) =~= ts.subrange(0, i));
        lemma_error_persists(ts.drop_last(), i);
    }
}

pub open spec fn tree_view(r: Result<Expr, EvalError>) -> Result<ExprView, EvalError> {
    match r {
        Ok(e) => Ok(e@),
        Err(err) => Err(err),
    }
}

/// Builds the expression that a postfix sequence describes, with a stack of
/// subexpressions.
///
/// A number is pushed. An operator pops its operands, the first pop being
/// its right operand, and pushes its application. Parentheses are passed
/// over. Exactly one expression must remain at the end.
pub fn expression_tree(expression: &Vec<Token>) -> (r: Result<Expr, EvalError>)
    ensures
        tree_view(r) == tree_of(tokens_view(expression@)),
{
    let ghost ts = tokens_view(expression@);
    let mut stack: Vec<Expr> = Vec::new();
    assert(ts.subrange(0, 0) =~= Seq::<TokenView>::empty());
    assert(exprs_view(stack@) =~= Seq::<ExprView>::empty());
    let n = expression.len();
    let mut i: usize = 0;
    while i < n
        invariant
            n == expression.len(),
            ts == tokens_view(expression@),
            i <= n,
            stack_after(ts.subrange(0, i as int)) == Ok::<Seq<ExprView>, EvalError>(
                exprs_view(stack@),
            ),
        decreases n - i,
    {
        let ghost old_stack = exprs_view(stack@);
        let ghost t = ts[i as int];
        assert(ts.subrange(0, i + 1).drop_last() =~= ts.subrange(0, i as int));
        assert(ts.subrange(0, i + 1).last() == t);
        let ghost target = apply(old_stack, t);
        proof {
            if target is Err {
                lemma_error_persists(ts, i + 1);
            }
        }
        let len = stack.len();
        match &expression[i] {
            Token::Number(text) => {
                stack.push(Expr::Number(text.clone()));
                assert(exprs_view(stack@) =~= old_stack.push(ExprView::Number(text@)));
            },
            Token::OpeningParentheses | Token::ClosingParentheses => {},
            token => {
                if token.is_unary_operator() {
                    if len < 1 {
                        return Err(EvalError::StackUnderflow);
                    }
                    let op = match token {
                        Token::Negation => UnaryOp::Negation,
                        Token::Factorial => UnaryOp::Factorial,
                        Token::Sin => UnaryOp::Sin,
                        Token::Cos => UnaryOp::Cos,
                        Token::Tan => UnaryOp::Tan,
                        Token::ArcSin => UnaryOp::ArcSin,
                        Token::SquareRoot => UnaryOp::SquareRoot,
                        Token::Logarithm => UnaryOp::Logarithm,
                        Token::NaturalLogarithm => UnaryOp::NaturalLogarithm,
                        Token::ArcCos => {
                            return Err(EvalError::UnsupportedOperator(Unsupported::ArcCos));
                        },
                        _ => {
                            return Err(EvalError::UnsupportedOperator(Unsupported::ArcTan));
                        },
                    };
                    let a = stack.pop().unwrap();
                    stack.push(Expr::Unary(op, Box::new(a)));
                    assert(exprs_view(stack@) =~= old_stack.drop_last().push(
                        ExprView::Unary(op, Box::new(old_stack[len - 1])),
                    ));
                } else {
                    if len < 2 {
                        return Err(EvalError::StackUnderflow);
                    }
                    let op = match token {
                        Token::Plus => BinaryOp::Plus,
                        Token::Minus => BinaryOp::Minus,
                        Token::Multiplication => BinaryOp::Multiplication,
                        Token::Division => BinaryOp::Division,
                        Token::Power => BinaryOp::Power,
                        Token::Permutation => BinaryOp::Permutation,
                        Token::Combination => BinaryOp::Combination,
                        _ => {
                            return Err(EvalError::UnsupportedOperator(Unsupported::Modulo));
                        },
                    };
                    let b = stack.pop().unwrap();
                    let a = stack.pop().unwrap();
                    stack.push(Expr::Binary(op, Box::new(a), Box::new(b)));
                    assert(exprs_view(stack@) =~= old_stack.subrange(0, len - 2).push(
                        ExprView::Binary(
                            op,
                            Box::new(old_stack[len - 2]),
                            Box::new(old_stack[len - 1]),
                        ),
                    ));
                }
            },
        }
        i += 1;
    }
    assert(ts.subrange(0, n as int) =~= ts);
    if stack.len() == 1 {
        let e = stack.pop().unwrap();
        Ok(e)
    } else {
        Err(EvalError::InvalidResult)
    }
}

} // verus!
