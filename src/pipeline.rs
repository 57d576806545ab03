use vstd::prelude::*;

use crate::convert::{infix_to_postfix, postfix};
use crate::evaluate::{expression_tree, tree_of, EvalError, Expr, ExprView};
use crate::lexer::{lex, parse, LexError, LexErrorView};
use crate::token::tokens_view;

verus! {

/// Why a text is not an expression.
#[derive(Debug, Clone, PartialEq)]
pub enum CalcError {
    Lex(LexError),
    Eval(EvalError),
}

/// The mathematical value of a [`CalcError`].
pub enum CalcErrorView {
    Lex(LexErrorView),
    Eval(EvalError),
}

/// The expression that text `s` denotes: tokenized, put in postfix order,
/// and assembled.
pub open spec fn pipeline(s: Seq<char>) -> Result<ExprView, CalcErrorView> {
    match lex(s) {
        Err(e) => Err(CalcErrorView::Lex(e)),
        Ok(ts) => match tree_of(postfix(ts)) {
            Ok(e) => Ok(e),
            Err(e) => Err(CalcErrorView::Eval(e)),
        },
    }
}

pub open spec fn calc_view(r: Result<Expr, CalcError>) -> Result<ExprView, CalcErrorView> {
    match r {
        Ok(e) => Ok(e@),
        Err(CalcError::Lex(e)) => Err(CalcErrorView::Lex(e@)),
        Err(CalcError::Eval(e)) => Err(CalcErrorView::Eval(e)),
    }
}

/// Runs the three stages on one line of text: the expression it denotes,
/// or the first error.
pub fn evaluate_text(input: &str) -> (r: Result<Expr, CalcError>)
    ensures
        calc_view(r) == pipeline(input@),
{
    match parse(input) {
        Err(e) => Err(CalcError::Lex(e)),
        Ok(tokens) => {
            let postfix_tokens = infix_to_postfix(&tokens);
            match expression_tree(&postfix_tokens) {
                Ok(e) => Ok(e),
                Err(e) => Err(CalcError::Eval(e)),
            }
        },
    }
}

/// Evaluation keeps no state: two runs on the same text give the same
/// result.
pub proof fn lemma_pipeline_repeatable(
    s: Seq<char>,
    first: Result<Expr, CalcError>,
    second: Result<Expr, CalcError>,
)
    requires
        calc_view(first) == pipeline(s),
        calc_view(second) == pipeline(s),
    ensures
        calc_view(first) == calc_view(second),
{
}

} // verus!
