//! Evaluation of arithmetic expressions typed as text, in three stages:
//! a tokenizer, an infix-to-postfix converter and a postfix evaluator that
//! assembles the expression tree whose numeric value a caller computes.

pub mod convert;
pub mod evaluate;
pub mod lexer;
pub mod pipeline;
pub mod token;
