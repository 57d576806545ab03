use vstd::prelude::*;

verus! {

/// A lexical symbol of an arithmetic expression.
///
/// A number carries the decimal text it was written with; that text always
/// reads as a 64-bit float (digits with at most one decimal point).
#[derive(Debug, Clone, PartialEq)]
pub enum Token {
    Plus,
    Minus,
    Multiplication,
    Division,
    Modulo,
    Power,
    SquareRoot,
    Combination,
    Permutation,
    Logarithm,
    NaturalLogarithm,
    ArcTan,
    ArcCos,
    ArcSin,
    Tan,
    Sin,
    Cos,
    Factorial,
    Negation,
    Number(String),
    OpeningParentheses,
    ClosingParentheses,
}

/// The mathematical value of a [`Token`]: a number is its text as a sequence
/// of characters.
pub enum TokenView {
    Plus,
    Minus,
    Multiplication,
    Division,
    Modulo,
    Power,
    SquareRoot,
    Combination,
    Permutation,
    Logarithm,
    NaturalLogarithm,
    ArcTan,
    ArcCos,
    ArcSin,
    Tan,
    Sin,
    Cos,
    Factorial,
    Negation,
    Number(Seq<char>),
    OpeningParentheses,
    ClosingParentheses,
}

impl View for Token {
    type V = TokenView;

    open spec fn view(&self) -> TokenView {
        match self {
            Token::Plus => TokenView::Plus,
            Token::Minus => TokenView::Minus,
            Token::Multiplication => TokenView::Multiplication,
            Token::Division => TokenView::Division,
            Token::Modulo => TokenView::Modulo,
            Token::Power => TokenView::Power,
            Token::SquareRoot => TokenView::SquareRoot,
            Token::Combination => TokenView::Combination,
            Token::Permutation => TokenView::Permutation,
            Token::Logarithm => TokenView::Logarithm,
            Token::NaturalLogarithm => TokenView::NaturalLogarithm,
            Token::ArcTan => TokenView::ArcTan,
            Token::ArcCos => TokenView::ArcCos,
            Token::ArcSin => TokenView::ArcSin,
            Token::Tan => TokenView::Tan,
            Token::Sin => TokenView::Sin,
            Token::Cos => TokenView::Cos,
            Token::Factorial => TokenView::Factorial,
            Token::Negation => TokenView::Negation,
            Token::Number(text) => TokenView::Number(text@),
            Token::OpeningParentheses => TokenView::OpeningParentheses,
            Token::ClosingParentheses => TokenView::ClosingParentheses,
        }
    }
}

impl TokenView {
    /// Every symbol but a number and the two parentheses is an operator.
    pub open spec fn is_operator(self) -> bool {
        !(self is Number || self is OpeningParentheses || self is ClosingParentheses)
    }

    /// The operators that take a single operand.
    pub open spec fn is_unary_operator(self) -> bool {
        self is Negation || self is Factorial || self is Cos || self is Sin || self is Tan
            || self is ArcCos || self is ArcSin || self is ArcTan || self is Logarithm
            || self is NaturalLogarithm || self is SquareRoot
    }

    /// The operators that take two operands.
    pub open spec fn is_binary_operator(self) -> bool {
        self.is_operator() && !self.is_unary_operator()
    }

    pub open spec fn is_number(self) -> bool {
        self is Number
    }

    /// Position of an operator in the precedence order, tightest first.
    pub open spec fn rank(self) -> int
        recommends
            self.is_operator(),
    {
        match self {
            TokenView::Negation => 0,
            TokenView::Factorial => 1,
            TokenView::Cos => 2,
            TokenView::Sin => 3,
            TokenView::Tan => 4,
            TokenView::ArcCos => 5,
            TokenView::ArcSin => 6,
            TokenView::ArcTan => 7,
            TokenView::NaturalLogarithm => 8,
            TokenView::Logarithm => 9,
            TokenView::Permutation => 10,
            TokenView::Combination => 11,
            TokenView::SquareRoot => 12,
            TokenView::Power => 13,
            TokenView::Division => 14,
            TokenView::Multiplication => 15,
            TokenView::Modulo => 16,
            TokenView::Plus => 17,
            TokenView::Minus => 18,
            _ => 19,
        }
    }

    /// Operator `self` binds tighter than operator `other`.
    pub open spec fn precedes(self, other: TokenView) -> bool {
        self.rank() < other.rank()
    }
}

impl Token {
    /// Returns true if `self` is an operator, unary or binary.
    pub fn is_operator(&self) -> (r: bool)
        ensures
            r == self@.is_operator(),
    {
        match self {
            Token::Number(_) => false,
            Token::ClosingParentheses => false,
            Token::OpeningParentheses => false,
            _ => true,
        }
    }

    /// Returns true if `self` is an operator of one operand.
    pub fn is_unary_operator(&self) -> (r: bool)
        ensures
            r == self@.is_unary_operator(),
    {
        match self {
            Token::Negation | Token::Factorial | Token::Cos | Token::Sin | Token::Tan
            | Token::ArcCos | Token::ArcSin | Token::ArcTan | Token::Logarithm
            | Token::NaturalLogarithm | Token::SquareRoot => true,
            _ => false,
        }
    }

    /// Returns true if `self` is a number.
    pub fn is_number(&self) -> (r: bool)
        ensures
            r == self@.is_number(),
    {
        match self {
            Token::Number(_) => true,
            _ => false,
        }
    }

    /// The position of operator `self` in the precedence order.
    fn rank(&self) -> (r: u8)
        requires
            self@.is_operator(),
        ensures
            r as int == self@.rank(),
    {
        match self {
            Token::Negation => 0,
            Token::Factorial => 1,
            Token::Cos => 2,
            Token::Sin => 3,
            Token::Tan => 4,
            Token::ArcCos => 5,
            Token::ArcSin => 6,
            Token::ArcTan => 7,
            Token::NaturalLogarithm => 8,
            Token::Logarithm => 9,
            Token::Permutation => 10,
            Token::Combination => 11,
            Token::SquareRoot => 12,
            Token::Power => 13,
            Token::Division => 14,
            Token::Multiplication => 15,
            Token::Modulo => 16,
            Token::Plus => 17,
            Token::Minus => 18,
            _ => 19,
        }
    }

    /// Returns true if operator `self` binds strictly tighter than operator
    /// `other`; an operator never binds tighter than itself.
    pub fn has_higher_precedence_than(&self, other: &Token) -> (r: bool)
        requires
            self@.is_operator(),
            other@.is_operator(),
        ensures
            r == self@.precedes(other@),
    {
        self.rank() < other.rank()
    }

    /// A copy of `self`, number text included.
    pub fn duplicate(&self) -> (r: Token)
        ensures
            r@ == self@,
    {
        match self {
            Token::Number(text) => Token::Number(text.clone()),
            Token::Plus => Token::Plus,
            Token::Minus => Token::Minus,
            Token::Multiplication => Token::Multiplication,
            Token::Division => Token::Division,
            Token::Modulo => Token::Modulo,
            Token::Power => Token::Power,
            Token::SquareRoot => Token::SquareRoot,
            Token::Combination => Token::Combination,
            Token::Permutation => Token::Permutation,
            Token::Logarithm => Token::Logarithm,
            Token::NaturalLogarithm => Token::NaturalLogarithm,
            Token::ArcTan => Token::ArcTan,
            Token::ArcCos => Token::ArcCos,
            Token::ArcSin => Token::ArcSin,
            Token::Tan => Token::Tan,
            Token::Sin => Token::Sin,
            Token::Cos => Token::Cos,
            Token::Factorial => Token::Factorial,
            Token::Negation => Token::Negation,
            Token::OpeningParentheses => Token::OpeningParentheses,
            Token::ClosingParentheses => Token::ClosingParentheses,
        }
    }
}


/// The views of a sequence of tokens.
pub open spec fn tokens_view(ts: Seq<Token>) -> Seq<TokenView> {
    ts.map_values(|t: Token| t@)
}

pub proof fn lemma_tokens_view_push(ts: Seq<Token>, t: Token)
    ensures
        tokens_view(ts.push(t)) == tokens_view(ts).push(t@),
{
    assert(tokens_view(ts.push(t)) =~= tokens_view(ts).push(t@));
}

pub proof fn lemma_tokens_view_drop_last(ts: Seq<Token>)
    requires
        ts.len() > 0,
    ensures
        tokens_view(ts.drop_last()) == tokens_view(ts).drop_last(),
{
    assert(tokens_view(ts.drop_last()) =~= tokens_view(ts).drop_last());
}

} // verus!
