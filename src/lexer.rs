use vstd::prelude::*;

use vstd::string::*;

use crate::token::{lemma_tokens_view_push, tokens_view, Token, TokenView};

verus! {

/// Why a text could not be split into tokens.
#[derive(Debug, Clone, PartialEq)]
pub enum LexError {
    /// A run of digits and points that is not a decimal number.
    InvalidNumber(String),
    /// A word, lowercased, that names no operator.
    UnknownOperator(String),
    /// A character that starts no token.
    UnknownCharacter(char),
}

/// The mathematical value of a [`LexError`].
pub enum LexErrorView {
    InvalidNumber(Seq<char>),
    UnknownOperator(Seq<char>),
    UnknownCharacter(char),
}

impl View for LexError {
    type V = LexErrorView;

    open spec fn view(&self) -> LexErrorView {
        match self {
            LexError::InvalidNumber(text) => LexErrorView::InvalidNumber(text@),
            LexError::UnknownOperator(word) => LexErrorView::UnknownOperator(word@),
            LexError::UnknownCharacter(c) => LexErrorView::UnknownCharacter(*c),
        }
    }
}

/// Whether `c` has the Unicode Alphabetic property.
pub uninterp spec fn alphabetic(c: char) -> bool;

/// The Unicode lowercase form of a text.
pub uninterp spec fn lower_of(s: Seq<char>) -> Seq<char>;

pub open spec fn is_digit(c: char) -> bool {
    '0' <= c <= '9'
}

/// A character that continues a number.
pub open spec fn is_numeral_char(c: char) -> bool {
    is_digit(c) || c == '.'
}

pub open spec fn is_blank(c: char) -> bool {
    c == ' ' || c == '\n' || c == '\r'
}

/// The token that a single character stands for on its own.
pub open spec fn symbol(c: char) -> Option<TokenView> {
    if c == '+' {
        Some(TokenView::Plus)
    } else if c == '-' {
        Some(TokenView::Minus)
    } else if c == '*' {
        Some(TokenView::Multiplication)
    } else if c == '/' {
        Some(TokenView::Division)
    } else if c == '%' {
        Some(TokenView::Modulo)
    } else if c == '^' {
        Some(TokenView::Power)
    } else if c == '!' {
        Some(TokenView::Factorial)
    } else if c == '~' {
        Some(TokenView::Negation)
    } else if c == '(' {
        Some(TokenView::OpeningParentheses)
    } else if c == ')' {
        Some(TokenView::ClosingParentheses)
    } else {
        None
    }
}

/// The operator that a lowercase word names.
pub open spec fn named_operator(name: Seq<char>) -> Option<TokenView> {
    if name == "cos"@ {
        Some(TokenView::Cos)
    } else if name == "sin"@ {
        Some(TokenView::Sin)
    } else if name == "tan"@ {
        Some(TokenView::Tan)
    } else if name == "asin"@ {
        Some(TokenView::ArcSin)
    } else if name == "acos"@ {
        Some(TokenView::ArcCos)
    } else if name == "atan"@ {
        Some(TokenView::ArcTan)
    } else if name == "ln"@ {
        Some(TokenView::NaturalLogarithm)
    } else if name == "log"@ {
        Some(TokenView::Logarithm)
    } else if name == "p"@ {
        Some(TokenView::Permutation)
    } else if name == "c"@ {
        Some(TokenView::Combination)
    } else if name == "sqrt"@ {
        Some(TokenView::SquareRoot)
    } else {
        None
    }
}

/// How many characters from `i` on continue a number.
pub open spec fn numeral_run(s: Seq<char>, i: int) -> nat
    decreases s.len() - i,
{
    if 0 <= i < s.len() && is_numeral_char(s[i]) {
        1 + numeral_run(s, i + 1)
    } else {
        0
    }
}

/// How many characters from `i` on are alphabetic.
pub open spec fn word_run(s: Seq<char>, i: int) -> nat
    decreases s.len() - i,
{
    if 0 <= i < s.len() && alphabetic(s[i]) {
        1 + word_run(s, i + 1)
    } else {
        0
    }
}

pub proof fn lemma_numeral_run_bound(s: Seq<char>, i: int)
    requires
        0 <= i <= s.len(),
    ensures
        i + numeral_run(s, i) <= s.len(),
    decreases s.len() - i,
{
    if i < s.len() {
        lemma_numeral_run_bound(s, i + 1);
    }
}

pub proof fn lemma_word_run_bound(s: Seq<char>, i: int)
    requires
        0 <= i <= s.len(),
    ensures
        i + word_run(s, i) <= s.len(),
    decreases s.len() - i,
{
    if i < s.len() {
        lemma_word_run_bound(s, i + 1);
    }
}

/// The number of decimal points in `t`.
pub open spec fn dot_count(t: Seq<char>) -> nat
    decreases t.len(),
{
    if t.len() == 0 {
        0
    } else {
        dot_count(t.drop_last()) + if t.last() == '.' {
            1nat
        } else {
            0nat
        }
    }
}

/// A run of digits and points reads as a decimal number when it holds at
/// most one point and at least one digit.
pub open spec fn valid_numeral(t: Seq<char>) -> bool {
    dot_count(t) <= 1 && dot_count(t) < t.len()
}

/// `rest` with `prefix` put in front of its tokens.
pub open spec fn after(
    prefix: Seq<TokenView>,
    rest: Result<Seq<TokenView>, LexErrorView>,
) -> Result<Seq<TokenView>, LexErrorView> {
    match rest {
        Ok(ts) => Ok(prefix + ts),
        Err(e) => Err(e),
    }
}

/// The tokens of `s` from position `i` on, scanning left to right: each
/// number and each word is as long as it can be.
pub open spec fn lex_from(s: Seq<char>, i: int) -> Result<Seq<TokenView>, LexErrorView>
    decreases s.len() - i,
{
    if i < 0 || i >= s.len() {
        Ok(seq![])
    } else {
        let c = s[i];
        if symbol(c) is Some {
            after(seq![symbol(c)->0], lex_from(s, i + 1))
        } else if is_blank(c) {
            lex_from(s, i + 1)
        } else if is_numeral_char(c) {
            proof {
                lemma_numeral_run_bound(s, i + 1);
            }
            let j = i + 1 + numeral_run(s, i + 1);
            let text = s.subrange(i, j);
            if valid_numeral(text) {
                after(seq![TokenView::Number(text)], lex_from(s, j))
            } else {
                Err(LexErrorView::InvalidNumber(text))
            }
        } else if alphabetic(c) {
            proof {
                lemma_word_run_bound(s, i + 1);
            }
            let j = i + 1 + word_run(s, i + 1);
            let name = lower_of(s.subrange(i, j));
            match named_operator(name) {
                Some(t) => after(seq![t], lex_from(s, j)),
                None => Err(LexErrorView::UnknownOperator(name)),
            }
        } else {
            Err(LexErrorView::UnknownCharacter(c))
        }
    }
}

/// The tokens of a whole text.
pub open spec fn lex(s: Seq<char>) -> Result<Seq<TokenView>, LexErrorView> {
    lex_from(s, 0)
}

/// Relies on char::is_alphabetic: whether a character is alphabetic.
#[verifier::external_body]
fn is_letter(c: char) -> (r: bool)
    ensures
        r == alphabetic(c),
{
    c.is_alphabetic()
}

/// Relies on str::to_lowercase: the lowercase form depends on the text alone.
#[verifier::external_body]
fn lowercase(s: &str) -> (r: String)
    ensures
        r@ == lower_of(s@),
{
    s.to_lowercase()
}

/// Relies on String::push: appends one character.
#[verifier::external_body]
fn push_char(s: &mut String, c: char)
    ensures
        final(s)@ == old(s)@.push(c),
{
    s.push(c)
}


/// A decimal literal: digits, with at most one point, which has digits on
/// both sides.
pub open spec fn decimal_literal(s: Seq<char>) -> bool {
    &&& s.len() > 0
    &&& is_digit(s[0])
    &&& is_digit(s.last())
    &&& forall|k: int| 0 <= k < s.len() ==> is_numeral_char(#[trigger] s[k])
    &&& dot_count(s) <= 1
}

proof fn lemma_numeral_run_to_end(s: Seq<char>, i: int)
    requires
        0 <= i <= s.len(),
        forall|k: int| i <= k < s.len() ==> is_numeral_char(#[trigger] s[k]),
    ensures
        numeral_run(s, i) == s.len() - i,
    decreases s.len() - i,
{
    if i < s.len() {
        lemma_numeral_run_to_end(s, i + 1);
    }
}

proof fn lemma_dot_count_bound(t: Seq<char>)
    ensures
        dot_count(t) <= t.len(),
    decreases t.len(),
{
    if t.len() > 0 {
        lemma_dot_count_bound(t.drop_last());
    }
}

/// A decimal literal tokenizes to a single number that holds its text.
pub proof fn lemma_decimal_literal_is_one_number(s: Seq<char>)
    requires
        decimal_literal(s),
    ensures
        lex(s) == Ok::<Seq<TokenView>, LexErrorView>(seq![TokenView::Number(s)]),
{
    lemma_numeral_run_to_end(s, 1);
    lemma_dot_count_bound(s.drop_last());
    assert(s.subrange(0, s.len() as int) =~= s);
    assert(symbol(s[0]) is None);
    assert(lex_from(s, s.len() as int) == Ok::<Seq<TokenView>, LexErrorView>(seq![]));
    assert(seq![TokenView::Number(s)] + seq![] =~= seq![TokenView::Number(s)]);
}

pub open spec fn lexed_view(r: Result<Vec<Token>, LexError>) -> Result<Seq<TokenView>, LexErrorView> {
    match r {
        Ok(ts) => Ok(tokens_view(ts@)),
        Err(e) => Err(e@),
    }
}

proof fn lemma_after_push(
    p: Seq<TokenView>,
    t: TokenView,
    rest: Result<Seq<TokenView>, LexErrorView>,
)
    ensures
        after(p, after(seq![t], rest)) == after(p.push(t), rest),
{
    if let Ok(ts) = rest {
        assert(p + (seq![t] + ts) =~= p.push(t) + ts);
    }
}

fn numeral_char(c: char) -> (r: bool)
    ensures
        r == is_numeral_char(c),
{
    ('0' <= c && c <= '9') || c == '.'
}

/// Whether two texts hold the same characters.
fn same_text(a: &str, b: &str) -> (r: bool)
    ensures
        r == (a@ == b@),
{
    let n = a.unicode_len();
    if n != b.unicode_len() {
        return false;
    }
    let mut k: usize = 0;
    while k < n
        invariant
            n == a@.len(),
            n == b@.len(),
            k <= n,
            forall|m: int| 0 <= m < k ==> a@[m] == b@[m],
        decreases n - k,
    {
        if a.get_char(k) != b.get_char(k) {
            return false;
        }
        k += 1;
    }
    assert(a@ =~= b@);
    true
}

/// The token that the single character `c` stands for, if any.
pub fn symbol_token(c: char) -> (r: Option<Token>)
    ensures
        match r {
            Some(t) => symbol(c) == Some(t@),
            None => symbol(c) is None,
        },
{
    match c {
        '+' => Some(Token::Plus),
        '-' => Some(Token::Minus),
        '*' => Some(Token::Multiplication),
        '/' => Some(Token::Division),
        '%' => Some(Token::Modulo),
        '^' => Some(Token::Power),
        '!' => Some(Token::Factorial),
        '~' => Some(Token::Negation),
        '(' => Some(Token::OpeningParentheses),
        ')' => Some(Token::ClosingParentheses),
        _ => None,
    }
}

/// The operator that the lowercase word `name` names, if any.
pub fn operator_named(name: &str) -> (r: Option<Token>)
    ensures
        match r {
            Some(t) => named_operator(name@) == Some(t@),
            None => named_operator(name@) is None,
        },
{
    if same_text(name, "cos") {
        Some(Token::Cos)
    } else if same_text(name, "sin") {
        Some(Token::Sin)
    } else if same_text(name, "tan") {
        Some(Token::Tan)
    } else if same_text(name, "asin") {
        Some(Token::ArcSin)
    } else if same_text(name, "acos") {
        Some(Token::ArcCos)
    } else if same_text(name, "atan") {
        Some(Token::ArcTan)
    } else if same_text(name, "ln") {
        Some(Token::NaturalLogarithm)
    } else if same_text(name, "log") {
        Some(Token::Logarithm)
    } else if same_text(name, "p") {
        Some(Token::Permutation)
    } else if same_text(name, "c") {
        Some(Token::Combination)
    } else if same_text(name, "sqrt") {
        Some(Token::SquareRoot)
    } else {
        None
    }
}

/// The run of digits and points that starts at `start`: where it ends, and
/// its text.
fn scan_numeral(chars: &Vec<char>, start: usize) -> (r: (usize, String))
    requires
        start < chars.len(),
        is_numeral_char(chars@[start as int]),
    ensures
        r.0 == start + 1 + numeral_run(chars@, start + 1),
        r.1@ == chars@.subrange(start as int, r.0 as int),
{
    let mut text = String::new();
    push_char(&mut text, chars[start]);
    let mut j: usize = start + 1;
    while j < chars.len() && numeral_char(chars[j])
        invariant
            start < j <= chars.len(),
            j + numeral_run(chars@, j as int) == start + 1 + numeral_run(chars@, start + 1),
            text@ == chars@.subrange(start as int, j as int),
        decreases chars.len() - j,
    {
        push_char(&mut text, chars[j]);
        assert(text@ =~= chars@.subrange(start as int, j + 1));
        j += 1;
    }
    (j, text)
}

/// Whether the run of digits and points in `chars[start..end]` is a
/// decimal number.
fn numeral_is_valid(chars: &Vec<char>, start: usize, end: usize) -> (r: bool)
    requires
        start < end <= chars.len(),
    ensures
        r == valid_numeral(chars@.subrange(start as int, end as int)),
{
    let mut dots: usize = 0;
    let mut k: usize = start;
    while k < end
        invariant
            start <= k <= end <= chars.len(),
            dots <= k - start,
            dots == dot_count(chars@.subrange(start as int, k as int)),
        decreases end - k,
    {
        assert(chars@.subrange(start as int, k + 1).drop_last() =~= chars@.subrange(
            start as int,
            k as int,
        ));
        if chars[k] == '.' {
            dots += 1;
        }
        k += 1;
    }
    dots <= 1 && dots < end - start
}

/// The run of alphabetic characters that starts at `start`: where it ends,
/// and its text.
fn scan_word(chars: &Vec<char>, start: usize) -> (r: (usize, String))
    requires
        start < chars.len(),
        alphabetic(chars@[start as int]),
    ensures
        r.0 == start + 1 + word_run(chars@, start + 1),
        r.1@ == chars@.subrange(start as int, r.0 as int),
{
    let mut word = String::new();
    push_char(&mut word, chars[start]);
    let mut j: usize = start + 1;
    while j < chars.len() && is_letter(chars[j])
        invariant
            start < j <= chars.len(),
            j + word_run(chars@, j as int) == start + 1 + word_run(chars@, start + 1),
            word@ == chars@.subrange(start as int, j as int),
        decreases chars.len() - j,
    {
        push_char(&mut word, chars[j]);
        assert(word@ =~= chars@.subrange(start as int, j + 1));
        j += 1;
    }
    (j, word)
}

/// Splits `input` into tokens, scanning left to right.
///
/// Spaces and line breaks separate tokens. A number is the longest run of
/// digits and points, and must hold at most one point. A word is the longest
/// run of letters; lowercased, it must name an operator.
pub fn parse(input: &str) -> (r: Result<Vec<Token>, LexError>)
    ensures
        lexed_view(r) == lex(input@),
{
    let n = input.unicode_len();
    let mut chars: Vec<char> = Vec::new();
    let mut k: usize = 0;
    while k < n
        invariant
            n == input@.len(),
            k <= n,
            chars@ == input@.subrange(0, k as int),
        decreases n - k,
    {
        chars.push(input.get_char(k));
        assert(chars@ =~= input@.subrange(0, k + 1));
        k += 1;
    }
    assert(chars@ =~= input@);
    let mut out: Vec<Token> = Vec::new();
    let mut i: usize = 0;
    while i < n
        invariant
            n == chars.len(),
            chars@ == input@,
            i <= n,
            lex(chars@) == after(tokens_view(out@), lex_from(chars@, i as int)),
        decreases n - i,
    {
        let c = chars[i];
        let ghost before = out@;
        match symbol_token(c) {
            Some(t) => {
                proof {
                    lemma_after_push(tokens_view(before), t@, lex_from(chars@, i + 1));
                    lemma_tokens_view_push(before, t);
                }
                out.push(t);
                i += 1;
            },
            None => {
                if c == ' ' || c == '\n' || c == '\r' {
                    i += 1;
                } else if numeral_char(c) {
                    let (j, text) = scan_numeral(&chars, i);
                    proof {
                        lemma_numeral_run_bound(chars@, i + 1);
                    }
                    if numeral_is_valid(&chars, i, j) {
                        let t = Token::Number(text);
                        proof {
                            lemma_after_push(tokens_view(before), t@, lex_from(chars@, j as int));
                            lemma_tokens_view_push(before, t);
                        }
                        out.push(t);
                        i = j;
                    } else {
                        return Err(LexError::InvalidNumber(text));
                    }
                } else if is_letter(c) {
                    let (j, word) = scan_word(&chars, i);
                    proof {
                        lemma_word_run_bound(chars@, i + 1);
                    }
                    let name = lowercase(word.as_str());
                    match operator_named(name.as_str()) {
                        Some(t) => {
                            proof {
                                lemma_after_push(
                                    tokens_view(before),
                                    t@,
                                    lex_from(chars@, j as int),
                                );
                                lemma_tokens_view_push(before, t);
                            }
                            out.push(t);
                            i = j;
                        },
                        None => {
                            return Err(LexError::UnknownOperator(name));
                        },
                    }
                } else {
                    return Err(LexError::UnknownCharacter(c));
                }
            },
        }
    }
    assert(tokens_view(out@) + seq![] =~= tokens_view(out@));
    Ok(out)
}

} // verus!
