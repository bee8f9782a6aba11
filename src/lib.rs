//! A line calculator for a small Lisp-like notation: a lexer that classifies
//! the words of a line, and a flat evaluator that reduces the numbers of the
//! line with each of its operators, in 20.12 fixed-point arithmetic.

pub mod evaluator;
pub mod lexer;
pub mod number;

pub use evaluator::{evaluate, EvalError};
pub use lexer::{lex, Operations, Parenthesis, TokenTypes};
pub use number::Number;

use evaluator::{evaluation, lemma_evaluation_ignores_text, outcome, same_but_text};
use lexer::{lexes, padded, word_token, words};
use vstd::prelude::*;

verus! {

/// Lexing a line fixes its evaluation: any two token sequences that the same
/// line lexes to evaluate alike.
pub proof fn lemma_lexing_determines_evaluation(
    line: Seq<char>,
    t1: Seq<TokenTypes>,
    t2: Seq<TokenTypes>,
)
    requires
        lexes(line, t1),
        lexes(line, t2),
    ensures
        evaluation(t1) == evaluation(t2),
{
    let ws = words(padded(line));
    assert forall|i: int| 0 <= i < t1.len() implies same_but_text(#[trigger] t1[i], t2[i]) by {
        assert(word_token(ws[i], t1[i]));
        assert(word_token(ws[i], t2[i]));
    }
    lemma_evaluation_ignores_text(t1, t2);
}

/// Lexes and evaluates one line: the values reported, one per operator, or
/// the failure that ended the evaluation.
pub fn repl(script: String) -> (r: Result<Vec<Number>, EvalError>)
    ensures
        exists|tokens: Seq<TokenTypes>| lexes(script@, tokens) && outcome(r) == evaluation(tokens),
{
    let tokens = lex(&script);
    evaluate(&tokens)
}

} // verus!
