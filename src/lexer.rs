use crate::number::{decimal_text, parsed_bits, Number};
use vstd::prelude::*;
use vstd::string::StrSliceExecFns;
use vstd::string::StringExecFns;

verus! {

/// The four arithmetic operators.
#[derive(Clone, Copy, Debug, PartialEq, Eq, Structural)]
pub enum Operations {
    Plus,
    Minus,
    Multiply,
    Divide,
}

/// The two sides of a parenthesis.
#[derive(Clone, Copy, Debug, PartialEq, Eq, Structural)]
pub enum Parenthesis {
    LParen,
    RParen,
}

/// A classified word of the source text.
#[derive(Debug, PartialEq)]
pub enum TokenTypes {
    EOF,
    Parenthesis(Parenthesis),
    Operation(Operations),
    Number(Number),
    Str(String),
}

impl Operations {
    /// The operator's symbol.
    pub open spec fn spec_text(&self) -> Seq<char> {
        match self {
            Operations::Plus => "+"@,
            Operations::Minus => "-"@,
            Operations::Multiply => "*"@,
            Operations::Divide => "/"@,
        }
    }

    /// Renders the operator as its symbol.
    pub fn to_text(&self) -> (r: String)
        ensures
            r@ == self.spec_text(),
    {
        match self {
            Operations::Plus => String::from_str("+"),
            Operations::Minus => String::from_str("-"),
            Operations::Multiply => String::from_str("*"),
            Operations::Divide => String::from_str("/"),
        }
    }
}

impl Parenthesis {
    /// The parenthesis character.
    pub open spec fn spec_text(&self) -> Seq<char> {
        match self {
            Parenthesis::LParen => "("@,
            Parenthesis::RParen => ")"@,
        }
    }

    /// Renders the parenthesis as its character.
    pub fn to_text(&self) -> (r: String)
        ensures
            r@ == self.spec_text(),
    {
        match self {
            Parenthesis::LParen => String::from_str("("),
            Parenthesis::RParen => String::from_str(")"),
        }
    }
}

impl TokenTypes {
    /// The trace rendering `Kind(payload)`.
    pub open spec fn spec_text(&self) -> Seq<char> {
        match self {
            TokenTypes::EOF => "EOF"@,
            TokenTypes::Parenthesis(p) => "Parenthesis("@ + p.spec_text() + ")"@,
            TokenTypes::Operation(op) => "Operation("@ + op.spec_text() + ")"@,
            TokenTypes::Number(n) => "Number("@ + decimal_text(n.bits) + ")"@,
            TokenTypes::Str(s) => "Str("@ + s@ + ")"@,
        }
    }

    /// Renders the token for tracing, as `Kind(payload)`.
    pub fn to_text(&self) -> (r: String)
        ensures
            r@ == self.spec_text(),
    {
        let (head, payload) = match self {
            TokenTypes::EOF => {
                return String::from_str("EOF");
            },
            TokenTypes::Parenthesis(p) => (String::from_str("Parenthesis("), p.to_text()),
            TokenTypes::Operation(op) => (String::from_str("Operation("), op.to_text()),
            TokenTypes::Number(n) => (String::from_str("Number("), n.render()),
            TokenTypes::Str(s) => (String::from_str("Str("), s.clone()),
        };
        head.concat(payload.as_str()).concat(")")
    }
}

/// The lower-case form of a text.
pub uninterp spec fn lower_of(s: Seq<char>) -> Seq<char>;

/// Relies on `str::to_lowercase`: the result depends on the characters alone.
#[verifier::external_body]
fn lowercase(s: &str) -> (r: String)
    ensures
        r@ == lower_of(s@),
{
    s.to_lowercase()
}

/// Relies on `String::push`: appends one character.
#[verifier::external_body]
fn push_char(s: &mut String, c: char)
    ensures
        final(s)@ == old(s)@.push(c),
{
    s.push(c)
}

/// Unicode's `White_Space` property, the one that splitting on whitespace uses.
pub open spec fn is_space(c: char) -> bool {
    ('\u{9}' <= c && c <= '\u{d}') || c == ' ' || c == '\u{85}' || c == '\u{a0}'
        || c == '\u{1680}' || ('\u{2000}' <= c && c <= '\u{200a}') || c == '\u{2028}'
        || c == '\u{2029}' || c == '\u{202f}' || c == '\u{205f}' || c == '\u{3000}'
}

fn is_space_char(c: char) -> (r: bool)
    ensures
        r == is_space(c),
{
    ('\u{9}' <= c && c <= '\u{d}') || c == ' ' || c == '\u{85}' || c == '\u{a0}'
        || c == '\u{1680}' || ('\u{2000}' <= c && c <= '\u{200a}') || c == '\u{2028}'
        || c == '\u{2029}' || c == '\u{202f}' || c == '\u{205f}' || c == '\u{3000}'
}

/// The text with a space put before and after every parenthesis.
pub open spec fn padded(s: Seq<char>) -> Seq<char>
    decreases s.len(),
{
    if s.len() == 0 {
        s
    } else {
        let c = s.last();
        if c == '(' || c == ')' {
            padded(s.drop_last()) + seq![' ', c, ' ']
        } else {
            padded(s.drop_last()).push(c)
        }
    }
}

/// Splitting state after reading `s`: the words completed so far, and the word
/// being read.
pub open spec fn split_state(s: Seq<char>) -> (Seq<Seq<char>>, Seq<char>)
    decreases s.len(),
{
    if s.len() == 0 {
        (seq![], seq![])
    } else {
        let (done, cur) = split_state(s.drop_last());
        let c = s.last();
        if !is_space(c) {
            (done, cur.push(c))
        } else if cur.len() > 0 {
            (done.push(cur), seq![])
        } else {
            (done, seq![])
        }
    }
}

/// The maximal runs of non-whitespace characters of `s`, in order.
pub open spec fn words(s: Seq<char>) -> Seq<Seq<char>> {
    let (done, cur) = split_state(s);
    if cur.len() > 0 {
        done.push(cur)
    } else {
        done
    }
}

/// The token that the word `w` lexes to, up to the text that a `Str` holds.
pub open spec fn word_token(w: Seq<char>, t: TokenTypes) -> bool {
    if w == seq!['('] {
        t == TokenTypes::Parenthesis(Parenthesis::LParen)
    } else if w == seq![')'] {
        t == TokenTypes::Parenthesis(Parenthesis::RParen)
    } else if w == seq!['+'] {
        t == TokenTypes::Operation(Operations::Plus)
    } else if w == seq!['-'] {
        t == TokenTypes::Operation(Operations::Minus)
    } else if w == seq!['*'] {
        t == TokenTypes::Operation(Operations::Multiply)
    } else if w == seq!['/'] {
        t == TokenTypes::Operation(Operations::Divide)
    } else {
        match parsed_bits(lower_of(w)) {
            Some(b) => t == TokenTypes::Number(Number { bits: b }),
            None => t is Str && t->Str_0@ == lower_of(w),
        }
    }
}

/// `tokens` is what lexing `source` gives: one token for each word of the
/// padded source, in order.
pub open spec fn lexes(source: Seq<char>, tokens: Seq<TokenTypes>) -> bool {
    let ws = words(padded(source));
    &&& tokens.len() == ws.len()
    &&& forall|i: int| 0 <= i < ws.len() ==> #[trigger] word_token(ws[i], tokens[i])
}

/// The characters of `s` with every parenthesis padded by spaces.
fn pad(s: &str) -> (r: Vec<char>)
    ensures
        r@ == padded(s@),
{
    let n = s.unicode_len();
    let mut out: Vec<char> = Vec::new();
    let mut i: usize = 0;
    while i < n
        invariant
            n == s@.len(),
            i <= n,
            out@ == padded(s@.take(i as int)),
        decreases n - i,
    {
        let c = s.get_char(i);
        assert(s@.take(i + 1).drop_last() == s@.take(i as int));
        if c == '(' || c == ')' {
            out.push(' ');
            out.push(c);
            out.push(' ');
            assert(out@ == padded(s@.take(i as int)) + seq![' ', c, ' ']);
        } else {
            out.push(c);
        }
        i += 1;
    }
    assert(s@.take(n as int) == s@);
    out
}

/// Splits `chars` on runs of whitespace, dropping empty words.
fn split_words(chars: &Vec<char>) -> (r: Vec<String>)
    ensures
        r@.map_values(|w: String| w@) == words(chars@),
{
    let mut done: Vec<String> = Vec::new();
    let mut cur = String::new();
    let mut i: usize = 0;
    while i < chars.len()
        invariant
            i <= chars.len(),
            (done@.map_values(|w: String| w@), cur@) == split_state(chars@.take(i as int)),
        decreases chars.len() - i,
    {
        let c = chars[i];
        assert(chars@.take(i + 1).drop_last() == chars@.take(i as int));
        if !is_space_char(c) {
            push_char(&mut cur, c);
        } else if cur.unicode_len() > 0 {
            let w = cur;
            cur = String::new();
            done.push(w);
            assert(done@.map_values(|w: String| w@) == split_state(chars@.take(i as int)).0.push(w@));
        }
        i += 1;
    }
    assert(chars@.take(chars.len() as int) == chars@);
    if cur.unicode_len() > 0 {
        done.push(cur);
        assert(done@.map_values(|w: String| w@) == words(chars@));
    }
    done
}

/// The parenthesis recognizer: `(` or `)` exactly.
pub fn try_parse_parenthesis(token: &str) -> (r: Option<TokenTypes>)
    ensures
        r == (if token@ == seq!['('] {
            Some(TokenTypes::Parenthesis(Parenthesis::LParen))
        } else if token@ == seq![')'] {
            Some(TokenTypes::Parenthesis(Parenthesis::RParen))
        } else {
            None
        }),
{
    if token.unicode_len() == 1 {
        let c = token.get_char(0);
        assert(token@ == seq![c]);
        if c == '(' {
            return Some(TokenTypes::Parenthesis(Parenthesis::LParen));
        } else if c == ')' {
            return Some(TokenTypes::Parenthesis(Parenthesis::RParen));
        }
    }
    None
}

/// The operator recognizer: `+`, `-`, `*` or `/` exactly.
pub fn try_parse_op(token: &str) -> (r: Option<TokenTypes>)
    ensures
        r == (if token@ == seq!['+'] {
            Some(TokenTypes::Operation(Operations::Plus))
        } else if token@ == seq!['-'] {
            Some(TokenTypes::Operation(Operations::Minus))
        } else if token@ == seq!['*'] {
            Some(TokenTypes::Operation(Operations::Multiply))
        } else if token@ == seq!['/'] {
            Some(TokenTypes::Operation(Operations::Divide))
        } else {
            None
        }),
{
    if token.unicode_len() == 1 {
        let c = token.get_char(0);
        assert(token@ == seq![c]);
        if c == '+' {
            return Some(TokenTypes::Operation(Operations::Plus));
        } else if c == '-' {
            return Some(TokenTypes::Operation(Operations::Minus));
        } else if c == '*' {
            return Some(TokenTypes::Operation(Operations::Multiply));
        } else if c == '/' {
            return Some(TokenTypes::Operation(Operations::Divide));
        }
    }
    None
}

/// The number recognizer: a decimal fixed-point literal.
pub fn try_parse_number(token: &str) -> (r: Option<TokenTypes>)
    ensures
        r == (match parsed_bits(token@) {
            Some(b) => Some(TokenTypes::Number(Number { bits: b })),
            None => None,
        }),
{
    match Number::parse(token) {
        Some(n) => Some(TokenTypes::Number(n)),
        None => None,
    }
}

/// Classifies one word, taking the first recognizer that matches:
/// parenthesis, operator, number; else a `Str` of its lower-case form.
/// Case folding leaves parentheses and operator symbols as they are, so only
/// the number recognizer and the fallback see the folded word.
fn classify(w: &str) -> (t: TokenTypes)
    ensures
        word_token(w@, t),
{
    if let Some(t) = try_parse_parenthesis(w) {
        return t;
    }
    if let Some(t) = try_parse_op(w) {
        return t;
    }
    let lower = lowercase(w);
    match try_parse_number(lower.as_str()) {
        Some(t) => t,
        None => TokenTypes::Str(lower),
    }
}

/// Lexes a line: pads every parenthesis with spaces, splits on whitespace and
/// classifies each word. Never fails; one token per word. Case folding is
/// applied word by word, which is the same as folding the whole line first:
/// no character folds to or from whitespace.
pub fn lex(script: &String) -> (r: Vec<TokenTypes>)
    ensures
        lexes(script@, r@),
        r@.len() == words(padded(script@)).len(),
{
    let chars = pad(script.as_str());
    let ws = split_words(&chars);
    let ghost wv = ws@.map_values(|w: String| w@);
    let mut out: Vec<TokenTypes> = Vec::new();
    let mut i: usize = 0;
    while i < ws.len()
        invariant
            i <= ws.len(),
            wv == words(padded(script@)),
            wv == ws@.map_values(|w: String| w@),
            out@.len() == i,
            forall|j: int| 0 <= j < i ==> #[trigger] word_token(wv[j], out@[j]),
        decreases ws.len() - i,
    {
        let t = classify(ws[i].as_str());
        out.push(t);
        i += 1;
    }
    out
}


proof fn lemma_padded_append(a: Seq<char>, b: Seq<char>)
    ensures
        padded(a + b) == padded(a) + padded(b),
    decreases b.len(),
{
    if b.len() == 0 {
        assert(a + b =~= a);
        assert(padded(a) + padded(b) =~= padded(a));
    } else {
        assert((a + b).drop_last() =~= a + b.drop_last());
        assert((a + b).last() == b.last());
        lemma_padded_append(a, b.drop_last());
        let c = b.last();
        if c == '(' || c == ')' {
            assert(padded(a) + padded(b.drop_last()) + seq![' ', c, ' '] =~= padded(a) + (padded(
                b.drop_last(),
            ) + seq![' ', c, ' ']));
        } else {
            assert(padded(a) + padded(b.drop_last()).push(c) =~= (padded(a) + padded(
                b.drop_last(),
            )).push(c));
        }
    }
}

proof fn lemma_split_push(x: Seq<char>, c: char)
    ensures
        split_state(x.push(c)) == ({
            let (done, cur) = split_state(x);
            if !is_space(c) {
                (done, cur.push(c))
            } else if cur.len() > 0 {
                (done.push(cur), seq![])
            } else {
                (done, seq![])
            }
        }),
{
    assert(x.push(c).drop_last() =~= x);
}

proof fn lemma_split_padded_twice(s: Seq<char>)
    ensures
        split_state(padded(padded(s))) == split_state(padded(s)),
    decreases s.len(),
{
    if s.len() > 0 {
        let c = s.last();
        let p = padded(s.drop_last());
        lemma_split_padded_twice(s.drop_last());
        if c == '(' || c == ')' {
            let pad3 = seq![' ', c, ' '];
            lemma_padded_append(p, pad3);
            assert(pad3.drop_last() =~= seq![' ', c]);
            assert(seq![' ', c].drop_last() =~= seq![' ']);
            assert(seq![' '].drop_last() =~= Seq::<char>::empty());
            assert(padded(Seq::<char>::empty()) == Seq::<char>::empty());
            assert(padded(seq![' ']) =~= seq![' ']);
            assert(padded(seq![' ', c]) =~= seq![' ', ' ', c, ' ']);
            assert(padded(pad3) =~= seq![' ', ' ', c, ' ', ' ']);
            let q = padded(p);
            assert(q + seq![' ', ' ', c, ' ', ' '] =~= q.push(' ').push(' ').push(c).push(' ').push(
                ' ',
            ));
            assert(p + pad3 =~= p.push(' ').push(c).push(' '));
            lemma_split_push(q, ' ');
            lemma_split_push(q.push(' '), ' ');
            lemma_split_push(q.push(' ').push(' '), c);
            lemma_split_push(q.push(' ').push(' ').push(c), ' ');
            lemma_split_push(q.push(' ').push(' ').push(c).push(' '), ' ');
            lemma_split_push(p, ' ');
            lemma_split_push(p.push(' '), c);
            lemma_split_push(p.push(' ').push(c), ' ');
        } else {
            assert(p.push(c).drop_last() =~= p);
            lemma_split_push(padded(p), c);
            lemma_split_push(p, c);
        }
    }
}

/// Padding is idempotent as far as lexing goes: a line lexes to the same
/// tokens once its parentheses have already been padded with spaces.
pub proof fn lemma_padding_idempotent(source: Seq<char>, tokens: Seq<TokenTypes>)
    ensures
        lexes(padded(source), tokens) <==> lexes(source, tokens),
{
    lemma_split_padded_twice(source);
}

} // verus!
