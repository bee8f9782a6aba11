use crate::lexer::{Operations, Parenthesis, TokenTypes};
use crate::number::{
    checked_add, checked_div, checked_mul, checked_sub, div_bits, fits, mul_bits, Number,
};
use vstd::prelude::*;

verus! {

/// Why an evaluation failed.
#[derive(Clone, Copy, Debug, PartialEq, Eq, Structural)]
pub enum EvalError {
    /// Opening and closing parentheses do not pair up.
    UnbalancedParentheses,
    /// A divisor is zero.
    DivisionByZero,
    /// A result leaves the range of the fixed-point representation.
    Overflow,
}

/// Opening parentheses minus closing ones.
pub open spec fn balance(ts: Seq<TokenTypes>) -> int
    decreases ts.len(),
{
    if ts.len() == 0 {
        0
    } else {
        balance(ts.drop_last()) + match ts.last() {
            TokenTypes::Parenthesis(Parenthesis::LParen) => 1int,
            TokenTypes::Parenthesis(Parenthesis::RParen) => -1int,
            _ => 0int,
        }
    }
}

/// The operators among the tokens, in order.
pub open spec fn operators(ts: Seq<TokenTypes>) -> Seq<Operations>
    decreases ts.len(),
{
    if ts.len() == 0 {
        seq![]
    } else {
        match ts.last() {
            TokenTypes::Operation(op) => operators(ts.drop_last()).push(op),
            _ => operators(ts.drop_last()),
        }
    }
}

/// The numbers among the tokens, in order.
pub open spec fn arguments(ts: Seq<TokenTypes>) -> Seq<Number>
    decreases ts.len(),
{
    if ts.len() == 0 {
        seq![]
    } else {
        match ts.last() {
            TokenTypes::Number(n) => arguments(ts.drop_last()).push(n),
            _ => arguments(ts.drop_last()),
        }
    }
}

/// A checked result: `Overflow` where the raw bits do not fit.
pub open spec fn checked(x: int) -> Result<Number, EvalError> {
    if fits(x) {
        Ok(Number { bits: x as i32 })
    } else {
        Err(EvalError::Overflow)
    }
}

/// One step of reducing the arguments with `op`: `acc` so far, `arg` the
/// `k`-th argument taken, counting from the top of the stack.
pub open spec fn step(op: Operations, acc: Number, arg: Number, k: int) -> Result<Number, EvalError> {
    match op {
        Operations::Plus => checked(acc.bits + arg.bits),
        Operations::Minus => checked(acc.bits - arg.bits),
        Operations::Multiply => if k == 0 {
            Ok(arg)
        } else {
            checked(mul_bits(acc.bits as int, arg.bits as int))
        },
        Operations::Divide => if arg.bits == 0 {
            Err(EvalError::DivisionByZero)
        } else if k == 0 {
            Ok(arg)
        } else {
            checked(div_bits(acc.bits as int, arg.bits as int))
        },
    }
}

/// Reduces the arguments in stack order (top first, the reverse of the order
/// they were pushed), from the `k`-th one taken on, with `acc` so far.
pub open spec fn reduce_from(op: Operations, args: Seq<Number>, k: int, acc: Number) -> Result<
    Number,
    EvalError,
>
    decreases args.len() - k,
{
    if k < 0 || k >= args.len() {
        Ok(acc)
    } else {
        match step(op, acc, args[args.len() - 1 - k], k) {
            Ok(v) => reduce_from(op, args, k + 1, v),
            Err(e) => Err(e),
        }
    }
}

/// The value of `op` over the whole argument stack, starting from zero.
pub open spec fn reduce(op: Operations, args: Seq<Number>) -> Result<Number, EvalError> {
    reduce_from(op, args, 0, Number { bits: 0 })
}

/// The reported values: operators are taken from the top of their stack, each
/// reducing the same full argument stack; the first failure ends it.
pub open spec fn reduce_all(ops: Seq<Operations>, args: Seq<Number>) -> Result<
    Seq<Number>,
    EvalError,
>
    decreases ops.len(),
{
    if ops.len() == 0 {
        Ok(seq![])
    } else {
        match reduce(ops.last(), args) {
            Err(e) => Err(e),
            Ok(v) => match reduce_all(ops.drop_last(), args) {
                Err(e) => Err(e),
                Ok(rest) => Ok(seq![v] + rest),
            },
        }
    }
}

/// What evaluating the tokens gives.
pub open spec fn evaluation(ts: Seq<TokenTypes>) -> Result<Seq<Number>, EvalError> {
    if balance(ts) != 0 {
        Err(EvalError::UnbalancedParentheses)
    } else {
        reduce_all(operators(ts), arguments(ts))
    }
}

/// Two tokens of the same kind and payload, but for the text of a `Str`.
pub open spec fn same_but_text(a: TokenTypes, b: TokenTypes) -> bool {
    a == b || (a is Str && b is Str)
}

/// Evaluation never reads the text of a `Str`: token sequences that differ
/// only there have the same balance, operators and arguments.
pub proof fn lemma_evaluation_ignores_text(t1: Seq<TokenTypes>, t2: Seq<TokenTypes>)
    requires
        t1.len() == t2.len(),
        forall|i: int| 0 <= i < t1.len() ==> same_but_text(#[trigger] t1[i], t2[i]),
    ensures
        balance(t1) == balance(t2),
        operators(t1) == operators(t2),
        arguments(t1) == arguments(t2),
        evaluation(t1) == evaluation(t2),
    decreases t1.len(),
{
    if t1.len() > 0 {
        let (a, b) = (t1.drop_last(), t2.drop_last());
        assert forall|i: int| 0 <= i < a.len() implies same_but_text(#[trigger] a[i], b[i]) by {
            assert(same_but_text(t1[i], t2[i]));
        }
        lemma_evaluation_ignores_text(a, b);
        assert(same_but_text(t1[t1.len() - 1], t2[t2.len() - 1]));
    }
}

/// The view of an evaluation's result.
pub open spec fn outcome(r: Result<Vec<Number>, EvalError>) -> Result<Seq<Number>, EvalError> {
    match r {
        Ok(v) => Ok(v@),
        Err(e) => Err(e),
    }
}

fn apply_step(op: Operations, acc: Number, arg: Number, k: usize) -> (r: Result<Number, EvalError>)
    ensures
        r == step(op, acc, arg, k as int),
{
    let v = match op {
        Operations::Plus => checked_add(acc, arg),
        Operations::Minus => checked_sub(acc, arg),
        Operations::Multiply => {
            if k == 0 {
                Some(arg)
            } else {
                checked_mul(acc, arg)
            }
        },
        Operations::Divide => {
            if arg.bits == 0 {
                return Err(EvalError::DivisionByZero);
            }
            if k == 0 {
                Some(arg)
            } else {
                checked_div(acc, arg)
            }
        },
    };
    match v {
        Some(n) => Ok(n),
        None => Err(EvalError::Overflow),
    }
}

/// Applies one operator to the whole argument stack, taking the arguments
/// from the top of the stack down.
pub fn apply(op: Operations, args: &Vec<Number>) -> (r: Result<Number, EvalError>)
    ensures
        r == reduce(op, args@),
{
    let mut value = Number { bits: 0 };
    let mut k: usize = 0;
    while k < args.len()
        invariant
            k <= args.len(),
            reduce(op, args@) == reduce_from(op, args@, k as int, value),
        decreases args.len() - k,
    {
        match apply_step(op, value, args[args.len() - 1 - k], k) {
            Ok(v) => {
                value = v;
            },
            Err(e) => {
                return Err(e);
            },
        }
        k += 1;
    }
    Ok(value)
}

/// Evaluates a token sequence by flat reduction: parentheses are only
/// counted, operators and numbers go on two stacks, and each operator, from
/// the top of its stack, reduces the whole argument stack. Returns one value
/// per operator, in the order they were reduced.
pub fn evaluate(tokens: &Vec<TokenTypes>) -> (r: Result<Vec<Number>, EvalError>)
    ensures
        outcome(r) == evaluation(tokens@),
{
    let mut opened: usize = 0;
    let mut closed: usize = 0;
    let mut op_stack: Vec<Operations> = Vec::new();
    let mut arg_stack: Vec<Number> = Vec::new();
    let mut i: usize = 0;
    while i < tokens.len()
        invariant
            i <= tokens.len(),
            opened + closed <= i,
            opened - closed == balance(tokens@.take(i as int)),
            op_stack@ == operators(tokens@.take(i as int)),
            arg_stack@ == arguments(tokens@.take(i as int)),
        decreases tokens.len() - i,
    {
        assert(tokens@.take(i + 1).drop_last() == tokens@.take(i as int));
        match &tokens[i] {
            TokenTypes::Parenthesis(Parenthesis::LParen) => {
                opened += 1;
            },
            TokenTypes::Parenthesis(Parenthesis::RParen) => {
                closed += 1;
            },
            TokenTypes::Operation(op) => {
                op_stack.push(*op);
            },
            TokenTypes::Number(n) => {
                arg_stack.push(*n);
            },
            _ => {},
        }
        i += 1;
    }
    assert(tokens@.take(tokens.len() as int) == tokens@);
    if opened != closed {
        return Err(EvalError::UnbalancedParentheses);
    }
    let ghost all_ops = op_stack@;
    let mut results: Vec<Number> = Vec::new();
    while op_stack.len() > 0
        invariant
            balance(tokens@) == 0,
            all_ops == operators(tokens@),
            arg_stack@ == arguments(tokens@),
            reduce_all(all_ops, arg_stack@) == match reduce_all(op_stack@, arg_stack@) {
                Ok(rest) => Ok(results@ + rest),
                Err(e) => Err(e),
            },
        decreases op_stack.len(),
    {
        let ghost before = op_stack@;
        let op = op_stack.pop().unwrap();
        assert(before.drop_last() == op_stack@);
        match apply(op, &arg_stack) {
            Ok(v) => {
                let ghost prev = results@;
                results.push(v);
                assert forall|rest: Seq<Number>| prev + (seq![v] + rest) == results@ + rest by {
                    assert(prev + (seq![v] + rest) =~= results@ + rest);
                }
            },
            Err(e) => {
                assert(reduce_all(before, arg_stack@) == Err::<Seq<Number>, EvalError>(e));
                return Err(e);
            },
        }
    }
    assert(results@ + seq![] == results@);
    Ok(results)
}

} // verus!
