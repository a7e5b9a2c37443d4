//! Tree-walk evaluation of an expression to a value or a runtime error.
use vstd::prelude::*;
use crate::expression::{Binary, Expression, Grouping, Ternary, Unary};
use crate::numbers::{equal, is_zero, less, less_equal, negate, num_eq, num_le, num_lt, zero, Numbers, SIGN_BIT};
use crate::token::{duplicate_value, Literal, Token, TokenType};

verus! {

/// A runtime error: a message and, where one is known, the token it
/// concerns.
#[derive(Debug, PartialEq)]
pub struct RuntimeError {
    pub message: String,
    pub token: Option<Token>,
}

/// What evaluation gives: a value (`None` is nil) or a runtime error.
pub type Evaluation = Result<Option<Literal>, RuntimeError>;

impl RuntimeError {
    /// An error without a token.
    pub fn new(message: String) -> (r: Evaluation)
        ensures
            r == Err::<Option<Literal>, RuntimeError>(RuntimeError { message, token: None }),
    {
        Err(RuntimeError { message, token: None })
    }

    /// An error at `token`.
    pub fn with_token(message: String, token: Token) -> (r: Evaluation)
        ensures
            r == Err::<Option<Literal>, RuntimeError>(RuntimeError { message, token: Some(token) }),
    {
        Err(RuntimeError { message, token: Some(token) })
    }

    /// The type error of an arithmetic operator.
    pub fn operands_must_be_numbers(operator: Token) -> (r: Evaluation)
        ensures
            outcome_of(r) == Outcome::Failure("Operands must be numbers."@, Some(operator)),
    {
        Self::with_token(String::from_str("Operands must be numbers."), operator)
    }
}

/// A value as the contracts see it; `Text` is a string value.
pub enum Value {
    Identifier(Seq<char>),
    Text(Seq<char>),
    Number(u64),
    Boolean(bool),
}

pub open spec fn value_of(v: Option<Literal>) -> Option<Value> {
    match v {
        None => None,
        Some(Literal::Identifier(s)) => Some(Value::Identifier(s@)),
        Some(Literal::String(s)) => Some(Value::Text(s@)),
        Some(Literal::Number(n)) => Some(Value::Number(n)),
        Some(Literal::Boolean(b)) => Some(Value::Boolean(b)),
    }
}

/// What an evaluation comes to: a value (`None` is nil), or a failure with
/// its message and, where known, its token.
pub enum Outcome {
    Value(Option<Value>),
    Failure(Seq<char>, Option<Token>),
}

pub open spec fn outcome_of(r: Evaluation) -> Outcome {
    match r {
        Ok(v) => Outcome::Value(value_of(v)),
        Err(e) => Outcome::Failure(e.message@, e.token),
    }
}

pub open spec fn boolean(b: bool) -> Outcome {
    Outcome::Value(Some(Value::Boolean(b)))
}

pub open spec fn number(n: u64) -> Outcome {
    Outcome::Value(Some(Value::Number(n)))
}

/// Truthiness: a boolean is itself, nil is false, everything else is true.
pub open spec fn truthy(v: Option<Value>) -> bool {
    match v {
        Some(Value::Boolean(b)) => b,
        None => false,
        _ => true,
    }
}

/// Equality of values: nil equals only nil, differing kinds are never
/// equal, numbers compare as IEEE numbers, the rest by content.
pub open spec fn values_equal(l: Option<Value>, r: Option<Value>) -> bool {
    match (l, r) {
        (None, None) => true,
        (Some(Value::Number(a)), Some(Value::Number(b))) => num_eq(a, b),
        (Some(Value::Text(a)), Some(Value::Text(b))) => a == b,
        (Some(Value::Boolean(a)), Some(Value::Boolean(b))) => a == b,
        (Some(Value::Identifier(a)), Some(Value::Identifier(b))) => a == b,
        _ => false,
    }
}

/// How a value reads when printed or joined to a string: nil as `nil`,
/// booleans as `true` / `false`, strings and identifiers as themselves, a
/// number as the number system formats it.
pub open spec fn shown<N: Numbers>(numbers: N, v: Option<Value>) -> Seq<char> {
    match v {
        None => "nil"@,
        Some(Value::Boolean(b)) => if b {
            "true"@
        } else {
            "false"@
        },
        Some(Value::Text(s)) => s,
        Some(Value::Identifier(s)) => s,
        Some(Value::Number(n)) => numbers.text_of(n)@,
    }
}

pub open spec fn is_text(v: Option<Value>) -> bool {
    v matches Some(Value::Text(_))
}

/// An arithmetic operator on two numbers, or its type error.
pub open spec fn arithmetic(operator: Token, l: Option<Value>, r: Option<Value>, result: spec_fn(u64, u64) -> u64) -> Outcome {
    match (l, r) {
        (Some(Value::Number(a)), Some(Value::Number(b))) => number(result(a, b)),
        _ => Outcome::Failure("Operands must be numbers."@, Some(operator)),
    }
}

/// A comparison: the IEEE order on two numbers, false otherwise.
pub open spec fn comparison(l: Option<Value>, r: Option<Value>, held: spec_fn(u64, u64) -> bool) -> Outcome {
    match (l, r) {
        (Some(Value::Number(a)), Some(Value::Number(b))) => boolean(held(a, b)),
        _ => boolean(false),
    }
}

/// Binary `operator` applied to the values `l` and `r`.
pub open spec fn binary_outcome<N: Numbers>(numbers: N, operator: Token, l: Option<Value>, r: Option<Value>) -> Outcome {
    let kind = operator.token_type;
    if kind == TokenType::Minus {
        arithmetic(operator, l, r, |a: u64, b: u64| numbers.difference(a, b))
    } else if kind == TokenType::Star {
        arithmetic(operator, l, r, |a: u64, b: u64| numbers.product(a, b))
    } else if kind == TokenType::Slash {
        match (l, r) {
            (Some(Value::Number(a)), Some(Value::Number(b))) => if zero(b) {
                Outcome::Failure("Division by zero."@, Some(operator))
            } else {
                number(numbers.quotient(a, b))
            },
            _ => Outcome::Failure("Operands must be numbers."@, Some(operator)),
        }
    } else if kind == TokenType::Plus {
        match (l, r) {
            (Some(Value::Number(a)), Some(Value::Number(b))) => number(numbers.sum(a, b)),
            _ => if is_text(l) || is_text(r) {
                Outcome::Value(Some(Value::Text(shown(numbers, l) + shown(numbers, r))))
            } else {
                Outcome::Failure("operands must be numbers or strings."@, Some(operator))
            },
        }
    } else if kind == TokenType::Greater {
        comparison(l, r, |a: u64, b: u64| num_lt(b, a))
    } else if kind == TokenType::GreaterEqual {
        comparison(l, r, |a: u64, b: u64| num_le(b, a))
    } else if kind == TokenType::Less {
        comparison(l, r, |a: u64, b: u64| num_lt(a, b))
    } else if kind == TokenType::LessEqual {
        comparison(l, r, |a: u64, b: u64| num_le(a, b))
    } else if kind == TokenType::EqualEqual {
        boolean(values_equal(l, r))
    } else if kind == TokenType::BangEqual {
        boolean(!values_equal(l, r))
    } else {
        Outcome::Failure("Unexpected operator"@, Some(operator))
    }
}

/// Unary `operator` applied to the value `v`.
pub open spec fn unary_outcome(operator: Token, v: Option<Value>) -> Outcome {
    let kind = operator.token_type;
    if kind == TokenType::Minus {
        match v {
            Some(Value::Number(n)) => number(n ^ SIGN_BIT),
            _ => Outcome::Failure("Operands must be numbers."@, Some(operator)),
        }
    } else if kind == TokenType::Bang {
        boolean(!truthy(v))
    } else {
        Outcome::Failure("Unexpected operator"@, Some(operator))
    }
}

/// The evaluation of `e`: left to right, the first failure ends it, and a
/// ternary evaluates only the branch its condition selects.
pub open spec fn evaluation<N: Numbers>(numbers: N, e: Expression) -> Outcome
    decreases e,
{
    match e {
        Expression::Literal(l) => Outcome::Value(value_of(l.value)),
        Expression::Grouping(g) => evaluation(numbers, *g.expression),
        Expression::Unary(u) => match evaluation(numbers, *u.right) {
            Outcome::Value(v) => unary_outcome(u.operator, v),
            failure => failure,
        },
        Expression::Binary(b) => match evaluation(numbers, *b.left) {
            Outcome::Value(x) => match evaluation(numbers, *b.right) {
                Outcome::Value(y) => binary_outcome(numbers, b.operator, x, y),
                failure => failure,
            },
            failure => failure,
        },
        Expression::Ternary(t) => match evaluation(numbers, *t.condition) {
            Outcome::Value(c) => if truthy(c) {
                evaluation(numbers, *t.then_branch)
            } else {
                evaluation(numbers, *t.else_branch)
            },
            failure => failure,
        },
    }
}

/// Evaluates an expression tree; arithmetic on numbers goes through `numbers`.
pub fn interpret<N: Numbers>(expr: &Expression, numbers: &N) -> (r: Evaluation)
    ensures
        outcome_of(r) == evaluation(*numbers, *expr),
{
    evaluate_expression(expr, numbers)
}

fn evaluate_expression<N: Numbers>(expr: &Expression, numbers: &N) -> (r: Evaluation)
    ensures
        outcome_of(r) == evaluation(*numbers, *expr),
    decreases expr, 1nat,
{
    match expr {
        Expression::Binary(b) => evaluate_binary(b, numbers),
        Expression::Grouping(g) => evaluate_grouping(g, numbers),
        Expression::Unary(u) => evaluate_unary(u, numbers),
        Expression::Literal(l) => Ok(duplicate_value(&l.value)),
        Expression::Ternary(t) => evaluate_ternary(t, numbers),
    }
}

fn evaluate_grouping<N: Numbers>(group: &Grouping, numbers: &N) -> (r: Evaluation)
    ensures
        outcome_of(r) == evaluation(*numbers, Expression::Grouping(*group)),
    decreases Expression::Grouping(*group), 0nat,
{
    proof {
        let ghost e = Expression::Grouping(*group);
        assert(decreases_to!(e => e->Grouping_0));
        assert(decreases_to!(*group => group.expression));
    }
    evaluate_expression(&group.expression, numbers)
}

fn evaluate_ternary<N: Numbers>(ternary: &Ternary, numbers: &N) -> (r: Evaluation)
    ensures
        outcome_of(r) == evaluation(*numbers, Expression::Ternary(*ternary)),
    decreases Expression::Ternary(*ternary), 0nat,
{
    proof {
        let ghost e = Expression::Ternary(*ternary);
        assert(decreases_to!(e => e->Ternary_0));
        assert(decreases_to!(*ternary => ternary.condition));
        assert(decreases_to!(*ternary => ternary.then_branch));
        assert(decreases_to!(*ternary => ternary.else_branch));
    }
    match evaluate_expression(&ternary.condition, numbers) {
        Ok(c) => if is_truthy(&c) {
            evaluate_expression(&ternary.then_branch, numbers)
        } else {
            evaluate_expression(&ternary.else_branch, numbers)
        },
        Err(e) => Err(e),
    }
}

fn evaluate_binary<N: Numbers>(binary: &Binary, numbers: &N) -> (r: Evaluation)
    ensures
        outcome_of(r) == evaluation(*numbers, Expression::Binary(*binary)),
    decreases Expression::Binary(*binary), 0nat,
{
    proof {
        let ghost e = Expression::Binary(*binary);
        assert(decreases_to!(e => e->Binary_0));
        assert(decreases_to!(*binary => binary.left));
        assert(decreases_to!(*binary => binary.right));
    }
    let left = match evaluate_expression(&binary.left, numbers) {
        Ok(v) => v,
        Err(e) => return Err(e),
    };
    let right = match evaluate_expression(&binary.right, numbers) {
        Ok(v) => v,
        Err(e) => return Err(e),
    };
    apply_binary(&binary.operator, left, right, numbers)
}

/// Both values, where both are numbers.
fn number_pair(l: &Option<Literal>, r: &Option<Literal>) -> (p: Option<(u64, u64)>)
    ensures
        p is Some == (value_of(*l) matches Some(Value::Number(_)) && value_of(*r) matches Some(
            Value::Number(_),
        )),
        p matches Some((a, b)) ==> value_of(*l) == Some(Value::Number(a)) && value_of(*r) == Some(
            Value::Number(b),
        ),
{
    match l {
        Some(Literal::Number(a)) => match r {
            Some(Literal::Number(b)) => Some((*a, *b)),
            _ => None,
        },
        _ => None,
    }
}

fn is_string_value(v: &Option<Literal>) -> (r: bool)
    ensures
        r == is_text(value_of(*v)),
{
    match v {
        Some(Literal::String(_)) => true,
        _ => false,
    }
}

/// How a value reads when printed or joined to a string.
pub fn display_text<N: Numbers>(v: &Option<Literal>, numbers: &N) -> (t: String)
    ensures
        t@ == shown(*numbers, value_of(*v)),
{
    match v {
        None => String::from_str("nil"),
        Some(Literal::Boolean(b)) => if *b {
            String::from_str("true")
        } else {
            String::from_str("false")
        },
        Some(Literal::String(s)) => s.clone(),
        Some(Literal::Identifier(s)) => s.clone(),
        Some(Literal::Number(n)) => numbers.to_text(*n),
    }
}

/// Applies a binary operator to two values.
fn apply_binary<N: Numbers>(
    operator: &Token,
    l: Option<Literal>,
    rv: Option<Literal>,
    numbers: &N,
) -> (r: Evaluation)
    ensures
        outcome_of(r) == binary_outcome(*numbers, *operator, value_of(l), value_of(rv)),
{
    let kind = operator.token_type;
    let pair = number_pair(&l, &rv);
    if kind == TokenType::Minus || kind == TokenType::Star || kind == TokenType::Slash {
        match pair {
            Some((a, b)) => if kind == TokenType::Minus {
                Ok(Some(Literal::Number(numbers.subtract(a, b))))
            } else if kind == TokenType::Star {
                Ok(Some(Literal::Number(numbers.multiply(a, b))))
            } else if is_zero(b) {
                RuntimeError::with_token(String::from_str("Division by zero."), operator.duplicate())
            } else {
                Ok(Some(Literal::Number(numbers.divide(a, b))))
            },
            None => RuntimeError::operands_must_be_numbers(operator.duplicate()),
        }
    } else if kind == TokenType::Plus {
        match pair {
            Some((a, b)) => Ok(Some(Literal::Number(numbers.add(a, b)))),
            None => if is_string_value(&l) || is_string_value(&rv) {
                let mut text = display_text(&l, numbers);
                let tail = display_text(&rv, numbers);
                text.append(tail.as_str());
                Ok(Some(Literal::String(text)))
            } else {
                RuntimeError::with_token(
                    String::from_str("operands must be numbers or strings."),
                    operator.duplicate(),
                )
            },
        }
    } else if kind == TokenType::Greater || kind == TokenType::GreaterEqual || kind
        == TokenType::Less || kind == TokenType::LessEqual {
        let held = match pair {
            Some((a, b)) => if kind == TokenType::Greater {
                less(b, a)
            } else if kind == TokenType::GreaterEqual {
                less_equal(b, a)
            } else if kind == TokenType::Less {
                less(a, b)
            } else {
                less_equal(a, b)
            },
            None => false,
        };
        Ok(Some(Literal::Boolean(held)))
    } else if kind == TokenType::EqualEqual {
        Ok(Some(Literal::Boolean(evaluate_equal(&l, &rv))))
    } else if kind == TokenType::BangEqual {
        Ok(Some(Literal::Boolean(!evaluate_equal(&l, &rv))))
    } else {
        RuntimeError::with_token(String::from_str("Unexpected operator"), operator.duplicate())
    }
}

fn evaluate_unary<N: Numbers>(unary: &Unary, numbers: &N) -> (r: Evaluation)
    ensures
        outcome_of(r) == evaluation(*numbers, Expression::Unary(*unary)),
    decreases Expression::Unary(*unary), 0nat,
{
    proof {
        let ghost e = Expression::Unary(*unary);
        assert(decreases_to!(e => e->Unary_0));
        assert(decreases_to!(*unary => unary.right));
    }
    match evaluate_expression(&unary.right, numbers) {
        Ok(v) => apply_unary(&unary.operator, v),
        Err(e) => Err(e),
    }
}

/// Applies a unary operator to a value.
fn apply_unary(operator: &Token, v: Option<Literal>) -> (r: Evaluation)
    ensures
        outcome_of(r) == unary_outcome(*operator, value_of(v)),
{
    let kind = operator.token_type;
    if kind == TokenType::Minus {
        match v {
            Some(Literal::Number(n)) => Ok(Some(Literal::Number(negate(n)))),
            _ => RuntimeError::operands_must_be_numbers(operator.duplicate()),
        }
    } else if kind == TokenType::Bang {
        Ok(Some(Literal::Boolean(!is_truthy(&v))))
    } else {
        RuntimeError::with_token(String::from_str("Unexpected operator"), operator.duplicate())
    }
}

/// Truthiness of a value.
pub fn is_truthy(literal: &Option<Literal>) -> (r: bool)
    ensures
        r == truthy(value_of(*literal)),
{
    match literal {
        Some(Literal::Boolean(b)) => *b,
        None => false,
        _ => true,
    }
}

/// Equality of two values.
pub fn evaluate_equal(left: &Option<Literal>, right: &Option<Literal>) -> (r: bool)
    ensures
        r == values_equal(value_of(*left), value_of(*right)),
{
    match (left, right) {
        (None, None) => true,
        (Some(Literal::Number(l)), Some(Literal::Number(r))) => equal(*l, *r),
        (Some(Literal::String(l)), Some(Literal::String(r))) => *l == *r,
        (Some(Literal::Boolean(l)), Some(Literal::Boolean(r))) => *l == *r,
        (Some(Literal::Identifier(l)), Some(Literal::Identifier(r))) => *l == *r,
        _ => false,
    }
}

/// Whether two literals are of the same kind.
pub open spec fn same_kind(a: Literal, b: Literal) -> bool {
    match (a, b) {
        (Literal::Identifier(_), Literal::Identifier(_)) => true,
        (Literal::String(_), Literal::String(_)) => true,
        (Literal::Number(_), Literal::Number(_)) => true,
        (Literal::Boolean(_), Literal::Boolean(_)) => true,
        _ => false,
    }
}

pub open spec fn literal_node(value: Option<Literal>) -> Expression {
    Expression::Literal(crate::expression::Literal { value })
}

pub open spec fn binary_node(left: Expression, operator: Token, right: Expression) -> Expression {
    Expression::Binary(Binary { left: Box::new(left), operator, right: Box::new(right) })
}

/// A literal node evaluates to exactly its value.
pub proof fn literal_evaluates_to_its_value<N: Numbers>(numbers: N, value: Option<Literal>)
    ensures
        evaluation(numbers, literal_node(value)) == Outcome::Value(value_of(value)),
{
}

/// Every number is truthy, zero included, and nil is falsy; so `!` of a
/// number evaluates to false.
pub proof fn numbers_are_truthy<N: Numbers>(numbers: N, n: u64, operator: Token)
    requires
        operator.token_type == TokenType::Bang,
    ensures
        truthy(Some(Value::Number(n))),
        !truthy(None),
        evaluation(
            numbers,
            Expression::Unary(Unary { operator, right: Box::new(literal_node(Some(Literal::Number(n)))) }),
        ) == boolean(false),
{
    assert(evaluation(numbers, literal_node(Some(Literal::Number(n)))) == number(n));
}

/// Dividing a number by a zero of either sign fails with `Division by zero.`
/// at the division operator.
pub proof fn division_by_zero_fails<N: Numbers>(numbers: N, left: Expression, a: u64, operator: Token, right: Expression, b: u64)
    requires
        operator.token_type == TokenType::Slash,
        zero(b),
        evaluation(numbers, left) == number(a),
        evaluation(numbers, right) == number(b),
    ensures
        evaluation(numbers, binary_node(left, operator, right)) == Outcome::Failure(
            "Division by zero."@,
            Some(operator),
        ),
{
}

/// Values of different kinds are never equal, so `==` on them evaluates to
/// false.
pub proof fn mismatched_kinds_never_equal<N: Numbers>(numbers: N, a: Literal, operator: Token, b: Literal)
    requires
        !same_kind(a, b),
        operator.token_type == TokenType::EqualEqual,
    ensures
        !values_equal(value_of(Some(a)), value_of(Some(b))),
        evaluation(
            numbers,
            binary_node(literal_node(Some(a)), operator, literal_node(Some(b))),
        ) == boolean(false),
{
    assert(evaluation(numbers, literal_node(Some(a))) == Outcome::Value(value_of(Some(a))));
    assert(evaluation(numbers, literal_node(Some(b))) == Outcome::Value(value_of(Some(b))));
}

/// A ternary evaluates its condition and then only the branch the condition
/// selects: when the condition is truthy the result is the then-branch's,
/// whatever the else-branch would do (fail included), and the other way
/// round.
pub proof fn ternary_evaluates_only_the_selected_branch<N: Numbers>(
    numbers: N,
    condition: Expression,
    then_branch: Expression,
    else_branch: Expression,
)
    ensures
        evaluation(
            numbers,
            Expression::Ternary(
                Ternary {
                    condition: Box::new(condition),
                    then_branch: Box::new(then_branch),
                    else_branch: Box::new(else_branch),
                },
            ),
        ) == match evaluation(numbers, condition) {
            Outcome::Value(c) => if truthy(c) {
                evaluation(numbers, then_branch)
            } else {
                evaluation(numbers, else_branch)
            },
            failure => failure,
        },
{
}

} // verus!
