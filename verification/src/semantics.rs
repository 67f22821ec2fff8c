//! What statements mean: the value a statement yields and what it does to the scopes, as
//! functions on the models of statements, values and scopes.
use crate::built_in_functions::hostname::native;
use crate::context::Environment;
use crate::error::Fault;
use crate::grammar::spec_next;
use crate::register::{assign, declare_global, declare_local, lookup, put, Binding, Frame};
use crate::statement::{AssignOrder, DeclareScope, Tree};
use crate::text::utf8_lossy;
use crate::token::{Category, Keyword, StringCategory, Token};
use crate::tokenizer::{lex, Lexeme};
use crate::value::Value;
use vstd::prelude::*;
use vstd::utf8::encode_utf8;

verus! {

/// How many rounds a loop may run.
pub const MAX_ROUNDS: u64 = 0x10_0000;

/// How deeply scripts may include each other.
pub const MAX_NESTING: usize = 32;

/// What running a statement yields: a value, or the wish to leave or to go on with the
/// innermost loop.
pub enum Flow {
    /// A value.
    Value(Value),
    /// Leave the innermost loop.
    Break,
    /// Start the next round of the innermost loop.
    Continue,
}

/// What running a statement yields, and the scopes behind it.
pub type Outcome = (Result<Flow, Fault>, Seq<Frame>);

/// The name under which a call binds the arguments that it passes by position.
pub open spec fn anonymous_arguments() -> Seq<char> {
    "_FC_ANON_ARGS"@
}

/// The part of the script that the token spans; empty where the token does not lie inside
/// the script.
pub open spec fn span(source: Seq<u8>, token: Token) -> Seq<u8> {
    if token.position.0 <= token.position.1 <= source.len() {
        source.subrange(token.position.0 as int, token.position.1 as int)
    } else {
        Seq::empty()
    }
}

/// The name that an identifier spells.
pub open spec fn name_of(source: Seq<u8>, token: Token) -> Seq<char> {
    utf8_lossy(span(source, token))
}

/// The worth of a digit; a byte that is no digit counts as zero.
pub open spec fn digit_value(b: u8) -> i64 {
    if '0' as u8 <= b <= '9' as u8 {
        (b - '0' as u8) as i64
    } else if 'a' as u8 <= b <= 'f' as u8 {
        (b - 'a' as u8 + 10) as i64
    } else if 'A' as u8 <= b <= 'F' as u8 {
        (b - 'A' as u8 + 10) as i64
    } else {
        0
    }
}

/// The number that the digits spell in the given radix. A number that does not fit into 64
/// bits wraps around.
pub open spec fn number_of(digits: Seq<u8>, radix: i64) -> i64
    decreases digits.len(),
{
    if digits.len() == 0 {
        0
    } else {
        number_of(digits.drop_last(), radix).wrapping_mul(radix).wrapping_add(
            digit_value(digits.last()),
        )
    }
}

/// The byte that a backslash and `b` stand for.
pub open spec fn escaped(b: u8) -> u8 {
    if b == 'n' as u8 {
        '\n' as u8
    } else if b == 't' as u8 {
        '\t' as u8
    } else if b == 'r' as u8 {
        '\r' as u8
    } else {
        b
    }
}

/// The bytes of a quoted text with each backslash and the byte behind it replaced by the
/// byte they stand for.
pub open spec fn unescape(bytes: Seq<u8>) -> Seq<u8>
    decreases bytes.len(),
{
    if bytes.len() == 0 {
        Seq::empty()
    } else if bytes[0] == '\\' as u8 && bytes.len() >= 2 {
        seq![escaped(bytes[1])] + unescape(bytes.skip(2))
    } else {
        seq![bytes[0]] + unescape(bytes.skip(1))
    }
}

/// The value of a literal.
pub open spec fn literal(source: Seq<u8>, token: Token) -> Result<Value, Fault> {
    match token.category {
        Category::Number(base) => Ok(
            Value::Number(number_of(span(source, token), base.spec_radix() as i64)),
        ),
        Category::String(StringCategory::Unquoteable) => Ok(
            Value::String(utf8_lossy(span(source, token))),
        ),
        Category::String(StringCategory::Quoteable) => Ok(
            Value::String(utf8_lossy(unescape(span(source, token)))),
        ),
        Category::Identifier(Some(Keyword::True)) => Ok(Value::Boolean(true)),
        Category::Identifier(Some(Keyword::False)) => Ok(Value::Boolean(false)),
        Category::Identifier(Some(Keyword::Null)) => Ok(Value::Null),
        _ => Err(Fault::UnexpectedStatement),
    }
}

/// What an operator gives for one operand. The complement of a number `n` is `-1 - n`.
pub open spec fn unary(category: Category, operand: Value) -> Result<Value, Fault> {
    match category {
        Category::Bang => Ok(Value::Boolean(!operand.truthy())),
        Category::Plus | Category::Minus | Category::Tilde => match operand.as_number() {
            None => Err(Fault::TypeMismatch),
            Some(number) => Ok(
                Value::Number(
                    if category == Category::Plus {
                        number
                    } else if category == Category::Minus {
                        0i64.wrapping_sub(number)
                    } else {
                        (-1 - number) as i64
                    },
                ),
            ),
        },
        _ => Err(Fault::WrongOperandCount),
    }
}

/// What an operator of arithmetic, of bits or of order gives for two numbers. Sums,
/// differences and products wrap around; a shift by less than 0 or more than 63 bits gives 0.
pub open spec fn numeric(category: Category, x: i64, y: i64) -> Result<Value, Fault> {
    match category {
        Category::Plus => Ok(Value::Number(x.wrapping_add(y))),
        Category::Minus => Ok(Value::Number(x.wrapping_sub(y))),
        Category::Star => Ok(Value::Number(x.wrapping_mul(y))),
        Category::Slash => if y == 0 {
            Err(Fault::DivisionByZero)
        } else {
            match x.checked_div(y) {
                Some(quotient) => Ok(Value::Number(quotient)),
                None => Ok(Value::Number(x)),
            }
        },
        Category::Percent => if y == 0 {
            Err(Fault::DivisionByZero)
        } else {
            match x.checked_rem(y) {
                Some(remainder) => Ok(Value::Number(remainder)),
                None => Ok(Value::Number(0)),
            }
        },
        Category::Ampersand => Ok(Value::Number(x & y)),
        Category::Pipe => Ok(Value::Number(x | y)),
        Category::Caret => Ok(Value::Number(x ^ y)),
        Category::LessLess => Ok(
            Value::Number(
                if 0 <= y < 64 {
                    x << y
                } else {
                    0
                },
            ),
        ),
        Category::GreaterGreater => Ok(
            Value::Number(
                if 0 <= y < 64 {
                    x >> y
                } else {
                    0
                },
            ),
        ),
        Category::Less => Ok(Value::Boolean(x < y)),
        Category::LessEqual => Ok(Value::Boolean(x <= y)),
        Category::Greater => Ok(Value::Boolean(x > y)),
        Category::GreaterEqual => Ok(Value::Boolean(x >= y)),
        _ => Err(Fault::WrongOperandCount),
    }
}

/// What an operator gives for two operands. `+` joins two texts; `==` and `!=` compare any two
/// values; `&&` and `||` take the truth values of their operands; every other operator takes
/// two values that count as numbers.
pub open spec fn binary(category: Category, left: Value, right: Value) -> Result<Value, Fault> {
    match category {
        Category::EqualEqual => Ok(Value::Boolean(left == right)),
        Category::BangEqual => Ok(Value::Boolean(left != right)),
        Category::AmpersandAmpersand => Ok(Value::Boolean(left.truthy() && right.truthy())),
        Category::PipePipe => Ok(Value::Boolean(left.truthy() || right.truthy())),
        Category::Tilde | Category::Bang => Err(Fault::WrongOperandCount),
        _ => match (left, right) {
            (Value::String(a), Value::String(b)) => if category == Category::Plus {
                Ok(Value::String(a + b))
            } else {
                Err(Fault::TypeMismatch)
            },
            _ => match (left.as_number(), right.as_number()) {
                (Some(x), Some(y)) => numeric(category, x, y),
                _ => Err(Fault::TypeMismatch),
            },
        },
    }
}

/// What an operator gives for its operands.
pub open spec fn apply(category: Category, operands: Seq<Value>) -> Result<Value, Fault> {
    if operands.len() == 1 {
        unary(category, operands[0])
    } else if operands.len() == 2 {
        binary(category, operands[0], operands[1])
    } else {
        Err(Fault::WrongOperandCount)
    }
}

/// The value that an assignment stores: for `=` the value on its right; for a compound
/// assignment, an increment or a decrement, what its operator gives for the old value and
/// the value on its right, or 1. `token` names the variable, for the error.
pub open spec fn stored(category: Category, old: Option<Value>, right: Value, token: Token) -> Result<
    Value,
    Fault,
> {
    if category == Category::Equal {
        Ok(right)
    } else {
        let operator = match category {
            Category::PlusEqual | Category::PlusPlus => Some(Category::Plus),
            Category::MinusEqual | Category::MinusMinus => Some(Category::Minus),
            Category::StarEqual => Some(Category::Star),
            Category::SlashEqual => Some(Category::Slash),
            Category::PercentEqual => Some(Category::Percent),
            Category::LessLessEqual => Some(Category::LessLess),
            Category::GreaterGreaterEqual => Some(Category::GreaterGreater),
            _ => None,
        };
        let operand = if category == Category::PlusPlus || category == Category::MinusMinus {
            Value::Number(1)
        } else {
            right
        };
        match (operator, old) {
            (None, _) => Err(Fault::UnexpectedStatement),
            (Some(_), None) => Err(Fault::UndeclaredVariable(token)),
            (Some(operator), Some(before)) => binary(operator, before, operand),
        }
    }
}

/// The value that an assignment yields.
pub open spec fn yielded(order: AssignOrder, old: Option<Value>, new: Value) -> Value {
    match order {
        AssignOrder::AssignReturn => new,
        AssignOrder::ReturnAssign => match old {
            Some(before) => before,
            None => Value::Null,
        },
    }
}

/// The value that a variable holds, if a scope binds it.
pub open spec fn variable(frames: Seq<Frame>, name: Seq<char>) -> Option<Value> {
    match lookup(frames, name) {
        Some(binding) => Some(binding.value()),
        None => None,
    }
}

/// The scopes without the innermost one; the outermost scope stays.
pub open spec fn pop(frames: Seq<Frame>) -> Seq<Frame> {
    if frames.len() > 1 {
        frames.drop_last()
    } else {
        frames
    }
}

/// What running the statement yields, and the scopes behind it. `source` is the script that
/// the statement was parsed from; `depth` is the number of levels that scripts may still
/// include each other.
pub open spec fn eval(
    tree: Tree,
    frames: Seq<Frame>,
    source: Seq<u8>,
    environment: Environment,
    depth: nat,
) -> Outcome
    decreases depth, 0nat, tree, MAX_ROUNDS + 1,
{
    match tree {
        Tree::Primitive(token) => (
            match literal(source, token) {
                Ok(value) => Ok(Flow::Value(value)),
                Err(e) => Err(e),
            },
            frames,
        ),
        Tree::Variable(token) => (
            match variable(frames, name_of(source, token)) {
                Some(value) => Ok(Flow::Value(value)),
                None => Err(Fault::UndeclaredVariable(token)),
            },
            frames,
        ),
        Tree::Array(token, None) => (
            match variable(frames, name_of(source, token)) {
                Some(Value::Array(items)) => Ok(Flow::Value(Value::Array(items))),
                Some(_) => Err(Fault::NotAnArray),
                None => Err(Fault::UndeclaredVariable(token)),
            },
            frames,
        ),
        Tree::Array(token, Some(index)) => {
            let at = value_of(*index, frames, source, environment, depth);
            match at.0 {
                Err(e) => (Err(e), at.1),
                Ok(position) => (
                    match element(variable(at.1, name_of(source, token)), position, token) {
                        Ok(value) => Ok(Flow::Value(value)),
                        Err(e) => Err(e),
                    },
                    at.1,
                ),
            }
        },
        Tree::Operator(category, operands) => {
            let values = eval_list(operands, 0, Seq::empty(), frames, source, environment, depth);
            match values.0 {
                Err(e) => (Err(e), values.1),
                Ok(list) => (
                    match apply(category, list) {
                        Ok(value) => Ok(Flow::Value(value)),
                        Err(e) => Err(e),
                    },
                    values.1,
                ),
            }
        },
        Tree::Assign(category, order, target, value) => {
            let right = if category == Category::PlusPlus || category == Category::MinusMinus {
                (Ok(Value::Null), frames)
            } else {
                value_of(*value, frames, source, environment, depth)
            };
            match right.0 {
                Err(e) => (Err(e), right.1),
                Ok(operand) => match *target {
                    Tree::Variable(token) | Tree::Array(token, None) => {
                        let name = name_of(source, token);
                        let old = variable(right.1, name);
                        match stored(category, old, operand, token) {
                            Err(e) => (Err(e), right.1),
                            Ok(new) => (
                                Ok(Flow::Value(yielded(order, old, new))),
                                assign(right.1, name, Binding::Value(new)),
                            ),
                        }
                    },
                    Tree::Array(token, Some(index)) => {
                        let at = value_of(*index, right.1, source, environment, depth);
                        match at.0 {
                            Err(e) => (Err(e), at.1),
                            Ok(position) => {
                                let name = name_of(source, token);
                                match slot(variable(at.1, name), position) {
                                    Err(e) => (Err(e), at.1),
                                    Ok((items, i)) => {
                                        let old = if i < items.len() {
                                            Some(items[i])
                                        } else {
                                            None
                                        };
                                        match stored(category, old, operand, token) {
                                            Err(e) => (Err(e), at.1),
                                            Ok(new) => (
                                                Ok(Flow::Value(yielded(order, old, new))),
                                                assign(
                                                    at.1,
                                                    name,
                                                    Binding::Value(
                                                        Value::Array(
                                                            if i < items.len() {
                                                                items.update(i, new)
                                                            } else {
                                                                items.push(new)
                                                            },
                                                        ),
                                                    ),
                                                ),
                                            ),
                                        }
                                    },
                                }
                            },
                        }
                    },
                    _ => (Err(Fault::UnexpectedStatement), right.1),
                },
            }
        },
        Tree::NoOp(_) => (Ok(Flow::Value(Value::Null)), frames),
        Tree::Block(list) => eval_block(list, 0, frames, source, environment, depth),
        Tree::If(condition, then, otherwise) => {
            let test = value_of(*condition, frames, source, environment, depth);
            match test.0 {
                Err(e) => (Err(e), test.1),
                Ok(value) => if value.truthy() {
                    eval(*then, test.1, source, environment, depth)
                } else {
                    match otherwise {
                        Some(other) => eval(*other, test.1, source, environment, depth),
                        None => (Ok(Flow::Value(Value::Null)), test.1),
                    }
                },
            }
        },
        Tree::While(_, _) => eval_while(tree, frames, source, environment, depth, MAX_ROUNDS as nat),
        Tree::Include(name) => {
            let script = value_of(*name, frames, source, environment, depth);
            match script.0 {
                Err(e) => (Err(e), script.1),
                Ok(Value::String(key)) => match environment.script(key) {
                    Err(e) => (Err(Fault::Load(e)), script.1),
                    Ok(text) => if depth == 0 {
                        (Err(Fault::NestingLimit), script.1)
                    } else {
                        eval_script(
                            Seq::empty(),
                            lex(encode_utf8(text), 0),
                            script.1,
                            encode_utf8(text),
                            environment,
                            (depth - 1) as nat,
                        )
                    },
                },
                Ok(_) => (Err(Fault::TypeMismatch), script.1),
            }
        },
        Tree::Declare(scope, names) => (
            Ok(Flow::Value(Value::Null)),
            declare_all(names, 0, scope, frames, source),
        ),
        Tree::Call(token, arguments) => match environment.function(name_of(source, token)) {
            None => (Err(Fault::UnknownFunction(token)), frames),
            Some(function) => {
                let passed = eval_arguments(
                    arguments,
                    0,
                    Seq::empty(),
                    Seq::empty(),
                    frames,
                    source,
                    environment,
                    depth,
                );
                match passed.0 {
                    Err(e) => (Err(e), passed.1),
                    Ok((named, positional)) => (
                        match native(
                            function,
                            passed.1.push(
                                put(named, anonymous_arguments(), Binding::Positional(positional)),
                            ),
                            environment,
                        ) {
                            Ok(value) => Ok(Flow::Value(value)),
                            Err(e) => Err(Fault::Function(e)),
                        },
                        passed.1,
                    ),
                }
            },
        },
        Tree::Break => (Ok(Flow::Break), frames),
        Tree::Continue => (Ok(Flow::Continue), frames),
        Tree::NamedParameter(_, _) | Tree::FunctionDeclaration(_, _, _) | Tree::Return(_) => (
            Err(Fault::UnexpectedStatement),
            frames,
        ),
    }
}

/// The value that running the statement yields; a statement that leaves or goes on with a
/// loop yields none, which is a mismatch.
pub open spec fn value_of(
    tree: Tree,
    frames: Seq<Frame>,
    source: Seq<u8>,
    environment: Environment,
    depth: nat,
) -> (Result<Value, Fault>, Seq<Frame>)
    decreases depth, 0nat, tree, MAX_ROUNDS + 2,
{
    let outcome = eval(tree, frames, source, environment, depth);
    match outcome.0 {
        Err(e) => (Err(e), outcome.1),
        Ok(Flow::Value(value)) => (Ok(value), outcome.1),
        Ok(_) => (Err(Fault::TypeMismatch), outcome.1),
    }
}

/// The element of an array variable at a position.
pub open spec fn element(held: Option<Value>, position: Value, token: Token) -> Result<Value, Fault> {
    match held {
        None => Err(Fault::UndeclaredVariable(token)),
        Some(Value::Array(items)) => match position {
            Value::Number(i) => if 0 <= i < items.len() {
                Ok(items[i as int])
            } else {
                Err(Fault::IndexOutOfRange)
            },
            _ => Err(Fault::TypeMismatch),
        },
        Some(_) => Err(Fault::NotAnArray),
    }
}

/// The items of the array that an element is assigned to, and the index of the element. A
/// variable that no scope binds counts as an empty array; the index may be that of an item
/// or the one behind the last item.
pub open spec fn slot(held: Option<Value>, position: Value) -> Result<(Seq<Value>, int), Fault> {
    let items = match held {
        None => Ok(Seq::<Value>::empty()),
        Some(Value::Array(items)) => Ok(items),
        Some(_) => Err(Fault::NotAnArray),
    };
    match items {
        Err(e) => Err(e),
        Ok(items) => match position {
            Value::Number(i) => if 0 <= i <= items.len() {
                Ok((items, i as int))
            } else {
                Err(Fault::IndexOutOfRange)
            },
            _ => Err(Fault::TypeMismatch),
        },
    }
}

/// The scopes after the names of the list, from index `i` on, are declared without a value.
/// What is no variable is passed over.
pub open spec fn declare_all(
    names: Seq<Tree>,
    i: int,
    scope: DeclareScope,
    frames: Seq<Frame>,
    source: Seq<u8>,
) -> Seq<Frame>
    decreases names.len() - i,
{
    if i < 0 || i >= names.len() {
        frames
    } else {
        let next = match names[i] {
            Tree::Variable(token) => match scope {
                DeclareScope::Local => declare_local(
                    frames,
                    name_of(source, token),
                    Binding::Value(Value::Null),
                ),
                DeclareScope::Global => declare_global(
                    frames,
                    name_of(source, token),
                    Binding::Value(Value::Null),
                ),
            },
            _ => frames,
        };
        declare_all(names, i + 1, scope, next, source)
    }
}

/// The values of the statements of the list from index `i` on, in order, added to those
/// read so far; the first error ends the evaluation.
pub open spec fn eval_list(
    list: Seq<Tree>,
    i: int,
    values: Seq<Value>,
    frames: Seq<Frame>,
    source: Seq<u8>,
    environment: Environment,
    depth: nat,
) -> (Result<Seq<Value>, Fault>, Seq<Frame>)
    decreases depth, 0nat, list, list.len() - i,
{
    if i < 0 || i >= list.len() {
        (Ok(values), frames)
    } else {
        let head = value_of(list[i], frames, source, environment, depth);
        match head.0 {
            Err(e) => (Err(e), head.1),
            Ok(value) => eval_list(
                list,
                i + 1,
                values.push(value),
                head.1,
                source,
                environment,
                depth,
            ),
        }
    }
}

/// The arguments of a call from index `i` on, added to those read so far: the ones passed by
/// name as a scope, the others in order.
pub open spec fn eval_arguments(
    list: Seq<Tree>,
    i: int,
    named: Frame,
    positional: Seq<Value>,
    frames: Seq<Frame>,
    source: Seq<u8>,
    environment: Environment,
    depth: nat,
) -> (Result<(Frame, Seq<Value>), Fault>, Seq<Frame>)
    decreases depth, 0nat, list, list.len() - i,
{
    if i < 0 || i >= list.len() {
        (Ok((named, positional)), frames)
    } else {
        match list[i] {
            Tree::NamedParameter(token, value) => {
                let head = value_of(*value, frames, source, environment, depth);
                match head.0 {
                    Err(e) => (Err(e), head.1),
                    Ok(v) => eval_arguments(
                        list,
                        i + 1,
                        put(named, name_of(source, token), Binding::Value(v)),
                        positional,
                        head.1,
                        source,
                        environment,
                        depth,
                    ),
                }
            },
            _ => {
                let head = value_of(list[i], frames, source, environment, depth);
                match head.0 {
                    Err(e) => (Err(e), head.1),
                    Ok(v) => eval_arguments(
                        list,
                        i + 1,
                        named,
                        positional.push(v),
                        head.1,
                        source,
                        environment,
                        depth,
                    ),
                }
            },
        }
    }
}

/// What running the statements of a block, from index `i` on, yields: no value when all
/// have run, or what the first statement yields that fails or that leaves or goes on with a
/// loop.
pub open spec fn eval_block(
    list: Seq<Tree>,
    i: int,
    frames: Seq<Frame>,
    source: Seq<u8>,
    environment: Environment,
    depth: nat,
) -> Outcome
    decreases depth, 0nat, list, list.len() - i,
{
    if i < 0 || i >= list.len() {
        (Ok(Flow::Value(Value::Null)), frames)
    } else {
        let head = eval(list[i], frames, source, environment, depth);
        match head.0 {
            Err(e) => (Err(e), head.1),
            Ok(Flow::Value(_)) => eval_block(list, i + 1, head.1, source, environment, depth),
            Ok(flow) => (Ok(flow), head.1),
        }
    }
}

/// What running a loop for at most `rounds` more rounds yields. Each round runs the body in a
/// scope of its own, which is closed however the round ends.
pub open spec fn eval_while(
    tree: Tree,
    frames: Seq<Frame>,
    source: Seq<u8>,
    environment: Environment,
    depth: nat,
    rounds: nat,
) -> Outcome
    decreases depth, 0nat, tree, rounds,
{
    match tree {
        Tree::While(condition, body) => if rounds == 0 {
            (Err(Fault::IterationLimit), frames)
        } else {
            let test = value_of(*condition, frames, source, environment, depth);
            match test.0 {
                Err(e) => (Err(e), test.1),
                Ok(value) => if !value.truthy() {
                    (Ok(Flow::Value(Value::Null)), test.1)
                } else {
                    let round = eval(
                        *body,
                        test.1.push(Seq::empty()),
                        source,
                        environment,
                        depth,
                    );
                    match round.0 {
                        Err(e) => (Err(e), pop(round.1)),
                        Ok(Flow::Break) => (Ok(Flow::Value(Value::Null)), pop(round.1)),
                        Ok(_) => eval_while(
                            tree,
                            pop(round.1),
                            source,
                            environment,
                            depth,
                            (rounds - 1) as nat,
                        ),
                    }
                },
            }
        },
        _ => (Err(Fault::UnexpectedStatement), frames),
    }
}

/// What running the statements of a script yields, which `toks` holds the lexemes of and
/// `held` the comments that are still to be handed out: no value when all have run, or the
/// first error.
pub open spec fn eval_script(
    held: Seq<Token>,
    toks: Seq<Lexeme>,
    frames: Seq<Frame>,
    source: Seq<u8>,
    environment: Environment,
    depth: nat,
) -> Outcome
    decreases depth, 2 * toks.len() + held.len(), toks, 0nat,
{
    match spec_next(held, toks) {
        None => (Ok(Flow::Value(Value::Null)), frames),
        Some((Err(e), _, _)) => (Err(Fault::Syntax(e)), frames),
        Some((Ok(tree), comments, rest)) => if depth == 0 {
            (Err(Fault::NestingLimit), frames)
        } else {
            let item = eval(tree, frames, source, environment, (depth - 1) as nat);
            match item.0 {
                Err(e) => (Err(e), item.1),
                Ok(_) => if 2 * rest.len() + comments.len() < 2 * toks.len() + held.len() {
                    eval_script(comments, rest, item.1, source, environment, depth)
                } else {
                    (Err(Fault::NestingLimit), item.1)
                },
            }
        },
    }
}

/// What a caller gets for running one statement of a script: its value, or no value where
/// it asks to leave or to go on with a loop that is not there.
pub open spec fn resolve(
    tree: Tree,
    frames: Seq<Frame>,
    source: Seq<u8>,
    environment: Environment,
) -> (Result<Value, Fault>, Seq<Frame>) {
    let outcome = eval(tree, frames, source, environment, MAX_NESTING as nat);
    match outcome.0 {
        Err(e) => (Err(e), outcome.1),
        Ok(Flow::Value(value)) => (Ok(value), outcome.1),
        Ok(_) => (Ok(Value::Null), outcome.1),
    }
}

/// What running the next statement of a script gives, which `toks` holds the lexemes of and
/// `held` the comments that are still to be handed out: `None` at the end of the script;
/// else the value of the statement or the error it fails with, the scopes behind it, the
/// comments that are then to be handed out, and the lexemes behind it. A statement that does
/// not parse gives its syntax error and leaves the scopes as they are.
pub open spec fn run_next(
    held: Seq<Token>,
    toks: Seq<Lexeme>,
    frames: Seq<Frame>,
    source: Seq<u8>,
    environment: Environment,
) -> Option<((Result<Value, Fault>, Seq<Frame>), Seq<Token>, Seq<Lexeme>)> {
    match spec_next(held, toks) {
        None => None,
        Some((Err(e), comments, rest)) => Some(((Err(Fault::Syntax(e)), frames), comments, rest)),
        Some((Ok(tree), comments, rest)) => Some(
            (resolve(tree, frames, source, environment), comments, rest),
        ),
    }
}

} // verus!
