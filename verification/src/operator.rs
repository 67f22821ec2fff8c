//! The operators of the language on values.
use crate::error::{Fault, InterpretError};
use crate::semantics::{binary, element, numeric, slot, stored, unary, yielded};
use crate::statement::AssignOrder;
use crate::token::{Category, Token};
use crate::value::{NaslValue, Value};
use vstd::prelude::*;
use vstd::string::StringExecFns;

verus! {

/// Whether a computed value stands for the value of the model, or the error for its fault.
pub open spec fn answers(r: Result<NaslValue, InterpretError>, model: Result<Value, Fault>) -> bool {
    match r {
        Ok(value) => model == Ok::<Value, Fault>(value@),
        Err(e) => model == Err::<Value, Fault>(e@),
    }
}

/// The value that an option of a value stands for.
pub open spec fn maybe(value: Option<&NaslValue>) -> Option<Value> {
    match value {
        Some(held) => Some(held@),
        None => None,
    }
}

/// What an operator gives for one operand.
pub fn apply_unary(category: Category, operand: &NaslValue) -> (r: Result<NaslValue, InterpretError>)
    ensures
        answers(r, unary(category, operand@)),
{
    match category {
        Category::Bang => Ok(NaslValue::Boolean(!operand.truthy())),
        Category::Plus | Category::Minus | Category::Tilde => match operand.as_number() {
            None => Err(InterpretError::TypeMismatch),
            Some(number) => {
                if category == Category::Plus {
                    Ok(NaslValue::Number(number))
                } else if category == Category::Minus {
                    Ok(NaslValue::Number(0i64.wrapping_sub(number)))
                } else {
                    Ok(NaslValue::Number(-1 - number))
                }
            },
        },
        _ => Err(InterpretError::WrongOperandCount),
    }
}

/// What an operator of arithmetic, of bits or of order gives for two numbers.
pub fn apply_numeric(category: Category, x: i64, y: i64) -> (r: Result<NaslValue, InterpretError>)
    ensures
        answers(r, numeric(category, x, y)),
{
    match category {
        Category::Plus => Ok(NaslValue::Number(x.wrapping_add(y))),
        Category::Minus => Ok(NaslValue::Number(x.wrapping_sub(y))),
        Category::Star => Ok(NaslValue::Number(x.wrapping_mul(y))),
        Category::Slash => {
            if y == 0 {
                Err(InterpretError::DivisionByZero)
            } else {
                match x.checked_div(y) {
                    Some(quotient) => Ok(NaslValue::Number(quotient)),
                    None => Ok(NaslValue::Number(x)),
                }
            }
        },
        Category::Percent => {
            if y == 0 {
                Err(InterpretError::DivisionByZero)
            } else {
                match x.checked_rem(y) {
                    Some(remainder) => Ok(NaslValue::Number(remainder)),
                    None => Ok(NaslValue::Number(0)),
                }
            }
        },
        Category::Ampersand => Ok(NaslValue::Number(x & y)),
        Category::Pipe => Ok(NaslValue::Number(x | y)),
        Category::Caret => Ok(NaslValue::Number(x ^ y)),
        Category::LessLess => Ok(
            NaslValue::Number(
                if 0 <= y && y < 64 {
                    x << y
                } else {
                    0
                },
            ),
        ),
        Category::GreaterGreater => Ok(
            NaslValue::Number(
                if 0 <= y && y < 64 {
                    x >> y
                } else {
                    0
                },
            ),
        ),
        Category::Less => Ok(NaslValue::Boolean(x < y)),
        Category::LessEqual => Ok(NaslValue::Boolean(x <= y)),
        Category::Greater => Ok(NaslValue::Boolean(x > y)),
        Category::GreaterEqual => Ok(NaslValue::Boolean(x >= y)),
        _ => Err(InterpretError::WrongOperandCount),
    }
}

/// What an operator gives for two operands.
pub fn apply_binary(category: Category, left: &NaslValue, right: &NaslValue) -> (r: Result<
    NaslValue,
    InterpretError,
>)
    ensures
        answers(r, binary(category, left@, right@)),
{
    match category {
        Category::EqualEqual => Ok(NaslValue::Boolean(left.same(right))),
        Category::BangEqual => Ok(NaslValue::Boolean(!left.same(right))),
        Category::AmpersandAmpersand => Ok(NaslValue::Boolean(left.truthy() && right.truthy())),
        Category::PipePipe => Ok(NaslValue::Boolean(left.truthy() || right.truthy())),
        Category::Tilde | Category::Bang => Err(InterpretError::WrongOperandCount),
        _ => match (left, right) {
            (NaslValue::String(a), NaslValue::String(b)) => {
                if category == Category::Plus {
                    Ok(NaslValue::String(a.clone().concat(b.as_str())))
                } else {
                    Err(InterpretError::TypeMismatch)
                }
            },
            _ => match (left.as_number(), right.as_number()) {
                (Some(x), Some(y)) => apply_numeric(category, x, y),
                _ => Err(InterpretError::TypeMismatch),
            },
        },
    }
}

/// The value that an assignment stores, given the old value of its target and the value on
/// its right. `token` names the variable, for the error.
pub fn stored_value(category: Category, old: Option<&NaslValue>, right: NaslValue, token: Token) -> (r:
    Result<NaslValue, InterpretError>)
    ensures
        answers(r, stored(category, maybe(old), right@, token)),
{
    if category == Category::Equal {
        Ok(right)
    } else {
        let operator = match category {
            Category::PlusEqual | Category::PlusPlus => Some(Category::Plus),
            Category::MinusEqual | Category::MinusMinus => Some(Category::Minus),
            Category::StarEqual => Some(Category::Star),
            Category::SlashEqual => Some(Category::Slash),
            Category::PercentEqual => Some(Category::Percent),
            Category::LessLessEqual => Some(Category::LessLess),
            Category::GreaterGreaterEqual => Some(Category::GreaterGreater),
            _ => None,
        };
        let operand = if category == Category::PlusPlus || category == Category::MinusMinus {
            NaslValue::Number(1)
        } else {
            right
        };
        match (operator, old) {
            (None, _) => Err(InterpretError::UnexpectedStatement),
            (Some(_), None) => Err(InterpretError::UndeclaredVariable(token)),
            (Some(operator), Some(before)) => apply_binary(operator, before, &operand),
        }
    }
}

/// The value that an assignment yields.
pub fn yielded_value(order: AssignOrder, old: Option<&NaslValue>, new: &NaslValue) -> (r: NaslValue)
    ensures
        r@ == yielded(order, maybe(old), new@),
{
    match order {
        AssignOrder::AssignReturn => new.clone(),
        AssignOrder::ReturnAssign => match old {
            Some(before) => before.clone(),
            None => NaslValue::Null,
        },
    }
}

/// The element of an array variable at a position. `token` names the variable, for the error.
pub fn element_at(held: Option<&NaslValue>, position: &NaslValue, token: Token) -> (r: Result<
    NaslValue,
    InterpretError,
>)
    ensures
        answers(r, element(maybe(held), position@, token)),
{
    match held {
        None => Err(InterpretError::UndeclaredVariable(token)),
        Some(NaslValue::Array(items)) => match position {
            NaslValue::Number(i) => {
                if 0 <= *i && (*i as u64) < (items.len() as u64) {
                    Ok(items[*i as usize].clone())
                } else {
                    Err(InterpretError::IndexOutOfRange)
                }
            },
            _ => Err(InterpretError::TypeMismatch),
        },
        Some(_) => Err(InterpretError::NotAnArray),
    }
}

/// The items of the array that an element is assigned to, and the index of the element.
pub fn slot_of(held: Option<&NaslValue>, position: &NaslValue) -> (r: Result<
    (Vec<NaslValue>, usize),
    InterpretError,
>)
    ensures
        match r {
            Ok((items, i)) => slot(maybe(held), position@) == Ok::<(Seq<Value>, int), Fault>(
                (NaslValue::views(&items), i as int),
            ) && i <= items.len(),
            Err(e) => slot(maybe(held), position@) == Err::<(Seq<Value>, int), Fault>(e@),
        },
{
    let items = match held {
        None => {
            let empty: Vec<NaslValue> = Vec::new();
            assert(NaslValue::views(&empty) =~= Seq::<Value>::empty());
            empty
        },
        Some(NaslValue::Array(items)) => NaslValue::clone_list(items),
        Some(_) => {
            return Err(InterpretError::NotAnArray);
        },
    };
    match position {
        NaslValue::Number(i) => {
            if 0 <= *i && (*i as u64) <= (items.len() as u64) {
                Ok((items, *i as usize))
            } else {
                Err(InterpretError::IndexOutOfRange)
            }
        },
        _ => Err(InterpretError::TypeMismatch),
    }
}

} // verus!
