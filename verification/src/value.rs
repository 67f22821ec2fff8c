//! The values that scripts compute.
use vstd::prelude::*;

verus! {

/// A value of the scripting language.
#[derive(Debug, PartialEq, Eq)]
pub enum NaslValue {
    /// A text.
    String(String),
    /// An integer.
    Number(i64),
    /// A truth value.
    Boolean(bool),
    /// A list of values.
    Array(Vec<NaslValue>),
    /// No value.
    Null,
}

/// The mathematical model of a [`NaslValue`].
pub enum Value {
    /// A text.
    String(Seq<char>),
    /// An integer.
    Number(i64),
    /// A truth value.
    Boolean(bool),
    /// A list of values.
    Array(Seq<Value>),
    /// No value.
    Null,
}

impl Value {
    /// The truth value that the value counts as in a condition: a number other than zero, a
    /// text or a list that is not empty, and `true`.
    pub open spec fn truthy(self) -> bool {
        match self {
            Value::String(text) => text.len() > 0,
            Value::Number(number) => number != 0,
            Value::Boolean(b) => b,
            Value::Array(items) => items.len() > 0,
            Value::Null => false,
        }
    }

    /// The number that the value counts as in arithmetic: itself for a number, 1 and 0 for
    /// `true` and `false`, 0 for no value; a text or a list is no number.
    pub open spec fn as_number(self) -> Option<i64> {
        match self {
            Value::Number(number) => Some(number),
            Value::Boolean(b) => Some(
                if b {
                    1i64
                } else {
                    0i64
                },
            ),
            Value::Null => Some(0i64),
            Value::String(_) | Value::Array(_) => None,
        }
    }
}

impl NaslValue {
    /// The value that this one stands for.
    pub open spec fn view(&self) -> Value
        decreases self,
    {
        match self {
            NaslValue::String(text) => Value::String(text@),
            NaslValue::Number(number) => Value::Number(*number),
            NaslValue::Boolean(b) => Value::Boolean(*b),
            NaslValue::Array(items) => Value::Array(NaslValue::views(items)),
            NaslValue::Null => Value::Null,
        }
    }

    /// The values that the items of a list stand for.
    pub open spec fn views(list: &Vec<NaslValue>) -> Seq<Value>
        decreases list,
    {
        Seq::new(
            list.len() as nat,
            |i: int|
                if 0 <= i < list.len() {
                    list[i]@
                } else {
                    Value::Null
                },
        )
    }

    /// A copy of a list of values.
    pub fn clone_list(list: &Vec<NaslValue>) -> (r: Vec<NaslValue>)
        ensures
            NaslValue::views(&r) == NaslValue::views(list),
        decreases list,
    {
        let mut copy: Vec<NaslValue> = Vec::new();
        let mut i: usize = 0;
        while i < list.len()
            invariant
                0 <= i <= list.len(),
                copy.len() == i,
                forall|j: int| 0 <= j < i ==> copy[j]@ == list[j]@,
            decreases list.len() - i,
        {
            let item = list[i].clone();
            copy.push(item);
            i = i + 1;
        }
        assert(NaslValue::views(&copy) =~= NaslValue::views(list));
        copy
    }

    /// Whether two lists hold equal values in the same order.
    pub fn same_list(left: &Vec<NaslValue>, right: &Vec<NaslValue>) -> (r: bool)
        ensures
            r == (NaslValue::views(left) == NaslValue::views(right)),
        decreases left,
    {
        if left.len() != right.len() {
            assert(NaslValue::views(left).len() != NaslValue::views(right).len());
            return false;
        }
        let mut i: usize = 0;
        while i < left.len()
            invariant
                0 <= i <= left.len(),
                left.len() == right.len(),
                forall|j: int| 0 <= j < i ==> left[j]@ == right[j]@,
            decreases left.len() - i,
        {
            if !left[i].same(&right[i]) {
                assert(NaslValue::views(left)[i as int] != NaslValue::views(right)[i as int]);
                return false;
            }
            i = i + 1;
        }
        assert(NaslValue::views(left) =~= NaslValue::views(right));
        true
    }

    /// Whether two values are equal: of the same kind and with equal contents.
    pub fn same(&self, other: &NaslValue) -> (r: bool)
        ensures
            r == (self@ == other@),
        decreases self,
    {
        match (self, other) {
            (NaslValue::String(a), NaslValue::String(b)) => *a == *b,
            (NaslValue::Number(a), NaslValue::Number(b)) => *a == *b,
            (NaslValue::Boolean(a), NaslValue::Boolean(b)) => *a == *b,
            (NaslValue::Array(a), NaslValue::Array(b)) => NaslValue::same_list(a, b),
            (NaslValue::Null, NaslValue::Null) => true,
            _ => false,
        }
    }

    /// The truth value that the value counts as in a condition.
    pub fn truthy(&self) -> (r: bool)
        ensures
            r == self@.truthy(),
    {
        match self {
            NaslValue::String(text) => !text.as_str().is_empty(),
            NaslValue::Number(number) => *number != 0,
            NaslValue::Boolean(b) => *b,
            NaslValue::Array(items) => items.len() > 0,
            NaslValue::Null => false,
        }
    }

    /// The number that the value counts as in arithmetic, if it counts as one.
    pub fn as_number(&self) -> (r: Option<i64>)
        ensures
            r == self@.as_number(),
    {
        match self {
            NaslValue::Number(number) => Some(*number),
            NaslValue::Boolean(b) => Some(
                if *b {
                    1
                } else {
                    0
                },
            ),
            NaslValue::Null => Some(0),
            NaslValue::String(_) | NaslValue::Array(_) => None,
        }
    }
}

impl Clone for NaslValue {
    /// A copy that stands for the same value.
    fn clone(&self) -> (r: Self)
        ensures
            r@ == self@,
        decreases self,
    {
        match self {
            NaslValue::String(text) => NaslValue::String(text.clone()),
            NaslValue::Number(number) => NaslValue::Number(*number),
            NaslValue::Boolean(b) => NaslValue::Boolean(*b),
            NaslValue::Array(items) => NaslValue::Array(NaslValue::clone_list(items)),
            NaslValue::Null => NaslValue::Null,
        }
    }
}

} // verus!
