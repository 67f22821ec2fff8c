//! The parse role of a token, and how tightly operators bind.
use crate::token::{Category, Keyword, Token};
use vstd::prelude::*;

verus! {

/// The role a token plays for the parser.
#[derive(Clone, Copy, Debug, PartialEq, Eq, Structural)]
pub enum Operation {
    /// An operator of an expression.
    Operator(Category),
    /// An assignment, an increment or a decrement.
    Assign(Category),
    /// The opening mark of a group.
    Grouping(Category),
    /// A name that is no reserved word.
    Variable,
    /// A literal.
    Primitive,
    /// A reserved word that starts a statement of its own.
    Keyword(Keyword),
    /// A comment or a statement terminator.
    NoOp,
}

impl Operation {
    /// The role of a token of the given category; `None` for a category that has none.
    pub open spec fn classify(category: Category) -> Option<Operation> {
        match category {
            Category::Plus
            | Category::Minus
            | Category::Star
            | Category::Slash
            | Category::Percent
            | Category::LessLess
            | Category::GreaterGreater
            | Category::Tilde
            | Category::Ampersand
            | Category::Pipe
            | Category::Caret
            | Category::Bang
            | Category::AmpersandAmpersand
            | Category::PipePipe
            | Category::EqualEqual
            | Category::BangEqual
            | Category::Greater
            | Category::Less
            | Category::GreaterEqual
            | Category::LessEqual => Some(Operation::Operator(category)),
            Category::Equal
            | Category::MinusEqual
            | Category::PlusEqual
            | Category::SlashEqual
            | Category::StarEqual
            | Category::PercentEqual
            | Category::GreaterGreaterEqual
            | Category::LessLessEqual
            | Category::PlusPlus
            | Category::MinusMinus => Some(Operation::Assign(category)),
            Category::String(_) | Category::Number(_) => Some(Operation::Primitive),
            Category::Identifier(Some(Keyword::Null))
            | Category::Identifier(Some(Keyword::True))
            | Category::Identifier(Some(Keyword::False)) => Some(Operation::Primitive),
            Category::LeftParen | Category::LeftCurlyBracket | Category::LeftBrace => Some(
                Operation::Grouping(category),
            ),
            Category::Identifier(None) => Some(Operation::Variable),
            Category::Identifier(Some(keyword)) => Some(Operation::Keyword(keyword)),
            Category::Comment | Category::Semicolon => Some(Operation::NoOp),
            Category::RightParen
            | Category::RightBrace
            | Category::RightCurlyBracket
            | Category::Comma
            | Category::Dot
            | Category::DoublePoint => None,
        }
    }

    /// The role of the token; `None` for a token that has none.
    pub fn new(token: Token) -> (r: Option<Operation>)
        ensures
            r == Operation::classify(token.category),
    {
        let category = token.category;
        match category {
            Category::Plus
            | Category::Minus
            | Category::Star
            | Category::Slash
            | Category::Percent
            | Category::LessLess
            | Category::GreaterGreater
            | Category::Tilde
            | Category::Ampersand
            | Category::Pipe
            | Category::Caret
            | Category::Bang
            | Category::AmpersandAmpersand
            | Category::PipePipe
            | Category::EqualEqual
            | Category::BangEqual
            | Category::Greater
            | Category::Less
            | Category::GreaterEqual
            | Category::LessEqual => Some(Operation::Operator(category)),
            Category::Equal
            | Category::MinusEqual
            | Category::PlusEqual
            | Category::SlashEqual
            | Category::StarEqual
            | Category::PercentEqual
            | Category::GreaterGreaterEqual
            | Category::LessLessEqual
            | Category::PlusPlus
            | Category::MinusMinus => Some(Operation::Assign(category)),
            Category::String(_) | Category::Number(_) => Some(Operation::Primitive),
            Category::Identifier(Some(Keyword::Null))
            | Category::Identifier(Some(Keyword::True))
            | Category::Identifier(Some(Keyword::False)) => Some(Operation::Primitive),
            Category::LeftParen | Category::LeftCurlyBracket | Category::LeftBrace => Some(
                Operation::Grouping(category),
            ),
            Category::Identifier(None) => Some(Operation::Variable),
            Category::Identifier(Some(keyword)) => Some(Operation::Keyword(keyword)),
            Category::Comment | Category::Semicolon => Some(Operation::NoOp),
            Category::RightParen
            | Category::RightBrace
            | Category::RightCurlyBracket
            | Category::Comma
            | Category::Dot
            | Category::DoublePoint => None,
        }
    }

    /// How tightly the operation binds the operand on its left and the one on its right
    /// when it stands between two operands; `None` where it cannot stand there.
    pub open spec fn spec_infix_binding_power(self) -> Option<(u8, u8)> {
        match self {
            Operation::Operator(Category::Star)
            | Operation::Operator(Category::Slash)
            | Operation::Operator(Category::Percent) => Some((18u8, 19u8)),
            Operation::Operator(Category::Plus) | Operation::Operator(Category::Minus) => Some(
                (16u8, 17u8),
            ),
            Operation::Operator(Category::LessLess)
            | Operation::Operator(Category::GreaterGreater) => Some((14u8, 15u8)),
            Operation::Operator(Category::Ampersand) => Some((12u8, 13u8)),
            Operation::Operator(Category::Caret) => Some((10u8, 11u8)),
            Operation::Operator(Category::Pipe) => Some((8u8, 9u8)),
            Operation::Operator(Category::Less)
            | Operation::Operator(Category::LessEqual)
            | Operation::Operator(Category::Greater)
            | Operation::Operator(Category::GreaterEqual)
            | Operation::Operator(Category::EqualEqual)
            | Operation::Operator(Category::BangEqual) => Some((6u8, 7u8)),
            Operation::Operator(Category::AmpersandAmpersand) => Some((4u8, 5u8)),
            Operation::Operator(Category::PipePipe) => Some((2u8, 3u8)),
            Operation::Assign(Category::PlusPlus) | Operation::Assign(Category::MinusMinus) => None,
            Operation::Assign(_) => Some((1u8, 1u8)),
            _ => None,
        }
    }

    /// How tightly the operation binds the operand on its left and the one on its right
    /// when it stands between two operands; `None` where it cannot stand there.
    #[verifier::when_used_as_spec(spec_infix_binding_power)]
    pub fn infix_binding_power(self) -> (r: Option<(u8, u8)>)
        ensures
            r == self.spec_infix_binding_power(),
    {
        match self {
            Operation::Operator(Category::Star)
            | Operation::Operator(Category::Slash)
            | Operation::Operator(Category::Percent) => Some((18u8, 19u8)),
            Operation::Operator(Category::Plus) | Operation::Operator(Category::Minus) => Some(
                (16u8, 17u8),
            ),
            Operation::Operator(Category::LessLess)
            | Operation::Operator(Category::GreaterGreater) => Some((14u8, 15u8)),
            Operation::Operator(Category::Ampersand) => Some((12u8, 13u8)),
            Operation::Operator(Category::Caret) => Some((10u8, 11u8)),
            Operation::Operator(Category::Pipe) => Some((8u8, 9u8)),
            Operation::Operator(Category::Less)
            | Operation::Operator(Category::LessEqual)
            | Operation::Operator(Category::Greater)
            | Operation::Operator(Category::GreaterEqual)
            | Operation::Operator(Category::EqualEqual)
            | Operation::Operator(Category::BangEqual) => Some((6u8, 7u8)),
            Operation::Operator(Category::AmpersandAmpersand) => Some((4u8, 5u8)),
            Operation::Operator(Category::PipePipe) => Some((2u8, 3u8)),
            Operation::Assign(Category::PlusPlus) | Operation::Assign(Category::MinusMinus) => None,
            Operation::Assign(_) => Some((1u8, 1u8)),
            _ => None,
        }
    }

    /// Whether the operation follows its operand: an increment or a decrement.
    pub open spec fn spec_is_postfix(self) -> bool {
        self == Operation::Assign(Category::PlusPlus) || self == Operation::Assign(
            Category::MinusMinus,
        )
    }

    /// Whether the operation follows its operand: an increment or a decrement.
    #[verifier::when_used_as_spec(spec_is_postfix)]
    pub fn is_postfix(self) -> (r: bool)
        ensures
            r == self.spec_is_postfix(),
    {
        match self {
            Operation::Assign(Category::PlusPlus) | Operation::Assign(Category::MinusMinus) => true,
            _ => false,
        }
    }
}

} // verus!
