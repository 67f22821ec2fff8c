//! Lexical units of the scripting language: categories, keywords and position-tagged tokens.
use vstd::prelude::*;

verus! {

/// The base in which a numeric literal is written.
#[derive(Clone, Copy, Debug, PartialEq, Eq, Structural)]
pub enum Base {
    /// Prefixed with `0b`.
    Binary,
    /// Prefixed with `0`.
    Octal,
    /// No prefix.
    Base10,
    /// Prefixed with `0x`.
    Hex,
}

impl Base {
    /// The radix of the base as a number.
    pub open spec fn spec_radix(self) -> int {
        match self {
            Base::Binary => 2,
            Base::Octal => 8,
            Base::Base10 => 10,
            Base::Hex => 16,
        }
    }

    /// The radix of the base as a number.
    pub fn radix(self) -> (r: i64)
        ensures
            r == self.spec_radix(),
            2 <= r <= 16,
    {
        match self {
            Base::Binary => 2,
            Base::Octal => 8,
            Base::Base10 => 10,
            Base::Hex => 16,
        }
    }
}

/// The quoting rule a string literal was written with.
#[derive(Clone, Copy, Debug, PartialEq, Eq, Structural)]
pub enum StringCategory {
    /// Written between single quotes; a backslash escapes the byte that follows it.
    Quoteable,
    /// Written between double quotes; every byte stands for itself.
    Unquoteable,
}

/// Identifiers that are reserved words of the language.
#[derive(Clone, Copy, Debug, PartialEq, Eq, Structural)]
pub enum Keyword {
    /// `if`
    If,
    /// `else`
    Else,
    /// `while`
    While,
    /// `include`
    Include,
    /// `function`
    Function,
    /// `return`
    Return,
    /// `break`
    Break,
    /// `continue`
    Continue,
    /// `local_var`
    LocalVar,
    /// `global_var`
    GlobalVar,
    /// `NULL`
    Null,
    /// `TRUE`
    True,
    /// `FALSE`
    False,
}

/// The closed set of lexical kinds.
#[derive(Clone, Copy, Debug, PartialEq, Eq, Structural)]
pub enum Category {
    /// `(`
    LeftParen,
    /// `)`
    RightParen,
    /// `[`
    LeftBrace,
    /// `]`
    RightBrace,
    /// `{`
    LeftCurlyBracket,
    /// `}`
    RightCurlyBracket,
    /// `,`
    Comma,
    /// `.`
    Dot,
    /// `:`
    DoublePoint,
    /// `;`
    Semicolon,
    /// `%`
    Percent,
    /// `%=`
    PercentEqual,
    /// `~`
    Tilde,
    /// `^`
    Caret,
    /// `&`
    Ampersand,
    /// `&&`
    AmpersandAmpersand,
    /// `|`
    Pipe,
    /// `||`
    PipePipe,
    /// `!`
    Bang,
    /// `!=`
    BangEqual,
    /// `=`
    Equal,
    /// `==`
    EqualEqual,
    /// `>`
    Greater,
    /// `>>`
    GreaterGreater,
    /// `>=`
    GreaterEqual,
    /// `>>=`
    GreaterGreaterEqual,
    /// `<`
    Less,
    /// `<<`
    LessLess,
    /// `<=`
    LessEqual,
    /// `<<=`
    LessLessEqual,
    /// `-`
    Minus,
    /// `--`
    MinusMinus,
    /// `-=`
    MinusEqual,
    /// `+`
    Plus,
    /// `+=`
    PlusEqual,
    /// `++`
    PlusPlus,
    /// `/`
    Slash,
    /// `/=`
    SlashEqual,
    /// `*`
    Star,
    /// `*=`
    StarEqual,
    /// A string literal; the token spans the text between the quotes.
    String(StringCategory),
    /// A numeric literal; the token spans its digits, without the prefix of its base.
    Number(Base),
    /// A comment; the token spans the whole comment, its delimiters included.
    Comment,
    /// A name; reserved words carry their keyword.
    Identifier(Option<Keyword>),
}

/// A classified piece of the script together with the byte offsets it spans.
#[derive(Clone, Copy, Debug, PartialEq, Eq)]
pub struct Token {
    /// The lexical kind.
    pub category: Category,
    /// Byte offsets of the first byte and of the byte after the last one.
    pub position: (usize, usize),
}

impl Token {
    /// The lexical kind of the token.
    pub open spec fn spec_category(&self) -> Category {
        self.category
    }

    /// The lexical kind of the token.
    #[verifier::when_used_as_spec(spec_category)]
    pub fn category(&self) -> (r: Category)
        ensures
            r == self.category,
    {
        self.category
    }
}

} // verus!
