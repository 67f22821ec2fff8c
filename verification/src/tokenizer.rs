//! Turns script text into position-tagged tokens.
//!
//! The model of the tokenizer is [`lex`]: the sequence of lexemes that a text holds from a byte
//! offset on. [`Tokenizer`] walks that sequence one lexeme at a time.
use crate::token::{Base, Category, Keyword, StringCategory, Token};
use vstd::prelude::*;
use vstd::string::StringSliceAdditionalSpecFns;
use vstd::utf8::{is_ascii_chars, is_ascii_chars_encode_utf8};

verus! {

/// Why a piece of text is no token.
#[derive(Clone, Copy, Debug, PartialEq, Eq, Structural)]
pub enum LexErrorKind {
    /// A byte that starts no token.
    UnknownSymbol,
    /// A string literal whose closing quote is missing.
    UnterminatedString,
    /// A block comment whose closing `*/` is missing.
    UnterminatedComment,
    /// The prefix of a base without a digit behind it.
    MalformedNumber,
}

/// A piece of text that is no token, with the byte offsets it spans.
#[derive(Clone, Copy, Debug, PartialEq, Eq)]
pub struct LexError {
    /// What is wrong with the text.
    pub kind: LexErrorKind,
    /// Byte offsets of the first byte and of the byte after the last one.
    pub position: (usize, usize),
}

/// What the tokenizer yields for one piece of text.
pub type Lexeme = Result<Token, LexError>;

/// Sets of bytes that the tokenizer reads in runs.
#[derive(Clone, Copy, Debug, PartialEq, Eq, Structural)]
pub enum ByteClass {
    /// Blank, tab, line feed and carriage return.
    Whitespace,
    /// `0` to `9`.
    Digit,
    /// `0` to `7`.
    OctalDigit,
    /// `0` and `1`.
    BinaryDigit,
    /// `0` to `9`, `a` to `f` and `A` to `F`.
    HexDigit,
    /// Letters, digits and `_`.
    Identifier,
    /// Every byte but the line feed.
    NotLineEnd,
}

/// Whether the byte is a letter of either case.
pub open spec fn is_letter(b: u8) -> bool {
    ('a' as u8 <= b <= 'z' as u8) || ('A' as u8 <= b <= 'Z' as u8)
}

/// Whether the byte is a decimal digit.
pub open spec fn is_digit(b: u8) -> bool {
    '0' as u8 <= b <= '9' as u8
}

impl ByteClass {
    /// Whether the byte belongs to the class.
    pub open spec fn holds(self, b: u8) -> bool {
        match self {
            ByteClass::Whitespace => b == ' ' as u8 || b == '\t' as u8 || b == '\n' as u8 || b
                == '\r' as u8,
            ByteClass::Digit => is_digit(b),
            ByteClass::OctalDigit => '0' as u8 <= b <= '7' as u8,
            ByteClass::BinaryDigit => b == '0' as u8 || b == '1' as u8,
            ByteClass::HexDigit => is_digit(b) || ('a' as u8 <= b <= 'f' as u8) || ('A' as u8 <= b
                <= 'F' as u8),
            ByteClass::Identifier => is_letter(b) || is_digit(b) || b == '_' as u8,
            ByteClass::NotLineEnd => b != '\n' as u8,
        }
    }

    /// Whether the byte belongs to the class.
    pub fn contains(self, b: u8) -> (r: bool)
        ensures
            r == self.holds(b),
    {
        match self {
            ByteClass::Whitespace => b == ' ' as u8 || b == '\t' as u8 || b == '\n' as u8 || b
                == '\r' as u8,
            ByteClass::Digit => '0' as u8 <= b && b <= '9' as u8,
            ByteClass::OctalDigit => '0' as u8 <= b && b <= '7' as u8,
            ByteClass::BinaryDigit => b == '0' as u8 || b == '1' as u8,
            ByteClass::HexDigit => ('0' as u8 <= b && b <= '9' as u8) || ('a' as u8 <= b && b
                <= 'f' as u8) || ('A' as u8 <= b && b <= 'F' as u8),
            ByteClass::Identifier => ('a' as u8 <= b && b <= 'z' as u8) || ('A' as u8 <= b && b
                <= 'Z' as u8) || ('0' as u8 <= b && b <= '9' as u8) || b == '_' as u8,
            ByteClass::NotLineEnd => b != '\n' as u8,
        }
    }
}

/// The byte at offset `i`, if the text has one there.
pub open spec fn peek(src: Seq<u8>, i: int) -> Option<u8> {
    if 0 <= i < src.len() {
        Some(src[i])
    } else {
        None
    }
}

/// The offset at which the run of bytes of `class` that starts at `from` ends.
pub open spec fn run_end(src: Seq<u8>, from: int, class: ByteClass) -> int
    decreases src.len() - from,
{
    if 0 <= from < src.len() && class.holds(src[from]) {
        run_end(src, from + 1, class)
    } else {
        from
    }
}

/// The offset of the quote that closes a string literal whose text starts at `from`.
/// With `escapes`, a backslash hides the byte behind it.
pub open spec fn closing_quote(src: Seq<u8>, from: int, quote: u8, escapes: bool) -> Option<int>
    decreases src.len() - from,
{
    if from < 0 || from >= src.len() {
        None
    } else if src[from] == quote {
        Some(from)
    } else if escapes && src[from] == '\\' as u8 {
        if from + 1 < src.len() {
            closing_quote(src, from + 2, quote, escapes)
        } else {
            None
        }
    } else {
        closing_quote(src, from + 1, quote, escapes)
    }
}

/// The offset behind the `*/` that closes a block comment whose text starts at `from`.
pub open spec fn comment_close(src: Seq<u8>, from: int) -> Option<int>
    decreases src.len() - from,
{
    if from < 0 || from + 1 >= src.len() {
        None
    } else if src[from] == '*' as u8 && src[from + 1] == '/' as u8 {
        Some(from + 2)
    } else {
        comment_close(src, from + 1)
    }
}

/// The bytes of a word written in ASCII.
pub open spec fn ascii(word: Seq<char>) -> Seq<u8> {
    Seq::new(word.len(), |i: int| word[i] as u8)
}

/// The reserved word that the text spells, if any.
pub open spec fn keyword_of(text: Seq<u8>) -> Option<Keyword> {
    if text == ascii(seq!['i', 'f']) {
        Some(Keyword::If)
    } else if text == ascii(seq!['e', 'l', 's', 'e']) {
        Some(Keyword::Else)
    } else if text == ascii(seq!['w', 'h', 'i', 'l', 'e']) {
        Some(Keyword::While)
    } else if text == ascii(seq!['i', 'n', 'c', 'l', 'u', 'd', 'e']) {
        Some(Keyword::Include)
    } else if text == ascii(seq!['f', 'u', 'n', 'c', 't', 'i', 'o', 'n']) {
        Some(Keyword::Function)
    } else if text == ascii(seq!['r', 'e', 't', 'u', 'r', 'n']) {
        Some(Keyword::Return)
    } else if text == ascii(seq!['b', 'r', 'e', 'a', 'k']) {
        Some(Keyword::Break)
    } else if text == ascii(seq!['c', 'o', 'n', 't', 'i', 'n', 'u', 'e']) {
        Some(Keyword::Continue)
    } else if text == ascii(seq!['l', 'o', 'c', 'a', 'l', '_', 'v', 'a', 'r']) {
        Some(Keyword::LocalVar)
    } else if text == ascii(seq!['g', 'l', 'o', 'b', 'a', 'l', '_', 'v', 'a', 'r']) {
        Some(Keyword::GlobalVar)
    } else if text == ascii(seq!['N', 'U', 'L', 'L']) {
        Some(Keyword::Null)
    } else if text == ascii(seq!['T', 'R', 'U', 'E']) {
        Some(Keyword::True)
    } else if text == ascii(seq!['F', 'A', 'L', 'S', 'E']) {
        Some(Keyword::False)
    } else {
        None
    }
}

/// The operator or punctuation mark that starts at offset `p`, with its length in bytes.
/// Longer marks win over their prefixes.
pub open spec fn symbol_at(src: Seq<u8>, p: int) -> Option<(Category, int)> {
    let a = peek(src, p);
    let b = peek(src, p + 1);
    let c = peek(src, p + 2);
    if a == Some('(' as u8) {
        Some((Category::LeftParen, 1))
    } else if a == Some(')' as u8) {
        Some((Category::RightParen, 1))
    } else if a == Some('[' as u8) {
        Some((Category::LeftBrace, 1))
    } else if a == Some(']' as u8) {
        Some((Category::RightBrace, 1))
    } else if a == Some('{' as u8) {
        Some((Category::LeftCurlyBracket, 1))
    } else if a == Some('}' as u8) {
        Some((Category::RightCurlyBracket, 1))
    } else if a == Some(',' as u8) {
        Some((Category::Comma, 1))
    } else if a == Some('.' as u8) {
        Some((Category::Dot, 1))
    } else if a == Some(':' as u8) {
        Some((Category::DoublePoint, 1))
    } else if a == Some(';' as u8) {
        Some((Category::Semicolon, 1))
    } else if a == Some('~' as u8) {
        Some((Category::Tilde, 1))
    } else if a == Some('^' as u8) {
        Some((Category::Caret, 1))
    } else if a == Some('%' as u8) {
        if b == Some('=' as u8) {
            Some((Category::PercentEqual, 2))
        } else {
            Some((Category::Percent, 1))
        }
    } else if a == Some('&' as u8) {
        if b == Some('&' as u8) {
            Some((Category::AmpersandAmpersand, 2))
        } else {
            Some((Category::Ampersand, 1))
        }
    } else if a == Some('|' as u8) {
        if b == Some('|' as u8) {
            Some((Category::PipePipe, 2))
        } else {
            Some((Category::Pipe, 1))
        }
    } else if a == Some('!' as u8) {
        if b == Some('=' as u8) {
            Some((Category::BangEqual, 2))
        } else {
            Some((Category::Bang, 1))
        }
    } else if a == Some('=' as u8) {
        if b == Some('=' as u8) {
            Some((Category::EqualEqual, 2))
        } else {
            Some((Category::Equal, 1))
        }
    } else if a == Some('>' as u8) {
        if b == Some('>' as u8) {
            if c == Some('=' as u8) {
                Some((Category::GreaterGreaterEqual, 3))
            } else {
                Some((Category::GreaterGreater, 2))
            }
        } else if b == Some('=' as u8) {
            Some((Category::GreaterEqual, 2))
        } else {
            Some((Category::Greater, 1))
        }
    } else if a == Some('<' as u8) {
        if b == Some('<' as u8) {
            if c == Some('=' as u8) {
                Some((Category::LessLessEqual, 3))
            } else {
                Some((Category::LessLess, 2))
            }
        } else if b == Some('=' as u8) {
            Some((Category::LessEqual, 2))
        } else {
            Some((Category::Less, 1))
        }
    } else if a == Some('-' as u8) {
        if b == Some('-' as u8) {
            Some((Category::MinusMinus, 2))
        } else if b == Some('=' as u8) {
            Some((Category::MinusEqual, 2))
        } else {
            Some((Category::Minus, 1))
        }
    } else if a == Some('+' as u8) {
        if b == Some('+' as u8) {
            Some((Category::PlusPlus, 2))
        } else if b == Some('=' as u8) {
            Some((Category::PlusEqual, 2))
        } else {
            Some((Category::Plus, 1))
        }
    } else if a == Some('/' as u8) {
        if b == Some('=' as u8) {
            Some((Category::SlashEqual, 2))
        } else {
            Some((Category::Slash, 1))
        }
    } else if a == Some('*' as u8) {
        if b == Some('=' as u8) {
            Some((Category::StarEqual, 2))
        } else {
            Some((Category::Star, 1))
        }
    } else {
        None
    }
}

/// A token of `category` over the bytes from `start` up to `end`.
pub open spec fn token(category: Category, start: int, end: int) -> Lexeme {
    Ok(Token { category, position: (start as usize, end as usize) })
}

/// A lexical error of `kind` over the bytes from `start` up to `end`.
pub open spec fn failure(kind: LexErrorKind, start: int, end: int) -> Lexeme {
    Err(LexError { kind, position: (start as usize, end as usize) })
}

/// The numeric literal that starts at offset `p`, and the offset behind it.
pub open spec fn number_at(src: Seq<u8>, p: int) -> (Lexeme, int) {
    let b = peek(src, p + 1);
    if src[p] == '0' as u8 && (b == Some('x' as u8) || b == Some('X' as u8)) {
        let end = run_end(src, p + 2, ByteClass::HexDigit);
        if end == p + 2 {
            (failure(LexErrorKind::MalformedNumber, p, end), end)
        } else {
            (token(Category::Number(Base::Hex), p + 2, end), end)
        }
    } else if src[p] == '0' as u8 && (b == Some('b' as u8) || b == Some('B' as u8)) {
        let end = run_end(src, p + 2, ByteClass::BinaryDigit);
        if end == p + 2 {
            (failure(LexErrorKind::MalformedNumber, p, end), end)
        } else {
            (token(Category::Number(Base::Binary), p + 2, end), end)
        }
    } else if src[p] == '0' as u8 && b is Some && ByteClass::OctalDigit.holds(b->0) {
        let end = run_end(src, p + 1, ByteClass::OctalDigit);
        (token(Category::Number(Base::Octal), p + 1, end), end)
    } else {
        let end = run_end(src, p, ByteClass::Digit);
        (token(Category::Number(Base::Base10), p, end), end)
    }
}

/// The string literal whose opening quote is at offset `p`, and the offset behind it.
pub open spec fn string_at(src: Seq<u8>, p: int) -> (Lexeme, int) {
    let quoteable = src[p] == '\'' as u8;
    let kind = if quoteable {
        StringCategory::Quoteable
    } else {
        StringCategory::Unquoteable
    };
    match closing_quote(src, p + 1, src[p], quoteable) {
        Some(q) => (token(Category::String(kind), p + 1, q), q + 1),
        None => (failure(LexErrorKind::UnterminatedString, p, src.len() as int), src.len() as int),
    }
}

/// The lexeme that starts at offset `p`, which holds a byte that is no whitespace, and the
/// offset behind it.
pub open spec fn lexeme_at(src: Seq<u8>, p: int) -> (Lexeme, int) {
    let a = src[p];
    if a == '#' as u8 {
        let end = run_end(src, p, ByteClass::NotLineEnd);
        (token(Category::Comment, p, end), end)
    } else if a == '/' as u8 && peek(src, p + 1) == Some('*' as u8) {
        match comment_close(src, p + 2) {
            Some(end) => (token(Category::Comment, p, end), end),
            None => (
                failure(LexErrorKind::UnterminatedComment, p, src.len() as int),
                src.len() as int,
            ),
        }
    } else if a == '\'' as u8 || a == '"' as u8 {
        string_at(src, p)
    } else if is_digit(a) {
        number_at(src, p)
    } else if is_letter(a) || a == '_' as u8 {
        let end = run_end(src, p, ByteClass::Identifier);
        (token(Category::Identifier(keyword_of(src.subrange(p, end))), p, end), end)
    } else {
        match symbol_at(src, p) {
            Some((category, len)) => (token(category, p, p + len), p + len),
            None => (failure(LexErrorKind::UnknownSymbol, p, p + 1), p + 1),
        }
    }
}

/// The first lexeme at or behind offset `pos`, and the offset behind it; `None` where only
/// whitespace is left.
pub open spec fn next_lexeme(src: Seq<u8>, pos: int) -> Option<(Lexeme, int)> {
    let p = run_end(src, pos, ByteClass::Whitespace);
    if 0 <= p < src.len() {
        Some(lexeme_at(src, p))
    } else {
        None
    }
}

/// All lexemes of the text from offset `pos` on, in the order of the text.
pub open spec fn lex(src: Seq<u8>, pos: int) -> Seq<Lexeme>
    decreases src.len() - pos,
{
    match next_lexeme(src, pos) {
        None => Seq::empty(),
        Some((lexeme, next)) => if pos < next <= src.len() {
            seq![lexeme] + lex(src, next)
        } else {
            seq![lexeme]
        },
    }
}

/// A run ends at or behind its start, inside the text, on a byte outside the class.
pub proof fn lemma_run_end(src: Seq<u8>, from: int, class: ByteClass)
    requires
        0 <= from <= src.len(),
    ensures
        from <= run_end(src, from, class) <= src.len(),
        run_end(src, from, class) < src.len() ==> !class.holds(src[run_end(src, from, class)]),
        forall|i: int| from <= i < run_end(src, from, class) ==> class.holds(#[trigger] src[i]),
    decreases src.len() - from,
{
    if from < src.len() && class.holds(src[from]) {
        lemma_run_end(src, from + 1, class);
    }
}

/// A closing quote lies at or behind the offset the search started at, inside the text.
pub proof fn lemma_closing_quote(src: Seq<u8>, from: int, quote: u8, escapes: bool)
    requires
        0 <= from,
    ensures
        closing_quote(src, from, quote, escapes) matches Some(q) ==> from <= q < src.len()
            && src[q] == quote,
    decreases src.len() - from,
{
    if from >= src.len() {
    } else if src[from] == quote {
    } else if escapes && src[from] == '\\' as u8 {
        if from + 1 < src.len() {
            lemma_closing_quote(src, from + 2, quote, escapes);
        }
    } else {
        lemma_closing_quote(src, from + 1, quote, escapes);
    }
}

/// The end of a block comment lies at least two bytes behind the offset the search started at.
pub proof fn lemma_comment_close(src: Seq<u8>, from: int)
    requires
        0 <= from,
    ensures
        comment_close(src, from) matches Some(e) ==> from + 2 <= e <= src.len(),
    decreases src.len() - from,
{
    if from + 1 >= src.len() {
    } else if src[from] == '*' as u8 && src[from + 1] == '/' as u8 {
    } else {
        lemma_comment_close(src, from + 1);
    }
}

/// Every lexeme is at least one byte long, ends inside the text, and spans bytes of the text.
pub proof fn lemma_lexeme_at(src: Seq<u8>, p: int)
    requires
        0 <= p < src.len() <= usize::MAX,
    ensures
        p < lexeme_at(src, p).1 <= src.len(),
        lexeme_at(src, p).0 matches Ok(t) ==> p <= t.position.0 <= t.position.1 <= lexeme_at(
            src,
            p,
        ).1,
        lexeme_at(src, p).0 matches Err(e) ==> p == e.position.0 && e.position.1 == lexeme_at(
            src,
            p,
        ).1,
{
    lemma_run_end(src, p, ByteClass::NotLineEnd);
    lemma_run_end(src, p, ByteClass::Identifier);
    lemma_run_end(src, p, ByteClass::Digit);
    lemma_comment_close(src, p + 2);
    lemma_closing_quote(src, p + 1, src[p], src[p] == '\'' as u8);
    if p + 1 < src.len() {
        lemma_run_end(src, p + 1, ByteClass::OctalDigit);
    }
    if p + 2 <= src.len() {
        lemma_run_end(src, p + 2, ByteClass::HexDigit);
        lemma_run_end(src, p + 2, ByteClass::BinaryDigit);
    }
}

/// The lexemes from an offset on are the first one, followed by those behind it.
pub proof fn lemma_lex_unfold(src: Seq<u8>, pos: int)
    requires
        0 <= pos <= src.len() <= usize::MAX,
    ensures
        match next_lexeme(src, pos) {
            None => lex(src, pos) == Seq::<Lexeme>::empty(),
            Some((lexeme, next)) => pos < next <= src.len() && lex(src, pos) == seq![lexeme] + lex(
                src,
                next,
            ),
        },
{
    lemma_run_end(src, pos, ByteClass::Whitespace);
    let p = run_end(src, pos, ByteClass::Whitespace);
    if p < src.len() {
        lemma_lexeme_at(src, p);
    }
}

/// The byte offsets that a lexeme spans.
pub open spec fn extent(lexeme: Lexeme) -> (int, int) {
    match lexeme {
        Ok(token) => (token.position.0 as int, token.position.1 as int),
        Err(e) => (e.position.0 as int, e.position.1 as int),
    }
}

/// The lexemes of a text lie inside the text, in the order of the text, and do not overlap.
pub proof fn lemma_lex_in_order(src: Seq<u8>, pos: int)
    requires
        0 <= pos <= src.len() <= usize::MAX,
    ensures
        forall|i: int|
            0 <= i < lex(src, pos).len() ==> pos <= extent(#[trigger] lex(src, pos)[i]).0
                <= extent(lex(src, pos)[i]).1 <= src.len(),
        forall|i: int, j: int|
            0 <= i < j < lex(src, pos).len() ==> extent(#[trigger] lex(src, pos)[i]).1 <= extent(
                #[trigger] lex(src, pos)[j],
            ).0,
    decreases src.len() - pos,
{
    lemma_lex_unfold(src, pos);
    lemma_run_end(src, pos, ByteClass::Whitespace);
    match next_lexeme(src, pos) {
        None => {},
        Some((lexeme, next)) => {
            let p = run_end(src, pos, ByteClass::Whitespace);
            lemma_lexeme_at(src, p);
            lemma_lex_in_order(src, next);
            let all = lex(src, pos);
            let tail = lex(src, next);
            assert(all == seq![lexeme] + tail);
            assert forall|i: int| 0 <= i < all.len() implies pos <= extent(#[trigger] all[i]).0
                <= extent(all[i]).1 <= src.len() by {
                if i > 0 {
                    assert(all[i] == tail[i - 1]);
                }
            }
            assert forall|i: int, j: int| 0 <= i < j < all.len() implies extent(
                #[trigger] all[i],
            ).1 <= extent(#[trigger] all[j]).0 by {
                assert(all[j] == tail[j - 1]);
                if i > 0 {
                    assert(all[i] == tail[i - 1]);
                }
            }
        },
    }
}

/// Walks the lexemes of a script, and counts the lexemes it has passed.
#[derive(Clone, Copy, Debug)]
pub struct Tokenizer<'a> {
    code: &'a [u8],
    position: usize,
    count: usize,
}

impl<'a> Tokenizer<'a> {
    #[verifier::type_invariant]
    spec fn inv(&self) -> bool {
        &&& self.count <= self.position <= self.code@.len()
        &&& self.count <= lex(self.code@, 0).len()
        &&& lex(self.code@, self.position as int) == lex(self.code@, 0).skip(self.count as int)
    }

    /// The bytes of the script.
    pub closed spec fn source(&self) -> Seq<u8> {
        self.code@
    }

    /// The byte offset that the tokenizer has reached.
    pub closed spec fn offset(&self) -> int {
        self.position as int
    }

    /// The number of lexemes that the tokenizer has passed.
    pub closed spec fn taken(&self) -> nat {
        self.count as nat
    }

    /// All lexemes of the script.
    pub open spec fn all(&self) -> Seq<Lexeme> {
        lex(self.source(), 0)
    }

    /// The lexemes that are still to come.
    pub open spec fn remaining(&self) -> Seq<Lexeme> {
        lex(self.source(), self.offset())
    }

    /// A tokenizer at the start of the script.
    pub fn new(code: &'a str) -> (r: Self)
        ensures
            r.source() == code.spec_bytes(),
            r.offset() == 0,
            r.taken() == 0,
    {
        let bytes = code.as_bytes();
        assert(lex(bytes@, 0).skip(0) =~= lex(bytes@, 0));
        Tokenizer { code: bytes, position: 0, count: 0 }
    }

    /// The number of lexemes that the tokenizer has passed; the lexemes that are still to
    /// come are all lexemes of the script but these.
    pub fn count(&self) -> (r: usize)
        ensures
            r == self.taken(),
            r <= self.all().len(),
            self.remaining() == self.all().skip(r as int),
    {
        proof {
            use_type_invariant(self);
        }
        self.count
    }

    fn byte_at(&self, i: usize) -> (r: Option<u8>)
        ensures
            r == peek(self.code@, i as int),
    {
        if i < self.code.len() {
            Some(self.code[i])
        } else {
            None
        }
    }

    fn follows(&self, i: usize, b: u8) -> (r: bool)
        ensures
            r == (peek(self.code@, i as int) == Some(b)),
    {
        i < self.code.len() && self.code[i] == b
    }

    fn scan_run(&self, from: usize, class: ByteClass) -> (r: usize)
        requires
            from <= self.code@.len(),
        ensures
            r == run_end(self.code@, from as int, class),
            from <= r <= self.code@.len(),
    {
        let mut i: usize = from;
        while i < self.code.len() && class.contains(self.code[i])
            invariant
                from <= i <= self.code@.len(),
                run_end(self.code@, from as int, class) == run_end(self.code@, i as int, class),
            decreases self.code@.len() - i,
        {
            i = i + 1;
        }
        i
    }

    fn scan_quote(&self, from: usize, quote: u8, escapes: bool) -> (r: Option<usize>)
        requires
            from <= self.code@.len(),
        ensures
            r matches Some(q) ==> closing_quote(self.code@, from as int, quote, escapes) == Some(
                q as int,
            ) && from <= q < self.code@.len(),
            r is None ==> closing_quote(self.code@, from as int, quote, escapes) is None,
    {
        let mut i: usize = from;
        while i < self.code.len()
            invariant
                from <= i <= self.code@.len(),
                closing_quote(self.code@, from as int, quote, escapes) == closing_quote(
                    self.code@,
                    i as int,
                    quote,
                    escapes,
                ),
            decreases self.code@.len() - i,
        {
            if self.code[i] == quote {
                return Some(i);
            } else if escapes && self.code[i] == '\\' as u8 {
                if i + 1 < self.code.len() {
                    i = i + 2;
                } else {
                    return None;
                }
            } else {
                i = i + 1;
            }
        }
        None
    }

    fn scan_comment(&self, from: usize) -> (r: Option<usize>)
        requires
            from <= self.code@.len(),
        ensures
            r matches Some(e) ==> comment_close(self.code@, from as int) == Some(e as int) && from
                + 2 <= e <= self.code@.len(),
            r is None ==> comment_close(self.code@, from as int) is None,
    {
        let mut i: usize = from;
        while i < self.code.len() && i + 1 < self.code.len()
            invariant
                from <= i <= self.code@.len(),
                comment_close(self.code@, from as int) == comment_close(self.code@, i as int),
            decreases self.code@.len() - i,
        {
            if self.code[i] == '*' as u8 && self.code[i + 1] == '/' as u8 {
                return Some(i + 2);
            }
            i = i + 1;
        }
        None
    }

    fn same_word(&self, start: usize, end: usize, word: &[u8]) -> (r: bool)
        requires
            start <= end <= self.code@.len(),
        ensures
            r == (self.code@.subrange(start as int, end as int) == word@),
    {
        if end - start != word.len() {
            return false;
        }
        let mut i: usize = 0;
        while i < word.len()
            invariant
                start <= end <= self.code@.len(),
                end - start == word@.len(),
                0 <= i <= word@.len(),
                forall|j: int| 0 <= j < i ==> self.code@[start + j] == word@[j],
            decreases word@.len() - i,
        {
            if self.code[start + i] != word[i] {
                assert(self.code@.subrange(start as int, end as int)[i as int] != word@[i as int]);
                return false;
            }
            i = i + 1;
        }
        assert(self.code@.subrange(start as int, end as int) =~= word@);
        true
    }

    fn spells(&self, start: usize, end: usize, word: &str) -> (r: bool)
        requires
            start <= end <= self.code@.len(),
            is_ascii_chars(word@),
        ensures
            r == (self.code@.subrange(start as int, end as int) == ascii(word@)),
    {
        proof {
            is_ascii_chars_encode_utf8(word@);
            assert(word.spec_bytes() =~= ascii(word@));
        }
        self.same_word(start, end, word.as_bytes())
    }

    fn keyword(&self, start: usize, end: usize) -> (r: Option<Keyword>)
        requires
            start <= end <= self.code@.len(),
        ensures
            r == keyword_of(self.code@.subrange(start as int, end as int)),
    {
        proof {
            reveal_strlit("if");
            reveal_strlit("else");
            reveal_strlit("while");
            reveal_strlit("include");
            reveal_strlit("function");
            reveal_strlit("return");
            reveal_strlit("break");
            reveal_strlit("continue");
            reveal_strlit("local_var");
            reveal_strlit("global_var");
            reveal_strlit("NULL");
            reveal_strlit("TRUE");
            reveal_strlit("FALSE");
            assert("if"@ =~= seq!['i', 'f']);
            assert("else"@ =~= seq!['e', 'l', 's', 'e']);
            assert("while"@ =~= seq!['w', 'h', 'i', 'l', 'e']);
            assert("include"@ =~= seq!['i', 'n', 'c', 'l', 'u', 'd', 'e']);
            assert("function"@ =~= seq!['f', 'u', 'n', 'c', 't', 'i', 'o', 'n']);
            assert("return"@ =~= seq!['r', 'e', 't', 'u', 'r', 'n']);
            assert("break"@ =~= seq!['b', 'r', 'e', 'a', 'k']);
            assert("continue"@ =~= seq!['c', 'o', 'n', 't', 'i', 'n', 'u', 'e']);
            assert("local_var"@ =~= seq!['l', 'o', 'c', 'a', 'l', '_', 'v', 'a', 'r']);
            assert("global_var"@ =~= seq!['g', 'l', 'o', 'b', 'a', 'l', '_', 'v', 'a', 'r']);
            assert("NULL"@ =~= seq!['N', 'U', 'L', 'L']);
            assert("TRUE"@ =~= seq!['T', 'R', 'U', 'E']);
            assert("FALSE"@ =~= seq!['F', 'A', 'L', 'S', 'E']);
        }
        if self.spells(start, end, "if") {
            Some(Keyword::If)
        } else if self.spells(start, end, "else") {
            Some(Keyword::Else)
        } else if self.spells(start, end, "while") {
            Some(Keyword::While)
        } else if self.spells(start, end, "include") {
            Some(Keyword::Include)
        } else if self.spells(start, end, "function") {
            Some(Keyword::Function)
        } else if self.spells(start, end, "return") {
            Some(Keyword::Return)
        } else if self.spells(start, end, "break") {
            Some(Keyword::Break)
        } else if self.spells(start, end, "continue") {
            Some(Keyword::Continue)
        } else if self.spells(start, end, "local_var") {
            Some(Keyword::LocalVar)
        } else if self.spells(start, end, "global_var") {
            Some(Keyword::GlobalVar)
        } else if self.spells(start, end, "NULL") {
            Some(Keyword::Null)
        } else if self.spells(start, end, "TRUE") {
            Some(Keyword::True)
        } else if self.spells(start, end, "FALSE") {
            Some(Keyword::False)
        } else {
            None
        }
    }

    fn symbol(&self, p: usize) -> (r: Option<(Category, usize)>)
        requires
            p < self.code@.len(),
        ensures
            match r {
                Some((category, len)) => symbol_at(self.code@, p as int) == Some(
                    (category, len as int),
                ) && 1 <= len <= 3 && p + len <= self.code@.len(),
                None => symbol_at(self.code@, p as int) is None,
            },
    {
        let a = self.code[p];
        if a == '(' as u8 {
            Some((Category::LeftParen, 1))
        } else if a == ')' as u8 {
            Some((Category::RightParen, 1))
        } else if a == '[' as u8 {
            Some((Category::LeftBrace, 1))
        } else if a == ']' as u8 {
            Some((Category::RightBrace, 1))
        } else if a == '{' as u8 {
            Some((Category::LeftCurlyBracket, 1))
        } else if a == '}' as u8 {
            Some((Category::RightCurlyBracket, 1))
        } else if a == ',' as u8 {
            Some((Category::Comma, 1))
        } else if a == '.' as u8 {
            Some((Category::Dot, 1))
        } else if a == ':' as u8 {
            Some((Category::DoublePoint, 1))
        } else if a == ';' as u8 {
            Some((Category::Semicolon, 1))
        } else if a == '~' as u8 {
            Some((Category::Tilde, 1))
        } else if a == '^' as u8 {
            Some((Category::Caret, 1))
        } else if a == '%' as u8 {
            if self.follows(p + 1, '=' as u8) {
                Some((Category::PercentEqual, 2))
            } else {
                Some((Category::Percent, 1))
            }
        } else if a == '&' as u8 {
            if self.follows(p + 1, '&' as u8) {
                Some((Category::AmpersandAmpersand, 2))
            } else {
                Some((Category::Ampersand, 1))
            }
        } else if a == '|' as u8 {
            if self.follows(p + 1, '|' as u8) {
                Some((Category::PipePipe, 2))
            } else {
                Some((Category::Pipe, 1))
            }
        } else if a == '!' as u8 {
            if self.follows(p + 1, '=' as u8) {
                Some((Category::BangEqual, 2))
            } else {
                Some((Category::Bang, 1))
            }
        } else if a == '=' as u8 {
            if self.follows(p + 1, '=' as u8) {
                Some((Category::EqualEqual, 2))
            } else {
                Some((Category::Equal, 1))
            }
        } else if a == '>' as u8 {
            if self.follows(p + 1, '>' as u8) {
                if self.follows(p + 2, '=' as u8) {
                    Some((Category::GreaterGreaterEqual, 3))
                } else {
                    Some((Category::GreaterGreater, 2))
                }
            } else if self.follows(p + 1, '=' as u8) {
                Some((Category::GreaterEqual, 2))
            } else {
                Some((Category::Greater, 1))
            }
        } else if a == '<' as u8 {
            if self.follows(p + 1, '<' as u8) {
                if self.follows(p + 2, '=' as u8) {
                    Some((Category::LessLessEqual, 3))
                } else {
                    Some((Category::LessLess, 2))
                }
            } else if self.follows(p + 1, '=' as u8) {
                Some((Category::LessEqual, 2))
            } else {
                Some((Category::Less, 1))
            }
        } else if a == '-' as u8 {
            if self.follows(p + 1, '-' as u8) {
                Some((Category::MinusMinus, 2))
            } else if self.follows(p + 1, '=' as u8) {
                Some((Category::MinusEqual, 2))
            } else {
                Some((Category::Minus, 1))
            }
        } else if a == '+' as u8 {
            if self.follows(p + 1, '+' as u8) {
                Some((Category::PlusPlus, 2))
            } else if self.follows(p + 1, '=' as u8) {
                Some((Category::PlusEqual, 2))
            } else {
                Some((Category::Plus, 1))
            }
        } else if a == '/' as u8 {
            if self.follows(p + 1, '=' as u8) {
                Some((Category::SlashEqual, 2))
            } else {
                Some((Category::Slash, 1))
            }
        } else if a == '*' as u8 {
            if self.follows(p + 1, '=' as u8) {
                Some((Category::StarEqual, 2))
            } else {
                Some((Category::Star, 1))
            }
        } else {
            None
        }
    }

    fn number(&self, p: usize) -> (r: (Lexeme, usize))
        requires
            p < self.code@.len(),
        ensures
            r.0 == number_at(self.code@, p as int).0,
            r.1 == number_at(self.code@, p as int).1,
            p <= r.1 <= self.code@.len(),
    {
        let zero = self.code[p] == '0' as u8;
        let b = self.byte_at(p + 1);
        if zero && (b == Some('x' as u8) || b == Some('X' as u8)) {
            let end = self.scan_run(p + 2, ByteClass::HexDigit);
            if end == p + 2 {
                (Err(LexError { kind: LexErrorKind::MalformedNumber, position: (p, end) }), end)
            } else {
                (Ok(Token { category: Category::Number(Base::Hex), position: (p + 2, end) }), end)
            }
        } else if zero && (b == Some('b' as u8) || b == Some('B' as u8)) {
            let end = self.scan_run(p + 2, ByteClass::BinaryDigit);
            if end == p + 2 {
                (Err(LexError { kind: LexErrorKind::MalformedNumber, position: (p, end) }), end)
            } else {
                (
                    Ok(Token { category: Category::Number(Base::Binary), position: (p + 2, end) }),
                    end,
                )
            }
        } else if zero && b.is_some() && ByteClass::OctalDigit.contains(b.unwrap()) {
            let end = self.scan_run(p + 1, ByteClass::OctalDigit);
            (Ok(Token { category: Category::Number(Base::Octal), position: (p + 1, end) }), end)
        } else {
            let end = self.scan_run(p, ByteClass::Digit);
            (Ok(Token { category: Category::Number(Base::Base10), position: (p, end) }), end)
        }
    }

    fn string(&self, p: usize) -> (r: (Lexeme, usize))
        requires
            p < self.code@.len(),
        ensures
            r.0 == string_at(self.code@, p as int).0,
            r.1 == string_at(self.code@, p as int).1,
            p < r.1 <= self.code@.len(),
    {
        let quote = self.code[p];
        let quoteable = quote == '\'' as u8;
        let kind = if quoteable {
            StringCategory::Quoteable
        } else {
            StringCategory::Unquoteable
        };
        match self.scan_quote(p + 1, quote, quoteable) {
            Some(q) => (Ok(Token { category: Category::String(kind), position: (p + 1, q) }), q + 1),
            None => (
                Err(
                    LexError {
                        kind: LexErrorKind::UnterminatedString,
                        position: (p, self.code.len()),
                    },
                ),
                self.code.len(),
            ),
        }
    }

    fn lexeme(&self, p: usize) -> (r: (Lexeme, usize))
        requires
            p < self.code@.len(),
        ensures
            r.0 == lexeme_at(self.code@, p as int).0,
            r.1 == lexeme_at(self.code@, p as int).1,
            p < r.1 <= self.code@.len(),
    {
        let len = self.code.len();
        proof {
            lemma_lexeme_at(self.code@, p as int);
        }
        let a = self.code[p];
        if a == '#' as u8 {
            let end = self.scan_run(p, ByteClass::NotLineEnd);
            (Ok(Token { category: Category::Comment, position: (p, end) }), end)
        } else if a == '/' as u8 && self.follows(p + 1, '*' as u8) {
            match self.scan_comment(p + 2) {
                Some(end) => (Ok(Token { category: Category::Comment, position: (p, end) }), end),
                None => (
                    Err(
                        LexError {
                            kind: LexErrorKind::UnterminatedComment,
                            position: (p, self.code.len()),
                        },
                    ),
                    self.code.len(),
                ),
            }
        } else if a == '\'' as u8 || a == '"' as u8 {
            self.string(p)
        } else if ByteClass::Digit.contains(a) {
            self.number(p)
        } else if ByteClass::Identifier.contains(a) {
            let end = self.scan_run(p, ByteClass::Identifier);
            let keyword = self.keyword(p, end);
            (Ok(Token { category: Category::Identifier(keyword), position: (p, end) }), end)
        } else {
            match self.symbol(p) {
                Some((category, len)) => (Ok(Token { category, position: (p, p + len) }), p + len),
                None => (
                    Err(LexError { kind: LexErrorKind::UnknownSymbol, position: (p, p + 1) }),
                    p + 1,
                ),
            }
        }
    }

    /// The next lexeme, without moving on.
    pub fn peek(&self) -> (r: Option<Lexeme>)
        ensures
            r == first(self.remaining()),
    {
        let len = self.code.len();
        proof {
            use_type_invariant(self);
            lemma_lex_unfold(self.code@, self.position as int);
        }
        let p = self.scan_run(self.position, ByteClass::Whitespace);
        if p < self.code.len() {
            Some(self.lexeme(p).0)
        } else {
            None
        }
    }

    /// The next lexeme; the tokenizer moves behind it.
    pub fn next(&mut self) -> (r: Option<Lexeme>)
        ensures
            r == first(old(self).remaining()),
            final(self).remaining() == rest(old(self).remaining()),
            final(self).source() == old(self).source(),
            final(self).taken() == old(self).taken() + (if r is Some {
                1nat
            } else {
                0nat
            }),
            old(self).offset() <= final(self).offset(),
            r is Some ==> old(self).offset() < final(self).offset(),
    {
        let len = self.code.len();
        proof {
            use_type_invariant(&*self);
            lemma_lex_unfold(self.code@, self.position as int);
        }
        let p = self.scan_run(self.position, ByteClass::Whitespace);
        if p < self.code.len() {
            let (lexeme, next) = self.lexeme(p);
            proof {
                let all = lex(self.code@, 0);
                let coming = lex(self.code@, self.position as int);
                assert((seq![lexeme] + lex(self.code@, next as int)).skip(1) =~= lex(
                    self.code@,
                    next as int,
                ));
                assert(coming.len() > 0);
                assert(all.skip(self.count as int).skip(1) =~= all.skip(self.count + 1));
            }
            *self = Tokenizer { code: self.code, position: next, count: self.count + 1 };
            Some(lexeme)
        } else {
            self.position = p;
            proof {
                lemma_lex_unfold(self.code@, p as int);
                lemma_run_end(self.code@, p as int, ByteClass::Whitespace);
            }
            None
        }
    }
}

/// All lexemes of the script, in the order of the text.
pub fn tokenize(code: &str) -> (r: Vec<Lexeme>)
    ensures
        r@ == lex(code.spec_bytes(), 0),
{
    let mut tokenizer = Tokenizer::new(code);
    let mut lexemes: Vec<Lexeme> = Vec::new();
    assert(lex(code.spec_bytes(), 0) =~= lexemes@ + tokenizer.remaining());
    loop
        invariant
            lex(code.spec_bytes(), 0) == lexemes@ + tokenizer.remaining(),
        decreases tokenizer.remaining().len(),
    {
        let ghost before = lexemes@;
        let ghost coming = tokenizer.remaining();
        match tokenizer.next() {
            None => {
                assert(lexemes@ + coming =~= lexemes@);
                return lexemes;
            },
            Some(lexeme) => {
                lexemes.push(lexeme);
                assert(before + coming =~= lexemes@ + tokenizer.remaining());
            },
        }
    }
}

/// The first element of a sequence, if it has one.
pub open spec fn first<T>(s: Seq<T>) -> Option<T> {
    if s.len() > 0 {
        Some(s[0])
    } else {
        None
    }
}

/// The sequence without its first element; an empty sequence stays empty.
pub open spec fn rest<T>(s: Seq<T>) -> Seq<T> {
    if s.len() > 0 {
        s.skip(1)
    } else {
        s
    }
}

} // verus!
