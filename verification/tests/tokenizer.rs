use nasl_interpreter::token::{Base, Category, Keyword, StringCategory, Token};
use nasl_interpreter::tokenizer::{tokenize, LexError, LexErrorKind, Lexeme, Tokenizer};

fn token(category: Category, start: usize, end: usize) -> Lexeme {
    Ok(Token {
        category,
        position: (start, end),
    })
}

fn failure(kind: LexErrorKind, start: usize, end: usize) -> Lexeme {
    Err(LexError {
        kind,
        position: (start, end),
    })
}

fn categories(code: &str) -> Vec<Category> {
    tokenize(code)
        .into_iter()
        .map(|lexeme| lexeme.expect("no lexical error expected").category)
        .collect()
}

#[test]
fn tokenizing_twice_gives_the_same_tokens() {
    let code = "a = 1 + 'x'; # note\nif (a) { b++; } /* done */";
    assert_eq!(tokenize(code), tokenize(code));
    assert_eq!(tokenize(code), tokenize(&code.to_string()));
}

#[test]
fn whitespace_is_skipped_and_positions_are_byte_offsets() {
    assert_eq!(tokenize(""), vec![]);
    assert_eq!(tokenize(" \t\r\n"), vec![]);
    assert_eq!(
        tokenize("  a\t=\n12 ;"),
        vec![
            token(Category::Identifier(None), 2, 3),
            token(Category::Equal, 4, 5),
            token(Category::Number(Base::Base10), 6, 8),
            token(Category::Semicolon, 9, 10),
        ]
    );
    assert_eq!(
        tokenize("'\u{fc}' x"),
        vec![
            token(Category::String(StringCategory::Quoteable), 1, 3),
            token(Category::Identifier(None), 5, 6),
        ]
    );
}

#[test]
fn operators_are_read_atomically() {
    assert_eq!(
        categories("++ -- += -= *= /= %= <<= >>= == != <= >= << >> && ||"),
        vec![
            Category::PlusPlus,
            Category::MinusMinus,
            Category::PlusEqual,
            Category::MinusEqual,
            Category::StarEqual,
            Category::SlashEqual,
            Category::PercentEqual,
            Category::LessLessEqual,
            Category::GreaterGreaterEqual,
            Category::EqualEqual,
            Category::BangEqual,
            Category::LessEqual,
            Category::GreaterEqual,
            Category::LessLess,
            Category::GreaterGreater,
            Category::AmpersandAmpersand,
            Category::PipePipe,
        ]
    );
    assert_eq!(
        categories("+-*/%=!<>&|^~()[]{},.:;"),
        vec![
            Category::Plus,
            Category::Minus,
            Category::Star,
            Category::Slash,
            Category::PercentEqual,
            Category::Bang,
            Category::Less,
            Category::Greater,
            Category::Ampersand,
            Category::Pipe,
            Category::Caret,
            Category::Tilde,
            Category::LeftParen,
            Category::RightParen,
            Category::LeftBrace,
            Category::RightBrace,
            Category::LeftCurlyBracket,
            Category::RightCurlyBracket,
            Category::Comma,
            Category::Dot,
            Category::DoublePoint,
            Category::Semicolon,
        ]
    );
    assert_eq!(
        categories("a+++b"),
        vec![
            Category::Identifier(None),
            Category::PlusPlus,
            Category::Plus,
            Category::Identifier(None),
        ]
    );
}

#[test]
fn numbers_of_every_base() {
    assert_eq!(
        tokenize("0 12 017 0x1F 0b101 08"),
        vec![
            token(Category::Number(Base::Base10), 0, 1),
            token(Category::Number(Base::Base10), 2, 4),
            token(Category::Number(Base::Octal), 6, 8),
            token(Category::Number(Base::Hex), 11, 13),
            token(Category::Number(Base::Binary), 16, 19),
            token(Category::Number(Base::Base10), 20, 22),
        ]
    );
    assert_eq!(
        tokenize("0x"),
        vec![failure(LexErrorKind::MalformedNumber, 0, 2)]
    );
    assert_eq!(
        tokenize("0b2"),
        vec![
            failure(LexErrorKind::MalformedNumber, 0, 2),
            token(Category::Number(Base::Base10), 2, 3),
        ]
    );
}

#[test]
fn strings_of_both_kinds() {
    assert_eq!(
        tokenize("'a\\'b' \"c\\\" ''"),
        vec![
            token(Category::String(StringCategory::Quoteable), 1, 5),
            token(Category::String(StringCategory::Unquoteable), 8, 10),
            token(Category::String(StringCategory::Quoteable), 13, 13),
        ]
    );
    assert_eq!(
        tokenize("a 'bc"),
        vec![
            token(Category::Identifier(None), 0, 1),
            failure(LexErrorKind::UnterminatedString, 2, 5),
        ]
    );
    assert_eq!(
        tokenize("'a\\"),
        vec![failure(LexErrorKind::UnterminatedString, 0, 3)]
    );
    assert_eq!(
        tokenize("\"a"),
        vec![failure(LexErrorKind::UnterminatedString, 0, 2)]
    );
}

#[test]
fn comments_are_tokens() {
    assert_eq!(
        tokenize("1 # one\n2 /* two\n */ 3 /**/"),
        vec![
            token(Category::Number(Base::Base10), 0, 1),
            token(Category::Comment, 2, 7),
            token(Category::Number(Base::Base10), 8, 9),
            token(Category::Comment, 10, 20),
            token(Category::Number(Base::Base10), 21, 22),
            token(Category::Comment, 23, 27),
        ]
    );
    assert_eq!(
        tokenize("1 /* open"),
        vec![
            token(Category::Number(Base::Base10), 0, 1),
            failure(LexErrorKind::UnterminatedComment, 2, 9),
        ]
    );
    assert_eq!(
        tokenize("/*/"),
        vec![failure(LexErrorKind::UnterminatedComment, 0, 3)]
    );
}

#[test]
fn keywords_and_names() {
    assert_eq!(
        categories(
            "if else while include function return break continue local_var global_var NULL TRUE FALSE"
        ),
        vec![
            Category::Identifier(Some(Keyword::If)),
            Category::Identifier(Some(Keyword::Else)),
            Category::Identifier(Some(Keyword::While)),
            Category::Identifier(Some(Keyword::Include)),
            Category::Identifier(Some(Keyword::Function)),
            Category::Identifier(Some(Keyword::Return)),
            Category::Identifier(Some(Keyword::Break)),
            Category::Identifier(Some(Keyword::Continue)),
            Category::Identifier(Some(Keyword::LocalVar)),
            Category::Identifier(Some(Keyword::GlobalVar)),
            Category::Identifier(Some(Keyword::Null)),
            Category::Identifier(Some(Keyword::True)),
            Category::Identifier(Some(Keyword::False)),
        ]
    );
    assert_eq!(
        categories("iff If null _if x1 while_"),
        vec![Category::Identifier(None); 6]
    );
}

#[test]
fn unknown_bytes_are_errors_and_the_tokenizer_goes_on() {
    assert_eq!(
        tokenize("a $ b"),
        vec![
            token(Category::Identifier(None), 0, 1),
            failure(LexErrorKind::UnknownSymbol, 2, 3),
            token(Category::Identifier(None), 4, 5),
        ]
    );
    assert_eq!(
        tokenize("\u{fc}"),
        vec![
            failure(LexErrorKind::UnknownSymbol, 0, 1),
            failure(LexErrorKind::UnknownSymbol, 1, 2),
        ]
    );
}

#[test]
fn peek_does_not_move() {
    let mut tokenizer = Tokenizer::new("a b");
    assert_eq!(tokenizer.peek(), Some(token(Category::Identifier(None), 0, 1)));
    assert_eq!(tokenizer.peek(), Some(token(Category::Identifier(None), 0, 1)));
    assert_eq!(tokenizer.next(), Some(token(Category::Identifier(None), 0, 1)));
    assert_eq!(tokenizer.next(), Some(token(Category::Identifier(None), 2, 3)));
    assert_eq!(tokenizer.peek(), None);
    assert_eq!(tokenizer.next(), None);
    assert_eq!(tokenizer.next(), None);
}
