use nasl_interpreter::grammar::Abort;
use nasl_interpreter::lexer::parse;
use nasl_interpreter::operation::Operation;
use nasl_interpreter::prefix_extension::prefix_binding_power;
use nasl_interpreter::statement::{
    AssignOrder, DeclareScope, End, Parsing, PrefixState, Statement, SyntaxError,
};
use nasl_interpreter::token::{Base, Category, Keyword, Token};
use nasl_interpreter::tokenizer::{LexError, LexErrorKind};

fn token(category: Category, start: usize, end: usize) -> Token {
    Token {
        category,
        position: (start, end),
    }
}

fn number(start: usize, end: usize) -> Statement {
    Statement::Primitive(token(Category::Number(Base::Base10), start, end))
}

fn variable(start: usize, end: usize) -> Statement {
    Statement::Variable(token(Category::Identifier(None), start, end))
}

fn all(code: &str) -> Vec<Result<Statement, SyntaxError>> {
    let mut lexer = parse(code);
    let mut statements = Vec::new();
    while let Some(statement) = lexer.next() {
        statements.push(statement);
    }
    statements
}

fn only(code: &str) -> Result<Statement, SyntaxError> {
    let mut statements = all(code);
    assert_eq!(statements.len(), 1, "{:?}", statements);
    statements.pop().unwrap()
}

#[test]
fn parsing_twice_gives_equal_trees() {
    let code = "a = 1 + f(2, b: 3) * c[4]; if (a) { ++a; } else b--;";
    assert_eq!(all(code), all(code));
}

#[test]
fn unary_binding_power_is_21_and_binary_powers_are_lower() {
    let operators = [
        Category::Plus,
        Category::Minus,
        Category::Tilde,
        Category::Bang,
    ];
    for category in operators {
        assert_eq!(prefix_binding_power(token(category, 0, 1)), Ok(21));
    }
    let star = token(Category::Star, 0, 1);
    assert_eq!(
        prefix_binding_power(star),
        Err(SyntaxError::UnexpectedToken(star))
    );
    let binary = [
        (Category::Star, (18, 19)),
        (Category::Slash, (18, 19)),
        (Category::Percent, (18, 19)),
        (Category::Plus, (16, 17)),
        (Category::Minus, (16, 17)),
        (Category::LessLess, (14, 15)),
        (Category::GreaterGreater, (14, 15)),
        (Category::Ampersand, (12, 13)),
        (Category::Caret, (10, 11)),
        (Category::Pipe, (8, 9)),
        (Category::Less, (6, 7)),
        (Category::EqualEqual, (6, 7)),
        (Category::AmpersandAmpersand, (4, 5)),
        (Category::PipePipe, (2, 3)),
    ];
    for (category, powers) in binary {
        let operation = Operation::new(token(category, 0, 1)).unwrap();
        assert_eq!(operation.infix_binding_power(), Some(powers));
        assert!(powers.0 < 21 && powers.1 < 21);
    }
    assert_eq!(
        Operation::Assign(Category::Equal).infix_binding_power(),
        Some((1, 1))
    );
    assert_eq!(
        Operation::Assign(Category::PlusPlus).infix_binding_power(),
        None
    );
    assert_eq!(Operation::Primitive.infix_binding_power(), None);
}

#[test]
fn classification() {
    let classify = |category| Operation::new(token(category, 0, 1));
    assert_eq!(
        classify(Category::Plus),
        Some(Operation::Operator(Category::Plus))
    );
    assert_eq!(
        classify(Category::PlusPlus),
        Some(Operation::Assign(Category::PlusPlus))
    );
    assert_eq!(
        classify(Category::LeftParen),
        Some(Operation::Grouping(Category::LeftParen))
    );
    assert_eq!(
        classify(Category::Number(Base::Hex)),
        Some(Operation::Primitive)
    );
    assert_eq!(
        classify(Category::Identifier(Some(Keyword::True))),
        Some(Operation::Primitive)
    );
    assert_eq!(classify(Category::Identifier(None)), Some(Operation::Variable));
    assert_eq!(
        classify(Category::Identifier(Some(Keyword::If))),
        Some(Operation::Keyword(Keyword::If))
    );
    assert_eq!(classify(Category::Comment), Some(Operation::NoOp));
    assert_eq!(classify(Category::Semicolon), Some(Operation::NoOp));
    assert_eq!(classify(Category::RightParen), None);
    assert_eq!(classify(Category::Dot), None);
}

#[test]
fn precedence_and_associativity() {
    assert_eq!(
        only("1 * 2 + 3;"),
        Ok(Statement::Operator(
            Category::Plus,
            vec![
                Statement::Operator(Category::Star, vec![number(0, 1), number(4, 5)]),
                number(8, 9)
            ]
        ))
    );
    assert_eq!(
        only("1 - 2 - 3;"),
        Ok(Statement::Operator(
            Category::Minus,
            vec![
                Statement::Operator(Category::Minus, vec![number(0, 1), number(4, 5)]),
                number(8, 9)
            ]
        ))
    );
    assert_eq!(
        only("-1 * 2;"),
        Ok(Statement::Operator(
            Category::Star,
            vec![
                Statement::Operator(Category::Minus, vec![number(1, 2)]),
                number(5, 6)
            ]
        ))
    );
    assert_eq!(
        only("(1 + 2) * 3;"),
        Ok(Statement::Operator(
            Category::Star,
            vec![
                Statement::Operator(Category::Plus, vec![number(1, 2), number(5, 6)]),
                number(10, 11)
            ]
        ))
    );
    assert_eq!(
        only("a = b = 1;"),
        Ok(Statement::Assign(
            Category::Equal,
            AssignOrder::AssignReturn,
            Box::new(variable(0, 1)),
            Box::new(Statement::Assign(
                Category::Equal,
                AssignOrder::AssignReturn,
                Box::new(variable(4, 5)),
                Box::new(number(8, 9))
            ))
        ))
    );
}

#[test]
fn postfix_and_assignment_targets() {
    assert_eq!(
        only("a++;"),
        Ok(Statement::Assign(
            Category::PlusPlus,
            AssignOrder::ReturnAssign,
            Box::new(variable(0, 1)),
            Box::new(Statement::NoOp(None))
        ))
    );
    assert_eq!(
        only("a[1]--;"),
        Ok(Statement::Assign(
            Category::MinusMinus,
            AssignOrder::ReturnAssign,
            Box::new(Statement::Array(
                token(Category::Identifier(None), 0, 1),
                Some(Box::new(number(2, 3)))
            )),
            Box::new(Statement::NoOp(None))
        ))
    );
    assert_eq!(
        only("a[] = 1;"),
        Ok(Statement::Assign(
            Category::Equal,
            AssignOrder::AssignReturn,
            Box::new(Statement::Array(
                token(Category::Identifier(None), 0, 1),
                None
            )),
            Box::new(number(6, 7))
        ))
    );
    assert_eq!(
        all("1 = 2;")[0],
        Err(SyntaxError::UnexpectedToken(token(Category::Equal, 2, 3)))
    );
    assert_eq!(
        all("1++;")[0],
        Err(SyntaxError::UnexpectedToken(token(Category::PlusPlus, 1, 3)))
    );
    assert_eq!(
        all("= 1;")[0],
        Err(SyntaxError::UnexpectedToken(token(Category::Equal, 0, 1)))
    );
    assert_eq!(
        all("++f();")[0],
        Err(SyntaxError::UnexpectedToken(token(Category::PlusPlus, 0, 2)))
    );
    assert_eq!(
        all("++")[0],
        Err(SyntaxError::UnexpectedEnd(Parsing::PrefixStatement))
    );
}

#[test]
fn calls_and_named_parameters() {
    assert_eq!(
        only("f();"),
        Ok(Statement::Call(
            token(Category::Identifier(None), 0, 1),
            vec![]
        ))
    );
    assert_eq!(
        all("f(1, a: 2, /* last */ b);"),
        vec![
            Ok(Statement::Call(
                token(Category::Identifier(None), 0, 1),
                vec![
                    number(2, 3),
                    Statement::NamedParameter(
                        token(Category::Identifier(None), 5, 6),
                        Box::new(number(8, 9))
                    ),
                    variable(22, 23),
                ]
            )),
            Ok(Statement::NoOp(Some(token(Category::Comment, 11, 21)))),
        ]
    );
    assert_eq!(
        all("f(1")[0],
        Err(SyntaxError::UnexpectedEnd(Parsing::Arguments))
    );
    assert_eq!(
        all("f(1;")[0],
        Err(SyntaxError::UnexpectedToken(token(Category::Semicolon, 3, 4)))
    );
    assert_eq!(
        all("a[1")[0],
        Err(SyntaxError::UnexpectedEnd(Parsing::Index))
    );
    assert_eq!(
        all("(1")[0],
        Err(SyntaxError::UnexpectedEnd(Parsing::Group))
    );
}

#[test]
fn keywords() {
    assert_eq!(
        only("if (a) b; else { c; }"),
        Ok(Statement::If(
            Box::new(variable(4, 5)),
            Box::new(variable(7, 8)),
            Some(Box::new(Statement::Block(vec![variable(17, 18)])))
        ))
    );
    assert_eq!(
        only("if (a) b;"),
        Ok(Statement::If(
            Box::new(variable(4, 5)),
            Box::new(variable(7, 8)),
            None
        ))
    );
    assert_eq!(
        only("while (a) { break; continue; }"),
        Ok(Statement::While(
            Box::new(variable(7, 8)),
            Box::new(Statement::Block(vec![
                Statement::Break,
                Statement::Continue
            ]))
        ))
    );
    assert_eq!(
        only("include(a);"),
        Ok(Statement::Include(Box::new(variable(8, 9))))
    );
    assert_eq!(
        only("local_var a, b;"),
        Ok(Statement::Declare(
            DeclareScope::Local,
            vec![variable(10, 11), variable(13, 14)]
        ))
    );
    assert_eq!(
        only("global_var a;"),
        Ok(Statement::Declare(
            DeclareScope::Global,
            vec![variable(11, 12)]
        ))
    );
    assert_eq!(
        only("function f(a, b) { return a; }"),
        Ok(Statement::FunctionDeclaration(
            token(Category::Identifier(None), 9, 10),
            vec![variable(11, 12), variable(14, 15)],
            Box::new(Statement::Block(vec![Statement::Return(Box::new(
                variable(26, 27)
            ))]))
        ))
    );
    assert_eq!(
        all("local_var 1;")[0],
        Err(SyntaxError::UnexpectedToken(token(
            Category::Identifier(Some(Keyword::LocalVar)),
            0,
            9
        )))
    );
    assert_eq!(
        all("else 1;")[0],
        Err(SyntaxError::UnexpectedToken(token(
            Category::Identifier(Some(Keyword::Else)),
            0,
            4
        )))
    );
    assert_eq!(
        all("if a")[0],
        Err(SyntaxError::UnexpectedToken(token(
            Category::Identifier(None),
            3,
            4
        )))
    );
    assert_eq!(
        all("if (a")[0],
        Err(SyntaxError::UnexpectedEnd(Parsing::Condition))
    );
    assert_eq!(
        all("if (a) b")[0],
        Err(SyntaxError::UnexpectedEnd(Parsing::Body))
    );
    assert_eq!(
        all("function")[0],
        Err(SyntaxError::UnexpectedEnd(Parsing::Function))
    );
    assert_eq!(
        all("local_var a")[0],
        Err(SyntaxError::UnexpectedEnd(Parsing::Declaration))
    );
}

#[test]
fn comments_in_blocks_follow_the_statement() {
    assert_eq!(
        all("{ 1; # one\n ; }"),
        vec![
            Ok(Statement::Block(vec![
                number(2, 3),
                Statement::NoOp(Some(token(Category::Semicolon, 12, 13))),
            ])),
            Ok(Statement::NoOp(Some(token(Category::Comment, 5, 10)))),
        ]
    );
    assert_eq!(
        all("{ 1;")[0],
        Err(SyntaxError::UnexpectedEnd(Parsing::Block))
    );
    assert_eq!(
        all("{ 1 }")[0],
        Err(SyntaxError::UnexpectedToken(token(
            Category::RightCurlyBracket,
            4,
            5
        )))
    );
    assert_eq!(
        all("1 /* kept */ )"),
        vec![
            Err(SyntaxError::UnexpectedToken(token(
                Category::RightParen,
                13,
                14
            ))),
            Ok(Statement::NoOp(Some(token(Category::Comment, 2, 12)))),
            Err(SyntaxError::UnexpectedToken(token(
                Category::RightParen,
                13,
                14
            ))),
        ]
    );
}

#[test]
fn errors_do_not_end_the_script() {
    let statements = all("1 2; 3; ) 4; 'a");
    assert_eq!(
        statements,
        vec![
            Err(SyntaxError::UnexpectedToken(token(
                Category::Number(Base::Base10),
                2,
                3
            ))),
            Ok(number(2, 3)),
            Ok(number(5, 6)),
            Err(SyntaxError::UnexpectedToken(token(
                Category::RightParen,
                8,
                9
            ))),
            Ok(number(10, 11)),
            Err(SyntaxError::Lexical(LexError {
                kind: LexErrorKind::UnterminatedString,
                position: (13, 15)
            })),
        ]
    );
    assert_eq!(
        all("1"),
        vec![Err(SyntaxError::UnexpectedEnd(Parsing::Statement))]
    );
    assert_eq!(all(""), vec![]);
}

#[test]
fn nesting_is_bounded() {
    let shallow = format!("{}1{};", "(".repeat(20), ")".repeat(20));
    assert_eq!(only(&shallow), Ok(number(20, 21)));
    let deep = format!("{}1{};", "(".repeat(200), ")".repeat(200));
    assert_eq!(all(&deep)[0], Err(SyntaxError::MaxRecursion));
}

#[test]
fn prefix_statement_states() {
    let mut lexer = parse("1;");
    let comment = token(Category::Comment, 0, 3);
    let abort = Abort::on(Category::Semicolon);
    assert_eq!(
        lexer.prefix_statement(comment, abort, 8),
        Ok((PrefixState::OpenEnd, Statement::NoOp(Some(comment))))
    );
    let end = token(Category::Semicolon, 0, 1);
    assert_eq!(
        lexer.prefix_statement(end, abort, 8),
        Ok((
            PrefixState::Break(Category::Semicolon),
            Statement::NoOp(Some(end))
        ))
    );
    let literal = token(Category::Number(Base::Base10), 0, 1);
    assert_eq!(
        lexer.prefix_statement(literal, abort, 8),
        Ok((PrefixState::Continue, Statement::Primitive(literal)))
    );
    assert_eq!(
        lexer.statement(0, abort, 8),
        Ok((End::Done(Category::Semicolon), number(0, 1)))
    );
    assert_eq!(
        lexer.statement(0, abort, 8),
        Err(SyntaxError::UnexpectedEnd(Parsing::Statement))
    );
    assert_eq!(
        parse("1;").statement(0, abort, 0),
        Err(SyntaxError::MaxRecursion)
    );
}

#[test]
fn a_copy_of_a_statement_is_equal_to_it() {
    for statement in all("a = 1 + f(2, b: 3) * c[4]; if (a) { ++a; } else b--; while (1) ; include('x'); local_var q; function f(a) { return a; }") {
        let statement = statement.unwrap();
        assert_eq!(statement.clone(), statement);
    }
}
