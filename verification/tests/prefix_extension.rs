use nasl_interpreter::lexer::parse;
use nasl_interpreter::statement::{AssignOrder, Statement, SyntaxError};
use nasl_interpreter::token::{Base, Category, StringCategory, Token};

fn result(code: &str) -> Statement {
    parse(code).next().unwrap().unwrap()
}

fn token(category: Category, start: usize, end: usize) -> Token {
    Token {
        category,
        position: (start, end),
    }
}

fn expected_operation(category: Category) -> Statement {
    Statement::Operator(
        category,
        vec![Statement::Primitive(token(
            Category::Number(Base::Base10),
            1,
            2,
        ))],
    )
}

#[test]
fn operations() {
    assert_eq!(result("-1;"), expected_operation(Category::Minus));
    assert_eq!(result("+1;"), expected_operation(Category::Plus));
    assert_eq!(result("~1;"), expected_operation(Category::Tilde));
    assert_eq!(result("!1;"), expected_operation(Category::Bang));
}

#[test]
fn single_statement() {
    assert_eq!(
        result("1;"),
        Statement::Primitive(token(Category::Number(Base::Base10), 0, 1))
    );
    assert_eq!(
        result("'a';"),
        Statement::Primitive(token(
            Category::String(StringCategory::Quoteable),
            1,
            2
        ))
    );
}

fn expected_assignment(assign_operator: Category) -> Statement {
    Statement::Operator(
        Category::Plus,
        vec![
            Statement::Primitive(Token {
                category: Category::Number(Base::Base10),
                position: (0, 1),
            }),
            Statement::Operator(
                Category::Star,
                vec![
                    Statement::Assign(
                        assign_operator,
                        AssignOrder::AssignReturn,
                        Box::new(Statement::Variable(Token {
                            category: Category::Identifier(None),
                            position: (6, 7),
                        })),
                        Box::new(Statement::NoOp(None)),
                    ),
                    Statement::Primitive(Token {
                        category: Category::Number(Base::Base10),
                        position: (10, 11),
                    }),
                ],
            ),
        ],
    )
}

#[test]
fn assignment_operator() {
    assert_eq!(result("1 + ++a * 1;"), expected_assignment(Category::PlusPlus));
    assert_eq!(
        result("1 + --a * 1;"),
        expected_assignment(Category::MinusMinus)
    );
}

fn expected_array_assignment(assign_operator: Category) -> Statement {
    Statement::Assign(
        assign_operator,
        AssignOrder::AssignReturn,
        Box::new(Statement::Array(
            Token {
                category: Category::Identifier(None),
                position: (2, 3),
            },
            Some(Box::new(Statement::Primitive(Token {
                category: Category::Number(Base::Base10),
                position: (4, 5),
            }))),
        )),
        Box::new(Statement::NoOp(None)),
    )
}

#[test]
fn assignment_array_operator() {
    assert_eq!(result("++a[0];"), expected_array_assignment(Category::PlusPlus));
    assert_eq!(
        result("--a[0];"),
        expected_array_assignment(Category::MinusMinus)
    );
}

#[test]
fn prefix_increment_of_a_literal_is_rejected() {
    let first = parse("++1;").next().unwrap();
    assert!(matches!(first, Err(SyntaxError::UnexpectedToken(_))));
    let first = parse("--(a);").next().unwrap();
    assert!(matches!(first, Err(SyntaxError::UnexpectedToken(_))));
}

#[test]
fn comment_does_not_end_a_statement() {
    assert_eq!(result("1 /*c*/;"), result("1;"));
    assert_eq!(result("1 # c\n;"), result("1;"));
    let mut lexer = parse("1 /*c*/;");
    assert_eq!(
        lexer.next().unwrap().unwrap(),
        Statement::Primitive(token(Category::Number(Base::Base10), 0, 1))
    );
    assert_eq!(
        lexer.next().unwrap().unwrap(),
        Statement::NoOp(Some(token(Category::Comment, 2, 7)))
    );
    assert!(lexer.next().is_none());
}

#[test]
fn comment_between_statements_is_a_statement() {
    let mut lexer = parse("/*c*/ 1;");
    assert_eq!(
        lexer.next().unwrap().unwrap(),
        Statement::NoOp(Some(token(Category::Comment, 0, 5)))
    );
    assert_eq!(
        lexer.next().unwrap().unwrap(),
        Statement::Primitive(token(Category::Number(Base::Base10), 6, 7))
    );
    assert!(lexer.next().is_none());
}

#[test]
fn every_comment_is_handed_out_once() {
    let code = "# a\n1 + /* b */ 2 /* c */; if (x) { # d\n y /* e */; } # f";
    let mut lexer = parse(code);
    let mut comments = Vec::new();
    let mut others = 0;
    while let Some(statement) = lexer.next() {
        match statement.unwrap() {
            Statement::NoOp(Some(found)) if found.category == Category::Comment => {
                comments.push(found.position)
            }
            _ => others += 1,
        }
    }
    assert_eq!(others, 2);
    assert_eq!(
        comments,
        vec![(0, 3), (8, 15), (18, 25), (36, 39), (43, 50), (54, 57)]
    );
}

#[test]
fn comment_inside_a_statement_leaves_the_statement_as_it_is() {
    let with = ["++ /*c*/ a;", "1 + /*c*/ 2;", "- /*c*/ 1;", "f( /*c*/ 1 /*c*/ );", "a /*c*/ [ /*c*/ 0 ];", "a = /*c*/ 1;"];
    let without = ["++ a;", "1 + 2;", "- 1;", "f( 1 );", "a [ 0 ];", "a = 1;"];
    for (noted, plain) in with.iter().zip(without.iter()) {
        let noted = parse(noted).next().unwrap().unwrap();
        let plain = parse(plain).next().unwrap().unwrap();
        assert_eq!(shape(&noted), shape(&plain));
    }
}

fn shape(statement: &Statement) -> String {
    match statement {
        Statement::Primitive(found) => format!("P({:?})", found.category),
        Statement::Variable(_) => "V".to_string(),
        Statement::Array(_, None) => "A".to_string(),
        Statement::Array(_, Some(index)) => format!("A[{}]", shape(index)),
        Statement::Call(_, list) => format!(
            "C({})",
            list.iter().map(shape).collect::<Vec<_>>().join(",")
        ),
        Statement::Operator(category, list) => format!(
            "O({:?},{})",
            category,
            list.iter().map(shape).collect::<Vec<_>>().join(",")
        ),
        Statement::Assign(category, order, target, value) => format!(
            "S({:?},{:?},{},{})",
            category,
            order,
            shape(target),
            shape(value)
        ),
        Statement::NoOp(None) => "N".to_string(),
        other => format!("{:?}", other),
    }
}
