use nasl_interpreter::context::{standard_functions, Context};
use nasl_interpreter::error::{FunctionErrorKind, InterpretError, LoadError};
use nasl_interpreter::interpreter::{CodeInterpreter, Interpreter};
use nasl_interpreter::lexer::parse;
use nasl_interpreter::register::{ContextType, Register};
use nasl_interpreter::statement::{Statement, SyntaxError};
use nasl_interpreter::token::{Base, Category, StringCategory, Token};
use nasl_interpreter::value::NaslValue;

fn results(code: &str, context: &Context) -> Vec<Result<NaslValue, InterpretError>> {
    let mut register = Register::default();
    let interpreter = Interpreter::new(code, context);
    let mut parser = parse(code);
    let mut values = Vec::new();
    while let Some(statement) = parser.next() {
        values.push(
            interpreter.resolve(&statement.expect("no parse error expected"), &mut register),
        );
    }
    values
}

fn last(code: &str) -> Result<NaslValue, InterpretError> {
    results(code, &Context::default()).pop().unwrap()
}

fn number(n: i64) -> Result<NaslValue, InterpretError> {
    Ok(NaslValue::Number(n))
}

fn text(s: &str) -> Result<NaslValue, InterpretError> {
    Ok(NaslValue::String(s.to_string()))
}

#[test]
fn literals() {
    assert_eq!(last("12;"), number(12));
    assert_eq!(last("0x1f;"), number(31));
    assert_eq!(last("0b101;"), number(5));
    assert_eq!(last("017;"), number(15));
    assert_eq!(last("08;"), number(8));
    assert_eq!(last("9223372036854775807;"), number(i64::MAX));
    assert_eq!(last("9223372036854775808;"), number(i64::MIN));
    assert_eq!(last("\"a\\nb\";"), text("a\\nb"));
    assert_eq!(last("'a\\nb\\'c\\\\';"), text("a\nb'c\\"));
    assert_eq!(last("'gr\u{fc}n';"), text("gr\u{fc}n"));
    assert_eq!(last("TRUE;"), Ok(NaslValue::Boolean(true)));
    assert_eq!(last("FALSE;"), Ok(NaslValue::Boolean(false)));
    assert_eq!(last("NULL;"), Ok(NaslValue::Null));
    assert_eq!(last(";"), Ok(NaslValue::Null));
    assert_eq!(last("# note"), Ok(NaslValue::Null));
}

#[test]
fn arithmetic() {
    assert_eq!(last("1 + 2 * 3;"), number(7));
    assert_eq!(last("(1 + 2) * 3;"), number(9));
    assert_eq!(last("10 - 4 - 3;"), number(3));
    assert_eq!(last("7 / 2;"), number(3));
    assert_eq!(last("-7 / 2;"), number(-3));
    assert_eq!(last("-7 % 2;"), number(-1));
    assert_eq!(last("7 % -2;"), number(1));
    assert_eq!(last("1 / 0;"), Err(InterpretError::DivisionByZero));
    assert_eq!(last("1 % 0;"), Err(InterpretError::DivisionByZero));
    assert_eq!(last("9223372036854775807 + 1;"), number(i64::MIN));
    assert_eq!(last("(0 - 9223372036854775807 - 1) / -1;"), number(i64::MIN));
    assert_eq!(last("(0 - 9223372036854775807 - 1) % -1;"), number(0));
    assert_eq!(last("-5;"), number(-5));
    assert_eq!(last("+5;"), number(5));
    assert_eq!(last("~5;"), number(-6));
    assert_eq!(last("!5;"), Ok(NaslValue::Boolean(false)));
    assert_eq!(last("!0;"), Ok(NaslValue::Boolean(true)));
    assert_eq!(last("6 & 3;"), number(2));
    assert_eq!(last("6 | 3;"), number(7));
    assert_eq!(last("6 ^ 3;"), number(5));
    assert_eq!(last("1 << 4;"), number(16));
    assert_eq!(last("-16 >> 2;"), number(-4));
    assert_eq!(last("1 << 64;"), number(0));
    assert_eq!(last("TRUE + TRUE;"), number(2));
    assert_eq!(last("NULL + 3;"), number(3));
    assert_eq!(last("'a' + 'b';"), text("ab"));
    assert_eq!(last("'a' + 1;"), Err(InterpretError::TypeMismatch));
    assert_eq!(last("'a' - 'b';"), Err(InterpretError::TypeMismatch));
}

#[test]
fn comparison_and_logic() {
    assert_eq!(last("1 < 2;"), Ok(NaslValue::Boolean(true)));
    assert_eq!(last("2 <= 1;"), Ok(NaslValue::Boolean(false)));
    assert_eq!(last("2 > 1;"), Ok(NaslValue::Boolean(true)));
    assert_eq!(last("1 >= 2;"), Ok(NaslValue::Boolean(false)));
    assert_eq!(last("1 == 1;"), Ok(NaslValue::Boolean(true)));
    assert_eq!(last("1 != 1;"), Ok(NaslValue::Boolean(false)));
    assert_eq!(last("'a' == 'a';"), Ok(NaslValue::Boolean(true)));
    assert_eq!(last("'a' == 1;"), Ok(NaslValue::Boolean(false)));
    assert_eq!(last("1 && 0;"), Ok(NaslValue::Boolean(false)));
    assert_eq!(last("1 || 0;"), Ok(NaslValue::Boolean(true)));
    assert_eq!(last("1 + 1 == 2 && 2 * 2 == 4;"), Ok(NaslValue::Boolean(true)));
    assert_eq!(last("'a' < 'b';"), Err(InterpretError::TypeMismatch));
}

#[test]
fn undeclared_variable_then_assigned() {
    let all = results("a; a = 12; a;", &Context::default());
    assert!(matches!(all[0], Err(InterpretError::UndeclaredVariable(_))));
    assert_eq!(all[1], number(12));
    assert_eq!(all[2], number(12));
}

#[test]
fn assignment_in_an_enclosing_scope_is_seen_inside() {
    let code = "a = 1; while (a < 3) { a = a + 1; b = a; } a; b;";
    let all = results(code, &Context::default());
    assert_eq!(all[0], number(1));
    assert_eq!(all[1], Ok(NaslValue::Null));
    assert_eq!(all[2], number(3));
    assert!(matches!(all[3], Err(InterpretError::UndeclaredVariable(_))));
}

#[test]
fn assignment_operators() {
    assert_eq!(last("a = 5; a += 2; a;"), number(7));
    assert_eq!(last("a = 5; a -= 2;"), number(3));
    assert_eq!(last("a = 5; a *= 2;"), number(10));
    assert_eq!(last("a = 5; a /= 2;"), number(2));
    assert_eq!(last("a = 5; a %= 2;"), number(1));
    assert_eq!(last("a = 5; a <<= 2;"), number(20));
    assert_eq!(last("a = 5; a >>= 1;"), number(2));
    assert_eq!(last("a = 5; ++a;"), number(6));
    assert_eq!(last("a = 5; --a;"), number(4));
    assert_eq!(last("a = 5; a++;"), number(5));
    assert_eq!(last("a = 5; a++; a;"), number(6));
    assert_eq!(last("a = 5; a--; a;"), number(4));
    assert_eq!(last("a = b = 3; a + b;"), number(6));
    assert_eq!(last("a = 1; 1 + ++a * 2;"), number(5));
    assert!(matches!(
        last("a += 1;"),
        Err(InterpretError::UndeclaredVariable(_))
    ));
    assert!(matches!(
        last("++a;"),
        Err(InterpretError::UndeclaredVariable(_))
    ));
}

#[test]
fn arrays() {
    assert_eq!(
        last("a[0] = 1; a[1] = 'x'; a;"),
        Ok(NaslValue::Array(vec![
            NaslValue::Number(1),
            NaslValue::String("x".to_string())
        ]))
    );
    assert_eq!(last("a[0] = 1; a[0] = 2; a[0];"), number(2));
    assert_eq!(last("a[0] = 1; ++a[0];"), number(2));
    assert_eq!(last("a[0] = 1; a[0]++; a[0];"), number(2));
    assert_eq!(last("a[0] = 1; a[];"), Ok(NaslValue::Array(vec![NaslValue::Number(1)])));
    assert_eq!(last("a[0] = 1; a[1];"), Err(InterpretError::IndexOutOfRange));
    assert_eq!(last("a[0] = 1; a[-1];"), Err(InterpretError::IndexOutOfRange));
    assert_eq!(last("a[1] = 1;"), Err(InterpretError::IndexOutOfRange));
    assert_eq!(last("a[0] = 1; a['x'];"), Err(InterpretError::TypeMismatch));
    assert_eq!(last("a = 1; a[0];"), Err(InterpretError::NotAnArray));
    assert_eq!(last("a = 1; a[0] = 2;"), Err(InterpretError::NotAnArray));
    assert_eq!(last("a = 1; a[];"), Err(InterpretError::NotAnArray));
    assert!(matches!(
        last("a[0];"),
        Err(InterpretError::UndeclaredVariable(_))
    ));
    assert_eq!(last("a[0] = 1; b[0] = 1; a == b;"), Ok(NaslValue::Boolean(true)));
}

#[test]
fn conditionals_and_loops() {
    assert_eq!(last("if (1) 2; else 3;"), number(2));
    assert_eq!(last("if (0) 2; else 3;"), number(3));
    assert_eq!(last("if (0) 2;"), Ok(NaslValue::Null));
    assert_eq!(last("if ('') 2; else 3;"), number(3));
    assert_eq!(last("a = 0; if (a == 0) { a = 5; } a;"), number(5));
    assert_eq!(
        last("i = 0; s = 0; while (i < 10) { i = i + 1; s = s + i; } s;"),
        number(55)
    );
    assert_eq!(
        last("i = 0; while (1) { i++; if (i == 4) break; } i;"),
        number(4)
    );
    assert_eq!(
        last("i = 0; s = 0; while (i < 5) { i++; if (i == 2) continue; s += i; } s;"),
        number(13)
    );
    assert_eq!(last("break;"), Ok(NaslValue::Null));
    assert_eq!(last("1 + break;"), Err(InterpretError::TypeMismatch));
}

#[test]
fn declarations() {
    assert_eq!(last("local_var a, b; a;"), Ok(NaslValue::Null));
    assert_eq!(last("a = 1; while (a == 1) { local_var a; a = 2; break; } a;"), number(1));
    assert_eq!(
        last("i = 0; while (i == 0) { global_var g; g = 7; i = 1; } g;"),
        number(7)
    );
}

#[test]
fn calls() {
    assert!(matches!(
        last("nothing(1, 2);"),
        Err(InterpretError::UnknownFunction(_))
    ));
    assert_eq!(last("get_host_name(1, a: 2);"), text("127.0.0.1"));
    assert!(matches!(
        last("get_host_name(b);"),
        Err(InterpretError::UndeclaredVariable(_))
    ));
    assert_eq!(last("a: 1;"), Err(InterpretError::UnexpectedStatement));
    assert_eq!(
        last("function f(a) { return a; }"),
        Err(InterpretError::UnexpectedStatement)
    );
}

#[test]
fn scopes_are_closed_after_an_error() {
    let code = "while (1) { a = 1 / 0; } get_host_name(b);";
    let context = Context::default();
    let mut register = Register::default();
    let interpreter = Interpreter::new(code, &context);
    let mut parser = parse(code);
    let first = interpreter.resolve(&parser.next().unwrap().unwrap(), &mut register);
    assert_eq!(first, Err(InterpretError::DivisionByZero));
    assert_eq!(register.children(), 0);
    let second = interpreter.resolve(&parser.next().unwrap().unwrap(), &mut register);
    assert!(matches!(second, Err(InterpretError::UndeclaredVariable(_))));
    assert_eq!(register.children(), 0);
    assert_eq!(register, Register::default());
}

#[test]
fn includes() {
    let context = Context::new(
        String::new(),
        None,
        Ok("127.0.0.1".to_string()),
        standard_functions(),
        vec![
            ("a.inc".to_string(), Ok("x = 40; y = x + 2;".to_string())),
            ("bad.inc".to_string(), Ok("x = );".to_string())),
            ("gone.inc".to_string(), Err(LoadError::Unreadable)),
            ("self.inc".to_string(), Ok("include('self.inc');".to_string())),
        ],
    );
    let all = results(
        "include('a.inc'); y; include('none.inc'); include('gone.inc'); include('bad.inc'); include(1); include('self.inc');",
        &context,
    );
    assert_eq!(all[0], Ok(NaslValue::Null));
    assert_eq!(all[1], number(42));
    assert_eq!(all[2], Err(InterpretError::Load(LoadError::NotFound)));
    assert_eq!(all[3], Err(InterpretError::Load(LoadError::Unreadable)));
    assert!(matches!(
        all[4],
        Err(InterpretError::Syntax(SyntaxError::UnexpectedToken(_)))
    ));
    assert_eq!(all[5], Err(InterpretError::TypeMismatch));
    assert_eq!(all[6], Err(InterpretError::NestingLimit));
}

#[test]
fn register_binds_and_shadows() {
    let mut register = Register::new();
    assert!(register.named("a").is_none());
    register.add_local("a", ContextType::Value(NaslValue::Number(1)));
    register.create_child(nasl_interpreter::register::NaslContext::new());
    assert_eq!(
        register.named("a"),
        Some(&ContextType::Value(NaslValue::Number(1)))
    );
    register.add_local("a", ContextType::Value(NaslValue::Number(2)));
    assert_eq!(
        register.named("a"),
        Some(&ContextType::Value(NaslValue::Number(2)))
    );
    register.assign("a", ContextType::Value(NaslValue::Number(3)));
    register.add_global("g", ContextType::Value(NaslValue::Null));
    register.drop_last();
    assert_eq!(
        register.named("a"),
        Some(&ContextType::Value(NaslValue::Number(1)))
    );
    assert_eq!(register.named("g"), Some(&ContextType::Value(NaslValue::Null)));
    register.drop_last();
    assert_eq!(register.children(), 0);
}

#[test]
fn loops_are_bounded() {
    assert_eq!(last("while (1) ;"), Err(InterpretError::IterationLimit));
}

#[test]
fn operators_take_one_or_two_operands() {
    let context = Context::default();
    let interpreter = Interpreter::new("", &context);
    let mut register = Register::new();
    let none = Statement::Operator(Category::Plus, vec![]);
    assert_eq!(
        interpreter.resolve(&none, &mut register),
        Err(InterpretError::WrongOperandCount)
    );
    let one = Statement::Operator(Category::Star, vec![Statement::NoOp(None)]);
    assert_eq!(
        interpreter.resolve(&one, &mut register),
        Err(InterpretError::WrongOperandCount)
    );
    let two = Statement::Operator(
        Category::Bang,
        vec![Statement::NoOp(None), Statement::NoOp(None)],
    );
    assert_eq!(
        interpreter.resolve(&two, &mut register),
        Err(InterpretError::WrongOperandCount)
    );
}

#[test]
fn tokens_outside_the_script_read_as_empty() {
    let context = Context::default();
    let interpreter = Interpreter::new("12", &context);
    let mut register = Register::new();
    let inside = Statement::Primitive(Token {
        category: Category::Number(Base::Base10),
        position: (0, 2),
    });
    assert_eq!(interpreter.resolve(&inside, &mut register), number(12));
    let outside = Statement::Primitive(Token {
        category: Category::Number(Base::Base10),
        position: (1, 3),
    });
    assert_eq!(interpreter.resolve(&outside, &mut register), number(0));
    let backwards = Statement::Primitive(Token {
        category: Category::String(StringCategory::Unquoteable),
        position: (2, 1),
    });
    assert_eq!(interpreter.resolve(&backwards, &mut register), text(""));
}

#[test]
fn built_in_errors_are_wrapped() {
    let context = Context::new(
        "example".to_string(),
        None,
        Err("invalid IP address syntax".to_string()),
        standard_functions(),
        vec![],
    );
    assert_eq!(
        results("get_host_ip();", &context),
        vec![Err(InterpretError::Function(
            FunctionErrorKind::WrongArgument("IP address: invalid IP address syntax".to_string())
        ))]
    );
}

#[test]
fn a_script_runs_statement_by_statement() {
    let context = Context::default();
    let mut register = Register::new();
    let mut script = CodeInterpreter::new("a = 1; a + 'x'; ) b; a + 1;", &context);
    assert_eq!(script.next(&mut register), Some(number(1)));
    assert_eq!(
        script.next(&mut register),
        Some(Err(InterpretError::TypeMismatch))
    );
    assert!(matches!(
        script.next(&mut register),
        Some(Err(InterpretError::Syntax(SyntaxError::UnexpectedToken(_))))
    ));
    assert!(matches!(
        script.next(&mut register),
        Some(Err(InterpretError::UndeclaredVariable(_)))
    ));
    assert_eq!(script.next(&mut register), Some(number(2)));
    assert_eq!(script.next(&mut register), None);
    assert_eq!(script.next(&mut register), None);
}

#[test]
fn a_copy_of_a_register_is_equal_to_it() {
    let mut register = Register::new();
    register.add_local("a", ContextType::Value(NaslValue::Array(vec![NaslValue::Null])));
    register.create_child(nasl_interpreter::register::NaslContext::default());
    register.add_local("b", ContextType::Positional(vec![NaslValue::Number(1)]));
    let copy = register.clone();
    assert_eq!(copy, register);
    register.drop_last();
    assert_ne!(copy, register);
}

#[test]
fn comments_yield_no_value_and_change_nothing() {
    let all = results("# first\na = 1 + /* one */ 2; a;", &Context::default());
    assert_eq!(
        all,
        vec![Ok(NaslValue::Null), number(3), Ok(NaslValue::Null), number(3)]
    );
}
