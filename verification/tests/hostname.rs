use nasl_interpreter::built_in_functions::hostname::{get_host_ip, lookup};
use nasl_interpreter::context::{standard_functions, Context, NativeFunction};
use nasl_interpreter::error::FunctionErrorKind;
use nasl_interpreter::interpreter::Interpreter;
use nasl_interpreter::lexer::parse;
use nasl_interpreter::register::Register;
use nasl_interpreter::value::NaslValue;

#[test]
fn get_host_name() {
    let code = r###"
        get_host_name();
        get_host_names();
        "###;
    let mut register = Register::default();
    let context = Context::default();
    let interpreter = Interpreter::new(code, &context);
    let mut parser = parse(code);
    let first = parser
        .next()
        .map(|x| interpreter.resolve(&x.expect("no parse error expected"), &mut register));
    assert!(matches!(first, Some(Ok(NaslValue::String(_)))));
    let second = parser
        .next()
        .map(|x| interpreter.resolve(&x.expect("no parse error expected"), &mut register));
    assert!(matches!(second, Some(Ok(NaslValue::Array(_)))));
}

fn run(code: &str, context: &Context) -> Vec<NaslValue> {
    let mut register = Register::default();
    let interpreter = Interpreter::new(code, context);
    let mut parser = parse(code);
    let mut values = Vec::new();
    while let Some(statement) = parser.next() {
        values.push(
            interpreter
                .resolve(&statement.expect("no parse error expected"), &mut register)
                .expect("no error expected"),
        );
    }
    values
}

#[test]
fn host_name_without_target_is_the_loopback_address() {
    let values = run("get_host_name(); get_host_names(); get_host_ip();", &Context::default());
    assert_eq!(
        values,
        vec![
            NaslValue::String("127.0.0.1".to_string()),
            NaslValue::Array(vec![NaslValue::String("127.0.0.1".to_string())]),
            NaslValue::String("127.0.0.1".to_string()),
        ]
    );
}

#[test]
fn host_name_of_a_target_that_is_no_address_is_the_target() {
    let context = Context::new(
        "scanme.example".to_string(),
        None,
        Err("invalid IP address syntax".to_string()),
        standard_functions(),
        vec![],
    );
    let values = run("get_host_name(); get_host_names();", &context);
    assert_eq!(
        values,
        vec![
            NaslValue::String("scanme.example".to_string()),
            NaslValue::Array(vec![NaslValue::String("scanme.example".to_string())]),
        ]
    );
    assert_eq!(
        get_host_ip(&context),
        Err(FunctionErrorKind::WrongArgument(
            "IP address: invalid IP address syntax".to_string()
        ))
    );
}

#[test]
fn host_name_of_a_socket_address_is_the_first_address() {
    let context = Context::new(
        "localhost:80".to_string(),
        Some(vec!["127.0.0.1:80".to_string(), "[::1]:80".to_string()]),
        Err("invalid IP address syntax".to_string()),
        standard_functions(),
        vec![],
    );
    let values = run("get_host_name(); get_host_names();", &context);
    assert_eq!(
        values,
        vec![
            NaslValue::String("127.0.0.1:80".to_string()),
            NaslValue::Array(vec![NaslValue::String("127.0.0.1:80".to_string())]),
        ]
    );
    let none = Context::new(
        "localhost:80".to_string(),
        Some(vec![]),
        Err("invalid IP address syntax".to_string()),
        standard_functions(),
        vec![],
    );
    assert_eq!(
        run("get_host_name();", &none),
        vec![NaslValue::String(String::new())]
    );
}

#[test]
fn lookup_knows_the_three_functions() {
    assert_eq!(lookup("get_host_name"), Some(NativeFunction::GetHostName));
    assert_eq!(lookup("get_host_names"), Some(NativeFunction::GetHostNames));
    assert_eq!(lookup("get_host_ip"), Some(NativeFunction::GetHostIp));
    assert_eq!(lookup("get_host"), None);
    assert_eq!(
        Context::default().lookup("get_host_ip"),
        Some(NativeFunction::GetHostIp)
    );
    assert_eq!(Context::default().lookup("nothing"), None);
}

#[test]
fn function_errors_carry_a_message() {
    let wrong = FunctionErrorKind::wrong_argument("port", "not a number");
    assert_eq!(
        wrong,
        FunctionErrorKind::WrongArgument("port: not a number".to_string())
    );
    assert_eq!(wrong.message(), "port: not a number");
    assert_eq!(
        FunctionErrorKind::MissingArgument("port is missing".to_string()).message(),
        "port is missing"
    );
    assert_eq!(
        FunctionErrorKind::Diagnostic("host is down".to_string()).message(),
        "host is down"
    );
}

#[test]
fn crate_lookup_goes_through_the_groups() {
    assert_eq!(
        nasl_interpreter::lookup("get_host_names"),
        Some(NativeFunction::GetHostNames)
    );
    assert_eq!(nasl_interpreter::lookup("get_host"), None);
}
