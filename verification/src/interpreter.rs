//! The interpreter: walks statement trees and computes what [`crate::semantics`] says they mean.
use crate::built_in_functions::hostname::call;
use crate::context::{Context, Environment};
use crate::error::{Fault, InterpretError};
use crate::lexer::{parse, Lexer};
use crate::operator::{
    answers, apply_binary, apply_unary, element_at, slot_of, stored_value, yielded_value,
};
use crate::register::{ContextType, NaslContext, Register};
use crate::semantics::{
    declare_all, digit_value, escaped, eval, eval_arguments,
    eval_block, eval_list, eval_script, eval_while, literal, name_of, number_of, resolve, span,
    run_next, unescape, value_of, variable, Flow, MAX_NESTING, MAX_ROUNDS,
};
use crate::statement::{DeclareScope, Statement, Tree};
use crate::text::text_from_bytes;
use crate::token::{Category, Keyword, StringCategory, Token};
use crate::tokenizer::{lex, Lexeme};
use crate::value::{NaslValue, Value};
use vstd::prelude::*;
use vstd::slice::slice_subrange;
use vstd::string::StringSliceAdditionalSpecFns;

verus! {

/// What running a statement yields: a value, or the wish to leave or to go on with the
/// innermost loop.
#[derive(Debug, PartialEq, Eq)]
pub enum Step {
    /// A value.
    Value(NaslValue),
    /// Leave the innermost loop.
    Break,
    /// Start the next round of the innermost loop.
    Continue,
}

impl Step {
    /// What the step stands for.
    pub open spec fn view(&self) -> Flow {
        match self {
            Step::Value(value) => Flow::Value(value@),
            Step::Break => Flow::Break,
            Step::Continue => Flow::Continue,
        }
    }
}

/// Whether what the interpreter yields stands for what the statement means.
pub open spec fn done(r: Result<Step, InterpretError>, model: Result<Flow, Fault>) -> bool {
    match r {
        Ok(step) => model == Ok::<Flow, Fault>(step@),
        Err(e) => model == Err::<Flow, Fault>(e@),
    }
}

/// The worth of a digit; a byte that is no digit counts as zero.
pub fn digit(b: u8) -> (r: i64)
    ensures
        r == digit_value(b),
{
    if '0' as u8 <= b && b <= '9' as u8 {
        (b - '0' as u8) as i64
    } else if 'a' as u8 <= b && b <= 'f' as u8 {
        (b - 'a' as u8 + 10) as i64
    } else if 'A' as u8 <= b && b <= 'F' as u8 {
        (b - 'A' as u8 + 10) as i64
    } else {
        0
    }
}

/// The number that the digits spell in the given radix; it wraps around where it does not
/// fit into 64 bits.
pub fn number(digits: &[u8], radix: i64) -> (r: i64)
    ensures
        r == number_of(digits@, radix),
{
    let mut value: i64 = 0;
    let mut i: usize = 0;
    while i < digits.len()
        invariant
            0 <= i <= digits@.len(),
            value == number_of(digits@.subrange(0, i as int), radix),
        decreases digits@.len() - i,
    {
        proof {
            let next = digits@.subrange(0, i + 1);
            assert(next.drop_last() =~= digits@.subrange(0, i as int));
            assert(next.last() == digits@[i as int]);
        }
        value = value.wrapping_mul(radix).wrapping_add(digit(digits[i]));
        i = i + 1;
    }
    assert(digits@.subrange(0, i as int) =~= digits@);
    value
}

/// The bytes of a quoted text with each backslash and the byte behind it replaced by the
/// byte they stand for: a line feed for `\n`, a tab for `\t`, a carriage return for `\r`, and
/// the byte itself for any other.
pub fn unescaped(bytes: &[u8]) -> (r: Vec<u8>)
    ensures
        r@ == unescape(bytes@),
{
    let mut out: Vec<u8> = Vec::new();
    let mut i: usize = 0;
    assert(bytes@.skip(0) =~= bytes@);
    while i < bytes.len()
        invariant
            0 <= i <= bytes@.len(),
            unescape(bytes@) == out@ + unescape(bytes@.skip(i as int)),
        decreases bytes@.len() - i,
    {
        let ghost before = out@;
        let ghost tail = bytes@.skip(i as int);
        if bytes[i] == '\\' as u8 && i + 1 < bytes.len() {
            let b = bytes[i + 1];
            let byte = if b == 'n' as u8 {
                '\n' as u8
            } else if b == 't' as u8 {
                '\t' as u8
            } else if b == 'r' as u8 {
                '\r' as u8
            } else {
                b
            };
            out.push(byte);
            proof {
                assert(tail.skip(2) =~= bytes@.skip(i + 2));
                assert(before + (seq![escaped(tail[1])] + unescape(tail.skip(2))) =~= out@
                    + unescape(bytes@.skip(i + 2)));
            }
            i = i + 2;
        } else {
            out.push(bytes[i]);
            proof {
                assert(tail.skip(1) =~= bytes@.skip(i + 1));
                assert(before + (seq![tail[0]] + unescape(tail.skip(1))) =~= out@ + unescape(
                    bytes@.skip(i + 1),
                ));
            }
            i = i + 1;
        }
    }
    assert(out@ + unescape(bytes@.skip(i as int)) =~= out@);
    out
}

/// Runs the statements of one script.
pub struct Interpreter<'a> {
    code: &'a [u8],
    context: &'a Context,
}

impl<'a> Interpreter<'a> {
    /// The bytes of the script that the statements were parsed from.
    pub closed spec fn source(&self) -> Seq<u8> {
        self.code@
    }

    /// What the run is given from outside.
    pub closed spec fn environment(&self) -> Environment {
        self.context@
    }

    /// An interpreter for the statements of the script `code`.
    pub fn new(code: &'a str, context: &'a Context) -> (r: Self)
        ensures
            r.source() == code.spec_bytes(),
            r.environment() == context@,
    {
        Interpreter { code: code.as_bytes(), context }
    }

    fn span(&self, token: Token) -> (r: &'a [u8])
        ensures
            r@ == span(self.code@, token),
    {
        if token.position.0 <= token.position.1 && token.position.1 <= self.code.len() {
            slice_subrange(self.code, token.position.0, token.position.1)
        } else {
            let empty = slice_subrange(self.code, 0, 0);
            assert(empty@ =~= Seq::<u8>::empty());
            empty
        }
    }

    fn name(&self, token: Token) -> (r: String)
        ensures
            r@ == name_of(self.code@, token),
    {
        text_from_bytes(self.span(token))
    }

    /// The value of a literal.
    pub fn literal(&self, token: Token) -> (r: Result<NaslValue, InterpretError>)
        ensures
            answers(r, literal(self.source(), token)),
    {
        match token.category {
            Category::Number(base) => Ok(NaslValue::Number(number(self.span(token), base.radix()))),
            Category::String(StringCategory::Unquoteable) => Ok(
                NaslValue::String(text_from_bytes(self.span(token))),
            ),
            Category::String(StringCategory::Quoteable) => {
                let bytes = unescaped(self.span(token));
                Ok(NaslValue::String(text_from_bytes(bytes.as_slice())))
            },
            Category::Identifier(Some(Keyword::True)) => Ok(NaslValue::Boolean(true)),
            Category::Identifier(Some(Keyword::False)) => Ok(NaslValue::Boolean(false)),
            Category::Identifier(Some(Keyword::Null)) => Ok(NaslValue::Null),
            _ => Err(InterpretError::UnexpectedStatement),
        }
    }

    fn read(&self, register: &Register, token: Token) -> (r: Option<NaslValue>)
        ensures
            match r {
                Some(value) => variable(register@, name_of(self.code@, token)) == Some(value@),
                None => variable(register@, name_of(self.code@, token)) is None,
            },
    {
        let name = self.name(token);
        match register.named(name.as_str()) {
            Some(binding) => Some(binding.value()),
            None => None,
        }
    }

    /// Runs the statement and gives the value it yields; a statement that leaves or goes on
    /// with a loop yields none, which is a mismatch.
    fn value_of(&self, statement: &Statement, register: &mut Register, depth: usize) -> (r: Result<
        NaslValue,
        InterpretError,
    >)
        ensures
            answers(
                r,
                value_of(
                    statement@,
                    old(register)@,
                    self.source(),
                    self.environment(),
                    depth as nat,
                ).0,
            ),
            final(register)@ == value_of(
                statement@,
                old(register)@,
                self.source(),
                self.environment(),
                depth as nat,
            ).1,
            final(register)@.len() == old(register)@.len(),
        decreases depth, 0nat, statement, MAX_ROUNDS + 2,
    {
        match self.evaluate(statement, register, depth) {
            Err(e) => Err(e),
            Ok(Step::Value(value)) => Ok(value),
            Ok(_) => Err(InterpretError::TypeMismatch),
        }
    }

    /// Runs the statement and gives what it yields.
    #[verifier::rlimit(50)]
    pub fn evaluate(&self, statement: &Statement, register: &mut Register, depth: usize) -> (r: Result<
        Step,
        InterpretError,
    >)
        ensures
            done(
                r,
                eval(statement@, old(register)@, self.source(), self.environment(), depth as nat).0,
            ),
            final(register)@ == eval(
                statement@,
                old(register)@,
                self.source(),
                self.environment(),
                depth as nat,
            ).1,
            final(register)@.len() == old(register)@.len(),
        decreases depth, 0nat, statement, MAX_ROUNDS + 1,
    {
        match statement {
            Statement::Primitive(token) => match self.literal(*token) {
                Ok(value) => Ok(Step::Value(value)),
                Err(e) => Err(e),
            },
            Statement::Variable(token) => match self.read(register, *token) {
                Some(value) => Ok(Step::Value(value)),
                None => Err(InterpretError::UndeclaredVariable(*token)),
            },
            Statement::Array(token, None) => match self.read(register, *token) {
                Some(NaslValue::Array(items)) => Ok(Step::Value(NaslValue::Array(items))),
                Some(_) => Err(InterpretError::NotAnArray),
                None => Err(InterpretError::UndeclaredVariable(*token)),
            },
            Statement::Array(token, Some(index)) => {
                let position = match self.value_of(index, register, depth) {
                    Ok(position) => position,
                    Err(e) => {
                        return Err(e);
                    },
                };
                let held = self.read(register, *token);
                match element_at(held.as_ref(), &position, *token) {
                    Ok(value) => Ok(Step::Value(value)),
                    Err(e) => Err(e),
                }
            },
            Statement::Operator(_, _) => self.evaluate_operator(statement, register, depth),
            Statement::Assign(_, _, _, _) => self.evaluate_assign(statement, register, depth),
            Statement::NoOp(_) => Ok(Step::Value(NaslValue::Null)),
            Statement::Block(_) => self.evaluate_block(statement, register, depth),
            Statement::If(condition, then, otherwise) => {
                let test = match self.value_of(condition, register, depth) {
                    Ok(test) => test,
                    Err(e) => {
                        return Err(e);
                    },
                };
                if test.truthy() {
                    self.evaluate(then, register, depth)
                } else {
                    match otherwise {
                        Some(other) => self.evaluate(other, register, depth),
                        None => Ok(Step::Value(NaslValue::Null)),
                    }
                }
            },
            Statement::While(_, _) => self.evaluate_while(statement, register, depth),
            Statement::Include(_) => self.evaluate_include(statement, register, depth),
            Statement::Declare(scope, names) => {
                self.declare(*scope, names, register);
                Ok(Step::Value(NaslValue::Null))
            },
            Statement::Call(_, _) => self.evaluate_call(statement, register, depth),
            Statement::Break => Ok(Step::Break),
            Statement::Continue => Ok(Step::Continue),
            Statement::NamedParameter(_, _)
            | Statement::FunctionDeclaration(_, _, _)
            | Statement::Return(_) => Err(InterpretError::UnexpectedStatement),
        }
    }

    fn declare(&self, scope: DeclareScope, names: &Vec<Statement>, register: &mut Register)
        ensures
            final(register)@ == declare_all(
                Statement::views(names),
                0,
                scope,
                old(register)@,
                self.source(),
            ),
            final(register)@.len() == old(register)@.len(),
    {
        let mut i: usize = 0;
        while i < names.len()
            invariant
                0 <= i <= names.len(),
                register@.len() == old(register)@.len(),
                declare_all(Statement::views(names), 0, scope, old(register)@, self.source())
                    == declare_all(
                    Statement::views(names),
                    i as int,
                    scope,
                    register@,
                    self.source(),
                ),
            decreases names.len() - i,
        {
            match &names[i] {
                Statement::Variable(token) => {
                    let name = self.name(*token);
                    match scope {
                        DeclareScope::Local => register.add_local(
                            name.as_str(),
                            ContextType::Value(NaslValue::Null),
                        ),
                        DeclareScope::Global => register.add_global(
                            name.as_str(),
                            ContextType::Value(NaslValue::Null),
                        ),
                    }
                },
                _ => {},
            }
            i = i + 1;
        }
    }

    #[verifier::rlimit(50)]
    fn evaluate_operator(&self, statement: &Statement, register: &mut Register, depth: usize) -> (r:
        Result<Step, InterpretError>)
        requires
            statement is Operator,
        ensures
            done(
                r,
                eval(statement@, old(register)@, self.source(), self.environment(), depth as nat).0,
            ),
            final(register)@ == eval(
                statement@,
                old(register)@,
                self.source(),
                self.environment(),
                depth as nat,
            ).1,
            final(register)@.len() == old(register)@.len(),
        decreases depth, 0nat, statement, MAX_ROUNDS as nat,
    {
        match statement {
            Statement::Operator(category, operands) => {
                let mut values: Vec<NaslValue> = Vec::new();
                assert(NaslValue::views(&values) =~= Seq::<Value>::empty());
                let mut i: usize = 0;
                while i < operands.len()
                    invariant
                        0 <= i <= operands.len(),
                        register@.len() == old(register)@.len(),
                        statement == Statement::Operator(*category, *operands),
                        eval_list(
                            Statement::views(operands),
                            0,
                            Seq::empty(),
                            old(register)@,
                            self.source(),
                            self.environment(),
                            depth as nat,
                        ) == eval_list(
                            Statement::views(operands),
                            i as int,
                            NaslValue::views(&values),
                            register@,
                            self.source(),
                            self.environment(),
                            depth as nat,
                        ),
                    decreases operands.len() - i,
                {
                    let value = match self.value_of(&operands[i], register, depth) {
                        Ok(value) => value,
                        Err(e) => {
                            return Err(e);
                        },
                    };
                    let ghost before = NaslValue::views(&values);
                    let ghost model = value@;
                    values.push(value);
                    assert(NaslValue::views(&values) =~= before.push(model));
                    i = i + 1;
                }
                let applied = if values.len() == 1 {
                    apply_unary(*category, &values[0])
                } else if values.len() == 2 {
                    apply_binary(*category, &values[0], &values[1])
                } else {
                    Err(InterpretError::WrongOperandCount)
                };
                match applied {
                    Ok(value) => Ok(Step::Value(value)),
                    Err(e) => Err(e),
                }
            },
            _ => Err(InterpretError::UnexpectedStatement),
        }
    }

    #[verifier::rlimit(50)]
    fn evaluate_block(&self, statement: &Statement, register: &mut Register, depth: usize) -> (r:
        Result<Step, InterpretError>)
        requires
            statement is Block,
        ensures
            done(
                r,
                eval(statement@, old(register)@, self.source(), self.environment(), depth as nat).0,
            ),
            final(register)@ == eval(
                statement@,
                old(register)@,
                self.source(),
                self.environment(),
                depth as nat,
            ).1,
            final(register)@.len() == old(register)@.len(),
        decreases depth, 0nat, statement, MAX_ROUNDS as nat,
    {
        match statement {
            Statement::Block(list) => {
                let mut i: usize = 0;
                while i < list.len()
                    invariant
                        0 <= i <= list.len(),
                        register@.len() == old(register)@.len(),
                        statement == Statement::Block(*list),
                        eval_block(
                            Statement::views(list),
                            0,
                            old(register)@,
                            self.source(),
                            self.environment(),
                            depth as nat,
                        ) == eval_block(
                            Statement::views(list),
                            i as int,
                            register@,
                            self.source(),
                            self.environment(),
                            depth as nat,
                        ),
                    decreases list.len() - i,
                {
                    match self.evaluate(&list[i], register, depth) {
                        Err(e) => {
                            return Err(e);
                        },
                        Ok(Step::Value(_)) => {},
                        Ok(step) => {
                            return Ok(step);
                        },
                    }
                    i = i + 1;
                }
                Ok(Step::Value(NaslValue::Null))
            },
            _ => Err(InterpretError::UnexpectedStatement),
        }
    }

    #[verifier::rlimit(50)]
    fn evaluate_while(&self, statement: &Statement, register: &mut Register, depth: usize) -> (r:
        Result<Step, InterpretError>)
        requires
            statement is While,
        ensures
            done(
                r,
                eval(statement@, old(register)@, self.source(), self.environment(), depth as nat).0,
            ),
            final(register)@ == eval(
                statement@,
                old(register)@,
                self.source(),
                self.environment(),
                depth as nat,
            ).1,
            final(register)@.len() == old(register)@.len(),
        decreases depth, 0nat, statement, MAX_ROUNDS as nat,
    {
        match statement {
            Statement::While(condition, body) => {
                let mut rounds: u64 = MAX_ROUNDS;
                loop
                    invariant
                        register@.len() == old(register)@.len(),
                        statement == Statement::While(*condition, *body),
                        eval(
                            statement@,
                            old(register)@,
                            self.source(),
                            self.environment(),
                            depth as nat,
                        ) == eval_while(
                            statement@,
                            register@,
                            self.source(),
                            self.environment(),
                            depth as nat,
                            rounds as nat,
                        ),
                    decreases rounds,
                {
                    if rounds == 0 {
                        return Err(InterpretError::IterationLimit);
                    }
                    let test = match self.value_of(condition, register, depth) {
                        Ok(test) => test,
                        Err(e) => {
                            return Err(e);
                        },
                    };
                    if !test.truthy() {
                        return Ok(Step::Value(NaslValue::Null));
                    }
                    proof {
                        register.lemma_depth();
                    }
                    register.create_child(NaslContext::new());
                    let round = self.evaluate(body, register, depth);
                    register.drop_last();
                    match round {
                        Err(e) => {
                            return Err(e);
                        },
                        Ok(Step::Break) => {
                            return Ok(Step::Value(NaslValue::Null));
                        },
                        Ok(_) => {},
                    }
                    rounds = rounds - 1;
                }
            },
            _ => Err(InterpretError::UnexpectedStatement),
        }
    }

    #[verifier::rlimit(50)]
    fn evaluate_include(&self, statement: &Statement, register: &mut Register, depth: usize) -> (r:
        Result<Step, InterpretError>)
        requires
            statement is Include,
        ensures
            done(
                r,
                eval(statement@, old(register)@, self.source(), self.environment(), depth as nat).0,
            ),
            final(register)@ == eval(
                statement@,
                old(register)@,
                self.source(),
                self.environment(),
                depth as nat,
            ).1,
            final(register)@.len() == old(register)@.len(),
        decreases depth, 0nat, statement, MAX_ROUNDS as nat,
    {
        match statement {
            Statement::Include(name) => {
                let script = match self.value_of(name, register, depth) {
                    Ok(script) => script,
                    Err(e) => {
                        return Err(e);
                    },
                };
                match script {
                    NaslValue::String(key) => match self.context.load(key.as_str()) {
                        Err(e) => Err(InterpretError::Load(e)),
                        Ok(text) => {
                            if depth == 0 {
                                Err(InterpretError::NestingLimit)
                            } else {
                                let inner = Interpreter::new(text, self.context);
                                let mut lexer = parse(text);
                                inner.run_script(&mut lexer, register, depth - 1)
                            }
                        },
                    },
                    _ => Err(InterpretError::TypeMismatch),
                }
            },
            _ => Err(InterpretError::UnexpectedStatement),
        }
    }

    /// Runs the statements that the parser still has to read, up to the first error.
    pub fn run_script(&self, lexer: &mut Lexer<'_>, register: &mut Register, depth: usize) -> (r:
        Result<Step, InterpretError>)
        ensures
            done(
                r,
                eval_script(
                    old(lexer).held(),
                    old(lexer).remaining(),
                    old(register)@,
                    self.source(),
                    self.environment(),
                    depth as nat,
                ).0,
            ),
            final(register)@ == eval_script(
                old(lexer).held(),
                old(lexer).remaining(),
                old(register)@,
                self.source(),
                self.environment(),
                depth as nat,
            ).1,
            final(register)@.len() == old(register)@.len(),
        decreases
                depth,
                2 * old(lexer).remaining().len() + old(lexer).held().len(),
                old(lexer).remaining(),
                0nat,
    {
        loop
            invariant
                register@.len() == old(register)@.len(),
                eval_script(
                    old(lexer).held(),
                    old(lexer).remaining(),
                    old(register)@,
                    self.source(),
                    self.environment(),
                    depth as nat,
                ) == eval_script(
                    lexer.held(),
                    lexer.remaining(),
                    register@,
                    self.source(),
                    self.environment(),
                    depth as nat,
                ),
            decreases 2 * lexer.remaining().len() + lexer.held().len(),
        {
            match lexer.next() {
                None => {
                    return Ok(Step::Value(NaslValue::Null));
                },
                Some(Err(e)) => {
                    return Err(InterpretError::Syntax(e));
                },
                Some(Ok(statement)) => {
                    if depth == 0 {
                        return Err(InterpretError::NestingLimit);
                    }
                    match self.evaluate(&statement, register, depth - 1) {
                        Err(e) => {
                            return Err(e);
                        },
                        Ok(_) => {},
                    }
                },
            }
        }
    }

    #[verifier::rlimit(50)]
    fn evaluate_call(&self, statement: &Statement, register: &mut Register, depth: usize) -> (r:
        Result<Step, InterpretError>)
        requires
            statement is Call,
        ensures
            done(
                r,
                eval(statement@, old(register)@, self.source(), self.environment(), depth as nat).0,
            ),
            final(register)@ == eval(
                statement@,
                old(register)@,
                self.source(),
                self.environment(),
                depth as nat,
            ).1,
            final(register)@.len() == old(register)@.len(),
        decreases depth, 0nat, statement, MAX_ROUNDS as nat,
    {
        match statement {
            Statement::Call(token, arguments) => {
                let name = self.name(*token);
                let function = match self.context.lookup(name.as_str()) {
                    None => {
                        return Err(InterpretError::UnknownFunction(*token));
                    },
                    Some(function) => function,
                };
                let mut named = NaslContext::new();
                let mut positional: Vec<NaslValue> = Vec::new();
                assert(NaslValue::views(&positional) =~= Seq::<Value>::empty());
                let mut i: usize = 0;
                while i < arguments.len()
                    invariant
                        0 <= i <= arguments.len(),
                        register@.len() == old(register)@.len(),
                        statement == Statement::Call(*token, *arguments),
                        self.environment().function(name_of(self.source(), *token)) == Some(
                            function,
                        ),
                        eval_arguments(
                            Statement::views(arguments),
                            0,
                            Seq::empty(),
                            Seq::empty(),
                            old(register)@,
                            self.source(),
                            self.environment(),
                            depth as nat,
                        ) == eval_arguments(
                            Statement::views(arguments),
                            i as int,
                            named@,
                            NaslValue::views(&positional),
                            register@,
                            self.source(),
                            self.environment(),
                            depth as nat,
                        ),
                    decreases arguments.len() - i,
                {
                    match &arguments[i] {
                        Statement::NamedParameter(parameter, value) => {
                            let passed = match self.value_of(value, register, depth) {
                                Ok(passed) => passed,
                                Err(e) => {
                                    return Err(e);
                                },
                            };
                            let key = self.name(*parameter);
                            named.put(key.as_str(), ContextType::Value(passed));
                        },
                        other => {
                            let passed = match self.value_of(other, register, depth) {
                                Ok(passed) => passed,
                                Err(e) => {
                                    return Err(e);
                                },
                            };
                            let ghost before = NaslValue::views(&positional);
                            let ghost model = passed@;
                            positional.push(passed);
                            assert(NaslValue::views(&positional) =~= before.push(model));
                        },
                    }
                    i = i + 1;
                }
                named.put("_FC_ANON_ARGS", ContextType::Positional(positional));
                let ghost outer = register@;
                proof {
                    register.lemma_depth();
                }
                register.create_child(named);
                let result = call(function, register, self.context);
                register.drop_last();
                assert(register@ =~= outer);
                match result {
                    Ok(value) => Ok(Step::Value(value)),
                    Err(e) => Err(InterpretError::Function(e)),
                }
            },
            _ => Err(InterpretError::UnexpectedStatement),
        }
    }

    #[verifier::rlimit(50)]
    fn evaluate_assign(&self, statement: &Statement, register: &mut Register, depth: usize) -> (r:
        Result<Step, InterpretError>)
        requires
            statement is Assign,
        ensures
            done(
                r,
                eval(statement@, old(register)@, self.source(), self.environment(), depth as nat).0,
            ),
            final(register)@ == eval(
                statement@,
                old(register)@,
                self.source(),
                self.environment(),
                depth as nat,
            ).1,
            final(register)@.len() == old(register)@.len(),
        decreases depth, 0nat, statement, MAX_ROUNDS as nat,
    {
        match statement {
            Statement::Assign(category, order, target, value) => {
                let operand = if *category == Category::PlusPlus || *category
                    == Category::MinusMinus {
                    NaslValue::Null
                } else {
                    match self.value_of(value, register, depth) {
                        Ok(operand) => operand,
                        Err(e) => {
                            return Err(e);
                        },
                    }
                };
                match &**target {
                    Statement::Variable(token) | Statement::Array(token, None) => {
                        let name = self.name(*token);
                        let old = self.read(register, *token);
                        match stored_value(*category, old.as_ref(), operand, *token) {
                            Err(e) => Err(e),
                            Ok(new) => {
                                let result = yielded_value(*order, old.as_ref(), &new);
                                register.assign(name.as_str(), ContextType::Value(new));
                                Ok(Step::Value(result))
                            },
                        }
                    },
                    Statement::Array(token, Some(index)) => {
                        assert(target@ == Tree::Array(*token, Some(Box::new(index@))));
                        let position = match self.value_of(index, register, depth) {
                            Ok(position) => position,
                            Err(e) => {
                                return Err(e);
                            },
                        };
                        let name = self.name(*token);
                        let held = self.read(register, *token);
                        let (mut items, i) = match slot_of(held.as_ref(), &position) {
                            Ok(found) => found,
                            Err(e) => {
                                return Err(e);
                            },
                        };
                        let old = if i < items.len() {
                            Some(items[i].clone())
                        } else {
                            None
                        };
                        match stored_value(*category, old.as_ref(), operand, *token) {
                            Err(e) => Err(e),
                            Ok(new) => {
                                let result = yielded_value(*order, old.as_ref(), &new);
                                let ghost before = NaslValue::views(&items);
                                let ghost model = new@;
                                if i < items.len() {
                                    items.set(i, new);
                                    assert(NaslValue::views(&items) =~= before.update(
                                        i as int,
                                        model,
                                    ));
                                } else {
                                    items.push(new);
                                    assert(NaslValue::views(&items) =~= before.push(model));
                                }
                                register.assign(
                                    name.as_str(),
                                    ContextType::Value(NaslValue::Array(items)),
                                );
                                Ok(Step::Value(result))
                            },
                        }
                    },
                    _ => Err(InterpretError::UnexpectedStatement),
                }
            },
            _ => Err(InterpretError::UnexpectedStatement),
        }
    }

    /// Runs one statement of the script against the scopes of `register` and gives its
    /// value. The number of scopes is the same afterwards, whether the statement fails or not.
    pub fn resolve(&self, statement: &Statement, register: &mut Register) -> (r: Result<
        NaslValue,
        InterpretError,
    >)
        ensures
            answers(
                r,
                resolve(statement@, old(register)@, self.source(), self.environment()).0,
            ),
            final(register)@ == resolve(
                statement@,
                old(register)@,
                self.source(),
                self.environment(),
            ).1,
            final(register)@.len() == old(register)@.len(),
    {
        match self.evaluate(statement, register, MAX_NESTING) {
            Err(e) => Err(e),
            Ok(Step::Value(value)) => Ok(value),
            Ok(_) => Ok(NaslValue::Null),
        }
    }
}

/// Runs a script statement by statement: each call of [`CodeInterpreter::next`] parses one
/// statement and runs it. A statement that fails does not end the script: the next call goes
/// on with the statement behind it.
pub struct CodeInterpreter<'a> {
    lexer: Lexer<'a>,
    interpreter: Interpreter<'a>,
}

impl<'a> CodeInterpreter<'a> {
    /// The lexemes that are still to be read.
    pub closed spec fn remaining(&self) -> Seq<Lexeme> {
        self.lexer.remaining()
    }

    /// The comments that were passed over and are still to be handed out.
    pub closed spec fn held(&self) -> Seq<Token> {
        self.lexer.held()
    }

    /// The bytes of the script.
    pub closed spec fn source(&self) -> Seq<u8> {
        self.interpreter.source()
    }

    /// What the run is given from outside.
    pub closed spec fn environment(&self) -> Environment {
        self.interpreter.environment()
    }

    /// A run of the script `code` that has not started yet.
    pub fn new(code: &'a str, context: &'a Context) -> (r: Self)
        ensures
            r.remaining() == lex(code.spec_bytes(), 0),
            r.held() == Seq::<Token>::empty(),
            r.source() == code.spec_bytes(),
            r.environment() == context@,
    {
        CodeInterpreter { lexer: parse(code), interpreter: Interpreter::new(code, context) }
    }

    /// Parses and runs the next statement of the script against the scopes of `register`.
    /// Gives `None` at the end of the script, else the value of the statement or the error
    /// that parsing or running it ended with.
    pub fn next(&mut self, register: &mut Register) -> (r: Option<Result<NaslValue, InterpretError>>)
        ensures
            final(self).source() == old(self).source(),
            final(self).environment() == old(self).environment(),
            final(register)@.len() == old(register)@.len(),
            match run_next(
                old(self).held(),
                old(self).remaining(),
                old(register)@,
                old(self).source(),
                old(self).environment(),
            ) {
                None => r is None && final(self).remaining() == old(self).remaining()
                    && final(self).held() == old(self).held() && final(register)@ == old(register)@,
                Some((outcome, held, rest)) => r matches Some(item) && answers(item, outcome.0)
                    && final(register)@ == outcome.1 && final(self).held() == held && final(self).remaining() == rest,
            },
            r is Some ==> 2 * final(self).remaining().len() + final(self).held().len() < 2 * old(self).remaining().len() + old(self).held().len(),
    {
        match self.lexer.next() {
            None => None,
            Some(Err(e)) => Some(Err(InterpretError::Syntax(e))),
            Some(Ok(statement)) => Some(self.interpreter.resolve(&statement, register)),
        }
    }
}

} // verus!
