//! Laws of the parser and of the interpreter, proved of their models.
use crate::built_in_functions::hostname::{hostname, native};
use crate::context::{Environment, NativeFunction};
use crate::error::{Fault, FunctionFault};
use crate::grammar::{
    comments_in, passed, spec_expression, spec_infix, spec_next, spec_prefix,
    spec_prefix_assign, spec_prefix_binding_power, spec_statement, spec_variable, Abort,
    MAX_DEPTH,
};
use crate::lexer::agrees_one;
use crate::operation::Operation;
use crate::register::{
    assign, lemma_assign_then_lookup, lemma_lookup_through, lookup, position, Binding, Frame,
};
use crate::semantics::{eval, name_of, value_of, Flow};
use crate::statement::{AssignOrder, End, PrefixState, Statement, SyntaxError, Tree};
use crate::token::{Category, Token};
use crate::tokenizer::{first, lex, Lexeme};
use crate::value::Value;
use vstd::prelude::*;
use vstd::string::StringSliceAdditionalSpecFns;

verus! {

/// Whether the token is a literal: a number or a text.
pub open spec fn is_literal(token: Token) -> bool {
    token.category is Number || token.category is String
}

/// Whether the token is one of the four prefix operators `+`, `-`, `~` and `!`.
pub open spec fn is_unary_operator(token: Token) -> bool {
    token.category == Category::Plus || token.category == Category::Minus || token.category
        == Category::Tilde || token.category == Category::Bang
}

/// Whether the token is a prefix increment or decrement.
pub open spec fn is_step(token: Token) -> bool {
    token.category == Category::PlusPlus || token.category == Category::MinusMinus
}

/// The lexemes of `token` followed by `rest`.
pub open spec fn then(token: Token, rest: Seq<Lexeme>) -> Seq<Lexeme> {
    seq![Ok::<Token, crate::tokenizer::LexError>(token)] + rest
}

/// Reading a token that is followed by others gives that token and leaves the others.
pub proof fn lemma_then(token: Token, rest: Seq<Lexeme>)
    ensures
        first(then(token, rest)) == Some(Ok::<Token, crate::tokenizer::LexError>(token)),
        then(token, rest).skip(1) == rest,
        then(token, rest).len() == rest.len() + 1,
{
    assert(then(token, rest).skip(1) =~= rest);
}

/// The comments among a token and the lexemes behind it are the token, where it is a comment,
/// and the comments among the lexemes behind it.
pub proof fn lemma_comments_then(token: Token, rest: Seq<Lexeme>)
    ensures
        comments_in(then(token, rest)) == if token.category == Category::Comment {
            seq![token] + comments_in(rest)
        } else {
            comments_in(rest)
        },
    decreases rest.len(),
{
    let all = then(token, rest);
    if rest.len() == 0 {
        assert(all.drop_last() =~= Seq::<Lexeme>::empty());
        assert(comments_in(all.drop_last()) =~= Seq::<Token>::empty());
        assert(comments_in(all) =~= if token.category == Category::Comment {
            seq![token] + comments_in(rest)
        } else {
            comments_in(rest)
        });
    } else {
        assert(all.drop_last() =~= then(token, rest.drop_last()));
        assert(all.last() == rest.last());
        lemma_comments_then(token, rest.drop_last());
        assert(comments_in(all) =~= if token.category == Category::Comment {
            seq![token] + comments_in(rest)
        } else {
            comments_in(rest)
        });
    }
}

/// All lexemes were read where none is left.
pub proof fn lemma_passed_all(toks: Seq<Lexeme>)
    ensures
        passed(toks, Seq::empty()) == toks,
{
    assert(passed(toks, Seq::empty()) =~= toks);
}

/// A literal at the start of a statement is a primitive that carries the token of the literal
/// unchanged, and operators may follow it.
pub proof fn law_literal_is_primitive(token: Token, rest: Seq<Lexeme>, abort: Abort, depth: nat)
    requires
        is_literal(token),
        depth > 0,
    ensures
        spec_prefix(rest, token, abort, depth) == (
            Ok::<(PrefixState, Tree), SyntaxError>((PrefixState::Continue, Tree::Primitive(token))),
            rest,
        ),
{
}

/// A script that consists of one literal and a `;` parses to the primitive of that literal.
pub proof fn law_single_literal(token: Token, semicolon: Token)
    requires
        is_literal(token),
        semicolon.category == Category::Semicolon,
    ensures
        spec_next(Seq::empty(), then(token, then(semicolon, Seq::empty()))) == Some(
            (
                Ok::<Tree, SyntaxError>(Tree::Primitive(token)),
                Seq::<Token>::empty(),
                Seq::<Lexeme>::empty(),
            ),
        ),
{
    let end = then(semicolon, Seq::empty());
    lemma_comments_then(token, end);
    lemma_comments_then(semicolon, Seq::empty());
    lemma_passed_all(then(token, end));
    lemma_then(token, end);
    lemma_then(semicolon, Seq::empty());
    let abort = Abort::at(Category::Semicolon);
    law_literal_is_primitive(token, end, abort, MAX_DEPTH as nat);
    assert(spec_infix(end, Tree::Primitive(token), 0, abort, MAX_DEPTH as nat) == (
        Ok::<(End, Tree), SyntaxError>((End::Done(Category::Semicolon), Tree::Primitive(token))),
        Seq::<Lexeme>::empty(),
    ));
}

/// Each of the four prefix operators before a literal and a `;` parses to the operator with
/// the primitive of the literal as its one operand.
pub proof fn law_unary_operator(operator: Token, token: Token, semicolon: Token)
    requires
        is_unary_operator(operator),
        is_literal(token),
        semicolon.category == Category::Semicolon,
    ensures
        spec_next(Seq::empty(), then(operator, then(token, then(semicolon, Seq::empty()))))
            == Some(
            (
                Ok::<Tree, SyntaxError>(
                    Tree::Operator(operator.category, seq![Tree::Primitive(token)]),
                ),
                Seq::<Token>::empty(),
                Seq::<Lexeme>::empty(),
            ),
        ),
{
    let end = then(semicolon, Seq::empty());
    let operand = then(token, end);
    lemma_comments_then(operator, operand);
    lemma_comments_then(token, end);
    lemma_comments_then(semicolon, Seq::empty());
    lemma_passed_all(then(operator, operand));
    lemma_then(operator, operand);
    lemma_then(token, end);
    lemma_then(semicolon, Seq::empty());
    let abort = Abort::at(Category::Semicolon);
    let below = (MAX_DEPTH - 1) as nat;
    law_literal_is_primitive(token, end, abort, below);
    assert(spec_infix(end, Tree::Primitive(token), 21, abort, below) == (
        Ok::<(End, Tree), SyntaxError>((End::Done(Category::Semicolon), Tree::Primitive(token))),
        Seq::<Lexeme>::empty(),
    ));
    assert(spec_statement(operand, 21, abort, below) == (
        Ok::<(End, Tree), SyntaxError>((End::Done(Category::Semicolon), Tree::Primitive(token))),
        Seq::<Lexeme>::empty(),
    ));
    assert(spec_prefix_binding_power(operator) == Ok::<u8, SyntaxError>(21u8));
    assert(spec_prefix(operand, operator, abort, MAX_DEPTH as nat) == (
        Ok::<(PrefixState, Tree), SyntaxError>(
            (
                PrefixState::Break(Category::Semicolon),
                Tree::Operator(operator.category, seq![Tree::Primitive(token)]),
            ),
        ),
        Seq::<Lexeme>::empty(),
    ));
}

/// A prefix increment or decrement of a variable, which something other than `(` and `[`
/// follows, is the assignment to that variable that yields the new value and has nothing on
/// its right.
pub proof fn law_step_of_variable(
    assign: Category,
    operator: Token,
    name: Token,
    next: Token,
    rest: Seq<Lexeme>,
    depth: nat,
)
    requires
        name.category == Category::Identifier(None),
        next.category != Category::LeftParen,
        next.category != Category::LeftBrace,
        next.category != Category::Comment,
        depth > 0,
    ensures
        spec_prefix_assign(then(name, then(next, rest)), assign, operator, depth) == (
            Ok::<Tree, SyntaxError>(
                Tree::Assign(
                    assign,
                    AssignOrder::AssignReturn,
                    Box::new(Tree::Variable(name)),
                    Box::new(Tree::NoOp(None)),
                ),
            ),
            then(next, rest),
        ),
{
    let behind = then(next, rest);
    lemma_then(name, behind);
    lemma_then(next, rest);
    assert(crate::grammar::skip_comments(behind) == behind);
    assert(spec_variable(behind, name, depth) == (
        Ok::<(PrefixState, Tree), SyntaxError>((PrefixState::Continue, Tree::Variable(name))),
        behind,
    ));
}

/// A prefix increment or decrement of an array element whose index is a literal is the
/// assignment to that element that yields the new value and has nothing on its right.
pub proof fn law_step_of_element(
    assign: Category,
    operator: Token,
    name: Token,
    open: Token,
    index: Token,
    close: Token,
    rest: Seq<Lexeme>,
    depth: nat,
)
    requires
        name.category == Category::Identifier(None),
        open.category == Category::LeftBrace,
        is_literal(index),
        close.category == Category::RightBrace,
        depth > 1,
    ensures
        spec_prefix_assign(
            then(name, then(open, then(index, then(close, rest)))),
            assign,
            operator,
            depth,
        ) == (
            Ok::<Tree, SyntaxError>(
                Tree::Assign(
                    assign,
                    AssignOrder::AssignReturn,
                    Box::new(Tree::Array(name, Some(Box::new(Tree::Primitive(index))))),
                    Box::new(Tree::NoOp(None)),
                ),
            ),
            rest,
        ),
{
    let closing = then(close, rest);
    let inner = then(index, closing);
    let behind = then(open, inner);
    lemma_then(name, behind);
    lemma_then(open, inner);
    lemma_then(index, closing);
    lemma_then(close, rest);
    let abort = Abort::at(Category::RightBrace);
    let below = (depth - 1) as nat;
    law_literal_is_primitive(index, closing, abort, below);
    assert(spec_infix(closing, Tree::Primitive(index), 0, abort, below) == (
        Ok::<(End, Tree), SyntaxError>((End::Done(Category::RightBrace), Tree::Primitive(index))),
        rest,
    ));
    assert(spec_statement(inner, 0, abort, below) == (
        Ok::<(End, Tree), SyntaxError>((End::Done(Category::RightBrace), Tree::Primitive(index))),
        rest,
    ));
    assert(crate::grammar::skip_comments(behind) == behind);
    assert(spec_variable(behind, name, depth) == (
        Ok::<(PrefixState, Tree), SyntaxError>(
            (PrefixState::Continue, Tree::Array(name, Some(Box::new(Tree::Primitive(index))))),
        ),
        rest,
    ));
}

/// What a prefix increment or decrement gives is the assignment to a variable or an array
/// element that yields the new value and has nothing on its right, or an error. Before
/// anything but a name or a comment it is the error of an unexpected token.
pub proof fn law_step_needs_a_target(toks: Seq<Lexeme>, assign: Category, operator: Token, depth: nat)
    ensures
        match spec_prefix_assign(toks, assign, operator, depth).0 {
            Ok(tree) => tree matches Tree::Assign(kind, order, target, value) && kind == assign
                && order == AssignOrder::AssignReturn && target.is_target() && *value
                == Tree::NoOp(None),
            Err(_) => true,
        },
        forall|next: Token|
            first(toks) == Some(Ok::<Token, crate::tokenizer::LexError>(next)) && next.category
                != Category::Identifier(None) && next.category != Category::Comment
                ==> spec_prefix_assign(
                toks,
                assign,
                operator,
                depth,
            ).0 == Err::<Tree, SyntaxError>(SyntaxError::UnexpectedToken(next)),
{
}

/// The prefix operators bind at 21, which is more tightly than every operator between two
/// operands binds on either side.
pub proof fn law_unary_binds_tightest(token: Token, operation: Operation)
    ensures
        spec_prefix_binding_power(token) matches Ok(power) ==> power == 21,
        operation.spec_infix_binding_power() matches Some((left, right)) ==> left < 21 && right
            < 21,
{
}

/// In `1 + ++a * 1;`, with any literals, either step and any variable, the increment
/// attaches to the variable before the multiplication, and the multiplication binds before
/// the addition.
pub proof fn law_step_binds_before_product_before_sum(
    one: Token,
    plus: Token,
    step: Token,
    name: Token,
    star: Token,
    other: Token,
    semicolon: Token,
)
    requires
        is_literal(one),
        plus.category == Category::Plus,
        is_step(step),
        name.category == Category::Identifier(None),
        star.category == Category::Star,
        is_literal(other),
        semicolon.category == Category::Semicolon,
    ensures
        spec_next(
            Seq::empty(),
            then(
                one,
                then(
                    plus,
                    then(step, then(name, then(star, then(other, then(semicolon, Seq::empty()))))),
                ),
            ),
        ) == Some(
            (
                Ok::<Tree, SyntaxError>(
                    Tree::Operator(
                        Category::Plus,
                        seq![
                            Tree::Primitive(one),
                            Tree::Operator(
                                Category::Star,
                                seq![
                                    Tree::Assign(
                                        step.category,
                                        AssignOrder::AssignReturn,
                                        Box::new(Tree::Variable(name)),
                                        Box::new(Tree::NoOp(None)),
                                    ),
                                    Tree::Primitive(other),
                                ],
                            ),
                        ],
                    ),
                ),
                Seq::<Token>::empty(),
                Seq::<Lexeme>::empty(),
            ),
        ),
{
    let abort = Abort::at(Category::Semicolon);
    let top = MAX_DEPTH as nat;
    let t6 = then(semicolon, Seq::empty());
    let t5 = then(other, t6);
    let t4 = then(star, t5);
    let t3 = then(name, t4);
    let t2 = then(step, t3);
    let t1 = then(plus, t2);
    let t0 = then(one, t1);
    lemma_comments_then(one, t1);
    lemma_comments_then(plus, t2);
    lemma_comments_then(step, t3);
    lemma_comments_then(name, t4);
    lemma_comments_then(star, t5);
    lemma_comments_then(other, t6);
    lemma_comments_then(semicolon, Seq::empty());
    lemma_passed_all(t0);
    lemma_then(one, t1);
    lemma_then(plus, t2);
    lemma_then(step, t3);
    lemma_then(name, t4);
    lemma_then(star, t5);
    lemma_then(other, t6);
    lemma_then(semicolon, Seq::empty());
    let stepped = Tree::Assign(
        step.category,
        AssignOrder::AssignReturn,
        Box::new(Tree::Variable(name)),
        Box::new(Tree::NoOp(None)),
    );
    let product = Tree::Operator(Category::Star, seq![stepped, Tree::Primitive(other)]);
    let sum = Tree::Operator(Category::Plus, seq![Tree::Primitive(one), product]);
    // the right operand of the product
    let low = (top - 2) as nat;
    law_literal_is_primitive(other, t6, abort, low);
    assert(spec_infix(t6, Tree::Primitive(other), 19, abort, low) == (
        Ok::<(End, Tree), SyntaxError>((End::Done(Category::Semicolon), Tree::Primitive(other))),
        Seq::<Lexeme>::empty(),
    ));
    assert(spec_statement(t5, 19, abort, low) == (
        Ok::<(End, Tree), SyntaxError>((End::Done(Category::Semicolon), Tree::Primitive(other))),
        Seq::<Lexeme>::empty(),
    ));
    assert(crate::grammar::skip_comments(t5) == t5);
    assert(spec_expression(t5, 19, abort, low) == spec_statement(t5, 19, abort, low));
    // the right operand of the sum
    let mid = (top - 1) as nat;
    law_step_of_variable(step.category, step, name, star, t5, mid);
    assert(spec_prefix(t3, step, abort, mid) == (
        Ok::<(PrefixState, Tree), SyntaxError>((PrefixState::Continue, stepped)),
        t4,
    ));
    assert(Operation::classify(Category::Star) == Some(Operation::Operator(Category::Star)));
    assert(spec_infix(t4, stepped, 17, abort, mid) == (
        Ok::<(End, Tree), SyntaxError>((End::Done(Category::Semicolon), product)),
        Seq::<Lexeme>::empty(),
    ));
    assert(spec_statement(t2, 17, abort, mid) == (
        Ok::<(End, Tree), SyntaxError>((End::Done(Category::Semicolon), product)),
        Seq::<Lexeme>::empty(),
    ));
    assert(crate::grammar::skip_comments(t2) == t2);
    assert(spec_expression(t2, 17, abort, mid) == spec_statement(t2, 17, abort, mid));
    // the sum
    law_literal_is_primitive(one, t1, abort, top);
    assert(spec_infix(t1, Tree::Primitive(one), 0, abort, top) == (
        Ok::<(End, Tree), SyntaxError>((End::Done(Category::Semicolon), sum)),
        Seq::<Lexeme>::empty(),
    ));
    assert(spec_statement(t0, 0, abort, top) == (
        Ok::<(End, Tree), SyntaxError>((End::Done(Category::Semicolon), sum)),
        Seq::<Lexeme>::empty(),
    ));
}

/// A comment at the start of a statement is a statement of its own that nothing closed.
pub proof fn law_comment_is_open_end(token: Token, rest: Seq<Lexeme>, abort: Abort, depth: nat)
    requires
        token.category == Category::Comment,
        depth > 0,
    ensures
        spec_prefix(rest, token, abort, depth) == (
            Ok::<(PrefixState, Tree), SyntaxError>(
                (PrefixState::OpenEnd, Tree::NoOp(Some(token))),
            ),
            rest,
        ),
        !abort.matches(Category::Comment) ==> spec_statement(
            then(token, rest),
            0,
            abort,
            depth,
        ) == (
            Ok::<(End, Tree), SyntaxError>((End::Continue, Tree::NoOp(Some(token)))),
            rest,
        ),
{
    lemma_then(token, rest);
}

/// A comment behind an operand changes nothing: the operators behind the comment are read
/// as if it were not there.
pub proof fn law_comment_is_transparent(
    comment: Token,
    rest: Seq<Lexeme>,
    left: Tree,
    min_bp: u8,
    abort: Abort,
    depth: nat,
)
    requires
        comment.category == Category::Comment,
        depth > 0,
    ensures
        spec_infix(then(comment, rest), left, min_bp, abort, depth) == spec_infix(
            rest,
            left,
            min_bp,
            abort,
            depth,
        ),
{
    lemma_then(comment, rest);
}

/// A comment before a statement that stands inside another changes nothing: the statement is
/// read as if the comment were not there.
pub proof fn law_comment_before_operand(
    comment: Token,
    rest: Seq<Lexeme>,
    min_bp: u8,
    abort: Abort,
    depth: nat,
)
    requires
        comment.category == Category::Comment,
    ensures
        spec_expression(then(comment, rest), min_bp, abort, depth) == spec_expression(
            rest,
            min_bp,
            abort,
            depth,
        ),
{
    lemma_then(comment, rest);
    lemma_skip_comments(rest);
    assert(crate::grammar::skip_comments(then(comment, rest)) == crate::grammar::skip_comments(
        rest,
    ));
}

/// Passing over comments leaves no more lexemes than there were.
pub proof fn lemma_skip_comments(toks: Seq<Lexeme>)
    ensures
        crate::grammar::skip_comments(toks).len() <= toks.len(),
    decreases toks.len(),
{
    if toks.len() > 0 && crate::grammar::is_token(toks[0], Category::Comment) {
        lemma_skip_comments(toks.skip(1));
    }
}

/// A literal, a comment and a `;` parse to what the literal and the `;` parse to without the
/// comment, and the comment is kept: it is handed out next, as a statement of its own.
pub proof fn law_comment_before_terminator(token: Token, comment: Token, semicolon: Token)
    requires
        is_literal(token),
        comment.category == Category::Comment,
        semicolon.category == Category::Semicolon,
    ensures
        spec_next(Seq::empty(), then(token, then(comment, then(semicolon, Seq::empty()))))
            == Some(
            (
                Ok::<Tree, SyntaxError>(Tree::Primitive(token)),
                seq![comment],
                Seq::<Lexeme>::empty(),
            ),
        ),
        spec_next(Seq::empty(), then(token, then(semicolon, Seq::empty()))) == Some(
            (
                Ok::<Tree, SyntaxError>(Tree::Primitive(token)),
                Seq::<Token>::empty(),
                Seq::<Lexeme>::empty(),
            ),
        ),
        spec_next(seq![comment], Seq::empty()) == Some(
            (
                Ok::<Tree, SyntaxError>(Tree::NoOp(Some(comment))),
                Seq::<Token>::empty(),
                Seq::<Lexeme>::empty(),
            ),
        ),
{
    let end = then(semicolon, Seq::empty());
    let noted = then(comment, end);
    lemma_then(token, noted);
    lemma_then(token, end);
    lemma_then(comment, end);
    lemma_then(semicolon, Seq::empty());
    lemma_comments_then(token, noted);
    lemma_comments_then(comment, end);
    lemma_comments_then(semicolon, Seq::empty());
    lemma_passed_all(then(token, noted));
    let abort = Abort::at(Category::Semicolon);
    law_literal_is_primitive(token, noted, abort, MAX_DEPTH as nat);
    law_comment_is_transparent(comment, end, Tree::Primitive(token), 0, abort, MAX_DEPTH as nat);
    law_single_literal(token, semicolon);
    assert(spec_infix(end, Tree::Primitive(token), 0, abort, MAX_DEPTH as nat) == (
        Ok::<(End, Tree), SyntaxError>((End::Done(Category::Semicolon), Tree::Primitive(token))),
        Seq::<Lexeme>::empty(),
    ));
    assert(seq![comment] + Seq::<Token>::empty() =~= seq![comment]);
    assert(seq![comment].skip(1) =~= Seq::<Token>::empty());
}

/// Two texts that hold the same characters hold the same tokens.
pub proof fn law_tokens_are_determined(left: &str, right: &str)
    requires
        left@ == right@,
    ensures
        lex(left.spec_bytes(), 0) == lex(right.spec_bytes(), 0),
{
}

/// Two statements that the parser gave for the same lexemes stand for the same tree, and two
/// errors are the same error.
pub proof fn law_parsing_is_determined(
    held: Seq<Token>,
    toks: Seq<Lexeme>,
    one: Result<Statement, SyntaxError>,
    other: Result<Statement, SyntaxError>,
)
    requires
        spec_next(held, toks) matches Some(model) && agrees_one(one, model.0) && agrees_one(
            other,
            model.0,
        ),
    ensures
        match (one, other) {
            (Ok(a), Ok(b)) => a@ == b@,
            (Err(a), Err(b)) => a == b,
            _ => false,
        },
{
}

/// A variable that no scope binds cannot be read: reading it is the error of an undeclared
/// variable, and the scopes stay as they were.
pub proof fn law_undeclared_variable(
    token: Token,
    frames: Seq<Frame>,
    source: Seq<u8>,
    environment: Environment,
    depth: nat,
)
    requires
        lookup(frames, name_of(source, token)) is None,
    ensures
        eval(Tree::Variable(token), frames, source, environment, depth) == (
            Err::<Flow, Fault>(Fault::UndeclaredVariable(token)),
            frames,
        ),
{
}

/// A variable that was assigned to can be read, in the scope of the assignment and in scopes
/// opened inside it that do not bind the name themselves: reading it gives the value that
/// was assigned.
pub proof fn law_assigned_variable(
    token: Token,
    value: Value,
    frames: Seq<Frame>,
    above: Seq<Frame>,
    source: Seq<u8>,
    environment: Environment,
    depth: nat,
)
    requires
        frames.len() > 0,
        forall|j: int|
            0 <= j < above.len() ==> position(#[trigger] above[j], name_of(source, token)) is None,
    ensures
        eval(
            Tree::Variable(token),
            assign(frames, name_of(source, token), Binding::Value(value)) + above,
            source,
            environment,
            depth,
        ) == (
            Ok::<Flow, Fault>(Flow::Value(value)),
            assign(frames, name_of(source, token), Binding::Value(value)) + above,
        ),
{
    let name = name_of(source, token);
    let after = assign(frames, name, Binding::Value(value));
    lemma_assign_then_lookup(frames, name, Binding::Value(value));
    lemma_lookup_through(after, above, name);
}

/// The statement `name = value;` yields the value on its right and leaves the scopes in which
/// reading `name` gives that value. `after` holds the scopes behind the evaluation of the
/// right side.
pub proof fn law_assign_then_read(
    token: Token,
    right: Tree,
    value: Value,
    frames: Seq<Frame>,
    after: Seq<Frame>,
    source: Seq<u8>,
    environment: Environment,
    depth: nat,
)
    requires
        value_of(right, frames, source, environment, depth) == (
            Ok::<Value, Fault>(value),
            after,
        ),
        after.len() > 0,
    ensures
        ({
            let statement = Tree::Assign(
                Category::Equal,
                AssignOrder::AssignReturn,
                Box::new(Tree::Variable(token)),
                Box::new(right),
            );
            let outcome = eval(statement, frames, source, environment, depth);
            &&& outcome.0 == Ok::<Flow, Fault>(Flow::Value(value))
            &&& eval(Tree::Variable(token), outcome.1, source, environment, depth) == (
                Ok::<Flow, Fault>(Flow::Value(value)),
                outcome.1,
            )
        }),
{
    let name = name_of(source, token);
    lemma_assign_then_lookup(after, name, Binding::Value(value));
}

/// Asking for the host name of the target never fails. The name is a text, and the list of
/// names holds that one text. For a target that reads as a socket address the name is the
/// first address it stands for; for any other target it is the target itself, or the loopback
/// address where no target is given.
pub proof fn law_host_name_never_fails(frames: Seq<Frame>, environment: Environment)
    ensures
        native(NativeFunction::GetHostName, frames, environment) == Ok::<Value, FunctionFault>(
            Value::String(hostname(environment)),
        ),
        native(NativeFunction::GetHostNames, frames, environment) == Ok::<Value, FunctionFault>(
            Value::Array(seq![Value::String(hostname(environment))]),
        ),
        environment.resolved is Some && environment.resolved->0.len() > 0 ==> hostname(
            environment,
        ) == environment.resolved->0[0],
        environment.resolved is None && environment.target.len() > 0 ==> hostname(environment)
            == environment.target,
        environment.resolved is None && environment.target.len() == 0 ==> hostname(environment)
            == "127.0.0.1"@,
{
}

} // verus!
