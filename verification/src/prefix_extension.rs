//! Handles the start of a statement: what stands before any postfix or infix operator.
use crate::grammar::{spec_prefix, spec_prefix_assign, spec_prefix_binding_power, Abort};
use crate::lexer::{agrees, agrees_one, sound, sound_one, Lexer};
use crate::operation::Operation;
use crate::statement::{AssignOrder, Parsing, PrefixState, Statement, SyntaxError, Tree};
use crate::token::{Category, Token};
use vstd::prelude::*;

verus! {

/// How tightly a prefix operator binds its operand: 21 for `+`, `-`, `~` and `!`; any other
/// token is unexpected.
pub fn prefix_binding_power(token: Token) -> (r: Result<u8, SyntaxError>)
    ensures
        r == spec_prefix_binding_power(token),
{
    match token.category() {
        Category::Plus | Category::Minus | Category::Tilde | Category::Bang => Ok(21),
        _ => Err(SyntaxError::UnexpectedToken(token)),
    }
}

impl<'a> Lexer<'a> {
    /// Parses the operand of a prefix increment or decrement, whose operator is `token`, into
    /// the assignment it stands for. The operand must be a variable or an array element.
    pub fn parse_prefix_assign_operator(&mut self, assign: Category, token: Token, depth: usize) -> (r:
        Result<Statement, SyntaxError>)
        ensures
            agrees_one(r, spec_prefix_assign(old(self).remaining(), assign, token, depth as nat).0),
            final(self).remaining() == spec_prefix_assign(
                old(self).remaining(),
                assign,
                token,
                depth as nat,
            ).1,
            final(self).remaining().len() <= old(self).remaining().len(),
            final(self).same_script(old(self)),
            sound_one(r),
            r matches Ok(statement) ==> statement@ matches Tree::Assign(kind, order, target, value)
                && kind == assign && order == AssignOrder::AssignReturn && target.is_target()
                && *value == Tree::NoOp(None),
        decreases depth, old(self).remaining().len(), 1nat,
    {
        self.skip_comments();
        let next = match self.token() {
            None => {
                return Err(SyntaxError::UnexpectedEnd(Parsing::PrefixStatement));
            },
            Some(Err(e)) => {
                return Err(SyntaxError::Lexical(e));
            },
            Some(Ok(next)) => next,
        };
        match self.parse_variable(next, depth) {
            Err(e) => Err(e),
            Ok((_, target)) => {
                if target.is_target() {
                    assert(Statement::NoOp(None)@ == Tree::NoOp(None));
                    assert(Tree::NoOp(None).sound());
                    Ok(
                        Statement::Assign(
                            assign,
                            AssignOrder::AssignReturn,
                            Box::new(target),
                            Box::new(Statement::NoOp(None)),
                        ),
                    )
                } else {
                    Err(SyntaxError::UnexpectedToken(token))
                }
            },
        }
    }

    /// Parses the start of a statement whose first token is `token`, and says whether postfix
    /// and infix operators may follow.
    pub fn prefix_statement(&mut self, token: Token, abort: Abort, depth: usize) -> (r: Result<
        (PrefixState, Statement),
        SyntaxError,
    >)
        ensures
            agrees(r, spec_prefix(old(self).remaining(), token, abort, depth as nat).0),
            final(self).remaining() == spec_prefix(old(self).remaining(), token, abort, depth as nat).1,
            final(self).remaining().len() <= old(self).remaining().len(),
            final(self).same_script(old(self)),
            sound(r),
        decreases depth, old(self).remaining().len(), 2nat,
    {
        if depth == 0 {
            return Err(SyntaxError::MaxRecursion);
        }
        let op = match Operation::new(token) {
            None => {
                return Err(SyntaxError::UnexpectedToken(token));
            },
            Some(op) => op,
        };
        match op {
            Operation::Operator(kind) => {
                let bp = match prefix_binding_power(token) {
                    Ok(bp) => bp,
                    Err(e) => {
                        return Err(e);
                    },
                };
                let (end, right) = match self.expression(bp, abort, depth - 1) {
                    Ok(parsed) => parsed,
                    Err(e) => {
                        return Err(e);
                    },
                };
                let ghost tree = right@;
                let mut operands: Vec<Statement> = Vec::new();
                operands.push(right);
                assert(Statement::views(&operands) =~= seq![tree]);
                assert(tree.sound() ==> Tree::all_sound(seq![tree]));
                Ok((PrefixState::from_end(end), Statement::Operator(kind, operands)))
            },
            Operation::Primitive => Ok((PrefixState::Continue, Statement::Primitive(token))),
            Operation::Variable => self.parse_variable(token, depth),
            Operation::Grouping(_) => self.parse_grouping(token, depth),
            Operation::Assign(Category::MinusMinus) => {
                match self.parse_prefix_assign_operator(Category::MinusMinus, token, depth) {
                    Ok(statement) => Ok((PrefixState::Continue, statement)),
                    Err(e) => Err(e),
                }
            },
            Operation::Assign(Category::PlusPlus) => {
                match self.parse_prefix_assign_operator(Category::PlusPlus, token, depth) {
                    Ok(statement) => Ok((PrefixState::Continue, statement)),
                    Err(e) => Err(e),
                }
            },
            Operation::Assign(_) => Err(SyntaxError::UnexpectedToken(token)),
            Operation::Keyword(keyword) => self.parse_keyword(keyword, token, abort, depth),
            Operation::NoOp => {
                if token.category() == Category::Comment {
                    Ok((PrefixState::OpenEnd, Statement::NoOp(Some(token))))
                } else {
                    Ok((PrefixState::Break(token.category()), Statement::NoOp(Some(token))))
                }
            },
        }
    }
}

} // verus!
