//! Handles names: variables, array elements and calls.
use crate::grammar::{spec_variable, Abort};
use crate::lexer::{agrees, sound, Lexer};
use crate::statement::{End, Parsing, PrefixState, Statement, SyntaxError};
use crate::token::{Category, Token};
use vstd::prelude::*;

verus! {

impl<'a> Lexer<'a> {
    /// Parses what the name `token` stands for: a call where `(` follows, an array element
    /// where `[` follows, a variable otherwise.
    pub fn parse_variable(&mut self, token: Token, depth: usize) -> (r: Result<
        (PrefixState, Statement),
        SyntaxError,
    >)
        ensures
            agrees(r, spec_variable(old(self).remaining(), token, depth as nat).0),
            final(self).remaining() == spec_variable(old(self).remaining(), token, depth as nat).1,
            final(self).remaining().len() <= old(self).remaining().len(),
            final(self).same_script(old(self)),
            sound(r),
        decreases depth, old(self).remaining().len(), 1nat,
    {
        if token.category() != Category::Identifier(None) {
            return Err(SyntaxError::UnexpectedToken(token));
        }
        if depth == 0 {
            return Err(SyntaxError::MaxRecursion);
        }
        self.skip_comments();
        match self.peek() {
            Some(Ok(next)) => {
                if next.category() == Category::LeftParen {
                    self.token();
                    match self.parse_comma_group(Category::RightParen, Parsing::Arguments, depth - 1) {
                        Ok(arguments) => Ok((PrefixState::Continue, Statement::Call(token, arguments))),
                        Err(e) => Err(e),
                    }
                } else if next.category() == Category::LeftBrace {
                    self.token();
                    match self.expression(0, Abort::on(Category::RightBrace), depth - 1) {
                        Err(e) => Err(e),
                        Ok((End::Done(Category::RightBrace), Statement::NoOp(_))) => Ok(
                            (PrefixState::Continue, Statement::Array(token, None)),
                        ),
                        Ok((End::Done(Category::RightBrace), index)) => Ok(
                            (PrefixState::Continue, Statement::Array(token, Some(Box::new(index)))),
                        ),
                        Ok(_) => Err(SyntaxError::UnexpectedEnd(Parsing::Index)),
                    }
                } else {
                    Ok((PrefixState::Continue, Statement::Variable(token)))
                }
            },
            _ => Ok((PrefixState::Continue, Statement::Variable(token))),
        }
    }
}

} // verus!
