//! Handles statements that start with a reserved word.
use crate::grammar::{
    all_variables, spec_body, spec_condition, spec_declare, spec_function, spec_if, spec_keyword,
    spec_while, Abort,
};
use crate::lexer::{agrees, agrees_one, sound, sound_one, Lexer};
use crate::statement::{DeclareScope, End, Parsing, PrefixState, Statement, SyntaxError, Tree};
use crate::token::{Category, Keyword, Token};
use vstd::prelude::*;

verus! {

/// Whether every statement of the list is a variable.
pub fn only_variables(list: &Vec<Statement>) -> (r: bool)
    ensures
        r == all_variables(Statement::views(list)),
{
    let mut i: usize = 0;
    while i < list.len()
        invariant
            0 <= i <= list.len(),
            forall|j: int| 0 <= j < i ==> (#[trigger] Statement::views(list)[j]) is Variable,
        decreases list.len() - i,
    {
        match &list[i] {
            Statement::Variable(_) => {},
            _ => {
                assert(!(Statement::views(list)[i as int] is Variable));
                return false;
            },
        }
        i = i + 1;
    }
    true
}

impl<'a> Lexer<'a> {
    /// Parses a condition between `(` and `)`.
    pub fn parse_condition(&mut self, depth: usize) -> (r: Result<Statement, SyntaxError>)
        ensures
            agrees_one(r, spec_condition(old(self).remaining(), depth as nat).0),
            final(self).remaining() == spec_condition(old(self).remaining(), depth as nat).1,
            final(self).remaining().len() <= old(self).remaining().len(),
            final(self).same_script(old(self)),
            sound_one(r),
        decreases depth, old(self).remaining().len(), 0nat,
    {
        match self.expect(Category::LeftParen, Parsing::Condition) {
            Err(e) => {
                return Err(e);
            },
            Ok(_) => {},
        }
        if depth == 0 {
            return Err(SyntaxError::MaxRecursion);
        }
        match self.expression(0, Abort::on(Category::RightParen), depth - 1) {
            Err(e) => Err(e),
            Ok((end, condition)) => {
                if end == End::Done(Category::RightParen) {
                    Ok(condition)
                } else {
                    Err(SyntaxError::UnexpectedEnd(Parsing::Condition))
                }
            },
        }
    }

    /// Parses the statement that `if`, `else` or `while` runs, and gives the category that
    /// closed it.
    pub fn parse_body(&mut self, depth: usize) -> (r: Result<(Category, Statement), SyntaxError>)
        ensures
            agrees(r, spec_body(old(self).remaining(), depth as nat).0),
            final(self).remaining() == spec_body(old(self).remaining(), depth as nat).1,
            final(self).remaining().len() <= old(self).remaining().len(),
            final(self).same_script(old(self)),
            sound(r),
        decreases depth, old(self).remaining().len(), 0nat,
    {
        if depth == 0 {
            return Err(SyntaxError::MaxRecursion);
        }
        match self.expression(0, Abort::on(Category::Semicolon), depth - 1) {
            Err(e) => Err(e),
            Ok((End::Done(category), body)) => Ok((category, body)),
            Ok((End::Continue, _)) => Err(SyntaxError::UnexpectedEnd(Parsing::Body)),
        }
    }

    /// Parses what follows `if`: a condition, a statement, and maybe `else` with another
    /// statement.
    pub fn parse_if(&mut self, depth: usize) -> (r: Result<(PrefixState, Statement), SyntaxError>)
        ensures
            agrees(r, spec_if(old(self).remaining(), depth as nat).0),
            final(self).remaining() == spec_if(old(self).remaining(), depth as nat).1,
            final(self).remaining().len() <= old(self).remaining().len(),
            final(self).same_script(old(self)),
            sound(r),
        decreases depth, old(self).remaining().len(), 0nat,
    {
        if depth == 0 {
            return Err(SyntaxError::MaxRecursion);
        }
        let below = depth - 1;
        let test = match self.parse_condition(below) {
            Ok(test) => test,
            Err(e) => {
                return Err(e);
            },
        };
        let (closed, then) = match self.parse_body(below) {
            Ok(body) => body,
            Err(e) => {
                return Err(e);
            },
        };
        self.skip_comments();
        let has_else = match self.peek() {
            Some(Ok(next)) => next.category() == Category::Identifier(Some(Keyword::Else)),
            _ => false,
        };
        if has_else {
            self.token();
            match self.parse_body(below) {
                Err(e) => Err(e),
                Ok((closed, otherwise)) => Ok(
                    (
                        PrefixState::Break(closed),
                        Statement::If(Box::new(test), Box::new(then), Some(Box::new(otherwise))),
                    ),
                ),
            }
        } else {
            Ok((PrefixState::Break(closed), Statement::If(Box::new(test), Box::new(then), None)))
        }
    }

    /// Parses what follows `while`: a condition and a statement.
    pub fn parse_while(&mut self, depth: usize) -> (r: Result<(PrefixState, Statement), SyntaxError>)
        ensures
            agrees(r, spec_while(old(self).remaining(), depth as nat).0),
            final(self).remaining() == spec_while(old(self).remaining(), depth as nat).1,
            final(self).remaining().len() <= old(self).remaining().len(),
            final(self).same_script(old(self)),
            sound(r),
        decreases depth, old(self).remaining().len(), 0nat,
    {
        if depth == 0 {
            return Err(SyntaxError::MaxRecursion);
        }
        let below = depth - 1;
        let test = match self.parse_condition(below) {
            Ok(test) => test,
            Err(e) => {
                return Err(e);
            },
        };
        match self.parse_body(below) {
            Err(e) => Err(e),
            Ok((closed, body)) => Ok(
                (PrefixState::Break(closed), Statement::While(Box::new(test), Box::new(body))),
            ),
        }
    }

    /// Parses what follows `function`, which `token` holds: a name, the parameters and a block.
    pub fn parse_function(&mut self, token: Token, depth: usize) -> (r: Result<
        (PrefixState, Statement),
        SyntaxError,
    >)
        ensures
            agrees(r, spec_function(old(self).remaining(), token, depth as nat).0),
            final(self).remaining() == spec_function(old(self).remaining(), token, depth as nat).1,
            final(self).remaining().len() <= old(self).remaining().len(),
            final(self).same_script(old(self)),
            sound(r),
        decreases depth, old(self).remaining().len(), 0nat,
    {
        if depth == 0 {
            return Err(SyntaxError::MaxRecursion);
        }
        let below = depth - 1;
        let name = match self.expect(Category::Identifier(None), Parsing::Function) {
            Ok(name) => name,
            Err(e) => {
                return Err(e);
            },
        };
        match self.expect(Category::LeftParen, Parsing::Function) {
            Ok(_) => {},
            Err(e) => {
                return Err(e);
            },
        }
        let parameters = match self.parse_comma_group(
            Category::RightParen,
            Parsing::Arguments,
            below,
        ) {
            Ok(parameters) => parameters,
            Err(e) => {
                return Err(e);
            },
        };
        if !only_variables(&parameters) {
            return Err(SyntaxError::UnexpectedToken(token));
        }
        match self.expect(Category::LeftCurlyBracket, Parsing::Function) {
            Ok(_) => {},
            Err(e) => {
                return Err(e);
            },
        }
        match self.parse_block(below) {
            Err(e) => Err(e),
            Ok(body) => {
                let ghost trees = Statement::views(&body);
                let block = Statement::Block(body);
                assert(block@ == Tree::Block(trees));
                assert(Tree::Block(trees).sound());
                Ok(
                    (
                        PrefixState::Break(Category::RightCurlyBracket),
                        Statement::FunctionDeclaration(name, parameters, Box::new(block)),
                    ),
                )
            },
        }
    }

    /// Parses what follows `local_var` or `global_var`, which `token` holds: names separated
    /// by commas up to a `;`.
    pub fn parse_declare(&mut self, scope: DeclareScope, token: Token, depth: usize) -> (r: Result<
        (PrefixState, Statement),
        SyntaxError,
    >)
        ensures
            agrees(r, spec_declare(old(self).remaining(), scope, token, depth as nat).0),
            final(self).remaining() == spec_declare(
                old(self).remaining(),
                scope,
                token,
                depth as nat,
            ).1,
            final(self).remaining().len() <= old(self).remaining().len(),
            final(self).same_script(old(self)),
            sound(r),
        decreases depth, old(self).remaining().len(), 0nat,
    {
        if depth == 0 {
            return Err(SyntaxError::MaxRecursion);
        }
        let below = depth - 1;
        let names = match self.parse_comma_group(Category::Semicolon, Parsing::Declaration, below) {
            Ok(names) => names,
            Err(e) => {
                return Err(e);
            },
        };
        if only_variables(&names) {
            Ok((PrefixState::Break(Category::Semicolon), Statement::Declare(scope, names)))
        } else {
            Err(SyntaxError::UnexpectedToken(token))
        }
    }

    /// Parses the statement that the reserved word `keyword`, held by `token`, starts.
    pub fn parse_keyword(&mut self, keyword: Keyword, token: Token, abort: Abort, depth: usize) -> (r:
        Result<(PrefixState, Statement), SyntaxError>)
        ensures
            agrees(r, spec_keyword(old(self).remaining(), keyword, token, abort, depth as nat).0),
            final(self).remaining() == spec_keyword(
                old(self).remaining(),
                keyword,
                token,
                abort,
                depth as nat,
            ).1,
            final(self).remaining().len() <= old(self).remaining().len(),
            final(self).same_script(old(self)),
            sound(r),
        decreases depth, old(self).remaining().len(), 1nat,
    {
        if depth == 0 {
            return Err(SyntaxError::MaxRecursion);
        }
        let below = depth - 1;
        match keyword {
            Keyword::If => self.parse_if(depth),
            Keyword::While => self.parse_while(depth),
            Keyword::Include => {
                match self.parse_condition(below) {
                    Err(e) => Err(e),
                    Ok(name) => Ok((PrefixState::Continue, Statement::Include(Box::new(name)))),
                }
            },
            Keyword::Function => self.parse_function(token, depth),
            Keyword::Return => {
                match self.expression(0, abort, below) {
                    Err(e) => Err(e),
                    Ok((end, value)) => Ok(
                        (PrefixState::from_end(end), Statement::Return(Box::new(value))),
                    ),
                }
            },
            Keyword::Break => Ok((PrefixState::Continue, Statement::Break)),
            Keyword::Continue => Ok((PrefixState::Continue, Statement::Continue)),
            Keyword::LocalVar => self.parse_declare(DeclareScope::Local, token, depth),
            Keyword::GlobalVar => self.parse_declare(DeclareScope::Global, token, depth),
            Keyword::Else | Keyword::Null | Keyword::True | Keyword::False => Err(
                SyntaxError::UnexpectedToken(token),
            ),
        }
    }
}

} // verus!
