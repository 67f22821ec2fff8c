//! Handles groups: parentheses, brackets and blocks.
use crate::grammar::{spec_block, spec_grouping, Abort};
use crate::lexer::{agrees, agrees_list, sound, sound_list, Lexer};
use crate::statement::{End, Parsing, PrefixState, Statement, SyntaxError, Tree};
use crate::token::{Category, Token};
use vstd::prelude::*;

verus! {

impl<'a> Lexer<'a> {
    /// Parses the statements of a block up to the `}` that closes it. Comments between the
    /// statements are passed over.
    pub fn parse_block(&mut self, depth: usize) -> (r: Result<Vec<Statement>, SyntaxError>)
        ensures
            agrees_list(r, spec_block(old(self).remaining(), Seq::empty(), depth as nat).0),
            final(self).remaining() == spec_block(old(self).remaining(), Seq::empty(), depth as nat).1,
            final(self).remaining().len() <= old(self).remaining().len(),
            final(self).same_script(old(self)),
            sound_list(r),
        decreases depth, old(self).remaining().len(), 0nat,
    {
        if depth == 0 {
            return Err(SyntaxError::MaxRecursion);
        }
        let mut list: Vec<Statement> = Vec::new();
        assert(Statement::views(&list) =~= Seq::empty());
        loop
            invariant
                depth > 0,
                self.remaining().len() <= old(self).remaining().len(),
                self.same_script(old(self)),
                Tree::all_sound(Statement::views(&list)),
                spec_block(old(self).remaining(), Seq::empty(), depth as nat) == spec_block(
                    self.remaining(),
                    Statement::views(&list),
                    depth as nat,
                ),
            decreases self.remaining().len(),
        {
            let token = match self.peek() {
                None => {
                    return Err(SyntaxError::UnexpectedEnd(Parsing::Block));
                },
                Some(Err(e)) => {
                    self.token();
                    return Err(SyntaxError::Lexical(e));
                },
                Some(Ok(token)) => token,
            };
            if token.category() == Category::Comment {
                self.token();
                continue ;
            }
            if token.category() == Category::RightCurlyBracket {
                self.token();
                return Ok(list);
            }
            let (end, item) = match self.statement(0, Abort::on(Category::Semicolon), depth - 1) {
                Ok(parsed) => parsed,
                Err(e) => {
                    return Err(e);
                },
            };
            let complete = match end {
                End::Done(_) => true,
                End::Continue => match item {
                    Statement::NoOp(_) => true,
                    _ => false,
                },
            };
            if !complete {
                return Err(SyntaxError::UnexpectedEnd(Parsing::Block));
            }
            let ghost before = Statement::views(&list);
            let ghost tree = item@;
            list.push(item);
            assert(Statement::views(&list) =~= before.push(tree));
        }
    }

    /// Parses the group that the opening mark `token` starts: the statement between
    /// parentheses or brackets, or a block.
    pub fn parse_grouping(&mut self, token: Token, depth: usize) -> (r: Result<
        (PrefixState, Statement),
        SyntaxError,
    >)
        ensures
            agrees(r, spec_grouping(old(self).remaining(), token, depth as nat).0),
            final(self).remaining() == spec_grouping(old(self).remaining(), token, depth as nat).1,
            final(self).remaining().len() <= old(self).remaining().len(),
            final(self).same_script(old(self)),
            sound(r),
        decreases depth, old(self).remaining().len(), 1nat,
    {
        if depth == 0 {
            return Err(SyntaxError::MaxRecursion);
        }
        if token.category() == Category::LeftCurlyBracket {
            match self.parse_block(depth - 1) {
                Ok(list) => Ok(
                    (PrefixState::Break(Category::RightCurlyBracket), Statement::Block(list)),
                ),
                Err(e) => Err(e),
            }
        } else if token.category() == Category::LeftParen || token.category()
            == Category::LeftBrace {
            let close = if token.category() == Category::LeftParen {
                Category::RightParen
            } else {
                Category::RightBrace
            };
            match self.expression(0, Abort::on(close), depth - 1) {
                Err(e) => Err(e),
                Ok((end, inner)) => {
                    if end == End::Done(close) {
                        Ok((PrefixState::Continue, inner))
                    } else {
                        Err(SyntaxError::UnexpectedEnd(Parsing::Group))
                    }
                },
            }
        } else {
            Err(SyntaxError::UnexpectedToken(token))
        }
    }
}

} // verus!
