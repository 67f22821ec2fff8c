//! The parser: reads the tokens of a script and builds statement trees by precedence climbing.
use crate::grammar::{
    comments_in, infix_node, lemma_comments_in, passed, skip_comments, spec_comma_group,
    spec_expect, spec_expression, spec_infix, spec_next, spec_statement, Abort, MAX_DEPTH,
};
use crate::operation::Operation;
use crate::statement::{AssignOrder, End, Parsing, PrefixState, Statement, SyntaxError, Tree};
use crate::token::{Category, Token};
use crate::tokenizer::{first, rest, Lexeme, Tokenizer};
use vstd::prelude::*;
use vstd::string::StringSliceAdditionalSpecFns;

verus! {

/// Whether the parser's result stands for the result of the grammar.
pub open spec fn agrees<S>(
    r: Result<(S, Statement), SyntaxError>,
    model: Result<(S, Tree), SyntaxError>,
) -> bool {
    match r {
        Ok((state, statement)) => model == Ok::<(S, Tree), SyntaxError>((state, statement@)),
        Err(e) => model == Err::<(S, Tree), SyntaxError>(e),
    }
}

/// Whether the parser's statement stands for the tree of the grammar.
pub open spec fn agrees_one(
    r: Result<Statement, SyntaxError>,
    model: Result<Tree, SyntaxError>,
) -> bool {
    match r {
        Ok(statement) => model == Ok::<Tree, SyntaxError>(statement@),
        Err(e) => model == Err::<Tree, SyntaxError>(e),
    }
}

/// Whether the parser's list of statements stands for the trees of the grammar.
pub open spec fn agrees_list(
    r: Result<Vec<Statement>, SyntaxError>,
    model: Result<Seq<Tree>, SyntaxError>,
) -> bool {
    match r {
        Ok(list) => model == Ok::<Seq<Tree>, SyntaxError>(Statement::views(&list)),
        Err(e) => model == Err::<Seq<Tree>, SyntaxError>(e),
    }
}

/// Whether every assignment in a parsed statement assigns to a variable or an array element.
pub open spec fn sound<S>(r: Result<(S, Statement), SyntaxError>) -> bool {
    match r {
        Ok((_, statement)) => statement@.sound(),
        Err(_) => true,
    }
}

/// Whether every assignment in a parsed statement assigns to a variable or an array element.
pub open spec fn sound_one(r: Result<Statement, SyntaxError>) -> bool {
    match r {
        Ok(statement) => statement@.sound(),
        Err(_) => true,
    }
}

/// Whether every assignment in the parsed statements assigns to a variable or an array
/// element.
pub open spec fn sound_list(r: Result<Vec<Statement>, SyntaxError>) -> bool {
    match r {
        Ok(list) => Tree::all_sound(Statement::views(&list)),
        Err(_) => true,
    }
}

/// Reads statements from the tokens of a script. Comments that stand inside a statement are
/// passed over while the statement is read, and handed out behind it as statements of their
/// own.
#[derive(Debug)]
pub struct Lexer<'a> {
    tokenizer: Tokenizer<'a>,
    held: Vec<Token>,
}

/// The node for an operator or an assignment between two operands.
pub fn infix_statement(operation: Operation, token: Token, left: Statement, right: Statement) -> (r:
    Result<Statement, SyntaxError>)
    ensures
        agrees_one(r, infix_node(operation, token, left@, right@)),
        left@.sound() && right@.sound() ==> sound_one(r),
{
    match operation {
        Operation::Operator(kind) => {
            let ghost trees = seq![left@, right@];
            assert(left@.sound() && right@.sound() ==> Tree::all_sound(trees));
            let mut operands: Vec<Statement> = Vec::new();
            operands.push(left);
            operands.push(right);
            assert(Statement::views(&operands) =~= trees);
            Ok(Statement::Operator(kind, operands))
        },
        Operation::Assign(kind) => {
            if left.is_target() {
                Ok(Statement::Assign(kind, AssignOrder::AssignReturn, Box::new(left), Box::new(right)))
            } else {
                Err(SyntaxError::UnexpectedToken(token))
            }
        },
        _ => Err(SyntaxError::UnexpectedToken(token)),
    }
}

impl<'a> Lexer<'a> {
    /// The lexemes that are still to be read.
    pub closed spec fn remaining(&self) -> Seq<Lexeme> {
        self.tokenizer.remaining()
    }

    /// The bytes of the script.
    pub closed spec fn source(&self) -> Seq<u8> {
        self.tokenizer.source()
    }

    /// The comments that were passed over and are still to be handed out.
    pub closed spec fn held(&self) -> Seq<Token> {
        self.held@
    }

    /// Whether the parser reads the script and holds the comments that `before` does.
    pub open spec fn same_script(&self, before: &Lexer<'a>) -> bool {
        self.source() == before.source() && self.held() == before.held()
    }

    /// A parser that reads from the tokenizer.
    pub fn new(tokenizer: Tokenizer<'a>) -> (r: Self)
        ensures
            r.remaining() == tokenizer.remaining(),
            r.source() == tokenizer.source(),
            r.held() == Seq::<Token>::empty(),
    {
        Lexer { tokenizer, held: Vec::new() }
    }

    /// The next lexeme; the parser moves behind it.
    pub fn token(&mut self) -> (r: Option<Lexeme>)
        ensures
            r == first(old(self).remaining()),
            final(self).remaining() == rest(old(self).remaining()),
            final(self).same_script(old(self)),
    {
        self.tokenizer.next()
    }

    /// The next lexeme, without moving on.
    pub fn peek(&self) -> (r: Option<Lexeme>)
        ensures
            r == first(self.remaining()),
    {
        self.tokenizer.peek()
    }

    /// Moves behind the comments that come next.
    pub fn skip_comments(&mut self)
        ensures
            final(self).remaining() == skip_comments(old(self).remaining()),
            final(self).remaining().len() <= old(self).remaining().len(),
            final(self).same_script(old(self)),
    {
        loop
            invariant
                skip_comments(old(self).remaining()) == skip_comments(self.remaining()),
                self.remaining().len() <= old(self).remaining().len(),
                self.same_script(old(self)),
            decreases self.remaining().len(),
        {
            match self.peek() {
                Some(Ok(token)) => {
                    if token.category == Category::Comment {
                        self.token();
                    } else {
                        return ;
                    }
                },
                _ => {
                    return ;
                },
            }
        }
    }

    /// Reads the token behind leading comments and checks that it has the category `expected`.
    pub fn expect(&mut self, expected: Category, context: Parsing) -> (r: Result<Token, SyntaxError>)
        ensures
            r == spec_expect(old(self).remaining(), expected, context).0,
            final(self).remaining() == spec_expect(old(self).remaining(), expected, context).1,
            final(self).remaining().len() <= old(self).remaining().len(),
            final(self).same_script(old(self)),
    {
        self.skip_comments();
        match self.token() {
            None => Err(SyntaxError::UnexpectedEnd(context)),
            Some(Err(e)) => Err(SyntaxError::Lexical(e)),
            Some(Ok(token)) => {
                if token.category == expected {
                    Ok(token)
                } else {
                    Err(SyntaxError::UnexpectedToken(token))
                }
            },
        }
    }

    /// Parses one statement: its prefix, then the postfix and infix operators that bind at
    /// least as tightly as `min_binding_power`, up to a delimiter of `abort`. `depth` is the
    /// number of levels that statements may still be nested.
    pub fn statement(&mut self, min_binding_power: u8, abort: Abort, depth: usize) -> (r: Result<
        (End, Statement),
        SyntaxError,
    >)
        ensures
            agrees(r, spec_statement(old(self).remaining(), min_binding_power, abort, depth as nat).0),
            final(self).remaining() == spec_statement(
                old(self).remaining(),
                min_binding_power,
                abort,
                depth as nat,
            ).1,
            final(self).remaining().len() <= old(self).remaining().len(),
            final(self).same_script(old(self)),
            sound(r),
            r is Ok ==> depth > 0 && old(self).remaining().len() > 0,
            depth > 0 && old(self).remaining().len() > 0 ==> final(self).remaining().len() < old(self).remaining().len(),
        decreases depth, old(self).remaining().len(), 0nat,
    {
        if depth == 0 {
            return Err(SyntaxError::MaxRecursion);
        }
        let token = match self.token() {
            None => {
                return Err(SyntaxError::UnexpectedEnd(Parsing::Statement));
            },
            Some(Err(e)) => {
                return Err(SyntaxError::Lexical(e));
            },
            Some(Ok(token)) => token,
        };
        if abort.is_match(token.category) {
            return Ok((End::Done(token.category), Statement::NoOp(Some(token))));
        }
        let (state, left) = match self.prefix_statement(token, abort, depth) {
            Ok(prefix) => prefix,
            Err(e) => {
                return Err(e);
            },
        };
        match state {
            PrefixState::OpenEnd => Ok((End::Continue, left)),
            PrefixState::Break(category) => Ok((End::Done(category), left)),
            PrefixState::Continue => self.infix(left, min_binding_power, abort, depth),
        }
    }

    /// Parses one statement inside another: comments before it are passed over.
    pub fn expression(&mut self, min_binding_power: u8, abort: Abort, depth: usize) -> (r: Result<
        (End, Statement),
        SyntaxError,
    >)
        ensures
            agrees(
                r,
                spec_expression(old(self).remaining(), min_binding_power, abort, depth as nat).0,
            ),
            final(self).remaining() == spec_expression(
                old(self).remaining(),
                min_binding_power,
                abort,
                depth as nat,
            ).1,
            final(self).remaining().len() <= old(self).remaining().len(),
            final(self).same_script(old(self)),
            sound(r),
            r is Ok ==> final(self).remaining().len() < old(self).remaining().len(),
        decreases depth, old(self).remaining().len(), 1nat,
    {
        self.skip_comments();
        self.statement(min_binding_power, abort, depth)
    }

    /// Folds the operators behind a first operand `left` into the tree.
    pub fn infix(&mut self, left: Statement, min_binding_power: u8, abort: Abort, depth: usize) -> (r:
        Result<(End, Statement), SyntaxError>)
        ensures
            agrees(
                r,
                spec_infix(old(self).remaining(), left@, min_binding_power, abort, depth as nat).0,
            ),
            final(self).remaining() == spec_infix(
                old(self).remaining(),
                left@,
                min_binding_power,
                abort,
                depth as nat,
            ).1,
            final(self).remaining().len() <= old(self).remaining().len(),
            final(self).same_script(old(self)),
            left@.sound() ==> sound(r),
        decreases depth, old(self).remaining().len(), 0nat,
    {
        if depth == 0 {
            return Err(SyntaxError::MaxRecursion);
        }
        let mut current = left;
        loop
            invariant
                depth > 0,
                self.remaining().len() <= old(self).remaining().len(),
                self.same_script(old(self)),
                left@.sound() ==> current@.sound(),
                spec_infix(old(self).remaining(), left@, min_binding_power, abort, depth as nat)
                    == spec_infix(
                    self.remaining(),
                    current@,
                    min_binding_power,
                    abort,
                    depth as nat,
                ),
            decreases self.remaining().len(),
        {
            let token = match self.peek() {
                None => {
                    return Ok((End::Continue, current));
                },
                Some(Err(e)) => {
                    self.token();
                    return Err(SyntaxError::Lexical(e));
                },
                Some(Ok(token)) => token,
            };
            if token.category == Category::Comment {
                self.token();
                continue ;
            }
            if abort.is_match(token.category) {
                self.token();
                return Ok((End::Done(token.category), current));
            }
            if token.category == Category::DoublePoint {
                match current {
                    Statement::Variable(name) => {
                        self.token();
                        return match self.expression(0, abort, depth - 1) {
                            Ok((end, value)) => Ok(
                                (end, Statement::NamedParameter(name, Box::new(value))),
                            ),
                            Err(e) => Err(e),
                        };
                    },
                    _ => {
                        return Err(SyntaxError::UnexpectedToken(token));
                    },
                }
            }
            let operation = match Operation::new(token) {
                None => {
                    return Err(SyntaxError::UnexpectedToken(token));
                },
                Some(operation) => operation,
            };
            if operation.is_postfix() {
                if current.is_target() {
                    self.token();
                    assert(Statement::NoOp(None)@ == Tree::NoOp(None));
                    assert(Tree::NoOp(None).sound());
                    current =
                    Statement::Assign(
                        token.category,
                        AssignOrder::ReturnAssign,
                        Box::new(current),
                        Box::new(Statement::NoOp(None)),
                    );
                    continue ;
                } else {
                    return Err(SyntaxError::UnexpectedToken(token));
                }
            }
            let (left_bp, right_bp) = match operation.infix_binding_power() {
                None => {
                    return Err(SyntaxError::UnexpectedToken(token));
                },
                Some(powers) => powers,
            };
            if left_bp < min_binding_power {
                return Ok((End::Continue, current));
            }
            self.token();
            let (end, right) = match self.expression(right_bp, abort, depth - 1) {
                Ok(parsed) => parsed,
                Err(e) => {
                    return Err(e);
                },
            };
            let node = match infix_statement(operation, token, current, right) {
                Ok(node) => node,
                Err(e) => {
                    return Err(e);
                },
            };
            match end {
                End::Done(category) => {
                    return Ok((End::Done(category), node));
                },
                End::Continue => {
                    current = node;
                },
            }
        }
    }

    /// Parses statements separated by commas up to a delimiter of category `end`.
    pub fn parse_comma_group(&mut self, end: Category, context: Parsing, depth: usize) -> (r: Result<
        Vec<Statement>,
        SyntaxError,
    >)
        ensures
            agrees_list(
                r,
                spec_comma_group(
                    old(self).remaining(),
                    end,
                    context,
                    Seq::empty(),
                    depth as nat,
                ).0,
            ),
            final(self).remaining() == spec_comma_group(
                old(self).remaining(),
                end,
                context,
                Seq::empty(),
                depth as nat,
            ).1,
            final(self).remaining().len() <= old(self).remaining().len(),
            final(self).same_script(old(self)),
            sound_list(r),
        decreases depth, old(self).remaining().len(), 0nat,
    {
        if depth == 0 {
            return Err(SyntaxError::MaxRecursion);
        }
        let mut list: Vec<Statement> = Vec::new();
        assert(Statement::views(&list) =~= Seq::empty());
        loop
            invariant
                depth > 0,
                self.remaining().len() <= old(self).remaining().len(),
                self.same_script(old(self)),
                Tree::all_sound(Statement::views(&list)),
                spec_comma_group(old(self).remaining(), end, context, Seq::empty(), depth as nat)
                    == spec_comma_group(
                    self.remaining(),
                    end,
                    context,
                    Statement::views(&list),
                    depth as nat,
                ),
            decreases self.remaining().len(),
        {
            let token = match self.peek() {
                None => {
                    return Err(SyntaxError::UnexpectedEnd(context));
                },
                Some(Err(e)) => {
                    self.token();
                    return Err(SyntaxError::Lexical(e));
                },
                Some(Ok(token)) => token,
            };
            if token.category == Category::Comment {
                self.token();
                continue ;
            }
            if token.category == end {
                self.token();
                return Ok(list);
            }
            let (closed, item) = match self.statement(0, Abort::on_list(end), depth - 1) {
                Ok(parsed) => parsed,
                Err(e) => {
                    return Err(e);
                },
            };
            match closed {
                End::Done(category) => {
                    if category == end {
                        let ghost before = Statement::views(&list);
                        let ghost tree = item@;
                        list.push(item);
                        assert(Statement::views(&list) =~= before.push(tree));
                        return Ok(list);
                    } else if category == Category::Comma {
                        let ghost before = Statement::views(&list);
                        let ghost tree = item@;
                        list.push(item);
                        assert(Statement::views(&list) =~= before.push(tree));
                    } else {
                        return Err(SyntaxError::UnexpectedEnd(context));
                    }
                },
                End::Continue => {
                    return Err(SyntaxError::UnexpectedEnd(context));
                },
            }
        }
    }

    /// The comments among the lexemes that were read since the tokenizer stood at `mark`.
    fn comments_since(&self, mark: Tokenizer<'a>) -> (r: Vec<Token>)
        requires
            mark.source() == self.source(),
            mark.taken() <= self.tokenizer.taken(),
        ensures
            r@ == comments_in(passed(mark.remaining(), self.remaining())),
    {
        let target = self.tokenizer.count();
        let start = mark.count();
        let ghost all = mark.all();
        let mut scanner = mark;
        let mut found: Vec<Token> = Vec::new();
        assert(all.subrange(start as int, start as int) =~= Seq::<Lexeme>::empty());
        while scanner.count() < target
            invariant
                scanner.source() == mark.source(),
                self.tokenizer.all() == all,
                scanner.all() == all,
                target == self.tokenizer.taken(),
                target <= all.len(),
                start <= scanner.taken() <= target,
                found@ == comments_in(all.subrange(start as int, scanner.taken() as int)),
            decreases target - scanner.taken(),
        {
            let passed_so_far = scanner.count();
            let ghost before = all.subrange(start as int, passed_so_far as int);
            let ghost after = all.subrange(start as int, passed_so_far + 1);
            proof {
                assert(after.drop_last() =~= before);
                assert(after.last() == all[passed_so_far as int]);
                assert(scanner.remaining()[0] == all[passed_so_far as int]);
            }
            match scanner.next() {
                Some(Ok(token)) => {
                    if token.category == Category::Comment {
                        found.push(token);
                    }
                },
                Some(Err(_)) => {},
                None => {},
            }
        }
        proof {
            let toks = mark.remaining();
            let behind = self.remaining();
            assert(toks == all.skip(start as int));
            assert(behind == all.skip(target as int));
            assert(passed(toks, behind) =~= all.subrange(start as int, target as int));
        }
        found
    }

    /// The next statement of the script, or the error it ends in; `None` at the end of the
    /// script. After an error the parser goes on behind the place where it stopped. A comment
    /// between two statements is a statement of its own; a comment inside a statement leaves
    /// the statement as it is without the comment, and follows it as a statement of its own.
    pub fn next(&mut self) -> (r: Option<Result<Statement, SyntaxError>>)
        ensures
            final(self).source() == old(self).source(),
            match spec_next(old(self).held(), old(self).remaining()) {
                None => r is None && final(self).remaining() == old(self).remaining()
                    && final(self).held() == old(self).held(),
                Some((model, held, rest)) => r matches Some(item) && agrees_one(item, model)
                    && sound_one(item) && final(self).held() == held && final(self).remaining()
                    == rest,
            },
            r is Some ==> 2 * final(self).remaining().len() + final(self).held().len() < 2 * old(self).remaining().len() + old(self).held().len(),
    {
        if self.held.len() > 0 {
            let comment = self.held.remove(0);
            assert(self.held@ =~= old(self).held().skip(1));
            assert(Tree::NoOp(Some(comment)).sound());
            return Some(Ok(Statement::NoOp(Some(comment))));
        }
        if self.peek().is_none() {
            return None;
        }
        let mark = self.tokenizer;
        let before = self.tokenizer.count();
        let result = self.statement(0, Abort::on(Category::Semicolon), MAX_DEPTH);
        let after = self.tokenizer.count();
        let own = match &result {
            Ok((_, Statement::NoOp(Some(token)))) => token.category == Category::Comment,
            _ => false,
        };
        if !own {
            let comments = self.comments_since(mark);
            proof {
                lemma_comments_in(passed(mark.remaining(), self.remaining()));
            }
            self.held = comments;
        }
        match result {
            Err(e) => Some(Err(e)),
            Ok((end, statement)) => {
                let complete = match end {
                    End::Done(_) => true,
                    End::Continue => match statement {
                        Statement::NoOp(_) => true,
                        _ => false,
                    },
                };
                if complete {
                    Some(Ok(statement))
                } else {
                    Some(Err(SyntaxError::UnexpectedEnd(Parsing::Statement)))
                }
            },
        }
    }
}

/// A parser at the start of the script.
pub fn parse<'a>(code: &'a str) -> (r: Lexer<'a>)
    ensures
        r.remaining() == crate::tokenizer::lex(code.spec_bytes(), 0),
        r.source() == code.spec_bytes(),
        r.held() == Seq::<Token>::empty(),
{
    Lexer::new(Tokenizer::new(code))
}

} // verus!
