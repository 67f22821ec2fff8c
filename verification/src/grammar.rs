//! The grammar of the language, as functions from a sequence of lexemes to a statement tree.
//!
//! Every function takes the lexemes that are still to be read and gives back what it made of
//! them together with the lexemes it left. The parser in [`crate::lexer`] computes these
//! functions on the fly.
use crate::operation::Operation;
use crate::statement::{AssignOrder, DeclareScope, End, Parsing, PrefixState, SyntaxError, Tree};
use crate::token::{Category, Keyword, Token};
use crate::tokenizer::{first, Lexeme};
use vstd::prelude::*;

verus! {

/// How deeply statements may be nested.
pub const MAX_DEPTH: usize = 128;

/// The delimiters at which a statement stops.
#[derive(Clone, Copy, Debug, PartialEq, Eq, Structural)]
pub struct Abort {
    /// The category that closes the enclosing construct.
    pub end: Category,
    /// Whether a comma stops the statement too.
    pub comma: bool,
}

impl Abort {
    /// Stops at `end` and nowhere else.
    pub open spec fn at(end: Category) -> Abort {
        Abort { end, comma: false }
    }

    /// Stops at `end` and at a comma.
    pub open spec fn in_list(end: Category) -> Abort {
        Abort { end, comma: true }
    }

    /// Whether a token of the category stops the statement.
    pub open spec fn matches(self, category: Category) -> bool {
        category == self.end || (self.comma && category == Category::Comma)
    }

    /// Stops at `end` and nowhere else.
    pub fn on(end: Category) -> (r: Abort)
        ensures
            r == Abort::at(end),
    {
        Abort { end, comma: false }
    }

    /// Stops at `end` and at a comma.
    pub fn on_list(end: Category) -> (r: Abort)
        ensures
            r == Abort::in_list(end),
    {
        Abort { end, comma: true }
    }

    /// Whether a token of the category stops the statement.
    pub fn is_match(self, category: Category) -> (r: bool)
        ensures
            r == self.matches(category),
    {
        category == self.end || (self.comma && category == Category::Comma)
    }
}

/// What a grammar function made of the lexemes, and the lexemes it left.
pub type Parsed<T> = (Result<T, SyntaxError>, Seq<Lexeme>);

/// Whether the lexeme is a token of the given category.
pub open spec fn is_token(lexeme: Lexeme, category: Category) -> bool {
    match lexeme {
        Ok(token) => token.category == category,
        Err(_) => false,
    }
}

/// The lexemes behind the comments that the sequence starts with.
pub open spec fn skip_comments(toks: Seq<Lexeme>) -> Seq<Lexeme>
    decreases toks.len(),
{
    if toks.len() > 0 && is_token(toks[0], Category::Comment) {
        skip_comments(toks.skip(1))
    } else {
        toks
    }
}

/// How tightly a prefix operator binds its operand.
pub open spec fn spec_prefix_binding_power(token: Token) -> Result<u8, SyntaxError> {
    match token.category {
        Category::Plus | Category::Minus | Category::Tilde | Category::Bang => Ok(21u8),
        _ => Err(SyntaxError::UnexpectedToken(token)),
    }
}

/// The node for an operator or an assignment between two operands; an assignment to
/// anything but a variable or an array element is an error at the operator's token.
pub open spec fn infix_node(operation: Operation, token: Token, left: Tree, right: Tree) -> Result<
    Tree,
    SyntaxError,
> {
    match operation {
        Operation::Operator(kind) => Ok(Tree::Operator(kind, seq![left, right])),
        Operation::Assign(kind) => if left.is_target() {
            Ok(Tree::Assign(kind, AssignOrder::AssignReturn, Box::new(left), Box::new(right)))
        } else {
            Err(SyntaxError::UnexpectedToken(token))
        },
        _ => Err(SyntaxError::UnexpectedToken(token)),
    }
}

/// One statement: a prefix, followed by the postfix and infix operators that bind at least as
/// tightly as `min_bp`, up to a delimiter of `abort`.
pub open spec fn spec_statement(toks: Seq<Lexeme>, min_bp: u8, abort: Abort, depth: nat) -> Parsed<
    (End, Tree),
>
    decreases depth, toks.len(), 0nat,
{
    if depth == 0 {
        (Err(SyntaxError::MaxRecursion), toks)
    } else {
        match first(toks) {
            None => (Err(SyntaxError::UnexpectedEnd(Parsing::Statement)), toks),
            Some(Err(e)) => (Err(SyntaxError::Lexical(e)), toks.skip(1)),
            Some(Ok(token)) => if abort.matches(token.category) {
                (Ok((End::Done(token.category), Tree::NoOp(Some(token)))), toks.skip(1))
            } else {
                let prefix = spec_prefix(toks.skip(1), token, abort, depth);
                match prefix.0 {
                    Err(e) => (Err(e), prefix.1),
                    Ok((PrefixState::OpenEnd, left)) => (Ok((End::Continue, left)), prefix.1),
                    Ok((PrefixState::Break(category), left)) => (
                        Ok((End::Done(category), left)),
                        prefix.1,
                    ),
                    Ok((PrefixState::Continue, left)) => if prefix.1.len() < toks.len() {
                        spec_infix(prefix.1, left, min_bp, abort, depth)
                    } else {
                        (Err(SyntaxError::MaxRecursion), prefix.1)
                    },
                }
            },
        }
    }
}

/// One statement inside another: comments before it are passed over.
pub open spec fn spec_expression(toks: Seq<Lexeme>, min_bp: u8, abort: Abort, depth: nat) -> Parsed<
    (End, Tree),
>
    decreases depth, toks.len(), 1nat,
{
    let behind = skip_comments(toks);
    if behind.len() <= toks.len() {
        spec_statement(behind, min_bp, abort, depth)
    } else {
        (Err(SyntaxError::MaxRecursion), behind)
    }
}

/// The operators behind a first operand `left`.
pub open spec fn spec_infix(
    toks: Seq<Lexeme>,
    left: Tree,
    min_bp: u8,
    abort: Abort,
    depth: nat,
) -> Parsed<(End, Tree)>
    decreases depth, toks.len(), 0nat,
{
    if depth == 0 {
        (Err(SyntaxError::MaxRecursion), toks)
    } else {
        match first(toks) {
            None => (Ok((End::Continue, left)), toks),
            Some(Err(e)) => (Err(SyntaxError::Lexical(e)), toks.skip(1)),
            Some(Ok(token)) => if token.category == Category::Comment {
                spec_infix(toks.skip(1), left, min_bp, abort, depth)
            } else if abort.matches(token.category) {
                (Ok((End::Done(token.category), left)), toks.skip(1))
            } else if token.category == Category::DoublePoint {
                match left {
                    Tree::Variable(name) => {
                        let value = spec_expression(toks.skip(1), 0, abort, (depth - 1) as nat);
                        match value.0 {
                            Err(e) => (Err(e), value.1),
                            Ok((end, tree)) => (
                                Ok((end, Tree::NamedParameter(name, Box::new(tree)))),
                                value.1,
                            ),
                        }
                    },
                    _ => (Err(SyntaxError::UnexpectedToken(token)), toks),
                }
            } else {
                match Operation::classify(token.category) {
                    None => (Err(SyntaxError::UnexpectedToken(token)), toks),
                    Some(operation) => if operation.spec_is_postfix() {
                        if left.is_target() {
                            spec_infix(
                                toks.skip(1),
                                Tree::Assign(
                                    token.category,
                                    AssignOrder::ReturnAssign,
                                    Box::new(left),
                                    Box::new(Tree::NoOp(None)),
                                ),
                                min_bp,
                                abort,
                                depth,
                            )
                        } else {
                            (Err(SyntaxError::UnexpectedToken(token)), toks)
                        }
                    } else {
                        match operation.spec_infix_binding_power() {
                            None => (Err(SyntaxError::UnexpectedToken(token)), toks),
                            Some((left_bp, right_bp)) => if left_bp < min_bp {
                                (Ok((End::Continue, left)), toks)
                            } else {
                                let right = spec_expression(
                                    toks.skip(1),
                                    right_bp,
                                    abort,
                                    (depth - 1) as nat,
                                );
                                match right.0 {
                                    Err(e) => (Err(e), right.1),
                                    Ok((end, tree)) => match infix_node(
                                        operation,
                                        token,
                                        left,
                                        tree,
                                    ) {
                                        Err(e) => (Err(e), right.1),
                                        Ok(node) => match end {
                                            End::Done(category) => (
                                                Ok((End::Done(category), node)),
                                                right.1,
                                            ),
                                            End::Continue => if right.1.len() < toks.len() {
                                                spec_infix(right.1, node, min_bp, abort, depth)
                                            } else {
                                                (Err(SyntaxError::MaxRecursion), right.1)
                                            },
                                        },
                                    },
                                }
                            },
                        }
                    },
                }
            },
        }
    }
}

/// The start of a statement whose first token is `token`.
pub open spec fn spec_prefix(toks: Seq<Lexeme>, token: Token, abort: Abort, depth: nat) -> Parsed<
    (PrefixState, Tree),
>
    decreases depth, toks.len(), 2nat,
{
    if depth == 0 {
        (Err(SyntaxError::MaxRecursion), toks)
    } else {
        match Operation::classify(token.category) {
            None => (Err(SyntaxError::UnexpectedToken(token)), toks),
            Some(Operation::Operator(kind)) => match spec_prefix_binding_power(token) {
                Err(e) => (Err(e), toks),
                Ok(bp) => {
                    let right = spec_expression(toks, bp, abort, (depth - 1) as nat);
                    match right.0 {
                        Err(e) => (Err(e), right.1),
                        Ok((end, tree)) => (
                            Ok((PrefixState::of(end), Tree::Operator(kind, seq![tree]))),
                            right.1,
                        ),
                    }
                },
            },
            Some(Operation::Primitive) => (
                Ok((PrefixState::Continue, Tree::Primitive(token))),
                toks,
            ),
            Some(Operation::Variable) => spec_variable(toks, token, depth),
            Some(Operation::Grouping(_)) => spec_grouping(toks, token, depth),
            Some(Operation::Assign(Category::MinusMinus)) => {
                let target = spec_prefix_assign(toks, Category::MinusMinus, token, depth);
                match target.0 {
                    Err(e) => (Err(e), target.1),
                    Ok(tree) => (Ok((PrefixState::Continue, tree)), target.1),
                }
            },
            Some(Operation::Assign(Category::PlusPlus)) => {
                let target = spec_prefix_assign(toks, Category::PlusPlus, token, depth);
                match target.0 {
                    Err(e) => (Err(e), target.1),
                    Ok(tree) => (Ok((PrefixState::Continue, tree)), target.1),
                }
            },
            Some(Operation::Assign(_)) => (Err(SyntaxError::UnexpectedToken(token)), toks),
            Some(Operation::Keyword(keyword)) => spec_keyword(toks, keyword, token, abort, depth),
            Some(Operation::NoOp) => if token.category == Category::Comment {
                (Ok((PrefixState::OpenEnd, Tree::NoOp(Some(token)))), toks)
            } else {
                (Ok((PrefixState::Break(token.category), Tree::NoOp(Some(token)))), toks)
            },
        }
    }
}

/// The operand of a prefix increment or decrement, made into the assignment it stands for.
/// Comments before the operand are passed over.
pub open spec fn spec_prefix_assign(
    toks: Seq<Lexeme>,
    assign: Category,
    token: Token,
    depth: nat,
) -> Parsed<Tree>
    decreases depth, toks.len(), 1nat,
{
    let behind = skip_comments(toks);
    match first(behind) {
        None => (Err(SyntaxError::UnexpectedEnd(Parsing::PrefixStatement)), behind),
        Some(Err(e)) => (Err(SyntaxError::Lexical(e)), behind.skip(1)),
        Some(Ok(next)) => if behind.len() > toks.len() {
            (Err(SyntaxError::MaxRecursion), behind)
        } else {
            let target = spec_variable(behind.skip(1), next, depth);
            match target.0 {
                Err(e) => (Err(e), target.1),
                Ok((_, tree)) => if tree.is_target() {
                    (
                        Ok(
                            Tree::Assign(
                                assign,
                                AssignOrder::AssignReturn,
                                Box::new(tree),
                                Box::new(Tree::NoOp(None)),
                            ),
                        ),
                        target.1,
                    )
                } else {
                    (Err(SyntaxError::UnexpectedToken(token)), target.1)
                },
            }
        },
    }
}

/// A variable, an array element or a call, whose name is `token`.
pub open spec fn spec_variable(toks: Seq<Lexeme>, token: Token, depth: nat) -> Parsed<
    (PrefixState, Tree),
>
    decreases depth, toks.len(), 1nat,
{
    if token.category != Category::Identifier(None) {
        (Err(SyntaxError::UnexpectedToken(token)), toks)
    } else if depth == 0 {
        (Err(SyntaxError::MaxRecursion), toks)
    } else {
        let toks = skip_comments(toks);
        match first(toks) {
            Some(Ok(next)) => if next.category == Category::LeftParen {
                let arguments = spec_comma_group(
                    toks.skip(1),
                    Category::RightParen,
                    Parsing::Arguments,
                    Seq::empty(),
                    (depth - 1) as nat,
                );
                match arguments.0 {
                    Err(e) => (Err(e), arguments.1),
                    Ok(list) => (Ok((PrefixState::Continue, Tree::Call(token, list))), arguments.1),
                }
            } else if next.category == Category::LeftBrace {
                let index = spec_expression(
                    toks.skip(1),
                    0,
                    Abort::at(Category::RightBrace),
                    (depth - 1) as nat,
                );
                match index.0 {
                    Err(e) => (Err(e), index.1),
                    Ok((End::Done(Category::RightBrace), Tree::NoOp(_))) => (
                        Ok((PrefixState::Continue, Tree::Array(token, None))),
                        index.1,
                    ),
                    Ok((End::Done(Category::RightBrace), tree)) => (
                        Ok((PrefixState::Continue, Tree::Array(token, Some(Box::new(tree))))),
                        index.1,
                    ),
                    Ok(_) => (Err(SyntaxError::UnexpectedEnd(Parsing::Index)), index.1),
                }
            } else {
                (Ok((PrefixState::Continue, Tree::Variable(token))), toks)
            },
            _ => (Ok((PrefixState::Continue, Tree::Variable(token))), toks),
        }
    }
}

/// A group whose opening mark is `token`.
pub open spec fn spec_grouping(toks: Seq<Lexeme>, token: Token, depth: nat) -> Parsed<
    (PrefixState, Tree),
>
    decreases depth, toks.len(), 1nat,
{
    if depth == 0 {
        (Err(SyntaxError::MaxRecursion), toks)
    } else if token.category == Category::LeftCurlyBracket {
        let block = spec_block(toks, Seq::empty(), (depth - 1) as nat);
        match block.0 {
            Err(e) => (Err(e), block.1),
            Ok(list) => (
                Ok((PrefixState::Break(Category::RightCurlyBracket), Tree::Block(list))),
                block.1,
            ),
        }
    } else if token.category == Category::LeftParen || token.category == Category::LeftBrace {
        let close = if token.category == Category::LeftParen {
            Category::RightParen
        } else {
            Category::RightBrace
        };
        let inner = spec_expression(toks, 0, Abort::at(close), (depth - 1) as nat);
        match inner.0 {
            Err(e) => (Err(e), inner.1),
            Ok((end, tree)) => if end == End::Done(close) {
                (Ok((PrefixState::Continue, tree)), inner.1)
            } else {
                (Err(SyntaxError::UnexpectedEnd(Parsing::Group)), inner.1)
            },
        }
    } else {
        (Err(SyntaxError::UnexpectedToken(token)), toks)
    }
}

/// Statements up to the `}` that closes the block; `list` holds those read so far. Comments
/// between the statements are passed over.
pub open spec fn spec_block(toks: Seq<Lexeme>, list: Seq<Tree>, depth: nat) -> Parsed<Seq<Tree>>
    decreases depth, toks.len(), 0nat,
{
    if depth == 0 {
        (Err(SyntaxError::MaxRecursion), toks)
    } else {
        match first(toks) {
            None => (Err(SyntaxError::UnexpectedEnd(Parsing::Block)), toks),
            Some(Err(e)) => (Err(SyntaxError::Lexical(e)), toks.skip(1)),
            Some(Ok(token)) => if token.category == Category::Comment {
                spec_block(toks.skip(1), list, depth)
            } else if token.category == Category::RightCurlyBracket {
                (Ok(list), toks.skip(1))
            } else {
                let item = spec_statement(
                    toks,
                    0,
                    Abort::at(Category::Semicolon),
                    (depth - 1) as nat,
                );
                match item.0 {
                    Err(e) => (Err(e), item.1),
                    Ok((end, tree)) => if closes_item(end, tree) && item.1.len() < toks.len() {
                        spec_block(item.1, list.push(tree), depth)
                    } else {
                        (Err(SyntaxError::UnexpectedEnd(Parsing::Block)), item.1)
                    },
                }
            },
        }
    }
}

/// Whether a statement of a block or of a script ended as one must: at a `;`, at the `}` of
/// a block of its own, or, for a comment, nowhere.
pub open spec fn closes_item(end: End, tree: Tree) -> bool {
    match end {
        End::Done(_) => true,
        End::Continue => tree is NoOp,
    }
}

/// Statements separated by commas up to a delimiter of category `end`; `list` holds those
/// read so far.
pub open spec fn spec_comma_group(
    toks: Seq<Lexeme>,
    end: Category,
    context: Parsing,
    list: Seq<Tree>,
    depth: nat,
) -> Parsed<Seq<Tree>>
    decreases depth, toks.len(), 0nat,
{
    if depth == 0 {
        (Err(SyntaxError::MaxRecursion), toks)
    } else {
        match first(toks) {
            None => (Err(SyntaxError::UnexpectedEnd(context)), toks),
            Some(Err(e)) => (Err(SyntaxError::Lexical(e)), toks.skip(1)),
            Some(Ok(token)) => if token.category == Category::Comment {
                spec_comma_group(toks.skip(1), end, context, list, depth)
            } else if token.category == end {
                (Ok(list), toks.skip(1))
            } else {
                let item = spec_statement(toks, 0, Abort::in_list(end), (depth - 1) as nat);
                match item.0 {
                    Err(e) => (Err(e), item.1),
                    Ok((End::Done(category), tree)) => if category == end {
                        (Ok(list.push(tree)), item.1)
                    } else if category == Category::Comma && item.1.len() < toks.len() {
                        spec_comma_group(item.1, end, context, list.push(tree), depth)
                    } else {
                        (Err(SyntaxError::UnexpectedEnd(context)), item.1)
                    },
                    Ok((End::Continue, _)) => (Err(SyntaxError::UnexpectedEnd(context)), item.1),
                }
            },
        }
    }
}

/// The token behind leading comments, if it has the category `expected`; an error otherwise.
pub open spec fn spec_expect(toks: Seq<Lexeme>, expected: Category, context: Parsing) -> Parsed<
    Token,
> {
    let toks = skip_comments(toks);
    match first(toks) {
        None => (Err(SyntaxError::UnexpectedEnd(context)), toks),
        Some(Err(e)) => (Err(SyntaxError::Lexical(e)), toks.skip(1)),
        Some(Ok(token)) => if token.category == expected {
            (Ok(token), toks.skip(1))
        } else {
            (Err(SyntaxError::UnexpectedToken(token)), toks.skip(1))
        },
    }
}

/// A condition between `(` and `)`.
pub open spec fn spec_condition(toks: Seq<Lexeme>, depth: nat) -> Parsed<Tree>
    decreases depth, toks.len(), 0nat,
{
    let open = spec_expect(toks, Category::LeftParen, Parsing::Condition);
    match open.0 {
        Err(e) => (Err(e), open.1),
        Ok(_) => if depth == 0 {
            (Err(SyntaxError::MaxRecursion), open.1)
        } else {
            let inner = spec_expression(
                open.1,
                0,
                Abort::at(Category::RightParen),
                (depth - 1) as nat,
            );
            match inner.0 {
                Err(e) => (Err(e), inner.1),
                Ok((end, tree)) => if end == End::Done(Category::RightParen) {
                    (Ok(tree), inner.1)
                } else {
                    (Err(SyntaxError::UnexpectedEnd(Parsing::Condition)), inner.1)
                },
            }
        },
    }
}

/// The statement that `if`, `else` or `while` runs, with the category that closed it.
pub open spec fn spec_body(toks: Seq<Lexeme>, depth: nat) -> Parsed<(Category, Tree)>
    decreases depth, toks.len(), 0nat,
{
    if depth == 0 {
        (Err(SyntaxError::MaxRecursion), toks)
    } else {
        let body = spec_expression(toks, 0, Abort::at(Category::Semicolon), (depth - 1) as nat);
        match body.0 {
            Err(e) => (Err(e), body.1),
            Ok((End::Done(category), tree)) => (Ok((category, tree)), body.1),
            Ok((End::Continue, _)) => (Err(SyntaxError::UnexpectedEnd(Parsing::Body)), body.1),
        }
    }
}

/// Whether every tree of the list is a variable.
pub open spec fn all_variables(list: Seq<Tree>) -> bool {
    forall|i: int| 0 <= i < list.len() ==> (#[trigger] list[i]) is Variable
}

/// What follows the reserved word `if`: a condition, a statement, and maybe `else` with
/// another statement.
pub open spec fn spec_if(toks: Seq<Lexeme>, depth: nat) -> Parsed<(PrefixState, Tree)>
    decreases depth, toks.len(), 0nat,
{
    if depth == 0 {
        (Err(SyntaxError::MaxRecursion), toks)
    } else {
        let below = (depth - 1) as nat;
        let condition = spec_condition(toks, below);
        match condition.0 {
            Err(e) => (Err(e), condition.1),
            Ok(test) => {
                let body = spec_body(condition.1, below);
                match body.0 {
                    Err(e) => (Err(e), body.1),
                    Ok((closed, then)) => {
                        let behind = skip_comments(body.1);
                        if behind.len() > 0 && is_token(
                            behind[0],
                            Category::Identifier(Some(Keyword::Else)),
                        ) {
                            let other = spec_body(behind.skip(1), below);
                            match other.0 {
                                Err(e) => (Err(e), other.1),
                                Ok((closed, otherwise)) => (
                                    Ok(
                                        (
                                            PrefixState::Break(closed),
                                            Tree::If(
                                                Box::new(test),
                                                Box::new(then),
                                                Some(Box::new(otherwise)),
                                            ),
                                        ),
                                    ),
                                    other.1,
                                ),
                            }
                        } else {
                            (
                                Ok(
                                    (
                                        PrefixState::Break(closed),
                                        Tree::If(Box::new(test), Box::new(then), None),
                                    ),
                                ),
                                behind,
                            )
                        }
                    },
                }
            },
        }
    }
}

/// What follows the reserved word `while`: a condition and a statement.
pub open spec fn spec_while(toks: Seq<Lexeme>, depth: nat) -> Parsed<(PrefixState, Tree)>
    decreases depth, toks.len(), 0nat,
{
    if depth == 0 {
        (Err(SyntaxError::MaxRecursion), toks)
    } else {
        let below = (depth - 1) as nat;
        let condition = spec_condition(toks, below);
        match condition.0 {
            Err(e) => (Err(e), condition.1),
            Ok(test) => {
                let body = spec_body(condition.1, below);
                match body.0 {
                    Err(e) => (Err(e), body.1),
                    Ok((closed, tree)) => (
                        Ok((PrefixState::Break(closed), Tree::While(Box::new(test), Box::new(tree)))),
                        body.1,
                    ),
                }
            },
        }
    }
}

/// What follows the reserved word `function`, which `token` holds: a name, the parameters
/// between `(` and `)`, and a block.
pub open spec fn spec_function(toks: Seq<Lexeme>, token: Token, depth: nat) -> Parsed<
    (PrefixState, Tree),
>
    decreases depth, toks.len(), 0nat,
{
    if depth == 0 {
        (Err(SyntaxError::MaxRecursion), toks)
    } else {
        let below = (depth - 1) as nat;
        let name = spec_expect(toks, Category::Identifier(None), Parsing::Function);
        match name.0 {
            Err(e) => (Err(e), name.1),
            Ok(name_token) => {
                let open = spec_expect(name.1, Category::LeftParen, Parsing::Function);
                match open.0 {
                    Err(e) => (Err(e), open.1),
                    Ok(_) => {
                        let parameters = spec_comma_group(
                            open.1,
                            Category::RightParen,
                            Parsing::Arguments,
                            Seq::empty(),
                            below,
                        );
                        match parameters.0 {
                            Err(e) => (Err(e), parameters.1),
                            Ok(list) => if !all_variables(list) {
                                (Err(SyntaxError::UnexpectedToken(token)), parameters.1)
                            } else {
                                let brace = spec_expect(
                                    parameters.1,
                                    Category::LeftCurlyBracket,
                                    Parsing::Function,
                                );
                                match brace.0 {
                                    Err(e) => (Err(e), brace.1),
                                    Ok(_) => {
                                        let block = spec_block(brace.1, Seq::empty(), below);
                                        match block.0 {
                                            Err(e) => (Err(e), block.1),
                                            Ok(body) => (
                                                Ok(
                                                    (
                                                        PrefixState::Break(Category::RightCurlyBracket),
                                                        Tree::FunctionDeclaration(
                                                            name_token,
                                                            list,
                                                            Box::new(Tree::Block(body)),
                                                        ),
                                                    ),
                                                ),
                                                block.1,
                                            ),
                                        }
                                    },
                                }
                            },
                        }
                    },
                }
            },
        }
    }
}

/// What follows `local_var` or `global_var`, which `token` holds: names separated by commas
/// up to a `;`.
pub open spec fn spec_declare(
    toks: Seq<Lexeme>,
    scope: DeclareScope,
    token: Token,
    depth: nat,
) -> Parsed<(PrefixState, Tree)>
    decreases depth, toks.len(), 0nat,
{
    if depth == 0 {
        (Err(SyntaxError::MaxRecursion), toks)
    } else {
        let below = (depth - 1) as nat;
        let names = spec_comma_group(
            toks,
            Category::Semicolon,
            Parsing::Declaration,
            Seq::empty(),
            below,
        );
        match names.0 {
            Err(e) => (Err(e), names.1),
            Ok(list) => if all_variables(list) {
                (Ok((PrefixState::Break(Category::Semicolon), Tree::Declare(scope, list))), names.1)
            } else {
                (Err(SyntaxError::UnexpectedToken(token)), names.1)
            },
        }
    }
}

/// A statement that starts with the reserved word `keyword`, which `token` holds.
pub open spec fn spec_keyword(
    toks: Seq<Lexeme>,
    keyword: Keyword,
    token: Token,
    abort: Abort,
    depth: nat,
) -> Parsed<(PrefixState, Tree)>
    decreases depth, toks.len(), 1nat,
{
    if depth == 0 {
        (Err(SyntaxError::MaxRecursion), toks)
    } else {
        let below = (depth - 1) as nat;
        match keyword {
            Keyword::If => spec_if(toks, depth),
            Keyword::While => spec_while(toks, depth),
            Keyword::Include => {
                let name = spec_condition(toks, below);
                match name.0 {
                    Err(e) => (Err(e), name.1),
                    Ok(tree) => (
                        Ok((PrefixState::Continue, Tree::Include(Box::new(tree)))),
                        name.1,
                    ),
                }
            },
            Keyword::Function => spec_function(toks, token, depth),
            Keyword::Return => {
                let value = spec_expression(toks, 0, abort, below);
                match value.0 {
                    Err(e) => (Err(e), value.1),
                    Ok((end, tree)) => (
                        Ok((PrefixState::of(end), Tree::Return(Box::new(tree)))),
                        value.1,
                    ),
                }
            },
            Keyword::Break => (Ok((PrefixState::Continue, Tree::Break)), toks),
            Keyword::Continue => (Ok((PrefixState::Continue, Tree::Continue)), toks),
            Keyword::LocalVar => spec_declare(toks, DeclareScope::Local, token, depth),
            Keyword::GlobalVar => spec_declare(toks, DeclareScope::Global, token, depth),
            Keyword::Else | Keyword::Null | Keyword::True | Keyword::False => (
                Err(SyntaxError::UnexpectedToken(token)),
                toks,
            ),
        }
    }
}

/// The comments among the lexemes, in their order.
pub open spec fn comments_in(lexemes: Seq<Lexeme>) -> Seq<Token>
    decreases lexemes.len(),
{
    if lexemes.len() == 0 {
        Seq::empty()
    } else {
        let before = comments_in(lexemes.drop_last());
        if is_token(lexemes.last(), Category::Comment) {
            before.push(lexemes.last()->Ok_0)
        } else {
            before
        }
    }
}

/// The lexemes that were read: those of `toks` that are no longer in `rest`.
pub open spec fn passed(toks: Seq<Lexeme>, rest: Seq<Lexeme>) -> Seq<Lexeme> {
    if rest.len() <= toks.len() {
        toks.take(toks.len() - rest.len())
    } else {
        Seq::empty()
    }
}

/// Whether the tree is a comment that stands as a statement of its own.
pub open spec fn is_comment(tree: Tree) -> bool {
    match tree {
        Tree::NoOp(Some(token)) => token.category == Category::Comment,
        _ => false,
    }
}

/// The comments that were passed over while a statement was read and that no tree holds:
/// all comments among the lexemes that were read, unless the statement is a comment itself.
pub open spec fn hoisted(
    toks: Seq<Lexeme>,
    rest: Seq<Lexeme>,
    result: Result<(End, Tree), SyntaxError>,
) -> Seq<Token> {
    match result {
        Ok((_, tree)) => if is_comment(tree) {
            Seq::empty()
        } else {
            comments_in(passed(toks, rest))
        },
        Err(_) => comments_in(passed(toks, rest)),
    }
}

/// There are no more comments among lexemes than there are lexemes.
pub proof fn lemma_comments_in(lexemes: Seq<Lexeme>)
    ensures
        comments_in(lexemes).len() <= lexemes.len(),
    decreases lexemes.len(),
{
    if lexemes.len() > 0 {
        lemma_comments_in(lexemes.drop_last());
    }
}

/// The next statement of a script. `held` holds the comments that were passed over inside
/// the statements before and are still to be handed out; `toks` holds the lexemes that are
/// still to be read. The result is `None` where neither is left. A comment that is held
/// comes first, as a statement of its own. Else the next statement is read: the result is
/// its tree or the error it ends in, the comments that were passed over inside it, and the
/// lexemes behind it.
pub open spec fn spec_next(held: Seq<Token>, toks: Seq<Lexeme>) -> Option<
    (Result<Tree, SyntaxError>, Seq<Token>, Seq<Lexeme>),
> {
    if held.len() > 0 {
        Some((Ok(Tree::NoOp(Some(held[0]))), held.skip(1), toks))
    } else if toks.len() == 0 {
        None
    } else {
        let item = spec_statement(toks, 0, Abort::at(Category::Semicolon), MAX_DEPTH as nat);
        let comments = hoisted(toks, item.1, item.0);
        match item.0 {
            Err(e) => Some((Err(e), comments, item.1)),
            Ok((end, tree)) => if closes_item(end, tree) {
                Some((Ok(tree), comments, item.1))
            } else {
                Some((Err(SyntaxError::UnexpectedEnd(Parsing::Statement)), comments, item.1))
            },
        }
    }
}

} // verus!
