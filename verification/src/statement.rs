//! The statement tree that the parser builds, and the errors it reports.
use crate::token::{Category, Token};
use crate::tokenizer::LexError;
use vstd::prelude::*;

verus! {

/// Which value an assignment yields.
#[derive(Clone, Copy, Debug, PartialEq, Eq, Structural)]
pub enum AssignOrder {
    /// Assign first, then yield the new value.
    AssignReturn,
    /// Yield the old value, then assign.
    ReturnAssign,
}

/// Where a declaration puts its names.
#[derive(Clone, Copy, Debug, PartialEq, Eq, Structural)]
pub enum DeclareScope {
    /// The scope of the whole script.
    Global,
    /// The innermost scope.
    Local,
}

/// What the parser was reading when the script gave out or its parts did not fit.
#[derive(Clone, Copy, Debug, PartialEq, Eq, Structural)]
pub enum Parsing {
    /// A statement.
    Statement,
    /// The operand of a prefix increment or decrement.
    PrefixStatement,
    /// A group between `(` and `)` or between `[` and `]`.
    Group,
    /// The statements between `{` and `}`.
    Block,
    /// The index of an array element.
    Index,
    /// The arguments of a call or the parameters of a function.
    Arguments,
    /// The names of a declaration.
    Declaration,
    /// The condition of `if` or `while`, or the name behind `include`.
    Condition,
    /// The statement that `if`, `else` or `while` runs.
    Body,
    /// The head of a function declaration.
    Function,
}

/// What is wrong with the structure of a script.
#[derive(Clone, Copy, Debug, PartialEq, Eq)]
pub enum SyntaxError {
    /// A token stands where it cannot.
    UnexpectedToken(Token),
    /// The script, or a part of it, ended too early.
    UnexpectedEnd(Parsing),
    /// Statements are nested more deeply than the parser follows.
    MaxRecursion,
    /// The text is no sequence of tokens.
    Lexical(LexError),
}

/// How a parsed statement ended.
#[derive(Clone, Copy, Debug, PartialEq, Eq, Structural)]
pub enum End {
    /// A delimiter of the given category closed the statement.
    Done(Category),
    /// No delimiter was met.
    Continue,
}

/// What the caller of the prefix handler does next.
#[derive(Clone, Copy, Debug, PartialEq, Eq, Structural)]
pub enum PrefixState {
    /// Go on with postfix and infix operators.
    Continue,
    /// The statement is a comment: it is complete, and nothing closed it.
    OpenEnd,
    /// The statement is complete; a delimiter of the given category closed it.
    Break(Category),
}

impl PrefixState {
    /// The state that passes on how a nested statement ended.
    pub open spec fn of(end: End) -> PrefixState {
        match end {
            End::Done(category) => PrefixState::Break(category),
            End::Continue => PrefixState::Continue,
        }
    }

    /// The state that passes on how a nested statement ended.
    pub fn from_end(end: End) -> (r: PrefixState)
        ensures
            r == PrefixState::of(end),
    {
        match end {
            End::Done(category) => PrefixState::Break(category),
            End::Continue => PrefixState::Continue,
        }
    }
}

/// A node of the statement tree.
#[derive(Debug, PartialEq, Eq)]
pub enum Statement {
    /// A literal.
    Primitive(Token),
    /// A variable.
    Variable(Token),
    /// An array variable with the index of an element, or without for the whole array.
    Array(Token, Option<Box<Statement>>),
    /// A call of a function with its arguments.
    Call(Token, Vec<Statement>),
    /// An argument that is passed by name.
    NamedParameter(Token, Box<Statement>),
    /// An operator with one or two operands.
    Operator(Category, Vec<Statement>),
    /// An assignment to a variable or an array element.
    Assign(Category, AssignOrder, Box<Statement>, Box<Statement>),
    /// An empty statement, a comment or a delimiter.
    NoOp(Option<Token>),
    /// Statements between `{` and `}`.
    Block(Vec<Statement>),
    /// A condition, the statement to run when it holds, and the one to run when it does not.
    If(Box<Statement>, Box<Statement>, Option<Box<Statement>>),
    /// A condition and the statement to run while it holds.
    While(Box<Statement>, Box<Statement>),
    /// The name of a script to run in place.
    Include(Box<Statement>),
    /// Names to declare in a scope.
    Declare(DeclareScope, Vec<Statement>),
    /// A function with its name, its parameters and its body.
    FunctionDeclaration(Token, Vec<Statement>, Box<Statement>),
    /// Leaves a function with a value.
    Return(Box<Statement>),
    /// Leaves the innermost loop.
    Break,
    /// Starts the next round of the innermost loop.
    Continue,
}

/// The mathematical model of a [`Statement`].
pub enum Tree {
    /// A literal.
    Primitive(Token),
    /// A variable.
    Variable(Token),
    /// An array variable with the index of an element, or without for the whole array.
    Array(Token, Option<Box<Tree>>),
    /// A call of a function with its arguments.
    Call(Token, Seq<Tree>),
    /// An argument that is passed by name.
    NamedParameter(Token, Box<Tree>),
    /// An operator with one or two operands.
    Operator(Category, Seq<Tree>),
    /// An assignment to a variable or an array element.
    Assign(Category, AssignOrder, Box<Tree>, Box<Tree>),
    /// An empty statement, a comment or a delimiter.
    NoOp(Option<Token>),
    /// Statements between `{` and `}`.
    Block(Seq<Tree>),
    /// A condition, the statement to run when it holds, and the one to run when it does not.
    If(Box<Tree>, Box<Tree>, Option<Box<Tree>>),
    /// A condition and the statement to run while it holds.
    While(Box<Tree>, Box<Tree>),
    /// The name of a script to run in place.
    Include(Box<Tree>),
    /// Names to declare in a scope.
    Declare(DeclareScope, Seq<Tree>),
    /// A function with its name, its parameters and its body.
    FunctionDeclaration(Token, Seq<Tree>, Box<Tree>),
    /// Leaves a function with a value.
    Return(Box<Tree>),
    /// Leaves the innermost loop.
    Break,
    /// Starts the next round of the innermost loop.
    Continue,
}

impl Tree {
    /// Whether the tree can stand on the left of an assignment.
    pub open spec fn is_target(self) -> bool {
        self is Variable || self is Array
    }

    /// Whether every assignment in the tree assigns to a variable or to an array element.
    pub open spec fn sound(self) -> bool
        decreases self,
    {
        match self {
            Tree::Primitive(_)
            | Tree::Variable(_)
            | Tree::NoOp(_)
            | Tree::Break
            | Tree::Continue => true,
            Tree::Array(_, None) => true,
            Tree::Array(_, Some(index)) => index.sound(),
            Tree::Call(_, list) => Tree::all_sound(list),
            Tree::NamedParameter(_, value) => value.sound(),
            Tree::Operator(_, list) => Tree::all_sound(list),
            Tree::Assign(_, _, target, value) => target.is_target() && target.sound()
                && value.sound(),
            Tree::Block(list) => Tree::all_sound(list),
            Tree::If(condition, then, None) => condition.sound() && then.sound(),
            Tree::If(condition, then, Some(otherwise)) => condition.sound() && then.sound()
                && otherwise.sound(),
            Tree::While(condition, body) => condition.sound() && body.sound(),
            Tree::Include(name) => name.sound(),
            Tree::Declare(_, list) => Tree::all_sound(list),
            Tree::FunctionDeclaration(_, list, body) => Tree::all_sound(list) && body.sound(),
            Tree::Return(value) => value.sound(),
        }
    }

    /// Whether every assignment in the trees of the list assigns to a variable or to an array
    /// element.
    pub open spec fn all_sound(list: Seq<Tree>) -> bool
        decreases list,
    {
        forall|i: int| 0 <= i < list.len() ==> (#[trigger] list[i]).sound()
    }
}

impl Statement {
    /// The tree that the statement stands for.
    pub open spec fn view(&self) -> Tree
        decreases self,
    {
        match self {
            Statement::Primitive(t) => Tree::Primitive(*t),
            Statement::Variable(t) => Tree::Variable(*t),
            Statement::Array(t, None) => Tree::Array(*t, None),
            Statement::Array(t, Some(i)) => Tree::Array(*t, Some(Box::new(i@))),
            Statement::Call(t, v) => Tree::Call(*t, Statement::views(v)),
            Statement::NamedParameter(t, s) => Tree::NamedParameter(*t, Box::new(s@)),
            Statement::Operator(c, v) => Tree::Operator(*c, Statement::views(v)),
            Statement::Assign(c, o, a, b) => Tree::Assign(*c, *o, Box::new(a@), Box::new(b@)),
            Statement::NoOp(t) => Tree::NoOp(*t),
            Statement::Block(v) => Tree::Block(Statement::views(v)),
            Statement::If(c, a, None) => Tree::If(Box::new(c@), Box::new(a@), None),
            Statement::If(c, a, Some(b)) => Tree::If(
                Box::new(c@),
                Box::new(a@),
                Some(Box::new(b@)),
            ),
            Statement::While(c, b) => Tree::While(Box::new(c@), Box::new(b@)),
            Statement::Include(s) => Tree::Include(Box::new(s@)),
            Statement::Declare(s, v) => Tree::Declare(*s, Statement::views(v)),
            Statement::FunctionDeclaration(t, v, b) => Tree::FunctionDeclaration(
                *t,
                Statement::views(v),
                Box::new(b@),
            ),
            Statement::Return(s) => Tree::Return(Box::new(s@)),
            Statement::Break => Tree::Break,
            Statement::Continue => Tree::Continue,
        }
    }

    /// The trees that the statements of a list stand for.
    pub open spec fn views(list: &Vec<Statement>) -> Seq<Tree>
        decreases list,
    {
        Seq::new(
            list.len() as nat,
            |i: int|
                if 0 <= i < list.len() {
                    list[i]@
                } else {
                    Tree::Break
                },
        )
    }

    /// Whether the statement can stand on the left of an assignment.
    pub fn is_target(&self) -> (r: bool)
        ensures
            r == self@.is_target(),
    {
        match self {
            Statement::Variable(_) => true,
            Statement::Array(_, _) => true,
            _ => false,
        }
    }
}

impl Statement {
    /// A copy of a list of statements.
    pub fn clone_list(list: &Vec<Statement>) -> (r: Vec<Statement>)
        ensures
            Statement::views(&r) == Statement::views(list),
        decreases list,
    {
        let mut copy: Vec<Statement> = Vec::new();
        let mut i: usize = 0;
        while i < list.len()
            invariant
                0 <= i <= list.len(),
                copy.len() == i,
                forall|j: int| 0 <= j < i ==> copy[j]@ == list[j]@,
            decreases list.len() - i,
        {
            let item = list[i].clone();
            copy.push(item);
            i = i + 1;
        }
        assert(Statement::views(&copy) =~= Statement::views(list));
        copy
    }
}

impl Clone for Statement {
    /// A copy that stands for the same tree.
    fn clone(&self) -> (r: Self)
        ensures
            r@ == self@,
        decreases self,
    {
        match self {
            Statement::Primitive(token) => Statement::Primitive(*token),
            Statement::Variable(token) => Statement::Variable(*token),
            Statement::Array(token, None) => Statement::Array(*token, None),
            Statement::Array(token, Some(index)) => {
                let index = (**index).clone();
                Statement::Array(*token, Some(Box::new(index)))
            },
            Statement::Call(token, list) => Statement::Call(*token, Statement::clone_list(list)),
            Statement::NamedParameter(token, value) => {
                let value = (**value).clone();
                Statement::NamedParameter(*token, Box::new(value))
            },
            Statement::Operator(category, list) => Statement::Operator(
                *category,
                Statement::clone_list(list),
            ),
            Statement::Assign(category, order, target, value) => {
                let target = (**target).clone();
                let value = (**value).clone();
                Statement::Assign(*category, *order, Box::new(target), Box::new(value))
            },
            Statement::NoOp(token) => Statement::NoOp(*token),
            Statement::Block(list) => Statement::Block(Statement::clone_list(list)),
            Statement::If(condition, then, None) => {
                let condition = (**condition).clone();
                let then = (**then).clone();
                Statement::If(Box::new(condition), Box::new(then), None)
            },
            Statement::If(condition, then, Some(otherwise)) => {
                let condition = (**condition).clone();
                let then = (**then).clone();
                let otherwise = (**otherwise).clone();
                Statement::If(Box::new(condition), Box::new(then), Some(Box::new(otherwise)))
            },
            Statement::While(condition, body) => {
                let condition = (**condition).clone();
                let body = (**body).clone();
                Statement::While(Box::new(condition), Box::new(body))
            },
            Statement::Include(name) => {
                let name = (**name).clone();
                Statement::Include(Box::new(name))
            },
            Statement::Declare(scope, list) => Statement::Declare(
                *scope,
                Statement::clone_list(list),
            ),
            Statement::FunctionDeclaration(token, list, body) => {
                let body = (**body).clone();
                Statement::FunctionDeclaration(
                    *token,
                    Statement::clone_list(list),
                    Box::new(body),
                )
            },
            Statement::Return(value) => {
                let value = (**value).clone();
                Statement::Return(Box::new(value))
            },
            Statement::Break => Statement::Break,
            Statement::Continue => Statement::Continue,
        }
    }
}

} // verus!
