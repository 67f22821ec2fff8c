//! Front end and evaluator of a scripting language for network vulnerability tests.
//!
//! A script goes through four stages, each of which is a module of its own:
//!
//! * [`tokenizer`] turns the text into position-tagged tokens ([`token`]);
//! * [`lexer`], with the handlers in [`prefix_extension`], [`variable_extension`],
//!   [`grouping_extension`] and [`keyword_extension`], builds statement trees ([`statement`])
//!   by precedence climbing, guided by the parse roles of [`operation`];
//! * [`interpreter`] walks the trees and computes values ([`value`]) against the scopes of a
//!   [`register`] and the [`context`] of the run, calling [`built_in_functions`] by name.
//!
//! Every stage has a mathematical model: [`tokenizer::lex`] for the tokens of a text,
//! [`grammar`] for the tree of a sequence of tokens, and [`semantics`] for the meaning of a
//! tree. The executable code is proved to compute these models, and [`laws`] holds what is
//! proved of the models themselves.
//!
//! [`api_error`] and [`scanner_parameter`] hold what the management interface of a scanner
//! shares with the library.
pub mod api_error;
pub mod built_in_functions;
pub mod context;
pub mod error;
pub mod grammar;
pub mod grouping_extension;
pub mod interpreter;
pub mod keyword_extension;
pub mod laws;
pub mod lexer;
pub mod operation;
pub mod operator;
pub mod prefix_extension;
pub mod register;
pub mod scanner_parameter;
pub mod semantics;
pub mod statement;
pub mod text;
pub mod token;
pub mod tokenizer;
pub mod value;
pub mod variable_extension;

pub use built_in_functions::lookup;
pub use context::{Context, NativeFunction};
pub use error::{FunctionErrorKind, InterpretError, LoadError};
pub use interpreter::{CodeInterpreter, Interpreter};
pub use lexer::{parse, Lexer};
pub use register::{ContextType, NaslContext, Register};
pub use statement::{Statement, SyntaxError};
pub use token::{Category, Token};
pub use value::NaslValue;
