//! An interpreter core for a small object-pipeline scripting language:
//! tokenizer, parser, value model, variable scopes and evaluator.

pub mod text;
pub mod number;
pub mod token;
pub mod lexer;
pub mod ast;
pub mod parser;
pub mod value;
pub mod error;
pub mod scope;
pub mod cmdlet;
pub mod semantics;
pub mod evaluator;
pub mod cmdlets;

pub use ast::{
    Argument, BinaryOperator, Block, Expression, HashEntry, Literal, Parameter, Pipeline, Program, Statement,
    UnaryOperator,
};
pub use cmdlet::{Cmdlet, CmdletContext, CmdletRegistry, CmdletStep, NameTable};
pub use cmdlets::register_all;
pub use error::RuntimeError;
pub use evaluator::{Evaluator, PipelineExecutor};
pub use lexer::{LexError, Lexer};
pub use number::Number;
pub use parser::{ParseError, Parser};
pub use scope::{Scope, ScopeStack};
pub use token::{LocatedToken, Position, StringPart, Token};
pub use value::{Property, Value};
