pub mod arithmetic;
pub mod builtins;
pub mod compare;
pub mod conversion;
pub mod display;
pub mod environment;
pub mod eval;
pub mod frames;
pub mod host;
pub mod laws;
pub mod lexer;
pub mod list;
pub mod misc;
pub mod node;
pub mod parser;
pub mod pattern;
pub mod random;
pub mod semantics;
pub mod stability;
pub mod sequence;
pub mod string;
pub mod text;
pub mod time;
pub mod tree;

pub use builtins::create_environment;
pub use environment::Environment;
pub use eval::{apply, eval, eval_with, EvalError};
pub use host::{NativeHost, NoHost};
pub use lexer::{tokenize, ParseError, Token};
pub use node::{Builtin, Node};
pub use parser::parse;
