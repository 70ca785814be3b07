//! Templates: text with blocks of code that decide what of it is shown.
//!
//! A template is text. Between `<%` and `%>` stands code: `if`, `else` and
//! `end` choose between parts of the text, and a block that starts with `<%=`
//! stands for the value of its expression.
pub mod context;
pub mod error;
pub mod language;
pub mod tokenizer;

pub use context::Context;
pub use error::Error;
pub use language::{Constant, Expression, Op, Program, Statement, Term, Tokens};
pub use tokenizer::{Token, TokenWithContext, Tokenize};
