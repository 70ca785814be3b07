//! What can be wrong with a template.
use vstd::prelude::*;
use super::tokenizer::{TokenWithContext, TokenWithContextView};

verus! {

/// What can be wrong with a template.
#[derive(Debug, PartialEq, Eq)]
pub enum Error {
    /// A token that cannot stand where it stands.
    Syntax(TokenWithContext),
    /// The template ends where something must follow.
    Eof,
    /// What stands at this place of the source, counted in characters from
    /// zero, is no token.
    UnknownToken(usize),
    /// The context has no variable of this name.
    UndefinedVariable(String),
    /// A statement of this kind cannot be evaluated.
    Unsupported(&'static str),
}

/// What an [`Error`] holds.
pub enum ErrorView {
    Syntax(TokenWithContextView),
    Eof,
    UnknownToken(usize),
    UndefinedVariable(Seq<char>),
    Unsupported(Seq<char>),
}

impl View for Error {
    type V = ErrorView;

    open spec fn view(&self) -> ErrorView {
        match self {
            Error::Syntax(token) => ErrorView::Syntax(token@),
            Error::Eof => ErrorView::Eof,
            Error::UnknownToken(at) => ErrorView::UnknownToken(*at),
            Error::UndefinedVariable(name) => ErrorView::UndefinedVariable(name@),
            Error::Unsupported(what) => ErrorView::Unsupported(what@),
        }
    }
}

} // verus!
