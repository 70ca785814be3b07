//! The language of the blocks of a template.
use vstd::prelude::*;
use super::context::{value_of, Context, ContextView};
use super::error::{Error, ErrorView};
use super::tokenizer::{token_views, Token, TokenView, TokenWithContext, TokenWithContextView};
use crate::text::{push_signed_decimal, same_text, signed_decimal};

pub mod program;
pub mod statement;

pub use program::Program;
pub use statement::Statement;

verus! {

/// A value that an expression can have.
#[derive(Debug, PartialEq, Eq)]
pub enum Constant {
    Integer(i64),
    String(String),
    Boolean(bool),
    Null,
}

/// What a [`Constant`] holds.
pub enum ConstantView {
    Integer(i64),
    String(Seq<char>),
    Boolean(bool),
    Null,
}

impl View for Constant {
    type V = ConstantView;

    open spec fn view(&self) -> ConstantView {
        match self {
            Constant::Integer(i) => ConstantView::Integer(*i),
            Constant::String(s) => ConstantView::String(s@),
            Constant::Boolean(b) => ConstantView::Boolean(*b),
            Constant::Null => ConstantView::Null,
        }
    }
}

impl Clone for Constant {
    fn clone(&self) -> (r: Self)
        ensures
            r@ == self@,
    {
        match self {
            Constant::Integer(i) => Constant::Integer(*i),
            Constant::String(s) => Constant::String(s.clone()),
            Constant::Boolean(b) => Constant::Boolean(*b),
            Constant::Null => Constant::Null,
        }
    }
}

/// How the boolean that is true is written.
pub open spec fn true_word() -> Seq<char> {
    "true"@
}

/// How the boolean that is false is written.
pub open spec fn false_word() -> Seq<char> {
    "false"@
}

impl ConstantView {
    /// Whether the value counts as true: a boolean that is true, an integer
    /// that is not zero, text that is not empty.
    pub open spec fn truthy(self) -> bool {
        match self {
            ConstantView::Integer(i) => i != 0,
            ConstantView::String(s) => s.len() > 0,
            ConstantView::Boolean(b) => b,
            ConstantView::Null => false,
        }
    }

    /// The value as text: the numeral of an integer, text as it is, `true`
    /// or `false`, and nothing for null.
    pub open spec fn text(self) -> Seq<char> {
        match self {
            ConstantView::Integer(i) => signed_decimal(i as int),
            ConstantView::String(s) => s,
            ConstantView::Boolean(b) => if b {
                true_word()
            } else {
                false_word()
            },
            ConstantView::Null => Seq::empty(),
        }
    }
}

impl Constant {
    /// Whether the value counts as true.
    pub fn truthy(&self) -> (r: bool)
        ensures
            r == self@.truthy(),
    {
        match self {
            Constant::Integer(i) => *i != 0,
            Constant::String(s) => s.as_str().unicode_len() > 0,
            Constant::Boolean(b) => *b,
            Constant::Null => false,
        }
    }

    /// The value as text.
    pub fn to_string(&self) -> (r: String)
        ensures
            r@ == self@.text(),
    {
        match self {
            Constant::Integer(i) => {
                let mut out = String::new();
                push_signed_decimal(&mut out, *i);
                out
            },
            Constant::String(s) => s.clone(),
            Constant::Boolean(b) => if *b {
                String::from_str("true")
            } else {
                String::from_str("false")
            },
            Constant::Null => String::new(),
        }
    }

    /// Whether two values are the same value.
    pub fn same(&self, other: &Constant) -> (r: bool)
        ensures
            r == (self@ == other@),
    {
        match (self, other) {
            (Constant::Integer(a), Constant::Integer(b)) => *a == *b,
            (Constant::String(a), Constant::String(b)) => crate::text::same_text(
                a.as_str(),
                b.as_str(),
            ),
            (Constant::Boolean(a), Constant::Boolean(b)) => *a == *b,
            (Constant::Null, Constant::Null) => true,
            _ => false,
        }
    }
}

/// A value, or the name of a variable that has one.
#[derive(Debug, PartialEq, Eq)]
pub enum Term {
    Constant(Constant),
    Variable(String),
}

/// What a [`Term`] holds.
pub enum TermView {
    Constant(ConstantView),
    Variable(Seq<char>),
}

impl View for Term {
    type V = TermView;

    open spec fn view(&self) -> TermView {
        match self {
            Term::Constant(constant) => TermView::Constant(constant@),
            Term::Variable(name) => TermView::Variable(name@),
        }
    }
}

impl Clone for Term {
    fn clone(&self) -> (r: Self)
        ensures
            r@ == self@,
    {
        match self {
            Term::Constant(constant) => Term::Constant(constant.clone()),
            Term::Variable(name) => Term::Variable(name.clone()),
        }
    }
}

/// How two terms are compared.
#[derive(Debug, Clone, Copy, PartialEq, Eq)]
pub enum Op {
    Equals,
    NotEquals,
}

/// A term, or the comparison of two terms.
#[derive(Debug, PartialEq, Eq)]
pub enum Expression {
    Term(Term),
    Binary { left: Term, op: Op, right: Term },
}

/// What an [`Expression`] holds.
pub enum ExpressionView {
    Term(TermView),
    Binary { left: TermView, op: Op, right: TermView },
}

impl View for Expression {
    type V = ExpressionView;

    open spec fn view(&self) -> ExpressionView {
        match self {
            Expression::Term(term) => ExpressionView::Term(term@),
            Expression::Binary { left, op, right } => ExpressionView::Binary {
                left: left@,
                op: *op,
                right: right@,
            },
        }
    }
}

impl Clone for Expression {
    fn clone(&self) -> (r: Self)
        ensures
            r@ == self@,
    {
        match self {
            Expression::Term(term) => Expression::Term(term.clone()),
            Expression::Binary { left, op, right } => Expression::Binary {
                left: left.clone(),
                op: *op,
                right: right.clone(),
            },
        }
    }
}

/// What was read from the tokens: a value and the position after it, or an
/// error.
pub enum Parsed<T> {
    Read { value: T, next: int },
    Failed { error: ErrorView },
}

/// How the value that is none is written.
pub open spec fn null_word() -> Seq<char> {
    "null"@
}

/// The term that a token is, if it is one: a number, text between quotes,
/// `true`, `false` or `null`, or the name of a variable.
pub open spec fn term_of(token: TokenView) -> Option<TermView> {
    match token {
        TokenView::Integer(i) => Some(TermView::Constant(ConstantView::Integer(i))),
        TokenView::String(s) => Some(TermView::Constant(ConstantView::String(s))),
        TokenView::Variable(name) => Some(
            if name == true_word() {
                TermView::Constant(ConstantView::Boolean(true))
            } else if name == false_word() {
                TermView::Constant(ConstantView::Boolean(false))
            } else if name == null_word() {
                TermView::Constant(ConstantView::Null)
            } else {
                TermView::Variable(name)
            },
        ),
        _ => None,
    }
}

/// The comparison that a token is, if it is one.
pub open spec fn op_of(token: TokenView) -> Option<Op> {
    match token {
        TokenView::Equals => Some(Op::Equals),
        TokenView::NotEquals => Some(Op::NotEquals),
        _ => None,
    }
}

/// The expression that starts at `pos`: a term, and where a comparison
/// follows it, the term after the comparison too.
pub open spec fn expression_at(tokens: Seq<TokenWithContextView>, pos: int) -> Parsed<
    ExpressionView,
> {
    if pos < 0 || pos >= tokens.len() {
        Parsed::Failed { error: ErrorView::Eof }
    } else {
        match term_of(tokens[pos].token) {
            None => Parsed::Failed { error: ErrorView::Syntax(tokens[pos]) },
            Some(left) => if pos + 1 < tokens.len() && op_of(tokens[pos + 1].token) is Some {
                if pos + 2 >= tokens.len() {
                    Parsed::Failed { error: ErrorView::Eof }
                } else {
                    match term_of(tokens[pos + 2].token) {
                        None => Parsed::Failed { error: ErrorView::Syntax(tokens[pos + 2]) },
                        Some(right) => Parsed::Read {
                            value: ExpressionView::Binary {
                                left,
                                op: op_of(tokens[pos + 1].token)->0,
                                right,
                            },
                            next: pos + 3,
                        },
                    }
                }
            } else {
                Parsed::Read { value: ExpressionView::Term(left), next: pos + 1 }
            },
        }
    }
}

/// The value of a term: its constant, or the value of its variable. A
/// variable that the context does not have is an error.
pub open spec fn term_value(term: TermView, context: ContextView) -> Result<
    ConstantView,
    ErrorView,
> {
    match term {
        TermView::Constant(constant) => Ok(constant),
        TermView::Variable(name) => match value_of(context, name) {
            Some(value) => Ok(value),
            None => Err(ErrorView::UndefinedVariable(name)),
        },
    }
}

/// The value of an expression: that of its term, or whether its two terms
/// have the same value, or not the same.
pub open spec fn expression_value(expression: ExpressionView, context: ContextView) -> Result<
    ConstantView,
    ErrorView,
> {
    match expression {
        ExpressionView::Term(term) => term_value(term, context),
        ExpressionView::Binary { left, op, right } => match term_value(left, context) {
            Err(error) => Err(error),
            Ok(a) => match term_value(right, context) {
                Err(error) => Err(error),
                Ok(b) => Ok(
                    ConstantView::Boolean(
                        match op {
                            Op::Equals => a == b,
                            Op::NotEquals => a != b,
                        },
                    ),
                ),
            },
        },
    }
}

impl Term {
    /// The term that `token` is, if it is one.
    pub fn from_token(token: &Token) -> (r: Option<Term>)
        ensures
            match term_of(token@) {
                Some(term) => r matches Some(found) && found@ == term,
                None => r is None,
            },
    {
        match token {
            Token::Integer(i) => Some(Term::Constant(Constant::Integer(*i))),
            Token::String(s) => Some(Term::Constant(Constant::String(s.clone()))),
            Token::Variable(name) => {
                if same_text(name.as_str(), "true") {
                    Some(Term::Constant(Constant::Boolean(true)))
                } else if same_text(name.as_str(), "false") {
                    Some(Term::Constant(Constant::Boolean(false)))
                } else if same_text(name.as_str(), "null") {
                    Some(Term::Constant(Constant::Null))
                } else {
                    Some(Term::Variable(name.clone()))
                }
            },
            _ => None,
        }
    }

    /// The value of the term in `context`.
    pub fn evaluate(&self, context: &Context) -> (r: Result<Constant, Error>)
        ensures
            match term_value(self@, context@) {
                Ok(value) => r matches Ok(found) && found@ == value,
                Err(error) => r matches Err(e) && e@ == error,
            },
    {
        match self {
            Term::Constant(constant) => Ok(constant.clone()),
            Term::Variable(name) => match context.get(name.as_str()) {
                Some(value) => Ok(value.clone()),
                None => Err(Error::UndefinedVariable(name.clone())),
            },
        }
    }
}

/// The tokens of a template, and how far they are read.
#[derive(Debug)]
pub struct Tokens {
    tokens: Vec<TokenWithContext>,
    position: usize,
}

/// What a [`Tokens`] holds.
pub struct TokensView {
    pub tokens: Seq<TokenWithContextView>,
    pub position: int,
}

impl View for Tokens {
    type V = TokensView;

    closed spec fn view(&self) -> TokensView {
        TokensView { tokens: token_views(self.tokens@), position: self.position as int }
    }
}

impl Tokens {
    /// Whether the position is among the tokens or just after them.
    pub open spec fn well_formed(&self) -> bool {
        0 <= self@.position <= self@.tokens.len()
    }

    /// The tokens, none of them read.
    pub fn new(tokens: Vec<TokenWithContext>) -> (r: Self)
        ensures
            r@ == (TokensView { tokens: token_views(tokens@), position: 0 }),
            r.well_formed(),
    {
        Tokens { tokens, position: 0 }
    }

    /// Whether every token is read.
    pub fn is_done(&self) -> (r: bool)
        requires
            self.well_formed(),
        ensures
            r == (self@.position == self@.tokens.len()),
    {
        self.position >= self.tokens.len()
    }

    /// The token to read next, if there is one.
    pub fn peek(&self) -> (r: Option<&TokenWithContext>)
        requires
            self.well_formed(),
        ensures
            r is Some <==> self@.position < self@.tokens.len(),
            r matches Some(token) ==> token@ == self@.tokens[self@.position],
    {
        if self.position < self.tokens.len() {
            Some(&self.tokens[self.position])
        } else {
            None
        }
    }

    /// How many tokens are read.
    pub fn position(&self) -> (r: usize)
        ensures
            r == self@.position,
    {
        self.position
    }

    pub(crate) fn all(&self) -> (r: &Vec<TokenWithContext>)
        ensures
            token_views(r@) == self@.tokens,
    {
        &self.tokens
    }

    pub(crate) fn advance_to(&mut self, position: usize)
        requires
            position <= old(self)@.tokens.len(),
        ensures
            final(self)@ == (TokensView { tokens: old(self)@.tokens, position: position as int }),
            final(self).well_formed(),
    {
        self.position = position;
    }
}

/// Reads the expression that starts at `pos`.
pub(crate) fn expression_in(tokens: &Vec<TokenWithContext>, pos: usize) -> (r: Result<
    (Expression, usize),
    Error,
>)
    requires
        pos <= tokens@.len(),
    ensures
        match expression_at(token_views(tokens@), pos as int) {
            Parsed::Read { value, next } => r matches Ok((found, after)) && found@ == value && after
                == next && pos < after <= tokens@.len(),
            Parsed::Failed { error } => r matches Err(e) && e@ == error,
        },
{
    let n = tokens.len();
    let ghost views = token_views(tokens@);
    if pos >= n {
        return Err(Error::Eof);
    }
    proof {
        assert(views[pos as int] == tokens@[pos as int]@);
    }
    let first = tokens[pos].token();
    let left = match Term::from_token(&first) {
        Some(term) => term,
        None => {
            return Err(Error::Syntax(tokens[pos].clone()));
        },
    };
    if n - pos > 1 {
        proof {
            assert(views[pos + 1] == tokens@[pos + 1]@);
        }
        let op = match tokens[pos + 1].token() {
            Token::Equals => Some(Op::Equals),
            Token::NotEquals => Some(Op::NotEquals),
            _ => None,
        };
        if let Some(op) = op {
            if n - pos <= 2 {
                return Err(Error::Eof);
            }
            proof {
                assert(views[pos + 2] == tokens@[pos + 2]@);
            }
            let second = tokens[pos + 2].token();
            return match Term::from_token(&second) {
                Some(right) => Ok((Expression::Binary { left, op, right }, pos + 3)),
                None => Err(Error::Syntax(tokens[pos + 2].clone())),
            };
        }
    }
    Ok((Expression::Term(left), pos + 1))
}

impl Expression {
    /// Reads an expression from the tokens.
    pub fn parse(tokens: &mut Tokens) -> (r: Result<Expression, Error>)
        requires
            old(tokens).well_formed(),
        ensures
            final(tokens).well_formed(),
            final(tokens)@.tokens == old(tokens)@.tokens,
            match expression_at(old(tokens)@.tokens, old(tokens)@.position) {
                Parsed::Read { value, next } => r matches Ok(found) && found@ == value
                    && final(tokens)@.position == next,
                Parsed::Failed { error } => r matches Err(e) && e@ == error && final(tokens)@.position
                    == old(tokens)@.position,
            },
    {
        let read = expression_in(tokens.all(), tokens.position());
        match read {
            Ok((expression, next)) => {
                tokens.advance_to(next);
                Ok(expression)
            },
            Err(e) => Err(e),
        }
    }

    /// The value of the expression in `context`.
    pub fn evaluate(&self, context: &Context) -> (r: Result<Constant, Error>)
        ensures
            match expression_value(self@, context@) {
                Ok(value) => r matches Ok(found) && found@ == value,
                Err(error) => r matches Err(e) && e@ == error,
            },
    {
        match self {
            Expression::Term(term) => term.evaluate(context),
            Expression::Binary { left, op, right } => {
                let a = match left.evaluate(context) {
                    Ok(a) => a,
                    Err(e) => {
                        return Err(e);
                    },
                };
                let b = match right.evaluate(context) {
                    Ok(b) => b,
                    Err(e) => {
                        return Err(e);
                    },
                };
                let same = a.same(&b);
                Ok(
                    Constant::Boolean(
                        match op {
                            Op::Equals => same,
                            Op::NotEquals => !same,
                        },
                    ),
                )
            },
        }
    }
}

} // verus!
