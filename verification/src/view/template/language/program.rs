//! A template, ready to be evaluated.
use vstd::prelude::*;
use super::super::context::Context;
use super::super::error::{Error, ErrorView};
use super::super::tokenizer::{
    token_views, tokenize, tokens_of, TokenWithContext, TokenWithContextView,
};
use super::statement::{
    evaluated_all, lemma_error_stays, statement_at, statement_in, statement_views, Statement,
    StatementView,
};
use super::Parsed;

verus! {

/// A template, ready to be evaluated: its statements, in order.
#[derive(Debug)]
pub struct Program {
    statements: Vec<Statement>,
}

impl View for Program {
    type V = Seq<StatementView>;

    closed spec fn view(&self) -> Seq<StatementView> {
        statement_views(self.statements@)
    }
}

impl Clone for Program {
    fn clone(&self) -> (r: Self)
        ensures
            r@ == self@,
    {
        let mut statements: Vec<Statement> = Vec::new();
        let mut i: usize = 0;
        while i < self.statements.len()
            invariant
                i <= self.statements@.len(),
                statements@.len() == i,
                forall|j: int| 0 <= j < i ==> (#[trigger] statements@[j])@ == self.statements@[j]@,
            decreases self.statements@.len() - i,
        {
            statements.push(self.statements[i].clone());
            i += 1;
        }
        let r = Program { statements };
        proof {
            assert(r@ =~= self@);
        }
        r
    }
}

/// The statements of the tokens from `pos` on, after the statements `done`.
pub open spec fn statements_from(
    tokens: Seq<TokenWithContextView>,
    pos: int,
    done: Seq<StatementView>,
) -> Result<Seq<StatementView>, ErrorView>
    decreases tokens.len() - pos,
{
    if pos >= tokens.len() {
        Ok(done)
    } else {
        match statement_at(tokens, pos) {
            Parsed::Failed { error } => Err(error),
            Parsed::Read { value, next } => if pos < next <= tokens.len() {
                statements_from(tokens, next, done.push(value))
            } else {
                Err(ErrorView::Eof)
            },
        }
    }
}

/// The statements of the tokens.
pub open spec fn program_of(tokens: Seq<TokenWithContextView>) -> Result<
    Seq<StatementView>,
    ErrorView,
> {
    statements_from(tokens, 0, Seq::empty())
}

/// The statements of the template `source`.
pub open spec fn program_of_source(source: Seq<char>) -> Result<Seq<StatementView>, ErrorView> {
    match tokens_of(source) {
        Ok(tokens) => program_of(tokens),
        Err(error) => Err(error),
    }
}

impl Program {
    /// What the template shows in `context`: what its statements show, one
    /// after another.
    pub fn evaluate(&self, context: &Context) -> (r: Result<String, Error>)
        ensures
            match evaluated_all(self@, context@) {
                Ok(text) => r matches Ok(found) && found@ == text,
                Err(error) => r matches Err(e) && e@ == error,
            },
    {
        let ghost all = self@;
        let mut result = String::new();
        let mut i: usize = 0;
        proof {
            assert(all.take(0) =~= Seq::empty());
        }
        while i < self.statements.len()
            invariant
                i <= self.statements@.len(),
                all == statement_views(self.statements@),
                evaluated_all(all.take(i as int), context@) == Ok::<Seq<char>, ErrorView>(result@),
            decreases self.statements@.len() - i,
        {
            proof {
                assert(all.take(i + 1).drop_last() == all.take(i as int));
                assert(all.take(i + 1).last() == self.statements@[i as int]@);
            }
            match self.statements[i].evaluate(context) {
                Ok(text) => {
                    result.append(text.as_str());
                },
                Err(e) => {
                    proof {
                        lemma_error_stays(all, i + 1, context@);
                    }
                    return Err(e);
                },
            }
            i += 1;
        }
        proof {
            assert(all.take(all.len() as int) == all);
        }
        Ok(result)
    }

    /// Reads the statements of a template from its tokens.
    pub fn parse(tokens: Vec<TokenWithContext>) -> (r: Result<Self, Error>)
        ensures
            match program_of(token_views(tokens@)) {
                Ok(statements) => r matches Ok(program) && program@ == statements,
                Err(error) => r matches Err(e) && e@ == error,
            },
    {
        let ghost views = token_views(tokens@);
        let mut statements: Vec<Statement> = Vec::new();
        let mut pos: usize = 0;
        proof {
            assert(statement_views(statements@) =~= Seq::empty());
        }
        while pos < tokens.len()
            invariant
                pos <= tokens@.len(),
                views == token_views(tokens@),
                program_of(views) == statements_from(
                    views,
                    pos as int,
                    statement_views(statements@),
                ),
            decreases tokens@.len() - pos,
        {
            let ghost done = statement_views(statements@);
            let (statement, next) = match statement_in(&tokens, pos) {
                Ok(read) => read,
                Err(e) => {
                    return Err(e);
                },
            };
            let ghost view = statement@;
            statements.push(statement);
            proof {
                assert(statement_views(statements@) =~= done.push(view));
            }
            pos = next;
        }
        Ok(Program { statements })
    }

    /// Reads a template from its source.
    pub fn from_str(source: &str) -> (r: Result<Self, Error>)
        ensures
            match program_of_source(source@) {
                Ok(statements) => r matches Ok(program) && program@ == statements,
                Err(error) => r matches Err(e) && e@ == error,
            },
    {
        let tokens = match tokenize(source) {
            Ok(tokens) => tokens,
            Err(e) => {
                return Err(e);
            },
        };
        Program::parse(tokens)
    }
}

} // verus!
