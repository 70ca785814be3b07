//! The statements of a template.
use vstd::prelude::*;
use super::super::context::{Context, ContextView};
use super::super::error::{Error, ErrorView};
use super::super::tokenizer::{token_views, Token, TokenView, TokenWithContext, TokenWithContextView};
use super::{
    expression_at, expression_in, expression_value, Constant, ConstantView, Expression,
    ExpressionView, Parsed, Term, TermView, Tokens,
};

verus! {

/// One statement of a template.
#[derive(Debug)]
pub enum Statement {
    /// Shows the value of an expression.
    Print(Expression),
    /// Shows text as it stands.
    PrintText(String),
    /// Shows one of two bodies, by the value of an expression.
    If { expression: Expression, if_body: Vec<Statement>, else_body: Vec<Statement> },
    /// Where the second body of an `If` starts.
    Else,
    /// Where an `If` ends.
    End,
    /// Shows a body once for each item of a list.
    For { variable: Term, list: Constant, body: Vec<Statement> },
    /// Shows nothing.
    Empty,
}

/// What a [`Statement`] holds.
pub enum StatementView {
    Print(ExpressionView),
    PrintText(Seq<char>),
    If { expression: ExpressionView, if_body: Seq<StatementView>, else_body: Seq<StatementView> },
    Else,
    End,
    For { variable: TermView, list: ConstantView, body: Seq<StatementView> },
    Empty,
}

impl Statement {
    /// What the statement holds.
    pub open spec fn model(self) -> StatementView
        decreases self,
    {
        match self {
            Statement::Print(expression) => StatementView::Print(expression@),
            Statement::PrintText(text) => StatementView::PrintText(text@),
            Statement::If { expression, if_body, else_body } => StatementView::If {
                expression: expression@,
                if_body: Seq::new(
                    if_body@.len(),
                    |i: int|
                        if 0 <= i < if_body@.len() {
                            if_body@[i].model()
                        } else {
                            StatementView::Empty
                        },
                ),
                else_body: Seq::new(
                    else_body@.len(),
                    |i: int|
                        if 0 <= i < else_body@.len() {
                            else_body@[i].model()
                        } else {
                            StatementView::Empty
                        },
                ),
            },
            Statement::Else => StatementView::Else,
            Statement::End => StatementView::End,
            Statement::For { variable, list, body } => StatementView::For {
                variable: variable@,
                list: list@,
                body: Seq::new(
                    body@.len(),
                    |i: int|
                        if 0 <= i < body@.len() {
                            body@[i].model()
                        } else {
                            StatementView::Empty
                        },
                ),
            },
            Statement::Empty => StatementView::Empty,
        }
    }
}

impl View for Statement {
    type V = StatementView;

    open spec fn view(&self) -> StatementView {
        self.model()
    }
}

/// Copies `statements`, one for one.
fn clone_statements(statements: &Vec<Statement>) -> (r: Vec<Statement>)
    ensures
        statement_views(r@) == statement_views(statements@),
    decreases statements,
{
    let mut out: Vec<Statement> = Vec::new();
    let mut i: usize = 0;
    while i < statements.len()
        invariant
            i <= statements@.len(),
            out@.len() == i,
            forall|j: int| 0 <= j < i ==> (#[trigger] out@[j])@ == statements@[j]@,
        decreases statements@.len() - i,
    {
        out.push(statements[i].clone());
        i += 1;
    }
    proof {
        assert(statement_views(out@) =~= statement_views(statements@));
    }
    out
}

impl Clone for Statement {
    fn clone(&self) -> (r: Self)
        ensures
            r@ == self@,
        decreases self,
    {
        match self {
            Statement::Print(expression) => Statement::Print(expression.clone()),
            Statement::PrintText(text) => Statement::PrintText(text.clone()),
            Statement::If { expression, if_body, else_body } => {
                let r = Statement::If {
                    expression: expression.clone(),
                    if_body: clone_statements(if_body),
                    else_body: clone_statements(else_body),
                };
                proof {
                    assert(r@->If_if_body =~= statement_views(if_body@));
                    assert(r@->If_else_body =~= statement_views(else_body@));
                    assert(self@->If_if_body =~= statement_views(if_body@));
                    assert(self@->If_else_body =~= statement_views(else_body@));
                }
                r
            },
            Statement::Else => Statement::Else,
            Statement::End => Statement::End,
            Statement::For { variable, list, body } => {
                let r = Statement::For {
                    variable: variable.clone(),
                    list: list.clone(),
                    body: clone_statements(body),
                };
                proof {
                    assert(r@->For_body =~= statement_views(body@));
                    assert(self@->For_body =~= statement_views(body@));
                }
                r
            },
            Statement::Empty => Statement::Empty,
        }
    }
}

/// What the statements at each position hold.
pub open spec fn statement_views(statements: Seq<Statement>) -> Seq<StatementView> {
    Seq::new(statements.len(), |i: int| statements[i]@)
}

/// The name of the statement that cannot be evaluated.
pub open spec fn for_word() -> Seq<char> {
    "for"@
}

/// What a statement shows in `context`.
///
/// Text shows as it stands, an expression shows as its value. An `If` shows
/// its first body where its expression counts as true, else its second body.
/// `Else`, `End` and `Empty` show nothing. A `For` cannot be evaluated.
pub open spec fn evaluated(statement: StatementView, context: ContextView) -> Result<
    Seq<char>,
    ErrorView,
>
    decreases statement,
{
    match statement {
        StatementView::PrintText(text) => Ok(text),
        StatementView::Print(expression) => match expression_value(expression, context) {
            Ok(value) => Ok(value.text()),
            Err(error) => Err(error),
        },
        StatementView::If { expression, if_body, else_body } => match expression_value(
            expression,
            context,
        ) {
            Err(error) => Err(error),
            Ok(value) => if value.truthy() {
                evaluated_all(if_body, context)
            } else {
                evaluated_all(else_body, context)
            },
        },
        StatementView::Else => Ok(Seq::empty()),
        StatementView::End => Ok(Seq::empty()),
        StatementView::Empty => Ok(Seq::empty()),
        StatementView::For { .. } => Err(ErrorView::Unsupported(for_word())),
    }
}

/// What the statements show in `context`, one after another. The first
/// statement that cannot be evaluated gives its error.
pub open spec fn evaluated_all(statements: Seq<StatementView>, context: ContextView) -> Result<
    Seq<char>,
    ErrorView,
>
    decreases statements,
{
    if statements.len() == 0 {
        Ok(Seq::empty())
    } else {
        match evaluated_all(statements.drop_last(), context) {
            Err(error) => Err(error),
            Ok(before) => match evaluated(statements.last(), context) {
                Err(error) => Err(error),
                Ok(text) => Ok(before + text),
            },
        }
    }
}

/// The position after the end of a block: the token at `pos` must end the
/// block, unless the tokens end there.
pub open spec fn block_end_at(tokens: Seq<TokenWithContextView>, pos: int) -> Parsed<()> {
    if pos >= tokens.len() {
        Parsed::Read { value: (), next: pos }
    } else if tokens[pos].token is BlockEnd {
        Parsed::Read { value: (), next: pos + 1 }
    } else {
        Parsed::Failed { error: ErrorView::Syntax(tokens[pos]) }
    }
}

/// `statement`, after the end of the block that holds it.
pub open spec fn after_block_end(
    tokens: Seq<TokenWithContextView>,
    pos: int,
    statement: StatementView,
) -> Parsed<StatementView> {
    match block_end_at(tokens, pos) {
        Parsed::Read { value, next } => Parsed::Read { value: statement, next },
        Parsed::Failed { error } => Parsed::Failed { error },
    }
}

/// The statement that starts at `pos`.
///
/// Text is a statement. The start of a block is skipped. `end` and `else`
/// are statements of their own, which end the bodies of an `if`. A block
/// that starts with `<%=` shows its expression. `if` and `elsif` take an
/// expression and the statements up to their `end`.
pub open spec fn statement_at(tokens: Seq<TokenWithContextView>, pos: int) -> Parsed<
    StatementView,
>
    decreases tokens.len() - pos, 0int,
{
    if pos < 0 || pos >= tokens.len() {
        Parsed::Failed { error: ErrorView::Eof }
    } else {
        match tokens[pos].token {
            TokenView::End => after_block_end(tokens, pos + 1, StatementView::End),
            TokenView::Text(text) => Parsed::Read {
                value: StatementView::PrintText(text),
                next: pos + 1,
            },
            TokenView::BlockStart => statement_at(tokens, pos + 1),
            TokenView::BlockStartPrint => match expression_at(tokens, pos + 1) {
                Parsed::Read { value, next } => after_block_end(
                    tokens,
                    next,
                    StatementView::Print(value),
                ),
                Parsed::Failed { error } => Parsed::Failed { error },
            },
            TokenView::Else => after_block_end(tokens, pos + 1, StatementView::Else),
            TokenView::If | TokenView::ElseIf => match expression_at(tokens, pos + 1) {
                Parsed::Failed { error } => Parsed::Failed { error },
                Parsed::Read { value: expression, next } => match block_end_at(tokens, next) {
                    Parsed::Failed { error } => Parsed::Failed { error },
                    Parsed::Read { value, next: body } => if pos < body <= tokens.len() {
                        if_body_at(tokens, body, expression, Seq::empty())
                    } else {
                        Parsed::Failed { error: ErrorView::Eof }
                    },
                },
            },
            _ => Parsed::Failed { error: ErrorView::Syntax(tokens[pos]) },
        }
    }
}

/// The `if` whose first body goes on at `pos`, after the statements
/// `if_body`. The `else` that ends the first body stays in it as its last
/// statement, which shows nothing.
pub open spec fn if_body_at(
    tokens: Seq<TokenWithContextView>,
    pos: int,
    expression: ExpressionView,
    if_body: Seq<StatementView>,
) -> Parsed<StatementView>
    decreases tokens.len() - pos, 1int,
{
    match statement_at(tokens, pos) {
        Parsed::Failed { error } => Parsed::Failed { error },
        Parsed::Read { value, next } => match value {
            StatementView::End => Parsed::Read {
                value: StatementView::If { expression, if_body, else_body: Seq::empty() },
                next,
            },
            StatementView::Else => if pos < next <= tokens.len() {
                else_body_at(
                    tokens,
                    next,
                    expression,
                    if_body.push(StatementView::Else),
                    Seq::empty(),
                )
            } else {
                Parsed::Failed { error: ErrorView::Eof }
            },
            statement => if pos < next <= tokens.len() {
                if_body_at(tokens, next, expression, if_body.push(statement))
            } else {
                Parsed::Failed { error: ErrorView::Eof }
            },
        },
    }
}

/// The `if` whose second body goes on at `pos`, after the statements
/// `else_body`.
pub open spec fn else_body_at(
    tokens: Seq<TokenWithContextView>,
    pos: int,
    expression: ExpressionView,
    if_body: Seq<StatementView>,
    else_body: Seq<StatementView>,
) -> Parsed<StatementView>
    decreases tokens.len() - pos, 1int,
{
    match statement_at(tokens, pos) {
        Parsed::Failed { error } => Parsed::Failed { error },
        Parsed::Read { value, next } => match value {
            StatementView::End => Parsed::Read {
                value: StatementView::If { expression, if_body, else_body },
                next,
            },
            statement => if pos < next <= tokens.len() {
                else_body_at(tokens, next, expression, if_body, else_body.push(statement))
            } else {
                Parsed::Failed { error: ErrorView::Eof }
            },
        },
    }
}

fn block_end_in(tokens: &Vec<TokenWithContext>, pos: usize) -> (r: Result<usize, Error>)
    requires
        pos <= tokens@.len(),
    ensures
        match block_end_at(token_views(tokens@), pos as int) {
            Parsed::Read { value, next } => r == Ok::<usize, Error>(next as usize) && pos <= next
                <= tokens@.len(),
            Parsed::Failed { error } => r matches Err(e) && e@ == error,
        },
{
    if pos >= tokens.len() {
        return Ok(pos);
    }
    proof {
        assert(token_views(tokens@)[pos as int] == tokens@[pos as int]@);
    }
    match tokens[pos].token() {
        Token::BlockEnd => Ok(pos + 1),
        _ => Err(Error::Syntax(tokens[pos].clone())),
    }
}

/// Reads the statement that starts at `pos`.
pub(crate) fn statement_in(tokens: &Vec<TokenWithContext>, pos: usize) -> (r: Result<
    (Statement, usize),
    Error,
>)
    requires
        pos <= tokens@.len(),
    ensures
        match statement_at(token_views(tokens@), pos as int) {
            Parsed::Read { value, next } => r matches Ok((found, after)) && found@ == value && after
                == next && pos < after <= tokens@.len(),
            Parsed::Failed { error } => r matches Err(e) && e@ == error,
        },
    decreases tokens@.len() - pos,
{
    let n = tokens.len();
    let ghost views = token_views(tokens@);
    if pos >= n {
        return Err(Error::Eof);
    }
    proof {
        assert(views[pos as int] == tokens@[pos as int]@);
    }
    match tokens[pos].token() {
        Token::End => {
            match block_end_in(tokens, pos + 1) {
                Ok(next) => Ok((Statement::End, next)),
                Err(e) => Err(e),
            }
        },
        Token::Text(text) => Ok((Statement::PrintText(text), pos + 1)),
        Token::BlockStart => statement_in(tokens, pos + 1),
        Token::BlockStartPrint => {
            let (expression, next) = match expression_in(tokens, pos + 1) {
                Ok(read) => read,
                Err(e) => {
                    return Err(e);
                },
            };
            match block_end_in(tokens, next) {
                Ok(next) => Ok((Statement::Print(expression), next)),
                Err(e) => Err(e),
            }
        },
        Token::Else => {
            match block_end_in(tokens, pos + 1) {
                Ok(next) => Ok((Statement::Else, next)),
                Err(e) => Err(e),
            }
        },
        Token::If | Token::ElseIf => {
            let (expression, next) = match expression_in(tokens, pos + 1) {
                Ok(read) => read,
                Err(e) => {
                    return Err(e);
                },
            };
            let body = match block_end_in(tokens, next) {
                Ok(body) => body,
                Err(e) => {
                    return Err(e);
                },
            };
            let mut if_body: Vec<Statement> = Vec::new();
            let mut else_body: Vec<Statement> = Vec::new();
            let mut at: usize = body;
            let mut in_else = false;
            proof {
                assert(statement_views(if_body@) =~= Seq::empty());
                assert(statement_views(else_body@) =~= Seq::empty());
            }
            loop
                invariant
                    pos < at <= tokens@.len(),
                    views == token_views(tokens@),
                    !in_else ==> else_body@.len() == 0,
                    statement_at(views, pos as int) == if in_else {
                        else_body_at(
                            views,
                            at as int,
                            expression@,
                            statement_views(if_body@),
                            statement_views(else_body@),
                        )
                    } else {
                        if_body_at(views, at as int, expression@, statement_views(if_body@))
                    },
                decreases tokens@.len() - at,
            {
                let (statement, next) = match statement_in(tokens, at) {
                    Ok(read) => read,
                    Err(e) => {
                        return Err(e);
                    },
                };
                let ghost first = statement_views(if_body@);
                let ghost second = statement_views(else_body@);
                let ghost read = statement@;
                let ghost condition = expression@;
                proof {
                    assert(statement_at(views, at as int) == Parsed::Read {
                        value: read,
                        next: next as int,
                    });
                }
                match statement {
                    Statement::End => {
                        let found = Statement::If { expression, if_body, else_body };
                        proof {
                            assert(read is End);
                            assert(second.len() == 0 ==> second =~= Seq::empty());
                            assert(found@->If_if_body =~= first);
                            assert(found@->If_else_body =~= second);
                            assert(found@ == StatementView::If {
                                expression: condition,
                                if_body: first,
                                else_body: second,
                            });
                        }
                        return Ok((found, next));
                    },
                    Statement::Else => {
                        proof {
                            assert(read is Else);
                        }
                        if in_else {
                            else_body.push(statement);
                            proof {
                                assert(statement_views(else_body@) =~= second.push(
                                    StatementView::Else,
                                ));
                                assert(else_body_at(views, at as int, condition, first, second)
                                    == else_body_at(
                                    views,
                                    next as int,
                                    condition,
                                    first,
                                    second.push(read),
                                ));
                            }
                        } else {
                            if_body.push(statement);
                            in_else = true;
                            proof {
                                assert(second =~= Seq::empty());
                                assert(statement_views(if_body@) =~= first.push(
                                    StatementView::Else,
                                ));
                                assert(if_body_at(views, at as int, condition, first)
                                    == else_body_at(
                                    views,
                                    next as int,
                                    condition,
                                    first.push(StatementView::Else),
                                    Seq::empty(),
                                ));
                            }
                        }
                    },
                    statement => {
                        let ghost view = statement@;
                        proof {
                            assert(view == read);
                            assert(!(read is End) && !(read is Else));
                        }
                        if in_else {
                            else_body.push(statement);
                            proof {
                                assert(statement_views(else_body@) =~= second.push(view));
                                assert(else_body_at(views, at as int, condition, first, second)
                                    == else_body_at(
                                    views,
                                    next as int,
                                    condition,
                                    first,
                                    second.push(read),
                                ));
                            }
                        } else {
                            if_body.push(statement);
                            proof {
                                assert(statement_views(if_body@) =~= first.push(view));
                                assert(if_body_at(views, at as int, condition, first)
                                    == if_body_at(
                                    views,
                                    next as int,
                                    condition,
                                    first.push(read),
                                ));
                            }
                        }
                    },
                }
                at = next;
            }
        },
        _ => Err(Error::Syntax(tokens[pos].clone())),
    }
}

impl Statement {
    /// What the statement shows in `context`.
    pub fn evaluate(&self, context: &Context) -> (r: Result<String, Error>)
        ensures
            match evaluated(self@, context@) {
                Ok(text) => r matches Ok(found) && found@ == text,
                Err(error) => r matches Err(e) && e@ == error,
            },
        decreases self,
    {
        match self {
            Statement::PrintText(text) => Ok(text.clone()),
            Statement::Print(expression) => match expression.evaluate(context) {
                Ok(value) => Ok(value.to_string()),
                Err(e) => Err(e),
            },
            Statement::If { expression, if_body, else_body } => {
                let value = match expression.evaluate(context) {
                    Ok(value) => value,
                    Err(e) => {
                        return Err(e);
                    },
                };
                let body = if value.truthy() {
                    if_body
                } else {
                    else_body
                };
                let ghost all = statement_views(body@);
                proof {
                    assert(self@->If_if_body =~= statement_views(if_body@));
                    assert(self@->If_else_body =~= statement_views(else_body@));
                }
                let mut result = String::new();
                let mut i: usize = 0;
                proof {
                    assert(all.take(0) =~= Seq::empty());
                    assert(evaluated(self@, context@) == evaluated_all(all, context@));
                }
                while i < body.len()
                    invariant
                        i <= body@.len(),
                        all == statement_views(body@),
                        evaluated(self@, context@) == evaluated_all(all, context@),
                        *self is If,
                        *body == self->If_if_body || *body == self->If_else_body,
                        evaluated_all(all.take(i as int), context@) == Ok::<Seq<char>, ErrorView>(
                            result@,
                        ),
                    decreases body@.len() - i,
                {
                    proof {
                        assert(all.take(i + 1).drop_last() == all.take(i as int));
                        assert(all.take(i + 1).last() == body@[i as int]@);
                    }
                    match body[i].evaluate(context) {
                        Ok(text) => {
                            result.append(text.as_str());
                        },
                        Err(e) => {
                            proof {
                                lemma_error_stays(all, i + 1, context@);
                            }
                            return Err(e);
                        },
                    }
                    i += 1;
                }
                proof {
                    assert(all.take(all.len() as int) == all);
                }
                Ok(result)
            },
            Statement::Else => Ok(String::new()),
            Statement::End => Ok(String::new()),
            Statement::Empty => Ok(String::new()),
            Statement::For { .. } => Err(Error::Unsupported("for")),
        }
    }

    /// Reads a statement from the tokens.
    pub fn parse(tokens: &mut Tokens) -> (r: Result<Statement, Error>)
        requires
            old(tokens).well_formed(),
        ensures
            final(tokens).well_formed(),
            final(tokens)@.tokens == old(tokens)@.tokens,
            match statement_at(old(tokens)@.tokens, old(tokens)@.position) {
                Parsed::Read { value, next } => r matches Ok(found) && found@ == value
                    && final(tokens)@.position == next,
                Parsed::Failed { error } => r matches Err(e) && e@ == error && final(tokens)@.position
                    == old(tokens)@.position,
            },
    {
        let read = statement_in(tokens.all(), tokens.position());
        match read {
            Ok((statement, next)) => {
                tokens.advance_to(next);
                Ok(statement)
            },
            Err(e) => Err(e),
        }
    }
}

/// Once the first statements of a list give an error, the list gives that
/// error.
pub proof fn lemma_error_stays(statements: Seq<StatementView>, upto: int, context: ContextView)
    requires
        0 <= upto <= statements.len(),
        evaluated_all(statements.take(upto), context) is Err,
    ensures
        evaluated_all(statements, context) == evaluated_all(statements.take(upto), context),
    decreases statements.len() - upto,
{
    if upto < statements.len() {
        assert(statements.take(upto + 1).drop_last() == statements.take(upto));
        lemma_error_stays(statements, upto + 1, context);
    } else {
        assert(statements.take(upto) == statements);
    }
}

} // verus!
