use rum::view::template::{
    Constant, Context, Error, Expression, Op, Program, Statement, Term, Token, TokenWithContext,
    Tokenize, Tokens,
};

#[test]
fn test_basic_program() -> Result<(), Error> {
    let program =
        "<html><body><% if 1 == 4 %>world is great<% else %>not so much<% end %></body></html>"
            .tokenize()?;
    let program = Program::parse(program)?;
    let output = program.evaluate(&Context::default())?;
    assert_eq!("<html><body>not so much</body></html>", output);
    Ok(())
}

#[test]
fn test_program_print() -> Result<(), Error> {
    let program = r#"
            <html>
                <head>
                    <title><%= 5 %></title>
                </head>
            </html>
        "#
    .tokenize()?;
    let ast = Program::parse(program)?;
    println!("{:?}", ast);

    Ok(())
}

#[test]
fn test_statements_basic() -> Result<(), Error> {
    let t1 = r#"<% if 1 == 2 %>
            hello world
            <% if variable == 5 %>
                indeed
            <% else %>
                wrong
            <% end %>
        <% end %>
            "#
    .tokenize()?;

    let ast = Statement::parse(&mut Tokens::new(t1))?;
    println!("{:?}", ast);

    Ok(())
}

fn tokens(source: &str) -> Vec<Token> {
    source
        .tokenize()
        .unwrap()
        .iter()
        .map(|token| token.token())
        .collect()
}

#[test]
fn a_template_is_split_into_tokens() {
    assert_eq!(
        tokens(r#"a<% if x == "y" %>b<%= 12 %><%elsif z!=null%><% else %><% end for in %>"#),
        vec![
            Token::Text("a".to_string()),
            Token::BlockStart,
            Token::If,
            Token::Variable("x".to_string()),
            Token::Equals,
            Token::String("y".to_string()),
            Token::BlockEnd,
            Token::Text("b".to_string()),
            Token::BlockStartPrint,
            Token::Integer(12),
            Token::BlockEnd,
            Token::BlockStart,
            Token::ElseIf,
            Token::Variable("z".to_string()),
            Token::NotEquals,
            Token::Variable("null".to_string()),
            Token::BlockEnd,
            Token::BlockStart,
            Token::Else,
            Token::BlockEnd,
            Token::BlockStart,
            Token::End,
            Token::For,
            Token::In,
            Token::BlockEnd,
        ]
    );
    assert_eq!(tokens(""), vec![]);
    assert_eq!(tokens("a < b % c"), vec![Token::Text("a < b % c".to_string())]);
    assert_eq!(
        tokens("<% _if9 \t\r\n"),
        vec![Token::BlockStart, Token::Variable("_if9".to_string())]
    );
}

#[test]
fn tokens_know_where_they_start() {
    let found = "ab<%  if %>".tokenize().unwrap();
    assert_eq!(
        found,
        vec![
            TokenWithContext::new(Token::Text("ab".to_string()), 0),
            TokenWithContext::new(Token::BlockStart, 2),
            TokenWithContext::new(Token::If, 6),
            TokenWithContext::new(Token::BlockEnd, 9),
        ]
    );
    assert_eq!(found[2].position(), 6);
}

#[test]
fn what_is_no_token_is_reported_with_its_place() {
    assert_eq!("ab<% ? %>".tokenize(), Err(Error::UnknownToken(5)));
    assert_eq!("<% \"open %>".tokenize(), Err(Error::UnknownToken(3)));
    assert_eq!(
        "<% 9223372036854775808 %>".tokenize(),
        Err(Error::UnknownToken(3))
    );
    assert_eq!(
        tokens("<% 9223372036854775807 %>")[1],
        Token::Integer(i64::MAX)
    );
    assert_eq!("<% = %>".tokenize(), Err(Error::UnknownToken(3)));
}

#[test]
fn expressions_are_read_and_evaluated() {
    let mut context = Context::default();
    context.set("name", Constant::String("world".to_string()));
    context.set("count", Constant::Integer(3));
    context.set("count", Constant::Integer(4));

    let read = |source: &str| {
        let mut tokens = Tokens::new(source.tokenize().unwrap());
        Statement::parse(&mut tokens)
    };

    assert_eq!(
        Program::from_str("<%= count %> <%= name %> <%= true %><%= null %><%= -1 == 1 %>")
            .err(),
        Some(Error::UnknownToken(51))
    );
    let program = Program::from_str(
        "<%= count %> <%= name %> <%= true %><%= null %> <%= count == 4 %> <%= name != \"world\" %> <%= 1 == \"1\" %>",
    )
    .unwrap();
    assert_eq!(
        program.evaluate(&context).unwrap(),
        "4 world true true false false"
    );
    assert!(matches!(
        read("<%= count == 4 %>"),
        Ok(Statement::Print(Expression::Binary {
            left: Term::Variable(_),
            op: Op::Equals,
            right: Term::Constant(Constant::Integer(4)),
        }))
    ));
    assert_eq!(
        Program::from_str("<%= missing %>").unwrap().evaluate(&context).err(),
        Some(Error::UndefinedVariable("missing".to_string()))
    );
    assert_eq!(context.get("count"), Some(&Constant::Integer(4)));
    assert_eq!(context.get("other"), None);
}

#[test]
fn an_if_shows_one_of_its_bodies() {
    let mut context = Context::default();
    context.set("admin", Constant::Boolean(true));
    context.set("name", Constant::String(String::new()));
    let source = "<% if admin %>yes<% if name %>named<% else %>nameless<% end %>!<% else %>no<% end %>.";
    let program = Program::from_str(source).unwrap();
    assert_eq!(program.evaluate(&context).unwrap(), "yesnameless!.");

    context.set("admin", Constant::Integer(0));
    assert_eq!(program.evaluate(&context).unwrap(), "no.");
    assert_eq!(program.clone().evaluate(&context).unwrap(), "no.");
}

#[test]
fn constants_count_as_true_or_not() {
    assert!(Constant::Integer(-1).truthy());
    assert!(!Constant::Integer(0).truthy());
    assert!(Constant::String("a".to_string()).truthy());
    assert!(!Constant::String(String::new()).truthy());
    assert!(Constant::Boolean(true).truthy());
    assert!(!Constant::Boolean(false).truthy());
    assert!(!Constant::Null.truthy());
    assert_eq!(Constant::Integer(i64::MIN).to_string(), i64::MIN.to_string());
    assert_eq!(Constant::Boolean(false).to_string(), "false");
    assert_eq!(Constant::Null.to_string(), "");
}

#[test]
fn statements_that_do_not_fit_are_syntax_errors() {
    let parse = |source: &str| Program::from_str(source);
    assert_eq!(parse("<% if 1 %>never ended").err(), Some(Error::Eof));
    assert_eq!(parse("<%").err(), Some(Error::Eof));
    assert_eq!(parse("<% if").err(), Some(Error::Eof));
    assert_eq!(parse("<% if 1 ==").err(), Some(Error::Eof));
    assert_eq!(
        parse("<% %>").err(),
        Some(Error::Syntax(TokenWithContext::new(Token::BlockEnd, 3)))
    );
    assert_eq!(
        parse("<% for x in y %><% end %>").err(),
        Some(Error::Syntax(TokenWithContext::new(Token::For, 3)))
    );
    assert_eq!(
        parse("<% if if %>").err(),
        Some(Error::Syntax(TokenWithContext::new(Token::If, 6)))
    );
    assert_eq!(
        parse("<% end 1 %>").err(),
        Some(Error::Syntax(TokenWithContext::new(Token::Integer(1), 7)))
    );
    assert_eq!(
        parse("<%= 1 2 %>").err(),
        Some(Error::Syntax(TokenWithContext::new(Token::Integer(2), 6)))
    );
}

#[test]
fn a_for_cannot_be_evaluated() {
    let statement = Statement::For {
        variable: Term::Variable("x".to_string()),
        list: Constant::Null,
        body: vec![],
    };
    assert_eq!(
        statement.evaluate(&Context::default()).err(),
        Some(Error::Unsupported("for"))
    );
    assert_eq!(Statement::Else.evaluate(&Context::default()).unwrap(), "");
    assert_eq!(Statement::End.evaluate(&Context::default()).unwrap(), "");
    assert_eq!(Statement::Empty.evaluate(&Context::default()).unwrap(), "");
}

#[test]
fn tokens_are_read_one_statement_at_a_time() {
    let mut tokens = Tokens::new("a<%= 1 %>b".tokenize().unwrap());
    assert!(!tokens.is_done());
    assert_eq!(tokens.position(), 0);
    assert!(matches!(Statement::parse(&mut tokens), Ok(Statement::PrintText(_))));
    assert_eq!(tokens.position(), 1);
    assert_eq!(tokens.peek().map(|t| t.token()), Some(Token::BlockStartPrint));
    assert!(matches!(Statement::parse(&mut tokens), Ok(Statement::Print(_))));
    assert_eq!(tokens.position(), 4);
    assert!(matches!(Statement::parse(&mut tokens), Ok(Statement::PrintText(_))));
    assert!(tokens.is_done());
    assert_eq!(Statement::parse(&mut tokens).err(), Some(Error::Eof));

    let mut tokens = Tokens::new("<% x == %>".tokenize().unwrap());
    assert_eq!(tokens.peek().map(|t| t.token()), Some(Token::BlockStart));
    assert!(Expression::parse(&mut tokens).is_err());
    assert_eq!(tokens.position(), 0);
}
