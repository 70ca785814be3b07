//! Splitting the source of a template into tokens.
use vstd::prelude::*;
use super::error::{Error, ErrorView};
use crate::text::{all_digits, chars_of, digits_value, integer_in, integer_of, is_digit, same_text, string_of};

verus! {

/// The smallest parts of a template.
#[derive(Debug, PartialEq, Eq)]
pub enum Token {
    /// Text outside blocks, as it stands.
    Text(String),
    /// `<%`
    BlockStart,
    /// `<%=`
    BlockStartPrint,
    /// `%>`
    BlockEnd,
    If,
    ElseIf,
    Else,
    End,
    For,
    In,
    /// The name of a variable.
    Variable(String),
    /// A whole number.
    Integer(i64),
    /// Text between double quotes.
    String(String),
    /// `==`
    Equals,
    /// `!=`
    NotEquals,
}

/// What a [`Token`] holds.
pub enum TokenView {
    Text(Seq<char>),
    BlockStart,
    BlockStartPrint,
    BlockEnd,
    If,
    ElseIf,
    Else,
    End,
    For,
    In,
    Variable(Seq<char>),
    Integer(i64),
    String(Seq<char>),
    Equals,
    NotEquals,
}

impl View for Token {
    type V = TokenView;

    open spec fn view(&self) -> TokenView {
        match self {
            Token::Text(s) => TokenView::Text(s@),
            Token::BlockStart => TokenView::BlockStart,
            Token::BlockStartPrint => TokenView::BlockStartPrint,
            Token::BlockEnd => TokenView::BlockEnd,
            Token::If => TokenView::If,
            Token::ElseIf => TokenView::ElseIf,
            Token::Else => TokenView::Else,
            Token::End => TokenView::End,
            Token::For => TokenView::For,
            Token::In => TokenView::In,
            Token::Variable(s) => TokenView::Variable(s@),
            Token::Integer(i) => TokenView::Integer(*i),
            Token::String(s) => TokenView::String(s@),
            Token::Equals => TokenView::Equals,
            Token::NotEquals => TokenView::NotEquals,
        }
    }
}

impl Clone for Token {
    fn clone(&self) -> (r: Self)
        ensures
            r@ == self@,
    {
        match self {
            Token::Text(s) => Token::Text(s.clone()),
            Token::BlockStart => Token::BlockStart,
            Token::BlockStartPrint => Token::BlockStartPrint,
            Token::BlockEnd => Token::BlockEnd,
            Token::If => Token::If,
            Token::ElseIf => Token::ElseIf,
            Token::Else => Token::Else,
            Token::End => Token::End,
            Token::For => Token::For,
            Token::In => Token::In,
            Token::Variable(s) => Token::Variable(s.clone()),
            Token::Integer(i) => Token::Integer(*i),
            Token::String(s) => Token::String(s.clone()),
            Token::Equals => Token::Equals,
            Token::NotEquals => Token::NotEquals,
        }
    }
}

/// A token, and where in the source it starts, counted in characters from
/// zero.
#[derive(Debug, PartialEq, Eq)]
pub struct TokenWithContext {
    token: Token,
    position: usize,
}

/// What a [`TokenWithContext`] holds.
pub struct TokenWithContextView {
    pub token: TokenView,
    pub position: usize,
}

impl View for TokenWithContext {
    type V = TokenWithContextView;

    closed spec fn view(&self) -> TokenWithContextView {
        TokenWithContextView { token: self.token@, position: self.position }
    }
}

impl Clone for TokenWithContext {
    fn clone(&self) -> (r: Self)
        ensures
            r@ == self@,
    {
        TokenWithContext { token: self.token.clone(), position: self.position }
    }
}

impl TokenWithContext {
    /// The token that starts at `position`.
    pub fn new(token: Token, position: usize) -> (r: Self)
        ensures
            r@ == (TokenWithContextView { token: token@, position }),
    {
        TokenWithContext { token, position }
    }

    /// The token.
    pub fn token(&self) -> (r: Token)
        ensures
            r@ == self@.token,
    {
        self.token.clone()
    }

    /// Where the token starts.
    pub fn position(&self) -> (r: usize)
        ensures
            r == self@.position,
    {
        self.position
    }
}

/// What the tokens at each position hold.
pub open spec fn token_views(tokens: Seq<TokenWithContext>) -> Seq<TokenWithContextView> {
    Seq::new(tokens.len(), |i: int| tokens[i]@)
}

/// Whether `c` separates the words of a block.
pub open spec fn is_space(c: char) -> bool {
    c == ' ' || c == '\n' || c == '\t' || c == '\r'
}

/// Whether `c` can start a word.
pub open spec fn is_letter(c: char) -> bool {
    ('a' <= c <= 'z') || ('A' <= c <= 'Z') || c == '_'
}

/// Whether `c` can stand in a word.
pub open spec fn is_word_char(c: char) -> bool {
    is_letter(c) || is_digit(c)
}

/// Whether a block starts at `i`.
pub open spec fn block_starts(s: Seq<char>, i: int) -> bool {
    0 <= i && i + 1 < s.len() && s[i] == '<' && s[i + 1] == '%'
}

/// Where the spaces that start at `i` end.
pub open spec fn spaces_end(s: Seq<char>, i: int) -> int
    decreases s.len() - i,
{
    if 0 <= i < s.len() && is_space(s[i]) {
        spaces_end(s, i + 1)
    } else {
        i
    }
}

/// Where the word that starts at `i` ends.
pub open spec fn word_end(s: Seq<char>, i: int) -> int
    decreases s.len() - i,
{
    if 0 <= i < s.len() && is_word_char(s[i]) {
        word_end(s, i + 1)
    } else {
        i
    }
}

/// Where the digits that start at `i` end.
pub open spec fn digits_end(s: Seq<char>, i: int) -> int
    decreases s.len() - i,
{
    if 0 <= i < s.len() && is_digit(s[i]) {
        digits_end(s, i + 1)
    } else {
        i
    }
}

/// Where the text that starts at `i` ends: where the next block starts, or
/// at the end of the source.
pub open spec fn text_end(s: Seq<char>, i: int) -> int
    decreases s.len() - i,
{
    if 0 <= i < s.len() && !block_starts(s, i) {
        text_end(s, i + 1)
    } else {
        i
    }
}

/// Where the next double quote at or after `i` stands, or the end of the
/// source.
pub open spec fn quote_at(s: Seq<char>, i: int) -> int
    decreases s.len() - i,
{
    if 0 <= i < s.len() && s[i] != '"' {
        quote_at(s, i + 1)
    } else {
        i
    }
}

/// The token that a word is: a keyword, or the name of a variable.
pub open spec fn word_token(word: Seq<char>) -> TokenView {
    if word == "if"@ {
        TokenView::If
    } else if word == "elsif"@ {
        TokenView::ElseIf
    } else if word == "else"@ {
        TokenView::Else
    } else if word == "end"@ {
        TokenView::End
    } else if word == "for"@ {
        TokenView::For
    } else if word == "in"@ {
        TokenView::In
    } else {
        TokenView::Variable(word)
    }
}

/// What stands at a place of the source.
pub enum Lexed {
    /// A token, from `start` up to `end`; after it the source is inside a
    /// block or not.
    Token { token: TokenView, start: int, end: int, in_block: bool },
    /// Nothing more.
    Done,
    /// Something that is no token, at `at`.
    Unknown { at: int },
}

/// What stands at `i`, inside a block or outside.
///
/// Outside a block: the start of a block, or text up to the next block.
/// Inside a block, after any spaces: the end of the block, a comparison, a
/// whole number that fits, text between double quotes, or a word.
pub open spec fn lexed_at(s: Seq<char>, i: int, in_block: bool) -> Lexed {
    if !in_block {
        if i >= s.len() {
            Lexed::Done
        } else if block_starts(s, i) && i + 2 < s.len() && s[i + 2] == '=' {
            Lexed::Token { token: TokenView::BlockStartPrint, start: i, end: i + 3, in_block: true }
        } else if block_starts(s, i) {
            Lexed::Token { token: TokenView::BlockStart, start: i, end: i + 2, in_block: true }
        } else {
            Lexed::Token {
                token: TokenView::Text(s.subrange(i, text_end(s, i))),
                start: i,
                end: text_end(s, i),
                in_block: false,
            }
        }
    } else {
        let k = spaces_end(s, i);
        if k >= s.len() {
            Lexed::Done
        } else if s[k] == '%' && k + 1 < s.len() && s[k + 1] == '>' {
            Lexed::Token { token: TokenView::BlockEnd, start: k, end: k + 2, in_block: false }
        } else if s[k] == '=' && k + 1 < s.len() && s[k + 1] == '=' {
            Lexed::Token { token: TokenView::Equals, start: k, end: k + 2, in_block: true }
        } else if s[k] == '!' && k + 1 < s.len() && s[k + 1] == '=' {
            Lexed::Token { token: TokenView::NotEquals, start: k, end: k + 2, in_block: true }
        } else if is_digit(s[k]) {
            let end = digits_end(s, k);
            if digits_value(s.subrange(k, end)) <= i64::MAX {
                Lexed::Token {
                    token: TokenView::Integer(digits_value(s.subrange(k, end)) as i64),
                    start: k,
                    end,
                    in_block: true,
                }
            } else {
                Lexed::Unknown { at: k }
            }
        } else if s[k] == '"' {
            let end = quote_at(s, k + 1);
            if end < s.len() {
                Lexed::Token {
                    token: TokenView::String(s.subrange(k + 1, end)),
                    start: k,
                    end: end + 1,
                    in_block: true,
                }
            } else {
                Lexed::Unknown { at: k }
            }
        } else if is_letter(s[k]) {
            Lexed::Token {
                token: word_token(s.subrange(k, word_end(s, k))),
                start: k,
                end: word_end(s, k),
                in_block: true,
            }
        } else {
            Lexed::Unknown { at: k }
        }
    }
}

/// The tokens of `s` from `i` on, after the tokens `done`.
pub open spec fn tokens_from(
    s: Seq<char>,
    i: int,
    in_block: bool,
    done: Seq<TokenWithContextView>,
) -> Result<Seq<TokenWithContextView>, ErrorView>
    decreases s.len() - i,
{
    match lexed_at(s, i, in_block) {
        Lexed::Done => Ok(done),
        Lexed::Unknown { at } => Err(ErrorView::UnknownToken(at as usize)),
        Lexed::Token { token, start, end, in_block } => if i < end <= s.len() {
            tokens_from(
                s,
                end,
                in_block,
                done.push(TokenWithContextView { token, position: start as usize }),
            )
        } else {
            Ok(done)
        },
    }
}

/// The tokens of the template `s`, or the place of what is no token.
pub open spec fn tokens_of(s: Seq<char>) -> Result<Seq<TokenWithContextView>, ErrorView> {
    tokens_from(s, 0, false, Seq::empty())
}

fn scan_spaces(chars: &Vec<char>, from: usize) -> (end: usize)
    requires
        from <= chars@.len(),
    ensures
        end == spaces_end(chars@, from as int),
        from <= end <= chars@.len(),
{
    let mut i: usize = from;
    while i < chars.len() && (chars[i] == ' ' || chars[i] == '\n' || chars[i] == '\t' || chars[i]
        == '\r')
        invariant
            from <= i <= chars@.len(),
            spaces_end(chars@, from as int) == spaces_end(chars@, i as int),
        decreases chars@.len() - i,
    {
        i += 1;
    }
    i
}

fn scan_word(chars: &Vec<char>, from: usize) -> (end: usize)
    requires
        from <= chars@.len(),
    ensures
        end == word_end(chars@, from as int),
        from <= end <= chars@.len(),
        from < chars@.len() && is_word_char(chars@[from as int]) ==> from < end,
{
    let mut i: usize = from;
    while i < chars.len() && (('a' <= chars[i] && chars[i] <= 'z') || ('A' <= chars[i] && chars[i]
        <= 'Z') || chars[i] == '_' || ('0' <= chars[i] && chars[i] <= '9'))
        invariant
            from <= i <= chars@.len(),
            word_end(chars@, from as int) == word_end(chars@, i as int),
        decreases chars@.len() - i,
    {
        i += 1;
    }
    i
}

fn scan_digits(chars: &Vec<char>, from: usize) -> (end: usize)
    requires
        from <= chars@.len(),
    ensures
        end == digits_end(chars@, from as int),
        from <= end <= chars@.len(),
        from < chars@.len() && is_digit(chars@[from as int]) ==> from < end,
        all_digits(chars@.subrange(from as int, end as int)),
{
    let mut i: usize = from;
    proof {
        assert(chars@.subrange(from as int, from as int) =~= Seq::empty());
    }
    while i < chars.len() && '0' <= chars[i] && chars[i] <= '9'
        invariant
            from <= i <= chars@.len(),
            digits_end(chars@, from as int) == digits_end(chars@, i as int),
            all_digits(chars@.subrange(from as int, i as int)),
        decreases chars@.len() - i,
    {
        proof {
            let next = chars@.subrange(from as int, i + 1);
            assert forall|k: int| 0 <= k < next.len() implies is_digit(#[trigger] next[k]) by {
                if k < i - from {
                    assert(next[k] == chars@.subrange(from as int, i as int)[k]);
                }
            }
        }
        i += 1;
    }
    i
}

fn scan_text(chars: &Vec<char>, from: usize) -> (end: usize)
    requires
        from <= chars@.len(),
    ensures
        end == text_end(chars@, from as int),
        from <= end <= chars@.len(),
        from < chars@.len() && !block_starts(chars@, from as int) ==> from < end,
{
    let mut i: usize = from;
    while i < chars.len() && !(chars[i] == '<' && i + 1 < chars.len() && chars[i + 1] == '%')
        invariant
            from <= i <= chars@.len(),
            text_end(chars@, from as int) == text_end(chars@, i as int),
        decreases chars@.len() - i,
    {
        i += 1;
    }
    i
}

fn scan_quote(chars: &Vec<char>, from: usize) -> (end: usize)
    requires
        from <= chars@.len(),
    ensures
        end == quote_at(chars@, from as int),
        from <= end <= chars@.len(),
{
    let mut i: usize = from;
    while i < chars.len() && chars[i] != '"'
        invariant
            from <= i <= chars@.len(),
            quote_at(chars@, from as int) == quote_at(chars@, i as int),
        decreases chars@.len() - i,
    {
        i += 1;
    }
    i
}

fn word_of(word: String) -> (r: Token)
    ensures
        r@ == word_token(word@),
{
    if same_text(word.as_str(), "if") {
        Token::If
    } else if same_text(word.as_str(), "elsif") {
        Token::ElseIf
    } else if same_text(word.as_str(), "else") {
        Token::Else
    } else if same_text(word.as_str(), "end") {
        Token::End
    } else if same_text(word.as_str(), "for") {
        Token::For
    } else if same_text(word.as_str(), "in") {
        Token::In
    } else {
        Token::Variable(word)
    }
}

/// What `lex` found: a token with its end, the end of the source, or the
/// place of what is no token.
enum Step {
    Token { token: TokenWithContext, end: usize, in_block: bool },
    Done,
    Unknown { at: usize },
}

fn lex(chars: &Vec<char>, i: usize, in_block: bool) -> (r: Step)
    requires
        i <= chars@.len(),
    ensures
        match lexed_at(chars@, i as int, in_block) {
            Lexed::Token { token, start, end, in_block: next } => r matches Step::Token {
                token: found,
                end: found_end,
                in_block: found_next,
            } && found@ == (TokenWithContextView { token, position: start as usize })
                && found_end == end && found_next == next && i < end <= chars@.len(),
            Lexed::Done => r is Done,
            Lexed::Unknown { at } => r matches Step::Unknown { at: found } && found == at,
        },
{
    let n = chars.len();
    if !in_block {
        if i >= n {
            Step::Done
        } else if chars[i] == '<' && n - i > 2 && chars[i + 1] == '%' && chars[i + 2] == '=' {
            Step::Token {
                token: TokenWithContext::new(Token::BlockStartPrint, i),
                end: i + 3,
                in_block: true,
            }
        } else if chars[i] == '<' && n - i > 1 && chars[i + 1] == '%' {
            Step::Token {
                token: TokenWithContext::new(Token::BlockStart, i),
                end: i + 2,
                in_block: true,
            }
        } else {
            let end = scan_text(chars, i);
            Step::Token {
                token: TokenWithContext::new(Token::Text(string_of(chars, i, end)), i),
                end,
                in_block: false,
            }
        }
    } else {
        let k = scan_spaces(chars, i);
        if k >= n {
            return Step::Done;
        }
        let c = chars[k];
        let pair = n - k > 1;
        if c == '%' && pair && chars[k + 1] == '>' {
            Step::Token {
                token: TokenWithContext::new(Token::BlockEnd, k),
                end: k + 2,
                in_block: false,
            }
        } else if c == '=' && pair && chars[k + 1] == '=' {
            Step::Token {
                token: TokenWithContext::new(Token::Equals, k),
                end: k + 2,
                in_block: true,
            }
        } else if c == '!' && pair && chars[k + 1] == '=' {
            Step::Token {
                token: TokenWithContext::new(Token::NotEquals, k),
                end: k + 2,
                in_block: true,
            }
        } else if '0' <= c && c <= '9' {
            let end = scan_digits(chars, k);
            proof {
                let digits = chars@.subrange(k as int, end as int);
                assert(digits[0] == c);
                assert(digits.len() > 0);
                assert(integer_of(digits) == Some(digits_value(digits) as int));
            }
            match integer_in(chars, k, end) {
                Some(i) => Step::Token {
                    token: TokenWithContext::new(Token::Integer(i), k),
                    end,
                    in_block: true,
                },
                None => Step::Unknown { at: k },
            }
        } else if c == '"' {
            let end = scan_quote(chars, k + 1);
            if end < n {
                Step::Token {
                    token: TokenWithContext::new(Token::String(string_of(chars, k + 1, end)), k),
                    end: end + 1,
                    in_block: true,
                }
            } else {
                Step::Unknown { at: k }
            }
        } else if ('a' <= c && c <= 'z') || ('A' <= c && c <= 'Z') || c == '_' {
            let end = scan_word(chars, k);
            Step::Token {
                token: TokenWithContext::new(word_of(string_of(chars, k, end)), k),
                end,
                in_block: true,
            }
        } else {
            Step::Unknown { at: k }
        }
    }
}

/// The tokens of a template, in order.
pub fn tokenize(source: &str) -> (r: Result<Vec<TokenWithContext>, Error>)
    ensures
        match tokens_of(source@) {
            Ok(tokens) => r matches Ok(found) && token_views(found@) == tokens,
            Err(error) => r matches Err(e) && e@ == error,
        },
{
    let chars = chars_of(source);
    let mut tokens: Vec<TokenWithContext> = Vec::new();
    let mut i: usize = 0;
    let mut in_block = false;
    proof {
        assert(token_views(tokens@) =~= Seq::empty());
    }
    loop
        invariant
            i <= chars@.len(),
            chars@ == source@,
            tokens_of(source@) == tokens_from(chars@, i as int, in_block, token_views(tokens@)),
        decreases chars@.len() - i,
    {
        let ghost done = token_views(tokens@);
        match lex(&chars, i, in_block) {
            Step::Done => {
                return Ok(tokens);
            },
            Step::Unknown { at } => {
                return Err(Error::UnknownToken(at));
            },
            Step::Token { token, end, in_block: next } => {
                tokens.push(token);
                proof {
                    assert(token_views(tokens@) =~= done.push(token@));
                }
                i = end;
                in_block = next;
            },
        }
    }
}

/// Source that can be split into tokens.
pub trait Tokenize {
    /// The characters of the source. An implementation says what they are;
    /// where it says nothing, nothing is known of them.
    open spec fn source(&self) -> Seq<char> {
        arbitrary()
    }

    /// The tokens of the source, in order.
    fn tokenize(&self) -> (r: Result<Vec<TokenWithContext>, Error>)
        ensures
            match tokens_of(self.source()) {
                Ok(tokens) => r matches Ok(found) && token_views(found@) == tokens,
                Err(error) => r matches Err(e) && e@ == error,
            },
    ;
}

impl Tokenize for str {
    open spec fn source(&self) -> Seq<char> {
        self@
    }

    fn tokenize(&self) -> (r: Result<Vec<TokenWithContext>, Error>) {
        tokenize(self)
    }
}

impl Tokenize for String {
    open spec fn source(&self) -> Seq<char> {
        self@
    }

    fn tokenize(&self) -> (r: Result<Vec<TokenWithContext>, Error>) {
        tokenize(self.as_str())
    }
}

} // verus!
