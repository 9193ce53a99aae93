//! The scanner and the recursive-descent parser that build the syntax tree
//! from source text.

use vstd::prelude::*;
use vstd::std_specs::cmp::PartialEqSpecImpl;
use crate::expr::{
    arms_view, erase_all, erase_arms, exprs_view, unannotated, Expr, ExprView, Info, Operator,
};
use crate::function::{Function, FunctionView};
use crate::program::{functions_view, Program, ProgramView};
use crate::text::{
    is_alphabetic, is_alphabetic_char, is_digit, is_digit_char, is_space, is_space_char, push_char,
    signed, signed_text, str_eq,
};
use crate::type_::{fields_view, types_view, Type, TypeView};

verus! {

/// A lexical token.
#[derive(Debug)]
pub enum Token {
    Plus,
    Minus,
    Ast,
    Slash,
    Percent,
    Equal,
    Colon,
    Semicolon,
    At,
    Dot,
    Eof,
    LeftParen,
    RightParen,
    LeftBrace,
    RightBrace,
    LeftBracket,
    RightBracket,
    Arrow,
    Ellipsis,
    EqualEqual,
    NotEqual,
    Func,
    Let,
    Type,
    If,
    Else,
    For,
    In,
    Number(i64),
    String(String),
    Identifier(String),
}

/// The mathematical value of a [`Token`].
pub ghost enum TokenView {
    Plus,
    Minus,
    Ast,
    Slash,
    Percent,
    Equal,
    Colon,
    Semicolon,
    At,
    Dot,
    Eof,
    LeftParen,
    RightParen,
    LeftBrace,
    RightBrace,
    LeftBracket,
    RightBracket,
    Arrow,
    Ellipsis,
    EqualEqual,
    NotEqual,
    Func,
    Let,
    Type,
    If,
    Else,
    For,
    In,
    Number(int),
    String(Seq<char>),
    Identifier(Seq<char>),
}

impl View for Token {
    type V = TokenView;

    open spec fn view(&self) -> TokenView {
        match self {
            Token::Plus => TokenView::Plus,
            Token::Minus => TokenView::Minus,
            Token::Ast => TokenView::Ast,
            Token::Slash => TokenView::Slash,
            Token::Percent => TokenView::Percent,
            Token::Equal => TokenView::Equal,
            Token::Colon => TokenView::Colon,
            Token::Semicolon => TokenView::Semicolon,
            Token::At => TokenView::At,
            Token::Dot => TokenView::Dot,
            Token::Eof => TokenView::Eof,
            Token::LeftParen => TokenView::LeftParen,
            Token::RightParen => TokenView::RightParen,
            Token::LeftBrace => TokenView::LeftBrace,
            Token::RightBrace => TokenView::RightBrace,
            Token::LeftBracket => TokenView::LeftBracket,
            Token::RightBracket => TokenView::RightBracket,
            Token::Arrow => TokenView::Arrow,
            Token::Ellipsis => TokenView::Ellipsis,
            Token::EqualEqual => TokenView::EqualEqual,
            Token::NotEqual => TokenView::NotEqual,
            Token::Func => TokenView::Func,
            Token::Let => TokenView::Let,
            Token::Type => TokenView::Type,
            Token::If => TokenView::If,
            Token::Else => TokenView::Else,
            Token::For => TokenView::For,
            Token::In => TokenView::In,
            Token::Number(n) => TokenView::Number(*n as int),
            Token::String(text) => TokenView::String(text@),
            Token::Identifier(name) => TokenView::Identifier(name@),
        }
    }
}

impl Token {
    /// Whether this token is a number.
    pub fn is_number(&self) -> (yes: bool)
        ensures
            yes == (self@ is Number),
    {
        match self {
            Token::Number(_) => true,
            _ => false,
        }
    }

    /// Whether this token is an identifier.
    pub fn is_identifier(&self) -> (yes: bool)
        ensures
            yes == (self@ is Identifier),
    {
        match self {
            Token::Identifier(_) => true,
            _ => false,
        }
    }

    /// Whether this token is a string.
    pub fn is_string(&self) -> (yes: bool)
        ensures
            yes == (self@ is String),
    {
        match self {
            Token::String(_) => true,
            _ => false,
        }
    }

    /// The value of a number token.
    pub fn as_number(&self) -> (r: Result<i64, String>)
        ensures
            match r {
                Ok(n) => self@ == TokenView::Number(n as int),
                Err(message) => !(self@ is Number) && message@ == "non number token"@,
            },
    {
        match self {
            Token::Number(n) => Ok(*n),
            _ => Err("non number token".to_string()),
        }
    }

    /// The name of an identifier token.
    pub fn as_identifier(&self) -> (r: Result<String, String>)
        ensures
            match r {
                Ok(name) => self@ == TokenView::Identifier(name@),
                Err(message) => !(self@ is Identifier) && message@ == "non Identifier token"@,
            },
    {
        match self {
            Token::Identifier(name) => Ok(name.clone()),
            _ => Err("non Identifier token".to_string()),
        }
    }

    /// The text of a string token.
    pub fn as_string(&self) -> (r: Result<String, String>)
        ensures
            match r {
                Ok(text) => self@ == TokenView::String(text@),
                Err(message) => !(self@ is String) && message@ == "non String token"@,
            },
    {
        match self {
            Token::String(text) => Ok(text.clone()),
            _ => Err("non String token".to_string()),
        }
    }

    /// Whether two tokens are the same kind with the same payload.
    pub fn same(&self, other: &Token) -> (equal: bool)
        ensures
            equal == (self@ == other@),
    {
        match (self, other) {
            (Token::Plus, Token::Plus) => true,
            (Token::Minus, Token::Minus) => true,
            (Token::Ast, Token::Ast) => true,
            (Token::Slash, Token::Slash) => true,
            (Token::Percent, Token::Percent) => true,
            (Token::Equal, Token::Equal) => true,
            (Token::Colon, Token::Colon) => true,
            (Token::Semicolon, Token::Semicolon) => true,
            (Token::At, Token::At) => true,
            (Token::Dot, Token::Dot) => true,
            (Token::Eof, Token::Eof) => true,
            (Token::LeftParen, Token::LeftParen) => true,
            (Token::RightParen, Token::RightParen) => true,
            (Token::LeftBrace, Token::LeftBrace) => true,
            (Token::RightBrace, Token::RightBrace) => true,
            (Token::LeftBracket, Token::LeftBracket) => true,
            (Token::RightBracket, Token::RightBracket) => true,
            (Token::Arrow, Token::Arrow) => true,
            (Token::Ellipsis, Token::Ellipsis) => true,
            (Token::EqualEqual, Token::EqualEqual) => true,
            (Token::NotEqual, Token::NotEqual) => true,
            (Token::Func, Token::Func) => true,
            (Token::Let, Token::Let) => true,
            (Token::Type, Token::Type) => true,
            (Token::If, Token::If) => true,
            (Token::Else, Token::Else) => true,
            (Token::For, Token::For) => true,
            (Token::In, Token::In) => true,
            (Token::Number(a), Token::Number(b)) => *a == *b,
            (Token::String(a), Token::String(b)) => str_eq(a.as_str(), b.as_str()),
            (Token::Identifier(a), Token::Identifier(b)) => str_eq(a.as_str(), b.as_str()),
            _ => false,
        }
    }
}

impl Clone for Token {
    fn clone(&self) -> (copy: Self)
        ensures
            copy@ == self@,
    {
        match self {
            Token::Plus => Token::Plus,
            Token::Minus => Token::Minus,
            Token::Ast => Token::Ast,
            Token::Slash => Token::Slash,
            Token::Percent => Token::Percent,
            Token::Equal => Token::Equal,
            Token::Colon => Token::Colon,
            Token::Semicolon => Token::Semicolon,
            Token::At => Token::At,
            Token::Dot => Token::Dot,
            Token::Eof => Token::Eof,
            Token::LeftParen => Token::LeftParen,
            Token::RightParen => Token::RightParen,
            Token::LeftBrace => Token::LeftBrace,
            Token::RightBrace => Token::RightBrace,
            Token::LeftBracket => Token::LeftBracket,
            Token::RightBracket => Token::RightBracket,
            Token::Arrow => Token::Arrow,
            Token::Ellipsis => Token::Ellipsis,
            Token::EqualEqual => Token::EqualEqual,
            Token::NotEqual => Token::NotEqual,
            Token::Func => Token::Func,
            Token::Let => Token::Let,
            Token::Type => Token::Type,
            Token::If => Token::If,
            Token::Else => Token::Else,
            Token::For => Token::For,
            Token::In => Token::In,
            Token::Number(n) => Token::Number(*n),
            Token::String(text) => Token::String(text.clone()),
            Token::Identifier(name) => Token::Identifier(name.clone()),
        }
    }
}

impl PartialEq for Token {
    fn eq(&self, other: &Token) -> (equal: bool) {
        self.same(other)
    }
}

impl Eq for Token {

}

impl PartialEqSpecImpl for Token {
    open spec fn obeys_eq_spec() -> bool {
        true
    }

    open spec fn eq_spec(&self, other: &Token) -> bool {
        self@ == other@
    }
}

/// Whether `c` may stand in an identifier: a letter, a digit or `_`.
pub open spec fn is_word(c: char) -> bool {
    is_alphabetic(c) || is_digit(c) || c == '_'
}

/// The first position at or after `from` that holds no white space.
pub open spec fn skip_spaces(s: Seq<char>, from: int) -> int
    decreases s.len() - from,
{
    if 0 <= from < s.len() && is_space(s[from]) {
        skip_spaces(s, from + 1)
    } else {
        from
    }
}

/// The first position at or after `from` that holds no digit.
pub open spec fn digits_end(s: Seq<char>, from: int) -> int
    decreases s.len() - from,
{
    if 0 <= from < s.len() && is_digit(s[from]) {
        digits_end(s, from + 1)
    } else {
        from
    }
}

/// The first position at or after `from` that holds no identifier character.
pub open spec fn word_end(s: Seq<char>, from: int) -> int
    decreases s.len() - from,
{
    if 0 <= from < s.len() && is_word(s[from]) {
        word_end(s, from + 1)
    } else {
        from
    }
}

/// The first position at or after `from` that holds a double quote, or the
/// length of `s` if there is none.
pub open spec fn quote_at(s: Seq<char>, from: int) -> int
    decreases s.len() - from,
{
    if 0 <= from < s.len() && s[from] != '"' {
        quote_at(s, from + 1)
    } else {
        from
    }
}

/// The number that the digits of `s` from `from` up to `to` spell.
pub open spec fn number_value(s: Seq<char>, from: int, to: int) -> nat
    decreases to - from,
{
    if to <= from {
        0
    } else {
        number_value(s, from, to - 1) * 10 + (s[to - 1] as u32 - 48) as nat
    }
}

/// `s` without the white space at its end.
pub open spec fn trim_end(s: Seq<char>) -> Seq<char>
    decreases s.len(),
{
    if s.len() > 0 && is_space(s.last()) {
        trim_end(s.drop_last())
    } else {
        s
    }
}

/// The token that a single punctuation character spells.
pub open spec fn punctuation(c: char) -> Option<TokenView> {
    if c == '+' {
        Some(TokenView::Plus)
    } else if c == '-' {
        Some(TokenView::Minus)
    } else if c == '*' {
        Some(TokenView::Ast)
    } else if c == '/' {
        Some(TokenView::Slash)
    } else if c == '%' {
        Some(TokenView::Percent)
    } else if c == '=' {
        Some(TokenView::Equal)
    } else if c == ':' {
        Some(TokenView::Colon)
    } else if c == ';' {
        Some(TokenView::Semicolon)
    } else if c == '@' {
        Some(TokenView::At)
    } else if c == '.' {
        Some(TokenView::Dot)
    } else if c == '(' {
        Some(TokenView::LeftParen)
    } else if c == ')' {
        Some(TokenView::RightParen)
    } else if c == '{' {
        Some(TokenView::LeftBrace)
    } else if c == '}' {
        Some(TokenView::RightBrace)
    } else if c == '[' {
        Some(TokenView::LeftBracket)
    } else if c == ']' {
        Some(TokenView::RightBracket)
    } else {
        None
    }
}

/// The token that a word spells: a keyword, or else an identifier.
pub open spec fn word_token(word: Seq<char>) -> TokenView {
    if word == "func"@ {
        TokenView::Func
    } else if word == "type"@ {
        TokenView::Type
    } else if word == "let"@ {
        TokenView::Let
    } else if word == "if"@ {
        TokenView::If
    } else if word == "else"@ {
        TokenView::Else
    } else if word == "for"@ {
        TokenView::For
    } else if word == "in"@ {
        TokenView::In
    } else {
        TokenView::Identifier(word)
    }
}

/// The token of two characters that `a` and `b` spell together.
pub open spec fn pair_token(a: char, b: char) -> Option<TokenView> {
    if a == '-' && b == '>' {
        Some(TokenView::Arrow)
    } else if a == '.' && b == '.' {
        Some(TokenView::Ellipsis)
    } else if a == '=' && b == '=' {
        Some(TokenView::EqualEqual)
    } else if a == '!' && b == '=' {
        Some(TokenView::NotEqual)
    } else {
        None
    }
}

/// The next token of `s` at or after position `from`, and the position
/// behind it; or why there is none.
///
/// White space before the token is skipped, and the end of the text is the
/// token `Eof`. A token of two characters is recognized only where more text
/// follows it. Then come the single punctuation characters, numbers, strings
/// in double quotes, and words.
#[verifier::opaque]
pub open spec fn scan(s: Seq<char>, from: int) -> Result<(TokenView, int), Seq<char>> {
    let start = skip_spaces(s, from);
    if start >= s.len() {
        Ok((TokenView::Eof, start))
    } else if s.len() - start > 2 && pair_token(s[start], s[start + 1]) is Some {
        Ok((pair_token(s[start], s[start + 1])->0, start + 2))
    } else if punctuation(s[start]) is Some {
        Ok((punctuation(s[start])->0, start + 1))
    } else if is_digit(s[start]) {
        let end = digits_end(s, start);
        if number_value(s, start, end) > i64::MAX {
            Err("number too large: "@ + s.subrange(start, end))
        } else {
            Ok((TokenView::Number(number_value(s, start, end) as int), end))
        }
    } else if s[start] == '"' {
        let close = quote_at(s, start + 1);
        if close >= s.len() {
            Err("unterminated string: "@ + s.subrange(start, s.len() as int))
        } else {
            Ok((TokenView::String(s.subrange(start + 1, close)), close + 1))
        }
    } else if is_word(s[start]) {
        let end = word_end(s, start);
        Ok((word_token(s.subrange(start, end)), end))
    } else {
        Err("unknown token: "@ + s.subrange(start, s.len() as int))
    }
}

/// The result of lexing one token.
pub type LexResult = Result<Token, String>;

/// A scanner over a source text; it hands out the tokens one by one.
#[derive(Debug)]
pub struct Scanner {
    chars: Vec<char>,
    at: usize,
}

impl Scanner {
    /// The text that is scanned: the source without the white space at its end.
    pub closed spec fn input(&self) -> Seq<char> {
        self.chars@
    }

    /// The position in the text up to which tokens have been handed out.
    pub closed spec fn position(&self) -> int {
        self.at as int
    }

    #[verifier::type_invariant]
    spec fn inv(&self) -> bool {
        self.at <= self.chars.len()
    }

    /// A scanner at the start of `input`.
    pub fn new(input: &str) -> (scanner: Self)
        ensures
            scanner.input() == trim_end(input@),
            scanner.position() == 0,
    {
        let mut chars: Vec<char> = Vec::new();
        for c in it: input.chars()
            invariant
                it.seq() == input@,
                chars@ == input@.subrange(0, it.index() as int),
        {
            chars.push(c);
            assert(chars@ =~= input@.subrange(0, it.index() + 1));
        }
        assert(chars@ =~= input@);
        while chars.len() > 0 && is_space_char(chars[chars.len() - 1])
            invariant
                trim_end(chars@) == trim_end(input@),
            decreases chars.len(),
        {
            chars.pop();
        }
        Scanner { chars, at: 0 }
    }

    /// The text between two positions.
    fn text_between(&self, from: usize, to: usize) -> (text: String)
        requires
            from <= to <= self.input().len(),
        ensures
            text@ == self.input().subrange(from as int, to as int),
    {
        let mut text = String::new();
        let mut i: usize = from;
        while i < to
            invariant
                from <= i <= to <= self.chars.len(),
                text@ == self.chars@.subrange(from as int, i as int),
            decreases to - i,
        {
            push_char(&mut text, self.chars[i]);
            assert(text@ =~= self.chars@.subrange(from as int, i + 1));
            i += 1;
        }
        text
    }

    /// The first position at or after `from` that holds no white space.
    fn after_spaces(&self, from: usize) -> (start: usize)
        requires
            from <= self.input().len(),
        ensures
            start == skip_spaces(self.input(), from as int),
            from <= start <= self.input().len(),
    {
        let mut i: usize = from;
        while i < self.chars.len() && is_space_char(self.chars[i])
            invariant
                from <= i <= self.chars.len(),
                skip_spaces(self.chars@, from as int) == skip_spaces(self.chars@, i as int),
            decreases self.chars.len() - i,
        {
            i += 1;
        }
        i
    }

    /// Reads the number that starts at `start`.
    fn number_at(&self, start: usize) -> (r: Result<(Token, usize), String>)
        requires
            start < self.input().len(),
            is_digit(self.input()[start as int]),
        ensures
            ({
                let s = self.input();
                let end = digits_end(s, start as int);
                match r {
                    Ok((token, behind)) => number_value(s, start as int, end) <= i64::MAX && token@
                        == TokenView::Number(number_value(s, start as int, end) as int) && behind
                        == end && start < behind <= s.len(),
                    Err(message) => number_value(s, start as int, end) > i64::MAX && message@
                        == "number too large: "@ + s.subrange(start as int, end),
                }
            }),
    {
        let mut i: usize = start;
        let mut value: i64 = 0;
        let mut fits = true;
        while i < self.chars.len() && is_digit_char(self.chars[i])
            invariant
                start <= i <= self.chars.len(),
                digits_end(self.chars@, start as int) == digits_end(self.chars@, i as int),
                i > start || is_digit(self.chars@[i as int]),
                value >= 0,
                fits ==> value == number_value(self.chars@, start as int, i as int),
                !fits ==> number_value(self.chars@, start as int, i as int) > i64::MAX,
            decreases self.chars.len() - i,
        {
            let d = (self.chars[i] as u32 - 48) as i64;
            if fits && value <= (i64::MAX - d) / 10 {
                value = value * 10 + d;
            } else {
                fits = false;
            }
            i += 1;
        }
        if fits {
            Ok((Token::Number(value), i))
        } else {
            let mut message = "number too large: ".to_string();
            message.append(self.text_between(start, i).as_str());
            Err(message)
        }
    }

    /// Reads the string that starts with the double quote at `start`.
    fn string_at(&self, start: usize) -> (r: Result<(Token, usize), String>)
        requires
            start < self.input().len(),
        ensures
            ({
                let s = self.input();
                let close = quote_at(s, start + 1);
                match r {
                    Ok((token, behind)) => close < s.len() && token@ == TokenView::String(
                        s.subrange(start + 1, close),
                    ) && behind == close + 1 && start < behind <= s.len(),
                    Err(message) => close >= s.len() && message@ == "unterminated string: "@
                        + s.subrange(start as int, s.len() as int),
                }
            }),
    {
        assert(start < self.chars.len());
        let mut i: usize = start + 1;
        while i < self.chars.len() && self.chars[i] != '"'
            invariant
                start < i <= self.chars.len(),
                quote_at(self.chars@, start + 1) == quote_at(self.chars@, i as int),
            decreases self.chars.len() - i,
        {
            i += 1;
        }
        if i < self.chars.len() {
            Ok((Token::String(self.text_between(start + 1, i)), i + 1))
        } else {
            let mut message = "unterminated string: ".to_string();
            message.append(self.text_between(start, self.chars.len()).as_str());
            Err(message)
        }
    }

    /// Reads the word that starts at `start`.
    fn word_at(&self, start: usize) -> (r: (Token, usize))
        requires
            start < self.input().len(),
            is_word(self.input()[start as int]),
        ensures
            ({
                let s = self.input();
                let end = word_end(s, start as int);
                r.0@ == word_token(s.subrange(start as int, end)) && r.1 == end && start < r.1
                    <= s.len()
            }),
    {
        assert(start < self.chars.len());
        let mut i: usize = start + 1;
        while i < self.chars.len() && is_word_char(self.chars[i])
            invariant
                start < i <= self.chars.len(),
                word_end(self.chars@, start as int) == word_end(self.chars@, i as int),
            decreases self.chars.len() - i,
        {
            i += 1;
        }
        let word = self.text_between(start, i);
        let token = if str_eq(word.as_str(), "func") {
            Token::Func
        } else if str_eq(word.as_str(), "type") {
            Token::Type
        } else if str_eq(word.as_str(), "let") {
            Token::Let
        } else if str_eq(word.as_str(), "if") {
            Token::If
        } else if str_eq(word.as_str(), "else") {
            Token::Else
        } else if str_eq(word.as_str(), "for") {
            Token::For
        } else if str_eq(word.as_str(), "in") {
            Token::In
        } else {
            Token::Identifier(word)
        };
        (token, i)
    }

    /// The next token at or after the current position, and the position
    /// behind it.
    fn scan_ahead(&self) -> (r: Result<(Token, usize), String>)
        ensures
            match r {
                Ok((token, behind)) => scan(self.input(), self.position()) == Ok::<
                    (TokenView, int),
                    Seq<char>,
                >((token@, behind as int)) && self.position() <= behind <= self.input().len() && (
                token@ is Eof || self.position() < behind),
                Err(message) => scan(self.input(), self.position()) == Err::<
                    (TokenView, int),
                    Seq<char>,
                >(message@),
            },
    {
        proof {
            use_type_invariant(self);
            reveal(scan);
        }
        let start = self.after_spaces(self.at);
        if start >= self.chars.len() {
            return Ok((Token::Eof, start));
        }
        let c = self.chars[start];
        if self.chars.len() - start > 2 {
            match pair_token_of(c, self.chars[start + 1]) {
                Some(token) => {
                    return Ok((token, start + 2));
                },
                None => {},
            }
        }
        match punctuation_of(c) {
            Some(token) => {
                return Ok((token, start + 1));
            },
            None => {},
        }
        if is_digit_char(c) {
            self.number_at(start)
        } else if c == '"' {
            self.string_at(start)
        } else if is_word_char(c) {
            Ok(self.word_at(start))
        } else {
            let mut message = "unknown token: ".to_string();
            message.append(self.text_between(start, self.chars.len()).as_str());
            Err(message)
        }
    }

    /// Hands out the next token and moves behind it. At the end of the text
    /// the token is `Eof`; where no token can be read the scanner stays where
    /// it is.
    pub fn next(&mut self) -> (r: LexResult)
        ensures
            final(self).input() == old(self).input(),
            ({
                let s = old(self).input();
                let from = old(self).position();
                let behind = final(self).position();
                match r {
                    Ok(token) => scan(s, from) == Ok::<(TokenView, int), Seq<char>>(
                        (token@, behind),
                    ) && from <= behind <= s.len() && (token@ is Eof || from < behind),
                    Err(message) => scan(s, from) == Err::<(TokenView, int), Seq<char>>(message@)
                        && behind == from,
                }
            }),
    {
        match self.scan_ahead() {
            Ok((token, behind)) => {
                self.at = behind;
                Ok(token)
            },
            Err(message) => Err(message),
        }
    }

    /// The token that [`Scanner::next`] would hand out, without moving.
    pub fn peek(&self) -> (r: LexResult)
        ensures
            match r {
                Ok(token) => scan(self.input(), self.position()) matches Ok((t, _)) && t == token@,
                Err(message) => scan(self.input(), self.position()) == Err::<
                    (TokenView, int),
                    Seq<char>,
                >(message@),
            },
    {
        match self.scan_ahead() {
            Ok((token, _)) => Ok(token),
            Err(message) => Err(message),
        }
    }
}

/// Whether `c` may stand in an identifier.
pub fn is_word_char(c: char) -> (yes: bool)
    ensures
        yes == is_word(c),
{
    is_alphabetic_char(c) || is_digit_char(c) || c == '_'
}

/// The token that a single punctuation character spells.
pub fn punctuation_of(c: char) -> (token: Option<Token>)
    ensures
        match token {
            Some(t) => punctuation(c) == Some(t@),
            None => punctuation(c) is None,
        },
{
    if c == '+' {
        Some(Token::Plus)
    } else if c == '-' {
        Some(Token::Minus)
    } else if c == '*' {
        Some(Token::Ast)
    } else if c == '/' {
        Some(Token::Slash)
    } else if c == '%' {
        Some(Token::Percent)
    } else if c == '=' {
        Some(Token::Equal)
    } else if c == ':' {
        Some(Token::Colon)
    } else if c == ';' {
        Some(Token::Semicolon)
    } else if c == '@' {
        Some(Token::At)
    } else if c == '.' {
        Some(Token::Dot)
    } else if c == '(' {
        Some(Token::LeftParen)
    } else if c == ')' {
        Some(Token::RightParen)
    } else if c == '{' {
        Some(Token::LeftBrace)
    } else if c == '}' {
        Some(Token::RightBrace)
    } else if c == '[' {
        Some(Token::LeftBracket)
    } else if c == ']' {
        Some(Token::RightBracket)
    } else {
        None
    }
}

/// The token of two characters that `a` and `b` spell together.
pub fn pair_token_of(a: char, b: char) -> (token: Option<Token>)
    ensures
        match token {
            Some(t) => pair_token(a, b) == Some(t@),
            None => pair_token(a, b) is None,
        },
{
    if a == '-' && b == '>' {
        Some(Token::Arrow)
    } else if a == '.' && b == '.' {
        Some(Token::Ellipsis)
    } else if a == '=' && b == '=' {
        Some(Token::EqualEqual)
    } else if a == '!' && b == '=' {
        Some(Token::NotEqual)
    } else {
        None
    }
}

/// How a token is written in a message.
pub open spec fn spelling(t: TokenView) -> Seq<char> {
    match t {
        TokenView::Plus => "+"@,
        TokenView::Minus => "-"@,
        TokenView::Ast => "*"@,
        TokenView::Slash => "/"@,
        TokenView::Percent => "%"@,
        TokenView::Equal => "="@,
        TokenView::Colon => ":"@,
        TokenView::Semicolon => ";"@,
        TokenView::At => "@"@,
        TokenView::Dot => "."@,
        TokenView::Eof => "end of input"@,
        TokenView::LeftParen => "("@,
        TokenView::RightParen => ")"@,
        TokenView::LeftBrace => "{"@,
        TokenView::RightBrace => "}"@,
        TokenView::LeftBracket => "["@,
        TokenView::RightBracket => "]"@,
        TokenView::Arrow => "->"@,
        TokenView::Ellipsis => ".."@,
        TokenView::EqualEqual => "=="@,
        TokenView::NotEqual => "!="@,
        TokenView::Func => "func"@,
        TokenView::Let => "let"@,
        TokenView::Type => "type"@,
        TokenView::If => "if"@,
        TokenView::Else => "else"@,
        TokenView::For => "for"@,
        TokenView::In => "in"@,
        TokenView::Number(n) => signed(n),
        TokenView::String(text) => "\""@ + text + "\""@,
        TokenView::Identifier(name) => name,
    }
}

/// The message for a token that is not the one that must come.
pub open spec fn mismatch(expected: TokenView, got: TokenView) -> Seq<char> {
    "parsing error: "@ + spelling(expected) + " was expected, but "@ + spelling(got) + " is coming"@
}

/// The message for a token with which nothing can start here.
pub open spec fn unexpected(got: TokenView) -> Seq<char> {
    "parsing error: unexpected "@ + spelling(got)
}

/// The message of a parse that does not move forward; no text gives it.
pub open spec fn stuck() -> Seq<char> {
    "parsing error: no progress"@
}

/// Whether position `to` lies strictly behind `from` and within `s`.
pub open spec fn moved(s: Seq<char>, from: int, to: int) -> bool {
    from < to <= s.len()
}

/// A parse: what was read, and the position behind it; or a message.
pub type Parsed<T> = Result<(T, int), Seq<char>>;

/// The position behind the next token, which must be `token`.
pub open spec fn expect(s: Seq<char>, at: int, token: TokenView) -> Result<int, Seq<char>> {
    match scan(s, at) {
        Err(message) => Err(message),
        Ok((t, behind)) => if t == token {
            Ok(behind)
        } else {
            Err(mismatch(token, t))
        },
    }
}

/// The name that the next token, which must be an identifier, spells.
pub open spec fn identifier(s: Seq<char>, at: int) -> Parsed<Seq<char>> {
    match scan(s, at) {
        Err(message) => Err(message),
        Ok((TokenView::Identifier(name), behind)) => Ok((name, behind)),
        Ok(_) => Err("non Identifier token"@),
    }
}

/// A type: primitive types joined by `->`, of which the last is the return
/// type of a function over the others; a single one stands for itself.
pub open spec fn parse_type(s: Seq<char>, at: int) -> Parsed<TypeView>
    decreases s.len() - at, 2int,
{
    match parse_primitive_type(s, at) {
        Err(message) => Err(message),
        Ok((first, p)) => if !moved(s, at, p) {
            Err(stuck())
        } else {
            parse_type_rest(s, p, seq![first])
        },
    }
}

/// The rest of a type after the primitive types `seen`.
pub open spec fn parse_type_rest(s: Seq<char>, at: int, seen: Seq<TypeView>) -> Parsed<TypeView>
    decreases s.len() - at, 0int,
{
    match scan(s, at) {
        Err(message) => Err(message),
        Ok((TokenView::Arrow, p)) => if !moved(s, at, p) {
            Err(stuck())
        } else {
            match parse_primitive_type(s, p) {
                Err(message) => Err(message),
                Ok((t, q)) => if !moved(s, at, q) {
                    Err(stuck())
                } else {
                    parse_type_rest(s, q, seen.push(t))
                },
            }
        },
        Ok(_) => Ok(
            (
                if seen.len() == 1 {
                    seen[0]
                } else {
                    TypeView::Function(Box::new(seen.last()), seen.drop_last())
                },
                at,
            ),
        ),
    }
}

/// A primitive type: a name, or a name with an element type in brackets.
pub open spec fn parse_primitive_type(s: Seq<char>, at: int) -> Parsed<TypeView>
    decreases s.len() - at, 1int,
{
    match identifier(s, at) {
        Err(message) => Err(message),
        Ok((name, p)) => match scan(s, p) {
            Err(message) => Err(message),
            Ok((TokenView::LeftBracket, q)) => if !moved(s, at, q) {
                Err(stuck())
            } else {
                match parse_type(s, q) {
                    Err(message) => Err(message),
                    Ok((t, r)) => match expect(s, r, TokenView::RightBracket) {
                        Err(message) => Err(message),
                        Ok(u) => Ok((TypeView::Generic(name, Box::new(t)), u)),
                    },
                }
            },
            Ok(_) => Ok((TypeView::Primitive(name), p)),
        },
    }
}

/// An expression.
pub open spec fn parse_expression(s: Seq<char>, at: int) -> Parsed<ExprView>
    decreases s.len() - at, 12int,
{
    parse_let(s, at)
}

/// `let name = init; body`, or a sequence.
pub open spec fn parse_let(s: Seq<char>, at: int) -> Parsed<ExprView>
    decreases s.len() - at, 11int,
{
    match scan(s, at) {
        Err(message) => Err(message),
        Ok((TokenView::Let, p)) => match identifier(s, p) {
            Err(message) => Err(message),
            Ok((name, q)) => match expect(s, q, TokenView::Equal) {
                Err(message) => Err(message),
                Ok(r) => if !moved(s, at, r) {
                    Err(stuck())
                } else {
                    match parse_if(s, r) {
                        Err(message) => Err(message),
                        Ok((init, u)) => match expect(s, u, TokenView::Semicolon) {
                            Err(message) => Err(message),
                            Ok(v) => if !moved(s, at, v) {
                                Err(stuck())
                            } else {
                                match parse_expression(s, v) {
                                    Err(message) => Err(message),
                                    Ok((body, w)) => Ok(
                                        (
                                            ExprView::Let(
                                                name,
                                                Box::new(init),
                                                Box::new(body),
                                                None,
                                            ),
                                            w,
                                        ),
                                    ),
                                }
                            },
                        },
                    }
                },
            },
        },
        Ok(_) => parse_sequence(s, at),
    }
}

/// Expressions joined by `;`, grouped to the right.
pub open spec fn parse_sequence(s: Seq<char>, at: int) -> Parsed<ExprView>
    decreases s.len() - at, 10int,
{
    match parse_if(s, at) {
        Err(message) => Err(message),
        Ok((first, p)) => match scan(s, p) {
            Err(message) => Err(message),
            Ok((TokenView::Semicolon, q)) => if !moved(s, at, q) {
                Err(stuck())
            } else {
                match parse_sequence(s, q) {
                    Err(message) => Err(message),
                    Ok((second, r)) => Ok(
                        (ExprView::Sequence(Box::new(first), Box::new(second), None), r),
                    ),
                }
            },
            Ok(_) => Ok((first, p)),
        },
    }
}

/// `if cond { then } else if cond { body } else { otherwise }` with any
/// number of else-if arms, or a loop.
pub open spec fn parse_if(s: Seq<char>, at: int) -> Parsed<ExprView>
    decreases s.len() - at, 9int,
{
    match scan(s, at) {
        Err(message) => Err(message),
        Ok((TokenView::If, p)) => if !moved(s, at, p) {
            Err(stuck())
        } else {
            match parse_arm(s, p) {
                Err(message) => Err(message),
                Ok((first, q)) => if !moved(s, at, q) {
                    Err(stuck())
                } else {
                    match parse_else_ifs(s, q, Seq::empty()) {
                        Err(message) => Err(message),
                        Ok((arms, r)) => match guarded_block(s, at, r) {
                            Err(message) => Err(message),
                            Ok((otherwise, u)) => Ok(
                                (
                                    ExprView::If(
                                        Box::new(first.0),
                                        Box::new(first.1),
                                        arms,
                                        Box::new(otherwise),
                                        None,
                                    ),
                                    u,
                                ),
                            ),
                        },
                    }
                },
            }
        },
        Ok(_) => parse_for(s, at),
    }
}

/// What follows an `if`: the condition, the body in braces, and `else`.
pub open spec fn parse_arm(s: Seq<char>, at: int) -> Parsed<(ExprView, ExprView)>
    decreases s.len() - at, 8int,
{
    match parse_equal(s, at) {
        Err(message) => Err(message),
        Ok((cond, p)) => match guarded_block(s, at, p) {
            Err(message) => Err(message),
            Ok((body, q)) => match expect(s, q, TokenView::Else) {
                Err(message) => Err(message),
                Ok(r) => Ok(((cond, body), r)),
            },
        },
    }
}

/// An expression in braces.
pub open spec fn parse_block(s: Seq<char>, at: int) -> Parsed<ExprView>
    decreases s.len() - at, 13int,
{
    match expect(s, at, TokenView::LeftBrace) {
        Err(message) => Err(message),
        Ok(p) => if !moved(s, at, p) {
            Err(stuck())
        } else {
            match parse_expression(s, p) {
                Err(message) => Err(message),
                Ok((body, q)) => match expect(s, q, TokenView::RightBrace) {
                    Err(message) => Err(message),
                    Ok(r) => Ok((body, r)),
                },
            }
        },
    }
}

/// An expression in braces at position `at`, which lies behind `floor`.
pub open spec fn guarded_block(s: Seq<char>, floor: int, at: int) -> Parsed<ExprView>
    decreases s.len() - floor, 0int,
{
    if !moved(s, floor, at) {
        Err(stuck())
    } else {
        parse_block(s, at)
    }
}

/// The else-if arms of an `If` that follow the arms `seen`.
pub open spec fn parse_else_ifs(s: Seq<char>, at: int, seen: Seq<(ExprView, ExprView)>) -> Parsed<
    Seq<(ExprView, ExprView)>,
>
    decreases s.len() - at, 0int,
{
    match scan(s, at) {
        Err(message) => Err(message),
        Ok((TokenView::If, p)) => if !moved(s, at, p) {
            Err(stuck())
        } else {
            match parse_arm(s, p) {
                Err(message) => Err(message),
                Ok((arm, q)) => if !moved(s, at, q) {
                    Err(stuck())
                } else {
                    parse_else_ifs(s, q, seen.push(arm))
                },
            }
        },
        Ok(_) => Ok((seen, at)),
    }
}

/// `for name in from..to { body }`, or a comparison.
pub open spec fn parse_for(s: Seq<char>, at: int) -> Parsed<ExprView>
    decreases s.len() - at, 8int,
{
    match scan(s, at) {
        Err(message) => Err(message),
        Ok((TokenView::For, p)) => match identifier(s, p) {
            Err(message) => Err(message),
            Ok((name, q)) => match expect(s, q, TokenView::In) {
                Err(message) => Err(message),
                Ok(r) => if !moved(s, at, r) {
                    Err(stuck())
                } else {
                    match parse_if(s, r) {
                        Err(message) => Err(message),
                        Ok((from, u)) => match expect(s, u, TokenView::Ellipsis) {
                            Err(message) => Err(message),
                            Ok(v) => if !moved(s, at, v) {
                                Err(stuck())
                            } else {
                                match parse_if(s, v) {
                                    Err(message) => Err(message),
                                    Ok((to, w)) => match guarded_block(s, at, w) {
                                        Err(message) => Err(message),
                                        Ok((body, x)) => Ok(
                                            (
                                                ExprView::For(
                                                    name,
                                                    Box::new(from),
                                                    Box::new(to),
                                                    Box::new(body),
                                                    None,
                                                ),
                                                x,
                                            ),
                                        ),
                                    },
                                }
                            },
                        },
                    }
                },
            },
        },
        Ok(_) => parse_equal(s, at),
    }
}

/// The operator that a token spells at a level of precedence: level 3 holds
/// the comparisons, level 2 addition and subtraction, level 1
/// multiplication, division and remainder.
pub open spec fn operator_at(level: int, t: TokenView) -> Option<Operator> {
    if level == 3 {
        match t {
            TokenView::EqualEqual => Some(Operator::Equal),
            TokenView::NotEqual => Some(Operator::NotEqual),
            _ => None,
        }
    } else if level == 2 {
        match t {
            TokenView::Plus => Some(Operator::Add),
            TokenView::Minus => Some(Operator::Sub),
            _ => None,
        }
    } else if level == 1 {
        match t {
            TokenView::Ast => Some(Operator::Mult),
            TokenView::Slash => Some(Operator::Div),
            TokenView::Percent => Some(Operator::Surplus),
            _ => None,
        }
    } else {
        None
    }
}

/// Comparisons, grouped to the left.
pub open spec fn parse_equal(s: Seq<char>, at: int) -> Parsed<ExprView>
    decreases s.len() - at, 7int,
{
    parse_operators(s, at, 3)
}

/// The operands of the operators of `level`, grouped to the left; an
/// operand is an expression of the next level down, or a call at level zero.
pub open spec fn parse_operators(s: Seq<char>, at: int, level: int) -> Parsed<ExprView>
    decreases
        s.len() - at,
        (if 0 < level <= 3 {
            3 + level
        } else {
            3int
        }),

{
    if level <= 0 || level > 3 {
        parse_apply(s, at)
    } else {
        match parse_operators(s, at, level - 1) {
            Err(message) => Err(message),
            Ok((first, p)) => if !moved(s, at, p) {
                Err(stuck())
            } else {
                parse_operators_rest(s, p, level, first)
            },
        }
    }
}

/// The rest of a chain of operators of `level` whose value so far is `seen`.
pub open spec fn parse_operators_rest(s: Seq<char>, at: int, level: int, seen: ExprView) -> Parsed<
    ExprView,
>
    decreases s.len() - at, 0int,
{
    match scan(s, at) {
        Err(message) => Err(message),
        Ok((t, p)) => match operator_at(level, t) {
            None => Ok((seen, at)),
            Some(op) => if !moved(s, at, p) || level <= 0 || level > 3 {
                Err(stuck())
            } else {
                match parse_operators(s, p, level - 1) {
                    Err(message) => Err(message),
                    Ok((right, q)) => if !moved(s, at, q) {
                        Err(stuck())
                    } else {
                        parse_operators_rest(
                            s,
                            q,
                            level,
                            ExprView::Binary(op, Box::new(seen), Box::new(right), None),
                        )
                    },
                }
            },
        },
    }
}

/// A call `callee @ argument @ argument`, or a field access.
pub open spec fn parse_apply(s: Seq<char>, at: int) -> Parsed<ExprView>
    decreases s.len() - at, 2int,
{
    match parse_dot(s, at) {
        Err(message) => Err(message),
        Ok((callee, p)) => match scan(s, p) {
            Err(message) => Err(message),
            Ok((TokenView::At, _)) => if !moved(s, at, p) {
                Err(stuck())
            } else {
                parse_arguments(s, p, callee, Seq::empty())
            },
            Ok(_) => Ok((callee, p)),
        },
    }
}

/// The rest of a call of `callee` after the arguments `seen`.
pub open spec fn parse_arguments(s: Seq<char>, at: int, callee: ExprView, seen: Seq<ExprView>) -> Parsed<
    ExprView,
>
    decreases s.len() - at, 0int,
{
    match scan(s, at) {
        Err(message) => Err(message),
        Ok((TokenView::At, p)) => if !moved(s, at, p) {
            Err(stuck())
        } else {
            match parse_dot(s, p) {
                Err(message) => Err(message),
                Ok((argument, q)) => if !moved(s, at, q) {
                    Err(stuck())
                } else {
                    parse_arguments(s, q, callee, seen.push(argument))
                },
            }
        },
        Ok(_) => Ok((ExprView::Apply(Box::new(callee), seen, None), at)),
    }
}

/// Field accesses `base.field.field`, grouped to the left.
pub open spec fn parse_dot(s: Seq<char>, at: int) -> Parsed<ExprView>
    decreases s.len() - at, 1int,
{
    match parse_primary(s, at) {
        Err(message) => Err(message),
        Ok((base, p)) => parse_fields(s, p, base),
    }
}

/// The rest of a chain of field accesses whose value so far is `seen`.
pub open spec fn parse_fields(s: Seq<char>, at: int, seen: ExprView) -> Parsed<ExprView>
    decreases s.len() - at,
{
    match scan(s, at) {
        Err(message) => Err(message),
        Ok((TokenView::Dot, p)) => match identifier(s, p) {
            Err(message) => Err(message),
            Ok((name, q)) => if !moved(s, at, q) {
                Err(stuck())
            } else {
                parse_fields(s, q, ExprView::Dot(Box::new(seen), name, None))
            },
        },
        Ok(_) => Ok((seen, at)),
    }
}

/// A number, a name, a string, or an expression in parentheses.
pub open spec fn parse_primary(s: Seq<char>, at: int) -> Parsed<ExprView>
    decreases s.len() - at, 0int,
{
    match scan(s, at) {
        Err(message) => Err(message),
        Ok((TokenView::Number(n), p)) => Ok((ExprView::Number(n, None), p)),
        Ok((TokenView::Identifier(name), p)) => Ok((ExprView::Identifier(name, None), p)),
        Ok((TokenView::String(text), p)) => Ok((ExprView::String(text, None), p)),
        Ok((TokenView::LeftParen, p)) => if !moved(s, at, p) {
            Err(stuck())
        } else {
            match parse_expression(s, p) {
                Err(message) => Err(message),
                Ok((inner, q)) => match expect(s, q, TokenView::RightParen) {
                    Err(message) => Err(message),
                    Ok(r) => Ok((inner, r)),
                },
            }
        },
        Ok((t, _)) => Err(unexpected(t)),
    }
}

/// The parameters of a function that follow the parameters `seen`: each a
/// name, a colon and a type.
pub open spec fn parse_params(s: Seq<char>, at: int, seen: Seq<(Seq<char>, TypeView)>) -> Parsed<
    Seq<(Seq<char>, TypeView)>,
>
    decreases s.len() - at,
{
    match scan(s, at) {
        Err(message) => Err(message),
        Ok((TokenView::Identifier(name), p)) => match expect(s, p, TokenView::Colon) {
            Err(message) => Err(message),
            Ok(q) => match parse_type(s, q) {
                Err(message) => Err(message),
                Ok((t, r)) => if !moved(s, at, r) {
                    Err(stuck())
                } else {
                    parse_params(s, r, seen.push((name, t)))
                },
            },
        },
        Ok(_) => Ok((seen, at)),
    }
}

/// A function: `func name param: type param: type : type { body }`.
pub open spec fn parse_function(s: Seq<char>, at: int) -> Parsed<FunctionView> {
    match expect(s, at, TokenView::Func) {
        Err(message) => Err(message),
        Ok(p) => match identifier(s, p) {
            Err(message) => Err(message),
            Ok((name, q)) => match parse_params(s, q, Seq::empty()) {
                Err(message) => Err(message),
                Ok((args, r)) => match expect(s, r, TokenView::Colon) {
                    Err(message) => Err(message),
                    Ok(u) => match parse_type(s, u) {
                        Err(message) => Err(message),
                        Ok((return_type, v)) => match parse_block(s, v) {
                            Err(message) => Err(message),
                            Ok((body, w)) => Ok(
                                (FunctionView { name, args, return_type, body }, w),
                            ),
                        },
                    },
                },
            },
        },
    }
}

/// The functions of a program that follow the functions `seen`, up to the
/// end of the text.
pub open spec fn parse_functions(s: Seq<char>, at: int, seen: Seq<FunctionView>) -> Result<
    Seq<FunctionView>,
    Seq<char>,
>
    decreases s.len() - at,
{
    match scan(s, at) {
        Err(message) => Err(message),
        Ok((TokenView::Func, _)) => match parse_function(s, at) {
            Err(message) => Err(message),
            Ok((f, p)) => if !moved(s, at, p) {
                Err(stuck())
            } else {
                parse_functions(s, p, seen.push(f))
            },
        },
        Ok((TokenView::Eof, _)) => Ok(seen),
        Ok((t, _)) => Err(unexpected(t)),
    }
}

/// A program: functions up to the end of the text, and no struct declarations.
pub open spec fn parse_program(s: Seq<char>, at: int) -> Result<ProgramView, Seq<char>> {
    match parse_functions(s, at, Seq::empty()) {
        Err(message) => Err(message),
        Ok(functions) => Ok(ProgramView { functions, structs: Seq::empty() }),
    }
}

impl Token {
    /// How this token is written in a message.
    pub fn spelling(&self) -> (text: String)
        ensures
            text@ == spelling(self@),
    {
        match self {
            Token::Plus => "+".to_string(),
            Token::Minus => "-".to_string(),
            Token::Ast => "*".to_string(),
            Token::Slash => "/".to_string(),
            Token::Percent => "%".to_string(),
            Token::Equal => "=".to_string(),
            Token::Colon => ":".to_string(),
            Token::Semicolon => ";".to_string(),
            Token::At => "@".to_string(),
            Token::Dot => ".".to_string(),
            Token::Eof => "end of input".to_string(),
            Token::LeftParen => "(".to_string(),
            Token::RightParen => ")".to_string(),
            Token::LeftBrace => "{".to_string(),
            Token::RightBrace => "}".to_string(),
            Token::LeftBracket => "[".to_string(),
            Token::RightBracket => "]".to_string(),
            Token::Arrow => "->".to_string(),
            Token::Ellipsis => "..".to_string(),
            Token::EqualEqual => "==".to_string(),
            Token::NotEqual => "!=".to_string(),
            Token::Func => "func".to_string(),
            Token::Let => "let".to_string(),
            Token::Type => "type".to_string(),
            Token::If => "if".to_string(),
            Token::Else => "else".to_string(),
            Token::For => "for".to_string(),
            Token::In => "in".to_string(),
            Token::Number(n) => signed_text(*n),
            Token::String(text) => {
                let mut quoted = "\"".to_string();
                quoted.append(text.as_str());
                quoted.append("\"");
                quoted
            },
            Token::Identifier(name) => name.clone(),
        }
    }
}

/// The message for a token that is not the one that must come.
pub fn mismatch_text(expected: &Token, got: &Token) -> (message: String)
    ensures
        message@ == mismatch(expected@, got@),
{
    let mut message = "parsing error: ".to_string();
    message.append(expected.spelling().as_str());
    message.append(" was expected, but ");
    message.append(got.spelling().as_str());
    message.append(" is coming");
    message
}

/// The message for a token with which nothing can start here.
pub fn unexpected_text(got: &Token) -> (message: String)
    ensures
        message@ == unexpected(got@),
{
    let mut message = "parsing error: unexpected ".to_string();
    message.append(got.spelling().as_str());
    message
}

/// The operator that a token spells at a level of precedence.
pub fn operator_of(level: u8, token: &Token) -> (op: Option<Operator>)
    ensures
        op == operator_at(level as int, token@),
{
    if level == 3 {
        match token {
            Token::EqualEqual => Some(Operator::Equal),
            Token::NotEqual => Some(Operator::NotEqual),
            _ => None,
        }
    } else if level == 2 {
        match token {
            Token::Plus => Some(Operator::Add),
            Token::Minus => Some(Operator::Sub),
            _ => None,
        }
    } else if level == 1 {
        match token {
            Token::Ast => Some(Operator::Mult),
            Token::Slash => Some(Operator::Div),
            Token::Percent => Some(Operator::Surplus),
            _ => None,
        }
    } else {
        None
    }
}

impl Scanner {
    /// Reads the next token, which must be `token`.
    pub fn expect(&mut self, token: Token) -> (r: Result<(), String>)
        ensures
            final(self).input() == old(self).input(),
            ({
                let s = old(self).input();
                let from = old(self).position();
                let behind = final(self).position();
                match r {
                    Ok(_) => expect(s, from, token@) == Ok::<int, Seq<char>>(behind) && from
                        <= behind <= s.len() && (token@ is Eof || from < behind),
                    Err(message) => expect(s, from, token@) == Err::<int, Seq<char>>(message@),
                }
            }),
    {
        let got = self.next()?;
        if got.same(&token) {
            Ok(())
        } else {
            Err(mismatch_text(&token, &got))
        }
    }
}

/// A recursive-descent parser over a source text.
#[derive(Debug)]
pub struct Parser {
    scanner: Scanner,
}

impl Parser {
    /// The text that is parsed: the source without the white space at its end.
    pub closed spec fn input(&self) -> Seq<char> {
        self.scanner.input()
    }

    /// The position in the text up to which it has been parsed.
    pub closed spec fn position(&self) -> int {
        self.scanner.position()
    }

    /// A parser at the start of `input`.
    pub fn new(input: &str) -> (parser: Self)
        ensures
            parser.input() == trim_end(input@),
            parser.position() == 0,
    {
        Parser { scanner: Scanner::new(input) }
    }

    /// Reads the next token, which must be an identifier, and returns its name.
    fn identifier(&mut self) -> (r: Result<String, String>)
        ensures
            final(self).input() == old(self).input(),
            match r {
                Ok(value) => identifier(old(self).input(), old(self).position()) == Ok::<
                    (Seq<char>, int),
                    Seq<char>,
                >((value@, final(self).position())) && moved(
                    old(self).input(),
                    old(self).position(),
                    final(self).position(),
                ),
                Err(message) => identifier(old(self).input(), old(self).position()) == Err::<
                    (Seq<char>, int),
                    Seq<char>,
                >(message@),
            },
    {
        let token = self.scanner.next()?;
        token.as_identifier()
    }

    /// Parses a whole program: functions up to the end of the text. The
    /// program has no struct declarations, and no annotation slot is filled.
    pub fn program(&mut self) -> (r: Result<Program, String>)
        ensures
            final(self).input() == old(self).input(),
            match r {
                Ok(value) => parse_program(old(self).input(), old(self).position()) == Ok::<
                    ProgramView,
                    Seq<char>,
                >(value@) && forall|i: int|
                    0 <= i < value@.functions.len() ==> unannotated(
                        (#[trigger] value@.functions[i]).body,
                    ),
                Err(message) => parse_program(old(self).input(), old(self).position()) == Err::<
                    ProgramView,
                    Seq<char>,
                >(message@),
            },
    {
        proof {
            use_type_invariant(&self.scanner);
        }
        let mut result = Program::new();
        assert(functions_view(result.functions@) =~= Seq::empty());
        assert(result@.structs =~= Seq::empty());
        loop
            invariant
                self.input() == old(self).input(),
                old(self).position() <= self.position() <= self.input().len(),
                result.structs@.len() == 0,
                parse_functions(old(self).input(), old(self).position(), Seq::empty())
                    == parse_functions(self.input(), self.position(), functions_view(result.functions@)),
                forall|i: int|
                    0 <= i < result.functions.len() ==> unannotated(
                        (#[trigger] functions_view(result.functions@)[i]).body,
                    ),
            decreases self.input().len() - self.position(),
        {
            let ghost seen = functions_view(result.functions@);
            match self.scanner.peek()? {
                Token::Func => {
                    let f = self.function()?;
                    result.functions.push(f);
                    assert(functions_view(result.functions@) =~= seen.push(f@));
                    assert forall|i: int| 0 <= i < result.functions.len() implies unannotated(
                        (#[trigger] functions_view(result.functions@)[i]).body,
                    ) by {
                        if i < seen.len() {
                            assert(functions_view(result.functions@)[i] == seen[i]);
                        }
                    }
                },
                Token::Eof => {
                    assert(result@.structs =~= Seq::empty());
                    return Ok(result);
                },
                other => {
                    return Err(unexpected_text(&other));
                },
            }
        }
    }

    /// Parses a type.
    pub fn type_(&mut self) -> (r: Result<Type, String>)
        ensures
            final(self).input() == old(self).input(),
            match r {
                Ok(value) => parse_type(old(self).input(), old(self).position()) == Ok::<
                    (TypeView, int),
                    Seq<char>,
                >((value@, final(self).position())) && moved(
                    old(self).input(),
                    old(self).position(),
                    final(self).position(),
                ),
                Err(message) => parse_type(old(self).input(), old(self).position()) == Err::<
                    (TypeView, int),
                    Seq<char>,
                >(message@),
            },
        decreases old(self).input().len() - old(self).position(), 2int,
    {
        let first = self.primitive_type()?;
        let mut seen: Vec<Type> = Vec::new();
        seen.push(first);
        assert(types_view(seen@) =~= seq![first@]);
        loop
            invariant
                self.input() == old(self).input(),
                old(self).position() < self.position() <= self.input().len(),
                seen.len() >= 1,
                parse_type(old(self).input(), old(self).position()) == parse_type_rest(
                    self.input(),
                    self.position(),
                    types_view(seen@),
                ),
            decreases self.input().len() - self.position(),
        {
            let ghost before = types_view(seen@);
            match self.scanner.peek()? {
                Token::Arrow => {
                    self.scanner.next()?;
                    let t = self.primitive_type()?;
                    seen.push(t);
                    assert(types_view(seen@) =~= before.push(t@));
                },
                _ => {
                    let last = seen.pop().unwrap();
                    assert(types_view(seen@) =~= before.drop_last());
                    assert(before.last() == last@);
                    if seen.len() == 0 {
                        assert(before[0] == last@);
                        return Ok(last);
                    }
                    return Ok(Type::Function(Box::new(last), seen));
                },
            }
        }
    }

    /// Parses a primitive type: a name, or a name with an element type in
    /// brackets.
    pub fn primitive_type(&mut self) -> (r: Result<Type, String>)
        ensures
            final(self).input() == old(self).input(),
            match r {
                Ok(value) => parse_primitive_type(old(self).input(), old(self).position()) == Ok::<
                    (TypeView, int),
                    Seq<char>,
                >((value@, final(self).position())) && moved(
                    old(self).input(),
                    old(self).position(),
                    final(self).position(),
                ),
                Err(message) => parse_primitive_type(old(self).input(), old(self).position()) == Err::<
                    (TypeView, int),
                    Seq<char>,
                >(message@),
            },
        decreases old(self).input().len() - old(self).position(), 1int,
    {
        let name = self.identifier()?;
        match self.scanner.peek()? {
            Token::LeftBracket => {
                self.scanner.next()?;
                let t = self.type_()?;
                self.scanner.expect(Token::RightBracket)?;
                Ok(Type::Generic(name, Box::new(t)))
            },
            _ => Ok(Type::Primitive(name)),
        }
    }

    /// Parses a function: `func name param: type param: type : type { body }`.
    pub fn function(&mut self) -> (r: Result<Function, String>)
        ensures
            final(self).input() == old(self).input(),
            match r {
                Ok(value) => parse_function(old(self).input(), old(self).position()) == Ok::<
                    (FunctionView, int),
                    Seq<char>,
                >((value@, final(self).position())) && moved(
                    old(self).input(),
                    old(self).position(),
                    final(self).position(),
                ) && unannotated(value@.body),
                Err(message) => parse_function(old(self).input(), old(self).position()) == Err::<
                    (FunctionView, int),
                    Seq<char>,
                >(message@),
            },
    {
        self.scanner.expect(Token::Func)?;
        let name = self.identifier()?;
        let args = self.params()?;
        self.scanner.expect(Token::Colon)?;
        let return_type = self.type_()?;
        let body = self.block()?;
        Ok(Function { name, args, return_type, body })
    }

    /// Parses the parameters of a function.
    fn params(&mut self) -> (r: Result<Vec<(String, Type)>, String>)
        ensures
            final(self).input() == old(self).input(),
            match r {
                Ok(value) => parse_params(old(self).input(), old(self).position(), Seq::empty())
                    == Ok::<(Seq<(Seq<char>, TypeView)>, int), Seq<char>>(
                    (fields_view(value@), final(self).position()),
                ) && old(self).position() <= final(self).position() <= old(self).input().len(),
                Err(message) => parse_params(old(self).input(), old(self).position(), Seq::empty())
                    == Err::<(Seq<(Seq<char>, TypeView)>, int), Seq<char>>(message@),
            },
    {
        proof {
            use_type_invariant(&self.scanner);
        }
        let mut args: Vec<(String, Type)> = Vec::new();
        assert(fields_view(args@) =~= Seq::empty());
        loop
            invariant
                self.input() == old(self).input(),
                old(self).position() <= self.position() <= self.input().len(),
                parse_params(old(self).input(), old(self).position(), Seq::empty())
                    == parse_params(self.input(), self.position(), fields_view(args@)),
            decreases self.input().len() - self.position(),
        {
            let ghost seen = fields_view(args@);
            match self.scanner.peek()? {
                Token::Identifier(_) => {
                    let name = self.identifier()?;
                    self.scanner.expect(Token::Colon)?;
                    let t = self.type_()?;
                    args.push((name, t));
                    assert(fields_view(args@) =~= seen.push((name@, t@)));
                },
                _ => {
                    return Ok(args);
                },
            }
        }
    }

    /// Parses an expression.
    pub fn expression(&mut self) -> (r: Result<Expr, String>)
        ensures
            final(self).input() == old(self).input(),
            match r {
                Ok(value) => parse_expression(old(self).input(), old(self).position()) == Ok::<
                    (ExprView, int),
                    Seq<char>,
                >((value@, final(self).position())) && moved(
                    old(self).input(),
                    old(self).position(),
                    final(self).position(),
                ) && unannotated(value@),
                Err(message) => parse_expression(old(self).input(), old(self).position()) == Err::<
                    (ExprView, int),
                    Seq<char>,
                >(message@),
            },
        decreases old(self).input().len() - old(self).position(), 12int,
    {
        self.let_expr()
    }

    /// Parses an expression in braces.
    fn block(&mut self) -> (r: Result<Expr, String>)
        ensures
            final(self).input() == old(self).input(),
            match r {
                Ok(value) => parse_block(old(self).input(), old(self).position()) == Ok::<
                    (ExprView, int),
                    Seq<char>,
                >((value@, final(self).position())) && moved(
                    old(self).input(),
                    old(self).position(),
                    final(self).position(),
                ) && unannotated(value@),
                Err(message) => parse_block(old(self).input(), old(self).position()) == Err::<
                    (ExprView, int),
                    Seq<char>,
                >(message@),
            },
        decreases old(self).input().len() - old(self).position(), 13int,
    {
        self.scanner.expect(Token::LeftBrace)?;
        let body = self.expression()?;
        self.scanner.expect(Token::RightBrace)?;
        Ok(body)
    }

    /// Parses `let name = init; body`, or a sequence.
    fn let_expr(&mut self) -> (r: Result<Expr, String>)
        ensures
            final(self).input() == old(self).input(),
            match r {
                Ok(value) => parse_let(old(self).input(), old(self).position()) == Ok::<
                    (ExprView, int),
                    Seq<char>,
                >((value@, final(self).position())) && moved(
                    old(self).input(),
                    old(self).position(),
                    final(self).position(),
                ) && unannotated(value@),
                Err(message) => parse_let(old(self).input(), old(self).position()) == Err::<
                    (ExprView, int),
                    Seq<char>,
                >(message@),
            },
        decreases old(self).input().len() - old(self).position(), 11int,
    {
        match self.scanner.peek()? {
            Token::Let => {
                self.scanner.next()?;
                let name = self.identifier()?;
                self.scanner.expect(Token::Equal)?;
                let init = self.if_expr()?;
                self.scanner.expect(Token::Semicolon)?;
                let body = self.expression()?;
                Ok(Expr::Let(name, Box::new(init), Box::new(body), Info::new()))
            },
            _ => self.sequence_expr(),
        }
    }

    /// Parses expressions joined by `;`.
    fn sequence_expr(&mut self) -> (r: Result<Expr, String>)
        ensures
            final(self).input() == old(self).input(),
            match r {
                Ok(value) => parse_sequence(old(self).input(), old(self).position()) == Ok::<
                    (ExprView, int),
                    Seq<char>,
                >((value@, final(self).position())) && moved(
                    old(self).input(),
                    old(self).position(),
                    final(self).position(),
                ) && unannotated(value@),
                Err(message) => parse_sequence(old(self).input(), old(self).position()) == Err::<
                    (ExprView, int),
                    Seq<char>,
                >(message@),
            },
        decreases old(self).input().len() - old(self).position(), 10int,
    {
        let first = self.if_expr()?;
        match self.scanner.peek()? {
            Token::Semicolon => {
                self.scanner.next()?;
                let second = self.sequence_expr()?;
                Ok(Expr::Sequence(Box::new(first), Box::new(second), Info::new()))
            },
            _ => Ok(first),
        }
    }

    /// Parses an `if` with its else-if arms and its else branch, or a loop.
    fn if_expr(&mut self) -> (r: Result<Expr, String>)
        ensures
            final(self).input() == old(self).input(),
            match r {
                Ok(value) => parse_if(old(self).input(), old(self).position()) == Ok::<
                    (ExprView, int),
                    Seq<char>,
                >((value@, final(self).position())) && moved(
                    old(self).input(),
                    old(self).position(),
                    final(self).position(),
                ) && unannotated(value@),
                Err(message) => parse_if(old(self).input(), old(self).position()) == Err::<
                    (ExprView, int),
                    Seq<char>,
                >(message@),
            },
        decreases old(self).input().len() - old(self).position(), 9int,
    {
        match self.scanner.peek()? {
            Token::If => {
                self.scanner.next()?;
                let first = self.arm()?;
                let arms = self.else_ifs()?;
                let otherwise = self.block()?;
                assert(erase_arms(arms_view(arms@)) =~= arms_view(arms@));
                Ok(
                    Expr::If(
                        Box::new(first.0),
                        Box::new(first.1),
                        arms,
                        Box::new(otherwise),
                        Info::new(),
                    ),
                )
            },
            _ => self.for_expr(),
        }
    }

    /// Parses what follows an `if`: the condition, the body in braces, and
    /// `else`.
    fn arm(&mut self) -> (r: Result<(Expr, Expr), String>)
        ensures
            final(self).input() == old(self).input(),
            match r {
                Ok(value) => parse_arm(old(self).input(), old(self).position()) == Ok::<
                    ((ExprView, ExprView), int),
                    Seq<char>,
                >(((value.0@, value.1@), final(self).position())) && moved(
                    old(self).input(),
                    old(self).position(),
                    final(self).position(),
                ) && unannotated(value.0@) && unannotated(value.1@),
                Err(message) => parse_arm(old(self).input(), old(self).position()) == Err::<
                    ((ExprView, ExprView), int),
                    Seq<char>,
                >(message@),
            },
        decreases old(self).input().len() - old(self).position(), 8int,
    {
        let cond = self.equal_expr()?;
        let body = self.block()?;
        self.scanner.expect(Token::Else)?;
        Ok((cond, body))
    }

    /// Parses the else-if arms of an `If`.
    fn else_ifs(&mut self) -> (r: Result<Vec<(Expr, Expr)>, String>)
        ensures
            final(self).input() == old(self).input(),
            match r {
                Ok(value) => parse_else_ifs(old(self).input(), old(self).position(), Seq::empty())
                    == Ok::<(Seq<(ExprView, ExprView)>, int), Seq<char>>(
                    (arms_view(value@), final(self).position()),
                ) && old(self).position() <= final(self).position() <= old(self).input().len()
                    && forall|i: int|
                    #![trigger value@[i]]
                    0 <= i < value.len() ==> unannotated(value@[i].0@) && unannotated(
                        value@[i].1@,
                    ),
                Err(message) => parse_else_ifs(
                    old(self).input(),
                    old(self).position(),
                    Seq::empty(),
                ) == Err::<(Seq<(ExprView, ExprView)>, int), Seq<char>>(message@),
            },
        decreases old(self).input().len() - old(self).position(), 0int,
    {
        proof {
            use_type_invariant(&self.scanner);
        }
        let mut arms: Vec<(Expr, Expr)> = Vec::new();
        assert(arms_view(arms@) =~= Seq::empty());
        loop
            invariant
                self.input() == old(self).input(),
                old(self).position() <= self.position() <= self.input().len(),
                parse_else_ifs(old(self).input(), old(self).position(), Seq::empty())
                    == parse_else_ifs(self.input(), self.position(), arms_view(arms@)),
                forall|i: int|
                    #![trigger arms@[i]]
                    0 <= i < arms.len() ==> unannotated(arms@[i].0@) && unannotated(arms@[i].1@),
            decreases self.input().len() - self.position(),
        {
            let ghost seen = arms_view(arms@);
            match self.scanner.peek()? {
                Token::If => {
                    self.scanner.next()?;
                    let arm = self.arm()?;
                    arms.push(arm);
                    assert(arms_view(arms@) =~= seen.push((arm.0@, arm.1@)));
                },
                _ => {
                    return Ok(arms);
                },
            }
        }
    }

    /// Parses `for name in from..to { body }`, or a comparison.
    fn for_expr(&mut self) -> (r: Result<Expr, String>)
        ensures
            final(self).input() == old(self).input(),
            match r {
                Ok(value) => parse_for(old(self).input(), old(self).position()) == Ok::<
                    (ExprView, int),
                    Seq<char>,
                >((value@, final(self).position())) && moved(
                    old(self).input(),
                    old(self).position(),
                    final(self).position(),
                ) && unannotated(value@),
                Err(message) => parse_for(old(self).input(), old(self).position()) == Err::<
                    (ExprView, int),
                    Seq<char>,
                >(message@),
            },
        decreases old(self).input().len() - old(self).position(), 8int,
    {
        match self.scanner.peek()? {
            Token::For => {
                self.scanner.next()?;
                let name = self.identifier()?;
                self.scanner.expect(Token::In)?;
                let from = self.if_expr()?;
                self.scanner.expect(Token::Ellipsis)?;
                let to = self.if_expr()?;
                let body = self.block()?;
                Ok(Expr::For(name, Box::new(from), Box::new(to), Box::new(body), Info::new()))
            },
            _ => self.equal_expr(),
        }
    }

    /// Parses comparisons.
    fn equal_expr(&mut self) -> (r: Result<Expr, String>)
        ensures
            final(self).input() == old(self).input(),
            match r {
                Ok(value) => parse_equal(old(self).input(), old(self).position()) == Ok::<
                    (ExprView, int),
                    Seq<char>,
                >((value@, final(self).position())) && moved(
                    old(self).input(),
                    old(self).position(),
                    final(self).position(),
                ) && unannotated(value@),
                Err(message) => parse_equal(old(self).input(), old(self).position()) == Err::<
                    (ExprView, int),
                    Seq<char>,
                >(message@),
            },
        decreases old(self).input().len() - old(self).position(), 7int,
    {
        self.operators(3)
    }

    /// Parses the operators of `level`, grouped to the left.
    fn operators(&mut self, level: u8) -> (r: Result<Expr, String>)
        ensures
            final(self).input() == old(self).input(),
            match r {
                Ok(value) => parse_operators(old(self).input(), old(self).position(), level as int) == Ok::<
                    (ExprView, int),
                    Seq<char>,
                >((value@, final(self).position())) && moved(
                    old(self).input(),
                    old(self).position(),
                    final(self).position(),
                ) && unannotated(value@),
                Err(message) => parse_operators(old(self).input(), old(self).position(), level as int) == Err::<
                    (ExprView, int),
                    Seq<char>,
                >(message@),
            },
        decreases old(self).input().len() - old(self).position(), (if 0 < level <= 3 {
                3 + level
            } else {
                3int
            }),
    {
        if level == 0 || level > 3 {
            return self.apply_expr();
        }
        let mut seen = self.operators(level - 1)?;
        loop
            invariant
                self.input() == old(self).input(),
                old(self).position() < self.position() <= self.input().len(),
                0 < level <= 3,
                parse_operators(old(self).input(), old(self).position(), level as int)
                    == parse_operators_rest(self.input(), self.position(), level as int, seen@),
                unannotated(seen@),
            decreases self.input().len() - self.position(),
        {
            let token = self.scanner.peek()?;
            match operator_of(level, &token) {
                None => {
                    return Ok(seen);
                },
                Some(op) => {
                    self.scanner.next()?;
                    let right = self.operators(level - 1)?;
                    seen = Expr::binary(op, seen, right);
                },
            }
        }
    }

    /// Parses a call `callee @ argument @ argument`, or a field access.
    fn apply_expr(&mut self) -> (r: Result<Expr, String>)
        ensures
            final(self).input() == old(self).input(),
            match r {
                Ok(value) => parse_apply(old(self).input(), old(self).position()) == Ok::<
                    (ExprView, int),
                    Seq<char>,
                >((value@, final(self).position())) && moved(
                    old(self).input(),
                    old(self).position(),
                    final(self).position(),
                ) && unannotated(value@),
                Err(message) => parse_apply(old(self).input(), old(self).position()) == Err::<
                    (ExprView, int),
                    Seq<char>,
                >(message@),
            },
        decreases old(self).input().len() - old(self).position(), 2int,
    {
        let callee = self.dot_expr()?;
        match self.scanner.peek()? {
            Token::At => {},
            _ => {
                return Ok(callee);
            },
        }
        let mut args: Vec<Expr> = Vec::new();
        assert(exprs_view(args@) =~= Seq::empty());
        loop
            invariant
                self.input() == old(self).input(),
                old(self).position() < self.position() <= self.input().len(),
                parse_apply(old(self).input(), old(self).position()) == parse_arguments(
                    self.input(),
                    self.position(),
                    callee@,
                    exprs_view(args@),
                ),
                unannotated(callee@),
                forall|i: int| #![trigger args@[i]] 0 <= i < args.len() ==> unannotated(args@[i]@),
            decreases self.input().len() - self.position(),
        {
            let ghost seen = exprs_view(args@);
            match self.scanner.peek()? {
                Token::At => {
                    self.scanner.next()?;
                    let argument = self.dot_expr()?;
                    args.push(argument);
                    assert(exprs_view(args@) =~= seen.push(argument@));
                },
                _ => {
                    assert(erase_all(exprs_view(args@)) =~= exprs_view(args@));
                    return Ok(Expr::Apply(Box::new(callee), args, Info::new()));
                },
            }
        }
    }

    /// Parses field accesses `base.field.field`.
    fn dot_expr(&mut self) -> (r: Result<Expr, String>)
        ensures
            final(self).input() == old(self).input(),
            match r {
                Ok(value) => parse_dot(old(self).input(), old(self).position()) == Ok::<
                    (ExprView, int),
                    Seq<char>,
                >((value@, final(self).position())) && moved(
                    old(self).input(),
                    old(self).position(),
                    final(self).position(),
                ) && unannotated(value@),
                Err(message) => parse_dot(old(self).input(), old(self).position()) == Err::<
                    (ExprView, int),
                    Seq<char>,
                >(message@),
            },
        decreases old(self).input().len() - old(self).position(), 1int,
    {
        let mut seen = self.primary_expr()?;
        loop
            invariant
                self.input() == old(self).input(),
                old(self).position() < self.position() <= self.input().len(),
                parse_dot(old(self).input(), old(self).position()) == parse_fields(
                    self.input(),
                    self.position(),
                    seen@,
                ),
                unannotated(seen@),
            decreases self.input().len() - self.position(),
        {
            match self.scanner.peek()? {
                Token::Dot => {
                    self.scanner.next()?;
                    let name = self.identifier()?;
                    seen = Expr::Dot(Box::new(seen), name, Info::new());
                },
                _ => {
                    return Ok(seen);
                },
            }
        }
    }

    /// Parses a number, a name, a string, or an expression in parentheses.
    fn primary_expr(&mut self) -> (r: Result<Expr, String>)
        ensures
            final(self).input() == old(self).input(),
            match r {
                Ok(value) => parse_primary(old(self).input(), old(self).position()) == Ok::<
                    (ExprView, int),
                    Seq<char>,
                >((value@, final(self).position())) && moved(
                    old(self).input(),
                    old(self).position(),
                    final(self).position(),
                ) && unannotated(value@),
                Err(message) => parse_primary(old(self).input(), old(self).position()) == Err::<
                    (ExprView, int),
                    Seq<char>,
                >(message@),
            },
        decreases old(self).input().len() - old(self).position(), 0int,
    {
        match self.scanner.next()? {
            Token::Number(n) => Ok(Expr::Number(n, Info::new())),
            Token::Identifier(name) => Ok(Expr::Identifier(name, Info::new())),
            Token::String(text) => Ok(Expr::String(text, Info::new())),
            Token::LeftParen => {
                let inner = self.expression()?;
                self.scanner.expect(Token::RightParen)?;
                Ok(inner)
            },
            other => Err(unexpected_text(&other)),
        }
    }
}

} // verus!
