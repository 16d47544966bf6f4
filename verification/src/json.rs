//! A streaming-text backend for the variant protocol: a variant is framed
//! as a brace-delimited pair, `{ tag : value }`, over a small token set.
//!
//! This cursor advances through tokens exactly as the variant protocol
//! demands: open the frame, read the selector tag, read or skip the body,
//! and close the frame.  The body here is a single scalar token.

use vstd::prelude::*;

use crate::value::Number;
use crate::value::Value;
use crate::value::SpecValue;
use crate::value::view_value;

verus! {

/// The kind of a token, named in diagnostics.
#[derive(Clone, Copy, PartialEq, Eq, Structural, Debug)]
pub enum TokenKind {
    OpenBrace,
    CloseBrace,
    Colon,
    Comma,
    Text,
    Digits,
}

/// One token of the text format.
#[derive(Debug, PartialEq, Eq)]
pub enum Token {
    /// An opening brace.
    OpenBrace,
    /// A closing brace.
    CloseBrace,
    /// The separator between a tag and its value.
    Colon,
    /// The separator between entries.
    Comma,
    /// A string literal.
    Text(String),
    /// An unsigned number literal.
    Digits(u64),
}

/// The ghost image of one token.
pub enum SpecToken {
    OpenBrace,
    CloseBrace,
    Colon,
    Comma,
    Text(Seq<char>),
    Digits(u64),
}

/// The ghost image of one token.
pub open spec fn view_token(t: Token) -> SpecToken {
    match t {
        Token::OpenBrace => SpecToken::OpenBrace,
        Token::CloseBrace => SpecToken::CloseBrace,
        Token::Colon => SpecToken::Colon,
        Token::Comma => SpecToken::Comma,
        Token::Text(s) => SpecToken::Text(s@),
        Token::Digits(n) => SpecToken::Digits(n),
    }
}

/// The ghost image of a token stream.
pub open spec fn view_tokens(ts: Seq<Token>) -> Seq<SpecToken> {
    ts.map_values(|t: Token| view_token(t))
}

/// The kind of a token image.
pub open spec fn spec_kind(t: SpecToken) -> TokenKind {
    match t {
        SpecToken::OpenBrace => TokenKind::OpenBrace,
        SpecToken::CloseBrace => TokenKind::CloseBrace,
        SpecToken::Colon => TokenKind::Colon,
        SpecToken::Comma => TokenKind::Comma,
        SpecToken::Text(_) => TokenKind::Text,
        SpecToken::Digits(_) => TokenKind::Digits,
    }
}

impl Token {
    /// Reports this token's kind.
    pub fn kind(&self) -> (r: TokenKind)
        ensures
            r == spec_kind(view_token(*self)),
    {
        match self {
            Token::OpenBrace => TokenKind::OpenBrace,
            Token::CloseBrace => TokenKind::CloseBrace,
            Token::Colon => TokenKind::Colon,
            Token::Comma => TokenKind::Comma,
            Token::Text(_) => TokenKind::Text,
            Token::Digits(_) => TokenKind::Digits,
        }
    }
}

/// A parse failure of the text format: the token that stood where another
/// was owed, or the end of input.
#[derive(Clone, Copy, PartialEq, Eq, Structural, Debug)]
pub enum JsonError {
    UnexpectedToken { expected: TokenKind, found: Option<TokenKind> },
}

/// The failure reported when `expected` was owed and the stream held
/// `rest` instead.
pub open spec fn spec_unexpected(expected: TokenKind, rest: Seq<SpecToken>) -> JsonError {
    JsonError::UnexpectedToken {
        expected,
        found: if rest.len() == 0 {
            None
        } else {
            Some(spec_kind(rest[0]))
        },
    }
}

/// A single-pass cursor over a token stream.
#[derive(Debug)]
pub struct TokenParser {
    remaining: Vec<Token>,
}

impl View for TokenParser {
    type V = Seq<SpecToken>;

    closed spec fn view(&self) -> Seq<SpecToken> {
        view_tokens(self.remaining@)
    }
}

impl TokenParser {
    /// Opens a parser over the given tokens.
    pub fn new(tokens: Vec<Token>) -> (r: Self)
        ensures
            r@ == view_tokens(tokens@),
    {
        TokenParser { remaining: tokens }
    }

    /// Reports the kind of the next token without consuming it.
    pub fn peek(&self) -> (r: Option<TokenKind>)
        ensures
            (match r {
                None => self@.len() == 0,
                Some(k) => self@.len() > 0 && k == spec_kind(self@[0]),
            }),
    {
        if self.remaining.len() == 0 {
            None
        } else {
            Some(self.remaining[0].kind())
        }
    }

    /// Consumes the next token.
    pub fn bump(&mut self) -> (r: Option<Token>)
        ensures
            (match r {
                None => old(self)@.len() == 0 && final(self)@ == old(self)@,
                Some(t) => old(self)@.len() > 0 && view_token(t) == old(self)@[0] && final(self)@
                    == old(self)@.drop_first(),
            }),
    {
        if self.remaining.len() == 0 {
            None
        } else {
            let t = self.remaining.remove(0);
            proof {
                assert(view_tokens(self.remaining@) =~= view_tokens(
                    old(self).remaining@,
                ).drop_first());
            }
            Some(t)
        }
    }
}

/// The value one scalar token carries, if it is a scalar.
pub open spec fn spec_scalar(t: SpecToken) -> Option<SpecValue> {
    match t {
        SpecToken::Digits(n) => Some(SpecValue::Number(Number::U64(n))),
        SpecToken::Text(s) => Some(SpecValue::Text(s)),
        _ => None,
    }
}

/// A variant cursor over the text format: drives one `{ tag : value }`
/// frame through the variant protocol.
#[derive(Debug)]
pub struct JsonVariantDecoder {
    parser: TokenParser,
}

impl View for JsonVariantDecoder {
    type V = Seq<SpecToken>;

    closed spec fn view(&self) -> Seq<SpecToken> {
        self.parser@
    }
}

impl JsonVariantDecoder {
    /// Opens a variant frame: the stream must begin with an opening brace,
    /// which is consumed.
    pub fn new(parser: TokenParser) -> (r: Result<JsonVariantDecoder, JsonError>)
        ensures
            (match r {
                Ok(d) => parser@.len() > 0 && parser@[0] == SpecToken::OpenBrace && d@ == parser
                    @.drop_first(),
                Err(e) => (parser@.len() == 0 || parser@[0] != SpecToken::OpenBrace) && e
                    == spec_unexpected(TokenKind::OpenBrace, parser@),
            }),
    {
        let mut parser = parser;
        match parser.peek() {
            Some(TokenKind::OpenBrace) => {
                let _ = parser.bump();
                Ok(JsonVariantDecoder { parser })
            },
            Some(k) => Err(JsonError::UnexpectedToken {
                expected: TokenKind::OpenBrace,
                found: Some(k),
            }),
            None => Err(JsonError::UnexpectedToken {
                expected: TokenKind::OpenBrace,
                found: None,
            }),
        }
    }

    /// Reads the variant's selector tag: a string token.
    pub fn decode_tag(&mut self) -> (r: Result<String, JsonError>)
        ensures
            (match r {
                Ok(s) => old(self)@.len() > 0 && old(self)@[0] == SpecToken::Text(s@)
                    && final(self)@ == old(self)@.drop_first(),
                Err(e) => (old(self)@.len() == 0 || spec_kind(old(self)@[0]) != TokenKind::Text)
                    && e == spec_unexpected(TokenKind::Text, old(self)@)
                    && final(self)@ == old(self)@,
            }),
    {
        match self.parser.peek() {
            Some(TokenKind::Text) => {
                let t = self.parser.bump();
                match t {
                    Some(Token::Text(s)) => Ok(s),
                    _ => unreached(),
                }
            },
            Some(k) => Err(JsonError::UnexpectedToken {
                expected: TokenKind::Text,
                found: Some(k),
            }),
            None => Err(JsonError::UnexpectedToken { expected: TokenKind::Text, found: None }),
        }
    }

    /// Reads the variant's body: a colon, then one scalar token.
    pub fn decode_value(&mut self) -> (r: Result<Value, JsonError>)
        ensures
            (match r {
                Ok(v) => old(self)@.len() >= 2 && old(self)@[0] == SpecToken::Colon && spec_scalar(
                    old(self)@[1],
                ) == Some(view_value(v)) && final(self)@ == old(self)@.skip(2),
                Err(e) => final(self)@ == old(self)@ && if old(self)@.len() == 0 || old(self)@[0]
                    != SpecToken::Colon {
                    e == spec_unexpected(TokenKind::Colon, old(self)@)
                } else {
                    (old(self)@.len() == 1 || spec_scalar(old(self)@[1]) is None) && e
                        == spec_unexpected(TokenKind::Text, old(self)@.drop_first())
                },
            }),
    {
        match self.parser.peek() {
            Some(TokenKind::Colon) => {},
            Some(k) => {
                return Err(JsonError::UnexpectedToken {
                    expected: TokenKind::Colon,
                    found: Some(k),
                });
            },
            None => {
                return Err(JsonError::UnexpectedToken {
                    expected: TokenKind::Colon,
                    found: None,
                });
            },
        }
        match self.parser.peek_second() {
            Some(TokenKind::Text) | Some(TokenKind::Digits) => {},
            Some(k) => {
                return Err(JsonError::UnexpectedToken {
                    expected: TokenKind::Text,
                    found: Some(k),
                });
            },
            None => {
                return Err(JsonError::UnexpectedToken {
                    expected: TokenKind::Text,
                    found: None,
                });
            },
        }
        let _ = self.parser.bump();
        let t = self.parser.bump();
        proof {
            assert(old(self)@.drop_first().drop_first() =~= old(self)@.skip(2));
        }
        match t {
            Some(Token::Text(s)) => Ok(Value::Text(s)),
            Some(Token::Digits(n)) => Ok(Value::Number(Number::U64(n))),
            _ => unreached(),
        }
    }

    /// Discards the variant's body: the same tokens a read would consume.
    pub fn skip_value(&mut self) -> (r: Result<bool, JsonError>)
        ensures
            (match r {
                Ok(b) => b && old(self)@.len() >= 2 && old(self)@[0] == SpecToken::Colon
                    && spec_scalar(old(self)@[1]) is Some && final(self)@ == old(self)@.skip(2),
                Err(e) => final(self)@ == old(self)@,
            }),
    {
        match self.decode_value() {
            Ok(_) => Ok(true),
            Err(e) => Err(e),
        }
    }

    /// Closes the variant frame: the stream must continue with a closing
    /// brace, which is consumed.  The correct final step of every variant
    /// decode path, the skip path included.
    pub fn end(self) -> (r: Result<(), JsonError>)
        ensures
            (match r {
                Ok(()) => self@.len() > 0 && self@[0] == SpecToken::CloseBrace,
                Err(e) => (self@.len() == 0 || self@[0] != SpecToken::CloseBrace) && e
                    == spec_unexpected(TokenKind::CloseBrace, self@),
            }),
    {
        let mut parser = self.parser;
        match parser.peek() {
            Some(TokenKind::CloseBrace) => {
                let _ = parser.bump();
                Ok(())
            },
            Some(k) => Err(JsonError::UnexpectedToken {
                expected: TokenKind::CloseBrace,
                found: Some(k),
            }),
            None => Err(JsonError::UnexpectedToken {
                expected: TokenKind::CloseBrace,
                found: None,
            }),
        }
    }
}

impl TokenParser {
    /// Reports the kind of the token after the next one, without
    /// consuming anything.
    pub fn peek_second(&self) -> (r: Option<TokenKind>)
        ensures
            (match r {
                None => self@.len() <= 1,
                Some(k) => self@.len() > 1 && k == spec_kind(self@[1]),
            }),
    {
        if self.remaining.len() <= 1 {
            None
        } else {
            Some(self.remaining[1].kind())
        }
    }
}

} // verus!
