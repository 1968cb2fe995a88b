//! The engine's model of the host language's token stream.
//!
//! A token is an atomic lexical unit: a delimited group, an identifier,
//! a punctuation character or a literal.  The engine only classifies
//! tokens and renders them back to text; it never interprets the code
//! fragments it moves around.
use vstd::prelude::*;
use vstd::string::StringExecFns;

use crate::text::char_to_string;

verus! {

/// Delimiter of a token group.
#[derive(Debug, Clone, Copy, PartialEq, Eq, Structural)]
pub enum Delimiter {
    /// `( ... )`
    Parenthesis,
    /// `{ ... }`
    Brace,
    /// `[ ... ]`
    Bracket,
}

/// One atomic lexical unit of macro input.
#[derive(Debug, PartialEq, Eq)]
pub enum Token {
    /// A delimited group of tokens.
    Group(Delimiter, Vec<Token>),
    /// An identifier or keyword.
    Ident(String),
    /// A single punctuation character.
    Punct(char),
    /// A literal, carried as its source text.
    Literal(String),
}

/// Opening character of a delimiter.
pub open spec fn spec_open_delim(d: Delimiter) -> Seq<char> {
    match d {
        Delimiter::Parenthesis => "("@,
        Delimiter::Brace => "{"@,
        Delimiter::Bracket => "["@,
    }
}

/// Closing character of a delimiter.
pub open spec fn spec_close_delim(d: Delimiter) -> Seq<char> {
    match d {
        Delimiter::Parenthesis => ")"@,
        Delimiter::Brace => "}"@,
        Delimiter::Bracket => "]"@,
    }
}

/// True for tokens whose text is word-like; a space is inserted
/// between two adjacent word-like tokens when rendering.
pub open spec fn spec_wordy(t: Token) -> bool {
    match t {
        Token::Ident(_) => true,
        Token::Literal(_) => true,
        _ => false,
    }
}

/// Text of a single token.
pub open spec fn spec_token_text(t: Token) -> Seq<char>
    decreases t, 0int,
{
    match t {
        Token::Group(d, v) => spec_open_delim(d) + spec_tokens_text_from(v@, 0)
            + spec_close_delim(d),
        Token::Ident(s) => s@,
        Token::Punct(c) => seq![c],
        Token::Literal(s) => s@,
    }
}

/// Text of the tokens of `ts` from index `i` on.
pub open spec fn spec_tokens_text_from(ts: Seq<Token>, i: int) -> Seq<char>
    decreases ts, ts.len() - i + 1,
{
    if i < 0 || i >= ts.len() {
        Seq::empty()
    } else {
        spec_token_text(ts[i]) + (if i + 1 < ts.len() && spec_wordy(ts[i]) && spec_wordy(
            ts[i + 1],
        ) {
            " "@
        } else {
            Seq::empty()
        }) + spec_tokens_text_from(ts, i + 1)
    }
}

/// Text of a whole token sequence.
pub open spec fn spec_tokens_text(ts: Seq<Token>) -> Seq<char> {
    spec_tokens_text_from(ts, 0)
}

impl Token {
    /// True for tokens whose text is word-like.
    pub fn is_wordy(&self) -> (r: bool)
        ensures
            r == spec_wordy(*self),
    {
        match self {
            Token::Ident(_) => true,
            Token::Literal(_) => true,
            _ => false,
        }
    }

    /// Render this token back to text.
    pub fn to_text(&self) -> (r: String)
        ensures
            r@ == spec_token_text(*self),
        decreases *self, 0int,
    {
        match self {
            Token::Group(d, v) => {
                let mut s = match d {
                    Delimiter::Parenthesis => String::from_str("("),
                    Delimiter::Brace => String::from_str("{"),
                    Delimiter::Bracket => String::from_str("["),
                };
                let inner = tokens_text_from(v, 0);
                s.append(inner.as_str());
                s.append(
                    match d {
                        Delimiter::Parenthesis => ")",
                        Delimiter::Brace => "}",
                        Delimiter::Bracket => "]",
                    },
                );
                s
            },
            Token::Ident(s) => {
                let r = String::from_str(s.as_str());
                r
            },
            Token::Punct(c) => char_to_string(*c),
            Token::Literal(s) => {
                let r = String::from_str(s.as_str());
                r
            },
        }
    }
}

/// Render the tokens of `ts` from index `i` on back to text.
pub fn tokens_text_from(ts: &Vec<Token>, i: usize) -> (r: String)
    ensures
        r@ == spec_tokens_text_from(ts@, i as int),
    decreases ts@, ts@.len() - i + 1,
{
    if i >= ts.len() {
        String::new()
    } else {
        proof {
            assert(decreases_to!(ts@ => ts@[i as int]));
        }
        let mut s = ts[i].to_text();
        if i + 1 < ts.len() && ts[i].is_wordy() && ts[i + 1].is_wordy() {
            s.append(" ");
        }
        let rest = tokens_text_from(ts, i + 1);
        s.append(rest.as_str());
        s
    }
}

/// Render a whole token sequence back to text.
pub fn tokens_text(ts: &Vec<Token>) -> (r: String)
    ensures
        r@ == spec_tokens_text(ts@),
{
    tokens_text_from(ts, 0)
}

} // verus!
