//! Small token-stream tools.
use vstd::prelude::*;

use crate::tokens::Delimiter;
use crate::tokens::Token;

verus! {

/// What extracting the modifier prefix yields: the inner tokens of a
/// bracketed group at the very start and the rest, or no modifiers
/// and the whole stream.
pub open spec fn spec_extract_modifier(stream: Seq<Token>) -> (Seq<Token>, Seq<Token>) {
    if stream.len() == 0 {
        (Seq::empty(), stream)
    } else {
        match stream[0] {
            Token::Group(d, v) => if d == Delimiter::Bracket {
                (v@, stream.skip(1))
            } else {
                (Seq::empty(), stream)
            },
            _ => (Seq::empty(), stream),
        }
    }
}

/// Extract the modifier prefix from a token stream.
///
/// A bracketed group at the very start carries the modifiers; the
/// rest of the stream is the content.  Without such a prefix the
/// modifiers are empty and the whole stream is content.
pub fn extract_modifier(stream: Vec<Token>) -> (r: (Vec<Token>, Vec<Token>))
    ensures
        (r.0@, r.1@) == spec_extract_modifier(stream@),
{
    let mut stream = stream;
    let leads = if stream.len() > 0 {
        match &stream[0] {
            Token::Group(d, _) => *d == Delimiter::Bracket,
            _ => false,
        }
    } else {
        false
    };
    if leads {
        let t = stream.remove(0);
        match t {
            Token::Group(_, v) => (v, stream),
            _ => (Vec::new(), stream),
        }
    } else {
        (Vec::new(), stream)
    }
}

} // verus!
