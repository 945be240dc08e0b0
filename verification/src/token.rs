//! The kinds of Lua token that the packager reads, with their text.

use vstd::prelude::*;
use vstd::string::StringExecFns;

verus! {

/// A Lua token as the packager sees it: its kind, and the text that the
/// packager reads from it.
pub enum TokenKind {
    Eof,
    Identifier(String),
    Number(String),
    /// A string literal; the text is the literal's contents, without quotes.
    StringLiteral(String),
    /// A symbol (keyword or punctuation), with its text.
    Symbol(String),
    /// Any other token (comments, whitespace, shebang lines).
    Other,
}

/// The name the packager gives a token: its text, `Eof` for the end of
/// input, and `Unknown` for the kinds whose text it does not read.
pub open spec fn token_name_spec(token: TokenKind) -> Seq<char> {
    match token {
        TokenKind::Eof => "Eof"@,
        TokenKind::Identifier(text) => text@,
        TokenKind::Number(text) => text@,
        TokenKind::StringLiteral(text) => text@,
        TokenKind::Symbol(text) => text@,
        TokenKind::Other => "Unknown"@,
    }
}

/// The name of a token: see [`token_name_spec`].
pub fn token_name(token: &TokenKind) -> (r: String)
    ensures
        r@ == token_name_spec(*token),
{
    match token {
        TokenKind::Eof => String::from_str("Eof"),
        TokenKind::Identifier(text) => text.clone(),
        TokenKind::Number(text) => text.clone(),
        TokenKind::StringLiteral(text) => text.clone(),
        TokenKind::Symbol(text) => text.clone(),
        TokenKind::Other => String::from_str("Unknown"),
    }
}

/// The name of a token is the text it carries (a string literal's contents,
/// a number's or identifier's text, a symbol's text); the end of input is
/// named `Eof`, and a token whose text the packager does not read is named
/// `Unknown`.
pub proof fn lemma_token_name_meaning(token: TokenKind)
    ensures
        token matches TokenKind::StringLiteral(text) ==> token_name_spec(token) == text@,
        token matches TokenKind::Identifier(text) ==> token_name_spec(token) == text@,
        token matches TokenKind::Number(text) ==> token_name_spec(token) == text@,
        token matches TokenKind::Symbol(text) ==> token_name_spec(token) == text@,
        token is Eof ==> token_name_spec(token) == "Eof"@,
        token is Other ==> token_name_spec(token) == "Unknown"@,
{
}

} // verus!
