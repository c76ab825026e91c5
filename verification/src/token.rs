//! Tokens: the lexical units of the notation.

use vstd::prelude::*;

verus! {

/// One of the three moves of the game.
#[derive(Clone, Copy, Debug, PartialEq, Eq, Structural)]
pub enum Move {
    Rock,
    Paper,
    Scissors,
}

/// What a token stands for.
#[derive(Clone, Copy, Debug, PartialEq, Eq, Structural)]
pub enum TokenType {
    /// One of the keywords `rock`, `paper`, `scissors`.
    Move(Move),
    /// A duel sign, `-` or `~`.
    PlaySeparator,
    /// A quoted name.
    Rival,
    /// The keyword `vs`.
    Vs,
}

/// A token as contracts speak of it: its kind and the characters of its text.
pub struct TokenView {
    pub ttype: TokenType,
    pub text: Seq<char>,
}

/// A token: its kind and the text it was read from. The text of a rival is
/// the name without its quotes.
#[derive(Debug, PartialEq, Eq)]
pub struct Token {
    ttype: TokenType,
    text: String,
}

impl View for Token {
    type V = TokenView;

    closed spec fn view(&self) -> TokenView {
        TokenView { ttype: self.ttype, text: self.text@ }
    }
}

impl Clone for Token {
    fn clone(&self) -> (copy: Self)
        ensures
            copy@ == self@,
    {
        Token { ttype: self.ttype, text: self.text.clone() }
    }
}

impl Token {
    /// A token of the given kind and text.
    pub fn new(ttype: TokenType, text: String) -> (token: Self)
        ensures
            token@ == (TokenView { ttype, text: text@ }),
    {
        Token { ttype, text }
    }

    /// The kind of the token.
    pub fn ttype(&self) -> (ttype: TokenType)
        ensures
            ttype == self@.ttype,
    {
        self.ttype
    }

    /// The text of the token.
    pub fn text(&self) -> (text: &str)
        ensures
            text@ == self@.text,
    {
        self.text.as_str()
    }
}

/// The views of a sequence of tokens, in order.
pub open spec fn token_views(tokens: Seq<Token>) -> Seq<TokenView> {
    Seq::new(tokens.len(), |i: int| tokens[i]@)
}

} // verus!
