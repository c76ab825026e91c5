//! The play generator: from tokens to plays, in one pass from left to right.

use vstd::prelude::*;
use crate::pairing::{after, kind_at, plays_from, stop_from, PlayFailure, Rivals};
use crate::play::{play_views, Play, PlayView};
use crate::token::{token_views, Token, TokenType, TokenView};

verus! {

/// Why a sequence of tokens yields no plays. Each position counts tokens
/// from the start and is that of the token with which the construct that
/// failed begins.
#[derive(Clone, Copy, Debug, PartialEq, Eq)]
pub enum PlayError {
    /// A move that is not followed by a duel sign.
    MissingSeparator { position: usize },
    /// A move and a duel sign that are not followed by a second move.
    IncompletePlay { position: usize },
    /// A rival that is not followed by `vs`.
    ExpectedVs { position: usize },
    /// A rival and `vs` that are not followed by a second rival.
    ExpectedRival { position: usize },
    /// A duel before any pair of rivals was declared.
    UndeclaredRivals { position: usize },
}

impl View for PlayError {
    type V = PlayFailure;

    open spec fn view(&self) -> PlayFailure {
        match *self {
            PlayError::MissingSeparator { position } => PlayFailure::MissingSeparator {
                position: position as int,
            },
            PlayError::IncompletePlay { position } => PlayFailure::IncompletePlay {
                position: position as int,
            },
            PlayError::ExpectedVs { position } => PlayFailure::ExpectedVs {
                position: position as int,
            },
            PlayError::ExpectedRival { position } => PlayFailure::ExpectedRival {
                position: position as int,
            },
            PlayError::UndeclaredRivals { position } => PlayFailure::UndeclaredRivals {
                position: position as int,
            },
        }
    }
}

/// What a generating run must hand back: the plays made, or the failure.
pub open spec fn yields(
    result: Result<Vec<Play>, PlayError>,
    outcome: Result<Seq<PlayView>, PlayFailure>,
) -> bool {
    match outcome {
        Ok(plays) => result matches Ok(made) && play_views(made@) == plays,
        Err(failure) => result matches Err(error) && error@ == failure,
    }
}

/// The rivals that a pair of names stands for.
spec fn rivals_of(names: Option<(String, String)>) -> Option<Rivals> {
    match names {
        Some(pair) => Some(Rivals { first: pair.0@, second: pair.1@ }),
        None => None,
    }
}

/// A generator over one sequence of tokens: the tokens and a cursor into
/// them.
pub struct PlayGenerator<'a> {
    tokens: &'a Vec<Token>,
    index: usize,
}

impl<'a> PlayGenerator<'a> {
    /// The tokens that plays are made from.
    pub closed spec fn tokens(&self) -> Seq<TokenView> {
        token_views(self.tokens@)
    }

    /// The position of the next token to read.
    pub closed spec fn cursor(&self) -> int {
        self.index as int
    }

    /// A generator at the start of `tokens`.
    pub fn new(tokens: &'a Vec<Token>) -> (generator: Self)
        ensures
            generator.tokens() == token_views(tokens@),
            generator.cursor() == 0,
    {
        Self { tokens, index: 0 }
    }

    /// The kind of the token at position `at`, if there is one.
    fn kind(&self, at: usize) -> (kind: Option<TokenType>)
        ensures
            kind == kind_at(self.tokens(), at as int),
    {
        if at < self.tokens.len() {
            Some(self.tokens[at].ttype())
        } else {
            None
        }
    }

    /// A copy of the text of the token at position `at`.
    fn name(&self, at: usize) -> (name: String)
        requires
            at < self.tokens().len(),
        ensures
            name@ == self.tokens()[at as int].text,
    {
        String::from_str(self.tokens[at].text())
    }

    /// Makes the plays of the tokens that are left, from the cursor on, with
    /// no rivals declared beforehand.
    ///
    /// On success the cursor stands at the end of the tokens. On failure it
    /// stands on the token with which the construct that failed begins.
    pub fn create_plays(&mut self) -> (result: Result<Vec<Play>, PlayError>)
        ensures
            final(self).tokens() == old(self).tokens(),
            final(self).cursor() == stop_from(old(self).tokens(), old(self).cursor()),
            yields(result, plays_from(old(self).tokens(), old(self).cursor(), None)),
    {
        let ghost tokens = self.tokens();
        let ghost whole = plays_from(tokens, self.cursor(), None);
        let mut plays: Vec<Play> = Vec::new();
        let mut rivals: Option<(String, String)> = None;
        while self.index < self.tokens.len()
            invariant
                self.tokens() == tokens,
                tokens == old(self).tokens(),
                whole == plays_from(tokens, old(self).cursor(), None),
                self.cursor() == old(self).cursor() || self.cursor() <= tokens.len(),
                old(self).cursor() <= self.cursor(),
                after(play_views(plays@), plays_from(tokens, self.cursor(), rivals_of(rivals)))
                    == whole,
            decreases tokens.len() - self.cursor(),
        {
            let at = self.index;
            let ghost done = play_views(plays@);
            match self.tokens[at].ttype() {
                TokenType::Rival => {
                    if self.kind(at + 1) != Some(TokenType::Vs) {
                        return Err(PlayError::ExpectedVs { position: at });
                    }
                    if self.kind(at + 2) != Some(TokenType::Rival) {
                        return Err(PlayError::ExpectedRival { position: at });
                    }
                    rivals = Some((self.name(at), self.name(at + 2)));
                    self.index = at + 3;
                },
                TokenType::Move(move1) => {
                    if self.kind(at + 1) != Some(TokenType::PlaySeparator) {
                        return Err(PlayError::MissingSeparator { position: at });
                    }
                    let move2 = match self.kind(at + 2) {
                        Some(TokenType::Move(move2)) => move2,
                        _ => {
                            return Err(PlayError::IncompletePlay { position: at });
                        },
                    };
                    match &rivals {
                        Some(names) => {
                            let play = Play::new(names.0.clone(), names.1.clone(), move1, move2);
                            plays.push(play);
                        },
                        None => {
                            return Err(PlayError::UndeclaredRivals { position: at });
                        },
                    }
                    self.index = at + 3;
                    proof {
                        let rest = plays_from(tokens, at + 3, rivals_of(rivals));
                        if let Ok(more) = rest {
                            let made = play_views(plays@).last();
                            assert(play_views(plays@) + more =~= done + (seq![made] + more));
                        }
                    }
                },
                TokenType::PlaySeparator => {
                    self.index = at + 1;
                },
                TokenType::Vs => {
                    self.index = at + 1;
                },
            }
        }
        Ok(plays)
    }
}

} // verus!
