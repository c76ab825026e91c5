//! What generating plays means: the duels of a sequence of tokens, each
//! between the two rivals declared last before it.

use vstd::prelude::*;
use crate::play::PlayView;
use crate::token::{Move, TokenType, TokenView};

verus! {

/// The two rivals that duels are currently fought between.
pub struct Rivals {
    pub first: Seq<char>,
    pub second: Seq<char>,
}

/// Why a sequence of tokens yields no plays. Each position counts tokens
/// from the start and is that of the token with which the construct that
/// failed begins.
pub enum PlayFailure {
    /// A move that is not followed by a duel sign.
    MissingSeparator { position: int },
    /// A move and a duel sign that are not followed by a second move.
    IncompletePlay { position: int },
    /// A rival that is not followed by `vs`.
    ExpectedVs { position: int },
    /// A rival and `vs` that are not followed by a second rival.
    ExpectedRival { position: int },
    /// A duel before any pair of rivals was declared.
    UndeclaredRivals { position: int },
}

impl PlayFailure {
    /// The position of the token with which the failed construct begins.
    pub open spec fn position(self) -> int {
        match self {
            PlayFailure::MissingSeparator { position } => position,
            PlayFailure::IncompletePlay { position } => position,
            PlayFailure::ExpectedVs { position } => position,
            PlayFailure::ExpectedRival { position } => position,
            PlayFailure::UndeclaredRivals { position } => position,
        }
    }
}

/// The kind of the token at position `at`, if there is one.
pub open spec fn kind_at(tokens: Seq<TokenView>, at: int) -> Option<TokenType> {
    if 0 <= at < tokens.len() {
        Some(tokens[at].ttype)
    } else {
        None
    }
}

/// What the tokens at one position amount to.
pub enum Step {
    /// Rival, `vs`, rival: three tokens that declare the current rivals.
    Declare { rivals: Rivals },
    /// Move, duel sign, move: three tokens that make a duel.
    Duel { move1: Move, move2: Move },
    /// A duel sign or a `vs` on its own: one token that means nothing.
    Skip,
    /// A construct that is cut short.
    Failure(PlayFailure),
}

/// What the tokens at position `at` amount to.
pub open spec fn step(tokens: Seq<TokenView>, at: int) -> Step
    recommends
        0 <= at < tokens.len(),
{
    match tokens[at].ttype {
        TokenType::Rival => {
            if kind_at(tokens, at + 1) != Some(TokenType::Vs) {
                Step::Failure(PlayFailure::ExpectedVs { position: at })
            } else if kind_at(tokens, at + 2) != Some(TokenType::Rival) {
                Step::Failure(PlayFailure::ExpectedRival { position: at })
            } else {
                Step::Declare {
                    rivals: Rivals { first: tokens[at].text, second: tokens[at + 2].text },
                }
            }
        },
        TokenType::Move(move1) => {
            if kind_at(tokens, at + 1) != Some(TokenType::PlaySeparator) {
                Step::Failure(PlayFailure::MissingSeparator { position: at })
            } else {
                match kind_at(tokens, at + 2) {
                    Some(TokenType::Move(move2)) => Step::Duel { move1, move2 },
                    _ => Step::Failure(PlayFailure::IncompletePlay { position: at }),
                }
            }
        },
        TokenType::PlaySeparator => Step::Skip,
        TokenType::Vs => Step::Skip,
    }
}

/// The plays of `tokens` from position `from` on, where `rivals` are the
/// rivals declared before that position; or the first failure.
pub open spec fn plays_from(tokens: Seq<TokenView>, from: int, rivals: Option<Rivals>) -> Result<
    Seq<PlayView>,
    PlayFailure,
>
    decreases tokens.len() - from,
{
    if from < 0 || from >= tokens.len() {
        Ok(Seq::empty())
    } else {
        match step(tokens, from) {
            Step::Declare { rivals: declared } => plays_from(tokens, from + 3, Some(declared)),
            Step::Duel { move1, move2 } => match rivals {
                Some(current) => after(
                    seq![
                        PlayView {
                            player1: current.first,
                            player2: current.second,
                            move1,
                            move2,
                        },
                    ],
                    plays_from(tokens, from + 3, rivals),
                ),
                None => Err(PlayFailure::UndeclaredRivals { position: from }),
            },
            Step::Skip => plays_from(tokens, from + 1, rivals),
            Step::Failure(failure) => Err(failure),
        }
    }
}

/// The plays `done` followed by those of `rest`, unless `rest` is a failure.
pub open spec fn after(done: Seq<PlayView>, rest: Result<Seq<PlayView>, PlayFailure>) -> Result<
    Seq<PlayView>,
    PlayFailure,
> {
    match rest {
        Ok(plays) => Ok(done + plays),
        Err(failure) => Err(failure),
    }
}

/// Where generating stops: on the token with which the failed construct
/// begins, or at the end of the tokens.
pub open spec fn stop_from(tokens: Seq<TokenView>, from: int) -> int {
    match plays_from(tokens, from, None) {
        Ok(_) => if from < tokens.len() {
            tokens.len() as int
        } else {
            from
        },
        Err(failure) => failure.position(),
    }
}

/// A declaration replaces whatever rivals were current before it: the plays
/// from a declaration on are those that follow it under the rivals it
/// declares, and do not depend on the rivals declared earlier.
pub proof fn lemma_declaration_overrides(
    tokens: Seq<TokenView>,
    at: int,
    earlier: Option<Rivals>,
)
    requires
        0 <= at < tokens.len(),
        step(tokens, at) is Declare,
    ensures
        plays_from(tokens, at, earlier) == plays_from(
            tokens,
            at + 3,
            Some(Rivals { first: tokens[at].text, second: tokens[at + 2].text }),
        ),
{
}

/// Duels that follow one another with no declaration between them are all
/// fought between the current rivals.
pub proof fn lemma_duels_reuse_rivals(tokens: Seq<TokenView>, from: int, rivals: Rivals)
    requires
        0 <= from,
        forall|i: int| from <= i < tokens.len() ==> (#[trigger] tokens[i]).ttype != TokenType::Rival,
        plays_from(tokens, from, Some(rivals)) is Ok,
    ensures
        forall|k: int|
            0 <= k < plays_from(tokens, from, Some(rivals))->Ok_0.len() ==> {
                &&& (#[trigger] plays_from(tokens, from, Some(rivals))->Ok_0[k]).player1
                    == rivals.first
                &&& plays_from(tokens, from, Some(rivals))->Ok_0[k].player2 == rivals.second
            },
    decreases tokens.len() - from,
{
    if from < tokens.len() {
        match step(tokens, from) {
            Step::Duel { .. } => {
                lemma_duels_reuse_rivals(tokens, from + 3, rivals);
            },
            Step::Skip => {
                lemma_duels_reuse_rivals(tokens, from + 1, rivals);
            },
            _ => {},
        }
    }
}

} // verus!
