//! A notation for rock-paper-scissors duels between named rivals.
//!
//! A text in the notation declares rivals and lists their duels:
//!
//! ```text
//! 'ann' vs 'bob' rock-paper scissors~rock
//! 'cy' vs 'dee' PAPER - paper
//! ```
//!
//! Two quoted names joined by `vs` declare the rivals of the duels that
//! follow, up to the next declaration. A duel is two moves joined by a duel
//! sign, `-` or `~`; the first move is that of the first rival. Keywords are
//! read in any case, and whitespace only keeps lexemes apart.
//!
//! A [`TokenParser`] cuts the text into tokens ([`grammar`] says which), and
//! a [`PlayGenerator`] assembles the tokens into [`Play`] records
//! ([`pairing`] says how).

pub mod alphabet;
pub mod generator;
pub mod grammar;
pub mod lexer;
pub mod pairing;
pub mod play;
pub mod token;

pub use alphabet::{can_be_in_move, is_duel_sign};
pub use generator::{PlayError, PlayGenerator};
pub use lexer::{LexError, TokenParser};
pub use play::Play;
pub use token::{Move, Token, TokenType};
