//! What lexing means: the tokens of a text, stated over sequences of
//! characters.
//!
//! Which characters are whitespace is not decided here. Every definition
//! takes, beside the text, a sequence of marks that says so for each
//! position.

use vstd::prelude::*;
use crate::alphabet::{blanks_of, is_blank, is_letter, is_sign, lowered, CharClass};
use crate::token::{Move, TokenType, TokenView};

verus! {

/// Whether `blank` marks position `at` as whitespace. A position that the
/// marks do not reach is not whitespace.
pub open spec fn marked(blank: Seq<bool>, at: int) -> bool {
    0 <= at < blank.len() && blank[at]
}

/// The marks of a text mark its whitespace and nothing else.
pub proof fn lemma_blanks_of_marks_whitespace(source: Seq<char>)
    ensures
        forall|at: int|
            0 <= at < source.len() ==> marked(blanks_of(source), at) == is_blank(
                #[trigger] source[at],
            ),
{
}

/// Where the run of characters of `class` that begins at `from` ends: the
/// first position at or after `from` that holds no character of the class.
pub open spec fn run_end(source: Seq<char>, blank: Seq<bool>, from: int, class: CharClass) -> int
    decreases source.len() - from,
{
    if 0 <= from < source.len() && class.holds(source[from], marked(blank, from)) {
        run_end(source, blank, from + 1, class)
    } else {
        from
    }
}

/// A run lies within the text, holds only characters of its class and cannot
/// be made longer.
pub proof fn lemma_run_end(source: Seq<char>, blank: Seq<bool>, from: int, class: CharClass)
    requires
        0 <= from,
    ensures
        from <= run_end(source, blank, from, class),
        from <= source.len() ==> run_end(source, blank, from, class) <= source.len(),
        forall|i: int|
            from <= i < run_end(source, blank, from, class) ==> class.holds(
                #[trigger] source[i],
                marked(blank, i),
            ),
        run_end(source, blank, from, class) < source.len() ==> !class.holds(
            source[run_end(source, blank, from, class)],
            marked(blank, run_end(source, blank, from, class)),
        ),
    decreases source.len() - from,
{
    if from < source.len() && class.holds(source[from], marked(blank, from)) {
        lemma_run_end(source, blank, from + 1, class);
    }
}

/// The kind of token that a word of letters stands for, whatever the case of
/// its letters; `None` for a word that is no keyword.
pub open spec fn word_kind(word: Seq<char>) -> Option<TokenType> {
    let low = lowered(word);
    if low == "rock"@ {
        Some(TokenType::Move(Move::Rock))
    } else if low == "paper"@ {
        Some(TokenType::Move(Move::Paper))
    } else if low == "scissors"@ {
        Some(TokenType::Move(Move::Scissors))
    } else if low == "vs"@ {
        Some(TokenType::Vs)
    } else {
        None
    }
}

/// Why a text cannot be lexed. Each position is that of the first character
/// of the lexeme that was refused.
pub enum LexFailure {
    /// A word of letters that is no keyword.
    UnrecognizedWord { text: Seq<char>, position: int },
    /// A character that begins no lexeme.
    UnrecognizedCharacter { character: char, position: int },
    /// A quote that is never closed.
    UnclosedQuote { position: int },
}

/// A token's place in the text: its kind, and the range `start..end` of the
/// characters that make up its text.
pub struct Lexeme {
    pub kind: TokenType,
    pub start: int,
    pub end: int,
}

impl Lexeme {
    /// The token that the lexeme yields when read from `source`.
    pub open spec fn token(self, source: Seq<char>) -> TokenView {
        TokenView { ttype: self.kind, text: source.subrange(self.start, self.end) }
    }
}

/// What stands at one position of the text.
pub enum Scan {
    /// A token, after which reading goes on at `next`.
    Token { lexeme: Lexeme, next: int },
    /// A run of whitespace, after which reading goes on at `next`.
    Blank { next: int },
    /// Nothing that the notation knows.
    Failure(LexFailure),
}

/// What stands at position `at` of `source`. The classes are tried in this
/// order: a word of letters, a duel sign, whitespace, a quoted name.
pub open spec fn scan(source: Seq<char>, blank: Seq<bool>, at: int) -> Scan
    recommends
        0 <= at < source.len(),
{
    let ch = source[at];
    if is_letter(ch) {
        let end = run_end(source, blank, at, CharClass::Letter);
        match word_kind(source.subrange(at, end)) {
            Some(kind) => Scan::Token { lexeme: Lexeme { kind, start: at, end }, next: end },
            None => Scan::Failure(
                LexFailure::UnrecognizedWord { text: source.subrange(at, end), position: at },
            ),
        }
    } else if is_sign(ch) {
        Scan::Token {
            lexeme: Lexeme { kind: TokenType::PlaySeparator, start: at, end: at + 1 },
            next: at + 1,
        }
    } else if marked(blank, at) {
        Scan::Blank { next: run_end(source, blank, at, CharClass::Blank) }
    } else if ch == '\'' {
        let close = run_end(source, blank, at + 1, CharClass::NameChar);
        if close < source.len() {
            Scan::Token {
                lexeme: Lexeme { kind: TokenType::Rival, start: at + 1, end: close },
                next: close + 1,
            }
        } else {
            Scan::Failure(LexFailure::UnclosedQuote { position: at })
        }
    } else {
        Scan::Failure(LexFailure::UnrecognizedCharacter { character: ch, position: at })
    }
}

/// Whatever stands at a position, reading goes on strictly after it and
/// within the text.
pub proof fn lemma_scan_advances(source: Seq<char>, blank: Seq<bool>, at: int)
    requires
        0 <= at < source.len(),
    ensures
        match scan(source, blank, at) {
            Scan::Token { lexeme, next } => at <= lexeme.start <= lexeme.end <= next
                && at < next <= source.len(),
            Scan::Blank { next } => at < next <= source.len(),
            Scan::Failure(_) => true,
        },
{
    lemma_run_end(source, blank, at + 1, CharClass::Letter);
    lemma_run_end(source, blank, at + 1, CharClass::Blank);
    lemma_run_end(source, blank, at + 1, CharClass::NameChar);
}

/// The outcome of lexing: the lexemes read, where reading stopped, and why
/// it failed if it did. After a failure `stop` is the position of the lexeme
/// that was refused; otherwise it is the end of the text.
pub struct Lexed {
    pub lexemes: Seq<Lexeme>,
    pub stop: int,
    pub failure: Option<LexFailure>,
}

impl Lexed {
    /// The tokens that the lexemes yield when read from `source`.
    pub open spec fn tokens(self, source: Seq<char>) -> Seq<TokenView> {
        Seq::new(self.lexemes.len(), |i: int| self.lexemes[i].token(source))
    }
}

/// Lexing `source` from position `from` to its end or to the first failure.
pub open spec fn lex_from(source: Seq<char>, blank: Seq<bool>, from: int) -> Lexed
    decreases source.len() - from,
    via lex_from_decreases
{
    if from < 0 || from >= source.len() {
        Lexed { lexemes: Seq::empty(), stop: from, failure: None }
    } else {
        match scan(source, blank, from) {
            Scan::Token { lexeme, next } => {
                let rest = lex_from(source, blank, next);
                Lexed { lexemes: seq![lexeme] + rest.lexemes, stop: rest.stop, failure: rest.failure }
            },
            Scan::Blank { next } => lex_from(source, blank, next),
            Scan::Failure(failure) => Lexed {
                lexemes: Seq::empty(),
                stop: from,
                failure: Some(failure),
            },
        }
    }
}

#[via_fn]
proof fn lex_from_decreases(source: Seq<char>, blank: Seq<bool>, from: int) {
    if 0 <= from < source.len() {
        lemma_scan_advances(source, blank, from);
    }
}

/// Whether position `at` of the text lies inside one of the lexemes.
pub open spec fn covered(lexemes: Seq<Lexeme>, at: int) -> bool {
    exists|k: int| 0 <= k < lexemes.len() && (#[trigger] lexemes[k]).start <= at < lexemes[k].end
}

/// The text of every token is a stretch of the source, the stretches follow
/// one another in the order of the tokens without overlapping, and every
/// character that was read and lies in none of them is marked as whitespace
/// or is a quote. Where lexing does not fail, all of the text was read.
pub proof fn lemma_tokens_lie_in_order(source: Seq<char>, blank: Seq<bool>, from: int)
    requires
        0 <= from,
    ensures
        ({
            let run = lex_from(source, blank, from);
            &&& run.tokens(source).len() == run.lexemes.len()
            &&& from <= run.stop
            &&& forall|k: int|
                0 <= k < run.lexemes.len() ==> {
                    &&& from <= (#[trigger] run.lexemes[k]).start <= run.lexemes[k].end <= run.stop
                    &&& run.tokens(source)[k].ttype == run.lexemes[k].kind
                    &&& run.tokens(source)[k].text == source.subrange(
                        run.lexemes[k].start,
                        run.lexemes[k].end,
                    )
                }
            &&& forall|j: int, k: int|
                0 <= j < k < run.lexemes.len() ==> (#[trigger] run.lexemes[j]).end <= (
                #[trigger] run.lexemes[k]).start
            &&& forall|i: int|
                from <= i < run.stop ==> covered(run.lexemes, i) || marked(blank, i)
                    || #[trigger] source[i] == '\''
            &&& run.stop <= source.len() || run.stop == from
            &&& run.failure is None && from <= source.len() ==> run.stop == source.len()
        }),
    decreases source.len() - from,
{
    let run = lex_from(source, blank, from);
    if from < source.len() {
        lemma_scan_advances(source, blank, from);
        match scan(source, blank, from) {
            Scan::Token { lexeme, next } => {
                let rest = lex_from(source, blank, next);
                lemma_tokens_lie_in_order(source, blank, next);
                lemma_run_end(source, blank, from + 1, CharClass::NameChar);
                assert forall|k: int| 1 <= k < run.lexemes.len() implies #[trigger] run.lexemes[k]
                    == rest.lexemes[k - 1] by {}
                assert forall|i: int| from <= i < run.stop implies covered(run.lexemes, i)
                    || marked(blank, i) || #[trigger] source[i] == '\'' by {
                    if lexeme.start <= i < lexeme.end {
                        assert(run.lexemes[0].start <= i < run.lexemes[0].end);
                    } else if next <= i {
                        if covered(rest.lexemes, i) {
                            let k = choose|k: int|
                                0 <= k < rest.lexemes.len() && (#[trigger] rest.lexemes[k]).start
                                    <= i < rest.lexemes[k].end;
                            assert(run.lexemes[k + 1] == rest.lexemes[k]);
                        }
                    }
                }
            },
            Scan::Blank { next } => {
                lemma_tokens_lie_in_order(source, blank, next);
                lemma_run_end(source, blank, from, CharClass::Blank);
            },
            Scan::Failure(_) => {},
        }
    }
}

/// The kind of a word does not depend on the case of its letters: two words
/// that are equal once lowered are of one kind, and so are a word and its
/// lowered form.
pub proof fn lemma_keywords_ignore_case(first: Seq<char>, second: Seq<char>)
    requires
        lowered(first) == lowered(second),
    ensures
        word_kind(first) == word_kind(second),
        word_kind(lowered(first)) == word_kind(first),
{
    assert(lowered(lowered(first)) =~= lowered(first));
}

/// Lexing again from where a run stopped reads nothing more and ends as the
/// run did: without a failure at the end of the text, or with the same
/// failure on the lexeme that was refused.
pub proof fn lemma_lexing_again_reads_nothing(source: Seq<char>, blank: Seq<bool>, from: int)
    requires
        0 <= from,
    ensures
        lex_from(source, blank, lex_from(source, blank, from).stop) == (Lexed {
            lexemes: Seq::empty(),
            stop: lex_from(source, blank, from).stop,
            failure: lex_from(source, blank, from).failure,
        }),
    decreases source.len() - from,
{
    if from < source.len() {
        lemma_scan_advances(source, blank, from);
        match scan(source, blank, from) {
            Scan::Token { next, .. } => {
                lemma_lexing_again_reads_nothing(source, blank, next);
            },
            Scan::Blank { next } => {
                lemma_lexing_again_reads_nothing(source, blank, next);
            },
            Scan::Failure(_) => {},
        }
    }
}

} // verus!
