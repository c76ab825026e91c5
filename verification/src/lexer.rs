//! The lexer: from a text to its tokens, in one pass from left to right.

use vstd::prelude::*;
use crate::alphabet::{
    ascii_blanks_agree, blanks, blanks_of, can_be_in_move, is_duel_sign, CharClass,
};
use crate::grammar::{
    lemma_lexing_again_reads_nothing, lemma_run_end, lex_from, marked, run_end, scan, word_kind,
    LexFailure, Scan,
};
use crate::token::{token_views, Move, Token, TokenType, TokenView};

verus! {

/// Why a text cannot be lexed. Each position counts characters from the
/// start of the text and is that of the first character of the lexeme that
/// was refused.
#[derive(Debug, PartialEq, Eq)]
pub enum LexError {
    /// A word of letters that is no keyword.
    UnrecognizedWord { text: String, position: usize },
    /// A character that begins no lexeme.
    UnrecognizedCharacter { character: char, position: usize },
    /// A quote that is never closed.
    UnclosedQuote { position: usize },
}

impl View for LexError {
    type V = LexFailure;

    open spec fn view(&self) -> LexFailure {
        match *self {
            LexError::UnrecognizedWord { text, position } => LexFailure::UnrecognizedWord {
                text: text@,
                position: position as int,
            },
            LexError::UnrecognizedCharacter { character, position } => {
                LexFailure::UnrecognizedCharacter { character, position: position as int }
            },
            LexError::UnclosedQuote { position } => LexFailure::UnclosedQuote {
                position: position as int,
            },
        }
    }
}

impl Clone for LexError {
    fn clone(&self) -> (copy: Self)
        ensures
            copy@ == self@,
    {
        match self {
            LexError::UnrecognizedWord { text, position } => LexError::UnrecognizedWord {
                text: text.clone(),
                position: *position,
            },
            LexError::UnrecognizedCharacter { character, position } => {
                LexError::UnrecognizedCharacter { character: *character, position: *position }
            },
            LexError::UnclosedQuote { position } => LexError::UnclosedQuote {
                position: *position,
            },
        }
    }
}

/// The character at position `at` of `source`, if there is one.
pub open spec fn char_at(source: Seq<char>, at: int) -> Option<char> {
    if 0 <= at < source.len() {
        Some(source[at])
    } else {
        None
    }
}

/// What a result of lexing says, as contracts speak of it.
pub open spec fn outcome(result: Result<Vec<Token>, LexError>) -> Result<Seq<TokenView>, LexFailure> {
    match result {
        Ok(tokens) => Ok(token_views(tokens@)),
        Err(error) => Err(error@),
    }
}

/// The kind of token that `word` stands for, whatever the case of its
/// letters.
pub fn keyword(word: &str) -> (kind: Option<TokenType>)
    ensures
        kind == word_kind(word@),
{
    let low = word.to_ascii_lowercase();
    if low == String::from_str("rock") {
        Some(TokenType::Move(Move::Rock))
    } else if low == String::from_str("paper") {
        Some(TokenType::Move(Move::Paper))
    } else if low == String::from_str("scissors") {
        Some(TokenType::Move(Move::Scissors))
    } else if low == String::from_str("vs") {
        Some(TokenType::Vs)
    } else {
        None
    }
}

/// A lexer over one text: the text, a cursor into it, and the tokens read so
/// far.
pub struct TokenParser {
    text: String,
    index: usize,
    tokens: Vec<Token>,
}

impl TokenParser {
    /// The text being lexed.
    pub closed spec fn source(&self) -> Seq<char> {
        self.text@
    }

    /// The position of the next character to read.
    pub closed spec fn cursor(&self) -> int {
        self.index as int
    }

    /// The tokens read so far.
    pub closed spec fn emitted(&self) -> Seq<TokenView> {
        token_views(self.tokens@)
    }

    /// What one run of [`TokenParser::parse_tokens_with`] does with the marks
    /// `blank`: it takes the lexer from the state `self` to the state `after`
    /// and hands back `result`.
    ///
    /// The text stays. What is lexed is the text from the cursor on. On
    /// success the cursor ends at the end of the text, or where it stood if
    /// that was past the end; the tokens read are added to those read before,
    /// and all of them are handed back. On
    /// failure the cursor ends on the first character of the lexeme that was
    /// refused, the tokens read before it are kept, and the failure is handed
    /// back.
    pub open spec fn parsed_with(
        self,
        blank: Seq<bool>,
        after: Self,
        result: Result<Vec<Token>, LexError>,
    ) -> bool {
        let run = lex_from(self.source(), blank, self.cursor());
        &&& after.source() == self.source()
        &&& after.cursor() == run.stop
        &&& after.emitted() == self.emitted() + run.tokens(self.source())
        &&& outcome(result) == match run.failure {
            None => Ok::<Seq<TokenView>, LexFailure>(after.emitted()),
            Some(failure) => Err(failure),
        }
    }

    /// What one run of [`TokenParser::parse_tokens`] does: what
    /// [`TokenParser::parse_tokens_with`] does with the whitespace of the text
    /// marked.
    pub open spec fn parsed(self, after: Self, result: Result<Vec<Token>, LexError>) -> bool {
        self.parsed_with(blanks_of(self.source()), after, result)
    }

    /// A lexer at the start of `text`, with no token read.
    pub fn new(text: String) -> (parser: Self)
        ensures
            parser.source() == text@,
            parser.cursor() == 0,
            parser.emitted() == Seq::<TokenView>::empty(),
    {
        TokenParser { text, index: 0, tokens: Vec::new() }
    }

    /// A copy of the text being lexed.
    pub fn raw_text(&self) -> (text: String)
        ensures
            text@ == self.source(),
    {
        self.text.clone()
    }

    /// The character under the cursor, if the text has not ended.
    pub fn peek(&self) -> (ch: Option<char>)
        ensures
            ch == char_at(self.source(), self.cursor()),
            ch is Some ==> self.cursor() < usize::MAX,
    {
        let text = self.text.as_str();
        if self.index < text.unicode_len() {
            Some(text.get_char(self.index))
        } else {
            None
        }
    }

    /// Hands out the character under the cursor, if the text has not ended,
    /// and moves the cursor one position on, whether or not there was a
    /// character.
    pub fn consume(&mut self) -> (ch: Option<char>)
        requires
            old(self).cursor() < usize::MAX,
        ensures
            ch == char_at(old(self).source(), old(self).cursor()),
            final(self).source() == old(self).source(),
            final(self).emitted() == old(self).emitted(),
            final(self).cursor() == old(self).cursor() + 1,
    {
        self.index = self.index + 1;
        let text = self.text.as_str();
        if self.index - 1 < text.unicode_len() {
            Some(text.get_char(self.index - 1))
        } else {
            None
        }
    }

    /// Whether `blank` marks the character under the cursor as whitespace.
    fn on_blank(&self, blank: &Vec<bool>) -> (on: bool)
        ensures
            on == marked(blank@, self.cursor()),
    {
        self.index < blank.len() && blank[self.index]
    }

    /// Moves the cursor to the end of the run of `class` that begins under
    /// it.
    fn skip_run(&mut self, blank: &Vec<bool>, class: CharClass)
        ensures
            final(self).source() == old(self).source(),
            final(self).emitted() == old(self).emitted(),
            final(self).cursor() == run_end(
                old(self).source(),
                blank@,
                old(self).cursor(),
                class,
            ),
    {
        loop
            invariant
                self.source() == old(self).source(),
                self.emitted() == old(self).emitted(),
                run_end(self.source(), blank@, self.cursor(), class) == run_end(
                    old(self).source(),
                    blank@,
                    old(self).cursor(),
                    class,
                ),
            ensures
                self.cursor() == run_end(old(self).source(), blank@, old(self).cursor(), class),
            decreases self.source().len() - self.cursor(),
        {
            match self.peek() {
                Some(ch) => {
                    if class.admits(ch, self.on_blank(blank)) {
                        self.consume();
                    } else {
                        break ;
                    }
                },
                None => {
                    break ;
                },
            }
        }
    }

    /// The characters of the text from `start` up to `end`.
    fn text_between(&self, start: usize, end: usize) -> (text: String)
        requires
            start <= end <= self.source().len(),
        ensures
            text@ == self.source().subrange(start as int, end as int),
    {
        self.text.as_str().substring_char(start, end).to_owned()
    }

    /// Adds a token to those read so far.
    fn emit(&mut self, ttype: TokenType, text: String)
        ensures
            final(self).source() == old(self).source(),
            final(self).cursor() == old(self).cursor(),
            final(self).emitted() == old(self).emitted().push(TokenView { ttype, text: text@ }),
    {
        self.tokens.push(Token::new(ttype, text));
    }

    /// A copy of the tokens read so far.
    fn read_tokens(&self) -> (tokens: Vec<Token>)
        ensures
            token_views(tokens@) == self.emitted(),
    {
        let mut tokens: Vec<Token> = Vec::new();
        let mut i: usize = 0;
        while i < self.tokens.len()
            invariant
                i <= self.tokens.len(),
                tokens.len() == i,
                forall|j: int| 0 <= j < i ==> tokens@[j]@ == self.tokens@[j]@,
            decreases self.tokens.len() - i,
        {
            tokens.push(self.tokens[i].clone());
            i = i + 1;
        }
        tokens
    }

    /// Lexes what is left of the text, from the cursor on, taking for
    /// whitespace the characters that `blank` marks: `blank[i]` says whether
    /// the character at position `i` is whitespace, and a position that
    /// `blank` does not reach is not.
    ///
    /// On success the cursor stands at the end of the text, or where it stood
    /// if that was past the end; the tokens read have been added to those
    /// read before, and a copy of them all is returned. On failure the cursor stands on the first character of the
    /// lexeme that was refused, and the tokens read before it are kept.
    pub fn parse_tokens_with(&mut self, blank: &Vec<bool>) -> (result: Result<Vec<Token>, LexError>)
        ensures
            old(self).parsed_with(blank@, *final(self), result),
    {
        let ghost source = self.source();
        let ghost whole = lex_from(source, blank@, self.cursor());
        loop
            invariant
                self.source() == source,
                whole == lex_from(old(self).source(), blank@, old(self).cursor()),
                source == old(self).source(),
                lex_from(source, blank@, self.cursor()).stop == whole.stop,
                lex_from(source, blank@, self.cursor()).failure == whole.failure,
                self.emitted() + lex_from(source, blank@, self.cursor()).tokens(source) == old(
                    self,
                ).emitted() + whole.tokens(source),
            ensures
                self.source() == source,
                self.cursor() == whole.stop,
                self.emitted() == old(self).emitted() + whole.tokens(source),
                whole.failure is None,
            decreases source.len() - self.cursor(),
        {
            let ghost before = self.emitted();
            let ghost here = lex_from(source, blank@, self.cursor());
            let start = self.index;
            let ch = match self.peek() {
                Some(ch) => ch,
                None => break ,
            };
            proof {
                lemma_run_end(source, blank@, start as int, CharClass::Letter);
                lemma_run_end(source, blank@, start as int, CharClass::Blank);
                lemma_run_end(source, blank@, start + 1, CharClass::NameChar);
            }
            if can_be_in_move(ch) {
                self.skip_run(blank, CharClass::Letter);
                let word = self.text_between(start, self.index);
                match keyword(word.as_str()) {
                    Some(kind) => {
                        self.emit(kind, word);
                    },
                    None => {
                        self.index = start;
                        return Err(LexError::UnrecognizedWord { text: word, position: start });
                    },
                }
            } else if is_duel_sign(ch) {
                self.consume();
                let sign = self.text_between(start, self.index);
                self.emit(TokenType::PlaySeparator, sign);
            } else if self.on_blank(blank) {
                self.skip_run(blank, CharClass::Blank);
            } else if ch == '\'' {
                self.consume();
                self.skip_run(blank, CharClass::NameChar);
                if self.peek().is_none() {
                    self.index = start;
                    return Err(LexError::UnclosedQuote { position: start });
                }
                let name = self.text_between(start + 1, self.index);
                self.consume();
                self.emit(TokenType::Rival, name);
            } else {
                return Err(LexError::UnrecognizedCharacter { character: ch, position: start });
            }
            proof {
                let rest = lex_from(source, blank@, self.cursor());
                match scan(source, blank@, start as int) {
                    Scan::Token { lexeme, next } => {
                        assert(here.tokens(source) =~= seq![lexeme.token(source)] + rest.tokens(
                            source,
                        ));
                        assert(self.emitted() + rest.tokens(source) =~= before + here.tokens(
                            source,
                        ));
                    },
                    _ => {},
                }
            }
        }
        Ok(self.read_tokens())
    }

    /// Lexes what is left of the text, from the cursor on, taking for
    /// whitespace what `char::is_whitespace` does: on ASCII the space and
    /// U+0009 to U+000D, beyond ASCII what [`is_blank`](crate::alphabet::is_blank)
    /// names.
    ///
    /// On success the cursor stands at the end of the text, or where it stood
    /// if that was past the end; the tokens read have been added to those
    /// read before, and a copy of them all is returned. On failure the cursor stands on the first character of the
    /// lexeme that was refused, and the tokens read before it are kept.
    pub fn parse_tokens(&mut self) -> (result: Result<Vec<Token>, LexError>)
        ensures
            old(self).parsed(*final(self), result),
            ascii_blanks_agree(old(self).source()),
    {
        let blank = blanks(self.text.as_str());
        self.parse_tokens_with(&blank)
    }
}

/// Lexing is repeatable: two lexers that stand at the same place of equal
/// texts, with the same tokens read, hand back the same tokens or the same
/// failure and end in the same state.
pub proof fn lemma_parse_tokens_repeats(
    first: TokenParser,
    first_after: TokenParser,
    first_result: Result<Vec<Token>, LexError>,
    second: TokenParser,
    second_after: TokenParser,
    second_result: Result<Vec<Token>, LexError>,
)
    requires
        first.source() == second.source(),
        first.cursor() == second.cursor(),
        first.emitted() == second.emitted(),
        first.parsed(first_after, first_result),
        second.parsed(second_after, second_result),
    ensures
        outcome(first_result) == outcome(second_result),
        first_after.source() == second_after.source(),
        first_after.cursor() == second_after.cursor(),
        first_after.emitted() == second_after.emitted(),
{
}

/// Running a lexer a second time changes nothing and hands back what the
/// first run did.
pub proof fn lemma_parse_tokens_again(
    start: TokenParser,
    middle: TokenParser,
    first_result: Result<Vec<Token>, LexError>,
    end: TokenParser,
    second_result: Result<Vec<Token>, LexError>,
)
    requires
        start.parsed(middle, first_result),
        middle.parsed(end, second_result),
    ensures
        outcome(second_result) == outcome(first_result),
        end.source() == middle.source(),
        end.cursor() == middle.cursor(),
        end.emitted() == middle.emitted(),
{
    lemma_lexing_again_reads_nothing(
        start.source(),
        blanks_of(start.source()),
        start.cursor(),
    );
}

} // verus!
