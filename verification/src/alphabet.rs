//! The character classes of the notation and the lowering of keywords.

use vstd::prelude::*;

verus! {

/// The letters that a keyword is written with: `A` to `Z` and `a` to `z`.
pub open spec fn is_letter(ch: char) -> bool {
    ('a' <= ch && ch <= 'z') || ('A' <= ch && ch <= 'Z')
}

/// The two signs that stand between the moves of a duel.
pub open spec fn is_sign(ch: char) -> bool {
    ch == '-' || ch == '~'
}

/// What `char::is_whitespace` answers for a character: whether it carries the
/// Unicode property `White_Space`.
pub uninterp spec fn is_blank(ch: char) -> bool;

/// The characters of ASCII: those up to U+007F.
pub open spec fn in_ascii(ch: char) -> bool {
    ch <= '\u{7f}'
}

/// The whitespace of ASCII: the space and U+0009 to U+000D, which are the
/// tab, the line feed, the vertical tab, the form feed and the carriage
/// return.
pub open spec fn is_ascii_blank(ch: char) -> bool {
    ch == ' ' || ('\u{9}' <= ch && ch <= '\u{d}')
}

/// For each character of a text, whether it is whitespace.
pub open spec fn blanks_of(source: Seq<char>) -> Seq<bool> {
    Seq::new(source.len(), |i: int| is_blank(source[i]))
}

/// Whether, on every ASCII character of `source`, whitespace is the
/// whitespace of ASCII.
pub open spec fn ascii_blanks_agree(source: Seq<char>) -> bool {
    forall|at: int|
        0 <= at < source.len() && in_ascii(#[trigger] source[at]) ==> is_blank(source[at])
            == is_ascii_blank(source[at])
}

/// The lower-case form of an ASCII capital; any other character is itself.
pub open spec fn lower(ch: char) -> char {
    if 'A' <= ch && ch <= 'Z' {
        ((ch as u32) + 32) as char
    } else {
        ch
    }
}

/// A word with each of its characters lowered.
pub open spec fn lowered(word: Seq<char>) -> Seq<char> {
    Seq::new(word.len(), |i: int| lower(word[i]))
}

/// `char::is_ascii_alphabetic` holds exactly of `A` to `Z` and `a` to `z`.
pub assume_specification[ char::is_ascii_alphabetic ](ch: &char) -> (b: bool)
    ensures
        b == is_letter(*ch),
;

/// `char::is_whitespace` depends on the character alone; its answer is the
/// one that [`is_blank`] names. On ASCII it holds of the space and of U+0009
/// to U+000D and of no other character. Of the characters beyond ASCII
/// nothing more is claimed.
pub assume_specification[ char::is_whitespace ](ch: char) -> (b: bool)
    ensures
        b == is_blank(ch),
        in_ascii(ch) ==> b == is_ascii_blank(ch),
;

/// `str::to_ascii_lowercase` returns a copy of the text in which `A` to `Z`
/// have become `a` to `z` and every other character is unchanged.
pub assume_specification[ str::to_ascii_lowercase ](word: &str) -> (low: String)
    ensures
        low@ == lowered(word@),
;

/// Whether `ch` can stand in a keyword.
pub fn can_be_in_move(ch: char) -> (b: bool)
    ensures
        b == is_letter(ch),
{
    ch.is_ascii_alphabetic()
}

/// Whether `ch` is one of the two duel signs.
pub fn is_duel_sign(ch: char) -> (b: bool)
    ensures
        b == is_sign(ch),
{
    ch == '-' || ch == '~'
}

/// For each character of `text`, whether it is whitespace. On the ASCII
/// characters of the text that is the whitespace of ASCII.
pub fn blanks(text: &str) -> (blank: Vec<bool>)
    ensures
        blank@ == blanks_of(text@),
        ascii_blanks_agree(text@),
{
    let length = text.unicode_len();
    let mut blank: Vec<bool> = Vec::new();
    let mut at: usize = 0;
    while at < length
        invariant
            at <= length == text@.len(),
            blank@ == blanks_of(text@.subrange(0, at as int)),
            ascii_blanks_agree(text@.subrange(0, at as int)),
        decreases length - at,
    {
        blank.push(text.get_char(at).is_whitespace());
        at = at + 1;
        assert(blank@ =~= blanks_of(text@.subrange(0, at as int)));
    }
    assert(text@.subrange(0, at as int) =~= text@);
    blank
}

/// The classes of characters that the lexer reads a whole run of.
#[derive(Clone, Copy, Debug, PartialEq, Eq, Structural)]
pub enum CharClass {
    /// The letters of a keyword.
    Letter,
    /// Whitespace between lexemes.
    Blank,
    /// Anything that may stand in a quoted name: every character but the
    /// single quote.
    NameChar,
}

impl CharClass {
    /// Whether `ch` belongs to the class, where `blank` says whether `ch` is
    /// whitespace.
    pub open spec fn holds(self, ch: char, blank: bool) -> bool {
        match self {
            CharClass::Letter => is_letter(ch),
            CharClass::Blank => blank,
            CharClass::NameChar => ch != '\'',
        }
    }

    /// Whether `ch` belongs to the class, where `blank` says whether `ch` is
    /// whitespace.
    pub fn admits(self, ch: char, blank: bool) -> (b: bool)
        ensures
            b == self.holds(ch, blank),
    {
        match self {
            CharClass::Letter => can_be_in_move(ch),
            CharClass::Blank => blank,
            CharClass::NameChar => ch != '\'',
        }
    }
}

} // verus!
