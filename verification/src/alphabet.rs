//! The character alphabets of the three-word-address grammar.
//!
//! Every classification is over single Unicode scalar values. The sets are
//! spelled out code point by code point, so that the grammar does not depend
//! on any regex dialect:
//!
//! * a *word character* is anything that is not a digit, not one of a fixed
//!   denylist of punctuation, and not white space;
//! * a *separator* is one of the dot-like full-stop characters that join the
//!   three word groups of a well-formed address;
//! * a *near-miss separator* is a character a user might type in place of a
//!   separator (space, hyphen, underscore, comma, slash, and so on);
//! * a *joiner* is the plain or no-break space that may join the sub-words
//!   of one word group in the whole-string shape.

use vstd::prelude::*;

verus! {

/// The ASCII decimal digits `0` to `9`.
pub open spec fn is_digit(c: char) -> bool {
    0x30 <= (c as u32) && (c as u32) <= 0x39
}

/// The fixed denylist of punctuation that can never stand in a word group:
/// `` ` ~ ! @ # $ % ^ & * ( ) + - _ = [ { ] } \ | ' < > . , ? / ; : ``
/// together with the Latin-1 signs pound, section, copyright, masculine
/// ordinal and registered.
pub open spec fn is_denied_punct(c: char) -> bool {
    ||| c == '`' ||| c == '~' ||| c == '!' ||| c == '@' ||| c == '#'
    ||| c == '$' ||| c == '%' ||| c == '^' ||| c == '&' ||| c == '*'
    ||| c == '(' ||| c == ')' ||| c == '+' ||| c == '-' ||| c == '_'
    ||| c == '=' ||| c == '[' ||| c == '{' ||| c == ']' ||| c == '}'
    ||| c == '\\' ||| c == '|' ||| c == '\'' ||| c == '<' ||| c == '>'
    ||| c == '.' ||| c == ',' ||| c == '?' ||| c == '/' ||| c == ';'
    ||| c == ':'
    ||| c == '\u{00A3}'  // pound sign
    ||| c == '\u{00A7}'  // section sign
    ||| c == '\u{00A9}'  // copyright sign
    ||| c == '\u{00AE}'  // registered sign
    ||| c == '\u{00BA}'  // masculine ordinal indicator
}

/// The Unicode white-space code points.
pub open spec fn is_white_space(c: char) -> bool {
    ||| (0x09 <= (c as u32) && (c as u32) <= 0x0D)  // tab to carriage return
    ||| c == ' '
    ||| c == '\u{0085}'  // next line
    ||| c == '\u{00A0}'  // no-break space
    ||| c == '\u{1680}'  // ogham space mark
    ||| (0x2000 <= (c as u32) && (c as u32) <= 0x200A)  // en quad to hair space
    ||| c == '\u{2028}'  // line separator
    ||| c == '\u{2029}'  // paragraph separator
    ||| c == '\u{202F}'  // narrow no-break space
    ||| c == '\u{205F}'  // medium mathematical space
    ||| c == '\u{3000}'  // ideographic space
}

/// A character that may stand inside a word group.
pub open spec fn is_word_char(c: char) -> bool {
    !is_digit(c) && !is_denied_punct(c) && !is_white_space(c)
}

/// The dot-like separators that join the three word groups of a well-formed
/// address. Only the ASCII full stop is also denied inside word groups; the
/// other eleven double as word characters, and a decomposition may read them
/// either way.
pub open spec fn is_separator(c: char) -> bool {
    ||| c == '.'
    ||| c == '\u{FF61}'  // halfwidth ideographic full stop
    ||| c == '\u{3002}'  // ideographic full stop
    ||| c == '\u{FF65}'  // halfwidth katakana middle dot
    ||| c == '\u{30FB}'  // katakana middle dot
    ||| c == '\u{FE12}'  // presentation form for vertical ideographic full stop
    ||| c == '\u{17D4}'  // khmer sign khan
    ||| c == '\u{0589}'  // armenian full stop
    ||| c == '\u{104B}'  // myanmar sign section
    ||| c == '\u{06D4}'  // arabic full stop
    ||| c == '\u{1362}'  // ethiopic full stop
    ||| c == '\u{0964}'  // devanagari danda
}

/// A character a user might type in place of a separator: common typo
/// punctuation and spaces. The valid separators themselves are not in this
/// set — a string joined by them is already well-formed, not a near miss.
pub open spec fn is_near_sep(c: char) -> bool {
    ||| c == ' ' ||| c == ',' ||| c == '-' ||| c == '/' ||| c == '+'
    ||| c == '\'' ||| c == '&' ||| c == '\\' ||| c == ':' ||| c == ';'
    ||| c == '|' ||| c == '^' ||| c == '_'
    ||| c == '\u{3000}'  // ideographic space
}

/// The spaces that may join the sub-words of one word group in the
/// whole-string shape: plain space and no-break space.
pub open spec fn is_joiner(c: char) -> bool {
    c == ' ' || c == '\u{00A0}'
}

/// Decides [`is_word_char`].
pub fn word_char(c: char) -> (b: bool)
    ensures
        b == is_word_char(c),
{
    let u = c as u32;
    let digit = 0x30 <= u && u <= 0x39;
    let denied = c == '`' || c == '~' || c == '!' || c == '@' || c == '#'
        || c == '$' || c == '%' || c == '^' || c == '&' || c == '*'
        || c == '(' || c == ')' || c == '+' || c == '-' || c == '_'
        || c == '=' || c == '[' || c == '{' || c == ']' || c == '}'
        || c == '\\' || c == '|' || c == '\'' || c == '<' || c == '>'
        || c == '.' || c == ',' || c == '?' || c == '/' || c == ';'
        || c == ':' || c == '\u{00A3}' || c == '\u{00A7}' || c == '\u{00A9}'
        || c == '\u{00AE}' || c == '\u{00BA}';
    let white = (0x09 <= u && u <= 0x0D) || c == ' ' || c == '\u{0085}'
        || c == '\u{00A0}' || c == '\u{1680}' || (0x2000 <= u && u <= 0x200A)
        || c == '\u{2028}' || c == '\u{2029}' || c == '\u{202F}'
        || c == '\u{205F}' || c == '\u{3000}';
    !digit && !denied && !white
}

/// Decides [`is_separator`].
pub fn separator_char(c: char) -> (b: bool)
    ensures
        b == is_separator(c),
{
    c == '.' || c == '\u{FF61}' || c == '\u{3002}' || c == '\u{FF65}'
        || c == '\u{30FB}' || c == '\u{FE12}' || c == '\u{17D4}'
        || c == '\u{0589}' || c == '\u{104B}' || c == '\u{06D4}'
        || c == '\u{1362}' || c == '\u{0964}'
}

/// Decides [`is_near_sep`].
pub fn near_sep_char(c: char) -> (b: bool)
    ensures
        b == is_near_sep(c),
{
    c == ' ' || c == ',' || c == '-' || c == '/'
        || c == '+' || c == '\'' || c == '&' || c == '\\' || c == ':'
        || c == ';' || c == '|' || c == '^' || c == '_' || c == '\u{3000}'
}

/// Decides [`is_joiner`].
pub fn joiner_char(c: char) -> (b: bool)
    ensures
        b == is_joiner(c),
{
    c == ' ' || c == '\u{00A0}'
}

} // verus!
