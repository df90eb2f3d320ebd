use vstd::prelude::*;

verus! {

/// Whether a character beyond ASCII carries Unicode's Alphabetic property.
pub uninterp spec fn alphabetic(c: char) -> bool;

pub open spec fn is_ascii_letter(c: char) -> bool {
    ('a' <= c && c <= 'z') || ('A' <= c && c <= 'Z')
}

/// A letter: `_`, an ASCII Latin letter, or an alphabetic character beyond ASCII.
pub open spec fn is_letter(c: char) -> bool {
    c == '_' || if (c as u32) < 128 {
        is_ascii_letter(c)
    } else {
        alphabetic(c)
    }
}

pub open spec fn is_digit(c: char) -> bool {
    '0' <= c && c <= '9'
}

/// Characters that may follow the first one of an identifier.
pub open spec fn is_ident_char(c: char) -> bool {
    is_letter(c) || is_digit(c)
}

/// Blanks skipped between tokens (a newline is handled apart).
pub open spec fn is_blank(c: char) -> bool {
    c == ' ' || c == '\t' || c == '\x0C'
}

/// The ASCII characters of Unicode's punctuation category, quotes excluded.
pub open spec fn is_punct(c: char) -> bool {
    c == '!' || c == '#' || c == '%' || c == '&' || c == '(' || c == ')' || c == '*' || c
        == ',' || c == '-' || c == '.' || c == '/' || c == ':' || c == ';' || c == '?' || c
        == '@' || c == '[' || c == '\\' || c == ']' || c == '_' || c == '{' || c == '}'
}

/// The letters that may follow a backslash in an escape sequence.
pub open spec fn is_escape_code(c: char) -> bool {
    c == 'n' || c == 'r' || c == 't' || c == 'v' || c == 'f' || c == 'a' || c == 'b' || c
        == '\\' || c == '\'' || c == '"'
}

/// The control or quote character that an escape sequence stands for.
pub open spec fn escape_value(c: char) -> char {
    if c == 'n' {
        '\n'
    } else if c == 'r' {
        '\r'
    } else if c == 't' {
        '\t'
    } else if c == 'v' {
        '\x0B'
    } else if c == 'f' {
        '\x0C'
    } else if c == 'a' {
        '\x07'
    } else if c == 'b' {
        '\x08'
    } else {
        c
    }
}

/// What an interpreted string may hold, escapes aside: letters, digits,
/// punctuation and whitespace other than a newline.
pub open spec fn is_string_char(c: char) -> bool {
    is_letter(c) || is_digit(c) || is_punct(c) || c == ' ' || c == '\t' || c == '\x0B' || c
        == '\x0C' || c == '\r'
}

/// What a rune literal may hold between its quotes, escapes aside.
pub open spec fn is_rune_char(c: char) -> bool {
    is_letter(c) || is_digit(c) || is_punct(c)
}

/// Relies on `char::is_alphabetic`: true exactly for the Latin letters within
/// ASCII, and by the Alphabetic property beyond it.
#[verifier::external_body]
fn std_is_alphabetic(c: char) -> (r: bool)
    ensures
        (c as u32) < 128 ==> r == is_ascii_letter(c),
        (c as u32) >= 128 ==> r == alphabetic(c),
{
    c.is_alphabetic()
}

pub fn letter(c: char) -> (r: bool)
    ensures
        r == is_letter(c),
{
    c == '_' || std_is_alphabetic(c)
}

pub fn digit(c: char) -> (r: bool)
    ensures
        r == is_digit(c),
{
    '0' <= c && c <= '9'
}

pub fn ident_char(c: char) -> (r: bool)
    ensures
        r == is_ident_char(c),
{
    letter(c) || digit(c)
}

pub fn blank(c: char) -> (r: bool)
    ensures
        r == is_blank(c),
{
    c == ' ' || c == '\t' || c == '\x0C'
}

pub fn punct(c: char) -> (r: bool)
    ensures
        r == is_punct(c),
{
    c == '!' || c == '#' || c == '%' || c == '&' || c == '(' || c == ')' || c == '*' || c
        == ',' || c == '-' || c == '.' || c == '/' || c == ':' || c == ';' || c == '?' || c
        == '@' || c == '[' || c == '\\' || c == ']' || c == '_' || c == '{' || c == '}'
}

pub fn escape_code(c: char) -> (r: bool)
    ensures
        r == is_escape_code(c),
{
    c == 'n' || c == 'r' || c == 't' || c == 'v' || c == 'f' || c == 'a' || c == 'b' || c
        == '\\' || c == '\'' || c == '"'
}

pub fn escape(c: char) -> (r: char)
    ensures
        r == escape_value(c),
{
    if c == 'n' {
        '\n'
    } else if c == 'r' {
        '\r'
    } else if c == 't' {
        '\t'
    } else if c == 'v' {
        '\x0B'
    } else if c == 'f' {
        '\x0C'
    } else if c == 'a' {
        '\x07'
    } else if c == 'b' {
        '\x08'
    } else {
        c
    }
}

pub fn string_char(c: char) -> (r: bool)
    ensures
        r == is_string_char(c),
{
    letter(c) || digit(c) || punct(c) || c == ' ' || c == '\t' || c == '\x0B' || c == '\x0C'
        || c == '\r'
}

pub fn rune_char(c: char) -> (r: bool)
    ensures
        r == is_rune_char(c),
{
    letter(c) || digit(c) || punct(c)
}

} // verus!
