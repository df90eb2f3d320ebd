//! The grammar as spec functions over the input's characters: where each
//! production ends when it starts at a given index, and what one call of the
//! scanner returns from a given state.
use vstd::prelude::*;
use crate::classes::{escape_value, is_blank, is_digit, is_escape_code, is_ident_char, is_letter, is_rune_char, is_string_char};
use crate::token::{Kind, Lexeme, MyGOError};

verus! {

/// The length of the run of identifier characters that starts at `i`.
pub open spec fn run_len(s: Seq<char>, i: int) -> int
    decreases s.len() - i,
{
    if 0 <= i < s.len() && is_ident_char(s[i]) {
        1 + run_len(s, i + 1)
    } else {
        0
    }
}

/// The length of the digit run at `i`: digits, each pair of neighbours
/// possibly parted by a single `_`. Zero where `i` holds no digit.
pub open spec fn digits_len(s: Seq<char>, i: int) -> int
    decreases s.len() - i,
{
    if !(0 <= i < s.len() && is_digit(s[i])) {
        0
    } else if i + 1 < s.len() && is_digit(s[i + 1]) {
        1 + digits_len(s, i + 1)
    } else if i + 2 < s.len() && s[i + 1] == '_' && is_digit(s[i + 2]) {
        2 + digits_len(s, i + 2)
    } else {
        1
    }
}

/// The characters of `x` without the `_` separators.
pub open spec fn strip(x: Seq<char>) -> Seq<char>
    decreases x.len(),
{
    if x.len() == 0 {
        x
    } else if x.last() == '_' {
        strip(x.drop_last())
    } else {
        strip(x.drop_last()).push(x.last())
    }
}

pub open spec fn digit_val(c: char) -> int {
    if is_digit(c) {
        c as int - '0' as int
    } else {
        0
    }
}

/// The number that a string of decimal digits writes.
pub open spec fn decimal_value(x: Seq<char>) -> int
    decreases x.len(),
{
    if x.len() == 0 {
        0
    } else {
        decimal_value(x.drop_last()) * 10 + digit_val(x.last())
    }
}

/// One side of a float literal: its digits without separators, `0` if empty.
pub open spec fn float_side(x: Seq<char>) -> Seq<char> {
    if x.len() == 0 {
        seq!['0']
    } else {
        strip(x)
    }
}

/// The first index at or after `k` that holds `c`, if any, before a newline
/// or the end.
pub open spec fn close_on_line(s: Seq<char>, k: int, c: char) -> Option<int>
    decreases s.len() - k,
{
    if k < 0 || k >= s.len() || s[k] == '\n' {
        None
    } else if s[k] == c {
        Some(k)
    } else {
        close_on_line(s, k + 1, c)
    }
}

/// The first index at or after `k` that holds `c`, if any.
pub open spec fn find_char(s: Seq<char>, k: int, c: char) -> Option<int>
    decreases s.len() - k,
{
    if k < 0 || k >= s.len() {
        None
    } else if s[k] == c {
        Some(k)
    } else {
        find_char(s, k + 1, c)
    }
}

/// The index of the newline that ends the line holding `k`, or the end.
pub open spec fn line_end(s: Seq<char>, k: int) -> int
    decreases s.len() - k,
{
    if k < 0 || k >= s.len() || s[k] == '\n' {
        k
    } else {
        line_end(s, k + 1)
    }
}

/// The index just past the first `*/` at or after `k`, if any.
pub open spec fn block_end(s: Seq<char>, k: int) -> Option<int>
    decreases s.len() - k,
{
    if k < 0 || k + 1 >= s.len() {
        None
    } else if s[k] == '*' && s[k + 1] == '/' {
        Some(k + 2)
    } else {
        block_end(s, k + 1)
    }
}

/// The index of the closing `"` of an interpreted string whose content
/// starts at `k`: content is string characters and escape sequences; a
/// backslash always begins an escape sequence.
pub open spec fn istr_end(s: Seq<char>, k: int) -> Option<int>
    decreases s.len() - k,
{
    if k < 0 || k >= s.len() || s[k] == '\n' {
        None
    } else if s[k] == '"' {
        Some(k)
    } else if s[k] == '\\' {
        if k + 1 < s.len() && is_escape_code(s[k + 1]) {
            istr_end(s, k + 2)
        } else {
            None
        }
    } else if is_string_char(s[k]) {
        istr_end(s, k + 1)
    } else {
        None
    }
}

/// The index just past a rune literal that starts with the `'` at `i`: the
/// escape form `'\c'`, else up to the next `'` on the line.
pub open spec fn rune_end(s: Seq<char>, i: int) -> Option<int> {
    if i + 3 < s.len() && s[i + 1] == '\\' && is_escape_code(s[i + 2]) && s[i + 3] == '\'' {
        Some(i + 4)
    } else {
        match close_on_line(s, i + 1, '\'') {
            Some(j) => Some(j + 1),
            None => None,
        }
    }
}

/// What the characters between a rune literal's quotes stand for.
pub open spec fn decode_rune(inner: Seq<char>) -> Result<char, MyGOError> {
    if inner.len() == 2 && inner[0] == '\\' && is_escape_code(inner[1]) {
        Ok(escape_value(inner[1]))
    } else if inner.len() == 1 && is_rune_char(inner[0]) {
        Ok(inner[0])
    } else {
        Err(MyGOError::InvalidRune)
    }
}

/// The keyword that a word spells, if any.
pub open spec fn keyword(w: Seq<char>) -> Option<Kind> {
    if w.len() == 3 && w[0] == 'v' && w[1] == 'a' && w[2] == 'r' {
        Some(Kind::Var)
    } else if w.len() == 2 && w[0] == 'i' && w[1] == 'f' {
        Some(Kind::If)
    } else if w.len() == 4 && w[0] == 'e' && w[1] == 'l' && w[2] == 's' && w[3] == 'e' {
        Some(Kind::Else)
    } else if w.len() == 3 && w[0] == 'f' && w[1] == 'o' && w[2] == 'r' {
        Some(Kind::For)
    } else if w.len() == 5 && w[0] == 'c' && w[1] == 'o' && w[2] == 'n' && w[3] == 's' && w[4]
        == 't' {
        Some(Kind::Const)
    } else if w.len() == 4 && w[0] == 'f' && w[1] == 'u' && w[2] == 'n' && w[3] == 'c' {
        Some(Kind::Func)
    } else {
        None
    }
}

/// The longest operator or punctuation symbol that starts with `c` and whose
/// second character, if it has one, is `d`, with its length.
pub open spec fn symbol(c: char, d: char) -> Option<(Kind, int)> {
    if c == '=' {
        Some(if d == '=' { (Kind::LogiEq, 2) } else { (Kind::Eq, 1) })
    } else if c == ':' {
        Some(if d == '=' { (Kind::ShortDecl, 2) } else { (Kind::Colon, 1) })
    } else if c == '<' {
        Some(if d == '=' { (Kind::LessEq, 2) } else { (Kind::Less, 1) })
    } else if c == '>' {
        Some(if d == '=' { (Kind::GreaterEq, 2) } else { (Kind::Greater, 1) })
    } else if c == '!' {
        Some(if d == '=' { (Kind::LogiNotEq, 2) } else { (Kind::LogiNot, 1) })
    } else if c == '&' {
        Some(if d == '&' { (Kind::Logiand, 2) } else { (Kind::Bitand, 1) })
    } else if c == '|' {
        Some(if d == '|' { (Kind::Logior, 2) } else { (Kind::Bitor, 1) })
    } else if c == '+' {
        Some(
            if d == '+' {
                (Kind::Addone, 2)
            } else if d == '=' {
                (Kind::AddEq, 2)
            } else {
                (Kind::Add, 1)
            },
        )
    } else if c == '-' {
        Some(
            if d == '-' {
                (Kind::Subone, 2)
            } else if d == '=' {
                (Kind::SubEq, 2)
            } else {
                (Kind::Sub, 1)
            },
        )
    } else if c == '*' {
        Some(if d == '=' { (Kind::MultEq, 2) } else { (Kind::Mult, 1) })
    } else if c == '/' {
        Some(if d == '=' { (Kind::DivEq, 2) } else { (Kind::Div, 1) })
    } else if c == '%' {
        Some(if d == '=' { (Kind::ModEq, 2) } else { (Kind::Mod, 1) })
    } else if c == '^' {
        Some((Kind::Bitxor, 1))
    } else if c == '~' {
        Some((Kind::BitNot, 1))
    } else if c == '{' {
        Some((Kind::LCBrack, 1))
    } else if c == '}' {
        Some((Kind::RCBrack, 1))
    } else if c == '(' {
        Some((Kind::LRBrack, 1))
    } else if c == ')' {
        Some((Kind::RRBrack, 1))
    } else if c == '[' {
        Some((Kind::LSBrack, 1))
    } else if c == ']' {
        Some((Kind::RSBrack, 1))
    } else if c == ';' {
        Some((Kind::Semi, 1))
    } else if c == ',' {
        Some((Kind::Comma, 1))
    } else if c == '.' {
        Some((Kind::Dot, 1))
    } else {
        None
    }
}

/// The character at `i`, or NUL past either end; NUL begins no production
/// and continues none.
pub open spec fn char_at(s: Seq<char>, i: int) -> char {
    if 0 <= i < s.len() {
        s[i]
    } else {
        '\0'
    }
}

/// The end of the trivia (blank, newline or comment) that starts at `i`, if
/// one does.
pub open spec fn trivia_end(s: Seq<char>, i: int) -> Option<int> {
    let c = char_at(s, i);
    if c == '\n' || is_blank(c) {
        Some(i + 1)
    } else if c == '/' && char_at(s, i + 1) == '/' {
        Some(line_end(s, i))
    } else if c == '/' && char_at(s, i + 1) == '*' {
        block_end(s, i + 2)
    } else {
        None
    }
}

pub open spec fn starts_number(s: Seq<char>, i: int) -> bool {
    is_digit(char_at(s, i)) || (char_at(s, i) == '.' && is_digit(char_at(s, i + 1)))
}

/// What a float lexeme stands for: split at its `.`, each side written as
/// `float_side` gives it.
pub open spec fn float_text(x: Seq<char>) -> Result<Seq<char>, MyGOError> {
    match find_char(x, 0, '.') {
        Some(d) => Ok(
            float_side(x.subrange(0, d)) + seq!['.'] + float_side(x.subrange(d + 1, x.len() as int)),
        ),
        None => Err(MyGOError::Invalidfloat),
    }
}

/// What an integer lexeme stands for: its value without separators, where it
/// fits in an `i64`.
pub open spec fn integer_value(x: Seq<char>) -> Result<i64, MyGOError> {
    let v = decimal_value(strip(x));
    if v <= i64::MAX {
        Ok(v as i64)
    } else {
        Err(MyGOError::InvalidInterger)
    }
}

/// The number literal at `i`, where `starts_number(s, i)`, and its end: a
/// digit run, then a float if a `.` and a (possibly empty) digit run follow.
pub open spec fn number_at(s: Seq<char>, i: int) -> (Result<Lexeme, MyGOError>, int) {
    let p = i + digits_len(s, i);
    if char_at(s, p) == '.' {
        let e = p + 1 + digits_len(s, p + 1);
        (
            match float_text(s.subrange(i, e)) {
                Ok(t) => Ok(Lexeme::Float(t)),
                Err(x) => Err(x),
            },
            e,
        )
    } else {
        (
            match integer_value(s.subrange(i, p)) {
                Ok(v) => Ok(Lexeme::Integer(v)),
                Err(x) => Err(x),
            },
            p,
        )
    }
}

/// The token at `i`, which holds no trivia, and its end. Where no production
/// matches, `UnKnownToken` covers the one character at `i`.
pub open spec fn token_at(s: Seq<char>, i: int) -> (Result<Lexeme, MyGOError>, int) {
    let c = char_at(s, i);
    if is_letter(c) {
        let w = s.subrange(i, i + run_len(s, i));
        (
            Ok(
                match keyword(w) {
                    Some(k) => Lexeme::Sym(k),
                    None => Lexeme::Identifier(w),
                },
            ),
            i + run_len(s, i),
        )
    } else if starts_number(s, i) {
        number_at(s, i)
    } else if c == '\'' && rune_end(s, i) is Some {
        let e = rune_end(s, i)->0;
        (
            match decode_rune(s.subrange(i + 1, e - 1)) {
                Ok(r) => Ok(Lexeme::Rune(r)),
                Err(x) => Err(x),
            },
            e,
        )
    } else if c == '"' && istr_end(s, i + 1) is Some {
        let j = istr_end(s, i + 1)->0;
        (Ok(Lexeme::Str(s.subrange(i + 1, j))), j + 1)
    } else if c == '`' && find_char(s, i + 1, '`') is Some {
        let j = find_char(s, i + 1, '`')->0;
        (Ok(Lexeme::Str(s.subrange(i + 1, j))), j + 1)
    } else if symbol(c, char_at(s, i + 1)) is Some {
        let (k, n) = symbol(c, char_at(s, i + 1))->0;
        (Ok(Lexeme::Sym(k)), i + n)
    } else {
        (Err(MyGOError::UnKnownToken), i + 1)
    }
}

/// The line counter and line start after the characters from `k` to `to`:
/// each newline adds a line, which starts just past it.
pub open spec fn lines_after(s: Seq<char>, k: int, to: int, line: int, ls: int) -> (int, int)
    decreases to - k,
{
    if k >= to {
        (line, ls)
    } else if char_at(s, k) == '\n' {
        lines_after(s, k + 1, to, line + 1, k + 1)
    } else {
        lines_after(s, k + 1, to, line, ls)
    }
}

/// The scanner's state: the cursor, the line counter and where the current
/// line starts.
pub struct ScanState {
    pub pos: int,
    pub line: int,
    pub ls: int,
}

/// One call of the scanner from `st`: trivia is skipped, then the token (or
/// error) at the cursor is returned with its (line, column), or `None` at the
/// end; and the state after it.
pub open spec fn next_spec(s: Seq<char>, st: ScanState) -> (
    Option<Result<((int, int), Lexeme), MyGOError>>,
    ScanState,
)
    decreases s.len() - st.pos,
{
    if st.pos < 0 || st.pos >= s.len() {
        (None, st)
    } else {
        match trivia_end(s, st.pos) {
            Some(e) => if st.pos < e <= s.len() {
                let (l, ls) = lines_after(s, st.pos, e, st.line, st.ls);
                next_spec(s, ScanState { pos: e, line: l, ls })
            } else {
                (None, st)
            },
            None => {
                let (r, e) = token_at(s, st.pos);
                let (l, ls) = lines_after(s, st.pos, e, st.line, st.ls);
                (
                    Some(
                        match r {
                            Ok(x) => Ok(((st.line, st.pos - st.ls), x)),
                            Err(x) => Err(x),
                        },
                    ),
                    ScanState { pos: e, line: l, ls },
                )
            },
        }
    }
}

/// The state in which scanning starts.
pub open spec fn start() -> ScanState {
    ScanState { pos: 0, line: 0, ls: 0 }
}

} // verus!
