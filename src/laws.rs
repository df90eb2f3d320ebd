//! Properties of the scanner, proved over the grammar model that `next`
//! follows exactly.
use vstd::prelude::*;
use crate::classes::{is_blank, is_digit, is_ident_char, is_letter};
use crate::grammar::{
    char_at, close_on_line, digits_len, find_char, istr_end, keyword, line_end,
    lines_after, next_spec, run_len, start, strip, symbol, token_at, trivia_end, ScanState,
};
use crate::token::{Kind, Lexeme, MyGOError};

verus! {

proof fn lemma_run_to_end(s: Seq<char>, i: int)
    requires
        0 <= i <= s.len(),
        forall|j: int| i <= j < s.len() ==> is_ident_char(#[trigger] s[j]),
    ensures
        run_len(s, i) == s.len() - i,
    decreases s.len() - i,
{
    if i < s.len() {
        lemma_run_to_end(s, i + 1);
    }
}

proof fn lemma_no_newline(s: Seq<char>, k: int, to: int, line: int, ls: int)
    requires
        0 <= k,
        to <= s.len(),
        forall|j: int| k <= j < to ==> #[trigger] s[j] != '\n',
    ensures
        lines_after(s, k, to, line, ls) == (line, ls),
    decreases to - k,
{
    if k < to {
        lemma_no_newline(s, k + 1, to, line, ls);
    }
}

/// A word of identifier characters that starts with a letter lexes, alone,
/// to one token covering all of it.
proof fn lemma_word_alone(s: Seq<char>)
    requires
        s.len() > 0,
        is_letter(s[0]),
        forall|j: int| 0 <= j < s.len() ==> is_ident_char(#[trigger] s[j]),
    ensures
        next_spec(s, start()) == (
            Some(
                Ok::<((int, int), Lexeme), MyGOError>(
                    (
                        (0, 0),
                        match keyword(s) {
                            Some(k) => Lexeme::Sym(k),
                            None => Lexeme::Identifier(s),
                        },
                    ),
                ),
            ),
            ScanState { pos: s.len() as int, line: 0, ls: 0 },
        ),
        next_spec(s, ScanState { pos: s.len() as int, line: 0, ls: 0 }).0 is None,
{
    lemma_run_to_end(s, 0);
    assert(s.subrange(0, s.len() as int) =~= s);
    assert forall|j: int| 0 <= j < s.len() implies #[trigger] s[j] != '\n' by {
        assert(is_ident_char(s[j]));
    }
    lemma_no_newline(s, 0, s.len() as int, 0, 0);
    assert(trivia_end(s, 0) is None);
}

/// An identifier alone, one that is no keyword, lexes to exactly one
/// `Identifier` token holding it, at line 0 and column 0, and nothing after.
pub proof fn identifier_alone(s: Seq<char>)
    requires
        s.len() > 0,
        is_letter(s[0]),
        forall|j: int| 0 <= j < s.len() ==> is_ident_char(#[trigger] s[j]),
        keyword(s) is None,
    ensures
        next_spec(s, start()).0 == Some(
            Ok::<((int, int), Lexeme), MyGOError>(((0, 0), Lexeme::Identifier(s))),
        ),
        next_spec(s, next_spec(s, start()).1).0 is None,
{
    lemma_word_alone(s);
}

/// A keyword spelled alone lexes to its keyword token, not to an
/// `Identifier`, and nothing after.
pub proof fn keyword_alone(w: Seq<char>, k: Kind)
    requires
        keyword(w) == Some(k),
    ensures
        next_spec(w, start()).0 == Some(Ok::<((int, int), Lexeme), MyGOError>(((0, 0), Lexeme::Sym(k)))),
        next_spec(w, next_spec(w, start()).1).0 is None,
{
    assert(w.len() > 0 && is_letter(w[0]));
    assert forall|j: int| 0 <= j < w.len() implies is_ident_char(#[trigger] w[j]) by {
        assert(is_letter(w[j]));
    }
    lemma_word_alone(w);
}

/// At any point of the input, `:=` is one `ShortDecl` token and `==` one
/// `LogiEq` token: the scanner takes the longer symbol.
pub proof fn longest_symbol(s: Seq<char>, st: ScanState)
    requires
        0 <= st.pos,
        st.pos + 1 < s.len(),
        (s[st.pos] == ':' || s[st.pos] == '=') && s[st.pos + 1] == '=',
    ensures
        next_spec(s, st) == (
            Some(
                Ok::<((int, int), Lexeme), MyGOError>(
                    (
                        (st.line, st.pos - st.ls),
                        Lexeme::Sym(
                            if s[st.pos] == ':' {
                                Kind::ShortDecl
                            } else {
                                Kind::LogiEq
                            },
                        ),
                    ),
                ),
            ),
            ScanState { pos: st.pos + 2, line: st.line, ls: st.ls },
        ),
{
    assert(trivia_end(s, st.pos) is None);
    lemma_no_newline(s, st.pos, st.pos + 2, st.line, st.ls);
}

/// A character that begins no production is one `UnKnownToken` error, and
/// the scanner goes on just past it, on the same line.
pub proof fn unknown_character(s: Seq<char>, st: ScanState)
    requires
        0 <= st.pos < s.len(),
        !is_letter(s[st.pos]),
        !is_digit(s[st.pos]),
        !is_blank(s[st.pos]),
        s[st.pos] != '\n',
        s[st.pos] != '\'',
        s[st.pos] != '"',
        s[st.pos] != '`',
        symbol(s[st.pos], char_at(s, st.pos + 1)) is None,
    ensures
        next_spec(s, st) == (
            Some(Err::<((int, int), Lexeme), MyGOError>(MyGOError::UnKnownToken)),
            ScanState { pos: st.pos + 1, line: st.line, ls: st.ls },
        ),
{
    assert(trivia_end(s, st.pos) is None);
    lemma_no_newline(s, st.pos, st.pos + 1, st.line, st.ls);
}

proof fn lemma_run_bound(s: Seq<char>, i: int)
    requires
        0 <= i,
    ensures
        0 <= run_len(s, i) <= if i <= s.len() { s.len() - i } else { 0 },
    decreases s.len() - i,
{
    if 0 <= i < s.len() {
        lemma_run_bound(s, i + 1);
    }
}

proof fn lemma_digits_bound(s: Seq<char>, i: int)
    requires
        0 <= i,
    ensures
        0 <= digits_len(s, i) <= if i <= s.len() { s.len() - i } else { 0 },
    decreases s.len() - i,
{
    if 0 <= i < s.len() && is_digit(s[i]) {
        if i + 1 < s.len() && is_digit(s[i + 1]) {
            lemma_digits_bound(s, i + 1);
        } else if i + 2 < s.len() && s[i + 1] == '_' && is_digit(s[i + 2]) {
            lemma_digits_bound(s, i + 2);
        }
    }
}

proof fn lemma_close_bound(s: Seq<char>, k: int, c: char)
    ensures
        close_on_line(s, k, c) matches Some(j) ==> k <= j < s.len(),
        find_char(s, k, c) matches Some(j) ==> k <= j < s.len(),
        istr_end(s, k) matches Some(j) ==> k <= j < s.len(),
    decreases s.len() - k,
{
    if 0 <= k < s.len() {
        lemma_close_bound(s, k + 1, c);
        if k + 1 < s.len() {
            lemma_close_bound(s, k + 2, c);
        }
    }
}

/// The token at `i` covers at least one character and stays in the input.
proof fn lemma_token_bound(s: Seq<char>, i: int)
    requires
        0 <= i < s.len(),
    ensures
        i < token_at(s, i).1 <= s.len(),
{
    lemma_run_bound(s, i);
    lemma_digits_bound(s, i);
    let p = i + digits_len(s, i);
    lemma_digits_bound(s, p + 1);
    lemma_close_bound(s, i + 1, '\'');
    lemma_close_bound(s, i + 1, '`');
    let c = s[i];
    if is_letter(c) {
        assert(is_ident_char(c));
        lemma_run_bound(s, i + 1);
        assert(token_at(s, i).1 == i + run_len(s, i));
    } else if crate::grammar::starts_number(s, i) {
        if char_at(s, p) == '.' {
            assert(p < s.len());
        } else {
            assert(is_digit(c));
            lemma_digits_bound(s, i + 1);
            lemma_digits_bound(s, i + 2);
            assert(digits_len(s, i) >= 1);
        }
    } else if c == '\'' && crate::grammar::rune_end(s, i) is Some {
        assert(i < token_at(s, i).1 <= s.len());
    } else if c == '"' && istr_end(s, i + 1) is Some {
        assert(i < token_at(s, i).1 <= s.len());
    } else if c == '`' && find_char(s, i + 1, '`') is Some {
        assert(i < token_at(s, i).1 <= s.len());
    } else if symbol(c, char_at(s, i + 1)) is Some {
        let d = char_at(s, i + 1);
        assert(d == '\0' ==> (symbol(c, d)->0).1 == 1);
        assert(i < token_at(s, i).1 <= s.len());
    } else {
        assert(token_at(s, i).1 == i + 1);
    }
}

/// Each call that returns something moves the cursor forward and keeps it
/// in the input; so scanning any input ends, after at most one call per
/// character, in `None`.
pub proof fn progress(s: Seq<char>, st: ScanState)
    requires
        0 <= st.pos,
    ensures
        next_spec(s, st).0 is Some ==> st.pos < next_spec(s, st).1.pos <= s.len(),
    decreases s.len() - st.pos,
{
    if 0 <= st.pos < s.len() {
        match trivia_end(s, st.pos) {
            Some(e) => {
                if st.pos < e <= s.len() {
                    let (l, ls) = lines_after(s, st.pos, e, st.line, st.ls);
                    progress(s, ScanState { pos: e, line: l, ls });
                }
            },
            None => {
                lemma_token_bound(s, st.pos);
            },
        }
    }
}

proof fn lemma_run_chars(s: Seq<char>, i: int)
    requires
        0 <= i,
    ensures
        forall|j: int|
            i <= j < i + digits_len(s, i) ==> is_digit(#[trigger] s[j]) || s[j] == '_',
    decreases s.len() - i,
{
    if 0 <= i < s.len() && is_digit(s[i]) {
        if i + 1 < s.len() && is_digit(s[i + 1]) {
            lemma_run_chars(s, i + 1);
        } else if i + 2 < s.len() && s[i + 1] == '_' && is_digit(s[i + 2]) {
            lemma_run_chars(s, i + 2);
        }
    }
}

proof fn lemma_all_digits_len(s: Seq<char>, i: int)
    requires
        0 <= i <= s.len(),
        forall|j: int| i <= j < s.len() ==> is_digit(#[trigger] s[j]),
    ensures
        digits_len(s, i) == s.len() - i,
    decreases s.len() - i,
{
    if i + 1 < s.len() {
        lemma_all_digits_len(s, i + 1);
    }
}

proof fn lemma_strip_digits(x: Seq<char>)
    requires
        forall|j: int| 0 <= j < x.len() ==> is_digit(#[trigger] x[j]) || x[j] == '_',
    ensures
        forall|j: int| 0 <= j < strip(x).len() ==> is_digit(#[trigger] strip(x)[j]),
        x.len() > 0 && is_digit(x[0]) ==> strip(x).len() > 0 && strip(x)[0] == x[0],
    decreases x.len(),
{
    if x.len() > 0 {
        let p = x.drop_last();
        assert forall|j: int| 0 <= j < p.len() implies is_digit(#[trigger] p[j]) || p[j] == '_' by {
            assert(p[j] == x[j]);
        }
        lemma_strip_digits(p);
        if x.len() > 1 {
            assert(p[0] == x[0]);
        }
        assert(is_digit(x.last()) || x.last() == '_');
        if x.last() == '_' {
            assert(strip(x) == strip(p));
        } else {
            assert(strip(x) == strip(p).push(x.last()));
            assert forall|j: int| 0 <= j < strip(x).len() implies is_digit(
                #[trigger] strip(x)[j],
            ) by {
                if j < strip(p).len() {
                    assert(strip(x)[j] == strip(p)[j]);
                }
            }
            if x.len() == 1 {
                assert(p.len() == 0);
                assert(strip(p).len() == 0);
            }
        }
    }
}

proof fn lemma_strip_plain(y: Seq<char>)
    requires
        forall|j: int| 0 <= j < y.len() ==> #[trigger] y[j] != '_',
    ensures
        strip(y) == y,
    decreases y.len(),
{
    if y.len() > 0 {
        let p = y.drop_last();
        assert forall|j: int| 0 <= j < p.len() implies #[trigger] p[j] != '_' by {
            assert(p[j] == y[j]);
        }
        lemma_strip_plain(p);
        assert(p.push(y.last()) =~= y);
    }
}

/// A digit run alone, as its first call of `next` sees it: its integer
/// value is that of its digits without separators.
proof fn lemma_run_alone(x: Seq<char>)
    requires
        x.len() > 0,
        is_digit(x[0]),
        forall|j: int| 0 <= j < x.len() ==> is_digit(#[trigger] x[j]) || x[j] == '_',
        digits_len(x, 0) == x.len(),
    ensures
        next_spec(x, start()).0 == Some(
            match crate::grammar::integer_value(x) {
                Ok(v) => Ok::<((int, int), Lexeme), MyGOError>(((0, 0), Lexeme::Integer(v))),
                Err(e) => Err(e),
            },
        ),
{
    assert(trivia_end(x, 0) is None);
    assert(!is_letter(x[0]));
    assert(x.subrange(0, x.len() as int) =~= x);
    assert forall|j: int| 0 <= j < x.len() implies #[trigger] x[j] != '\n' by {
        assert(is_digit(x[j]) || x[j] == '_');
    }
    lemma_no_newline(x, 0, x.len() as int, 0, 0);
}

/// A digit run with `_` separators lexes to the same result as the same run
/// with the separators removed.
pub proof fn separators_removed(x: Seq<char>)
    requires
        x.len() > 0,
        digits_len(x, 0) == x.len(),
    ensures
        next_spec(x, start()).0 == next_spec(strip(x), start()).0,
{
    lemma_run_chars(x, 0);
    assert(is_digit(x[0]));
    lemma_strip_digits(x);
    let y = strip(x);
    lemma_all_digits_len(y, 0);
    assert forall|j: int| 0 <= j < y.len() implies #[trigger] y[j] != '_' by {
        assert(is_digit(y[j]));
    }
    lemma_strip_plain(y);
    lemma_run_alone(x);
    lemma_run_alone(y);
}

proof fn lemma_line_end_at(s: Seq<char>, k: int, m: int)
    requires
        0 <= k <= m < s.len(),
        s[m] == '\n',
        forall|j: int| k <= j < m ==> #[trigger] s[j] != '\n',
    ensures
        line_end(s, k) == m,
    decreases m - k,
{
    if k < m {
        lemma_line_end_at(s, k + 1, m);
    }
}

/// A line comment, whatever it holds, and its newline vanish from the token
/// stream: `// c` and a newline, then `x`, lex to the one token `x`, on the
/// next line.
pub proof fn comment_then_identifier(c: Seq<char>)
    requires
        forall|j: int| 0 <= j < c.len() ==> #[trigger] c[j] != '\n',
    ensures
        ({
            let s = seq!['/', '/'] + c + seq!['\n', 'x'];
            &&& next_spec(s, start()).0 == Some(
                Ok::<((int, int), Lexeme), MyGOError>(((1, 0), Lexeme::Identifier(seq!['x']))),
            )
            &&& next_spec(s, next_spec(s, start()).1).0 is None
        }),
{
    let s = seq!['/', '/'] + c + seq!['\n', 'x'];
    let n = c.len() as int;
    assert(s.len() == n + 4);
    assert(s[0] == '/' && s[1] == '/' && s[n + 2] == '\n' && s[n + 3] == 'x');
    assert forall|j: int| 0 <= j < n + 2 implies #[trigger] s[j] != '\n' by {
        if j >= 2 {
            assert(s[j] == c[j - 2]);
        }
    }
    lemma_line_end_at(s, 0, n + 2);
    lemma_no_newline(s, 0, n + 2, 0, 0);
    let st1 = ScanState { pos: n + 2, line: 0, ls: 0 };
    assert(next_spec(s, start()) == next_spec(s, st1));
    let st2 = ScanState { pos: n + 3, line: 1, ls: n + 3 };
    assert(lines_after(s, n + 3, n + 3, 1, n + 3) == (1int, n + 3));
    assert(lines_after(s, n + 2, n + 3, 0, 0) == (1int, n + 3));
    assert(next_spec(s, st1) == next_spec(s, st2));
    assert(is_letter(s[n + 3]));
    assert(run_len(s, n + 4) == 0);
    assert(is_ident_char(s[n + 3]));
    assert(run_len(s, n + 3) == 1);
    assert(s.subrange(n + 3, n + 4) =~= seq!['x']);
    assert(lines_after(s, n + 4, n + 4, 1, n + 3) == (1int, n + 3));
    assert(lines_after(s, n + 3, n + 4, 1, n + 3) == (1int, n + 3));
}

/// An empty input yields no token, and no error.
pub proof fn empty_input()
    ensures
        next_spec(Seq::<char>::empty(), start()).0 is None,
{
}

} // verus!
