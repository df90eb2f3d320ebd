//! The decoders: each turns the current lexeme of a `Lexer` into the data of
//! its token, with the token's position.
use vstd::prelude::*;
use crate::classes::{digit, escape, escape_code, rune_char};
use crate::grammar::{
    decimal_value, decode_rune, digit_val, find_char, float_side, float_text, integer_value,
    strip,
};
use crate::lexer::Lexer;
use crate::token::{loc_view, MyGOError, ParseData};

verus! {

/// Relies on `String::push`: appends one character.
#[verifier::external_body]
fn push_char(s: &mut String, c: char)
    ensures
        final(s)@ == old(s)@.push(c),
{
    s.push(c)
}

/// The characters of `src` from `from` to `to`, appended to `out`.
fn push_range(out: &mut String, src: &Vec<char>, from: usize, to: usize)
    requires
        from <= to <= src@.len(),
    ensures
        final(out)@ == old(out)@ + src@.subrange(from as int, to as int),
{
    let mut k = from;
    while k < to
        invariant
            from <= k <= to <= src@.len(),
            out@ == old(out)@ + src@.subrange(from as int, k as int),
        decreases to - k,
    {
        push_char(out, src[k]);
        assert(src@.subrange(from as int, k + 1) =~= src@.subrange(from as int, k as int).push(
            src@[k as int],
        ));
        assert(out@ =~= old(out)@ + src@.subrange(from as int, k + 1));
        k += 1;
    }
}

/// The characters of `src` from `from` to `to` but the `_` separators,
/// appended to `out`.
fn push_stripped(out: &mut String, src: &Vec<char>, from: usize, to: usize)
    requires
        from <= to <= src@.len(),
    ensures
        final(out)@ == old(out)@ + strip(src@.subrange(from as int, to as int)),
{
    let mut k = from;
    assert(src@.subrange(from as int, from as int).len() == 0);
    assert(old(out)@ =~= old(out)@ + strip(src@.subrange(from as int, from as int)));
    while k < to
        invariant
            from <= k <= to <= src@.len(),
            out@ == old(out)@ + strip(src@.subrange(from as int, k as int)),
        decreases to - k,
    {
        let ghost prev = src@.subrange(from as int, k as int);
        let ghost next = src@.subrange(from as int, k + 1);
        assert(next.drop_last() =~= prev);
        if src[k] != '_' {
            push_char(out, src[k]);
            assert(out@ =~= old(out)@ + strip(next));
        }
        k += 1;
    }
}

/// The position of the current lexeme: the line counter, and the column
/// counted from the start of the current line.
pub(crate) fn get_parse_loc(lex: &Lexer) -> (r: (usize, usize))
    requires
        lex.wf(),
        lex.line_start() <= lex.span().0,
    ensures
        loc_view(r) == lex.loc(),
{
    (lex.extras.0, lex.start - lex.extras.1)
}

/// An identifier: the lexeme itself.
pub fn parse_identifier(lex: &Lexer) -> (r: ParseData<String>)
    requires
        lex.wf(),
        lex.line_start() <= lex.span().0,
    ensures
        r.data@ == lex.lexeme(),
        loc_view(r.loc) == lex.loc(),
{
    let mut data = String::new();
    push_range(&mut data, &lex.source, lex.start, lex.end);
    ParseData { data, loc: get_parse_loc(lex) }
}

/// A string literal: the lexeme between its delimiters, verbatim (escape
/// sequences are kept as written).
pub fn parse_string(lex: &Lexer) -> (r: ParseData<String>)
    requires
        lex.wf(),
        lex.line_start() <= lex.span().0,
        lex.lexeme().len() >= 2,
    ensures
        r.data@ == lex.lexeme().subrange(1, lex.lexeme().len() - 1),
        loc_view(r.loc) == lex.loc(),
{
    let mut data = String::new();
    push_range(&mut data, &lex.source, lex.start + 1, lex.end - 1);
    assert(data@ =~= lex.lexeme().subrange(1, lex.lexeme().len() - 1));
    ParseData { data, loc: get_parse_loc(lex) }
}

proof fn lemma_decimal_nonneg(x: Seq<char>)
    ensures
        decimal_value(x) >= 0,
    decreases x.len(),
{
    if x.len() > 0 {
        lemma_decimal_nonneg(x.drop_last());
    }
}

/// Extending a lexeme never lowers the value of its digits.
proof fn lemma_value_grows(x: Seq<char>, m: int, n: int)
    requires
        0 <= m <= n <= x.len(),
    ensures
        decimal_value(strip(x.subrange(0, m))) <= decimal_value(strip(x.subrange(0, n))),
    decreases n - m,
{
    if m < n {
        lemma_value_grows(x, m, n - 1);
        let p = x.subrange(0, n - 1);
        let q = x.subrange(0, n);
        assert(q.drop_last() =~= p);
        lemma_decimal_nonneg(strip(p));
        if q.last() != '_' {
            assert(strip(q).drop_last() =~= strip(p));
        }
    }
}

/// An integer literal: the value of its digits, separators removed;
/// `InvalidInterger` where it exceeds `i64`.
pub fn parse_interger(lex: &Lexer) -> (r: Result<ParseData<i64>, MyGOError>)
    requires
        lex.wf(),
        lex.line_start() <= lex.span().0,
    ensures
        match r {
            Ok(p) => integer_value(lex.lexeme()) == Ok::<i64, MyGOError>(p.data) && loc_view(p.loc)
                == lex.loc(),
            Err(e) => integer_value(lex.lexeme()) == Err::<i64, MyGOError>(e),
        },
{
    let ghost x = lex.lexeme();
    let mut v: i64 = 0;
    let mut k = lex.start;
    assert(x.subrange(0, 0).len() == 0);
    while k < lex.end
        invariant
            lex.wf(),
            x == lex.lexeme(),
            lex.start <= k <= lex.end,
            0 <= v,
            v as int == decimal_value(strip(x.subrange(0, k - lex.start))),
        decreases lex.end - k,
    {
        let c = lex.source[k];
        let ghost i = k - lex.start;
        let ghost q = x.subrange(0, i + 1);
        assert(q.drop_last() =~= x.subrange(0, i));
        assert(q.last() == c);
        if c != '_' {
            assert(strip(q).drop_last() =~= strip(x.subrange(0, i)));
            let d: i64 = if digit(c) {
                (c as u32 - '0' as u32) as i64
            } else {
                0
            };
            assert(d == digit_val(c));
            let w: i128 = (v as i128) * 10 + (d as i128);
            if w > i64::MAX as i128 {
                proof {
                    lemma_value_grows(x, i + 1, x.len() as int);
                    assert(x.subrange(0, x.len() as int) =~= x);
                }
                return Err(MyGOError::InvalidInterger);
            }
            v = w as i64;
            assert(strip(q).last() == c);
            assert(v as int == decimal_value(strip(q)));
        } else {
            assert(strip(q) == strip(x.subrange(0, i)));
        }
        assert(x.subrange(0, k + 1 - lex.start) == q);
        k += 1;
    }
    assert(x.subrange(0, x.len() as int) =~= x);
    Ok(ParseData { data: v, loc: get_parse_loc(lex) })
}

/// A float literal: its text as `float_text` gives it; `Invalidfloat` where
/// the lexeme holds no `.`.
pub fn parse_float(lex: &Lexer) -> (r: Result<ParseData<String>, MyGOError>)
    requires
        lex.wf(),
        lex.line_start() <= lex.span().0,
    ensures
        match r {
            Ok(p) => float_text(lex.lexeme()) == Ok::<Seq<char>, MyGOError>(p.data@) && loc_view(
                p.loc,
            ) == lex.loc(),
            Err(e) => float_text(lex.lexeme()) == Err::<Seq<char>, MyGOError>(e),
        },
{
    let ghost x = lex.lexeme();
    let mut d = lex.start;
    while d < lex.end && lex.source[d] != '.'
        invariant
            lex.wf(),
            x == lex.lexeme(),
            lex.start <= d <= lex.end,
            find_char(x, 0, '.') == find_char(x, d - lex.start, '.'),
        decreases lex.end - d,
    {
        d += 1;
    }
    if d == lex.end {
        return Err(MyGOError::Invalidfloat);
    }
    let mut data = String::new();
    if d == lex.start {
        push_char(&mut data, '0');
    } else {
        push_stripped(&mut data, &lex.source, lex.start, d);
    }
    push_char(&mut data, '.');
    if d + 1 == lex.end {
        push_char(&mut data, '0');
    } else {
        push_stripped(&mut data, &lex.source, d + 1, lex.end);
    }
    proof {
        let i = d - lex.start;
        assert(x.subrange(0, i) =~= lex.source@.subrange(lex.start as int, d as int));
        assert(x.subrange(i + 1, x.len() as int) =~= lex.source@.subrange(d + 1, lex.end as int));
        assert(data@ =~= float_side(x.subrange(0, i)) + seq!['.'] + float_side(
            x.subrange(i + 1, x.len() as int),
        ));
    }
    Ok(ParseData { data, loc: get_parse_loc(lex) })
}

/// A rune literal: what `decode_rune` gives for the characters between its
/// quotes.
pub fn parse_rune(lex: &Lexer) -> (r: Result<ParseData<char>, MyGOError>)
    requires
        lex.wf(),
        lex.line_start() <= lex.span().0,
        lex.lexeme().len() >= 2,
    ensures
        match r {
            Ok(p) => decode_rune(lex.lexeme().subrange(1, lex.lexeme().len() - 1)) == Ok::<
                char,
                MyGOError,
            >(p.data) && loc_view(p.loc) == lex.loc(),
            Err(e) => decode_rune(lex.lexeme().subrange(1, lex.lexeme().len() - 1)) == Err::<
                char,
                MyGOError,
            >(e),
        },
{
    let ghost inner = lex.lexeme().subrange(1, lex.lexeme().len() - 1);
    let n = lex.end - lex.start - 2;
    let a = lex.start + 1;
    assert(inner.len() == n);
    let data = if n == 2 && lex.source[a] == '\\' && escape_code(lex.source[a + 1]) {
        assert(inner[0] == lex.source@[a as int] && inner[1] == lex.source@[a + 1]);
        escape(lex.source[a + 1])
    } else if n == 1 && rune_char(lex.source[a]) {
        assert(inner[0] == lex.source@[a as int]);
        lex.source[a]
    } else {
        proof {
            if n == 2 {
                assert(inner[0] == lex.source@[a as int] && inner[1] == lex.source@[a + 1]);
            }
            if n == 1 {
                assert(inner[0] == lex.source@[a as int]);
            }
        }
        return Err(MyGOError::InvalidRune);
    };
    Ok(ParseData { data, loc: get_parse_loc(lex) })
}

/// Records the newline at `at`: the line counter goes up by one and the
/// current line now starts just past it.
pub fn newline_parse(lex: &mut Lexer, at: usize)
    requires
        old(lex).wf(),
        old(lex).line_start() <= at < old(lex).span().1,
    ensures
        final(lex).wf(),
        final(lex).src() == old(lex).src(),
        final(lex).span() == old(lex).span(),
        final(lex).line() == old(lex).line() + 1,
        final(lex).line_start() == at + 1,
{
    lex.extras = (lex.extras.0 + 1, at + 1);
}

} // verus!
