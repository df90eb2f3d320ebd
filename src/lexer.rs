//! The scanner: a cursor over the input's characters, with the line counter
//! and the start of the current line.
use vstd::prelude::*;
use crate::classes::{blank, digit, escape_code, ident_char, letter, string_char};
use crate::grammar::{
    block_end, char_at, close_on_line, digits_len, find_char, istr_end, keyword, line_end,
    lines_after, next_spec, rune_end, run_len, start, symbol, token_at,
    trivia_end, ScanState,
};
use crate::parse_token::{
    get_parse_loc, newline_parse, parse_float, parse_identifier, parse_interger, parse_rune,
    parse_string,
};
use crate::token::{sym_token, Kind, Lexeme, MyGOError, MyGoToken};

verus! {

/// A scanner over one input. `start..end` is the current lexeme, and `end`
/// the cursor; `extras` is (line counter, index where the current line
/// starts).
pub struct Lexer {
    pub(crate) source: Vec<char>,
    pub(crate) start: usize,
    pub(crate) end: usize,
    pub extras: (usize, usize),
}

impl Lexer {
    /// The input's characters.
    pub open(crate) spec fn src(&self) -> Seq<char> {
        self.source@
    }

    /// The current lexeme's bounds.
    pub open(crate) spec fn span(&self) -> (int, int) {
        (self.start as int, self.end as int)
    }

    /// The line counter.
    pub open(crate) spec fn line(&self) -> int {
        self.extras.0 as int
    }

    /// The index where the current line starts.
    pub open(crate) spec fn line_start(&self) -> int {
        self.extras.1 as int
    }

    pub open spec fn lexeme(&self) -> Seq<char> {
        self.src().subrange(self.span().0, self.span().1)
    }

    /// The position of the current lexeme.
    pub open spec fn loc(&self) -> (int, int) {
        (self.line(), self.span().0 - self.line_start())
    }

    pub open spec fn state(&self) -> ScanState {
        ScanState { pos: self.span().1, line: self.line(), ls: self.line_start() }
    }

    pub open(crate) spec fn wf(&self) -> bool {
        &&& self.start <= self.end <= self.source@.len()
        &&& self.extras.0 <= self.extras.1 <= self.end
    }

    /// A scanner at the start of `input`.
    pub fn new(input: &str) -> (r: Lexer)
        ensures
            r.wf(),
            r.src() == input@,
            r.state() == start(),
    {
        let mut source: Vec<char> = Vec::new();
        for c in it: input.chars()
            invariant
                source@ == it.seq().take(it.index() as int),
        {
            source.push(c);
        }
        Lexer { source, start: 0, end: 0, extras: (0, 0) }
    }

    /// Counts the newlines from `from` to the cursor.
    fn count_lines(&mut self, from: usize)
        requires
            old(self).wf(),
            old(self).line_start() <= from <= old(self).span().1,
        ensures
            final(self).wf(),
            final(self).src() == old(self).src(),
            final(self).span() == old(self).span(),
            (final(self).line(), final(self).line_start()) == lines_after(
                old(self).src(),
                from as int,
                old(self).span().1,
                old(self).line(),
                old(self).line_start(),
            ),
    {
        let mut k = from;
        while k < self.end
            invariant
                self.wf(),
                self.src() == old(self).src(),
                self.span() == old(self).span(),
                self.line_start() <= k <= self.span().1,
                lines_after(
                    old(self).src(),
                    from as int,
                    old(self).span().1,
                    old(self).line(),
                    old(self).line_start(),
                ) == lines_after(self.src(), k as int, self.span().1, self.line(), self.line_start()),
            decreases self.span().1 - k,
        {
            if self.source[k] == '\n' {
                newline_parse(self, k);
            }
            k += 1;
        }
    }

    /// The token at the cursor, which holds no trivia; the lexeme becomes
    /// the characters that it covers.
    fn scan_token(&mut self) -> (r: Result<MyGoToken, MyGOError>)
        requires
            old(self).wf(),
            old(self).span().1 < old(self).src().len(),
            trivia_end(old(self).src(), old(self).span().1) is None,
        ensures
            final(self).wf(),
            final(self).src() == old(self).src(),
            final(self).extras == old(self).extras,
            final(self).span() == (
                old(self).span().1,
                token_at(old(self).src(), old(self).span().1).1,
            ),
            match r {
                Ok(t) => token_at(old(self).src(), old(self).span().1).0 == Ok::<
                    Lexeme,
                    MyGOError,
                >(t@.1) && t@.0 == (old(self).line(), old(self).span().1 - old(self).line_start()),
                Err(e) => token_at(old(self).src(), old(self).span().1).0 == Err::<
                    Lexeme,
                    MyGOError,
                >(e),
            },
    {
        let ghost s = self.source@;
        let pos = self.end;
        let len = self.source.len();
        let c = self.source[pos];
        let d = char_at_exec(&self.source, pos + 1);
        self.start = pos;
        if letter(c) {
            let n = run_len_exec(&self.source, pos);
            self.end = pos + n;
            match keyword_exec(&self.source, pos, pos + n) {
                Some(k) => Ok(sym_token(k, get_parse_loc(self))),
                None => Ok(MyGoToken::Identifier(parse_identifier(self))),
            }
        } else if digit(c) || (c == '.' && digit(d)) {
            let p = pos + digits_len_exec(&self.source, pos);
            if char_at_exec(&self.source, p) == '.' {
                self.end = p + 1 + digits_len_exec(&self.source, p + 1);
                match parse_float(self) {
                    Ok(x) => Ok(MyGoToken::FloatNumber(x)),
                    Err(e) => Err(e),
                }
            } else {
                self.end = p;
                match parse_interger(self) {
                    Ok(x) => Ok(MyGoToken::Integer(x)),
                    Err(e) => Err(e),
                }
            }
        } else {
            let rune = if c == '\'' {
                rune_end_exec(&self.source, pos)
            } else {
                None
            };
            match rune {
                Some(e) => {
                    self.end = e;
                    assert(self.lexeme().subrange(1, self.lexeme().len() - 1) =~= s.subrange(
                        pos + 1,
                        e - 1,
                    ));
                    match parse_rune(self) {
                        Ok(x) => Ok(MyGoToken::Rune(x)),
                        Err(e) => Err(e),
                    }
                },
                None => {
                    let close = if c == '"' {
                        istr_end_exec(&self.source, pos + 1)
                    } else if c == '`' {
                        find_char_exec(&self.source, pos + 1, '`')
                    } else {
                        None
                    };
                    match close {
                        Some(j) => {
                            self.end = j + 1;
                            assert(self.lexeme().subrange(1, self.lexeme().len() - 1)
                                =~= s.subrange(pos + 1, j as int));
                            Ok(MyGoToken::String(parse_string(self)))
                        },
                        None => match symbol_exec(c, d) {
                            Some((k, n)) => {
                                self.end = pos + n;
                                Ok(sym_token(k, get_parse_loc(self)))
                            },
                            None => {
                                self.end = pos + 1;
                                Err(MyGOError::UnKnownToken)
                            },
                        },
                    }
                },
            }
        }
    }

    /// The next token, or the error of the next lexeme, or `None` at the end
    /// of the input; trivia before it is skipped and its newlines counted.
    pub fn next(&mut self) -> (r: Option<Result<MyGoToken, MyGOError>>)
        requires
            old(self).wf(),
        ensures
            final(self).wf(),
            final(self).src() == old(self).src(),
            (view_result(r), final(self).state()) == next_spec(old(self).src(), old(self).state()),
    {
        loop
            invariant
                self.wf(),
                self.src() == old(self).src(),
                next_spec(self.src(), self.state()) == next_spec(old(self).src(), old(self).state()),
            decreases self.src().len() - self.span().1,
        {
            let pos = self.end;
            if pos >= self.source.len() {
                return None;
            }
            match trivia_end_exec(&self.source, pos) {
                Some(e) => {
                    self.start = pos;
                    self.end = e;
                    self.count_lines(pos);
                },
                None => {
                    let r = self.scan_token();
                    self.count_lines(pos);
                    return Some(r);
                },
            }
        }
    }
}

impl MyGoToken {
    /// A scanner over `input`, at its start.
    pub fn lexer(input: &str) -> (r: Lexer)
        ensures
            r.wf(),
            r.src() == input@,
            r.state() == start(),
    {
        Lexer::new(input)
    }
}

/// What a call of `next` returns, with each token seen through its view.
pub open spec fn view_result(r: Option<Result<MyGoToken, MyGOError>>) -> Option<
    Result<((int, int), Lexeme), MyGOError>,
> {
    match r {
        None => None,
        Some(Ok(t)) => Some(Ok(t@)),
        Some(Err(e)) => Some(Err(e)),
    }
}

fn char_at_exec(s: &Vec<char>, i: usize) -> (r: char)
    ensures
        r == char_at(s@, i as int),
{
    if i < s.len() {
        s[i]
    } else {
        '\0'
    }
}

fn run_len_exec(s: &Vec<char>, i: usize) -> (r: usize)
    requires
        i <= s@.len(),
    ensures
        r == run_len(s@, i as int),
        i + r <= s@.len(),
{
    let mut j = i;
    while j < s.len() && ident_char(s[j])
        invariant
            i <= j <= s@.len(),
            run_len(s@, i as int) == (j - i) + run_len(s@, j as int),
        decreases s@.len() - j,
    {
        j += 1;
    }
    j - i
}

fn digits_len_exec(s: &Vec<char>, i: usize) -> (r: usize)
    requires
        i <= s@.len(),
    ensures
        r == digits_len(s@, i as int),
        i + r <= s@.len(),
{
    if !(i < s.len() && digit(s[i])) {
        return 0;
    }
    let mut j = i;
    loop
        invariant
            i <= j < s@.len(),
            is_digit_at(s@, j as int),
            digits_len(s@, i as int) == (j - i) + digits_len(s@, j as int),
        decreases s@.len() - j,
    {
        if s.len() - j > 1 && digit(s[j + 1]) {
            j += 1;
        } else if s.len() - j > 2 && s[j + 1] == '_' && digit(s[j + 2]) {
            j += 2;
        } else {
            return j - i + 1;
        }
    }
}

spec fn is_digit_at(s: Seq<char>, j: int) -> bool {
    0 <= j < s.len() && crate::classes::is_digit(s[j])
}

fn close_on_line_exec(s: &Vec<char>, k: usize, c: char) -> (r: Option<usize>)
    requires
        k <= s@.len(),
    ensures
        match r {
            Some(j) => close_on_line(s@, k as int, c) == Some(j as int) && k <= j < s@.len(),
            None => close_on_line(s@, k as int, c) is None,
        },
{
    let mut j = k;
    while j < s.len() && s[j] != '\n' && s[j] != c
        invariant
            k <= j <= s@.len(),
            close_on_line(s@, k as int, c) == close_on_line(s@, j as int, c),
        decreases s@.len() - j,
    {
        j += 1;
    }
    if j < s.len() && s[j] == c && c != '\n' {
        Some(j)
    } else {
        None
    }
}

fn find_char_exec(s: &Vec<char>, k: usize, c: char) -> (r: Option<usize>)
    requires
        k <= s@.len(),
    ensures
        match r {
            Some(j) => find_char(s@, k as int, c) == Some(j as int) && k <= j < s@.len(),
            None => find_char(s@, k as int, c) is None,
        },
{
    let mut j = k;
    while j < s.len() && s[j] != c
        invariant
            k <= j <= s@.len(),
            find_char(s@, k as int, c) == find_char(s@, j as int, c),
        decreases s@.len() - j,
    {
        j += 1;
    }
    if j < s.len() {
        Some(j)
    } else {
        None
    }
}

fn line_end_exec(s: &Vec<char>, k: usize) -> (r: usize)
    requires
        k <= s@.len(),
    ensures
        r == line_end(s@, k as int),
        k <= r <= s@.len(),
{
    let mut j = k;
    while j < s.len() && s[j] != '\n'
        invariant
            k <= j <= s@.len(),
            line_end(s@, k as int) == line_end(s@, j as int),
        decreases s@.len() - j,
    {
        j += 1;
    }
    j
}

fn block_end_exec(s: &Vec<char>, k: usize) -> (r: Option<usize>)
    requires
        k <= s@.len(),
    ensures
        match r {
            Some(e) => block_end(s@, k as int) == Some(e as int) && k + 2 <= e <= s@.len(),
            None => block_end(s@, k as int) is None,
        },
{
    let mut j = k;
    while s.len() - j > 1 && !(s[j] == '*' && s[j + 1] == '/')
        invariant
            k <= j <= s@.len(),
            block_end(s@, k as int) == block_end(s@, j as int),
        decreases s@.len() - j,
    {
        j += 1;
    }
    if s.len() - j > 1 {
        Some(j + 2)
    } else {
        None
    }
}

fn istr_end_exec(s: &Vec<char>, k: usize) -> (r: Option<usize>)
    requires
        k <= s@.len(),
    ensures
        match r {
            Some(j) => istr_end(s@, k as int) == Some(j as int) && k <= j < s@.len(),
            None => istr_end(s@, k as int) is None,
        },
{
    let mut j = k;
    loop
        invariant
            k <= j <= s@.len(),
            istr_end(s@, k as int) == istr_end(s@, j as int),
        decreases s@.len() - j,
    {
        if j >= s.len() || s[j] == '\n' {
            return None;
        } else if s[j] == '"' {
            return Some(j);
        } else if s[j] == '\\' {
            if j + 1 < s.len() && escape_code(s[j + 1]) {
                j += 2;
            } else {
                return None;
            }
        } else if string_char(s[j]) {
            j += 1;
        } else {
            return None;
        }
    }
}

fn rune_end_exec(s: &Vec<char>, i: usize) -> (r: Option<usize>)
    requires
        i < s@.len(),
    ensures
        match r {
            Some(e) => rune_end(s@, i as int) == Some(e as int) && i + 2 <= e <= s@.len(),
            None => rune_end(s@, i as int) is None,
        },
{
    if s.len() - i > 3 && s[i + 1] == '\\' && escape_code(s[i + 2]) && s[i + 3] == '\'' {
        Some(i + 4)
    } else {
        match close_on_line_exec(s, i + 1, '\'') {
            Some(j) => Some(j + 1),
            None => None,
        }
    }
}

fn keyword_exec(s: &Vec<char>, i: usize, j: usize) -> (r: Option<Kind>)
    requires
        i <= j <= s@.len(),
    ensures
        r == keyword(s@.subrange(i as int, j as int)),
{
    let n = j - i;
    let ghost w = s@.subrange(i as int, j as int);
    proof {
        if n >= 1 {
            assert(w[0] == s@[i as int]);
        }
        if n >= 2 {
            assert(w[1] == s@[i + 1]);
        }
        if n >= 3 {
            assert(w[2] == s@[i + 2]);
        }
        if n >= 4 {
            assert(w[3] == s@[i + 3]);
        }
        if n >= 5 {
            assert(w[4] == s@[i + 4]);
        }
    }
    if n == 3 && s[i] == 'v' && s[i + 1] == 'a' && s[i + 2] == 'r' {
        Some(Kind::Var)
    } else if n == 2 && s[i] == 'i' && s[i + 1] == 'f' {
        Some(Kind::If)
    } else if n == 4 && s[i] == 'e' && s[i + 1] == 'l' && s[i + 2] == 's' && s[i + 3] == 'e' {
        Some(Kind::Else)
    } else if n == 3 && s[i] == 'f' && s[i + 1] == 'o' && s[i + 2] == 'r' {
        Some(Kind::For)
    } else if n == 5 && s[i] == 'c' && s[i + 1] == 'o' && s[i + 2] == 'n' && s[i + 3] == 's'
        && s[i + 4] == 't' {
        Some(Kind::Const)
    } else if n == 4 && s[i] == 'f' && s[i + 1] == 'u' && s[i + 2] == 'n' && s[i + 3] == 'c' {
        Some(Kind::Func)
    } else {
        None
    }
}

fn symbol_exec(c: char, d: char) -> (r: Option<(Kind, usize)>)
    ensures
        match r {
            Some((k, n)) => symbol(c, d) == Some((k, n as int)),
            None => symbol(c, d) is None,
        },
{
    if c == '=' {
        Some(if d == '=' { (Kind::LogiEq, 2) } else { (Kind::Eq, 1) })
    } else if c == ':' {
        Some(if d == '=' { (Kind::ShortDecl, 2) } else { (Kind::Colon, 1) })
    } else if c == '<' {
        Some(if d == '=' { (Kind::LessEq, 2) } else { (Kind::Less, 1) })
    } else if c == '>' {
        Some(if d == '=' { (Kind::GreaterEq, 2) } else { (Kind::Greater, 1) })
    } else if c == '!' {
        Some(if d == '=' { (Kind::LogiNotEq, 2) } else { (Kind::LogiNot, 1) })
    } else if c == '&' {
        Some(if d == '&' { (Kind::Logiand, 2) } else { (Kind::Bitand, 1) })
    } else if c == '|' {
        Some(if d == '|' { (Kind::Logior, 2) } else { (Kind::Bitor, 1) })
    } else if c == '+' {
        Some(
            if d == '+' {
                (Kind::Addone, 2)
            } else if d == '=' {
                (Kind::AddEq, 2)
            } else {
                (Kind::Add, 1)
            },
        )
    } else if c == '-' {
        Some(
            if d == '-' {
                (Kind::Subone, 2)
            } else if d == '=' {
                (Kind::SubEq, 2)
            } else {
                (Kind::Sub, 1)
            },
        )
    } else if c == '*' {
        Some(if d == '=' { (Kind::MultEq, 2) } else { (Kind::Mult, 1) })
    } else if c == '/' {
        Some(if d == '=' { (Kind::DivEq, 2) } else { (Kind::Div, 1) })
    } else if c == '%' {
        Some(if d == '=' { (Kind::ModEq, 2) } else { (Kind::Mod, 1) })
    } else if c == '^' {
        Some((Kind::Bitxor, 1))
    } else if c == '~' {
        Some((Kind::BitNot, 1))
    } else if c == '{' {
        Some((Kind::LCBrack, 1))
    } else if c == '}' {
        Some((Kind::RCBrack, 1))
    } else if c == '(' {
        Some((Kind::LRBrack, 1))
    } else if c == ')' {
        Some((Kind::RRBrack, 1))
    } else if c == '[' {
        Some((Kind::LSBrack, 1))
    } else if c == ']' {
        Some((Kind::RSBrack, 1))
    } else if c == ';' {
        Some((Kind::Semi, 1))
    } else if c == ',' {
        Some((Kind::Comma, 1))
    } else if c == '.' {
        Some((Kind::Dot, 1))
    } else {
        None
    }
}

fn trivia_end_exec(s: &Vec<char>, i: usize) -> (r: Option<usize>)
    requires
        i < s@.len(),
    ensures
        match r {
            Some(e) => trivia_end(s@, i as int) == Some(e as int) && i < e <= s@.len(),
            None => trivia_end(s@, i as int) is None,
        },
{
    let n = s.len();
    let c = s[i];
    let d = char_at_exec(s, i + 1);
    if c == '\n' || blank(c) {
        Some(i + 1)
    } else if c == '/' && d == '/' {
        Some(line_end_exec(s, i + 1))
    } else if c == '/' && d == '*' {
        block_end_exec(s, i + 2)
    } else {
        None
    }
}

} // verus!
