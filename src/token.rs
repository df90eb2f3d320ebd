use vstd::prelude::*;

verus! {

/// The data of a token and where it starts: `loc` is (line, column), both
/// counted from zero, the column in characters from the start of the line.
#[derive(Debug, PartialEq)]
pub struct ParseData<T> {
    pub loc: (usize, usize),
    pub data: T,
}

/// The lexical errors. None carries a payload.
#[derive(Clone, Copy, Debug, PartialEq, Eq, Structural, Default)]
pub enum MyGOError {
    Invalidfloat,
    InvalidInterger,
    InvalidRune,
    #[default]
    UnKnownToken,
}

/// The tokens without a payload: keywords, operators and punctuation.
#[derive(Clone, Copy, Debug, PartialEq, Eq, Structural)]
pub enum Kind {
    /// `var`
    Var,
    /// `if`
    If,
    /// `else`
    Else,
    /// `for`
    For,
    /// `const`
    Const,
    /// `func`
    Func,
    /// `=`
    Eq,
    /// `:=`
    ShortDecl,
    /// `<`
    Less,
    /// `<=`
    LessEq,
    /// `>`
    Greater,
    /// `>=`
    GreaterEq,
    /// `==`
    LogiEq,
    /// `!`
    LogiNot,
    /// `!=`
    LogiNotEq,
    /// `&&`
    Logiand,
    /// `||`
    Logior,
    /// `+`
    Add,
    /// `++`
    Addone,
    /// `+=`
    AddEq,
    /// `-`
    Sub,
    /// `--`
    Subone,
    /// `-=`
    SubEq,
    /// `*`
    Mult,
    /// `*=`
    MultEq,
    /// `/`
    Div,
    /// `/=`
    DivEq,
    /// `%`
    Mod,
    /// `%=`
    ModEq,
    /// `&`
    Bitand,
    /// `|`
    Bitor,
    /// `^`
    Bitxor,
    /// `~`
    BitNot,
    /// `{`
    LCBrack,
    /// `}`
    RCBrack,
    /// `(`
    LRBrack,
    /// `)`
    RRBrack,
    /// `[`
    LSBrack,
    /// `]`
    RSBrack,
    /// `;`
    Semi,
    /// `:`
    Colon,
    /// `,`
    Comma,
    /// `.`
    Dot,
}

/// A token as the grammar sees it, without its position.
pub enum Lexeme {
    Identifier(Seq<char>),
    Integer(i64),
    /// The literal's digits without separators, as `int.frac`, an empty side
    /// written `0`.
    Float(Seq<char>),
    Rune(char),
    Str(Seq<char>),
    Sym(Kind),
}

/// A token with its start position. A float literal keeps its decimal text
/// (separators removed, both sides present), which converts to a number
/// exactly as the caller's floating-point type rounds it.
#[derive(Debug, PartialEq)]
pub enum MyGoToken {
    Identifier(ParseData<String>),
    FloatNumber(ParseData<String>),
    Integer(ParseData<i64>),
    Rune(ParseData<char>),
    String(ParseData<String>),
    TVar(ParseData<()>),
    TIf(ParseData<()>),
    TElse(ParseData<()>),
    TFor(ParseData<()>),
    TConst(ParseData<()>),
    TFunc(ParseData<()>),
    TEq(ParseData<()>),
    TShortDecl(ParseData<()>),
    TLess(ParseData<()>),
    TLessEq(ParseData<()>),
    TGreater(ParseData<()>),
    TGreaterEq(ParseData<()>),
    TLogiEq(ParseData<()>),
    TLogiNot(ParseData<()>),
    TLogiNotEq(ParseData<()>),
    TLogiand(ParseData<()>),
    TLogior(ParseData<()>),
    TAdd(ParseData<()>),
    TAddone(ParseData<()>),
    TAddEq(ParseData<()>),
    TSub(ParseData<()>),
    TSubone(ParseData<()>),
    TSubEq(ParseData<()>),
    TMult(ParseData<()>),
    TMultEq(ParseData<()>),
    TDiv(ParseData<()>),
    TDivEq(ParseData<()>),
    TMod(ParseData<()>),
    TModEq(ParseData<()>),
    TBitand(ParseData<()>),
    TBitor(ParseData<()>),
    TBitxor(ParseData<()>),
    TBitNot(ParseData<()>),
    TLCBrack(ParseData<()>),
    TRCBrack(ParseData<()>),
    TLRBrack(ParseData<()>),
    TRRBrack(ParseData<()>),
    TLSBrack(ParseData<()>),
    TRSBrack(ParseData<()>),
    TSemi(ParseData<()>),
    TColon(ParseData<()>),
    TComma(ParseData<()>),
    TDot(ParseData<()>),
}

pub open spec fn loc_view(loc: (usize, usize)) -> (int, int) {
    (loc.0 as int, loc.1 as int)
}

impl View for MyGoToken {
    type V = ((int, int), Lexeme);

    open spec fn view(&self) -> ((int, int), Lexeme) {
        match self {
            MyGoToken::Identifier(p) => (loc_view(p.loc), Lexeme::Identifier(p.data@)),
            MyGoToken::FloatNumber(p) => (loc_view(p.loc), Lexeme::Float(p.data@)),
            MyGoToken::Integer(p) => (loc_view(p.loc), Lexeme::Integer(p.data)),
            MyGoToken::Rune(p) => (loc_view(p.loc), Lexeme::Rune(p.data)),
            MyGoToken::String(p) => (loc_view(p.loc), Lexeme::Str(p.data@)),
            MyGoToken::TVar(p) => (loc_view(p.loc), Lexeme::Sym(Kind::Var)),
            MyGoToken::TIf(p) => (loc_view(p.loc), Lexeme::Sym(Kind::If)),
            MyGoToken::TElse(p) => (loc_view(p.loc), Lexeme::Sym(Kind::Else)),
            MyGoToken::TFor(p) => (loc_view(p.loc), Lexeme::Sym(Kind::For)),
            MyGoToken::TConst(p) => (loc_view(p.loc), Lexeme::Sym(Kind::Const)),
            MyGoToken::TFunc(p) => (loc_view(p.loc), Lexeme::Sym(Kind::Func)),
            MyGoToken::TEq(p) => (loc_view(p.loc), Lexeme::Sym(Kind::Eq)),
            MyGoToken::TShortDecl(p) => (loc_view(p.loc), Lexeme::Sym(Kind::ShortDecl)),
            MyGoToken::TLess(p) => (loc_view(p.loc), Lexeme::Sym(Kind::Less)),
            MyGoToken::TLessEq(p) => (loc_view(p.loc), Lexeme::Sym(Kind::LessEq)),
            MyGoToken::TGreater(p) => (loc_view(p.loc), Lexeme::Sym(Kind::Greater)),
            MyGoToken::TGreaterEq(p) => (loc_view(p.loc), Lexeme::Sym(Kind::GreaterEq)),
            MyGoToken::TLogiEq(p) => (loc_view(p.loc), Lexeme::Sym(Kind::LogiEq)),
            MyGoToken::TLogiNot(p) => (loc_view(p.loc), Lexeme::Sym(Kind::LogiNot)),
            MyGoToken::TLogiNotEq(p) => (loc_view(p.loc), Lexeme::Sym(Kind::LogiNotEq)),
            MyGoToken::TLogiand(p) => (loc_view(p.loc), Lexeme::Sym(Kind::Logiand)),
            MyGoToken::TLogior(p) => (loc_view(p.loc), Lexeme::Sym(Kind::Logior)),
            MyGoToken::TAdd(p) => (loc_view(p.loc), Lexeme::Sym(Kind::Add)),
            MyGoToken::TAddone(p) => (loc_view(p.loc), Lexeme::Sym(Kind::Addone)),
            MyGoToken::TAddEq(p) => (loc_view(p.loc), Lexeme::Sym(Kind::AddEq)),
            MyGoToken::TSub(p) => (loc_view(p.loc), Lexeme::Sym(Kind::Sub)),
            MyGoToken::TSubone(p) => (loc_view(p.loc), Lexeme::Sym(Kind::Subone)),
            MyGoToken::TSubEq(p) => (loc_view(p.loc), Lexeme::Sym(Kind::SubEq)),
            MyGoToken::TMult(p) => (loc_view(p.loc), Lexeme::Sym(Kind::Mult)),
            MyGoToken::TMultEq(p) => (loc_view(p.loc), Lexeme::Sym(Kind::MultEq)),
            MyGoToken::TDiv(p) => (loc_view(p.loc), Lexeme::Sym(Kind::Div)),
            MyGoToken::TDivEq(p) => (loc_view(p.loc), Lexeme::Sym(Kind::DivEq)),
            MyGoToken::TMod(p) => (loc_view(p.loc), Lexeme::Sym(Kind::Mod)),
            MyGoToken::TModEq(p) => (loc_view(p.loc), Lexeme::Sym(Kind::ModEq)),
            MyGoToken::TBitand(p) => (loc_view(p.loc), Lexeme::Sym(Kind::Bitand)),
            MyGoToken::TBitor(p) => (loc_view(p.loc), Lexeme::Sym(Kind::Bitor)),
            MyGoToken::TBitxor(p) => (loc_view(p.loc), Lexeme::Sym(Kind::Bitxor)),
            MyGoToken::TBitNot(p) => (loc_view(p.loc), Lexeme::Sym(Kind::BitNot)),
            MyGoToken::TLCBrack(p) => (loc_view(p.loc), Lexeme::Sym(Kind::LCBrack)),
            MyGoToken::TRCBrack(p) => (loc_view(p.loc), Lexeme::Sym(Kind::RCBrack)),
            MyGoToken::TLRBrack(p) => (loc_view(p.loc), Lexeme::Sym(Kind::LRBrack)),
            MyGoToken::TRRBrack(p) => (loc_view(p.loc), Lexeme::Sym(Kind::RRBrack)),
            MyGoToken::TLSBrack(p) => (loc_view(p.loc), Lexeme::Sym(Kind::LSBrack)),
            MyGoToken::TRSBrack(p) => (loc_view(p.loc), Lexeme::Sym(Kind::RSBrack)),
            MyGoToken::TSemi(p) => (loc_view(p.loc), Lexeme::Sym(Kind::Semi)),
            MyGoToken::TColon(p) => (loc_view(p.loc), Lexeme::Sym(Kind::Colon)),
            MyGoToken::TComma(p) => (loc_view(p.loc), Lexeme::Sym(Kind::Comma)),
            MyGoToken::TDot(p) => (loc_view(p.loc), Lexeme::Sym(Kind::Dot)),
        }
    }
}

/// The token of a keyword, operator or punctuation kind at `loc`.
pub fn sym_token(k: Kind, loc: (usize, usize)) -> (t: MyGoToken)
    ensures
        t@ == (loc_view(loc), Lexeme::Sym(k)),
{
    let p = ParseData { loc, data: () };
    match k {
        Kind::Var => MyGoToken::TVar(p),
        Kind::If => MyGoToken::TIf(p),
        Kind::Else => MyGoToken::TElse(p),
        Kind::For => MyGoToken::TFor(p),
        Kind::Const => MyGoToken::TConst(p),
        Kind::Func => MyGoToken::TFunc(p),
        Kind::Eq => MyGoToken::TEq(p),
        Kind::ShortDecl => MyGoToken::TShortDecl(p),
        Kind::Less => MyGoToken::TLess(p),
        Kind::LessEq => MyGoToken::TLessEq(p),
        Kind::Greater => MyGoToken::TGreater(p),
        Kind::GreaterEq => MyGoToken::TGreaterEq(p),
        Kind::LogiEq => MyGoToken::TLogiEq(p),
        Kind::LogiNot => MyGoToken::TLogiNot(p),
        Kind::LogiNotEq => MyGoToken::TLogiNotEq(p),
        Kind::Logiand => MyGoToken::TLogiand(p),
        Kind::Logior => MyGoToken::TLogior(p),
        Kind::Add => MyGoToken::TAdd(p),
        Kind::Addone => MyGoToken::TAddone(p),
        Kind::AddEq => MyGoToken::TAddEq(p),
        Kind::Sub => MyGoToken::TSub(p),
        Kind::Subone => MyGoToken::TSubone(p),
        Kind::SubEq => MyGoToken::TSubEq(p),
        Kind::Mult => MyGoToken::TMult(p),
        Kind::MultEq => MyGoToken::TMultEq(p),
        Kind::Div => MyGoToken::TDiv(p),
        Kind::DivEq => MyGoToken::TDivEq(p),
        Kind::Mod => MyGoToken::TMod(p),
        Kind::ModEq => MyGoToken::TModEq(p),
        Kind::Bitand => MyGoToken::TBitand(p),
        Kind::Bitor => MyGoToken::TBitor(p),
        Kind::Bitxor => MyGoToken::TBitxor(p),
        Kind::BitNot => MyGoToken::TBitNot(p),
        Kind::LCBrack => MyGoToken::TLCBrack(p),
        Kind::RCBrack => MyGoToken::TRCBrack(p),
        Kind::LRBrack => MyGoToken::TLRBrack(p),
        Kind::RRBrack => MyGoToken::TRRBrack(p),
        Kind::LSBrack => MyGoToken::TLSBrack(p),
        Kind::RSBrack => MyGoToken::TRSBrack(p),
        Kind::Semi => MyGoToken::TSemi(p),
        Kind::Colon => MyGoToken::TColon(p),
        Kind::Comma => MyGoToken::TComma(p),
        Kind::Dot => MyGoToken::TDot(p),
    }
}

} // verus!
