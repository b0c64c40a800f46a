use vstd::prelude::*;
use vstd::string::StringExecFns;
use crate::lexer::token::{push_char, word_reads_as, PengToken};
use crate::position::PengPosition;
use crate::positioned::PengPositioned;

verus! {

pub type PengPositionedToken = PengPositioned<PengToken>;

/// The decimal digits of `n`, most significant first.
pub open spec fn decimal_text(n: nat) -> Seq<char>
    decreases n,
{
    if n < 10 {
        seq![(n + '0' as nat) as char]
    } else {
        decimal_text(n / 10).push(((n % 10) + '0' as nat) as char)
    }
}

/// How an integer is written: its digits, after a minus sign when it is negative.
pub open spec fn integer_text(v: int) -> Seq<char> {
    if v < 0 {
        seq!['-'] + decimal_text((-v) as nat)
    } else {
        decimal_text(v as nat)
    }
}

pub open spec fn wrapped(name: Seq<char>, inner: Seq<char>) -> Seq<char> {
    name + seq!['('] + inner + seq![')']
}

/// How a token is shown: its kind, and what it holds in brackets.
pub open spec fn token_text(t: PengToken) -> Seq<char> {
    match t {
        PengToken::Identifier(s) => wrapped("Identifier"@, s@),
        PengToken::NumberLiteral(s) => wrapped("NumberLiteral"@, s@),
        PengToken::StringLiteral(s) => wrapped("String"@, seq!['"'] + s@ + seq!['"']),
        PengToken::IntLiteral(v) => wrapped("IntLiteral"@, integer_text(v as int)),
        PengToken::UintLiteral(v) => wrapped("UintLiteral"@, integer_text(v as int)),
        PengToken::ByteLiteral(v) => wrapped("ByteLiteral"@, integer_text(v as int)),
        PengToken::Float32Literal(s) => wrapped("Float32Literal"@, s@),
        PengToken::Float64Literal(s) => wrapped("Float64Literal"@, s@),
        PengToken::True => "True"@,
        PengToken::False => "False"@,
        _ => unit_token_name(t),
    }
}

/// The name of a token with nothing in it, as it is shown.
pub open spec fn unit_token_name(t: PengToken) -> Seq<char> {
    match t {
        PengToken::Nil => "Nil"@,
        PengToken::Int => "Int"@,
        PengToken::Uint => "Uint"@,
        PengToken::Float32 => "Float32"@,
        PengToken::Float64 => "Float64"@,
        PengToken::String => "String"@,
        PengToken::Byte => "Byte"@,
        PengToken::Type => "Type"@,
        PengToken::As => "As"@,
        PengToken::Is => "Is"@,
        PengToken::Equals => "Equals"@,
        PengToken::Dot => "Dot"@,
        PengToken::Comma => "Comma"@,
        PengToken::Colon => "Colon"@,
        PengToken::Semicolon => "Semicolon"@,
        PengToken::RightParenthesis => "RightParenthesis"@,
        PengToken::LeftParenthesis => "LeftParenthesis"@,
        PengToken::RightCurlyBrace => "RightCurlyBrace"@,
        PengToken::LeftCurlyBrace => "LeftCurlyBrace"@,
        PengToken::RightBracket => "RightBracket"@,
        PengToken::LeftBracket => "LeftBracket"@,
        PengToken::LessThan => "LessThan"@,
        PengToken::GreaterThan => "GreaterThan"@,
        PengToken::LessThanEquals => "LessThanEquals"@,
        PengToken::GreaterThanEquals => "GreaterThanEquals"@,
        PengToken::DoubleEquals => "DoubleEquals"@,
        PengToken::ExclamationEquals => "ExclamationEquals"@,
        PengToken::Plus => "Plus"@,
        PengToken::Minus => "Minus"@,
        PengToken::Asterisk => "Asterisk"@,
        PengToken::DoubleAsterisk => "DoubleAsterisk"@,
        PengToken::Slash => "Slash"@,
        PengToken::Percent => "Percent"@,
        PengToken::PlusEquals => "PlusEquals"@,
        PengToken::MinusEquals => "MinusEquals"@,
        PengToken::AsteriskEquals => "AsteriskEquals"@,
        PengToken::DoubleAsteriskEquals => "DoubleAsteriskEquals"@,
        PengToken::SlashEquals => "SlashEquals"@,
        PengToken::PercentEquals => "PercentEquals"@,
        PengToken::DoubleDot => "DoubleDot"@,
        PengToken::TripleDot => "TripleDot"@,
        PengToken::Ampersand => "Ampersand"@,
        PengToken::DoubleAmpersand => "DoubleAmpersand"@,
        PengToken::Pipe => "Pipe"@,
        PengToken::DoublePipe => "DoublePipe"@,
        PengToken::Exclamation => "Exclamation"@,
        PengToken::Arrow => "Arrow"@,
        PengToken::Var => "Var"@,
        PengToken::Func => "Func"@,
        PengToken::Mod => "Mod"@,
        PengToken::Match => "Match"@,
        PengToken::Return => "Return"@,
        PengToken::If => "If"@,
        PengToken::Else => "Else"@,
        PengToken::For => "For"@,
        PengToken::Each => "Each"@,
        PengToken::While => "While"@,
        PengToken::Loop => "Loop"@,
        PengToken::In => "In"@,
        PengToken::Break => "Break"@,
        PengToken::Continue => "Continue"@,
        _ => Seq::empty(),
    }
}

fn push_unit_token_name(out: &mut String, t: &PengToken)
    ensures
        final(out)@ == old(out)@ + unit_token_name(*t),
{
    match t {
        PengToken::Nil => push_str(out, "Nil"),
        PengToken::Int => push_str(out, "Int"),
        PengToken::Uint => push_str(out, "Uint"),
        PengToken::Float32 => push_str(out, "Float32"),
        PengToken::Float64 => push_str(out, "Float64"),
        PengToken::String => push_str(out, "String"),
        PengToken::Byte => push_str(out, "Byte"),
        PengToken::Type => push_str(out, "Type"),
        PengToken::As => push_str(out, "As"),
        PengToken::Is => push_str(out, "Is"),
        PengToken::Equals => push_str(out, "Equals"),
        PengToken::Dot => push_str(out, "Dot"),
        PengToken::Comma => push_str(out, "Comma"),
        PengToken::Colon => push_str(out, "Colon"),
        PengToken::Semicolon => push_str(out, "Semicolon"),
        PengToken::RightParenthesis => push_str(out, "RightParenthesis"),
        PengToken::LeftParenthesis => push_str(out, "LeftParenthesis"),
        PengToken::RightCurlyBrace => push_str(out, "RightCurlyBrace"),
        PengToken::LeftCurlyBrace => push_str(out, "LeftCurlyBrace"),
        PengToken::RightBracket => push_str(out, "RightBracket"),
        PengToken::LeftBracket => push_str(out, "LeftBracket"),
        PengToken::LessThan => push_str(out, "LessThan"),
        PengToken::GreaterThan => push_str(out, "GreaterThan"),
        PengToken::LessThanEquals => push_str(out, "LessThanEquals"),
        PengToken::GreaterThanEquals => push_str(out, "GreaterThanEquals"),
        PengToken::DoubleEquals => push_str(out, "DoubleEquals"),
        PengToken::ExclamationEquals => push_str(out, "ExclamationEquals"),
        PengToken::Plus => push_str(out, "Plus"),
        PengToken::Minus => push_str(out, "Minus"),
        PengToken::Asterisk => push_str(out, "Asterisk"),
        PengToken::DoubleAsterisk => push_str(out, "DoubleAsterisk"),
        PengToken::Slash => push_str(out, "Slash"),
        PengToken::Percent => push_str(out, "Percent"),
        PengToken::PlusEquals => push_str(out, "PlusEquals"),
        PengToken::MinusEquals => push_str(out, "MinusEquals"),
        PengToken::AsteriskEquals => push_str(out, "AsteriskEquals"),
        PengToken::DoubleAsteriskEquals => push_str(out, "DoubleAsteriskEquals"),
        PengToken::SlashEquals => push_str(out, "SlashEquals"),
        PengToken::PercentEquals => push_str(out, "PercentEquals"),
        PengToken::DoubleDot => push_str(out, "DoubleDot"),
        PengToken::TripleDot => push_str(out, "TripleDot"),
        PengToken::Ampersand => push_str(out, "Ampersand"),
        PengToken::DoubleAmpersand => push_str(out, "DoubleAmpersand"),
        PengToken::Pipe => push_str(out, "Pipe"),
        PengToken::DoublePipe => push_str(out, "DoublePipe"),
        PengToken::Exclamation => push_str(out, "Exclamation"),
        PengToken::Arrow => push_str(out, "Arrow"),
        PengToken::Var => push_str(out, "Var"),
        PengToken::Func => push_str(out, "Func"),
        PengToken::Mod => push_str(out, "Mod"),
        PengToken::Match => push_str(out, "Match"),
        PengToken::Return => push_str(out, "Return"),
        PengToken::If => push_str(out, "If"),
        PengToken::Else => push_str(out, "Else"),
        PengToken::For => push_str(out, "For"),
        PengToken::Each => push_str(out, "Each"),
        PengToken::While => push_str(out, "While"),
        PengToken::Loop => push_str(out, "Loop"),
        PengToken::In => push_str(out, "In"),
        PengToken::Break => push_str(out, "Break"),
        PengToken::Continue => push_str(out, "Continue"),
        _ => {
            assert(old(out)@ + Seq::<char>::empty() =~= old(out)@);
        },
    }
}

fn digit_char(d: u128) -> (res: char)
    requires
        d < 10,
    ensures
        res == (d + '0' as nat) as char,
{
    match d {
        0 => '0',
        1 => '1',
        2 => '2',
        3 => '3',
        4 => '4',
        5 => '5',
        6 => '6',
        7 => '7',
        8 => '8',
        _ => '9',
    }
}

/// Appends the decimal digits of `n` to `out`.
pub(crate) fn push_decimal(out: &mut String, n: u128)
    ensures
        final(out)@ == old(out)@ + decimal_text(n as nat),
    decreases n,
{
    if n >= 10 {
        push_decimal(out, n / 10);
    }
    push_char(out, digit_char(n % 10));
}

fn push_str(out: &mut String, s: &str)
    ensures
        final(out)@ == old(out)@ + s@,
{
    out.append(s);
}

impl PengPositioned<PengToken> {
    /// The token a word reads as, written at `position`.
    pub fn from_string(source: String, position: PengPosition) -> (res: Result<Self, String>)
        ensures
            match res {
                Ok(t) => t.position == position && word_reads_as(source@, Ok(t.value)),
                Err(e) => word_reads_as(source@, Err(e)),
            },
    {
        match PengToken::from_string(source) {
            Ok(token) => Ok(PengPositioned { value: token, position }),
            Err(e) => Err(e),
        }
    }

    /// A string literal token holding `source`, written at `position`.
    pub fn new_string(source: String, position: PengPosition) -> (res: Self)
        ensures
            res.value == PengToken::StringLiteral(source),
            res.position == position,
    {
        PengPositioned { value: PengToken::new_string(source), position }
    }

    /// How the token is shown (see `token_text`).
    pub fn token_display(&self) -> (res: String)
        ensures
            res@ == token_text(self.value),
    {
        let mut out = String::new();
        match &self.value {
            PengToken::Identifier(s) => {
                push_str(&mut out, "Identifier(");
                push_str(&mut out, s.as_str());
                push_char(&mut out, ')');
            },
            PengToken::NumberLiteral(s) => {
                push_str(&mut out, "NumberLiteral(");
                push_str(&mut out, s.as_str());
                push_char(&mut out, ')');
            },
            PengToken::StringLiteral(s) => {
                push_str(&mut out, "String(");
                push_char(&mut out, '"');
                push_str(&mut out, s.as_str());
                push_char(&mut out, '"');
                push_char(&mut out, ')');
            },
            PengToken::IntLiteral(v) => {
                push_str(&mut out, "IntLiteral(");
                if *v < 0 {
                    push_char(&mut out, '-');
                    push_decimal(&mut out, (0i128 - *v as i128) as u128);
                } else {
                    push_decimal(&mut out, *v as u128);
                }
                push_char(&mut out, ')');
            },
            PengToken::UintLiteral(v) => {
                push_str(&mut out, "UintLiteral(");
                push_decimal(&mut out, *v as u128);
                push_char(&mut out, ')');
            },
            PengToken::ByteLiteral(v) => {
                push_str(&mut out, "ByteLiteral(");
                push_decimal(&mut out, *v as u128);
                push_char(&mut out, ')');
            },
            PengToken::Float32Literal(s) => {
                push_str(&mut out, "Float32Literal(");
                push_str(&mut out, s.as_str());
                push_char(&mut out, ')');
            },
            PengToken::Float64Literal(s) => {
                push_str(&mut out, "Float64Literal(");
                push_str(&mut out, s.as_str());
                push_char(&mut out, ')');
            },
            PengToken::True => push_str(&mut out, "True"),
            PengToken::False => push_str(&mut out, "False"),
            other => push_unit_token_name(&mut out, other),
        }
        proof {
            reveal_strlit("Identifier(");
            reveal_strlit("NumberLiteral(");
            reveal_strlit("String(");
            reveal_strlit("IntLiteral(");
            reveal_strlit("UintLiteral(");
            reveal_strlit("ByteLiteral(");
            reveal_strlit("Float32Literal(");
            reveal_strlit("Float64Literal(");
            reveal_strlit("Identifier");
            reveal_strlit("NumberLiteral");
            reveal_strlit("String");
            reveal_strlit("IntLiteral");
            reveal_strlit("UintLiteral");
            reveal_strlit("ByteLiteral");
            reveal_strlit("Float32Literal");
            reveal_strlit("Float64Literal");
            assert(out@ =~= token_text(self.value));
        }
        out
    }
}

} // verus!
