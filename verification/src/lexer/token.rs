use vstd::prelude::*;
use vstd::string::{StrSliceExecFns, StringExecFns};

verus! {

/// A token of the language. Floating-point literals keep the digits they were written
/// with (underscores and suffix removed), as they are not turned into numbers here.
#[derive(Clone, Debug, PartialEq)]
pub enum PengToken {
    Nil,
    Int,
    Uint,
    Float32,
    Float64,
    String,
    Byte,
    Type,
    As,
    Is,
    Equals,
    Dot,
    Comma,
    Colon,
    Semicolon,
    RightParenthesis,
    LeftParenthesis,
    RightCurlyBrace,
    LeftCurlyBrace,
    RightBracket,
    LeftBracket,
    LessThan,
    GreaterThan,
    LessThanEquals,
    GreaterThanEquals,
    DoubleEquals,
    ExclamationEquals,
    Plus,
    Minus,
    Asterisk,
    DoubleAsterisk,
    Slash,
    Percent,
    PlusEquals,
    MinusEquals,
    AsteriskEquals,
    DoubleAsteriskEquals,
    SlashEquals,
    PercentEquals,
    DoubleDot,
    TripleDot,
    Ampersand,
    DoubleAmpersand,
    Pipe,
    DoublePipe,
    Exclamation,
    Arrow,
    Var,
    Func,
    Mod,
    Match,
    Return,
    If,
    Else,
    For,
    Each,
    While,
    Loop,
    In,
    Break,
    Continue,
    Identifier(String),
    NumberLiteral(String),
    IntLiteral(isize),
    UintLiteral(usize),
    ByteLiteral(u8),
    Float32Literal(String),
    Float64Literal(String),
    StringLiteral(String),
    True,
    False,
}

/// `std`'s `String::push`: its documentation says it appends the character to the end
/// of the string; the contract says exactly that.
#[verifier::external_body]
pub(crate) fn push_char(s: &mut String, c: char)
    ensures
        final(s)@ == old(s)@.push(c),
{
    s.push(c)
}

/// The characters of a string slice, in order.
pub(crate) fn chars_of(s: &str) -> (res: Vec<char>)
    ensures
        res@ == s@,
{
    let n = s.unicode_len();
    let mut out: Vec<char> = Vec::new();
    let mut i: usize = 0;
    while i < n
        invariant
            n == s@.len(),
            i <= n,
            out@ == s@.take(i as int),
        decreases n - i,
    {
        out.push(s.get_char(i));
        assert(out@ =~= s@.take(i + 1));
        i = i + 1;
    }
    assert(s@.take(n as int) =~= s@);
    out
}

/// A string holding the characters `v[from..to]`.
pub(crate) fn string_of(v: &Vec<char>, from: usize, to: usize) -> (res: String)
    requires
        from <= to <= v@.len(),
    ensures
        res@ == v@.subrange(from as int, to as int),
{
    let mut out = String::new();
    let mut i = from;
    while i < to
        invariant
            from <= i <= to <= v@.len(),
            out@ == v@.subrange(from as int, i as int),
        decreases to - i,
    {
        push_char(&mut out, v[i]);
        assert(out@ =~= v@.subrange(from as int, i + 1));
        i = i + 1;
    }
    out
}

/// Whether the characters `s` spell the word `w`.
fn matches_word(s: &Vec<char>, w: &str) -> (res: bool)
    ensures
        res == (s@ == w@),
{
    let n = w.unicode_len();
    if s.len() != n {
        return false;
    }
    let mut i: usize = 0;
    while i < n
        invariant
            n == w@.len(),
            n == s@.len(),
            i <= n,
            forall|j: int| 0 <= j < i ==> s@[j] == w@[j],
        decreases n - i,
    {
        if s[i] != w.get_char(i) {
            return false;
        }
        i = i + 1;
    }
    assert(s@ =~= w@);
    true
}

/// The token a word is when it is a keyword or a symbol of the language.
pub open spec fn fixed_token(s: Seq<char>) -> Option<PengToken> {
    if s == "nil"@ {
        Some(PengToken::Nil)
    } else if s == "int"@ {
        Some(PengToken::Int)
    } else if s == "uint"@ {
        Some(PengToken::Uint)
    } else if s == "f32"@ {
        Some(PengToken::Float32)
    } else if s == "f64"@ {
        Some(PengToken::Float64)
    } else if s == "string"@ {
        Some(PengToken::String)
    } else if s == "byte"@ {
        Some(PengToken::Byte)
    } else if s == "type"@ {
        Some(PengToken::Type)
    } else if s == "="@ {
        Some(PengToken::Equals)
    } else if s == "."@ {
        Some(PengToken::Dot)
    } else if s == ":"@ {
        Some(PengToken::Colon)
    } else if s == ","@ {
        Some(PengToken::Comma)
    } else if s == ";"@ {
        Some(PengToken::Semicolon)
    } else if s == "+"@ {
        Some(PengToken::Plus)
    } else if s == "-"@ {
        Some(PengToken::Minus)
    } else if s == "*"@ {
        Some(PengToken::Asterisk)
    } else if s == "**"@ {
        Some(PengToken::DoubleAsterisk)
    } else if s == "/"@ {
        Some(PengToken::Slash)
    } else if s == "%"@ {
        Some(PengToken::Percent)
    } else if s == "+="@ {
        Some(PengToken::PlusEquals)
    } else if s == "-="@ {
        Some(PengToken::MinusEquals)
    } else if s == "*="@ {
        Some(PengToken::AsteriskEquals)
    } else if s == "**="@ {
        Some(PengToken::DoubleAsteriskEquals)
    } else if s == "/="@ {
        Some(PengToken::SlashEquals)
    } else if s == "%="@ {
        Some(PengToken::PercentEquals)
    } else if s == ".."@ {
        Some(PengToken::DoubleDot)
    } else if s == "..."@ {
        Some(PengToken::TripleDot)
    } else if s == "&"@ {
        Some(PengToken::Ampersand)
    } else if s == "&&"@ {
        Some(PengToken::DoubleAmpersand)
    } else if s == "|"@ {
        Some(PengToken::Pipe)
    } else if s == "||"@ {
        Some(PengToken::DoublePipe)
    } else if s == "!"@ {
        Some(PengToken::Exclamation)
    } else if s == "->"@ {
        Some(PengToken::Arrow)
    } else if s == "<"@ {
        Some(PengToken::LessThan)
    } else if s == ">"@ {
        Some(PengToken::GreaterThan)
    } else if s == "<="@ {
        Some(PengToken::LessThanEquals)
    } else if s == ">="@ {
        Some(PengToken::GreaterThanEquals)
    } else if s == "=="@ {
        Some(PengToken::DoubleEquals)
    } else if s == "!="@ {
        Some(PengToken::ExclamationEquals)
    } else if s == "("@ {
        Some(PengToken::LeftParenthesis)
    } else if s == ")"@ {
        Some(PengToken::RightParenthesis)
    } else if s == "{"@ {
        Some(PengToken::LeftCurlyBrace)
    } else if s == "}"@ {
        Some(PengToken::RightCurlyBrace)
    } else if s == "["@ {
        Some(PengToken::LeftBracket)
    } else if s == "]"@ {
        Some(PengToken::RightBracket)
    } else if s == "var"@ {
        Some(PengToken::Var)
    } else if s == "func"@ {
        Some(PengToken::Func)
    } else if s == "mod"@ {
        Some(PengToken::Mod)
    } else if s == "match"@ {
        Some(PengToken::Match)
    } else if s == "return"@ {
        Some(PengToken::Return)
    } else if s == "if"@ {
        Some(PengToken::If)
    } else if s == "else"@ {
        Some(PengToken::Else)
    } else if s == "as"@ {
        Some(PengToken::As)
    } else if s == "is"@ {
        Some(PengToken::Is)
    } else if s == "for"@ {
        Some(PengToken::For)
    } else if s == "each"@ {
        Some(PengToken::Each)
    } else if s == "while"@ {
        Some(PengToken::While)
    } else if s == "loop"@ {
        Some(PengToken::Loop)
    } else if s == "in"@ {
        Some(PengToken::In)
    } else if s == "break"@ {
        Some(PengToken::Break)
    } else if s == "continue"@ {
        Some(PengToken::Continue)
    } else if s == "true"@ {
        Some(PengToken::True)
    } else if s == "false"@ {
        Some(PengToken::False)
    } else {
        None
    }
}

/// How a keyword or symbol token is written in source text; `None` for the tokens that
/// carry what was written (names, literals).
pub open spec fn spelling(t: PengToken) -> Option<Seq<char>> {
    match t {
        PengToken::Nil => Some("nil"@),
        PengToken::Int => Some("int"@),
        PengToken::Uint => Some("uint"@),
        PengToken::Float32 => Some("f32"@),
        PengToken::Float64 => Some("f64"@),
        PengToken::String => Some("string"@),
        PengToken::Byte => Some("byte"@),
        PengToken::Type => Some("type"@),
        PengToken::Equals => Some("="@),
        PengToken::Dot => Some("."@),
        PengToken::Colon => Some(":"@),
        PengToken::Comma => Some(","@),
        PengToken::Semicolon => Some(";"@),
        PengToken::Plus => Some("+"@),
        PengToken::Minus => Some("-"@),
        PengToken::Asterisk => Some("*"@),
        PengToken::DoubleAsterisk => Some("**"@),
        PengToken::Slash => Some("/"@),
        PengToken::Percent => Some("%"@),
        PengToken::PlusEquals => Some("+="@),
        PengToken::MinusEquals => Some("-="@),
        PengToken::AsteriskEquals => Some("*="@),
        PengToken::DoubleAsteriskEquals => Some("**="@),
        PengToken::SlashEquals => Some("/="@),
        PengToken::PercentEquals => Some("%="@),
        PengToken::DoubleDot => Some(".."@),
        PengToken::TripleDot => Some("..."@),
        PengToken::Ampersand => Some("&"@),
        PengToken::DoubleAmpersand => Some("&&"@),
        PengToken::Pipe => Some("|"@),
        PengToken::DoublePipe => Some("||"@),
        PengToken::Exclamation => Some("!"@),
        PengToken::Arrow => Some("->"@),
        PengToken::LessThan => Some("<"@),
        PengToken::GreaterThan => Some(">"@),
        PengToken::LessThanEquals => Some("<="@),
        PengToken::GreaterThanEquals => Some(">="@),
        PengToken::DoubleEquals => Some("=="@),
        PengToken::ExclamationEquals => Some("!="@),
        PengToken::LeftParenthesis => Some("("@),
        PengToken::RightParenthesis => Some(")"@),
        PengToken::LeftCurlyBrace => Some("{"@),
        PengToken::RightCurlyBrace => Some("}"@),
        PengToken::LeftBracket => Some("["@),
        PengToken::RightBracket => Some("]"@),
        PengToken::Var => Some("var"@),
        PengToken::Func => Some("func"@),
        PengToken::Mod => Some("mod"@),
        PengToken::Match => Some("match"@),
        PengToken::Return => Some("return"@),
        PengToken::If => Some("if"@),
        PengToken::Else => Some("else"@),
        PengToken::As => Some("as"@),
        PengToken::Is => Some("is"@),
        PengToken::For => Some("for"@),
        PengToken::Each => Some("each"@),
        PengToken::While => Some("while"@),
        PengToken::Loop => Some("loop"@),
        PengToken::In => Some("in"@),
        PengToken::Break => Some("break"@),
        PengToken::Continue => Some("continue"@),
        PengToken::True => Some("true"@),
        PengToken::False => Some("false"@),
        _ => None,
    }
}

/// A word reads as a keyword or symbol token only when it is exactly how that token is
/// written, so no two words read as the same token (`false` cannot read as `true`).
pub proof fn lemma_fixed_tokens_are_spelled(s: Seq<char>, s2: Seq<char>)
    ensures
        fixed_token(s) matches Some(t) ==> spelling(t) == Some(s),
        fixed_token(s) is Some && fixed_token(s) == fixed_token(s2) ==> s == s2,
{
}

/// Each keyword and symbol reads back as its own token: the word `false` is the token
/// `False`, `<=` is `LessThanEquals`, and so on.
pub proof fn lemma_spelling_reads_back(t: PengToken)
    ensures
        spelling(t) matches Some(s) ==> fixed_token(s) == Some(t),
{
    reveal_strlit("nil");
    reveal_strlit("int");
    reveal_strlit("uint");
    reveal_strlit("f32");
    reveal_strlit("f64");
    reveal_strlit("string");
    reveal_strlit("byte");
    reveal_strlit("type");
    reveal_strlit("=");
    reveal_strlit(".");
    reveal_strlit(":");
    reveal_strlit(",");
    reveal_strlit(";");
    reveal_strlit("+");
    reveal_strlit("-");
    reveal_strlit("*");
    reveal_strlit("**");
    reveal_strlit("/");
    reveal_strlit("%");
    reveal_strlit("+=");
    reveal_strlit("-=");
    reveal_strlit("*=");
    reveal_strlit("**=");
    reveal_strlit("/=");
    reveal_strlit("%=");
    reveal_strlit("..");
    reveal_strlit("...");
    reveal_strlit("&");
    reveal_strlit("&&");
    reveal_strlit("|");
    reveal_strlit("||");
    reveal_strlit("!");
    reveal_strlit("->");
    reveal_strlit("<");
    reveal_strlit(">");
    reveal_strlit("<=");
    reveal_strlit(">=");
    reveal_strlit("==");
    reveal_strlit("!=");
    reveal_strlit("(");
    reveal_strlit(")");
    reveal_strlit("{");
    reveal_strlit("}");
    reveal_strlit("[");
    reveal_strlit("]");
    reveal_strlit("var");
    reveal_strlit("func");
    reveal_strlit("mod");
    reveal_strlit("match");
    reveal_strlit("return");
    reveal_strlit("if");
    reveal_strlit("else");
    reveal_strlit("as");
    reveal_strlit("is");
    reveal_strlit("for");
    reveal_strlit("each");
    reveal_strlit("while");
    reveal_strlit("loop");
    reveal_strlit("in");
    reveal_strlit("break");
    reveal_strlit("continue");
    reveal_strlit("true");
    reveal_strlit("false");
    assert("nil"@.len() == 3 && "nil"@[0] == 'n' && "nil"@[1] == 'i' && "nil"@[2] == 'l');
    assert("int"@.len() == 3 && "int"@[0] == 'i' && "int"@[1] == 'n' && "int"@[2] == 't');
    assert("uint"@.len() == 4 && "uint"@[0] == 'u' && "uint"@[1] == 'i' && "uint"@[2] == 'n' && "uint"@[3] == 't');
    assert("f32"@.len() == 3 && "f32"@[0] == 'f' && "f32"@[1] == '3' && "f32"@[2] == '2');
    assert("f64"@.len() == 3 && "f64"@[0] == 'f' && "f64"@[1] == '6' && "f64"@[2] == '4');
    assert("string"@.len() == 6 && "string"@[0] == 's' && "string"@[1] == 't' && "string"@[2] == 'r' && "string"@[3] == 'i' && "string"@[4] == 'n' && "string"@[5] == 'g');
    assert("byte"@.len() == 4 && "byte"@[0] == 'b' && "byte"@[1] == 'y' && "byte"@[2] == 't' && "byte"@[3] == 'e');
    assert("type"@.len() == 4 && "type"@[0] == 't' && "type"@[1] == 'y' && "type"@[2] == 'p' && "type"@[3] == 'e');
    assert("="@.len() == 1 && "="@[0] == '=');
    assert("."@.len() == 1 && "."@[0] == '.');
    assert(":"@.len() == 1 && ":"@[0] == ':');
    assert(","@.len() == 1 && ","@[0] == ',');
    assert(";"@.len() == 1 && ";"@[0] == ';');
    assert("+"@.len() == 1 && "+"@[0] == '+');
    assert("-"@.len() == 1 && "-"@[0] == '-');
    assert("*"@.len() == 1 && "*"@[0] == '*');
    assert("**"@.len() == 2 && "**"@[0] == '*' && "**"@[1] == '*');
    assert("/"@.len() == 1 && "/"@[0] == '/');
    assert("%"@.len() == 1 && "%"@[0] == '%');
    assert("+="@.len() == 2 && "+="@[0] == '+' && "+="@[1] == '=');
    assert("-="@.len() == 2 && "-="@[0] == '-' && "-="@[1] == '=');
    assert("*="@.len() == 2 && "*="@[0] == '*' && "*="@[1] == '=');
    assert("**="@.len() == 3 && "**="@[0] == '*' && "**="@[1] == '*' && "**="@[2] == '=');
    assert("/="@.len() == 2 && "/="@[0] == '/' && "/="@[1] == '=');
    assert("%="@.len() == 2 && "%="@[0] == '%' && "%="@[1] == '=');
    assert(".."@.len() == 2 && ".."@[0] == '.' && ".."@[1] == '.');
    assert("..."@.len() == 3 && "..."@[0] == '.' && "..."@[1] == '.' && "..."@[2] == '.');
    assert("&"@.len() == 1 && "&"@[0] == '&');
    assert("&&"@.len() == 2 && "&&"@[0] == '&' && "&&"@[1] == '&');
    assert("|"@.len() == 1 && "|"@[0] == '|');
    assert("||"@.len() == 2 && "||"@[0] == '|' && "||"@[1] == '|');
    assert("!"@.len() == 1 && "!"@[0] == '!');
    assert("->"@.len() == 2 && "->"@[0] == '-' && "->"@[1] == '>');
    assert("<"@.len() == 1 && "<"@[0] == '<');
    assert(">"@.len() == 1 && ">"@[0] == '>');
    assert("<="@.len() == 2 && "<="@[0] == '<' && "<="@[1] == '=');
    assert(">="@.len() == 2 && ">="@[0] == '>' && ">="@[1] == '=');
    assert("=="@.len() == 2 && "=="@[0] == '=' && "=="@[1] == '=');
    assert("!="@.len() == 2 && "!="@[0] == '!' && "!="@[1] == '=');
    assert("("@.len() == 1 && "("@[0] == '(');
    assert(")"@.len() == 1 && ")"@[0] == ')');
    assert("{"@.len() == 1 && "{"@[0] == '{');
    assert("}"@.len() == 1 && "}"@[0] == '}');
    assert("["@.len() == 1 && "["@[0] == '[');
    assert("]"@.len() == 1 && "]"@[0] == ']');
    assert("var"@.len() == 3 && "var"@[0] == 'v' && "var"@[1] == 'a' && "var"@[2] == 'r');
    assert("func"@.len() == 4 && "func"@[0] == 'f' && "func"@[1] == 'u' && "func"@[2] == 'n' && "func"@[3] == 'c');
    assert("mod"@.len() == 3 && "mod"@[0] == 'm' && "mod"@[1] == 'o' && "mod"@[2] == 'd');
    assert("match"@.len() == 5 && "match"@[0] == 'm' && "match"@[1] == 'a' && "match"@[2] == 't' && "match"@[3] == 'c' && "match"@[4] == 'h');
    assert("return"@.len() == 6 && "return"@[0] == 'r' && "return"@[1] == 'e' && "return"@[2] == 't' && "return"@[3] == 'u' && "return"@[4] == 'r' && "return"@[5] == 'n');
    assert("if"@.len() == 2 && "if"@[0] == 'i' && "if"@[1] == 'f');
    assert("else"@.len() == 4 && "else"@[0] == 'e' && "else"@[1] == 'l' && "else"@[2] == 's' && "else"@[3] == 'e');
    assert("as"@.len() == 2 && "as"@[0] == 'a' && "as"@[1] == 's');
    assert("is"@.len() == 2 && "is"@[0] == 'i' && "is"@[1] == 's');
    assert("for"@.len() == 3 && "for"@[0] == 'f' && "for"@[1] == 'o' && "for"@[2] == 'r');
    assert("each"@.len() == 4 && "each"@[0] == 'e' && "each"@[1] == 'a' && "each"@[2] == 'c' && "each"@[3] == 'h');
    assert("while"@.len() == 5 && "while"@[0] == 'w' && "while"@[1] == 'h' && "while"@[2] == 'i' && "while"@[3] == 'l' && "while"@[4] == 'e');
    assert("loop"@.len() == 4 && "loop"@[0] == 'l' && "loop"@[1] == 'o' && "loop"@[2] == 'o' && "loop"@[3] == 'p');
    assert("in"@.len() == 2 && "in"@[0] == 'i' && "in"@[1] == 'n');
    assert("break"@.len() == 5 && "break"@[0] == 'b' && "break"@[1] == 'r' && "break"@[2] == 'e' && "break"@[3] == 'a' && "break"@[4] == 'k');
    assert("continue"@.len() == 8 && "continue"@[0] == 'c' && "continue"@[1] == 'o' && "continue"@[2] == 'n' && "continue"@[3] == 't' && "continue"@[4] == 'i' && "continue"@[5] == 'n' && "continue"@[6] == 'u' && "continue"@[7] == 'e');
    assert("true"@.len() == 4 && "true"@[0] == 't' && "true"@[1] == 'r' && "true"@[2] == 'u' && "true"@[3] == 'e');
    assert("false"@.len() == 5 && "false"@[0] == 'f' && "false"@[1] == 'a' && "false"@[2] == 'l' && "false"@[3] == 's' && "false"@[4] == 'e');
}

/// The keyword or symbol token a word is, if any.
fn fixed_token_of(s: &Vec<char>) -> (res: Option<PengToken>)
    ensures
        res == fixed_token(s@),
{
    if matches_word(s, "nil") {
        return Some(PengToken::Nil);
    }
    if matches_word(s, "int") {
        return Some(PengToken::Int);
    }
    if matches_word(s, "uint") {
        return Some(PengToken::Uint);
    }
    if matches_word(s, "f32") {
        return Some(PengToken::Float32);
    }
    if matches_word(s, "f64") {
        return Some(PengToken::Float64);
    }
    if matches_word(s, "string") {
        return Some(PengToken::String);
    }
    if matches_word(s, "byte") {
        return Some(PengToken::Byte);
    }
    if matches_word(s, "type") {
        return Some(PengToken::Type);
    }
    if matches_word(s, "=") {
        return Some(PengToken::Equals);
    }
    if matches_word(s, ".") {
        return Some(PengToken::Dot);
    }
    if matches_word(s, ":") {
        return Some(PengToken::Colon);
    }
    if matches_word(s, ",") {
        return Some(PengToken::Comma);
    }
    if matches_word(s, ";") {
        return Some(PengToken::Semicolon);
    }
    if matches_word(s, "+") {
        return Some(PengToken::Plus);
    }
    if matches_word(s, "-") {
        return Some(PengToken::Minus);
    }
    if matches_word(s, "*") {
        return Some(PengToken::Asterisk);
    }
    if matches_word(s, "**") {
        return Some(PengToken::DoubleAsterisk);
    }
    if matches_word(s, "/") {
        return Some(PengToken::Slash);
    }
    if matches_word(s, "%") {
        return Some(PengToken::Percent);
    }
    if matches_word(s, "+=") {
        return Some(PengToken::PlusEquals);
    }
    if matches_word(s, "-=") {
        return Some(PengToken::MinusEquals);
    }
    if matches_word(s, "*=") {
        return Some(PengToken::AsteriskEquals);
    }
    if matches_word(s, "**=") {
        return Some(PengToken::DoubleAsteriskEquals);
    }
    if matches_word(s, "/=") {
        return Some(PengToken::SlashEquals);
    }
    if matches_word(s, "%=") {
        return Some(PengToken::PercentEquals);
    }
    if matches_word(s, "..") {
        return Some(PengToken::DoubleDot);
    }
    if matches_word(s, "...") {
        return Some(PengToken::TripleDot);
    }
    if matches_word(s, "&") {
        return Some(PengToken::Ampersand);
    }
    if matches_word(s, "&&") {
        return Some(PengToken::DoubleAmpersand);
    }
    if matches_word(s, "|") {
        return Some(PengToken::Pipe);
    }
    if matches_word(s, "||") {
        return Some(PengToken::DoublePipe);
    }
    if matches_word(s, "!") {
        return Some(PengToken::Exclamation);
    }
    if matches_word(s, "->") {
        return Some(PengToken::Arrow);
    }
    if matches_word(s, "<") {
        return Some(PengToken::LessThan);
    }
    if matches_word(s, ">") {
        return Some(PengToken::GreaterThan);
    }
    if matches_word(s, "<=") {
        return Some(PengToken::LessThanEquals);
    }
    if matches_word(s, ">=") {
        return Some(PengToken::GreaterThanEquals);
    }
    if matches_word(s, "==") {
        return Some(PengToken::DoubleEquals);
    }
    if matches_word(s, "!=") {
        return Some(PengToken::ExclamationEquals);
    }
    if matches_word(s, "(") {
        return Some(PengToken::LeftParenthesis);
    }
    if matches_word(s, ")") {
        return Some(PengToken::RightParenthesis);
    }
    if matches_word(s, "{") {
        return Some(PengToken::LeftCurlyBrace);
    }
    if matches_word(s, "}") {
        return Some(PengToken::RightCurlyBrace);
    }
    if matches_word(s, "[") {
        return Some(PengToken::LeftBracket);
    }
    if matches_word(s, "]") {
        return Some(PengToken::RightBracket);
    }
    if matches_word(s, "var") {
        return Some(PengToken::Var);
    }
    if matches_word(s, "func") {
        return Some(PengToken::Func);
    }
    if matches_word(s, "mod") {
        return Some(PengToken::Mod);
    }
    if matches_word(s, "match") {
        return Some(PengToken::Match);
    }
    if matches_word(s, "return") {
        return Some(PengToken::Return);
    }
    if matches_word(s, "if") {
        return Some(PengToken::If);
    }
    if matches_word(s, "else") {
        return Some(PengToken::Else);
    }
    if matches_word(s, "as") {
        return Some(PengToken::As);
    }
    if matches_word(s, "is") {
        return Some(PengToken::Is);
    }
    if matches_word(s, "for") {
        return Some(PengToken::For);
    }
    if matches_word(s, "each") {
        return Some(PengToken::Each);
    }
    if matches_word(s, "while") {
        return Some(PengToken::While);
    }
    if matches_word(s, "loop") {
        return Some(PengToken::Loop);
    }
    if matches_word(s, "in") {
        return Some(PengToken::In);
    }
    if matches_word(s, "break") {
        return Some(PengToken::Break);
    }
    if matches_word(s, "continue") {
        return Some(PengToken::Continue);
    }
    if matches_word(s, "true") {
        return Some(PengToken::True);
    }
    if matches_word(s, "false") {
        return Some(PengToken::False);
    }
    None
}


pub open spec fn is_digit(c: char) -> bool {
    '0' <= c <= '9'
}

pub open spec fn all_digits(s: Seq<char>) -> bool {
    forall|i: int| 0 <= i < s.len() ==> is_digit(#[trigger] s[i])
}

/// At least one character, all of them decimal digits.
pub open spec fn is_digits(s: Seq<char>) -> bool {
    s.len() > 0 && all_digits(s)
}

/// Digits, a dot, then digits or nothing: `1.5`, `10.`.
pub open spec fn is_float_body(s: Seq<char>) -> bool {
    exists|k: int| 0 <= k < s.len() && s[k] == '.' && is_digits(s.take(k)) && all_digits(s.skip(k + 1))
}

/// `s` without its underscores.
pub open spec fn without_underscores(s: Seq<char>) -> Seq<char>
    decreases s.len(),
{
    if s.len() == 0 {
        s
    } else if s.last() == '_' {
        without_underscores(s.drop_last())
    } else {
        without_underscores(s.drop_last()).push(s.last())
    }
}

pub open spec fn ends_with(s: Seq<char>, suffix: Seq<char>) -> bool {
    s.len() >= suffix.len() && s.skip(s.len() - suffix.len()) == suffix
}

/// `s` without its last `n` characters.
pub open spec fn strip(s: Seq<char>, n: int) -> Seq<char> {
    s.take(s.len() - n)
}

/// The number that decimal digits write.
pub open spec fn decimal(s: Seq<char>) -> nat
    decreases s.len(),
{
    if s.len() == 0 {
        0
    } else {
        decimal(s.drop_last()) * 10 + ((s.last() as int - '0' as int) as nat)
    }
}

/// Ten to the power `n`.
pub open spec fn ten_to(n: nat) -> nat
    decreases n,
{
    if n == 0 {
        1
    } else {
        10 * ten_to((n - 1) as nat)
    }
}

/// Digits are read in base ten, most significant first: a single digit is its value, and
/// the number that `s` followed by `t` writes is `s`'s number shifted left by `t`'s length
/// plus `t`'s number; so `decimal` stays below ten to the number of digits.
pub proof fn lemma_decimal_is_base_ten(s: Seq<char>, t: Seq<char>)
    requires
        all_digits(s),
        all_digits(t),
    ensures
        t.len() == 1 ==> decimal(t) == t[0] as int - '0' as int,
        decimal(s + t) == decimal(s) * ten_to(t.len()) + decimal(t),
        decimal(t) < ten_to(t.len()),
    decreases t.len(),
{
    if t.len() == 0 {
        assert(s + t =~= s);
        assert(ten_to(0) == 1);
        assert(decimal(t) == 0);
    } else {
        let u = t.drop_last();
        assert((s + t).drop_last() =~= s + u);
        assert((s + t).last() == t.last());
        assert(is_digit(t[t.len() - 1]));
        lemma_decimal_is_base_ten(s, u);
        if t.len() == 1 {
            assert(u.len() == 0);
        }
        let d = (t.last() as int - '0' as int);
        assert(0 <= d <= 9);
        assert(decimal(s + u) == decimal(s) * ten_to(u.len()) + decimal(u));
        assert(decimal(s + t) == decimal(s + u) * 10 + d);
        assert(decimal(t) == decimal(u) * 10 + d);
        assert(ten_to(t.len()) == 10 * ten_to(u.len()));
        assert((decimal(s) * ten_to(u.len()) + decimal(u)) * 10 + d == decimal(s) * (10 * ten_to(u.len())) + (decimal(u)
            * 10 + d)) by (nonlinear_arith);
        assert(decimal(s) * ten_to(t.len()) == decimal(s) * (10 * ten_to(u.len())));
        assert(decimal(s + t) == decimal(s) * ten_to(t.len()) + decimal(t));
        assert(decimal(u) * 10 + d < 10 * ten_to(u.len())) by (nonlinear_arith)
            requires
                decimal(u) < ten_to(u.len()),
                0 <= d <= 9,
        ;
    }
}

/// The error for a word that starts like a number but is not one.
pub open spec fn invalid_number_message(source: Seq<char>) -> Seq<char> {
    "invalid number literal: "@ + source
}

/// What a number literal holds, by its characters or its value.
pub enum NumberV {
    Float64(Seq<char>),
    Float32(Seq<char>),
    Int(int),
    Uint(int),
    Byte(int),
    Number(Seq<char>),
}

/// What a word that starts with a digit reads as, or `None` when it is refused.
/// Underscores are ignored. A suffix `f64` or `f32`, or a dot, makes a floating-point
/// literal (digits, a dot, digits); a suffix `i`, `u` or `b` an integer of that kind,
/// which must fit; digits alone a number whose kind is left open.
pub open spec fn number_value(source: Seq<char>) -> Option<NumberV> {
    let clean = without_underscores(source);
    if ends_with(clean, "f64"@) {
        if is_float_body(strip(clean, 3)) {
            Some(NumberV::Float64(strip(clean, 3)))
        } else {
            None
        }
    } else if ends_with(clean, "f32"@) {
        if is_float_body(strip(clean, 3)) {
            Some(NumberV::Float32(strip(clean, 3)))
        } else {
            None
        }
    } else if clean.contains('.') {
        if is_float_body(clean) {
            Some(NumberV::Float32(clean))
        } else {
            None
        }
    } else if ends_with(clean, "i"@) {
        if is_digits(strip(clean, 1)) && decimal(strip(clean, 1)) <= isize::MAX {
            Some(NumberV::Int(decimal(strip(clean, 1)) as int))
        } else {
            None
        }
    } else if ends_with(clean, "u"@) {
        if is_digits(strip(clean, 1)) && decimal(strip(clean, 1)) <= usize::MAX {
            Some(NumberV::Uint(decimal(strip(clean, 1)) as int))
        } else {
            None
        }
    } else if ends_with(clean, "b"@) {
        if is_digits(strip(clean, 1)) && decimal(strip(clean, 1)) <= u8::MAX {
            Some(NumberV::Byte(decimal(strip(clean, 1)) as int))
        } else {
            None
        }
    } else if is_digits(clean) {
        Some(NumberV::Number(clean))
    } else {
        None
    }
}

/// The token `t` is the number literal `n`.
pub open spec fn token_is_number(t: PengToken, n: NumberV) -> bool {
    match n {
        NumberV::Float64(s) => t matches PengToken::Float64Literal(x) && x@ == s,
        NumberV::Float32(s) => t matches PengToken::Float32Literal(x) && x@ == s,
        NumberV::Int(v) => t == PengToken::IntLiteral(v as isize),
        NumberV::Uint(v) => t == PengToken::UintLiteral(v as usize),
        NumberV::Byte(v) => t == PengToken::ByteLiteral(v as u8),
        NumberV::Number(s) => t matches PengToken::NumberLiteral(x) && x@ == s,
    }
}

pub open spec fn number_reads_as(source: Seq<char>, res: Result<PengToken, String>) -> bool {
    match number_value(source) {
        Some(n) => res matches Ok(t) && token_is_number(t, n),
        None => res matches Err(m) && m@ == invalid_number_message(source),
    }
}

/// A word that starts like a number but is not one.
pub open spec fn word_refused(source: Seq<char>) -> bool {
    fixed_token(source) is None && source.len() > 0 && is_digit(source[0]) && number_value(source) is None
}

/// What a word reads as: a keyword or symbol; else, when it starts with a digit, a
/// number literal (or the refusal of one); else a name.
pub open spec fn word_reads_as(source: Seq<char>, res: Result<PengToken, String>) -> bool {
    match fixed_token(source) {
        Some(t) => res == Ok::<PengToken, String>(t),
        None => if source.len() > 0 && is_digit(source[0]) {
            number_reads_as(source, res)
        } else {
            res matches Ok(PengToken::Identifier(s)) && s@ == source
        },
    }
}


proof fn lemma_decimal_grows(s: Seq<char>, k: int)
    requires
        0 <= k <= s.len(),
    ensures
        decimal(s.take(k)) <= decimal(s),
    decreases s.len() - k,
{
    if k < s.len() {
        assert(s.drop_last().take(k) =~= s.take(k));
        lemma_decimal_grows(s.drop_last(), k);
        assert(decimal(s) == decimal(s.drop_last()) * 10 + ((s.last() as int - '0' as int) as nat));
    } else {
        assert(s.take(k) =~= s);
    }
}

fn remove_underscores(s: &Vec<char>) -> (res: Vec<char>)
    ensures
        res@ == without_underscores(s@),
{
    let mut out: Vec<char> = Vec::new();
    let mut i: usize = 0;
    while i < s.len()
        invariant
            i <= s@.len(),
            out@ == without_underscores(s@.take(i as int)),
        decreases s@.len() - i,
    {
        assert(s@.take(i + 1).drop_last() =~= s@.take(i as int));
        if s[i] != '_' {
            out.push(s[i]);
        }
        i = i + 1;
    }
    assert(s@.take(i as int) =~= s@);
    out
}

fn ends_with_word(s: &Vec<char>, suffix: &str) -> (res: bool)
    ensures
        res == ends_with(s@, suffix@),
{
    let n = suffix.unicode_len();
    if s.len() < n {
        return false;
    }
    let base = s.len() - n;
    let mut i: usize = 0;
    while i < n
        invariant
            s@.len() <= usize::MAX,
            n == suffix@.len(),
            base + n == s@.len(),
            i <= n,
            forall|j: int| 0 <= j < i ==> s@[base + j] == suffix@[j],
        decreases n - i,
    {
        if s[base + i] != suffix.get_char(i) {
            assert(s@.skip(base as int)[i as int] == s@[base + i]);
            return false;
        }
        i = i + 1;
    }
    assert(s@.skip(base as int) =~= suffix@);
    true
}

fn has_dot(s: &Vec<char>) -> (res: bool)
    ensures
        res == s@.contains('.'),
{
    let mut i: usize = 0;
    while i < s.len()
        invariant
            i <= s@.len(),
            forall|j: int| 0 <= j < i ==> s@[j] != '.',
        decreases s@.len() - i,
    {
        if s[i] == '.' {
            return true;
        }
        i = i + 1;
    }
    false
}

/// Whether `s[from..to]` is all decimal digits.
fn digits_only(s: &Vec<char>, from: usize, to: usize) -> (res: bool)
    requires
        from <= to <= s@.len(),
    ensures
        res == all_digits(s@.subrange(from as int, to as int)),
{
    let mut i = from;
    while i < to
        invariant
            from <= i <= to <= s@.len(),
            forall|j: int| from <= j < i ==> is_digit(s@[j]),
        decreases to - i,
    {
        if !(s[i] >= '0' && s[i] <= '9') {
            assert(s@.subrange(from as int, to as int)[i - from] == s@[i as int]);
            return false;
        }
        i = i + 1;
    }
    assert forall|j: int| 0 <= j < to - from implies is_digit(#[trigger] s@.subrange(from as int, to as int)[j]) by {
        assert(s@.subrange(from as int, to as int)[j] == s@[from + j]);
    }
    true
}

/// Whether the first `len` characters of `s` are digits, a dot, then digits.
fn float_body(s: &Vec<char>, len: usize) -> (res: bool)
    requires
        len <= s@.len(),
    ensures
        res == is_float_body(s@.take(len as int)),
{
    let ghost t = s@.take(len as int);
    let mut k: usize = 0;
    while k < len && s[k] != '.'
        invariant
            k <= len <= s@.len(),
            forall|j: int| 0 <= j < k ==> s@[j] != '.',
        decreases len - k,
    {
        k = k + 1;
    }
    if k == len {
        proof {
            assert forall|m: int| 0 <= m < t.len() implies t[m] != '.' by {
                assert(t[m] == s@[m]);
            }
        }
        return false;
    }
    let left = k > 0 && digits_only(s, 0, k);
    let right = digits_only(s, k + 1, len);
    proof {
        assert(t.take(k as int) =~= s@.subrange(0, k as int));
        assert(t.skip(k + 1) =~= s@.subrange(k + 1, len as int));
        assert(t[k as int] == '.');
        if left && right {
            assert(is_digits(t.take(k as int)));
        }
        assert forall|m: int|
            0 <= m < t.len() && t[m] == '.' && is_digits(t.take(m)) && all_digits(t.skip(m + 1)) implies m
            == k by {
            if m < k {
                assert(t[m] == s@[m]);
            } else if m > k {
                assert(t.take(m)[k as int] == '.');
                assert(!is_digit(t.take(m)[k as int]));
            }
        }
    }
    left && right
}

/// The number the first `len` characters of `s` write, if it is at most `limit`.
fn decimal_within(s: &Vec<char>, len: usize, limit: u64) -> (res: Option<u64>)
    requires
        len <= s@.len(),
        all_digits(s@.take(len as int)),
    ensures
        res == (if decimal(s@.take(len as int)) <= limit {
            Some(decimal(s@.take(len as int)) as u64)
        } else {
            None
        }),
{
    let ghost t = s@.take(len as int);
    let mut acc: u128 = 0;
    let mut i: usize = 0;
    while i < len
        invariant
            t == s@.take(len as int),
            all_digits(t),
            i <= len <= s@.len(),
            acc == decimal(t.take(i as int)),
            acc <= limit,
        decreases len - i,
    {
        assert(t.take(i + 1).drop_last() =~= t.take(i as int));
        assert(t[i as int] == s@[i as int]);
        assert(is_digit(t[i as int]));
        let d = (s[i] as u32 - '0' as u32) as u128;
        acc = acc * 10 + d;
        if acc > limit as u128 {
            proof {
                lemma_decimal_grows(t, i + 1);
            }
            return None;
        }
        i = i + 1;
    }
    assert(t.take(len as int) =~= t);
    Some(acc as u64)
}

fn invalid_number(source: &String) -> (res: String)
    ensures
        res@ == invalid_number_message(source@),
{
    let mut m = String::from_str("invalid number literal: ");
    m.append(source.as_str());
    m
}

/// Reads a word that starts with a digit as a number literal.
fn parse_number_literal(source: &String, chars: &Vec<char>) -> (res: Result<PengToken, String>)
    requires
        chars@ == source@,
    ensures
        number_reads_as(source@, res),
{
    let clean = remove_underscores(chars);
    let n = clean.len();
    if ends_with_word(&clean, "f64") {
        proof {
            reveal_strlit("f64");
        }
        if float_body(&clean, n - 3) {
            return Ok(PengToken::Float64Literal(string_of(&clean, 0, n - 3)));
        }
        return Err(invalid_number(source));
    }
    if ends_with_word(&clean, "f32") {
        proof {
            reveal_strlit("f32");
        }
        if float_body(&clean, n - 3) {
            return Ok(PengToken::Float32Literal(string_of(&clean, 0, n - 3)));
        }
        return Err(invalid_number(source));
    }
    if has_dot(&clean) {
        assert(clean@.take(n as int) =~= clean@);
        if float_body(&clean, n) {
            return Ok(PengToken::Float32Literal(string_of(&clean, 0, n)));
        }
        return Err(invalid_number(source));
    }
    let ghost body = clean@.take(n - 1);
    if ends_with_word(&clean, "i") {
        proof {
            reveal_strlit("i");
        }
        if n > 1 && digits_only(&clean, 0, n - 1) {
            assert(clean@.subrange(0, n - 1) =~= body);
            match decimal_within(&clean, n - 1, 0x7fff_ffff_ffff_ffffu64) {
                Some(v) => {
                    if v <= isize::MAX as u64 {
                        return Ok(PengToken::IntLiteral(v as isize));
                    }
                },
                None => {},
            }
        }
        assert(clean@.subrange(0, n - 1) =~= body);
        return Err(invalid_number(source));
    }
    if ends_with_word(&clean, "u") {
        proof {
            reveal_strlit("u");
        }
        if n > 1 && digits_only(&clean, 0, n - 1) {
            assert(clean@.subrange(0, n - 1) =~= body);
            match decimal_within(&clean, n - 1, usize::MAX as u64) {
                Some(v) => {
                    return Ok(PengToken::UintLiteral(v as usize));
                },
                None => {},
            }
        }
        assert(clean@.subrange(0, n - 1) =~= body);
        return Err(invalid_number(source));
    }
    if ends_with_word(&clean, "b") {
        proof {
            reveal_strlit("b");
        }
        if n > 1 && digits_only(&clean, 0, n - 1) {
            assert(clean@.subrange(0, n - 1) =~= body);
            match decimal_within(&clean, n - 1, 255) {
                Some(v) => {
                    return Ok(PengToken::ByteLiteral(v as u8));
                },
                None => {},
            }
        }
        assert(clean@.subrange(0, n - 1) =~= body);
        return Err(invalid_number(source));
    }
    if n > 0 && digits_only(&clean, 0, n) {
        assert(clean@.subrange(0, n as int) =~= clean@);
        return Ok(PengToken::NumberLiteral(string_of(&clean, 0, n)));
    }
    assert(clean@.subrange(0, n as int) =~= clean@);
    Err(invalid_number(source))
}

impl PengToken {
    /// The token a word reads as (see `word_reads_as`); the error names a word that
    /// starts like a number but is not one.
    pub fn from_string(source: String) -> (res: Result<Self, String>)
        ensures
            word_reads_as(source@, res),
    {
        let chars = chars_of(source.as_str());
        match fixed_token_of(&chars) {
            Some(t) => return Ok(t),
            None => {},
        }
        if chars.len() > 0 && chars[0] >= '0' && chars[0] <= '9' {
            return parse_number_literal(&source, &chars);
        }
        Ok(PengToken::Identifier(source))
    }

    pub fn new_string(string: String) -> (res: Self)
        ensures
            res == PengToken::StringLiteral(string),
    {
        PengToken::StringLiteral(string)
    }
}

} // verus!
