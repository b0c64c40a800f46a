use vstd::prelude::*;
use vstd::string::{StrSliceExecFns, StringExecFns};
use crate::error::PengError;
use crate::lexer::positioned_token::PengPositionedToken;
use crate::lexer::token::{chars_of, string_of, word_reads_as, word_refused, PengToken, invalid_number_message};
use crate::position::PengPosition;
use crate::positioned::PengPositioned;

verus! {

/// What the scanner hands on: a word to be read as a token, or the contents of a
/// string literal.
pub enum LexerCallbackResponse {
    Token(String),
    String(String),
}

// ---------------------------------------------------------------------------
// The scanner, as a transition system over the characters of a source.
// ---------------------------------------------------------------------------

/// A piece the scanner found, with its line and, when no tab came before it on its
/// line, its column.
pub struct Found {
    pub word: bool,
    pub text: Seq<char>,
    pub line: int,
    pub column: Option<int>,
}

#[verifier::ext_equal]
/// Where the scanner is: the next character, the line and column there, whether a tab
/// was seen on this line, the word being gathered and the column it started at.
pub struct ScanState {
    pub i: int,
    pub line: int,
    pub column: Option<int>,
    pub tab: bool,
    pub word: Seq<char>,
    pub word_start: Option<int>,
}

pub open spec fn bump(column: Option<int>, n: int) -> Option<int> {
    match column {
        Some(c) => Some(c + n),
        None => None,
    }
}

pub open spec fn shown_column(st: ScanState, column: Option<int>) -> Option<int> {
    if st.tab {
        None
    } else {
        column
    }
}

/// `pat` is written in `src` from `i` on.
pub open spec fn starts_at(src: Seq<char>, i: int, pat: Seq<char>) -> bool {
    0 <= i && i + pat.len() <= src.len() && src.subrange(i, i + pat.len()) == pat
}

/// The longest symbol written at `i`.
pub open spec fn special_at(src: Seq<char>, i: int) -> Option<Seq<char>> {
    if starts_at(src, i, "..."@) {
        Some("..."@)
    } else if starts_at(src, i, "**="@) {
        Some("**="@)
    } else if starts_at(src, i, ".."@) {
        Some(".."@)
    } else if starts_at(src, i, "<="@) {
        Some("<="@)
    } else if starts_at(src, i, ">="@) {
        Some(">="@)
    } else if starts_at(src, i, "=="@) {
        Some("=="@)
    } else if starts_at(src, i, "!="@) {
        Some("!="@)
    } else if starts_at(src, i, "**"@) {
        Some("**"@)
    } else if starts_at(src, i, "+="@) {
        Some("+="@)
    } else if starts_at(src, i, "-="@) {
        Some("-="@)
    } else if starts_at(src, i, "*="@) {
        Some("*="@)
    } else if starts_at(src, i, "/="@) {
        Some("/="@)
    } else if starts_at(src, i, "%="@) {
        Some("%="@)
    } else if starts_at(src, i, "&&"@) {
        Some("&&"@)
    } else if starts_at(src, i, "||"@) {
        Some("||"@)
    } else if starts_at(src, i, "->"@) {
        Some("->"@)
    } else if starts_at(src, i, "="@) {
        Some("="@)
    } else if starts_at(src, i, "."@) {
        Some("."@)
    } else if starts_at(src, i, ":"@) {
        Some(":"@)
    } else if starts_at(src, i, ";"@) {
        Some(";"@)
    } else if starts_at(src, i, ","@) {
        Some(","@)
    } else if starts_at(src, i, "("@) {
        Some("("@)
    } else if starts_at(src, i, ")"@) {
        Some(")"@)
    } else if starts_at(src, i, "{"@) {
        Some("{"@)
    } else if starts_at(src, i, "}"@) {
        Some("}"@)
    } else if starts_at(src, i, "["@) {
        Some("["@)
    } else if starts_at(src, i, "]"@) {
        Some("]"@)
    } else if starts_at(src, i, "<"@) {
        Some("<"@)
    } else if starts_at(src, i, ">"@) {
        Some(">"@)
    } else if starts_at(src, i, "+"@) {
        Some("+"@)
    } else if starts_at(src, i, "-"@) {
        Some("-"@)
    } else if starts_at(src, i, "*"@) {
        Some("*"@)
    } else if starts_at(src, i, "/"@) {
        Some("/"@)
    } else if starts_at(src, i, "%"@) {
        Some("%"@)
    } else if starts_at(src, i, "&"@) {
        Some("&"@)
    } else if starts_at(src, i, "|"@) {
        Some("|"@)
    } else if starts_at(src, i, "!"@) {
        Some("!"@)
    } else if starts_at(src, i, "?"@) {
        Some("?"@)
    } else {
        None
    }
}

/// The quotes a string literal starting at `i` opens and closes with: `#"` and `"#`,
/// or `"` and `"`.
pub open spec fn separator_at(src: Seq<char>, i: int) -> Option<(Seq<char>, Seq<char>)> {
    if starts_at(src, i, "#\""@) {
        Some(("#\""@, "\"#"@))
    } else if starts_at(src, i, "\""@) {
        Some(("\""@, "\""@))
    } else {
        None
    }
}

/// Where a string literal closed by `close` ends, looking from `j`: just after the first
/// `close` that no backslash escapes.
pub open spec fn closing_end(src: Seq<char>, j: int, close: Seq<char>, escaped: bool) -> Option<int>
    decreases src.len() - j,
{
    if j < 0 || j >= src.len() {
        None
    } else if escaped {
        closing_end(src, j + 1, close, false)
    } else if src[j] == '\\' {
        closing_end(src, j + 1, close, true)
    } else if starts_at(src, j, close) {
        Some(j + close.len())
    } else {
        closing_end(src, j + 1, close, false)
    }
}

/// Where a block comment whose body starts at `j` ends: after its `*/`, or at the end of
/// the source.
pub open spec fn comment_end(src: Seq<char>, j: int) -> int
    decreases src.len() - j,
{
    if j < 0 || j >= src.len() {
        if j < 0 { 0 } else { src.len() as int }
    } else if starts_at(src, j, "*/"@) {
        j + 2
    } else {
        comment_end(src, j + 1)
    }
}

/// Line, column and tab state after the characters `s`.
pub open spec fn advance(s: Seq<char>, line: int, column: Option<int>, tab: bool) -> (int, Option<int>, bool)
    decreases s.len(),
{
    if s.len() == 0 {
        (line, column, tab)
    } else if s[0] == '\n' {
        advance(s.drop_first(), line + 1, Some(1), false)
    } else if s[0] == '\t' {
        advance(s.drop_first(), line, None, true)
    } else {
        advance(s.drop_first(), line, bump(column, 1), tab)
    }
}

/// After `//` at `j`: where the line ends (after its newline), and the line, column and
/// tab state there.
pub open spec fn skip_line(src: Seq<char>, j: int, line: int, column: Option<int>, tab: bool) -> (int, int, Option<int>, bool)
    decreases src.len() - j,
{
    if j < 0 || j >= src.len() {
        (j, line, column, tab)
    } else if src[j] == '\t' {
        skip_line(src, j + 1, line, None, true)
    } else if src[j] == '\n' {
        (j + 1, line + 1, Some(1), false)
    } else {
        skip_line(src, j + 1, line, bump(column, 1), tab)
    }
}

pub open spec fn is_digit_char(c: char) -> bool {
    '0' <= c <= '9'
}

pub open spec fn is_alnum_char(c: char) -> bool {
    ('0' <= c <= '9') || ('a' <= c <= 'z') || ('A' <= c <= 'Z')
}

/// The end of the run of digits and underscores from `j`.
pub open spec fn digits_end(src: Seq<char>, j: int) -> int
    decreases src.len() - j,
{
    if 0 <= j < src.len() && (is_digit_char(src[j]) || src[j] == '_') {
        digits_end(src, j + 1)
    } else {
        j
    }
}

/// The end of the run of ASCII letters and digits from `j`.
pub open spec fn alnum_end(src: Seq<char>, j: int) -> int
    decreases src.len() - j,
{
    if 0 <= j < src.len() && is_alnum_char(src[j]) {
        alnum_end(src, j + 1)
    } else {
        j
    }
}

/// How many characters a number literal at `i` takes: digits and underscores, then a
/// dot that does not start `..` and more digits and underscores, then letters and digits
/// (a suffix, or what makes the word refused later); none when `i` holds no digit.
pub open spec fn number_len(src: Seq<char>, i: int) -> int {
    if 0 <= i < src.len() && is_digit_char(src[i]) {
        let j1 = digits_end(src, i);
        let dot = j1 < src.len() && src[j1] == '.' && !(j1 + 1 < src.len() && src[j1 + 1] == '.');
        let j2 = if dot { digits_end(src, j1 + 1) } else { j1 };
        alnum_end(src, j2) - i
    } else {
        0
    }
}

/// The contents of a string literal with its escapes replaced: `\n`, `\t`, `\r` by
/// those characters, a backslash before any other character by that character; a
/// backslash at the very end is dropped.
pub open spec fn unescape(s: Seq<char>) -> Seq<char>
    decreases s.len(),
{
    if s.len() == 0 {
        s
    } else if s[0] != '\\' {
        seq![s[0]] + unescape(s.drop_first())
    } else if s.len() == 1 {
        Seq::empty()
    } else {
        let c = s[1];
        let m = if c == 'n' {
            '\n'
        } else if c == 't' {
            '\t'
        } else if c == 'r' {
            '\r'
        } else {
            c
        };
        seq![m] + unescape(s.subrange(2, s.len() as int))
    }
}

/// Contents that are themselves in quotes lose them.
pub open spec fn strip_quotes(s: Seq<char>) -> Seq<char> {
    if s.len() >= 2 && s[0] == '"' && s.last() == '"' {
        s.subrange(1, s.len() - 1)
    } else {
        s
    }
}

/// The word being gathered, if any, found at the column it started at.
pub open spec fn flush(st: ScanState) -> Seq<Found> {
    if st.word.len() > 0 {
        seq![Found { word: true, text: st.word, line: st.line, column: shown_column(st, st.word_start) }]
    } else {
        Seq::empty()
    }
}

/// One step of the scanner at a character of the source: what it finds, and where it
/// goes on.
pub open spec fn step(src: Seq<char>, st0: ScanState) -> (Seq<Found>, ScanState) {
    let st = if st0.word.len() == 0 { ScanState { word_start: st0.column, ..st0 } } else { st0 };
    let i = st.i;
    let ch = src[i];
    let cleared = ScanState { word: Seq::empty(), word_start: st.column, ..st };
    if ch == '\t' {
        (Seq::empty(), ScanState { i: i + 1, column: None, tab: true, ..st })
    } else if ch == '\n' {
        (flush(st), ScanState { i: i + 1, line: st.line + 1, column: Some(1), tab: false, word: Seq::empty(), word_start: Some(1) })
    } else if ch == ' ' {
        (flush(st), ScanState { i: i + 1, column: bump(st.column, 1), ..cleared })
    } else if starts_at(src, i, "//"@) {
        let r = skip_line(src, i + 2, st.line, bump(st.column, 2), st.tab);
        (flush(st), ScanState { i: r.0, line: r.1, column: r.2, tab: r.3, ..cleared })
    } else if starts_at(src, i, "/*"@) {
        let e = comment_end(src, i + 2);
        let a = advance(src.subrange(i, e), st.line, st.column, st.tab);
        (flush(st), ScanState { i: e, line: a.0, column: a.1, tab: a.2, ..cleared })
    } else if separator_at(src, i) is Some {
        let (open, close) = separator_at(src, i)->0;
        let end = match closing_end(src, i + open.len(), close, false) {
            Some(e) => e,
            None => src.len() as int,
        };
        let inner_end = match closing_end(src, i + open.len(), close, false) {
            Some(e) => e - close.len(),
            None => src.len() as int,
        };
        let a = advance(src.subrange(i, end), st.line, st.column, st.tab);
        let found = Found {
            word: false,
            text: strip_quotes(unescape(src.subrange(i + open.len(), inner_end))),
            line: st.line,
            column: shown_column(st, st.column),
        };
        (flush(st).push(found), ScanState { i: end, line: a.0, column: a.1, tab: a.2, ..cleared })
    } else if st.word.len() == 0 && number_len(src, i) > 0 {
        let k = number_len(src, i);
        (
            seq![Found { word: true, text: src.subrange(i, i + k), line: st.line, column: shown_column(st, st.column) }],
            ScanState { i: i + k, column: bump(st.column, k), ..st },
        )
    } else if special_at(src, i) is Some {
        let tok = special_at(src, i)->0;
        (
            flush(st).push(Found { word: true, text: tok, line: st.line, column: shown_column(st, st.column) }),
            ScanState { i: i + tok.len(), column: bump(st.column, tok.len() as int), ..cleared },
        )
    } else {
        (Seq::empty(), ScanState { i: i + 1, column: bump(st.column, 1), word: st.word.push(ch), ..st })
    }
}


proof fn lemma_skip_line_bounds(src: Seq<char>, j: int, line: int, column: Option<int>, tab: bool)
    requires
        0 <= j <= src.len(),
    ensures
        j <= skip_line(src, j, line, column, tab).0 <= src.len(),
    decreases src.len() - j,
{
    if j < src.len() && src[j] != '\n' {
        if src[j] == '\t' {
            lemma_skip_line_bounds(src, j + 1, line, None, true);
        } else {
            lemma_skip_line_bounds(src, j + 1, line, bump(column, 1), tab);
        }
    }
}

proof fn lemma_comment_end_bounds(src: Seq<char>, j: int)
    requires
        0 <= j <= src.len(),
    ensures
        j <= comment_end(src, j) <= src.len(),
    decreases src.len() - j,
{
    reveal_strlit("*/");
    if j < src.len() && !starts_at(src, j, "*/"@) {
        lemma_comment_end_bounds(src, j + 1);
    }
}

proof fn lemma_closing_end_bounds(src: Seq<char>, j: int, close: Seq<char>, escaped: bool)
    requires
        0 <= j,
        close.len() >= 1,
    ensures
        closing_end(src, j, close, escaped) matches Some(k) ==> j < k <= src.len() && k - close.len() >= j,
    decreases src.len() - j,
{
    if 0 <= j < src.len() {
        if escaped || src[j] == '\\' {
            lemma_closing_end_bounds(src, j + 1, close, !escaped && src[j] == '\\');
        } else if !starts_at(src, j, close) {
            lemma_closing_end_bounds(src, j + 1, close, false);
        }
    }
}

proof fn lemma_digits_end_bounds(src: Seq<char>, j: int)
    requires
        0 <= j <= src.len(),
    ensures
        j <= digits_end(src, j) <= src.len(),
    decreases src.len() - j,
{
    if j < src.len() && (is_digit_char(src[j]) || src[j] == '_') {
        lemma_digits_end_bounds(src, j + 1);
    }
}

proof fn lemma_alnum_end_bounds(src: Seq<char>, j: int)
    requires
        0 <= j <= src.len(),
    ensures
        j <= alnum_end(src, j) <= src.len(),
    decreases src.len() - j,
{
    if j < src.len() && is_alnum_char(src[j]) {
        lemma_alnum_end_bounds(src, j + 1);
    }
}

proof fn lemma_number_len_bounds(src: Seq<char>, i: int)
    requires
        0 <= i < src.len(),
    ensures
        0 <= number_len(src, i),
        i + number_len(src, i) <= src.len(),
        is_digit_char(src[i]) ==> number_len(src, i) > 0,
{
    if is_digit_char(src[i]) {
        lemma_digits_end_bounds(src, i);
        let j1 = digits_end(src, i);
        assert(j1 > i) by {
            assert(digits_end(src, i) == digits_end(src, i + 1));
            lemma_digits_end_bounds(src, i + 1);
        }
        let dot = j1 < src.len() && src[j1] == '.' && !(j1 + 1 < src.len() && src[j1 + 1] == '.');
        let j2 = if dot { digits_end(src, j1 + 1) } else { j1 };
        if dot {
            lemma_digits_end_bounds(src, j1 + 1);
        }
        lemma_alnum_end_bounds(src, j2);
    }
}

/// The special symbols are one to three characters long.
proof fn lemma_special_len(src: Seq<char>, i: int)
    ensures
        special_at(src, i) matches Some(t) ==> 1 <= t.len() <= 3 && starts_at(src, i, t),
{
    reveal_strlit("...");
    reveal_strlit("**=");
    reveal_strlit("..");
    reveal_strlit("<=");
    reveal_strlit(">=");
    reveal_strlit("==");
    reveal_strlit("!=");
    reveal_strlit("**");
    reveal_strlit("+=");
    reveal_strlit("-=");
    reveal_strlit("*=");
    reveal_strlit("/=");
    reveal_strlit("%=");
    reveal_strlit("&&");
    reveal_strlit("||");
    reveal_strlit("->");
    reveal_strlit("=");
    reveal_strlit(".");
    reveal_strlit(":");
    reveal_strlit(";");
    reveal_strlit(",");
    reveal_strlit("(");
    reveal_strlit(")");
    reveal_strlit("{");
    reveal_strlit("}");
    reveal_strlit("[");
    reveal_strlit("]");
    reveal_strlit("<");
    reveal_strlit(">");
    reveal_strlit("+");
    reveal_strlit("-");
    reveal_strlit("*");
    reveal_strlit("/");
    reveal_strlit("%");
    reveal_strlit("&");
    reveal_strlit("|");
    reveal_strlit("!");
    reveal_strlit("?");
}

proof fn lemma_separator(src: Seq<char>, i: int)
    ensures
        separator_at(src, i) matches Some(p) ==> starts_at(src, i, p.0) && p.0.len() >= 1 && p.1.len() >= 1,
{
    reveal_strlit("#\"");
    reveal_strlit("\"#");
    reveal_strlit("\"");
}

/// Each step moves on by at least one character and stays within the source.
pub proof fn lemma_step_advances(src: Seq<char>, st: ScanState)
    requires
        0 <= st.i < src.len(),
    ensures
        st.i < step(src, st).1.i <= src.len(),
{
    let i = st.i;
    reveal_strlit("//");
    reveal_strlit("/*");
    lemma_special_len(src, i);
    lemma_separator(src, i);
    lemma_number_len_bounds(src, i);
    if starts_at(src, i, "//"@) {
        lemma_skip_line_bounds(src, i + 2, st.line, bump(st.column, 2), st.tab);
    }
    if starts_at(src, i, "/*"@) {
        lemma_comment_end_bounds(src, i + 2);
    }
    if separator_at(src, i) is Some {
        let p = separator_at(src, i)->0;
        lemma_closing_end_bounds(src, i + p.0.len(), p.1, false);
    }
}

/// What the scanner finds from `st` on, to the end of the source.
pub open spec fn scan_from(src: Seq<char>, st: ScanState) -> Seq<Found>
    decreases src.len() - st.i,
{
    if st.i < 0 || st.i >= src.len() {
        flush(st)
    } else {
        proof {
            lemma_step_advances(src, st);
        }
        let (found, next) = step(src, st);
        found + scan_from(src, next)
    }
}

/// The scanner's start: the first character, on line 1 at column 1.
pub open spec fn scan_start() -> ScanState {
    ScanState { i: 0, line: 1, column: Some(1), tab: false, word: Seq::empty(), word_start: Some(1) }
}

/// What the scanner finds in a source.
pub open spec fn scan(src: Seq<char>) -> Seq<Found> {
    scan_from(src, scan_start())
}


// ---------------------------------------------------------------------------
// Scanning, step by step.
// ---------------------------------------------------------------------------

fn starts_with_at(src: &Vec<char>, i: usize, pat: &str) -> (res: bool)
    ensures
        res == starts_at(src@, i as int, pat@),
{
    let n = pat.unicode_len();
    if i > src.len() || n > src.len() - i {
        return false;
    }
    let mut k: usize = 0;
    while k < n
        invariant
            src@.len() <= usize::MAX,
            n == pat@.len(),
            i + n <= src@.len(),
            k <= n,
            forall|j: int| 0 <= j < k ==> src@[i + j] == pat@[j],
        decreases n - k,
    {
        if src[i + k] != pat.get_char(k) {
            assert(src@.subrange(i as int, i + n)[k as int] == src@[i + k]);
            return false;
        }
        k = k + 1;
    }
    assert(src@.subrange(i as int, i + n) =~= pat@);
    true
}

/// The longest symbol written at `i`.
fn find_special_at(src: &Vec<char>, i: usize) -> (res: Option<&'static str>)
    ensures
        match special_at(src@, i as int) {
            Some(t) => res matches Some(r) && r@ == t,
            None => res is None,
        },
{
    if starts_with_at(src, i, "...") {
        return Some("...");
    }
    if starts_with_at(src, i, "**=") {
        return Some("**=");
    }
    if starts_with_at(src, i, "..") {
        return Some("..");
    }
    if starts_with_at(src, i, "<=") {
        return Some("<=");
    }
    if starts_with_at(src, i, ">=") {
        return Some(">=");
    }
    if starts_with_at(src, i, "==") {
        return Some("==");
    }
    if starts_with_at(src, i, "!=") {
        return Some("!=");
    }
    if starts_with_at(src, i, "**") {
        return Some("**");
    }
    if starts_with_at(src, i, "+=") {
        return Some("+=");
    }
    if starts_with_at(src, i, "-=") {
        return Some("-=");
    }
    if starts_with_at(src, i, "*=") {
        return Some("*=");
    }
    if starts_with_at(src, i, "/=") {
        return Some("/=");
    }
    if starts_with_at(src, i, "%=") {
        return Some("%=");
    }
    if starts_with_at(src, i, "&&") {
        return Some("&&");
    }
    if starts_with_at(src, i, "||") {
        return Some("||");
    }
    if starts_with_at(src, i, "->") {
        return Some("->");
    }
    if starts_with_at(src, i, "=") {
        return Some("=");
    }
    if starts_with_at(src, i, ".") {
        return Some(".");
    }
    if starts_with_at(src, i, ":") {
        return Some(":");
    }
    if starts_with_at(src, i, ";") {
        return Some(";");
    }
    if starts_with_at(src, i, ",") {
        return Some(",");
    }
    if starts_with_at(src, i, "(") {
        return Some("(");
    }
    if starts_with_at(src, i, ")") {
        return Some(")");
    }
    if starts_with_at(src, i, "{") {
        return Some("{");
    }
    if starts_with_at(src, i, "}") {
        return Some("}");
    }
    if starts_with_at(src, i, "[") {
        return Some("[");
    }
    if starts_with_at(src, i, "]") {
        return Some("]");
    }
    if starts_with_at(src, i, "<") {
        return Some("<");
    }
    if starts_with_at(src, i, ">") {
        return Some(">");
    }
    if starts_with_at(src, i, "+") {
        return Some("+");
    }
    if starts_with_at(src, i, "-") {
        return Some("-");
    }
    if starts_with_at(src, i, "*") {
        return Some("*");
    }
    if starts_with_at(src, i, "/") {
        return Some("/");
    }
    if starts_with_at(src, i, "%") {
        return Some("%");
    }
    if starts_with_at(src, i, "&") {
        return Some("&");
    }
    if starts_with_at(src, i, "|") {
        return Some("|");
    }
    if starts_with_at(src, i, "!") {
        return Some("!");
    }
    if starts_with_at(src, i, "?") {
        return Some("?");
    }
    None
}

fn find_separator_at(src: &Vec<char>, i: usize) -> (res: Option<(&'static str, &'static str)>)
    ensures
        match separator_at(src@, i as int) {
            Some(p) => res matches Some(r) && r.0@ == p.0 && r.1@ == p.1,
            None => res is None,
        },
{
    if starts_with_at(src, i, "#\"") {
        return Some(("#\"", "\"#"));
    }
    if starts_with_at(src, i, "\"") {
        return Some(("\"", "\""));
    }
    None
}

/// Where a string literal whose contents start at `j` ends (see `closing_end`).
fn read_delimited_end(src: &Vec<char>, j: usize, close: &str) -> (res: Option<usize>)
    requires
        src@.len() < usize::MAX,
    ensures
        match closing_end(src@, j as int, close@, false) {
            Some(k) => res == Some(k as usize),
            None => res is None,
        },
{
    let mut k = j;
    let mut escaped = false;
    while k < src.len()
        invariant
            src@.len() < usize::MAX,
            j <= k,
            closing_end(src@, j as int, close@, false) == closing_end(src@, k as int, close@, escaped),
        decreases src@.len() - k,
    {
        if escaped {
            escaped = false;
            k = k + 1;
        } else if src[k] == '\\' {
            escaped = true;
            k = k + 1;
        } else if starts_with_at(src, k, close) {
            let n = close.unicode_len();
            return Some(k + n);
        } else {
            k = k + 1;
        }
    }
    None
}

/// Where a block comment whose body starts at `j` ends (see `comment_end`).
fn comment_end_at(src: &Vec<char>, j: usize) -> (res: usize)
    requires
        j <= src@.len(),
        src@.len() < usize::MAX,
    ensures
        res == comment_end(src@, j as int),
{
    let mut k = j;
    while k < src.len()
        invariant
            src@.len() < usize::MAX,
            j <= k <= src@.len(),
            comment_end(src@, j as int) == comment_end(src@, k as int),
        decreases src@.len() - k,
    {
        if starts_with_at(src, k, "*/") {
            proof {
                reveal_strlit("*/");
            }
            return k + 2;
        }
        k = k + 1;
    }
    k
}

pub open spec fn column_int(c: Option<usize>) -> Option<int> {
    match c {
        Some(v) => Some(v as int),
        None => None,
    }
}

fn bump_col(c: Option<usize>, n: usize) -> (res: Option<usize>)
    requires
        c matches Some(v) ==> v + n <= usize::MAX,
    ensures
        column_int(res) == bump(column_int(c), n as int),
{
    match c {
        Some(v) => Some(v + n),
        None => None,
    }
}

/// Line, column and tab state after `src[from..to]` (see `advance`).
fn advance_position_by_str(src: &Vec<char>, from: usize, to: usize, line: usize, column: Option<usize>, tab: bool) -> (res: (
    usize,
    Option<usize>,
    bool,
))
    requires
        from <= to <= src@.len(),
        src@.len() < usize::MAX,
        line <= from + 1,
        column matches Some(c) ==> c <= from + 1,
    ensures
        (res.0 as int, column_int(res.1), res.2) == advance(src@.subrange(from as int, to as int), line as int, column_int(column), tab),
        res.0 <= to + 1,
        res.0 >= line,
        res.1 matches Some(c) ==> c <= to + 1,
        (column matches Some(v0) ==> v0 >= 1) ==> (res.1 matches Some(v) ==> v >= 1),
{
    let mut k = from;
    let mut l = line;
    let mut c = column;
    let mut t = tab;
    while k < to
        invariant
            from <= k <= to <= src@.len(),
            src@.len() < usize::MAX,
            line <= l <= k + 1,
            c matches Some(v) ==> v <= k + 1,
            (column matches Some(v0) ==> v0 >= 1) ==> (c matches Some(v) ==> v >= 1),
            advance(src@.subrange(from as int, to as int), line as int, column_int(column), tab)
                == advance(src@.subrange(k as int, to as int), l as int, column_int(c), t),
        decreases to - k,
    {
        let ghost rest = src@.subrange(k as int, to as int);
        assert(rest.drop_first() =~= src@.subrange(k + 1, to as int));
        assert(rest[0] == src@[k as int]);
        if src[k] == '\n' {
            l = l + 1;
            c = Some(1);
            t = false;
        } else if src[k] == '\t' {
            c = None;
            t = true;
        } else {
            c = bump_col(c, 1);
        }
        k = k + 1;
    }
    assert(src@.subrange(k as int, to as int) =~= Seq::<char>::empty());
    (l, c, t)
}

/// After `//`, whose rest starts at `j`: see `skip_line`.
fn skip_line_comment(src: &Vec<char>, j: usize, line: usize, column: Option<usize>, tab: bool) -> (res: (
    usize,
    usize,
    Option<usize>,
    bool,
))
    requires
        j <= src@.len(),
        src@.len() < usize::MAX,
        line <= j + 1,
        column matches Some(c) ==> c <= j + 1,
    ensures
        (res.0 as int, res.1 as int, column_int(res.2), res.3) == skip_line(src@, j as int, line as int, column_int(column), tab),
        j <= res.0 <= src@.len(),
        line <= res.1 <= res.0 + 1,
        res.2 matches Some(c) ==> c <= res.0 + 1,
        (column matches Some(v0) ==> v0 >= 1) ==> (res.2 matches Some(v) ==> v >= 1),
{
    let mut k = j;
    let mut c = column;
    let mut t = tab;
    while k < src.len()
        invariant
            j <= k <= src@.len(),
            src@.len() < usize::MAX,
            line <= k + 1,
            c matches Some(v) ==> v <= k + 1,
            (column matches Some(v0) ==> v0 >= 1) ==> (c matches Some(v) ==> v >= 1),
            skip_line(src@, j as int, line as int, column_int(column), tab) == skip_line(src@, k as int, line as int, column_int(c), t),
        decreases src@.len() - k,
    {
        if src[k] == '\t' {
            c = None;
            t = true;
        } else if src[k] == '\n' {
            return (k + 1, line + 1, Some(1), false);
        } else {
            c = bump_col(c, 1);
        }
        k = k + 1;
    }
    (k, line, c, t)
}

fn is_ascii_digit(ch: char) -> (res: bool)
    ensures
        res == is_digit_char(ch),
{
    ch >= '0' && ch <= '9'
}

/// The character at `idx`, if there is one.
fn peek_char_at(src: &Vec<char>, idx: usize) -> (res: Option<char>)
    ensures
        res == (if idx < src@.len() {
            Some(src@[idx as int])
        } else {
            None
        }),
{
    if idx < src.len() {
        Some(src[idx])
    } else {
        None
    }
}

fn is_digit_at(src: &Vec<char>, j: usize) -> (res: bool)
    ensures
        res == (j < src@.len() && is_digit_char(src@[j as int])),
{
    match peek_char_at(src, j) {
        Some(ch) => is_ascii_digit(ch),
        None => false,
    }
}

fn run_digits(src: &Vec<char>, j: usize) -> (res: usize)
    requires
        j <= src@.len(),
    ensures
        res == digits_end(src@, j as int),
{
    let mut k = j;
    while k < src.len() && ((src[k] >= '0' && src[k] <= '9') || src[k] == '_')
        invariant
            j <= k <= src@.len(),
            digits_end(src@, j as int) == digits_end(src@, k as int),
        decreases src@.len() - k,
    {
        k = k + 1;
    }
    k
}

fn run_alnum(src: &Vec<char>, j: usize) -> (res: usize)
    requires
        j <= src@.len(),
    ensures
        res == alnum_end(src@, j as int),
{
    let mut k = j;
    while k < src.len() && ((src[k] >= '0' && src[k] <= '9') || (src[k] >= 'a' && src[k] <= 'z') || (src[k] >= 'A'
        && src[k] <= 'Z'))
        invariant
            j <= k <= src@.len(),
            alnum_end(src@, j as int) == alnum_end(src@, k as int),
        decreases src@.len() - k,
    {
        k = k + 1;
    }
    k
}

/// How many characters a number literal at `i` takes (see `number_len`).
fn read_number_at(src: &Vec<char>, i: usize) -> (res: usize)
    requires
        i < src@.len(),
        src@.len() < usize::MAX,
    ensures
        res == number_len(src@, i as int),
{
    if !is_digit_at(src, i) {
        return 0;
    }
    let j1 = run_digits(src, i);
    proof {
        lemma_digits_end_bounds(src@, i as int);
    }
    let dot = j1 < src.len() && src[j1] == '.' && !(j1 + 1 < src.len() && src[j1 + 1] == '.');
    let j2 = if dot {
        proof {
            lemma_digits_end_bounds(src@, j1 + 1);
        }
        run_digits(src, j1 + 1)
    } else {
        j1
    };
    let j3 = run_alnum(src, j2);
    proof {
        lemma_alnum_end_bounds(src@, j2 as int);
    }
    j3 - i
}

/// The contents `src[from..to]` of a string literal with its escapes replaced (see
/// `unescape`).
fn unescape_string(src: &Vec<char>, from: usize, to: usize) -> (res: Vec<char>)
    requires
        from <= to <= src@.len(),
    ensures
        res@ == unescape(src@.subrange(from as int, to as int)),
{
    let mut out: Vec<char> = Vec::new();
    let mut k = from;
    while k < to
        invariant
            from <= k <= to <= src@.len(),
            out@ + unescape(src@.subrange(k as int, to as int)) == unescape(src@.subrange(from as int, to as int)),
        decreases to - k,
    {
        let ghost rest = src@.subrange(k as int, to as int);
        let ghost o = out@;
        let ch = src[k];
        assert(rest[0] == ch);
        if ch != '\\' {
            assert(rest.drop_first() =~= src@.subrange(k + 1, to as int));
            out.push(ch);
            assert(out@ + unescape(src@.subrange(k + 1, to as int)) =~= o + unescape(rest));
            k = k + 1;
        } else if k + 1 == to {
            assert(unescape(rest) =~= Seq::<char>::empty());
            assert(out@ + unescape(src@.subrange(to as int, to as int)) =~= o + unescape(rest));
            k = to;
        } else {
            let c = src[k + 1];
            assert(rest[1] == c);
            let m = if c == 'n' {
                '\n'
            } else if c == 't' {
                '\t'
            } else if c == 'r' {
                '\r'
            } else {
                c
            };
            assert(rest.subrange(2, rest.len() as int) =~= src@.subrange(k + 2, to as int));
            out.push(m);
            assert(out@ + unescape(src@.subrange(k + 2, to as int)) =~= o + unescape(rest));
            k = k + 2;
        }
    }
    assert(src@.subrange(to as int, to as int) =~= Seq::<char>::empty());
    assert(out@ + Seq::<char>::empty() =~= out@);
    out
}

/// Removes the quotes around contents that are themselves quoted (see `strip_quotes`).
fn strip_quotes_of(s: Vec<char>) -> (res: Vec<char>)
    ensures
        res@ == strip_quotes(s@),
{
    let n = s.len();
    if n >= 2 && s[0] == '"' && s[n - 1] == '"' {
        let mut out: Vec<char> = Vec::new();
        let mut k: usize = 1;
        while k < n - 1
            invariant
                n == s@.len(),
                n >= 2,
                1 <= k <= n - 1,
                out@ == s@.subrange(1, k as int),
            decreases n - 1 - k,
        {
            out.push(s[k]);
            assert(out@ =~= s@.subrange(1, k + 1));
            k = k + 1;
        }
        out
    } else {
        s
    }
}


// ---------------------------------------------------------------------------
// From what the scanner finds to tokens.
// ---------------------------------------------------------------------------

/// Where a found piece was written, in the source numbered `id`.
pub open spec fn position_of(f: Found, id: usize) -> PengPosition {
    PengPosition {
        id,
        line: f.line as usize,
        column: match f.column {
            Some(c) => Some(c as usize),
            None => None,
        },
    }
}

/// `t` is the token a found piece gives.
pub open spec fn token_for(f: Found, t: PengPositionedToken, id: usize) -> bool {
    &&& t.position == position_of(f, id)
    &&& if f.word {
        word_reads_as(f.text, Ok(t.value))
    } else {
        t.value matches PengToken::StringLiteral(s) && s@ == f.text
    }
}

/// The `k`-th piece is a word that starts like a number but is not one.
pub open spec fn refused_at(fs: Seq<Found>, k: int) -> bool {
    fs[k].word && word_refused(fs[k].text)
}

/// `e` is the error a refused word gives, at its position.
pub open spec fn error_for(f: Found, e: PengError, id: usize) -> bool {
    match e {
        PengError::PositionedError { error, position } => position == position_of(f, id) && match *error {
            PengError::SyntaxError(m) => m@ == invalid_number_message(f.text),
            _ => false,
        },
        _ => false,
    }
}

/// The tokens of the pieces found, or the error of the last refused word among them.
pub open spec fn outcome(fs: Seq<Found>, tokens: Seq<PengPositionedToken>, error: Option<PengError>, id: usize) -> bool {
    &&& (error is None) == (forall|k: int| 0 <= k < fs.len() ==> !refused_at(fs, k))
    &&& error is None ==> tokens.len() == fs.len() && forall|k: int| 0 <= k < fs.len() ==> token_for(fs[k], #[trigger] tokens[k], id)
    &&& error matches Some(e) ==> exists|k: int|
        0 <= k < fs.len() && refused_at(fs, k) && (forall|j: int| k < j < fs.len() ==> !refused_at(fs, j)) && error_for(
            #[trigger] fs[k],
            e,
            id,
        )
}

proof fn lemma_word_reads(s: Seq<char>, r: Result<PengToken, String>)
    requires
        word_reads_as(s, r),
    ensures
        r is Ok ==> !word_refused(s),
        r matches Err(m) ==> word_refused(s) && m@ == invalid_number_message(s),
{
}

fn deliver(
    tokens: &mut Vec<PengPositionedToken>,
    error: &mut Option<PengError>,
    Ghost(fs): Ghost<Seq<Found>>,
    word: bool,
    text: String,
    line: usize,
    column: Option<usize>,
    id: usize,
)
    requires
        outcome(fs, old(tokens)@, *old(error), id),
    ensures
        outcome(
            fs.push(Found { word, text: text@, line: line as int, column: column_int(column) }),
            final(tokens)@,
            *final(error),
            id,
        ),
{
    let ghost f = Found { word, text: text@, line: line as int, column: column_int(column) };
    let ghost nfs = fs.push(f);
    let position = PengPosition { id, line, column };
    assert(position == position_of(f, id));
    let ghost old_error = *error;
    let ghost old_tokens = tokens@;
    if word {
        let ghost tv = text@;
        match PengPositioned::<PengToken>::from_string(text, position) {
            Ok(t) => {
                proof {
                    lemma_word_reads(tv, Ok(t.value));
                }
                tokens.push(t);
                proof {
                    assert(!refused_at(nfs, fs.len() as int));
                    assert forall|k: int| 0 <= k < fs.len() implies refused_at(nfs, k) == refused_at(fs, k) by {
                        assert(nfs[k] == fs[k]);
                    }
                    if old_error is None {
                        assert forall|k: int| 0 <= k < nfs.len() implies token_for(nfs[k], #[trigger] tokens@[k], id) by {
                            if k < fs.len() {
                                assert(tokens@[k] == old_tokens[k]);
                                assert(nfs[k] == fs[k]);
                            }
                        }
                    } else {
                        let e = old_error->0;
                        let k = choose|k: int|
                            0 <= k < fs.len() && refused_at(fs, k) && (forall|j: int| k < j < fs.len() ==> !refused_at(fs, j))
                                && error_for(#[trigger] fs[k], e, id);
                        assert(nfs[k] == fs[k]);
                        assert(refused_at(nfs, k));
                    }
                }
            },
            Err(m) => {
                proof {
                    lemma_word_reads(tv, Err(m));
                }
                *error = Some(PengError::new_positioned_error(PengError::SyntaxError(m), position));
                proof {
                    let k = fs.len() as int;
                    assert(nfs[k] == f);
                    assert(refused_at(nfs, k));
                    assert(error_for(nfs[k], error->0, id));
                }
            },
        }
    } else {
        let ghost tv = text@;
        tokens.push(PengPositioned::<PengToken>::new_string(text, position));
        proof {
            assert(!refused_at(nfs, fs.len() as int));
            assert forall|k: int| 0 <= k < fs.len() implies refused_at(nfs, k) == refused_at(fs, k) by {
                assert(nfs[k] == fs[k]);
            }
            if old_error is None {
                assert forall|k: int| 0 <= k < nfs.len() implies token_for(nfs[k], #[trigger] tokens@[k], id) by {
                    if k < fs.len() {
                        assert(tokens@[k] == old_tokens[k]);
                        assert(nfs[k] == fs[k]);
                    }
                }
            } else {
                let e = old_error->0;
                let k = choose|k: int|
                    0 <= k < fs.len() && refused_at(fs, k) && (forall|j: int| k < j < fs.len() ==> !refused_at(fs, j))
                        && error_for(#[trigger] fs[k], e, id);
                assert(nfs[k] == fs[k]);
                assert(refused_at(nfs, k));
            }
        }
    }
}


/// The scanner's place in the source (see `ScanState`).
struct Scanner {
    i: usize,
    line: usize,
    column: Option<usize>,
    tab: bool,
    word: Vec<char>,
    word_start: Option<usize>,
}

impl Scanner {
    spec fn view(&self) -> ScanState {
        ScanState {
            i: self.i as int,
            line: self.line as int,
            column: column_int(self.column),
            tab: self.tab,
            word: self.word@,
            word_start: column_int(self.word_start),
        }
    }

    /// Lines and columns count at most one per character read.
    spec fn bounded(&self, n: int) -> bool {
        &&& self.i <= n
        &&& 1 <= self.line <= self.i + 1
        &&& self.column matches Some(c) ==> 1 <= c <= self.i + 1
        &&& self.word_start matches Some(c) ==> c <= self.i + 1
    }
}

/// Hands on the word being gathered, if any, and starts a new one.
fn flush_token(
    sc: &mut Scanner,
    tokens: &mut Vec<PengPositionedToken>,
    error: &mut Option<PengError>,
    Ghost(fs): Ghost<Seq<Found>>,
    id: usize,
)
    requires
        outcome(fs, old(tokens)@, *old(error), id),
    ensures
        outcome(fs + flush(old(sc).view()), final(tokens)@, *final(error), id),
        final(sc).view() == (ScanState { word: Seq::empty(), ..old(sc).view() }),
        final(sc).i == old(sc).i,
        final(sc).line == old(sc).line,
        final(sc).column == old(sc).column,
        final(sc).word_start == old(sc).word_start,
{
    if sc.word.len() > 0 {
        let n = sc.word.len();
        let text = string_of(&sc.word, 0, n);
        assert(sc.word@.subrange(0, n as int) =~= sc.word@);
        let column = if sc.tab {
            None
        } else {
            sc.word_start
        };
        deliver(tokens, error, Ghost(fs), true, text, sc.line, column, id);
        proof {
            let f = Found { word: true, text: sc.word@, line: sc.line as int, column: column_int(column) };
            assert(fs + flush(sc.view()) =~= fs.push(f));
        }
        sc.word = Vec::new();
    } else {
        assert(fs + flush(sc.view()) =~= fs);
    }
    assert(sc.word@ =~= Seq::<char>::empty());
    assert(sc.view() =~= (ScanState { word: Seq::empty(), ..old(sc).view() }));
}


/// One step of the scanner (see `step`), handing on what it finds.
#[verifier::rlimit(80)]
#[verifier::spinoff_prover]
fn scan_step(
    src: &Vec<char>,
    sc: &mut Scanner,
    tokens: &mut Vec<PengPositionedToken>,
    error: &mut Option<PengError>,
    Ghost(fs): Ghost<Seq<Found>>,
    id: usize,
)
    requires
        src@.len() < usize::MAX,
        old(sc).i < src@.len(),
        old(sc).bounded(src@.len() as int),
        outcome(fs, old(tokens)@, *old(error), id),
    ensures
        final(sc).bounded(src@.len() as int),
        final(sc).view() == step(src@, old(sc).view()).1,
        outcome(fs + step(src@, old(sc).view()).0, final(tokens)@, *final(error), id),
{
    let ghost st0 = sc.view();
    if sc.word.len() == 0 {
        sc.word_start = sc.column;
    }
    let ghost st = sc.view();
    assert(st == (if st0.word.len() == 0 {
        ScanState { word_start: st0.column, ..st0 }
    } else {
        st0
    }));
    let i = sc.i;
    let ch = src[i];
    if ch == '\t' {
        sc.column = None;
        sc.tab = true;
        sc.i = i + 1;
        assert(fs + Seq::<Found>::empty() =~= fs);
        return;
    }
    if ch == '\n' {
        flush_token(sc, tokens, error, Ghost(fs), id);
        sc.word_start = Some(1);
        sc.line = sc.line + 1;
        sc.column = Some(1);
        sc.tab = false;
        sc.i = i + 1;
        return;
    }
    if ch == ' ' {
        flush_token(sc, tokens, error, Ghost(fs), id);
        sc.word_start = sc.column;
        sc.column = bump_col(sc.column, 1);
        sc.i = i + 1;
        return;
    }
    if starts_with_at(src, i, "//") {
        proof {
            reveal_strlit("//");
        }
        flush_token(sc, tokens, error, Ghost(fs), id);
        sc.word_start = sc.column;
        let c2 = bump_col(sc.column, 2);
        let (j, l, c, t) = skip_line_comment(src, i + 2, sc.line, c2, sc.tab);
        sc.i = j;
        sc.line = l;
        sc.column = c;
        sc.tab = t;
        return;
    }
    if starts_with_at(src, i, "/*") {
        proof {
            reveal_strlit("/*");
            lemma_comment_end_bounds(src@, i + 2);
        }
        flush_token(sc, tokens, error, Ghost(fs), id);
        sc.word_start = sc.column;
        let e = comment_end_at(src, i + 2);
        let (l, c, t) = advance_position_by_str(src, i, e, sc.line, sc.column, sc.tab);
        sc.i = e;
        sc.line = l;
        sc.column = c;
        sc.tab = t;
        return;
    }
    match find_separator_at(src, i) {
        Some((open, close)) => {
            proof {
                lemma_separator(src@, i as int);
            }
            let line0 = sc.line;
            let col0 = if sc.tab {
                None
            } else {
                sc.column
            };
            flush_token(sc, tokens, error, Ghost(fs), id);
            sc.word_start = sc.column;
            let open_len = open.unicode_len();
            let close_len = close.unicode_len();
            proof {
                lemma_closing_end_bounds(src@, i + open_len, close@, false);
            }
            let (end, inner_end) = match read_delimited_end(src, i + open_len, close) {
                Some(e) => (e, e - close_len),
                None => (src.len(), src.len()),
            };
            let (l, c, t) = advance_position_by_str(src, i, end, sc.line, sc.column, sc.tab);
            let content = strip_quotes_of(unescape_string(src, i + open_len, inner_end));
            let n = content.len();
            let text = string_of(&content, 0, n);
            assert(content@.subrange(0, n as int) =~= content@);
            deliver(tokens, error, Ghost(fs + flush(st)), false, text, line0, col0, id);
            sc.i = end;
            sc.line = l;
            sc.column = c;
            sc.tab = t;
            return;
        },
        None => {},
    }
    if sc.word.len() == 0 {
        let k = read_number_at(src, i);
        if k > 0 {
            proof {
                lemma_number_len_bounds(src@, i as int);
            }
            let text = string_of(src, i, i + k);
            let col0 = if sc.tab {
                None
            } else {
                sc.column
            };
            deliver(tokens, error, Ghost(fs), true, text, sc.line, col0, id);
            proof {
                let f = Found { word: true, text: src@.subrange(i as int, i + k), line: sc.line as int, column: column_int(col0) };
                assert(fs + seq![f] =~= fs.push(f));
            }
            sc.i = i + k;
            sc.column = bump_col(sc.column, k);
            return;
        }
    }
    match find_special_at(src, i) {
        Some(tok) => {
            proof {
                lemma_special_len(src@, i as int);
            }
            let line0 = sc.line;
            let col0 = if sc.tab {
                None
            } else {
                sc.column
            };
            flush_token(sc, tokens, error, Ghost(fs), id);
            sc.word_start = sc.column;
            let n = tok.unicode_len();
            let text = String::from_str(tok);
            deliver(tokens, error, Ghost(fs + flush(st)), true, text, line0, col0, id);
            sc.i = i + n;
            sc.column = bump_col(sc.column, n);
            return;
        },
        None => {},
    }
    sc.word.push(ch);
    sc.column = bump_col(sc.column, 1);
    sc.i = i + 1;
    assert(fs + Seq::<Found>::empty() =~= fs);
}


/// `s` without its carriage returns.
pub open spec fn without_cr(s: Seq<char>) -> Seq<char>
    decreases s.len(),
{
    if s.len() == 0 {
        s
    } else if s.last() == '\r' {
        without_cr(s.drop_last())
    } else {
        without_cr(s.drop_last()).push(s.last())
    }
}

/// `res` is what lexing `src`, the source numbered `id`, gives: the tokens of all the
/// pieces the scanner finds, each at its line and column, when every word reads as a
/// token; otherwise the error of the last word that starts like a number but is not
/// one, at its position.
pub open spec fn lexes_to(src: Seq<char>, id: usize, res: Result<Vec<PengPositionedToken>, PengError>) -> bool {
    match res {
        Ok(tokens) => outcome(scan(src), tokens@, None, id),
        Err(e) => outcome(scan(src), Seq::empty(), Some(e), id),
    }
}

/// Splits a source that stands on its own into tokens, their positions numbered 0.
pub fn lex_source(source: String) -> (res: Result<Vec<PengPositionedToken>, PengError>)
    requires
        source@.len() < usize::MAX,
    ensures
        lexes_to(without_cr(source@), 0, res),
{
    lex_file_source(source, 0)
}

/// Splits the contents of the file numbered `file_id` into tokens (see `lexes_to`).
/// Carriage returns are ignored; a tab on a line makes the columns of what follows on it
/// unknown.
pub fn lex_file_source(source: String, file_id: usize) -> (res: Result<Vec<PengPositionedToken>, PengError>)
    requires
        source@.len() < usize::MAX,
    ensures
        lexes_to(without_cr(source@), file_id, res),
{
    let id = file_id;
    let chars = chars_of(source.as_str());
    let mut src: Vec<char> = Vec::new();
    let mut k: usize = 0;
    while k < chars.len()
        invariant
            k <= chars@.len(),
            src@ == without_cr(chars@.take(k as int)),
            src@.len() <= k,
        decreases chars@.len() - k,
    {
        assert(chars@.take(k + 1).drop_last() =~= chars@.take(k as int));
        if chars[k] != '\r' {
            src.push(chars[k]);
        }
        k = k + 1;
    }
    assert(chars@.take(k as int) =~= chars@);
    let mut sc = Scanner { i: 0, line: 1, column: Some(1), tab: false, word: Vec::new(), word_start: Some(1) };
    let mut tokens: Vec<PengPositionedToken> = Vec::new();
    let mut error: Option<PengError> = None;
    let ghost mut fs: Seq<Found> = Seq::empty();
    assert(sc.view() =~= scan_start());
    assert(fs + scan_from(src@, sc.view()) =~= scan(src@));
    while sc.i < src.len()
        invariant
            src@.len() < usize::MAX,
            sc.bounded(src@.len() as int),
            outcome(fs, tokens@, error, id),
            fs + scan_from(src@, sc.view()) == scan(src@),
        decreases src@.len() - sc.i,
    {
        let ghost before = sc.view();
        proof {
            lemma_step_advances(src@, before);
        }
        scan_step(&src, &mut sc, &mut tokens, &mut error, Ghost(fs), id);
        proof {
            let found = step(src@, before).0;
            assert(scan_from(src@, before) == found + scan_from(src@, sc.view()));
            assert(fs + scan_from(src@, before) =~= (fs + found) + scan_from(src@, sc.view()));
            fs = fs + found;
        }
    }
    let ghost last = sc.view();
    flush_token(&mut sc, &mut tokens, &mut error, Ghost(fs), id);
    proof {
        assert(scan_from(src@, last) == flush(last));
        fs = fs + flush(last);
    }
    match error {
        Some(e) => Err(e),
        None => Ok(tokens),
    }
}

} // verus!
