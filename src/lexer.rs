//! The lexer: source text to tokens, with indentation turned into explicit
//! block-start and block-end markers.

use vstd::prelude::*;
use vstd::string::StrSliceExecFns;
use vstd::std_specs::iter::IteratorSpec;
use crate::number::Num;

verus! {

/// A token. `Symbol` is a word of the alternate notation.
#[derive(Debug, Clone, PartialEq)]
pub enum TokenType {
    Identifier(String),
    Number(Num),
    String(String),
    Operator(String),
    Keyword(String),
    Symbol(String),
    Newline,
    Indent,
    Dedent,
    EOF,
}

/// The mathematical model of a token.
pub enum TokenV {
    Identifier(Seq<char>),
    Number(Num),
    Str(Seq<char>),
    Operator(Seq<char>),
    Keyword(Seq<char>),
    Symbol(Seq<char>),
    Newline,
    Indent,
    Dedent,
    EOF,
}

impl View for TokenType {
    type V = TokenV;

    open spec fn view(&self) -> TokenV {
        match self {
            TokenType::Identifier(s) => TokenV::Identifier(s@),
            TokenType::Number(n) => TokenV::Number(*n),
            TokenType::String(s) => TokenV::Str(s@),
            TokenType::Operator(s) => TokenV::Operator(s@),
            TokenType::Keyword(s) => TokenV::Keyword(s@),
            TokenType::Symbol(s) => TokenV::Symbol(s@),
            TokenType::Newline => TokenV::Newline,
            TokenType::Indent => TokenV::Indent,
            TokenType::Dedent => TokenV::Dedent,
            TokenType::EOF => TokenV::EOF,
        }
    }
}

pub open spec fn tokens_view(ts: Seq<TokenType>) -> Seq<TokenV> {
    ts.map_values(|t: TokenType| t@)
}

/// Why the source text has no token sequence.
#[derive(Debug, Clone, Copy, PartialEq, Eq, Structural)]
pub enum LexError {
    UnterminatedString,
    UnexpectedCharacter(char),
    MalformedNumber,
    NumberOutOfRange,
    InconsistentIndentation,
}

/// What `char::is_alphabetic` says of a character.
pub uninterp spec fn alphabetic_char(c: char) -> bool;

/// What `char::is_alphanumeric` says of a character.
pub uninterp spec fn alphanumeric_char(c: char) -> bool;

/// Relies on `char::is_alphabetic`.
#[verifier::external_body]
fn std_is_alphabetic(c: char) -> (r: bool)
    ensures
        r == alphabetic_char(c),
{
    c.is_alphabetic()
}

/// Relies on `char::is_alphanumeric`.
#[verifier::external_body]
fn std_is_alphanumeric(c: char) -> (r: bool)
    ensures
        r == alphanumeric_char(c),
{
    c.is_alphanumeric()
}

/// The characters of the text, in order.
fn chars_of(s: &str) -> (r: Vec<char>)
    ensures
        r@ == s@,
{
    broadcast use vstd::string::group_string_axioms;

    let mut it = s.chars();
    let mut out: Vec<char> = Vec::new();
    loop
        invariant
            it.obeys_prophetic_iter_laws(),
            it.decrease() is Some,
            out@ + it.remaining() == s@,
        decreases it.decrease()->0,
    {
        match it.next() {
            Some(c) => {
                let ghost rest = it.remaining();
                out.push(c);
                assert(out@ + rest =~= s@);
            },
            None => {
                assert(out@ =~= s@);
                return out;
            },
        }
    }
}

/// Relies on collecting characters into a `String`: the string holds exactly
/// the characters `cs[start..end]`.
#[verifier::external_body]
fn string_of(cs: &Vec<char>, start: usize, end: usize) -> (r: String)
    requires
        start <= end <= cs@.len(),
    ensures
        r@ == cs@.subrange(start as int, end as int),
{
    cs[start..end].iter().collect()
}

pub open spec fn is_ascii_char(c: char) -> bool {
    (c as u32) < 128
}

pub open spec fn ascii_letter(c: char) -> bool {
    ('a' <= c && c <= 'z') || ('A' <= c && c <= 'Z')
}

pub open spec fn digit_char(c: char) -> bool {
    '0' <= c && c <= '9'
}

/// Whitespace: the characters with the Unicode `White_Space` property.
pub open spec fn space_char(c: char) -> bool {
    c == ' ' || ('\t' <= c && c <= '\r') || c == '\u{85}' || c == '\u{A0}' || c == '\u{1680}' || (
    '\u{2000}' <= c && c <= '\u{200A}') || c == '\u{2028}' || c == '\u{2029}' || c == '\u{202F}'
        || c == '\u{205F}' || c == '\u{3000}'
}

/// A character that may start an identifier.
pub open spec fn ident_start(c: char) -> bool {
    c == '_' || c >= '\u{600}' || if is_ascii_char(c) {
        ascii_letter(c)
    } else {
        alphabetic_char(c)
    }
}

/// A character that may continue an identifier.
pub open spec fn ident_char(c: char) -> bool {
    c == '_' || c >= '\u{600}' || if is_ascii_char(c) {
        ascii_letter(c) || digit_char(c)
    } else {
        alphanumeric_char(c)
    }
}

pub open spec fn number_char(c: char) -> bool {
    digit_char(c) || c == '.'
}

pub open spec fn operator_char(c: char) -> bool {
    c == '+' || c == '-' || c == '*' || c == '/' || c == '%' || c == '=' || c == '!' || c
        == '<' || c == '>' || c == '&' || c == '|' || c == '^' || c == ':' || c == ',' || c
        == ';' || c == '.' || c == '(' || c == ')' || c == '{' || c == '}' || c == '[' || c
        == ']'
}

/// The classes of characters that the scanners run over.
#[derive(Clone, Copy)]
pub enum CharClass {
    Ident,
    Numeral,
    NotNewline,
    Space,
    NotQuote(char),
}

pub open spec fn in_class(k: CharClass, c: char) -> bool {
    match k {
        CharClass::Ident => ident_char(c),
        CharClass::Numeral => number_char(c),
        CharClass::NotNewline => c != '\n',
        CharClass::Space => c == ' ',
        CharClass::NotQuote(q) => c != q,
    }
}

/// The first index from `i` on whose character is not in class `p`, or the length.
pub open spec fn scan_while(s: Seq<char>, i: int, p: CharClass) -> int
    decreases s.len() - i,
{
    if 0 <= i < s.len() && in_class(p, s[i]) {
        scan_while(s, i + 1, p)
    } else {
        i
    }
}

pub open spec fn ident_end(s: Seq<char>, i: int) -> int {
    scan_while(s, i, CharClass::Ident)
}

pub open spec fn number_end(s: Seq<char>, i: int) -> int {
    scan_while(s, i, CharClass::Numeral)
}

pub open spec fn line_end(s: Seq<char>, i: int) -> int {
    scan_while(s, i, CharClass::NotNewline)
}

pub open spec fn spaces_end(s: Seq<char>, i: int) -> int {
    scan_while(s, i, CharClass::Space)
}

pub open spec fn quote_end(s: Seq<char>, i: int, q: char) -> int {
    scan_while(s, i, CharClass::NotQuote(q))
}

pub proof fn lemma_scan_bounds(s: Seq<char>, i: int, p: CharClass)
    requires
        0 <= i <= s.len(),
    ensures
        i <= scan_while(s, i, p) <= s.len(),
        forall|k: int| i <= k < scan_while(s, i, p) ==> in_class(p, s[k]),
        scan_while(s, i, p) < s.len() ==> !in_class(p, s[scan_while(s, i, p)]),
    decreases s.len() - i,
{
    if i < s.len() && in_class(p, s[i]) {
        lemma_scan_bounds(s, i + 1, p);
    }
}

proof fn lemma_scan_all(s: Seq<char>, i: int, p: CharClass)
    requires
        0 <= i <= s.len(),
        forall|k: int| i <= k < s.len() ==> in_class(p, s[k]),
    ensures
        scan_while(s, i, p) == s.len(),
    decreases s.len() - i,
{
    if i < s.len() {
        lemma_scan_all(s, i + 1, p);
    }
}

/// The reserved words.
pub open spec fn keywords() -> Seq<&'static str> {
    seq![
        "if", "else", "for", "while", "def", "class", "return", "import", "from", "async",
        "await", "try", "except", "finally", "raise", "yield", "main",
    ]
}

/// The words of the alternate notation.
pub open spec fn symbols() -> Seq<&'static str> {
    seq![
        "\u{FDFD}", "\u{262A}", "\u{262D}", "\u{6E9}", "\u{644}\u{64E}\u{627}",
        "\u{625}\u{650}\u{644}\u{64E}\u{670}\u{647}\u{64E}", "\u{625}\u{650}\u{644}\u{64E}\u{651}\u{627}",
        "\u{671}\u{644}\u{644}\u{64E}\u{651}\u{670}\u{647}\u{650}", "\u{2661}", "\u{6DD}",
        "\u{671}\u{644}\u{633}\u{64E}\u{651}\u{644}\u{64E}\u{627}\u{645}\u{64F}",
        "\u{639}\u{64E}\u{644}\u{64E}\u{64A}\u{652}\u{643}\u{64F}\u{645}\u{652}", "\u{1F54C}",
        "\u{1F54B}", "\u{1F4FF}", "\u{1F319}",
    ]
}

pub open spec fn in_table(table: Seq<&'static str>, w: Seq<char>) -> bool {
    exists|i: int| 0 <= i < table.len() && table[i]@ == w
}

/// The token of a scanned word: a keyword, a symbol, or an identifier.
pub open spec fn classify(w: Seq<char>) -> TokenV {
    if in_table(keywords(), w) {
        TokenV::Keyword(w)
    } else if in_table(symbols(), w) {
        TokenV::Symbol(w)
    } else {
        TokenV::Identifier(w)
    }
}

pub open spec fn dot_count(t: Seq<char>) -> nat
    decreases t.len(),
{
    if t.len() == 0 {
        0
    } else {
        dot_count(t.drop_last()) + if t.last() == '.' {
            1nat
        } else {
            0nat
        }
    }
}

/// The digits of a numeral read as one integer, the decimal point left out.
pub open spec fn mantissa(t: Seq<char>) -> int
    decreases t.len(),
{
    if t.len() == 0 {
        0
    } else if t.last() == '.' {
        mantissa(t.drop_last())
    } else {
        mantissa(t.drop_last()) * 10 + (t.last() as int - '0' as int)
    }
}

/// How many digits follow the decimal point.
pub open spec fn frac_digits(t: Seq<char>) -> nat
    decreases t.len(),
{
    if t.len() == 0 {
        0
    } else if t.last() == '.' {
        0
    } else if dot_count(t.drop_last()) > 0 {
        frac_digits(t.drop_last()) + 1
    } else {
        0
    }
}

pub open spec fn pow10(n: nat) -> int
    decreases n,
{
    if n == 0 {
        1
    } else {
        10 * pow10((n - 1) as nat)
    }
}

/// The value of a numeral of digits and decimal points.
pub open spec fn number_value(t: Seq<char>) -> Result<Num, LexError> {
    if dot_count(t) > 1 {
        Err(LexError::MalformedNumber)
    } else if mantissa(t) <= i64::MAX && pow10(frac_digits(t)) <= i64::MAX {
        Ok(Num { num: mantissa(t) as i64, den: pow10(frac_digits(t)) as i64 })
    } else {
        Err(LexError::NumberOutOfRange)
    }
}

pub open spec fn stack_top(stack: Seq<usize>) -> usize {
    if stack.len() == 0 {
        0
    } else {
        stack.last()
    }
}

/// The indentation stack with every width above `w` popped.
pub open spec fn dedent_to(stack: Seq<usize>, w: usize) -> Seq<usize>
    decreases stack.len(),
{
    if stack.len() > 0 && stack.last() > w {
        dedent_to(stack.drop_last(), w)
    } else {
        stack
    }
}

pub open spec fn repeat(t: TokenV, n: nat) -> Seq<TokenV> {
    Seq::new(n, |i: int| t)
}

/// The new indentation stack and the markers for a line indented by `w` spaces.
pub open spec fn indent_step(stack: Seq<usize>, w: usize) -> Result<
    (Seq<usize>, Seq<TokenV>),
    LexError,
> {
    if w > stack_top(stack) {
        Ok((stack.push(w), seq![TokenV::Indent]))
    } else {
        let st = dedent_to(stack, w);
        if stack_top(st) == w {
            Ok((st, repeat(TokenV::Dedent, (stack.len() - st.len()) as nat)))
        } else {
            Err(LexError::InconsistentIndentation)
        }
    }
}

/// Lexes `s` from index `pos`, with the indentation stack `stack` and the
/// tokens `toks` produced so far.
pub open spec fn lex_from(s: Seq<char>, pos: int, stack: Seq<usize>, toks: Seq<TokenV>) -> Result<
    Seq<TokenV>,
    LexError,
>
    decreases s.len() - pos,
    via lex_from_decreases
{
    if pos < 0 || pos >= s.len() {
        Ok(toks + repeat(TokenV::Dedent, stack.len()) + seq![TokenV::EOF])
    } else {
        let c = s[pos];
        if c == '\n' {
            let e = spaces_end(s, pos + 1);
            match indent_step(stack, (e - (pos + 1)) as usize) {
                Ok((st, marks)) => lex_from(s, e, st, toks.push(TokenV::Newline) + marks),
                Err(err) => Err(err),
            }
        } else if space_char(c) {
            lex_from(s, pos + 1, stack, toks)
        } else if ident_start(c) {
            let e = ident_end(s, pos + 1);
            lex_from(s, e, stack, toks.push(classify(s.subrange(pos, e))))
        } else if digit_char(c) {
            let e = number_end(s, pos + 1);
            match number_value(s.subrange(pos, e)) {
                Ok(n) => lex_from(s, e, stack, toks.push(TokenV::Number(n))),
                Err(err) => Err(err),
            }
        } else if c == '"' || c == '\'' {
            let e = quote_end(s, pos + 1, c);
            if e < s.len() {
                lex_from(s, e + 1, stack, toks.push(TokenV::Str(s.subrange(pos + 1, e))))
            } else {
                Err(LexError::UnterminatedString)
            }
        } else if c == '#' {
            lex_from(s, line_end(s, pos + 1), stack, toks)
        } else if operator_char(c) {
            lex_from(s, pos + 1, stack, toks.push(TokenV::Operator(seq![c])))
        } else {
            Err(LexError::UnexpectedCharacter(c))
        }
    }
}

#[via_fn]
proof fn lex_from_decreases(s: Seq<char>, pos: int, stack: Seq<usize>, toks: Seq<TokenV>) {
    if 0 <= pos < s.len() {
        let c = s[pos];
        lemma_scan_bounds(s, pos + 1, CharClass::Space);
        lemma_scan_bounds(s, pos + 1, CharClass::Ident);
        lemma_scan_bounds(s, pos + 1, CharClass::Numeral);
        lemma_scan_bounds(s, pos + 1, CharClass::NotQuote(c));
        lemma_scan_bounds(s, pos + 1, CharClass::NotNewline);
    }
}

/// The tokens of the source text `s`.
pub open spec fn lex(s: Seq<char>) -> Result<Seq<TokenV>, LexError> {
    lex_from(s, 0, seq![], seq![])
}

fn is_space(c: char) -> (r: bool)
    ensures
        r == space_char(c),
{
    c == ' ' || ('\t' <= c && c <= '\r') || c == '\u{85}' || c == '\u{A0}' || c == '\u{1680}' || (
    '\u{2000}' <= c && c <= '\u{200A}') || c == '\u{2028}' || c == '\u{2029}' || c == '\u{202F}'
        || c == '\u{205F}' || c == '\u{3000}'
}

fn is_ident_start(c: char) -> (r: bool)
    ensures
        r == ident_start(c),
{
    if c == '_' || c >= '\u{600}' {
        true
    } else if (c as u32) < 128 {
        ('a' <= c && c <= 'z') || ('A' <= c && c <= 'Z')
    } else {
        std_is_alphabetic(c)
    }
}

fn is_ident_char(c: char) -> (r: bool)
    ensures
        r == ident_char(c),
{
    if c == '_' || c >= '\u{600}' {
        true
    } else if (c as u32) < 128 {
        ('a' <= c && c <= 'z') || ('A' <= c && c <= 'Z') || ('0' <= c && c <= '9')
    } else {
        std_is_alphanumeric(c)
    }
}

fn is_operator(c: char) -> (r: bool)
    ensures
        r == operator_char(c),
{
    c == '+' || c == '-' || c == '*' || c == '/' || c == '%' || c == '=' || c == '!' || c
        == '<' || c == '>' || c == '&' || c == '|' || c == '^' || c == ':' || c == ',' || c
        == ';' || c == '.' || c == '(' || c == ')' || c == '{' || c == '}' || c == '[' || c
        == ']'
}

fn class_has(k: CharClass, c: char) -> (r: bool)
    ensures
        r == in_class(k, c),
{
    match k {
        CharClass::Ident => is_ident_char(c),
        CharClass::Numeral => ('0' <= c && c <= '9') || c == '.',
        CharClass::NotNewline => c != '\n',
        CharClass::Space => c == ' ',
        CharClass::NotQuote(q) => c != q,
    }
}

/// The first index from `i` on whose character is not in class `k`.
fn scan(cs: &Vec<char>, i: usize, k: CharClass) -> (r: usize)
    requires
        i <= cs@.len(),
    ensures
        r as int == scan_while(cs@, i as int, k),
        i <= r <= cs@.len(),
{
    let mut j = i;
    while j < cs.len() && class_has(k, cs[j])
        invariant
            i <= j <= cs@.len(),
            scan_while(cs@, i as int, k) == scan_while(cs@, j as int, k),
        decreases cs@.len() - j,
    {
        j += 1;
    }
    j
}

/// Whether `cs[start..end]` spells `word`.
fn spells(cs: &Vec<char>, start: usize, end: usize, word: &str) -> (r: bool)
    requires
        start <= end <= cs@.len(),
    ensures
        r == (cs@.subrange(start as int, end as int) == word@),
{
    let n = word.unicode_len();
    if n != end - start {
        return false;
    }
    let mut k: usize = 0;
    while k < n
        invariant
            k <= n,
            n == end - start,
            n == word@.len(),
            end <= cs@.len(),
            forall|j: int| 0 <= j < k ==> cs@[start + j] == word@[j],
        decreases n - k,
    {
        if cs[start + k] != word.get_char(k) {
            assert(cs@.subrange(start as int, end as int)[k as int] != word@[k as int]);
            return false;
        }
        k += 1;
    }
    assert(cs@.subrange(start as int, end as int) =~= word@);
    true
}

fn keyword_table() -> (r: Vec<&'static str>)
    ensures
        r@ == keywords(),
{
    let r = vec![
        "if", "else", "for", "while", "def", "class", "return", "import", "from", "async",
        "await", "try", "except", "finally", "raise", "yield", "main",
    ];
    assert(r@ =~= keywords());
    r
}

fn symbol_table() -> (r: Vec<&'static str>)
    ensures
        r@ == symbols(),
{
    let r = vec![
        "\u{FDFD}", "\u{262A}", "\u{262D}", "\u{6E9}", "\u{644}\u{64E}\u{627}",
        "\u{625}\u{650}\u{644}\u{64E}\u{670}\u{647}\u{64E}", "\u{625}\u{650}\u{644}\u{64E}\u{651}\u{627}",
        "\u{671}\u{644}\u{644}\u{64E}\u{651}\u{670}\u{647}\u{650}", "\u{2661}", "\u{6DD}",
        "\u{671}\u{644}\u{633}\u{64E}\u{651}\u{644}\u{64E}\u{627}\u{645}\u{64F}",
        "\u{639}\u{64E}\u{644}\u{64E}\u{64A}\u{652}\u{643}\u{64F}\u{645}\u{652}", "\u{1F54C}",
        "\u{1F54B}", "\u{1F4FF}", "\u{1F319}",
    ];
    assert(r@ =~= symbols());
    r
}

/// Whether `cs[start..end]` is one of the words of `table`.
fn in_table_exec(cs: &Vec<char>, start: usize, end: usize, table: &Vec<&'static str>) -> (r: bool)
    requires
        start <= end <= cs@.len(),
    ensures
        r == in_table(table@, cs@.subrange(start as int, end as int)),
{
    let mut i: usize = 0;
    while i < table.len()
        invariant
            i <= table@.len(),
            start <= end <= cs@.len(),
            forall|j: int| 0 <= j < i ==> table@[j]@ != cs@.subrange(start as int, end as int),
        decreases table@.len() - i,
    {
        if spells(cs, start, end, table[i]) {
            return true;
        }
        i += 1;
    }
    false
}

/// The token for the word `cs[start..end]`.
fn word_token(cs: &Vec<char>, start: usize, end: usize) -> (r: TokenType)
    requires
        start <= end <= cs@.len(),
    ensures
        r@ == classify(cs@.subrange(start as int, end as int)),
{
    let text = string_of(cs, start, end);
    if in_table_exec(cs, start, end, &keyword_table()) {
        TokenType::Keyword(text)
    } else if in_table_exec(cs, start, end, &symbol_table()) {
        TokenType::Symbol(text)
    } else {
        TokenType::Identifier(text)
    }
}

proof fn lemma_mantissa_grows(t: Seq<char>, c: char)
    requires
        digit_char(c),
        mantissa(t) >= 0,
    ensures
        mantissa(t.push(c)) == mantissa(t) * 10 + (c as int - '0' as int),
        mantissa(t.push(c)) >= mantissa(t),
{
    assert(t.push(c).drop_last() =~= t);
}

/// The value of the numeral `cs[start..end]`, made of digits and decimal points.
fn numeral_value(cs: &Vec<char>, start: usize, end: usize) -> (r: Result<Num, LexError>)
    requires
        start <= end <= cs@.len(),
        forall|k: int| start <= k < end ==> number_char(cs@[k]),
    ensures
        r == number_value(cs@.subrange(start as int, end as int)),
{
    let ghost t = cs@.subrange(start as int, end as int);
    let mut dots: usize = 0;
    let mut m: i64 = 0;
    let mut m_over = false;
    let mut d: i64 = 1;
    let mut d_over = false;
    let mut k: usize = start;
    while k < end
        invariant
            start <= k <= end <= cs@.len(),
            t == cs@.subrange(start as int, end as int),
            forall|j: int| start <= j < end ==> number_char(cs@[j]),
            dots as int == dot_count(cs@.subrange(start as int, k as int)),
            dots <= k - start,
            mantissa(cs@.subrange(start as int, k as int)) >= 0,
            pow10(frac_digits(cs@.subrange(start as int, k as int))) >= 1,
            !m_over ==> m as int == mantissa(cs@.subrange(start as int, k as int)),
            m_over ==> mantissa(cs@.subrange(start as int, k as int)) > i64::MAX,
            m >= 0,
            dots <= 1 ==> (!d_over ==> d as int == pow10(frac_digits(cs@.subrange(start as int, k as int)))),
            dots <= 1 ==> (d_over ==> pow10(frac_digits(cs@.subrange(start as int, k as int))) > i64::MAX),
            d >= 1,
        decreases end - k,
    {
        let ghost pre = cs@.subrange(start as int, k as int);
        let c = cs[k];
        assert(cs@.subrange(start as int, k + 1) =~= pre.push(c));
        assert(pre.push(c).drop_last() =~= pre);
        assert(pre.push(c).last() == c);
        if c == '.' {
            dots += 1;
            assert(frac_digits(pre.push(c)) == 0);
            if dots <= 1 {
                d = 1;
                d_over = false;
            }
        } else {
            let v = (c as u32 - '0' as u32) as i64;
            proof {
                lemma_mantissa_grows(pre, c);
            }
            if m_over || m > (i64::MAX - v) / 10 {
                proof {
                    if !m_over {
                        assert(m * 10 + v > i64::MAX) by (nonlinear_arith)
                            requires
                                m > (i64::MAX - v) / 10,
                                0 <= v <= 9,
                        ;
                    }
                }
                m_over = true;
            } else {
                proof {
                    assert(m * 10 + v <= i64::MAX) by (nonlinear_arith)
                        requires
                            0 <= m <= (i64::MAX - v) / 10,
                            0 <= v <= 9,
                    ;
                }
                m = m * 10 + v;
            }
            if dots > 0 {
                assert(frac_digits(pre.push(c)) == frac_digits(pre) + 1);
                if d_over || d > i64::MAX / 10 {
                    d_over = true;
                } else {
                    d = d * 10;
                }
            } else {
                assert(frac_digits(pre.push(c)) == 0);
            }
        }
        k += 1;
    }
    assert(cs@.subrange(start as int, end as int) == t);
    if dots > 1 {
        Err(LexError::MalformedNumber)
    } else if m_over || d_over {
        Err(LexError::NumberOutOfRange)
    } else {
        Ok(Num { num: m, den: d })
    }
}

/// Pops the indentation stack down to width `w` and appends the markers.
fn apply_indent(stack: &mut Vec<usize>, tokens: &mut Vec<TokenType>, w: usize) -> (r: Result<(), LexError>)
    ensures
        match indent_step(old(stack)@, w) {
            Ok((st, marks)) => r is Ok && final(stack)@ == st && tokens_view(final(tokens)@)
                == tokens_view(old(tokens)@) + marks,
            Err(e) => r == Err::<(), LexError>(e),
        },
{
    let top: usize = if stack.len() == 0 {
        0
    } else {
        stack[stack.len() - 1]
    };
    if w > top {
        stack.push(w);
        tokens.push(TokenType::Indent);
        assert(tokens_view(tokens@) =~= tokens_view(old(tokens)@) + seq![TokenV::Indent]);
        return Ok(());
    }
    let ghost st0 = stack@;
    let ghost tk0 = tokens_view(tokens@);
    while stack.len() > 0 && stack[stack.len() - 1] > w
        invariant
            dedent_to(stack@, w) == dedent_to(st0, w),
            stack@.len() <= st0.len(),
            st0 == old(stack)@,
            tk0 == tokens_view(old(tokens)@),
            tokens_view(tokens@) == tk0 + repeat(TokenV::Dedent, (st0.len() - stack@.len()) as nat),
        decreases stack@.len(),
    {
        let ghost pre = stack@;
        stack.pop();
        assert(stack@ =~= pre.drop_last());
        let ghost tpre = tokens_view(tokens@);
        tokens.push(TokenType::Dedent);
        assert(tokens_view(tokens@) =~= tpre.push(TokenV::Dedent));
        assert(tk0 + repeat(TokenV::Dedent, (st0.len() - stack@.len()) as nat) =~= (tk0 + repeat(
            TokenV::Dedent,
            (st0.len() - pre.len()) as nat,
        )).push(TokenV::Dedent));
    }
    assert(dedent_to(stack@, w) == stack@);
    let now: usize = if stack.len() == 0 {
        0
    } else {
        stack[stack.len() - 1]
    };
    if now == w {
        Ok(())
    } else {
        Err(LexError::InconsistentIndentation)
    }
}

/// Turns source text into tokens.
pub struct Lexer {
    pub input: Vec<char>,
    pub tokens: Vec<TokenType>,
}

impl Lexer {
    /// The characters of the source text.
    pub open spec fn source(&self) -> Seq<char> {
        self.input@
    }

    pub fn new(input: &str) -> (r: Lexer)
        ensures
            r.source() == input@,
            r.tokens@.len() == 0,
    {
        Lexer { input: chars_of(input), tokens: Vec::new() }
    }

    /// Replaces `tokens` by the tokens of the source text, ending with `EOF`.
    pub fn tokenize(&mut self) -> (r: Result<(), LexError>)
        ensures
            final(self).source() == old(self).source(),
            match lex(old(self).source()) {
                Ok(ts) => r is Ok && tokens_view(final(self).tokens@) == ts,
                Err(e) => r == Err::<(), LexError>(e),
            },
    {
        let ghost s = self.input@;
        let mut tokens: Vec<TokenType> = Vec::new();
        let mut stack: Vec<usize> = Vec::new();
        let mut pos: usize = 0;
        assert(tokens_view(tokens@) =~= seq![]);
        while pos < self.input.len()
            invariant
                s == self.input@,
                s == old(self).source(),
                pos <= s.len(),
                lex_from(s, pos as int, stack@, tokens_view(tokens@)) == lex(s),
            decreases s.len() - pos,
        {
            let c = self.input[pos];
            let ghost tv = tokens_view(tokens@);
            if c == '\n' {
                let e = scan(&self.input, pos + 1, CharClass::Space);
                tokens.push(TokenType::Newline);
                assert(tokens_view(tokens@) =~= tv.push(TokenV::Newline));
                match apply_indent(&mut stack, &mut tokens, e - (pos + 1)) {
                    Ok(()) => {},
                    Err(err) => {
                        self.tokens = tokens;
                        return Err(err);
                    },
                }
                pos = e;
            } else if is_space(c) {
                pos += 1;
            } else if is_ident_start(c) {
                let e = scan(&self.input, pos + 1, CharClass::Ident);
                tokens.push(word_token(&self.input, pos, e));
                assert(tokens_view(tokens@) =~= tv.push(classify(s.subrange(pos as int, e as int))));
                pos = e;
            } else if '0' <= c && c <= '9' {
                let e = scan(&self.input, pos + 1, CharClass::Numeral);
                proof {
                    lemma_scan_bounds(s, pos + 1, CharClass::Numeral);
                }
                match numeral_value(&self.input, pos, e) {
                    Ok(n) => {
                        tokens.push(TokenType::Number(n));
                        assert(tokens_view(tokens@) =~= tv.push(TokenV::Number(n)));
                    },
                    Err(err) => {
                        self.tokens = tokens;
                        return Err(err);
                    },
                }
                pos = e;
            } else if c == '"' || c == '\'' {
                let e = scan(&self.input, pos + 1, CharClass::NotQuote(c));
                if e >= self.input.len() {
                    self.tokens = tokens;
                    return Err(LexError::UnterminatedString);
                }
                tokens.push(TokenType::String(string_of(&self.input, pos + 1, e)));
                assert(tokens_view(tokens@) =~= tv.push(TokenV::Str(s.subrange(pos + 1, e as int))));
                pos = e + 1;
            } else if c == '#' {
                pos = scan(&self.input, pos + 1, CharClass::NotNewline);
            } else if is_operator(c) {
                tokens.push(TokenType::Operator(string_of(&self.input, pos, pos + 1)));
                assert(s.subrange(pos as int, pos + 1) =~= seq![c]);
                assert(tokens_view(tokens@) =~= tv.push(TokenV::Operator(seq![c])));
                pos += 1;
            } else {
                self.tokens = tokens;
                return Err(LexError::UnexpectedCharacter(c));
            }
        }
        let ghost tv = tokens_view(tokens@);
        let mut k: usize = 0;
        while k < stack.len()
            invariant
                k <= stack@.len(),
                tokens_view(tokens@) == tv + repeat(TokenV::Dedent, k as nat),
            decreases stack@.len() - k,
        {
            tokens.push(TokenType::Dedent);
            assert(tv + repeat(TokenV::Dedent, (k + 1) as nat) =~= (tv + repeat(TokenV::Dedent, k as nat)).push(TokenV::Dedent));
            k += 1;
        }
        let ghost tv2 = tokens_view(tokens@);
        tokens.push(TokenType::EOF);
        assert(tokens_view(tokens@) =~= tv2 + seq![TokenV::EOF]);
        self.tokens = tokens;
        Ok(())
    }
}

/// The tokens of `input`, ending with `EOF`.
pub fn tokenize(input: &str) -> (r: Result<Vec<TokenType>, LexError>)
    ensures
        match lex(input@) {
            Ok(ts) => r is Ok && tokens_view(r->Ok_0@) == ts,
            Err(e) => r == Err::<Vec<TokenType>, LexError>(e),
        },
{
    let mut lexer = Lexer::new(input);
    match lexer.tokenize() {
        Ok(()) => Ok(lexer.tokens),
        Err(e) => Err(e),
    }
}

/// A numeral on its own, made of digits and decimal points, lexes to exactly
/// its number followed by the end marker; a numeral with two decimal points or
/// out of range gives the matching lexical error.
pub proof fn lemma_numeral_alone(n: Seq<char>)
    requires
        n.len() > 0,
        digit_char(n[0]),
        forall|i: int| 0 <= i < n.len() ==> number_char(n[i]),
    ensures
        lex(n) == match number_value(n) {
            Ok(v) => Ok::<Seq<TokenV>, LexError>(seq![TokenV::Number(v), TokenV::EOF]),
            Err(e) => Err(e),
        },
{
    lemma_scan_all(n, 1, CharClass::Numeral);
    assert(n.subrange(0, n.len() as int) =~= n);
    let c = n[0];
    assert(!space_char(c));
    assert(!ident_start(c));
    assert(number_end(n, 1) == n.len());
    if let Ok(v) = number_value(n) {
        let toks = seq![TokenV::Number(v)];
        assert(lex(n) == lex_from(n, n.len() as int, seq![], Seq::<TokenV>::empty().push(TokenV::Number(v))));
        assert(Seq::<TokenV>::empty().push(TokenV::Number(v)) =~= toks);
        assert(toks + repeat(TokenV::Dedent, 0) + seq![TokenV::EOF] =~= seq![TokenV::Number(v), TokenV::EOF]);
    }
}

/// A word on its own that is no keyword and no symbol lexes to exactly that
/// identifier followed by the end marker.
pub proof fn lemma_identifier_alone(id: Seq<char>)
    requires
        id.len() > 0,
        ident_start(id[0]),
        !space_char(id[0]),
        forall|i: int| 0 <= i < id.len() ==> ident_char(id[i]),
        !in_table(keywords(), id),
        !in_table(symbols(), id),
    ensures
        lex(id) == Ok::<Seq<TokenV>, LexError>(seq![TokenV::Identifier(id), TokenV::EOF]),
{
    lemma_scan_all(id, 1, CharClass::Ident);
    assert(id.subrange(0, id.len() as int) =~= id);
    assert(ident_end(id, 1) == id.len());
    assert(classify(id) == TokenV::Identifier(id));
    let toks = seq![TokenV::Identifier(id)];
    assert(lex(id) == lex_from(id, id.len() as int, seq![], Seq::<TokenV>::empty().push(TokenV::Identifier(id))));
    assert(Seq::<TokenV>::empty().push(TokenV::Identifier(id)) =~= toks);
    assert(toks + repeat(TokenV::Dedent, 0) + seq![TokenV::EOF] =~= seq![
        TokenV::Identifier(id),
        TokenV::EOF,
    ]);
}

} // verus!
