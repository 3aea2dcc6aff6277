use vstd::prelude::*;

use crate::clock::{chrono_hm, chrono_ymd, parse_date_ymd, parse_time_hm, Date, Time};
use crate::parser::error::{ParseError, ParseResult};
use crate::parser::transaction::{Trade, TradeView};
use crate::text::{
    chars_of, digits_value, is_digit, is_digit_char, is_id_char, is_id_char_spec, string_of,
    trim, trimmed_chars,
};

verus! {

/// A number written with a decimal point, kept as the digits before and after it.
#[derive(Clone, Debug, PartialEq, Eq)]
pub struct Decimal {
    pub whole: String,
    pub fraction: String,
}

impl View for Decimal {
    type V = (Seq<char>, Seq<char>);

    open spec fn view(&self) -> (Seq<char>, Seq<char>) {
        (self.whole@, self.fraction@)
    }
}

/// What a transaction does with its amount.
#[derive(Clone, Debug, PartialEq, Eq)]
pub enum Operator {
    /// The amount is created in the agent's holdings.
    Plus,
    /// The amount is destroyed from the agent's holdings. With `everything` as the amount,
    /// the ledger instead adds each of the agent's balances of the assets in use to itself.
    Minus,
    /// The amount moves from the agent to the named entity.
    Transfer(String),
    /// The amount moves to the trade's patient, who gives the trade's amount back.
    Trade(Trade),
}

pub enum OperatorView {
    Plus,
    Minus,
    Transfer(Seq<char>),
    Trade(TradeView),
}

impl View for Operator {
    type V = OperatorView;

    open spec fn view(&self) -> OperatorView {
        match self {
            Operator::Plus => OperatorView::Plus,
            Operator::Minus => OperatorView::Minus,
            Operator::Transfer(s) => OperatorView::Transfer(s@),
            Operator::Trade(t) => OperatorView::Trade(t@),
        }
    }
}

impl Operator {
    /// A copy of this operator.
    pub fn duplicate(&self) -> (r: Operator)
        ensures
            r@ == self@,
    {
        match self {
            Operator::Plus => Operator::Plus,
            Operator::Minus => Operator::Minus,
            Operator::Transfer(s) => Operator::Transfer(s.clone()),
            Operator::Trade(t) => Operator::Trade(t.duplicate()),
        }
    }
}

/// One token of the state file or a transaction log.
#[derive(Clone, Debug, PartialEq, Eq)]
pub enum Token {
    /// `*`
    Blob,
    /// `#name`
    Command(String),
    /// `[YYYY-MM-DD]`
    Date(Date),
    /// `digits.digits`
    Float(Decimal),
    /// a run of letters, `.`, `_` and `&`
    Identifier(String),
    /// a run of digits
    Integer(u32),
    /// `+`, `-` or `>name`
    Op(Operator),
    /// `:`
    Separator,
    /// `"text"`
    String(String),
    /// `[HH:MM]`
    Time(Time),
}

pub enum TokenView {
    Blob,
    Command(Seq<char>),
    Date(Date),
    Float(Seq<char>, Seq<char>),
    Identifier(Seq<char>),
    Integer(u32),
    Op(OperatorView),
    Separator,
    String(Seq<char>),
    Time(Time),
}

impl View for Token {
    type V = TokenView;

    open spec fn view(&self) -> TokenView {
        match self {
            Token::Blob => TokenView::Blob,
            Token::Command(s) => TokenView::Command(s@),
            Token::Date(d) => TokenView::Date(*d),
            Token::Float(d) => TokenView::Float(d.whole@, d.fraction@),
            Token::Identifier(s) => TokenView::Identifier(s@),
            Token::Integer(i) => TokenView::Integer(*i),
            Token::Op(o) => TokenView::Op(o@),
            Token::Separator => TokenView::Separator,
            Token::String(s) => TokenView::String(s@),
            Token::Time(t) => TokenView::Time(*t),
        }
    }
}

impl Token {
    /// The number of an integer token.
    pub fn extract_int(&self) -> (r: u32)
        requires
            self is Integer,
        ensures
            self@ == TokenView::Integer(r),
    {
        match self {
            Token::Integer(i) => *i,
            _ => 0,
        }
    }

    /// The text of an identifier, a string or a command.
    pub fn extract_string(&self) -> (r: &str)
        requires
            self is Identifier || self is String || self is Command,
        ensures
            self@ == TokenView::Identifier(r@) || self@ == TokenView::String(r@) || self@
                == TokenView::Command(r@),
    {
        match self {
            Token::Identifier(s) => s.as_str(),
            Token::String(s) => s.as_str(),
            Token::Command(s) => s.as_str(),
            _ => "",
        }
    }

    /// The operator of an operator token.
    pub fn extract_operator(&self) -> (r: Operator)
        requires
            self is Op,
        ensures
            self@ == TokenView::Op(r@),
    {
        match self {
            Token::Op(o) => o.duplicate(),
            _ => Operator::Plus,
        }
    }

    /// A copy of this token.
    pub fn duplicate(&self) -> (r: Token)
        ensures
            r@ == self@,
    {
        match self {
            Token::Blob => Token::Blob,
            Token::Command(s) => Token::Command(s.clone()),
            Token::Date(d) => Token::Date(*d),
            Token::Float(d) => Token::Float(
                Decimal { whole: d.whole.clone(), fraction: d.fraction.clone() },
            ),
            Token::Identifier(s) => Token::Identifier(s.clone()),
            Token::Integer(i) => Token::Integer(*i),
            Token::Op(o) => Token::Op(o.duplicate()),
            Token::Separator => Token::Separator,
            Token::String(s) => Token::String(s.clone()),
            Token::Time(t) => Token::Time(*t),
        }
    }
}

/// The views of a list of tokens.
pub open spec fn tokens_view(v: Seq<Token>) -> Seq<TokenView> {
    v.map_values(|t: Token| t@)
}

// ---------------------------------------------------------------------------
// The lexical grammar, over the characters of a text
// ---------------------------------------------------------------------------

/// The end of the run of characters satisfying `p` that starts at `i`.
pub open spec fn run_end(s: Seq<char>, i: int, p: spec_fn(char) -> bool) -> int
    decreases s.len() - i,
{
    if i < 0 || i >= s.len() || !p(s[i]) {
        i
    } else {
        run_end(s, i + 1, p)
    }
}

pub open spec fn id_end(s: Seq<char>, i: int) -> int {
    run_end(s, i, |c: char| is_id_char_spec(c))
}

pub open spec fn digit_end(s: Seq<char>, i: int) -> int {
    run_end(s, i, |c: char| is_digit_char(c))
}

/// The first position at or after `i` that holds `x`, or the length of `s`.
pub open spec fn until_end(s: Seq<char>, i: int, x: char) -> int
    decreases s.len() - i,
{
    if i < 0 || i >= s.len() || s[i] == x {
        i
    } else {
        until_end(s, i + 1, x)
    }
}

pub proof fn lemma_run_end(s: Seq<char>, i: int, p: spec_fn(char) -> bool)
    requires
        0 <= i <= s.len(),
    ensures
        i <= run_end(s, i, p) <= s.len(),
        forall|k: int| i <= k < run_end(s, i, p) ==> p(#[trigger] s[k]),
        run_end(s, i, p) < s.len() ==> !p(s[run_end(s, i, p)]),
    decreases s.len() - i,
{
    if i < s.len() && p(s[i]) {
        lemma_run_end(s, i + 1, p);
    }
}

pub proof fn lemma_until_end(s: Seq<char>, i: int, x: char)
    requires
        0 <= i <= s.len(),
    ensures
        i <= until_end(s, i, x) <= s.len(),
        forall|k: int| i <= k < until_end(s, i, x) ==> #[trigger] s[k] != x,
        until_end(s, i, x) < s.len() ==> s[until_end(s, i, x)] == x,
    decreases s.len() - i,
{
    if i < s.len() && s[i] != x {
        lemma_until_end(s, i + 1, x);
    }
}

pub proof fn lemma_id_end(s: Seq<char>, i: int)
    requires
        0 <= i <= s.len(),
    ensures
        i <= id_end(s, i) <= s.len(),
        forall|k: int| i <= k < id_end(s, i) ==> is_id_char_spec(#[trigger] s[k]),
        id_end(s, i) < s.len() ==> !is_id_char_spec(s[id_end(s, i)]),
{
    lemma_run_end(s, i, |c: char| is_id_char_spec(c));
}

pub proof fn lemma_digit_end(s: Seq<char>, i: int)
    requires
        0 <= i <= s.len(),
    ensures
        i <= digit_end(s, i) <= s.len(),
        forall|k: int| i <= k < digit_end(s, i) ==> is_digit_char(#[trigger] s[k]),
        digit_end(s, i) < s.len() ==> !is_digit_char(s[digit_end(s, i)]),
{
    lemma_run_end(s, i, |c: char| is_digit_char(c));
}

/// `[text]`: the text up to the first `]`, and the length taken.
pub open spec fn lex_bracketed(t: Seq<char>) -> Option<(Seq<char>, int)> {
    if t.len() > 0 && t[0] == '[' && until_end(t, 1, ']') < t.len() {
        Some((t.subrange(1, until_end(t, 1, ']')), until_end(t, 1, ']') + 1))
    } else {
        None
    }
}

pub open spec fn lex_time(t: Seq<char>) -> Option<(TokenView, int)> {
    match lex_bracketed(t) {
        Some((inner, n)) => match chrono_hm(inner) {
            Some((h, m)) => Some((TokenView::Time(Time { hour: h, minute: m }), n)),
            None => None,
        },
        None => None,
    }
}

pub open spec fn lex_date(t: Seq<char>) -> Option<(TokenView, int)> {
    match lex_bracketed(t) {
        Some((inner, n)) => match chrono_ymd(inner) {
            Some((y, m, d)) => Some((TokenView::Date(Date { year: y, month: m, day: d }), n)),
            None => None,
        },
        None => None,
    }
}

/// One or more identifier characters.
pub open spec fn lex_identifier_text(t: Seq<char>) -> Option<(Seq<char>, int)> {
    if id_end(t, 0) > 0 {
        Some((t.take(id_end(t, 0)), id_end(t, 0)))
    } else {
        None
    }
}

pub open spec fn lex_identifier(t: Seq<char>) -> Option<(TokenView, int)> {
    match lex_identifier_text(t) {
        Some((s, n)) => Some((TokenView::Identifier(s), n)),
        None => None,
    }
}

/// Digits, a point, digits: at least one digit in all.
pub open spec fn lex_float(t: Seq<char>) -> Option<(TokenView, int)> {
    let a = digit_end(t, 0);
    if a < t.len() && t[a] == '.' && digit_end(t, a + 1) > 1 {
        Some(
            (
                TokenView::Float(t.take(a), t.subrange(a + 1, digit_end(t, a + 1))),
                digit_end(t, a + 1),
            ),
        )
    } else {
        None
    }
}

/// One or more digits whose value fits in a `u32`.
pub open spec fn lex_integer(t: Seq<char>) -> Option<(TokenView, int)> {
    let a = digit_end(t, 0);
    if a > 0 && digits_value(t.take(a)) <= u32::MAX {
        Some((TokenView::Integer(digits_value(t.take(a)) as u32), a))
    } else {
        None
    }
}

/// `"text"`: the text up to the next `"`.
pub open spec fn lex_string(t: Seq<char>) -> Option<(TokenView, int)> {
    if t.len() > 0 && t[0] == '"' && until_end(t, 1, '"') < t.len() {
        Some((TokenView::String(t.subrange(1, until_end(t, 1, '"'))), until_end(t, 1, '"') + 1))
    } else {
        None
    }
}

pub open spec fn lex_plus(t: Seq<char>) -> Option<(TokenView, int)> {
    if t.len() > 0 && t[0] == '+' {
        Some((TokenView::Op(OperatorView::Plus), 1))
    } else {
        None
    }
}

pub open spec fn lex_minus(t: Seq<char>) -> Option<(TokenView, int)> {
    if t.len() > 0 && t[0] == '-' {
        Some((TokenView::Op(OperatorView::Minus), 1))
    } else {
        None
    }
}

/// `>` and an identifier.
pub open spec fn lex_transfer(t: Seq<char>) -> Option<(TokenView, int)> {
    if t.len() > 0 && t[0] == '>' && id_end(t, 1) > 1 {
        Some((TokenView::Op(OperatorView::Transfer(t.subrange(1, id_end(t, 1)))), id_end(t, 1)))
    } else {
        None
    }
}

pub open spec fn lex_operator(t: Seq<char>) -> Option<(TokenView, int)> {
    if lex_plus(t) is Some {
        lex_plus(t)
    } else if lex_minus(t) is Some {
        lex_minus(t)
    } else {
        lex_transfer(t)
    }
}

pub open spec fn lex_blob(t: Seq<char>) -> Option<(TokenView, int)> {
    if t.len() > 0 && t[0] == '*' {
        Some((TokenView::Blob, 1))
    } else {
        None
    }
}

pub open spec fn lex_separator(t: Seq<char>) -> Option<(TokenView, int)> {
    if t.len() > 0 && t[0] == ':' {
        Some((TokenView::Separator, 1))
    } else {
        None
    }
}

/// `#` and an identifier.
pub open spec fn lex_command(t: Seq<char>) -> Option<(TokenView, int)> {
    if t.len() > 0 && t[0] == '#' && id_end(t, 1) > 1 {
        Some((TokenView::Command(t.subrange(1, id_end(t, 1))), id_end(t, 1)))
    } else {
        None
    }
}

/// The first token of `t`, trying each kind in turn: time, date, identifier, float,
/// integer, string, operator, blob, separator, command.
pub open spec fn lex_any(t: Seq<char>) -> Option<(TokenView, int)> {
    if lex_time(t) is Some {
        lex_time(t)
    } else if lex_date(t) is Some {
        lex_date(t)
    } else if lex_identifier(t) is Some {
        lex_identifier(t)
    } else if lex_float(t) is Some {
        lex_float(t)
    } else if lex_integer(t) is Some {
        lex_integer(t)
    } else if lex_string(t) is Some {
        lex_string(t)
    } else if lex_operator(t) is Some {
        lex_operator(t)
    } else if lex_blob(t) is Some {
        lex_blob(t)
    } else if lex_separator(t) is Some {
        lex_separator(t)
    } else {
        lex_command(t)
    }
}

/// The text that a failed `lex_any` reports: where its last alternative, the command,
/// gave up.
pub open spec fn failure_input(t: Seq<char>) -> Seq<char> {
    if t.len() > 0 && t[0] == '#' {
        t.skip(1)
    } else {
        t
    }
}

/// One step of the tokenizer over the remaining text `s`: the item produced (none at the
/// end, a token, or the text that no token starts) and the text that remains after it.
pub open spec fn next_token(s: Seq<char>) -> (Option<Result<TokenView, Seq<char>>>, Seq<char>) {
    let t = trim(s);
    match lex_any(t) {
        Some((tok, n)) => (Some(Ok(tok)), t.skip(n)),
        None => if failure_input(t).len() == 0 {
            (None, s)
        } else {
            (Some(Err(failure_input(t))), s)
        },
    }
}

pub proof fn lemma_trim_len(s: Seq<char>)
    ensures
        trim(s).len() <= s.len(),
{
    crate::text::lemma_ws_end_bounds(s, 0);
    let t = crate::text::trim_start(s);
    crate::text::lemma_ws_back_bounds(t, t.len() as int);
}

pub proof fn lemma_lex_any_progress(t: Seq<char>)
    ensures
        lex_any(t) matches Some((_, n)) ==> 1 <= n <= t.len(),
{
    lemma_id_end(t, 0);
    lemma_digit_end(t, 0);
    if t.len() > 0 {
        lemma_id_end(t, 1);
        lemma_until_end(t, 1, ']');
        lemma_until_end(t, 1, '"');
        let a = digit_end(t, 0);
        if a < t.len() {
            lemma_digit_end(t, a + 1);
        }
    }
}

pub proof fn lemma_next_token_shrinks(s: Seq<char>)
    ensures
        next_token(s).0 matches Some(Ok(_)) ==> next_token(s).1.len() < s.len(),
{
    lemma_trim_len(s);
    lemma_lex_any_progress(trim(s));
}

/// All the tokens of `s`, or the text at which tokenizing stopped.
pub open spec fn tokenize(s: Seq<char>) -> Result<Seq<TokenView>, Seq<char>>
    decreases s.len(),
    via tokenize_decreases
{
    match next_token(s) {
        (None, _) => Ok(Seq::empty()),
        (Some(Err(e)), _) => Err(e),
        (Some(Ok(tok)), rest) => match tokenize(rest) {
            Ok(ts) => Ok(seq![tok] + ts),
            Err(e) => Err(e),
        },
    }
}

#[via_fn]
proof fn tokenize_decreases(s: Seq<char>) {
    lemma_next_token_shrinks(s);
}

// ---------------------------------------------------------------------------
// Scanners over a vector of characters
// ---------------------------------------------------------------------------

pub open spec fn lexed(r: Option<(Token, usize)>, s: Option<(TokenView, int)>) -> bool {
    match s {
        Some((tv, n)) => r is Some && r.unwrap().0@ == tv && r.unwrap().1 == n,
        None => r is None,
    }
}

fn scan_ids(t: &Vec<char>, i: usize) -> (r: usize)
    requires
        i <= t@.len(),
    ensures
        r == id_end(t@, i as int),
        i <= r <= t@.len(),
{
    proof { lemma_id_end(t@, i as int); }
    let mut j = i;
    while j < t.len() && is_id_char(t[j])
        invariant
            i <= j <= t@.len(),
            id_end(t@, i as int) == id_end(t@, j as int),
        decreases t@.len() - j,
    {
        j = j + 1;
    }
    j
}

fn scan_digits(t: &Vec<char>, i: usize) -> (r: usize)
    requires
        i <= t@.len(),
    ensures
        r == digit_end(t@, i as int),
        i <= r <= t@.len(),
{
    proof { lemma_digit_end(t@, i as int); }
    let mut j = i;
    while j < t.len() && is_digit(t[j])
        invariant
            i <= j <= t@.len(),
            digit_end(t@, i as int) == digit_end(t@, j as int),
        decreases t@.len() - j,
    {
        j = j + 1;
    }
    j
}

fn scan_until(t: &Vec<char>, i: usize, x: char) -> (r: usize)
    requires
        i <= t@.len(),
    ensures
        r == until_end(t@, i as int, x),
        i <= r <= t@.len(),
{
    proof { lemma_until_end(t@, i as int, x); }
    let mut j = i;
    while j < t.len() && t[j] != x
        invariant
            i <= j <= t@.len(),
            until_end(t@, i as int, x) == until_end(t@, j as int, x),
        decreases t@.len() - j,
    {
        j = j + 1;
    }
    j
}

/// The characters of `t` from `a` to `b`, as a vector.
pub fn sub_chars(t: &Vec<char>, a: usize, b: usize) -> (r: Vec<char>)
    requires
        a <= b <= t@.len(),
    ensures
        r@ == t@.subrange(a as int, b as int),
{
    let mut r: Vec<char> = Vec::new();
    let mut k = a;
    while k < b
        invariant
            a <= k <= b,
            b <= t@.len(),
            r@ == t@.subrange(a as int, k as int),
        decreases b - k,
    {
        r.push(t[k]);
        k = k + 1;
        assert(r@ =~= t@.subrange(a as int, k as int));
    }
    r
}

/// The characters of `t` from `a` to `b`, as a string.
pub fn sub_string(t: &Vec<char>, a: usize, b: usize) -> (r: String)
    requires
        a <= b <= t@.len(),
    ensures
        r@ == t@.subrange(a as int, b as int),
{
    let v = sub_chars(t, a, b);
    string_of(v.as_slice())
}

/// The value of the digits of `t` from `a` to `b`, if it fits in a `u32`.
fn digits_u32(t: &Vec<char>, a: usize, b: usize) -> (r: Option<u32>)
    requires
        a <= b <= t@.len(),
        forall|k: int| a <= k < b ==> is_digit_char(#[trigger] t@[k]),
    ensures
        r == (if digits_value(t@.subrange(a as int, b as int)) <= u32::MAX {
            Some(digits_value(t@.subrange(a as int, b as int)) as u32)
        } else {
            None
        }),
{
    let cap: u64 = 0x1_0000_0000;
    let mut acc: u64 = 0;
    let mut k = a;
    assert(t@.subrange(a as int, a as int) =~= Seq::<char>::empty());
    while k < b
        invariant
            a <= k <= b,
            b <= t@.len(),
            cap == 0x1_0000_0000,
            forall|j: int| a <= j < b ==> is_digit_char(#[trigger] t@[j]),
            acc <= cap,
            acc == (if digits_value(t@.subrange(a as int, k as int)) < cap {
                digits_value(t@.subrange(a as int, k as int))
            } else {
                cap as nat
            }),
        decreases b - k,
    {
        let c = t[k];
        assert(is_digit_char(t@[k as int]));
        let d = (c as u32 - '0' as u32) as u64;
        let ghost prev = digits_value(t@.subrange(a as int, k as int));
        assert(t@.subrange(a as int, k + 1).drop_last() =~= t@.subrange(a as int, k as int));
        assert(digits_value(t@.subrange(a as int, k + 1)) == prev * 10 + d);
        if acc >= cap {
            acc = cap;
        } else {
            let next = acc * 10 + d;
            if next >= cap {
                acc = cap;
            } else {
                acc = next;
            }
        }
        k = k + 1;
    }
    if acc >= cap {
        None
    } else {
        Some(acc as u32)
    }
}

// ---------------------------------------------------------------------------
// The lexers, over a vector of characters
// ---------------------------------------------------------------------------

pub fn lex_bracketed_chars(t: &Vec<char>) -> (r: Option<(String, usize)>)
    ensures
        match lex_bracketed(t@) {
            Some((inner, n)) => r is Some && r.unwrap().0@ == inner && r.unwrap().1 == n,
            None => r is None,
        },
{
    if t.len() > 0 && t[0] == '[' {
        let k = scan_until(t, 1, ']');
        if k < t.len() {
            return Some((sub_string(t, 1, k), k + 1));
        }
    }
    None
}

pub fn lex_time_chars(t: &Vec<char>) -> (r: Option<(Token, usize)>)
    ensures
        lexed(r, lex_time(t@)),
{
    match lex_bracketed_chars(t) {
        Some((inner, n)) => match parse_time_hm(inner.as_str()) {
            Some(tm) => Some((Token::Time(tm), n)),
            None => None,
        },
        None => None,
    }
}

pub fn lex_date_chars(t: &Vec<char>) -> (r: Option<(Token, usize)>)
    ensures
        lexed(r, lex_date(t@)),
{
    match lex_bracketed_chars(t) {
        Some((inner, n)) => match parse_date_ymd(inner.as_str()) {
            Some(d) => Some((Token::Date(d), n)),
            None => None,
        },
        None => None,
    }
}

pub fn lex_identifier_chars(t: &Vec<char>) -> (r: Option<(String, usize)>)
    ensures
        match lex_identifier_text(t@) {
            Some((s, n)) => r is Some && r.unwrap().0@ == s && r.unwrap().1 == n,
            None => r is None,
        },
{
    let e = scan_ids(t, 0);
    if e > 0 {
        assert(t@.subrange(0, e as int) =~= t@.take(e as int));
        Some((sub_string(t, 0, e), e))
    } else {
        None
    }
}

pub fn lex_float_chars(t: &Vec<char>) -> (r: Option<(Token, usize)>)
    ensures
        lexed(r, lex_float(t@)),
{
    let a = scan_digits(t, 0);
    if a < t.len() && t[a] == '.' {
        let b = scan_digits(t, a + 1);
        if b > 1 {
            assert(t@.subrange(0, a as int) =~= t@.take(a as int));
            let whole = sub_string(t, 0, a);
            let fraction = sub_string(t, a + 1, b);
            return Some((Token::Float(Decimal { whole, fraction }), b));
        }
    }
    None
}

pub fn lex_integer_chars(t: &Vec<char>) -> (r: Option<(Token, usize)>)
    ensures
        lexed(r, lex_integer(t@)),
{
    proof { lemma_digit_end(t@, 0); }
    let a = scan_digits(t, 0);
    if a > 0 {
        assert(t@.subrange(0, a as int) =~= t@.take(a as int));
        match digits_u32(t, 0, a) {
            Some(v) => Some((Token::Integer(v), a)),
            None => None,
        }
    } else {
        None
    }
}

pub fn lex_string_chars(t: &Vec<char>) -> (r: Option<(Token, usize)>)
    ensures
        lexed(r, lex_string(t@)),
{
    if t.len() > 0 && t[0] == '"' {
        let k = scan_until(t, 1, '"');
        if k < t.len() {
            return Some((Token::String(sub_string(t, 1, k)), k + 1));
        }
    }
    None
}

pub fn lex_transfer_chars(t: &Vec<char>) -> (r: Option<(Token, usize)>)
    ensures
        lexed(r, lex_transfer(t@)),
{
    if t.len() > 0 && t[0] == '>' {
        let e = scan_ids(t, 1);
        if e > 1 {
            return Some((Token::Op(Operator::Transfer(sub_string(t, 1, e))), e));
        }
    }
    None
}

pub fn lex_operator_chars(t: &Vec<char>) -> (r: Option<(Token, usize)>)
    ensures
        lexed(r, lex_operator(t@)),
{
    if t.len() > 0 && t[0] == '+' {
        Some((Token::Op(Operator::Plus), 1))
    } else if t.len() > 0 && t[0] == '-' {
        Some((Token::Op(Operator::Minus), 1))
    } else {
        lex_transfer_chars(t)
    }
}

pub fn lex_command_chars(t: &Vec<char>) -> (r: Option<(Token, usize)>)
    ensures
        lexed(r, lex_command(t@)),
{
    if t.len() > 0 && t[0] == '#' {
        let e = scan_ids(t, 1);
        if e > 1 {
            return Some((Token::Command(sub_string(t, 1, e)), e));
        }
    }
    None
}

/// The first token of `t`, as `lex_any` says.
pub fn lex_any_chars(t: &Vec<char>) -> (r: Option<(Token, usize)>)
    ensures
        lexed(r, lex_any(t@)),
{
    if let Some(x) = lex_time_chars(t) {
        return Some(x);
    }
    if let Some(x) = lex_date_chars(t) {
        return Some(x);
    }
    if let Some((s, n)) = lex_identifier_chars(t) {
        return Some((Token::Identifier(s), n));
    }
    if let Some(x) = lex_float_chars(t) {
        return Some(x);
    }
    if let Some(x) = lex_integer_chars(t) {
        return Some(x);
    }
    if let Some(x) = lex_string_chars(t) {
        return Some(x);
    }
    if let Some(x) = lex_operator_chars(t) {
        return Some(x);
    }
    if t.len() > 0 && t[0] == '*' {
        return Some((Token::Blob, 1));
    }
    if t.len() > 0 && t[0] == ':' {
        return Some((Token::Separator, 1));
    }
    lex_command_chars(t)
}

// ---------------------------------------------------------------------------
// The tokenizer
// ---------------------------------------------------------------------------

/// Splits a line into tokens, one at a time.
pub struct TokenIterator {
    rest: Vec<char>,
}

impl View for TokenIterator {
    type V = Seq<char>;

    /// The text not yet tokenized.
    closed spec fn view(&self) -> Seq<char> {
        self.rest@
    }
}

impl TokenIterator {
    pub fn with_source(s: &str) -> (r: TokenIterator)
        ensures
            r@ == s@,
    {
        TokenIterator { rest: chars_of(s) }
    }

    /// The same as `with_source`, under another name.
    pub fn from_str(s: &str) -> (r: TokenIterator)
        ensures
            r@ == s@,
    {
        TokenIterator::with_source(s)
    }

    /// The next token, `None` at the end of the text, or the text that no token starts.
    /// After an error the iterator stays where it was.
    pub fn next(&mut self) -> (r: Option<ParseResult<Token>>)
        ensures
            match next_token(old(self)@).0 {
                None => r is None,
                Some(Ok(tv)) => r matches Some(Ok(tok)) && tok@ == tv,
                Some(Err(e)) => r matches Some(Err(ParseError::Unparseable(m))) && m@ == e,
            },
            final(self)@ == next_token(old(self)@).1,
    {
        let t = trimmed_chars_of_vec(&self.rest);
        match lex_any_chars(&t) {
            Some((tok, n)) => {
                proof { lemma_lex_any_progress(t@); }
                let rest = sub_chars(&t, n, t.len());
                assert(rest@ =~= t@.skip(n as int));
                self.rest = rest;
                Some(Ok(tok))
            },
            None => {
                let e = if t.len() > 0 && t[0] == '#' {
                    assert(t@.subrange(1, t@.len() as int) =~= t@.skip(1));
                    sub_chars(&t, 1, t.len())
                } else {
                    assert(t@.subrange(0, t@.len() as int) =~= t@);
                    sub_chars(&t, 0, t.len())
                };
                if e.len() == 0 {
                    None
                } else {
                    Some(Err(ParseError::Unparseable(string_of(e.as_slice()))))
                }
            },
        }
    }

    /// All the remaining tokens, or the error at which tokenizing stopped.
    pub fn collect_all(self) -> (r: ParseResult<Vec<Token>>)
        ensures
            match tokenize(self@) {
                Ok(ts) => r matches Ok(v) && tokens_view(v@) == ts,
                Err(e) => r matches Err(ParseError::Unparseable(m)) && m@ == e,
            },
    {
        let mut it = self;
        let mut out: Vec<Token> = Vec::new();
        loop
            invariant
                tokenize(self@) == match tokenize(it@) {
                    Ok(ts) => Ok(tokens_view(out@) + ts),
                    Err(e) => Err(e),
                },
            decreases it@.len(),
        {
            let ghost before = it@;
            proof { lemma_next_token_shrinks(before); }
            match it.next() {
                None => {
                    assert(tokens_view(out@) + Seq::<TokenView>::empty() =~= tokens_view(out@));
                    return Ok(out);
                },
                Some(Err(e)) => {
                    return Err(e);
                },
                Some(Ok(tok)) => {
                    let ghost tv = tok@;
                    let ghost old_out = out@;
                    out.push(tok);
                    proof {
                        assert(tokens_view(out@) =~= tokens_view(old_out).push(tv));
                        match tokenize(it@) {
                            Ok(ts) => {
                                assert(tokens_view(old_out) + (seq![tv] + ts) =~= tokens_view(
                                    out@,
                                ) + ts);
                            },
                            Err(_) => {},
                        }
                    }
                },
            }
        }
    }
}

/// The characters of `v` with white space taken off both ends.
fn trimmed_chars_of_vec(v: &Vec<char>) -> (r: Vec<char>)
    ensures
        r@ == trim(v@),
{
    let s = string_of(v.as_slice());
    trimmed_chars(s.as_str())
}

} // verus!
