use vstd::prelude::*;

use crate::dialect::{is_digit, Dialect, SQLiteDialect};

verus! {

/// The keywords that the statement and expression grammars look for.
#[derive(Clone, Copy, Debug, PartialEq, Eq, Structural)]
pub enum Keyword {
    NoKeyword,
    Insert,
    Or,
    Replace,
    Into,
    Values,
    Where,
    In,
    Filter,
}

/// An identifier or keyword, bare or quoted.
#[derive(Clone, Debug, PartialEq, Eq)]
pub struct Word {
    pub value: Vec<char>,
    /// The character that opened a delimited identifier, if any.
    pub quote_style: Option<char>,
    /// The keyword a bare word spells, `NoKeyword` for a quoted one.
    pub keyword: Keyword,
}

#[derive(Clone, Debug, PartialEq, Eq)]
pub enum Token {
    Word(Word),
    /// A run of ASCII digits.
    Number(Vec<char>),
    LParen,
    RParen,
    Comma,
    Lt,
    Gt,
    Eq,
}

#[derive(Clone, Copy, Debug, PartialEq, Eq, Structural)]
pub enum TokenizerError {
    /// A delimited identifier opened at `pos` has no closing character.
    UnterminatedDelimitedIdentifier { pos: usize },
    /// The character at `pos` starts no token.
    UnexpectedChar { pos: usize },
}

pub open spec fn is_whitespace(ch: char) -> bool {
    ch == ' ' || ch == '\t' || ch == '\n' || ch == '\r'
}

/// The character that closes a delimited identifier opened by `open`.
pub open spec fn closing_of(open: char) -> char {
    if open == '[' {
        ']'
    } else {
        open
    }
}

/// Whether `ch` is `kw_ch` (an upper-case letter) in either ASCII case.
pub open spec fn same_letter(ch: char, kw_ch: char) -> bool {
    ch == kw_ch || ('A' <= kw_ch && kw_ch <= 'Z' && ch as u32 == kw_ch as u32 + 32)
}

/// Whether `w` spells `kw` (given in upper case), ignoring ASCII case.
pub open spec fn spells(w: Seq<char>, kw: Seq<char>) -> bool {
    w.len() == kw.len() && forall|k: int| 0 <= k < w.len() ==> same_letter(#[trigger] w[k], kw[k])
}

/// The keyword that a bare word spells.
pub open spec fn keyword_of(w: Seq<char>) -> Keyword {
    if spells(w, seq!['I', 'N', 'S', 'E', 'R', 'T']) {
        Keyword::Insert
    } else if spells(w, seq!['O', 'R']) {
        Keyword::Or
    } else if spells(w, seq!['R', 'E', 'P', 'L', 'A', 'C', 'E']) {
        Keyword::Replace
    } else if spells(w, seq!['I', 'N', 'T', 'O']) {
        Keyword::Into
    } else if spells(w, seq!['V', 'A', 'L', 'U', 'E', 'S']) {
        Keyword::Values
    } else if spells(w, seq!['W', 'H', 'E', 'R', 'E']) {
        Keyword::Where
    } else if spells(w, seq!['I', 'N']) {
        Keyword::In
    } else if spells(w, seq!['F', 'I', 'L', 'T', 'E', 'R']) {
        Keyword::Filter
    } else {
        Keyword::NoKeyword
    }
}

/// The first position at or after `i` that holds no whitespace, or the end.
pub open spec fn skip_ws(s: Seq<char>, i: int) -> int
    decreases s.len() - i,
{
    if 0 <= i < s.len() && is_whitespace(s[i]) {
        skip_ws(s, i + 1)
    } else {
        i
    }
}

/// The end of the run of identifier characters that begins at `i`.
pub open spec fn part_end<D: Dialect>(d: &D, s: Seq<char>, i: int) -> int
    decreases s.len() - i,
{
    if 0 <= i < s.len() && d.identifier_part(s[i]) {
        part_end(d, s, i + 1)
    } else {
        i
    }
}

/// The end of the run of ASCII digits that begins at `i`.
pub open spec fn digits_end(s: Seq<char>, i: int) -> int
    decreases s.len() - i,
{
    if 0 <= i < s.len() && is_digit(s[i]) {
        digits_end(s, i + 1)
    } else {
        i
    }
}

/// The first position at or after `i` that holds `c`, or the end.
pub open spec fn find_char(s: Seq<char>, i: int, c: char) -> int
    decreases s.len() - i,
{
    if 0 <= i < s.len() && s[i] != c {
        find_char(s, i + 1, c)
    } else {
        i
    }
}

/// The one-character token that `ch` stands for, if any.
pub open spec fn punct_of(ch: char) -> Option<Token> {
    if ch == '(' {
        Some(Token::LParen)
    } else if ch == ')' {
        Some(Token::RParen)
    } else if ch == ',' {
        Some(Token::Comma)
    } else if ch == '<' {
        Some(Token::Lt)
    } else if ch == '>' {
        Some(Token::Gt)
    } else if ch == '=' {
        Some(Token::Eq)
    } else {
        None
    }
}

/// The outcome of scanning one token at position `i`: the error, if the
/// scan fails, or where the token ends.
pub open spec fn scan_end<D: Dialect>(d: &D, s: Seq<char>, i: int) -> Result<
    int,
    TokenizerError,
> {
    let c = s[i];
    if d.delimited_identifier_start(c) {
        let k = find_char(s, i + 1, closing_of(c));
        if k < s.len() {
            Ok(k + 1)
        } else {
            Err(TokenizerError::UnterminatedDelimitedIdentifier { pos: i as usize })
        }
    } else if d.identifier_start(c) {
        Ok(part_end(d, s, i + 1))
    } else if is_digit(c) {
        Ok(digits_end(s, i + 1))
    } else if punct_of(c) is Some {
        Ok(i + 1)
    } else {
        Err(TokenizerError::UnexpectedChar { pos: i as usize })
    }
}

/// Whether `t` is the token that the scan at position `i` yields, given
/// that the scan succeeds and ends at `j`.
pub open spec fn token_at<D: Dialect>(d: &D, s: Seq<char>, i: int, j: int, t: Token) -> bool {
    let c = s[i];
    if d.delimited_identifier_start(c) {
        t matches Token::Word(w) && w.value@ == s.subrange(i + 1, j - 1) && w.quote_style
            == Some(c) && w.keyword == Keyword::NoKeyword
    } else if d.identifier_start(c) {
        t matches Token::Word(w) && w.value@ == s.subrange(i, j) && w.quote_style is None
            && w.keyword == keyword_of(w.value@)
    } else if is_digit(c) {
        t matches Token::Number(v) && v@ == s.subrange(i, j)
    } else {
        punct_of(c) == Some(t)
    }
}

/// Whether `toks` is what the tokenizer yields for `s` from position `i` on.
pub open spec fn tokenizes<D: Dialect>(d: &D, s: Seq<char>, i: int, toks: Seq<Token>) -> bool
    decreases s.len() - i, toks.len(),
{
    let k = skip_ws(s, i);
    if !(0 <= i <= k) || k >= s.len() {
        toks.len() == 0
    } else {
        match scan_end(d, s, k) {
            Ok(j) => toks.len() > 0 && k < j <= s.len() && token_at(d, s, k, j, toks[0]) && tokenizes(
                d,
                s,
                j,
                toks.drop_first(),
            ),
            Err(_) => false,
        }
    }
}

/// The error that the tokenizer meets in `s` from position `i` on, if any.
pub open spec fn first_error<D: Dialect>(d: &D, s: Seq<char>, i: int) -> Option<TokenizerError>
    decreases s.len() - i,
{
    let k = skip_ws(s, i);
    if !(0 <= i <= k) || k >= s.len() {
        None
    } else {
        match scan_end(d, s, k) {
            Ok(j) => if k < j <= s.len() {
                first_error(d, s, j)
            } else {
                None
            },
            Err(e) => Some(e),
        }
    }
}

proof fn lemma_find_char(s: Seq<char>, i: int, k: int, c: char)
    requires
        0 <= i <= k < s.len(),
        s[k] == c,
        forall|j: int| i <= j < k ==> s[j] != c,
    ensures
        find_char(s, i, c) == k,
    decreases k - i,
{
    if i < k {
        lemma_find_char(s, i + 1, k, c);
    }
}

/// Input that starts with a backtick is a lexing error, at its first
/// character, under every dialect that takes a backtick neither as a quote
/// nor as the start of a bare identifier.
pub proof fn backtick_fails_without_support<D: Dialect>(d: &D, s: Seq<char>)
    requires
        s.len() > 0,
        s[0] == '`',
        !d.delimited_identifier_start('`'),
        !d.identifier_start('`'),
    ensures
        first_error(d, s, 0) == Some(TokenizerError::UnexpectedChar { pos: 0 }),
{
}

/// Under SQLite, text between two backticks, with no backtick inside, is
/// one delimited identifier that holds the text.
pub proof fn sqlite_backtick_identifier(s: Seq<char>, toks: Seq<Token>)
    requires
        s.len() >= 2,
        s[0] == '`',
        s[s.len() - 1] == '`',
        forall|k: int| 1 <= k < s.len() - 1 ==> s[k] != '`',
    ensures
        first_error(&SQLiteDialect {}, s, 0) is None,
        tokenizes(&SQLiteDialect {}, s, 0, toks) ==> {
            &&& toks.len() == 1
            &&& toks[0] matches Token::Word(w)
            &&& w.value@ == s.subrange(1, s.len() - 1)
            &&& w.quote_style == Some('`')
            &&& w.keyword == Keyword::NoKeyword
        },
{
    let d = SQLiteDialect {};
    lemma_find_char(s, 1, s.len() - 1, '`');
    assert(skip_ws(s, 0) == 0);
    assert(skip_ws(s, s.len() as int) == s.len());
    assert(scan_end(&d, s, 0) == Ok::<int, TokenizerError>(s.len() as int));
    assert(first_error(&d, s, s.len() as int) is None);
    if tokenizes(&d, s, 0, toks) {
        assert(tokenizes(&d, s, s.len() as int, toks.drop_first()));
        assert(toks.drop_first().len() == 0);
    }
}

fn skip_whitespace(s: &Vec<char>, i: usize) -> (r: usize)
    requires
        i <= s.len(),
    ensures
        r == skip_ws(s@, i as int),
        i <= r <= s.len(),
{
    let mut j: usize = i;
    while j < s.len() && (s[j] == ' ' || s[j] == '\t' || s[j] == '\n' || s[j] == '\r')
        invariant
            i <= j <= s.len(),
            skip_ws(s@, j as int) == skip_ws(s@, i as int),
        decreases s.len() - j,
    {
        j = j + 1;
    }
    j
}

fn scan_identifier_part<D: Dialect>(d: &D, s: &Vec<char>, i: usize) -> (r: usize)
    requires
        i <= s.len(),
    ensures
        r == part_end(d, s@, i as int),
        i <= r <= s.len(),
{
    let mut j: usize = i;
    while j < s.len() && d.is_identifier_part(s[j])
        invariant
            i <= j <= s.len(),
            part_end(d, s@, j as int) == part_end(d, s@, i as int),
        decreases s.len() - j,
    {
        j = j + 1;
    }
    j
}

fn scan_digits(s: &Vec<char>, i: usize) -> (r: usize)
    requires
        i <= s.len(),
    ensures
        r == digits_end(s@, i as int),
        i <= r <= s.len(),
{
    let mut j: usize = i;
    while j < s.len() && '0' <= s[j] && s[j] <= '9'
        invariant
            i <= j <= s.len(),
            digits_end(s@, j as int) == digits_end(s@, i as int),
        decreases s.len() - j,
    {
        j = j + 1;
    }
    j
}

fn scan_to(s: &Vec<char>, i: usize, c: char) -> (r: usize)
    requires
        i <= s.len(),
    ensures
        r == find_char(s@, i as int, c),
        i <= r <= s.len(),
{
    let mut j: usize = i;
    while j < s.len() && s[j] != c
        invariant
            i <= j <= s.len(),
            find_char(s@, j as int, c) == find_char(s@, i as int, c),
        decreases s.len() - j,
    {
        j = j + 1;
    }
    j
}

fn copy_range(s: &Vec<char>, lo: usize, hi: usize) -> (r: Vec<char>)
    requires
        lo <= hi <= s.len(),
    ensures
        r@ == s@.subrange(lo as int, hi as int),
{
    let mut r: Vec<char> = Vec::new();
    let mut j: usize = lo;
    while j < hi
        invariant
            lo <= j <= hi <= s.len(),
            r@ == s@.subrange(lo as int, j as int),
        decreases hi - j,
    {
        r.push(s[j]);
        j = j + 1;
    }
    r
}

fn same_letter_exec(ch: char, kw_ch: char) -> (r: bool)
    ensures
        r == same_letter(ch, kw_ch),
{
    ch == kw_ch || ('A' <= kw_ch && kw_ch <= 'Z' && ch as u32 == kw_ch as u32 + 32)
}

fn spells_keyword(w: &Vec<char>, kw: &[char]) -> (r: bool)
    ensures
        r == spells(w@, kw@),
{
    if w.len() != kw.len() {
        return false;
    }
    let mut k: usize = 0;
    while k < w.len()
        invariant
            w.len() == kw@.len(),
            0 <= k <= w.len(),
            forall|m: int| 0 <= m < k ==> same_letter(#[trigger] w@[m], kw@[m]),
        decreases w.len() - k,
    {
        if !same_letter_exec(w[k], kw[k]) {
            return false;
        }
        k = k + 1;
    }
    true
}

/// The keyword that the bare word `w` spells, ignoring ASCII case.
pub fn keyword_lookup(w: &Vec<char>) -> (r: Keyword)
    ensures
        r == keyword_of(w@),
{
    let insert = ['I', 'N', 'S', 'E', 'R', 'T'];
    let or = ['O', 'R'];
    let replace = ['R', 'E', 'P', 'L', 'A', 'C', 'E'];
    let into = ['I', 'N', 'T', 'O'];
    let values = ['V', 'A', 'L', 'U', 'E', 'S'];
    let where_ = ['W', 'H', 'E', 'R', 'E'];
    let in_ = ['I', 'N'];
    let filter = ['F', 'I', 'L', 'T', 'E', 'R'];
    assert(insert@ =~= seq!['I', 'N', 'S', 'E', 'R', 'T']);
    assert(or@ =~= seq!['O', 'R']);
    assert(replace@ =~= seq!['R', 'E', 'P', 'L', 'A', 'C', 'E']);
    assert(into@ =~= seq!['I', 'N', 'T', 'O']);
    assert(values@ =~= seq!['V', 'A', 'L', 'U', 'E', 'S']);
    assert(where_@ =~= seq!['W', 'H', 'E', 'R', 'E']);
    assert(in_@ =~= seq!['I', 'N']);
    assert(filter@ =~= seq!['F', 'I', 'L', 'T', 'E', 'R']);
    if spells_keyword(w, &insert) {
        Keyword::Insert
    } else if spells_keyword(w, &or) {
        Keyword::Or
    } else if spells_keyword(w, &replace) {
        Keyword::Replace
    } else if spells_keyword(w, &into) {
        Keyword::Into
    } else if spells_keyword(w, &values) {
        Keyword::Values
    } else if spells_keyword(w, &where_) {
        Keyword::Where
    } else if spells_keyword(w, &in_) {
        Keyword::In
    } else if spells_keyword(w, &filter) {
        Keyword::Filter
    } else {
        Keyword::NoKeyword
    }
}

fn punct_token(ch: char) -> (r: Option<Token>)
    ensures
        r == punct_of(ch),
{
    if ch == '(' {
        Some(Token::LParen)
    } else if ch == ')' {
        Some(Token::RParen)
    } else if ch == ',' {
        Some(Token::Comma)
    } else if ch == '<' {
        Some(Token::Lt)
    } else if ch == '>' {
        Some(Token::Gt)
    } else if ch == '=' {
        Some(Token::Eq)
    } else {
        None
    }
}

/// Scans the token that starts at `i`, which holds no whitespace.
///
/// The dialect decides, in this order, whether the character opens a
/// delimited identifier, starts a bare identifier (continued while its
/// characters are identifier parts), or neither; then digits and
/// punctuation are tried.
pub fn next_token<D: Dialect>(d: &D, s: &Vec<char>, i: usize) -> (r: Result<
    (Token, usize),
    TokenizerError,
>)
    requires
        i < s.len(),
    ensures
        match scan_end(d, s@, i as int) {
            Ok(j) => r matches Ok((t, e)) && e == j && i < j <= s.len() && token_at(
                d,
                s@,
                i as int,
                j,
                t,
            ),
            Err(err) => r == Err::<(Token, usize), TokenizerError>(err),
        },
{
    let c = s[i];
    if d.is_delimited_identifier_start(c) {
        let close = if c == '[' {
            ']'
        } else {
            c
        };
        let k = scan_to(s, i + 1, close);
        if k < s.len() {
            let value = copy_range(s, i + 1, k);
            Ok((Token::Word(Word { value, quote_style: Some(c), keyword: Keyword::NoKeyword }), k + 1))
        } else {
            Err(TokenizerError::UnterminatedDelimitedIdentifier { pos: i })
        }
    } else if d.is_identifier_start(c) {
        let j = scan_identifier_part(d, s, i + 1);
        let value = copy_range(s, i, j);
        let keyword = keyword_lookup(&value);
        Ok((Token::Word(Word { value, quote_style: None, keyword }), j))
    } else if '0' <= c && c <= '9' {
        let j = scan_digits(s, i + 1);
        Ok((Token::Number(copy_range(s, i, j)), j))
    } else {
        match punct_token(c) {
            Some(t) => Ok((t, i + 1)),
            None => Err(TokenizerError::UnexpectedChar { pos: i }),
        }
    }
}

fn tokenize_from<D: Dialect>(d: &D, s: &Vec<char>, i: usize) -> (r: Result<
    Vec<Token>,
    TokenizerError,
>)
    requires
        i <= s.len(),
    ensures
        match first_error(d, s@, i as int) {
            None => r matches Ok(toks) && tokenizes(d, s@, i as int, toks@),
            Some(e) => r == Err::<Vec<Token>, TokenizerError>(e),
        },
    decreases s.len() - i,
{
    let k = skip_whitespace(s, i);
    if k >= s.len() {
        return Ok(Vec::new());
    }
    match next_token(d, s, k) {
        Ok((t, j)) => {
            match tokenize_from(d, s, j) {
                Ok(rest) => {
                    let mut toks = rest;
                    toks.insert(0, t);
                    assert(toks@.drop_first() =~= rest@);
                    Ok(toks)
                },
                Err(e) => Err(e),
            }
        },
        Err(e) => Err(e),
    }
}

/// Splits `s` into tokens under dialect `d`, skipping whitespace.
///
/// The result is the token sequence described by `tokenizes` when no scan
/// fails, and otherwise the first error met.
pub fn tokenize<D: Dialect>(d: &D, s: &Vec<char>) -> (r: Result<Vec<Token>, TokenizerError>)
    ensures
        match first_error(d, s@, 0) {
            None => r matches Ok(toks) && tokenizes(d, s@, 0, toks@),
            Some(e) => r == Err::<Vec<Token>, TokenizerError>(e),
        },
{
    tokenize_from(d, s, 0)
}

} // verus!
