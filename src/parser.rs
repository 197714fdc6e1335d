use vstd::prelude::*;

use crate::ast::{BinaryOperator, Expr, Ident, Statement};
use crate::dialect::Dialect;
use crate::tokenizer::{Keyword, Token};

verus! {

#[derive(Clone, Copy, Debug, PartialEq, Eq, Structural)]
pub enum ParserError {
    /// The token at `pos` (or the end of input, if `pos` is past it) does
    /// not fit the grammar.
    Expected { pos: usize },
    /// The construct at `pos` is one that the active dialect does not allow.
    Unsupported { pos: usize },
}

pub open spec fn kw_at(toks: Seq<Token>, i: int, k: Keyword) -> bool {
    0 <= i < toks.len() && (toks[i] matches Token::Word(w) && w.keyword == k)
}

pub open spec fn lparen_at(toks: Seq<Token>, i: int) -> bool {
    0 <= i < toks.len() && toks[i] is LParen
}

pub open spec fn rparen_at(toks: Seq<Token>, i: int) -> bool {
    0 <= i < toks.len() && toks[i] is RParen
}

pub open spec fn comma_at(toks: Seq<Token>, i: int) -> bool {
    0 <= i < toks.len() && toks[i] is Comma
}

/// A word that is no keyword names something.
pub open spec fn ident_at(toks: Seq<Token>, i: int) -> bool {
    kw_at(toks, i, Keyword::NoKeyword)
}

/// A name or a number.
pub open spec fn operand_at(toks: Seq<Token>, i: int) -> bool {
    ident_at(toks, i) || (0 <= i < toks.len() && toks[i] is Number)
}

pub open spec fn expected(i: int) -> ParserError {
    ParserError::Expected { pos: i as usize }
}

/// `id` is the identifier that word token `t` holds.
pub open spec fn ident_matches(id: Ident, t: Token) -> bool {
    t matches Token::Word(w) && id.value@ == w.value@ && id.quote_style == w.quote_style
}

/// `e` is the operand that token `t` holds.
pub open spec fn operand_matches(e: Expr, t: Token) -> bool {
    match t {
        Token::Word(w) => e matches Expr::Identifier(id) && id.value@ == w.value@
            && id.quote_style == w.quote_style,
        Token::Number(v) => e matches Expr::Number(n) && n@ == v@,
        _ => false,
    }
}

/// Where `ident {, ident} )` that begins at `i` ends, or the error.
pub open spec fn ident_list_end(toks: Seq<Token>, i: int) -> Result<int, ParserError>
    decreases toks.len() - i,
{
    if !ident_at(toks, i) {
        Err(expected(i))
    } else if comma_at(toks, i + 1) {
        ident_list_end(toks, i + 2)
    } else if rparen_at(toks, i + 1) {
        Ok(i + 2)
    } else {
        Err(expected(i + 1))
    }
}

/// `items` are the identifiers of the list that begins at `i`.
pub open spec fn ident_list_items(toks: Seq<Token>, i: int, items: Seq<Ident>) -> bool
    decreases toks.len() - i,
{
    0 <= i < toks.len() && items.len() > 0 && ident_matches(items[0], toks[i]) && if comma_at(
        toks,
        i + 1,
    ) {
        ident_list_items(toks, i + 2, items.drop_first())
    } else {
        items.len() == 1
    }
}

/// Where `operand {, operand} )` that begins at `i` ends, or the error.
pub open spec fn operand_list_end(toks: Seq<Token>, i: int) -> Result<int, ParserError>
    decreases toks.len() - i,
{
    if !operand_at(toks, i) {
        Err(expected(i))
    } else if comma_at(toks, i + 1) {
        operand_list_end(toks, i + 2)
    } else if rparen_at(toks, i + 1) {
        Ok(i + 2)
    } else {
        Err(expected(i + 1))
    }
}

/// `items` are the operands of the list that begins at `i`.
pub open spec fn operand_list_items(toks: Seq<Token>, i: int, items: Seq<Expr>) -> bool
    decreases toks.len() - i,
{
    0 <= i < toks.len() && items.len() > 0 && operand_matches(items[0], toks[i]) && if comma_at(
        toks,
        i + 1,
    ) {
        operand_list_items(toks, i + 2, items.drop_first())
    } else {
        items.len() == 1
    }
}

/// Where the conflict clause `OR REPLACE` or `REPLACE` at `p`, if any, ends.
pub open spec fn conflict_end(toks: Seq<Token>, p: int) -> int {
    if kw_at(toks, p, Keyword::Or) && kw_at(toks, p + 1, Keyword::Replace) {
        p + 2
    } else if kw_at(toks, p, Keyword::Replace) {
        p + 1
    } else {
        p
    }
}

/// Where the column list after the table name at `q` ends (no list: `q`).
pub open spec fn columns_end(toks: Seq<Token>, q: int) -> Result<int, ParserError> {
    if lparen_at(toks, q) {
        ident_list_end(toks, q + 1)
    } else {
        Ok(q)
    }
}

/// The INSERT grammar from position `p`, just after the word `INSERT`:
/// `[OR REPLACE | REPLACE] INTO table [(columns)] VALUES (values)`.
/// Gives where the statement ends, or the error.
pub open spec fn insert_end(toks: Seq<Token>, p: int) -> Result<int, ParserError> {
    let q = conflict_end(toks, p);
    if !kw_at(toks, q, Keyword::Into) {
        Err(expected(q))
    } else if !ident_at(toks, q + 1) {
        Err(expected(q + 1))
    } else {
        match columns_end(toks, q + 2) {
            Err(e) => Err(e),
            Ok(e) => if !kw_at(toks, e, Keyword::Values) {
                Err(expected(e))
            } else if !lparen_at(toks, e + 1) {
                Err(expected(e + 1))
            } else {
                operand_list_end(toks, e + 2)
            },
        }
    }
}

/// The statement that the INSERT grammar builds from position `p`, given
/// that it succeeds.
pub open spec fn insert_shape(toks: Seq<Token>, p: int, st: Statement) -> bool {
    let q = conflict_end(toks, p);
    let e = match columns_end(toks, q + 2) {
        Ok(e) => e,
        Err(_) => 0,
    };
    match st {
        Statement::Insert { or_replace, table, columns, values } => {
            &&& or_replace == (q != p)
            &&& ident_matches(table, toks[q + 1])
            &&& if lparen_at(toks, q + 2) {
                ident_list_items(toks, q + 3, columns@)
            } else {
                columns@.len() == 0
            }
            &&& operand_list_items(toks, e + 2, values@)
        },
    }
}

/// What the INSERT grammar run from `p` gives: `r` and the final cursor
/// `end` on success, the error otherwise.
pub open spec fn insert_outcome(
    toks: Seq<Token>,
    p: int,
    r: Result<Statement, ParserError>,
    end: int,
) -> bool {
    match insert_end(toks, p) {
        Ok(e) => r matches Ok(st) && insert_shape(toks, p, st) && end == e,
        Err(err) => r == Err::<Statement, ParserError>(err),
    }
}

/// The generic statement grammar at `p`: `INSERT` and the INSERT grammar.
pub open spec fn statement_outcome(
    toks: Seq<Token>,
    p: int,
    r: Result<Statement, ParserError>,
    end: int,
) -> bool {
    if kw_at(toks, p, Keyword::Insert) {
        insert_outcome(toks, p + 1, r, end)
    } else {
        r == Err::<Statement, ParserError>(expected(p))
    }
}

/// The comparison that token `t` stands for, if any.
pub open spec fn cmp_of(t: Token) -> Option<BinaryOperator> {
    match t {
        Token::Lt => Some(BinaryOperator::Lt),
        Token::Gt => Some(BinaryOperator::Gt),
        Token::Eq => Some(BinaryOperator::Eq),
        _ => None,
    }
}

pub open spec fn cmp_at(toks: Seq<Token>, i: int) -> bool {
    0 <= i < toks.len() && cmp_of(toks[i]) is Some
}

/// Where the rest of an IN list that begins at `i` (after its `(`) ends.
/// An empty list is legal only where the dialect allows it.
pub open spec fn in_list_end<D: Dialect>(d: &D, toks: Seq<Token>, i: int) -> Result<
    int,
    ParserError,
> {
    if rparen_at(toks, i) {
        if d.in_empty_list() {
            Ok(i + 1)
        } else {
            Err(ParserError::Unsupported { pos: i as usize })
        }
    } else {
        operand_list_end(toks, i)
    }
}

/// Where a condition `operand [IN (list) | cmp operand]` at `i` ends.
pub open spec fn condition_end<D: Dialect>(d: &D, toks: Seq<Token>, i: int) -> Result<
    int,
    ParserError,
> {
    if !operand_at(toks, i) {
        Err(expected(i))
    } else if kw_at(toks, i + 1, Keyword::In) {
        if !lparen_at(toks, i + 2) {
            Err(expected(i + 2))
        } else {
            in_list_end(d, toks, i + 3)
        }
    } else if cmp_at(toks, i + 1) {
        if operand_at(toks, i + 2) {
            Ok(i + 3)
        } else {
            Err(expected(i + 2))
        }
    } else {
        Ok(i + 1)
    }
}

/// The expression that the condition at `i` builds, given that it parses.
pub open spec fn condition_shape(toks: Seq<Token>, i: int, e: Expr) -> bool {
    if kw_at(toks, i + 1, Keyword::In) {
        e matches Expr::InList { expr, list } && operand_matches(*expr, toks[i]) && if rparen_at(
            toks,
            i + 3,
        ) {
            list@.len() == 0
        } else {
            operand_list_items(toks, i + 3, list@)
        }
    } else if cmp_at(toks, i + 1) {
        e matches Expr::BinaryOp { left, op, right } && operand_matches(*left, toks[i]) && Some(op)
            == cmp_of(toks[i + 1]) && operand_matches(*right, toks[i + 2])
    } else {
        operand_matches(e, toks[i])
    }
}

/// Whether a call `name(operand)` starts at `i`.
pub open spec fn call_at(toks: Seq<Token>, i: int) -> bool {
    ident_at(toks, i) && lparen_at(toks, i + 1)
}

/// Where a call `name(operand) [FILTER (WHERE condition)]` at `i` ends.
/// The `FILTER` clause is legal only where the dialect allows it.
pub open spec fn call_end<D: Dialect>(d: &D, toks: Seq<Token>, i: int) -> Result<
    int,
    ParserError,
> {
    if !operand_at(toks, i + 2) {
        Err(expected(i + 2))
    } else if !rparen_at(toks, i + 3) {
        Err(expected(i + 3))
    } else if kw_at(toks, i + 4, Keyword::Filter) {
        if !d.filter_during_aggregation() {
            Err(ParserError::Unsupported { pos: (i + 4) as usize })
        } else if !lparen_at(toks, i + 5) {
            Err(expected(i + 5))
        } else if !kw_at(toks, i + 6, Keyword::Where) {
            Err(expected(i + 6))
        } else {
            match condition_end(d, toks, i + 7) {
                Ok(c) => if rparen_at(toks, c) {
                    Ok(c + 1)
                } else {
                    Err(expected(c))
                },
                Err(e) => Err(e),
            }
        }
    } else {
        Ok(i + 4)
    }
}

/// The expression that the call at `i` builds, given that it parses.
pub open spec fn call_shape(toks: Seq<Token>, i: int, e: Expr) -> bool {
    e matches Expr::Function { name, arg, filter } && ident_matches(name, toks[i])
        && operand_matches(*arg, toks[i + 2]) && if kw_at(toks, i + 4, Keyword::Filter) {
        filter matches Some(f) && condition_shape(toks, i + 7, *f)
    } else {
        filter is None
    }
}

/// Where the expression at `i` ends: a call, or else a condition.
pub open spec fn expr_end<D: Dialect>(d: &D, toks: Seq<Token>, i: int) -> Result<
    int,
    ParserError,
> {
    if call_at(toks, i) {
        call_end(d, toks, i)
    } else {
        condition_end(d, toks, i)
    }
}

/// What parsing an expression at `i` gives: `r` and the final cursor `end`
/// on success, the error otherwise.
pub open spec fn expr_outcome<D: Dialect>(
    d: &D,
    toks: Seq<Token>,
    i: int,
    r: Result<Expr, ParserError>,
    end: int,
) -> bool {
    match expr_end(d, toks, i) {
        Ok(e) => r matches Ok(x) && end == e && if call_at(toks, i) {
            call_shape(toks, i, x)
        } else {
            condition_shape(toks, i, x)
        },
        Err(err) => r == Err::<Expr, ParserError>(err),
    }
}

/// An empty list after `IN` parses exactly under the dialects that allow
/// it; under the others it is an error at its `)`.
pub proof fn empty_in_list_parses_iff_supported<D: Dialect>(d: &D, toks: Seq<Token>, i: int)
    requires
        operand_at(toks, i),
        kw_at(toks, i + 1, Keyword::In),
        lparen_at(toks, i + 2),
        rparen_at(toks, i + 3),
    ensures
        condition_end(d, toks, i) is Ok <==> d.in_empty_list(),
        !d.in_empty_list() ==> condition_end(d, toks, i) == Err::<int, ParserError>(
            ParserError::Unsupported { pos: (i + 3) as usize },
        ),
{
}

/// A call followed by a `FILTER` clause parses only under the dialects that
/// allow filtering during aggregation.
pub proof fn filter_clause_needs_support<D: Dialect>(d: &D, toks: Seq<Token>, i: int)
    requires
        call_at(toks, i),
        kw_at(toks, i + 4, Keyword::Filter),
        expr_end(d, toks, i) is Ok,
    ensures
        d.filter_during_aggregation(),
{
}

/// `t1` from `o1` on and `t2` from `o2` on hold the same tokens.
pub open spec fn same_tail(t1: Seq<Token>, o1: int, t2: Seq<Token>, o2: int) -> bool {
    &&& 0 <= o1 <= t1.len()
    &&& 0 <= o2 <= t2.len()
    &&& t1.subrange(o1, t1.len() as int) == t2.subrange(o2, t2.len() as int)
}

proof fn lemma_tail_token(t1: Seq<Token>, o1: int, t2: Seq<Token>, o2: int, k: int)
    requires
        same_tail(t1, o1, t2, o2),
        0 <= k,
    ensures
        (o1 + k < t1.len()) == (o2 + k < t2.len()),
        o1 + k < t1.len() ==> t1[o1 + k] == t2[o2 + k],
{
    let a = t1.subrange(o1, t1.len() as int);
    let b = t2.subrange(o2, t2.len() as int);
    assert(a.len() == b.len());
    if o1 + k < t1.len() {
        assert(a[k] == t1[o1 + k]);
        assert(b[k] == t2[o2 + k]);
    }
}

proof fn lemma_ident_list_shift(t1: Seq<Token>, o1: int, t2: Seq<Token>, o2: int, i: int)
    requires
        same_tail(t1, o1, t2, o2),
        0 <= i,
    ensures
        ident_list_end(t1, o1 + i) is Ok == ident_list_end(t2, o2 + i) is Ok,
        ident_list_end(t1, o1 + i) is Ok ==> ident_list_end(t1, o1 + i)->Ok_0 - o1
            == ident_list_end(t2, o2 + i)->Ok_0 - o2,
        ident_list_end(t1, o1 + i) is Ok ==> ident_list_end(t1, o1 + i)->Ok_0 > o1 + i,
        forall|items: Seq<Ident>|
            #[trigger] ident_list_items(t1, o1 + i, items) == ident_list_items(t2, o2 + i, items),
    decreases t1.len() - o1 - i,
{
    lemma_tail_token(t1, o1, t2, o2, i);
    lemma_tail_token(t1, o1, t2, o2, i + 1);
    if o1 + i + 1 < t1.len() {
        lemma_ident_list_shift(t1, o1, t2, o2, i + 2);
        assert forall|items: Seq<Ident>|
            #[trigger] ident_list_items(t1, o1 + i, items) == ident_list_items(t2, o2 + i, items) by {
            if items.len() > 0 {
                assert(ident_list_items(t1, o1 + i + 2, items.drop_first()) == ident_list_items(
                    t2,
                    o2 + i + 2,
                    items.drop_first(),
                ));
            }
        }
    }
}

proof fn lemma_operand_list_shift(t1: Seq<Token>, o1: int, t2: Seq<Token>, o2: int, i: int)
    requires
        same_tail(t1, o1, t2, o2),
        0 <= i,
    ensures
        operand_list_end(t1, o1 + i) is Ok == operand_list_end(t2, o2 + i) is Ok,
        operand_list_end(t1, o1 + i) is Ok ==> operand_list_end(t1, o1 + i)->Ok_0 - o1
            == operand_list_end(t2, o2 + i)->Ok_0 - o2,
        operand_list_end(t1, o1 + i) is Ok ==> operand_list_end(t1, o1 + i)->Ok_0 > o1 + i,
        forall|items: Seq<Expr>|
            #[trigger] operand_list_items(t1, o1 + i, items) == operand_list_items(t2, o2 + i, items),
    decreases t1.len() - o1 - i,
{
    lemma_tail_token(t1, o1, t2, o2, i);
    lemma_tail_token(t1, o1, t2, o2, i + 1);
    if o1 + i + 1 < t1.len() {
        lemma_operand_list_shift(t1, o1, t2, o2, i + 2);
        assert forall|items: Seq<Expr>|
            #[trigger] operand_list_items(t1, o1 + i, items) == operand_list_items(
                t2,
                o2 + i,
                items,
            ) by {
            if items.len() > 0 {
                assert(operand_list_items(t1, o1 + i + 2, items.drop_first())
                    == operand_list_items(t2, o2 + i + 2, items.drop_first()));
            }
        }
    }
}

/// The INSERT grammar gives the same statement from two positions that are
/// followed by the same tokens and whose conflict clauses both say REPLACE;
/// the two cursors end the same distance apart.
pub proof fn insert_from_same_tail(t1: Seq<Token>, p1: int, t2: Seq<Token>, p2: int)
    requires
        conflict_end(t1, p1) != p1,
        conflict_end(t2, p2) != p2,
        same_tail(t1, conflict_end(t1, p1), t2, conflict_end(t2, p2)),
    ensures
        insert_end(t1, p1) is Ok == insert_end(t2, p2) is Ok,
        insert_end(t1, p1) is Ok ==> {
            &&& insert_end(t1, p1)->Ok_0 - conflict_end(t1, p1) == insert_end(t2, p2)->Ok_0
                - conflict_end(t2, p2)
            &&& forall|st: Statement| #[trigger] insert_shape(t1, p1, st) == insert_shape(t2, p2, st)
        },
{
    let q1 = conflict_end(t1, p1);
    let q2 = conflict_end(t2, p2);
    lemma_tail_token(t1, q1, t2, q2, 0);
    lemma_tail_token(t1, q1, t2, q2, 1);
    lemma_tail_token(t1, q1, t2, q2, 2);
    lemma_ident_list_shift(t1, q1, t2, q2, 3);
    let c1 = columns_end(t1, q1 + 2);
    let c2 = columns_end(t2, q2 + 2);
    assert(c1 is Ok == c2 is Ok);
    if c1 is Ok {
        let e1 = c1->Ok_0;
        let e2 = c2->Ok_0;
        assert(e1 - q1 == e2 - q2);
        assert(e1 - q1 >= 2);
        lemma_tail_token(t1, q1, t2, q2, e1 - q1);
        lemma_tail_token(t1, q1, t2, q2, e1 - q1 + 1);
        lemma_operand_list_shift(t1, q1, t2, q2, e1 - q1 + 2);
        assert(q1 + (e1 - q1 + 2) == e1 + 2);
        assert(q2 + (e1 - q1 + 2) == e2 + 2);
    }
}

fn kw_at_exec(toks: &Vec<Token>, i: usize, k: Keyword) -> (r: bool)
    ensures
        r == kw_at(toks@, i as int, k),
{
    if i < toks.len() {
        match &toks[i] {
            Token::Word(w) => w.keyword == k,
            _ => false,
        }
    } else {
        false
    }
}

fn lparen_at_exec(toks: &Vec<Token>, i: usize) -> (r: bool)
    ensures
        r == lparen_at(toks@, i as int),
{
    i < toks.len() && matches!(toks[i], Token::LParen)
}

fn rparen_at_exec(toks: &Vec<Token>, i: usize) -> (r: bool)
    ensures
        r == rparen_at(toks@, i as int),
{
    i < toks.len() && matches!(toks[i], Token::RParen)
}

fn comma_at_exec(toks: &Vec<Token>, i: usize) -> (r: bool)
    ensures
        r == comma_at(toks@, i as int),
{
    i < toks.len() && matches!(toks[i], Token::Comma)
}

fn copy_chars(v: &Vec<char>) -> (r: Vec<char>)
    ensures
        r@ == v@,
{
    let mut r: Vec<char> = Vec::new();
    let mut j: usize = 0;
    while j < v.len()
        invariant
            j <= v.len(),
            r@ == v@.subrange(0, j as int),
        decreases v.len() - j,
    {
        r.push(v[j]);
        j = j + 1;
    }
    assert(r@ =~= v@);
    r
}

/// A cursor over a token sequence; the sequence itself never changes.
pub struct Parser {
    tokens: Vec<Token>,
    index: usize,
}

impl Parser {
    pub closed spec fn toks(&self) -> Seq<Token> {
        self.tokens@
    }

    pub closed spec fn pos(&self) -> int {
        self.index as int
    }

    pub closed spec fn wf(&self) -> bool {
        self.index <= self.tokens.len()
    }

    pub fn new(tokens: Vec<Token>) -> (p: Parser)
        ensures
            p.wf(),
            p.toks() == tokens@,
            p.pos() == 0,
    {
        Parser { tokens, index: 0 }
    }

    /// The cursor: how many tokens have been consumed.
    pub fn index(&self) -> (r: usize)
        ensures
            r == self.pos(),
    {
        self.index
    }

    /// Consumes the next token if it is keyword `k`, and says whether it did.
    pub fn parse_keyword(&mut self, k: Keyword) -> (r: bool)
        requires
            old(self).wf(),
        ensures
            final(self).wf(),
            final(self).toks() == old(self).toks(),
            r == kw_at(old(self).toks(), old(self).pos(), k),
            final(self).pos() == if r {
                old(self).pos() + 1
            } else {
                old(self).pos()
            },
    {
        if kw_at_exec(&self.tokens, self.index, k) {
            self.index = self.index + 1;
            true
        } else {
            false
        }
    }

    /// Steps the cursor back over the last consumed token.
    pub fn prev_token(&mut self)
        requires
            old(self).wf(),
            old(self).pos() > 0,
        ensures
            final(self).wf(),
            final(self).toks() == old(self).toks(),
            final(self).pos() == old(self).pos() - 1,
    {
        self.index = self.index - 1;
    }

    fn parse_identifier(&mut self) -> (r: Result<Ident, ParserError>)
        requires
            old(self).wf(),
        ensures
            final(self).wf(),
            final(self).toks() == old(self).toks(),
            if ident_at(old(self).toks(), old(self).pos()) {
                r matches Ok(id) && ident_matches(id, old(self).toks()[old(self).pos()])
                    && final(self).pos() == old(self).pos() + 1
            } else {
                r == Err::<Ident, ParserError>(expected(old(self).pos()))
            },
    {
        let i = self.index;
        if i < self.tokens.len() {
            match &self.tokens[i] {
                Token::Word(w) => {
                    if w.keyword == Keyword::NoKeyword {
                        let value = copy_chars(&w.value);
                        self.index = i + 1;
                        return Ok(Ident { value, quote_style: w.quote_style });
                    }
                },
                _ => {},
            }
        }
        Err(ParserError::Expected { pos: i })
    }

    fn parse_operand(&mut self) -> (r: Result<Expr, ParserError>)
        requires
            old(self).wf(),
        ensures
            final(self).wf(),
            final(self).toks() == old(self).toks(),
            if operand_at(old(self).toks(), old(self).pos()) {
                r matches Ok(e) && operand_matches(e, old(self).toks()[old(self).pos()])
                    && final(self).pos() == old(self).pos() + 1
            } else {
                r == Err::<Expr, ParserError>(expected(old(self).pos()))
            },
    {
        let i = self.index;
        if i < self.tokens.len() {
            match &self.tokens[i] {
                Token::Word(w) => {
                    if w.keyword == Keyword::NoKeyword {
                        let value = copy_chars(&w.value);
                        self.index = i + 1;
                        return Ok(Expr::Identifier(Ident { value, quote_style: w.quote_style }));
                    }
                },
                Token::Number(v) => {
                    let n = copy_chars(v);
                    self.index = i + 1;
                    return Ok(Expr::Number(n));
                },
                _ => {},
            }
        }
        Err(ParserError::Expected { pos: i })
    }

    /// Parses `ident {, ident} )`, the rest of a parenthesised name list.
    fn parse_ident_list(&mut self) -> (r: Result<Vec<Ident>, ParserError>)
        requires
            old(self).wf(),
        ensures
            final(self).wf(),
            final(self).toks() == old(self).toks(),
            match ident_list_end(old(self).toks(), old(self).pos()) {
                Ok(e) => r matches Ok(v) && ident_list_items(old(self).toks(), old(self).pos(), v@)
                    && final(self).pos() == e && e > old(self).pos(),
                Err(err) => r == Err::<Vec<Ident>, ParserError>(err),
            },
        decreases old(self).toks().len() - old(self).pos(),
    {
        let first = match self.parse_identifier() {
            Ok(id) => id,
            Err(e) => return Err(e),
        };
        if comma_at_exec(&self.tokens, self.index) {
            self.index = self.index + 1;
            match self.parse_ident_list() {
                Ok(rest) => {
                    let mut v = rest;
                    v.insert(0, first);
                    assert(v@.drop_first() =~= rest@);
                    Ok(v)
                },
                Err(e) => Err(e),
            }
        } else if rparen_at_exec(&self.tokens, self.index) {
            self.index = self.index + 1;
            let mut v: Vec<Ident> = Vec::new();
            v.push(first);
            Ok(v)
        } else {
            Err(ParserError::Expected { pos: self.index })
        }
    }

    /// Parses `operand {, operand} )`, the rest of a parenthesised value list.
    fn parse_operand_list(&mut self) -> (r: Result<Vec<Expr>, ParserError>)
        requires
            old(self).wf(),
        ensures
            final(self).wf(),
            final(self).toks() == old(self).toks(),
            match operand_list_end(old(self).toks(), old(self).pos()) {
                Ok(e) => r matches Ok(v) && operand_list_items(
                    old(self).toks(),
                    old(self).pos(),
                    v@,
                ) && final(self).pos() == e && e > old(self).pos(),
                Err(err) => r == Err::<Vec<Expr>, ParserError>(err),
            },
        decreases old(self).toks().len() - old(self).pos(),
    {
        let first = match self.parse_operand() {
            Ok(x) => x,
            Err(e) => return Err(e),
        };
        if comma_at_exec(&self.tokens, self.index) {
            self.index = self.index + 1;
            match self.parse_operand_list() {
                Ok(rest) => {
                    let mut v = rest;
                    v.insert(0, first);
                    assert(v@.drop_first() =~= rest@);
                    Ok(v)
                },
                Err(e) => Err(e),
            }
        } else if rparen_at_exec(&self.tokens, self.index) {
            self.index = self.index + 1;
            let mut v: Vec<Expr> = Vec::new();
            v.push(first);
            Ok(v)
        } else {
            Err(ParserError::Expected { pos: self.index })
        }
    }
    /// Parses a condition: an operand, optionally followed by an IN list or
    /// by a comparison with a second operand.
    fn parse_condition<D: Dialect>(&mut self, d: &D) -> (r: Result<Expr, ParserError>)
        requires
            old(self).wf(),
        ensures
            final(self).wf(),
            final(self).toks() == old(self).toks(),
            match condition_end(d, old(self).toks(), old(self).pos()) {
                Ok(e) => r matches Ok(x) && condition_shape(old(self).toks(), old(self).pos(), x)
                    && final(self).pos() == e,
                Err(err) => r == Err::<Expr, ParserError>(err),
            },
    {
        let left = match self.parse_operand() {
            Ok(x) => x,
            Err(e) => return Err(e),
        };
        if self.parse_keyword(Keyword::In) {
            if !lparen_at_exec(&self.tokens, self.index) {
                return Err(ParserError::Expected { pos: self.index });
            }
            self.index = self.index + 1;
            if rparen_at_exec(&self.tokens, self.index) {
                if !d.supports_in_empty_list() {
                    return Err(ParserError::Unsupported { pos: self.index });
                }
                self.index = self.index + 1;
                return Ok(Expr::InList { expr: Box::new(left), list: Vec::new() });
            }
            match self.parse_operand_list() {
                Ok(list) => Ok(Expr::InList { expr: Box::new(left), list }),
                Err(e) => Err(e),
            }
        } else {
            let i = self.index;
            let op = if i < self.tokens.len() {
                match &self.tokens[i] {
                    Token::Lt => Some(BinaryOperator::Lt),
                    Token::Gt => Some(BinaryOperator::Gt),
                    Token::Eq => Some(BinaryOperator::Eq),
                    _ => None,
                }
            } else {
                None
            };
            match op {
                Some(op) => {
                    self.index = i + 1;
                    match self.parse_operand() {
                        Ok(right) => Ok(Expr::BinaryOp { left: Box::new(left), op, right: Box::new(right) }),
                        Err(e) => Err(e),
                    }
                },
                None => Ok(left),
            }
        }
    }

    /// Parses a call `name(operand)` with its optional `FILTER (WHERE ...)`
    /// clause; the cursor stands on the name, followed by `(`.
    fn parse_call<D: Dialect>(&mut self, d: &D) -> (r: Result<Expr, ParserError>)
        requires
            old(self).wf(),
            call_at(old(self).toks(), old(self).pos()),
        ensures
            final(self).wf(),
            final(self).toks() == old(self).toks(),
            match call_end(d, old(self).toks(), old(self).pos()) {
                Ok(e) => r matches Ok(x) && call_shape(old(self).toks(), old(self).pos(), x)
                    && final(self).pos() == e,
                Err(err) => r == Err::<Expr, ParserError>(err),
            },
    {
        let name = match self.parse_identifier() {
            Ok(id) => id,
            Err(e) => return Err(e),
        };
        self.index = self.index + 1;
        let arg = match self.parse_operand() {
            Ok(x) => x,
            Err(e) => return Err(e),
        };
        if !rparen_at_exec(&self.tokens, self.index) {
            return Err(ParserError::Expected { pos: self.index });
        }
        self.index = self.index + 1;
        let at_filter = self.index;
        if !self.parse_keyword(Keyword::Filter) {
            return Ok(Expr::Function { name, arg: Box::new(arg), filter: None });
        }
        if !d.supports_filter_during_aggregation() {
            return Err(ParserError::Unsupported { pos: at_filter });
        }
        if !lparen_at_exec(&self.tokens, self.index) {
            return Err(ParserError::Expected { pos: self.index });
        }
        self.index = self.index + 1;
        if !self.parse_keyword(Keyword::Where) {
            return Err(ParserError::Expected { pos: self.index });
        }
        let cond = match self.parse_condition(d) {
            Ok(x) => x,
            Err(e) => return Err(e),
        };
        if !rparen_at_exec(&self.tokens, self.index) {
            return Err(ParserError::Expected { pos: self.index });
        }
        self.index = self.index + 1;
        Ok(Expr::Function { name, arg: Box::new(arg), filter: Some(Box::new(cond)) })
    }

    /// Parses an expression under dialect `d`: a call, or else a condition.
    pub fn parse_expr<D: Dialect>(&mut self, d: &D) -> (r: Result<Expr, ParserError>)
        requires
            old(self).wf(),
        ensures
            final(self).wf(),
            final(self).toks() == old(self).toks(),
            expr_outcome(d, old(self).toks(), old(self).pos(), r, final(self).pos()),
    {
        let i = self.index;
        let is_call = if i < self.tokens.len() && self.tokens.len() - i > 1 {
            match (&self.tokens[i], &self.tokens[i + 1]) {
                (Token::Word(w), Token::LParen) => w.keyword == Keyword::NoKeyword,
                _ => false,
            }
        } else {
            false
        };
        if is_call {
            self.parse_call(d)
        } else {
            self.parse_condition(d)
        }
    }

    /// Parses `WHERE expr` and returns the expression.
    pub fn parse_where<D: Dialect>(&mut self, d: &D) -> (r: Result<Expr, ParserError>)
        requires
            old(self).wf(),
        ensures
            final(self).wf(),
            final(self).toks() == old(self).toks(),
            if kw_at(old(self).toks(), old(self).pos(), Keyword::Where) {
                expr_outcome(d, old(self).toks(), old(self).pos() + 1, r, final(self).pos())
            } else {
                r == Err::<Expr, ParserError>(expected(old(self).pos()))
            },
    {
        if self.parse_keyword(Keyword::Where) {
            self.parse_expr(d)
        } else {
            Err(ParserError::Expected { pos: self.index })
        }
    }

    /// Parses an INSERT statement whose word `INSERT` has been consumed, or
    /// whose cursor stands on the `REPLACE` that replaces it.
    pub fn parse_insert(&mut self) -> (r: Result<Statement, ParserError>)
        requires
            old(self).wf(),
        ensures
            final(self).wf(),
            final(self).toks() == old(self).toks(),
            insert_outcome(old(self).toks(), old(self).pos(), r, final(self).pos()),
            r is Ok ==> final(self).pos() > old(self).pos(),
    {
        let p = self.index;
        let or_replace = if self.parse_keyword(Keyword::Or) {
            if self.parse_keyword(Keyword::Replace) {
                true
            } else {
                self.index = p;
                false
            }
        } else {
            self.parse_keyword(Keyword::Replace)
        };
        if !self.parse_keyword(Keyword::Into) {
            return Err(ParserError::Expected { pos: self.index });
        }
        let table = match self.parse_identifier() {
            Ok(id) => id,
            Err(e) => return Err(e),
        };
        let columns = if lparen_at_exec(&self.tokens, self.index) {
            self.index = self.index + 1;
            match self.parse_ident_list() {
                Ok(v) => v,
                Err(e) => return Err(e),
            }
        } else {
            Vec::new()
        };
        if !self.parse_keyword(Keyword::Values) {
            return Err(ParserError::Expected { pos: self.index });
        }
        if !lparen_at_exec(&self.tokens, self.index) {
            return Err(ParserError::Expected { pos: self.index });
        }
        self.index = self.index + 1;
        let values = match self.parse_operand_list() {
            Ok(v) => v,
            Err(e) => return Err(e),
        };
        Ok(Statement::Insert { or_replace, table, columns, values })
    }

    /// Parses one statement under dialect `d`.
    ///
    /// The dialect's hook is offered the statement first. If it declines,
    /// the cursor is where it was and the generic grammar runs; if it
    /// takes the statement, its result (success or error) is the result.
    pub fn parse_statement<D: Dialect>(&mut self, d: &D) -> (r: Result<Statement, ParserError>)
        requires
            old(self).wf(),
        ensures
            final(self).wf(),
            final(self).toks() == old(self).toks(),
            if d.overrides(old(self).toks(), old(self).pos()) {
                d.override_outcome(old(self).toks(), old(self).pos(), r, final(self).pos())
            } else {
                statement_outcome(old(self).toks(), old(self).pos(), r, final(self).pos())
            },
            r is Ok ==> final(self).pos() > old(self).pos(),
    {
        match d.parse_statement(self) {
            Some(res) => res,
            None => {
                if self.parse_keyword(Keyword::Insert) {
                    self.parse_insert()
                } else {
                    Err(ParserError::Expected { pos: self.index })
                }
            },
        }
    }
}

} // verus!
