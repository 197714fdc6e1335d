use vstd::prelude::*;

use crate::ast::Statement;
use crate::parser::{
    conflict_end, insert_from_same_tail, insert_outcome, kw_at, statement_outcome, Parser,
    ParserError,
};
use crate::tokenizer::{Keyword, Token};

verus! {

/// Whether `ch` is an ASCII decimal digit.
pub open spec fn is_digit(ch: char) -> bool {
    '0' <= ch && ch <= '9'
}

/// Whether `ch` is an ASCII letter, upper or lower case.
pub open spec fn is_ascii_letter(ch: char) -> bool {
    ('a' <= ch && ch <= 'z') || ('A' <= ch && ch <= 'Z')
}

/// The capability interface that the tokenizer and the parser consult.
///
/// Each query is described by a spec function of the dialect alone, so the
/// answer can depend on nothing but the dialect and the argument.
pub trait Dialect {
    /// The characters that open a quoted identifier.
    spec fn delimited_identifier_start(&self, ch: char) -> bool;

    /// The characters that may begin a bare identifier.
    spec fn identifier_start(&self, ch: char) -> bool;

    /// The characters that may follow the first one of a bare identifier.
    spec fn identifier_part(&self, ch: char) -> bool;

    /// Whether an aggregate call may carry `FILTER (WHERE ...)`.
    spec fn filter_during_aggregation(&self) -> bool;

    /// Whether `IN ()` with no items is legal.
    spec fn in_empty_list(&self) -> bool;

    /// Whether the hook takes the statement that starts at `pos`.
    spec fn overrides(&self, toks: Seq<Token>, pos: int) -> bool;

    /// What the hook gives when it takes the statement at `pos`: its result
    /// and the cursor `end` it leaves.
    spec fn override_outcome(
        &self,
        toks: Seq<Token>,
        pos: int,
        r: Result<Statement, ParserError>,
        end: int,
    ) -> bool;

    /// Every character that may start an identifier may also continue one.
    proof fn lemma_start_is_part(&self, ch: char)
        ensures
            self.identifier_start(ch) ==> self.identifier_part(ch),
    ;

    /// Every ASCII digit may continue an identifier.
    proof fn lemma_digit_is_part(&self, ch: char)
        ensures
            is_digit(ch) ==> self.identifier_part(ch),
    ;

    /// Does `ch` open a quoted identifier?
    fn is_delimited_identifier_start(&self, ch: char) -> (r: bool)
        ensures
            r == self.delimited_identifier_start(ch),
    ;

    /// May `ch` be the first character of a bare identifier?
    fn is_identifier_start(&self, ch: char) -> (r: bool)
        ensures
            r == self.identifier_start(ch),
    ;

    /// May `ch` continue a bare identifier?
    fn is_identifier_part(&self, ch: char) -> (r: bool)
        ensures
            r == self.identifier_part(ch),
    ;

    /// Is a `FILTER (WHERE ...)` clause allowed after an aggregate call?
    fn supports_filter_during_aggregation(&self) -> (r: bool)
        ensures
            r == self.filter_during_aggregation(),
    ;

    /// Is an empty list allowed in `x IN ()`?
    fn supports_in_empty_list(&self) -> (r: bool)
        ensures
            r == self.in_empty_list(),
    ;

    /// The hook that sees each statement before the generic grammar does.
    ///
    /// It returns `None` and leaves the cursor where it was, or takes the
    /// statement and returns its result; a success has moved the cursor.
    fn parse_statement(&self, parser: &mut Parser) -> (r: Option<Result<Statement, ParserError>>)
        requires
            old(parser).wf(),
        ensures
            final(parser).wf(),
            final(parser).toks() == old(parser).toks(),
            r is Some == self.overrides(old(parser).toks(), old(parser).pos()),
            r is None ==> final(parser).pos() == old(parser).pos(),
            r matches Some(res) ==> self.override_outcome(
                old(parser).toks(),
                old(parser).pos(),
                res,
                final(parser).pos(),
            ),
            r matches Some(Ok(_)) ==> final(parser).pos() > old(parser).pos(),
    ;
}

/// The generic SQL dialect: the conservative default behaviour.
#[derive(Debug)]
pub struct GenericDialect {}

impl Dialect for GenericDialect {
    open spec fn delimited_identifier_start(&self, ch: char) -> bool {
        ch == '"'
    }

    open spec fn identifier_start(&self, ch: char) -> bool {
        is_ascii_letter(ch) || ch == '_'
    }

    open spec fn identifier_part(&self, ch: char) -> bool {
        self.identifier_start(ch) || is_digit(ch)
    }

    open spec fn filter_during_aggregation(&self) -> bool {
        false
    }

    open spec fn in_empty_list(&self) -> bool {
        false
    }

    /// The generic dialect leaves every statement to the generic grammar.
    open spec fn overrides(&self, toks: Seq<Token>, pos: int) -> bool {
        false
    }

    open spec fn override_outcome(
        &self,
        toks: Seq<Token>,
        pos: int,
        r: Result<Statement, ParserError>,
        end: int,
    ) -> bool {
        false
    }

    proof fn lemma_start_is_part(&self, ch: char) {
    }

    proof fn lemma_digit_is_part(&self, ch: char) {
    }

    fn is_delimited_identifier_start(&self, ch: char) -> (r: bool) {
        ch == '"'
    }

    fn is_identifier_start(&self, ch: char) -> (r: bool) {
        ('a' <= ch && ch <= 'z') || ('A' <= ch && ch <= 'Z') || ch == '_'
    }

    fn is_identifier_part(&self, ch: char) -> (r: bool) {
        self.is_identifier_start(ch) || ('0' <= ch && ch <= '9')
    }

    fn supports_filter_during_aggregation(&self) -> (r: bool) {
        false
    }

    fn supports_in_empty_list(&self) -> (r: bool) {
        false
    }

    fn parse_statement(&self, parser: &mut Parser) -> (r: Option<Result<Statement, ParserError>>) {
        None
    }
}

/// The dialect of SQLite.
#[derive(Debug)]
pub struct SQLiteDialect {}

impl Dialect for SQLiteDialect {
    /// Backtick, double quote and opening bracket quote an identifier.
    open spec fn delimited_identifier_start(&self, ch: char) -> bool {
        ch == '`' || ch == '"' || ch == '['
    }

    /// ASCII letters, `_`, `$`, and every character above the ASCII range.
    open spec fn identifier_start(&self, ch: char) -> bool {
        is_ascii_letter(ch) || ch == '_' || ch == '$' || '\u{0080}' <= ch
    }

    open spec fn identifier_part(&self, ch: char) -> bool {
        self.identifier_start(ch) || is_digit(ch)
    }

    open spec fn filter_during_aggregation(&self) -> bool {
        true
    }

    open spec fn in_empty_list(&self) -> bool {
        true
    }

    /// A statement that starts with `REPLACE` is taken.
    open spec fn overrides(&self, toks: Seq<Token>, pos: int) -> bool {
        kw_at(toks, pos, Keyword::Replace)
    }

    /// `REPLACE` reads as `INSERT OR REPLACE`: the INSERT grammar runs from
    /// the `REPLACE` itself, which it takes as the conflict clause.
    open spec fn override_outcome(
        &self,
        toks: Seq<Token>,
        pos: int,
        r: Result<Statement, ParserError>,
        end: int,
    ) -> bool {
        insert_outcome(toks, pos, r, end)
    }

    proof fn lemma_start_is_part(&self, ch: char) {
    }

    proof fn lemma_digit_is_part(&self, ch: char) {
    }

    fn is_delimited_identifier_start(&self, ch: char) -> (r: bool) {
        ch == '`' || ch == '"' || ch == '['
    }

    fn is_identifier_start(&self, ch: char) -> (r: bool) {
        ('a' <= ch && ch <= 'z') || ('A' <= ch && ch <= 'Z') || ch == '_' || ch == '$'
            || '\u{0080}' <= ch
    }

    fn is_identifier_part(&self, ch: char) -> (r: bool) {
        self.is_identifier_start(ch) || ('0' <= ch && ch <= '9')
    }

    fn supports_filter_during_aggregation(&self) -> (r: bool) {
        true
    }

    fn supports_in_empty_list(&self) -> (r: bool) {
        true
    }

    fn parse_statement(&self, parser: &mut Parser) -> (r: Option<Result<Statement, ParserError>>) {
        if parser.parse_keyword(Keyword::Replace) {
            parser.prev_token();
            Some(parser.parse_insert())
        } else {
            None
        }
    }
}

/// In every dialect, a character that may start an identifier may also
/// continue it.
pub proof fn identifier_start_is_part<D: Dialect>(d: &D, ch: char)
    ensures
        d.identifier_start(ch) ==> d.identifier_part(ch),
{
    d.lemma_start_is_part(ch);
}

/// In every dialect, each ASCII digit may continue an identifier.
pub proof fn digit_is_identifier_part<D: Dialect>(d: &D, ch: char)
    requires
        is_digit(ch),
    ensures
        d.identifier_part(ch),
{
    d.lemma_digit_is_part(ch);
}

/// Under SQLite, a statement `REPLACE rest` is taken by the dialect's hook
/// and parses to exactly the statements that the generic grammar gives for
/// `INSERT OR REPLACE rest`; the cursor ends two tokens earlier, since the
/// input is two tokens shorter.
pub proof fn replace_parses_as_insert_or_replace(
    t1: Seq<Token>,
    t2: Seq<Token>,
    st: Statement,
    end: int,
)
    requires
        kw_at(t1, 0, Keyword::Replace),
        kw_at(t2, 0, Keyword::Insert),
        kw_at(t2, 1, Keyword::Or),
        kw_at(t2, 2, Keyword::Replace),
        t1.subrange(1, t1.len() as int) == t2.subrange(3, t2.len() as int),
    ensures
        (SQLiteDialect {}).overrides(t1, 0),
        !(SQLiteDialect {}).overrides(t2, 0),
        (SQLiteDialect {}).override_outcome(t1, 0, Ok(st), end) <==> statement_outcome(
            t2,
            0,
            Ok(st),
            end + 2,
        ),
{
    assert(conflict_end(t1, 0) == 1);
    assert(conflict_end(t2, 1) == 3);
    insert_from_same_tail(t1, 0, t2, 1);
}

} // verus!
