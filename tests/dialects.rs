use sql_dialect::ast::{BinaryOperator, Expr, Ident, Statement};
use sql_dialect::dialect::{Dialect, GenericDialect, SQLiteDialect};
use sql_dialect::parser::{Parser, ParserError};
use sql_dialect::tokenizer::{keyword_lookup, next_token, tokenize, Keyword, Token, TokenizerError, Word};

fn chars(s: &str) -> Vec<char> {
    s.chars().collect()
}

fn ident(s: &str) -> Ident {
    Ident { value: chars(s), quote_style: None }
}

fn parse_with<D: Dialect>(d: &D, sql: &str) -> Result<Statement, ParserError> {
    let toks = tokenize(d, &chars(sql)).expect("tokenizes");
    Parser::new(toks).parse_statement(d)
}

fn parse_expr_with<D: Dialect>(d: &D, sql: &str) -> (Result<Expr, ParserError>, usize) {
    let toks = tokenize(d, &chars(sql)).expect("tokenizes");
    let mut p = Parser::new(toks);
    let r = p.parse_expr(d);
    (r, p.index())
}

#[test]
fn sqlite_backtick_identifier_is_one_token() {
    let toks = tokenize(&SQLiteDialect {}, &chars("`my col`")).unwrap();
    assert_eq!(
        toks,
        vec![Token::Word(Word {
            value: chars("my col"),
            quote_style: Some('`'),
            keyword: Keyword::NoKeyword,
        })]
    );
}

#[test]
fn generic_backtick_identifier_is_a_lexing_error() {
    assert_eq!(
        tokenize(&GenericDialect {}, &chars("`my col`")),
        Err(TokenizerError::UnexpectedChar { pos: 0 })
    );
}

#[test]
fn sqlite_bracket_identifier_closes_on_bracket() {
    let toks = tokenize(&SQLiteDialect {}, &chars("[a b] c")).unwrap();
    assert_eq!(toks.len(), 2);
    assert_eq!(
        toks[0],
        Token::Word(Word { value: chars("a b"), quote_style: Some('['), keyword: Keyword::NoKeyword })
    );
}

#[test]
fn double_quote_identifier_in_both_dialects() {
    let expected = vec![Token::Word(Word {
        value: chars("x y"),
        quote_style: Some('"'),
        keyword: Keyword::NoKeyword,
    })];
    assert_eq!(tokenize(&GenericDialect {}, &chars("\"x y\"")).unwrap(), expected);
    assert_eq!(tokenize(&SQLiteDialect {}, &chars("\"x y\"")).unwrap(), expected);
}

#[test]
fn unterminated_delimited_identifier() {
    assert_eq!(
        tokenize(&SQLiteDialect {}, &chars("a `b")),
        Err(TokenizerError::UnterminatedDelimitedIdentifier { pos: 2 })
    );
}

#[test]
fn replace_parses_as_insert_or_replace() {
    let d = SQLiteDialect {};
    let replace = parse_with(&d, "REPLACE INTO t (a) VALUES (1)").unwrap();
    let insert = parse_with(&d, "INSERT OR REPLACE INTO t (a) VALUES (1)").unwrap();
    assert_eq!(replace, insert);
    assert_eq!(
        replace,
        Statement::Insert {
            or_replace: true,
            table: ident("t"),
            columns: vec![ident("a")],
            values: vec![Expr::Number(chars("1"))],
        }
    );
}

#[test]
fn replace_is_no_statement_in_generic_dialect() {
    assert_eq!(
        parse_with(&GenericDialect {}, "REPLACE INTO t (a) VALUES (1)"),
        Err(ParserError::Expected { pos: 0 })
    );
}

#[test]
fn plain_insert_in_generic_dialect() {
    let st = parse_with(&GenericDialect {}, "insert into t (a, b) values (1, x)").unwrap();
    assert_eq!(
        st,
        Statement::Insert {
            or_replace: false,
            table: ident("t"),
            columns: vec![ident("a"), ident("b")],
            values: vec![Expr::Number(chars("1")), Expr::Identifier(ident("x"))],
        }
    );
}

#[test]
fn insert_without_columns() {
    let st = parse_with(&SQLiteDialect {}, "INSERT INTO t VALUES (7)").unwrap();
    assert_eq!(
        st,
        Statement::Insert {
            or_replace: false,
            table: ident("t"),
            columns: vec![],
            values: vec![Expr::Number(chars("7"))],
        }
    );
}

#[test]
fn insert_or_without_replace_fails() {
    assert_eq!(
        parse_with(&SQLiteDialect {}, "INSERT OR INTO t VALUES (1)"),
        Err(ParserError::Expected { pos: 1 })
    );
}

#[test]
fn replace_with_bad_list_propagates_error() {
    assert_eq!(
        parse_with(&SQLiteDialect {}, "REPLACE INTO t (a VALUES (1)"),
        Err(ParserError::Expected { pos: 5 })
    );
}

#[test]
fn empty_in_list_allowed_in_sqlite() {
    let d = SQLiteDialect {};
    let toks = tokenize(&d, &chars("WHERE x IN ()")).unwrap();
    let mut p = Parser::new(toks);
    assert_eq!(
        p.parse_where(&d),
        Ok(Expr::InList { expr: Box::new(Expr::Identifier(ident("x"))), list: vec![] })
    );
    assert_eq!(p.index(), 5);
}

#[test]
fn empty_in_list_refused_in_generic() {
    let d = GenericDialect {};
    let toks = tokenize(&d, &chars("WHERE x IN ()")).unwrap();
    let mut p = Parser::new(toks);
    assert_eq!(p.parse_where(&d), Err(ParserError::Unsupported { pos: 4 }));
}

#[test]
fn non_empty_in_list_in_generic() {
    let (r, end) = parse_expr_with(&GenericDialect {}, "x IN (1, 2)");
    assert_eq!(
        r,
        Ok(Expr::InList {
            expr: Box::new(Expr::Identifier(ident("x"))),
            list: vec![Expr::Number(chars("1")), Expr::Number(chars("2"))],
        })
    );
    assert_eq!(end, 7);
}

#[test]
fn aggregate_filter_allowed_in_sqlite() {
    let (r, end) = parse_expr_with(&SQLiteDialect {}, "SUM(x) FILTER (WHERE x > 0)");
    assert_eq!(
        r,
        Ok(Expr::Function {
            name: ident("SUM"),
            arg: Box::new(Expr::Identifier(ident("x"))),
            filter: Some(Box::new(Expr::BinaryOp {
                left: Box::new(Expr::Identifier(ident("x"))),
                op: BinaryOperator::Gt,
                right: Box::new(Expr::Number(chars("0"))),
            })),
        })
    );
    assert_eq!(end, 11);
}

#[test]
fn aggregate_filter_refused_in_generic() {
    let (r, _) = parse_expr_with(&GenericDialect {}, "SUM(x) FILTER (WHERE x > 0)");
    assert_eq!(r, Err(ParserError::Unsupported { pos: 4 }));
}

#[test]
fn aggregate_without_filter_in_generic() {
    let (r, end) = parse_expr_with(&GenericDialect {}, "SUM(x)");
    assert_eq!(
        r,
        Ok(Expr::Function {
            name: ident("SUM"),
            arg: Box::new(Expr::Identifier(ident("x"))),
            filter: None,
        })
    );
    assert_eq!(end, 4);
}

#[test]
fn identifier_start_chars_are_parts() {
    let samples = ['a', 'Z', '_', '$', '0', '9', ' ', '`', '\u{7f}', '\u{80}', 'é', '\u{ffff}', '\u{10000}', '\u{1f600}'];
    let g = GenericDialect {};
    let s = SQLiteDialect {};
    for c in samples {
        if g.is_identifier_start(c) {
            assert!(g.is_identifier_part(c));
        }
        if s.is_identifier_start(c) {
            assert!(s.is_identifier_part(c));
        }
    }
}

#[test]
fn digits_are_identifier_parts() {
    for c in '0'..='9' {
        assert!(GenericDialect {}.is_identifier_part(c));
        assert!(SQLiteDialect {}.is_identifier_part(c));
        assert!(!SQLiteDialect {}.is_identifier_start(c));
    }
}

#[test]
fn sqlite_identifier_start_range() {
    let d = SQLiteDialect {};
    assert!(d.is_identifier_start('$'));
    assert!(!d.is_identifier_start('\u{7f}'));
    assert!(d.is_identifier_start('\u{80}'));
    assert!(d.is_identifier_start('é'));
    assert!(d.is_identifier_start('\u{ffff}'));
    assert!(d.is_identifier_start('\u{10000}'));
    assert!(d.is_identifier_start('\u{1f600}'));
    assert!(d.is_identifier_start('\u{10ffff}'));
    assert!(d.is_identifier_part('\u{1f600}'));
    assert!(!d.is_identifier_part('\u{7f}'));
    assert!(!d.is_identifier_start('\u{7e}'));
    assert!(!GenericDialect {}.is_identifier_start('$'));
    assert!(!GenericDialect {}.is_identifier_start('é'));
}

#[test]
fn delimited_identifier_starts() {
    let s = SQLiteDialect {};
    let g = GenericDialect {};
    assert!(s.is_delimited_identifier_start('`'));
    assert!(s.is_delimited_identifier_start('['));
    assert!(s.is_delimited_identifier_start('"'));
    assert!(!s.is_delimited_identifier_start('\''));
    assert!(g.is_delimited_identifier_start('"'));
    assert!(!g.is_delimited_identifier_start('`'));
    assert!(!g.is_delimited_identifier_start('['));
}

#[test]
fn feature_flags() {
    assert!(SQLiteDialect {}.supports_filter_during_aggregation());
    assert!(SQLiteDialect {}.supports_in_empty_list());
    assert!(!GenericDialect {}.supports_filter_during_aggregation());
    assert!(!GenericDialect {}.supports_in_empty_list());
}

#[test]
fn queries_give_the_same_answer_twice() {
    let d = SQLiteDialect {};
    for c in ['a', '`', '1', '\u{100}', ' '] {
        assert_eq!(d.is_identifier_start(c), d.is_identifier_start(c));
        assert_eq!(d.is_identifier_part(c), d.is_identifier_part(c));
        assert_eq!(d.is_delimited_identifier_start(c), d.is_delimited_identifier_start(c));
    }
    assert_eq!(d.supports_in_empty_list(), d.supports_in_empty_list());
    let toks = tokenize(&d, &chars("REPLACE INTO t VALUES (1)")).unwrap();
    let first = Parser::new(toks.clone()).parse_statement(&d);
    let second = Parser::new(toks).parse_statement(&d);
    assert_eq!(first, second);
}

#[test]
fn declined_hook_leaves_cursor() {
    let toks = tokenize(&SQLiteDialect {}, &chars("INSERT INTO t VALUES (1)")).unwrap();
    let mut p = Parser::new(toks.clone());
    assert!(SQLiteDialect {}.parse_statement(&mut p).is_none());
    assert_eq!(p.index(), 0);
    let mut q = Parser::new(toks);
    assert!(q.parse_keyword(Keyword::Insert));
    assert!(GenericDialect {}.parse_statement(&mut q).is_none());
    assert_eq!(q.index(), 1);
}

#[test]
fn taken_hook_advances_cursor() {
    let toks = tokenize(&SQLiteDialect {}, &chars("REPLACE INTO t VALUES (1)")).unwrap();
    let n = toks.len();
    let mut p = Parser::new(toks);
    assert!(matches!(SQLiteDialect {}.parse_statement(&mut p), Some(Ok(_))));
    assert_eq!(p.index(), n);
}

#[test]
fn keywords_ignore_case() {
    assert_eq!(keyword_lookup(&chars("Replace")), Keyword::Replace);
    assert_eq!(keyword_lookup(&chars("in")), Keyword::In);
    assert_eq!(keyword_lookup(&chars("iN")), Keyword::In);
    assert_eq!(keyword_lookup(&chars("INS")), Keyword::NoKeyword);
    assert_eq!(keyword_lookup(&chars("filter")), Keyword::Filter);
}

#[test]
fn tokens_of_mixed_input() {
    let toks = tokenize(&GenericDialect {}, &chars("  ab1 , 42<=")).unwrap();
    assert_eq!(
        toks,
        vec![
            Token::Word(Word { value: chars("ab1"), quote_style: None, keyword: Keyword::NoKeyword }),
            Token::Comma,
            Token::Number(chars("42")),
            Token::Lt,
            Token::Eq,
        ]
    );
    assert_eq!(tokenize(&GenericDialect {}, &chars("   ")).unwrap(), vec![]);
    assert_eq!(tokenize(&GenericDialect {}, &chars("a ; b")), Err(TokenizerError::UnexpectedChar { pos: 2 }));
}

#[test]
fn next_token_reports_its_end() {
    let s = chars("abc def");
    let (t, end) = next_token(&GenericDialect {}, &s, 0).unwrap();
    assert_eq!(end, 3);
    assert_eq!(t, Token::Word(Word { value: chars("abc"), quote_style: None, keyword: Keyword::NoKeyword }));
}

#[test]
fn prev_token_steps_back() {
    let toks = tokenize(&SQLiteDialect {}, &chars("REPLACE INTO")).unwrap();
    let mut p = Parser::new(toks);
    assert!(p.parse_keyword(Keyword::Replace));
    assert_eq!(p.index(), 1);
    p.prev_token();
    assert_eq!(p.index(), 0);
    assert!(!p.parse_keyword(Keyword::Into));
    assert_eq!(p.index(), 0);
}

#[test]
fn sqlite_identifier_beyond_basic_plane() {
    let toks = tokenize(&SQLiteDialect {}, &chars("\u{1f600}x1")).unwrap();
    assert_eq!(
        toks,
        vec![Token::Word(Word { value: chars("\u{1f600}x1"), quote_style: None, keyword: Keyword::NoKeyword })]
    );
    assert_eq!(
        tokenize(&GenericDialect {}, &chars("\u{1f600}x1")),
        Err(TokenizerError::UnexpectedChar { pos: 0 })
    );
}
