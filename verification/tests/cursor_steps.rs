use sqlparser::parser::ParserError;
use vql::token::Lexeme;
use vql::{opens_well, parse_config_parameters, parse_create_datasource, Cursor, ParseError, V};

#[test]
fn entry_parser_takes_three_tokens() {
    let mut cursor = Cursor::open("Name = 'v' next = 'w' )").unwrap();
    let entry = parse_config_parameters(&mut cursor).unwrap();
    assert_eq!(entry.name, "Name");
    assert_eq!(entry.value, "v");
    let entry = parse_config_parameters(&mut cursor).unwrap();
    assert_eq!(entry.name, "next");
    assert_eq!(entry.value, "w");
    assert!(matches!(cursor.peek(0), Lexeme::RParen));
    assert!(matches!(
        parse_config_parameters(&mut cursor),
        Err(ParseError::ExpectedIdentifier)
    ));
    assert!(matches!(cursor.peek(0), Lexeme::RParen));
}

#[test]
fn entry_parser_stops_where_it_fails() {
    let mut cursor = Cursor::open("a , 'b'").unwrap();
    assert!(matches!(
        parse_config_parameters(&mut cursor),
        Err(ParseError::Sql(ParserError::ParserError(_)))
    ));
    assert!(matches!(cursor.peek(0), Lexeme::Other));
    assert!(matches!(cursor.peek(1), Lexeme::Quoted(ref s) if s == "b"));
    let mut cursor = Cursor::open("a = 7 'b'").unwrap();
    assert!(matches!(parse_config_parameters(&mut cursor), Err(ParseError::ExpectedValue)));
    assert!(matches!(cursor.peek(0), Lexeme::Other));
    assert!(matches!(cursor.peek(1), Lexeme::Quoted(ref s) if s == "b"));
    let mut cursor = Cursor::open("").unwrap();
    assert!(matches!(
        parse_config_parameters(&mut cursor),
        Err(ParseError::ExpectedIdentifier)
    ));
    assert!(matches!(cursor.peek(0), Lexeme::Eof));
}

#[test]
fn statement_parser_stops_behind_the_close_paren() {
    let mut cursor = Cursor::open("CREATE DATASOURCE s CONFIG(a = 'b' c = 'd') ; select 1")
        .unwrap();
    let V::CreateDataSource { table_name, config_parameters } =
        parse_create_datasource(&mut cursor).unwrap();
    assert_eq!(table_name, "s");
    assert_eq!(config_parameters.len(), 2);
    assert_eq!(config_parameters[0].name, "a");
    assert_eq!(config_parameters[0].value, "b");
    assert_eq!(config_parameters[1].name, "c");
    assert_eq!(config_parameters[1].value, "d");
    assert!(matches!(cursor.peek(0), Lexeme::SemiColon));
    assert!(matches!(cursor.peek(1), Lexeme::Word(ref s) if s == "select"));
}

#[test]
fn statement_parser_reports_what_is_missing() {
    let mut cursor = Cursor::open("CREATE DATASOURCE 7").unwrap();
    assert!(matches!(
        parse_create_datasource(&mut cursor),
        Err(ParseError::ExpectedTableName)
    ));
    let mut cursor = Cursor::open("CREATE DATASOURCE s WITH (a = 'b')").unwrap();
    assert!(matches!(parse_create_datasource(&mut cursor), Err(ParseError::ExpectedConfig)));
    assert!(matches!(cursor.peek(0), Lexeme::Word(ref s) if s == "WITH"));
    let mut cursor = Cursor::open("CREATE DATASOURCE s CONFIG(a = 'b' c)").unwrap();
    assert!(matches!(
        parse_create_datasource(&mut cursor),
        Err(ParseError::Sql(ParserError::ParserError(_)))
    ));
}

#[test]
fn open_paren_can_be_tested_before_the_statement_is_read() {
    let cursor = Cursor::open("CREATE DATASOURCE s CONFIG(a = 'b')").unwrap();
    assert!(opens_well(&cursor));
    let cursor = Cursor::open("CREATE DATASOURCE s CONFIG a = 'b')").unwrap();
    assert!(!opens_well(&cursor));
    let cursor = Cursor::open("CREATE DATASOURCE s WITH a").unwrap();
    assert!(opens_well(&cursor));
    let cursor = Cursor::open("CREATE DATASOURCE").unwrap();
    assert!(opens_well(&cursor));
}

#[test]
fn cursor_refuses_what_the_tokenizer_refuses() {
    assert!(matches!(Cursor::open("select 'abc"), Err(ParserError::TokenizerError(_))));
}

#[test]
fn missing_equals_sign_gives_the_error_of_its_place() {
    let mut cursor = Cursor::open("a 'b'").unwrap();
    match parse_config_parameters(&mut cursor) {
        Err(ParseError::Sql(ParserError::ParserError(message))) => {
            assert_eq!(message, "Expected: =, found: 'b' at Line: 1, Column: 3");
        }
        other => panic!("{:?}", other),
    }
}
