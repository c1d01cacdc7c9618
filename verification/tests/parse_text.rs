use sqlparser::ast::Statement;
use sqlparser::parser::ParserError;
use vql::{parse, ConfigParameter, ParseError, V, VQL};

fn pairs(entries: &[ConfigParameter]) -> Vec<(String, String)> {
    entries.iter().map(|e| (e.name.clone(), e.value.clone())).collect()
}

fn owned(list: &[(&str, &str)]) -> Vec<(String, String)> {
    list.iter().map(|(n, v)| (n.to_string(), v.to_string())).collect()
}

fn data_source(statement: &VQL) -> (String, Vec<(String, String)>) {
    match statement {
        VQL::V(V::CreateDataSource { table_name, config_parameters }) => {
            (table_name.clone(), pairs(config_parameters))
        }
        VQL::Sql(other) => panic!("a statement of standard SQL: {:?}", other),
    }
}

#[test]
fn test_parse_data_source() {
    let x = parse(
        r#"
    CREATE DATASOURCE user
    CONFIG(
        DriverClassName = 'com.mysql.jdbc.Driver'
        DataBaseUri = 'jdbc:mysql://localhost:3306/acme_crm'
        UserName = 'acme_user'
        UserPassword = 'xxxx'
        DatabaseName = 'mysql'
        DatabaseVersion = '8'

    )
    

    select * from user;
    "#,
    )
    .unwrap();
    println!("{:?}", x);
}

#[test]
fn data_source_without_separator_is_followed_by_query() {
    let x = parse(
        "CREATE DATASOURCE user CONFIG( DriverClassName = 'com.mysql.jdbc.Driver' \
         DataBaseUri = 'jdbc:mysql://localhost:3306/acme_crm' UserName = 'acme_user' \
         UserPassword = 'xxxx' DatabaseName = 'mysql' DatabaseVersion = '8' ) select * from user;",
    )
    .unwrap();
    assert_eq!(x.len(), 2);
    let (name, config) = data_source(&x[0]);
    assert_eq!(name, "user");
    assert_eq!(
        config,
        owned(&[
            ("DriverClassName", "com.mysql.jdbc.Driver"),
            ("DataBaseUri", "jdbc:mysql://localhost:3306/acme_crm"),
            ("UserName", "acme_user"),
            ("UserPassword", "xxxx"),
            ("DatabaseName", "mysql"),
            ("DatabaseVersion", "8"),
        ])
    );
    assert!(matches!(x[1], VQL::Sql(Statement::Query(_))));
}

#[test]
fn data_source_then_query() {
    let x = parse(
        "CREATE DATASOURCE user CONFIG(DriverClassName = 'com.mysql.jdbc.Driver' UserName = 'acme_user') ; select * from user;",
    )
    .unwrap();
    assert_eq!(x.len(), 2);
    let (name, config) = data_source(&x[0]);
    assert_eq!(name, "user");
    assert_eq!(
        config,
        owned(&[("DriverClassName", "com.mysql.jdbc.Driver"), ("UserName", "acme_user")])
    );
    match &x[1] {
        VQL::Sql(statement) => assert_eq!(statement.to_string(), "SELECT * FROM user"),
        VQL::V(_) => panic!("the query was taken for a data source"),
    }
}

#[test]
fn empty_config_is_accepted() {
    let x = parse("CREATE DATASOURCE db CONFIG()").unwrap();
    assert_eq!(x.len(), 1);
    let (name, config) = data_source(&x[0]);
    assert_eq!(name, "db");
    assert!(config.is_empty());
}

#[test]
fn empty_text_has_no_statements() {
    assert!(parse("").unwrap().is_empty());
    assert!(parse("  \n\t ").unwrap().is_empty());
}

#[test]
fn keywords_are_read_in_any_case() {
    let x = parse("create DataSource Db cOnFiG(Key = 'Value')").unwrap();
    assert_eq!(x.len(), 1);
    let (name, config) = data_source(&x[0]);
    assert_eq!(name, "Db");
    assert_eq!(config, owned(&[("Key", "Value")]));
}

#[test]
fn upper_case_keywords_are_lowered_before_comparison() {
    let x = parse("CREATE DATASOURCE a CONFIG(b = 'c')").unwrap();
    assert_eq!(data_source(&x[0]), ("a".to_string(), owned(&[("b", "c")])));
}

#[test]
fn entries_keep_order_and_duplicates() {
    let x = parse("CREATE DATASOURCE d CONFIG(b = '2' a = '1' b = '3' A = '')").unwrap();
    let (_, config) = data_source(&x[0]);
    assert_eq!(config, owned(&[("b", "2"), ("a", "1"), ("b", "3"), ("A", "")]));
}

#[test]
fn value_is_the_text_between_the_quotes() {
    let x = parse("CREATE DATASOURCE d CONFIG(uri = 'jdbc:mysql://h:1/x y; z = (q)')").unwrap();
    let (_, config) = data_source(&x[0]);
    assert_eq!(config, owned(&[("uri", "jdbc:mysql://h:1/x y; z = (q)")]));
}

#[test]
fn first_two_tokens_are_passed_unread() {
    let x = parse("CREATE anything d CONFIG()").unwrap();
    assert_eq!(data_source(&x[0]), ("d".to_string(), Vec::new()));
    let y = parse("declare DATASOURCE e CONFIG(k = 'v')").unwrap();
    assert_eq!(data_source(&y[0]), ("e".to_string(), owned(&[("k", "v")])));
}

#[test]
fn missing_config_keyword_is_reported() {
    assert!(matches!(
        parse("CREATE DATASOURCE user (a = 'b')"),
        Err(ParseError::ExpectedConfig)
    ));
    assert!(matches!(parse("CREATE DATASOURCE user"), Err(ParseError::ExpectedConfig)));
    assert!(matches!(
        parse("CREATE DATASOURCE user CONFIGS(a = 'b')"),
        Err(ParseError::ExpectedConfig)
    ));
}

#[test]
fn create_table_is_taken_for_a_data_source() {
    assert!(matches!(parse("CREATE TABLE t (a int)"), Err(ParseError::ExpectedConfig)));
}

#[test]
fn missing_table_name_is_reported() {
    assert!(matches!(
        parse("CREATE DATASOURCE 'user' CONFIG()"),
        Err(ParseError::ExpectedTableName)
    ));
    assert!(matches!(parse("CREATE DATASOURCE"), Err(ParseError::ExpectedTableName)));
    assert!(matches!(parse("CREATE"), Err(ParseError::ExpectedTableName)));
}

#[test]
fn missing_open_paren_is_reported() {
    assert!(matches!(
        parse("CREATE DATASOURCE user CONFIG a = 'b')"),
        Err(ParseError::ExpectedOpenParen)
    ));
    assert!(matches!(
        parse("CREATE DATASOURCE user CONFIG"),
        Err(ParseError::ExpectedOpenParen)
    ));
}

#[test]
fn missing_close_paren_is_reported() {
    assert!(matches!(
        parse("CREATE DATASOURCE user CONFIG(a = 'b'"),
        Err(ParseError::ExpectedIdentifier)
    ));
    assert!(matches!(
        parse("CREATE DATASOURCE user CONFIG(a = 'b' ; select 1"),
        Err(ParseError::ExpectedIdentifier)
    ));
    assert!(matches!(
        parse("CREATE DATASOURCE user CONFIG("),
        Err(ParseError::ExpectedIdentifier)
    ));
}

#[test]
fn missing_entry_name_is_reported() {
    assert!(matches!(
        parse("CREATE DATASOURCE user CONFIG(= 'b')"),
        Err(ParseError::ExpectedIdentifier)
    ));
    assert!(matches!(
        parse("CREATE DATASOURCE user CONFIG(a = 'b', c = 'd')"),
        Err(ParseError::ExpectedIdentifier)
    ));
}

#[test]
fn missing_value_is_reported() {
    assert!(matches!(
        parse("CREATE DATASOURCE user CONFIG(a = b)"),
        Err(ParseError::ExpectedValue)
    ));
    assert!(matches!(
        parse("CREATE DATASOURCE user CONFIG(a = 8)"),
        Err(ParseError::ExpectedValue)
    ));
    assert!(matches!(
        parse("CREATE DATASOURCE user CONFIG(a = \"b\")"),
        Err(ParseError::ExpectedValue)
    ));
    assert!(matches!(
        parse("CREATE DATASOURCE user CONFIG(a ="),
        Err(ParseError::ExpectedValue)
    ));
}

#[test]
fn missing_equals_sign_is_reported_by_the_cursor() {
    match parse("CREATE DATASOURCE user CONFIG(a 'b')") {
        Err(ParseError::Sql(ParserError::ParserError(message))) => {
            assert!(message.contains("Expected: ="), "{}", message);
            assert!(message.contains("'b'"), "{}", message);
        }
        other => panic!("{:?}", other),
    }
}

#[test]
fn tokenizer_error_is_passed_on() {
    assert!(matches!(
        parse("select 'abc"),
        Err(ParseError::Sql(ParserError::TokenizerError(_)))
    ));
}

#[test]
fn statement_error_is_passed_on() {
    assert!(matches!(
        parse("select * from ;"),
        Err(ParseError::Sql(ParserError::ParserError(_)))
    ));
    assert!(matches!(parse(";"), Err(ParseError::Sql(ParserError::ParserError(_)))));
}

#[test]
fn error_leaves_no_partial_result() {
    assert!(matches!(
        parse("select 1; CREATE DATASOURCE user; select 2"),
        Err(ParseError::ExpectedConfig)
    ));
}

#[test]
fn standard_statements_are_all_handed_on() {
    let x = parse("select 1; select a from t where b = 'c'; insert into t values (1); drop table t")
        .unwrap();
    assert_eq!(x.len(), 4);
    assert!(x.iter().all(|s| matches!(s, VQL::Sql(_))));
    assert!(matches!(x[0], VQL::Sql(Statement::Query(_))));
    assert!(matches!(x[2], VQL::Sql(Statement::Insert(_))));
    assert!(matches!(x[3], VQL::Sql(Statement::Drop { .. })));
}

#[test]
fn parsing_twice_gives_the_same() {
    let text = "select 1; CREATE DATASOURCE d CONFIG(a = 'b' c = 'd'); select * from d";
    let first = format!("{:?}", parse(text));
    let second = format!("{:?}", parse(text));
    assert_eq!(first, second);
    let bad = "CREATE DATASOURCE d CONFIG(a = )";
    assert_eq!(format!("{:?}", parse(bad)), format!("{:?}", parse(bad)));
}

#[test]
fn trailing_separator_changes_nothing() {
    let with = parse("CREATE DATASOURCE d CONFIG(a = 'b'); select 1;").unwrap();
    let without = parse("CREATE DATASOURCE d CONFIG(a = 'b'); select 1").unwrap();
    assert_eq!(with.len(), 2);
    assert_eq!(format!("{:?}", with), format!("{:?}", without));
    for failing in ["CREATE DATASOURCE d CONFIG(a = ", "CREATE DATASOURCE d", "CREATE"] {
        let closed = format!("{};", failing);
        assert_eq!(format!("{:?}", parse(failing)), format!("{:?}", parse(&closed)));
        assert!(parse(failing).is_err());
    }
    assert!(matches!(parse("select 1; CREATE x y CONFIG(a"), Err(ParseError::Sql(_))));
    assert!(matches!(parse("select 1; CREATE x y CONFIG(a;"), Err(ParseError::Sql(_))));
    let alone_with = parse("CREATE DATASOURCE d CONFIG();").unwrap();
    let alone_without = parse("CREATE DATASOURCE d CONFIG()").unwrap();
    assert_eq!(format!("{:?}", alone_with), format!("{:?}", alone_without));
}

#[test]
fn several_data_sources_in_a_row() {
    let x = parse("CREATE DATASOURCE a CONFIG(k = '1') CREATE DATASOURCE b CONFIG(); select 1")
        .unwrap();
    assert_eq!(x.len(), 3);
    assert_eq!(data_source(&x[0]), ("a".to_string(), owned(&[("k", "1")])));
    assert_eq!(data_source(&x[1]), ("b".to_string(), Vec::new()));
    assert!(matches!(x[2], VQL::Sql(_)));
}

#[test]
fn errors_say_what_was_expected() {
    assert_eq!(ParseError::ExpectedTableName.message(), "expect a table_name");
    assert_eq!(ParseError::ExpectedConfig.message(), "expect a config");
    assert_eq!(ParseError::ExpectedOpenParen.message(), "expect a (");
    assert_eq!(ParseError::ExpectedIdentifier.message(), "expect a identifer");
    assert_eq!(ParseError::ExpectedValue.message(), "expect a value");
    let passed_on = ParseError::Sql(ParserError::ParserError("no such thing".to_string()));
    assert_eq!(passed_on.message(), "sql parser error: no such thing");
    let found = parse("CREATE DATASOURCE user CONFIG(a 'b')").unwrap_err().message();
    assert!(found.starts_with("sql parser error: Expected: =, found: 'b'"), "{}", found);
}
