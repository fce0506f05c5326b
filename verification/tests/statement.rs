use orm::text::{decimal_text, substitute};
use orm::{
    bind, build_insert, expand_select, insert_statement, insert_text, query_statement,
    quote_sql_ident, Entity, FieldInfo, ParamRef, Scale,
};

fn scale_fields() -> Vec<FieldInfo> {
    vec![FieldInfo::new("id", true, true), FieldInfo::new("serial", false, false)]
}

#[test]
fn quotes_an_identifier() {
    assert_eq!(quote_sql_ident("serial"), "\"serial\"");
    assert_eq!(quote_sql_ident(""), "\"\"");
}

#[test]
fn quotes_reserved_words() {
    assert_eq!(quote_sql_ident("select"), "\"select\"");
    let fields = vec![FieldInfo::new("order", false, false), FieldInfo::new("from", false, false)];
    assert_eq!(
        insert_text("user", &fields),
        "INSERT INTO \"user\" (\"order\", \"from\") VALUES($1, $2)"
    );
    assert_eq!(
        expand_select("@select WHERE \"order\" = $1", "user"),
        "SELECT \"user\".* FROM \"user\" WHERE \"order\" = $1"
    );
}

#[test]
fn insert_names_only_fields_that_are_not_generated() {
    assert_eq!(
        insert_text("Scale", &scale_fields()),
        "INSERT INTO \"Scale\" (\"serial\") VALUES($1)"
    );
    assert_eq!(build_insert::<Scale>(), "INSERT INTO \"Scale\" (\"serial\") VALUES($1)");
}

#[test]
fn insert_keeps_declaration_order() {
    let fields = vec![
        FieldInfo::new("b", false, false),
        FieldInfo::new("id", true, true),
        FieldInfo::new("a", false, false),
        FieldInfo::new("c", false, false),
    ];
    assert_eq!(
        insert_text("t", &fields),
        "INSERT INTO \"t\" (\"b\", \"a\", \"c\") VALUES($1, $2, $3)"
    );
}

#[test]
fn insert_without_insertable_fields() {
    let fields = vec![FieldInfo::new("id", true, true)];
    assert_eq!(insert_text("t", &fields), "INSERT INTO \"t\" () VALUES()");
    assert_eq!(insert_text("t", &Vec::new()), "INSERT INTO \"t\" () VALUES()");
}

#[test]
fn insert_numbers_placeholders_in_decimal() {
    let mut fields = Vec::new();
    for i in 0..12 {
        fields.push(FieldInfo::new(&format!("c{}", i), false, false));
    }
    let text = insert_text("t", &fields);
    assert!(text.ends_with("VALUES($1, $2, $3, $4, $5, $6, $7, $8, $9, $10, $11, $12)"));
}

#[test]
fn decimal_numerals() {
    assert_eq!(decimal_text(0), "0");
    assert_eq!(decimal_text(7), "7");
    assert_eq!(decimal_text(10), "10");
    assert_eq!(decimal_text(1234567890), "1234567890");
}

#[test]
fn select_marker_is_expanded() {
    assert_eq!(expand_select("@select", "Scale"), "SELECT \"Scale\".* FROM \"Scale\"");
    assert_eq!(
        expand_select("@select WHERE id = $1", "Scale"),
        "SELECT \"Scale\".* FROM \"Scale\" WHERE id = $1"
    );
    assert_eq!(expand_select("SELECT 1", "Scale"), "SELECT 1");
    assert_eq!(expand_select("", "Scale"), "");
}

#[test]
fn every_marker_is_expanded() {
    assert_eq!(
        expand_select("@select UNION @select", "t"),
        "SELECT \"t\".* FROM \"t\" UNION SELECT \"t\".* FROM \"t\""
    );
    assert_eq!(expand_select("@selec @select@", "t"), "@selec SELECT \"t\".* FROM \"t\"@");
    assert_eq!(expand_select("@@select", "t"), "@SELECT \"t\".* FROM \"t\"");
}

#[test]
fn substitution_agrees_with_replace() {
    let cases = [
        ("", "ab", "x"),
        ("ab", "ab", "x"),
        ("aab", "ab", "x"),
        ("abab", "ab", "xyz"),
        ("aaa", "aa", "b"),
        ("héllo wörld", "ö", "oe"),
        ("abc", "abcd", "x"),
        ("abcabc", "bc", ""),
    ];
    for (text, marker, with) in cases.iter() {
        assert_eq!(substitute(text, marker, with), text.replace(marker, with));
    }
    assert_eq!(substitute("abc", "", "x"), "abc");
}

#[test]
fn insert_statement_binds_values_in_field_order() {
    let scale = Scale { id: 0, serial: "1234567890".to_string() };
    let statement = insert_statement(&scale);
    assert_eq!(statement.sql, "INSERT INTO \"Scale\" (\"serial\") VALUES($1)");
    assert_eq!(statement.params, vec![ParamRef::Text("1234567890")]);
}

#[test]
fn bind_follows_the_descriptors() {
    let scale = Scale { id: 5, serial: "s".to_string() };
    let map = scale.to_map();
    let fields = vec![FieldInfo::new("serial", false, false), FieldInfo::new("id", true, false)];
    let id: i64 = 5;
    assert_eq!(bind(&fields, &map), Some(vec![ParamRef::Text("s"), ParamRef::Int8(&id)]));
    assert_eq!(bind(&scale_fields(), &map), Some(vec![ParamRef::Text("s")]));
}

#[test]
fn bind_fails_on_a_missing_entry() {
    let scale = Scale { id: 5, serial: "s".to_string() };
    let map = scale.to_map();
    let fields = vec![FieldInfo::new("serial", false, false), FieldInfo::new("name", false, false)];
    assert_eq!(bind(&fields, &map), None);
    let generated = vec![FieldInfo::new("name", false, true)];
    assert_eq!(bind(&generated, &map), Some(Vec::new()));
}

#[test]
fn query_statement_keeps_the_parameters() {
    let id: i64 = 3;
    let statement = query_statement::<Scale>("@select WHERE id = $1", vec![ParamRef::Int8(&id)]);
    assert_eq!(statement.sql, "SELECT \"Scale\".* FROM \"Scale\" WHERE id = $1");
    assert_eq!(statement.params, vec![ParamRef::Int8(&id)]);
}
