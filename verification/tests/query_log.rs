use graphql_pal::query_log::get_query_from_log;
use graphql_pal::schema_stats::Query;

fn query(text: &str, hash: &str) -> Option<Query> {
    Some(Query { query: text.to_string(), hash: hash.to_string(), count: 0 })
}

#[test]
fn log_line_with_hash_and_query() {
    assert_eq!(
        get_query_from_log("ts=1 level=info query_hash=abc123 user=7 query: { viewer { id } }  "),
        query("{ viewer { id } }", "abc123")
    );
}

#[test]
fn log_line_without_mark_records_nothing() {
    assert_eq!(get_query_from_log("query_hash=abc { viewer }"), None);
    assert_eq!(get_query_from_log(""), None);
    assert_eq!(get_query_from_log("query"), None);
}

#[test]
fn log_line_without_hash_records_nothing() {
    assert_eq!(get_query_from_log("ts=1 query: { a }"), None);
    assert_eq!(get_query_from_log("query_hash= query: { a }"), None);
    assert_eq!(get_query_from_log("query_hash=ABC query: { a }"), None);
    assert_eq!(get_query_from_log("query: { a } query_hash=abc"), None);
}

#[test]
fn first_key_with_a_hash_behind_it_is_taken() {
    assert_eq!(
        get_query_from_log("query_hash=-- query_hash=x9 query_hash=zz query: q"),
        query("q", "x9")
    );
}

#[test]
fn hash_ends_where_its_characters_end() {
    assert_eq!(get_query_from_log("query_hash=ab-cd query:x"), query("x", "ab"));
    assert_eq!(get_query_from_log("query_hash=abCd query:x"), query("x", "ab"));
    assert_eq!(get_query_from_log("query_hash=09azquery:x"), query("x", "09az"));
}

#[test]
fn text_of_the_query_ends_at_the_next_mark() {
    assert_eq!(get_query_from_log("query_hash=a query: one query: two"), query("one", "a"));
    assert_eq!(get_query_from_log("query_hash=a query:query: two"), query("", "a"));
    assert_eq!(get_query_from_log("query_hash=a query:"), query("", "a"));
}

#[test]
fn log_line_with_other_scripts() {
    assert_eq!(get_query_from_log("ünï query_hash=é1 query_hash=b2 query: { é }"), query("{ é }", "b2"));
}
