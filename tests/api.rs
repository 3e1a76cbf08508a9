use wpe::api::{check_status, list_sites, listing_lines, member_of, show_site, site_line, site_url, sites_url, ApiError};
use wpe::json::Json;

#[test]
fn urls_of_the_two_endpoints() {
    assert_eq!(sites_url("https://api.example.com/v1"), "https://api.example.com/v1/sites");
    assert_eq!(site_url("https://api.example.com/v1", "42"), "https://api.example.com/v1/sites/42");
}

#[test]
fn refusals_are_auth_errors() {
    assert_eq!(check_status(401), Err(ApiError::AuthError));
    assert_eq!(check_status(403), Err(ApiError::AuthError));
    assert_eq!(check_status(200), Ok(()));
    assert_eq!(check_status(404), Ok(()));
}

fn lines_of_body(body: &str) -> Option<Vec<String>> {
    listing_lines(&list_sites(200, body).unwrap())
}

#[test]
fn listing_prints_name_equals_id_in_order() {
    let body = r#"{"results": [{"id":"1","name":"a"},{"id":"2","name":"b"}]}"#;
    assert_eq!(lines_of_body(body).unwrap(), vec!["a = 1".to_string(), "b = 2".to_string()]);
}

#[test]
fn listing_of_empty_results_is_empty() {
    assert_eq!(lines_of_body(r#"{"results": []}"#).unwrap(), Vec::<String>::new());
}

#[test]
fn listing_writes_numbers_and_missing_members() {
    let body = r#"{"results": [{"id":7,"name":"x"},{"id":"9"}]}"#;
    assert_eq!(lines_of_body(body).unwrap(), vec!["x = 7".to_string(), "null = 9".to_string()]);
}

#[test]
fn listing_writes_non_objects_and_nested_values() {
    let body = r#"{"results": [3, {"id":[1,"x"],"name":{"k":null}}]}"#;
    assert_eq!(
        lines_of_body(body).unwrap(),
        vec!["null = null".to_string(), "{\"k\":null} = [1,\"x\"]".to_string()]
    );
}

#[test]
fn answers_without_results_array_have_no_listing() {
    assert!(lines_of_body(r#"{"id":"42"}"#).is_none());
    assert!(lines_of_body(r#"{"results": {"id":"1"}}"#).is_none());
    assert!(lines_of_body(r#"[1, 2]"#).is_none());
    assert!(lines_of_body("null").is_none());
}

#[test]
fn any_json_answer_of_the_list_endpoint_is_returned() {
    assert!(matches!(list_sites(200, "null"), Ok(Json::Null)));
    assert!(matches!(list_sites(404, r#"{"message":"Not Found"}"#), Ok(Json::Object(_))));
}

#[test]
fn listing_of_non_json_is_decode_error() {
    assert!(matches!(list_sites(200, "<html>oops</html>"), Err(ApiError::DecodeError)));
}

#[test]
fn unauthorized_listing_is_auth_error() {
    let body = r#"{"results": [{"id":"1","name":"a"}]}"#;
    assert!(matches!(list_sites(401, body), Err(ApiError::AuthError)));
    assert!(matches!(list_sites(403, "not json"), Err(ApiError::AuthError)));
}

#[test]
fn single_site_is_pretty_printed() {
    let out = show_site(200, r#"{"id":"42","name":"example"}"#).unwrap();
    assert_eq!(out, "{\n  \"id\": \"42\",\n  \"name\": \"example\"\n}");
    let again = show_site(200, r#"{"id":"42","name":"example"}"#).unwrap();
    assert_eq!(out, again);
}

#[test]
fn single_site_keeps_nested_values() {
    let out = show_site(200, r#"{"a":[1,true,null],"b":{"c":"d"}}"#).unwrap();
    assert_eq!(out, "{\n  \"a\": [\n    1,\n    true,\n    null\n  ],\n  \"b\": {\n    \"c\": \"d\"\n  }\n}");
}

#[test]
fn unauthorized_single_site_is_auth_error() {
    assert_eq!(show_site(401, r#"{"id":"42"}"#), Err(ApiError::AuthError));
    assert_eq!(show_site(403, r#"{"id":"42"}"#), Err(ApiError::AuthError));
}

#[test]
fn single_site_of_non_json_is_decode_error() {
    assert_eq!(show_site(200, "{\"id\":"), Err(ApiError::DecodeError));
}

#[test]
fn not_found_body_is_passed_through() {
    let out = show_site(404, r#"{"message":"Not Found"}"#).unwrap();
    assert_eq!(out, "{\n  \"message\": \"Not Found\"\n}");
}

fn site(id: &str, name: &str) -> Json {
    Json::Object(vec![
        ("id".to_string(), Json::Str(id.to_string())),
        ("name".to_string(), Json::Str(name.to_string())),
    ])
}

#[test]
fn listing_lines_of_a_built_document() {
    let doc = Json::Object(vec![(
        "results".to_string(),
        Json::Array(vec![site("b", "second"), site("a", "first")]),
    )]);
    assert_eq!(listing_lines(&doc).unwrap(), vec!["second = b".to_string(), "first = a".to_string()]);
}

#[test]
fn site_line_of_booleans_and_non_objects() {
    let doc = Json::Object(vec![
        ("name".to_string(), Json::Bool(true)),
        ("id".to_string(), Json::Bool(false)),
    ]);
    assert_eq!(site_line(&doc), "true = false");
    assert_eq!(site_line(&Json::Str("x".to_string())), "null = null");
    let nested = Json::Object(vec![("name".to_string(), Json::Array(vec![]))]);
    assert_eq!(site_line(&nested), "[] = null");
}

#[test]
fn first_member_of_a_name_wins() {
    let doc = Json::Object(vec![
        ("k".to_string(), Json::Number("1".to_string())),
        ("k".to_string(), Json::Number("2".to_string())),
    ]);
    match member_of(&doc, "k") {
        Some(Json::Number(n)) => assert_eq!(n, "1"),
        _ => panic!("expected the first member"),
    }
    assert!(member_of(&doc, "missing").is_none());
    assert!(member_of(&Json::Null, "k").is_none());
}
