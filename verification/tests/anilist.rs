use tachiyomi_backup_to_anilist::anilist::{
    authorization_code, authorize_url, oauth_reply, search_request_body, strip_quotes, token_request_body,
    SEARCH_QUERY,
};
use ureq::serde_json::Value;

type JsonObject = ureq::serde_json::Map<String, Value>;

#[test]
fn search_body_is_what_serde_json_writes() {
    let mut variables = JsonObject::new();
    variables.insert("search".to_string(), Value::String("Berserk \"deluxe\"".to_string()));
    variables.insert("mediaType".to_string(), Value::String("MANGA".to_string()));
    let mut root = JsonObject::new();
    root.insert("query".to_string(), Value::String(SEARCH_QUERY.to_string()));
    root.insert("variables".to_string(), Value::Object(variables));
    let expected = ureq::serde_json::to_string(&Value::Object(root)).unwrap();
    assert_eq!(search_request_body("Berserk \"deluxe\""), expected);
}

#[test]
fn token_body_is_what_serde_json_writes() {
    let mut root = JsonObject::new();
    root.insert("grant_type".to_string(), Value::String("authorization_code".to_string()));
    root.insert("client_id".to_string(), Value::String("123\n".to_string()));
    root.insert("client_secret".to_string(), Value::String("s3cr\\t".to_string()));
    root.insert("redirect_uri".to_string(), Value::String("http://localhost:1234".to_string()));
    root.insert("code".to_string(), Value::String("abc".to_string()));
    let expected = ureq::serde_json::to_string(&Value::Object(root)).unwrap();
    assert_eq!(token_request_body("123\n", "s3cr\\t", "abc"), expected);
}

#[test]
fn authorize_address() {
    assert_eq!(
        authorize_url("12345").unwrap(),
        "https://anilist.co/api/v2/oauth/authorize?client_id=12345&response_type=code"
    );
    assert_eq!(
        authorize_url("a b&c").unwrap(),
        "https://anilist.co/api/v2/oauth/authorize?client_id=a+b%26c&response_type=code"
    );
}

#[test]
fn code_from_request_line() {
    assert_eq!(authorization_code("GET /?code=def502 HTTP/1.1\r\n").unwrap(), "def502");
    assert_eq!(authorization_code("  GET\t/?code=x=y  HTTP/1.1").unwrap(), "x=y");
    assert_eq!(authorization_code("GET /favicon.ico HTTP/1.1"), None);
    assert_eq!(authorization_code("GET"), None);
    assert_eq!(authorization_code(""), None);
    assert_eq!(authorization_code("GET /?code= HTTP/1.1").unwrap(), "");
    let line = "GET\u{3000}/?code=\u{e9}t\u{e9} HTTP/1.1";
    let expected = line.split_whitespace().nth(1).unwrap().split_once('=').unwrap().1;
    assert_eq!(authorization_code(line).unwrap(), expected);
}

#[test]
fn quotes_are_trimmed() {
    assert_eq!(strip_quotes("\"token\""), "token");
    assert_eq!(strip_quotes("\"\"\""), "");
    assert_eq!(strip_quotes("a\"b"), "a\"b");
    assert_eq!(strip_quotes("\"\"x\""), "x");
    assert_eq!(strip_quotes(""), "");
    for s in ["\"a\"", "\"\"", "x\"", "\"\"ab\"c\"\""] {
        assert_eq!(strip_quotes(s), s.trim_matches('"'));
    }
}

#[test]
fn reply_to_browser() {
    let msg = "You can close this window now.";
    assert_eq!(
        oauth_reply(msg),
        format!("HTTP/1.1 200 OK\r\ncontent-length:{}\r\n\r\n{}", msg.len(), msg)
    );
    assert_eq!(oauth_reply("\u{e9}"), "HTTP/1.1 200 OK\r\ncontent-length:2\r\n\r\n\u{e9}");
}

#[test]
fn trimming_twice_changes_nothing() {
    for s in ["\"\"a\"\"", "\"", "b", "\"x\"y\""] {
        let once = strip_quotes(s);
        assert_eq!(strip_quotes(&once), once);
        assert!(!once.starts_with('"') && !once.ends_with('"'));
    }
}

#[test]
fn every_escape_matches_serde_json() {
    let title = "q\"b\\s/\u{8}\u{c}\n\r\t\u{0}\u{1f}\u{7f}\u{e9}\u{1b}";
    let mut variables = JsonObject::new();
    variables.insert("search".to_string(), Value::String(title.to_string()));
    variables.insert("mediaType".to_string(), Value::String("MANGA".to_string()));
    let mut root = JsonObject::new();
    root.insert("query".to_string(), Value::String(SEARCH_QUERY.to_string()));
    root.insert("variables".to_string(), Value::Object(variables));
    let expected = ureq::serde_json::to_string(&Value::Object(root)).unwrap();
    let body = search_request_body(title);
    assert_eq!(body, expected);
    assert!(body.ends_with("\"search\":\"q\\\"b\\\\s/\\b\\f\\n\\r\\t\\u0000\\u001f\u{7f}\u{e9}\\u001b\"}}"));
}

#[test]
fn authorize_address_form_encodes_the_id() {
    assert_eq!(
        authorize_url("\u{e9}*-._~/+ 9Z").unwrap(),
        "https://anilist.co/api/v2/oauth/authorize?client_id=%C3%A9*-._%7E%2F%2B+9Z&response_type=code"
    );
    assert_eq!(
        authorize_url("").unwrap(),
        "https://anilist.co/api/v2/oauth/authorize?client_id=&response_type=code"
    );
}
