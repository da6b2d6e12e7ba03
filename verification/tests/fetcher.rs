use webdown::config::{Auth, AuthType, Source, SourceType, TurndownOptions};
use webdown::fetcher::{
    apply_auth, check_status, extract_content, extract_from_html, extract_from_json, resolve_url,
};
use webdown::matcher::ResolvedRule;
use webdown::weburl::parse_url;
use webdown::CoreError;

fn default_rule() -> ResolvedRule {
    ResolvedRule {
        domain: "*".into(),
        auth: None,
        source: Source::default(),
        turndown: TurndownOptions::default(),
    }
}

#[test]
fn extract_json_nested_path() {
    let json = r#"{"body":{"storage":{"value":"<h1>Hello</h1>"}}}"#;
    let mut rule = default_rule();
    rule.source.source_type = SourceType::Api;
    rule.source.body_path = Some("body.storage.value".into());

    let result = extract_from_json(json, &rule).unwrap();
    assert_eq!(result, "<h1>Hello</h1>");
}

#[test]
fn extract_json_missing_path() {
    let json = r#"{"body":{}}"#;
    let mut rule = default_rule();
    rule.source.source_type = SourceType::Api;
    rule.source.body_path = Some("body.storage.value".into());

    let result = extract_from_json(json, &rule);
    assert!(result.is_err());
}

#[test]
fn extract_json_empty_path_returns_body() {
    let json = r#"{"data":"test"}"#;
    let mut rule = default_rule();
    rule.source.source_type = SourceType::Api;
    rule.source.body_path = None;

    let result = extract_from_json(json, &rule).unwrap();
    assert_eq!(result, json);
}

#[test]
fn extract_json_non_string_value_as_json_text() {
    let json = r#"{"a":{"b":[1,2,{"c":true}]}}"#;
    let mut rule = default_rule();
    rule.source.body_path = Some("a.b".into());
    assert_eq!(extract_from_json(json, &rule).unwrap(), r#"[1,2,{"c":true}]"#);
    rule.source.body_path = Some("a".into());
    assert_eq!(extract_from_json(json, &rule).unwrap(), r#"{"b":[1,2,{"c":true}]}"#);
}

#[test]
fn extract_json_invalid_body_is_error_naming_path() {
    let mut rule = default_rule();
    rule.source.body_path = Some("x".into());
    match extract_from_json("not json", &rule) {
        Err(CoreError::JsonPathExtract { path }) => assert_eq!(path, "x"),
        other => panic!("unexpected: {:?}", other),
    }
}

#[test]
fn extract_json_empty_segment_looks_up_empty_key() {
    let json = r#"{"a":{"":"inner"}}"#;
    let mut rule = default_rule();
    rule.source.body_path = Some("a.".into());
    assert_eq!(extract_from_json(json, &rule).unwrap(), "inner");
}

#[test]
fn extract_html_with_selector() {
    let html = r#"
            <html><body>
                <nav>menu</nav>
                <article class="content"><h1>Title</h1><p>Text</p></article>
                <footer>foot</footer>
            </body></html>
        "#;
    let mut rule = default_rule();
    rule.source.selector = Some("article.content".into());

    let result = extract_from_html(html, &rule).unwrap();
    assert!(result.contains("<h1>Title</h1>"));
    assert!(result.contains("<p>Text</p>"));
    assert!(!result.contains("menu"));
    assert!(!result.contains("foot"));
}

#[test]
fn extract_html_no_selector_returns_full() {
    let html = "<html><body><p>Hello</p></body></html>";
    let rule = default_rule();

    let result = extract_from_html(html, &rule).unwrap();
    assert_eq!(result, html);
}

#[test]
fn extract_html_selector_no_match_fallback() {
    let html = "<html><body><p>Hello</p></body></html>";
    let mut rule = default_rule();
    rule.source.selector = Some("div.nonexistent".into());

    let result = extract_from_html(html, &rule).unwrap();
    assert_eq!(result, html);
}

#[test]
fn extract_html_joins_matches_with_newline() {
    let html = "<ul><li>a</li><li>b</li></ul>";
    let mut rule = default_rule();
    rule.source.selector = Some("li".into());
    assert_eq!(extract_from_html(html, &rule).unwrap(), "a\nb");
}

#[test]
fn extract_html_invalid_selector_is_error() {
    let mut rule = default_rule();
    rule.source.selector = Some("[[".into());
    match extract_from_html("<p>x</p>", &rule) {
        Err(CoreError::InvalidSelector { selector, reason }) => {
            assert_eq!(selector, "[[");
            assert!(!reason.is_empty());
        }
        other => panic!("unexpected: {:?}", other),
    }
}

#[test]
fn extract_content_follows_source_type() {
    let mut rule = default_rule();
    rule.source.body_path = Some("v".into());
    rule.source.source_type = SourceType::Api;
    assert_eq!(extract_content(r#"{"v":"<b>x</b>"}"#, &rule).unwrap(), "<b>x</b>");
    rule.source.source_type = SourceType::Html;
    assert_eq!(extract_content(r#"{"v":"<b>x</b>"}"#, &rule).unwrap(), r#"{"v":"<b>x</b>"}"#);
}

#[test]
fn resolve_url_no_template() {
    let url = parse_url("https://example.com/page").unwrap();
    let rule = default_rule();
    assert_eq!(
        resolve_url(&url, &rule).as_str(),
        "https://example.com/page"
    );
}

#[test]
fn resolve_url_with_template() {
    let url = parse_url("https://myteam.atlassian.net/wiki/content/12345").unwrap();
    let mut rule = default_rule();
    rule.source.url_template = Some(
        "{scheme}://{host}/wiki/rest/api/content/{path_segment}?expand=body.storage".into(),
    );

    let resolved = resolve_url(&url, &rule);
    assert_eq!(
        resolved.as_str(),
        "https://myteam.atlassian.net/wiki/rest/api/content/12345?expand=body.storage"
    );
}

#[test]
fn resolve_url_with_path_placeholder() {
    let url = parse_url("https://h.example/a/b/c").unwrap();
    let mut rule = default_rule();
    rule.source.url_template = Some("{scheme}://api.{host}/{path}/raw".into());
    assert_eq!(resolve_url(&url, &rule).as_str(), "https://api.h.example/a/b/c/raw");
}

#[test]
fn resolve_url_bad_template_keeps_page_url() {
    let url = parse_url("https://example.com/page").unwrap();
    let mut rule = default_rule();
    rule.source.url_template = Some("not a url {path}".into());
    assert_eq!(resolve_url(&url, &rule).as_str(), "https://example.com/page");
}

#[test]
fn apply_auth_token() {
    let auth = Auth {
        auth_type: AuthType::Token,
        value_env: "TEST_TOKEN_123".into(),
        header: None,
        prefix: Some("Bearer".into()),
    };
    let result = apply_auth(&auth, "example.com", Some("my-secret".into()));
    assert!(result.is_ok());
    let (name, value) = result.unwrap();
    assert_eq!(name, "Authorization");
    assert_eq!(value, "Bearer my-secret");
}

#[test]
fn apply_auth_missing_env() {
    let auth = Auth {
        auth_type: AuthType::Token,
        value_env: "NONEXISTENT_VAR_WEBDOWN".into(),
        header: None,
        prefix: None,
    };
    let result = apply_auth(&auth, "test.com", None);
    assert!(matches!(result, Err(CoreError::MissingEnvVar { .. })));
    if let Err(CoreError::MissingEnvVar { name, domain }) = result {
        assert_eq!(name, "NONEXISTENT_VAR_WEBDOWN");
        assert_eq!(domain, "test.com");
    }
}

#[test]
fn apply_auth_cookie_and_header() {
    let cookie = Auth {
        auth_type: AuthType::Cookie,
        value_env: "C".into(),
        header: Some("X-Ignored".into()),
        prefix: Some("Ignored".into()),
    };
    assert_eq!(
        apply_auth(&cookie, "d", Some("s=1".into())).unwrap(),
        ("Cookie".to_string(), "s=1".to_string())
    );
    let header = Auth {
        auth_type: AuthType::Header,
        value_env: "H".into(),
        header: Some("X-Api-Key".into()),
        prefix: Some("Ignored".into()),
    };
    assert_eq!(
        apply_auth(&header, "d", Some("k".into())).unwrap(),
        ("X-Api-Key".to_string(), "k".to_string())
    );
    let token = Auth {
        auth_type: AuthType::Token,
        value_env: "T".into(),
        header: Some("X-Token".into()),
        prefix: None,
    };
    assert_eq!(
        apply_auth(&token, "d", Some("t".into())).unwrap(),
        ("X-Token".to_string(), "Bearer t".to_string())
    );
}

#[test]
fn check_status_success_class() {
    assert!(check_status(200, "u").is_ok());
    assert!(check_status(299, "u").is_ok());
    assert!(matches!(
        check_status(404, "https://x/"),
        Err(CoreError::HttpStatus { status: 404, .. })
    ));
    assert!(check_status(199, "u").is_err());
    assert!(check_status(300, "u").is_err());
}

#[test]
fn html_source_requests_page_url_directly() {
    let url = parse_url("https://myteam.atlassian.net/wiki/content/12345").unwrap();
    let mut rule = default_rule();
    rule.source.url_template = Some("{scheme}://{host}/api/{path_segment}".into());
    rule.source.source_type = SourceType::Html;
    assert_eq!(
        webdown::fetcher::request_url(&url, &rule).as_str(),
        "https://myteam.atlassian.net/wiki/content/12345"
    );
    rule.source.source_type = SourceType::Api;
    assert_eq!(
        webdown::fetcher::request_url(&url, &rule).as_str(),
        "https://myteam.atlassian.net/api/12345"
    );
}
