use webdown::config::{Auth, AuthType, Config, Defaults, Rule, Source, TurndownOptions};
use webdown::matcher::{domain_matches, match_rule};
use webdown::weburl::parse_url;

fn make_config(rules: Vec<Rule>) -> Config {
    Config {
        defaults: Defaults::default(),
        rules,
    }
}

fn simple_rule(domain: &str) -> Rule {
    Rule {
        domain: domain.into(),
        auth: None,
        source: Source::default(),
        turndown: None,
    }
}

#[test]
fn exact_match() {
    assert!(domain_matches("example.com", "example.com"));
    assert!(domain_matches("Example.COM", "example.com"));
    assert!(!domain_matches("example.com", "other.com"));
}

#[test]
fn wildcard_subdomain() {
    assert!(domain_matches("*.example.com", "sub.example.com"));
    assert!(domain_matches("*.example.com", "a.b.example.com"));
    assert!(!domain_matches("*.example.com", "example.com"));
    assert!(!domain_matches("*.example.com", "notexample.com"));
}

#[test]
fn global_wildcard() {
    assert!(domain_matches("*", "anything.com"));
    assert!(domain_matches("*", "localhost"));
}

#[test]
fn match_rule_first_wins() {
    let config = make_config(vec![
        simple_rule("specific.com"),
        simple_rule("*.com"),
        simple_rule("*"),
    ]);
    let url = parse_url("https://specific.com/page").unwrap();
    let resolved = match_rule(&config, &url).unwrap();
    assert_eq!(resolved.domain, "specific.com");
}

#[test]
fn match_rule_fallback_to_wildcard() {
    let config = make_config(vec![simple_rule("other.com"), simple_rule("*")]);
    let url = parse_url("https://example.com/page").unwrap();
    let resolved = match_rule(&config, &url).unwrap();
    assert_eq!(resolved.domain, "*");
}

#[test]
fn match_rule_no_rules_uses_defaults() {
    let config = make_config(vec![]);
    let url = parse_url("https://example.com/page").unwrap();
    let resolved = match_rule(&config, &url).unwrap();
    assert_eq!(resolved.domain, "*");
    assert_eq!(resolved.turndown.heading_style, "atx");
}

#[test]
fn match_rule_merges_turndown_defaults() {
    let custom_opts = TurndownOptions {
        heading_style: "setext".into(),
        ..Default::default()
    };
    let config = Config {
        defaults: Defaults {
            turndown: TurndownOptions {
                heading_style: "atx".into(),
                code_block_style: "indented".into(),
                bullet_list_marker: "+".into(),
            },
        },
        rules: vec![Rule {
            domain: "example.com".into(),
            auth: None,
            source: Source::default(),
            turndown: Some(custom_opts),
        }],
    };
    let url = parse_url("https://example.com/x").unwrap();
    let resolved = match_rule(&config, &url).unwrap();
    // Rule-level turndown overrides defaults entirely
    assert_eq!(resolved.turndown.heading_style, "setext");
}

#[test]
fn subdomain_matching_atlassian() {
    let config = make_config(vec![simple_rule("*.atlassian.net")]);
    let url = parse_url("https://myteam.atlassian.net/wiki/page").unwrap();
    let resolved = match_rule(&config, &url).unwrap();
    assert_eq!(resolved.domain, "*.atlassian.net");
}

#[test]
fn wildcard_matching_ignores_case_of_host() {
    assert!(domain_matches("*.Example.com", "SUB.EXAMPLE.COM"));
    assert!(!domain_matches("*.example.com", "EXAMPLE.COM"));
}

#[test]
fn wildcard_needs_dot_before_suffix() {
    assert!(!domain_matches("*.", "com"));
    assert!(domain_matches("*.", "com."));
    assert!(!domain_matches("", "x"));
    assert!(domain_matches("", ""));
}

#[test]
fn match_rule_keeps_auth_and_source_of_rule() {
    let rule = Rule {
        domain: "*.atlassian.net".into(),
        auth: Some(Auth {
            auth_type: AuthType::Token,
            value_env: "CONFLUENCE_TOKEN".into(),
            header: None,
            prefix: Some("Bearer".into()),
        }),
        source: Source {
            source_type: webdown::config::SourceType::Api,
            selector: None,
            url_template: Some("{scheme}://{host}/x".into()),
            body_path: Some("body.storage.value".into()),
        },
        turndown: None,
    };
    let config = make_config(vec![simple_rule("other.net"), rule]);
    let url = parse_url("https://team.atlassian.net/wiki/1").unwrap();
    let resolved = match_rule(&config, &url).unwrap();
    assert_eq!(resolved.domain, "*.atlassian.net");
    assert_eq!(resolved.auth.unwrap().value_env, "CONFLUENCE_TOKEN");
    assert_eq!(resolved.source.body_path.as_deref(), Some("body.storage.value"));
    assert_eq!(resolved.turndown.code_block_style, "fenced");
}

#[test]
fn match_rule_without_host_is_invalid_url() {
    let config = make_config(vec![simple_rule("*")]);
    let url = parse_url("mailto:someone@example.com").unwrap();
    let result = match_rule(&config, &url);
    assert!(matches!(result, Err(webdown::CoreError::InvalidUrl(url::ParseError::EmptyHost))));
}

#[test]
fn rules_after_catch_all_are_never_used() {
    let config = make_config(vec![simple_rule("*"), simple_rule("example.com")]);
    let url = parse_url("https://example.com/").unwrap();
    let resolved = match_rule(&config, &url).unwrap();
    assert_eq!(resolved.domain, "*");
}

#[test]
fn command_line_selector_overrides_rule_selector() {
    let config = make_config(vec![Rule {
        domain: "github.com".into(),
        auth: None,
        source: Source {
            source_type: webdown::config::SourceType::Html,
            selector: Some("article.markdown-body".into()),
            url_template: None,
            body_path: None,
        },
        turndown: None,
    }]);
    let url = parse_url("https://github.com/user/repo").unwrap();
    let mut rule = match_rule(&config, &url).unwrap();
    rule.override_selector(&None);
    assert_eq!(rule.source.selector.as_deref(), Some("article.markdown-body"));
    rule.override_selector(&Some("main".into()));
    assert_eq!(rule.source.selector.as_deref(), Some("main"));
    assert_eq!(rule.domain, "github.com");
}

#[test]
fn rules_added_after_first_match_change_nothing() {
    let short = make_config(vec![simple_rule("other.org"), simple_rule("*.example.com")]);
    let long = make_config(vec![
        simple_rule("other.org"),
        simple_rule("*.example.com"),
        simple_rule("www.example.com"),
        simple_rule("*"),
    ]);
    let url = parse_url("https://www.example.com/").unwrap();
    assert_eq!(match_rule(&short, &url).unwrap().domain, "*.example.com");
    assert_eq!(match_rule(&long, &url).unwrap().domain, "*.example.com");
}
