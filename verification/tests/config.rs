use webdown::config::{
    default_bullet_list_marker, default_code_block_style, default_heading_style, Config, Source,
    SourceType, TurndownOptions,
};

#[test]
fn default_turndown_options() {
    let t = TurndownOptions::default();
    assert_eq!(t.heading_style, "atx");
    assert_eq!(t.code_block_style, "fenced");
    assert_eq!(t.bullet_list_marker, "-");
    assert_eq!(default_heading_style(), "atx");
    assert_eq!(default_code_block_style(), "fenced");
    assert_eq!(default_bullet_list_marker(), "-");
}

#[test]
fn default_source_is_plain_html() {
    let s = Source::default();
    assert_eq!(s.source_type, SourceType::Html);
    assert!(s.selector.is_none());
    assert!(s.url_template.is_none());
    assert!(s.body_path.is_none());
    assert_eq!(SourceType::default(), SourceType::Html);
}

#[test]
fn default_config_has_catch_all_rule() {
    let config = Config::default();
    assert!(!config.rules.is_empty());
    assert_eq!(config.rules[0].domain, "*");
    assert_eq!(config.rules.len(), 1);
    assert!(config.rules[0].auth.is_none());
    assert!(config.rules[0].turndown.is_none());
    assert_eq!(config.defaults.turndown.heading_style, "atx");
}
