use webdown::engine::{frame_engine_input, TurndownOptions};

#[test]
fn engine_input_matches_serde_json() {
    let opts = TurndownOptions::default();
    let html = "<p class=\"a\">x\\y\n\t\u{1}é</p>";
    let framed = frame_engine_input(html, &opts);
    assert_eq!(framed, r#"{"html":"<p class=\"a\">x\\y\n\t\u0001é</p>","options":{"heading_style":"atx","code_block_style":"fenced","bullet_list_marker":"-"}}"#);
    let parsed: serde_json::Value = serde_json::from_str(&framed).unwrap();
    assert_eq!(parsed["html"].as_str(), Some(html));
    assert_eq!(parsed["options"]["heading_style"].as_str(), Some("atx"));
    assert_eq!(parsed["options"]["code_block_style"].as_str(), Some("fenced"));
    assert_eq!(parsed["options"]["bullet_list_marker"].as_str(), Some("-"));
}

#[test]
fn engine_default_options() {
    let t = TurndownOptions::default();
    assert_eq!(t.heading_style, "atx");
    assert_eq!(t.code_block_style, "fenced");
    assert_eq!(t.bullet_list_marker, "-");
}

#[test]
fn engine_input_keeps_plain_html() {
    let opts = TurndownOptions {
        heading_style: "setext".into(),
        code_block_style: "indented".into(),
        bullet_list_marker: "*".into(),
    };
    let framed = frame_engine_input("<h1>Hello</h1>", &opts);
    assert_eq!(
        framed,
        r#"{"html":"<h1>Hello</h1>","options":{"heading_style":"setext","code_block_style":"indented","bullet_list_marker":"*"}}"#
    );
}

#[test]
fn engine_input_escapes_every_control_character() {
    let opts = TurndownOptions::default();
    let mut html = String::new();
    for b in 0u8..0x20 {
        html.push(b as char);
    }
    let framed = frame_engine_input(&html, &opts);
    assert!(framed.chars().all(|c| (c as u32) >= 0x20));
    assert!(framed.contains(r#"\u0000\u0001"#));
    assert!(framed.contains(r#"\b\t\n\u000b\f\r\u000e"#));
    assert!(framed.contains(r#"\u001f"#));
    let parsed: serde_json::Value = serde_json::from_str(&framed).unwrap();
    assert_eq!(parsed["html"].as_str(), Some(html.as_str()));
}

#[test]
fn engine_options_from_rule_options() {
    let rule_opts = webdown::config::TurndownOptions {
        heading_style: "setext".into(),
        code_block_style: "indented".into(),
        bullet_list_marker: "+".into(),
    };
    let opts = TurndownOptions::from_config(&rule_opts);
    assert_eq!(opts.heading_style, "setext");
    assert_eq!(opts.code_block_style, "indented");
    assert_eq!(opts.bullet_list_marker, "+");
}
