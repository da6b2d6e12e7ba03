use webdown::loader::{config_dir, join_path, pick_config_source, ConfigSource};

#[test]
fn explicit_config_path_wins() {
    assert_eq!(pick_config_source(true, Some(true), Some(true)), ConfigSource::Explicit);
    assert_eq!(pick_config_source(true, None, None), ConfigSource::Explicit);
}

#[test]
fn env_config_path_used_only_when_it_exists() {
    assert_eq!(pick_config_source(false, Some(true), Some(true)), ConfigSource::Env);
    assert_eq!(pick_config_source(false, Some(false), Some(true)), ConfigSource::Home);
}

#[test]
fn no_config_path_when_nothing_exists() {
    assert_eq!(pick_config_source(false, None, None), ConfigSource::Defaults);
    assert_eq!(pick_config_source(false, Some(false), Some(false)), ConfigSource::Defaults);
}

#[test]
fn config_dir_prefers_xdg() {
    assert_eq!(
        config_dir(Some("/x/cfg".into()), Some("/home/u".into())).as_deref(),
        Some("/x/cfg/webdown")
    );
    assert_eq!(config_dir(None, Some("/home/u".into())).as_deref(), Some("/home/u/.config/webdown"));
    assert_eq!(config_dir(None, Some("/home/u/".into())).as_deref(), Some("/home/u/.config/webdown"));
    assert_eq!(config_dir(None, None), None);
}

#[test]
fn join_path_like_std() {
    for (base, seg) in [("/a", "b"), ("/a/", "b"), ("", "b"), ("/a", "/c"), ("a/b", "c.yaml")] {
        let expected = std::path::Path::new(base).join(seg);
        assert_eq!(join_path(base, seg), expected.to_str().unwrap());
    }
}
