pub mod config;
pub mod engine;
pub mod error;
pub mod fetcher;
pub mod loader;
pub mod matcher;
pub mod text;
pub mod weburl;

pub use config::{Auth, AuthType, Config, Defaults, Rule, Source, SourceType, TurndownOptions};
pub use error::CoreError;
pub use matcher::{domain_matches, match_rule, ResolvedRule};
pub use weburl::{parse_url, ParsedUrl};
