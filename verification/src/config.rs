use vstd::prelude::*;

verus! {

/// The whole configuration: global defaults and the ordered list of rules.
#[derive(Debug, Clone)]
pub struct Config {
    pub defaults: Defaults,
    pub rules: Vec<Rule>,
}

/// Settings that apply wherever a rule does not set its own.
#[derive(Debug, Clone)]
pub struct Defaults {
    pub turndown: TurndownOptions,
}

/// One rule: a domain pattern and how pages of matching hosts are fetched.
#[derive(Debug, Clone)]
pub struct Rule {
    pub domain: String,
    pub auth: Option<Auth>,
    pub source: Source,
    pub turndown: Option<TurndownOptions>,
}

/// How an authentication value is sent.
#[derive(Debug, Clone, Copy, PartialEq, Eq)]
pub enum AuthType {
    Token,
    Cookie,
    Header,
}

/// Authentication settings; the value itself comes from the variable `value_env`.
#[derive(Debug, Clone)]
pub struct Auth {
    pub auth_type: AuthType,
    pub value_env: String,
    pub header: Option<String>,
    pub prefix: Option<String>,
}

/// Whether a page is fetched as HTML or through a JSON API.
#[derive(Debug, Clone, Copy, PartialEq, Eq)]
pub enum SourceType {
    Html,
    Api,
}

/// Where the HTML of a page comes from.
#[derive(Debug, Clone)]
pub struct Source {
    pub source_type: SourceType,
    pub selector: Option<String>,
    pub url_template: Option<String>,
    pub body_path: Option<String>,
}

/// Options for the HTML-to-Markdown conversion.
#[derive(Debug, Clone)]
pub struct TurndownOptions {
    pub heading_style: String,
    pub code_block_style: String,
    pub bullet_list_marker: String,
}

/// The source type used when a configuration names none.
pub open spec fn spec_default_source_type() -> SourceType {
    SourceType::Html
}

impl Default for SourceType {
    fn default() -> (r: Self)
        ensures
            r == spec_default_source_type(),
    {
        SourceType::Html
    }
}

/// A source that fetches the page itself as HTML, with no selector.
pub open spec fn is_default_source(s: Source) -> bool {
    &&& s.source_type == SourceType::Html
    &&& s.selector is None
    &&& s.url_template is None
    &&& s.body_path is None
}

impl Default for Source {
    fn default() -> (r: Self)
        ensures
            is_default_source(r),
    {
        Source { source_type: SourceType::Html, selector: None, url_template: None, body_path: None }
    }
}

/// The conversion options used when a configuration names none:
/// ATX headings, fenced code blocks, `-` bullets.
pub open spec fn is_default_turndown(t: TurndownOptions) -> bool {
    &&& t.heading_style@ == seq!['a', 't', 'x']
    &&& t.code_block_style@ == seq!['f', 'e', 'n', 'c', 'e', 'd']
    &&& t.bullet_list_marker@ == seq!['-']
}

impl Default for TurndownOptions {
    fn default() -> (r: Self)
        ensures
            is_default_turndown(r),
    {
        TurndownOptions {
            heading_style: default_heading_style(),
            code_block_style: default_code_block_style(),
            bullet_list_marker: default_bullet_list_marker(),
        }
    }
}

impl Default for Defaults {
    fn default() -> (r: Self)
        ensures
            is_default_turndown(r.turndown),
    {
        Defaults { turndown: TurndownOptions::default() }
    }
}

/// The configuration used when no file is found: default options and one
/// catch-all rule `"*"` that fetches HTML without authentication.
pub open spec fn is_default_config(c: Config) -> bool {
    &&& is_default_turndown(c.defaults.turndown)
    &&& c.rules@.len() == 1
    &&& c.rules@[0].domain@ == seq!['*']
    &&& c.rules@[0].auth is None
    &&& is_default_source(c.rules@[0].source)
    &&& c.rules@[0].turndown is None
}

impl Default for Config {
    fn default() -> (r: Self)
        ensures
            is_default_config(r),
    {
        let domain = crate::text::string_of(&['*']);
        assert(domain@ == seq!['*']);
        let source = Source::default();
        assert(is_default_source(source));
        let rule = Rule { domain, auth: None, source, turndown: None };
        let mut rules: Vec<Rule> = Vec::new();
        rules.push(rule);
        let defaults = Defaults::default();
        assert(is_default_turndown(defaults.turndown));
        Config { defaults, rules }
    }
}

/// A copy of an optional string.
pub fn copy_opt_string(s: &Option<String>) -> (r: Option<String>)
    ensures
        r == *s,
{
    match s {
        Some(v) => Some(v.clone()),
        None => None,
    }
}

impl Auth {
    /// A copy of these settings.
    pub fn duplicate(&self) -> (r: Auth)
        ensures
            r == *self,
    {
        Auth {
            auth_type: self.auth_type,
            value_env: self.value_env.clone(),
            header: copy_opt_string(&self.header),
            prefix: copy_opt_string(&self.prefix),
        }
    }
}

impl Source {
    /// A copy of these settings.
    pub fn duplicate(&self) -> (r: Source)
        ensures
            r == *self,
    {
        Source {
            source_type: self.source_type,
            selector: copy_opt_string(&self.selector),
            url_template: copy_opt_string(&self.url_template),
            body_path: copy_opt_string(&self.body_path),
        }
    }
}

impl TurndownOptions {
    /// A copy of these options.
    pub fn duplicate(&self) -> (r: TurndownOptions)
        ensures
            r == *self,
    {
        TurndownOptions {
            heading_style: self.heading_style.clone(),
            code_block_style: self.code_block_style.clone(),
            bullet_list_marker: self.bullet_list_marker.clone(),
        }
    }
}

/// A copy of optional authentication settings.
pub fn copy_opt_auth(a: &Option<Auth>) -> (r: Option<Auth>)
    ensures
        r == *a,
{
    match a {
        Some(v) => Some(v.duplicate()),
        None => None,
    }
}

/// `"atx"`.
pub fn default_heading_style() -> (s: String)
    ensures
        s@ == seq!['a', 't', 'x'],
{
    crate::text::string_of(&['a', 't', 'x'])
}

/// `"fenced"`.
pub fn default_code_block_style() -> (s: String)
    ensures
        s@ == seq!['f', 'e', 'n', 'c', 'e', 'd'],
{
    crate::text::string_of(&['f', 'e', 'n', 'c', 'e', 'd'])
}

/// `"-"`.
pub fn default_bullet_list_marker() -> (s: String)
    ensures
        s@ == seq!['-'],
{
    crate::text::string_of(&['-'])
}

} // verus!
