use vstd::prelude::*;
use crate::text::{append_chars, chars_of, string_of};

verus! {

/// Where the configuration comes from.
#[derive(Debug, Clone, Copy, PartialEq, Eq)]
pub enum ConfigSource {
    /// The path given explicitly (`--config`).
    Explicit,
    /// The path in `$WEBDOWN_CONFIG`.
    Env,
    /// `config.yaml` in the user's configuration directory.
    Home,
    /// No file: the defaults are used.
    Defaults,
}

/// Which configuration file is used, in priority order: the path given
/// explicitly; else the path in `$WEBDOWN_CONFIG` when that file exists;
/// else `config.yaml` in the user's configuration directory when that file
/// exists; else none, and the defaults are used.
///
/// `env_exists` and `home_exists` are `None` when there is no such
/// candidate, else whether its file exists.
pub fn pick_config_source(has_explicit: bool, env_exists: Option<bool>, home_exists: Option<bool>) -> (r: ConfigSource)
    ensures
        r == if has_explicit {
            ConfigSource::Explicit
        } else if env_exists == Some(true) {
            ConfigSource::Env
        } else if home_exists == Some(true) {
            ConfigSource::Home
        } else {
            ConfigSource::Defaults
        },
{
    if has_explicit {
        ConfigSource::Explicit
    } else if env_exists == Some(true) {
        ConfigSource::Env
    } else if home_exists == Some(true) {
        ConfigSource::Home
    } else {
        ConfigSource::Defaults
    }
}

/// `base` joined with `segment` as `Path::join` does on Unix: an absolute
/// segment replaces the base; otherwise a `/` is put between them unless
/// the base is empty or already ends with one.
pub open spec fn spec_join_path(base: Seq<char>, segment: Seq<char>) -> Seq<char> {
    if segment.len() > 0 && segment[0] == '/' {
        segment
    } else if base.len() > 0 && base.last() != '/' {
        base + seq!['/'] + segment
    } else {
        base + segment
    }
}

/// Joining keeps the base and the segment whole: with a relative segment
/// the result begins with the base and ends with the segment, with exactly
/// one `/` between them where the base is not empty and does not already
/// end with `/`, and nothing between them otherwise; an absolute segment is
/// the result.
pub proof fn lemma_join_path(base: Seq<char>, segment: Seq<char>)
    ensures
        ({
            let r = spec_join_path(base, segment);
            &&& segment.len() > 0 && segment[0] == '/' ==> r == segment
            &&& !(segment.len() > 0 && segment[0] == '/') ==> {
                &&& r.take(base.len() as int) == base
                &&& r.skip(r.len() - segment.len()) == segment
                &&& (base.len() > 0 && base.last() != '/') ==> r.len() == base.len() + 1 + segment.len()
                    && r[base.len() as int] == '/'
                &&& !(base.len() > 0 && base.last() != '/') ==> r.len() == base.len() + segment.len()
            }
        }),
{
    let r = spec_join_path(base, segment);
    if !(segment.len() > 0 && segment[0] == '/') {
        assert(r.take(base.len() as int) =~= base);
        assert(r.skip(r.len() - segment.len()) =~= segment);
    }
}

/// The configuration directory is `webdown` in `$XDG_CONFIG_HOME` whenever
/// that is set, whatever `$HOME` is; `$HOME` is read only without it.
pub proof fn lemma_config_dir_prefers_xdg(x: Seq<char>, home: Option<Seq<char>>)
    ensures
        spec_config_dir(Some(x), home) == Some(spec_join_path(x, "webdown"@)),
        spec_config_dir(None, home) is Some <==> home is Some,
{
}

/// Joins a path and a segment ([`spec_join_path`]).
pub fn join_path(base: &str, segment: &str) -> (r: String)
    ensures
        r@ == spec_join_path(base@, segment@),
{
    let b = chars_of(base);
    let s = chars_of(segment);
    if s.len() > 0 && s[0] == '/' {
        return string_of(&s);
    }
    let mut out: Vec<char> = Vec::new();
    append_chars(&mut out, &b);
    if b.len() > 0 && b[b.len() - 1] != '/' {
        out.push('/');
    }
    append_chars(&mut out, &s);
    string_of(&out)
}

/// The user's configuration directory for webdown: `webdown` in
/// `$XDG_CONFIG_HOME` when that is set, else in `$HOME/.config`; none when
/// neither variable is set.
pub open spec fn spec_config_dir(xdg: Option<Seq<char>>, home: Option<Seq<char>>) -> Option<Seq<char>> {
    match xdg {
        Some(x) => Some(spec_join_path(x, "webdown"@)),
        None => match home {
            Some(h) => Some(spec_join_path(spec_join_path(h, ".config"@), "webdown"@)),
            None => None,
        },
    }
}

/// The user's configuration directory, from the values of
/// `$XDG_CONFIG_HOME` and `$HOME` (`None` where a variable is not set).
pub fn config_dir(xdg: Option<String>, home: Option<String>) -> (r: Option<String>)
    ensures
        match r {
            Some(d) => spec_config_dir(
                match xdg { Some(x) => Some(x@), None => None },
                match home { Some(h) => Some(h@), None => None },
            ) == Some(d@),
            None => xdg is None && home is None,
        },
{
    let base = match xdg {
        Some(x) => x,
        None => match home {
            Some(h) => join_path(h.as_str(), ".config"),
            None => {
                return None;
            },
        },
    };
    Some(join_path(base.as_str(), "webdown"))
}

} // verus!
