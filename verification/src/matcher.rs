use vstd::prelude::*;
use crate::config::{Config, Rule, Auth, Source, TurndownOptions, is_default_source, copy_opt_auth};
use crate::error::CoreError;
use crate::text::{ascii_lower, lower_seq, ends_with, chars_of, lower_chars, chars_eq, ends_with_from, string_of};
use crate::weburl::{ParsedUrl, empty_host_error};

verus! {

/// Whether the domain pattern `pattern` matches the host name `host`, both
/// compared without regard to ASCII case:
/// - `"*"` matches every host;
/// - `"*.example.com"` matches every host that ends with `".example.com"`
///   (so `sub.example.com` and `a.b.example.com`, not `example.com`);
/// - any other pattern matches exactly that host.
pub open spec fn spec_domain_matches(pattern: Seq<char>, host: Seq<char>) -> bool {
    if pattern == seq!['*'] {
        true
    } else {
        let p = lower_seq(pattern);
        let h = lower_seq(host);
        if p.len() >= 2 && p[0] == '*' && p[1] == '.' {
            // the host ends with the pattern's ".example.com"
            ends_with(h, p.skip(1))
        } else {
            h == p
        }
    }
}

/// Checks whether a domain glob pattern matches a host.
pub fn domain_matches(pattern: &str, host: &str) -> (r: bool)
    ensures
        r == spec_domain_matches(pattern@, host@),
        is_plain_pattern(pattern@) ==> (r <==> equal_ignoring_ascii_case(pattern@, host@)),
        pattern@ == seq!['*'] ==> r,
{
    proof {
        if is_plain_pattern(pattern@) {
            lemma_plain_pattern_matches_only_itself(pattern@, host@);
        }
    }
    let raw = chars_of(pattern);
    if raw.len() == 1 && raw[0] == '*' {
        assert(pattern@ == seq!['*']);
        return true;
    }
    assert(pattern@ != seq!['*']);
    let p = lower_chars(&raw);
    let host_chars = chars_of(host);
    let h = lower_chars(&host_chars);
    if p.len() >= 2 && p[0] == '*' && p[1] == '.' {
        ends_with_from(&h, &p, 1)
    } else {
        chars_eq(&h, &p)
    }
}

/// Lower-casing twice is lower-casing once.
proof fn lemma_lower_idempotent(s: Seq<char>)
    ensures
        lower_seq(lower_seq(s)) == lower_seq(s),
{
    assert(lower_seq(lower_seq(s)) =~= lower_seq(s));
}

/// Only `"*"` lower-cases to `"*"`.
proof fn lemma_lower_star(s: Seq<char>)
    ensures
        lower_seq(s) == seq!['*'] <==> s == seq!['*'],
{
    if lower_seq(s) == seq!['*'] {
        assert(lower_seq(s)[0] == '*');
        assert(s =~= seq!['*']);
    }
    if s == seq!['*'] {
        assert(lower_seq(s) =~= seq!['*']);
    }
}

/// The pattern `"*"` matches every host.
pub proof fn lemma_star_matches_every_host(host: Seq<char>)
    ensures
        spec_domain_matches(seq!['*'], host),
{
}

/// Matching does not depend on the ASCII case of the pattern or the host:
/// `Example.COM` matches as `example.com` does.
pub proof fn lemma_matching_ignores_case(pattern: Seq<char>, host: Seq<char>)
    ensures
        spec_domain_matches(pattern, host) == spec_domain_matches(lower_seq(pattern), lower_seq(host)),
{
    lemma_lower_idempotent(pattern);
    lemma_lower_idempotent(host);
    lemma_lower_star(pattern);
    lemma_lower_star(lower_seq(pattern));
}

/// A wildcard pattern `"*.d"` never matches the domain `d` itself
/// (in any case): `*.example.com` does not match `example.com`.
pub proof fn lemma_wildcard_excludes_bare_domain(d: Seq<char>, host: Seq<char>)
    requires
        lower_seq(host) == lower_seq(d),
    ensures
        !spec_domain_matches(seq!['*', '.'] + d, host),
{
    let pattern = seq!['*', '.'] + d;
    assert(pattern != seq!['*']) by {
        assert(pattern.len() >= 2);
    }
    let p = lower_seq(pattern);
    assert(p[0] == '*' && p[1] == '.');
    assert(p.skip(1).len() == d.len() + 1);
}

/// A wildcard pattern `"*.d"` matches every host `label.d`, whatever the
/// label: `*.example.com` matches `sub.example.com` and `a.b.example.com`.
pub proof fn lemma_wildcard_matches_subdomains(d: Seq<char>, label: Seq<char>)
    ensures
        spec_domain_matches(seq!['*', '.'] + d, label + seq!['.'] + d),
{
    let pattern = seq!['*', '.'] + d;
    let host = label + seq!['.'] + d;
    assert(pattern != seq!['*']) by {
        assert(pattern.len() >= 2);
    }
    let p = lower_seq(pattern);
    let h = lower_seq(host);
    assert(p[0] == '*' && p[1] == '.');
    let suffix = p.skip(1);
    assert(suffix =~= seq!['.'] + lower_seq(d));
    assert(h.skip(h.len() - suffix.len()) =~= suffix);
}

/// The pattern is a plain domain: neither `"*"` nor a `"*."` wildcard.
pub open spec fn is_plain_pattern(pattern: Seq<char>) -> bool {
    &&& pattern != seq!['*']
    &&& !(pattern.len() >= 2 && pattern[0] == '*' && pattern[1] == '.')
}

/// The two texts are equal up to the ASCII case of their letters.
pub open spec fn equal_ignoring_ascii_case(a: Seq<char>, b: Seq<char>) -> bool {
    &&& a.len() == b.len()
    &&& forall|i: int| 0 <= i < a.len() ==> ascii_lower(#[trigger] a[i]) == ascii_lower(b[i])
}

/// A plain pattern such as `example.com` matches exactly the hosts that
/// equal it up to ASCII case: never a subdomain such as `sub.example.com`,
/// never a host of another length.
pub proof fn lemma_plain_pattern_matches_only_itself(pattern: Seq<char>, host: Seq<char>)
    requires
        is_plain_pattern(pattern),
    ensures
        spec_domain_matches(pattern, host) <==> equal_ignoring_ascii_case(pattern, host),
        pattern.len() != host.len() ==> !spec_domain_matches(pattern, host),
{
    let p = lower_seq(pattern);
    let h = lower_seq(host);
    if pattern.len() >= 2 {
        assert(p[0] == ascii_lower(pattern[0]) && p[1] == ascii_lower(pattern[1]));
        assert(!(p[0] == '*' && p[1] == '.'));
    }
    if equal_ignoring_ascii_case(pattern, host) {
        assert(h =~= p);
    }
    if h == p {
        assert forall|i: int| 0 <= i < pattern.len() implies ascii_lower(#[trigger] pattern[i]) == ascii_lower(host[i]) by {
            assert(p[i] == h[i]);
        }
    }
}

/// A wildcard pattern `"*.d"` matches exactly the hosts that are longer
/// than `d`, end with `d` up to ASCII case, and hold a `.` right before
/// that ending. So
/// `*.example.com` matches `sub.example.com`, not `example.com` nor
/// `notexample.com`.
pub proof fn lemma_wildcard_matches_exactly(d: Seq<char>, host: Seq<char>)
    ensures
        spec_domain_matches(seq!['*', '.'] + d, host) <==> {
            &&& host.len() > d.len()
            &&& host[host.len() - d.len() - 1] == '.'
            &&& equal_ignoring_ascii_case(host.skip(host.len() - d.len()), d)
        },
{
    let pattern = seq!['*', '.'] + d;
    assert(pattern != seq!['*']) by {
        assert(pattern.len() >= 2);
    }
    let p = lower_seq(pattern);
    let h = lower_seq(host);
    assert(p[0] == '*' && p[1] == '.');
    let suffix = p.skip(1);
    assert(suffix =~= seq!['.'] + lower_seq(d));
    if host.len() > d.len() {
        let k = host.len() - d.len();
        let tail = host.skip(k);
        if ends_with(h, suffix) {
            assert(h.skip(h.len() - suffix.len()) == suffix);
            assert(h[k - 1] == suffix[0]);
            assert forall|i: int| 0 <= i < tail.len() implies ascii_lower(#[trigger] tail[i]) == ascii_lower(d[i]) by {
                assert(h[k + i] == suffix[i + 1]);
            }
        }
        if host[k - 1] == '.' && equal_ignoring_ascii_case(tail, d) {
            assert forall|i: int| 0 <= i < suffix.len() implies h.skip(h.len() - suffix.len())[i] == suffix[i] by {
                if i > 0 {
                    assert(tail[i - 1] == host[k + i - 1]);
                }
            }
            assert(h.skip(h.len() - suffix.len()) =~= suffix);
        }
    }
}

/// The resolved rule comes from a rule whose pattern matches the host and
/// that no earlier rule matches; only when no rule matches at all is it the
/// catch-all `"*"`.
pub proof fn lemma_resolved_rule_is_first_matching(config: Config, host: Seq<char>, r: ResolvedRule)
    requires
        spec_match_result(config, host, r),
    ensures
        (exists|i: int| 0 <= i < config.rules@.len() && spec_domain_matches(#[trigger] config.rules@[i].domain@, host))
            ==> exists|i: int| {
                &&& 0 <= i < config.rules@.len()
                &&& spec_domain_matches(#[trigger] config.rules@[i].domain@, host)
                &&& (forall|j: int| 0 <= j < i ==> !spec_domain_matches(#[trigger] config.rules@[j].domain@, host))
                &&& r.domain == config.rules@[i].domain
                &&& r.source == config.rules@[i].source
            },
        (forall|i: int| 0 <= i < config.rules@.len() ==> !spec_domain_matches(#[trigger] config.rules@[i].domain@, host))
            ==> r.domain@ == seq!['*'] && r.auth is None,
{
    let rules = config.rules@;
    if exists|i: int| 0 <= i < rules.len() && spec_domain_matches(#[trigger] rules[i].domain@, host) {
        let w = choose|i: int| 0 <= i < rules.len() && spec_domain_matches(#[trigger] rules[i].domain@, host);
        assert(!no_rule_matches(rules, host)) by {
            assert(spec_domain_matches(rules[w].domain@, host));
        }
        let i = choose|i: int| is_first_match(rules, host, i) && resolves_to(r, rules[i], config.defaults.turndown);
        assert(spec_domain_matches(rules[i].domain@, host));
    }
}

/// A fully resolved rule, with the configuration's defaults merged in.
#[derive(Debug, Clone)]
pub struct ResolvedRule {
    pub domain: String,
    pub auth: Option<Auth>,
    pub source: Source,
    pub turndown: TurndownOptions,
}

impl ResolvedRule {
    /// Replaces the rule's CSS selector by `selector` when one is given
    /// (the command line's `--selector` wins over the configuration).
    pub fn override_selector(&mut self, selector: &Option<String>)
        ensures
            final(self).domain == old(self).domain,
            final(self).auth == old(self).auth,
            final(self).turndown == old(self).turndown,
            final(self).source.source_type == old(self).source.source_type,
            final(self).source.url_template == old(self).source.url_template,
            final(self).source.body_path == old(self).source.body_path,
            final(self).source.selector == match *selector {
                Some(s) => Some(s),
                None => old(self).source.selector,
            },
    {
        if let Some(s) = selector {
            self.source.selector = Some(s.clone());
        }
    }
}

/// Rule `i` is the first rule of `rules` whose pattern matches `host`.
pub open spec fn is_first_match(rules: Seq<Rule>, host: Seq<char>, i: int) -> bool {
    &&& 0 <= i < rules.len()
    &&& spec_domain_matches(rules[i].domain@, host)
    &&& forall|j: int| 0 <= j < i ==> !spec_domain_matches(#[trigger] rules[j].domain@, host)
}

/// No rule of `rules` matches `host`.
pub open spec fn no_rule_matches(rules: Seq<Rule>, host: Seq<char>) -> bool {
    forall|j: int| 0 <= j < rules.len() ==> !spec_domain_matches(#[trigger] rules[j].domain@, host)
}

/// `r` is `rule` with the defaults merged in: the rule's own conversion
/// options when it has them, the configuration's defaults otherwise.
pub open spec fn resolves_to(r: ResolvedRule, rule: Rule, defaults: TurndownOptions) -> bool {
    &&& r.domain == rule.domain
    &&& r.auth == rule.auth
    &&& r.source == rule.source
    &&& r.turndown == match rule.turndown {
        Some(t) => t,
        None => defaults,
    }
}

/// `r` is the implicit catch-all: domain `"*"`, no authentication, the
/// default source and the configuration's default conversion options.
pub open spec fn is_fallback(r: ResolvedRule, defaults: TurndownOptions) -> bool {
    &&& r.domain@ == seq!['*']
    &&& r.auth is None
    &&& is_default_source(r.source)
    &&& r.turndown == defaults
}

/// What matching `config` against a URL whose host is `host` gives.
pub open spec fn spec_match_result(config: Config, host: Seq<char>, r: ResolvedRule) -> bool {
    let rules = config.rules@;
    ||| exists|i: int| is_first_match(rules, host, i) && resolves_to(r, rules[i], config.defaults.turndown)
    ||| no_rule_matches(rules, host) && is_fallback(r, config.defaults.turndown)
}

/// Matches a URL against the rules of `config`, top to bottom, and returns
/// the first rule whose domain pattern matches the URL's host, with the
/// defaults merged in; when no rule matches, the catch-all `"*"` with the
/// defaults. A URL without a host is refused with `InvalidUrl`.
pub fn match_rule(config: &Config, url: &ParsedUrl) -> (r: Result<ResolvedRule, CoreError>)
    ensures
        r is Err <==> url.host is None,
        r matches Err(e) ==> e is InvalidUrl,
        r matches Ok(res) ==> spec_match_result(*config, url@.host->0, res),
        r matches Ok(res) ==> forall|i: int| #[trigger] is_first_match(config.rules@, url@.host->0, i) ==> {
            &&& res.domain == config.rules@[i].domain
            &&& res.auth == config.rules@[i].auth
            &&& res.source == config.rules@[i].source
            &&& (config.rules@[i].turndown matches Some(t) ==> res.turndown == t)
            &&& (config.rules@[i].turndown is None ==> res.turndown == config.defaults.turndown)
        },
        r matches Ok(res) ==> (no_rule_matches(config.rules@, url@.host->0) ==> {
            &&& res.domain@ == seq!['*']
            &&& res.auth is None
            &&& res.turndown == config.defaults.turndown
        }),
{
    let host = match &url.host {
        Some(h) => h,
        None => {
            return Err(CoreError::InvalidUrl(empty_host_error()));
        },
    };
    let rules = &config.rules;
    for i in 0..rules.len()
        invariant
            url.host == Some(*host),
            rules == &config.rules,
            forall|j: int| 0 <= j < i ==> !spec_domain_matches(#[trigger] rules@[j].domain@, host@),
    {
        let rule = &rules[i];
        if domain_matches(rule.domain.as_str(), host.as_str()) {
            let turndown = match &rule.turndown {
                Some(t) => t.duplicate(),
                None => config.defaults.turndown.duplicate(),
            };
            let res = ResolvedRule {
                domain: rule.domain.clone(),
                auth: copy_opt_auth(&rule.auth),
                source: rule.source.duplicate(),
                turndown,
            };
            assert(is_first_match(rules@, host@, i as int));
            proof {
                assert forall|k: int| #[trigger] is_first_match(config.rules@, host@, k) implies k == i by {
                    lemma_first_match_unique(config.rules@, host@, k, i as int);
                }
            }
            return Ok(res);
        }
    }
    let domain = string_of(&['*']);
    let source = Source::default();
    assert(domain@ == seq!['*']);
    assert(is_default_source(source));
    let res = ResolvedRule { domain, auth: None, source, turndown: config.defaults.turndown.duplicate() };
    assert(no_rule_matches(rules@, host@));
    Ok(res)
}

/// Rules are tried in order and the first match wins, so a catch-all rule
/// `"*"` at position `k` is the last rule that can ever be used: the
/// resolved rule comes from a rule at or before `k`, never from the
/// implicit fallback.
pub proof fn lemma_rules_after_catch_all_unused(config: Config, host: Seq<char>, r: ResolvedRule, k: int)
    requires
        spec_match_result(config, host, r),
        0 <= k < config.rules@.len(),
        config.rules@[k].domain@ == seq!['*'],
    ensures
        exists|i: int|
            0 <= i <= k && is_first_match(config.rules@, host, i)
                && resolves_to(r, config.rules@[i], config.defaults.turndown),
{
    let rules = config.rules@;
    assert(spec_domain_matches(rules[k].domain@, host));
    assert(!no_rule_matches(rules, host));
    let i = choose|i: int| is_first_match(rules, host, i) && resolves_to(r, rules[i], config.defaults.turndown);
    if i > k {
        assert(!spec_domain_matches(rules[k].domain@, host));
    }
}

/// First match wins: once a rule matches a host, rules added after the
/// configuration's last rule change nothing for that host.
pub proof fn lemma_later_rules_do_not_change_match(
    config: Config,
    extended: Config,
    extra: Seq<Rule>,
    host: Seq<char>,
    r: ResolvedRule,
)
    requires
        spec_match_result(config, host, r),
        !no_rule_matches(config.rules@, host),
        extended.defaults == config.defaults,
        extended.rules@ == config.rules@ + extra,
    ensures
        spec_match_result(extended, host, r),
{
    let rules = config.rules@;
    let i = choose|i: int| is_first_match(rules, host, i) && resolves_to(r, rules[i], config.defaults.turndown);
    assert(extended.rules@[i] == rules[i]);
    assert forall|j: int| 0 <= j < i implies !spec_domain_matches(#[trigger] extended.rules@[j].domain@, host) by {
        assert(extended.rules@[j] == rules[j]);
    }
    assert(is_first_match(extended.rules@, host, i));
}

/// The conversion options of a resolved rule: the matched rule's own
/// options when it has them, else the configuration's `defaults.turndown`
/// (whatever they are, not built-in values); the configuration's defaults
/// too when no rule matches.
pub proof fn lemma_turndown_options_come_from_rule_or_config(config: Config, host: Seq<char>, r: ResolvedRule)
    requires
        spec_match_result(config, host, r),
    ensures
        forall|i: int| #[trigger] is_first_match(config.rules@, host, i) ==> {
            &&& r.domain == config.rules@[i].domain
            &&& r.auth == config.rules@[i].auth
            &&& r.source == config.rules@[i].source
            &&& (config.rules@[i].turndown matches Some(t) ==> r.turndown == t)
            &&& (config.rules@[i].turndown is None ==> r.turndown == config.defaults.turndown)
        },
        no_rule_matches(config.rules@, host) ==> r.turndown == config.defaults.turndown && r.auth is None,
{
    let rules = config.rules@;
    if !no_rule_matches(rules, host) {
        let i = choose|i: int| is_first_match(rules, host, i) && resolves_to(r, rules[i], config.defaults.turndown);
        assert forall|k: int| #[trigger] is_first_match(rules, host, k) implies k == i by {
            lemma_first_match_unique(rules, host, k, i);
        }
    } else {
        assert forall|k: int| !(#[trigger] is_first_match(rules, host, k)) by {
            if 0 <= k < rules.len() {
                assert(!spec_domain_matches(rules[k].domain@, host));
            }
        }
    }
}

/// The first match is unique: two rules cannot both be the first rule that
/// matches a host.
pub proof fn lemma_first_match_unique(rules: Seq<Rule>, host: Seq<char>, i: int, j: int)
    requires
        is_first_match(rules, host, i),
        is_first_match(rules, host, j),
    ensures
        i == j,
{
    if i < j {
        assert(!spec_domain_matches(rules[i].domain@, host));
    }
    if j < i {
        assert(!spec_domain_matches(rules[j].domain@, host));
    }
}

} // verus!
