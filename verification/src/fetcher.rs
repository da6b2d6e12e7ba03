use vstd::prelude::*;
use crate::config::{Auth, AuthType, SourceType};
use crate::error::CoreError;
use crate::matcher::ResolvedRule;
use crate::text::{
    ends_with, is_joined_with_char, lemma_join_layout, lemma_after_last, lemma_trim_start,
    lemma_absent_without_brace, lemma_absent_after_first, lemma_split_concat,
    lemma_split_without_separator, lemma_replace_absent, lemma_replace_whole,
    after_last, chars_of, join_strings, join_with, last_piece, replace_all, replace_chars,
    split_chars, split_on, string_of, trim_start, trim_start_char, views_of,
};
use crate::weburl::{parse_url, url_parse, ParsedUrl, UrlParts};

verus! {

// ---------------------------------------------------------------------------
// Request URL
// ---------------------------------------------------------------------------

/// The text of the request URL that `template` gives for `url`: the
/// placeholders `{scheme}`, `{host}`, `{path}` and `{path_segment}` are
/// replaced, in that order, by the URL's scheme, its host (empty when it
/// has none), its path without leading `/`s, and the last `/`-separated
/// segment of that path.
pub open spec fn spec_template_url(template: Seq<char>, url: UrlParts) -> Seq<char> {
    let path = trim_start_char(url.path, '/');
    let host = match url.host {
        Some(h) => h,
        None => Seq::empty(),
    };
    let segment = after_last(path, '/');
    replace_all(
        replace_all(
            replace_all(replace_all(template, "{scheme}"@, url.scheme), "{host}"@, host),
            "{path}"@,
            path,
        ),
        "{path_segment}"@,
        segment,
    )
}

/// `{path_segment}` stands for the last segment of the page's path (leading
/// `/`s trimmed): a tail of that path that holds no `/` and is either the
/// whole path or follows its last `/`. A path without `/`, such as `12345`,
/// is its own last segment.
pub proof fn lemma_path_segment_placeholder(url: UrlParts)
    ensures
        ({
            let path = trim_start_char(url.path, '/');
            let r = spec_template_url("{path_segment}"@, url);
            &&& ends_with(path, r)
            &&& !r.contains('/')
            &&& (r.len() == path.len() || path[path.len() - r.len() - 1] == '/')
            &&& (!path.contains('/') ==> r == path)
        }),
{
    reveal_strlit("{path_segment}");
    reveal_strlit("{scheme}");
    reveal_strlit("{host}");
    reveal_strlit("{path}");
    let t = "{path_segment}"@;
    let path = trim_start_char(url.path, '/');
    let host = match url.host {
        Some(h) => h,
        None => Seq::empty(),
    };
    assert(t.len() == 14);
    assert forall|i: int| 1 <= i < 14 implies t[i] != '{' by {
        assert(t =~= seq!['{', 'p', 'a', 't', 'h', '_', 's', 'e', 'g', 'm', 'e', 'n', 't', '}']);
    }
    assert forall|i: int| 0 <= i && i + "{scheme}"@.len() <= t.len()
        implies #[trigger] t.subrange(i, i + "{scheme}"@.len()) != "{scheme}"@ by {
        if i == 0 {
            assert(t.subrange(i, i + 8)[1] != "{scheme}"@[1]);
        } else {
            assert(t.subrange(i, i + 8)[0] == t[i]);
        }
    }
    assert forall|i: int| 0 <= i && i + "{host}"@.len() <= t.len()
        implies #[trigger] t.subrange(i, i + "{host}"@.len()) != "{host}"@ by {
        if i == 0 {
            assert(t.subrange(i, i + 6)[1] != "{host}"@[1]);
        } else {
            assert(t.subrange(i, i + 6)[0] == t[i]);
        }
    }
    assert forall|i: int| 0 <= i && i + "{path}"@.len() <= t.len()
        implies #[trigger] t.subrange(i, i + "{path}"@.len()) != "{path}"@ by {
        if i == 0 {
            assert(t.subrange(i, i + 6)[5] != "{path}"@[5]);
        } else {
            assert(t.subrange(i, i + 6)[0] == t[i]);
        }
    }
    lemma_replace_absent(t, "{scheme}"@, url.scheme);
    lemma_replace_absent(t, "{host}"@, host);
    lemma_replace_absent(t, "{path}"@, path);
    lemma_replace_whole(t, after_last(path, '/'));
    lemma_after_last(path, '/');
}

/// The host text that `{host}` stands for: the URL's host, empty when it
/// has none.
pub open spec fn host_text(url: UrlParts) -> Seq<char> {
    match url.host {
        Some(h) => h,
        None => Seq::empty(),
    }
}

/// Each placeholder alone stands for its part of the page's URL:
/// `{scheme}` for the scheme, `{host}` for the host (empty when there is
/// none), `{path}` for the path without its leading `/`s (which holds no
/// leading `/` and is the path's tail after nothing but `/`s); and a
/// template without `{` is used as it is. (A part that itself holds `{`
/// could be rewritten again by a later placeholder, so those are left out.)
pub proof fn lemma_single_placeholders(url: UrlParts, template: Seq<char>)
    ensures
        !url.scheme.contains('{') ==> spec_template_url("{scheme}"@, url) == url.scheme,
        !host_text(url).contains('{') ==> spec_template_url("{host}"@, url) == host_text(url),
        !trim_start_char(url.path, '/').contains('{')
            ==> spec_template_url("{path}"@, url) == trim_start_char(url.path, '/'),
        ends_with(url.path, trim_start_char(url.path, '/')),
        trim_start_char(url.path, '/').len() == 0 || trim_start_char(url.path, '/')[0] != '/',
        !template.contains('{') ==> spec_template_url(template, url) == template,
{
    reveal_strlit("{path_segment}");
    reveal_strlit("{scheme}");
    reveal_strlit("{host}");
    reveal_strlit("{path}");
    let path = trim_start_char(url.path, '/');
    let host = host_text(url);
    let segment = after_last(path, '/');
    let ps = "{path_segment}"@;
    let sc = "{scheme}"@;
    let ho = "{host}"@;
    let pa = "{path}"@;
    assert(ps =~= seq!['{', 'p', 'a', 't', 'h', '_', 's', 'e', 'g', 'm', 'e', 'n', 't', '}']);
    assert(sc =~= seq!['{', 's', 'c', 'h', 'e', 'm', 'e', '}']);
    assert(ho =~= seq!['{', 'h', 'o', 's', 't', '}']);
    assert(pa =~= seq!['{', 'p', 'a', 't', 'h', '}']);
    lemma_trim_start(url.path, '/');
    lemma_after_last(path, '/');
    if !url.scheme.contains('{') {
        lemma_replace_whole(sc, url.scheme);
        lemma_absent_without_brace(url.scheme, ho);
        lemma_absent_without_brace(url.scheme, pa);
        lemma_absent_without_brace(url.scheme, ps);
        lemma_replace_absent(url.scheme, ho, host);
        lemma_replace_absent(url.scheme, pa, path);
        lemma_replace_absent(url.scheme, ps, segment);
    }
    if !host.contains('{') {
        assert(ho.subrange(0, 6)[1] != sc[1]);
        lemma_absent_after_first(ho, sc);
        lemma_replace_absent(ho, sc, url.scheme);
        lemma_replace_whole(ho, host);
        lemma_absent_without_brace(host, pa);
        lemma_absent_without_brace(host, ps);
        lemma_replace_absent(host, pa, path);
        lemma_replace_absent(host, ps, segment);
    }
    if !path.contains('{') {
        assert(pa.subrange(0, 6)[1] != sc[1]);
        assert(pa.subrange(0, 6)[1] != ho[1]);
        lemma_absent_after_first(pa, sc);
        lemma_absent_after_first(pa, ho);
        lemma_replace_absent(pa, sc, url.scheme);
        lemma_replace_absent(pa, ho, host);
        lemma_replace_whole(pa, path);
        lemma_absent_without_brace(path, ps);
        lemma_replace_absent(path, ps, segment);
    }
    if !template.contains('{') {
        lemma_absent_without_brace(template, sc);
        lemma_absent_without_brace(template, ho);
        lemma_absent_without_brace(template, pa);
        lemma_absent_without_brace(template, ps);
        lemma_replace_absent(template, sc, url.scheme);
        lemma_replace_absent(template, ho, host);
        lemma_replace_absent(template, pa, path);
        lemma_replace_absent(template, ps, segment);
    }
}

/// Rewrites the page's URL with the rule's `url_template`: without a
/// template the page's own URL; with one, the template filled in from the
/// page's URL, or the page's own URL again where the filled-in text is not
/// a URL. This rewriting does not look at the source type; the URL that is
/// actually requested is [`request_url`].
pub fn resolve_url(url: &ParsedUrl, rule: &ResolvedRule) -> (r: ParsedUrl)
    ensures
        match rule.source.url_template {
            None => r == *url,
            Some(t) => match url_parse(spec_template_url(t@, url@)) {
                Some(parts) => r@ == parts,
                None => r == *url,
            },
        },
{
    match &rule.source.url_template {
        None => url.duplicate(),
        Some(template) => {
            let scheme = chars_of(url.scheme.as_str());
            let host = match &url.host {
                Some(h) => chars_of(h.as_str()),
                None => Vec::new(),
            };
            let raw_path = chars_of(url.path.as_str());
            let path = trim_start(&raw_path, '/');
            let segment = last_piece(&path, '/');
            let t0 = chars_of(template.as_str());
            let t1 = replace_chars(&t0, &chars_of("{scheme}"), &scheme);
            let t2 = replace_chars(&t1, &chars_of("{host}"), &host);
            let t3 = replace_chars(&t2, &chars_of("{path}"), &path);
            let t4 = replace_chars(&t3, &chars_of("{path_segment}"), &segment);
            let resolved = string_of(&t4);
            assert(resolved@ == spec_template_url(template@, url@));
            match parse_url(resolved.as_str()) {
                Ok(u) => u,
                Err(_) => url.duplicate(),
            }
        },
    }
}

/// The URL that is actually requested for a page: an HTML source fetches
/// the page's own URL directly; an API source fetches the URL rewritten by
/// the rule's `url_template` ([`resolve_url`]).
pub fn request_url(url: &ParsedUrl, rule: &ResolvedRule) -> (r: ParsedUrl)
    ensures
        rule.source.source_type == SourceType::Html ==> r == *url,
        rule.source.source_type == SourceType::Api ==> match rule.source.url_template {
            None => r == *url,
            Some(t) => match url_parse(spec_template_url(t@, url@)) {
                Some(parts) => r@ == parts,
                None => r == *url,
            },
        },
{
    match rule.source.source_type {
        SourceType::Html => url.duplicate(),
        SourceType::Api => resolve_url(url, rule),
    }
}

// ---------------------------------------------------------------------------
// Authentication
// ---------------------------------------------------------------------------

/// The header that carries the authentication value: `Cookie` for cookies,
/// else the configured header, `Authorization` when none is configured.
pub open spec fn spec_auth_header_name(auth: Auth) -> Seq<char> {
    match auth.auth_type {
        AuthType::Cookie => "Cookie"@,
        _ => match auth.header {
            Some(h) => h@,
            None => "Authorization"@,
        },
    }
}

/// The header value for the authentication value `value`: for a token
/// `"{prefix} {value}"` with the prefix `Bearer` when none is configured,
/// else the value itself.
pub open spec fn spec_auth_header_value(auth: Auth, value: Seq<char>) -> Seq<char> {
    match auth.auth_type {
        AuthType::Token => {
            let prefix = match auth.prefix {
                Some(p) => p@,
                None => "Bearer"@,
            };
            prefix + seq![' '] + value
        },
        _ => value,
    }
}

/// What the header sent for the value `value` is, stated case by case:
/// a token goes after the configured prefix and a space (`Bearer` only when
/// no prefix is configured); a cookie or a raw header carries the value
/// itself; cookies go in `Cookie`, other kinds in the configured header,
/// `Authorization` only when none is configured.
pub open spec fn auth_header_laws(auth: Auth, value: Seq<char>, name: Seq<char>, header_value: Seq<char>) -> bool {
    &&& (auth.auth_type == AuthType::Token && auth.prefix is Some)
        ==> header_value == auth.prefix->0@ + seq![' '] + value
    &&& (auth.auth_type == AuthType::Token && auth.prefix is None)
        ==> header_value == "Bearer"@ + seq![' '] + value
    &&& auth.auth_type != AuthType::Token ==> header_value == value
    &&& auth.auth_type == AuthType::Cookie ==> name == "Cookie"@
    &&& (auth.auth_type != AuthType::Cookie && auth.header is Some) ==> name == auth.header->0@
    &&& (auth.auth_type != AuthType::Cookie && auth.header is None) ==> name == "Authorization"@
}

/// The authentication header follows [`auth_header_laws`]: in particular a
/// configured token prefix is used as it is, and the value always ends the
/// header value.
pub proof fn lemma_auth_header(auth: Auth, value: Seq<char>)
    ensures
        auth_header_laws(auth, value, spec_auth_header_name(auth), spec_auth_header_value(auth, value)),
        spec_auth_header_value(auth, value).len() >= value.len(),
        spec_auth_header_value(auth, value).skip(spec_auth_header_value(auth, value).len() - value.len()) == value,
{
    let hv = spec_auth_header_value(auth, value);
    assert(hv.skip(hv.len() - value.len()) =~= value);
}

/// Computes the authentication header (name, value) for a request to a
/// host of `domain`, from the value of the variable `auth.value_env`
/// (`None` when it is not set). Without that value the request cannot be
/// made: `MissingEnvVar` names the variable and the rule's domain.
#[verifier::spinoff_prover]
pub fn apply_auth(auth: &Auth, domain: &str, value: Option<String>) -> (r: Result<(String, String), CoreError>)
    ensures
        match value {
            None => r matches Err(CoreError::MissingEnvVar { name, domain: d })
                && name@ == auth.value_env@ && d@ == domain@,
            Some(v) => r matches Ok((n, hv))
                && n@ == spec_auth_header_name(*auth)
                && hv@ == spec_auth_header_value(*auth, v@),
        },
        value matches Some(v) ==> (r matches Ok((n, hv)) ==> auth_header_laws(*auth, v@, n@, hv@)),
{
    proof {
        if value is Some {
            lemma_auth_header(*auth, value->0@);
        }
    }
    let value = match value {
        Some(v) => v,
        None => {
            return Err(CoreError::MissingEnvVar {
                name: auth.value_env.clone(),
                domain: String::from_str(domain),
            });
        },
    };
    let header_name = match &auth.header {
        Some(h) => h.clone(),
        None => String::from_str("Authorization"),
    };
    match auth.auth_type {
        AuthType::Token => {
            let mut header_value = match &auth.prefix {
                Some(p) => p.clone(),
                None => String::from_str("Bearer"),
            };
            header_value.append(" ");
            proof {
                reveal_strlit(" ");
            }
            header_value.append(value.as_str());
            Ok((header_name, header_value))
        },
        AuthType::Cookie => Ok((String::from_str("Cookie"), value)),
        AuthType::Header => Ok((header_name, value)),
    }
}

// ---------------------------------------------------------------------------
// Response status
// ---------------------------------------------------------------------------

/// A status of the success class, 200 to 299.
pub open spec fn is_success_status(status: u16) -> bool {
    200 <= status <= 299
}

/// Accepts a response status of the success class; any other status is
/// refused with `HttpStatus`, which names it and the requested URL.
pub fn check_status(status: u16, url: &str) -> (r: Result<(), CoreError>)
    ensures
        r is Ok <==> is_success_status(status),
        r matches Err(CoreError::HttpStatus { status: s, url: u }) ==> s == status && u@ == url@,
        r matches Err(e) ==> e is HttpStatus,
{
    if 200 <= status && status <= 299 {
        Ok(())
    } else {
        Err(CoreError::HttpStatus { status, url: String::from_str(url) })
    }
}

// ---------------------------------------------------------------------------
// JSON extraction
// ---------------------------------------------------------------------------

/// What `serde_json` makes of member `key` of the JSON text `text`: parsed
/// with `serde_json::from_str` as a `serde_json::Value`, looked up with
/// `Value::get(key)` (a member of an object), and written back with
/// `to_string`. `None` where the text is not JSON or has no such member.
pub uninterp spec fn json_member_text(text: Seq<char>, key: Seq<char>) -> Option<Seq<char>>;

/// What `serde_json` makes of the JSON text `text` when it is a JSON
/// string: `Some` of the string's contents, `None` for any other text.
pub uninterp spec fn json_string_content(text: Seq<char>) -> Option<Seq<char>>;

/// Member `key` of the JSON value written in `text`, written as JSON text
/// (`serde_json::from_str`, `Value::get`, `Value::to_string`).
/// Claimed: the result is [`json_member_text`] of the arguments.
#[verifier::external_body]
fn json_member(text: &str, key: &str) -> (r: Option<String>)
    ensures
        match r {
            Some(s) => json_member_text(text@, key@) == Some(s@),
            None => json_member_text(text@, key@) is None,
        },
{
    match serde_json::from_str::<serde_json::Value>(text) {
        Ok(v) => v.get(key).map(|m| m.to_string()),
        Err(_) => None,
    }
}

/// The contents of the JSON string written in `text`
/// (`serde_json::from_str`, the `Value::String` variant).
/// Claimed: the result is [`json_string_content`] of the argument.
#[verifier::external_body]
fn json_as_string(text: &str) -> (r: Option<String>)
    ensures
        match r {
            Some(s) => json_string_content(text@) == Some(s@),
            None => json_string_content(text@) is None,
        },
{
    match serde_json::from_str::<serde_json::Value>(text) {
        Ok(serde_json::Value::String(s)) => Some(s),
        _ => None,
    }
}

/// Follows the keys `keys` one after the other from the JSON text `text`;
/// `None` as soon as one is missing.
pub open spec fn json_walk(text: Seq<char>, keys: Seq<Seq<char>>) -> Option<Seq<char>>
    decreases keys.len(),
{
    if keys.len() == 0 {
        Some(text)
    } else {
        match json_member_text(text, keys[0]) {
            Some(t) => json_walk(t, keys.skip(1)),
            None => None,
        }
    }
}

/// How an extracted JSON value is returned: a JSON string by its contents,
/// any other value as JSON text.
pub open spec fn json_render(text: Seq<char>) -> Seq<char> {
    match json_string_content(text) {
        Some(s) => s,
        None => text,
    }
}

/// The HTML fragment that `body_path` `path` selects in the response `body`:
/// the whole body for an empty path, else the value reached by following
/// the `.`-separated keys of the path from the body parsed as JSON;
/// `None` when the body is not JSON or a key is missing.
pub open spec fn spec_json_extract(body: Seq<char>, path: Seq<char>) -> Option<Seq<char>> {
    if path.len() == 0 {
        Some(body)
    } else {
        match json_walk(body, split_on(path, '.')) {
            Some(t) => Some(json_render(t)),
            None => None,
        }
    }
}

/// How `body_path` is followed, key by key:
/// - an empty path selects the whole body, unparsed;
/// - a single key (no `.`) selects that member of the body's JSON object,
///   returned by its contents when it is a JSON string, else as JSON text;
///   `None` when the body is not JSON or has no such member;
/// - a path `key.rest` selects, in the member `key` of the body, what
///   `rest` selects there; `None` when there is no such member.
pub proof fn lemma_json_path_steps(body: Seq<char>, key: Seq<char>, rest: Seq<char>)
    ensures
        spec_json_extract(body, Seq::empty()) == Some(body),
        key.len() > 0 && !key.contains('.') ==> spec_json_extract(body, key) == match json_member_text(body, key) {
            Some(t) => Some(
                match json_string_content(t) {
                    Some(s) => s,
                    None => t,
                },
            ),
            None => None,
        },
        !key.contains('.') && rest.len() > 0 ==> spec_json_extract(body, key + seq!['.'] + rest) == match json_member_text(body, key) {
            Some(t) => spec_json_extract(t, rest),
            None => None,
        },
{
    if key.len() > 0 && !key.contains('.') {
        lemma_split_without_separator(key, '.');
        let keys = split_on(key, '.');
        assert(keys[0] == key);
        assert(keys.skip(1) =~= Seq::<Seq<char>>::empty());
        if let Some(t) = json_member_text(body, key) {
            assert(json_walk(t, keys.skip(1)) == Some(t));
        }
    }
    if !key.contains('.') && rest.len() > 0 {
        let path = key + seq!['.'] + rest;
        lemma_split_concat(key, rest, '.');
        lemma_split_without_separator(key, '.');
        let keys = split_on(path, '.');
        assert(keys =~= seq![key] + split_on(rest, '.'));
        assert(keys[0] == key);
        assert(keys.skip(1) =~= split_on(rest, '.'));
        assert(path.len() > 0);
    }
}

/// The `body_path` of a rule, empty when it has none.
pub open spec fn body_path_of(rule: ResolvedRule) -> Seq<char> {
    match rule.source.body_path {
        Some(p) => p@,
        None => Seq::empty(),
    }
}

/// Extracts an HTML fragment from a JSON response along the dot-separated
/// `body_path` of the rule (for example `"body.storage.value"`).
pub fn extract_from_json(body: &str, rule: &ResolvedRule) -> (r: Result<String, CoreError>)
    ensures
        match spec_json_extract(body@, body_path_of(*rule)) {
            Some(s) => r matches Ok(v) && v@ == s,
            None => r matches Err(CoreError::JsonPathExtract { path }) && path@ == body_path_of(*rule),
        },
{
    let path: Vec<char> = match &rule.source.body_path {
        Some(p) => chars_of(p.as_str()),
        None => Vec::new(),
    };
    if path.len() == 0 {
        return Ok(String::from_str(body));
    }
    let keys = split_chars(&path, '.');
    let ghost all = views_of(keys@);
    let mut current = String::from_str(body);
    assert(all.skip(0) == all);
    for i in 0..keys.len()
        invariant
            all == views_of(keys@),
            all == split_on(path@, '.'),
            path@ == body_path_of(*rule),
            path@.len() > 0,
            json_walk(body@, all) == json_walk(current@, all.skip(i as int)),
    {
        assert(all.skip(i as int)[0] == keys@[i as int]@);
        assert(all.skip(i as int).skip(1) == all.skip(i + 1));
        match json_member(current.as_str(), keys[i].as_str()) {
            Some(next) => {
                current = next;
            },
            None => {
                return Err(CoreError::JsonPathExtract { path: string_of(&path) });
            },
        }
    }
    assert(all.skip(keys@.len() as int) == Seq::<Seq<char>>::empty());
    match json_as_string(current.as_str()) {
        Some(s) => Ok(s),
        None => Ok(current),
    }
}

// ---------------------------------------------------------------------------
// HTML extraction
// ---------------------------------------------------------------------------

/// What `scraper` makes of `body` with the CSS selector `selector`:
/// `Err` with the `Debug` text of the error where `Selector::parse` refuses
/// the selector; else the inner HTML of every element of the document
/// (`Html::parse_document`) that the selector matches, in document order.
pub uninterp spec fn html_selection(body: Seq<char>, selector: Seq<char>) -> Result<Seq<Seq<char>>, Seq<char>>;

/// Selects with `scraper` (`Selector::parse`, `Html::parse_document`,
/// `Html::select`, `ElementRef::inner_html`).
/// Claimed: the result is [`html_selection`] of the arguments.
#[verifier::external_body]
fn html_select(body: &str, selector: &str) -> (r: Result<Vec<String>, String>)
    ensures
        match r {
            Ok(v) => html_selection(body@, selector@) == Ok::<Seq<Seq<char>>, Seq<char>>(views_of(v@)),
            Err(e) => html_selection(body@, selector@) == Err::<Seq<Seq<char>>, Seq<char>>(e@),
        },
{
    let document = scraper::Html::parse_document(body);
    let selector = match scraper::Selector::parse(selector) {
        Ok(s) => s,
        Err(e) => return Err(format!("{e:?}")),
    };
    let mut fragments = Vec::new();
    for element in document.select(&selector) {
        fragments.push(element.inner_html());
    }
    Ok(fragments)
}

/// The content that a rule's `selector` takes from an HTML body: the whole
/// body without a selector or when the selector matches nothing, else the
/// inner HTML of the matched elements joined with newlines; `Err` with the
/// reason where the selector is not valid CSS.
pub open spec fn spec_html_extract(body: Seq<char>, selector: Option<Seq<char>>) -> Result<Seq<char>, Seq<char>> {
    match selector {
        None => Ok(body),
        Some(sel) => match html_selection(body, sel) {
            Err(reason) => Err(reason),
            Ok(fragments) => Ok(
                if fragments.len() == 0 {
                    body
                } else {
                    join_with(fragments, seq!['\n'])
                },
            ),
        },
    }
}

/// What a rule's selector takes from an HTML body, stated case by case:
/// without a selector, or when it matches nothing, the whole body; when it
/// matches, the inner HTML of every matched element, in document order,
/// each at its place with a newline between each two and nothing else
/// ([`is_joined_with_char`]); the reason when the selector is invalid.
pub proof fn lemma_html_extract_keeps_every_match(body: Seq<char>, selector: Option<Seq<char>>)
    ensures
        selector is None ==> spec_html_extract(body, selector) == Ok::<Seq<char>, Seq<char>>(body),
        selector matches Some(sel) ==> match html_selection(body, sel) {
            Err(reason) => spec_html_extract(body, selector) == Err::<Seq<char>, Seq<char>>(reason),
            Ok(fragments) => if fragments.len() == 0 {
                spec_html_extract(body, selector) == Ok::<Seq<char>, Seq<char>>(body)
            } else {
                spec_html_extract(body, selector) matches Ok(r) && is_joined_with_char(r, fragments, '\n')
            },
        },
{
    if let Some(sel) = selector {
        if let Ok(fragments) = html_selection(body, sel) {
            if fragments.len() > 0 {
                lemma_join_layout(fragments, '\n');
            }
        }
    }
}

/// The `selector` of a rule.
pub open spec fn selector_of(rule: ResolvedRule) -> Option<Seq<char>> {
    match rule.source.selector {
        Some(s) => Some(s@),
        None => None,
    }
}

/// Extracts content from HTML, optionally filtered by the rule's CSS selector.
pub fn extract_from_html(body: &str, rule: &ResolvedRule) -> (r: Result<String, CoreError>)
    ensures
        match spec_html_extract(body@, selector_of(*rule)) {
            Ok(s) => r matches Ok(v) && v@ == s,
            Err(reason) => r matches Err(CoreError::InvalidSelector { selector, reason: why })
                && selector@ == selector_of(*rule)->0 && why@ == reason,
        },
{
    match &rule.source.selector {
        None => Ok(String::from_str(body)),
        Some(selector) => match html_select(body, selector.as_str()) {
            Err(reason) => Err(CoreError::InvalidSelector { selector: selector.clone(), reason }),
            Ok(fragments) => {
                assert(views_of(fragments@).len() == fragments@.len());
                if fragments.len() == 0 {
                    Ok(String::from_str(body))
                } else {
                    let newline = ['\n'];
                    assert(newline@ == seq!['\n']);
                    let joined = join_strings(&fragments, &newline);
                    Ok(string_of(&joined))
                }
            },
        },
    }
}

/// What extracting from a response body according to a rule gives:
/// for an API source the JSON extraction along `body_path`, for an HTML
/// source the selection with `selector`.
pub open spec fn extraction_outcome(body: Seq<char>, rule: ResolvedRule, r: Result<String, CoreError>) -> bool {
    match rule.source.source_type {
        SourceType::Api => match spec_json_extract(body, body_path_of(rule)) {
            Some(s) => r matches Ok(v) && v@ == s,
            None => r matches Err(CoreError::JsonPathExtract { path }) && path@ == body_path_of(rule),
        },
        SourceType::Html => match spec_html_extract(body, selector_of(rule)) {
            Ok(s) => r matches Ok(v) && v@ == s,
            Err(reason) => r matches Err(CoreError::InvalidSelector { selector, reason: why })
                && selector@ == selector_of(rule)->0 && why@ == reason,
        },
    }
}

/// The source type decides which setting is read: an HTML source ignores
/// `body_path` (without a selector the body comes back as it is, even when
/// it is JSON and a path is set), an API source ignores `selector` (with
/// an empty path the body comes back as it is, whatever the selector).
pub proof fn lemma_source_type_picks_setting(body: Seq<char>, rule: ResolvedRule, r: Result<String, CoreError>)
    requires
        extraction_outcome(body, rule, r),
    ensures
        rule.source.source_type == SourceType::Html && rule.source.selector is None ==> (r matches Ok(v) && v@ == body),
        rule.source.source_type == SourceType::Api && body_path_of(rule).len() == 0 ==> (r matches Ok(v) && v@ == body),
{
}

/// Extracts the HTML content of a response body as the rule's source type
/// says: from JSON for an API, from the page itself for HTML.
pub fn extract_content(body: &str, rule: &ResolvedRule) -> (r: Result<String, CoreError>)
    ensures
        extraction_outcome(body@, *rule, r),
{
    match rule.source.source_type {
        SourceType::Api => extract_from_json(body, rule),
        SourceType::Html => extract_from_html(body, rule),
    }
}

} // verus!
