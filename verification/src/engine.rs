use vstd::prelude::*;
use crate::text::{append_chars, chars_of, string_of};

verus! {

/// Options passed to the HTML-to-Markdown converter.
#[derive(Debug, Clone)]
pub struct TurndownOptions {
    pub heading_style: String,
    pub code_block_style: String,
    pub bullet_list_marker: String,
}

/// ATX headings, fenced code blocks, `-` bullets.
pub open spec fn is_default_options(t: TurndownOptions) -> bool {
    &&& t.heading_style@ == seq!['a', 't', 'x']
    &&& t.code_block_style@ == seq!['f', 'e', 'n', 'c', 'e', 'd']
    &&& t.bullet_list_marker@ == seq!['-']
}

impl Default for TurndownOptions {
    fn default() -> (r: Self)
        ensures
            is_default_options(r),
    {
        TurndownOptions {
            heading_style: default_heading_style(),
            code_block_style: default_code_block_style(),
            bullet_list_marker: default_bullet_list_marker(),
        }
    }
}

impl TurndownOptions {
    /// The converter options that a resolved rule's conversion settings name.
    pub fn from_config(t: &crate::config::TurndownOptions) -> (r: TurndownOptions)
        ensures
            r.heading_style == t.heading_style,
            r.code_block_style == t.code_block_style,
            r.bullet_list_marker == t.bullet_list_marker,
    {
        TurndownOptions {
            heading_style: t.heading_style.clone(),
            code_block_style: t.code_block_style.clone(),
            bullet_list_marker: t.bullet_list_marker.clone(),
        }
    }
}

/// `"atx"`.
pub fn default_heading_style() -> (s: String)
    ensures
        s@ == seq!['a', 't', 'x'],
{
    string_of(&['a', 't', 'x'])
}

/// `"fenced"`.
pub fn default_code_block_style() -> (s: String)
    ensures
        s@ == seq!['f', 'e', 'n', 'c', 'e', 'd'],
{
    string_of(&['f', 'e', 'n', 'c', 'e', 'd'])
}

/// `"-"`.
pub fn default_bullet_list_marker() -> (s: String)
    ensures
        s@ == seq!['-'],
{
    string_of(&['-'])
}

/// What `serde_json::to_string` writes for the string `s`: `s` as a JSON
/// string literal, quoted and escaped by serde_json's rules.
pub uninterp spec fn json_string_text(s: Seq<char>) -> Seq<char>;

/// `s` as a JSON string literal (`serde_json::to_string` on a `&str`).
/// Claimed: the result is [`json_string_text`] of the argument. serde_json
/// writes a string into a `Vec<u8>`, which does not fail, so the `Err`
/// arm is not taken.
#[verifier::external_body]
fn json_string_literal(s: &str) -> (r: String)
    ensures
        r@ == json_string_text(s@),
{
    match serde_json::to_string(s) {
        Ok(t) => t,
        Err(_) => String::new(),
    }
}

/// The JSON document that the converter reads: the HTML and the options,
/// compact, fields in this order:
/// `{"html":…,"options":{"heading_style":…,"code_block_style":…,"bullet_list_marker":…}}`.
pub open spec fn spec_engine_input(html: Seq<char>, options: TurndownOptions) -> Seq<char> {
    "{\"html\":"@ + json_string_text(html)
        + ",\"options\":{\"heading_style\":"@ + json_string_text(options.heading_style@)
        + ",\"code_block_style\":"@ + json_string_text(options.code_block_style@)
        + ",\"bullet_list_marker\":"@ + json_string_text(options.bullet_list_marker@)
        + "}}"@
}

/// Appends `text` as a JSON string literal to `out`.
fn push_quoted(out: &mut Vec<char>, text: &str)
    ensures
        final(out)@ == old(out)@ + json_string_text(text@),
{
    let literal = json_string_literal(text);
    append_chars(out, &chars_of(literal.as_str()));
}

/// Frames the converter's input: the HTML and the options as the JSON
/// document [`spec_engine_input`].
pub fn frame_engine_input(html: &str, options: &TurndownOptions) -> (r: String)
    ensures
        r@ == spec_engine_input(html@, *options),
{
    let mut out: Vec<char> = Vec::new();
    append_chars(&mut out, &chars_of("{\"html\":"));
    push_quoted(&mut out, html);
    append_chars(&mut out, &chars_of(",\"options\":{\"heading_style\":"));
    push_quoted(&mut out, options.heading_style.as_str());
    append_chars(&mut out, &chars_of(",\"code_block_style\":"));
    push_quoted(&mut out, options.code_block_style.as_str());
    append_chars(&mut out, &chars_of(",\"bullet_list_marker\":"));
    push_quoted(&mut out, options.bullet_list_marker.as_str());
    append_chars(&mut out, &chars_of("}}"));
    string_of(&out)
}

} // verus!
