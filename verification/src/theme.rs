//! Theme tokens: their defaults, the overrides a deck's theme object gives,
//! and the CSS block that declares them.
use vstd::prelude::*;

use crate::html_preview::spec_html_escape;
use crate::json::{entries_find, entries_view, obj_get, Json, JsonEntry, JsonValue};
use crate::text::{push_str, to_string};

verus! {

/// Escapes `&`, `<`, `>`, `"` and `'` for use in HTML.
pub fn html_escape(s: &str) -> (r: String)
    ensures
        r@ == spec_html_escape(s@),
{
    crate::html_preview::html_escape(s)
}

/// A theme token: its CSS name, its default, the flat theme key that sets
/// it, and the group and field of the nested theme key that sets it.
pub struct ThemeToken {
    pub key: &'static str,
    pub default: &'static str,
    pub flat: &'static str,
    pub group: &'static str,
    pub field: &'static str,
}

pub struct ThemeTokenV {
    pub key: Seq<char>,
    pub default: Seq<char>,
    pub flat: Seq<char>,
    pub group: Seq<char>,
    pub field: Seq<char>,
}

impl View for ThemeToken {
    type V = ThemeTokenV;

    open spec fn view(&self) -> ThemeTokenV {
        ThemeTokenV {
            key: self.key@,
            default: self.default@,
            flat: self.flat@,
            group: self.group@,
            field: self.field@,
        }
    }
}

/// The theme tokens, sorted by CSS name.
pub open spec fn spec_theme_tokens() -> Seq<ThemeTokenV> {
    seq![
        ThemeTokenV { key: "color-bg"@, default: "#ffffff"@, flat: "color_bg"@, group: "colors"@, field: "background"@ },
        ThemeTokenV { key: "color-text-muted"@, default: "#4f4f4f"@, flat: "color_text_muted"@, group: "colors"@, field: "text_muted"@ },
        ThemeTokenV { key: "color-text-primary"@, default: "#111111"@, flat: "color_text_primary"@, group: "colors"@, field: "text_primary"@ },
        ThemeTokenV { key: "font-family-base"@, default: "'Inter', 'Segoe UI', sans-serif"@, flat: "font_family_base"@, group: "typography"@, field: "base_font_family"@ },
        ThemeTokenV { key: "font-size-body"@, default: "28px"@, flat: "font_size_body"@, group: "typography"@, field: "body_font_size"@ },
        ThemeTokenV { key: "font-size-title"@, default: "48px"@, flat: "font_size_title"@, group: "typography"@, field: "title_font_size"@ },
        ThemeTokenV { key: "line-height-body"@, default: "1.35"@, flat: "line_height_body"@, group: "typography"@, field: "body_line_height"@ },
        ThemeTokenV { key: "line-height-title"@, default: "1.15"@, flat: "line_height_title"@, group: "typography"@, field: "title_line_height"@ },
        ThemeTokenV { key: "space-slide-padding"@, default: "48px"@, flat: "space_slide_padding"@, group: "spacing"@, field: "slide_padding"@ },
    ]
}

fn token(
    key: &'static str,
    default: &'static str,
    flat: &'static str,
    group: &'static str,
    field: &'static str,
) -> (r: ThemeToken)
    ensures
        r@ == (ThemeTokenV { key: key@, default: default@, flat: flat@, group: group@, field: field@ }),
{
    ThemeToken { key, default, flat, group, field }
}

/// The theme tokens with the keys that set them.
pub fn theme_tokens() -> (r: Vec<ThemeToken>)
    ensures
        r@.map_values(|t: ThemeToken| t@) == spec_theme_tokens(),
{
    let r = vec![
        token("color-bg", "#ffffff", "color_bg", "colors", "background"),
        token("color-text-muted", "#4f4f4f", "color_text_muted", "colors", "text_muted"),
        token("color-text-primary", "#111111", "color_text_primary", "colors", "text_primary"),
        token("font-family-base", "'Inter', 'Segoe UI', sans-serif", "font_family_base", "typography", "base_font_family"),
        token("font-size-body", "28px", "font_size_body", "typography", "body_font_size"),
        token("font-size-title", "48px", "font_size_title", "typography", "title_font_size"),
        token("line-height-body", "1.35", "line_height_body", "typography", "body_line_height"),
        token("line-height-title", "1.15", "line_height_title", "typography", "title_line_height"),
        token("space-slide-padding", "48px", "space_slide_padding", "spacing", "slide_padding"),
    ];
    assert(r@.map_values(|t: ThemeToken| t@) =~= spec_theme_tokens());
    r
}

/// The default value of each token, sorted by token name.
pub open spec fn spec_default_theme_tokens() -> Seq<(Seq<char>, Seq<char>)> {
    spec_theme_tokens().map_values(|t: ThemeTokenV| (t.key, t.default))
}

/// The default value of each theme token, sorted by token name.
pub fn default_theme_tokens() -> (r: Vec<(&'static str, &'static str)>)
    ensures
        r@.map_values(|p: (&'static str, &'static str)| (p.0@, p.1@)) == spec_default_theme_tokens(),
{
    let tokens = theme_tokens();
    let mut r: Vec<(&'static str, &'static str)> = Vec::new();
    let mut i: usize = 0;
    while i < tokens.len()
        invariant
            i <= tokens@.len(),
            tokens@.map_values(|t: ThemeToken| t@) == spec_theme_tokens(),
            r@.map_values(|p: (&'static str, &'static str)| (p.0@, p.1@)) == spec_default_theme_tokens().take(i as int),
        decreases tokens@.len() - i,
    {
        assert(spec_theme_tokens()[i as int] == tokens@[i as int]@);
        assert(spec_default_theme_tokens()[i as int] == (tokens@[i as int].key@, tokens@[i as int].default@));
        let ghost before = r@.map_values(|p: (&'static str, &'static str)| (p.0@, p.1@));
        r.push((tokens[i].key, tokens[i].default));
        assert(r@.map_values(|p: (&'static str, &'static str)| (p.0@, p.1@)) =~= before.push(spec_default_theme_tokens()[i as int]));
        assert(r@.map_values(|p: (&'static str, &'static str)| (p.0@, p.1@)) =~= spec_default_theme_tokens().take(i + 1));
        i = i + 1;
    }
    assert(spec_default_theme_tokens().take(i as int) =~= spec_default_theme_tokens());
    r
}

/// The string member `k` of an object.
pub open spec fn str_member(m: Seq<(Seq<char>, Json)>, k: Seq<char>) -> Option<Seq<char>> {
    match obj_get(m, k) {
        Some(Json::Str(s)) => Some(s),
        _ => None,
    }
}

/// The string at `group.field` of an object.
pub open spec fn nested_str_member(m: Seq<(Seq<char>, Json)>, group: Seq<char>, field: Seq<char>) -> Option<Seq<char>> {
    match obj_get(m, group) {
        Some(Json::Object(g)) => str_member(g, field),
        _ => None,
    }
}

/// The value of a token under a theme: the nested key wins over the flat
/// key, which wins over the default.
pub open spec fn resolved_value(theme: Option<Seq<(Seq<char>, Json)>>, t: ThemeTokenV) -> Seq<char> {
    match theme {
        None => t.default,
        Some(m) => match nested_str_member(m, t.group, t.field) {
            Some(v) => v,
            None => match str_member(m, t.flat) {
                Some(v) => v,
                None => t.default,
            },
        },
    }
}

/// Every token with its value under `theme`, sorted by token name.
pub open spec fn spec_resolve_tokens(theme: Option<Seq<(Seq<char>, Json)>>) -> Seq<(Seq<char>, Seq<char>)> {
    spec_theme_tokens().map_values(|t: ThemeTokenV| (t.key, resolved_value(theme, t)))
}

/// The string member `key` of an object, by the first member of that name.
fn str_member_exec(entries: &Vec<JsonEntry>, key: &str) -> (r: Option<String>)
    ensures
        match r {
            Some(s) => str_member(entries_view(entries@), key@) == Some(s@),
            None => str_member(entries_view(entries@), key@) is None,
        },
{
    match entries_find(entries, key) {
        Some(i) => match &entries[i].value {
            JsonValue::String(s) => Some(s.clone()),
            _ => None,
        },
        None => None,
    }
}

fn nested_str_member_exec(entries: &Vec<JsonEntry>, group: &str, field: &str) -> (r: Option<String>)
    ensures
        match r {
            Some(s) => nested_str_member(entries_view(entries@), group@, field@) == Some(s@),
            None => nested_str_member(entries_view(entries@), group@, field@) is None,
        },
{
    match entries_find(entries, group) {
        Some(i) => match &entries[i].value {
            JsonValue::Object(g) => str_member_exec(g, field),
            _ => None,
        },
        None => None,
    }
}

/// The theme's view, when there is a theme object.
pub open spec fn theme_view(theme: Option<&Vec<JsonEntry>>) -> Option<Seq<(Seq<char>, Json)>> {
    match theme {
        Some(m) => Some(entries_view(m@)),
        None => None,
    }
}

/// Every theme token with the value the theme object sets for it (its
/// nested key, else its flat key, else the default), sorted by token name.
pub fn resolve_theme_token_overrides(theme: Option<&Vec<JsonEntry>>) -> (r: Vec<(String, String)>)
    ensures
        r@.map_values(|p: (String, String)| (p.0@, p.1@)) == spec_resolve_tokens(theme_view(theme)),
{
    let tokens = theme_tokens();
    let ghost tv = theme_view(theme);
    let mut r: Vec<(String, String)> = Vec::new();
    let mut i: usize = 0;
    while i < tokens.len()
        invariant
            i <= tokens@.len(),
            tv == theme_view(theme),
            tokens@.map_values(|t: ThemeToken| t@) == spec_theme_tokens(),
            r@.map_values(|p: (String, String)| (p.0@, p.1@)) == spec_resolve_tokens(tv).take(i as int),
        decreases tokens@.len() - i,
    {
        let t = &tokens[i];
        assert(spec_theme_tokens()[i as int] == t@);
        let value = match theme {
            None => to_string(t.default),
            Some(m) => match nested_str_member_exec(m, t.group, t.field) {
                Some(v) => v,
                None => match str_member_exec(m, t.flat) {
                    Some(v) => v,
                    None => to_string(t.default),
                },
            },
        };
        assert(value@ == resolved_value(tv, t@));
        assert(spec_resolve_tokens(tv)[i as int] == (t.key@, value@));
        let ghost before = r@.map_values(|p: (String, String)| (p.0@, p.1@));
        let ghost vv = value@;
        r.push((to_string(t.key), value));
        assert(r@.map_values(|p: (String, String)| (p.0@, p.1@)) =~= before.push((t.key@, vv)));
        assert(r@.map_values(|p: (String, String)| (p.0@, p.1@)) =~= spec_resolve_tokens(tv).take(i + 1));
        i = i + 1;
    }
    assert(spec_resolve_tokens(tv).take(i as int) =~= spec_resolve_tokens(tv));
    r
}

/// The CSS declaration of one token.
pub open spec fn token_line(key: Seq<char>, value: Seq<char>) -> Seq<char> {
    "        --rs-"@ + key + ": "@ + spec_html_escape(value) + ";\n"@
}

pub open spec fn token_lines(ts: Seq<(Seq<char>, Seq<char>)>) -> Seq<char>
    decreases ts.len(),
{
    if ts.len() == 0 {
        Seq::empty()
    } else {
        token_lines(ts.drop_last()) + token_line(ts.last().0, ts.last().1)
    }
}

pub open spec fn style_block_body() -> Seq<char> {
    "      }\n"@ + "      body {\n"@ + "        margin: 0;\n"@ + "        padding: var(--rs-space-slide-padding);\n"@
        + "        background: var(--rs-color-bg);\n"@ + "        color: var(--rs-color-text-primary);\n"@
        + "        font-family: var(--rs-font-family-base);\n"@ + "      }\n"@ + "    </style>\n"@
}

/// The style block of a page under `theme`.
pub open spec fn spec_theme_style_block(theme: Option<Seq<(Seq<char>, Json)>>) -> Seq<char> {
    "    <style>\n"@ + "      :root {\n"@ + token_lines(spec_resolve_tokens(theme)) + style_block_body()
}

/// The `<style>` block that declares every theme token as a CSS custom
/// property and styles the page body with them.
pub fn render_theme_style_block(theme: Option<&Vec<JsonEntry>>) -> (r: String)
    ensures
        r@ == spec_theme_style_block(theme_view(theme)),
{
    let tokens = resolve_theme_token_overrides(theme);
    let ghost ts = spec_resolve_tokens(theme_view(theme));
    let mut css = String::new();
    push_str(&mut css, "    <style>\n");
    push_str(&mut css, "      :root {\n");
    let ghost head = css@;
    let mut i: usize = 0;
    while i < tokens.len()
        invariant
            i <= tokens@.len(),
            tokens@.map_values(|p: (String, String)| (p.0@, p.1@)) == ts,
            css@ == head + token_lines(ts.take(i as int)),
        decreases tokens@.len() - i,
    {
        assert(ts.take(i + 1).drop_last() =~= ts.take(i as int));
        assert(ts[i as int] == (tokens@[i as int].0@, tokens@[i as int].1@));
        push_str(&mut css, "        --rs-");
        push_str(&mut css, tokens[i].0.as_str());
        push_str(&mut css, ": ");
        let escaped = html_escape(tokens[i].1.as_str());
        push_str(&mut css, escaped.as_str());
        push_str(&mut css, ";\n");
        assert(css@ =~= head + token_lines(ts.take(i + 1)));
        i = i + 1;
    }
    assert(ts.take(i as int) =~= ts);
    push_str(&mut css, "      }\n");
    push_str(&mut css, "      body {\n");
    push_str(&mut css, "        margin: 0;\n");
    push_str(&mut css, "        padding: var(--rs-space-slide-padding);\n");
    push_str(&mut css, "        background: var(--rs-color-bg);\n");
    push_str(&mut css, "        color: var(--rs-color-text-primary);\n");
    push_str(&mut css, "        font-family: var(--rs-font-family-base);\n");
    push_str(&mut css, "      }\n");
    push_str(&mut css, "    </style>\n");
    assert(css@ =~= spec_theme_style_block(theme_view(theme)));
    css
}

} // verus!
