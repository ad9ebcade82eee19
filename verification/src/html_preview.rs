//! Preview HTML: layout templates filled with escaped slot text.
use vstd::prelude::*;

use crate::json::{
    entries_find, entries_view, json_seq_view, json_view, lemma_json_seq_view, obj_get, Json,
    JsonEntry, JsonValue,
};
use crate::manifest::spec_template_definitions;
use crate::order::strings_view;
use crate::pptx::join_lines;
use crate::schema::{parse_ir, spec_parse_ir, spec_validate_ir, validate_ir};
use crate::templating::{
    find_chars, find_from, lemma_find_from, registry_matches, spec_slot_names, template_registry,
};
use crate::text::{chars_of, decimal, push_char, push_decimal, push_str, string_from_chars, str_eq, to_string};
use crate::theme::{render_theme_style_block, spec_theme_style_block, theme_view};
use crate::types::SlideTemplate;

verus! {

/// The HTML form of one character.
pub open spec fn escape_char(c: char) -> Seq<char> {
    if c == '&' {
        "&amp;"@
    } else if c == '<' {
        "&lt;"@
    } else if c == '>' {
        "&gt;"@
    } else if c == '"' {
        "&quot;"@
    } else if c == '\'' {
        "&#39;"@
    } else {
        seq![c]
    }
}

/// `s` with the five HTML-special characters replaced by entities.
pub open spec fn spec_html_escape(s: Seq<char>) -> Seq<char>
    decreases s.len(),
{
    if s.len() == 0 {
        Seq::empty()
    } else {
        spec_html_escape(s.drop_last()) + escape_char(s.last())
    }
}

/// Escapes `&`, `<`, `>`, `"` and `'` for use in HTML text and attributes.
pub fn html_escape(input: &str) -> (r: String)
    ensures
        r@ == spec_html_escape(input@),
{
    let cs = chars_of(input);
    let mut escaped = String::new();
    let mut i: usize = 0;
    while i < cs.len()
        invariant
            i <= cs@.len(),
            cs@ == input@,
            escaped@ == spec_html_escape(cs@.take(i as int)),
        decreases cs@.len() - i,
    {
        let ch = cs[i];
        assert(cs@.take(i + 1).drop_last() =~= cs@.take(i as int));
        if ch == '&' {
            push_str(&mut escaped, "&amp;");
        } else if ch == '<' {
            push_str(&mut escaped, "&lt;");
        } else if ch == '>' {
            push_str(&mut escaped, "&gt;");
        } else if ch == '"' {
            push_str(&mut escaped, "&quot;");
        } else if ch == '\'' {
            push_str(&mut escaped, "&#39;");
        } else {
            push_char(&mut escaped, ch);
        }
        i = i + 1;
    }
    assert(cs@.take(i as int) =~= cs@);
    escaped
}

/// The text of one item of a slot list: the string, or nothing.
pub open spec fn slot_item_text(j: Json) -> Seq<char> {
    match j {
        Json::Str(t) => t,
        _ => Seq::empty(),
    }
}

/// The text a slot value shows: a string as it is, a list as its string
/// items on separate lines, anything else as nothing.
pub open spec fn spec_normalize_slot_text(v: Option<Json>) -> Seq<char> {
    match v {
        Some(Json::Str(t)) => t,
        Some(Json::Array(items)) => join_lines(items.map_values(|j: Json| slot_item_text(j))),
        _ => Seq::empty(),
    }
}

pub open spec fn opt_view(v: Option<&JsonValue>) -> Option<Json> {
    match v {
        Some(j) => Some(j@),
        None => None,
    }
}

/// The text a slot value shows.
pub fn normalize_slot_text(slot_value: Option<&JsonValue>) -> (r: String)
    ensures
        r@ == spec_normalize_slot_text(opt_view(slot_value)),
{
    let value = match slot_value {
        None => {
            return String::new();
        },
        Some(v) => v,
    };
    match value {
        JsonValue::String(text) => text.clone(),
        JsonValue::Array(items) => {
            let ghost lines = json_seq_view(items@).map_values(|j: Json| slot_item_text(j));
            proof {
                lemma_json_seq_view(items@);
            }
            let mut out = String::new();
            let mut i: usize = 0;
            while i < items.len()
                invariant
                    i <= items@.len(),
                    json_seq_view(items@).len() == items@.len(),
                    forall|j: int| 0 <= j < items@.len() ==> #[trigger] json_seq_view(items@)[j] == json_view(items@[j]),
                    lines == json_seq_view(items@).map_values(|j: Json| slot_item_text(j)),
                    out@ == join_lines(lines.take(i as int)),
                decreases items@.len() - i,
            {
                assert(lines.take(i + 1).drop_last() =~= lines.take(i as int));
                assert(lines[i as int] == slot_item_text(items@[i as int]@));
                if i > 0 {
                    push_char(&mut out, '\n');
                }
                match &items[i] {
                    JsonValue::String(t) => push_str(&mut out, t.as_str()),
                    _ => {},
                }
                proof {
                    if i == 0 {
                        assert(lines.take(1) =~= seq![lines[0]]);
                        assert(out@ =~= join_lines(lines.take(1)));
                    } else {
                        assert(out@ =~= join_lines(lines.take(i + 1)));
                    }
                }
                i = i + 1;
            }
            assert(lines.take(i as int) =~= lines);
            out
        },
        _ => String::new(),
    }
}

/// `s` from position `pos` on with each occurrence of the nonempty `pat`,
/// taken left to right, replaced by `rep`.
pub open spec fn replace_from(s: Seq<char>, pat: Seq<char>, rep: Seq<char>, pos: int) -> Seq<char>
    decreases s.len() + 1 - pos,
{
    if pos < 0 || pos > s.len() || pat.len() == 0 {
        Seq::empty()
    } else {
        match find_from(s, pat, pos) {
            None => s.subrange(pos, s.len() as int),
            Some(i) => {
                proof {
                    lemma_find_from(s, pat, pos);
                }
                s.subrange(pos, i) + rep + replace_from(s, pat, rep, i + pat.len())
            },
        }
    }
}

/// `s` with each occurrence of the nonempty `pat` replaced by `rep` (as
/// `str::replace` does).
pub open spec fn replace_all(s: Seq<char>, pat: Seq<char>, rep: Seq<char>) -> Seq<char> {
    replace_from(s, pat, rep, 0)
}

/// Replaces each occurrence of `pat` in `s` by `rep`.
pub fn replace_all_exec(s: &str, pat: &str, rep: &str) -> (r: String)
    requires
        pat@.len() > 0,
    ensures
        r@ == replace_all(s@, pat@, rep@),
{
    let cs = chars_of(s);
    let ps = chars_of(pat);
    let n = cs.len();
    let mut out = String::new();
    let mut pos: usize = 0;
    loop
        invariant
            cs@ == s@,
            ps@ == pat@,
            pat@.len() > 0,
            n == cs@.len(),
            pos <= n,
            out@ + replace_from(s@, pat@, rep@, pos as int) == replace_from(s@, pat@, rep@, 0),
        decreases n + 1 - pos,
    {
        proof {
            lemma_find_from(cs@, ps@, pos as int);
        }
        match find_chars(&cs, &ps, pos) {
            None => {
                let tail = string_from_chars(&cs.as_slice()[pos..n]);
                push_str(&mut out, tail.as_str());
                assert(out@ =~= replace_from(s@, pat@, rep@, 0));
                return out;
            },
            Some(i) => {
                let k = ps.len();
                assert(i + k <= n);
                let piece = string_from_chars(&cs.as_slice()[pos..i]);
                let ghost before = out@;
                push_str(&mut out, piece.as_str());
                push_str(&mut out, rep);
                assert(out@ + replace_from(s@, pat@, rep@, (i + k) as int) =~= before + replace_from(s@, pat@, rep@, pos as int));
                pos = i + k;
            },
        }
    }
}

/// The placeholder a template body holds for a slot.
pub open spec fn placeholder(name: Seq<char>) -> Seq<char> {
    "{{ slide.slots."@ + name + " }}"@
}

/// A template body with the placeholder of each of `names`, in turn,
/// replaced by the escaped text of that slot.
pub open spec fn fill_section(body: Seq<char>, names: Seq<Seq<char>>, slots: Seq<(Seq<char>, Json)>) -> Seq<char>
    decreases names.len(),
{
    if names.len() == 0 {
        body
    } else {
        replace_all(
            fill_section(body, names.drop_last(), slots),
            placeholder(names.last()),
            spec_html_escape(spec_normalize_slot_text(obj_get(slots, names.last()))),
        )
    }
}

/// The body of the first template registered for `layout`.
pub open spec fn find_template(defs: Seq<(Seq<char>, Seq<char>)>, layout: Seq<char>) -> Option<Seq<char>>
    decreases defs.len(),
{
    if defs.len() == 0 {
        None
    } else if defs[0].0 == layout {
        Some(defs[0].1)
    } else {
        find_template(defs.drop_first(), layout)
    }
}

/// The section of the slide at `index`, or why it cannot be rendered.
pub open spec fn render_slide(slide: Json, index: nat) -> Result<Seq<char>, Seq<char>> {
    match slide.field("layout"@) {
        Some(Json::Str(layout)) => match find_template(spec_template_definitions(), layout) {
            None => Err("RenderError: no template registered for layout '"@ + layout + "'"@),
            Some(body) => match slide.field("slots"@) {
                Some(Json::Object(slots)) => Ok(fill_section(body, spec_slot_names(body), slots)),
                _ => Err("ValidationError: missing slots at $.slides["@ + decimal(index) + "].slots."@),
            },
        },
        _ => Err("ValidationError: missing layout at $.slides["@ + decimal(index) + "]."@),
    }
}

/// The sections of the first `n` slides, or the first error among them.
pub open spec fn render_prefix(slides: Seq<Json>, n: int) -> Result<Seq<Seq<char>>, Seq<char>>
    decreases n,
{
    if n <= 0 {
        Ok(Seq::empty())
    } else {
        match render_prefix(slides, n - 1) {
            Err(e) => Err(e),
            Ok(secs) => match render_slide(slides[n - 1], (n - 1) as nat) {
                Err(e) => Err(e),
                Ok(sec) => Ok(secs.push(sec)),
            },
        }
    }
}

proof fn lemma_render_prefix_err(slides: Seq<Json>, n: int, m: int)
    requires
        0 <= n <= m,
        render_prefix(slides, n) is Err,
    ensures
        render_prefix(slides, m) == render_prefix(slides, n),
    decreases m - n,
{
    if m > n {
        lemma_render_prefix_err(slides, n, m - 1);
    }
}

/// The sections, indented, one per line.
pub open spec fn sections_html(secs: Seq<Seq<char>>) -> Seq<char>
    decreases secs.len(),
{
    if secs.len() == 0 {
        Seq::empty()
    } else {
        sections_html(secs.drop_last()) + "    "@ + secs.last() + "\n"@
    }
}

/// The theme object of a document, when it has one.
pub open spec fn doc_theme(doc: Json) -> Option<Seq<(Seq<char>, Json)>> {
    match doc.field("theme"@) {
        Some(Json::Object(m)) => Some(m),
        _ => None,
    }
}

/// The preview page: the theme's style block and the slide sections.
pub open spec fn preview_page(theme: Option<Seq<(Seq<char>, Json)>>, secs: Seq<Seq<char>>) -> Seq<char> {
    "<!doctype html>\n<html>\n  <head>\n"@ + spec_theme_style_block(theme) + "  </head>\n  <body>\n"@
        + sections_html(secs) + "  </body>\n</html>\n"@
}

/// The preview of a validated document.
pub open spec fn spec_render_doc(doc: Json) -> Result<Seq<char>, Seq<char>> {
    match doc.field("slides"@) {
        Some(Json::Array(slides)) => match render_prefix(slides, slides.len() as int) {
            Err(e) => Err(e),
            Ok(secs) => Ok(preview_page(doc_theme(doc), secs)),
        },
        _ => Err("ValidationError: expected $.slides to be an array."@),
    }
}

fn find_template_exec(reg: &Vec<(&'static str, SlideTemplate)>, layout: &str) -> (r: Option<usize>)
    requires
        registry_matches(reg@),
    ensures
        match r {
            Some(k) => k < reg@.len() && find_template(spec_template_definitions(), layout@) == Some(
                reg@[k as int].1.body@,
            ),
            None => find_template(spec_template_definitions(), layout@) is None,
        },
{
    let ghost defs = spec_template_definitions();
    let mut i: usize = 0;
    assert(defs.skip(0) =~= defs);
    while i < reg.len()
        invariant
            i <= reg@.len(),
            registry_matches(reg@),
            defs == spec_template_definitions(),
            find_template(defs, layout@) == find_template(defs.skip(i as int), layout@),
        decreases reg@.len() - i,
    {
        assert(defs.skip(i as int).drop_first() =~= defs.skip(i + 1));
        assert(defs.skip(i as int)[0] == defs[i as int]);
        assert(reg@[i as int].0@ == defs[i as int].0);
        if str_eq(reg[i].0, layout) {
            return Some(i);
        }
        i = i + 1;
    }
    None
}

fn fill_section_exec(t: &SlideTemplate, slots: &Vec<JsonEntry>) -> (r: String)
    ensures
        r@ == fill_section(t.body@, strings_view(t.slot_names@), entries_view(slots@)),
{
    let ghost names = strings_view(t.slot_names@);
    let mut section = to_string(t.body);
    let mut k: usize = 0;
    assert(names.take(0) =~= Seq::<Seq<char>>::empty());
    while k < t.slot_names.len()
        invariant
            k <= t.slot_names@.len(),
            names == strings_view(t.slot_names@),
            section@ == fill_section(t.body@, names.take(k as int), entries_view(slots@)),
        decreases t.slot_names@.len() - k,
    {
        let name = &t.slot_names[k];
        assert(names.take(k + 1).drop_last() =~= names.take(k as int));
        assert(names.take(k + 1).last() == name@);
        let mut slot_path = to_string("{{ slide.slots.");
        push_str(&mut slot_path, name.as_str());
        push_str(&mut slot_path, " }}");
        proof {
            reveal_strlit("{{ slide.slots.");
        }
        assert(slot_path@.len() > 0);
        let value = match entries_find(slots, name.as_str()) {
            Some(i) => Some(&slots[i].value),
            None => None,
        };
        assert(opt_view(value) == obj_get(entries_view(slots@), name@));
        let text = normalize_slot_text(value);
        let escaped = html_escape(text.as_str());
        section = replace_all_exec(section.as_str(), slot_path.as_str(), escaped.as_str());
        k = k + 1;
    }
    assert(names.take(k as int) =~= names);
    section
}

/// Renders the preview page of a document that has passed validation: each
/// slide's layout template with its slot placeholders filled with escaped
/// slot text, under the theme's style block.
pub fn render_slides_html(parsed: &JsonValue) -> (r: Result<String, String>)
    ensures
        match r {
            Ok(h) => spec_render_doc(parsed@) == Ok::<Seq<char>, Seq<char>>(h@),
            Err(e) => spec_render_doc(parsed@) == Err::<Seq<char>, Seq<char>>(e@),
        },
{
    let templates = template_registry();
    let slides = match parsed.get("slides") {
        Some(JsonValue::Array(a)) => a,
        _ => {
            return Err(to_string("ValidationError: expected $.slides to be an array."));
        },
    };
    let ghost sv = json_seq_view(slides@);
    proof {
        lemma_json_seq_view(slides@);
    }
    let mut sections: Vec<String> = Vec::new();
    let mut i: usize = 0;
    proof {
        assert(strings_view(sections@) =~= Seq::<Seq<char>>::empty());
    }
    while i < slides.len()
        invariant
            i <= slides@.len(),
            registry_matches(templates@),
            sv == json_seq_view(slides@),
            sv.len() == slides@.len(),
            forall|j: int| 0 <= j < slides@.len() ==> #[trigger] sv[j] == json_view(slides@[j]),
            parsed@.field("slides"@) == Some(Json::Array(sv)),
            render_prefix(sv, i as int) == Ok::<Seq<Seq<char>>, Seq<char>>(strings_view(sections@)),
        decreases slides@.len() - i,
    {
        let slide = &slides[i];
        assert(sv[i as int] == slide@);
        let layout = match slide.get("layout") {
            Some(JsonValue::String(l)) => l,
            _ => {
                let mut m = to_string("ValidationError: missing layout at $.slides[");
                push_decimal(&mut m, i as u64);
                push_str(&mut m, "].");
                proof {
                    lemma_render_prefix_err(sv, i + 1, sv.len() as int);
                }
                return Err(m);
            },
        };
        let t = match find_template_exec(&templates, layout.as_str()) {
            Some(k) => &templates[k].1,
            None => {
                let mut m = to_string("RenderError: no template registered for layout '");
                push_str(&mut m, layout.as_str());
                push_str(&mut m, "'");
                proof {
                    lemma_render_prefix_err(sv, i + 1, sv.len() as int);
                }
                return Err(m);
            },
        };
        let slots = match slide.get("slots") {
            Some(JsonValue::Object(m)) => m,
            _ => {
                let mut m = to_string("ValidationError: missing slots at $.slides[");
                push_decimal(&mut m, i as u64);
                push_str(&mut m, "].slots.");
                proof {
                    lemma_render_prefix_err(sv, i + 1, sv.len() as int);
                }
                return Err(m);
            },
        };
        let section = fill_section_exec(t, slots);
        let ghost before = strings_view(sections@);
        let ghost secv = section@;
        sections.push(section);
        assert(strings_view(sections@) =~= before.push(secv));
        i = i + 1;
    }
    let theme = match parsed.get("theme") {
        Some(JsonValue::Object(m)) => Some(m),
        _ => None,
    };
    assert(theme_view(theme) == doc_theme(parsed@));
    let mut html = to_string("<!doctype html>\n<html>\n  <head>\n");
    let style = render_theme_style_block(theme);
    push_str(&mut html, style.as_str());
    push_str(&mut html, "  </head>\n  <body>\n");
    let ghost head = html@;
    let ghost secs = strings_view(sections@);
    let mut k: usize = 0;
    while k < sections.len()
        invariant
            k <= sections@.len(),
            secs == strings_view(sections@),
            html@ == head + sections_html(secs.take(k as int)),
        decreases sections@.len() - k,
    {
        assert(secs.take(k + 1).drop_last() =~= secs.take(k as int));
        push_str(&mut html, "    ");
        push_str(&mut html, sections[k].as_str());
        push_str(&mut html, "\n");
        assert(html@ =~= head + sections_html(secs.take(k + 1)));
        k = k + 1;
    }
    assert(secs.take(k as int) =~= secs);
    push_str(&mut html, "  </body>\n</html>\n");
    assert(html@ =~= preview_page(doc_theme(parsed@), secs));
    Ok(html)
}

/// Validates a parsed document and renders its preview page.
pub fn render_preview_html_from_parsed(parsed: &JsonValue) -> (r: Result<String, String>)
    ensures
        match spec_validate_ir(parsed@) {
            Err(m) => r matches Err(e) && e@ == m,
            Ok(()) => match r {
                Ok(h) => spec_render_doc(parsed@) == Ok::<Seq<char>, Seq<char>>(h@),
                Err(e) => spec_render_doc(parsed@) == Err::<Seq<char>, Seq<char>>(e@),
            },
        },
{
    validate_ir(parsed)?;
    render_slides_html(parsed)
}

/// Reads and validates IR text and renders its preview page.
pub fn render_preview_html(ir_json: &str) -> (r: Result<String, String>)
    ensures
        match spec_parse_ir(ir_json@) {
            Err(m) => r matches Err(e) && e@ == m,
            Ok(doc) => match r {
                Ok(h) => spec_render_doc(doc) == Ok::<Seq<char>, Seq<char>>(h@),
                Err(e) => spec_render_doc(doc) == Err::<Seq<char>, Seq<char>>(e@),
            },
        },
{
    let parsed = parse_ir(ir_json)?;
    render_preview_html_from_parsed(&parsed)
}

} // verus!
