//! Properties of the library as a whole, proved over the specifications its
//! functions are verified against.
use vstd::prelude::*;

use crate::html_preview::{escape_char, find_template, render_prefix, spec_html_escape, spec_render_doc};
use crate::json::{obj_get, obj_set, Json};
use crate::patch::{
    first_bracket, id_position, leaf_value, spec_parse_slide_path, lemma_id_position_range, new_slide, param_int, param_str, slide_has_id, slides_of,
    spec_apply_tweak, split_dot, with_slides, without_id, TweakV,
};
use crate::manifest::{
    spec_editable_paths, spec_layout_definitions, spec_operation_specs, spec_template_definitions,
    LayoutDefV, OpSpecV,
};
use crate::model::ElementV;
use crate::types::LayoutSpecV;
use crate::pptx::{
    all_images, media_entries, pptx_entries, slide_entries, slide_images, slide_part_name,
    spec_slide_xml, utf8,
};
use crate::templating::{find_from, lemma_find_from, occurs_at, registry_matches, spec_slot_names};
use crate::order::strings_view;
use crate::types::SlideTemplate;
use crate::transport::{
    file_prefix, scheme_mark, spec_route, url_scheme_of, EndpointV, TransportErrorV,
};
use crate::json::obj_has;
use crate::operations::{example_for, example_request, first_named, ops_for, spec_operation_specs_for};
use crate::schema::{
    first_missing, internal_layout, is_quantitative, layout_slots, layout_spec_of, layout_specs, offer_key, slide_slot_check, slides_slot_check,
    spec_ir_schema_check, spec_layout_slot_check, spec_validate_ir, tweak_state, ViolationV,
};
use crate::theme::{resolved_value, spec_default_theme_tokens, spec_resolve_tokens, spec_theme_tokens, ThemeTokenV, nested_str_member, str_member};
use crate::types::OperationSpecV;

verus! {

/// Whether a character is one that HTML gives a meaning to.
pub open spec fn html_special(c: char) -> bool {
    c == '&' || c == '<' || c == '>' || c == '"' || c == '\''
}

/// Escaped text holds no `<`, `>`, `"` or `'`: nothing in it can open or
/// close a tag or an attribute value.
pub proof fn law_escaped_text_is_inert(s: Seq<char>)
    ensures
        forall|i: int|
            0 <= i < spec_html_escape(s).len() ==> {
                let c = #[trigger] spec_html_escape(s)[i];
                c != '<' && c != '>' && c != '"' && c != '\''
            },
    decreases s.len(),
{
    if s.len() > 0 {
        law_escaped_text_is_inert(s.drop_last());
        let a = spec_html_escape(s.drop_last());
        let b = escape_char(s.last());
        reveal_strlit("&amp;");
        reveal_strlit("&lt;");
        reveal_strlit("&gt;");
        reveal_strlit("&quot;");
        reveal_strlit("&#39;");
        assert(spec_html_escape(s) == a + b);
        assert forall|i: int| 0 <= i < (a + b).len() implies {
            let c = #[trigger] (a + b)[i];
            c != '<' && c != '>' && c != '"' && c != '\''
        } by {
            if i >= a.len() {
                let j = i - a.len();
                assert((a + b)[i] == b[j]);
            } else {
                assert((a + b)[i] == a[i]);
            }
        }
    }
}

/// Text without HTML-special characters is left as it is by escaping.
pub proof fn law_plain_text_escapes_to_itself(s: Seq<char>)
    requires
        forall|i: int| 0 <= i < s.len() ==> !html_special(#[trigger] s[i]),
    ensures
        spec_html_escape(s) == s,
    decreases s.len(),
{
    if s.len() > 0 {
        law_plain_text_escapes_to_itself(s.drop_last());
        assert(!html_special(s[s.len() - 1]));
        assert(s =~= s.drop_last() + seq![s.last()]);
    }
}

/// Escaping works character by character: escaping two texts one after the
/// other gives the escaped texts one after the other.
pub proof fn law_escape_concat(a: Seq<char>, b: Seq<char>)
    ensures
        spec_html_escape(a + b) == spec_html_escape(a) + spec_html_escape(b),
    decreases b.len(),
{
    if b.len() == 0 {
        assert(a + b =~= a);
        assert(spec_html_escape(a) + spec_html_escape(b) =~= spec_html_escape(a));
    } else {
        law_escape_concat(a, b.drop_last());
        assert((a + b).drop_last() =~= a + b.drop_last());
        assert((a + b).last() == b.last());
        assert(spec_html_escape(a) + spec_html_escape(b) =~= spec_html_escape(a) + spec_html_escape(
            b.drop_last(),
        ) + escape_char(b.last()));
    }
}

/// Decoding the five entities that escaping produces, in one pass from the
/// left; any other character is kept.
pub open spec fn html_unescape(s: Seq<char>) -> Seq<char>
    decreases s.len(),
{
    proof {
        reveal_strlit("&amp;");
        reveal_strlit("&lt;");
        reveal_strlit("&gt;");
        reveal_strlit("&quot;");
        reveal_strlit("&#39;");
    }
    if s.len() == 0 {
        Seq::empty()
    } else if "&amp;"@.is_prefix_of(s) {
        seq!['&'] + html_unescape(s.skip(5))
    } else if "&lt;"@.is_prefix_of(s) {
        seq!['<'] + html_unescape(s.skip(4))
    } else if "&gt;"@.is_prefix_of(s) {
        seq!['>'] + html_unescape(s.skip(4))
    } else if "&quot;"@.is_prefix_of(s) {
        seq!['"'] + html_unescape(s.skip(6))
    } else if "&#39;"@.is_prefix_of(s) {
        seq!['\''] + html_unescape(s.skip(5))
    } else {
        seq![s[0]] + html_unescape(s.drop_first())
    }
}

/// Unescaping escaped text gives the text back.
pub proof fn law_unescape_escape(s: Seq<char>)
    ensures
        html_unescape(spec_html_escape(s)) == s,
    decreases s.len(),
{
    if s.len() > 0 {
        let c = s[0];
        let rest = s.drop_first();
        law_unescape_escape(rest);
        law_escape_concat(seq![c], rest);
        assert(seq![c] + rest =~= s);
        assert(spec_html_escape(seq![c]) =~= escape_char(c)) by {
            assert(seq![c].drop_last() =~= Seq::<char>::empty());
            assert(seq![c].last() == c);
            assert(spec_html_escape(Seq::<char>::empty()) =~= Seq::<char>::empty());
            assert(Seq::<char>::empty() + escape_char(c) =~= escape_char(c));
        }
        let e = escape_char(c);
        let r = spec_html_escape(rest);
        let t = e + r;
        reveal_strlit("&amp;");
        reveal_strlit("&lt;");
        reveal_strlit("&gt;");
        reveal_strlit("&quot;");
        reveal_strlit("&#39;");
        assert(t.skip(e.len() as int) =~= r);
        if c == '&' {
            assert("&amp;"@ =~= t.subrange(0, 5));
            assert(html_unescape(t) == seq!['&'] + html_unescape(t.skip(5)));
        } else if c == '<' {
            assert(t[1] != "&amp;"@[1]);
            assert("&lt;"@ =~= t.subrange(0, 4));
            assert(html_unescape(t) == seq!['<'] + html_unescape(t.skip(4)));
        } else if c == '>' {
            assert(t[1] != "&amp;"@[1]);
            assert(t[1] != "&lt;"@[1]);
            assert("&gt;"@ =~= t.subrange(0, 4));
            assert(html_unescape(t) == seq!['>'] + html_unescape(t.skip(4)));
        } else if c == '"' {
            assert(t[1] != "&amp;"@[1]);
            assert(t[1] != "&lt;"@[1]);
            assert(t[1] != "&gt;"@[1]);
            assert("&quot;"@ =~= t.subrange(0, 6));
            assert(html_unescape(t) == seq!['"'] + html_unescape(t.skip(6)));
        } else if c == '\'' {
            assert(t[1] != "&amp;"@[1]);
            assert(t[1] != "&lt;"@[1]);
            assert(t[1] != "&gt;"@[1]);
            assert(t[1] != "&quot;"@[1]);
            assert("&#39;"@ =~= t.subrange(0, 5));
            assert(html_unescape(t) == seq!['\''] + html_unescape(t.skip(5)));
        } else {
            assert(t[0] == c);
            assert(t.drop_first() =~= r);
            assert(t[0] != "&amp;"@[0]);
            assert(t[0] != "&lt;"@[0]);
            assert(t[0] != "&gt;"@[0]);
            assert(t[0] != "&quot;"@[0]);
            assert(t[0] != "&#39;"@[0]);
            assert(html_unescape(t) == seq![c] + html_unescape(t.drop_first()));
        }
        assert(html_unescape(t) =~= seq![c] + rest);
    }
}

/// Every `&` in escaped text begins one of the five entities.
pub proof fn law_escaped_ampersands(s: Seq<char>)
    ensures
        forall|i: int|
            0 <= i < spec_html_escape(s).len() && #[trigger] spec_html_escape(s)[i] == '&' ==> {
                let t = spec_html_escape(s);
                ||| occurs_at(t, "&amp;"@, i)
                ||| occurs_at(t, "&lt;"@, i)
                ||| occurs_at(t, "&gt;"@, i)
                ||| occurs_at(t, "&quot;"@, i)
                ||| occurs_at(t, "&#39;"@, i)
            },
    decreases s.len(),
{
    if s.len() > 0 {
        law_escaped_ampersands(s.drop_last());
        let a = spec_html_escape(s.drop_last());
        let b = escape_char(s.last());
        let t = a + b;
        reveal_strlit("&amp;");
        reveal_strlit("&lt;");
        reveal_strlit("&gt;");
        reveal_strlit("&quot;");
        reveal_strlit("&#39;");
        assert(spec_html_escape(s) == t);
        assert forall|i: int| 0 <= i < t.len() && #[trigger] t[i] == '&' implies {
            ||| occurs_at(t, "&amp;"@, i)
            ||| occurs_at(t, "&lt;"@, i)
            ||| occurs_at(t, "&gt;"@, i)
            ||| occurs_at(t, "&quot;"@, i)
            ||| occurs_at(t, "&#39;"@, i)
        } by {
            if i < a.len() {
                assert(t[i] == a[i]);
                assert(a[i] == '&');
                let l: int = if occurs_at(a, "&amp;"@, i) {
                    5
                } else if occurs_at(a, "&lt;"@, i) || occurs_at(a, "&gt;"@, i) {
                    4
                } else if occurs_at(a, "&quot;"@, i) {
                    6
                } else {
                    5
                };
                assert(t.subrange(i, i + l) =~= a.subrange(i, i + l));
            } else {
                assert(t[i] == b[i - a.len()]);
                assert(i == a.len());
                assert(t.subrange(i, i + b.len()) =~= b);
            }
        }
    }
}

/// The member a request names its operation by: `"op":"` and the name.
pub open spec fn op_member(operation: Seq<char>) -> Seq<char> {
    "\"op\":\""@ + operation + "\""@
}

/// When `get_examples` offers an example for `operation` on `path`, the
/// path is editable, `explain_operation` explains that operation there (its
/// success condition holds), the operation is one of `increase`,
/// `decrease`, `set_alignment`, `set_text` and `set_layout`, and the
/// example's request names the operation in its `"op"` member.
pub proof fn law_examples_match_operation(path: Seq<char>, operation: Seq<char>)
    requires
        spec_editable_paths().contains(path),
        spec_operation_specs_for(path).len() > 0,
        first_named(spec_operation_specs_for(path), operation) >= 0,
        example_for(operation) is Some,
    ensures
        spec_operation_specs_for(path).len() > 0 && first_named(spec_operation_specs_for(path), operation) >= 0,
        operation == "increase"@ || operation == "decrease"@ || operation == "set_alignment"@ || operation
            == "set_text"@ || operation == "set_layout"@,
        exists|i: int| occurs_at(example_request(operation), op_member(operation), i),
{
    reveal_strlit("\"op\":\"");
    reveal_strlit("\"");
    if operation == "increase"@ {
        reveal_strlit("{\"path\":\"slides[id=slide_123].style.body.font_size\",\"op\":\"increase\",\"step\":1}");
        reveal_strlit("increase");
        assert(example_request(operation) == "{\"path\":\"slides[id=slide_123].style.body.font_size\",\"op\":\"increase\",\"step\":1}"@);
        assert(example_request(operation).subrange(52, 52 + op_member(operation).len() as int) =~= op_member(operation));
        assert(occurs_at(example_request(operation), op_member(operation), 52));
    } else if operation == "decrease"@ {
        reveal_strlit("{\"path\":\"slides[id=slide_123].style.body.font_size\",\"op\":\"decrease\",\"step\":2}");
        reveal_strlit("decrease");
        assert(example_request(operation) == "{\"path\":\"slides[id=slide_123].style.body.font_size\",\"op\":\"decrease\",\"step\":2}"@);
        assert(example_request(operation).subrange(52, 52 + op_member(operation).len() as int) =~= op_member(operation));
        assert(occurs_at(example_request(operation), op_member(operation), 52));
    } else if operation == "set_alignment"@ {
        reveal_strlit("{\"path\":\"slides[id=slide_123].style.alignment\",\"op\":\"set_alignment\",\"alignment\":\"left\"}");
        reveal_strlit("set_alignment");
        assert(example_request(operation) == "{\"path\":\"slides[id=slide_123].style.alignment\",\"op\":\"set_alignment\",\"alignment\":\"left\"}"@);
        assert(example_request(operation).subrange(47, 47 + op_member(operation).len() as int) =~= op_member(operation));
        assert(occurs_at(example_request(operation), op_member(operation), 47));
    } else if operation == "set_text"@ {
        reveal_strlit("{\"path\":\"slides[id=slide_123].slots.title\",\"op\":\"set_text\",\"text\":\"Q3 Rollout Update\"}");
        reveal_strlit("set_text");
        assert(example_request(operation) == "{\"path\":\"slides[id=slide_123].slots.title\",\"op\":\"set_text\",\"text\":\"Q3 Rollout Update\"}"@);
        assert(example_request(operation).subrange(43, 43 + op_member(operation).len() as int) =~= op_member(operation));
        assert(occurs_at(example_request(operation), op_member(operation), 43));
    } else if operation == "set_layout"@ {
        reveal_strlit("{\"path\":\"slides[id=slide_123].layout\",\"op\":\"set_layout\",\"layout\":\"comparison\"}");
        reveal_strlit("set_layout");
        assert(example_request(operation) == "{\"path\":\"slides[id=slide_123].layout\",\"op\":\"set_layout\",\"layout\":\"comparison\"}"@);
        assert(example_request(operation).subrange(38, 38 + op_member(operation).len() as int) =~= op_member(operation));
        assert(occurs_at(example_request(operation), op_member(operation), 38));
    } else {
        assert(false);
    }
}

/// The key of a registry entry: its layout.
pub open spec fn registry_key(e: (&'static str, SlideTemplate)) -> Seq<char> {
    e.0@
}

/// `template_registry` is keyed by layout: each key once, the keys exactly
/// the layouts of the template definitions (`title_body` among them), and
/// each definition's key holding that template's body and the slot names
/// the body marks.
pub proof fn law_registry_by_layout(r: Seq<(&'static str, SlideTemplate)>)
    requires
        registry_matches(r),
    ensures
        forall|i: int, j: int| 0 <= i < j < r.len() ==> registry_key(#[trigger] r[i]) != registry_key(#[trigger] r[j]),
        r.map_values(|e: (&'static str, SlideTemplate)| registry_key(e)).to_set()
            == spec_template_definitions().map_values(|d: (Seq<char>, Seq<char>)| d.0).to_set(),
        r.map_values(|e: (&'static str, SlideTemplate)| registry_key(e)).contains("title_body"@),
        forall|k: int|
            #![trigger spec_template_definitions()[k]]
            0 <= k < spec_template_definitions().len() ==> exists|i: int|
                0 <= i < r.len() && registry_key(#[trigger] r[i]) == spec_template_definitions()[k].0
                    && r[i].1.body@ == spec_template_definitions()[k].1 && strings_view(r[i].1.slot_names@)
                    == spec_slot_names(spec_template_definitions()[k].1),
{
    let defs = spec_template_definitions();
    let keys = r.map_values(|e: (&'static str, SlideTemplate)| registry_key(e));
    let names = defs.map_values(|d: (Seq<char>, Seq<char>)| d.0);
    assert(keys =~= names);
    reveal_strlit("comparison");
    reveal_strlit("image_focus");
    reveal_strlit("quote");
    reveal_strlit("section");
    reveal_strlit("title");
    reveal_strlit("title_body");
    reveal_strlit("two_column");
    assert forall|i: int, j: int| 0 <= i < j < r.len() implies registry_key(#[trigger] r[i]) != registry_key(
        #[trigger] r[j],
    ) by {
        assert(registry_key(r[i]) == defs[i].0);
        assert(registry_key(r[j]) == defs[j].0);
        assert(defs[i].0.len() != defs[j].0.len() || defs[i].0[0] != defs[j].0[0] || defs[i].0[1]
            != defs[j].0[1]);
    }
    assert(keys[5] == "title_body"@);
    assert forall|k: int| #![trigger defs[k]] 0 <= k < defs.len() implies exists|i: int|
        0 <= i < r.len() && registry_key(#[trigger] r[i]) == defs[k].0 && r[i].1.body@ == defs[k].1
            && strings_view(r[i].1.slot_names@) == spec_slot_names(defs[k].1) by {
        assert(registry_key(r[k]) == defs[k].0);
    }
}

/// Without a theme object every token keeps its default value.
pub proof fn law_no_theme_gives_defaults()
    ensures
        spec_resolve_tokens(None) == spec_default_theme_tokens(),
{
    assert(spec_resolve_tokens(None) =~= spec_default_theme_tokens());
}

/// A theme sets a token by its nested key (`group.field`); failing that, by
/// its flat key; failing both, the token keeps its default.
pub proof fn law_theme_override_precedence(m: Seq<(Seq<char>, Json)>, k: int)
    requires
        0 <= k < spec_theme_tokens().len(),
    ensures
        ({
            let t = spec_theme_tokens()[k];
            let v = spec_resolve_tokens(Some(m))[k];
            &&& v.0 == t.key
            &&& nested_str_member(m, t.group, t.field) matches Some(n) ==> v.1 == n
            &&& nested_str_member(m, t.group, t.field) is None ==> (str_member(m, t.flat) matches Some(f)
                ==> v.1 == f)
            &&& (nested_str_member(m, t.group, t.field) is None && str_member(m, t.flat) is None) ==> v.1
                == t.default
        }),
{
}

/// `decrease` never takes a size below 10.
pub proof fn law_decrease_floor(cur: Json, part: Seq<char>, t: TweakV)
    requires
        t.operation == "decrease"@,
    ensures
        leaf_value(cur, part, t) matches Ok(Json::Number(Some(n), _)) && n >= 10,
{
    reveal_strlit("decrease");
    reveal_strlit("set_layout");
    reveal_strlit("set_alignment");
    reveal_strlit("set_font_size");
    reveal_strlit("increase");
    assert(t.operation.len() != "set_layout"@.len());
    assert(t.operation.len() != "set_alignment"@.len());
    assert(t.operation.len() != "set_font_size"@.len());
    assert(t.operation[0] != "increase"@[0]);
    assert(t.operation != "increase"@);
}

/// `set_font_size` stores a size in 10..=72: a requested size in that range
/// as given, a smaller one as 10 and a larger one as 72.
pub proof fn law_set_font_size_range(cur: Json, part: Seq<char>, t: TweakV)
    requires
        t.operation == "set_font_size"@,
        param_int(t, "size"@) is Some,
    ensures
        leaf_value(cur, part, t) matches Ok(Json::Number(Some(n), _)) && 10 <= n <= 72 && (10
            <= param_int(t, "size"@)->0 <= 72 ==> n == param_int(t, "size"@)->0),
{
    reveal_strlit("set_layout");
    reveal_strlit("set_alignment");
    reveal_strlit("set_font_size");
    assert(t.operation.len() != "set_layout"@.len());
    assert(t.operation[4] != "set_alignment"@[4]);
}

/// `increase` adds the step (1 when the tweak gives none) to the integer
/// the member holds; it starts from 24 only when the member holds no
/// integer.
pub proof fn law_increase_adds_step(cur: Json, part: Seq<char>, t: TweakV, start: i64, step: i64)
    requires
        t.operation == "increase"@,
        (cur.field(part) matches Some(v) && v.int_of() == Some(start)) || (start == 24 && (cur.field(part) is None
            || cur.field(part).unwrap().int_of() is None)),
        param_int(t, "step"@) == Some(step) || (param_int(t, "step"@) is None && step == 1),
        i64::MIN <= start + step <= i64::MAX,
    ensures
        leaf_value(cur, part, t) matches Ok(Json::Number(Some(n), _)) && n == start + step,
{
    reveal_strlit("set_layout");
    reveal_strlit("set_alignment");
    reveal_strlit("set_font_size");
    reveal_strlit("increase");
    assert(t.operation.len() != "set_layout"@.len());
    assert(t.operation.len() != "set_alignment"@.len());
    assert(t.operation.len() != "set_font_size"@.len());
}

/// `decrease` takes the step (1 when the tweak gives none) from the integer
/// the member holds (24 when it holds none), and never goes below 10.
pub proof fn law_decrease_subtracts_step(cur: Json, part: Seq<char>, t: TweakV, start: i64, step: i64)
    requires
        t.operation == "decrease"@,
        (cur.field(part) matches Some(v) && v.int_of() == Some(start)) || (start == 24 && (cur.field(part) is None
            || cur.field(part).unwrap().int_of() is None)),
        param_int(t, "step"@) == Some(step) || (param_int(t, "step"@) is None && step == 1),
        i64::MIN <= start - step <= i64::MAX,
    ensures
        leaf_value(cur, part, t) matches Ok(Json::Number(Some(n), _)) && n == if start - step < 10 {
            10
        } else {
            start - step
        },
{
    reveal_strlit("set_layout");
    reveal_strlit("set_alignment");
    reveal_strlit("set_font_size");
    reveal_strlit("increase");
    reveal_strlit("decrease");
    assert(t.operation.len() != "set_layout"@.len());
    assert(t.operation.len() != "set_alignment"@.len());
    assert(t.operation.len() != "set_font_size"@.len());
    assert(t.operation[0] != "increase"@[0]);
}

/// Each layout the required-slot check knows requires exactly the slots its
/// layout definition places an element for, in the same order.
pub proof fn law_required_slots_are_the_layout_elements(l: Seq<char>)
    requires
        layout_slots(l) is Some,
    ensures
        crate::schema::find_layout(spec_layout_definitions(), l) matches Some(d) && layout_slots(l).unwrap().0
            == d.elements.map_values(|e: crate::manifest::ElementDefV| e.slot),
{
    reveal_strlit("title");
    reveal_strlit("title_body");
    reveal_strlit("two_column");
    reveal_strlit("section");
    reveal_strlit("image_focus");
    reveal_strlit("quote");
    reveal_strlit("comparison");
    reveal_strlit("image_test");
    reveal_strlit("refinement_controls");
    let defs = spec_layout_definitions();
    let idx: int = if l == "comparison"@ {
        0
    } else if l == "image_focus"@ {
        1
    } else if l == "quote"@ {
        3
    } else if l == "section"@ {
        5
    } else if l == "title"@ {
        6
    } else if l == "title_body"@ {
        7
    } else {
        8
    };
    assert(defs[idx].layout == l);
    assert forall|j: int| 0 <= j < idx implies defs[j].layout != l by {
        let n = defs[j].layout;
        assert(n.len() != l.len() || n[0] != l[0] || n[1] != l[1] || n[6] != l[6]);
    }
    lemma_find_layout_at(defs, idx, l);
    let f = |e: crate::manifest::ElementDefV| e.slot;
    let els = defs[idx].elements;
    let req = layout_slots(l).unwrap().0;
    if l == "title"@ {
    } else if l == "title_body"@ {
    } else if l == "two_column"@ {
        assert(l != "title_body"@ && l != "title"@) by { assert(l[1] != "title"@[1]); }
    } else if l == "section"@ {
        assert(l != "title"@) by { assert(l[0] != "title"@[0]); }
    } else if l == "image_focus"@ {
        assert(l != "title_body"@ && l != "two_column"@) by { assert(l[0] != "two_column"@[0]); }
    } else if l == "quote"@ {
        assert(l != "title"@) by { assert(l[0] != "title"@[0]); }
    } else {
        assert(l != "title_body"@ && l != "two_column"@) by { assert(l[0] != "two_column"@[0]); }
    }
    assert(els.len() == req.len());
    assert forall|j: int| 0 <= j < els.len() implies #[trigger] els.map_values(f)[j] == req[j] by {
        assert(els.map_values(f)[j] == els[j].slot);
    }
    assert(els.map_values(f) =~= req);
}

proof fn lemma_find_layout_at(defs: Seq<LayoutDefV>, idx: int, l: Seq<char>)
    requires
        0 <= idx < defs.len(),
        defs[idx].layout == l,
        forall|j: int| 0 <= j < idx ==> defs[j].layout != l,
    ensures
        crate::schema::find_layout(defs, l) == Some(defs[idx]),
    decreases idx,
{
    if idx > 0 {
        assert forall|j: int| 0 <= j < idx - 1 implies defs.drop_first()[j].layout != l by {
            assert(defs.drop_first()[j] == defs[j + 1]);
        }
        lemma_find_layout_at(defs.drop_first(), idx - 1, l);
    }
}

/// The DrawingML paragraph of one line of text at size `sz` (hundredths of
/// a point): one run holding the escaped line.
pub open spec fn line_paragraph(line: Seq<char>, sz: int, bold: bool) -> Seq<char> {
    "<a:p><a:r><a:rPr lang=\"en-US\" sz=\""@ + crate::text::signed_decimal(sz) + "\""@ + (if bold {
        " b=\"1\""@
    } else {
        Seq::empty()
    }) + " /><a:t>"@ + spec_html_escape(line) + "</a:t></a:r></a:p>"@
}

proof fn lemma_lines_xml_flatten(ls: Seq<Seq<char>>, sz: int, bold: bool)
    ensures
        crate::pptx::lines_xml(ls, sz, bold) == ls.map_values(|l: Seq<char>| line_paragraph(l, sz, bold)).flatten(),
    decreases ls.len(),
{
    let f = |l: Seq<char>| line_paragraph(l, sz, bold);
    if ls.len() == 0 {
        assert(ls.map_values(f) =~= Seq::<Seq<char>>::empty());
    } else {
        lemma_lines_xml_flatten(ls.drop_last(), sz, bold);
        assert(ls.map_values(f) =~= ls.drop_last().map_values(f).push(f(ls.last())));
        ls.drop_last().map_values(f).lemma_flatten_push(f(ls.last()));
        assert(crate::pptx::line_xml(ls.last(), sz, bold) == f(ls.last()));
    }
}

/// A text element's text body holds one paragraph per line of its plain
/// text, in order, each with the escaped line (and a single empty paragraph
/// when the text has no line).
pub proof fn law_one_paragraph_per_line(t: crate::model::TextRunV)
    ensures
        ({
            let ls = crate::pptx::text_lines(crate::pptx::run_plain_text(t));
            &&& ls.len() > 0 ==> crate::pptx::paragraphs_xml(t) == ls.map_values(
                |l: Seq<char>| line_paragraph(l, t.font_size_pt * 100, t.bold),
            ).flatten()
            &&& ls.len() == 0 ==> crate::pptx::paragraphs_xml(t) == "<a:p/>"@
        }),
{
    let ls = crate::pptx::text_lines(crate::pptx::run_plain_text(t));
    lemma_lines_xml_flatten(ls, t.font_size_pt * 100, t.bold);
}

proof fn lemma_render_prefix_sections(slides: Seq<Json>, secs: Seq<Seq<char>>, n: int)
    requires
        0 <= n <= slides.len(),
        secs.len() == slides.len(),
        forall|i: int| 0 <= i < slides.len() ==> crate::html_preview::render_slide(#[trigger] slides[i], i as nat)
            == Ok::<Seq<char>, Seq<char>>(secs[i]),
    ensures
        render_prefix(slides, n) == Ok::<Seq<Seq<char>>, Seq<char>>(secs.take(n)),
    decreases n,
{
    if n > 0 {
        lemma_render_prefix_sections(slides, secs, n - 1);
        assert(crate::html_preview::render_slide(slides[n - 1], (n - 1) as nat) == Ok::<Seq<char>, Seq<char>>(secs[n - 1]));
        assert(secs.take(n - 1).push(secs[n - 1]) =~= secs.take(n));
    } else {
        assert(secs.take(0) =~= Seq::<Seq<char>>::empty());
    }
}

proof fn lemma_sections_flatten(secs: Seq<Seq<char>>)
    ensures
        crate::html_preview::sections_html(secs) == secs.map_values(|s: Seq<char>| "    "@ + s + "\n"@).flatten(),
    decreases secs.len(),
{
    let f = |s: Seq<char>| "    "@ + s + "\n"@;
    if secs.len() == 0 {
        assert(secs.map_values(f) =~= Seq::<Seq<char>>::empty());
    } else {
        lemma_sections_flatten(secs.drop_last());
        assert(secs.map_values(f) =~= secs.drop_last().map_values(f).push(f(secs.last())));
        secs.drop_last().map_values(f).lemma_flatten_push(f(secs.last()));
        assert(crate::html_preview::sections_html(secs) =~= crate::html_preview::sections_html(secs.drop_last())
            + f(secs.last()));
    }
}

/// When every slide of a deck renders to its section, the preview page
/// holds exactly those sections, one per slide and in slide order, between
/// the page head (with the theme's style block) and its end.
pub proof fn law_preview_one_section_per_slide(doc: Json, secs: Seq<Seq<char>>)
    requires
        doc.field("slides"@) matches Some(Json::Array(slides)) && secs.len() == slides.len() && forall|i: int|
            0 <= i < slides.len() ==> crate::html_preview::render_slide(#[trigger] slides[i], i as nat) == Ok::<
                Seq<char>,
                Seq<char>,
            >(secs[i]),
    ensures
        spec_render_doc(doc) == Ok::<Seq<char>, Seq<char>>(
            "<!doctype html>\n<html>\n  <head>\n"@ + crate::theme::spec_theme_style_block(
                crate::html_preview::doc_theme(doc),
            ) + "  </head>\n  <body>\n"@ + secs.map_values(|s: Seq<char>| "    "@ + s + "\n"@).flatten()
                + "  </body>\n</html>\n"@,
        ),
{
    let slides = doc.field("slides"@).unwrap()->Array_0;
    lemma_render_prefix_sections(slides, secs, slides.len() as int);
    assert(secs.take(slides.len() as int) =~= secs);
    lemma_sections_flatten(secs);
}

/// Whether a tweak with key `key` is listed among the qualitative or the
/// quantitative tweaks.
pub open spec fn tweak_listed(qual: Seq<OperationSpecV>, quant: Seq<OperationSpecV>, key: Seq<char>) -> bool {
    ||| exists|i: int| 0 <= i < qual.len() && offer_key(#[trigger] qual[i]) == key
    ||| exists|i: int| 0 <= i < quant.len() && offer_key(#[trigger] quant[i]) == key
}

#[verifier::spinoff_prover]
proof fn lemma_tweak_state_complete(offers: Seq<OperationSpecV>)
    ensures
        ({
            let (seen, qual, quant) = tweak_state(offers);
            &&& forall|x: Seq<char>| seen.contains(x) ==> tweak_listed(qual, quant, x)
            &&& forall|j: int| 0 <= j < offers.len() ==> seen.contains(offer_key(#[trigger] offers[j]))
        }),
    decreases offers.len(),
{
    if offers.len() > 0 {
        let init = offers.drop_last();
        lemma_tweak_state_complete(init);
        let (seen, qual, quant) = tweak_state(init);
        let o = offers.last();
        let key = offer_key(o);
        assert forall|j: int| 0 <= j < offers.len() - 1 implies #[trigger] offers[j] == init[j] by {}
        if !seen.contains(key) {
            let s2 = seen.push(key);
            assert(s2[seen.len() as int] == key);
            assert forall|x: Seq<char>| seen.contains(x) implies s2.contains(x) by {
                let k = choose|k: int| 0 <= k < seen.len() && seen[k] == x;
                assert(s2[k] == x);
            }
            let (q2, u2) = if is_quantitative(o.name) {
                (qual, quant.push(o))
            } else {
                (qual.push(o), quant)
            };
            assert forall|x: Seq<char>| s2.contains(x) implies tweak_listed(q2, u2, x) by {
                if x == key {
                    if is_quantitative(o.name) {
                        assert(offer_key(u2[quant.len() as int]) == key);
                    } else {
                        assert(offer_key(q2[qual.len() as int]) == key);
                    }
                } else {
                    let k = choose|k: int| 0 <= k < s2.len() && s2[k] == x;
                    assert(k < seen.len());
                    assert(seen[k] == x);
                    assert(seen.contains(x));
                    assert(tweak_listed(qual, quant, x));
                    if exists|i: int| 0 <= i < qual.len() && offer_key(#[trigger] qual[i]) == x {
                        let i = choose|i: int| 0 <= i < qual.len() && offer_key(#[trigger] qual[i]) == x;
                        assert(q2[i] == qual[i]);
                    } else {
                        let i = choose|i: int| 0 <= i < quant.len() && offer_key(#[trigger] quant[i]) == x;
                        assert(u2[i] == quant[i]);
                    }
                }
            }
        }
    }
}

proof fn lemma_ops_candidates_contains(ops: Seq<OpSpecV>, d: LayoutDefV, id: Seq<char>, k: int)
    requires
        0 <= k < ops.len(),
        crate::schema::op_applies(ops[k].path, d),
    ensures
        exists|m: int|
            0 <= m < crate::schema::ops_candidates(ops, d, id).len() && #[trigger] crate::schema::ops_candidates(
                ops,
                d,
                id,
            )[m] == crate::schema::bound_op(ops[k], id),
    decreases ops.len(),
{
    let init = ops.drop_last();
    let c = crate::schema::ops_candidates(init, d, id);
    if k == ops.len() - 1 {
        assert(crate::schema::ops_candidates(ops, d, id)[c.len() as int] == crate::schema::bound_op(ops[k], id));
    } else {
        assert(init[k] == ops[k]);
        lemma_ops_candidates_contains(init, d, id, k);
        let m = choose|m: int| 0 <= m < c.len() && #[trigger] c[m] == crate::schema::bound_op(init[k], id);
        assert(crate::schema::ops_candidates(ops, d, id)[m] == c[m]);
    }
}

proof fn lemma_all_candidates_contains(slides: Seq<Json>, i: int, m: int)
    requires
        0 <= i < slides.len(),
        0 <= m < crate::schema::slide_candidates(slides[i]).len(),
    ensures
        exists|j: int|
            0 <= j < crate::schema::all_candidates(slides).len() && #[trigger] crate::schema::all_candidates(slides)[j]
                == crate::schema::slide_candidates(slides[i])[m],
    decreases slides.len(),
{
    let init = slides.drop_last();
    let a = crate::schema::all_candidates(init);
    if i == slides.len() - 1 {
        assert(crate::schema::all_candidates(slides)[a.len() + m] == crate::schema::slide_candidates(slides[i])[m]);
    } else {
        assert(init[i] == slides[i]);
        lemma_all_candidates_contains(init, i, m);
        let j = choose|j: int| 0 <= j < a.len() && #[trigger] a[j] == crate::schema::slide_candidates(init[i])[m];
        assert(crate::schema::all_candidates(slides)[j] == a[j]);
    }
}

/// `describe_tweaks` offers, for every slide with a string id and a defined
/// layout, each manifest operation that applies to that layout, bound to
/// that slide's id: a tweak with that path and name is listed among the
/// qualitative or the quantitative tweaks.
pub proof fn law_every_applicable_tweak_offered(doc: Json, i: int, id: Seq<char>, l: Seq<char>, d: LayoutDefV, k: int)
    requires
        0 <= i < crate::schema::doc_slides(doc).len(),
        crate::schema::doc_slides(doc)[i].field("id"@) == Some(Json::Str(id)),
        crate::schema::doc_slides(doc)[i].field("layout"@) == Some(Json::Str(l)),
        crate::schema::find_layout(spec_layout_definitions(), l) == Some(d),
        0 <= k < spec_operation_specs().len(),
        crate::schema::op_applies(spec_operation_specs()[k].path, d),
    ensures
        tweak_listed(
            crate::schema::spec_tweaks(doc).0,
            crate::schema::spec_tweaks(doc).1,
            offer_key(crate::schema::bound_op(spec_operation_specs()[k], id)),
        ),
{
    let slides = crate::schema::doc_slides(doc);
    let cands = crate::schema::slide_candidates(slides[i]);
    assert(cands == crate::schema::ops_candidates(spec_operation_specs(), d, id));
    lemma_ops_candidates_contains(spec_operation_specs(), d, id, k);
    let m = choose|m: int| 0 <= m < cands.len() && #[trigger] cands[m] == crate::schema::bound_op(spec_operation_specs()[k], id);
    lemma_all_candidates_contains(slides, i, m);
    let all = crate::schema::all_candidates(slides);
    let j = choose|j: int| 0 <= j < all.len() && #[trigger] all[j] == cands[m];
    lemma_tweak_state_complete(all);
    let (seen, qual, quant) = tweak_state(all);
    assert(seen.contains(offer_key(all[j])));
}

proof fn lemma_join_extend_last(r: Seq<Seq<char>>, c: char)
    requires
        r.len() >= 1,
    ensures
        crate::pptx::join_lines(r.update(r.len() - 1, r.last().push(c))) == crate::pptx::join_lines(r).push(c),
{
    let u = r.update(r.len() - 1, r.last().push(c));
    if r.len() == 1 {
        assert(u[0] == r[0].push(c));
    } else {
        assert(u.drop_last() =~= r.drop_last());
        assert(u.last() == r.last().push(c));
        assert(crate::pptx::join_lines(r.drop_last()) + seq!['\n'] + r.last().push(c) =~= (crate::pptx::join_lines(
            r.drop_last(),
        ) + seq!['\n'] + r.last()).push(c));
    }
}

proof fn lemma_split_lines_join(s: Seq<char>)
    ensures
        crate::text::split_char(s, '\n').len() >= 1,
        crate::pptx::join_lines(crate::text::split_char(s, '\n')) == s,
        forall|k: int|
            0 <= k < crate::text::split_char(s, '\n').len() ==> !(#[trigger] crate::text::split_char(s, '\n')[k]).contains(
                '\n',
            ),
        !s.contains('\r') ==> forall|k: int|
            0 <= k < crate::text::split_char(s, '\n').len() ==> !(#[trigger] crate::text::split_char(s, '\n')[k]).contains(
                '\r',
            ),
    decreases s.len(),
{
    if s.len() > 0 {
        let init = s.drop_last();
        let c = s.last();
        lemma_split_lines_join(init);
        let r = crate::text::split_char(init, '\n');
        let p = crate::text::split_char(s, '\n');
        if !s.contains('\r') {
            assert forall|i: int| 0 <= i < init.len() implies init[i] != '\r' by {
                assert(s[i] == init[i]);
            }
            assert(!init.contains('\r'));
            assert(s[s.len() - 1] == c);
        }
        if c == '\n' {
            assert(p == r.push(Seq::<char>::empty()));
            assert(p.drop_last() =~= r);
            assert(crate::pptx::join_lines(p) =~= s);
            assert forall|k: int| 0 <= k < p.len() implies !(#[trigger] p[k]).contains('\n') by {
                if k < r.len() {
                    assert(p[k] == r[k]);
                } else {
                    assert(p[k] =~= Seq::<char>::empty());
                }
            }
            assert(!s.contains('\r') ==> forall|k: int| 0 <= k < p.len() ==> !(#[trigger] p[k]).contains('\r')) by {
                if !s.contains('\r') {
                    assert forall|k: int| 0 <= k < p.len() implies !(#[trigger] p[k]).contains('\r') by {
                        if k < r.len() {
                            assert(p[k] == r[k]);
                        } else {
                            assert(p[k] =~= Seq::<char>::empty());
                        }
                    }
                }
            }
        } else {
            assert(p == r.update(r.len() - 1, r.last().push(c)));
            lemma_join_extend_last(r, c);
            assert(init.push(c) =~= s);
            assert forall|k: int| 0 <= k < p.len() implies !(#[trigger] p[k]).contains('\n') by {
                if k < r.len() - 1 {
                    assert(p[k] == r[k]);
                } else {
                    assert(p[k] == r[k].push(c));
                    assert(!r[k].contains('\n'));
                    assert forall|i: int| 0 <= i < p[k].len() implies p[k][i] != '\n' by {
                        if i < r[k].len() {
                            assert(p[k][i] == r[k][i]);
                        }
                    }
                }
            }
            assert(!s.contains('\r') ==> forall|k: int| 0 <= k < p.len() ==> !(#[trigger] p[k]).contains('\r')) by {
                if !s.contains('\r') {
                    assert forall|k: int| 0 <= k < p.len() implies !(#[trigger] p[k]).contains('\r') by {
                        if k < r.len() - 1 {
                            assert(p[k] == r[k]);
                        } else {
                            assert(p[k] == r[k].push(c));
                            assert(!r[k].contains('\r'));
                            assert forall|i: int| 0 <= i < p[k].len() implies p[k][i] != '\r' by {
                                if i < r[k].len() {
                                    assert(p[k][i] == r[k][i]);
                                }
                            }
                        }
                    }
                }
            }
        }
    }
}

/// Splitting a text into lines loses nothing: for a text with no carriage
/// return and no final newline, the lines hold no newline and, joined by
/// newlines, give back the text.
pub proof fn law_text_lines_rejoin(s: Seq<char>)
    requires
        !s.contains('\r'),
        s.len() == 0 || s.last() != '\n',
    ensures
        crate::pptx::join_lines(crate::pptx::text_lines(s)) == s,
        forall|k: int|
            0 <= k < crate::pptx::text_lines(s).len() ==> !(#[trigger] crate::pptx::text_lines(s)[k]).contains('\n'),
{
    let p = crate::text::split_char(s, '\n');
    lemma_split_lines_join(s);
    let f = |l: Seq<char>| crate::pptx::strip_cr(l);
    assert forall|k: int| 0 <= k < p.len() implies #[trigger] f(p[k]) == p[k] by {
        if p[k].len() > 0 {
            assert(!p[k].contains('\r'));
            assert(p[k][p[k].len() - 1] != '\r');
        }
    }
    let init = p.drop_last().map_values(f);
    assert(init =~= p.drop_last()) by {
        assert forall|k: int| 0 <= k < init.len() implies init[k] == p.drop_last()[k] by {
            assert(p.drop_last()[k] == p[k]);
        }
    }
    if s.len() == 0 {
        assert(p == seq![Seq::<char>::empty()]);
        assert(crate::pptx::text_lines(s) =~= Seq::<Seq<char>>::empty());
    } else if p.last().len() == 0 {
        lemma_split_char_last(s);
        assert(false);
    } else {
        assert(p.drop_last().push(p.last()) =~= p);
    }
}

proof fn lemma_split_char_last(s: Seq<char>)
    requires
        s.len() > 0,
        s.last() != '\n',
    ensures
        crate::text::split_char(s, '\n').last().len() > 0,
{
    let r = crate::text::split_char(s.drop_last(), '\n');
    crate::text::lemma_split_char_nonempty(s.drop_last(), '\n');
    assert(crate::text::split_char(s, '\n').last() == r.last().push(s.last()));
}

/// Whether `o` is a manifest operation that applies to the layout of
/// `slide`, bound to the slide's string id.
pub open spec fn applicable_offer(slide: Json, o: OperationSpecV) -> bool {
    &&& slide.field("id"@) is Some && slide.field("id"@).unwrap() is Str
    &&& {
        let id = slide.field("id"@).unwrap()->Str_0;
        let layout = match slide.field("layout"@) {
            Some(Json::Str(l)) => l,
            _ => Seq::empty(),
        };
        &&& crate::schema::find_layout(spec_layout_definitions(), layout) is Some
        &&& exists|k: int|
            0 <= k < spec_operation_specs().len() && crate::schema::op_applies(
                spec_operation_specs()[k].path,
                crate::schema::find_layout(spec_layout_definitions(), layout).unwrap(),
            ) && o == crate::schema::bound_op(#[trigger] spec_operation_specs()[k], id)
    }
}

proof fn lemma_tweak_state_sound(offers: Seq<OperationSpecV>)
    ensures
        ({
            let (seen, qual, quant) = tweak_state(offers);
            &&& forall|i: int| 0 <= i < qual.len() ==> offers.contains(#[trigger] qual[i])
            &&& forall|i: int| 0 <= i < quant.len() ==> offers.contains(#[trigger] quant[i])
        }),
    decreases offers.len(),
{
    if offers.len() > 0 {
        let init = offers.drop_last();
        lemma_tweak_state_sound(init);
        let (seen, qual, quant) = tweak_state(init);
        assert forall|x: OperationSpecV| init.contains(x) implies offers.contains(x) by {
            let j = choose|j: int| 0 <= j < init.len() && init[j] == x;
            assert(offers[j] == x);
        }
        assert(offers[offers.len() - 1] == offers.last());
        let (s2, q2, u2) = tweak_state(offers);
        assert forall|i: int| 0 <= i < q2.len() implies offers.contains(#[trigger] q2[i]) by {
            if i < qual.len() {
                assert(q2[i] == qual[i]);
                assert(init.contains(qual[i]));
            }
        }
        assert forall|i: int| 0 <= i < u2.len() implies offers.contains(#[trigger] u2[i]) by {
            if i < quant.len() {
                assert(u2[i] == quant[i]);
                assert(init.contains(quant[i]));
            }
        }
    }
}

proof fn lemma_ops_candidates_sound(ops: Seq<OpSpecV>, d: LayoutDefV, id: Seq<char>, m: int)
    requires
        0 <= m < crate::schema::ops_candidates(ops, d, id).len(),
    ensures
        exists|k: int|
            0 <= k < ops.len() && crate::schema::op_applies(ops[k].path, d) && crate::schema::ops_candidates(
                ops,
                d,
                id,
            )[m] == crate::schema::bound_op(#[trigger] ops[k], id),
    decreases ops.len(),
{
    let init = ops.drop_last();
    let c = crate::schema::ops_candidates(init, d, id);
    if m < c.len() {
        assert(crate::schema::ops_candidates(ops, d, id)[m] == c[m]);
        lemma_ops_candidates_sound(init, d, id, m);
        let k = choose|k: int| 0 <= k < init.len() && crate::schema::op_applies(init[k].path, d) && c[m]
            == crate::schema::bound_op(#[trigger] init[k], id);
        assert(init[k] == ops[k]);
    } else {
        let k = ops.len() - 1;
        assert(ops[k] == ops.last());
    }
}

proof fn lemma_all_candidates_sound(slides: Seq<Json>, j: int)
    requires
        0 <= j < crate::schema::all_candidates(slides).len(),
    ensures
        exists|i: int| 0 <= i < slides.len() && applicable_offer(#[trigger] slides[i], crate::schema::all_candidates(slides)[j]),
    decreases slides.len(),
{
    let init = slides.drop_last();
    let a = crate::schema::all_candidates(init);
    let i = slides.len() - 1;
    if j < a.len() {
        assert(crate::schema::all_candidates(slides)[j] == a[j]);
        lemma_all_candidates_sound(init, j);
        let i0 = choose|i0: int| 0 <= i0 < init.len() && applicable_offer(#[trigger] init[i0], a[j]);
        assert(slides[i0] == init[i0]);
    } else {
        let slide = slides[i];
        assert(slide == slides.last());
        let m = j - a.len();
        let c = crate::schema::slide_candidates(slide);
        assert(crate::schema::all_candidates(slides)[j] == c[m]);
        let id = slide.field("id"@).unwrap()->Str_0;
        let layout = match slide.field("layout"@) {
            Some(Json::Str(l)) => l,
            _ => Seq::empty(),
        };
        let d = crate::schema::find_layout(spec_layout_definitions(), layout).unwrap();
        lemma_ops_candidates_sound(spec_operation_specs(), d, id, m);
        let k = choose|k: int|
            0 <= k < spec_operation_specs().len() && crate::schema::op_applies(spec_operation_specs()[k].path, d)
                && crate::schema::ops_candidates(spec_operation_specs(), d, id)[m] == crate::schema::bound_op(
                #[trigger] spec_operation_specs()[k],
                id,
            );
        assert(applicable_offer(slide, c[m]));
    }
}

/// Every tweak `describe_tweaks` lists is a manifest operation that applies
/// to the layout of some slide of the deck, bound to that slide's id.
pub proof fn law_every_offered_tweak_applies(doc: Json, t: OperationSpecV)
    requires
        crate::schema::spec_tweaks(doc).0.contains(t) || crate::schema::spec_tweaks(doc).1.contains(t),
    ensures
        exists|i: int|
            0 <= i < crate::schema::doc_slides(doc).len() && applicable_offer(
                #[trigger] crate::schema::doc_slides(doc)[i],
                t,
            ),
{
    let slides = crate::schema::doc_slides(doc);
    let all = crate::schema::all_candidates(slides);
    lemma_tweak_state_sound(all);
    assert(all.contains(t));
    let j = choose|j: int| 0 <= j < all.len() && all[j] == t;
    lemma_all_candidates_sound(slides, j);
}

/// Reading a member just set gives the value set.
pub proof fn lemma_obj_get_set(m: Seq<(Seq<char>, Json)>, k: Seq<char>, v: Json)
    ensures
        obj_get(obj_set(m, k, v), k) == Some(v),
    decreases m.len(),
{
    if m.len() > 0 && m[0].0 != k {
        lemma_obj_get_set(m.drop_first(), k, v);
        assert((seq![m[0]] + obj_set(m.drop_first(), k, v)).drop_first() =~= obj_set(m.drop_first(), k, v));
    }
}

/// Replacing a document's slides and reading them back gives the new slides.
pub proof fn law_slides_read_back(root: Json, a: Seq<Json>)
    requires
        root is Object,
    ensures
        slides_of(with_slides(root, a)) == Some(a),
{
    lemma_obj_get_set(root->Object_0, "slides"@, Json::Array(a));
}

/// `add_slide` appends exactly one slide, with a fresh id, the layout asked
/// for and no slots, after the existing ones.
pub proof fn law_add_slide_appends(root: Json, t: TweakV, now_millis: u64)
    requires
        t.operation == "add_slide"@,
        param_str(t, "layout"@) is Some,
        slides_of(root) is Some,
    ensures
        spec_apply_tweak(root, t, now_millis) matches Ok(r) && slides_of(r) == Some(
            slides_of(root).unwrap().push(new_slide(now_millis, param_str(t, "layout"@).unwrap())),
        ),
{
    law_slides_read_back(root, slides_of(root).unwrap().push(new_slide(now_millis, param_str(t, "layout"@).unwrap())));
}

/// `remove_slide` leaves no slide with the id and keeps every other slide.
pub proof fn law_remove_slide_removes_only_that_id(a: Seq<Json>, id: Seq<char>)
    ensures
        forall|i: int| 0 <= i < without_id(a, id).len() ==> !slide_has_id(#[trigger] without_id(a, id)[i], id),
        forall|i: int| 0 <= i < a.len() && !slide_has_id(#[trigger] a[i], id) ==> without_id(a, id).contains(a[i]),
    decreases a.len(),
{
    if a.len() > 0 {
        law_remove_slide_removes_only_that_id(a.drop_last(), id);
        let r = without_id(a.drop_last(), id);
        assert forall|i: int| 0 <= i < a.len() && !slide_has_id(#[trigger] a[i], id) implies without_id(a, id).contains(a[i]) by {
            if i < a.len() - 1 {
                assert(a.drop_last()[i] == a[i]);
                let j = choose|j: int| 0 <= j < r.len() && r[j] == a[i];
                if !slide_has_id(a.last(), id) {
                    assert(without_id(a, id)[j] == a[i]);
                }
            } else {
                assert(without_id(a, id)[r.len() as int] == a[i]);
            }
        }
    }
}

/// Reordering keeps the same slides and puts the moved one at its target.
pub proof fn law_reorder_is_a_permutation(a: Seq<Json>, cur: int, to: int)
    requires
        0 <= cur < a.len(),
        0 <= to < a.len(),
    ensures
        a.remove(cur).insert(to, a[cur]).to_multiset() == a.to_multiset(),
        a.remove(cur).insert(to, a[cur])[to] == a[cur],
        a.remove(cur).insert(to, a[cur]).len() == a.len(),
{
    broadcast use vstd::seq_lib::group_to_multiset_ensures;
    vstd::seq_lib::to_multiset_insert(a.remove(cur), to, a[cur]);
    assert(a.remove(cur).to_multiset().insert(a[cur]) =~= a.to_multiset());
}

/// Every tweak `describe_tweaks` lists is listed once, the quantitative
/// ones (`set_font_size`, `set_text`) apart from the qualitative ones.
pub proof fn law_tweaks_listed_once_by_kind(offers: Seq<OperationSpecV>)
    ensures
        ({
            let (seen, qual, quant) = tweak_state(offers);
            &&& forall|i: int| 0 <= i < qual.len() ==> !is_quantitative(#[trigger] qual[i].name)
            &&& forall|i: int| 0 <= i < quant.len() ==> is_quantitative(#[trigger] quant[i].name)
            &&& forall|i: int, j: int| 0 <= i < j < qual.len() ==> offer_key(#[trigger] qual[i]) != offer_key(#[trigger] qual[j])
            &&& forall|i: int, j: int| 0 <= i < j < quant.len() ==> offer_key(#[trigger] quant[i]) != offer_key(#[trigger] quant[j])
            &&& forall|i: int, j: int| 0 <= i < qual.len() && 0 <= j < quant.len() ==> offer_key(#[trigger] qual[i]) != offer_key(#[trigger] quant[j])
            &&& forall|i: int| 0 <= i < qual.len() ==> seen.contains(offer_key(#[trigger] qual[i]))
            &&& forall|i: int| 0 <= i < quant.len() ==> seen.contains(offer_key(#[trigger] quant[i]))
        }),
    decreases offers.len(),
{
    if offers.len() > 0 {
        law_tweaks_listed_once_by_kind(offers.drop_last());
        let (seen, qual, quant) = tweak_state(offers.drop_last());
        let o = offers.last();
        if !seen.contains(offer_key(o)) {
            let s2 = seen.push(offer_key(o));
            assert forall|x: Seq<char>| seen.contains(x) implies s2.contains(x) by {
                let k = choose|k: int| 0 <= k < seen.len() && seen[k] == x;
                assert(s2[k] == x);
            }
            assert(s2[seen.len() as int] == offer_key(o));
        }
    }
}

proof fn lemma_first_bracket_after(p: Seq<char>, start: int, end: int)
    requires
        0 <= start <= end < p.len(),
        p[end] == ']',
        forall|i: int| start <= i < end ==> p[i] != ']',
    ensures
        first_bracket(p, start) == end,
    decreases end - start,
{
    if start < end {
        lemma_first_bracket_after(p, start + 1, end);
    }
}

proof fn lemma_split_dot_plain(s: Seq<char>)
    requires
        forall|i: int| 0 <= i < s.len() ==> s[i] != '.',
    ensures
        split_dot(s) == seq![s],
    decreases s.len(),
{
    if s.len() > 0 {
        lemma_split_dot_plain(s.drop_last());
        assert(s[s.len() - 1] != '.');
        assert(s.drop_last().push(s.last()) =~= s);
        assert(seq![s.drop_last()].update(0, s) =~= seq![s]);
    } else {
        assert(s =~= Seq::<char>::empty());
    }
}

proof fn lemma_split_dot_pair(a: Seq<char>, b: Seq<char>)
    requires
        forall|i: int| 0 <= i < a.len() ==> a[i] != '.',
        forall|i: int| 0 <= i < b.len() ==> b[i] != '.',
    ensures
        split_dot(a + seq!['.'] + b) == seq![a, b],
    decreases b.len(),
{
    if b.len() == 0 {
        lemma_split_dot_plain(a);
        assert(b =~= Seq::<char>::empty());
        assert((a + seq!['.'] + b).drop_last() =~= a);
        assert((a + seq!['.'] + b).last() == '.');
        assert(seq![a].push(Seq::<char>::empty()) =~= seq![a, b]);
    } else {
        lemma_split_dot_pair(a, b.drop_last());
        assert((a + seq!['.'] + b).drop_last() =~= a + seq!['.'] + b.drop_last());
        assert(b.drop_last().push(b.last()) =~= b);
        assert((a + seq!['.'] + b).last() == b.last());
        assert(b[b.len() - 1] != '.');
        assert(seq![a, b.drop_last()].update(1, b.drop_last().push(b.last())) =~= seq![a, b]);
    }
}

/// Whether a slide can take a slot value: a slide that is an object has a
/// `slots` member that is an object or null, or none.
pub open spec fn slots_writable(s: Json) -> bool {
    match s {
        Json::Object(m) => match obj_get(m, "slots"@) {
            Some(Json::Object(_)) => true,
            Some(Json::Null) => true,
            None => true,
            _ => false,
        },
        _ => true,
    }
}

/// What a `set_text` tweak writes, read back: after setting slot `slot` of
/// the slide with id `id` to `text`, that slot of that slide holds `text`,
/// and the deck keeps its number of slides and every other slide.
pub proof fn law_set_text_reads_back(root: Json, t: TweakV, id: Seq<char>, slot: Seq<char>, text: Seq<char>, now_millis: u64)
    requires
        t.operation == "set_text"@,
        t.path == Some("slides[id="@ + id + "]."@ + "slots."@ + slot),
        param_str(t, "text"@) == Some(text),
        forall|i: int| 0 <= i < id.len() ==> id[i] != ']',
        forall|i: int| 0 <= i < slot.len() ==> slot[i] != '.',
        slides_of(root) matches Some(a) && id_position(a, id) >= 0 && slots_writable(a[id_position(a, id)]),
    ensures
        spec_apply_tweak(root, t, now_millis) matches Ok(r) && ({
            let a = slides_of(root).unwrap();
            let b = slides_of(r).unwrap();
            let pos = id_position(a, id);
            &&& slides_of(r) is Some
            &&& b.len() == a.len()
            &&& b[pos].field("slots"@) matches Some(slots) && slots.field(slot) == Some(Json::Str(text))
            &&& forall|j: int| 0 <= j < a.len() && j != pos ==> #[trigger] b[j] == a[j]
        }),
{
    reveal_strlit("set_text");
    reveal_strlit("add_slide");
    reveal_strlit("remove_slide");
    reveal_strlit("reorder_slide");
    reveal_strlit("set_layout");
    reveal_strlit("set_alignment");
    reveal_strlit("set_font_size");
    reveal_strlit("increase");
    reveal_strlit("decrease");
    reveal_strlit("slides[id=");
    reveal_strlit("].");
    reveal_strlit("slots.");
    reveal_strlit("slots");
    assert(t.operation.len() != "add_slide"@.len());
    assert(t.operation.len() != "remove_slide"@.len());
    assert(t.operation.len() != "reorder_slide"@.len());
    assert(t.operation.len() != "set_layout"@.len());
    assert(t.operation.len() != "set_alignment"@.len());
    assert(t.operation.len() != "set_font_size"@.len());
    assert(t.operation[0] != "increase"@[0]);
    assert(t.operation[0] != "decrease"@[0]);
    let p = t.path.unwrap();
    let e: int = 10 + id.len() as int;
    assert(p.take(10) =~= "slides[id="@);
    assert(p[e] == ']');
    assert forall|i: int| 10 <= i < e implies p[i] != ']' by {
        assert(p[i] == id[i - 10]);
    }
    lemma_first_bracket_after(p, 10, e);
    assert(p[e + 1] == '.');
    let rest = "slots."@ + slot;
    assert(p.subrange(10, e) =~= id);
    assert(p.skip(e + 2) =~= rest);
    assert(rest =~= "slots"@ + seq!['.'] + slot);
    lemma_split_dot_pair("slots"@, slot);
    let a = slides_of(root).unwrap();
    let pos = id_position(a, id);
    lemma_id_position_range(a, id);
    let s = a[pos];
    let m = match s {
        Json::Object(m) => m,
        _ => Seq::empty(),
    };
    let child = match obj_get(m, "slots"@) {
        Some(x) => x,
        None => crate::json::empty_object(),
    };
    let v = Json::Str(text);
    assert(leaf_value(child, slot, t) == Ok::<Json, Seq<char>>(v));
    let nc = match child {
        Json::Object(mc) => Json::Object(obj_set(mc, slot, v)),
        _ => Json::Object(seq![(slot, v)]),
    };
    match child {
        Json::Object(mc) => {
            lemma_obj_get_set(mc, slot, v);
        },
        _ => {},
    }
    assert(nc.field(slot) == Some(v));
    assert(seq!["slots"@, slot].drop_first() =~= seq![slot]);
    assert(crate::patch::patch_at(child, seq![slot], t) == Ok::<Json, Seq<char>>(nc));
    assert(crate::patch::patch_at(s, seq!["slots"@, slot], t) == Ok::<Json, Seq<char>>(Json::Object(obj_set(m, "slots"@, nc))));
    lemma_obj_get_set(m, "slots"@, nc);
    let b = a.update(pos, Json::Object(obj_set(m, "slots"@, nc)));
    law_slides_read_back(root, b);
}

proof fn lemma_first_missing_some(req: Seq<Seq<char>>, m: Seq<(Seq<char>, Json)>, j: int, k: int)
    requires
        0 <= j <= k < req.len(),
        !obj_has(m, req[k]),
    ensures
        first_missing(req, m, j) is Some,
    decreases k - j,
{
    if obj_has(m, req[j]) {
        lemma_first_missing_some(req, m, j + 1, k);
    }
}

proof fn lemma_first_missing_none(req: Seq<Seq<char>>, m: Seq<(Seq<char>, Json)>, j: int)
    requires
        0 <= j,
        forall|k: int| j <= k < req.len() ==> obj_has(m, #[trigger] req[k]),
    ensures
        first_missing(req, m, j) is None,
    decreases req.len() - j,
{
    if j < req.len() {
        lemma_first_missing_none(req, m, j + 1);
    }
}

proof fn lemma_slides_check_err(slides: Seq<Json>, j: int, i: int)
    requires
        0 <= j <= i < slides.len(),
        slide_slot_check(slides[i], i as nat) is Err,
    ensures
        slides_slot_check(slides, j) is Err,
    decreases i - j,
{
    if j < i && slide_slot_check(slides[j], j as nat) is Ok {
        lemma_slides_check_err(slides, j + 1, i);
    }
}

/// A slide of a known layout whose slot object lacks one of the layout's
/// required slots makes the required-slot check fail.
pub proof fn law_missing_required_slot_is_refused(doc: Json, i: int, slot: Seq<char>)
    requires
        doc.field("slides"@) matches Some(Json::Array(slides)) && 0 <= i < slides.len() && (
        slides[i].field("layout"@) matches Some(Json::Str(l)) && layout_slots(l) matches Some((req, _))
            && req.contains(slot)) && (slides[i].field("slots"@) matches Some(Json::Object(m)) && !obj_has(
            m,
            slot,
        )),
    ensures
        spec_layout_slot_check(doc) is Err,
{
    let slides = doc.field("slides"@).unwrap()->Array_0;
    let l = slides[i].field("layout"@).unwrap()->Str_0;
    let req = layout_slots(l).unwrap().0;
    let m = slides[i].field("slots"@).unwrap()->Object_0;
    let k = choose|k: int| 0 <= k < req.len() && req[k] == slot;
    lemma_first_missing_some(req, m, 0, k);
    lemma_slides_check_err(slides, 0, i);
}

/// Whether a slide of a known layout with a slot object has each slot the
/// layout requires.
pub open spec fn has_required_slots(slide: Json) -> bool {
    (slide.field("layout"@) matches Some(Json::Str(l)) && layout_slots(l) is Some && slide.field("slots"@) is Some
        && slide.field("slots"@).unwrap() is Object) ==> ({
        let req = layout_slots(slide.field("layout"@).unwrap()->Str_0).unwrap().0;
        let m = slide.field("slots"@).unwrap()->Object_0;
        forall|k: int| 0 <= k < req.len() ==> obj_has(m, #[trigger] req[k])
    })
}

proof fn lemma_slides_check_ok(slides: Seq<Json>, j: int)
    requires
        0 <= j,
        forall|i: int| 0 <= i < slides.len() ==> has_required_slots(#[trigger] slides[i]),
    ensures
        slides_slot_check(slides, j) is Ok,
    decreases slides.len() - j,
{
    if j < slides.len() {
        let s = slides[j];
        assert(has_required_slots(s));
        if let Some(Json::Str(l)) = s.field("layout"@) {
            if let Some((req, _)) = layout_slots(l) {
                if let Some(Json::Object(m)) = s.field("slots"@) {
                    lemma_first_missing_none(req, m, 0);
                }
            }
        }
        lemma_slides_check_ok(slides, j + 1);
    }
}

/// A deck whose every slide has the slots its layout requires passes the
/// required-slot check.
pub proof fn law_complete_slides_pass(doc: Json)
    requires
        doc.field("slides"@) matches Some(Json::Array(slides)) ==> forall|i: int|
            0 <= i < slides.len() ==> has_required_slots(#[trigger] slides[i]),
    ensures
        spec_layout_slot_check(doc) is Ok,
{
    if let Some(Json::Array(slides)) = doc.field("slides"@) {
        lemma_slides_check_ok(slides, 0);
    }
}

proof fn lemma_ops_for_nonempty(ops: Seq<OpSpecV>, p: Seq<char>)
    ensures
        ops_for(ops, p).len() > 0 <==> exists|i: int| 0 <= i < ops.len() && (#[trigger] ops[i]).path == p,
    decreases ops.len(),
{
    if ops.len() > 0 {
        lemma_ops_for_nonempty(ops.drop_last(), p);
        if exists|i: int| 0 <= i < ops.drop_last().len() && (#[trigger] ops.drop_last()[i]).path == p {
            let i = choose|i: int| 0 <= i < ops.drop_last().len() && (#[trigger] ops.drop_last()[i]).path == p;
            assert(ops[i] == ops.drop_last()[i]);
        }
        if exists|i: int| 0 <= i < ops.len() && (#[trigger] ops[i]).path == p {
            let i = choose|i: int| 0 <= i < ops.len() && (#[trigger] ops[i]).path == p;
            if i < ops.len() - 1 {
                assert(ops.drop_last()[i] == ops[i]);
            }
        }
    }
}

/// A path is editable exactly when some operation is offered on it.
pub proof fn law_editable_paths_have_operations(p: Seq<char>)
    ensures
        spec_editable_paths().contains(p) <==> spec_operation_specs_for(p).len() > 0,
{
    let ed = spec_editable_paths();
    let ops = spec_operation_specs();
    lemma_ops_for_nonempty(ops, p);
    assert forall|j: int| 0 <= j < ed.len() implies exists|i: int| 0 <= i < ops.len() && (#[trigger] ops[i]).path == #[trigger] ed[j] by {
        if j == 0 {
            assert(ops[0].path == ed[0]);
        } else if j == 1 {
            assert(ops[12].path == ed[1]);
        } else if j == 2 {
            assert(ops[24].path == ed[2]);
        } else if j == 3 {
            assert(ops[8].path == ed[3]);
        } else if j == 4 {
            assert(ops[7].path == ed[4]);
        } else if j == 5 {
            assert(ops[2].path == ed[5]);
        } else if j == 6 {
            assert(ops[11].path == ed[6]);
        } else if j == 7 {
            assert(ops[3].path == ed[7]);
        } else if j == 8 {
            assert(ops[16].path == ed[8]);
        } else if j == 9 {
            assert(ops[1].path == ed[9]);
        } else if j == 10 {
            assert(ops[4].path == ed[10]);
        } else if j == 11 {
            assert(ops[26].path == ed[11]);
        }
    }
    assert forall|i: int| 0 <= i < ops.len() implies ed.contains((#[trigger] ops[i]).path) by {
        if i == 0 {
            assert(ed[0] == ops[0].path);
        } else if i == 1 {
            assert(ed[9] == ops[1].path);
        } else if i == 2 {
            assert(ed[5] == ops[2].path);
        } else if i == 3 {
            assert(ed[7] == ops[3].path);
        } else if i == 4 {
            assert(ed[10] == ops[4].path);
        } else if i == 5 {
            assert(ed[0] == ops[5].path);
        } else if i == 6 {
            assert(ed[9] == ops[6].path);
        } else if i == 7 {
            assert(ed[4] == ops[7].path);
        } else if i == 8 {
            assert(ed[3] == ops[8].path);
        } else if i == 9 {
            assert(ed[10] == ops[9].path);
        } else if i == 10 {
            assert(ed[0] == ops[10].path);
        } else if i == 11 {
            assert(ed[6] == ops[11].path);
        } else if i == 12 {
            assert(ed[1] == ops[12].path);
        } else if i == 13 {
            assert(ed[10] == ops[13].path);
        } else if i == 14 {
            assert(ed[0] == ops[14].path);
        } else if i == 15 {
            assert(ed[9] == ops[15].path);
        } else if i == 16 {
            assert(ed[8] == ops[16].path);
        } else if i == 17 {
            assert(ed[10] == ops[17].path);
        } else if i == 18 {
            assert(ed[0] == ops[18].path);
        } else if i == 19 {
            assert(ed[9] == ops[19].path);
        } else if i == 20 {
            assert(ed[8] == ops[20].path);
        } else if i == 21 {
            assert(ed[10] == ops[21].path);
        } else if i == 22 {
            assert(ed[0] == ops[22].path);
        } else if i == 23 {
            assert(ed[9] == ops[23].path);
        } else if i == 24 {
            assert(ed[2] == ops[24].path);
        } else if i == 25 {
            assert(ed[10] == ops[25].path);
        } else if i == 26 {
            assert(ed[11] == ops[26].path);
        } else if i == 27 {
            assert(ed[11] == ops[27].path);
        } else if i == 28 {
            assert(ed[11] == ops[28].path);
        } else if i == 29 {
            assert(ed[0] == ops[29].path);
        } else if i == 30 {
            assert(ed[9] == ops[30].path);
        } else if i == 31 {
            assert(ed[5] == ops[31].path);
        } else if i == 32 {
            assert(ed[7] == ops[32].path);
        } else if i == 33 {
            assert(ed[10] == ops[33].path);
        }
    }
    if ed.contains(p) {
        let j = choose|j: int| 0 <= j < ed.len() && ed[j] == p;
        assert(exists|i: int| 0 <= i < ops.len() && (#[trigger] ops[i]).path == ed[j]);
    }
    if spec_operation_specs_for(p).len() > 0 {
        let i = choose|i: int| 0 <= i < ops.len() && (#[trigger] ops[i]).path == p;
        assert(ed.contains(ops[i].path));
    }
}

proof fn lemma_layout_specs_from_table(defs: Seq<LayoutDefV>)
    requires
        forall|k: int| 0 <= k < defs.len() && !internal_layout((#[trigger] defs[k]).layout) ==> layout_slots(
            defs[k].layout,
        ) is Some,
    ensures
        forall|k: int| 0 <= k < layout_specs(defs).len() ==> {
            let s = #[trigger] layout_specs(defs)[k];
            layout_slots(s.name) == Some((s.required_slots, s.optional_slots))
        },
    decreases defs.len(),
{
    if defs.len() > 0 {
        assert forall|k: int| 0 <= k < defs.drop_last().len() && !internal_layout((#[trigger] defs.drop_last()[k]).layout) implies layout_slots(
            defs.drop_last()[k].layout,
        ) is Some by {
            assert(defs.drop_last()[k] == defs[k]);
        }
        lemma_layout_specs_from_table(defs.drop_last());
        let last = defs.last();
        assert(defs[defs.len() - 1] == last);
    }
}

/// `describe_layouts` names the layouts of the definitions in their order,
/// leaving out the internal ones.
pub proof fn law_described_layouts_in_order(defs: Seq<LayoutDefV>)
    ensures
        layout_specs(defs).map_values(|s: LayoutSpecV| s.name) == defs.filter(
            |d: LayoutDefV| !internal_layout(d.layout),
        ).map_values(|d: LayoutDefV| d.layout),
    decreases defs.len(),
{
    let pred = |d: LayoutDefV| !internal_layout(d.layout);
    let fs = |s: LayoutSpecV| s.name;
    let fd = |d: LayoutDefV| d.layout;
    reveal(Seq::filter);
    if defs.len() > 0 {
        let init = defs.drop_last();
        let last = defs.last();
        law_described_layouts_in_order(init);
        let a = layout_specs(init);
        let b = init.filter(pred);
        assert(a.map_values(fs) == b.map_values(fd));
        if pred(last) {
            assert(defs.filter(pred) == b.push(last));
            assert(layout_specs(defs) == a.push(layout_spec_of(last)));
            assert(a.push(layout_spec_of(last)).map_values(fs) =~= a.map_values(fs).push(last.layout));
            assert(b.push(last).map_values(fd) =~= b.map_values(fd).push(last.layout));
        } else {
            assert(defs.filter(pred) == b);
            assert(layout_specs(defs) == a);
        }
    } else {
        assert(layout_specs(defs).map_values(fs) =~= defs.filter(pred).map_values(fd));
    }
}

/// The slots `describe_layouts` lists for each layout are the ones the
/// required-slot check enforces.
pub proof fn law_described_slots_are_enforced()
    ensures
        forall|k: int| 0 <= k < layout_specs(spec_layout_definitions()).len() ==> {
            let s = #[trigger] layout_specs(spec_layout_definitions())[k];
            layout_slots(s.name) == Some((s.required_slots, s.optional_slots))
        },
{
    let defs = spec_layout_definitions();
    reveal_strlit("title");
    reveal_strlit("title_body");
    reveal_strlit("two_column");
    reveal_strlit("section");
    reveal_strlit("image_focus");
    reveal_strlit("quote");
    reveal_strlit("comparison");
    reveal_strlit("image_test");
    reveal_strlit("refinement_controls");
    assert forall|k: int| 0 <= k < defs.len() && !internal_layout((#[trigger] defs[k]).layout) implies layout_slots(
        defs[k].layout,
    ) is Some by {
        let n = defs[k].layout;
        if k == 0 {
            assert(n[0] != "title"@[0] && n[0] != "two_column"@[0] && n[0] != "section"@[0]);
            assert(n.len() != "image_focus"@.len() && n.len() != "quote"@.len());
        } else if k == 1 {
            assert(n.len() != "title"@.len() && n.len() != "title_body"@.len() && n.len() != "two_column"@.len());
            assert(n.len() != "section"@.len());
        } else if k == 3 {
            assert(n.len() != "title_body"@.len() && n.len() != "two_column"@.len() && n.len() != "section"@.len());
            assert(n[0] != "title"@[0]);
        } else if k == 5 {
            assert(n.len() != "title"@.len() && n.len() != "title_body"@.len() && n.len() != "two_column"@.len());
        } else if k == 6 {
        } else if k == 7 {
            assert(n.len() != "title"@.len());
        } else if k == 8 {
            assert(n.len() != "title"@.len());
            assert(n[1] != "title_body"@[1]);
        } else if k == 2 {
        } else {
        }
    }
    lemma_layout_specs_from_table(defs);
}

proof fn lemma_layout_specs_contains(defs: Seq<LayoutDefV>, d: int)
    requires
        0 <= d < defs.len(),
        !internal_layout(defs[d].layout),
    ensures
        exists|k: int| 0 <= k < layout_specs(defs).len() && #[trigger] layout_specs(defs)[k] == layout_spec_of(defs[d]),
    decreases defs.len(),
{
    let init = defs.drop_last();
    if d == defs.len() - 1 {
        let k = layout_specs(defs).len() - 1;
        assert(layout_specs(defs) == layout_specs(init).push(layout_spec_of(defs.last())));
        assert(layout_specs(defs)[k] == layout_spec_of(defs[d]));
    } else {
        assert(defs[d] == init[d]);
        lemma_layout_specs_contains(init, d);
        let k = choose|k: int| 0 <= k < layout_specs(init).len() && #[trigger] layout_specs(init)[k] == layout_spec_of(init[d]);
        assert(layout_specs(defs)[k] == layout_specs(init)[k]);
    }
}

/// Every layout the required-slot check knows is one `describe_layouts`
/// describes, with the same required and optional slots.
pub proof fn law_checked_layouts_are_described(l: Seq<char>)
    requires
        layout_slots(l) is Some,
    ensures
        exists|k: int|
            0 <= k < layout_specs(spec_layout_definitions()).len() && (#[trigger] layout_specs(
                spec_layout_definitions(),
            )[k]).name == l && layout_slots(l) == Some(
                (
                    layout_specs(spec_layout_definitions())[k].required_slots,
                    layout_specs(spec_layout_definitions())[k].optional_slots,
                ),
            ),
{
    let defs = spec_layout_definitions();
    reveal_strlit("title");
    reveal_strlit("title_body");
    reveal_strlit("two_column");
    reveal_strlit("section");
    reveal_strlit("image_focus");
    reveal_strlit("quote");
    reveal_strlit("comparison");
    reveal_strlit("image_test");
    reveal_strlit("refinement_controls");
    let d: int = if l == "comparison"@ {
        0
    } else if l == "image_focus"@ {
        1
    } else if l == "quote"@ {
        3
    } else if l == "section"@ {
        5
    } else if l == "title"@ {
        6
    } else if l == "title_body"@ {
        7
    } else {
        8
    };
    assert(defs[d].layout == l);
    assert(l.len() != "refinement_controls"@.len());
    assert(l.len() != "image_test"@.len() || l[1] != "image_test"@[1]);
    lemma_layout_specs_contains(defs, d);
}

/// Whether a slide has every slot `describe_layouts` reports as required
/// for its layout (a slide without a described layout or a slot object has
/// nothing to check).
pub open spec fn has_described_slots(slide: Json) -> bool {
    forall|k: int|
        0 <= k < layout_specs(spec_layout_definitions()).len() && slide.field("layout"@) == Some(
            Json::Str((#[trigger] layout_specs(spec_layout_definitions())[k]).name),
        ) && slide.field("slots"@) is Some && slide.field("slots"@).unwrap() is Object ==> forall|j: int|
            0 <= j < layout_specs(spec_layout_definitions())[k].required_slots.len() ==> obj_has(
                slide.field("slots"@).unwrap()->Object_0,
                #[trigger] layout_specs(spec_layout_definitions())[k].required_slots[j],
            )
}

#[verifier::spinoff_prover]
proof fn lemma_described_iff_required(slide: Json)
    ensures
        has_described_slots(slide) <==> has_required_slots(slide),
{
    let specs = layout_specs(spec_layout_definitions());
    law_described_slots_are_enforced();
    if let Some(Json::Str(l)) = slide.field("layout"@) {
        if layout_slots(l) is Some {
            law_checked_layouts_are_described(l);
            let k0 = choose|k: int|
                0 <= k < specs.len() && (#[trigger] specs[k]).name == l && layout_slots(l) == Some(
                    (specs[k].required_slots, specs[k].optional_slots),
                );
            if has_described_slots(slide) && slide.field("slots"@) is Some && slide.field("slots"@).unwrap() is Object {
                let req = layout_slots(l).unwrap().0;
                let m = slide.field("slots"@).unwrap()->Object_0;
                assert forall|j: int| 0 <= j < req.len() implies obj_has(m, #[trigger] req[j]) by {
                    assert(specs[k0].required_slots[j] == req[j]);
                }
            }
            if has_required_slots(slide) {
                assert forall|k: int|
                    0 <= k < specs.len() && slide.field("layout"@) == Some(Json::Str((#[trigger] specs[k]).name))
                        && slide.field("slots"@) is Some && slide.field("slots"@).unwrap() is Object implies forall|j: int|
                    0 <= j < specs[k].required_slots.len() ==> obj_has(
                        slide.field("slots"@).unwrap()->Object_0,
                        #[trigger] specs[k].required_slots[j],
                    ) by {
                    assert(layout_slots(specs[k].name) == Some((specs[k].required_slots, specs[k].optional_slots)));
                    assert(specs[k].name == l);
                    let req = layout_slots(l).unwrap().0;
                    let m = slide.field("slots"@).unwrap()->Object_0;
                    assert(req == specs[k].required_slots);
                    assert(forall|j: int| 0 <= j < req.len() ==> obj_has(m, #[trigger] req[j]));
                }
            }
        } else {
            assert forall|k: int| 0 <= k < specs.len() implies (#[trigger] specs[k]).name != l by {
                assert(layout_slots(specs[k].name) == Some((specs[k].required_slots, specs[k].optional_slots)));
            }
        }
    }
}

/// Validation enforces exactly the slots `describe_layouts` reports as
/// required: a document that meets the IR schema passes validation exactly
/// when each slide of a described layout that has a slot object has every
/// slot described as required for that layout.
pub proof fn law_validation_enforces_described_slots(doc: Json)
    requires
        spec_ir_schema_check(doc) == Ok::<Option<ViolationV>, Seq<char>>(None),
    ensures
        spec_validate_ir(doc) is Ok <==> (doc.field("slides"@) matches Some(Json::Array(slides)) ==> forall|i: int|
            0 <= i < slides.len() ==> has_described_slots(#[trigger] slides[i])),
{
    if let Some(Json::Array(slides)) = doc.field("slides"@) {
        assert forall|i: int| 0 <= i < slides.len() implies has_described_slots(#[trigger] slides[i])
            == has_required_slots(slides[i]) by {
            lemma_described_iff_required(slides[i]);
        }
        if forall|i: int| 0 <= i < slides.len() ==> has_required_slots(#[trigger] slides[i]) {
            law_complete_slides_pass(doc);
        } else {
            let i = choose|i: int| 0 <= i < slides.len() && !has_required_slots(#[trigger] slides[i]);
            let l = slides[i].field("layout"@).unwrap()->Str_0;
            let req = layout_slots(l).unwrap().0;
            let m = slides[i].field("slots"@).unwrap()->Object_0;
            let j = choose|j: int| 0 <= j < req.len() && !obj_has(m, #[trigger] req[j]);
            assert(req.contains(req[j]));
            law_missing_required_slot_is_refused(doc, i, req[j]);
        }
    } else {
        law_complete_slides_pass(doc);
    }
}

/// Whether a path is supported, whether a listing of the editable paths
/// (such as `all_editable_paths` gives) holds it, and whether any operation
/// is offered on it always agree.
pub proof fn law_path_support_agrees(listed: Seq<Seq<char>>, p: Seq<char>)
    requires
        listed.to_set() == spec_editable_paths().to_set(),
    ensures
        listed.contains(p) <==> spec_editable_paths().contains(p),
        spec_editable_paths().contains(p) <==> spec_operation_specs_for(p).len() > 0,
{
    assert(listed.to_set().contains(p) == listed.contains(p));
    assert(spec_editable_paths().to_set().contains(p) == spec_editable_paths().contains(p));
    law_editable_paths_have_operations(p);
}

proof fn lemma_first_bracket_found(p: Seq<char>, i: int)
    requires
        0 <= i,
        first_bracket(p, i) >= 0,
    ensures
        i <= first_bracket(p, i) < p.len(),
        p[first_bracket(p, i)] == ']',
        forall|k: int| i <= k < first_bracket(p, i) ==> p[k] != ']',
    decreases p.len() - i,
{
    if i < p.len() && p[i] != ']' {
        lemma_first_bracket_found(p, i + 1);
    }
}

/// Parsing a slide path gives back the id and the rest exactly for paths
/// of the form `slides[id=ID].REST` with no `]` in `ID` and a non-empty
/// `REST`; any other path is refused.
pub proof fn law_slide_path_round_trip(p: Seq<char>, id: Seq<char>, rest: Seq<char>)
    ensures
        spec_parse_slide_path(p) == Ok::<(Seq<char>, Seq<char>), Seq<char>>((id, rest)) <==> (p == "slides[id="@
            + id + "]."@ + rest && !id.contains(']') && rest.len() > 0),
{
    reveal_strlit("slides[id=");
    reveal_strlit("].");
    let pre = "slides[id="@;
    if p == pre + id + "]."@ + rest && !id.contains(']') && rest.len() > 0 {
        let e: int = 10 + id.len() as int;
        assert(p.take(10) =~= pre);
        assert(p[e] == ']');
        assert forall|i: int| 10 <= i < e implies p[i] != ']' by {
            assert(p[i] == id[i - 10]);
        }
        lemma_first_bracket_after(p, 10, e);
        assert(p[e + 1] == '.');
        assert(p.subrange(10, e) =~= id);
        assert(p.skip(e + 2) =~= rest);
    }
    if spec_parse_slide_path(p) == Ok::<(Seq<char>, Seq<char>), Seq<char>>((id, rest)) {
        let e = first_bracket(p, 10);
        lemma_first_bracket_found(p, 10);
        assert(id == p.subrange(10, e));
        assert(rest == p.skip(e + 2));
        assert(p =~= pre + id + "]."@ + rest);
        assert forall|k: int| 0 <= k < id.len() implies id[k] != ']' by {
            assert(id[k] == p[10 + k]);
        }
    }
}

/// Where a plain path (with no `://`) goes: to the local file at that path.
pub proof fn law_plain_paths_are_local(uri: Seq<char>, file_path: Option<Seq<char>>)
    requires
        find_from(uri, scheme_mark(), 0) is None,
    ensures
        spec_route(uri, file_path) == Ok::<EndpointV, TransportErrorV>(EndpointV::Local(uri)),
{
    lemma_find_from(uri, scheme_mark(), 0);
    if uri.len() >= 7 && uri.take(7) == file_prefix() {
        assert(uri.subrange(4, 7) =~= scheme_mark()) by {
            assert(uri.take(7)[4] == ':' && uri.take(7)[5] == '/' && uri.take(7)[6] == '/');
        }
        assert(occurs_at(uri, scheme_mark(), 4));
    }
}

/// A URI whose scheme is neither `file`, `http` nor `https` is refused with
/// that scheme.
pub proof fn law_other_schemes_refused(uri: Seq<char>, s: Seq<char>, file_path: Option<Seq<char>>)
    requires
        find_from(uri, scheme_mark(), 0) is Some,
        url_scheme_of(uri) == Some(s),
        s.len() > 0,
        s != "file"@,
        s != "http"@,
        s != "https"@,
    ensures
        spec_route(uri, file_path) == Err::<EndpointV, TransportErrorV>(TransportErrorV::UnsupportedScheme(s)),
{
}

proof fn lemma_slide_parts(slides: Seq<Seq<ElementV>>, k: nat)
    requires
        1 <= k <= slides.len(),
    ensures
        slide_entries(slides).map_values(|e: (Seq<char>, Seq<u8>)| e.0).contains(slide_part_name(k)),
    decreases slides.len(),
{
    let names = slide_entries(slides).map_values(|e: (Seq<char>, Seq<u8>)| e.0);
    let n = slides.len();
    let r = slide_entries(slides.drop_last()).push((slide_part_name(n), utf8(spec_slide_xml(slides.last()))));
    let prev = slide_entries(slides.drop_last());
    if k < n {
        lemma_slide_parts(slides.drop_last(), k);
        let pn = prev.map_values(|e: (Seq<char>, Seq<u8>)| e.0);
        let j = choose|j: int| 0 <= j < pn.len() && pn[j] == slide_part_name(k);
        assert(r[j] == prev[j]);
        if slide_images(slides.last()).len() > 0 {
            assert(slide_entries(slides)[j] == r[j]);
        }
        assert(names[j] == slide_part_name(k));
    } else {
        let j = prev.len() as int;
        assert(r[j].0 == slide_part_name(n));
        if slide_images(slides.last()).len() > 0 {
            assert(slide_entries(slides)[j] == r[j]);
        }
        assert(names[j] == slide_part_name(k));
    }
}

/// A package has its content types, its presentation part and one slide
/// part per slide, numbered from 1.
pub proof fn law_package_parts(slides: Seq<Seq<ElementV>>)
    ensures
        ({
            let names = pptx_entries(slides).map_values(|e: (Seq<char>, Seq<u8>)| e.0);
            &&& names.contains("[Content_Types].xml"@)
            &&& names.contains("ppt/presentation.xml"@)
            &&& forall|k: nat| 1 <= k <= slides.len() ==> names.contains(#[trigger] slide_part_name(k))
        }),
{
    let e = pptx_entries(slides);
    let names = e.map_values(|x: (Seq<char>, Seq<u8>)| x.0);
    let se = slide_entries(slides);
    let me = media_entries(all_images(slides));
    let base = (se.len() + me.len()) as int;
    assert(names[base] == "[Content_Types].xml"@);
    assert(names[base + 4] == "ppt/presentation.xml"@);
    assert forall|k: nat| 1 <= k <= slides.len() implies names.contains(#[trigger] slide_part_name(k)) by {
        lemma_slide_parts(slides, k);
        let sn = se.map_values(|x: (Seq<char>, Seq<u8>)| x.0);
        let j = choose|j: int| 0 <= j < sn.len() && sn[j] == slide_part_name(k);
        assert(e[j] == se[j]);
        assert(names[j] == slide_part_name(k));
    }
}

/// Whether a slide names a layout that has a template and has a slot object.
pub open spec fn renderable_slide(slide: Json) -> bool {
    &&& slide.field("layout"@) matches Some(Json::Str(l)) && find_template(spec_template_definitions(), l) is Some
    &&& slide.field("slots"@) matches Some(Json::Object(_))
}

proof fn lemma_render_prefix_ok(slides: Seq<Json>, n: int)
    requires
        0 <= n <= slides.len(),
        forall|i: int| 0 <= i < slides.len() ==> renderable_slide(#[trigger] slides[i]),
    ensures
        render_prefix(slides, n) matches Ok(secs) && secs.len() == n,
    decreases n,
{
    if n > 0 {
        lemma_render_prefix_ok(slides, n - 1);
        assert(renderable_slide(slides[n - 1]));
    }
}

/// A deck whose slides each name a layout with a template and carry a slot
/// object renders, one section per slide.
pub proof fn law_known_layouts_render(doc: Json)
    requires
        doc.field("slides"@) matches Some(Json::Array(slides)) && forall|i: int|
            0 <= i < slides.len() ==> renderable_slide(#[trigger] slides[i]),
    ensures
        spec_render_doc(doc) is Ok,
{
    let slides = doc.field("slides"@).unwrap()->Array_0;
    lemma_render_prefix_ok(slides, slides.len() as int);
}

} // verus!
