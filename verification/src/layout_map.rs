//! Mapping an IR slide onto its layout: which element shows an image and
//! which shows text, what text, with which alignment and defaults.  The
//! boxes and autofit font sizes are measured by the caller and handed in.
use vstd::prelude::*;

use base64::Engine;

use crate::json::{entries_find, entries_view, obj_get, Json, JsonEntry, JsonValue};
use crate::manifest::{layout_definitions, layouts_view, spec_layout_definitions, ElementDefV, LayoutDefinition};
use crate::markdown::{blocks_view, parse_markdown, spec_parse_markdown};
use crate::model::{ElementV, IlmElement, IlmImage, IlmSlide, IlmTextRun, ImageScaling, ImageV, TextAlignment, TextRunV};
use crate::schema::find_layout;
use crate::text::{push_str, str_eq, to_string};

verus! {

/// The box of a layout element in EMU and the font size its text gets.
#[derive(Clone, Copy)]
pub struct ElementMetrics {
    pub x: i64,
    pub y: i64,
    pub cx: i64,
    pub cy: i64,
    pub font_size_pt: i64,
}

/// The bytes the standard base64 alphabet (with padding) decodes `s` to,
/// or `None` when `s` is not such base64.
pub uninterp spec fn base64_decoded(s: Seq<char>) -> Option<Seq<u8>>;

/// Decodes base64 text with `base64`'s `STANDARD` engine.  The contract
/// claims that the outcome is determined by the text.
#[verifier::external_body]
fn decode_base64(s: &str) -> (r: Option<Vec<u8>>)
    ensures
        match r {
            Some(b) => base64_decoded(s@) == Some(b@),
            None => base64_decoded(s@) is None,
        },
{
    base64::engine::general_purpose::STANDARD.decode(s).ok()
}

/// The text a slot value gives an element: a string as it is, a number as
/// written, a boolean as `true` or `false`, anything else as nothing.
pub open spec fn element_slot_text(v: Option<Json>) -> Seq<char> {
    match v {
        Some(Json::Str(s)) => s,
        Some(Json::Number(_, repr)) => repr,
        Some(Json::Bool(b)) => if b {
            "true"@
        } else {
            "false"@
        },
        _ => Seq::empty(),
    }
}

/// The text an element of `layout` shows for `slot`: the quote layout's
/// attribution gets a leading dash.
pub open spec fn display_text(layout: Seq<char>, slot: Seq<char>, v: Option<Json>) -> Seq<char> {
    if layout == "quote"@ && slot == "attribution"@ {
        "— "@ + element_slot_text(v)
    } else {
        element_slot_text(v)
    }
}

/// The text an element of `layout` shows for `slot` given the slot's value.
pub fn slot_display_text(layout: &str, slot: &str, value: Option<&JsonValue>) -> (r: String)
    ensures
        r@ == display_text(layout@, slot@, match value {
            Some(v) => Some(v@),
            None => None,
        }),
{
    let text = match value {
        Some(JsonValue::String(s)) => s.clone(),
        Some(JsonValue::Number(n)) => n.repr.clone(),
        Some(JsonValue::Bool(b)) => if *b {
            to_string("true")
        } else {
            to_string("false")
        },
        _ => String::new(),
    };
    if str_eq(layout, "quote") && str_eq(slot, "attribution") {
        let mut t = to_string("— ");
        push_str(&mut t, text.as_str());
        t
    } else {
        text
    }
}

/// The scaling an element's scaling name asks for; `contain` by default.
pub open spec fn scaling_of(name: Seq<char>) -> ImageScaling {
    if name == "stretch"@ {
        ImageScaling::Stretch
    } else if name == "cover"@ {
        ImageScaling::Cover
    } else if name == "fit_width"@ {
        ImageScaling::FitWidth
    } else if name == "fit_height"@ {
        ImageScaling::FitHeight
    } else {
        ImageScaling::Contain
    }
}

fn scaling_exec(name: &str) -> (r: ImageScaling)
    ensures
        r == scaling_of(name@),
{
    if str_eq(name, "stretch") {
        ImageScaling::Stretch
    } else if str_eq(name, "cover") {
        ImageScaling::Cover
    } else if str_eq(name, "fit_width") {
        ImageScaling::FitWidth
    } else if str_eq(name, "fit_height") {
        ImageScaling::FitHeight
    } else {
        ImageScaling::Contain
    }
}

/// The alignment a slide's style asks for; left by default.
pub open spec fn slide_alignment(slide: Json) -> TextAlignment {
    match slide.field("style"@) {
        Some(Json::Object(style)) => match obj_get(style, "alignment"@) {
            Some(Json::Str(a)) => if a == "center"@ {
                TextAlignment::Center
            } else if a == "right"@ {
                TextAlignment::Right
            } else if a == "justify"@ {
                TextAlignment::Justify
            } else {
                TextAlignment::Left
            },
            _ => TextAlignment::Left,
        },
        _ => TextAlignment::Left,
    }
}

fn slide_alignment_exec(slide: &JsonValue) -> (r: TextAlignment)
    ensures
        r == slide_alignment(slide@),
{
    if let Some(JsonValue::Object(style)) = slide.get("style") {
        if let Some(i) = entries_find(style, "alignment") {
            if let JsonValue::String(a) = &style[i].value {
                if str_eq(a.as_str(), "center") {
                    return TextAlignment::Center;
                } else if str_eq(a.as_str(), "right") {
                    return TextAlignment::Right;
                } else if str_eq(a.as_str(), "justify") {
                    return TextAlignment::Justify;
                }
            }
        }
    }
    TextAlignment::Left
}

/// The image data of a slot value, when it is an object with a string
/// `image_data` member.
pub open spec fn image_data_of(v: Option<Json>) -> Option<Seq<char>> {
    match v {
        Some(Json::Object(obj)) => match obj_get(obj, "image_data"@) {
            Some(Json::Str(b)) => Some(b),
            _ => None,
        },
        _ => None,
    }
}

/// The element a layout element becomes on a slide: an image when its slot
/// holds image data, text otherwise.
pub open spec fn element_of(
    layout: Seq<char>,
    e: ElementDefV,
    slots: Seq<(Seq<char>, Json)>,
    alignment: TextAlignment,
    m: ElementMetrics,
) -> ElementV {
    let v = obj_get(slots, e.slot);
    match image_data_of(v) {
        Some(b) => ElementV::Image(
            ImageV {
                x: m.x,
                y: m.y,
                cx: m.cx,
                cy: m.cy,
                uri: "inline_"@ + e.slot + ".png"@,
                data: match base64_decoded(b) {
                    Some(d) => d,
                    None => Seq::empty(),
                },
                scaling: scaling_of(e.image_scaling),
            },
        ),
        None => ElementV::Text(
            TextRunV {
                x: m.x,
                y: m.y,
                cx: m.cx,
                cy: m.cy,
                blocks: spec_parse_markdown(display_text(layout, e.slot, v)),
                font_size_pt: m.font_size_pt,
                bold: match e.bold {
                    Some(b) => b,
                    None => false,
                },
                alignment,
            },
        ),
    }
}

/// The layout a slide names, when the slide has a layout name and a slot
/// object and the layout is defined.
pub open spec fn slide_layout(slide: Json) -> Option<ElementsOf> {
    match slide.field("layout"@) {
        Some(Json::Str(layout)) => match slide.field("slots"@) {
            Some(Json::Object(slots)) => match find_layout(spec_layout_definitions(), layout) {
                Some(d) => Some(ElementsOf { layout, slots, elements: d.elements }),
                None => None,
            },
            _ => None,
        },
        _ => None,
    }
}

/// A slide's layout name, its slots and the elements of its layout.
pub struct ElementsOf {
    pub layout: Seq<char>,
    pub slots: Seq<(Seq<char>, Json)>,
    pub elements: Seq<ElementDefV>,
}

/// Whether `metrics` has one entry per element of the slide's layout.
pub open spec fn metrics_fit(slide: Json, metrics: Seq<ElementMetrics>) -> bool {
    match slide_layout(slide) {
        Some(l) => metrics.len() == l.elements.len(),
        None => true,
    }
}

/// The elements of a slide, one per element of its layout, with the
/// measured boxes and font sizes.
pub open spec fn spec_ilm_slide(slide: Json, metrics: Seq<ElementMetrics>) -> Option<Seq<ElementV>> {
    match slide_layout(slide) {
        Some(l) => Some(
            Seq::new(
                l.elements.len(),
                |k: int| element_of(l.layout, l.elements[k], l.slots, slide_alignment(slide), metrics[k]),
            ),
        ),
        None => None,
    }
}

fn find_layout_def(defs: &Vec<LayoutDefinition>, name: &str) -> (r: Option<usize>)
    ensures
        match r {
            Some(k) => k < defs@.len() && find_layout(layouts_view(defs@), name@) == Some(defs@[k as int]@),
            None => find_layout(layouts_view(defs@), name@) is None,
        },
{
    let ghost dv = layouts_view(defs@);
    let mut i: usize = 0;
    assert(dv.skip(0) =~= dv);
    while i < defs.len()
        invariant
            i <= defs@.len(),
            dv == layouts_view(defs@),
            find_layout(dv, name@) == find_layout(dv.skip(i as int), name@),
        decreases defs@.len() - i,
    {
        assert(dv.skip(i as int).drop_first() =~= dv.skip(i + 1));
        assert(dv.skip(i as int)[0] == defs@[i as int]@);
        if str_eq(defs[i].layout, name) {
            return Some(i);
        }
        i = i + 1;
    }
    None
}

/// The ILM slide of an IR slide: one element per element of its layout, an
/// image where the slot holds image data and rich text otherwise, placed in
/// the boxes and at the font sizes of `metrics`.  `None` when the slide has
/// no layout name or slot object, or its layout is not defined.
pub fn ilm_slide_from_ir(slide: &JsonValue, metrics: &Vec<ElementMetrics>) -> (r: Option<IlmSlide>)
    requires
        metrics_fit(slide@, metrics@),
    ensures
        match r {
            Some(s) => spec_ilm_slide(slide@, metrics@) == Some(s@),
            None => spec_ilm_slide(slide@, metrics@) is None,
        },
{
    let layout = match slide.get("layout") {
        Some(JsonValue::String(l)) => l,
        _ => return None,
    };
    let slots = match slide.get("slots") {
        Some(JsonValue::Object(m)) => m,
        _ => return None,
    };
    let defs = layout_definitions();
    let di = match find_layout_def(&defs, layout.as_str()) {
        Some(k) => k,
        None => return None,
    };
    let def = &defs[di];
    let ghost ev = def@.elements;
    assert(slide_layout(slide@) == Some(ElementsOf { layout: layout@, slots: entries_view(slots@), elements: ev }));
    let alignment = slide_alignment_exec(slide);
    let ghost target = spec_ilm_slide(slide@, metrics@).unwrap();
    let mut elements: Vec<IlmElement> = Vec::new();
    let mut k: usize = 0;
    while k < def.elements.len()
        invariant
            k <= def.elements@.len(),
            ev == def@.elements,
            ev.len() == def.elements@.len(),
            metrics@.len() == ev.len(),
            alignment == slide_alignment(slide@),
            target == Seq::new(
                ev.len(),
                |j: int| element_of(layout@, ev[j], entries_view(slots@), slide_alignment(slide@), metrics@[j]),
            ),
            elements@.map_values(|e: IlmElement| e@) == target.take(k as int),
        decreases def.elements@.len() - k,
    {
        let e = &def.elements[k];
        assert(ev[k as int] == e@);
        let m = metrics[k];
        let value = match entries_find(slots, e.slot) {
            Some(i) => Some(&slots[i].value),
            None => None,
        };
        let ghost v = match value {
            Some(x) => Some(x@),
            None => None,
        };
        assert(v == obj_get(entries_view(slots@), e.slot@));
        let mut image_b64: Option<&String> = None;
        if let Some(JsonValue::Object(obj)) = value {
            if let Some(j) = entries_find(obj, "image_data") {
                if let JsonValue::String(b) = &obj[j].value {
                    image_b64 = Some(b);
                }
            }
        }
        assert(match image_b64 {
            Some(b) => image_data_of(v) == Some(b@),
            None => image_data_of(v) is None,
        });
        let element = match image_b64 {
            Some(b) => {
                let data = match decode_base64(b.as_str()) {
                    Some(d) => d,
                    None => Vec::new(),
                };
                let mut uri = to_string("inline_");
                push_str(&mut uri, e.slot);
                push_str(&mut uri, ".png");
                IlmElement::Image(
                    IlmImage {
                        x: m.x,
                        y: m.y,
                        cx: m.cx,
                        cy: m.cy,
                        uri,
                        image_data: data,
                        scaling: scaling_exec(e.image_scaling),
                    },
                )
            },
            None => {
                let text = slot_display_text(layout.as_str(), e.slot, value);
                let blocks = parse_markdown(text.as_str());
                let bold = match e.bold {
                    Some(b) => b,
                    None => false,
                };
                IlmElement::Text(
                    IlmTextRun {
                        x: m.x,
                        y: m.y,
                        cx: m.cx,
                        cy: m.cy,
                        blocks,
                        font_size_pt: m.font_size_pt,
                        bold,
                        alignment,
                    },
                )
            },
        };
        assert(element@ == target[k as int]);
        let ghost before = elements@.map_values(|e: IlmElement| e@);
        let ghost elv = element@;
        elements.push(element);
        assert(elements@.map_values(|e: IlmElement| e@) =~= before.push(elv));
        assert(target.take(k + 1) =~= target.take(k as int).push(target[k as int]));
        k = k + 1;
    }
    assert(target.take(k as int) =~= target);
    Some(IlmSlide { elements })
}

/// The ILM slides of a validated document, given the metrics of each slide.
pub open spec fn spec_resolve_ilm_slides(doc: Json, metrics: Seq<Seq<ElementMetrics>>) -> Result<Seq<Seq<ElementV>>, Seq<char>> {
    match doc.field("slides"@) {
        Some(Json::Array(slides)) => if forall|i: int| 0 <= i < slides.len() ==> (#[trigger] spec_ilm_slide(slides[i], metrics[i])) is Some {
            Ok(Seq::new(slides.len(), |i: int| spec_ilm_slide(slides[i], metrics[i]).unwrap()))
        } else {
            Err("RenderError: failed to resolve one or more slide layouts for ILM emission."@)
        },
        _ => Err("ValidationError: expected $.slides to be an array."@),
    }
}

/// Whether `metrics` has an entry for each slide, fitting its layout.
pub open spec fn deck_metrics_fit(doc: Json, metrics: Seq<Seq<ElementMetrics>>) -> bool {
    match doc.field("slides"@) {
        Some(Json::Array(slides)) => metrics.len() == slides.len() && forall|i: int|
            0 <= i < slides.len() ==> metrics_fit(#[trigger] slides[i], metrics[i]),
        _ => true,
    }
}

/// The ILM slides of every slide of a document; an error when the slides
/// are not an array or when a slide's layout cannot be resolved.
pub fn resolve_ilm_slides(parsed: &JsonValue, metrics: &Vec<Vec<ElementMetrics>>) -> (r: Result<Vec<IlmSlide>, String>)
    requires
        deck_metrics_fit(parsed@, metrics@.map_values(|m: Vec<ElementMetrics>| m@)),
    ensures
        match r {
            Ok(v) => spec_resolve_ilm_slides(parsed@, metrics@.map_values(|m: Vec<ElementMetrics>| m@))
                == Ok::<Seq<Seq<ElementV>>, Seq<char>>(v@.map_values(|s: IlmSlide| s@)),
            Err(e) => spec_resolve_ilm_slides(parsed@, metrics@.map_values(|m: Vec<ElementMetrics>| m@))
                == Err::<Seq<Seq<ElementV>>, Seq<char>>(e@),
        },
{
    let ghost mv = metrics@.map_values(|m: Vec<ElementMetrics>| m@);
    let slides = match parsed.get("slides") {
        Some(JsonValue::Array(a)) => a,
        _ => return Err(to_string("ValidationError: expected $.slides to be an array.")),
    };
    let ghost sv = crate::json::json_seq_view(slides@);
    proof {
        crate::json::lemma_json_seq_view(slides@);
    }
    let mut out: Vec<IlmSlide> = Vec::new();
    let mut i: usize = 0;
    while i < slides.len()
        invariant
            i <= slides@.len(),
            sv == crate::json::json_seq_view(slides@),
            sv.len() == slides@.len(),
            forall|j: int| 0 <= j < slides@.len() ==> #[trigger] sv[j] == crate::json::json_view(slides@[j]),
            mv == metrics@.map_values(|m: Vec<ElementMetrics>| m@),
            mv.len() == sv.len(),
            forall|j: int| 0 <= j < sv.len() ==> metrics_fit(#[trigger] sv[j], mv[j]),
            out@.len() == i,
            forall|j: int| 0 <= j < i ==> spec_ilm_slide(sv[j], mv[j]) == Some(#[trigger] out@[j]@),
            parsed@.field("slides"@) == Some(Json::Array(sv)),
        decreases slides@.len() - i,
    {
        assert(sv[i as int] == slides@[i as int]@);
        assert(mv[i as int] == metrics@[i as int]@);
        match ilm_slide_from_ir(&slides[i], &metrics[i]) {
            Some(s) => {
                out.push(s);
            },
            None => {
                assert(!(spec_ilm_slide(sv[i as int], mv[i as int]) is Some));
                return Err(to_string("RenderError: failed to resolve one or more slide layouts for ILM emission."));
            },
        }
        i = i + 1;
    }
    assert(forall|j: int| 0 <= j < sv.len() ==> (#[trigger] spec_ilm_slide(sv[j], mv[j])) is Some) by {
        assert forall|j: int| 0 <= j < sv.len() implies (#[trigger] spec_ilm_slide(sv[j], mv[j])) is Some by {
            assert(spec_ilm_slide(sv[j], mv[j]) == Some(out@[j]@));
        }
    }
    assert(out@.map_values(|s: IlmSlide| s@) =~= Seq::new(sv.len(), |j: int| spec_ilm_slide(sv[j], mv[j]).unwrap()));
    Ok(out)
}

} // verus!
