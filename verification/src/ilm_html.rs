//! A single ILM slide as a standalone HTML page, elements placed absolutely
//! at their EMU geometry converted to CSS pixels.
use vstd::prelude::*;

use crate::html_preview::{html_escape, replace_all, replace_all_exec, spec_html_escape};
use crate::json::{Json, JsonEntry};
use crate::model::{IlmElement, IlmSlide, ImageV, TextRunV};
use crate::pptx::{run_plain_text, run_plain_text_exec, slide_images, slide_texts};
use crate::text::{push_signed_decimal, push_str, signed_decimal, string_from_chars, to_string};
use crate::theme::{render_theme_style_block, spec_theme_style_block, theme_view};

verus! {

/// EMU per CSS pixel.
pub const EMU_PER_PX: i64 = 9525;

/// An EMU length in whole CSS pixels, rounded toward zero.
pub open spec fn to_px(emu: int) -> int {
    if emu >= 0 {
        emu / 9525
    } else {
        -((-emu) / 9525)
    }
}

fn to_px_exec(emu: i64) -> (r: i64)
    ensures
        r == to_px(emu as int),
{
    if emu >= 0 {
        emu / EMU_PER_PX
    } else {
        let a: i64 = -(emu + 1);
        let q = a / EMU_PER_PX;
        let rem = a % EMU_PER_PX;
        assert(a + 1 == -emu);
        let r = if rem == EMU_PER_PX - 1 {
            q + 1
        } else {
            q
        };
        assert(r == (a + 1) / 9525) by (nonlinear_arith)
            requires
                a >= 0,
                q == a / 9525,
                rem == a % 9525,
                r == (if rem == 9524 { q + 1 } else { q as int }),
        ;
        -r
    }
}

/// The placement style of a box.
pub open spec fn box_style(x: int, y: int, cx: int, cy: int) -> Seq<char> {
    "left:"@ + signed_decimal(to_px(x)) + "px;top:"@ + signed_decimal(to_px(y)) + "px;width:"@
        + signed_decimal(to_px(cx)) + "px;height:"@ + signed_decimal(to_px(cy)) + "px;"@
}

/// The markup of a placed image.
pub open spec fn image_html(img: ImageV) -> Seq<char> {
    "    <img class=\"ilm-image\" src=\""@ + spec_html_escape(img.uri) + "\" style=\""@ + box_style(
        img.x as int,
        img.y as int,
        img.cx as int,
        img.cy as int,
    ) + "\"/>\n"@
}

/// The markup of a placed text: its lines escaped and joined by breaks.
pub open spec fn text_html(t: TextRunV) -> Seq<char> {
    "    <div class=\"ilm-text\" style=\""@ + box_style(t.x as int, t.y as int, t.cx as int, t.cy as int)
        + "font-size:"@ + signed_decimal(t.font_size_pt as int) + "pt;font-weight:"@ + (if t.bold {
        "700"@
    } else {
        "400"@
    }) + ";\">"@ + replace_all(spec_html_escape(run_plain_text(t)), seq!['\n'], "<br/>"@) + "</div>\n"@
}

pub open spec fn images_html(imgs: Seq<ImageV>) -> Seq<char>
    decreases imgs.len(),
{
    if imgs.len() == 0 {
        Seq::empty()
    } else {
        images_html(imgs.drop_last()) + image_html(imgs.last())
    }
}

pub open spec fn texts_html(ts: Seq<TextRunV>) -> Seq<char>
    decreases ts.len(),
{
    if ts.len() == 0 {
        Seq::empty()
    } else {
        texts_html(ts.drop_last()) + text_html(ts.last())
    }
}

/// The page's own style rules: a fixed 1366 by 768 canvas with no margin
/// or padding, and absolutely placed elements.
pub open spec fn canvas_style() -> Seq<char> {
    "    <style>\n      html, body { width: 1366px; height: 768px; }\n"@
        + "      body { margin: 0; padding: 0; overflow: hidden; position: relative; box-sizing: border-box; }\n"@
        + "      .ilm-text { position: absolute; white-space: pre-wrap; }\n"@
        + "      .ilm-image { position: absolute; object-fit: cover; }\n"@ + "    </style>\n  </head>\n  <body>\n"@
}

/// The page of a slide: the theme's style block, the canvas style, the
/// slide's images and then its texts.
pub open spec fn spec_slide_html(slide: Seq<crate::model::ElementV>, theme: Option<Seq<(Seq<char>, Json)>>) -> Seq<char> {
    "<!doctype html>\n<html>\n  <head>\n"@ + spec_theme_style_block(theme) + canvas_style() + images_html(
        slide_images(slide),
    ) + texts_html(slide_texts(slide)) + "  </body>\n</html>\n"@
}

fn push_box_style(out: &mut String, x: i64, y: i64, cx: i64, cy: i64)
    ensures
        final(out)@ == old(out)@ + box_style(x as int, y as int, cx as int, cy as int),
{
    push_str(out, "left:");
    push_signed_decimal(out, to_px_exec(x));
    push_str(out, "px;top:");
    push_signed_decimal(out, to_px_exec(y));
    push_str(out, "px;width:");
    push_signed_decimal(out, to_px_exec(cx));
    push_str(out, "px;height:");
    push_signed_decimal(out, to_px_exec(cy));
    push_str(out, "px;");
    assert(out@ =~= old(out)@ + box_style(x as int, y as int, cx as int, cy as int));
}

fn push_text_html(html: &mut String, run: &crate::model::IlmTextRun)
    ensures
        final(html)@ == old(html)@ + text_html(run@),
{
    push_str(html, "    <div class=\"ilm-text\" style=\"");
    push_box_style(html, run.x, run.y, run.cx, run.cy);
    push_str(html, "font-size:");
    push_signed_decimal(html, run.font_size_pt);
    push_str(html, "pt;font-weight:");
    if run.bold {
        push_str(html, "700");
    } else {
        push_str(html, "400");
    }
    push_str(html, ";\">");
    let text = string_from_chars(run_plain_text_exec(run).as_slice());
    let escaped = html_escape(text.as_str());
    proof {
        reveal_strlit("\n");
        assert("\n"@ =~= seq!['\n']);
    }
    let body = replace_all_exec(escaped.as_str(), "\n", "<br/>");
    push_str(html, body.as_str());
    push_str(html, "</div>\n");
    assert(html@ =~= old(html)@ + text_html(run@));
}

/// The HTML page of one ILM slide under `theme`.
pub fn build_single_slide_html_from_ilm(slide: &IlmSlide, theme: Option<&Vec<JsonEntry>>) -> (r: String)
    ensures
        r@ == spec_slide_html(slide@, theme_view(theme)),
{
    let ghost es = slide@;
    let mut html = to_string("<!doctype html>\n<html>\n  <head>\n");
    let style = render_theme_style_block(theme);
    push_str(&mut html, style.as_str());
    push_str(&mut html, "    <style>\n      html, body { width: 1366px; height: 768px; }\n");
    push_str(&mut html, "      body { margin: 0; padding: 0; overflow: hidden; position: relative; box-sizing: border-box; }\n");
    push_str(&mut html, "      .ilm-text { position: absolute; white-space: pre-wrap; }\n");
    push_str(&mut html, "      .ilm-image { position: absolute; object-fit: cover; }\n");
    push_str(&mut html, "    </style>\n  </head>\n  <body>\n");
    let ghost head = html@;
    assert(head =~= "<!doctype html>\n<html>\n  <head>\n"@ + spec_theme_style_block(theme_view(theme)) + canvas_style());
    let mut i: usize = 0;
    assert(es.take(0) =~= Seq::<crate::model::ElementV>::empty());
    while i < slide.elements.len()
        invariant
            i <= slide.elements@.len(),
            es == slide@,
            es.len() == slide.elements@.len(),
            html@ == head + images_html(slide_images(es.take(i as int))),
        decreases slide.elements@.len() - i,
    {
        assert(es.take(i + 1).drop_last() =~= es.take(i as int));
        assert(es.take(i + 1).last() == slide.elements@[i as int]@);
        match &slide.elements[i] {
            IlmElement::Image(img) => {
                let ghost prev = slide_images(es.take(i as int));
                assert(slide_images(es.take(i + 1)) == prev.push(img@));
                assert(prev.push(img@).drop_last() =~= prev);
                let ghost h0 = html@;
                push_str(&mut html, "    <img class=\"ilm-image\" src=\"");
                let uri = html_escape(img.uri.as_str());
                push_str(&mut html, uri.as_str());
                push_str(&mut html, "\" style=\"");
                push_box_style(&mut html, img.x, img.y, img.cx, img.cy);
                push_str(&mut html, "\"/>\n");
                assert(html@ =~= h0 + image_html(img@));
                assert(html@ =~= head + images_html(slide_images(es.take(i + 1))));
            },
            _ => {},
        }
        i = i + 1;
    }
    assert(es.take(i as int) =~= es);
    let ghost mid = html@;
    let mut k: usize = 0;
    assert(es.take(0) =~= Seq::<crate::model::ElementV>::empty());
    while k < slide.elements.len()
        invariant
            k <= slide.elements@.len(),
            es == slide@,
            es.len() == slide.elements@.len(),
            html@ == mid + texts_html(slide_texts(es.take(k as int))),
        decreases slide.elements@.len() - k,
    {
        assert(es.take(k + 1).drop_last() =~= es.take(k as int));
        assert(es.take(k + 1).last() == slide.elements@[k as int]@);
        match &slide.elements[k] {
            IlmElement::Text(run) => {
                let ghost prev = slide_texts(es.take(k as int));
                assert(slide_texts(es.take(k + 1)) == prev.push(run@));
                assert(prev.push(run@).drop_last() =~= prev);
                let ghost h0 = html@;
                push_text_html(&mut html, run);
                assert(html@ =~= h0 + text_html(run@));
                assert(html@ =~= mid + texts_html(slide_texts(es.take(k + 1))));
            },
            _ => {},
        }
        k = k + 1;
    }
    assert(es.take(k as int) =~= es);
    push_str(&mut html, "  </body>\n</html>\n");
    assert(html@ =~= spec_slide_html(slide@, theme_view(theme)));
    html
}

} // verus!
