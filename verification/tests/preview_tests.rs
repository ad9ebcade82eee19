use render_slides::html_preview::render_preview_html;
use render_slides::ilm_html::build_single_slide_html_from_ilm;
use render_slides::json::{JsonEntry, JsonValue};
use render_slides::layout_map::{ilm_slide_from_ir, ElementMetrics};

fn text(s: &str) -> JsonValue {
    JsonValue::String(s.to_string())
}

fn object(members: Vec<(&str, JsonValue)>) -> JsonValue {
    JsonValue::Object(
        members
            .into_iter()
            .map(|(k, v)| JsonEntry { key: k.to_string(), value: v })
            .collect(),
    )
}

fn metrics(n: usize) -> Vec<ElementMetrics> {
    (0..n)
        .map(|i| ElementMetrics {
            x: 1300480,
            y: 2194560 + (i as i64) * 1828800,
            cx: 10403840,
            cy: 1463040,
            font_size_pt: 40,
        })
        .collect()
}

#[test]
fn render_preview_html_renders_template_slot_values() {
    let ir_json = r#"{
        "slides": [{
            "layout": "title_body",
            "slots": {
                "title": "Roadmap",
                "body": "Phase 1"
            }
        }]
    }"#;

    let html = render_preview_html(ir_json).expect("html preview should render");
    assert!(html.contains("layout-title-body"));
    assert!(html.contains(">Roadmap<"));
    assert!(html.contains(">Phase 1<"));
}

#[test]
fn render_preview_html_escapes_slot_html() {
    let ir_json = r#"{
        "slides": [{
            "layout": "title_body",
            "slots": {
                "title": "<script>alert(1)</script>",
                "body": "safe"
            }
        }]
    }"#;

    let html = render_preview_html(ir_json).expect("html preview should render");
    assert!(html.contains("&lt;script&gt;alert(1)&lt;/script&gt;"));
    assert!(!html.contains("<script>alert(1)</script>"));
}

#[test]
fn ilm_single_slide_html_resets_body_padding_for_geometry_parity() {
    let slide = ilm_slide_from_ir(
        &object(vec![
            ("layout", text("title")),
            (
                "slots",
                object(vec![("title", text("Quarterly Update")), ("subtitle", text("FY26"))]),
            ),
        ]),
        &metrics(2),
    )
    .expect("ilm slide");

    let html = build_single_slide_html_from_ilm(&slide, None);
    assert!(html.contains("body { margin: 0; padding: 0;"));
}
