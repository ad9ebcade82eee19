use std::io::{Cursor, Read};

use render_slides::json::{JsonEntry, JsonValue};
use render_slides::layout_map::{ilm_slide_from_ir, ElementMetrics};
use render_slides::pptx::build_pptx_bytes;
use zip::ZipArchive;

fn text(s: &str) -> JsonValue {
    JsonValue::String(s.to_string())
}

fn object(members: Vec<(&str, JsonValue)>) -> JsonValue {
    JsonValue::Object(
        members
            .into_iter()
            .map(|(k, v)| JsonEntry { key: k.to_string(), value: v })
            .collect(),
    )
}

#[test]
fn build_pptx_bytes_emits_openxml_package_entries() {
    let slide = object(vec![
        ("layout", text("title_body")),
        ("slots", object(vec![("title", text("Roadmap")), ("body", text("Phase 1\nPhase 2"))])),
    ]);
    let metrics = vec![
        ElementMetrics { x: 650240, y: 365760, cx: 11704320, cy: 1097280, font_size_pt: 40 },
        ElementMetrics { x: 650240, y: 1828800, cx: 11704320, cy: 4754880, font_size_pt: 28 },
    ];
    let ilm = ilm_slide_from_ir(&slide, &metrics).expect("ilm slide");
    let bytes = build_pptx_bytes(&vec![ilm]).expect("pptx should build");
    let mut archive = ZipArchive::new(Cursor::new(bytes)).expect("valid zip");
    assert!(archive.by_name("[Content_Types].xml").is_ok());
    assert!(archive.by_name("ppt/presentation.xml").is_ok());

    let mut slide_xml = String::new();
    archive
        .by_name("ppt/slides/slide1.xml")
        .expect("slide present")
        .read_to_string(&mut slide_xml)
        .expect("slide xml readable");
    assert!(slide_xml.contains("Roadmap"));
    assert!(slide_xml.contains("Phase 1"));
}
