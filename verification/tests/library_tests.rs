use render_slides::expr::{lex_expression, Lexer, Token};
use render_slides::html_preview::{html_escape, normalize_slot_text, render_preview_html};
use render_slides::ilm_html::build_single_slide_html_from_ilm;
use render_slides::json::{JsonEntry, JsonNumber, JsonValue};
use render_slides::layout_map::{ilm_slide_from_ir, resolve_ilm_slides, ElementMetrics};
use render_slides::markdown::{parse_markdown, RichBlock};
use render_slides::model::{IlmElement, ImageScaling, TextAlignment};
use render_slides::operations::{explain_operation, get_examples, list_paths, supports_path};
use render_slides::patch::{apply_single_tweak, apply_tweaks, parse_slide_id_from_path, read_ir_document, TweakRequest};
use render_slides::pptx::{detect_image_extension, xml_escape};
use render_slides::schema::{
    check_ir_schema, describe_layouts, describe_tweaks, format_validation_error, parse_ir,
    validate_layout_required_slots, SchemaViolation, ViolationKind,
};
use render_slides::templating::{collect_slot_names, template_registry};
use render_slides::theme::{default_theme_tokens, render_theme_style_block, resolve_theme_token_overrides};
use render_slides::transport::{
    download_outcome, png_file_name, resolve_local_path, scheme, sink_target, sink_uri, upload_step, Endpoint,
    HttpSinkState, SinkTarget, TransportError, TransportRouter, UploadAction, UploadStage,
};

fn text(s: &str) -> JsonValue {
    JsonValue::String(s.to_string())
}

fn num(n: i64) -> JsonValue {
    JsonValue::Number(JsonNumber { as_int: Some(n), repr: n.to_string() })
}

fn object(members: Vec<(&str, JsonValue)>) -> JsonValue {
    JsonValue::Object(
        members
            .into_iter()
            .map(|(k, v)| JsonEntry { key: k.to_string(), value: v })
            .collect(),
    )
}

fn entries(v: &JsonValue) -> Vec<JsonEntry> {
    match v {
        JsonValue::Object(m) => m.iter().map(|e| JsonEntry { key: e.key.clone(), value: copy(&e.value) }).collect(),
        _ => panic!("not an object"),
    }
}

fn copy(v: &JsonValue) -> JsonValue {
    match v {
        JsonValue::Null => JsonValue::Null,
        JsonValue::Bool(b) => JsonValue::Bool(*b),
        JsonValue::Number(n) => JsonValue::Number(JsonNumber { as_int: n.as_int, repr: n.repr.clone() }),
        JsonValue::String(s) => JsonValue::String(s.clone()),
        JsonValue::Array(a) => JsonValue::Array(a.iter().map(copy).collect()),
        JsonValue::Object(_) => JsonValue::Object(entries(v)),
    }
}

fn get<'a>(v: &'a JsonValue, path: &[&str]) -> Option<&'a JsonValue> {
    let mut cur = v;
    for key in path {
        cur = cur.get(key)?;
    }
    Some(cur)
}

fn str_at<'a>(v: &'a JsonValue, path: &[&str]) -> Option<&'a str> {
    match get(v, path) {
        Some(JsonValue::String(s)) => Some(s.as_str()),
        _ => None,
    }
}

fn slides(v: &JsonValue) -> &Vec<JsonValue> {
    match v.get("slides") {
        Some(JsonValue::Array(a)) => a,
        _ => panic!("no slides"),
    }
}

fn deck(slides: Vec<JsonValue>) -> JsonValue {
    object(vec![("slides", JsonValue::Array(slides))])
}

fn tweak(path: Option<&str>, operation: &str, params: Vec<(&str, JsonValue)>) -> TweakRequest {
    TweakRequest {
        path: path.map(|p| p.to_string()),
        operation: operation.to_string(),
        params: params
            .into_iter()
            .map(|(k, v)| JsonEntry { key: k.to_string(), value: v })
            .collect(),
    }
}

fn token_text(t: &Token) -> String {
    match t {
        Token::Number(s) => format!("num:{s}"),
        Token::Unit(s) => format!("unit:{s}"),
        Token::Var(s) => format!("var:{s}"),
        Token::Plus => "+".to_string(),
        Token::Minus => "-".to_string(),
        Token::Star => "*".to_string(),
        Token::Slash => "/".to_string(),
        Token::LParen => "(".to_string(),
        Token::RParen => ")".to_string(),
    }
}

fn metrics(n: usize) -> Vec<ElementMetrics> {
    (0..n)
        .map(|i| ElementMetrics { x: 1300480, y: 952500 * (i as i64 + 1), cx: 95250, cy: 190500, font_size_pt: 24 })
        .collect()
}

fn paragraph_text(b: &RichBlock) -> String {
    match b {
        RichBlock::Paragraph(p) => p.runs.iter().map(|r| r.text.as_str()).collect::<Vec<_>>().join(""),
        RichBlock::Table(_) => String::new(),
    }
}

#[test]
fn escaping_leaves_no_markup_characters() {
    let escaped = html_escape("<a href='x'>\"&");
    assert_eq!(escaped, "&lt;a href=&#39;x&#39;&gt;&quot;&amp;");
    assert!(!escaped.contains('<') && !escaped.contains('>') && !escaped.contains('"') && !escaped.contains('\''));
}

#[test]
fn escaping_keeps_plain_text() {
    assert_eq!(html_escape("Phase 1, done."), "Phase 1, done.");
    assert_eq!(xml_escape("a<b"), "a&lt;b");
}

#[test]
fn theme_defaults_without_theme() {
    let defaults = default_theme_tokens();
    assert_eq!(defaults.len(), 9);
    assert_eq!(defaults[0], ("color-bg", "#ffffff"));
    assert_eq!(defaults[8], ("space-slide-padding", "48px"));
    let resolved = resolve_theme_token_overrides(None);
    let expected: Vec<(String, String)> =
        defaults.iter().map(|(k, v)| (k.to_string(), v.to_string())).collect();
    assert_eq!(resolved, expected);
}

#[test]
fn theme_nested_key_wins_over_flat_key() {
    let theme = entries(&object(vec![
        ("color_bg", text("#000000")),
        ("colors", object(vec![("background", text("#123456"))])),
        ("font_size_body", text("30px")),
        ("color_text_muted", num(3)),
    ]));
    let resolved = resolve_theme_token_overrides(Some(&theme));
    assert_eq!(resolved[0], ("color-bg".to_string(), "#123456".to_string()));
    assert_eq!(resolved[1], ("color-text-muted".to_string(), "#4f4f4f".to_string()));
    assert_eq!(resolved[4], ("font-size-body".to_string(), "30px".to_string()));
}

#[test]
fn theme_style_block_declares_escaped_tokens() {
    let css = render_theme_style_block(None);
    assert!(css.starts_with("    <style>\n      :root {\n        --rs-color-bg: #ffffff;\n"));
    assert!(css.contains("        --rs-font-family-base: &#39;Inter&#39;, &#39;Segoe UI&#39;, sans-serif;\n"));
    assert!(css.ends_with("        font-family: var(--rs-font-family-base);\n      }\n    </style>\n"));
}

#[test]
fn decrease_stops_at_ten() {
    let root = deck(vec![object(vec![
        ("id", text("s1")),
        ("layout", text("title_body")),
        ("style", object(vec![("body", object(vec![("font_size", num(24))]))])),
    ])]);
    let out = apply_single_tweak(
        root,
        &tweak(Some("slides[id=s1].style.body.font_size"), "decrease", vec![("step", num(100))]),
        0,
    )
    .expect("decrease applies");
    match get(&slides(&out)[0], &["style", "body", "font_size"]) {
        Some(JsonValue::Number(n)) => {
            assert_eq!(n.as_int, Some(10));
            assert_eq!(n.repr, "10");
        },
        _ => panic!("font size missing"),
    }
}

fn font_size_after_set(size: i64) -> Option<i64> {
    let root = deck(vec![object(vec![("id", text("s1")), ("layout", text("title_body"))])]);
    let out = apply_single_tweak(
        root,
        &tweak(Some("slides[id=s1].style.body.font_size"), "set_font_size", vec![("size", num(size))]),
        0,
    )
    .expect("set_font_size applies");
    match get(&slides(&out)[0], &["style", "body", "font_size"]) {
        Some(JsonValue::Number(n)) => n.as_int,
        _ => None,
    }
}

#[test]
fn set_font_size_keeps_sizes_between_ten_and_seventy_two() {
    assert_eq!(font_size_after_set(30), Some(30));
    assert_eq!(font_size_after_set(10), Some(10));
    assert_eq!(font_size_after_set(72), Some(72));
    assert_eq!(font_size_after_set(100), Some(72));
    assert_eq!(font_size_after_set(3), Some(10));
}

#[test]
fn increase_starts_from_default_size() {
    let root = deck(vec![object(vec![("id", text("s1")), ("layout", text("title_body"))])]);
    let out = apply_single_tweak(
        root,
        &tweak(Some("slides[id=s1].style.body.font_size"), "increase", vec![("step", num(2))]),
        0,
    )
    .expect("increase applies");
    match get(&slides(&out)[0], &["style", "body", "font_size"]) {
        Some(JsonValue::Number(n)) => assert_eq!(n.as_int, Some(26)),
        _ => panic!("font size missing"),
    }
}

#[test]
fn set_text_reads_back() {
    let root = deck(vec![
        object(vec![("id", text("a")), ("layout", text("title")), ("slots", object(vec![("title", text("Old"))]))]),
        object(vec![("id", text("b")), ("layout", text("title"))]),
    ]);
    let out = apply_single_tweak(
        root,
        &tweak(Some("slides[id=b].slots.title"), "set_text", vec![("text", text("New title"))]),
        0,
    )
    .expect("set_text applies");
    assert_eq!(slides(&out).len(), 2);
    assert_eq!(str_at(&slides(&out)[1], &["slots", "title"]), Some("New title"));
    assert_eq!(str_at(&slides(&out)[0], &["slots", "title"]), Some("Old"));
}

#[test]
fn add_remove_and_reorder_slides() {
    let root = deck(vec![
        object(vec![("id", text("a")), ("layout", text("title"))]),
        object(vec![("id", text("b")), ("layout", text("title"))]),
    ]);
    let tweaks = vec![
        tweak(None, "add_slide", vec![("layout", text("quote"))]),
        tweak(None, "reorder_slide", vec![("id", text("slide_1234")), ("to_index", num(0))]),
        tweak(None, "remove_slide", vec![("id", text("a"))]),
    ];
    let out = apply_tweaks(root, &tweaks, 1234).expect("tweaks apply");
    let s = slides(&out);
    assert_eq!(s.len(), 2);
    assert_eq!(str_at(&s[0], &["id"]), Some("slide_1234"));
    assert_eq!(str_at(&s[0], &["layout"]), Some("quote"));
    assert!(matches!(get(&s[0], &["slots"]), Some(JsonValue::Object(m)) if m.is_empty()));
    assert_eq!(str_at(&s[1], &["id"]), Some("b"));
}

#[test]
fn tweak_errors_name_the_problem() {
    let root = deck(vec![object(vec![("id", text("a"))])]);
    let err = apply_single_tweak(copy(&root), &tweak(None, "set_text", vec![]), 0).err();
    assert_eq!(err, Some("Operation 'set_text' requires a 'path'".to_string()));
    let err = apply_single_tweak(
        copy(&root),
        &tweak(Some("slides[id=zz].slots.title"), "set_text", vec![("text", text("x"))]),
        0,
    )
    .err();
    assert_eq!(err, Some("Slide 'zz' not found".to_string()));
    let err = apply_single_tweak(
        copy(&root),
        &tweak(None, "reorder_slide", vec![("id", text("a")), ("to_index", num(5))]),
        0,
    )
    .err();
    assert_eq!(err, Some("to_index 5 out of bounds".to_string()));
    let err = apply_single_tweak(copy(&root), &tweak(Some("slides[id=a].slots.title"), "fly", vec![]), 0).err();
    assert_eq!(err, Some("Unknown path operation: fly".to_string()));
    assert_eq!(parse_slide_id_from_path("slides[0].x"), Err("Path must start with slides[id=".to_string()));
    assert_eq!(
        parse_slide_id_from_path("slides[id=k9].slots.body"),
        Ok(("k9".to_string(), "slots.body".to_string()))
    );
}

#[test]
fn reading_a_document_reports_bad_json() {
    let err = read_ir_document("{").err().expect("bad json is refused");
    assert!(err.starts_with("Invalid IR JSON: "));
    let doc = read_ir_document("{\"slides\": [1]}").expect("json reads");
    assert_eq!(slides(&doc).len(), 1);
}

#[test]
fn missing_slot_message_lists_sorted_slots() {
    let doc = deck(vec![
        object(vec![("layout", text("title")), ("slots", object(vec![("title", text("x")), ("subtitle", text("y"))]))]),
        object(vec![
            ("layout", text("title_body")),
            ("slots", object(vec![("zeta", text("z")), ("alpha", text("a")), ("title", text("t"))])),
        ]),
    ]);
    assert_eq!(
        validate_layout_required_slots(&doc),
        Err("ValidationError: missing required slot 'body' for layout 'title_body' at $.slides[1].slots. expected_required=[\"title\", \"body\"]; optional=[\"subtitle\"]; provided=[\"alpha\", \"title\", \"zeta\"]; suggested_fix=\"Add slots.body as a string value.\".".to_string())
    );
}

#[test]
fn unknown_layouts_are_not_slot_checked() {
    let doc = deck(vec![object(vec![("layout", text("hero")), ("slots", object(vec![]))])]);
    assert_eq!(validate_layout_required_slots(&doc), Ok(()));
}

#[test]
fn schema_violations_are_formatted() {
    let required = SchemaViolation { instance_path: String::new(), kind: ViolationKind::Required("\"slides\"".to_string()) };
    assert_eq!(format_validation_error(&required), "ValidationError: missing required field '\"slides\"' at $.");
    let wrong_type = SchemaViolation { instance_path: "/slides".to_string(), kind: ViolationKind::Type("Single(Array)".to_string()) };
    assert_eq!(format_validation_error(&wrong_type), "ValidationError: expected type Single(Array) at $./slides.");
    let enumeration = SchemaViolation { instance_path: "/x".to_string(), kind: ViolationKind::Enum };
    assert_eq!(
        format_validation_error(&enumeration),
        "ValidationError: value must be one of the allowed enum values at $./x."
    );
    let other = SchemaViolation { instance_path: String::new(), kind: ViolationKind::Other("too long".to_string()) };
    assert_eq!(format_validation_error(&other), "ValidationError: too long at $.");
}

#[test]
fn parse_ir_reports_invalid_json_and_schema_errors() {
    let err = parse_ir("{").err().expect("bad json is refused");
    assert!(err.starts_with("Invalid JSON: "));
    let err = parse_ir("{\"slides\": 3}").err().expect("bad shape is refused");
    assert_eq!(err, "ValidationError: expected type Single(Array) at $./slides.");
    assert!(parse_ir("{\"slides\": []}").is_ok());
}

#[test]
fn described_layouts_carry_the_enforced_slots() {
    let summary = describe_layouts();
    assert_eq!(summary.version, "0.1");
    let names: Vec<&str> = summary.slide_layouts.iter().map(|l| l.name).collect();
    assert_eq!(names, vec!["comparison", "image_focus", "quote", "section", "title", "title_body", "two_column"]);
    let comparison = &summary.slide_layouts[0];
    assert_eq!(comparison.required_slots, vec!["title", "left", "right"]);
    assert_eq!(comparison.optional_slots, vec!["subtitle"]);
    let quote = &summary.slide_layouts[2];
    assert_eq!(quote.required_slots, vec!["quote", "attribution"]);
    assert!(quote.optional_slots.is_empty());
}

#[test]
fn tweaks_for_a_quote_slide() {
    let ir = "{\"slides\":[{\"id\":\"s1\",\"layout\":\"quote\",\"slots\":{\"quote\":\"q\",\"attribution\":\"a\"}},{\"id\":\"s1\",\"layout\":\"quote\",\"slots\":{\"quote\":\"q\",\"attribution\":\"a\"}}]}";
    let t = describe_tweaks(ir).expect("tweaks");
    let qual: Vec<(String, &str)> =
        t.qualitative_tweaks.iter().map(|o| (o.path.clone().unwrap(), o.name)).collect();
    assert_eq!(
        qual,
        vec![
            ("slides[id=s1].layout".to_string(), "set_layout"),
            ("slides[id=s1].style.alignment".to_string(), "set_alignment"),
        ]
    );
    let quant: Vec<(String, &str)> =
        t.quantitative_tweaks.iter().map(|o| (o.path.clone().unwrap(), o.name)).collect();
    assert_eq!(
        quant,
        vec![
            ("slides[id=s1].slots.quote".to_string(), "set_text"),
            ("slides[id=s1].slots.attribution".to_string(), "set_text"),
        ]
    );
    let structural: Vec<&str> = t.structural_operations.iter().map(|o| o.name).collect();
    assert_eq!(structural, vec!["add_slide", "remove_slide", "reorder_slide"]);
}

#[test]
fn body_font_size_tweaks_for_title_body_slides() {
    let ir = "{\"slides\":[{\"id\":\"x\",\"layout\":\"title_body\",\"slots\":{\"title\":\"t\",\"body\":\"b\"}}]}";
    let t = describe_tweaks(ir).expect("tweaks");
    let qual: Vec<&str> = t.qualitative_tweaks.iter().map(|o| o.name).collect();
    assert_eq!(qual, vec!["set_layout", "set_alignment", "increase", "decrease"]);
    let quant: Vec<&str> = t.quantitative_tweaks.iter().map(|o| o.name).collect();
    assert_eq!(quant, vec!["set_text", "set_text", "set_font_size"]);
}

#[test]
fn path_listing_binds_slide_index() {
    let wild = list_paths(None);
    assert_eq!(wild.len(), 12);
    assert_eq!(wild[0], "slides[*].layout");
    let bound = list_paths(Some(3));
    assert_eq!(bound[0], "slides[3].layout");
    assert_eq!(bound[11], "slides[3].style.body.font_size");
    assert!(supports_path("slides[*].slots.caption"));
    assert!(!supports_path("slides[3].layout"));
}

#[test]
fn explanations_and_examples() {
    let e = explain_operation("slides[*].slots.title", "set_text").ok().expect("explained");
    assert_eq!(e.semantics, "Replaces text content for the selected slot.");
    assert_eq!(e.constraints, vec!["text length must be <= 2000 characters"]);
    assert_eq!(e.side_effects.len(), 2);
    assert_eq!(
        explain_operation("slides[*].slots.title", "fly").err(),
        Some("Unsupported operation 'fly' for path 'slides[*].slots.title'".to_string())
    );
    assert_eq!(explain_operation("nope", "set_text").err(), Some("Unsupported editable path: nope".to_string()));
    let ex = get_examples("slides[*].style.body.font_size", "increase").ok().expect("examples");
    assert_eq!(ex.len(), 1);
    assert!(ex[0].request.contains("\"op\":\"increase\""));
    assert_eq!(
        get_examples("slides[*].style.body.font_size", "set_font_size").err(),
        Some("Unsupported operation 'set_font_size' for path 'slides[*].style.body.font_size'".to_string())
    );
}

#[test]
fn slot_names_are_collected_sorted_and_once() {
    assert_eq!(
        collect_slot_names("<p data-slot=\"b\"></p><p data-slot=\"a\"></p><p data-slot=\"b\">"),
        vec!["a".to_string(), "b".to_string()]
    );
    assert!(collect_slot_names("<p data-slot=\"open").is_empty());
    let registry = template_registry();
    assert_eq!(registry.len(), 7);
    let (name, t) = &registry[5];
    assert_eq!(*name, "title_body");
    assert_eq!(t.slot_names, vec!["body".to_string(), "title".to_string()]);
}

#[test]
fn lexer_reads_lengths() {
    let (tokens, has_units) = lex_expression("5% + $gutter*2px");
    let texts: Vec<String> = tokens.iter().map(token_text).collect();
    assert_eq!(texts, vec!["num:5", "unit:%", "+", "var:gutter", "*", "num:2", "unit:px"]);
    assert!(has_units);
    let (tokens, has_units) = lex_expression("(12 / 3.5) - #1");
    let texts: Vec<String> = tokens.iter().map(token_text).collect();
    assert_eq!(texts, vec!["(", "num:12", "/", "num:3.5", ")", "-", "num:1"]);
    assert!(!has_units);
    let mut lexer = Lexer::new("   ");
    assert!(lexer.next_token().is_none());
}

#[test]
fn image_slots_become_images() {
    let slide = object(vec![
        ("layout", text("image_focus")),
        (
            "slots",
            object(vec![
                ("title", text("T")),
                ("image", object(vec![("image_data", text("aGVsbG8="))])),
                ("caption", object(vec![("image_data", text("!!!"))])),
            ]),
        ),
        ("style", object(vec![("alignment", text("center"))])),
    ]);
    let ilm = ilm_slide_from_ir(&slide, &metrics(3)).expect("ilm slide");
    assert_eq!(ilm.elements.len(), 3);
    match &ilm.elements[0] {
        IlmElement::Text(t) => {
            assert_eq!(t.alignment, TextAlignment::Center);
            assert!(t.bold);
            assert_eq!(t.font_size_pt, 24);
        },
        _ => panic!("title should be text"),
    }
    match &ilm.elements[1] {
        IlmElement::Image(i) => {
            assert_eq!(i.image_data, b"hello".to_vec());
            assert_eq!(i.uri, "inline_image.png");
            assert_eq!(i.scaling, ImageScaling::Contain);
            assert_eq!(i.y, 1905000);
        },
        _ => panic!("image slot should be an image"),
    }
    match &ilm.elements[2] {
        IlmElement::Image(i) => assert!(i.image_data.is_empty()),
        _ => panic!("caption slot with image data should be an image"),
    }
}

#[test]
fn quote_attribution_gets_a_dash_and_numbers_become_text() {
    let slide = object(vec![
        ("layout", text("quote")),
        ("slots", object(vec![("quote", num(42)), ("attribution", text("Ann"))])),
    ]);
    let ilm = ilm_slide_from_ir(&slide, &metrics(2)).expect("ilm slide");
    match (&ilm.elements[0], &ilm.elements[1]) {
        (IlmElement::Text(q), IlmElement::Text(a)) => {
            assert_eq!(paragraph_text(&q.blocks[0]), "42");
            assert_eq!(paragraph_text(&a.blocks[0]), "— Ann");
            assert_eq!(q.alignment, TextAlignment::Left);
        },
        _ => panic!("quote slides hold text"),
    }
    assert!(ilm_slide_from_ir(&object(vec![("layout", text("hero")), ("slots", object(vec![]))]), &vec![]).is_none());
}

#[test]
fn resolving_a_deck_needs_known_layouts() {
    let good = deck(vec![object(vec![("layout", text("section")), ("slots", object(vec![]))])]);
    assert_eq!(resolve_ilm_slides(&good, &vec![metrics(2)]).ok().map(|v| v.len()), Some(1));
    let bad = deck(vec![object(vec![("layout", text("hero")), ("slots", object(vec![]))])]);
    assert_eq!(
        resolve_ilm_slides(&bad, &vec![vec![]]).err(),
        Some("RenderError: failed to resolve one or more slide layouts for ILM emission.".to_string())
    );
}

#[test]
fn slide_page_places_elements_in_pixels() {
    let slide = object(vec![
        ("layout", text("title_body")),
        ("slots", object(vec![("title", text("A & B")), ("body", text("one\n\ntwo"))])),
    ]);
    let ilm = ilm_slide_from_ir(&slide, &metrics(2)).expect("ilm slide");
    let html = build_single_slide_html_from_ilm(&ilm, None);
    assert!(html.contains(
        "    <div class=\"ilm-text\" style=\"left:136px;top:100px;width:10px;height:20px;font-size:24pt;font-weight:700;\">A &amp; B</div>\n"
    ));
    assert!(html.contains("font-weight:400;\">one<br/>two</div>"));
    assert!(html.ends_with("  </body>\n</html>\n"));
}

#[test]
fn markdown_runs_keep_their_formatting() {
    let blocks = parse_markdown("**Bold** and *it*");
    assert_eq!(blocks.len(), 1);
    match &blocks[0] {
        RichBlock::Paragraph(p) => {
            assert_eq!(p.runs.len(), 3);
            assert_eq!(p.runs[0].text, "Bold");
            assert!(p.runs[0].bold && !p.runs[0].italic);
            assert_eq!(p.runs[1].text, " and ");
            assert!(!p.runs[1].bold);
            assert_eq!(p.runs[2].text, "it");
            assert!(p.runs[2].italic);
        },
        _ => panic!("expected a paragraph"),
    }
}

#[test]
fn preview_reports_unregistered_layouts() {
    let err = render_preview_html("{\"slides\":[{\"layout\":\"hero\",\"slots\":{}}]}").err();
    assert_eq!(err, Some("RenderError: no template registered for layout 'hero'".to_string()));
    let err = render_preview_html("{\"slides\":[{\"layout\":\"title\"}]}").err();
    assert_eq!(err, Some("ValidationError: missing slots at $.slides[0].slots.".to_string()));
}

#[test]
fn preview_joins_list_slots_by_lines() {
    let value = JsonValue::Array(vec![text("a"), num(1), text("b")]);
    assert_eq!(normalize_slot_text(Some(&value)), "a\n\nb");
    assert_eq!(normalize_slot_text(None), "");
    let html = render_preview_html(
        "{\"slides\":[{\"layout\":\"title\",\"slots\":{\"title\":[\"x\",\"y\"],\"subtitle\":\"s\"}}],\"theme\":{\"colors\":{\"background\":\"#000\"}}}",
    )
    .expect("preview");
    assert!(html.contains("<h1 data-slot=\"title\">x\ny</h1>"));
    assert!(html.contains("--rs-color-bg: #000;"));
    assert!(html.starts_with("<!doctype html>\n<html>\n  <head>\n    <style>\n"));
}

#[test]
fn image_extensions_by_name_then_bytes() {
    assert_eq!(detect_image_extension("photo.JPG", &[]), "jpg");
    assert_eq!(detect_image_extension("x", &[0x89, 0x50, 0x4e, 0x47]), "png");
}

#[test]
fn routing_by_scheme() {
    let router = TransportRouter::new();
    assert!(matches!(router.open_read("/tmp/a"), Ok(Endpoint::Local(p)) if p == "/tmp/a"));
    assert!(matches!(router.open_write("file:///tmp/data.bin"), Ok(Endpoint::Local(p)) if p == "/tmp/data.bin"));
    assert!(matches!(router.open_write("https://example.com/up"), Ok(Endpoint::Http(u)) if u == "https://example.com/up"));
    assert!(matches!(scheme("file:///x"), Ok(s) if s == "file"));
    assert!(matches!(scheme("relative/x"), Ok(s) if s.is_empty()));
    assert!(matches!(scheme("ht!tp://x"), Err(TransportError::InvalidUri(u)) if u == "ht!tp://x"));
    assert!(matches!(resolve_local_path("relative/x"), Ok(p) if p == "relative/x"));
    let status = TransportError::HttpStatus { method: "PUT/POST", uri: "http://h".to_string(), status: 500 };
    assert_eq!(status.message(), "HTTP PUT/POST http://h failed with status 500");
    assert_eq!(TransportError::UnsupportedScheme("s3".to_string()).message(), "Unsupported URI scheme: s3");
}

#[test]
fn sink_addresses_for_slide_images() {
    assert_eq!(png_file_name(0), "slide-001.png");
    assert_eq!(png_file_name(41), "slide-042.png");
    assert_eq!(png_file_name(999), "slide-1000.png");
    let local = sink_target("./out").ok().expect("local target");
    assert!(matches!(&local, SinkTarget::LocalDirectory(d) if d == "./out"));
    assert_eq!(sink_uri(&local, "slide-001.png"), Ok("./out/slide-001.png".to_string()));
    let remote = sink_target("https://example.com/deck").ok().expect("remote target");
    assert_eq!(sink_uri(&remote, "slide-001.png"), Ok("https://example.com/deck/slide-001.png".to_string()));
    let file = sink_target("file:///tmp/out").ok().expect("file target");
    assert!(matches!(&file, SinkTarget::FileDirectory(d) if d == "/tmp/out"));
    assert_eq!(sink_uri(&file, "slide-002.png"), Ok("file:///tmp/out/slide-002.png".to_string()));
    assert_eq!(
        sink_target("ftp://example.com/x").err(),
        Some("Unsupported output target scheme for PNG rendering: ftp".to_string())
    );
}

#[test]
fn every_editable_path_has_operations() {
    for path in render_slides::templating::all_editable_paths() {
        let ops = render_slides::operations::operation_specs_for(path).expect("operations for editable path");
        assert!(!ops.is_empty());
        assert!(ops.iter().all(|o| o.path.is_none()));
    }
}

#[test]
fn described_required_slots_are_enforced() {
    for layout in describe_layouts().slide_layouts {
        let all: Vec<(&str, JsonValue)> = layout.required_slots.iter().map(|s| (*s, text("x"))).collect();
        let complete = deck(vec![object(vec![("layout", text(layout.name)), ("slots", object(all))])]);
        assert_eq!(validate_layout_required_slots(&complete), Ok(()));
        let missing: Vec<(&str, JsonValue)> =
            layout.required_slots.iter().skip(1).map(|s| (*s, text("x"))).collect();
        let incomplete = deck(vec![object(vec![("layout", text(layout.name)), ("slots", object(missing))])]);
        let err = validate_layout_required_slots(&incomplete).err().expect("missing slot refused");
        assert!(err.contains(&format!("missing required slot '{}'", layout.required_slots[0])));
    }
}

#[test]
fn http_sink_refuses_writes_after_upload() {
    let mut sink = HttpSinkState::new();
    assert!(sink.write(b"pay"));
    assert!(sink.write(b"load"));
    assert_eq!(sink.buffer, b"payload".to_vec());
    assert!(sink.needs_upload());
    sink.mark_uploaded();
    assert!(!sink.needs_upload());
    assert!(!sink.write(b"extra"));
    assert_eq!(sink.buffer, b"payload".to_vec());
}

#[test]
fn uploads_fall_back_to_post_then_fail() {
    assert!(matches!(upload_step("http://h", UploadStage::Put, true, 200), UploadAction::Finish));
    assert!(matches!(upload_step("http://h", UploadStage::Put, false, 500), UploadAction::SendPost));
    match upload_step("http://h", UploadStage::Post, false, 500) {
        UploadAction::Fail(e) => assert_eq!(e.message(), "HTTP PUT/POST http://h failed with status 500"),
        _ => panic!("a failed post fails the upload"),
    }
    assert!(download_outcome("http://h/x", true, 200).is_ok());
    match download_outcome("http://h/x", false, 404) {
        Err(e) => assert_eq!(e.message(), "HTTP GET http://h/x failed with status 404"),
        Ok(()) => panic!("a failed get is an error"),
    }
}

#[test]
fn ir_schema_check_reports_first_violation() {
    match check_ir_schema(&object(vec![])) {
        Ok(Some(v)) => {
            assert_eq!(v.instance_path, "");
            match v.kind {
                ViolationKind::Required(p) => assert_eq!(p, "\"slides\""),
                _ => panic!("expected a missing required member"),
            }
        },
        _ => panic!("expected a violation"),
    }
    let ok = object(vec![("slides", JsonValue::Array(vec![]))]);
    assert!(matches!(check_ir_schema(&ok), Ok(None)));
}

#[test]
fn slide_paths_round_trip() {
    for (id, rest) in [("s1", "slots.title"), ("a.b", "style.body.font_size"), ("", "layout")] {
        let path = format!("slides[id={id}].{rest}");
        assert_eq!(parse_slide_id_from_path(&path), Ok((id.to_string(), rest.to_string())));
    }
    assert!(parse_slide_id_from_path("slides[0].style").is_err());
    assert!(parse_slide_id_from_path("slides[id=s1]").is_err());
    assert!(parse_slide_id_from_path("slides[id=s1].").is_err());
}

#[test]
fn path_support_agrees_with_listing_and_operations() {
    let listed = render_slides::operations::all_editable_paths();
    for path in ["slides[*].layout", "slides[*].slots.title", "slides[*].slots.unknown", "slides[3].layout"] {
        let supported = supports_path(path);
        assert_eq!(supported, listed.contains(&path));
        assert_eq!(supported, render_slides::operations::operation_specs_for(path).is_some());
    }
}

#[test]
fn validation_enforces_described_required_slots() {
    let layouts = describe_layouts();
    let title_body = layouts.slide_layouts.iter().find(|l| l.name == "title_body").expect("title_body is described");
    assert_eq!(title_body.required_slots, vec!["title", "body"]);
    assert!(parse_ir("{\"slides\":[{\"layout\":\"title_body\",\"slots\":{\"title\":\"t\",\"body\":\"b\"}}]}").is_ok());
    assert!(parse_ir("{\"slides\":[{\"layout\":\"title_body\",\"slots\":{\"title\":\"t\"}}]}").is_err());
}
