//! The template manifest: editable paths, their operations, the layout
//! templates and the layout geometry definitions.
use vstd::prelude::*;

verus! {

/// An operation an editable path supports.
pub struct TemplateOperationSpec {
    pub path: &'static str,
    pub name: &'static str,
    pub description: &'static str,
    pub params: Vec<&'static str>,
    pub bounds: &'static str,
}

pub struct OpSpecV {
    pub path: Seq<char>,
    pub name: Seq<char>,
    pub description: Seq<char>,
    pub params: Seq<Seq<char>>,
    pub bounds: Seq<char>,
}

pub open spec fn strs_of(v: Seq<&'static str>) -> Seq<Seq<char>> {
    v.map_values(|s: &'static str| s@)
}

impl View for TemplateOperationSpec {
    type V = OpSpecV;

    open spec fn view(&self) -> OpSpecV {
        OpSpecV {
            path: self.path@,
            name: self.name@,
            description: self.description@,
            params: strs_of(self.params@),
            bounds: self.bounds@,
        }
    }
}

/// A layout template: its name and HTML body.
pub struct TemplateDefinition {
    pub layout: &'static str,
    pub body: &'static str,
}

/// One element of a layout: the slot it shows and its box, as length
/// expressions, with text defaults.
pub struct ElementDefinition {
    pub slot: &'static str,
    pub x: &'static str,
    pub y: &'static str,
    pub width: &'static str,
    pub height: &'static str,
    pub font_size: Option<i64>,
    pub bold: Option<bool>,
    pub image_scaling: &'static str,
}

pub struct ElementDefV {
    pub slot: Seq<char>,
    pub x: Seq<char>,
    pub y: Seq<char>,
    pub width: Seq<char>,
    pub height: Seq<char>,
    pub font_size: Option<i64>,
    pub bold: Option<bool>,
    pub image_scaling: Seq<char>,
}

impl View for ElementDefinition {
    type V = ElementDefV;

    open spec fn view(&self) -> ElementDefV {
        ElementDefV {
            slot: self.slot@,
            x: self.x@,
            y: self.y@,
            width: self.width@,
            height: self.height@,
            font_size: self.font_size,
            bold: self.bold,
            image_scaling: self.image_scaling@,
        }
    }
}

/// A layout: its name, description and elements.
pub struct LayoutDefinition {
    pub layout: &'static str,
    pub description: &'static str,
    pub elements: Vec<ElementDefinition>,
}

pub struct LayoutDefV {
    pub layout: Seq<char>,
    pub description: Seq<char>,
    pub elements: Seq<ElementDefV>,
}

impl View for LayoutDefinition {
    type V = LayoutDefV;

    open spec fn view(&self) -> LayoutDefV {
        LayoutDefV {
            layout: self.layout@,
            description: self.description@,
            elements: self.elements@.map_values(|e: ElementDefinition| e@),
        }
    }
}

fn op(
    path: &'static str,
    name: &'static str,
    description: &'static str,
    params: Vec<&'static str>,
    bounds: &'static str,
) -> (r: TemplateOperationSpec)
    ensures
        r.path == path,
        r.name == name,
        r.description == description,
        r.params == params,
        r.bounds == bounds,
{
    TemplateOperationSpec { path, name, description, params, bounds }
}

fn el(
    slot: &'static str,
    x: &'static str,
    y: &'static str,
    width: &'static str,
    height: &'static str,
    font_size: Option<i64>,
    bold: Option<bool>,
    image_scaling: &'static str,
) -> (r: ElementDefinition)
    ensures
        r@ == (ElementDefV {
            slot: slot@,
            x: x@,
            y: y@,
            width: width@,
            height: height@,
            font_size: font_size,
            bold: bold,
            image_scaling: image_scaling@,
        }),
{
    ElementDefinition { slot, x, y, width, height, font_size, bold, image_scaling }
}

fn layout_def(layout: &'static str, description: &'static str, elements: Vec<ElementDefinition>) -> (r: LayoutDefinition)
    ensures
        r.layout == layout,
        r.description == description,
        r.elements == elements,
{
    LayoutDefinition { layout, description, elements }
}

/// The editable paths of all templates, sorted and without repeats.
pub open spec fn spec_editable_paths() -> Seq<Seq<char>> {
    seq!["slides[*].layout"@, "slides[*].slots.attribution"@, "slides[*].slots.body"@, "slides[*].slots.caption"@, "slides[*].slots.image"@, "slides[*].slots.left"@, "slides[*].slots.quote"@, "slides[*].slots.right"@, "slides[*].slots.subtitle"@, "slides[*].slots.title"@, "slides[*].style.alignment"@, "slides[*].style.body.font_size"@]
}

/// The editable paths the templates declare.
pub fn template_editable_paths() -> (r: Vec<&'static str>)
    ensures
        strs_of(r@) == spec_editable_paths(),
{
    let r = vec!["slides[*].layout", "slides[*].slots.attribution", "slides[*].slots.body", "slides[*].slots.caption", "slides[*].slots.image", "slides[*].slots.left", "slides[*].slots.quote", "slides[*].slots.right", "slides[*].slots.subtitle", "slides[*].slots.title", "slides[*].style.alignment", "slides[*].style.body.font_size"];
    assert(strs_of(r@) =~= spec_editable_paths());
    r
}

/// The operations of every template, template by template.
pub open spec fn spec_operation_specs() -> Seq<OpSpecV> {
    seq![
        OpSpecV { path: "slides[*].layout"@, name: "set_layout"@, description: "Switches the slide to another registered layout."@, params: seq!["layout"@], bounds: "layout must be one of the registered slide layouts"@ },
        OpSpecV { path: "slides[*].slots.title"@, name: "set_text"@, description: "Replaces text content for the selected slot."@, params: seq!["text"@], bounds: "text length must be <= 2000 characters"@ },
        OpSpecV { path: "slides[*].slots.left"@, name: "set_text"@, description: "Replaces text content for the selected slot."@, params: seq!["text"@], bounds: "text length must be <= 2000 characters"@ },
        OpSpecV { path: "slides[*].slots.right"@, name: "set_text"@, description: "Replaces text content for the selected slot."@, params: seq!["text"@], bounds: "text length must be <= 2000 characters"@ },
        OpSpecV { path: "slides[*].style.alignment"@, name: "set_alignment"@, description: "Sets text alignment for the slide's text boxes."@, params: seq!["alignment"@], bounds: "alignment must be one of left, center, right, justify"@ },
        OpSpecV { path: "slides[*].layout"@, name: "set_layout"@, description: "Switches the slide to another registered layout."@, params: seq!["layout"@], bounds: "layout must be one of the registered slide layouts"@ },
        OpSpecV { path: "slides[*].slots.title"@, name: "set_text"@, description: "Replaces text content for the selected slot."@, params: seq!["text"@], bounds: "text length must be <= 2000 characters"@ },
        OpSpecV { path: "slides[*].slots.image"@, name: "set_text"@, description: "Replaces text content for the selected slot."@, params: seq!["text"@], bounds: "text length must be <= 2000 characters"@ },
        OpSpecV { path: "slides[*].slots.caption"@, name: "set_text"@, description: "Replaces text content for the selected slot."@, params: seq!["text"@], bounds: "text length must be <= 2000 characters"@ },
        OpSpecV { path: "slides[*].style.alignment"@, name: "set_alignment"@, description: "Sets text alignment for the slide's text boxes."@, params: seq!["alignment"@], bounds: "alignment must be one of left, center, right, justify"@ },
        OpSpecV { path: "slides[*].layout"@, name: "set_layout"@, description: "Switches the slide to another registered layout."@, params: seq!["layout"@], bounds: "layout must be one of the registered slide layouts"@ },
        OpSpecV { path: "slides[*].slots.quote"@, name: "set_text"@, description: "Replaces text content for the selected slot."@, params: seq!["text"@], bounds: "text length must be <= 2000 characters"@ },
        OpSpecV { path: "slides[*].slots.attribution"@, name: "set_text"@, description: "Replaces text content for the selected slot."@, params: seq!["text"@], bounds: "text length must be <= 2000 characters"@ },
        OpSpecV { path: "slides[*].style.alignment"@, name: "set_alignment"@, description: "Sets text alignment for the slide's text boxes."@, params: seq!["alignment"@], bounds: "alignment must be one of left, center, right, justify"@ },
        OpSpecV { path: "slides[*].layout"@, name: "set_layout"@, description: "Switches the slide to another registered layout."@, params: seq!["layout"@], bounds: "layout must be one of the registered slide layouts"@ },
        OpSpecV { path: "slides[*].slots.title"@, name: "set_text"@, description: "Replaces text content for the selected slot."@, params: seq!["text"@], bounds: "text length must be <= 2000 characters"@ },
        OpSpecV { path: "slides[*].slots.subtitle"@, name: "set_text"@, description: "Replaces text content for the selected slot."@, params: seq!["text"@], bounds: "text length must be <= 2000 characters"@ },
        OpSpecV { path: "slides[*].style.alignment"@, name: "set_alignment"@, description: "Sets text alignment for the slide's text boxes."@, params: seq!["alignment"@], bounds: "alignment must be one of left, center, right, justify"@ },
        OpSpecV { path: "slides[*].layout"@, name: "set_layout"@, description: "Switches the slide to another registered layout."@, params: seq!["layout"@], bounds: "layout must be one of the registered slide layouts"@ },
        OpSpecV { path: "slides[*].slots.title"@, name: "set_text"@, description: "Replaces text content for the selected slot."@, params: seq!["text"@], bounds: "text length must be <= 2000 characters"@ },
        OpSpecV { path: "slides[*].slots.subtitle"@, name: "set_text"@, description: "Replaces text content for the selected slot."@, params: seq!["text"@], bounds: "text length must be <= 2000 characters"@ },
        OpSpecV { path: "slides[*].style.alignment"@, name: "set_alignment"@, description: "Sets text alignment for the slide's text boxes."@, params: seq!["alignment"@], bounds: "alignment must be one of left, center, right, justify"@ },
        OpSpecV { path: "slides[*].layout"@, name: "set_layout"@, description: "Switches the slide to another registered layout."@, params: seq!["layout"@], bounds: "layout must be one of the registered slide layouts"@ },
        OpSpecV { path: "slides[*].slots.title"@, name: "set_text"@, description: "Replaces text content for the selected slot."@, params: seq!["text"@], bounds: "text length must be <= 2000 characters"@ },
        OpSpecV { path: "slides[*].slots.body"@, name: "set_text"@, description: "Replaces text content for the selected slot."@, params: seq!["text"@], bounds: "text length must be <= 2000 characters"@ },
        OpSpecV { path: "slides[*].style.alignment"@, name: "set_alignment"@, description: "Sets text alignment for the slide's text boxes."@, params: seq!["alignment"@], bounds: "alignment must be one of left, center, right, justify"@ },
        OpSpecV { path: "slides[*].style.body.font_size"@, name: "increase"@, description: "Increases the body font size."@, params: seq!["step"@], bounds: "result must stay within 10..72 points"@ },
        OpSpecV { path: "slides[*].style.body.font_size"@, name: "decrease"@, description: "Decreases the body font size."@, params: seq!["step"@], bounds: "result must stay within 10..72 points"@ },
        OpSpecV { path: "slides[*].style.body.font_size"@, name: "set_font_size"@, description: "Sets the body font size to an absolute value."@, params: seq!["size"@], bounds: "size must be an integer between 10 and 72"@ },
        OpSpecV { path: "slides[*].layout"@, name: "set_layout"@, description: "Switches the slide to another registered layout."@, params: seq!["layout"@], bounds: "layout must be one of the registered slide layouts"@ },
        OpSpecV { path: "slides[*].slots.title"@, name: "set_text"@, description: "Replaces text content for the selected slot."@, params: seq!["text"@], bounds: "text length must be <= 2000 characters"@ },
        OpSpecV { path: "slides[*].slots.left"@, name: "set_text"@, description: "Replaces text content for the selected slot."@, params: seq!["text"@], bounds: "text length must be <= 2000 characters"@ },
        OpSpecV { path: "slides[*].slots.right"@, name: "set_text"@, description: "Replaces text content for the selected slot."@, params: seq!["text"@], bounds: "text length must be <= 2000 characters"@ },
        OpSpecV { path: "slides[*].style.alignment"@, name: "set_alignment"@, description: "Sets text alignment for the slide's text boxes."@, params: seq!["alignment"@], bounds: "alignment must be one of left, center, right, justify"@ },
    ]
}

pub open spec fn ops_view(v: Seq<TemplateOperationSpec>) -> Seq<OpSpecV> {
    v.map_values(|o: TemplateOperationSpec| o@)
}

/// The operations the templates declare, with their paths.
pub fn template_operation_specs() -> (r: Vec<TemplateOperationSpec>)
    ensures
        ops_view(r@) == spec_operation_specs(),
{
    let r = vec![
        op("slides[*].layout", "set_layout", "Switches the slide to another registered layout.", vec!["layout"], "layout must be one of the registered slide layouts"),
        op("slides[*].slots.title", "set_text", "Replaces text content for the selected slot.", vec!["text"], "text length must be <= 2000 characters"),
        op("slides[*].slots.left", "set_text", "Replaces text content for the selected slot.", vec!["text"], "text length must be <= 2000 characters"),
        op("slides[*].slots.right", "set_text", "Replaces text content for the selected slot.", vec!["text"], "text length must be <= 2000 characters"),
        op("slides[*].style.alignment", "set_alignment", "Sets text alignment for the slide's text boxes.", vec!["alignment"], "alignment must be one of left, center, right, justify"),
        op("slides[*].layout", "set_layout", "Switches the slide to another registered layout.", vec!["layout"], "layout must be one of the registered slide layouts"),
        op("slides[*].slots.title", "set_text", "Replaces text content for the selected slot.", vec!["text"], "text length must be <= 2000 characters"),
        op("slides[*].slots.image", "set_text", "Replaces text content for the selected slot.", vec!["text"], "text length must be <= 2000 characters"),
        op("slides[*].slots.caption", "set_text", "Replaces text content for the selected slot.", vec!["text"], "text length must be <= 2000 characters"),
        op("slides[*].style.alignment", "set_alignment", "Sets text alignment for the slide's text boxes.", vec!["alignment"], "alignment must be one of left, center, right, justify"),
        op("slides[*].layout", "set_layout", "Switches the slide to another registered layout.", vec!["layout"], "layout must be one of the registered slide layouts"),
        op("slides[*].slots.quote", "set_text", "Replaces text content for the selected slot.", vec!["text"], "text length must be <= 2000 characters"),
        op("slides[*].slots.attribution", "set_text", "Replaces text content for the selected slot.", vec!["text"], "text length must be <= 2000 characters"),
        op("slides[*].style.alignment", "set_alignment", "Sets text alignment for the slide's text boxes.", vec!["alignment"], "alignment must be one of left, center, right, justify"),
        op("slides[*].layout", "set_layout", "Switches the slide to another registered layout.", vec!["layout"], "layout must be one of the registered slide layouts"),
        op("slides[*].slots.title", "set_text", "Replaces text content for the selected slot.", vec!["text"], "text length must be <= 2000 characters"),
        op("slides[*].slots.subtitle", "set_text", "Replaces text content for the selected slot.", vec!["text"], "text length must be <= 2000 characters"),
        op("slides[*].style.alignment", "set_alignment", "Sets text alignment for the slide's text boxes.", vec!["alignment"], "alignment must be one of left, center, right, justify"),
        op("slides[*].layout", "set_layout", "Switches the slide to another registered layout.", vec!["layout"], "layout must be one of the registered slide layouts"),
        op("slides[*].slots.title", "set_text", "Replaces text content for the selected slot.", vec!["text"], "text length must be <= 2000 characters"),
        op("slides[*].slots.subtitle", "set_text", "Replaces text content for the selected slot.", vec!["text"], "text length must be <= 2000 characters"),
        op("slides[*].style.alignment", "set_alignment", "Sets text alignment for the slide's text boxes.", vec!["alignment"], "alignment must be one of left, center, right, justify"),
        op("slides[*].layout", "set_layout", "Switches the slide to another registered layout.", vec!["layout"], "layout must be one of the registered slide layouts"),
        op("slides[*].slots.title", "set_text", "Replaces text content for the selected slot.", vec!["text"], "text length must be <= 2000 characters"),
        op("slides[*].slots.body", "set_text", "Replaces text content for the selected slot.", vec!["text"], "text length must be <= 2000 characters"),
        op("slides[*].style.alignment", "set_alignment", "Sets text alignment for the slide's text boxes.", vec!["alignment"], "alignment must be one of left, center, right, justify"),
        op("slides[*].style.body.font_size", "increase", "Increases the body font size.", vec!["step"], "result must stay within 10..72 points"),
        op("slides[*].style.body.font_size", "decrease", "Decreases the body font size.", vec!["step"], "result must stay within 10..72 points"),
        op("slides[*].style.body.font_size", "set_font_size", "Sets the body font size to an absolute value.", vec!["size"], "size must be an integer between 10 and 72"),
        op("slides[*].layout", "set_layout", "Switches the slide to another registered layout.", vec!["layout"], "layout must be one of the registered slide layouts"),
        op("slides[*].slots.title", "set_text", "Replaces text content for the selected slot.", vec!["text"], "text length must be <= 2000 characters"),
        op("slides[*].slots.left", "set_text", "Replaces text content for the selected slot.", vec!["text"], "text length must be <= 2000 characters"),
        op("slides[*].slots.right", "set_text", "Replaces text content for the selected slot.", vec!["text"], "text length must be <= 2000 characters"),
        op("slides[*].style.alignment", "set_alignment", "Sets text alignment for the slide's text boxes.", vec!["alignment"], "alignment must be one of left, center, right, justify"),
    ];
    assert forall|i: int| 0 <= i < r@.len() implies #[trigger] strs_of(r@[i].params@) == spec_operation_specs()[i].params by {
        assert(strs_of(r@[i].params@) =~= spec_operation_specs()[i].params);
    }
    assert(ops_view(r@) =~= spec_operation_specs());
    r
}

/// The template of each public layout, sorted by layout name.
pub open spec fn spec_template_definitions() -> Seq<(Seq<char>, Seq<char>)> {
    seq![
        ("comparison"@, "<section class=\"slide layout-comparison\" data-layout=\"comparison\">\n  <h1 data-slot=\"title\">{{ slide.slots.title }}</h1>\n  <div class=\"column\" data-slot=\"left\">{{ slide.slots.left }}</div>\n  <div class=\"column\" data-slot=\"right\">{{ slide.slots.right }}</div>\n</section>"@),
        ("image_focus"@, "<section class=\"slide layout-image-focus\" data-layout=\"image_focus\">\n  <h1 data-slot=\"title\">{{ slide.slots.title }}</h1>\n  <img data-slot=\"image\" src=\"{{ slide.slots.image }}\"/>\n  <p class=\"caption\" data-slot=\"caption\">{{ slide.slots.caption }}</p>\n</section>"@),
        ("quote"@, "<section class=\"slide layout-quote\" data-layout=\"quote\">\n  <blockquote data-slot=\"quote\">{{ slide.slots.quote }}</blockquote>\n  <p class=\"attribution\" data-slot=\"attribution\">{{ slide.slots.attribution }}</p>\n</section>"@),
        ("section"@, "<section class=\"slide layout-section\" data-layout=\"section\">\n  <h1 data-slot=\"title\">{{ slide.slots.title }}</h1>\n  <h2 data-slot=\"subtitle\">{{ slide.slots.subtitle }}</h2>\n</section>"@),
        ("title"@, "<section class=\"slide layout-title\" data-layout=\"title\">\n  <h1 data-slot=\"title\">{{ slide.slots.title }}</h1>\n  <h2 data-slot=\"subtitle\">{{ slide.slots.subtitle }}</h2>\n</section>"@),
        ("title_body"@, "<section class=\"slide layout-title-body\" data-layout=\"title_body\">\n  <h1 data-slot=\"title\">{{ slide.slots.title }}</h1>\n  <p data-slot=\"body\">{{ slide.slots.body }}</p>\n</section>"@),
        ("two_column"@, "<section class=\"slide layout-two-column\" data-layout=\"two_column\">\n  <h1 data-slot=\"title\">{{ slide.slots.title }}</h1>\n  <div class=\"column\" data-slot=\"left\">{{ slide.slots.left }}</div>\n  <div class=\"column\" data-slot=\"right\">{{ slide.slots.right }}</div>\n</section>"@),
    ]
}

pub open spec fn templates_view(v: Seq<TemplateDefinition>) -> Seq<(Seq<char>, Seq<char>)> {
    v.map_values(|t: TemplateDefinition| (t.layout@, t.body@))
}

/// The layout templates.
pub fn template_definitions() -> (r: Vec<TemplateDefinition>)
    ensures
        templates_view(r@) == spec_template_definitions(),
{
    let r = vec![
        TemplateDefinition { layout: "comparison", body: "<section class=\"slide layout-comparison\" data-layout=\"comparison\">\n  <h1 data-slot=\"title\">{{ slide.slots.title }}</h1>\n  <div class=\"column\" data-slot=\"left\">{{ slide.slots.left }}</div>\n  <div class=\"column\" data-slot=\"right\">{{ slide.slots.right }}</div>\n</section>" },
        TemplateDefinition { layout: "image_focus", body: "<section class=\"slide layout-image-focus\" data-layout=\"image_focus\">\n  <h1 data-slot=\"title\">{{ slide.slots.title }}</h1>\n  <img data-slot=\"image\" src=\"{{ slide.slots.image }}\"/>\n  <p class=\"caption\" data-slot=\"caption\">{{ slide.slots.caption }}</p>\n</section>" },
        TemplateDefinition { layout: "quote", body: "<section class=\"slide layout-quote\" data-layout=\"quote\">\n  <blockquote data-slot=\"quote\">{{ slide.slots.quote }}</blockquote>\n  <p class=\"attribution\" data-slot=\"attribution\">{{ slide.slots.attribution }}</p>\n</section>" },
        TemplateDefinition { layout: "section", body: "<section class=\"slide layout-section\" data-layout=\"section\">\n  <h1 data-slot=\"title\">{{ slide.slots.title }}</h1>\n  <h2 data-slot=\"subtitle\">{{ slide.slots.subtitle }}</h2>\n</section>" },
        TemplateDefinition { layout: "title", body: "<section class=\"slide layout-title\" data-layout=\"title\">\n  <h1 data-slot=\"title\">{{ slide.slots.title }}</h1>\n  <h2 data-slot=\"subtitle\">{{ slide.slots.subtitle }}</h2>\n</section>" },
        TemplateDefinition { layout: "title_body", body: "<section class=\"slide layout-title-body\" data-layout=\"title_body\">\n  <h1 data-slot=\"title\">{{ slide.slots.title }}</h1>\n  <p data-slot=\"body\">{{ slide.slots.body }}</p>\n</section>" },
        TemplateDefinition { layout: "two_column", body: "<section class=\"slide layout-two-column\" data-layout=\"two_column\">\n  <h1 data-slot=\"title\">{{ slide.slots.title }}</h1>\n  <div class=\"column\" data-slot=\"left\">{{ slide.slots.left }}</div>\n  <div class=\"column\" data-slot=\"right\">{{ slide.slots.right }}</div>\n</section>" },
    ];
    assert(templates_view(r@) =~= spec_template_definitions());
    r
}

/// The geometry definitions of every layout, internal ones included.
pub open spec fn spec_layout_definitions() -> Seq<LayoutDefV> {
    seq![
        LayoutDefV { layout: "comparison"@, description: "Side-by-side comparison of two options under a title."@, elements: seq![ElementDefV { slot: "title"@, x: "5%"@, y: "5%"@, width: "90%"@, height: "15%"@, font_size: Some(40i64), bold: Some(true), image_scaling: "contain"@ }, ElementDefV { slot: "left"@, x: "5%"@, y: "25%"@, width: "42%"@, height: "65%"@, font_size: Some(24i64), bold: Some(false), image_scaling: "contain"@ }, ElementDefV { slot: "right"@, x: "53%"@, y: "25%"@, width: "42%"@, height: "65%"@, font_size: Some(24i64), bold: Some(false), image_scaling: "contain"@ }] },
        LayoutDefV { layout: "image_focus"@, description: "A large image with a title and a caption."@, elements: seq![ElementDefV { slot: "title"@, x: "5%"@, y: "5%"@, width: "90%"@, height: "12%"@, font_size: Some(36i64), bold: Some(true), image_scaling: "contain"@ }, ElementDefV { slot: "image"@, x: "10%"@, y: "20%"@, width: "80%"@, height: "60%"@, font_size: None, bold: None, image_scaling: "contain"@ }, ElementDefV { slot: "caption"@, x: "10%"@, y: "83%"@, width: "80%"@, height: "10%"@, font_size: Some(20i64), bold: Some(false), image_scaling: "contain"@ }] },
        LayoutDefV { layout: "image_test"@, description: "Internal layout for image scaling checks."@, elements: seq![ElementDefV { slot: "image"@, x: "0%"@, y: "0%"@, width: "100%"@, height: "100%"@, font_size: None, bold: None, image_scaling: "cover"@ }] },
        LayoutDefV { layout: "quote"@, description: "A highlighted quotation with its attribution."@, elements: seq![ElementDefV { slot: "quote"@, x: "10%"@, y: "25%"@, width: "80%"@, height: "40%"@, font_size: Some(36i64), bold: Some(false), image_scaling: "contain"@ }, ElementDefV { slot: "attribution"@, x: "10%"@, y: "70%"@, width: "80%"@, height: "10%"@, font_size: Some(24i64), bold: Some(false), image_scaling: "contain"@ }] },
        LayoutDefV { layout: "refinement_controls"@, description: "Internal layout exercising refinement parameters."@, elements: seq![ElementDefV { slot: "title"@, x: "5%"@, y: "5%"@, width: "90%"@, height: "15%"@, font_size: Some(40i64), bold: Some(true), image_scaling: "contain"@ }, ElementDefV { slot: "body"@, x: "5%"@, y: "25%"@, width: "90%"@, height: "65%"@, font_size: Some(28i64), bold: Some(false), image_scaling: "contain"@ }] },
        LayoutDefV { layout: "section"@, description: "A section divider with a heading and a subheading."@, elements: seq![ElementDefV { slot: "title"@, x: "10%"@, y: "35%"@, width: "80%"@, height: "15%"@, font_size: Some(48i64), bold: Some(true), image_scaling: "contain"@ }, ElementDefV { slot: "subtitle"@, x: "10%"@, y: "52%"@, width: "80%"@, height: "10%"@, font_size: Some(28i64), bold: Some(false), image_scaling: "contain"@ }] },
        LayoutDefV { layout: "title"@, description: "An opening slide with a title and a subtitle."@, elements: seq![ElementDefV { slot: "title"@, x: "10%"@, y: "30%"@, width: "80%"@, height: "20%"@, font_size: Some(54i64), bold: Some(true), image_scaling: "contain"@ }, ElementDefV { slot: "subtitle"@, x: "10%"@, y: "55%"@, width: "80%"@, height: "10%"@, font_size: Some(28i64), bold: Some(false), image_scaling: "contain"@ }] },
        LayoutDefV { layout: "title_body"@, description: "A title above a block of body text."@, elements: seq![ElementDefV { slot: "title"@, x: "5%"@, y: "5%"@, width: "90%"@, height: "15%"@, font_size: Some(40i64), bold: Some(true), image_scaling: "contain"@ }, ElementDefV { slot: "body"@, x: "5%"@, y: "25%"@, width: "90%"@, height: "65%"@, font_size: Some(28i64), bold: Some(false), image_scaling: "contain"@ }] },
        LayoutDefV { layout: "two_column"@, description: "A title above two columns of text."@, elements: seq![ElementDefV { slot: "title"@, x: "5%"@, y: "5%"@, width: "90%"@, height: "15%"@, font_size: Some(40i64), bold: Some(true), image_scaling: "contain"@ }, ElementDefV { slot: "left"@, x: "5%"@, y: "25%"@, width: "42%"@, height: "65%"@, font_size: Some(24i64), bold: Some(false), image_scaling: "contain"@ }, ElementDefV { slot: "right"@, x: "53%"@, y: "25%"@, width: "42%"@, height: "65%"@, font_size: Some(24i64), bold: Some(false), image_scaling: "contain"@ }] },
    ]
}

pub open spec fn layouts_view(v: Seq<LayoutDefinition>) -> Seq<LayoutDefV> {
    v.map_values(|l: LayoutDefinition| l@)
}

/// The layout geometry definitions.
pub fn layout_definitions() -> (r: Vec<LayoutDefinition>)
    ensures
        layouts_view(r@) == spec_layout_definitions(),
{
    let r = vec![
        layout_def("comparison", "Side-by-side comparison of two options under a title.", vec![el("title", "5%", "5%", "90%", "15%", Some(40i64), Some(true), "contain"), el("left", "5%", "25%", "42%", "65%", Some(24i64), Some(false), "contain"), el("right", "53%", "25%", "42%", "65%", Some(24i64), Some(false), "contain")]),
        layout_def("image_focus", "A large image with a title and a caption.", vec![el("title", "5%", "5%", "90%", "12%", Some(36i64), Some(true), "contain"), el("image", "10%", "20%", "80%", "60%", None, None, "contain"), el("caption", "10%", "83%", "80%", "10%", Some(20i64), Some(false), "contain")]),
        layout_def("image_test", "Internal layout for image scaling checks.", vec![el("image", "0%", "0%", "100%", "100%", None, None, "cover")]),
        layout_def("quote", "A highlighted quotation with its attribution.", vec![el("quote", "10%", "25%", "80%", "40%", Some(36i64), Some(false), "contain"), el("attribution", "10%", "70%", "80%", "10%", Some(24i64), Some(false), "contain")]),
        layout_def("refinement_controls", "Internal layout exercising refinement parameters.", vec![el("title", "5%", "5%", "90%", "15%", Some(40i64), Some(true), "contain"), el("body", "5%", "25%", "90%", "65%", Some(28i64), Some(false), "contain")]),
        layout_def("section", "A section divider with a heading and a subheading.", vec![el("title", "10%", "35%", "80%", "15%", Some(48i64), Some(true), "contain"), el("subtitle", "10%", "52%", "80%", "10%", Some(28i64), Some(false), "contain")]),
        layout_def("title", "An opening slide with a title and a subtitle.", vec![el("title", "10%", "30%", "80%", "20%", Some(54i64), Some(true), "contain"), el("subtitle", "10%", "55%", "80%", "10%", Some(28i64), Some(false), "contain")]),
        layout_def("title_body", "A title above a block of body text.", vec![el("title", "5%", "5%", "90%", "15%", Some(40i64), Some(true), "contain"), el("body", "5%", "25%", "90%", "65%", Some(28i64), Some(false), "contain")]),
        layout_def("two_column", "A title above two columns of text.", vec![el("title", "5%", "5%", "90%", "15%", Some(40i64), Some(true), "contain"), el("left", "5%", "25%", "42%", "65%", Some(24i64), Some(false), "contain"), el("right", "53%", "25%", "42%", "65%", Some(24i64), Some(false), "contain")]),
    ];
    assert forall|i: int| 0 <= i < r@.len() implies #[trigger] r@[i]@ == spec_layout_definitions()[i] by {
        assert(r@[i].elements@.map_values(|e: ElementDefinition| e@) =~= spec_layout_definitions()[i].elements);
    }
    assert(layouts_view(r@) =~= spec_layout_definitions());
    r
}

} // verus!
