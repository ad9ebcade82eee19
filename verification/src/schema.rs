//! Validation of the slide IR (JSON Schema, then the slots each layout
//! requires) and the descriptions of layouts and tweaks.
use vstd::prelude::*;

use crate::json::{entries_view, Json, JsonEntry, JsonNumber, JsonValue, obj_has};
use crate::manifest::{
    layout_definitions, layouts_view, ops_view, spec_layout_definitions, spec_operation_specs,
    template_operation_specs, LayoutDefV, LayoutDefinition, OpSpecV,
};
use crate::templating::{find_chars, find_from, lemma_find_from};
use crate::order::strings_view;
use crate::text::{chars_eq_str, chars_of, split_char, split_chars, string_from_chars};
use crate::types::{
    ops_specs_view, LayoutSpec, LayoutSpecV, LayoutsSummary, OperationSpec, OperationSpecV, SchemaSummary,
    TweakInstructions,
};
use crate::order::{sort_strings, str_order};
use vstd::string::StrSliceExecFns;
use crate::text::{debug_str, decimal, push_decimal, push_str, str_debug, str_eq, to_string};

verus! {

/// The JSON Schema (draft 2020-12) of the slide IR.
pub const IR_SCHEMA_JSON: &'static str = "{\"title\":\"render_slides IR\",\"type\":\"object\",\"required\":[\"slides\"],\"properties\":{\"meta\":{\"type\":\"object\"},\"theme\":{\"type\":\"object\"},\"slides\":{\"type\":\"array\",\"items\":{\"type\":\"object\",\"properties\":{\"id\":{\"type\":\"string\"},\"layout\":{\"type\":\"string\"},\"slots\":{\"type\":\"object\"},\"style\":{\"type\":\"object\"},\"params\":{\"type\":\"object\"}}}}}}";

#[verifier::external_type_specification]
#[verifier::external_body]
pub struct ExSerdeJsonValue(serde_json::Value);

#[verifier::external_type_specification]
#[verifier::external_body]
pub struct ExSchemaError<'a>(jsonschema::ValidationError<'a>);

/// What a schema violation is about.
pub enum ViolationKind {
    /// A required member is missing; its name as JSON.
    Required(String),
    /// A value has the wrong type; the expected type as `Debug` prints it.
    Type(String),
    /// A value is not one of the allowed ones.
    Enum,
    /// Any other violation, with the validator's message.
    Other(String),
}

/// The first violation of the IR schema, with the JSON pointer of the
/// offending value.
pub struct SchemaViolation {
    pub instance_path: String,
    pub kind: ViolationKind,
}

pub enum ViolationKindV {
    Required(Seq<char>),
    Type(Seq<char>),
    Enum,
    Other(Seq<char>),
}

pub struct ViolationV {
    pub instance_path: Seq<char>,
    pub kind: ViolationKindV,
}

impl View for SchemaViolation {
    type V = ViolationV;

    open spec fn view(&self) -> ViolationV {
        ViolationV {
            instance_path: self.instance_path@,
            kind: match self.kind {
                ViolationKind::Required(p) => ViolationKindV::Required(p@),
                ViolationKind::Type(k) => ViolationKindV::Type(k@),
                ViolationKind::Enum => ViolationKindV::Enum,
                ViolationKind::Other(m) => ViolationKindV::Other(m@),
            },
        }
    }
}

/// The library's JSON model of a `serde_json` value; object members come
/// in the order of serde_json's map, sorted by key.
#[verifier::external_body]
fn json_from_serde(v: serde_json::Value) -> JsonValue {
    match v {
        serde_json::Value::Null => JsonValue::Null,
        serde_json::Value::Bool(b) => JsonValue::Bool(b),
        serde_json::Value::Number(n) => JsonValue::Number(JsonNumber { as_int: n.as_i64(), repr: n.to_string() }),
        serde_json::Value::String(s) => JsonValue::String(s),
        serde_json::Value::Array(a) => JsonValue::Array(a.into_iter().map(json_from_serde).collect()),
        serde_json::Value::Object(m) => JsonValue::Object(m.into_iter().map(|(key, value)| JsonEntry { key, value: json_from_serde(value) }).collect()),
    }
}

/// The `serde_json` value of the library's JSON model.
#[verifier::external_body]
fn json_to_serde(v: &JsonValue) -> serde_json::Value {
    match v {
        JsonValue::Null => serde_json::Value::Null,
        JsonValue::Bool(b) => serde_json::Value::Bool(*b),
        JsonValue::Number(n) => n.repr.parse::<serde_json::Number>().map_or(serde_json::Value::Null, serde_json::Value::Number),
        JsonValue::String(s) => serde_json::Value::String(s.clone()),
        JsonValue::Array(a) => serde_json::Value::Array(a.iter().map(json_to_serde).collect()),
        JsonValue::Object(m) => serde_json::Value::Object(m.iter().map(|e| (e.key.clone(), json_to_serde(&e.value))).collect()),
    }
}

/// The value `serde_json::from_str` reads from `text`, or its error message.
pub uninterp spec fn json_text_value(text: Seq<char>) -> Result<Json, Seq<char>>;

/// Reads JSON text with `serde_json::from_str`.  The contract claims that the
/// outcome is determined by the text: the value read, or serde_json's error
/// message.
#[verifier::external_body]
pub(crate) fn parse_json(text: &str) -> (r: Result<JsonValue, String>)
    ensures
        match r {
            Ok(v) => json_text_value(text@) == Ok::<Json, Seq<char>>(v@),
            Err(e) => json_text_value(text@) == Err::<Json, Seq<char>>(e@),
        },
{
    match serde_json::from_str::<serde_json::Value>(text) {
        Ok(v) => Ok(json_from_serde(v)),
        Err(e) => Err(e.to_string()),
    }
}

/// What validating `doc` against the IR schema gives with `jsonschema`
/// (draft 2020-12): the first violation, if any, or the message of the
/// error that building the validator gives.
pub uninterp spec fn ir_schema_outcome(doc: Json) -> Result<Option<ViolationV>, Seq<char>>;

pub open spec fn outcome_view(r: Result<Option<SchemaViolation>, String>) -> Result<Option<ViolationV>, Seq<char>> {
    match r {
        Ok(Some(v)) => Ok(Some(v@)),
        Ok(None) => Ok(None),
        Err(e) => Err(e@),
    }
}

/// The schema violation that `jsonschema` reports, as plain values.
#[verifier::external_body]
fn violation_of(e: &jsonschema::ValidationError) -> SchemaViolation {
    let kind = match e.kind() {
        jsonschema::error::ValidationErrorKind::Required { property } => ViolationKind::Required(property.to_string()),
        jsonschema::error::ValidationErrorKind::Type { kind } => ViolationKind::Type(format!("{kind:?}")),
        jsonschema::error::ValidationErrorKind::Enum { .. } => ViolationKind::Enum,
        _ => ViolationKind::Other(e.to_string()),
    };
    SchemaViolation { instance_path: e.instance_path().to_string(), kind }
}

/// Builds a validator with `jsonschema::draft202012::new` from the IR
/// schema's value and gives the first error that `iter_errors` reports on
/// `doc`, or the build error's message.  The contract claims only that the
/// outcome is determined by the document.
#[verifier::external_body]
fn validate_against_schema(schema: &JsonValue, doc: &JsonValue) -> (r: Result<Option<SchemaViolation>, String>)
    requires
        json_text_value(IR_SCHEMA_JSON@) == Ok::<Json, Seq<char>>(schema@),
    ensures
        outcome_view(r) == ir_schema_outcome(doc@),
{
    let validator = jsonschema::draft202012::new(&json_to_serde(schema)).map_err(|e| e.to_string())?;
    let instance = json_to_serde(doc);
    let first = validator.iter_errors(&instance).next().map(|e| violation_of(&e));
    Ok(first)
}

/// What checking a document against the IR schema gives: an error when the
/// schema text does not read as JSON or does not build a validator, else
/// the first violation, if any.
pub open spec fn spec_ir_schema_check(doc: Json) -> Result<Option<ViolationV>, Seq<char>> {
    match json_text_value(IR_SCHEMA_JSON@) {
        Err(e) => Err("Schema compile error: invalid JSON schema: "@ + e),
        Ok(_) => match ir_schema_outcome(doc) {
            Err(e) => Err("Schema compile error: "@ + e),
            Ok(v) => Ok(v),
        },
    }
}

/// Checks a document against the IR schema.
pub fn check_ir_schema(doc: &JsonValue) -> (r: Result<Option<SchemaViolation>, String>)
    ensures
        outcome_view(r) == spec_ir_schema_check(doc@),
{
    let schema = match parse_json(IR_SCHEMA_JSON) {
        Ok(v) => v,
        Err(e) => {
            let mut m = to_string("Schema compile error: invalid JSON schema: ");
            push_str(&mut m, e.as_str());
            return Err(m);
        },
    };
    match validate_against_schema(&schema, doc) {
        Ok(v) => Ok(v),
        Err(e) => {
            let mut m = to_string("Schema compile error: ");
            push_str(&mut m, e.as_str());
            Err(m)
        },
    }
}

/// The location of a violation: `$`, or `$.` and the JSON pointer.
pub open spec fn violation_location(instance_path: Seq<char>) -> Seq<char> {
    if instance_path.len() == 0 {
        "$"@
    } else {
        "$."@ + instance_path
    }
}

pub open spec fn violation_hint(k: ViolationKindV) -> Seq<char> {
    match k {
        ViolationKindV::Required(p) => "missing required field '"@ + p + "'"@,
        ViolationKindV::Type(t) => "expected type "@ + t,
        ViolationKindV::Enum => "value must be one of the allowed enum values"@,
        ViolationKindV::Other(m) => m,
    }
}

/// The message of a schema violation.
pub open spec fn spec_format_validation_error(v: ViolationV) -> Seq<char> {
    "ValidationError: "@ + violation_hint(v.kind) + " at "@ + violation_location(v.instance_path) + "."@
}

/// The message reported for a schema violation.
pub fn format_validation_error(error: &SchemaViolation) -> (r: String)
    ensures
        r@ == spec_format_validation_error(error@),
{
    let mut m = to_string("ValidationError: ");
    match &error.kind {
        ViolationKind::Required(p) => {
            push_str(&mut m, "missing required field '");
            push_str(&mut m, p.as_str());
            push_str(&mut m, "'");
        },
        ViolationKind::Type(t) => {
            push_str(&mut m, "expected type ");
            push_str(&mut m, t.as_str());
        },
        ViolationKind::Enum => {
            push_str(&mut m, "value must be one of the allowed enum values");
        },
        ViolationKind::Other(o) => {
            push_str(&mut m, o.as_str());
        },
    }
    push_str(&mut m, " at ");
    if error.instance_path.as_str().unicode_len() == 0 {
        push_str(&mut m, "$");
    } else {
        push_str(&mut m, "$.");
        push_str(&mut m, error.instance_path.as_str());
    }
    push_str(&mut m, ".");
    assert(m@ =~= spec_format_validation_error(error@));
    m
}

/// The slots a layout requires and the ones it allows besides.
pub open spec fn layout_slots(layout: Seq<char>) -> Option<(Seq<Seq<char>>, Seq<Seq<char>>)> {
    if layout == "title"@ {
        Some((seq!["title"@, "subtitle"@], seq![]))
    } else if layout == "title_body"@ {
        Some((seq!["title"@, "body"@], seq!["subtitle"@]))
    } else if layout == "two_column"@ {
        Some((seq!["title"@, "left"@, "right"@], seq!["subtitle"@]))
    } else if layout == "section"@ {
        Some((seq!["title"@, "subtitle"@], seq![]))
    } else if layout == "image_focus"@ {
        Some((seq!["title"@, "image"@, "caption"@], seq!["subtitle"@]))
    } else if layout == "quote"@ {
        Some((seq!["quote"@, "attribution"@], seq![]))
    } else if layout == "comparison"@ {
        Some((seq!["title"@, "left"@, "right"@], seq!["subtitle"@]))
    } else {
        None
    }
}

pub open spec fn strs_view(v: Seq<&'static str>) -> Seq<Seq<char>> {
    v.map_values(|s: &'static str| s@)
}

/// The slots `layout` requires and allows.
pub fn layout_slot_table(layout: &str) -> (r: Option<(Vec<&'static str>, Vec<&'static str>)>)
    ensures
        match r {
            Some((req, opt)) => layout_slots(layout@) == Some((strs_view(req@), strs_view(opt@))),
            None => layout_slots(layout@) is None,
        },
{
    let r: Option<(Vec<&'static str>, Vec<&'static str>)> = if str_eq(layout, "title") {
        Some((vec!["title", "subtitle"], vec![]))
    } else if str_eq(layout, "title_body") {
        Some((vec!["title", "body"], vec!["subtitle"]))
    } else if str_eq(layout, "two_column") {
        Some((vec!["title", "left", "right"], vec!["subtitle"]))
    } else if str_eq(layout, "section") {
        Some((vec!["title", "subtitle"], vec![]))
    } else if str_eq(layout, "image_focus") {
        Some((vec!["title", "image", "caption"], vec!["subtitle"]))
    } else if str_eq(layout, "quote") {
        Some((vec!["quote", "attribution"], vec![]))
    } else if str_eq(layout, "comparison") {
        Some((vec!["title", "left", "right"], vec!["subtitle"]))
    } else {
        None
    };
    proof {
        match r {
            Some((ref req, ref opt)) => {
                assert(strs_view(req@) =~= layout_slots(layout@).unwrap().0);
                assert(strs_view(opt@) =~= layout_slots(layout@).unwrap().1);
            },
            None => {},
        }
    }
    r
}

/// The items of a list as `Debug` prints them, separated by `, `.
pub open spec fn debug_items(items: Seq<Seq<char>>) -> Seq<char>
    decreases items.len(),
{
    if items.len() == 0 {
        Seq::empty()
    } else if items.len() == 1 {
        str_debug(items[0])
    } else {
        debug_items(items.drop_last()) + ", "@ + str_debug(items.last())
    }
}

/// A list of strings as `Debug` prints it.
pub open spec fn debug_list(items: Seq<Seq<char>>) -> Seq<char> {
    "["@ + debug_items(items) + "]"@
}

fn push_debug_list(m: &mut String, items: &Vec<String>)
    ensures
        final(m)@ == old(m)@ + debug_list(items@.map_values(|s: String| s@)),
{
    let ghost v = items@.map_values(|s: String| s@);
    push_str(m, "[");
    let ghost head = m@;
    let mut i: usize = 0;
    while i < items.len()
        invariant
            i <= items@.len(),
            v == items@.map_values(|s: String| s@),
            m@ == head + debug_items(v.take(i as int)),
        decreases items@.len() - i,
    {
        assert(v.take(i + 1).drop_last() =~= v.take(i as int));
        if i > 0 {
            push_str(m, ", ");
        }
        let d = debug_str(items[i].as_str());
        push_str(m, d.as_str());
        assert(m@ =~= head + debug_items(v.take(i + 1)));
        i = i + 1;
    }
    assert(v.take(i as int) =~= v);
    push_str(m, "]");
}

fn owned(v: &Vec<&'static str>) -> (r: Vec<String>)
    ensures
        r@.map_values(|s: String| s@) == strs_view(v@),
{
    let mut r: Vec<String> = Vec::new();
    let mut i: usize = 0;
    while i < v.len()
        invariant
            i <= v@.len(),
            r@.map_values(|s: String| s@) == strs_view(v@).take(i as int),
        decreases v@.len() - i,
    {
        let ghost before = r@.map_values(|s: String| s@);
        let item = to_string(v[i]);
        assert(item@ == strs_view(v@)[i as int]);
        r.push(item);
        assert(r@.map_values(|s: String| s@) =~= before.push(strs_view(v@)[i as int]));
        assert(strs_view(v@).take(i + 1) =~= strs_view(v@).take(i as int).push(strs_view(v@)[i as int]));
        i = i + 1;
    }
    assert(strs_view(v@).take(i as int) =~= strs_view(v@));
    r
}

/// The message for a slide whose layout misses a required slot.
pub open spec fn missing_slot_message(
    slot: Seq<char>,
    layout: Seq<char>,
    index: nat,
    required: Seq<Seq<char>>,
    optional: Seq<Seq<char>>,
    provided: Seq<Seq<char>>,
) -> Seq<char> {
    "ValidationError: missing required slot '"@ + slot + "' for layout '"@ + layout + "' at $.slides["@
        + decimal(index) + "].slots. expected_required="@ + debug_list(required) + "; optional="@
        + debug_list(optional) + "; provided="@ + debug_list(provided) + "; suggested_fix=\""@
        + "Add slots."@ + slot + " as a string value."@ + "\"."@
}

/// The first slot of `required` that `slots` lacks, from position `i` on.
pub open spec fn first_missing(required: Seq<Seq<char>>, slots: Seq<(Seq<char>, Json)>, i: int) -> Option<Seq<char>>
    decreases required.len() - i,
{
    if i < 0 || i >= required.len() {
        None
    } else if !obj_has(slots, required[i]) {
        Some(required[i])
    } else {
        first_missing(required, slots, i + 1)
    }
}

/// The member names of an object, in order.
pub open spec fn member_names(m: Seq<(Seq<char>, Json)>) -> Seq<Seq<char>> {
    m.map_values(|p: (Seq<char>, Json)| p.0)
}

/// The required-slot check of the slide at `index`.
pub open spec fn slide_slot_check(slide: Json, index: nat) -> Result<(), Seq<char>> {
    match slide.field("layout"@) {
        Some(Json::Str(layout)) => match layout_slots(layout) {
            Some((required, optional)) => match slide.field("slots"@) {
                Some(Json::Object(slots)) => match first_missing(required, slots, 0) {
                    Some(slot) => Err(
                        missing_slot_message(
                            slot,
                            layout,
                            index,
                            required,
                            optional,
                            member_names(slots).sort_by(str_order()),
                        ),
                    ),
                    None => Ok(()),
                },
                _ => Ok(()),
            },
            None => Ok(()),
        },
        _ => Ok(()),
    }
}

/// The required-slot check of the slides from position `i` on: the first
/// failure, in slide order.
pub open spec fn slides_slot_check(slides: Seq<Json>, i: int) -> Result<(), Seq<char>>
    decreases slides.len() - i,
{
    if i < 0 || i >= slides.len() {
        Ok(())
    } else {
        match slide_slot_check(slides[i], i as nat) {
            Err(m) => Err(m),
            Ok(()) => slides_slot_check(slides, i + 1),
        }
    }
}

/// Whether every slide of the document has the slots its layout requires.
pub open spec fn spec_layout_slot_check(doc: Json) -> Result<(), Seq<char>> {
    match doc.field("slides"@) {
        Some(Json::Array(slides)) => slides_slot_check(slides, 0),
        _ => Ok(()),
    }
}

fn first_missing_exec(required: &Vec<&'static str>, slots: &Vec<JsonEntry>) -> (r: Option<usize>)
    ensures
        match r {
            Some(k) => k < required@.len() && first_missing(strs_view(required@), entries_view(slots@), 0)
                == Some(required@[k as int]@),
            None => first_missing(strs_view(required@), entries_view(slots@), 0) is None,
        },
{
    let ghost req = strs_view(required@);
    let mut i: usize = 0;
    while i < required.len()
        invariant
            i <= required@.len(),
            req == strs_view(required@),
            first_missing(req, entries_view(slots@), 0) == first_missing(req, entries_view(slots@), i as int),
        decreases required@.len() - i,
    {
        if crate::json::entries_find(slots, required[i]).is_none() {
            return Some(i);
        }
        i = i + 1;
    }
    None
}

fn member_name_strings(slots: &Vec<JsonEntry>) -> (r: Vec<String>)
    ensures
        r@.map_values(|s: String| s@) == member_names(entries_view(slots@)),
{
    proof {
        crate::json::lemma_entries_view(slots@);
    }
    let mut r: Vec<String> = Vec::new();
    let mut i: usize = 0;
    while i < slots.len()
        invariant
            i <= slots@.len(),
            entries_view(slots@).len() == slots@.len(),
            forall|j: int| 0 <= j < slots@.len() ==> #[trigger] entries_view(slots@)[j] == (
                slots@[j].key@,
                crate::json::json_view(slots@[j].value),
            ),
            r@.map_values(|s: String| s@) == member_names(entries_view(slots@)).take(i as int),
        decreases slots@.len() - i,
    {
        let ghost before = r@.map_values(|s: String| s@);
        let item = slots[i].key.clone();
        assert(item@ == member_names(entries_view(slots@))[i as int]);
        r.push(item);
        assert(r@.map_values(|s: String| s@) =~= before.push(member_names(entries_view(slots@))[i as int]));
        assert(member_names(entries_view(slots@)).take(i + 1) =~= member_names(entries_view(slots@)).take(i as int).push(member_names(entries_view(slots@))[i as int]));
        i = i + 1;
    }
    assert(member_names(entries_view(slots@)).take(i as int) =~= member_names(entries_view(slots@)));
    r
}

fn missing_slot_error(
    slot: &str,
    layout: &str,
    index: usize,
    required: &Vec<&'static str>,
    optional: &Vec<&'static str>,
    slots: &Vec<JsonEntry>,
) -> (r: String)
    ensures
        r@ == missing_slot_message(
            slot@,
            layout@,
            index as nat,
            strs_view(required@),
            strs_view(optional@),
            member_names(entries_view(slots@)).sort_by(str_order()),
        ),
{
    let provided = sort_strings(member_name_strings(slots));
    let mut m = to_string("ValidationError: missing required slot '");
    push_str(&mut m, slot);
    push_str(&mut m, "' for layout '");
    push_str(&mut m, layout);
    push_str(&mut m, "' at $.slides[");
    push_decimal(&mut m, index as u64);
    push_str(&mut m, "].slots. expected_required=");
    push_debug_list(&mut m, &owned(required));
    push_str(&mut m, "; optional=");
    push_debug_list(&mut m, &owned(optional));
    push_str(&mut m, "; provided=");
    push_debug_list(&mut m, &provided);
    push_str(&mut m, "; suggested_fix=\"");
    push_str(&mut m, "Add slots.");
    push_str(&mut m, slot);
    push_str(&mut m, " as a string value.");
    push_str(&mut m, "\".");
    assert(m@ =~= missing_slot_message(
        slot@,
        layout@,
        index as nat,
        strs_view(required@),
        strs_view(optional@),
        member_names(entries_view(slots@)).sort_by(str_order()),
    ));
    m
}

fn slide_slot_check_exec(slide: &JsonValue, index: usize) -> (r: Result<(), String>)
    ensures
        match r {
            Ok(()) => slide_slot_check(slide@, index as nat) is Ok,
            Err(m) => slide_slot_check(slide@, index as nat) == Err::<(), Seq<char>>(m@),
        },
{
    let layout = match slide.get("layout") {
        Some(JsonValue::String(l)) => l,
        _ => return Ok(()),
    };
    let (required, optional) = match layout_slot_table(layout.as_str()) {
        Some(t) => t,
        None => return Ok(()),
    };
    let slots = match slide.get("slots") {
        Some(JsonValue::Object(m)) => m,
        _ => return Ok(()),
    };
    match first_missing_exec(&required, slots) {
        Some(k) => Err(missing_slot_error(required[k], layout.as_str(), index, &required, &optional, slots)),
        None => Ok(()),
    }
}

/// Checks that every slide has the slots its layout requires; the first
/// slide that misses one, in slide order, gives the error.
pub fn validate_layout_required_slots(parsed: &JsonValue) -> (r: Result<(), String>)
    ensures
        match r {
            Ok(()) => spec_layout_slot_check(parsed@) is Ok,
            Err(m) => spec_layout_slot_check(parsed@) == Err::<(), Seq<char>>(m@),
        },
{
    let slides = match parsed.get("slides") {
        Some(JsonValue::Array(a)) => a,
        _ => return Ok(()),
    };
    let ghost sv = crate::json::json_seq_view(slides@);
    proof {
        crate::json::lemma_json_seq_view(slides@);
    }
    let mut i: usize = 0;
    while i < slides.len()
        invariant
            i <= slides@.len(),
            sv == crate::json::json_seq_view(slides@),
            sv.len() == slides@.len(),
            forall|j: int| 0 <= j < slides@.len() ==> #[trigger] sv[j] == crate::json::json_view(slides@[j]),
            slides_slot_check(sv, 0) == slides_slot_check(sv, i as int),
            parsed@.field("slides"@) == Some(Json::Array(sv)),
        decreases slides@.len() - i,
    {
        assert(sv[i as int] == slides@[i as int]@);
        match slide_slot_check_exec(&slides[i], i) {
            Err(m) => {
                assert(slides_slot_check(sv, i as int) == Err::<(), Seq<char>>(m@));
                assert(parsed@.field("slides"@) == Some(Json::Array(sv)));
                return Err(m);
            },
            Ok(()) => {},
        }
        i = i + 1;
    }
    Ok(())
}

/// What validating a document gives once the schema check has given
/// `schema`: the schema's error, or the first schema violation, or the
/// required-slot check.
pub open spec fn spec_validate_with(doc: Json, schema: Result<Option<ViolationV>, Seq<char>>) -> Result<(), Seq<char>> {
    match schema {
        Err(e) => Err(e),
        Ok(Some(v)) => Err(spec_format_validation_error(v)),
        Ok(None) => spec_layout_slot_check(doc),
    }
}

/// Validation of a document given the outcome of its schema check.
pub fn validate_ir_with(parsed: &JsonValue, schema: &Result<Option<SchemaViolation>, String>) -> (r: Result<(), String>)
    ensures
        match r {
            Ok(()) => spec_validate_with(parsed@, outcome_view(*schema)) is Ok,
            Err(m) => spec_validate_with(parsed@, outcome_view(*schema)) == Err::<(), Seq<char>>(m@),
        },
{
    match schema {
        Err(e) => Err(e.clone()),
        Ok(Some(v)) => Err(format_validation_error(v)),
        Ok(None) => validate_layout_required_slots(parsed),
    }
}

/// The outcome of validating a document against the IR schema and the
/// layouts' required slots.
pub open spec fn spec_validate_ir(doc: Json) -> Result<(), Seq<char>> {
    spec_validate_with(doc, spec_ir_schema_check(doc))
}

/// Validates a document against the IR schema, then checks that each
/// slide has the slots its layout requires.
pub fn validate_ir(parsed: &JsonValue) -> (r: Result<(), String>)
    ensures
        match r {
            Ok(()) => spec_validate_ir(parsed@) is Ok,
            Err(m) => spec_validate_ir(parsed@) == Err::<(), Seq<char>>(m@),
        },
{
    let schema = check_ir_schema(parsed);
    validate_ir_with(parsed, &schema)
}

/// What parsing and validating IR text gives.
pub open spec fn spec_parse_ir(text: Seq<char>) -> Result<Json, Seq<char>> {
    match json_text_value(text) {
        Err(e) => Err("Invalid JSON: "@ + e),
        Ok(doc) => match spec_validate_ir(doc) {
            Err(m) => Err(m),
            Ok(()) => Ok(doc),
        },
    }
}

/// Reads IR text and validates it.
pub fn parse_ir(ir_json: &str) -> (r: Result<JsonValue, String>)
    ensures
        match r {
            Ok(v) => spec_parse_ir(ir_json@) == Ok::<Json, Seq<char>>(v@),
            Err(m) => spec_parse_ir(ir_json@) == Err::<Json, Seq<char>>(m@),
        },
{
    let parsed = match parse_json(ir_json) {
        Ok(v) => v,
        Err(e) => {
            let mut m = to_string("Invalid JSON: ");
            push_str(&mut m, e.as_str());
            return Err(m);
        },
    };
    match validate_ir(&parsed) {
        Err(m) => Err(m),
        Ok(()) => Ok(parsed),
    }
}

/// Whether a layout is internal and left out of the descriptions.
pub open spec fn internal_layout(name: Seq<char>) -> bool {
    name == "refinement_controls"@ || name == "image_test"@
}

/// The description of a layout: its slots from the required-slot table
/// (none for a layout the table does not know).
pub open spec fn layout_spec_of(d: LayoutDefV) -> LayoutSpecV {
    LayoutSpecV {
        name: d.layout,
        description: d.description,
        required_slots: match layout_slots(d.layout) {
            Some((req, _)) => req,
            None => Seq::empty(),
        },
        optional_slots: match layout_slots(d.layout) {
            Some((_, opt)) => opt,
            None => Seq::empty(),
        },
    }
}

/// The descriptions of the public layouts among `defs`, in order.
pub open spec fn layout_specs(defs: Seq<LayoutDefV>) -> Seq<LayoutSpecV>
    decreases defs.len(),
{
    if defs.len() == 0 {
        Seq::empty()
    } else if internal_layout(defs.last().layout) {
        layout_specs(defs.drop_last())
    } else {
        layout_specs(defs.drop_last()).push(layout_spec_of(defs.last()))
    }
}

/// Describes each public layout with the slots it requires and allows.
pub fn describe_layouts() -> (r: LayoutsSummary)
    ensures
        r.version@ == "0.1"@,
        r.slide_layouts@.map_values(|l: LayoutSpec| l@) == layout_specs(spec_layout_definitions()),
{
    let defs = layout_definitions();
    let ghost dv = layouts_view(defs@);
    let mut out: Vec<LayoutSpec> = Vec::new();
    let mut i: usize = 0;
    proof {
        assert(dv.take(0) =~= Seq::<LayoutDefV>::empty());
        assert(out@.map_values(|l: LayoutSpec| l@) =~= Seq::<LayoutSpecV>::empty());
    }
    while i < defs.len()
        invariant
            i <= defs@.len(),
            dv == layouts_view(defs@),
            dv == spec_layout_definitions(),
            out@.map_values(|l: LayoutSpec| l@) == layout_specs(dv.take(i as int)),
        decreases defs@.len() - i,
    {
        let d = &defs[i];
        assert(dv.take(i + 1).drop_last() =~= dv.take(i as int));
        assert(dv.take(i + 1).last() == d@);
        let ghost before = out@.map_values(|l: LayoutSpec| l@);
        if str_eq(d.layout, "refinement_controls") || str_eq(d.layout, "image_test") {
        } else {
            let (req, opt) = match layout_slot_table(d.layout) {
                Some(t) => t,
                None => (Vec::new(), Vec::new()),
            };
            proof {
                if layout_slots(d.layout@) is None {
                    assert(strs_view(req@) =~= Seq::<Seq<char>>::empty());
                    assert(strs_view(opt@) =~= Seq::<Seq<char>>::empty());
                }
            }
            let spec = LayoutSpec {
                name: d.layout,
                description: d.description,
                required_slots: req,
                optional_slots: opt,
            };
            assert(spec@ == layout_spec_of(d@));
            out.push(spec);
            assert(out@.map_values(|l: LayoutSpec| l@) =~= before.push(layout_spec_of(d@)));
        }
        i = i + 1;
    }
    assert(dv.take(i as int) =~= dv);
    LayoutsSummary { version: "0.1", slide_layouts: out }
}

/// The first layout definition named `name`.
pub open spec fn find_layout(defs: Seq<LayoutDefV>, name: Seq<char>) -> Option<LayoutDefV>
    decreases defs.len(),
{
    if defs.len() == 0 {
        None
    } else if defs[0].layout == name {
        Some(defs[0])
    } else {
        find_layout(defs.drop_first(), name)
    }
}

/// Whether a layout has an element for `slot`.
pub open spec fn has_slot(d: LayoutDefV, slot: Seq<char>) -> bool {
    exists|k: int| 0 <= k < d.elements.len() && d.elements[k].slot == slot
}

/// Whether an operation path applies to a slide of layout `d`: layout
/// changes always do; a style path does when it is the alignment, the
/// background or one of the layout's slots; a slot path when the layout
/// has the slot.
pub open spec fn op_applies(path: Seq<char>, d: LayoutDefV) -> bool {
    let parts = split_char(path, '.');
    parts.len() >= 2 && (parts[1] == "layout"@ || (parts[1] == "style"@ && parts.len() > 2 && (
    parts[2] == "alignment"@ || parts[2] == "background"@ || has_slot(d, parts[2]))) || (parts[1]
        == "slots"@ && parts.len() > 2 && has_slot(d, parts[2])))
}

/// `s` with its first occurrence of `pat` replaced by `rep`.
pub open spec fn replace_first(s: Seq<char>, pat: Seq<char>, rep: Seq<char>) -> Seq<char> {
    match find_from(s, pat, 0) {
        Some(i) => s.take(i) + rep + s.skip(i + pat.len()),
        None => s,
    }
}

/// A manifest path bound to the slide with id `id`.
pub open spec fn instantiate(path: Seq<char>, id: Seq<char>) -> Seq<char> {
    replace_first(path, "slides[*]"@, "slides[id="@ + id + "]"@)
}

/// A manifest operation offered on the slide with id `id`.
pub open spec fn bound_op(o: OpSpecV, id: Seq<char>) -> OperationSpecV {
    OperationSpecV {
        path: Some(instantiate(o.path, id)),
        name: o.name,
        description: o.description,
        params: o.params,
        bounds: o.bounds,
    }
}

/// The operations of `ops` that apply to layout `d`, bound to slide `id`.
pub open spec fn ops_candidates(ops: Seq<OpSpecV>, d: LayoutDefV, id: Seq<char>) -> Seq<OperationSpecV>
    decreases ops.len(),
{
    if ops.len() == 0 {
        Seq::empty()
    } else if op_applies(ops.last().path, d) {
        ops_candidates(ops.drop_last(), d, id).push(bound_op(ops.last(), id))
    } else {
        ops_candidates(ops.drop_last(), d, id)
    }
}

/// The operations offered on one slide: none unless it has a string id and
/// a layout that is defined.
pub open spec fn slide_candidates(slide: Json) -> Seq<OperationSpecV> {
    match slide.field("id"@) {
        Some(Json::Str(id)) => {
            let layout = match slide.field("layout"@) {
                Some(Json::Str(l)) => l,
                _ => Seq::empty(),
            };
            match find_layout(spec_layout_definitions(), layout) {
                Some(d) => ops_candidates(spec_operation_specs(), d, id),
                None => Seq::empty(),
            }
        },
        _ => Seq::empty(),
    }
}

/// The operations offered on each slide, slide by slide.
pub open spec fn all_candidates(slides: Seq<Json>) -> Seq<OperationSpecV>
    decreases slides.len(),
{
    if slides.len() == 0 {
        Seq::empty()
    } else {
        all_candidates(slides.drop_last()) + slide_candidates(slides.last())
    }
}

/// The key by which repeated offers are recognised: path and name.
pub open spec fn offer_key(o: OperationSpecV) -> Seq<char> {
    match o.path {
        Some(p) => p + ":"@ + o.name,
        None => ":"@ + o.name,
    }
}

/// Whether an operation name sets a quantity (font size or text).
pub open spec fn is_quantitative(name: Seq<char>) -> bool {
    name == "set_font_size"@ || name == "set_text"@
}

/// The keys seen and the qualitative and quantitative tweaks kept after
/// taking each offer in turn and dropping those whose key was seen before.
pub open spec fn tweak_state(offers: Seq<OperationSpecV>) -> (Seq<Seq<char>>, Seq<OperationSpecV>, Seq<OperationSpecV>)
    decreases offers.len(),
{
    if offers.len() == 0 {
        (Seq::empty(), Seq::empty(), Seq::empty())
    } else {
        let (seen, qual, quant) = tweak_state(offers.drop_last());
        let o = offers.last();
        if seen.contains(offer_key(o)) {
            (seen, qual, quant)
        } else if is_quantitative(o.name) {
            (seen.push(offer_key(o)), qual, quant.push(o))
        } else {
            (seen.push(offer_key(o)), qual.push(o), quant)
        }
    }
}

/// The slides of a document (none when it has no slide array).
pub open spec fn doc_slides(doc: Json) -> Seq<Json> {
    match doc.field("slides"@) {
        Some(Json::Array(a)) => a,
        _ => Seq::empty(),
    }
}

/// The structural operations, which apply to the deck as a whole.
pub open spec fn spec_structural_ops() -> Seq<OperationSpecV> {
    seq![
        OperationSpecV { path: None, name: "add_slide"@, description: "Appends a new slide with the specified layout to the presentation."@, params: seq!["layout"@], bounds: "layout must be a valid layout name"@ },
        OperationSpecV { path: None, name: "remove_slide"@, description: "Removes the slide with the target ID."@, params: seq!["id"@], bounds: "id must refer to an existing slide id"@ },
        OperationSpecV { path: None, name: "reorder_slide"@, description: "Moves a slide from its current index to a new target index."@, params: seq!["id"@, "to_index"@], bounds: "id must refer to an existing slide id, to_index must be within bounds"@ },
    ]
}

/// What `describe_tweaks` gives for a document: the tweaks offered on its
/// slides, each kept once, split by kind, and the structural operations.
pub open spec fn spec_tweaks(doc: Json) -> (Seq<OperationSpecV>, Seq<OperationSpecV>, Seq<OperationSpecV>) {
    let (_, qual, quant) = tweak_state(all_candidates(doc_slides(doc)));
    (qual, quant, spec_structural_ops())
}

fn find_layout_exec(defs: &Vec<LayoutDefinition>, name: &str) -> (r: Option<usize>)
    ensures
        match r {
            Some(k) => k < defs@.len() && find_layout(layouts_view(defs@), name@) == Some(defs@[k as int]@),
            None => find_layout(layouts_view(defs@), name@) is None,
        },
{
    let ghost dv = layouts_view(defs@);
    let mut i: usize = 0;
    assert(dv.skip(0) =~= dv);
    while i < defs.len()
        invariant
            i <= defs@.len(),
            dv == layouts_view(defs@),
            find_layout(dv, name@) == find_layout(dv.skip(i as int), name@),
        decreases defs@.len() - i,
    {
        assert(dv.skip(i as int).drop_first() =~= dv.skip(i + 1));
        assert(dv.skip(i as int)[0] == defs@[i as int]@);
        if str_eq(defs[i].layout, name) {
            return Some(i);
        }
        i = i + 1;
    }
    None
}

fn has_slot_exec(d: &LayoutDefinition, slot: &Vec<char>) -> (r: bool)
    ensures
        r == has_slot(d@, slot@),
{
    let mut k: usize = 0;
    while k < d.elements.len()
        invariant
            k <= d.elements@.len(),
            d@.elements.len() == d.elements@.len(),
            forall|m: int| 0 <= m < k ==> d@.elements[m].slot != slot@,
        decreases d.elements@.len() - k,
    {
        assert(d@.elements[k as int] == d.elements@[k as int]@);
        if chars_eq_str(slot, d.elements[k].slot) {
            return true;
        }
        k = k + 1;
    }
    false
}

fn op_applies_exec(path: &str, d: &LayoutDefinition) -> (r: bool)
    ensures
        r == op_applies(path@, d@),
{
    let cs = chars_of(path);
    let parts = split_chars(&cs, '.');
    let ghost pv = split_char(path@, '.');
    assert(parts@.len() == pv.len());
    if parts.len() < 2 {
        return false;
    }
    assert(parts@[1]@ == pv[1]);
    if chars_eq_str(&parts[1], "layout") {
        return true;
    }
    if chars_eq_str(&parts[1], "style") {
        if parts.len() > 2 {
            assert(parts@[2]@ == pv[2]);
            return chars_eq_str(&parts[2], "alignment") || chars_eq_str(&parts[2], "background")
                || has_slot_exec(d, &parts[2]);
        }
        return false;
    }
    if chars_eq_str(&parts[1], "slots") && parts.len() > 2 {
        assert(parts@[2]@ == pv[2]);
        return has_slot_exec(d, &parts[2]);
    }
    false
}

pub fn replace_first_exec(s: &str, pat: &str, rep: &str) -> (r: String)
    ensures
        r@ == replace_first(s@, pat@, rep@),
{
    let cs = chars_of(s);
    let ps = chars_of(pat);
    match find_chars(&cs, &ps, 0) {
        Some(i) => {
            proof {
                lemma_find_from(cs@, ps@, 0);
            }
            let n = cs.len();
            let k = ps.len();
            assert(i + k <= n);
            let mut r = string_from_chars(&cs.as_slice()[0..i]);
            push_str(&mut r, rep);
            let tail = string_from_chars(&cs.as_slice()[i + k..n]);
            push_str(&mut r, tail.as_str());
            assert(r@ =~= replace_first(s@, pat@, rep@));
            r
        },
        None => to_string(s),
    }
}

fn seen_contains(seen: &Vec<String>, key: &String) -> (r: bool)
    ensures
        r == strings_view(seen@).contains(key@),
{
    let mut i: usize = 0;
    while i < seen.len()
        invariant
            i <= seen@.len(),
            forall|j: int| 0 <= j < i ==> strings_view(seen@)[j] != key@,
        decreases seen@.len() - i,
    {
        if str_eq(seen[i].as_str(), key.as_str()) {
            assert(strings_view(seen@)[i as int] == key@);
            return true;
        }
        i = i + 1;
    }
    false
}

proof fn lemma_tweak_state_push(c: Seq<OperationSpecV>, x: OperationSpecV)
    ensures
        tweak_state(c.push(x)) == ({
            let (seen, qual, quant) = tweak_state(c);
            if seen.contains(offer_key(x)) {
                (seen, qual, quant)
            } else if is_quantitative(x.name) {
                (seen.push(offer_key(x)), qual, quant.push(x))
            } else {
                (seen.push(offer_key(x)), qual.push(x), quant)
            }
        }),
{
    assert(c.push(x).drop_last() =~= c);
}

/// The tweaks offered on a document's slides, each kept once and split by
/// kind, and the structural operations.
pub fn tweaks_for(doc: &JsonValue) -> (r: TweakInstructions)
    ensures
        (ops_specs_view(r.qualitative_tweaks@), ops_specs_view(r.quantitative_tweaks@), ops_specs_view(
            r.structural_operations@,
        )) == spec_tweaks(doc@),
{
    let defs = layout_definitions();
    let ops = template_operation_specs();
    let ghost ov = ops_view(ops@);
    let empty: Vec<JsonValue> = Vec::new();
    let slides: &Vec<JsonValue> = match doc.get("slides") {
        Some(JsonValue::Array(a)) => a,
        _ => &empty,
    };
    let ghost sv = crate::json::json_seq_view(slides@);
    proof {
        crate::json::lemma_json_seq_view(slides@);
        assert(sv == doc_slides(doc@)) by {
            if !(doc@.field("slides"@) matches Some(Json::Array(_))) {
                assert(sv =~= Seq::<Json>::empty());
            }
        }
        assert(sv.take(0) =~= Seq::<Json>::empty());
    }
    let mut seen: Vec<String> = Vec::new();
    let mut qual: Vec<OperationSpec> = Vec::new();
    let mut quant: Vec<OperationSpec> = Vec::new();
    proof {
        assert(strings_view(seen@) =~= Seq::<Seq<char>>::empty());
        assert(ops_specs_view(qual@) =~= Seq::<OperationSpecV>::empty());
        assert(ops_specs_view(quant@) =~= Seq::<OperationSpecV>::empty());
    }
    let mut i: usize = 0;
    while i < slides.len()
        invariant
            i <= slides@.len(),
            sv == crate::json::json_seq_view(slides@),
            sv.len() == slides@.len(),
            forall|j: int| 0 <= j < slides@.len() ==> #[trigger] sv[j] == crate::json::json_view(slides@[j]),
            layouts_view(defs@) == spec_layout_definitions(),
            ov == ops_view(ops@),
            ov == spec_operation_specs(),
            tweak_state(all_candidates(sv.take(i as int))) == (
                strings_view(seen@),
                ops_specs_view(qual@),
                ops_specs_view(quant@),
            ),
        decreases slides@.len() - i,
    {
        let slide = &slides[i];
        assert(sv[i as int] == slide@);
        assert(sv.take(i + 1).drop_last() =~= sv.take(i as int));
        let ghost base = all_candidates(sv.take(i as int));
        assert(all_candidates(sv.take(i + 1)) == base + slide_candidates(slide@));
        proof {
            reveal_strlit("");
        }
        let layout: &str = match slide.get("layout") {
            Some(JsonValue::String(l)) => l.as_str(),
            _ => "",
        };
        assert(layout@ == match slide@.field("layout"@) {
            Some(Json::Str(l)) => l,
            _ => Seq::<char>::empty(),
        });
        if let Some(JsonValue::String(id)) = slide.get("id") {
            if let Some(di) = find_layout_exec(&defs, layout) {
                let d = &defs[di];
                let mut rep = to_string("slides[id=");
                push_str(&mut rep, id.as_str());
                push_str(&mut rep, "]");
                assert(slide_candidates(slide@) == ops_candidates(ov, d@, id@));
                let mut j: usize = 0;
                assert(ov.take(0) =~= Seq::<OpSpecV>::empty());
                assert(base + ops_candidates(ov.take(0), d@, id@) =~= base);
                while j < ops.len()
                    invariant
                        j <= ops@.len(),
                        ov == ops_view(ops@),
                        rep@ == "slides[id="@ + id@ + "]"@,
                        tweak_state(base + ops_candidates(ov.take(j as int), d@, id@)) == (
                            strings_view(seen@),
                            ops_specs_view(qual@),
                            ops_specs_view(quant@),
                        ),
                    decreases ops@.len() - j,
                {
                    let o = &ops[j];
                    assert(ov[j as int] == o@);
                    assert(ov.take(j + 1).drop_last() =~= ov.take(j as int));
                    let ghost prev = base + ops_candidates(ov.take(j as int), d@, id@);
                    if op_applies_exec(o.path, d) {
                        let p = replace_first_exec(o.path, "slides[*]", rep.as_str());
                        let mut key = p.clone();
                        push_str(&mut key, ":");
                        push_str(&mut key, o.name);
                        let params = o.params.clone();
                        let op = OperationSpec {
                            path: Some(p),
                            name: o.name,
                            description: o.description,
                            params: params,
                            bounds: o.bounds,
                        };
                        assert(op@ == bound_op(o@, id@));
                        assert(key@ == offer_key(op@));
                        assert(base + ops_candidates(ov.take(j + 1), d@, id@) =~= prev.push(op@));
                        proof {
                            lemma_tweak_state_push(prev, op@);
                        }
                        if !seen_contains(&seen, &key) {
                            let ghost sb = strings_view(seen@);
                            let ghost kv = key@;
                            seen.push(key);
                            assert(strings_view(seen@) =~= sb.push(kv));
                            if str_eq(op.name, "set_font_size") || str_eq(op.name, "set_text") {
                                let ghost qb = ops_specs_view(quant@);
                                let ghost opv = op@;
                                quant.push(op);
                                assert(ops_specs_view(quant@) =~= qb.push(opv));
                            } else {
                                let ghost qb = ops_specs_view(qual@);
                                let ghost opv = op@;
                                qual.push(op);
                                assert(ops_specs_view(qual@) =~= qb.push(opv));
                            }
                        }
                    } else {
                        assert(base + ops_candidates(ov.take(j + 1), d@, id@) =~= prev);
                    }
                    j = j + 1;
                }
                assert(ov.take(j as int) =~= ov);
            } else {
                assert(base + slide_candidates(slide@) =~= base);
            }
        } else {
            assert(base + slide_candidates(slide@) =~= base);
        }
        i = i + 1;
    }
    assert(sv.take(i as int) =~= sv);
    let structural = vec![
        OperationSpec {
            path: None,
            name: "add_slide",
            description: "Appends a new slide with the specified layout to the presentation.",
            params: vec!["layout"],
            bounds: "layout must be a valid layout name",
        },
        OperationSpec {
            path: None,
            name: "remove_slide",
            description: "Removes the slide with the target ID.",
            params: vec!["id"],
            bounds: "id must refer to an existing slide id",
        },
        OperationSpec {
            path: None,
            name: "reorder_slide",
            description: "Moves a slide from its current index to a new target index.",
            params: vec!["id", "to_index"],
            bounds: "id must refer to an existing slide id, to_index must be within bounds",
        },
    ];
    proof {
        assert forall|k: int| 0 <= k < structural@.len() implies strs_view(#[trigger] structural@[k].params@)
            == spec_structural_ops()[k].params by {
            assert(strs_view(structural@[k].params@) =~= spec_structural_ops()[k].params);
        }
        assert(ops_specs_view(structural@) =~= spec_structural_ops());
    }
    TweakInstructions {
        qualitative_tweaks: qual,
        quantitative_tweaks: quant,
        structural_operations: structural,
    }
}

/// Reads and validates IR text and lists the tweaks it offers.
pub fn describe_tweaks(ir_json: &str) -> (r: Result<TweakInstructions, String>)
    ensures
        match r {
            Ok(t) => match spec_parse_ir(ir_json@) {
                Ok(doc) => (ops_specs_view(t.qualitative_tweaks@), ops_specs_view(t.quantitative_tweaks@), ops_specs_view(
                    t.structural_operations@,
                )) == spec_tweaks(doc),
                Err(_) => false,
            },
            Err(m) => spec_parse_ir(ir_json@) == Err::<Json, Seq<char>>(m@),
        },
{
    let parsed = parse_ir(ir_json)?;
    Ok(tweaks_for(&parsed))
}

/// The phrases accepted for qualitative alignment adjustments.
pub open spec fn spec_qualitative_aliases() -> Seq<Seq<char>> {
    seq!["left justify"@, "center"@, "right justify"@, "full justify"@]
}

/// The names of the layouts a slide can name, in definition order.
pub open spec fn layout_names(specs: Seq<LayoutSpecV>) -> Seq<Seq<char>> {
    specs.map_values(|l: LayoutSpecV| l.name)
}

/// A summary of the IR schema: version `0.1`, the public layouts and the
/// qualitative aliases.
pub fn schema_summary() -> (r: SchemaSummary)
    ensures
        r.version@ == "0.1"@,
        strs_view(r.slide_layouts@) == layout_names(layout_specs(spec_layout_definitions())),
        strs_view(r.qualitative_aliases@) == spec_qualitative_aliases(),
{
    let layouts = describe_layouts();
    let ghost lv = layouts.slide_layouts@.map_values(|l: LayoutSpec| l@);
    let mut names: Vec<&'static str> = Vec::new();
    let mut i: usize = 0;
    while i < layouts.slide_layouts.len()
        invariant
            i <= layouts.slide_layouts@.len(),
            lv == layouts.slide_layouts@.map_values(|l: LayoutSpec| l@),
            strs_view(names@) == layout_names(lv).take(i as int),
        decreases layouts.slide_layouts@.len() - i,
    {
        assert(layout_names(lv)[i as int] == layouts.slide_layouts@[i as int].name@);
        let ghost before = strs_view(names@);
        names.push(layouts.slide_layouts[i].name);
        assert(strs_view(names@) =~= before.push(layout_names(lv)[i as int]));
        assert(layout_names(lv).take(i + 1) =~= layout_names(lv).take(i as int).push(layout_names(lv)[i as int]));
        i = i + 1;
    }
    assert(layout_names(lv).take(i as int) =~= layout_names(lv));
    let aliases = vec!["left justify", "center", "right justify", "full justify"];
    assert(strs_view(aliases@) =~= spec_qualitative_aliases());
    SchemaSummary { version: "0.1", slide_layouts: names, qualitative_aliases: aliases }
}

} // verus!
