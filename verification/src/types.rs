//! The records the introspection and validation functions return.
use vstd::prelude::*;

verus! {

/// A public layout with the slots it requires and allows.
pub struct LayoutSpec {
    pub name: &'static str,
    pub description: &'static str,
    pub required_slots: Vec<&'static str>,
    pub optional_slots: Vec<&'static str>,
}

pub struct LayoutSpecV {
    pub name: Seq<char>,
    pub description: Seq<char>,
    pub required_slots: Seq<Seq<char>>,
    pub optional_slots: Seq<Seq<char>>,
}

impl View for LayoutSpec {
    type V = LayoutSpecV;

    open spec fn view(&self) -> LayoutSpecV {
        LayoutSpecV {
            name: self.name@,
            description: self.description@,
            required_slots: self.required_slots@.map_values(|s: &'static str| s@),
            optional_slots: self.optional_slots@.map_values(|s: &'static str| s@),
        }
    }
}

/// The layouts on offer.
pub struct LayoutsSummary {
    pub version: &'static str,
    pub slide_layouts: Vec<LayoutSpec>,
}

/// A summary of the IR schema: its version, the layouts a slide can name
/// and the phrases accepted for qualitative adjustments.
pub struct SchemaSummary {
    pub version: &'static str,
    pub slide_layouts: Vec<&'static str>,
    pub qualitative_aliases: Vec<&'static str>,
}

/// The tweaks available for a deck, by kind.
pub struct TweakInstructions {
    pub qualitative_tweaks: Vec<OperationSpec>,
    pub quantitative_tweaks: Vec<OperationSpec>,
    pub structural_operations: Vec<OperationSpec>,
}

/// An operation, with the concrete path it applies to when it has one.
#[derive(Clone)]
pub struct OperationSpec {
    pub path: Option<String>,
    pub name: &'static str,
    pub description: &'static str,
    pub params: Vec<&'static str>,
    pub bounds: &'static str,
}

/// The views of a list of operations.
pub open spec fn ops_specs_view(v: Seq<OperationSpec>) -> Seq<OperationSpecV> {
    v.map_values(|o: OperationSpec| o@)
}

pub struct OperationSpecV {
    pub path: Option<Seq<char>>,
    pub name: Seq<char>,
    pub description: Seq<char>,
    pub params: Seq<Seq<char>>,
    pub bounds: Seq<char>,
}

impl View for OperationSpec {
    type V = OperationSpecV;

    open spec fn view(&self) -> OperationSpecV {
        OperationSpecV {
            path: match self.path {
                Some(p) => Some(p@),
                None => None,
            },
            name: self.name@,
            description: self.description@,
            params: self.params@.map_values(|s: &'static str| s@),
            bounds: self.bounds@,
        }
    }
}

/// What an operation on a path does.
pub struct OperationExplanation {
    pub path: String,
    pub operation: String,
    pub semantics: &'static str,
    pub side_effects: Vec<&'static str>,
    pub constraints: Vec<&'static str>,
}

/// A sample request for an operation and its effect.
pub struct OperationExample {
    pub request: &'static str,
    pub effect: &'static str,
}

/// A layout template with the slot names it marks.
pub struct SlideTemplate {
    pub body: &'static str,
    pub slot_names: Vec<String>,
}

} // verus!
