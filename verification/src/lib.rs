//! Rendering LLM-authored slide decks: validation, introspection, tweaks,
//! HTML preview, layout mapping and PPTX packaging, with verified contracts.
use vstd::prelude::*;

pub mod expr;
pub mod html_preview;
pub mod ilm_html;
pub mod json;
pub mod laws;
pub mod layout_map;
pub mod manifest;
pub mod markdown;
pub mod model;
pub mod operations;
pub mod order;
pub mod part_names;
pub mod patch;
pub mod schema;
pub mod pptx;
pub mod templating;
pub mod text;
pub mod theme;
pub mod transport;
pub mod types;

verus! {

} // verus!
