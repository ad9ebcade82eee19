//! The intermediate layout model (ILM): slides as absolutely placed text,
//! image and table elements, with geometry in EMU.
use vstd::prelude::*;

use crate::markdown::{blocks_view, BlockV, RichBlock};

verus! {

/// Horizontal alignment of text.
#[derive(Clone, Copy, Debug, PartialEq, Eq, Structural)]
pub enum TextAlignment {
    Left,
    Center,
    Right,
    Justify,
}

/// A placed block of rich text.
#[derive(Clone, Debug)]
pub struct IlmTextRun {
    pub x: i64,
    pub y: i64,
    pub cx: i64,
    pub cy: i64,
    pub blocks: Vec<RichBlock>,
    pub font_size_pt: i64,
    pub bold: bool,
    pub alignment: TextAlignment,
}

/// How an image is fitted into its box.
#[derive(Clone, Copy, Debug, PartialEq, Eq, Structural)]
pub enum ImageScaling {
    Stretch,
    Contain,
    Cover,
    FitWidth,
    FitHeight,
}

/// A placed image with its encoded bytes.
#[derive(Clone)]
pub struct IlmImage {
    pub x: i64,
    pub y: i64,
    pub cx: i64,
    pub cy: i64,
    pub uri: String,
    pub image_data: Vec<u8>,
    pub scaling: ImageScaling,
}

/// One cell of a table.
#[derive(Debug, Clone)]
pub struct IlmTableCell {
    pub text: IlmTextRun,
    pub alignment: TextAlignment,
}

/// One row of a table.
#[derive(Debug, Clone)]
pub struct IlmTableRow {
    pub cells: Vec<IlmTableCell>,
    pub is_header: bool,
    pub row_height_emu: i64,
}

/// A placed table.
#[derive(Debug, Clone)]
pub struct IlmTable {
    pub x: i64,
    pub y: i64,
    pub cx: i64,
    pub cy: i64,
    pub rows: Vec<IlmTableRow>,
    pub col_widths_emu: Vec<i64>,
}

/// An element of a slide.
#[derive(Clone)]
pub enum IlmElement {
    Text(IlmTextRun),
    Image(IlmImage),
    Table(IlmTable),
}

/// A slide: its elements in drawing order.
#[derive(Clone)]
pub struct IlmSlide {
    pub elements: Vec<IlmElement>,
}

pub struct TextRunV {
    pub x: i64,
    pub y: i64,
    pub cx: i64,
    pub cy: i64,
    pub blocks: Seq<BlockV>,
    pub font_size_pt: i64,
    pub bold: bool,
    pub alignment: TextAlignment,
}

pub struct ImageV {
    pub x: i64,
    pub y: i64,
    pub cx: i64,
    pub cy: i64,
    pub uri: Seq<char>,
    pub data: Seq<u8>,
    pub scaling: ImageScaling,
}

pub enum ElementV {
    Text(TextRunV),
    Image(ImageV),
    Table,
}

impl View for IlmTextRun {
    type V = TextRunV;

    open spec fn view(&self) -> TextRunV {
        TextRunV {
            x: self.x,
            y: self.y,
            cx: self.cx,
            cy: self.cy,
            blocks: blocks_view(self.blocks@),
            font_size_pt: self.font_size_pt,
            bold: self.bold,
            alignment: self.alignment,
        }
    }
}

impl View for IlmImage {
    type V = ImageV;

    open spec fn view(&self) -> ImageV {
        ImageV {
            x: self.x,
            y: self.y,
            cx: self.cx,
            cy: self.cy,
            uri: self.uri@,
            data: self.image_data@,
            scaling: self.scaling,
        }
    }
}

impl View for IlmElement {
    type V = ElementV;

    open spec fn view(&self) -> ElementV {
        match self {
            IlmElement::Text(t) => ElementV::Text(t@),
            IlmElement::Image(i) => ElementV::Image(i@),
            IlmElement::Table(_) => ElementV::Table,
        }
    }
}

impl View for IlmSlide {
    type V = Seq<ElementV>;

    open spec fn view(&self) -> Seq<ElementV> {
        self.elements@.map_values(|e: IlmElement| e@)
    }
}

} // verus!
