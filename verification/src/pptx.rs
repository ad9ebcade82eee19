//! PPTX output: OpenXML parts for each slide, packed into a zip archive.
use vstd::prelude::*;

use std::io::{Cursor, Write};
use zip::write::SimpleFileOptions;
use zip::ZipWriter;

use crate::html_preview::{html_escape, spec_html_escape};
use crate::markdown::{BlockV, ParaV, RichBlock, RichParagraph, RunV, blocks_view, runs_view};
use crate::model::{ElementV, IlmElement, IlmImage, IlmSlide, IlmTextRun, ImageV, TextRunV};
use crate::part_names::{
    lemma_media_entries_prefix, lemma_next_part, lemma_parts_fit_push, lemma_pptx_names, lemma_pptx_tail,
    lemma_prefix_concat, lemma_prefix_trans, lemma_slide_entries_prefix, names_distinct, names_short,
};
use crate::text::{
    chars_of, decimal, push_char, push_chars, push_decimal, push_signed_decimal, push_str,
    signed_decimal, split_char, split_chars, str_eq, to_string,
};

verus! {

/// An in-memory zip archive being written (a `zip::ZipWriter` over a
/// growable byte buffer).
#[verifier::external_body]
pub struct ZipPackage {
    inner: ZipWriter<Cursor<Vec<u8>>>,
}

/// The entries written so far into an archive: name and content, in order.
pub uninterp spec fn zip_entries(z: ZipPackage) -> Seq<(Seq<char>, Seq<u8>)>;

/// Whether an entry of the archive has been started and is open for
/// writing.
pub uninterp spec fn zip_writing(z: ZipPackage) -> bool;

/// The bytes of the archive that holds `entries` (stored, with the fixed
/// default timestamp).
pub uninterp spec fn zip_archive(entries: Seq<(Seq<char>, Seq<u8>)>) -> Seq<u8>;

/// Calls `ZipWriter::new` on an empty in-memory buffer; the archive holds
/// no entry and none is open.
#[verifier::external_body]
fn zip_new() -> (z: ZipPackage)
    ensures
        zip_entries(z) == Seq::<(Seq<char>, Seq<u8>)>::empty(),
        !zip_writing(z),
{
    ZipPackage { inner: ZipWriter::new(Cursor::new(Vec::new())) }
}

/// Calls `ZipWriter::start_file` with default options; on success the
/// archive gains an empty entry named `path`, open for writing.  An error is
/// returned as its message.  The call refuses only a name already in the
/// archive (writes to the in-memory buffer do not fail); it panics on a name
/// longer than 65535 bytes, which `requires` leaves out.
#[verifier::external_body]
fn zip_start_file(z: &mut ZipPackage, path: &str) -> (r: Result<(), String>)
    requires
        utf8(path@).len() <= 65535,
    ensures
        r is Ok ==> zip_entries(*final(z)) == zip_entries(*old(z)).push((path@, Seq::<u8>::empty()))
            && zip_writing(*final(z)),
        (forall|k: int|
            0 <= k < zip_entries(*old(z)).len() ==> (#[trigger] zip_entries(*old(z))[k]).0 != path@) ==> r is Ok,
{
    z.inner.start_file(path, SimpleFileOptions::default()).map_err(|e| e.to_string())
}

/// Calls `Write::write_all` on the archive; on success the bytes are
/// appended to the entry started last, which stays open.  An error is
/// returned as its message.  A write of no bytes does nothing; otherwise the
/// call succeeds exactly when an entry is open and its content stays within
/// `u32::MAX` bytes (the large-file option is off).
#[verifier::external_body]
fn zip_write_all(z: &mut ZipPackage, data: &[u8]) -> (r: Result<(), String>)
    ensures
        r is Ok ==> {
            let old_e = zip_entries(*old(z));
            &&& zip_writing(*final(z)) == zip_writing(*old(z))
            &&& data@.len() == 0 ==> zip_entries(*final(z)) == old_e
            &&& data@.len() > 0 ==> {
                &&& zip_writing(*old(z))
                &&& old_e.len() > 0
                &&& old_e.last().1.len() + data@.len() <= u32::MAX
                &&& zip_entries(*final(z)) == old_e.update(
                    old_e.len() - 1,
                    (old_e.last().0, old_e.last().1 + data@),
                )
            }
        },
        ({
            let old_e = zip_entries(*old(z));
            zip_writing(*old(z)) && old_e.len() > 0 && old_e.last().1.len() + data@.len() <= u32::MAX
        }) ==> r is Ok,
{
    z.inner.write_all(data).map_err(|e| e.to_string())
}

/// Calls `ZipWriter::finish` and takes the buffer out; the bytes are the
/// archive of the entries written.  On the in-memory buffer the call does
/// not fail.
#[verifier::external_body]
fn zip_finish(z: ZipPackage) -> (r: Result<Vec<u8>, String>)
    ensures
        r is Ok,
        r matches Ok(bytes) ==> bytes@ == zip_archive(zip_entries(z)),
{
    z.inner.finish().map(|c| c.into_inner()).map_err(|e| e.to_string())
}

/// The UTF-8 bytes of a string.
pub open spec fn utf8(s: Seq<char>) -> Seq<u8> {
    vstd::utf8::encode_utf8(s)
}

/// A message that reports a failed zip step for the part `part`: the
/// step (starting the entry or writing it), the part's name, `": "`, then
/// the zip crate's own message.
pub open spec fn zip_part_failure(m: Seq<char>, part: Seq<char>) -> bool {
    ||| ("PPTX zip start_file error for "@ + part + ": "@).is_prefix_of(m)
    ||| ("PPTX zip write error for "@ + part + ": "@).is_prefix_of(m)
}

/// A message that reports a failed zip step: one for some part, or the
/// failure to finish the archive followed by the zip crate's own message.
pub open spec fn zip_failure(m: Seq<char>) -> bool {
    ||| exists|part: Seq<char>| #[trigger] zip_part_failure(m, part)
    ||| "PPTX zip finalize error: "@.is_prefix_of(m)
}

/// Every part's content fits a zip entry without the large-file option:
/// at most `u32::MAX` bytes.
pub open spec fn parts_fit(es: Seq<(Seq<char>, Seq<u8>)>) -> bool {
    forall|a: int| 0 <= a < es.len() ==> (#[trigger] es[a]).1.len() <= u32::MAX
}

/// Writes a text file into the archive.  It succeeds when no entry of the
/// archive has the name `path` and the text takes at most `u32::MAX` bytes;
/// a failure is reported for `path`.
pub fn add_zip_file(zip: &mut ZipPackage, path: &str, data: &str) -> (r: Result<(), String>)
    requires
        utf8(path@).len() <= 65535,
    ensures
        r is Ok ==> zip_entries(*final(zip)) == zip_entries(*old(zip)).push((path@, utf8(data@)))
            && zip_writing(*final(zip)) && utf8(data@).len() <= u32::MAX,
        r matches Err(m) ==> zip_part_failure(m@, path@),
        ((forall|k: int|
            0 <= k < zip_entries(*old(zip)).len() ==> (#[trigger] zip_entries(*old(zip))[k]).0 != path@)
            && utf8(data@).len() <= u32::MAX) ==> r is Ok,
{
    match zip_start_file(zip, path) {
        Ok(()) => {},
        Err(e) => {
            let m = zip_error("PPTX zip start_file error for ", path, &e);
            proof {
                let p = "PPTX zip start_file error for "@ + path@ + ": "@;
                assert(m@.subrange(0, p.len() as int) =~= p);
            }
            return Err(m);
        },
    }
    let bytes = data.as_bytes();
    let ghost started = zip_entries(*zip);
    assert(started.last().1.len() == 0);
    match zip_write_all(zip, bytes) {
        Ok(()) => {
            assert(Seq::<u8>::empty() + utf8(data@) =~= utf8(data@));
            proof {
                if bytes@.len() == 0 {
                    assert(zip_entries(*zip) =~= zip_entries(*old(zip)).push((path@, utf8(data@))));
                }
            }
            Ok(())
        },
        Err(e) => {
            let m = zip_error("PPTX zip write error for ", path, &e);
            proof {
                let p = "PPTX zip write error for "@ + path@ + ": "@;
                assert(m@.subrange(0, p.len() as int) =~= p);
            }
            Err(m)
        },
    }
}

/// Escapes text for XML character data.
pub fn xml_escape(input: &str) -> (r: String)
    ensures
        r@ == spec_html_escape(input@),
{
    html_escape(input)
}

pub open spec fn ascii_lower_char(c: char) -> char {
    if 'A' <= c && c <= 'Z' {
        ((c as u32) + 32) as char
    } else {
        c
    }
}

pub open spec fn ends_with(s: Seq<char>, suffix: Seq<char>) -> bool {
    s.len() >= suffix.len() && s.skip(s.len() - suffix.len()) == suffix
}

pub open spec fn starts_with_bytes(s: Seq<u8>, prefix: Seq<u8>) -> bool {
    s.len() >= prefix.len() && s.take(prefix.len() as int) == prefix
}

/// The file extension an image is stored under in the package.
pub open spec fn spec_image_extension(uri: Seq<char>, bytes: Seq<u8>) -> Seq<char> {
    let lower = uri.map_values(|c: char| ascii_lower_char(c));
    if ends_with(lower, ".png"@) || starts_with_bytes(bytes, seq![0x89u8, 0x50u8, 0x4eu8, 0x47u8]) {
        "png"@
    } else if ends_with(lower, ".jpg"@) || ends_with(lower, ".jpeg"@) || starts_with_bytes(
        bytes,
        seq![0xffu8, 0xd8u8, 0xffu8],
    ) {
        "jpg"@
    } else if ends_with(lower, ".gif"@) || starts_with_bytes(
        bytes,
        seq![0x47u8, 0x49u8, 0x46u8, 0x38u8, 0x37u8, 0x61u8],
    ) || starts_with_bytes(bytes, seq![0x47u8, 0x49u8, 0x46u8, 0x38u8, 0x39u8, 0x61u8]) {
        "gif"@
    } else {
        "bin"@
    }
}

fn chars_end_with(s: &Vec<char>, suffix: &str) -> (r: bool)
    ensures
        r == ends_with(s@, suffix@),
{
    let t = chars_of(suffix);
    if t.len() > s.len() {
        return false;
    }
    let off = s.len() - t.len();
    let mut i: usize = 0;
    while i < t.len()
        invariant
            t@ == suffix@,
            off + t@.len() == s@.len(),
            s@.len() <= usize::MAX,
            i <= t@.len(),
            forall|j: int| 0 <= j < i ==> s@[off + j] == t@[j],
        decreases t@.len() - i,
    {
        if s[off + i] != t[i] {
            assert(s@.skip(off as int)[i as int] != t@[i as int]);
            return false;
        }
        i = i + 1;
    }
    assert(s@.skip(off as int) =~= t@);
    true
}

fn bytes_start_with(s: &[u8], prefix: &[u8]) -> (r: bool)
    ensures
        r == starts_with_bytes(s@, prefix@),
{
    if prefix.len() > s.len() {
        return false;
    }
    let mut i: usize = 0;
    while i < prefix.len()
        invariant
            prefix@.len() <= s@.len(),
            i <= prefix@.len(),
            forall|j: int| 0 <= j < i ==> s@[j] == prefix@[j],
        decreases prefix@.len() - i,
    {
        if s[i] != prefix[i] {
            assert(s@.take(prefix@.len() as int)[i as int] != prefix@[i as int]);
            return false;
        }
        i = i + 1;
    }
    assert(s@.take(prefix@.len() as int) =~= prefix@);
    true
}

fn ascii_lowercase(s: &str) -> (r: Vec<char>)
    ensures
        r@ == s@.map_values(|c: char| ascii_lower_char(c)),
{
    let cs = chars_of(s);
    let mut out: Vec<char> = Vec::new();
    let mut i: usize = 0;
    while i < cs.len()
        invariant
            cs@ == s@,
            i <= cs@.len(),
            out@ == cs@.take(i as int).map_values(|c: char| ascii_lower_char(c)),
        decreases cs@.len() - i,
    {
        let c = cs[i];
        let l = if 'A' <= c && c <= 'Z' {
            char_plus_32(c)
        } else {
            c
        };
        out.push(l);
        assert(cs@.take(i + 1).map_values(|c: char| ascii_lower_char(c)) =~= cs@.take(
            i as int,
        ).map_values(|c: char| ascii_lower_char(c)).push(ascii_lower_char(c)));
        i = i + 1;
    }
    assert(cs@.take(i as int) =~= cs@);
    out
}

fn char_plus_32(c: char) -> (r: char)
    requires
        'A' <= c <= 'Z',
    ensures
        r == ((c as u32) + 32) as char,
{
    let v = (c as u32) + 32;
    assert(v <= 0x7f);
    #[verifier::truncate] (v as u8) as char
}

/// Picks the package extension of an image from its name or its leading bytes.
pub fn detect_image_extension(image_uri: &str, bytes: &[u8]) -> (r: &'static str)
    ensures
        r@ == spec_image_extension(image_uri@, bytes@),
{
    let lower = ascii_lowercase(image_uri);
    let png: [u8; 4] = [0x89u8, 0x50u8, 0x4eu8, 0x47u8];
    let jpg: [u8; 3] = [0xffu8, 0xd8u8, 0xffu8];
    let gif7: [u8; 6] = [0x47u8, 0x49u8, 0x46u8, 0x38u8, 0x37u8, 0x61u8];
    let gif9: [u8; 6] = [0x47u8, 0x49u8, 0x46u8, 0x38u8, 0x39u8, 0x61u8];
    assert(png@ =~= seq![0x89u8, 0x50u8, 0x4eu8, 0x47u8]);
    assert(jpg@ =~= seq![0xffu8, 0xd8u8, 0xffu8]);
    assert(gif7@ =~= seq![0x47u8, 0x49u8, 0x46u8, 0x38u8, 0x37u8, 0x61u8]);
    assert(gif9@ =~= seq![0x47u8, 0x49u8, 0x46u8, 0x38u8, 0x39u8, 0x61u8]);
    if chars_end_with(&lower, ".png") || bytes_start_with(bytes, &png) {
        return "png";
    }
    if chars_end_with(&lower, ".jpg") || chars_end_with(&lower, ".jpeg") || bytes_start_with(bytes, &jpg) {
        return "jpg";
    }
    if chars_end_with(&lower, ".gif") || bytes_start_with(bytes, &gif7) || bytes_start_with(bytes, &gif9) {
        return "gif";
    }
    "bin"
}

/// The characters of a paragraph's runs, in order.
pub open spec fn para_text(runs: Seq<RunV>) -> Seq<char>
    decreases runs.len(),
{
    if runs.len() == 0 {
        Seq::empty()
    } else {
        para_text(runs.drop_last()) + runs.last().text
    }
}

/// The text of each paragraph block, in order.
pub open spec fn paragraph_texts(bs: Seq<BlockV>) -> Seq<Seq<char>>
    decreases bs.len(),
{
    if bs.len() == 0 {
        Seq::empty()
    } else {
        let r = paragraph_texts(bs.drop_last());
        match bs.last() {
            BlockV::Paragraph(p) => r.push(para_text(p.runs)),
            BlockV::Table => r,
        }
    }
}

/// Lines joined with line feeds.
pub open spec fn join_lines(ls: Seq<Seq<char>>) -> Seq<char>
    decreases ls.len(),
{
    if ls.len() == 0 {
        Seq::empty()
    } else if ls.len() == 1 {
        ls[0]
    } else {
        join_lines(ls.drop_last()) + seq!['\n'] + ls.last()
    }
}

/// The plain text of a text element: its paragraphs on separate lines.
pub open spec fn run_plain_text(t: TextRunV) -> Seq<char> {
    join_lines(paragraph_texts(t.blocks))
}

pub open spec fn strip_cr(l: Seq<char>) -> Seq<char> {
    if l.len() > 0 && l.last() == '\r' {
        l.drop_last()
    } else {
        l
    }
}

/// The lines of `s` as `str::lines` yields them: split at line feeds, a
/// carriage return before a line feed dropped, no final empty line.
pub open spec fn text_lines(s: Seq<char>) -> Seq<Seq<char>> {
    let p = split_char(s, '\n');
    let init = p.drop_last().map_values(|l: Seq<char>| strip_cr(l));
    if p.last().len() == 0 {
        init
    } else {
        init.push(p.last())
    }
}

pub open spec fn bold_attr(bold: bool) -> Seq<char> {
    if bold {
        " b=\"1\""@
    } else {
        Seq::empty()
    }
}

pub open spec fn line_xml(line: Seq<char>, sz: int, bold: bool) -> Seq<char> {
    "<a:p><a:r><a:rPr lang=\"en-US\" sz=\""@ + signed_decimal(sz) + "\""@ + bold_attr(bold) + " /><a:t>"@
        + spec_html_escape(line) + "</a:t></a:r></a:p>"@
}

pub open spec fn lines_xml(ls: Seq<Seq<char>>, sz: int, bold: bool) -> Seq<char>
    decreases ls.len(),
{
    if ls.len() == 0 {
        Seq::empty()
    } else {
        lines_xml(ls.drop_last(), sz, bold) + line_xml(ls.last(), sz, bold)
    }
}

/// The DrawingML paragraphs of a text element: one per line, or one empty
/// paragraph when there is no line.
pub open spec fn paragraphs_xml(t: TextRunV) -> Seq<char> {
    let ls = text_lines(run_plain_text(t));
    if ls.len() == 0 {
        "<a:p/>"@
    } else {
        lines_xml(ls, t.font_size_pt * 100, t.bold)
    }
}

pub open spec fn text_shape_xml(t: TextRunV, id: nat) -> Seq<char> {
    "<p:sp><p:nvSpPr><p:cNvPr id=\""@ + decimal(id) + "\" name=\"TextBox "@ + decimal(id) + "\"/><p:cNvSpPr txBox=\"1\"/><p:nvPr/></p:nvSpPr><p:spPr><a:xfrm><a:off x=\""@ + signed_decimal(t.x as int)
        + "\" y=\""@ + signed_decimal(t.y as int) + "\"/><a:ext cx=\""@ + signed_decimal(t.cx as int)
        + "\" cy=\""@ + signed_decimal(t.cy as int) + "\"/></a:xfrm><a:prstGeom prst=\"rect\"><a:avLst/></a:prstGeom><a:noFill/></p:spPr><p:txBody><a:bodyPr wrap=\"square\"/><a:lstStyle/>"@ + paragraphs_xml(t) + "</p:txBody></p:sp>"@
}

/// The picture element of the `k`-th image (from 0) of a slide.
pub open spec fn pic_xml(img: ImageV, id: nat, k: nat) -> Seq<char> {
    "<p:pic><p:nvPicPr><p:cNvPr id=\""@ + decimal(id) + "\" name=\"Image\"/><p:cNvPicPr/><p:nvPr/></p:nvPicPr><p:blipFill><a:blip r:embed=\"rId"@ + decimal(k + 1) + "\"/><a:stretch><a:fillRect/></a:stretch></p:blipFill><p:spPr><a:xfrm><a:off x=\""@ + signed_decimal(img.x as int)
        + "\" y=\""@ + signed_decimal(img.y as int) + "\"/><a:ext cx=\""@ + signed_decimal(img.cx as int)
        + "\" cy=\""@ + signed_decimal(img.cy as int) + "\"/></a:xfrm><a:prstGeom prst=\"rect\"><a:avLst/></a:prstGeom></p:spPr></p:pic>"@
}

/// The text elements of a slide, in order.
pub open spec fn slide_texts(es: Seq<ElementV>) -> Seq<TextRunV>
    decreases es.len(),
{
    if es.len() == 0 {
        Seq::empty()
    } else {
        let r = slide_texts(es.drop_last());
        match es.last() {
            ElementV::Text(t) => r.push(t),
            _ => r,
        }
    }
}

/// The image elements of a slide, in order.
pub open spec fn slide_images(es: Seq<ElementV>) -> Seq<ImageV>
    decreases es.len(),
{
    if es.len() == 0 {
        Seq::empty()
    } else {
        let r = slide_images(es.drop_last());
        match es.last() {
            ElementV::Image(i) => r.push(i),
            _ => r,
        }
    }
}

pub open spec fn shapes_xml(ts: Seq<TextRunV>, first_id: nat) -> Seq<char>
    decreases ts.len(),
{
    if ts.len() == 0 {
        Seq::empty()
    } else {
        shapes_xml(ts.drop_last(), first_id) + text_shape_xml(
            ts.last(),
            (first_id + ts.len() - 1) as nat,
        )
    }
}

pub open spec fn pics_xml(is: Seq<ImageV>, first_id: nat) -> Seq<char>
    decreases is.len(),
{
    if is.len() == 0 {
        Seq::empty()
    } else {
        pics_xml(is.drop_last(), first_id) + pic_xml(
            is.last(),
            (first_id + is.len() - 1) as nat,
            (is.len() - 1) as nat,
        )
    }
}

/// The slide part: text shapes (ids from 2), then pictures.
pub open spec fn spec_slide_xml(es: Seq<ElementV>) -> Seq<char> {
    let ts = slide_texts(es);
    "<?xml version=\"1.0\" encoding=\"UTF-8\" standalone=\"yes\"?><p:sld xmlns:a=\"http://schemas.openxmlformats.org/drawingml/2006/main\" xmlns:r=\"http://schemas.openxmlformats.org/officeDocument/2006/relationships\" xmlns:p=\"http://schemas.openxmlformats.org/presentationml/2006/main\"><p:cSld><p:spTree><p:nvGrpSpPr><p:cNvPr id=\"1\" name=\"\"/><p:cNvGrpSpPr/><p:nvPr/></p:nvGrpSpPr><p:grpSpPr><a:xfrm><a:off x=\"0\" y=\"0\"/><a:ext cx=\"0\" cy=\"0\"/><a:chOff x=\"0\" y=\"0\"/><a:chExt cx=\"0\" cy=\"0\"/></a:xfrm></p:grpSpPr>"@ + shapes_xml(ts, 2) + pics_xml(slide_images(es), 2 + ts.len()) + "</p:spTree></p:cSld><p:clrMapOvr><a:masterClrMapping/></p:clrMapOvr></p:sld>"@
}

/// The extension an image is stored under.
pub open spec fn media_ext(img: ImageV) -> Seq<char> {
    spec_image_extension(img.uri, img.data)
}

/// The name of the `g`-th image (from 0) of the package.
pub open spec fn media_name(g: nat, img: ImageV) -> Seq<char> {
    "image"@ + decimal(g + 1) + "."@ + media_ext(img)
}

pub open spec fn image_rels(is: Seq<ImageV>, g: nat) -> Seq<char>
    decreases is.len(),
{
    if is.len() == 0 {
        Seq::empty()
    } else {
        let k = (is.len() - 1) as nat;
        image_rels(is.drop_last(), g) + "<Relationship Id=\"rId"@ + decimal(k + 1) + "\" Type=\"http://schemas.openxmlformats.org/officeDocument/2006/relationships/image\" Target=\"../media/"@
            + media_name(g + k, is.last()) + "\"/>"@
    }
}

/// The relationships part of a slide whose images start at package image `g`.
pub open spec fn spec_slide_rels_xml(es: Seq<ElementV>, g: nat) -> Seq<char> {
    "<?xml version=\"1.0\" encoding=\"UTF-8\" standalone=\"yes\"?><Relationships xmlns=\"http://schemas.openxmlformats.org/package/2006/relationships\">"@ + image_rels(slide_images(es), g) + "</Relationships>"@
}

/// All images of the package, slide by slide.
pub open spec fn all_images(slides: Seq<Seq<ElementV>>) -> Seq<ImageV>
    decreases slides.len(),
{
    if slides.len() == 0 {
        Seq::empty()
    } else {
        all_images(slides.drop_last()) + slide_images(slides.last())
    }
}

pub open spec fn slide_part_name(n: nat) -> Seq<char> {
    "ppt/slides/slide"@ + decimal(n) + ".xml"@
}

pub open spec fn slide_rels_part_name(n: nat) -> Seq<char> {
    "ppt/slides/_rels/slide"@ + decimal(n) + ".xml.rels"@
}

/// The slide parts (and the relationship parts of slides with images).
pub open spec fn slide_entries(slides: Seq<Seq<ElementV>>) -> Seq<(Seq<char>, Seq<u8>)>
    decreases slides.len(),
{
    if slides.len() == 0 {
        Seq::empty()
    } else {
        let n = slides.len();
        let es = slides.last();
        let g = all_images(slides.drop_last()).len();
        let r = slide_entries(slides.drop_last()).push((slide_part_name(n), utf8(spec_slide_xml(es))));
        if slide_images(es).len() > 0 {
            r.push((slide_rels_part_name(n), utf8(spec_slide_rels_xml(es, g))))
        } else {
            r
        }
    }
}

pub open spec fn media_entries(imgs: Seq<ImageV>) -> Seq<(Seq<char>, Seq<u8>)>
    decreases imgs.len(),
{
    if imgs.len() == 0 {
        Seq::empty()
    } else {
        media_entries(imgs.drop_last()).push(
            ("ppt/media/"@ + media_name((imgs.len() - 1) as nat, imgs.last()), imgs.last().data),
        )
    }
}

pub open spec fn content_type_of(ext: Seq<char>) -> Seq<char> {
    if ext == "png"@ {
        "image/png"@
    } else if ext == "jpg"@ {
        "image/jpeg"@
    } else if ext == "gif"@ {
        "image/gif"@
    } else {
        "application/octet-stream"@
    }
}

pub open spec fn slide_overrides(n: nat) -> Seq<char>
    decreases n,
{
    if n == 0 {
        Seq::empty()
    } else {
        slide_overrides((n - 1) as nat) + "<Override PartName=\"/ppt/slides/slide"@ + decimal(n) + ".xml\" ContentType=\"application/vnd.openxmlformats-officedocument.presentationml.slide+xml\"/>"@
    }
}

pub open spec fn media_defaults(imgs: Seq<ImageV>) -> Seq<char>
    decreases imgs.len(),
{
    if imgs.len() == 0 {
        Seq::empty()
    } else {
        let ext = media_ext(imgs.last());
        media_defaults(imgs.drop_last()) + "<Default Extension=\""@ + ext + "\" ContentType=\""@ + content_type_of(ext)
            + "\"/>"@
    }
}

pub open spec fn spec_content_types_xml(n: nat, imgs: Seq<ImageV>) -> Seq<char> {
    "<?xml version=\"1.0\" encoding=\"UTF-8\" standalone=\"yes\"?><Types xmlns=\"http://schemas.openxmlformats.org/package/2006/content-types\"><Default Extension=\"rels\" ContentType=\"application/vnd.openxmlformats-package.relationships+xml\"/><Default Extension=\"xml\" ContentType=\"application/xml\"/><Override PartName=\"/ppt/presentation.xml\" ContentType=\"application/vnd.openxmlformats-officedocument.presentationml.presentation.main+xml\"/><Override PartName=\"/docProps/core.xml\" ContentType=\"application/vnd.openxmlformats-package.core-properties+xml\"/><Override PartName=\"/docProps/app.xml\" ContentType=\"application/vnd.openxmlformats-officedocument.extended-properties+xml\"/>"@ + slide_overrides(n) + media_defaults(imgs) + "</Types>"@
}

pub open spec fn slide_ids(n: nat) -> Seq<char>
    decreases n,
{
    if n == 0 {
        Seq::empty()
    } else {
        slide_ids((n - 1) as nat) + "<p:sldId id=\""@ + decimal(255 + n) + "\" r:id=\"rId"@ + decimal(n) + "\"/>"@
    }
}

pub open spec fn spec_presentation_xml(n: nat) -> Seq<char> {
    "<?xml version=\"1.0\" encoding=\"UTF-8\" standalone=\"yes\"?><p:presentation xmlns:a=\"http://schemas.openxmlformats.org/drawingml/2006/main\" xmlns:r=\"http://schemas.openxmlformats.org/officeDocument/2006/relationships\" xmlns:p=\"http://schemas.openxmlformats.org/presentationml/2006/main\"><p:sldSz cx=\"13004800\" cy=\"7315200\" type=\"wide\"/><p:notesSz cx=\"6858000\" cy=\"9144000\"/><p:sldIdLst>"@ + slide_ids(n) + "</p:sldIdLst></p:presentation>"@
}

pub open spec fn slide_rels(n: nat) -> Seq<char>
    decreases n,
{
    if n == 0 {
        Seq::empty()
    } else {
        slide_rels((n - 1) as nat) + "<Relationship Id=\"rId"@ + decimal(n) + "\" Type=\"http://schemas.openxmlformats.org/officeDocument/2006/relationships/slide\" Target=\"slides/slide"@ + decimal(n) + ".xml\"/>"@
    }
}

pub open spec fn spec_presentation_rels_xml(n: nat) -> Seq<char> {
    "<?xml version=\"1.0\" encoding=\"UTF-8\" standalone=\"yes\"?><Relationships xmlns=\"http://schemas.openxmlformats.org/package/2006/relationships\">"@ + slide_rels(n) + "</Relationships>"@
}

/// Every part of the package, in the order it is written.
pub open spec fn pptx_entries(slides: Seq<Seq<ElementV>>) -> Seq<(Seq<char>, Seq<u8>)> {
    let n = slides.len();
    let imgs = all_images(slides);
    slide_entries(slides) + media_entries(imgs) + seq![
        ("[Content_Types].xml"@, utf8(spec_content_types_xml(n, imgs))),
        ("_rels/.rels"@, utf8("<?xml version=\"1.0\" encoding=\"UTF-8\" standalone=\"yes\"?><Relationships xmlns=\"http://schemas.openxmlformats.org/package/2006/relationships\"><Relationship Id=\"rId1\" Type=\"http://schemas.openxmlformats.org/officeDocument/2006/relationships/officeDocument\" Target=\"ppt/presentation.xml\"/><Relationship Id=\"rId2\" Type=\"http://schemas.openxmlformats.org/package/2006/relationships/metadata/core-properties\" Target=\"docProps/core.xml\"/><Relationship Id=\"rId3\" Type=\"http://schemas.openxmlformats.org/officeDocument/2006/relationships/extended-properties\" Target=\"docProps/app.xml\"/></Relationships>"@)),
        ("docProps/app.xml"@, utf8("<?xml version=\"1.0\" encoding=\"UTF-8\" standalone=\"yes\"?><Properties xmlns=\"http://schemas.openxmlformats.org/officeDocument/2006/extended-properties\" xmlns:vt=\"http://schemas.openxmlformats.org/officeDocument/2006/docPropsVTypes\"><Application>render-slides</Application></Properties>"@)),
        ("docProps/core.xml"@, utf8("<?xml version=\"1.0\" encoding=\"UTF-8\" standalone=\"yes\"?><cp:coreProperties xmlns:cp=\"http://schemas.openxmlformats.org/package/2006/metadata/core-properties\" xmlns:dc=\"http://purl.org/dc/elements/1.1/\" xmlns:dcterms=\"http://purl.org/dc/terms/\" xmlns:dcmitype=\"http://purl.org/dc/dcmitype/\" xmlns:xsi=\"http://www.w3.org/2001/XMLSchema-instance\"><dc:title>render-slides deck</dc:title><dc:creator>render-slides</dc:creator></cp:coreProperties>"@)),
        ("ppt/presentation.xml"@, utf8(spec_presentation_xml(n))),
        ("ppt/_rels/presentation.xml.rels"@, utf8(spec_presentation_rels_xml(n))),
    ]
}

/// Font sizes of a slide's text small enough that their hundredths fit in `i64`.
pub open spec fn slide_sizes_fit(es: Seq<ElementV>) -> bool {
    forall|j: int|
        0 <= j < es.len() && (#[trigger] es[j]) is Text ==> i64::MIN <= es[j]->Text_0.font_size_pt
            * 100 <= i64::MAX
}

pub open spec fn sizes_fit(slides: Seq<Seq<ElementV>>) -> bool {
    forall|i: int| 0 <= i < slides.len() ==> slide_sizes_fit(#[trigger] slides[i])
}

fn append_para_text(p: &RichParagraph, out: &mut Vec<char>)
    ensures
        final(out)@ == old(out)@ + para_text(runs_view(p.runs@)),
{
    let mut i: usize = 0;
    proof {
        assert(runs_view(p.runs@).take(0) =~= Seq::<RunV>::empty());
        assert(old(out)@ + para_text(Seq::<RunV>::empty()) =~= old(out)@);
    }
    while i < p.runs.len()
        invariant
            i <= p.runs@.len(),
            out@ == old(out)@ + para_text(runs_view(p.runs@).take(i as int)),
        decreases p.runs@.len() - i,
    {
        let t = chars_of(p.runs[i].text.as_str());
        let mut k: usize = 0;
        let ghost before = out@;
        while k < t.len()
            invariant
                k <= t@.len(),
                out@ == before + t@.take(k as int),
            decreases t@.len() - k,
        {
            out.push(t[k]);
            assert(t@.take(k + 1) =~= t@.take(k as int).push(t@[k as int]));
            k = k + 1;
        }
        assert(t@.take(k as int) =~= t@);
        assert(runs_view(p.runs@).take(i + 1).drop_last() =~= runs_view(p.runs@).take(i as int));
        assert(out@ =~= old(out)@ + para_text(runs_view(p.runs@).take(i + 1)));
        i = i + 1;
    }
    assert(runs_view(p.runs@).take(i as int) =~= runs_view(p.runs@));
}

pub fn run_plain_text_exec(run: &IlmTextRun) -> (r: Vec<char>)
    ensures
        r@ == run_plain_text(run@),
{
    let mut out: Vec<char> = Vec::new();
    let mut have_para = false;
    let ghost bv = blocks_view(run.blocks@);
    let mut i: usize = 0;
    proof {
        assert(bv.take(0) =~= Seq::<BlockV>::empty());
        assert(out@ =~= join_lines(paragraph_texts(bv.take(0))));
    }
    while i < run.blocks.len()
        invariant
            i <= run.blocks@.len(),
            bv == blocks_view(run.blocks@),
            out@ == join_lines(paragraph_texts(bv.take(i as int))),
            have_para == (paragraph_texts(bv.take(i as int)).len() > 0),
        decreases run.blocks@.len() - i,
    {
        let ghost prev = paragraph_texts(bv.take(i as int));
        assert(bv.take(i + 1).drop_last() =~= bv.take(i as int));
        assert(bv.take(i + 1).last() == run.blocks@[i as int]@);
        match &run.blocks[i] {
            RichBlock::Paragraph(p) => {
                let ghost before = out@;
                if have_para {
                    out.push('\n');
                }
                append_para_text(p, &mut out);
                let ghost now = prev.push(para_text(runs_view(p.runs@)));
                assert(now.drop_last() =~= prev);
                proof {
                    if prev.len() > 0 {
                        assert(out@ =~= join_lines(prev) + seq!['\n'] + para_text(runs_view(p.runs@)));
                    } else {
                        assert(out@ =~= para_text(runs_view(p.runs@)));
                    }
                }
                have_para = true;
            },
            RichBlock::Table(_) => {},
        }
        i = i + 1;
    }
    assert(bv.take(i as int) =~= bv);
    out
}

fn strip_cr_exec(l: Vec<char>) -> (r: Vec<char>)
    ensures
        r@ == strip_cr(l@),
{
    let mut l = l;
    if l.len() > 0 && l[l.len() - 1] == '\r' {
        l.pop();
    }
    l
}

fn text_lines_exec(s: &Vec<char>) -> (r: Vec<Vec<char>>)
    ensures
        r@.map_values(|l: Vec<char>| l@) == text_lines(s@),
{
    let pieces = split_chars(s, '\n');
    let ghost pv = pieces@.map_values(|p: Vec<char>| p@);
    let n = pieces.len();
    let mut out: Vec<Vec<char>> = Vec::new();
    let mut i: usize = 0;
    while i + 1 < n
        invariant
            n == pieces@.len(),
            n >= 1,
            pv == pieces@.map_values(|p: Vec<char>| p@),
            i + 1 <= n,
            out@.map_values(|l: Vec<char>| l@) == pv.drop_last().take(i as int).map_values(
                |l: Seq<char>| strip_cr(l),
            ),
        decreases n - i,
    {
        let c = pieces[i].clone();
        assert(c@ == pieces@[i as int]@);
        assert(pv[i as int] == pieces@[i as int]@);
        let piece = strip_cr_exec(c);
        let ghost before = out@;
        out.push(piece);
        assert(out@.map_values(|l: Vec<char>| l@) =~= before.map_values(|l: Vec<char>| l@).push(
            strip_cr(pv[i as int]),
        ));
        assert(out@.map_values(|l: Vec<char>| l@) =~= pv.drop_last().take(i + 1).map_values(
            |l: Seq<char>| strip_cr(l),
        ));
        i = i + 1;
    }
    assert(pv.drop_last().take(i as int) =~= pv.drop_last());
    let last = pieces[n - 1].clone();
    assert(last@ == pv.last());
    if last.len() > 0 {
        let ghost before = out@;
        out.push(last);
        assert(out@.map_values(|l: Vec<char>| l@) =~= before.map_values(|l: Vec<char>| l@).push(
            pv.last(),
        ));
    }
    out
}

fn line_xml_exec(out: &mut String, line: &Vec<char>, sz: i64, bold: bool)
    ensures
        final(out)@ == old(out)@ + line_xml(line@, sz as int, bold),
{
    push_str(out, "<a:p><a:r><a:rPr lang=\"en-US\" sz=\"");
    push_signed_decimal(out, sz);
    push_str(out, "\"");
    if bold {
        push_str(out, " b=\"1\"");
    }
    let esc = html_escape(crate::text::string_from_chars(line.as_slice()).as_str());
    push_str(out, " /><a:t>");
    push_str(out, esc.as_str());
    push_str(out, "</a:t></a:r></a:p>");
    assert(out@ =~= old(out)@ + line_xml(line@, sz as int, bold));
}

fn paragraphs_xml_exec(out: &mut String, run: &IlmTextRun)
    requires
        i64::MIN <= run.font_size_pt * 100 <= i64::MAX,
    ensures
        final(out)@ == old(out)@ + paragraphs_xml(run@),
{
    let text = run_plain_text_exec(run);
    let lines = text_lines_exec(&text);
    let ghost ls = text_lines(run_plain_text(run@));
    if lines.len() == 0 {
        push_str(out, "<a:p/>");
        return;
    }
    let sz = run.font_size_pt * 100;
    let mut i: usize = 0;
    proof {
        assert(ls.take(0) =~= Seq::<Seq<char>>::empty());
        assert(out@ =~= old(out)@ + lines_xml(ls.take(0), sz as int, run.bold));
    }
    while i < lines.len()
        invariant
            i <= lines@.len(),
            ls == lines@.map_values(|l: Vec<char>| l@),
            out@ == old(out)@ + lines_xml(ls.take(i as int), sz as int, run.bold),
        decreases lines@.len() - i,
    {
        assert(ls.take(i + 1).drop_last() =~= ls.take(i as int));
        assert(ls.take(i + 1).last() == lines@[i as int]@);
        line_xml_exec(out, &lines[i], sz, run.bold);
        assert(out@ =~= old(out)@ + lines_xml(ls.take(i + 1), sz as int, run.bold));
        i = i + 1;
    }
    assert(ls.take(i as int) =~= ls);
}

fn text_shape_xml_exec(out: &mut String, run: &IlmTextRun, id: u64)
    requires
        i64::MIN <= run.font_size_pt * 100 <= i64::MAX,
    ensures
        final(out)@ == old(out)@ + text_shape_xml(run@, id as nat),
{
    push_str(out, "<p:sp><p:nvSpPr><p:cNvPr id=\"");
    push_decimal(out, id);
    push_str(out, "\" name=\"TextBox ");
    push_decimal(out, id);
    push_str(out, "\"/><p:cNvSpPr txBox=\"1\"/><p:nvPr/></p:nvSpPr><p:spPr><a:xfrm><a:off x=\"");
    push_signed_decimal(out, run.x);
    push_str(out, "\" y=\"");
    push_signed_decimal(out, run.y);
    push_str(out, "\"/><a:ext cx=\"");
    push_signed_decimal(out, run.cx);
    push_str(out, "\" cy=\"");
    push_signed_decimal(out, run.cy);
    push_str(out, "\"/></a:xfrm><a:prstGeom prst=\"rect\"><a:avLst/></a:prstGeom><a:noFill/></p:spPr><p:txBody><a:bodyPr wrap=\"square\"/><a:lstStyle/>");
    let ghost mid = out@;
    paragraphs_xml_exec(out, run);
    push_str(out, "</p:txBody></p:sp>");
    assert(out@ =~= old(out)@ + text_shape_xml(run@, id as nat));
}

fn pic_xml_exec(out: &mut String, img: &IlmImage, id: u64, k: u64)
    requires
        k < u64::MAX,
    ensures
        final(out)@ == old(out)@ + pic_xml(img@, id as nat, k as nat),
{
    push_str(out, "<p:pic><p:nvPicPr><p:cNvPr id=\"");
    push_decimal(out, id);
    push_str(out, "\" name=\"Image\"/><p:cNvPicPr/><p:nvPr/></p:nvPicPr><p:blipFill><a:blip r:embed=\"rId");
    push_decimal(out, k + 1);
    push_str(out, "\"/><a:stretch><a:fillRect/></a:stretch></p:blipFill><p:spPr><a:xfrm><a:off x=\"");
    push_signed_decimal(out, img.x);
    push_str(out, "\" y=\"");
    push_signed_decimal(out, img.y);
    push_str(out, "\"/><a:ext cx=\"");
    push_signed_decimal(out, img.cx);
    push_str(out, "\" cy=\"");
    push_signed_decimal(out, img.cy);
    push_str(out, "\"/></a:xfrm><a:prstGeom prst=\"rect\"><a:avLst/></a:prstGeom></p:spPr></p:pic>");
    assert(out@ =~= old(out)@ + pic_xml(img@, id as nat, k as nat));
}

proof fn lemma_filters_bounded(es: Seq<ElementV>)
    ensures
        slide_texts(es).len() <= es.len(),
        slide_images(es).len() <= es.len(),
    decreases es.len(),
{
    if es.len() > 0 {
        lemma_filters_bounded(es.drop_last());
    }
}

/// The XML of one slide part.
pub fn slide_xml(slide: &IlmSlide) -> (r: String)
    requires
        slide_sizes_fit(slide@),
        slide.elements@.len() <= isize::MAX,
    ensures
        r@ == spec_slide_xml(slide@),
{
    let ghost es = slide@;
    let mut out = to_string("<?xml version=\"1.0\" encoding=\"UTF-8\" standalone=\"yes\"?><p:sld xmlns:a=\"http://schemas.openxmlformats.org/drawingml/2006/main\" xmlns:r=\"http://schemas.openxmlformats.org/officeDocument/2006/relationships\" xmlns:p=\"http://schemas.openxmlformats.org/presentationml/2006/main\"><p:cSld><p:spTree><p:nvGrpSpPr><p:cNvPr id=\"1\" name=\"\"/><p:cNvGrpSpPr/><p:nvPr/></p:nvGrpSpPr><p:grpSpPr><a:xfrm><a:off x=\"0\" y=\"0\"/><a:ext cx=\"0\" cy=\"0\"/><a:chOff x=\"0\" y=\"0\"/><a:chExt cx=\"0\" cy=\"0\"/></a:xfrm></p:grpSpPr>");
    let mut nt: u64 = 0;
    let mut i: usize = 0;
    proof {
        assert(es.take(0) =~= Seq::<ElementV>::empty());
    }
    while i < slide.elements.len()
        invariant
            i <= slide.elements@.len(),
            es == slide@,
            slide_sizes_fit(es),
            slide.elements@.len() <= isize::MAX,
            nt as nat == slide_texts(es.take(i as int)).len(),
            nt <= i,
            out@ == "<?xml version=\"1.0\" encoding=\"UTF-8\" standalone=\"yes\"?><p:sld xmlns:a=\"http://schemas.openxmlformats.org/drawingml/2006/main\" xmlns:r=\"http://schemas.openxmlformats.org/officeDocument/2006/relationships\" xmlns:p=\"http://schemas.openxmlformats.org/presentationml/2006/main\"><p:cSld><p:spTree><p:nvGrpSpPr><p:cNvPr id=\"1\" name=\"\"/><p:cNvGrpSpPr/><p:nvPr/></p:nvGrpSpPr><p:grpSpPr><a:xfrm><a:off x=\"0\" y=\"0\"/><a:ext cx=\"0\" cy=\"0\"/><a:chOff x=\"0\" y=\"0\"/><a:chExt cx=\"0\" cy=\"0\"/></a:xfrm></p:grpSpPr>"@ + shapes_xml(slide_texts(es.take(i as int)), 2),
        decreases slide.elements@.len() - i,
    {
        assert(es.take(i + 1).drop_last() =~= es.take(i as int));
        assert(es.take(i + 1).last() == slide.elements@[i as int]@);
        assert(es[i as int] == slide.elements@[i as int]@);
        match &slide.elements[i] {
            IlmElement::Text(run) => {
                text_shape_xml_exec(&mut out, run, nt + 2);
                let ghost ts = slide_texts(es.take(i + 1));
                assert(ts.drop_last() =~= slide_texts(es.take(i as int)));
                assert(out@ =~= "<?xml version=\"1.0\" encoding=\"UTF-8\" standalone=\"yes\"?><p:sld xmlns:a=\"http://schemas.openxmlformats.org/drawingml/2006/main\" xmlns:r=\"http://schemas.openxmlformats.org/officeDocument/2006/relationships\" xmlns:p=\"http://schemas.openxmlformats.org/presentationml/2006/main\"><p:cSld><p:spTree><p:nvGrpSpPr><p:cNvPr id=\"1\" name=\"\"/><p:cNvGrpSpPr/><p:nvPr/></p:nvGrpSpPr><p:grpSpPr><a:xfrm><a:off x=\"0\" y=\"0\"/><a:ext cx=\"0\" cy=\"0\"/><a:chOff x=\"0\" y=\"0\"/><a:chExt cx=\"0\" cy=\"0\"/></a:xfrm></p:grpSpPr>"@ + shapes_xml(ts, 2));
                nt = nt + 1;
            },
            _ => {},
        }
        i = i + 1;
    }
    assert(es.take(i as int) =~= es);
    let mut k: u64 = 0;
    let mut j: usize = 0;
    let ghost shapes = out@;
    proof {
        lemma_filters_bounded(es);
    }
    while j < slide.elements.len()
        invariant
            j <= slide.elements@.len(),
            es == slide@,
            nt as nat == slide_texts(es).len(),
            nt <= es.len(),
            slide.elements@.len() <= isize::MAX,
            k as nat == slide_images(es.take(j as int)).len(),
            k <= j,
            nt + j <= 2 * es.len(),
            out@ == shapes + pics_xml(slide_images(es.take(j as int)), (2 + nt) as nat),
        decreases slide.elements@.len() - j,
    {
        assert(es.take(j + 1).drop_last() =~= es.take(j as int));
        assert(es.take(j + 1).last() == slide.elements@[j as int]@);
        match &slide.elements[j] {
            IlmElement::Image(img) => {
                pic_xml_exec(&mut out, img, nt + 2 + k, k);
                let ghost is = slide_images(es.take(j + 1));
                assert(is.drop_last() =~= slide_images(es.take(j as int)));
                assert(out@ =~= shapes + pics_xml(is, (2 + nt) as nat));
                k = k + 1;
            },
            _ => {},
        }
        j = j + 1;
    }
    assert(es.take(j as int) =~= es);
    push_str(&mut out, "</p:spTree></p:cSld><p:clrMapOvr><a:masterClrMapping/></p:clrMapOvr></p:sld>");
    assert(out@ =~= spec_slide_xml(es));
    out
}

pub open spec fn slides_view(s: Seq<IlmSlide>) -> Seq<Seq<ElementV>> {
    s.map_values(|x: IlmSlide| x@)
}

pub open spec fn images_view(v: Seq<&IlmImage>) -> Seq<ImageV> {
    v.map_values(|x: &IlmImage| x@)
}

fn slide_images_exec<'a>(slide: &'a IlmSlide, acc: &mut Vec<&'a IlmImage>)
    ensures
        images_view(final(acc)@) == images_view(old(acc)@) + slide_images(slide@),
{
    let ghost es = slide@;
    let mut j: usize = 0;
    proof {
        assert(es.take(0) =~= Seq::<ElementV>::empty());
        assert(images_view(acc@) =~= images_view(old(acc)@) + slide_images(es.take(0)));
    }
    while j < slide.elements.len()
        invariant
            j <= slide.elements@.len(),
            es == slide@,
            images_view(acc@) == images_view(old(acc)@) + slide_images(es.take(j as int)),
        decreases slide.elements@.len() - j,
    {
        assert(es.take(j + 1).drop_last() =~= es.take(j as int));
        assert(es.take(j + 1).last() == slide.elements@[j as int]@);
        match &slide.elements[j] {
            IlmElement::Image(img) => {
                let ghost before = acc@;
                acc.push(img);
                assert(images_view(acc@) =~= images_view(before).push(img@));
                assert(slide_images(es.take(j + 1)) =~= slide_images(es.take(j as int)).push(img@));
                assert(images_view(acc@) =~= images_view(old(acc)@) + slide_images(es.take(j + 1)));
            },
            _ => {},
        }
        j = j + 1;
    }
    assert(es.take(j as int) =~= es);
}

fn collect_images<'a>(slides: &'a Vec<IlmSlide>) -> (r: Vec<&'a IlmImage>)
    ensures
        images_view(r@) == all_images(slides_view(slides@)),
{
    let ghost sv = slides_view(slides@);
    let mut acc: Vec<&IlmImage> = Vec::new();
    let mut i: usize = 0;
    proof {
        assert(sv.take(0) =~= Seq::<Seq<ElementV>>::empty());
        assert(images_view(acc@) =~= Seq::<ImageV>::empty());
    }
    while i < slides.len()
        invariant
            i <= slides@.len(),
            sv == slides_view(slides@),
            images_view(acc@) == all_images(sv.take(i as int)),
        decreases slides@.len() - i,
    {
        assert(sv.take(i + 1).drop_last() =~= sv.take(i as int));
        assert(sv.take(i + 1).last() == slides@[i as int]@);
        slide_images_exec(&slides[i], &mut acc);
        i = i + 1;
    }
    assert(sv.take(i as int) =~= sv);
    acc
}

fn push_media_name(out: &mut String, g: u64, img: &IlmImage)
    requires
        g < u64::MAX,
    ensures
        final(out)@ == old(out)@ + media_name(g as nat, img@),
{
    push_str(out, "image");
    push_decimal(out, g + 1);
    push_str(out, ".");
    let ext = detect_image_extension(img.uri.as_str(), img.image_data.as_slice());
    push_str(out, ext);
    assert(out@ =~= old(out)@ + media_name(g as nat, img@));
}

/// The relationships part of a slide whose images start at package image `g`.
pub fn slide_rels_xml(slide: &IlmSlide, g: u64) -> (r: String)
    requires
        g + slide.elements@.len() < u64::MAX,
    ensures
        r@ == spec_slide_rels_xml(slide@, g as nat),
{
    let mut imgs: Vec<&IlmImage> = Vec::new();
    slide_images_exec(slide, &mut imgs);
    let ghost is = slide_images(slide@);
    proof {
        lemma_filters_bounded(slide@);
        assert(images_view(imgs@) =~= is);
    }
    let mut out = to_string("<?xml version=\"1.0\" encoding=\"UTF-8\" standalone=\"yes\"?><Relationships xmlns=\"http://schemas.openxmlformats.org/package/2006/relationships\">");
    let mut k: usize = 0;
    proof {
        assert(is.take(0) =~= Seq::<ImageV>::empty());
    }
    while k < imgs.len()
        invariant
            k <= imgs@.len(),
            images_view(imgs@) == is,
            is.len() <= slide.elements@.len(),
            g + slide.elements@.len() < u64::MAX,
            out@ == "<?xml version=\"1.0\" encoding=\"UTF-8\" standalone=\"yes\"?><Relationships xmlns=\"http://schemas.openxmlformats.org/package/2006/relationships\">"@ + image_rels(is.take(k as int), g as nat),
        decreases imgs@.len() - k,
    {
        assert(is.take(k + 1).drop_last() =~= is.take(k as int));
        assert(is.take(k + 1).last() == imgs@[k as int]@);
        push_str(&mut out, "<Relationship Id=\"rId");
        push_decimal(&mut out, (k + 1) as u64);
        push_str(&mut out, "\" Type=\"http://schemas.openxmlformats.org/officeDocument/2006/relationships/image\" Target=\"../media/");
        push_media_name(&mut out, g + k as u64, imgs[k]);
        push_str(&mut out, "\"/>");
        assert(out@ =~= "<?xml version=\"1.0\" encoding=\"UTF-8\" standalone=\"yes\"?><Relationships xmlns=\"http://schemas.openxmlformats.org/package/2006/relationships\">"@ + image_rels(is.take(k + 1), g as nat));
        k = k + 1;
    }
    assert(is.take(k as int) =~= is);
    push_str(&mut out, "</Relationships>");
    out
}

fn push_content_type(out: &mut String, ext: &str)
    ensures
        final(out)@ == old(out)@ + content_type_of(ext@),
{
    if str_eq(ext, "png") {
        push_str(out, "image/png");
    } else if str_eq(ext, "jpg") {
        push_str(out, "image/jpeg");
    } else if str_eq(ext, "gif") {
        push_str(out, "image/gif");
    } else {
        push_str(out, "application/octet-stream");
    }
}

/// The `[Content_Types].xml` part for `n` slides and the package images.
pub fn content_types_xml(n: u64, imgs: &Vec<&IlmImage>) -> (r: String)
    ensures
        r@ == spec_content_types_xml(n as nat, images_view(imgs@)),
{
    let mut out = to_string("<?xml version=\"1.0\" encoding=\"UTF-8\" standalone=\"yes\"?><Types xmlns=\"http://schemas.openxmlformats.org/package/2006/content-types\"><Default Extension=\"rels\" ContentType=\"application/vnd.openxmlformats-package.relationships+xml\"/><Default Extension=\"xml\" ContentType=\"application/xml\"/><Override PartName=\"/ppt/presentation.xml\" ContentType=\"application/vnd.openxmlformats-officedocument.presentationml.presentation.main+xml\"/><Override PartName=\"/docProps/core.xml\" ContentType=\"application/vnd.openxmlformats-package.core-properties+xml\"/><Override PartName=\"/docProps/app.xml\" ContentType=\"application/vnd.openxmlformats-officedocument.extended-properties+xml\"/>");
    let mut i: u64 = 0;
    let ghost head = out@;
    while i < n
        invariant
            i <= n,
            out@ == head + slide_overrides(i as nat),
        decreases n - i,
    {
        push_str(&mut out, "<Override PartName=\"/ppt/slides/slide");
        push_decimal(&mut out, i + 1);
        push_str(&mut out, ".xml\" ContentType=\"application/vnd.openxmlformats-officedocument.presentationml.slide+xml\"/>");
        assert(out@ =~= head + slide_overrides((i + 1) as nat));
        i = i + 1;
    }
    let ghost is = images_view(imgs@);
    let ghost mid = out@;
    let mut k: usize = 0;
    proof {
        assert(is.take(0) =~= Seq::<ImageV>::empty());
        assert(out@ =~= mid + media_defaults(is.take(0)));
    }
    while k < imgs.len()
        invariant
            k <= imgs@.len(),
            is == images_view(imgs@),
            out@ == mid + media_defaults(is.take(k as int)),
        decreases imgs@.len() - k,
    {
        assert(is.take(k + 1).drop_last() =~= is.take(k as int));
        assert(is.take(k + 1).last() == imgs@[k as int]@);
        let ext = detect_image_extension(imgs[k].uri.as_str(), imgs[k].image_data.as_slice());
        push_str(&mut out, "<Default Extension=\"");
        push_str(&mut out, ext);
        push_str(&mut out, "\" ContentType=\"");
        push_content_type(&mut out, ext);
        push_str(&mut out, "\"/>");
        assert(out@ =~= mid + media_defaults(is.take(k + 1)));
        k = k + 1;
    }
    assert(is.take(k as int) =~= is);
    push_str(&mut out, "</Types>");
    assert(out@ =~= spec_content_types_xml(n as nat, is));
    out
}

/// The `ppt/presentation.xml` part for `n` slides.
pub fn presentation_xml(n: u64) -> (r: String)
    requires
        n < u64::MAX - 256,
    ensures
        r@ == spec_presentation_xml(n as nat),
{
    let mut out = to_string("<?xml version=\"1.0\" encoding=\"UTF-8\" standalone=\"yes\"?><p:presentation xmlns:a=\"http://schemas.openxmlformats.org/drawingml/2006/main\" xmlns:r=\"http://schemas.openxmlformats.org/officeDocument/2006/relationships\" xmlns:p=\"http://schemas.openxmlformats.org/presentationml/2006/main\"><p:sldSz cx=\"13004800\" cy=\"7315200\" type=\"wide\"/><p:notesSz cx=\"6858000\" cy=\"9144000\"/><p:sldIdLst>");
    let ghost head = out@;
    let mut i: u64 = 0;
    while i < n
        invariant
            i <= n,
            n < u64::MAX - 256,
            out@ == head + slide_ids(i as nat),
        decreases n - i,
    {
        push_str(&mut out, "<p:sldId id=\"");
        push_decimal(&mut out, 255 + i + 1);
        push_str(&mut out, "\" r:id=\"rId");
        push_decimal(&mut out, i + 1);
        push_str(&mut out, "\"/>");
        assert(out@ =~= head + slide_ids((i + 1) as nat));
        i = i + 1;
    }
    push_str(&mut out, "</p:sldIdLst></p:presentation>");
    out
}

/// The `ppt/_rels/presentation.xml.rels` part for `n` slides.
pub fn presentation_rels_xml(n: u64) -> (r: String)
    ensures
        r@ == spec_presentation_rels_xml(n as nat),
{
    let mut out = to_string("<?xml version=\"1.0\" encoding=\"UTF-8\" standalone=\"yes\"?><Relationships xmlns=\"http://schemas.openxmlformats.org/package/2006/relationships\">");
    let ghost head = out@;
    let mut i: u64 = 0;
    while i < n
        invariant
            i <= n,
            out@ == head + slide_rels(i as nat),
        decreases n - i,
    {
        push_str(&mut out, "<Relationship Id=\"rId");
        push_decimal(&mut out, i + 1);
        push_str(&mut out, "\" Type=\"http://schemas.openxmlformats.org/officeDocument/2006/relationships/slide\" Target=\"slides/slide");
        push_decimal(&mut out, i + 1);
        push_str(&mut out, ".xml\"/>");
        assert(out@ =~= head + slide_rels((i + 1) as nat));
        i = i + 1;
    }
    push_str(&mut out, "</Relationships>");
    out
}

proof fn lemma_all_images_prefix(sv: Seq<Seq<ElementV>>, i: int)
    requires
        0 <= i <= sv.len(),
    ensures
        all_images(sv.take(i)).len() <= all_images(sv).len(),
    decreases sv.len() - i,
{
    if i < sv.len() {
        lemma_all_images_prefix(sv, i + 1);
        assert(sv.take(i + 1).drop_last() =~= sv.take(i));
    } else {
        assert(sv.take(i) =~= sv);
    }
}

/// The message of a failed zip step: `prefix`, the part's name, `": "`,
/// then the zip crate's own message.
fn zip_error(prefix: &str, name: &str, e: &String) -> (r: String)
    ensures
        r@ == prefix@ + name@ + ": "@ + e@,
{
    let mut m = to_string(prefix);
    push_str(&mut m, name);
    push_str(&mut m, ": ");
    push_str(&mut m, e.as_str());
    assert(m@ =~= prefix@ + name@ + ": "@ + e@);
    m
}

/// Writes the next part of `t`, a prefix of the package's parts `es`: the
/// one after those the archive holds.
fn add_package_part(
    zip: &mut ZipPackage,
    path: &str,
    data: &str,
    Ghost(es): Ghost<Seq<(Seq<char>, Seq<u8>)>>,
    Ghost(t): Ghost<Seq<(Seq<char>, Seq<u8>)>>,
) -> (r: Result<(), String>)
    requires
        t.is_prefix_of(es),
        names_distinct(es),
        names_short(es),
        zip_entries(*old(zip)).len() < t.len(),
        zip_entries(*old(zip)) == t.take(zip_entries(*old(zip)).len() as int),
        t[zip_entries(*old(zip)).len() as int] == (path@, utf8(data@)),
        parts_fit(zip_entries(*old(zip))),
    ensures
        r is Ok ==> zip_entries(*final(zip)) == t.take(zip_entries(*old(zip)).len() + 1int) && parts_fit(
            zip_entries(*final(zip)),
        ),
        r is Err ==> !parts_fit(es),
        r matches Err(m) ==> zip_part_failure(m@, path@),
{
    let ghost d = zip_entries(*zip).len() as int;
    proof {
        lemma_next_part(es, t, d);
    }
    let r = add_zip_file(zip, path, data);
    proof {
        if r is Ok {
            assert(zip_entries(*zip) =~= t.take(d + 1));
            lemma_parts_fit_push(zip_entries(*old(zip)), (path@, utf8(data@)));
        }
    }
    r
}

/// Packs slides into a PPTX package: one slide part per slide (and a
/// relationship part for slides with images), the images, then the
/// content types, package relationships, document properties and the
/// presentation parts.  The part names are all distinct, so the build
/// succeeds exactly when every part fits a zip entry without the
/// large-file option.
pub fn build_pptx_bytes(slides: &Vec<IlmSlide>) -> (r: Result<Vec<u8>, String>)
    requires
        sizes_fit(slides_view(slides@)),
        slides@.len() < u64::MAX - 256,
        forall|i: int| 0 <= i < slides@.len() ==> (#[trigger] slides@[i]).elements@.len() <= isize::MAX,
        all_images(slides_view(slides@)).len() <= isize::MAX,
    ensures
        r matches Ok(bytes) ==> bytes@ == zip_archive(pptx_entries(slides_view(slides@))),
        r is Ok <==> parts_fit(pptx_entries(slides_view(slides@))),
        r matches Err(m) ==> zip_failure(m@),
{
    let ghost sv = slides_view(slides@);
    let ghost es = pptx_entries(sv);
    let ghost sa = slide_entries(sv);
    let ghost ma = media_entries(all_images(sv));
    proof {
        lemma_pptx_names(sv);
        lemma_pptx_tail(sv);
        assert(sa =~= sa.subrange(0, sa.len() as int));
        lemma_prefix_concat(sa, ma, sa);
        lemma_prefix_concat(sa + ma, es.skip((sa.len() + ma.len()) as int), sa);
        assert((sa + ma) =~= (sa + ma).subrange(0, (sa + ma).len() as int));
        lemma_prefix_concat(sa + ma, es.skip((sa.len() + ma.len()) as int), sa + ma);
    }
    let imgs = collect_images(slides);
    let mut zip = zip_new();
    let mut g: u64 = 0;
    let mut i: usize = 0;
    proof {
        assert(sv.take(0) =~= Seq::<Seq<ElementV>>::empty());
    }
    while i < slides.len()
        invariant
            i <= slides@.len(),
            sv == slides_view(slides@),
            sizes_fit(sv),
            slides@.len() < u64::MAX - 256,
            forall|i: int| 0 <= i < slides@.len() ==> (#[trigger] slides@[i]).elements@.len() <= isize::MAX,
            all_images(sv).len() <= isize::MAX,
            g as nat == all_images(sv.take(i as int)).len(),
            zip_entries(zip) == slide_entries(sv.take(i as int)),
            es == pptx_entries(sv),
            sa == slide_entries(sv),
            sa.is_prefix_of(es),
            names_distinct(es),
            names_short(es),
            parts_fit(zip_entries(zip)),
        decreases slides@.len() - i,
    {
        let ghost prev = sv.take(i as int);
        assert(sv.take(i + 1).drop_last() =~= prev);
        assert(sv.take(i + 1).last() == slides@[i as int]@);
        assert(sv[i as int] == slides@[i as int]@);
        proof {
            lemma_all_images_prefix(sv, i + 1);
            lemma_filters_bounded(slides@[i as int]@);
        }
        let xml = slide_xml(&slides[i]);
        let mut name = to_string("ppt/slides/slide");
        push_decimal(&mut name, (i + 1) as u64);
        push_str(&mut name, ".xml");
        let ghost t = slide_entries(sv.take(i + 1));
        proof {
            lemma_slide_entries_prefix(sv, i + 1);
            lemma_prefix_trans(t, sa, es);
            assert(zip_entries(zip) =~= t.take(zip_entries(zip).len() as int));
        }
        match add_package_part(&mut zip, name.as_str(), xml.as_str(), Ghost(es), Ghost(t)) {
            Ok(()) => {},
            Err(e) => {
                assert(zip_part_failure(e@, name@));
                return Err(e);
            },
        }
        let mut own: Vec<&IlmImage> = Vec::new();
        slide_images_exec(&slides[i], &mut own);
        assert(images_view(own@) =~= slide_images(slides@[i as int]@));
        if own.len() > 0 {
            let rels = slide_rels_xml(&slides[i], g);
            let mut rname = to_string("ppt/slides/_rels/slide");
            push_decimal(&mut rname, (i + 1) as u64);
            push_str(&mut rname, ".xml.rels");
            match add_package_part(&mut zip, rname.as_str(), rels.as_str(), Ghost(es), Ghost(t)) {
                Ok(()) => {},
                Err(e) => {
                    assert(zip_part_failure(e@, rname@));
                    return Err(e);
                },
            }
        }
        assert(zip_entries(zip) =~= slide_entries(sv.take(i + 1)));
        g = g + own.len() as u64;
        i = i + 1;
    }
    assert(sv.take(i as int) =~= sv);
    let ghost iv = images_view(imgs@);
    let ghost head = zip_entries(zip);
    let mut k: usize = 0;
    proof {
        assert(iv.take(0) =~= Seq::<ImageV>::empty());
        assert(head + media_entries(iv.take(0)) =~= head);
    }
    while k < imgs.len()
        invariant
            k <= imgs@.len(),
            iv == images_view(imgs@),
            iv == all_images(sv),
            sv == slides_view(slides@),
            es == pptx_entries(sv),
            imgs@.len() <= isize::MAX,
            zip_entries(zip) == head + media_entries(iv.take(k as int)),
            head == sa,
            ma == media_entries(iv),
            (sa + ma).is_prefix_of(es),
            names_distinct(es),
            names_short(es),
            parts_fit(zip_entries(zip)),
        decreases imgs@.len() - k,
    {
        assert(iv.take(k + 1).drop_last() =~= iv.take(k as int));
        assert(iv.take(k + 1).last() == imgs@[k as int]@);
        let mut mname = String::new();
        push_media_name(&mut mname, k as u64, imgs[k]);
        let mut path = to_string("ppt/media/");
        push_str(&mut path, mname.as_str());
        let ghost t = head + media_entries(iv.take(k + 1));
        let ghost d = zip_entries(zip).len() as int;
        proof {
            lemma_media_entries_prefix(iv, k + 1);
            lemma_prefix_concat(head, ma, media_entries(iv.take(k + 1)));
            lemma_prefix_trans(t, sa + ma, es);
            assert(zip_entries(zip) =~= t.take(d));
            assert(t[d] == (path@, imgs@[k as int].image_data@));
            lemma_next_part(es, t, d);
        }
        match zip_start_file(&mut zip, path.as_str()) {
            Ok(()) => {},
            Err(e) => {
                let m = zip_error("PPTX zip start_file error for media ", mname.as_str(), &e);
                proof {
                    reveal_strlit("PPTX zip start_file error for media ");
                    reveal_strlit("PPTX zip start_file error for ");
                    reveal_strlit("media ");
                    let p = "PPTX zip start_file error for "@ + ("media "@ + mname@) + ": "@;
                    assert(m@.subrange(0, p.len() as int) =~= p);
                    assert(zip_part_failure(m@, "media "@ + mname@));
                }
                return Err(m);
            },
        }
        let ghost started = zip_entries(zip);
        assert(started.last().1.len() == 0);
        assert(zip_writing(zip) && started.len() > 0);
        let data = imgs[k].image_data.as_slice();
        assert(data@ == imgs@[k as int].image_data@);
        match zip_write_all(&mut zip, data) {
            Ok(()) => {},
            Err(e) => {
                let m = zip_error("PPTX zip write error for media ", mname.as_str(), &e);
                proof {
                    assert(data@.len() > u32::MAX);
                    assert(!parts_fit(es));
                    reveal_strlit("PPTX zip write error for media ");
                    reveal_strlit("PPTX zip write error for ");
                    reveal_strlit("media ");
                    let p = "PPTX zip write error for "@ + ("media "@ + mname@) + ": "@;
                    assert(m@.subrange(0, p.len() as int) =~= p);
                    assert(zip_part_failure(m@, "media "@ + mname@));
                }
                return Err(m);
            },
        }
        proof {
            assert(Seq::<u8>::empty() + imgs@[k as int].image_data@ =~= imgs@[k as int].image_data@);
            if imgs@[k as int].image_data@.len() == 0 {
                assert(zip_entries(zip) =~= head + media_entries(iv.take(k + 1)));
            }
            assert(zip_entries(zip) =~= head + media_entries(iv.take(k + 1)));
            assert(zip_entries(zip) =~= started.drop_last().push((path@, imgs@[k as int].image_data@)));
            assert(started.drop_last() =~= t.take(d));
            lemma_parts_fit_push(started.drop_last(), (path@, imgs@[k as int].image_data@));
        }
        k = k + 1;
    }
    assert(iv.take(k as int) =~= iv);
    let ghost h = sa.len() + ma.len();
    let n = slides.len() as u64;
    let ct = content_types_xml(n, &imgs);
    proof {
        assert(zip_entries(zip) =~= es.take(h as int));
        assert(es =~= es.subrange(0, es.len() as int));
    }
    match add_package_part(&mut zip, "[Content_Types].xml", ct.as_str(), Ghost(es), Ghost(es)) {
        Ok(()) => {},
        Err(e) => {
            assert(zip_part_failure(e@, "[Content_Types].xml"@));
            return Err(e);
        },
    }
    match add_package_part(&mut zip, "_rels/.rels", "<?xml version=\"1.0\" encoding=\"UTF-8\" standalone=\"yes\"?><Relationships xmlns=\"http://schemas.openxmlformats.org/package/2006/relationships\"><Relationship Id=\"rId1\" Type=\"http://schemas.openxmlformats.org/officeDocument/2006/relationships/officeDocument\" Target=\"ppt/presentation.xml\"/><Relationship Id=\"rId2\" Type=\"http://schemas.openxmlformats.org/package/2006/relationships/metadata/core-properties\" Target=\"docProps/core.xml\"/><Relationship Id=\"rId3\" Type=\"http://schemas.openxmlformats.org/officeDocument/2006/relationships/extended-properties\" Target=\"docProps/app.xml\"/></Relationships>", Ghost(es), Ghost(es)) {
        Ok(()) => {},
        Err(e) => {
            assert(zip_part_failure(e@, "_rels/.rels"@));
            return Err(e);
        },
    }
    match add_package_part(&mut zip, "docProps/app.xml", "<?xml version=\"1.0\" encoding=\"UTF-8\" standalone=\"yes\"?><Properties xmlns=\"http://schemas.openxmlformats.org/officeDocument/2006/extended-properties\" xmlns:vt=\"http://schemas.openxmlformats.org/officeDocument/2006/docPropsVTypes\"><Application>render-slides</Application></Properties>", Ghost(es), Ghost(es)) {
        Ok(()) => {},
        Err(e) => {
            assert(zip_part_failure(e@, "docProps/app.xml"@));
            return Err(e);
        },
    }
    match add_package_part(&mut zip, "docProps/core.xml", "<?xml version=\"1.0\" encoding=\"UTF-8\" standalone=\"yes\"?><cp:coreProperties xmlns:cp=\"http://schemas.openxmlformats.org/package/2006/metadata/core-properties\" xmlns:dc=\"http://purl.org/dc/elements/1.1/\" xmlns:dcterms=\"http://purl.org/dc/terms/\" xmlns:dcmitype=\"http://purl.org/dc/dcmitype/\" xmlns:xsi=\"http://www.w3.org/2001/XMLSchema-instance\"><dc:title>render-slides deck</dc:title><dc:creator>render-slides</dc:creator></cp:coreProperties>", Ghost(es), Ghost(es)) {
        Ok(()) => {},
        Err(e) => {
            assert(zip_part_failure(e@, "docProps/core.xml"@));
            return Err(e);
        },
    }
    let pres = presentation_xml(n);
    match add_package_part(&mut zip, "ppt/presentation.xml", pres.as_str(), Ghost(es), Ghost(es)) {
        Ok(()) => {},
        Err(e) => {
            assert(zip_part_failure(e@, "ppt/presentation.xml"@));
            return Err(e);
        },
    }
    let prels = presentation_rels_xml(n);
    match add_package_part(&mut zip, "ppt/_rels/presentation.xml.rels", prels.as_str(), Ghost(es), Ghost(es)) {
        Ok(()) => {},
        Err(e) => {
            assert(zip_part_failure(e@, "ppt/_rels/presentation.xml.rels"@));
            return Err(e);
        },
    }
    assert(zip_entries(zip) =~= es);
    match zip_finish(zip) {
        Ok(bytes) => Ok(bytes),
        Err(e) => {
            let mut m = to_string("PPTX zip finalize error: ");
            push_str(&mut m, e.as_str());
            assert(m@.subrange(0, "PPTX zip finalize error: "@.len() as int) =~= "PPTX zip finalize error: "@);
            Err(m)
        },
    }
}

} // verus!
