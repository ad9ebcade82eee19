//! Markdown slot text turned into rich paragraphs.
//!
//! CommonMark itself is parsed by `pulldown_cmark`; this module folds its
//! event stream into paragraphs carrying list depth, quote and code state,
//! and per-run inline formatting.
use vstd::prelude::*;

use pulldown_cmark::{Event, Options, Parser, Tag, TagEnd};

use crate::text::{push_char, string_pop, to_string};

verus! {

/// Kind of a list a paragraph belongs to; an ordered list carries the
/// number of its current item.
#[derive(Clone, Copy, PartialEq, Eq, Structural, Debug)]
pub enum ListType {
    Unordered,
    Ordered(u64),
}

/// A stretch of text with uniform inline formatting.
#[derive(Clone, Debug)]
pub struct RichRun {
    pub text: String,
    pub bold: bool,
    pub italic: bool,
    pub strikethrough: bool,
    pub is_code: bool,
}

/// One paragraph of runs.
#[derive(Clone, Debug)]
pub struct RichParagraph {
    pub runs: Vec<RichRun>,
    pub list_level: u8,
    pub list_type: Option<ListType>,
    pub is_quote: bool,
    pub is_code_block: bool,
}

/// A table block; tables are not filled in yet.
#[derive(Clone, Debug)]
pub struct RichTable {}

/// A block of rich text.
#[derive(Clone, Debug)]
pub enum RichBlock {
    Paragraph(RichParagraph),
    Table(RichTable),
}

pub struct RunV {
    pub text: Seq<char>,
    pub bold: bool,
    pub italic: bool,
    pub strikethrough: bool,
    pub is_code: bool,
}

pub struct ParaV {
    pub runs: Seq<RunV>,
    pub list_level: u8,
    pub list_type: Option<ListType>,
    pub is_quote: bool,
    pub is_code_block: bool,
}

pub enum BlockV {
    Paragraph(ParaV),
    Table,
}

impl View for RichRun {
    type V = RunV;

    open spec fn view(&self) -> RunV {
        RunV {
            text: self.text@,
            bold: self.bold,
            italic: self.italic,
            strikethrough: self.strikethrough,
            is_code: self.is_code,
        }
    }
}

pub open spec fn runs_view(runs: Seq<RichRun>) -> Seq<RunV> {
    runs.map_values(|r: RichRun| r@)
}

impl View for RichParagraph {
    type V = ParaV;

    open spec fn view(&self) -> ParaV {
        ParaV {
            runs: runs_view(self.runs@),
            list_level: self.list_level,
            list_type: self.list_type,
            is_quote: self.is_quote,
            is_code_block: self.is_code_block,
        }
    }
}

impl View for RichBlock {
    type V = BlockV;

    open spec fn view(&self) -> BlockV {
        match self {
            RichBlock::Paragraph(p) => BlockV::Paragraph(p@),
            RichBlock::Table(_) => BlockV::Table,
        }
    }
}

pub open spec fn blocks_view(blocks: Seq<RichBlock>) -> Seq<BlockV> {
    blocks.map_values(|b: RichBlock| b@)
}

/// The element kinds of a Markdown event that the fold distinguishes.
#[derive(Clone, Copy, PartialEq, Eq, Structural, Debug)]
pub enum MdTag {
    Paragraph,
    Heading,
    BlockQuote,
    CodeBlock,
    List,
    Item,
    Strong,
    Emphasis,
    Strikethrough,
    Other,
}

/// One Markdown parser event: a start carries the first number of an
/// ordered list.
pub enum MdEvent {
    Start(MdTag, Option<u64>),
    End(MdTag),
    Text(String),
    Code(String),
    SoftBreak,
    HardBreak,
    Other,
}

pub enum MdEventV {
    Start(MdTag, Option<u64>),
    End(MdTag),
    Text(Seq<char>),
    Code(Seq<char>),
    SoftBreak,
    HardBreak,
    Other,
}

impl View for MdEvent {
    type V = MdEventV;

    open spec fn view(&self) -> MdEventV {
        match self {
            MdEvent::Start(t, n) => MdEventV::Start(*t, *n),
            MdEvent::End(t) => MdEventV::End(*t),
            MdEvent::Text(s) => MdEventV::Text(s@),
            MdEvent::Code(s) => MdEventV::Code(s@),
            MdEvent::SoftBreak => MdEventV::SoftBreak,
            MdEvent::HardBreak => MdEventV::HardBreak,
            MdEvent::Other => MdEventV::Other,
        }
    }
}

/// The events `pulldown_cmark` produces for `text` under the option bits `options`.
pub uninterp spec fn cmark_events(text: Seq<char>, options: u32) -> Seq<MdEventV>;

/// Option bits for tables and strikethrough.
pub const MARKDOWN_OPTIONS: u32 = 10;

/// The end tag of a `pulldown_cmark` element, carried through opaquely.
#[verifier::external_type_specification]
#[verifier::external_body]
pub struct ExTagEnd(TagEnd);

/// Maps the end tag of a `pulldown_cmark` element to the kinds the fold uses,
/// one arm per variant.
#[verifier::external_body]
fn md_tag(t: &TagEnd) -> MdTag {
    match t {
        TagEnd::Paragraph => MdTag::Paragraph,
        TagEnd::Heading(_) => MdTag::Heading,
        TagEnd::BlockQuote(_) => MdTag::BlockQuote,
        TagEnd::CodeBlock => MdTag::CodeBlock,
        TagEnd::List(_) => MdTag::List,
        TagEnd::Item => MdTag::Item,
        TagEnd::Strong => MdTag::Strong,
        TagEnd::Emphasis => MdTag::Emphasis,
        TagEnd::Strikethrough => MdTag::Strikethrough,
        _ => MdTag::Other,
    }
}

/// Runs `pulldown_cmark::Parser::new_ext` on `text` with the option bits
/// `options` and converts each event; the events are named by `cmark_events`.
#[verifier::external_body]
fn markdown_events(text: &str, options: u32) -> (r: Vec<MdEvent>)
    ensures
        r@.map_values(|e: MdEvent| e@) == cmark_events(text@, options),
{
    let opts = Options::from_bits_truncate(options);
    Parser::new_ext(text, opts).map(|e| match e {
        Event::Start(t) => MdEvent::Start(md_tag(&t.to_end()), if let Tag::List(n) = t { n } else { None }),
        Event::End(t) => MdEvent::End(md_tag(&t)),
        Event::Text(s) => MdEvent::Text(s.to_string()),
        Event::Code(s) => MdEvent::Code(s.to_string()),
        Event::SoftBreak => MdEvent::SoftBreak,
        Event::HardBreak => MdEvent::HardBreak,
        _ => MdEvent::Other,
    }).collect()
}

/// The fold state: finished blocks, the open paragraph, the list nesting
/// with each list's counter, and the formatting in force.
pub struct MdState {
    pub blocks: Seq<BlockV>,
    pub current: Option<ParaV>,
    pub stack: Seq<(ListType, u64)>,
    pub is_quote: bool,
    pub is_code_block: bool,
    pub bold: bool,
    pub italic: bool,
    pub strikethrough: bool,
}

pub open spec fn md_init() -> MdState {
    MdState {
        blocks: Seq::empty(),
        current: None,
        stack: Seq::empty(),
        is_quote: false,
        is_code_block: false,
        bold: false,
        italic: false,
        strikethrough: false,
    }
}

/// Drops one trailing line feed from the last run of a paragraph.
pub open spec fn trim_para(p: ParaV) -> ParaV {
    if p.runs.len() > 0 && p.runs.last().text.len() > 0 && p.runs.last().text.last() == '\n' {
        let r = p.runs.last();
        ParaV {
            runs: p.runs.drop_last().push(
                RunV {
                    text: r.text.drop_last(),
                    bold: r.bold,
                    italic: r.italic,
                    strikethrough: r.strikethrough,
                    is_code: r.is_code,
                },
            ),
            ..p
        }
    } else {
        p
    }
}

/// Closes the open paragraph, if any, into the finished blocks.
pub open spec fn md_flush(s: MdState) -> MdState {
    match s.current {
        Some(p) => MdState { blocks: s.blocks.push(BlockV::Paragraph(trim_para(p))), current: None, ..s },
        None => s,
    }
}

/// Opens a paragraph when none is open, at the current list depth.
pub open spec fn md_open(s: MdState) -> MdState {
    if s.current is None {
        MdState {
            current: Some(
                ParaV {
                    runs: Seq::empty(),
                    list_level: s.stack.len() as u8,
                    list_type: if s.stack.len() > 0 {
                        Some(s.stack.last().0)
                    } else {
                        None
                    },
                    is_quote: s.is_quote,
                    is_code_block: s.is_code_block,
                },
            ),
            ..s
        }
    } else {
        s
    }
}

pub open spec fn with_run(p: ParaV, r: RunV) -> ParaV {
    ParaV { runs: p.runs.push(r), ..p }
}

/// Adds a run of text (formatted as the state says) to the open paragraph,
/// opening one first if needed.
pub open spec fn md_add_run(s: MdState, text: Seq<char>, is_code: bool) -> MdState {
    let s1 = md_open(s);
    let r = RunV {
        text: text,
        bold: s1.bold,
        italic: s1.italic,
        strikethrough: s1.strikethrough,
        is_code: is_code,
    };
    MdState { current: Some(with_run(s1.current->0, r)), ..s1 }
}

/// A line break becomes a plain line-feed run in an open paragraph.
pub open spec fn md_line_break(s: MdState) -> MdState {
    match s.current {
        Some(p) => MdState {
            current: Some(
                with_run(
                    p,
                    RunV {
                        text: seq!['\n'],
                        bold: false,
                        italic: false,
                        strikethrough: false,
                        is_code: false,
                    },
                ),
            ),
            ..s
        },
        None => s,
    }
}

pub open spec fn next_number(n: u64) -> u64 {
    if n == u64::MAX {
        0
    } else {
        (n + 1) as u64
    }
}

/// After an item ends, an ordered innermost list counts one further.
pub open spec fn md_count_item(s: MdState) -> MdState {
    if s.stack.len() > 0 && s.stack.last().0 is Ordered {
        let top = s.stack.last();
        MdState {
            stack: s.stack.drop_last().push(
                (ListType::Ordered(next_number(top.0->Ordered_0)), top.1),
            ),
            ..s
        }
    } else {
        s
    }
}

pub open spec fn md_start(s: MdState, t: MdTag, n: Option<u64>) -> MdState {
    match t {
        MdTag::Paragraph => md_open(md_flush(s)),
        MdTag::Heading => MdState { bold: true, ..md_open(md_flush(s)) },
        MdTag::BlockQuote => MdState { is_quote: true, ..s },
        MdTag::CodeBlock => md_open(MdState { is_code_block: true, ..md_flush(s) }),
        MdTag::List => MdState {
            stack: s.stack.push(
                match n {
                    Some(k) => (ListType::Ordered(k), k),
                    None => (ListType::Unordered, 1u64),
                },
            ),
            ..s
        },
        MdTag::Strong => MdState { bold: true, ..s },
        MdTag::Emphasis => MdState { italic: true, ..s },
        MdTag::Strikethrough => MdState { strikethrough: true, ..s },
        _ => s,
    }
}

pub open spec fn md_end(s: MdState, t: MdTag) -> MdState {
    match t {
        MdTag::Paragraph => MdState { is_code_block: false, ..md_flush(s) },
        MdTag::CodeBlock => MdState { is_code_block: false, ..md_flush(s) },
        MdTag::Heading => MdState { bold: false, is_code_block: false, ..md_flush(s) },
        MdTag::BlockQuote => MdState { is_quote: false, ..s },
        MdTag::List => if s.stack.len() > 0 {
            MdState { stack: s.stack.drop_last(), ..s }
        } else {
            s
        },
        MdTag::Item => md_count_item(md_flush(s)),
        MdTag::Strong => MdState { bold: false, ..s },
        MdTag::Emphasis => MdState { italic: false, ..s },
        MdTag::Strikethrough => MdState { strikethrough: false, ..s },
        _ => s,
    }
}

/// One step of the fold.
pub open spec fn md_step(s: MdState, e: MdEventV) -> MdState {
    match e {
        MdEventV::Start(t, n) => md_start(s, t, n),
        MdEventV::End(t) => md_end(s, t),
        MdEventV::Text(t) => md_add_run(s, t, false),
        MdEventV::Code(t) => md_add_run(s, t, true),
        MdEventV::SoftBreak => md_line_break(s),
        MdEventV::HardBreak => md_line_break(s),
        MdEventV::Other => s,
    }
}

/// The fold over a sequence of events.
pub open spec fn md_run(evs: Seq<MdEventV>) -> MdState
    decreases evs.len(),
{
    if evs.len() == 0 {
        md_init()
    } else {
        md_step(md_run(evs.drop_last()), evs.last())
    }
}

/// The blocks that `text` reads as.
pub open spec fn spec_parse_markdown(text: Seq<char>) -> Seq<BlockV> {
    md_flush(md_run(cmark_events(text, MARKDOWN_OPTIONS))).blocks
}

struct MdBuilder {
    blocks: Vec<RichBlock>,
    current: Option<RichParagraph>,
    stack: Vec<(ListType, u64)>,
    is_quote: bool,
    is_code_block: bool,
    bold: bool,
    italic: bool,
    strikethrough: bool,
}

impl View for MdBuilder {
    type V = MdState;

    closed spec fn view(&self) -> MdState {
        MdState {
            blocks: blocks_view(self.blocks@),
            current: match self.current {
                Some(p) => Some(p@),
                None => None,
            },
            stack: self.stack@,
            is_quote: self.is_quote,
            is_code_block: self.is_code_block,
            bold: self.bold,
            italic: self.italic,
            strikethrough: self.strikethrough,
        }
    }
}

fn trim_last_newline(p: &mut RichParagraph)
    ensures
        final(p)@ == trim_para(old(p)@),
{
    if p.runs.len() > 0 {
        let ghost old_runs = p.runs@;
        let mut r = p.runs.pop().unwrap();
        let ghost old_text = r.text@;
        match string_pop(&mut r.text) {
            Some(c) => {
                if c != '\n' {
                    push_char(&mut r.text, c);
                    assert(r.text@ =~= old_text);
                }
            },
            None => {},
        }
        p.runs.push(r);
        assert(runs_view(p.runs@) =~= trim_para(old(p)@).runs) by {
            assert(old_runs.drop_last() =~= p.runs@.drop_last());
        }
    }
}

impl MdBuilder {
    fn new() -> (b: MdBuilder)
        ensures
            b@ == md_init(),
    {
        let b = MdBuilder {
            blocks: Vec::new(),
            current: None,
            stack: Vec::new(),
            is_quote: false,
            is_code_block: false,
            bold: false,
            italic: false,
            strikethrough: false,
        };
        assert(blocks_view(b.blocks@) =~= Seq::empty());
        b
    }

    fn flush(&mut self)
        ensures
            final(self)@ == md_flush(old(self)@),
    {
        match self.current.take() {
            Some(p) => {
                let mut p = p;
                trim_last_newline(&mut p);
                let ghost old_blocks = self.blocks@;
                self.blocks.push(RichBlock::Paragraph(p));
                assert(blocks_view(self.blocks@) =~= blocks_view(old_blocks).push(
                    BlockV::Paragraph(p@),
                ));
            },
            None => {},
        }
    }

    fn open(&mut self)
        ensures
            final(self)@ == md_open(old(self)@),
    {
        if self.current.is_none() {
            let list_type = if self.stack.len() > 0 {
                Some(self.stack[self.stack.len() - 1].0)
            } else {
                None
            };
            let p = RichParagraph {
                runs: Vec::new(),
                list_level: self.stack.len() as u8,
                list_type: list_type,
                is_quote: self.is_quote,
                is_code_block: self.is_code_block,
            };
            assert(runs_view(p.runs@) =~= Seq::empty());
            self.current = Some(p);
        }
    }

    fn add_run(&mut self, text: String, is_code: bool)
        ensures
            final(self)@ == md_add_run(old(self)@, text@, is_code),
    {
        self.open();
        let r = RichRun {
            text: text,
            bold: self.bold,
            italic: self.italic,
            strikethrough: self.strikethrough,
            is_code: is_code,
        };
        let mut p = self.current.take().unwrap();
        let ghost old_runs = p.runs@;
        p.runs.push(r);
        assert(runs_view(p.runs@) =~= runs_view(old_runs).push(r@));
        self.current = Some(p);
    }

    fn line_break(&mut self)
        ensures
            final(self)@ == md_line_break(old(self)@),
    {
        if self.current.is_some() {
            let mut t = String::new();
            push_char(&mut t, '\n');
            let r = RichRun { text: t, bold: false, italic: false, strikethrough: false, is_code: false };
            let mut p = self.current.take().unwrap();
            let ghost old_runs = p.runs@;
            p.runs.push(r);
            assert(r.text@ =~= seq!['\n']);
            assert(runs_view(p.runs@) =~= runs_view(old_runs).push(r@));
            self.current = Some(p);
        }
    }

    fn count_item(&mut self)
        ensures
            final(self)@ == md_count_item(old(self)@),
    {
        if self.stack.len() > 0 {
            let top = self.stack[self.stack.len() - 1];
            match top.0 {
                ListType::Ordered(n) => {
                    let next = if n == u64::MAX {
                        0
                    } else {
                        n + 1
                    };
                    let ghost old_stack = self.stack@;
                    self.stack.pop();
                    self.stack.push((ListType::Ordered(next), top.1));
                    assert(self.stack@ =~= old_stack.drop_last().push(
                        (ListType::Ordered(next_number(n)), top.1),
                    ));
                },
                ListType::Unordered => {},
            }
        }
    }

    fn start(&mut self, t: MdTag, n: Option<u64>)
        ensures
            final(self)@ == md_start(old(self)@, t, n),
    {
        match t {
            MdTag::Paragraph => {
                self.flush();
                self.open();
            },
            MdTag::Heading => {
                self.flush();
                self.open();
                self.bold = true;
            },
            MdTag::BlockQuote => {
                self.is_quote = true;
            },
            MdTag::CodeBlock => {
                self.flush();
                self.is_code_block = true;
                self.open();
            },
            MdTag::List => {
                let entry = match n {
                    Some(k) => (ListType::Ordered(k), k),
                    None => (ListType::Unordered, 1u64),
                };
                self.stack.push(entry);
            },
            MdTag::Strong => {
                self.bold = true;
            },
            MdTag::Emphasis => {
                self.italic = true;
            },
            MdTag::Strikethrough => {
                self.strikethrough = true;
            },
            _ => {},
        }
    }

    fn end(&mut self, t: MdTag)
        ensures
            final(self)@ == md_end(old(self)@, t),
    {
        match t {
            MdTag::Paragraph | MdTag::CodeBlock => {
                self.flush();
                self.is_code_block = false;
            },
            MdTag::Heading => {
                self.flush();
                self.bold = false;
                self.is_code_block = false;
            },
            MdTag::BlockQuote => {
                self.is_quote = false;
            },
            MdTag::List => {
                if self.stack.len() > 0 {
                    self.stack.pop();
                }
            },
            MdTag::Item => {
                self.flush();
                self.count_item();
            },
            MdTag::Strong => {
                self.bold = false;
            },
            MdTag::Emphasis => {
                self.italic = false;
            },
            MdTag::Strikethrough => {
                self.strikethrough = false;
            },
            _ => {},
        }
    }

    fn step(&mut self, e: &MdEvent)
        ensures
            final(self)@ == md_step(old(self)@, e@),
    {
        match e {
            MdEvent::Start(t, n) => self.start(*t, *n),
            MdEvent::End(t) => self.end(*t),
            MdEvent::Text(s) => self.add_run(s.clone(), false),
            MdEvent::Code(s) => self.add_run(s.clone(), true),
            MdEvent::SoftBreak => self.line_break(),
            MdEvent::HardBreak => self.line_break(),
            MdEvent::Other => {},
        }
    }
}

/// Parses Markdown slot text into paragraphs of formatted runs.
pub fn parse_markdown(text: &str) -> (r: Vec<RichBlock>)
    ensures
        blocks_view(r@) == spec_parse_markdown(text@),
{
    let events = markdown_events(text, MARKDOWN_OPTIONS);
    let ghost evs = cmark_events(text@, MARKDOWN_OPTIONS);
    let mut b = MdBuilder::new();
    proof {
        assert(evs.take(0) =~= Seq::<MdEventV>::empty());
        assert(evs =~= events@.map_values(|e: MdEvent| e@));
    }
    let mut i: usize = 0;
    while i < events.len()
        invariant
            i <= events@.len(),
            evs.len() == events@.len(),
            evs == events@.map_values(|e: MdEvent| e@),
            b@ == md_run(evs.take(i as int)),
        decreases events@.len() - i,
    {
        assert(evs.take(i + 1).drop_last() =~= evs.take(i as int));
        b.step(&events[i]);
        i = i + 1;
    }
    b.flush();
    assert(evs.take(i as int) =~= evs);
    b.blocks
}

} // verus!
