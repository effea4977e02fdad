//! Markdown documents as blocks of content: the text of paragraphs, list
//! items and headings, code blocks, images to load with their captions, and
//! rules, in document order. The document is parsed by pulldown-cmark; what
//! its events make is this module's own logic.

use pulldown_cmark::{CodeBlockKind, Event, Parser, Tag};
use vstd::prelude::*;
use vstd::string::{StrSliceExecFns, StringExecFns};

use crate::audio::{decimal, push_decimal_wide};
use crate::resources::{entries_view, id_view, ResourceId, ResourceType};

verus! {

/// A markdown parser event, as the renderer reads it.
#[derive(Clone, Debug, PartialEq, Eq)]
pub enum MdEvent {
    /// The start of an element not listed below, by the name the parser
    /// gives the element's end (`Paragraph`, `Heading(H2)`, `Item`,
    /// `CodeBlock` for indented code, `Strong`, ...).
    Start(String),
    /// The start of a list, with the number of its first item when it is
    /// ordered.
    StartList(Option<u64>),
    /// The start of an image, with its destination.
    StartImage(String),
    /// The start of a fenced code block, with its info string.
    StartFencedCode(String),
    /// The end of an element, by the name the parser gives it
    /// (`Paragraph`, `Heading(H1)`, `List(true)`, `Item`, `Image`, ...).
    End(String),
    /// The text of a text node or of an inline code span.
    Text(String),
    SoftBreak,
    HardBreak,
    Rule,
    /// Any other event (inline HTML, footnote references, math, ...).
    Other,
}

/// The events that pulldown-cmark yields for a document, with its default
/// options.
pub uninterp spec fn md_events(text: Seq<char>) -> Seq<MdEvent>;

/// Parses a markdown document with `pulldown_cmark::Parser::new` and reads
/// its events: the contract claims only that the result is the parser's
/// output for the text, each event converted one for one (an element's
/// start or end by the debug name of `TagEnd`, which the parser derives).
#[verifier::external_body]
fn markdown_events(text: &str) -> (r: Vec<MdEvent>)
    ensures
        r@ == md_events(text@),
{
    Parser::new(text)
        .map(|event| match event {
            Event::Start(Tag::List(first)) => MdEvent::StartList(first),
            Event::Start(Tag::Image { dest_url, .. }) => MdEvent::StartImage(dest_url.into_string()),
            Event::Start(Tag::CodeBlock(CodeBlockKind::Fenced(info))) => MdEvent::StartFencedCode(info.into_string()),
            Event::Start(tag) => MdEvent::Start(format!("{:?}", tag.to_end())),
            Event::End(tag) => MdEvent::End(format!("{:?}", tag)),
            Event::Text(s) | Event::Code(s) => MdEvent::Text(s.into_string()),
            Event::SoftBreak => MdEvent::SoftBreak,
            Event::HardBreak => MdEvent::HardBreak,
            Event::Rule => MdEvent::Rule,
            _ => MdEvent::Other,
        })
        .collect()
}

/// A block of rendered markdown.
#[derive(Clone, Debug, PartialEq, Eq)]
pub enum MdBlock {
    /// The text of a paragraph or a list item (with its marker, `1. ` or
    /// `• `).
    Text(String),
    /// A heading of level 1 to 6.
    Heading(u8, String),
    /// A code block in a language (`plaintext` for indented code).
    Code { language: String, text: String },
    /// An image, by the resource it is loaded from.
    Image(ResourceId),
    /// The text shown under an image: its alternative text.
    Caption(String),
    /// A horizontal rule.
    Rule,
}

/// A block by its contents.
pub ghost enum MdBlockView {
    Text(Seq<char>),
    Heading(u8, Seq<char>),
    Code(Seq<char>, Seq<char>),
    /// The source kind (0 a URL, 1 a file) and its text.
    Image(int, Seq<char>),
    Caption(Seq<char>),
    Rule,
}

pub open spec fn block_view(b: MdBlock) -> MdBlockView {
    match b {
        MdBlock::Text(t) => MdBlockView::Text(t@),
        MdBlock::Heading(l, t) => MdBlockView::Heading(l, t@),
        MdBlock::Code { language, text } => MdBlockView::Code(language@, text@),
        MdBlock::Image(ResourceId::Url(u)) => MdBlockView::Image(0, u@),
        MdBlock::Image(ResourceId::File(u)) => MdBlockView::Image(1, u@),
        MdBlock::Image(ResourceId::StaticBytes(_)) => MdBlockView::Image(2, Seq::empty()),
        MdBlock::Caption(t) => MdBlockView::Caption(t@),
        MdBlock::Rule => MdBlockView::Rule,
    }
}

/// Placed blocks by their contents: each with how deep it is nested in
/// lists and list items.
pub open spec fn blocks_view(s: Seq<(usize, MdBlock)>) -> Seq<(nat, MdBlockView)> {
    s.map_values(|b: (usize, MdBlock)| (b.0 as nat, block_view(b.1)))
}

/// The state of the renderer: the text gathered so far, the number of
/// children of each open container (the document first), the numbering of
/// each open list, the language of an open code block, and the blocks made,
/// each with the depth of the container it went into.
pub ghost struct MdRender {
    pub text: Seq<char>,
    pub containers: Seq<nat>,
    pub lists: Seq<Option<u64>>,
    pub code: Option<Seq<char>>,
    pub blocks: Seq<(nat, MdBlockView)>,
    pub queued: Seq<((int, Seq<char>, Seq<u8>), ResourceType)>,
}

pub open spec fn md_start() -> MdRender {
    MdRender {
        text: Seq::empty(),
        containers: seq![0nat],
        lists: Seq::empty(),
        code: None,
        blocks: Seq::empty(),
        queued: Seq::empty(),
    }
}

/// One more child in the innermost container.
pub open spec fn bump(c: Seq<nat>) -> Seq<nat> {
    if c.len() == 0 {
        c
    } else {
        c.update(c.len() - 1, c.last() + 1)
    }
}

/// How deep the innermost container is: 0 for the document itself, one
/// more for each list and list item around it.
pub open spec fn depth_of(c: Seq<nat>) -> nat {
    if c.len() > 0 {
        (c.len() - 1) as nat
    } else {
        0
    }
}

/// Adds a block to the innermost container.
pub open spec fn emit(st: MdRender, b: MdBlockView) -> MdRender {
    MdRender { blocks: st.blocks.push((depth_of(st.containers), b)), containers: bump(st.containers), ..st }
}

/// Makes a text block of the gathered text, if there is any.
pub open spec fn flush(st: MdRender) -> MdRender {
    if st.text.len() == 0 {
        st
    } else {
        MdRender { text: Seq::empty(), ..emit(st, MdBlockView::Text(st.text)) }
    }
}

/// Closes the innermost container, which becomes a child of the one around
/// it; the document itself stays open.
pub open spec fn close_container(st: MdRender) -> MdRender {
    if st.containers.len() <= 1 {
        st
    } else {
        MdRender { containers: bump(st.containers.drop_last()), ..st }
    }
}

/// The level of a heading by the name of its end, 0 for other names.
pub open spec fn heading_level(name: Seq<char>) -> u8 {
    if name == "Heading(H1)"@ {
        1
    } else if name == "Heading(H2)"@ {
        2
    } else if name == "Heading(H3)"@ {
        3
    } else if name == "Heading(H4)"@ {
        4
    } else if name == "Heading(H5)"@ {
        5
    } else if name == "Heading(H6)"@ {
        6
    } else {
        0
    }
}

/// The number of children of the innermost container.
pub open spec fn top_count(c: Seq<nat>) -> nat {
    if c.len() > 0 {
        c.last()
    } else {
        0
    }
}

/// No open container is at the limit of the count.
pub open spec fn has_room(c: Seq<nat>) -> bool {
    forall|j: int| 0 <= j < c.len() ==> c[j] < usize::MAX
}

/// The marker of a new list item: its number, counting from the list's
/// first number over the items before it, or a bullet.
pub open spec fn item_marker(st: MdRender) -> Seq<char> {
    if st.lists.len() > 0 && st.lists.last() is Some {
        decimal((st.lists.last()->0 + top_count(st.containers)) as nat) + ". "@
    } else {
        "• "@
    }
}

/// A destination on the web rather than a file.
pub open spec fn is_web_url(url: Seq<char>) -> bool {
    url.len() >= 4 && url[0] == 'h' && url[1] == 't' && url[2] == 't' && url[3] == 'p'
}

/// The resource of an image destination, by its contents: a URL when it
/// starts with `http`, else a file path.
pub open spec fn image_id(url: Seq<char>) -> (int, Seq<char>, Seq<u8>) {
    if is_web_url(url) {
        (0, url, Seq::empty())
    } else {
        (1, url, Seq::empty())
    }
}

pub open spec fn image_block(url: Seq<char>) -> MdBlockView {
    if is_web_url(url) {
        MdBlockView::Image(0, url)
    } else {
        MdBlockView::Image(1, url)
    }
}

/// What the end of an element does.
pub open spec fn md_end(st: MdRender, name: Seq<char>) -> MdRender {
    if name == "Paragraph"@ {
        flush(st)
    } else if heading_level(name) > 0 {
        if st.text.len() == 0 {
            st
        } else {
            MdRender { text: Seq::empty(), ..emit(st, MdBlockView::Heading(heading_level(name), st.text)) }
        }
    } else if name == "CodeBlock"@ {
        match st.code {
            Some(language) => MdRender {
                text: Seq::empty(),
                code: None,
                ..emit(st, MdBlockView::Code(language, st.text))
            },
            None => st,
        }
    } else if name == "List(true)"@ || name == "List(false)"@ {
        close_container(
            MdRender {
                lists: if st.lists.len() > 0 {
                    st.lists.drop_last()
                } else {
                    st.lists
                },
                ..st
            },
        )
    } else if name == "Item"@ {
        close_container(flush(st))
    } else if name == "Image"@ {
        MdRender { text: Seq::empty(), ..emit(st, MdBlockView::Caption(st.text)) }
    } else {
        st
    }
}

/// What one event does to the renderer.
pub open spec fn md_step(st: MdRender, e: MdEvent) -> MdRender {
    match e {
        MdEvent::Start(name) => if name@ == "Item"@ {
            MdRender { text: st.text + item_marker(st), containers: st.containers.push(0), ..st }
        } else if name@ == "CodeBlock"@ {
            MdRender { code: Some("plaintext"@), ..st }
        } else {
            st
        },
        MdEvent::StartList(first) => {
            let f = flush(st);
            MdRender { lists: f.lists.push(first), containers: f.containers.push(0), ..f }
        },
        MdEvent::StartImage(url) => MdRender {
            queued: st.queued.push((image_id(url@), ResourceType::Image)),
            ..emit(st, image_block(url@))
        },
        MdEvent::StartFencedCode(info) => MdRender { code: Some(info@), ..st },
        MdEvent::End(name) => md_end(st, name@),
        MdEvent::Text(t) => MdRender { text: st.text + t@, ..st },
        MdEvent::SoftBreak => MdRender { text: st.text + " "@, ..st },
        MdEvent::HardBreak => MdRender { text: st.text + "\n"@, ..st },
        MdEvent::Rule => emit(st, MdBlockView::Rule),
        MdEvent::Other => st,
    }
}

/// The renderer after a sequence of events.
pub open spec fn md_run(events: Seq<MdEvent>) -> MdRender
    decreases events.len(),
{
    if events.len() == 0 {
        md_start()
    } else {
        md_step(md_run(events.drop_last()), events.last())
    }
}

/// The blocks that a sequence of events renders to.
pub open spec fn blocks_spec(events: Seq<MdEvent>) -> Seq<(nat, MdBlockView)> {
    md_run(events).blocks
}

/// The image resources that a sequence of events queues, in order.
pub open spec fn images_spec(events: Seq<MdEvent>) -> Seq<((int, Seq<char>, Seq<u8>), ResourceType)> {
    md_run(events).queued
}

/// No open container has more than `k` children.
pub open spec fn counts_at_most(c: Seq<nat>, k: nat) -> bool {
    forall|j: int| 0 <= j < c.len() ==> c[j] <= k
}

proof fn lemma_bump_bound(c: Seq<nat>, k: nat)
    requires
        counts_at_most(c, k),
    ensures
        counts_at_most(bump(c), k + 1),
{
}

/// After an event no open container has gained more than one child.
proof fn lemma_step_bound(st: MdRender, e: MdEvent, k: nat)
    requires
        counts_at_most(st.containers, k),
    ensures
        counts_at_most(md_step(st, e).containers, k + 1),
{
    lemma_bump_bound(st.containers, k);
    match e {
        MdEvent::End(name) => {
            if name@ == "Item"@ && st.text.len() > 0 && st.containers.len() > 1 {
                let c = flush(st).containers;
                assert forall|j: int| 0 <= j < c.drop_last().len() implies c.drop_last()[j] <= k by {
                    assert(c.drop_last()[j] == st.containers[j]);
                }
                lemma_bump_bound(c.drop_last(), k);
            }
        },
        _ => {},
    }
}

struct Renderer {
    text: String,
    containers: Vec<usize>,
    lists: Vec<Option<u64>>,
    code: Option<String>,
    blocks: Vec<(usize, MdBlock)>,
    queued: Vec<(ResourceId, ResourceType)>,
}

impl Renderer {
    spec fn view(&self) -> MdRender {
        MdRender {
            text: self.text@,
            containers: self.containers@.map_values(|c: usize| c as nat),
            lists: self.lists@,
            code: match self.code {
                Some(s) => Some(s@),
                None => None,
            },
            blocks: blocks_view(self.blocks@),
            queued: entries_view(self.queued@),
        }
    }

    fn new() -> (r: Renderer)
        ensures
            r.view() == md_start(),
    {
        let mut containers: Vec<usize> = Vec::new();
        containers.push(0);
        let r = Renderer {
            text: String::new(),
            containers,
            lists: Vec::new(),
            code: None,
            blocks: Vec::new(),
            queued: Vec::new(),
        };
        assert(r.view().containers =~= seq![0nat]);
        assert(r.view().queued =~= Seq::<((int, Seq<char>, Seq<u8>), ResourceType)>::empty());
        assert(r.view().blocks =~= Seq::<(nat, MdBlockView)>::empty());
        r
    }

    fn bump_top(&mut self)
        requires
            old(self).view().containers.len() > 0 ==> old(self).view().containers.last() < usize::MAX,
        ensures
            final(self).view() == (MdRender { containers: bump(old(self).view().containers), ..old(self).view() }),
    {
        let n = self.containers.len();
        if n > 0 {
            let c = self.containers[n - 1];
            self.containers.set(n - 1, c + 1);
        }
        assert(self.view().containers =~= bump(old(self).view().containers));
    }

    fn emit(&mut self, b: MdBlock)
        requires
            old(self).view().containers.len() > 0 ==> old(self).view().containers.last() < usize::MAX,
        ensures
            final(self).view() == emit(old(self).view(), block_view(b)),
    {
        let n = self.containers.len();
        let depth: usize = if n > 0 {
            n - 1
        } else {
            0
        };
        self.blocks.push((depth, b));
        assert(blocks_view(self.blocks@) =~= blocks_view(old(self).blocks@).push(
            (depth_of(old(self).view().containers), block_view(b)),
        ));
        self.bump_top();
    }

    /// Takes the gathered text, leaving none.
    fn take_text(&mut self) -> (r: String)
        ensures
            r@ == old(self).text@,
            final(self).view() == (MdRender { text: Seq::empty(), ..old(self).view() }),
    {
        let t = self.text.clone();
        self.text = String::new();
        t
    }

    fn flush(&mut self)
        requires
            old(self).view().containers.len() > 0 ==> old(self).view().containers.last() < usize::MAX,
        ensures
            final(self).view() == flush(old(self).view()),
    {
        if !self.text.as_str().is_empty() {
            let t = self.take_text();
            self.emit(MdBlock::Text(t));
        }
    }

    fn close_container(&mut self)
        requires
            old(self).view().containers.len() > 1 ==> old(self).view().containers[old(self).view().containers.len() - 2] < usize::MAX,
        ensures
            final(self).view() == close_container(old(self).view()),
    {
        if self.containers.len() > 1 {
            self.containers.pop();
            assert(self.view().containers =~= old(self).view().containers.drop_last());
            self.bump_top();
        }
    }

    fn end(&mut self, name: &String)
        requires
            has_room(old(self).view().containers),
        ensures
            final(self).view() == md_end(old(self).view(), name@),
    {
        let level = heading_of(name);
        if named(name, "Paragraph") {
            self.flush();
        } else if level > 0 {
            if !self.text.as_str().is_empty() {
                let t = self.take_text();
                self.emit(MdBlock::Heading(level, t));
            }
        } else if named(name, "CodeBlock") {
            if self.code.is_some() {
                let language = match self.code.take() {
                    Some(l) => l,
                    None => String::new(),
                };
                let t = self.take_text();
                self.emit(MdBlock::Code { language, text: t });
            }
        } else if named(name, "List(true)") || named(name, "List(false)") {
            if self.lists.len() > 0 {
                self.lists.pop();
            }
            self.close_container();
        } else if named(name, "Item") {
            self.flush();
            self.close_container();
        } else if named(name, "Image") {
            let t = self.take_text();
            self.emit(MdBlock::Caption(t));
        }
    }

    fn step(&mut self, e: &MdEvent)
        requires
            has_room(old(self).view().containers),
        ensures
            final(self).view() == md_step(old(self).view(), *e),
    {
        match e {
            MdEvent::Start(name) => {
                if named(name, "Item") {
                    let marker = self.item_marker();
                    self.text.append(marker.as_str());
                    self.containers.push(0);
                    assert(self.view().containers =~= old(self).view().containers.push(0));
                } else if named(name, "CodeBlock") {
                    self.code = Some(String::from_str("plaintext"));
                }
            },
            MdEvent::StartList(first) => {
                self.flush();
                self.lists.push(*first);
                self.containers.push(0);
                assert(self.view().containers =~= flush(old(self).view()).containers.push(0));
            },
            MdEvent::StartImage(url) => {
                let b = image_resource(url);
                let q = image_resource(url);
                self.queued.push((q, ResourceType::Image));
                assert(entries_view(self.queued@) =~= entries_view(old(self).queued@).push(
                    (image_id(url@), ResourceType::Image),
                ));
                self.emit(MdBlock::Image(b));
            },
            MdEvent::StartFencedCode(info) => {
                self.code = Some(info.clone());
            },
            MdEvent::End(name) => {
                self.end(name);
            },
            MdEvent::Text(t) => {
                self.text.append(t.as_str());
            },
            MdEvent::SoftBreak => {
                self.text.append(" ");
            },
            MdEvent::HardBreak => {
                self.text.append("\n");
            },
            MdEvent::Rule => {
                self.emit(MdBlock::Rule);
            },
            MdEvent::Other => {},
        }
    }

    fn item_marker(&self) -> (r: String)
        ensures
            r@ == item_marker(self.view()),
    {
        let n = self.lists.len();
        if n > 0 {
            match self.lists[n - 1] {
                Some(first) => {
                    let count: usize = if self.containers.len() > 0 {
                        self.containers[self.containers.len() - 1]
                    } else {
                        0
                    };
                    let mut s = String::new();
                    push_decimal_wide(&mut s, first as u128 + count as u128);
                    s.append(". ");
                    return s;
                },
                None => {},
            }
        }
        String::from_str("• ")
    }
}

/// Whether a name is the given one.
fn named(name: &String, lit: &str) -> (r: bool)
    ensures
        r == (name@ == lit@),
{
    let l = String::from_str(lit);
    *name == l
}

fn heading_of(name: &String) -> (r: u8)
    ensures
        r == heading_level(name@),
{
    if named(name, "Heading(H1)") {
        1
    } else if named(name, "Heading(H2)") {
        2
    } else if named(name, "Heading(H3)") {
        3
    } else if named(name, "Heading(H4)") {
        4
    } else if named(name, "Heading(H5)") {
        5
    } else if named(name, "Heading(H6)") {
        6
    } else {
        0
    }
}

/// The resource of an image destination: a URL when it starts with
/// `http`, else a file path.
fn image_resource(url: &String) -> (r: ResourceId)
    ensures
        block_view(MdBlock::Image(r)) == image_block(url@),
        id_view(r) == image_id(url@),
{
    let s = url.as_str();
    let web = s.unicode_len() >= 4 && s.get_char(0) == 'h' && s.get_char(1) == 't' && s.get_char(2) == 't'
        && s.get_char(3) == 'p';
    if web {
        ResourceId::Url(url.clone())
    } else {
        ResourceId::File(url.clone())
    }
}

/// Renders a sequence of markdown events into blocks, in document order,
/// each with how deep it is nested in lists and list items;
/// the images met are queued in `pending` as image resources, in order.
pub fn markdown_blocks(events: &Vec<MdEvent>, pending: &mut Vec<(ResourceId, ResourceType)>) -> (r: Vec<(usize, MdBlock)>)
    ensures
        blocks_view(r@) == blocks_spec(events@),
        entries_view(final(pending)@) == entries_view(old(pending)@) + images_spec(events@),
{
    let mut renderer = Renderer::new();
    let mut i: usize = 0;
    while i < events.len()
        invariant
            i <= events@.len(),
            renderer.view() == md_run(events@.take(i as int)),
            counts_at_most(renderer.view().containers, i as nat),
        decreases events@.len() - i,
    {
        proof {
            assert(events@.take(i + 1).drop_last() =~= events@.take(i as int));
            lemma_step_bound(renderer.view(), events@[i as int], i as nat);
        }
        renderer.step(&events[i]);
        i = i + 1;
    }
    assert(events@.take(events@.len() as int) =~= events@);
    let ghost before = pending@;
    let ghost queued = renderer.queued@;
    pending.append(&mut renderer.queued);
    assert(entries_view(pending@) =~= entries_view(before) + entries_view(queued));
    renderer.blocks
}

/// Renders a markdown document into blocks: its headings, the text of its
/// paragraphs and list items, its code blocks, its images with their
/// captions, and its rules, in document order, each with how deep it is
/// nested in lists and list items; the images are queued in
/// `pending` as image resources, in order.
pub fn render_markdown(markdown: &str, pending: &mut Vec<(ResourceId, ResourceType)>) -> (r: Vec<(usize, MdBlock)>)
    ensures
        blocks_view(r@) == blocks_spec(md_events(markdown@)),
        entries_view(final(pending)@) == entries_view(old(pending)@) + images_spec(md_events(markdown@)),
{
    let events = markdown_events(markdown);
    markdown_blocks(&events, pending)
}

/// The name the parser gives the end of a heading of level `n`:
/// `Heading(H1)` to `Heading(H6)`.
pub open spec fn heading_end_name(n: u8) -> Seq<char> {
    seq!['H', 'e', 'a', 'd', 'i', 'n', 'g', '(', 'H', ((('0' as u8) + n) as char), ')']
}

/// The end of a heading of level `n`, from 1 to 6, makes a heading block of
/// level `n` of the text gathered since its start, in the innermost
/// container, and leaves no text gathered; a heading without text makes no
/// block.
pub proof fn lemma_heading_ends_make_headings(st: MdRender, n: u8)
    requires
        1 <= n <= 6,
    ensures
        st.text.len() > 0 ==> md_end(st, heading_end_name(n)).blocks == st.blocks.push(
            (depth_of(st.containers), MdBlockView::Heading(n, st.text)),
        ),
        st.text.len() > 0 ==> md_end(st, heading_end_name(n)).text == Seq::<char>::empty(),
        st.text.len() == 0 ==> md_end(st, heading_end_name(n)) == st,
{
    reveal_strlit("Paragraph");
    reveal_strlit("Heading(H1)");
    reveal_strlit("Heading(H2)");
    reveal_strlit("Heading(H3)");
    reveal_strlit("Heading(H4)");
    reveal_strlit("Heading(H5)");
    reveal_strlit("Heading(H6)");
    let name = heading_end_name(n);
    assert(name[7] == '(' && "Paragraph"@[7] == 'p');
    if n == 1 {
        assert(name =~= "Heading(H1)"@);
    } else if n == 2 {
        assert(name =~= "Heading(H2)"@);
        assert(name[9] != "Heading(H1)"@[9]);
    } else if n == 3 {
        assert(name =~= "Heading(H3)"@);
        assert(name[9] != "Heading(H1)"@[9]);
        assert(name[9] != "Heading(H2)"@[9]);
    } else if n == 4 {
        assert(name =~= "Heading(H4)"@);
        assert(name[9] != "Heading(H1)"@[9]);
        assert(name[9] != "Heading(H2)"@[9]);
        assert(name[9] != "Heading(H3)"@[9]);
    } else if n == 5 {
        assert(name =~= "Heading(H5)"@);
        assert(name[9] != "Heading(H1)"@[9]);
        assert(name[9] != "Heading(H2)"@[9]);
        assert(name[9] != "Heading(H3)"@[9]);
        assert(name[9] != "Heading(H4)"@[9]);
    } else {
        assert(name =~= "Heading(H6)"@);
        assert(name[9] != "Heading(H1)"@[9]);
        assert(name[9] != "Heading(H2)"@[9]);
        assert(name[9] != "Heading(H3)"@[9]);
        assert(name[9] != "Heading(H4)"@[9]);
        assert(name[9] != "Heading(H5)"@[9]);
    }
}

/// The items of an ordered list are numbered in turn: in a list that
/// starts at `n` and holds `k` finished items, a new item is marked
/// `n + k.`, its text (the marker and what follows) becomes a text block
/// when the item ends, and the next item is marked `n + k + 1.`.
pub proof fn lemma_list_items_number_in_turn(st: MdRender, n: u64, item: String, end_item: String, text: String)
    requires
        item@ == "Item"@,
        end_item@ == "Item"@,
        st.lists.len() > 0,
        st.lists.last() == Some(n),
        st.containers.len() > 0,
    ensures
        ({
            let k = st.containers.last();
            let s1 = md_step(st, MdEvent::Start(item));
            let s2 = md_step(s1, MdEvent::Text(text));
            let s3 = md_step(s2, MdEvent::End(end_item));
            let s4 = md_step(s3, MdEvent::Start(item));
            &&& s1.text == st.text + decimal((n + k) as nat) + ". "@
            &&& s3.blocks == st.blocks.push(
                ((depth_of(st.containers) + 1) as nat, MdBlockView::Text(st.text + decimal((n + k) as nat) + ". "@ + text@)),
            )
            &&& s3.text.len() == 0
            &&& s4.text == decimal((n + k + 1) as nat) + ". "@
        }),
{
    reveal_strlit("Item");
    reveal_strlit("Paragraph");
    reveal_strlit("Heading(H1)");
    reveal_strlit("Heading(H2)");
    reveal_strlit("Heading(H3)");
    reveal_strlit("Heading(H4)");
    reveal_strlit("Heading(H5)");
    reveal_strlit("Heading(H6)");
    reveal_strlit("CodeBlock");
    reveal_strlit("List(true)");
    reveal_strlit("List(false)");
    reveal_strlit(". ");
    let k = st.containers.last();
    let s1 = md_step(st, MdEvent::Start(item));
    let s2 = md_step(s1, MdEvent::Text(text));
    assert(s1.containers == st.containers.push(0));
    assert(s2.containers == s1.containers);
    assert(s2.text.len() > 0);
    let f = flush(s2);
    assert(f.containers == bump(s2.containers));
    assert(f.containers.drop_last() =~= st.containers);
    let name = end_item@;
    assert(name.len() == 4);
    assert("Paragraph"@.len() == 9 && "CodeBlock"@.len() == 9 && "List(true)"@.len() == 10 && "List(false)"@.len() == 11);
    assert("Heading(H1)"@.len() == 11 && "Heading(H2)"@.len() == 11 && "Heading(H3)"@.len() == 11);
    assert("Heading(H4)"@.len() == 11 && "Heading(H5)"@.len() == 11 && "Heading(H6)"@.len() == 11);
    assert(name != "Paragraph"@ && name != "CodeBlock"@ && name != "List(true)"@ && name != "List(false)"@);
    assert(heading_level(name) == 0);
    let s3 = md_step(s2, MdEvent::End(end_item));
    assert(s3 == close_container(f));
    assert(s3.containers.last() == k + 1);
    assert(s3.lists == st.lists);
}

/// Paragraphs and code blocks: the text gathered in a paragraph becomes a
/// text block when the paragraph ends (no block when there is none); the
/// text of a fenced code block becomes a code block in the block's language
/// when it ends. Either way no text is left gathered, and a rule makes a
/// rule block.
pub proof fn lemma_paragraphs_and_code(st: MdRender, info: String, text: String, end_para: String, end_code: String)
    requires
        end_para@ == "Paragraph"@,
        end_code@ == "CodeBlock"@,
    ensures
        st.text.len() > 0 ==> md_step(st, MdEvent::End(end_para)).blocks == st.blocks.push(
            (depth_of(st.containers), MdBlockView::Text(st.text)),
        ),
        md_step(st, MdEvent::End(end_para)).text.len() == 0,
        st.text.len() == 0 ==> md_step(st, MdEvent::End(end_para)) == st,
        ({
            let s1 = md_step(st, MdEvent::StartFencedCode(info));
            let s2 = md_step(s1, MdEvent::Text(text));
            let s3 = md_step(s2, MdEvent::End(end_code));
            &&& s3.blocks == st.blocks.push((depth_of(st.containers), MdBlockView::Code(info@, st.text + text@)))
            &&& s3.text.len() == 0
            &&& s3.code is None
        }),
        md_step(st, MdEvent::Rule).blocks == st.blocks.push((depth_of(st.containers), MdBlockView::Rule)),
{
    reveal_strlit("Paragraph");
    reveal_strlit("CodeBlock");
    reveal_strlit("Heading(H1)");
    reveal_strlit("Heading(H2)");
    reveal_strlit("Heading(H3)");
    reveal_strlit("Heading(H4)");
    reveal_strlit("Heading(H5)");
    reveal_strlit("Heading(H6)");
    let c = end_code@;
    assert(c.len() == 9 && "Paragraph"@.len() == 9 && c[0] != "Paragraph"@[0]);
    assert("Heading(H1)"@.len() == 11 && "Heading(H2)"@.len() == 11 && "Heading(H3)"@.len() == 11);
    assert("Heading(H4)"@.len() == 11 && "Heading(H5)"@.len() == 11 && "Heading(H6)"@.len() == 11);
    assert(heading_level(c) == 0);
}

} // verus!
