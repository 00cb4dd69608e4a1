//! The document tree, template elements and lookup results, with their
//! mathematical forms.
use vstd::prelude::*;

verus! {

/// How strongly an emphasis span is set off.
#[derive(Clone, Copy, Debug, PartialEq, Eq)]
pub enum EmphasisKind {
    Em,
    Strong,
}

/// An inline unit of text within one line.
#[derive(Clone, Debug, PartialEq, Eq)]
pub enum Span {
    Link { text: String, url: String },
    Emphasis { kind: EmphasisKind, text: String },
    Math { math: String },
    Code { code: String },
    Image { url: String },
    Text { text: String },
}

/// A list of items, each with its own inline content and a nested sublist.
#[derive(Debug, PartialEq, Eq)]
pub struct List {
    pub ordered: bool,
    pub items: Vec<ListItem>,
}

#[derive(Debug, PartialEq, Eq)]
pub struct ListItem {
    pub spans: Vec<Span>,
    pub list: List,
}

/// A structural unit of a document.
#[derive(Debug, PartialEq, Eq)]
pub enum Block {
    Header { spans: Vec<Span>, level: u32, id: String },
    Blockquote { spans: Vec<Span> },
    ListElement(List),
    LinkCard {
        title: String,
        image: Option<String>,
        url: String,
        description: Option<String>,
        site_name: Option<String>,
    },
    MathBlock { math: String },
    CodeBlock { lang: String, code: String },
    Table { head: Vec<Vec<String>>, body: Vec<Vec<String>> },
    Paragraph { spans: Vec<Span> },
}

/// A piece of a template: a slot for generated HTML at a column, or a literal line.
#[derive(Clone, Debug, PartialEq, Eq)]
pub enum Elem {
    Title(usize),
    Toc(usize),
    Content(usize),
    Str(String),
}

/// Mathematical form of a block.
pub enum BlockV {
    Header { spans: Seq<SpanV>, level: u32, id: Seq<char> },
    Blockquote { spans: Seq<SpanV> },
    ListElement(ListV),
    LinkCard {
        title: Seq<char>,
        image: Option<Seq<char>>,
        url: Seq<char>,
        description: Option<Seq<char>>,
        site_name: Option<Seq<char>>,
    },
    MathBlock { math: Seq<char> },
    CodeBlock { lang: Seq<char>, code: Seq<char> },
    Table { head: Seq<Seq<Seq<char>>>, body: Seq<Seq<Seq<char>>> },
    Paragraph { spans: Seq<SpanV> },
}

/// Mathematical form of a template piece.
pub enum ElemV {
    Title(nat),
    Toc(nat),
    Content(nat),
    Str(Seq<char>),
}

impl Elem {
    pub open spec fn view(&self) -> ElemV {
        match self {
            Elem::Title(i) => ElemV::Title(*i as nat),
            Elem::Toc(i) => ElemV::Toc(*i as nat),
            Elem::Content(i) => ElemV::Content(*i as nat),
            Elem::Str(t) => ElemV::Str(t@),
        }
    }
}

pub open spec fn elems_view(v: Seq<Elem>) -> Seq<ElemV> {
    v.map_values(|e: Elem| e@)
}

pub open spec fn row_view(r: Vec<String>) -> Seq<Seq<char>> {
    r@.map_values(|c: String| c@)
}

pub open spec fn rows_view(v: Seq<Vec<String>>) -> Seq<Seq<Seq<char>>> {
    v.map_values(|r: Vec<String>| row_view(r))
}

/// `b` is a block whose mathematical form is `v`.
pub open spec fn block_is(b: Block, v: BlockV) -> bool {
    match (b, v) {
        (Block::Header { spans, level, id }, BlockV::Header { spans: vs, level: vl, id: vi }) =>
            spans_view(spans@) == vs && level == vl && id@ == vi,
        (Block::Blockquote { spans }, BlockV::Blockquote { spans: vs }) => spans_view(spans@) == vs,
        (Block::ListElement(l), BlockV::ListElement(vl)) => list_is(l, vl),
        (
            Block::LinkCard { title, image, url, description, site_name },
            BlockV::LinkCard {
                title: vt,
                image: vi,
                url: vu,
                description: vd,
                site_name: vs,
            },
        ) => title@ == vt && opt_view(image) == vi && url@ == vu && opt_view(description) == vd
            && opt_view(site_name) == vs,
        (Block::MathBlock { math }, BlockV::MathBlock { math: vm }) => math@ == vm,
        (Block::CodeBlock { lang, code }, BlockV::CodeBlock { lang: vl, code: vc }) => lang@ == vl
            && code@ == vc,
        (Block::Table { head, body }, BlockV::Table { head: vh, body: vb }) => rows_view(head@)
            == vh && rows_view(body@) == vb,
        (Block::Paragraph { spans }, BlockV::Paragraph { spans: vs }) => spans_view(spans@) == vs,
        _ => false,
    }
}

/// `bs` are blocks whose mathematical forms are `vs`, in order.
pub open spec fn blocks_are(bs: Seq<Block>, vs: Seq<BlockV>) -> bool {
    &&& bs.len() == vs.len()
    &&& forall|i: int| 0 <= i < vs.len() ==> block_is(#[trigger] bs[i], vs[i])
}

/// Mathematical form of a span.
pub enum SpanV {
    Link { text: Seq<char>, url: Seq<char> },
    Emphasis { kind: EmphasisKind, text: Seq<char> },
    Math { math: Seq<char> },
    Code { code: Seq<char> },
    Image { url: Seq<char> },
    Text { text: Seq<char> },
}

/// Mathematical form of a list.
pub struct ListV {
    pub ordered: bool,
    pub items: Seq<ListItemV>,
}

/// Mathematical form of a list item.
pub struct ListItemV {
    pub spans: Seq<SpanV>,
    pub list: ListV,
}

impl Span {
    pub open spec fn view(&self) -> SpanV {
        match self {
            Span::Link { text, url } => SpanV::Link { text: text@, url: url@ },
            Span::Emphasis { kind, text } => SpanV::Emphasis { kind: *kind, text: text@ },
            Span::Math { math } => SpanV::Math { math: math@ },
            Span::Code { code } => SpanV::Code { code: code@ },
            Span::Image { url } => SpanV::Image { url: url@ },
            Span::Text { text } => SpanV::Text { text: text@ },
        }
    }
}

pub open spec fn spans_view(v: Seq<Span>) -> Seq<SpanV> {
    v.map_values(|s: Span| s@)
}

/// Mathematical form of a list.
pub open spec fn list_model(l: List) -> ListV
    decreases l,
{
    ListV {
        ordered: l.ordered,
        items: Seq::new(
            l.items@.len(),
            |k: int|
                if 0 <= k < l.items@.len() {
                    item_model(l.items@[k])
                } else {
                    arbitrary()
                },
        ),
    }
}

/// Mathematical form of a list item.
pub open spec fn item_model(it: ListItem) -> ListItemV
    decreases it,
{
    ListItemV { spans: spans_view(it.spans@), list: list_model(it.list) }
}

/// Mathematical form of a block.
pub open spec fn block_model(b: Block) -> BlockV {
    match b {
        Block::Header { spans, level, id } => BlockV::Header { spans: spans_view(spans@), level, id: id@ },
        Block::Blockquote { spans } => BlockV::Blockquote { spans: spans_view(spans@) },
        Block::ListElement(l) => BlockV::ListElement(list_model(l)),
        Block::LinkCard { title, image, url, description, site_name } => BlockV::LinkCard {
            title: title@,
            image: opt_view(image),
            url: url@,
            description: opt_view(description),
            site_name: opt_view(site_name),
        },
        Block::MathBlock { math } => BlockV::MathBlock { math: math@ },
        Block::CodeBlock { lang, code } => BlockV::CodeBlock { lang: lang@, code: code@ },
        Block::Table { head, body } => BlockV::Table { head: rows_view(head@), body: rows_view(body@) },
        Block::Paragraph { spans } => BlockV::Paragraph { spans: spans_view(spans@) },
    }
}

pub open spec fn blocks_model(bs: Seq<Block>) -> Seq<BlockV> {
    bs.map_values(|b: Block| block_model(b))
}

/// A list's mathematical form is the one it is related to.
pub proof fn lemma_list_model(l: List, v: ListV)
    requires
        list_is(l, v),
    ensures
        list_model(l) == v,
    decreases v,
{
    assert forall|k: int| 0 <= k < v.items.len() implies item_model(l.items@[k]) == v.items[k] by {
        lemma_item_model(l.items@[k], v.items[k]);
    }
    assert(list_model(l).items =~= v.items);
}

/// An item's mathematical form is the one it is related to.
pub proof fn lemma_item_model(it: ListItem, v: ListItemV)
    requires
        item_is(it, v),
    ensures
        item_model(it) == v,
    decreases v,
{
    lemma_list_model(it.list, v.list);
}

/// Blocks' mathematical forms are the ones they are related to.
pub proof fn lemma_blocks_model(bs: Seq<Block>, vs: Seq<BlockV>)
    requires
        blocks_are(bs, vs),
    ensures
        blocks_model(bs) == vs,
{
    assert forall|k: int| 0 <= k < vs.len() implies block_model(bs[k]) == vs[k] by {
        let b = bs[k];
        assert(block_is(b, vs[k]));
        if let Block::ListElement(l) = b {
            if let BlockV::ListElement(vl) = vs[k] {
                lemma_list_model(l, vl);
            }
        }
    }
    assert(blocks_model(bs) =~= vs);
}

pub open spec fn list_is(l: List, v: ListV) -> bool
    decreases v,
{
    &&& l.ordered == v.ordered
    &&& l.items@.len() == v.items.len()
    &&& forall|i: int| 0 <= i < v.items.len() ==> item_is(#[trigger] l.items@[i], v.items[i])
}

pub open spec fn item_is(it: ListItem, v: ListItemV) -> bool
    decreases v,
{
    &&& spans_view(it.spans@) == v.spans
    &&& list_is(it.list, v.list)
}

/// What the network lookup found for one URL: the page's `<title>`, and its
/// Open Graph fields for a link card.
#[derive(Clone, Debug, PartialEq, Eq)]
pub struct PageInfo {
    pub url: String,
    pub title: String,
    pub card_title: String,
    pub image: Option<String>,
    pub description: Option<String>,
    pub site_name: Option<String>,
}

/// Mathematical form of a lookup result.
pub struct PageInfoV {
    pub url: Seq<char>,
    pub title: Seq<char>,
    pub card_title: Seq<char>,
    pub image: Option<Seq<char>>,
    pub description: Option<Seq<char>>,
    pub site_name: Option<Seq<char>>,
}

pub open spec fn opt_view(o: Option<String>) -> Option<Seq<char>> {
    match o {
        Some(s) => Some(s@),
        None => None,
    }
}

impl PageInfo {
    pub open spec fn view(&self) -> PageInfoV {
        PageInfoV {
            url: self.url@,
            title: self.title@,
            card_title: self.card_title@,
            image: opt_view(self.image),
            description: opt_view(self.description),
            site_name: opt_view(self.site_name),
        }
    }
}

pub open spec fn pages_view(v: Seq<PageInfo>) -> Seq<PageInfoV> {
    v.map_values(|p: PageInfo| p@)
}

/// The first entry of `pages` for `url`.
pub open spec fn page_for(pages: Seq<PageInfoV>, url: Seq<char>) -> Option<PageInfoV>
    decreases pages.len(),
{
    if pages.len() == 0 {
        None
    } else if pages[0].url == url {
        Some(pages[0])
    } else {
        page_for(pages.drop_first(), url)
    }
}

} // verus!
