//! The document parser: blocks one after another, the title, header ids
//! and the table of contents.
use vstd::prelude::*;

use crate::blocks::{
    bullet_at, card_at, code_at, header_level, list_from, ordinal_len, raw_until, rows_from,
    header_marker, is_bullet, ordinal_marker, parse_card, parse_code_block, parse_list, parse_raw,
    parse_rows,
};
use crate::cursor::{at, at_lit, chars_of, push_range, string_of};
use crate::data::{
    blocks_model, lemma_blocks_model, lemma_list_model, list_model,
    rows_view, blocks_are, block_is, item_is, list_is, pages_view, spans_view, Block, BlockV, List, ListItem,
    ListItemV, ListV, PageInfo, PageInfoV, Span, SpanV,
};
use crate::progress::lemma_step_advances;
use crate::spans::{parse_spans, spans_from};

verus! {

/// A document as the parser builds it: its title, its table of contents, its
/// blocks, and the text of every header of level 2 or more met so far.
pub struct DocV {
    pub title: Seq<char>,
    pub toc: ListV,
    pub content: Seq<BlockV>,
    pub headers: Seq<Seq<char>>,
}

/// The state before the first block.
pub open spec fn empty_doc() -> DocV {
    DocV {
        title: Seq::empty(),
        toc: ListV { ordered: true, items: Seq::empty() },
        content: Seq::empty(),
        headers: Seq::empty(),
    }
}

/// The plain text of a span; an image has none.
pub open spec fn span_text(sp: SpanV) -> Seq<char> {
    match sp {
        SpanV::Link { text, .. } => text,
        SpanV::Emphasis { text, .. } => text,
        SpanV::Math { math } => math,
        SpanV::Code { code } => code,
        SpanV::Image { .. } => Seq::empty(),
        SpanV::Text { text } => text,
    }
}

/// The plain text of spans, one after another.
pub open spec fn plain_text(sps: Seq<SpanV>) -> Seq<char>
    decreases sps.len(),
{
    if sps.len() == 0 {
        Seq::empty()
    } else {
        plain_text(sps.drop_last()) + span_text(sps.last())
    }
}

pub open spec fn digit(d: nat) -> char {
    if d == 0 {
        '0'
    } else if d == 1 {
        '1'
    } else if d == 2 {
        '2'
    } else if d == 3 {
        '3'
    } else if d == 4 {
        '4'
    } else if d == 5 {
        '5'
    } else if d == 6 {
        '6'
    } else if d == 7 {
        '7'
    } else if d == 8 {
        '8'
    } else {
        '9'
    }
}

/// `n` in decimal.
pub open spec fn decimal(n: nat) -> Seq<char>
    decreases n,
{
    if n < 10 {
        seq![digit(n)]
    } else {
        decimal(n / 10).push(digit(n % 10))
    }
}

/// How often `t` occurs in `hs`.
pub open spec fn occurrences(hs: Seq<Seq<char>>, t: Seq<char>) -> nat
    decreases hs.len(),
{
    if hs.len() == 0 {
        0
    } else {
        occurrences(hs.drop_last(), t) + if hs.last() == t {
            1nat
        } else {
            0nat
        }
    }
}

/// The id of a header with text `text` met `k` times before: `text`, then `text-1`, `text-2`, ...
pub open spec fn header_id(text: Seq<char>, k: nat) -> Seq<char> {
    if k == 0 {
        text
    } else {
        text + seq!['-'] + decimal(k)
    }
}

/// `it` added at depth `depth` of `l`, going down through the last item's
/// sublist each time; where a level is missing it stops at the deepest one there is.
pub open spec fn toc_insert(l: ListV, depth: nat, it: ListItemV) -> ListV
    decreases depth,
{
    if depth == 0 || l.items.len() == 0 {
        ListV { ordered: l.ordered, items: l.items.push(it) }
    } else {
        let last = l.items.last();
        ListV {
            ordered: l.ordered,
            items: l.items.update(
                l.items.len() - 1,
                ListItemV { spans: last.spans, list: toc_insert(last.list, (depth - 1) as nat, it) },
            ),
        }
    }
}

/// The table-of-contents entry that links to a header.
pub open spec fn toc_entry(text: Seq<char>, id: Seq<char>) -> ListItemV {
    ListItemV {
        spans: seq![SpanV::Link { text, url: seq!['#'] + id }],
        list: ListV { ordered: true, items: Seq::empty() },
    }
}

/// The state after a header of `level` with `spans`: level 1 sets the title,
/// a deeper one gets a unique id and a place in the table of contents.
pub open spec fn add_header(st: DocV, spans: Seq<SpanV>, level: nat) -> DocV {
    let text = plain_text(spans);
    if level == 1 {
        DocV {
            title: text,
            toc: st.toc,
            content: st.content.push(BlockV::Header { spans, level: 1, id: text }),
            headers: st.headers,
        }
    } else {
        let id = header_id(text, occurrences(st.headers, text));
        DocV {
            title: st.title,
            toc: toc_insert(st.toc, (level - 2) as nat, toc_entry(text, id)),
            content: st.content.push(BlockV::Header { spans, level: level as u32, id }),
            headers: st.headers.push(text),
        }
    }
}

pub open spec fn add_block(st: DocV, b: BlockV) -> DocV {
    DocV { title: st.title, toc: st.toc, content: st.content.push(b), headers: st.headers }
}

/// The state after the block at `p`, and where that block ends.
pub open spec fn step(s: Seq<char>, p: int, pages: Seq<PageInfoV>, st: DocV) -> (DocV, int) {
    let lv = header_level(s, p);
    if lv > 0 {
        let (spans, q) = spans_from(s, p + lv + 1, pages);
        (add_header(st, spans, lv), q)
    } else if at(s, p, seq!['>', ' ']) {
        let (spans, q) = spans_from(s, p + 2, pages);
        (add_block(st, BlockV::Blockquote { spans }), q)
    } else if bullet_at(s, p) || ordinal_len(s, p) > 0 {
        let (items, o, q) = list_from(s, p, 0, false, pages);
        (add_block(st, BlockV::ListElement(ListV { ordered: o, items })), q)
    } else if at(s, p, seq!['?', '[', ']', '(']) {
        let (b, q) = card_at(s, p + 4, pages);
        (add_block(st, b), q)
    } else if at(s, p, seq!['$', '$']) {
        let (math, q) = raw_until(s, p + 2, seq!['$', '$']);
        (add_block(st, BlockV::MathBlock { math }), q)
    } else if at(s, p, seq!['`', '`', '`']) {
        let (b, q) = code_at(s, p + 3);
        (add_block(st, b), q)
    } else if at(s, p, seq!['|']) {
        let (head, q) = rows_from(s, p);
        let (body, e) = rows_from(s, q);
        (add_block(st, BlockV::Table { head, body }), e)
    } else {
        let (spans, q) = spans_from(s, p, pages);
        if spans.len() == 0 {
            (st, q)
        } else {
            (add_block(st, BlockV::Paragraph { spans }), q)
        }
    }
}

/// The state after every block from `p` to the end of input.
pub open spec fn doc_from(s: Seq<char>, p: int, pages: Seq<PageInfoV>, st: DocV) -> DocV
    decreases s.len() - p,
{
    if p < 0 || p >= s.len() {
        st
    } else {
        let (next, q) = step(s, p, pages, st);
        if !(p < q <= s.len()) {
            next
        } else {
            doc_from(s, q, pages, next)
        }
    }
}

/// The document that `s` describes, with link titles and link cards filled from `pages`.
pub open spec fn document(s: Seq<char>, pages: Seq<PageInfoV>) -> DocV {
    doc_from(s, 0, pages, empty_doc())
}

pub open spec fn strings_view(v: Seq<String>) -> Seq<Seq<char>> {
    v.map_values(|t: String| t@)
}

proof fn lemma_plain_text_push(sps: Seq<SpanV>, sp: SpanV)
    ensures
        plain_text(sps.push(sp)) == plain_text(sps) + span_text(sp),
{
    assert(sps.push(sp).drop_last() =~= sps);
}

/// The plain text of `spans`.
pub fn header_text(spans: &Vec<Span>) -> (r: Vec<char>)
    ensures
        r@ == plain_text(spans_view(spans@)),
{
    let mut buf: Vec<char> = Vec::new();
    let mut i: usize = 0;
    while i < spans.len()
        invariant
            i <= spans@.len(),
            buf@ == plain_text(spans_view(spans@.subrange(0, i as int))),
        decreases spans.len() - i,
    {
        let piece: Vec<char> = match &spans[i] {
            Span::Link { text, .. } => chars_of(text.as_str()),
            Span::Emphasis { text, .. } => chars_of(text.as_str()),
            Span::Math { math } => chars_of(math.as_str()),
            Span::Code { code } => chars_of(code.as_str()),
            Span::Image { .. } => Vec::new(),
            Span::Text { text } => chars_of(text.as_str()),
        };
        assert(piece@ == span_text(spans@[i as int]@));
        push_range(&mut buf, &piece, 0, piece.len());
        proof {
            assert(piece@.subrange(0, piece@.len() as int) =~= piece@);
            assert(spans_view(spans@.subrange(0, i + 1)) =~= spans_view(spans@.subrange(0, i as int)).push(
                spans@[i as int]@,
            ));
            lemma_plain_text_push(spans_view(spans@.subrange(0, i as int)), spans@[i as int]@);
        }
        i += 1;
    }
    assert(spans@.subrange(0, spans@.len() as int) =~= spans@);
    buf
}

fn digit_char(d: usize) -> (r: char)
    requires
        d < 10,
    ensures
        r == digit(d as nat),
{
    if d == 0 {
        '0'
    } else if d == 1 {
        '1'
    } else if d == 2 {
        '2'
    } else if d == 3 {
        '3'
    } else if d == 4 {
        '4'
    } else if d == 5 {
        '5'
    } else if d == 6 {
        '6'
    } else if d == 7 {
        '7'
    } else if d == 8 {
        '8'
    } else {
        '9'
    }
}

/// Appends `n` in decimal.
pub fn push_decimal(buf: &mut Vec<char>, n: usize)
    ensures
        final(buf)@ == old(buf)@ + decimal(n as nat),
    decreases n,
{
    if n >= 10 {
        push_decimal(buf, n / 10);
    }
    buf.push(digit_char(n % 10));
    proof {
        if n >= 10 {
            assert(old(buf)@ + decimal(n as nat) =~= old(buf)@ + decimal((n / 10) as nat) + seq![
                digit((n % 10) as nat),
            ]);
        } else {
            assert(old(buf)@ + decimal(n as nat) =~= old(buf)@.push(digit(n as nat)));
        }
    }
}

/// How often `t` occurs in `hs`.
pub fn count_occurrences(hs: &Vec<String>, t: &String) -> (r: usize)
    ensures
        r == occurrences(strings_view(hs@), t@),
{
    let mut k: usize = 0;
    let mut i: usize = 0;
    while i < hs.len()
        invariant
            i <= hs@.len(),
            k == occurrences(strings_view(hs@.subrange(0, i as int)), t@),
            k <= i,
        decreases hs.len() - i,
    {
        proof {
            assert(strings_view(hs@.subrange(0, i + 1)).drop_last() =~= strings_view(
                hs@.subrange(0, i as int),
            ));
        }
        if hs[i] == *t {
            k += 1;
        }
        i += 1;
    }
    assert(hs@.subrange(0, hs@.len() as int) =~= hs@);
    k
}

/// Adds `item` at depth `depth` of `l`, as `toc_insert` says.
fn insert_at_depth(l: &mut List, depth: usize, item: ListItem, Ghost(v): Ghost<ListV>, Ghost(
    iv,
): Ghost<ListItemV>)
    requires
        list_is(*old(l), v),
        item_is(item, iv),
    ensures
        list_is(*final(l), toc_insert(v, depth as nat, iv)),
    decreases depth,
{
    if depth == 0 || l.items.len() == 0 {
        let ghost before = l.items@;
        l.items.push(item);
        assert forall|k: int| 0 <= k < v.items.push(iv).len() implies item_is(
            #[trigger] l.items@[k],
            v.items.push(iv)[k],
        ) by {
            if k < before.len() {
                assert(l.items@[k] == before[k]);
            }
        }
    } else {
        let ghost before = l.items@;
        let mut last = l.items.pop().unwrap();
        let ghost lv = v.items.last();
        assert(last == before[before.len() - 1]);
        assert(item_is(last, lv));
        insert_at_depth(&mut last.list, depth - 1, item, Ghost(lv.list), Ghost(iv));
        l.items.push(last);
        let ghost nv = toc_insert(v, depth as nat, iv);
        assert(item_is(last, nv.items.last()));
        assert forall|k: int| 0 <= k < nv.items.len() implies item_is(
            #[trigger] l.items@[k],
            nv.items[k],
        ) by {
            if k < before.len() - 1 {
                assert(l.items@[k] == before[k]);
            }
        }
    }
}

proof fn lemma_blocks_push(bs: Seq<Block>, vs: Seq<BlockV>, b: Block, bv: BlockV)
    requires
        blocks_are(bs, vs),
        block_is(b, bv),
    ensures
        blocks_are(bs.push(b), vs.push(bv)),
{
    assert forall|k: int| 0 <= k < vs.push(bv).len() implies block_is(
        #[trigger] bs.push(b)[k],
        vs.push(bv)[k],
    ) by {
        if k < vs.len() {
            assert(bs.push(b)[k] == bs[k]);
        }
    }
}

/// A parse of one source text: where it stands, and the document built so far.
pub struct Parser<'a> {
    chs: Vec<char>,
    pos: usize,
    pages: &'a Vec<PageInfo>,
    headers: Vec<String>,
    title: String,
    toc: List,
    content: Vec<Block>,
    model: Ghost<DocV>,
}

impl<'a> Parser<'a> {
    /// The source text.
    pub closed spec fn source(&self) -> Seq<char> {
        self.chs@
    }

    /// Where the next block starts.
    pub closed spec fn position(&self) -> int {
        self.pos as int
    }

    /// What the network lookup found, for links without text and for link cards.
    pub closed spec fn lookups(&self) -> Seq<PageInfoV> {
        pages_view(self.pages@)
    }

    /// The document built so far.
    pub closed spec fn model(&self) -> DocV {
        self.model@
    }

    pub closed spec fn wf(&self) -> bool {
        &&& self.pos <= self.chs@.len()
        &&& self.title@ == self.model@.title
        &&& list_is(self.toc, self.model@.toc)
        &&& blocks_are(self.content@, self.model@.content)
        &&& strings_view(self.headers@) == self.model@.headers
    }

    /// A parser at the start of `doc`, with nothing built yet.
    pub fn new(doc: &str, pages: &'a Vec<PageInfo>) -> (r: Parser<'a>)
        ensures
            r.wf(),
            r.source() == doc@,
            r.position() == 0,
            r.lookups() == pages_view(pages@),
            r.model() == empty_doc(),
    {
        let r = Parser {
            chs: chars_of(doc),
            pos: 0,
            pages,
            headers: Vec::new(),
            title: String::new(),
            toc: List { ordered: true, items: Vec::new() },
            content: Vec::new(),
            model: Ghost(empty_doc()),
        };
        assert(strings_view(r.headers@) =~= Seq::empty());
        r
    }

    /// Reads every block up to the end of the source.
    pub fn parse_markdown(&mut self)
        requires
            old(self).wf(),
        ensures
            final(self).wf(),
            final(self).source() == old(self).source(),
            final(self).lookups() == old(self).lookups(),
            final(self).position() == final(self).source().len(),
            final(self).model() == doc_from(
                old(self).source(),
                old(self).position(),
                old(self).lookups(),
                old(self).model(),
            ),
    {
        while self.pos < self.chs.len()
            invariant
                self.wf(),
                self.source() == old(self).source(),
                self.lookups() == old(self).lookups(),
                doc_from(old(self).source(), old(self).position(), old(self).lookups(), old(self).model())
                    == doc_from(self.source(), self.position(), self.lookups(), self.model()),
            decreases self.chs@.len() - self.pos,
        {
            proof {
                lemma_step_advances(self.chs@, self.pos as int, pages_view(self.pages@), self.model@);
            }
            self.parse_block();
        }
    }

    fn push_block(&mut self, b: Block, Ghost(bv): Ghost<BlockV>)
        requires
            old(self).wf(),
            block_is(b, bv),
        ensures
            final(self).wf(),
            final(self).chs == old(self).chs,
            final(self).pos == old(self).pos,
            final(self).pages == old(self).pages,
            final(self).model() == add_block(old(self).model(), bv),
    {
        proof {
            lemma_blocks_push(self.content@, self.model@.content, b, bv);
        }
        self.content.push(b);
        self.model = Ghost(add_block(self.model@, bv));
    }

    fn add_header(&mut self, spans: Vec<Span>, level: usize)
        requires
            old(self).wf(),
            1 <= level <= 6,
        ensures
            final(self).wf(),
            final(self).chs == old(self).chs,
            final(self).pos == old(self).pos,
            final(self).pages == old(self).pages,
            final(self).model() == add_header(old(self).model(), spans_view(spans@), level as nat),
    {
        let ghost sv = spans_view(spans@);
        let ghost nm = add_header(self.model@, sv, level as nat);
        let tb = header_text(&spans);
        let text = string_of(&tb);
        if level == 1 {
            self.title = text.clone();
            let b = Block::Header { spans, level: 1, id: text };
            proof {
                lemma_blocks_push(self.content@, self.model@.content, b, BlockV::Header { spans: sv, level: 1, id: tb@ });
            }
            self.content.push(b);
        } else {
            let k = count_occurrences(&self.headers, &text);
            let mut idb: Vec<char> = Vec::new();
            push_range(&mut idb, &tb, 0, tb.len());
            assert(tb@.subrange(0, tb@.len() as int) =~= tb@);
            if k > 0 {
                idb.push('-');
                push_decimal(&mut idb, k);
                assert(idb@ =~= tb@ + seq!['-'] + decimal(k as nat));
            }
            assert(idb@ == header_id(tb@, k as nat));
            let id = string_of(&idb);
            let mut url: Vec<char> = Vec::new();
            url.push('#');
            push_range(&mut url, &idb, 0, idb.len());
            assert(idb@.subrange(0, idb@.len() as int) =~= idb@);
            assert(url@ =~= seq!['#'] + idb@);
            let link = Span::Link { text: text.clone(), url: string_of(&url) };
            let mut entry_spans: Vec<Span> = Vec::new();
            entry_spans.push(link);
            assert(spans_view(entry_spans@) =~= seq![link@]);
            let entry = ListItem { spans: entry_spans, list: List { ordered: true, items: Vec::new() } };
            assert(list_is(entry.list, ListV { ordered: true, items: Seq::empty() }));
            assert(item_is(entry, toc_entry(tb@, idb@)));
            insert_at_depth(&mut self.toc, level - 2, entry, Ghost(self.model@.toc), Ghost(toc_entry(tb@, idb@)));
            let ghost old_headers = self.headers@;
            self.headers.push(text.clone());
            assert(strings_view(self.headers@) =~= strings_view(old_headers).push(tb@));
            let b = Block::Header { spans, level: level as u32, id };
            proof {
                lemma_blocks_push(self.content@, self.model@.content, b, BlockV::Header { spans: sv, level: level as u32, id: idb@ });
            }
            self.content.push(b);
        }
        self.model = Ghost(nm);
    }

    /// Reads the block at the current position.
    fn parse_block(&mut self)
        requires
            old(self).wf(),
            old(self).pos < old(self).chs@.len(),
        ensures
            final(self).wf(),
            final(self).chs == old(self).chs,
            final(self).pages == old(self).pages,
            (final(self).model(), final(self).position()) == step(
                old(self).source(),
                old(self).position(),
                old(self).lookups(),
                old(self).model(),
            ),
    {
        let ghost s = self.chs@;
        let ghost pv = pages_view(self.pages@);
        let p = self.pos;
        // the length fits in a usize, so positions below it do too
        let _len = self.chs.len();
        let lv = header_marker(&self.chs, p);
        if lv > 0 {
            let (spans, q) = parse_spans(&self.chs, p + lv + 1, self.pages);
            self.add_header(spans, lv);
            self.pos = q;
            return;
        }
        if at_lit(&self.chs, p, &vec!['>', ' ']) {
            let (spans, q) = parse_spans(&self.chs, p + 2, self.pages);
            let ghost bv = BlockV::Blockquote { spans: spans_view(spans@) };
            self.push_block(Block::Blockquote { spans }, Ghost(bv));
            self.pos = q;
            return;
        }
        if is_bullet(&self.chs, p) || ordinal_marker(&self.chs, p) > 0 {
            let (list, q) = parse_list(&self.chs, p, 0, self.pages);
            let ghost lf = list_from(s, p as int, 0, false, pv);
            self.push_block(Block::ListElement(list), Ghost(BlockV::ListElement(ListV { ordered: lf.1, items: lf.0 })));
            self.pos = q;
            return;
        }
        if at_lit(&self.chs, p, &vec!['?', '[', ']', '(']) {
            let (b, q) = parse_card(&self.chs, p + 4, self.pages);
            self.push_block(b, Ghost(card_at(s, p + 4, pv).0));
            self.pos = q;
            return;
        }
        if at_lit(&self.chs, p, &vec!['$', '$']) {
            let (math, q) = parse_raw(&self.chs, p + 2, &vec!['$', '$']);
            let ghost bv = BlockV::MathBlock { math: math@ };
            self.push_block(Block::MathBlock { math }, Ghost(bv));
            self.pos = q;
            return;
        }
        if at_lit(&self.chs, p, &vec!['`', '`', '`']) {
            let (b, q) = parse_code_block(&self.chs, p + 3);
            self.push_block(b, Ghost(code_at(s, p + 3).0));
            self.pos = q;
            return;
        }
        let bar = vec!['|'];
        assert(bar@ =~= seq!['|']);
        if at_lit(&self.chs, p, &bar) {
            let (head, q) = parse_rows(&self.chs, p);
            let (body, e) = parse_rows(&self.chs, q);
            let ghost bv = BlockV::Table { head: rows_view(head@), body: rows_view(body@) };
            self.push_block(Block::Table { head, body }, Ghost(bv));
            self.pos = e;
            return;
        }
        let (spans, q) = parse_spans(&self.chs, p, self.pages);
        if spans.len() > 0 {
            let ghost bv = BlockV::Paragraph { spans: spans_view(spans@) };
            self.push_block(Block::Paragraph { spans }, Ghost(bv));
        }
        self.pos = q;
    }

    /// The title, table of contents and blocks built so far.
    pub fn into_parts(self) -> (r: (String, List, Vec<Block>))
        requires
            self.wf(),
        ensures
            r.0@ == self.model().title,
            list_model(r.1) == self.model().toc,
            blocks_model(r.2@) == self.model().content,
    {
        proof {
            lemma_list_model(self.toc, self.model@.toc);
            lemma_blocks_model(self.content@, self.model@.content);
        }
        (self.title, self.toc, self.content)
    }
}

/// Parses `doc` into its title, table of contents and blocks; links without
/// text and link cards are filled from `pages`.
pub fn parse_markdown(doc: &str, pages: &Vec<PageInfo>) -> (r: (String, List, Vec<Block>))
    ensures
        r.0@ == document(doc@, pages_view(pages@)).title,
        list_model(r.1) == document(doc@, pages_view(pages@)).toc,
        blocks_model(r.2@) == document(doc@, pages_view(pages@)).content,
{
    let mut parser = Parser::new(doc, pages);
    parser.parse_markdown();
    parser.into_parts()
}

} // verus!
