//! The URLs that a parsed document needs looked up over the network.
use vstd::prelude::*;

use crate::data::{blocks_model, item_model, list_model, spans_view, Block, BlockV, List, ListV, Span, SpanV};
use crate::parser::strings_view;

verus! {

/// The URL that a span needs looked up: that of a link without text.
pub open spec fn span_wants(sp: SpanV) -> Seq<Seq<char>> {
    match sp {
        SpanV::Link { text, url } => if text.len() == 0 {
            seq![url]
        } else {
            Seq::empty()
        },
        _ => Seq::empty(),
    }
}

/// The URLs that `sps[k..]` need looked up, in order.
pub open spec fn spans_wants(sps: Seq<SpanV>, k: int) -> Seq<Seq<char>>
    decreases sps.len() - k,
{
    if k < 0 || k >= sps.len() {
        Seq::empty()
    } else {
        span_wants(sps[k]) + spans_wants(sps, k + 1)
    }
}

pub open spec fn list_wants(l: ListV) -> Seq<Seq<char>>
    decreases l, l.items.len() + 1,
{
    items_wants(l, 0)
}

/// The URLs that the items `l.items[k..]` and their sublists need looked up.
pub open spec fn items_wants(l: ListV, k: int) -> Seq<Seq<char>>
    decreases l, l.items.len() - k,
{
    if k < 0 || k >= l.items.len() {
        Seq::empty()
    } else {
        spans_wants(l.items[k].spans, 0) + list_wants(l.items[k].list) + items_wants(l, k + 1)
    }
}

/// The URLs that a block needs looked up: those of its links without text,
/// or that of a link card.
pub open spec fn block_wants(b: BlockV) -> Seq<Seq<char>> {
    match b {
        BlockV::Header { spans, .. } => spans_wants(spans, 0),
        BlockV::Blockquote { spans } => spans_wants(spans, 0),
        BlockV::ListElement(l) => list_wants(l),
        BlockV::LinkCard { url, .. } => seq![url],
        BlockV::Paragraph { spans } => spans_wants(spans, 0),
        _ => Seq::empty(),
    }
}

/// The URLs that `bs[k..]` need looked up, in order.
pub open spec fn blocks_wants(bs: Seq<BlockV>, k: int) -> Seq<Seq<char>>
    decreases bs.len() - k,
{
    if k < 0 || k >= bs.len() {
        Seq::empty()
    } else {
        block_wants(bs[k]) + blocks_wants(bs, k + 1)
    }
}

fn push_span_urls(out: &mut Vec<String>, sps: &Vec<Span>)
    ensures
        strings_view(final(out)@) == strings_view(old(out)@) + spans_wants(spans_view(sps@), 0),
{
    let ghost sv = spans_view(sps@);
    let mut k: usize = 0;
    while k < sps.len()
        invariant
            k <= sps@.len(),
            sv == spans_view(sps@),
            strings_view(out@) + spans_wants(sv, k as int) == strings_view(old(out)@) + spans_wants(sv, 0),
        decreases sps.len() - k,
    {
        let ghost before = strings_view(out@);
        if let Span::Link { text, url } = &sps[k] {
            if text.as_str().is_empty() {
                out.push(url.clone());
            }
        }
        assert(strings_view(out@) =~= before + span_wants(sv[k as int]));
        assert(before + spans_wants(sv, k as int) =~= strings_view(out@) + spans_wants(sv, k + 1));
        k += 1;
    }
    assert(strings_view(out@) + spans_wants(sv, k as int) =~= strings_view(out@));
}

fn push_list_urls(out: &mut Vec<String>, l: &List)
    ensures
        strings_view(final(out)@) == strings_view(old(out)@) + list_wants(list_model(*l)),
    decreases *l,
{
    let ghost m = list_model(*l);
    let mut k: usize = 0;
    while k < l.items.len()
        invariant
            k <= l.items@.len(),
            m == list_model(*l),
            strings_view(out@) + items_wants(m, k as int) == strings_view(old(out)@) + items_wants(m, 0),
        decreases l.items.len() - k,
    {
        let ghost before = strings_view(out@);
        let it = &l.items[k];
        assert(m.items[k as int] == item_model(*it));
        assert(decreases_to!(*l => l.items@[k as int].list));
        push_span_urls(out, &it.spans);
        push_list_urls(out, &it.list);
        assert(before + items_wants(m, k as int) =~= strings_view(out@) + items_wants(m, k + 1));
        k += 1;
    }
    assert(strings_view(out@) + items_wants(m, k as int) =~= strings_view(out@));
}

/// The URLs that the network lookup has to answer for `content`, in the order
/// in which they occur: those of links without text, and those of link cards.
pub fn lookup_urls(content: &Vec<Block>) -> (r: Vec<String>)
    ensures
        strings_view(r@) == blocks_wants(blocks_model(content@), 0),
{
    let ghost bv = blocks_model(content@);
    let mut out: Vec<String> = Vec::new();
    let mut k: usize = 0;
    assert(strings_view(out@) =~= Seq::empty());
    while k < content.len()
        invariant
            k <= content@.len(),
            bv == blocks_model(content@),
            strings_view(out@) + blocks_wants(bv, k as int) == blocks_wants(bv, 0),
        decreases content.len() - k,
    {
        let ghost before = strings_view(out@);
        match &content[k] {
            Block::Header { spans, .. } => push_span_urls(&mut out, spans),
            Block::Blockquote { spans } => push_span_urls(&mut out, spans),
            Block::Paragraph { spans } => push_span_urls(&mut out, spans),
            Block::ListElement(l) => push_list_urls(&mut out, l),
            Block::LinkCard { url, .. } => {
                out.push(url.clone());
                assert(strings_view(out@) =~= before + seq![url@]);
            },
            _ => {},
        }
        assert(strings_view(out@) =~= before + block_wants(bv[k as int]));
        assert(before + blocks_wants(bv, k as int) =~= strings_view(out@) + blocks_wants(bv, k + 1));
        k += 1;
    }
    assert(strings_view(out@) + blocks_wants(bv, k as int) =~= strings_view(out@));
    out
}

} // verus!
