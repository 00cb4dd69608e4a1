//! No text of a parsed document holds a bare `<` or `>`.
use vstd::prelude::*;

use crate::blocks::{card_at, cells_from, code_at, list_from, raw_until, row_at, rows_from};
use crate::cursor::{escape, escape_char};
use crate::data::{BlockV, ListItemV, ListV, PageInfoV, SpanV};
use crate::parser::{
    add_block, add_header, decimal, digit, doc_from, document, empty_doc, header_id, plain_text,
    span_text, step, toc_entry, toc_insert, DocV,
};
use crate::spans::{span_at, spans_from};

verus! {

/// `t` holds no bare `<` or `>`.
pub open spec fn no_angle(t: Seq<char>) -> bool {
    forall|i: int| 0 <= i < t.len() ==> #[trigger] t[i] != '<' && t[i] != '>'
}

pub open spec fn opt_no_angle(o: Option<Seq<char>>) -> bool {
    match o {
        Some(t) => no_angle(t),
        None => true,
    }
}

pub open spec fn span_clean(sp: SpanV) -> bool {
    match sp {
        SpanV::Link { text, url } => no_angle(text) && no_angle(url),
        SpanV::Emphasis { text, .. } => no_angle(text),
        SpanV::Math { math } => no_angle(math),
        SpanV::Code { code } => no_angle(code),
        SpanV::Image { url } => no_angle(url),
        SpanV::Text { text } => no_angle(text),
    }
}

pub open spec fn spans_clean(sps: Seq<SpanV>) -> bool {
    forall|i: int| 0 <= i < sps.len() ==> span_clean(#[trigger] sps[i])
}

pub open spec fn row_clean(row: Seq<Seq<char>>) -> bool {
    forall|i: int| 0 <= i < row.len() ==> no_angle(#[trigger] row[i])
}

pub open spec fn rows_clean(rows: Seq<Seq<Seq<char>>>) -> bool {
    forall|i: int| 0 <= i < rows.len() ==> row_clean(#[trigger] rows[i])
}

pub open spec fn list_clean(l: ListV) -> bool
    decreases l,
{
    forall|i: int| 0 <= i < l.items.len() ==> item_clean(#[trigger] l.items[i])
}

pub open spec fn item_clean(it: ListItemV) -> bool
    decreases it,
{
    spans_clean(it.spans) && list_clean(it.list)
}

pub open spec fn block_clean(b: BlockV) -> bool {
    match b {
        BlockV::Header { spans, id, .. } => spans_clean(spans) && no_angle(id),
        BlockV::Blockquote { spans } => spans_clean(spans),
        BlockV::ListElement(l) => list_clean(l),
        BlockV::LinkCard { title, image, url, description, site_name } => no_angle(title)
            && opt_no_angle(image) && no_angle(url) && opt_no_angle(description) && opt_no_angle(
            site_name,
        ),
        BlockV::MathBlock { math } => no_angle(math),
        BlockV::CodeBlock { lang, code } => no_angle(lang) && no_angle(code),
        BlockV::Table { head, body } => rows_clean(head) && rows_clean(body),
        BlockV::Paragraph { spans } => spans_clean(spans),
    }
}

/// Every text of a document state is free of bare angle brackets.
pub open spec fn doc_clean(d: DocV) -> bool {
    &&& no_angle(d.title)
    &&& list_clean(d.toc)
    &&& forall|i: int| 0 <= i < d.content.len() ==> block_clean(#[trigger] d.content[i])
    &&& forall|i: int| 0 <= i < d.headers.len() ==> no_angle(#[trigger] d.headers[i])
}

proof fn lemma_no_angle_add(a: Seq<char>, b: Seq<char>)
    requires
        no_angle(a),
        no_angle(b),
    ensures
        no_angle(a + b),
{
    assert forall|i: int| 0 <= i < (a + b).len() implies #[trigger] (a + b)[i] != '<' && (a
        + b)[i] != '>' by {
        if i < a.len() {
            assert((a + b)[i] == a[i]);
        } else {
            assert((a + b)[i] == b[i - a.len()]);
        }
    }
}

/// The HTML form of any text holds no bare `<` or `>`.
pub broadcast proof fn lemma_escape_no_angle(t: Seq<char>)
    ensures
        #[trigger] no_angle(escape(t)),
    decreases t.len(),
{
    if t.len() > 0 {
        lemma_escape_no_angle(t.drop_last());
        let c = t.last();
        assert(no_angle(escape_char(c)));
        lemma_no_angle_add(escape(t.drop_last()), escape_char(c));
    }
}

proof fn lemma_span_at_clean(s: Seq<char>, p: int, pages: Seq<PageInfoV>)
    requires
        0 <= p < s.len(),
    ensures
        span_clean(span_at(s, p, pages).0),
{
    broadcast use lemma_escape_no_angle;

    let sp = span_at(s, p, pages).0;
    if let SpanV::Link { text, url } = sp {
        assert(no_angle(Seq::<char>::empty()));
    }
}

proof fn lemma_spans_clean(s: Seq<char>, p: int, pages: Seq<PageInfoV>)
    ensures
        spans_clean(spans_from(s, p, pages).0),
    decreases s.len() - p,
{
    if 0 <= p < s.len() && !crate::spans::at_newline(s, p) {
        let (sp, q) = span_at(s, p, pages);
        lemma_span_at_clean(s, p, pages);
        if p < q <= s.len() {
            lemma_spans_clean(s, q, pages);
            let rest = spans_from(s, q, pages).0;
            assert forall|i: int| 0 <= i < (seq![sp] + rest).len() implies span_clean(
                #[trigger] (seq![sp] + rest)[i],
            ) by {
                if i > 0 {
                    assert((seq![sp] + rest)[i] == rest[i - 1]);
                }
            }
        }
    }
}

proof fn lemma_cells_clean(s: Seq<char>, i: int, e: int)
    ensures
        row_clean(cells_from(s, i, e)),
    decreases e - i,
{
    broadcast use lemma_escape_no_angle;

    if !(i < 0 || i >= e || e > s.len()) {
        let j = crate::blocks::cell_end(s, i, e);
        if i <= j < e {
            lemma_cells_clean(s, j + 1, e);
            let rest = cells_from(s, j + 1, e);
            let c = escape(s.subrange(i, j));
            assert forall|k: int| 0 <= k < (seq![c] + rest).len() implies no_angle(
                #[trigger] (seq![c] + rest)[k],
            ) by {
                if k > 0 {
                    assert((seq![c] + rest)[k] == rest[k - 1]);
                }
            }
        }
    }
}

proof fn lemma_rows_clean(s: Seq<char>, p: int)
    ensures
        rows_clean(rows_from(s, p).0),
    decreases s.len() - p,
{
    let (row, q) = row_at(s, p);
    if let Some(cells) = row {
        if p < q <= s.len() {
            lemma_cells_clean(s, p + 1, crate::cursor::line_end(s, p + 1));
            lemma_rows_clean(s, q);
            let rest = rows_from(s, q).0;
            assert forall|k: int| 0 <= k < (seq![cells] + rest).len() implies row_clean(
                #[trigger] (seq![cells] + rest)[k],
            ) by {
                if k > 0 {
                    assert((seq![cells] + rest)[k] == rest[k - 1]);
                }
            }
        }
    }
}

proof fn lemma_list_clean(s: Seq<char>, p: int, min: nat, ordered: bool, pages: Seq<PageInfoV>)
    ensures
        list_clean(ListV { ordered: list_from(s, p, min, ordered, pages).1, items: list_from(s, p, min, ordered, pages).0 }),
    decreases s.len() - p,
{
    let n = crate::blocks::run_of(s, p, ' ');
    let m = p + n;
    let mk: nat = if crate::blocks::bullet_at(s, m) {
        2
    } else {
        crate::blocks::ordinal_len(s, m)
    };
    if !(p < 0 || p >= s.len() || n < min || mk == 0) {
        let (spans, q) = spans_from(s, m + mk, pages);
        if p < q <= s.len() {
            let (sub, sub_ordered, r) = list_from(s, q, n + 1, false, pages);
            if q <= r <= s.len() {
                lemma_spans_clean(s, m + mk, pages);
                lemma_list_clean(s, q, n + 1, false, pages);
                lemma_list_clean(s, r, min, !crate::blocks::bullet_at(s, m), pages);
                let (rest, o, e) = list_from(s, r, min, !crate::blocks::bullet_at(s, m), pages);
                let it = ListItemV { spans, list: ListV { ordered: sub_ordered, items: sub } };
                let all = seq![it] + rest;
                let lr = ListV { ordered: o, items: rest };
                assert(list_clean(lr));
                assert forall|k: int| 0 <= k < all.len() implies item_clean(#[trigger] all[k]) by {
                    if k > 0 {
                        assert(all[k] == rest[k - 1]);
                        assert(item_clean(lr.items[k - 1]));
                    } else {
                        assert(all[0] == it);
                    }
                }
                assert(list_clean(ListV { ordered: o, items: all }));
            }
        }
    }
}

proof fn lemma_decimal_clean(n: nat)
    ensures
        no_angle(decimal(n)),
    decreases n,
{
    if n >= 10 {
        lemma_decimal_clean(n / 10);
        lemma_no_angle_add(decimal(n / 10), seq![digit(n % 10)]);
        assert(decimal(n / 10).push(digit(n % 10)) =~= decimal(n / 10) + seq![digit(n % 10)]);
    }
}

proof fn lemma_plain_text_clean(sps: Seq<SpanV>)
    requires
        spans_clean(sps),
    ensures
        no_angle(plain_text(sps)),
    decreases sps.len(),
{
    if sps.len() > 0 {
        assert(spans_clean(sps.drop_last())) by {
            assert forall|i: int| 0 <= i < sps.drop_last().len() implies span_clean(
                #[trigger] sps.drop_last()[i],
            ) by {
                assert(sps.drop_last()[i] == sps[i]);
            }
        }
        lemma_plain_text_clean(sps.drop_last());
        assert(span_clean(sps[sps.len() - 1]));
        assert(no_angle(span_text(sps.last())));
        lemma_no_angle_add(plain_text(sps.drop_last()), span_text(sps.last()));
    }
}

proof fn lemma_toc_insert_clean(l: ListV, depth: nat, it: ListItemV)
    requires
        list_clean(l),
        spans_clean(it.spans),
        list_clean(it.list),
    ensures
        list_clean(toc_insert(l, depth, it)),
    decreases depth,
{
    let r = toc_insert(l, depth, it);
    if depth == 0 || l.items.len() == 0 {
        assert forall|i: int| 0 <= i < r.items.len() implies item_clean(#[trigger] r.items[i]) by {
            if i < l.items.len() {
                assert(r.items[i] == l.items[i]);
                assert(item_clean(l.items[i]));
            } else {
                assert(r.items[i] == it);
            }
        }
    } else {
        let last = l.items.last();
        assert(item_clean(l.items[l.items.len() - 1]));
        lemma_toc_insert_clean(last.list, (depth - 1) as nat, it);
        assert forall|i: int| 0 <= i < r.items.len() implies item_clean(#[trigger] r.items[i]) by {
            if i < l.items.len() - 1 {
                assert(r.items[i] == l.items[i]);
                assert(item_clean(l.items[i]));
            } else {
                assert(r.items[i].spans == last.spans);
                assert(r.items[i].list == toc_insert(last.list, (depth - 1) as nat, it));
            }
        }
    }
}

proof fn lemma_add_block_clean(st: DocV, b: BlockV)
    requires
        doc_clean(st),
        block_clean(b),
    ensures
        doc_clean(add_block(st, b)),
{
    let c = st.content.push(b);
    assert forall|i: int| 0 <= i < c.len() implies block_clean(#[trigger] c[i]) by {
        if i < st.content.len() {
            assert(c[i] == st.content[i]);
        }
    }
}

proof fn lemma_add_header_clean(st: DocV, spans: Seq<SpanV>, level: nat)
    requires
        doc_clean(st),
        spans_clean(spans),
    ensures
        doc_clean(add_header(st, spans, level)),
{
    let text = plain_text(spans);
    lemma_plain_text_clean(spans);
    let k = crate::parser::occurrences(st.headers, text);
    let id = header_id(text, k);
    if k > 0 {
        lemma_decimal_clean(k);
        lemma_no_angle_add(text, seq!['-']);
        lemma_no_angle_add(text + seq!['-'], decimal(k));
    }
    let lid = if level == 1 { text } else { id };
    lemma_add_block_clean(st, BlockV::Header { spans, level: level as u32, id: lid });
    if level != 1 {
        let e = toc_entry(text, id);
        lemma_no_angle_add(seq!['#'], id);
        assert(spans_clean(e.spans)) by {
            assert(span_clean(e.spans[0]));
        }
        assert(list_clean(e.list));
        lemma_toc_insert_clean(st.toc, (level - 2) as nat, e);
        let h = st.headers.push(text);
        assert forall|i: int| 0 <= i < h.len() implies no_angle(#[trigger] h[i]) by {
            if i < st.headers.len() {
                assert(h[i] == st.headers[i]);
            }
        }
    }
}

proof fn lemma_step_clean(s: Seq<char>, p: int, pages: Seq<PageInfoV>, st: DocV)
    requires
        doc_clean(st),
        0 <= p < s.len(),
    ensures
        doc_clean(step(s, p, pages, st).0),
{
    broadcast use lemma_escape_no_angle;

    let lv = crate::blocks::header_level(s, p);
    if lv > 0 {
        lemma_spans_clean(s, p + lv + 1, pages);
        lemma_add_header_clean(st, spans_from(s, p + lv + 1, pages).0, lv);
    } else if crate::cursor::at(s, p, seq!['>', ' ']) {
        lemma_spans_clean(s, p + 2, pages);
        lemma_add_block_clean(st, BlockV::Blockquote { spans: spans_from(s, p + 2, pages).0 });
    } else if crate::blocks::bullet_at(s, p) || crate::blocks::ordinal_len(s, p) > 0 {
        lemma_list_clean(s, p, 0, false, pages);
        let (items, o, q) = list_from(s, p, 0, false, pages);
        lemma_add_block_clean(st, BlockV::ListElement(ListV { ordered: o, items }));
    } else if crate::cursor::at(s, p, seq!['?', '[', ']', '(']) {
        let b = card_at(s, p + 4, pages).0;
        assert(no_angle(Seq::<char>::empty()));
        lemma_add_block_clean(st, b);
    } else if crate::cursor::at(s, p, seq!['$', '$']) {
        lemma_add_block_clean(st, BlockV::MathBlock { math: raw_until(s, p + 2, seq!['$', '$']).0 });
    } else if crate::cursor::at(s, p, seq!['`', '`', '`']) {
        lemma_add_block_clean(st, code_at(s, p + 3).0);
    } else if crate::cursor::at(s, p, seq!['|']) {
        let (head, q) = rows_from(s, p);
        lemma_rows_clean(s, p);
        lemma_rows_clean(s, q);
        lemma_add_block_clean(st, BlockV::Table { head, body: rows_from(s, q).0 });
    } else {
        let (spans, q) = spans_from(s, p, pages);
        lemma_spans_clean(s, p, pages);
        if spans.len() > 0 {
            lemma_add_block_clean(st, BlockV::Paragraph { spans });
        }
    }
}

proof fn lemma_doc_from_clean(s: Seq<char>, p: int, pages: Seq<PageInfoV>, st: DocV)
    requires
        doc_clean(st),
    ensures
        doc_clean(doc_from(s, p, pages, st)),
    decreases s.len() - p,
{
    if 0 <= p < s.len() {
        lemma_step_clean(s, p, pages, st);
        let (next, q) = step(s, p, pages, st);
        if p < q <= s.len() {
            lemma_doc_from_clean(s, q, pages, next);
        }
    }
}

/// No text of a parsed document holds a bare `<` or `>`: in its title, its
/// table of contents, and every span, header id, table cell, code and math
/// body and link-card field of its blocks, each one that came from the source
/// or from the lookup stands as `&lt;` or `&gt;`.
pub proof fn lemma_document_escaped(s: Seq<char>, pages: Seq<PageInfoV>)
    ensures
        doc_clean(document(s, pages)),
{
    assert(no_angle(Seq::<char>::empty()));
    assert(list_clean(empty_doc().toc));
    lemma_doc_from_clean(s, 0, pages, empty_doc());
}

} // verus!
