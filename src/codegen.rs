//! Rendering: a template's slots filled with the title, table of contents and
//! content of a document, and its literal lines kept.
use vstd::prelude::*;

use crate::cursor::{chars_of, push_range, string_of};
use crate::data::{
    block_model, blocks_model, elems_view, item_model, list_model, opt_view, row_view, rows_view,
    spans_view, Block, BlockV, Elem, ElemV, EmphasisKind, List, ListV, Span, SpanV,
};
use crate::parser::{decimal, push_decimal};

verus! {

pub open spec fn spaces(n: nat) -> Seq<char> {
    Seq::new(n, |i: int| ' ')
}

/// The HTML of one span.
pub open spec fn span_html(sp: SpanV) -> Seq<char> {
    match sp {
        SpanV::Link { text, url } => "<a href=\""@ + url + "\">"@ + text + "</a>"@,
        SpanV::Emphasis { kind: EmphasisKind::Em, text } => "<em>"@ + text + "</em>"@,
        SpanV::Emphasis { kind: EmphasisKind::Strong, text } => "<strong>"@ + text + "</strong>"@,
        SpanV::Math { math } => "\\("@ + math + "\\)"@,
        SpanV::Code { code } => "<code>"@ + code + "</code>"@,
        SpanV::Image { url } => "<img src=\""@ + url + "\">"@,
        SpanV::Text { text } => text,
    }
}

/// The HTML of `sps[k..]`.
pub open spec fn spans_html(sps: Seq<SpanV>, k: int) -> Seq<char>
    decreases sps.len() - k,
{
    if k < 0 || k >= sps.len() {
        Seq::empty()
    } else {
        span_html(sps[k]) + spans_html(sps, k + 1)
    }
}

/// A list at indentation `ind`: nothing when it is empty; each nested list
/// four columns deeper than its parent.
pub open spec fn list_html(l: ListV, ind: nat) -> Seq<char>
    decreases l, l.items.len() + 1,
{
    if l.items.len() == 0 {
        Seq::empty()
    } else {
        let tag = if l.ordered {
            "ol"@
        } else {
            "ul"@
        };
        spaces(ind) + "<"@ + tag + ">\n"@ + items_html(l, 0, ind) + spaces(ind) + "</"@ + tag
            + ">\n"@
    }
}

/// The items `l.items[k..]` of a list at indentation `ind`.
pub open spec fn items_html(l: ListV, k: int, ind: nat) -> Seq<char>
    decreases l, l.items.len() - k,
{
    if k < 0 || k >= l.items.len() {
        Seq::empty()
    } else {
        spaces(ind + 2) + "<li>\n"@ + spaces(ind + 4) + spans_html(l.items[k].spans, 0) + "\n"@
            + list_html(l.items[k].list, ind + 4) + spaces(ind + 2) + "</li>\n"@ + items_html(
            l,
            k + 1,
            ind,
        )
    }
}

/// The cells `row[k..]` at indentation `ind`.
pub open spec fn cells_html(row: Seq<Seq<char>>, k: int, ind: nat) -> Seq<char>
    decreases row.len() - k,
{
    if k < 0 || k >= row.len() {
        Seq::empty()
    } else {
        spaces(ind) + "<td>"@ + row[k] + "</td>\n"@ + cells_html(row, k + 1, ind)
    }
}

/// The rows `rows[k..]` of a table at indentation `ind`.
pub open spec fn rows_html(rows: Seq<Seq<Seq<char>>>, k: int, ind: nat) -> Seq<char>
    decreases rows.len() - k,
{
    if k < 0 || k >= rows.len() {
        Seq::empty()
    } else {
        spaces(ind + 4) + "<tr>\n"@ + cells_html(rows[k], 0, ind + 6) + spaces(ind + 4)
            + "</tr>\n"@ + rows_html(rows, k + 1, ind)
    }
}

pub open spec fn card_top(title: Seq<char>, url: Seq<char>, ind: nat) -> Seq<char> {
    spaces(ind) + "<div class=\"linkcard\"><a class=\"linkcard-link\" href=\""@ + url + "\">\n"@
        + spaces(ind + 2) + "<div class=\"linkcard-text\">\n"@ + spaces(ind + 4)
        + "<h3 class=\"linkcard-title\">"@ + title + "</h3>\n"@
}

pub open spec fn card_description(description: Option<Seq<char>>, ind: nat) -> Seq<char> {
    match description {
        Some(d) => spaces(ind + 4) + "<p class=\"linkcard-description\">"@ + d + "</p>\n"@,
        None => Seq::empty(),
    }
}

pub open spec fn card_site(url: Seq<char>, site_name: Option<Seq<char>>, ind: nat) -> Seq<char> {
    let site = match site_name {
        Some(n) => n,
        None => url,
    };
    spaces(ind + 4)
        + "<img class=\"linkcard-favicon\" src=\"http://www.google.com/s2/favicons?domain="@ + url
        + "\"><span class=\"linkcard-sitename\">"@ + site + "</span>\n"@ + spaces(ind + 2)
        + "</div>\n"@
}

pub open spec fn card_image(image: Option<Seq<char>>, ind: nat) -> Seq<char> {
    match image {
        Some(i) => spaces(ind + 2) + "<img class=\"linkcard-image\" src=\""@ + i + "\">\n"@,
        None => Seq::empty(),
    }
}

/// A link card: its title, an optional description, the site's name (or else
/// its URL), and an optional image.
pub open spec fn card_html(
    title: Seq<char>,
    image: Option<Seq<char>>,
    url: Seq<char>,
    description: Option<Seq<char>>,
    site_name: Option<Seq<char>>,
    ind: nat,
) -> Seq<char> {
    card_top(title, url, ind) + card_description(description, ind) + card_site(url, site_name, ind)
        + card_image(image, ind) + spaces(ind) + "</a></div>\n"@
}

/// The HTML of one block at indentation `ind`.
pub open spec fn block_html(b: BlockV, ind: nat) -> Seq<char> {
    match b {
        BlockV::Header { spans, level, id } => spaces(ind) + "<h"@ + decimal(level as nat)
            + " id=\""@ + id + "\">"@ + spans_html(spans, 0) + "</h"@ + decimal(level as nat)
            + ">\n"@,
        BlockV::Blockquote { spans } => spaces(ind) + "<blockquote>"@ + spans_html(spans, 0)
            + "</blockquote>\n"@,
        BlockV::ListElement(l) => list_html(l, ind),
        BlockV::LinkCard { title, image, url, description, site_name } => card_html(
            title,
            image,
            url,
            description,
            site_name,
            ind,
        ),
        BlockV::MathBlock { math } => spaces(ind) + "<p>\\["@ + math + "\\]</p>\n"@,
        BlockV::CodeBlock { lang, code } => spaces(ind) + "<pre><code class=\"language-"@ + (
        if lang.len() == 0 {
            "plaintext"@
        } else {
            lang
        }) + "\">"@ + code + "</code></pre>\n"@,
        BlockV::Table { head, body } => spaces(ind) + "<table>\n"@ + spaces(ind + 2)
            + "<thead>\n"@ + rows_html(head, 0, ind) + spaces(ind + 2) + "</thead>\n"@ + spaces(
            ind + 2,
        ) + "<tbody>\n"@ + rows_html(body, 0, ind) + spaces(ind + 2) + "</tbody>\n"@ + spaces(ind)
            + "</table>\n"@,
        BlockV::Paragraph { spans } => spaces(ind) + "<p>"@ + spans_html(spans, 0) + "</p>\n"@,
    }
}

/// The HTML of `bs[k..]` at indentation `ind`.
pub open spec fn blocks_html(bs: Seq<BlockV>, k: int, ind: nat) -> Seq<char>
    decreases bs.len() - k,
{
    if k < 0 || k >= bs.len() {
        Seq::empty()
    } else {
        block_html(bs[k], ind) + blocks_html(bs, k + 1, ind)
    }
}

/// What one template element becomes: a literal line stays as it is; a slot is
/// filled at its column.
pub open spec fn elem_html(e: ElemV, title: Seq<char>, toc: ListV, content: Seq<BlockV>) -> Seq<
    char,
> {
    match e {
        ElemV::Title(i) => spaces(i) + "<title>"@ + title + "</title>\n"@,
        ElemV::Toc(i) => if toc.items.len() == 0 {
            Seq::empty()
        } else {
            spaces(i) + "<nav id=\"toc\">\n"@ + list_html(toc, i + 2) + spaces(i) + "</nav>\n"@
        },
        ElemV::Content(i) => spaces(i) + "<div id=\"content\">\n"@ + blocks_html(content, 0, i)
            + spaces(i) + "</div>\n"@,
        ElemV::Str(t) => t,
    }
}

/// The page for `elems[k..]`.
pub open spec fn page_html(
    elems: Seq<ElemV>,
    k: int,
    title: Seq<char>,
    toc: ListV,
    content: Seq<BlockV>,
) -> Seq<char>
    decreases elems.len() - k,
{
    if k < 0 || k >= elems.len() {
        Seq::empty()
    } else {
        elem_html(elems[k], title, toc, content) + page_html(elems, k + 1, title, toc, content)
    }
}

proof fn lemma_page_split(
    elems: Seq<ElemV>,
    j: int,
    k: int,
    title: Seq<char>,
    toc: ListV,
    content: Seq<BlockV>,
)
    requires
        0 <= j <= k <= elems.len(),
    ensures
        page_html(elems, j, title, toc, content) == page_html(elems.take(k), j, title, toc, content)
            + page_html(elems, k, title, toc, content),
    decreases k - j,
{
    if j < k {
        lemma_page_split(elems, j + 1, k, title, toc, content);
        assert(elems.take(k)[j] == elems[j]);
        assert(page_html(elems, j, title, toc, content) =~= page_html(
            elems.take(k),
            j,
            title,
            toc,
            content,
        ) + page_html(elems, k, title, toc, content));
    } else {
        assert(page_html(elems.take(k), j, title, toc, content) =~= Seq::empty());
        assert(page_html(elems, j, title, toc, content) =~= page_html(elems.take(k), j, title, toc, content)
            + page_html(elems, k, title, toc, content));
    }
}

/// Every literal line of a template reaches the page byte for byte, whatever
/// the document: the page is what the elements before it give, then the
/// line's text unchanged, then what the elements after it give.
pub proof fn lemma_literal_lines_kept(
    elems: Seq<ElemV>,
    k: int,
    title: Seq<char>,
    toc: ListV,
    content: Seq<BlockV>,
)
    requires
        0 <= k < elems.len(),
        elems[k] is Str,
    ensures
        page_html(elems, 0, title, toc, content) == page_html(elems.take(k), 0, title, toc, content)
            + elems[k]->Str_0 + page_html(elems, k + 1, title, toc, content),
{
    lemma_page_split(elems, 0, k, title, toc, content);
    assert(page_html(elems.take(k), 0, title, toc, content) + (elems[k]->Str_0 + page_html(
        elems,
        k + 1,
        title,
        toc,
        content,
    )) =~= page_html(elems.take(k), 0, title, toc, content) + elems[k]->Str_0 + page_html(
        elems,
        k + 1,
        title,
        toc,
        content,
    ));
}

/// Appends `s`.
fn emit(out: &mut Vec<char>, s: &str)
    ensures
        final(out)@ == old(out)@ + s@,
{
    let cs = chars_of(s);
    push_range(out, &cs, 0, cs.len());
    assert(cs@.subrange(0, cs@.len() as int) =~= cs@);
}

/// Appends `v`.
fn emit_chars(out: &mut Vec<char>, v: &Vec<char>)
    ensures
        final(out)@ == old(out)@ + v@,
{
    push_range(out, v, 0, v.len());
    assert(v@.subrange(0, v@.len() as int) =~= v@);
}

/// `ind` followed by `n` more spaces.
fn deeper(ind: &Vec<char>, n: usize) -> (r: Vec<char>)
    requires
        ind@ == spaces(ind@.len()),
    ensures
        r@ == spaces((ind@.len() + n) as nat),
        r@.len() == ind@.len() + n,
{
    let mut r: Vec<char> = Vec::new();
    emit_chars(&mut r, ind);
    let mut i: usize = 0;
    while i < n
        invariant
            i <= n,
            ind@ == spaces(ind@.len()),
            r@ =~= spaces((ind@.len() + i) as nat),
        decreases n - i,
    {
        r.push(' ');
        i += 1;
    }
    r
}

/// `n` spaces.
fn indent(n: usize) -> (r: Vec<char>)
    ensures
        r@ == spaces(n as nat),
        r@.len() == n,
{
    let z: Vec<char> = Vec::new();
    assert(z@ =~= spaces(0));
    deeper(&z, n)
}

fn emit_span(out: &mut Vec<char>, sp: &Span)
    ensures
        final(out)@ == old(out)@ + span_html(sp@),
{
    match sp {
        Span::Link { text, url } => {
            emit(out, "<a href=\"");
            emit(out, url.as_str());
            emit(out, "\">");
            emit(out, text.as_str());
            emit(out, "</a>");
        },
        Span::Emphasis { kind: EmphasisKind::Em, text } => {
            emit(out, "<em>");
            emit(out, text.as_str());
            emit(out, "</em>");
        },
        Span::Emphasis { kind: EmphasisKind::Strong, text } => {
            emit(out, "<strong>");
            emit(out, text.as_str());
            emit(out, "</strong>");
        },
        Span::Math { math } => {
            emit(out, "\\(");
            emit(out, math.as_str());
            emit(out, "\\)");
        },
        Span::Code { code } => {
            emit(out, "<code>");
            emit(out, code.as_str());
            emit(out, "</code>");
        },
        Span::Image { url } => {
            emit(out, "<img src=\"");
            emit(out, url.as_str());
            emit(out, "\">");
        },
        Span::Text { text } => {
            emit(out, text.as_str());
        },
    }
    assert(final(out)@ =~= old(out)@ + span_html(sp@));
}

fn emit_spans(out: &mut Vec<char>, sps: &Vec<Span>)
    ensures
        final(out)@ == old(out)@ + spans_html(spans_view(sps@), 0),
{
    let ghost sv = spans_view(sps@);
    let mut k: usize = 0;
    while k < sps.len()
        invariant
            k <= sps@.len(),
            sv == spans_view(sps@),
            out@ + spans_html(sv, k as int) == old(out)@ + spans_html(sv, 0),
        decreases sps.len() - k,
    {
        let ghost before = out@;
        emit_span(out, &sps[k]);
        assert(before + spans_html(sv, k as int) =~= out@ + spans_html(sv, k + 1));
        k += 1;
    }
    assert(out@ + spans_html(sv, k as int) =~= out@);
}

fn emit_list(out: &mut Vec<char>, l: &List, ind: &Vec<char>)
    requires
        ind@ == spaces(ind@.len()),
    ensures
        final(out)@ == old(out)@ + list_html(list_model(*l), ind@.len()),
    decreases *l,
{
    let ghost m = list_model(*l);
    let ghost n = ind@.len();
    if l.items.len() == 0 {
        assert(old(out)@ + list_html(m, n) =~= old(out)@);
        return;
    }
    let tag: &str = if l.ordered {
        "ol"
    } else {
        "ul"
    };
    emit_chars(out, ind);
    emit(out, "<");
    emit(out, tag);
    emit(out, ">\n");
    let ghost mid = out@;
    let i2 = deeper(ind, 2);
    let i4 = deeper(ind, 4);
    let mut k: usize = 0;
    while k < l.items.len()
        invariant
            k <= l.items@.len(),
            m == list_model(*l),
            n == ind@.len(),
            i2@ == spaces(n + 2),
            i4@ == spaces(n + 4),
            i4@.len() == n + 4,
            out@ + items_html(m, k as int, n) == mid + items_html(m, 0, n),
        decreases l.items.len() - k,
    {
        let ghost before = out@;
        let it = &l.items[k];
        assert(m.items[k as int] == item_model(*it));
        assert(decreases_to!(*l => l.items@[k as int].list));
        emit_chars(out, &i2);
        emit(out, "<li>\n");
        emit_chars(out, &i4);
        emit_spans(out, &it.spans);
        emit(out, "\n");
        emit_list(out, &it.list, &i4);
        emit_chars(out, &i2);
        emit(out, "</li>\n");
        assert(before + items_html(m, k as int, n) =~= out@ + items_html(m, k + 1, n));
        k += 1;
    }
    assert(out@ + items_html(m, k as int, n) =~= out@);
    emit_chars(out, ind);
    emit(out, "</");
    emit(out, tag);
    emit(out, ">\n");
    assert(final(out)@ =~= old(out)@ + list_html(m, n));
}

fn emit_cells(out: &mut Vec<char>, row: &Vec<String>, ind: &Vec<char>)
    requires
        ind@ == spaces(ind@.len()),
    ensures
        final(out)@ == old(out)@ + cells_html(row_view(*row), 0, ind@.len()),
{
    let ghost rv = row_view(*row);
    let ghost n = ind@.len();
    let mut k: usize = 0;
    while k < row.len()
        invariant
            k <= row@.len(),
            rv == row_view(*row),
            n == ind@.len(),
            ind@ == spaces(n),
            out@ + cells_html(rv, k as int, n) == old(out)@ + cells_html(rv, 0, n),
        decreases row.len() - k,
    {
        let ghost before = out@;
        emit_chars(out, ind);
        emit(out, "<td>");
        emit(out, row[k].as_str());
        emit(out, "</td>\n");
        assert(before + cells_html(rv, k as int, n) =~= out@ + cells_html(rv, k + 1, n));
        k += 1;
    }
    assert(out@ + cells_html(rv, k as int, n) =~= out@);
}

fn emit_rows(out: &mut Vec<char>, rows: &Vec<Vec<String>>, ind: &Vec<char>)
    requires
        ind@ == spaces(ind@.len()),
    ensures
        final(out)@ == old(out)@ + rows_html(rows_view(rows@), 0, ind@.len()),
{
    let ghost rv = rows_view(rows@);
    let ghost n = ind@.len();
    let i4 = deeper(ind, 4);
    let i6 = deeper(ind, 6);
    let mut k: usize = 0;
    while k < rows.len()
        invariant
            k <= rows@.len(),
            rv == rows_view(rows@),
            n == ind@.len(),
            i4@ == spaces(n + 4),
            i6@.len() == n + 6,
            i6@ == spaces(i6@.len()),
            out@ + rows_html(rv, k as int, n) == old(out)@ + rows_html(rv, 0, n),
        decreases rows.len() - k,
    {
        let ghost before = out@;
        emit_chars(out, &i4);
        emit(out, "<tr>\n");
        emit_cells(out, &rows[k], &i6);
        emit_chars(out, &i4);
        emit(out, "</tr>\n");
        assert(before + rows_html(rv, k as int, n) =~= out@ + rows_html(rv, k + 1, n));
        k += 1;
    }
    assert(out@ + rows_html(rv, k as int, n) =~= out@);
}

fn emit_card_top(out: &mut Vec<char>, title: &String, url: &String, ind: &Vec<char>)
    requires
        ind@ == spaces(ind@.len()),
    ensures
        final(out)@ == old(out)@ + card_top(title@, url@, ind@.len()),
{
    let i2 = deeper(ind, 2);
    let i4 = deeper(ind, 4);
    emit_chars(out, ind);
    emit(out, "<div class=\"linkcard\"><a class=\"linkcard-link\" href=\"");
    emit(out, url.as_str());
    emit(out, "\">\n");
    let ghost a = out@;
    emit_chars(out, &i2);
    emit(out, "<div class=\"linkcard-text\">\n");
    emit_chars(out, &i4);
    emit(out, "<h3 class=\"linkcard-title\">");
    emit(out, title.as_str());
    emit(out, "</h3>\n");
    assert(final(out)@ =~= old(out)@ + card_top(title@, url@, ind@.len()));
}

fn emit_card_description(out: &mut Vec<char>, description: &Option<String>, ind: &Vec<char>)
    requires
        ind@ == spaces(ind@.len()),
    ensures
        final(out)@ == old(out)@ + card_description(opt_view(*description), ind@.len()),
{
    if let Some(d) = description {
        let i4 = deeper(ind, 4);
        emit_chars(out, &i4);
        emit(out, "<p class=\"linkcard-description\">");
        emit(out, d.as_str());
        emit(out, "</p>\n");
    }
    assert(final(out)@ =~= old(out)@ + card_description(opt_view(*description), ind@.len()));
}

fn emit_card_site(out: &mut Vec<char>, url: &String, site_name: &Option<String>, ind: &Vec<char>)
    requires
        ind@ == spaces(ind@.len()),
    ensures
        final(out)@ == old(out)@ + card_site(url@, opt_view(*site_name), ind@.len()),
{
    let i2 = deeper(ind, 2);
    let i4 = deeper(ind, 4);
    emit_chars(out, &i4);
    emit(out, "<img class=\"linkcard-favicon\" src=\"http://www.google.com/s2/favicons?domain=");
    emit(out, url.as_str());
    emit(out, "\"><span class=\"linkcard-sitename\">");
    match site_name {
        Some(s) => emit(out, s.as_str()),
        None => emit(out, url.as_str()),
    }
    emit(out, "</span>\n");
    emit_chars(out, &i2);
    emit(out, "</div>\n");
    assert(final(out)@ =~= old(out)@ + card_site(url@, opt_view(*site_name), ind@.len()));
}

fn emit_card_image(out: &mut Vec<char>, image: &Option<String>, ind: &Vec<char>)
    requires
        ind@ == spaces(ind@.len()),
    ensures
        final(out)@ == old(out)@ + card_image(opt_view(*image), ind@.len()),
{
    if let Some(i) = image {
        let i2 = deeper(ind, 2);
        emit_chars(out, &i2);
        emit(out, "<img class=\"linkcard-image\" src=\"");
        emit(out, i.as_str());
        emit(out, "\">\n");
    }
    assert(final(out)@ =~= old(out)@ + card_image(opt_view(*image), ind@.len()));
}

fn emit_card(
    out: &mut Vec<char>,
    title: &String,
    image: &Option<String>,
    url: &String,
    description: &Option<String>,
    site_name: &Option<String>,
    ind: &Vec<char>,
)
    requires
        ind@ == spaces(ind@.len()),
    ensures
        final(out)@ == old(out)@ + card_html(
            title@,
            opt_view(*image),
            url@,
            opt_view(*description),
            opt_view(*site_name),
            ind@.len(),
        ),
{
    emit_card_top(out, title, url, ind);
    emit_card_description(out, description, ind);
    emit_card_site(out, url, site_name, ind);
    emit_card_image(out, image, ind);
    emit_chars(out, ind);
    emit(out, "</a></div>\n");
    assert(final(out)@ =~= old(out)@ + card_html(
        title@,
        opt_view(*image),
        url@,
        opt_view(*description),
        opt_view(*site_name),
        ind@.len(),
    ));
}

fn emit_header(out: &mut Vec<char>, spans: &Vec<Span>, level: u32, id: &String, ind: &Vec<char>)
    requires
        ind@ == spaces(ind@.len()),
    ensures
        final(out)@ == old(out)@ + block_html(
            BlockV::Header { spans: spans_view(spans@), level, id: id@ },
            ind@.len(),
        ),
{
    emit_chars(out, ind);
    emit(out, "<h");
    push_decimal(out, level as usize);
    emit(out, " id=\"");
    emit(out, id.as_str());
    emit(out, "\">");
    emit_spans(out, spans);
    emit(out, "</h");
    push_decimal(out, level as usize);
    emit(out, ">\n");
    assert(final(out)@ =~= old(out)@ + block_html(
        BlockV::Header { spans: spans_view(spans@), level, id: id@ },
        ind@.len(),
    ));
}

fn emit_table(out: &mut Vec<char>, head: &Vec<Vec<String>>, body: &Vec<Vec<String>>, ind: &Vec<char>)
    requires
        ind@ == spaces(ind@.len()),
    ensures
        final(out)@ == old(out)@ + block_html(
            BlockV::Table { head: rows_view(head@), body: rows_view(body@) },
            ind@.len(),
        ),
{
    let i2 = deeper(ind, 2);
    emit_chars(out, ind);
    emit(out, "<table>\n");
    emit_chars(out, &i2);
    emit(out, "<thead>\n");
    emit_rows(out, head, ind);
    emit_chars(out, &i2);
    emit(out, "</thead>\n");
    let ghost a = out@;
    emit_chars(out, &i2);
    emit(out, "<tbody>\n");
    emit_rows(out, body, ind);
    emit_chars(out, &i2);
    emit(out, "</tbody>\n");
    emit_chars(out, ind);
    emit(out, "</table>\n");
    assert(final(out)@ =~= old(out)@ + block_html(
        BlockV::Table { head: rows_view(head@), body: rows_view(body@) },
        ind@.len(),
    ));
}

fn emit_code_block(out: &mut Vec<char>, lang: &String, code: &String, ind: &Vec<char>)
    requires
        ind@ == spaces(ind@.len()),
    ensures
        final(out)@ == old(out)@ + block_html(BlockV::CodeBlock { lang: lang@, code: code@ }, ind@.len()),
{
    emit_chars(out, ind);
    emit(out, "<pre><code class=\"language-");
    if lang.as_str().is_empty() {
        emit(out, "plaintext");
    } else {
        emit(out, lang.as_str());
    }
    emit(out, "\">");
    emit(out, code.as_str());
    emit(out, "</code></pre>\n");
    assert(final(out)@ =~= old(out)@ + block_html(BlockV::CodeBlock { lang: lang@, code: code@ }, ind@.len()));
}

fn emit_block(out: &mut Vec<char>, b: &Block, ind: &Vec<char>)
    requires
        ind@ == spaces(ind@.len()),
    ensures
        final(out)@ == old(out)@ + block_html(block_model(*b), ind@.len()),
{
    match b {
        Block::Header { spans, level, id } => {
            emit_header(out, spans, *level, id, ind);
        },
        Block::Blockquote { spans } => {
            emit_chars(out, ind);
            emit(out, "<blockquote>");
            emit_spans(out, spans);
            emit(out, "</blockquote>\n");
            assert(final(out)@ =~= old(out)@ + block_html(block_model(*b), ind@.len()));
        },
        Block::ListElement(l) => {
            emit_list(out, l, ind);
        },
        Block::LinkCard { title, image, url, description, site_name } => {
            emit_card(out, title, image, url, description, site_name, ind);
        },
        Block::MathBlock { math } => {
            emit_chars(out, ind);
            emit(out, "<p>\\[");
            emit(out, math.as_str());
            emit(out, "\\]</p>\n");
            assert(final(out)@ =~= old(out)@ + block_html(block_model(*b), ind@.len()));
        },
        Block::CodeBlock { lang, code } => {
            emit_code_block(out, lang, code, ind);
        },
        Block::Table { head, body } => {
            emit_table(out, head, body, ind);
        },
        Block::Paragraph { spans } => {
            emit_chars(out, ind);
            emit(out, "<p>");
            emit_spans(out, spans);
            emit(out, "</p>\n");
            assert(final(out)@ =~= old(out)@ + block_html(block_model(*b), ind@.len()));
        },
    }
}

fn emit_blocks(out: &mut Vec<char>, bs: &Vec<Block>, ind: &Vec<char>)
    requires
        ind@ == spaces(ind@.len()),
    ensures
        final(out)@ == old(out)@ + blocks_html(blocks_model(bs@), 0, ind@.len()),
{
    let ghost bv = blocks_model(bs@);
    let ghost n = ind@.len();
    let mut k: usize = 0;
    while k < bs.len()
        invariant
            k <= bs@.len(),
            bv == blocks_model(bs@),
            n == ind@.len(),
            ind@ == spaces(ind@.len()),
            out@ + blocks_html(bv, k as int, n) == old(out)@ + blocks_html(bv, 0, n),
        decreases bs.len() - k,
    {
        let ghost before = out@;
        emit_block(out, &bs[k], ind);
        assert(before + blocks_html(bv, k as int, n) =~= out@ + blocks_html(bv, k + 1, n));
        k += 1;
    }
    assert(out@ + blocks_html(bv, k as int, n) =~= out@);
}

fn emit_elem(out: &mut Vec<char>, e: &Elem, title: &String, toc: &List, content: &Vec<Block>)
    ensures
        final(out)@ == old(out)@ + elem_html(e@, title@, list_model(*toc), blocks_model(content@)),
{
    match e {
        Elem::Title(i) => {
            let ind = indent(*i);
            emit_chars(out, &ind);
            emit(out, "<title>");
            emit(out, title.as_str());
            emit(out, "</title>\n");
        },
        Elem::Toc(i) => {
            if toc.items.len() > 0 {
                let ind = indent(*i);
                let inner = deeper(&ind, 2);
                emit_chars(out, &ind);
                emit(out, "<nav id=\"toc\">\n");
                emit_list(out, toc, &inner);
                emit_chars(out, &ind);
                emit(out, "</nav>\n");
            }
        },
        Elem::Content(i) => {
            let ind = indent(*i);
            emit_chars(out, &ind);
            emit(out, "<div id=\"content\">\n");
            emit_blocks(out, content, &ind);
            emit_chars(out, &ind);
            emit(out, "</div>\n");
        },
        Elem::Str(t) => {
            emit(out, t.as_str());
        },
    }
    assert(final(out)@ =~= old(out)@ + elem_html(e@, title@, list_model(*toc), blocks_model(content@)));
}

/// The page that `template` gives when its slots are filled with `title`,
/// `toc` and `content`.
pub fn gen_html(title: &String, toc: &List, content: &Vec<Block>, template: &Vec<Elem>) -> (r: String)
    ensures
        r@ == page_html(elems_view(template@), 0, title@, list_model(*toc), blocks_model(content@)),
{
    let ghost ev = elems_view(template@);
    let ghost tm = list_model(*toc);
    let ghost cm = blocks_model(content@);
    let mut out: Vec<char> = Vec::new();
    let mut k: usize = 0;
    while k < template.len()
        invariant
            k <= template@.len(),
            ev == elems_view(template@),
            tm == list_model(*toc),
            cm == blocks_model(content@),
            out@ + page_html(ev, k as int, title@, tm, cm) == page_html(ev, 0, title@, tm, cm),
        decreases template.len() - k,
    {
        let ghost before = out@;
        emit_elem(&mut out, &template[k], title, toc, content);
        assert(before + page_html(ev, k as int, title@, tm, cm) =~= out@ + page_html(ev, k + 1, title@, tm, cm));
        k += 1;
    }
    assert(out@ + page_html(ev, k as int, title@, tm, cm) =~= out@);
    string_of(&out)
}

} // verus!
