//! Inline spans within one line: links, emphasis, math, code, images and
//! plain text.
use vstd::prelude::*;

use crate::cursor::{
    at, at_lit, escape, escape_string, escaped, find_double_on_line, find_line_end, find_on_line,
    is_nl, line_end, scan, scan2, skip_newline, skip_nl,
};
use crate::data::{page_for, pages_view, spans_view, EmphasisKind, PageInfo, PageInfoV, Span, SpanV};

verus! {

/// A character at which a run of plain text stops.
pub open spec fn is_special(c: char) -> bool {
    c == '[' || c == '*' || c == '_' || c == '$' || c == '`' || c == '!' || is_nl(c)
}

/// The first position at or after `p` that holds a special character, or the end of input.
pub open spec fn text_end(s: Seq<char>, p: int) -> int
    decreases s.len() - p,
{
    if p < 0 || p >= s.len() || is_special(s[p]) {
        p
    } else {
        text_end(s, p + 1)
    }
}

/// An unterminated construct: the rest of the line, marker included, as text.
pub open spec fn fallback(s: Seq<char>, p: int) -> (SpanV, int) {
    (SpanV::Text { text: escape(s.subrange(p, line_end(s, p))) }, line_end(s, p))
}

/// The text of a link: its own, or else the title that the lookup gave for its URL.
pub open spec fn link_text(text: Seq<char>, url: Seq<char>, pages: Seq<PageInfoV>) -> Seq<char> {
    if text.len() > 0 {
        text
    } else {
        match page_for(pages, url) {
            Some(pg) => escape(pg.title),
            None => Seq::empty(),
        }
    }
}

/// A span that runs from `p` to a single closing `d` on the same line.
pub open spec fn closed_by(s: Seq<char>, p: int, open: int, d: char) -> Option<(Seq<char>, int)> {
    let q = scan(s, p + open, d);
    if q >= 0 {
        Some((escape(s.subrange(p + open, q)), q + 1))
    } else {
        None
    }
}

/// The span that starts at `p`, and where it ends; `p` is on a line, not at its end.
pub open spec fn span_at(s: Seq<char>, p: int, pages: Seq<PageInfoV>) -> (SpanV, int) {
    if s[p] == '[' {
        let q = scan(s, p + 1, ']');
        if q >= 0 && q + 1 < s.len() && s[q + 1] == '(' {
            let r = scan(s, q + 2, ')');
            if r >= 0 {
                let url = escape(s.subrange(q + 2, r));
                (
                    SpanV::Link { text: link_text(escape(s.subrange(p + 1, q)), url, pages), url },
                    r + 1,
                )
            } else {
                fallback(s, p)
            }
        } else {
            fallback(s, p)
        }
    } else if at(s, p, seq!['*', '*']) || at(s, p, seq!['_', '_']) {
        let q = scan2(s, p + 2, s[p]);
        if q >= 0 {
            (
                SpanV::Emphasis { kind: EmphasisKind::Strong, text: escape(s.subrange(p + 2, q)) },
                q + 2,
            )
        } else {
            fallback(s, p)
        }
    } else if s[p] == '*' || s[p] == '_' {
        match closed_by(s, p, 1, s[p]) {
            Some((t, e)) => (SpanV::Emphasis { kind: EmphasisKind::Em, text: t }, e),
            None => fallback(s, p),
        }
    } else if s[p] == '$' {
        match closed_by(s, p, 1, '$') {
            Some((t, e)) => (SpanV::Math { math: t }, e),
            None => fallback(s, p),
        }
    } else if s[p] == '`' {
        match closed_by(s, p, 1, '`') {
            Some((t, e)) => (SpanV::Code { code: t }, e),
            None => fallback(s, p),
        }
    } else if at(s, p, seq!['!', '[', ']', '(']) {
        match closed_by(s, p, 4, ')') {
            Some((t, e)) => (SpanV::Image { url: t }, e),
            None => fallback(s, p),
        }
    } else {
        let e = text_end(s, p + 1);
        (SpanV::Text { text: escape(s.subrange(p, e)) }, e)
    }
}

/// Whether a line break starts at `p`.
pub open spec fn at_newline(s: Seq<char>, p: int) -> bool {
    at(s, p, seq!['\n']) || at(s, p, seq!['\r', '\n'])
}

/// The spans of the line from `p`, and the position after its line break.
pub open spec fn spans_from(s: Seq<char>, p: int, pages: Seq<PageInfoV>) -> (Seq<SpanV>, int)
    decreases s.len() - p,
{
    if p < 0 || p >= s.len() {
        (Seq::empty(), p)
    } else if at_newline(s, p) {
        (Seq::empty(), skip_nl(s, p))
    } else {
        let (sp, q) = span_at(s, p, pages);
        if !(p < q <= s.len()) {
            (seq![sp], q)
        } else {
            let (rest, e) = spans_from(s, q, pages);
            (seq![sp] + rest, e)
        }
    }
}

proof fn lemma_spans_view_push(v: Seq<Span>, x: Span)
    ensures
        spans_view(v.push(x)) == spans_view(v).push(x@),
{
    assert(spans_view(v.push(x)) =~= spans_view(v).push(x@));
}

/// The title that `pages` gives for `url`, in HTML form, or empty.
pub fn lookup_title(pages: &Vec<PageInfo>, url: &String) -> (r: String)
    ensures
        r@ == (match page_for(pages_view(pages@), url@) {
            Some(pg) => escape(pg.title),
            None => Seq::<char>::empty(),
        }),
{
    match find_page(pages, url) {
        Some(i) => escape_string(pages[i].title.as_str()),
        None => String::new(),
    }
}

/// The index of the first entry of `pages` for `url`.
pub fn find_page(pages: &Vec<PageInfo>, url: &String) -> (r: Option<usize>)
    ensures
        match r {
            Some(i) => i < pages@.len() && page_for(pages_view(pages@), url@) == Some(pages@[i as int]@),
            None => page_for(pages_view(pages@), url@) == None::<PageInfoV>,
        },
{
    let mut i: usize = 0;
    assert(pages_view(pages@).subrange(0, pages@.len() as int) =~= pages_view(pages@));
    while i < pages.len()
        invariant
            i <= pages@.len(),
            page_for(pages_view(pages@), url@) == page_for(
                pages_view(pages@).subrange(i as int, pages@.len() as int),
                url@,
            ),
        decreases pages.len() - i,
    {
        let ghost rest = pages_view(pages@).subrange(i as int, pages@.len() as int);
        assert(rest[0] == pages@[i as int]@);
        if pages[i].url == *url {
            return Some(i);
        }
        assert(rest.drop_first() =~= pages_view(pages@).subrange(i + 1, pages@.len() as int));
        i += 1;
    }
    None
}

/// The text of a span from `p + open` to the closing `d` on the same line.
fn parse_closed(s: &Vec<char>, p: usize, open: usize, d: char) -> (r: Option<(String, usize)>)
    requires
        p + open <= s@.len(),
        !is_nl(d),
    ensures
        match r {
            Some((t, e)) => closed_by(s@, p as int, open as int, d) == Some((t@, e as int)) && e
                <= s@.len(),
            None => closed_by(s@, p as int, open as int, d) == None::<(Seq<char>, int)>,
        },
{
    // the length fits in a usize, so positions below it do too
    let _len = s.len();
    match find_on_line(s, p + open, d) {
        Some(q) => Some((escaped(s, p + open, q), q + 1)),
        None => None,
    }
}

fn parse_fallback(s: &Vec<char>, p: usize) -> (r: (Span, usize))
    requires
        p <= s@.len(),
    ensures
        (r.0@, r.1 as int) == fallback(s@, p as int),
        r.1 <= s@.len(),
{
    let e = find_line_end(s, p);
    (Span::Text { text: escaped(s, p, e) }, e)
}

/// Reads the span that starts at `p`.
pub fn parse_span(s: &Vec<char>, p: usize, pages: &Vec<PageInfo>) -> (r: (Span, usize))
    requires
        p < s@.len(),
    ensures
        (r.0@, r.1 as int) == span_at(s@, p as int, pages_view(pages@)),
        r.1 <= s@.len(),
{
    // the length fits in a usize, so positions below it do too
    let _len = s.len();
    if s[p] == '[' {
        if let Some(q) = find_on_line(s, p + 1, ']') {
            if q + 1 < s.len() && s[q + 1] == '(' {
                if let Some(r) = find_on_line(s, q + 2, ')') {
                    let url = escaped(s, q + 2, r);
                    let mut text = escaped(s, p + 1, q);
                    if text.as_str().is_empty() {
                        text = lookup_title(pages, &url);
                    }
                    return (Span::Link { text, url }, r + 1);
                }
            }
        }
        return parse_fallback(s, p);
    }
    if at_lit(s, p, &vec!['*', '*']) || at_lit(s, p, &vec!['_', '_']) {
        proof {
            if at(s@, p as int, seq!['*', '*']) {
                assert(s@.subrange(p as int, p + 2)[0] == '*');
            }
            if at(s@, p as int, seq!['_', '_']) {
                assert(s@.subrange(p as int, p + 2)[0] == '_');
            }
        }
        let d = s[p];
        if let Some(q) = find_double_on_line(s, p + 2, d) {
            return (Span::Emphasis { kind: EmphasisKind::Strong, text: escaped(s, p + 2, q) }, q + 2);
        }
        return parse_fallback(s, p);
    }
    if s[p] == '*' || s[p] == '_' {
        return match parse_closed(s, p, 1, s[p]) {
            Some((t, e)) => (Span::Emphasis { kind: EmphasisKind::Em, text: t }, e),
            None => parse_fallback(s, p),
        };
    }
    if s[p] == '$' {
        return match parse_closed(s, p, 1, '$') {
            Some((t, e)) => (Span::Math { math: t }, e),
            None => parse_fallback(s, p),
        };
    }
    if s[p] == '`' {
        return match parse_closed(s, p, 1, '`') {
            Some((t, e)) => (Span::Code { code: t }, e),
            None => parse_fallback(s, p),
        };
    }
    if at_lit(s, p, &vec!['!', '[', ']', '(']) {
        return match parse_closed(s, p, 4, ')') {
            Some((t, e)) => (Span::Image { url: t }, e),
            None => parse_fallback(s, p),
        };
    }
    let mut e = p + 1;
    while e < s.len() && !is_special_char(s[e])
        invariant
            p < e <= s@.len(),
            text_end(s@, p + 1) == text_end(s@, e as int),
        decreases s.len() - e,
    {
        e += 1;
    }
    (Span::Text { text: escaped(s, p, e) }, e)
}

fn is_special_char(c: char) -> (r: bool)
    ensures
        r == is_special(c),
{
    c == '[' || c == '*' || c == '_' || c == '$' || c == '`' || c == '!' || c == '\n' || c == '\r'
}

/// Whether a line break starts at `p`.
pub fn at_line_break(s: &Vec<char>, p: usize) -> (r: bool)
    ensures
        r == at_newline(s@, p as int),
{
    let a = p < s.len() && s[p] == '\n';
    let b = p < s.len() && s.len() - p >= 2 && s[p] == '\r' && s[p + 1] == '\n';
    proof {
        if a {
            assert(s@.subrange(p as int, p + 1) =~= seq!['\n']);
        }
        if b {
            assert(s@.subrange(p as int, p + 2) =~= seq!['\r', '\n']);
        }
        if at(s@, p as int, seq!['\n']) {
            assert(s@.subrange(p as int, p + 1)[0] == '\n');
        }
        if at(s@, p as int, seq!['\r', '\n']) {
            assert(s@.subrange(p as int, p + 2)[0] == '\r');
            assert(s@.subrange(p as int, p + 2)[1] == '\n');
        }
    }
    a || b
}

/// Reads the spans of the line from `p`, through its line break.
pub fn parse_spans(s: &Vec<char>, p: usize, pages: &Vec<PageInfo>) -> (r: (Vec<Span>, usize))
    requires
        p <= s@.len(),
    ensures
        (spans_view(r.0@), r.1 as int) == spans_from(s@, p as int, pages_view(pages@)),
        r.1 <= s@.len(),
{
    let mut acc: Vec<Span> = Vec::new();
    let mut i = p;
    loop
        invariant
            i <= s@.len(),
            spans_from(s@, p as int, pages_view(pages@)) == (
                spans_view(acc@) + spans_from(s@, i as int, pages_view(pages@)).0,
                spans_from(s@, i as int, pages_view(pages@)).1,
            ),
        decreases s.len() - i,
    {
        if i >= s.len() {
            assert(spans_view(acc@) + Seq::empty() =~= spans_view(acc@));
            return (acc, i);
        }
        if at_line_break(s, i) {
            assert(spans_view(acc@) + Seq::empty() =~= spans_view(acc@));
            let j = skip_newline(s, i);
            return (acc, j);
        }
        let (sp, q) = parse_span(s, i, pages);
        let ghost old_acc = acc@;
        proof {
            lemma_spans_view_push(acc@, sp);
        }
        if !(i < q && q <= s.len()) {
            acc.push(sp);
            assert(spans_view(old_acc) + seq![sp@] =~= spans_view(acc@));
            return (acc, q);
        }
        proof {
            let rest = spans_from(s@, q as int, pages_view(pages@)).0;
            assert(spans_view(old_acc) + (seq![sp@] + rest) =~= spans_view(old_acc).push(sp@) + rest);
        }
        acc.push(sp);
        i = q;
    }
}

} // verus!
