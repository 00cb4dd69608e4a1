//! The slots and literal lines of an existing HTML page.
use vstd::prelude::*;

use crate::cursor::{at, at_lit, chars_of, find_from, find_lit, string_of, push_range};
use crate::data::{elems_view, Elem, ElemV};

verus! {

pub open spec fn title_open() -> Seq<char> {
    "<title>"@
}

pub open spec fn title_close() -> Seq<char> {
    "</title>"@
}

pub open spec fn toc_open() -> Seq<char> {
    "<nav id=\"toc\">"@
}

pub open spec fn toc_close() -> Seq<char> {
    "</nav>"@
}

pub open spec fn content_open() -> Seq<char> {
    "<div id=\"content\">"@
}

pub open spec fn content_close() -> Seq<char> {
    "</div>"@
}

pub open spec fn div_open() -> Seq<char> {
    "<div"@
}

/// Where the line that starts at `p` ends, its `\n` included.
pub open spec fn next_line(t: Seq<char>, p: int) -> int {
    let q = find_from(t, p, seq!['\n']);
    if q < t.len() {
        q + 1
    } else {
        t.len() as int
    }
}

/// The first position `i` in `[p, e)` where `pat` occurs within `t[p..e]`, or -1.
pub open spec fn find_in(t: Seq<char>, p: int, e: int, pat: Seq<char>) -> int
    decreases e - p,
{
    if p < 0 || p >= e || p + pat.len() > e || e > t.len() {
        -1
    } else if at(t, p, pat) {
        p
    } else {
        find_in(t, p + 1, e, pat)
    }
}

/// The end of the first line from `p` on that holds `pat`, or the end of `t`.
pub open spec fn skip_through(t: Seq<char>, p: int, pat: Seq<char>) -> int
    decreases t.len() - p,
{
    if p < 0 || p >= t.len() {
        t.len() as int
    } else {
        let e = next_line(t, p);
        if !(p < e <= t.len()) || find_in(t, p, e, pat) >= 0 {
            e
        } else {
            skip_through(t, e, pat)
        }
    }
}

/// How often `pat` occurs within `t[p..e]`.
pub open spec fn count_in(t: Seq<char>, p: int, e: int, pat: Seq<char>) -> int
    decreases e - p,
{
    if p < 0 || p >= e || p + pat.len() > e || e > t.len() {
        0
    } else {
        (if at(t, p, pat) {
            1int
        } else {
            0int
        }) + count_in(t, p + 1, e, pat)
    }
}

/// The end of the line, from `p` on, where the `<div` elements open before `p`
/// (`depth` of them) are all closed, or the end of `t`; each line adds its
/// openings and takes away its closings.
pub open spec fn skip_region(t: Seq<char>, p: int, depth: int) -> int
    decreases t.len() - p,
{
    if p < 0 || p >= t.len() {
        t.len() as int
    } else {
        let e = next_line(t, p);
        let d = depth + count_in(t, p, e, div_open()) - count_in(t, p, e, content_close());
        if !(p < e <= t.len()) || d <= 0 {
            e
        } else {
            skip_region(t, e, d)
        }
    }
}

/// The template element for the line at `p`, and where the text it stands for ends.
pub open spec fn elem_at(t: Seq<char>, p: int) -> (ElemV, int) {
    let e = next_line(t, p);
    let ti = find_in(t, p, e, title_open());
    let ni = find_in(t, p, e, toc_open());
    let ci = find_in(t, p, e, content_open());
    if ti >= 0 && find_in(t, ti + title_open().len(), e, title_close()) >= 0 {
        (ElemV::Title((ti - p) as nat), e)
    } else if ni >= 0 {
        (ElemV::Toc((ni - p) as nat), skip_through(t, e, toc_close()))
    } else if ci >= 0 {
        (ElemV::Content((ci - p) as nat), skip_region(t, e, 1))
    } else {
        (ElemV::Str(t.subrange(p, e)), e)
    }
}

/// The template elements of `t` from `p` on.
pub open spec fn elems_from(t: Seq<char>, p: int) -> Seq<ElemV>
    decreases t.len() - p,
{
    if p < 0 || p >= t.len() {
        Seq::empty()
    } else {
        let (el, q) = elem_at(t, p);
        if !(p < q <= t.len()) {
            seq![el]
        } else {
            seq![el] + elems_from(t, q)
        }
    }
}

/// The template that an HTML file `t` gives: one slot for the line with the
/// title, one for the table of contents (standing for all lines up to the one
/// that closes it) and one for the content (standing for all lines up to the
/// one where its `<div` is closed), and each other line as it is.
pub open spec fn template_of(t: Seq<char>) -> Seq<ElemV> {
    elems_from(t, 0)
}

/// Whether a line `t[p..e]` holds one of the three opening anchors.
pub open spec fn holds_anchor(t: Seq<char>, p: int, e: int) -> bool {
    find_in(t, p, e, title_open()) >= 0 || find_in(t, p, e, toc_open()) >= 0 || find_in(
        t,
        p,
        e,
        content_open(),
    ) >= 0
}

/// Whether `pat` occurs anywhere in `t`.
pub open spec fn occurs(t: Seq<char>, pat: Seq<char>) -> bool {
    exists|i: int| at(t, i, pat)
}

/// The texts of the literal elements of `es`, one after another.
pub open spec fn literal_text(es: Seq<ElemV>) -> Seq<char>
    decreases es.len(),
{
    if es.len() == 0 {
        Seq::empty()
    } else {
        (match es[0] {
            ElemV::Str(x) => x,
            _ => Seq::empty(),
        }) + literal_text(es.drop_first())
    }
}

/// A line that holds no opening anchor becomes one literal element whose text
/// is the line, its terminator included.
pub proof fn lemma_plain_line_kept(t: Seq<char>, p: int)
    requires
        0 <= p < t.len(),
        !holds_anchor(t, p, next_line(t, p)),
    ensures
        elem_at(t, p) == (ElemV::Str(t.subrange(p, next_line(t, p))), next_line(t, p)),
{
}

proof fn lemma_find_in_absent(t: Seq<char>, p: int, e: int, pat: Seq<char>)
    requires
        !occurs(t, pat),
    ensures
        find_in(t, p, e, pat) == -1,
    decreases e - p,
{
    if !(p < 0 || p >= e || p + pat.len() > e || e > t.len()) {
        assert(!at(t, p, pat));
        lemma_find_in_absent(t, p + 1, e, pat);
    }
}

proof fn lemma_plain_lines_from(t: Seq<char>, p: int)
    requires
        0 <= p <= t.len(),
        !occurs(t, title_open()),
        !occurs(t, toc_open()),
        !occurs(t, content_open()),
    ensures
        forall|k: int| 0 <= k < elems_from(t, p).len() ==> #[trigger] elems_from(t, p)[k] is Str,
        literal_text(elems_from(t, p)) == t.subrange(p, t.len() as int),
    decreases t.len() - p,
{
    if p == t.len() {
        assert(t.subrange(p, p) =~= Seq::<char>::empty());
    } else {
        crate::progress::lemma_find_from(t, p, seq!['\n']);
        let e = next_line(t, p);
        lemma_find_in_absent(t, p, e, title_open());
        lemma_find_in_absent(t, p, e, toc_open());
        lemma_find_in_absent(t, p, e, content_open());
        lemma_plain_line_kept(t, p);
        lemma_plain_lines_from(t, e);
        let rest = elems_from(t, e);
        let all = seq![ElemV::Str(t.subrange(p, e))] + rest;
        assert(elems_from(t, p) == all);
        assert(all.drop_first() =~= rest);
        assert forall|k: int| 0 <= k < all.len() implies #[trigger] all[k] is Str by {
            if k > 0 {
                assert(all[k] == rest[k - 1]);
            }
        }
        assert(t.subrange(p, e) + t.subrange(e, t.len() as int) =~= t.subrange(p, t.len() as int));
    }
}

/// A page in which no opening anchor occurs becomes only literal elements,
/// one per line in order, whose texts put together are the page byte for byte.
pub proof fn lemma_plain_page_kept(t: Seq<char>)
    requires
        !occurs(t, title_open()),
        !occurs(t, toc_open()),
        !occurs(t, content_open()),
    ensures
        forall|k: int| 0 <= k < template_of(t).len() ==> #[trigger] template_of(t)[k] is Str,
        literal_text(template_of(t)) == t,
{
    lemma_plain_lines_from(t, 0);
    assert(t.subrange(0, t.len() as int) =~= t);
}

/// Where the line that starts at `p` ends.
fn line_after(t: &Vec<char>, p: usize) -> (r: usize)
    requires
        p <= t@.len(),
    ensures
        r as int == next_line(t@, p as int),
        p <= r <= t@.len(),
{
    let nl = vec!['\n'];
    assert(nl@ =~= seq!['\n']);
    let q = find_lit(t, p, &nl);
    if q < t.len() {
        q + 1
    } else {
        t.len()
    }
}

/// Where `pat` first occurs within `t[p..e]`.
fn find_within(t: &Vec<char>, p: usize, e: usize, pat: &Vec<char>) -> (r: Option<usize>)
    requires
        p <= e <= t@.len(),
    ensures
        match r {
            Some(i) => find_in(t@, p as int, e as int, pat@) == i as int && p <= i && i + pat@.len()
                <= e,
            None => find_in(t@, p as int, e as int, pat@) == -1,
        },
{
    let mut i = p;
    while i < e && pat.len() <= e - i
        invariant
            p <= i,
            e <= t@.len(),
            find_in(t@, p as int, e as int, pat@) == find_in(t@, i as int, e as int, pat@),
        decreases e - i,
    {
        if at_lit(t, i, pat) {
            return Some(i);
        }
        i += 1;
    }
    None
}

fn skip_lines_through(t: &Vec<char>, p: usize, pat: &Vec<char>) -> (r: usize)
    requires
        p <= t@.len(),
    ensures
        r as int == skip_through(t@, p as int, pat@),
        r <= t@.len(),
{
    let mut i = p;
    while i < t.len()
        invariant
            p <= i <= t@.len(),
            skip_through(t@, p as int, pat@) == skip_through(t@, i as int, pat@),
        decreases t@.len() - i,
    {
        let e = line_after(t, i);
        if !(i < e) {
            return e;
        }
        if find_within(t, i, e, pat).is_some() {
            return e;
        }
        i = e;
    }
    t.len()
}

/// How often `pat` occurs within `t[p..e]`.
fn count_within(t: &Vec<char>, p: usize, e: usize, pat: &Vec<char>) -> (r: usize)
    requires
        p <= e <= t@.len(),
    ensures
        r as int == count_in(t@, p as int, e as int, pat@),
        r <= e - p,
{
    let mut k: usize = 0;
    let mut i = p;
    while i < e && pat.len() <= e - i
        invariant
            p <= i <= e,
            e <= t@.len(),
            k <= i - p,
            count_in(t@, p as int, e as int, pat@) == k + count_in(t@, i as int, e as int, pat@),
        decreases e - i,
    {
        if at_lit(t, i, pat) {
            k += 1;
        }
        i += 1;
    }
    k
}

/// Where the region that `depth` open `<div` elements before `p` stand for ends.
fn skip_div_region(t: &Vec<char>, p: usize, depth: usize, open: &Vec<char>, close: &Vec<char>) -> (r: usize)
    requires
        1 <= depth <= p <= t@.len(),
        open@ == div_open(),
        close@ == content_close(),
    ensures
        r as int == skip_region(t@, p as int, depth as int),
        r <= t@.len(),
{
    let mut i = p;
    let mut d = depth;
    while i < t.len()
        invariant
            1 <= d <= i <= t@.len(),
            open@ == div_open(),
            close@ == content_close(),
            skip_region(t@, p as int, depth as int) == skip_region(t@, i as int, d as int),
        decreases t@.len() - i,
    {
        let e = line_after(t, i);
        if !(i < e) {
            return e;
        }
        let opens = count_within(t, i, e, open);
        let closes = count_within(t, i, e, close);
        if closes >= d + opens {
            return e;
        }
        d = d + opens - closes;
        i = e;
    }
    t.len()
}

/// Splits the text of an HTML file into template elements, as `template_of` says.
pub fn parse_template(text: &str) -> (r: Vec<Elem>)
    ensures
        elems_view(r@) == template_of(text@),
{
    let t = chars_of(text);
    let topen = chars_of("<title>");
    let tclose = chars_of("</title>");
    let nopen = chars_of("<nav id=\"toc\">");
    let nclose = chars_of("</nav>");
    let copen = chars_of("<div id=\"content\">");
    let cclose = chars_of("</div>");
    let dopen = chars_of("<div");
    let mut r: Vec<Elem> = Vec::new();
    let mut p: usize = 0;
    loop
        invariant
            p <= t@.len(),
            t@ == text@,
            topen@ == title_open(),
            tclose@ == title_close(),
            nopen@ == toc_open(),
            nclose@ == toc_close(),
            copen@ == content_open(),
            cclose@ == content_close(),
            dopen@ == div_open(),
            template_of(t@) == elems_view(r@) + elems_from(t@, p as int),
        decreases t@.len() - p,
    {
        if p >= t.len() {
            assert(elems_view(r@) + Seq::empty() =~= elems_view(r@));
            return r;
        }
        let e = line_after(&t, p);
        let ti = find_within(&t, p, e, &topen);
        let ni = find_within(&t, p, e, &nopen);
        let ci = find_within(&t, p, e, &copen);
        let mut titled = false;
        let mut col: usize = 0;
        if let Some(i) = ti {
            // the length fits in a usize, so positions below it do too
            let _len = t.len();
            if find_within(&t, i + topen.len(), e, &tclose).is_some() {
                titled = true;
                col = i - p;
            }
        }
        let (el, q) = if titled {
            (Elem::Title(col), e)
        } else if let Some(i) = ni {
            (Elem::Toc(i - p), skip_lines_through(&t, e, &nclose))
        } else if let Some(i) = ci {
            (Elem::Content(i - p), skip_div_region(&t, e, 1, &dopen, &cclose))
        } else {
            let mut buf: Vec<char> = Vec::new();
            push_range(&mut buf, &t, p, e);
            (Elem::Str(string_of(&buf)), e)
        };
        assert((el@, q as int) == elem_at(t@, p as int));
        let ghost before = r@;
        r.push(el);
        assert(elems_view(r@) =~= elems_view(before).push(el@));
        if !(p < q && q <= t.len()) {
            assert(elems_view(before) + seq![el@] =~= elems_view(r@));
            assert(template_of(t@) == elems_view(r@));
            return r;
        }
        assert(elems_view(before) + (seq![el@] + elems_from(t@, q as int)) =~= elems_view(r@) + elems_from(t@, q as int));
        p = q;
    }
}

} // verus!
