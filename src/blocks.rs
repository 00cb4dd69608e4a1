//! Block-level constructs: list markers, lists, tables, link cards, and math
//! and code blocks.
use vstd::prelude::*;

use crate::cursor::{
    at, at_lit, escape, escape_string, escaped, find_line_end, find_lit, find_from, line_end,
    skip_newline, skip_nl,
};
use crate::data::{
    block_is, list_is, item_is, opt_view, page_for, pages_view, row_view, rows_view, spans_view, Block,
    BlockV, List, ListItem, ListItemV, ListV, PageInfo, PageInfoV,
};
use crate::spans::{parse_spans, spans_from};

verus! {

/// How many characters equal to `c` follow one another from `p`.
pub open spec fn run_of(s: Seq<char>, p: int, c: char) -> nat
    decreases s.len() - p,
{
    if p < 0 || p >= s.len() || s[p] != c {
        0
    } else {
        1 + run_of(s, p + 1, c)
    }
}

/// How many ASCII digits follow one another from `p`.
pub open spec fn digits_at(s: Seq<char>, p: int) -> nat
    decreases s.len() - p,
{
    if p < 0 || p >= s.len() || !('0' <= s[p] && s[p] <= '9') {
        0
    } else {
        1 + digits_at(s, p + 1)
    }
}

/// A bullet marker (`+ `, `- ` or `* `) at `p`.
pub open spec fn bullet_at(s: Seq<char>, p: int) -> bool {
    at(s, p, seq!['+', ' ']) || at(s, p, seq!['-', ' ']) || at(s, p, seq!['*', ' '])
}

/// The length of a numbered marker (`12. `) at `p`, or 0.
pub open spec fn ordinal_len(s: Seq<char>, p: int) -> nat {
    let d = digits_at(s, p);
    if d > 0 && at(s, p + d, seq!['.', ' ']) {
        d + 2
    } else {
        0
    }
}

/// The level of a header marker (`#` to `######`, then a space) at `p`, or 0.
pub open spec fn header_level(s: Seq<char>, p: int) -> nat {
    let h = run_of(s, p, '#');
    if 1 <= h <= 6 && at(s, p + h, seq![' ']) {
        h
    } else {
        0
    }
}

/// The items of a list whose items are indented by at least `min` spaces, read
/// from `p`; with whether the last marker read was numbered, and where the list ends.
pub open spec fn list_from(s: Seq<char>, p: int, min: nat, ordered: bool, pages: Seq<
    PageInfoV,
>) -> (Seq<ListItemV>, bool, int)
    decreases s.len() - p,
{
    let n = run_of(s, p, ' ');
    let m = p + n;
    let mk: nat = if bullet_at(s, m) {
        2
    } else {
        ordinal_len(s, m)
    };
    if p < 0 || p >= s.len() || n < min || mk == 0 {
        (Seq::empty(), ordered, p)
    } else {
        let (spans, q) = spans_from(s, m + mk, pages);
        if !(p < q <= s.len()) {
            (Seq::empty(), ordered, p)
        } else {
            let (sub, sub_ordered, r) = list_from(s, q, n + 1, false, pages);
            if !(q <= r <= s.len()) {
                (Seq::empty(), ordered, p)
            } else {
                let (rest, o, e) = list_from(s, r, min, !bullet_at(s, m), pages);
                (
                    seq![ListItemV { spans, list: ListV { ordered: sub_ordered, items: sub } }]
                        + rest,
                    o,
                    e,
                )
            }
        }
    }
}

/// The cells of a table row, `s[i..e]` split at each `|`, in HTML form.
pub open spec fn cells_from(s: Seq<char>, i: int, e: int) -> Seq<Seq<char>>
    decreases e - i,
{
    if i < 0 || i >= e || e > s.len() {
        Seq::empty()
    } else {
        let j = cell_end(s, i, e);
        if !(i <= j < e) {
            seq![escape(s.subrange(i, e))]
        } else {
            seq![escape(s.subrange(i, j))] + cells_from(s, j + 1, e)
        }
    }
}

/// The first `|` in `s[i..e]`, or `e`.
pub open spec fn cell_end(s: Seq<char>, i: int, e: int) -> int
    decreases e - i,
{
    if i < 0 || i >= e || e > s.len() || s[i] == '|' {
        i
    } else {
        cell_end(s, i + 1, e)
    }
}

/// A line `s[i..e]` that only separates the head of a table from its body:
/// it holds nothing but `-`, spaces and `|`.
pub open spec fn is_separator(s: Seq<char>, i: int, e: int) -> bool {
    forall|k: int| i <= k < e ==> #[trigger] s[k] == '-' || s[k] == ' ' || s[k] == '|'
}

/// The row at `p`, if a `|` starts it and it is no separator, and where it ends.
pub open spec fn row_at(s: Seq<char>, p: int) -> (Option<Seq<Seq<char>>>, int) {
    if !at(s, p, seq!['|']) {
        (None, p)
    } else {
        let e = line_end(s, p + 1);
        if is_separator(s, p + 1, e) {
            (None, skip_nl(s, e))
        } else {
            (Some(cells_from(s, p + 1, e)), skip_nl(s, e))
        }
    }
}

/// The rows read from `p` up to the first line that is no row, and where they end.
pub open spec fn rows_from(s: Seq<char>, p: int) -> (Seq<Seq<Seq<char>>>, int)
    decreases s.len() - p,
{
    let (row, q) = row_at(s, p);
    match row {
        None => (Seq::empty(), q),
        Some(cells) => if !(p < q <= s.len()) {
            (Seq::empty(), q)
        } else {
            let (rest, e) = rows_from(s, q);
            (seq![cells] + rest, e)
        },
    }
}

/// Each field that the lookup gave, in HTML form.
pub open spec fn opt_escape(o: Option<Seq<char>>) -> Option<Seq<char>> {
    match o {
        Some(t) => Some(escape(t)),
        None => None,
    }
}

/// The link card whose URL starts at `p`, filled from `pages`.
pub open spec fn card_at(s: Seq<char>, p: int, pages: Seq<PageInfoV>) -> (BlockV, int) {
    let q = find_from(s, p, seq![')']);
    let url = escape(s.subrange(p, q));
    let e = if at(s, q, seq![')']) {
        q + 1
    } else {
        q
    };
    match page_for(pages, url) {
        Some(pg) => (
            BlockV::LinkCard {
                title: escape(pg.card_title),
                image: opt_escape(pg.image),
                url,
                description: opt_escape(pg.description),
                site_name: opt_escape(pg.site_name),
            },
            e,
        ),
        None => (
            BlockV::LinkCard {
                title: Seq::empty(),
                image: None,
                url,
                description: None,
                site_name: None,
            },
            e,
        ),
    }
}

/// Raw text from `p` up to a closing `lit` or the end of input, and where it ends.
pub open spec fn raw_until(s: Seq<char>, p: int, lit: Seq<char>) -> (Seq<char>, int) {
    let q = find_from(s, p, lit);
    (escape(s.subrange(p, q)), if at(s, q, lit) {
        q + lit.len()
    } else {
        q
    })
}

/// The code block whose language tag starts at `p`.
pub open spec fn code_at(s: Seq<char>, p: int) -> (BlockV, int) {
    let le = line_end(s, p);
    let b = skip_nl(s, le);
    let (code, e) = raw_until(s, b, seq!['`', '`', '`']);
    (BlockV::CodeBlock { lang: escape(s.subrange(p, le)), code }, e)
}

proof fn lemma_run_bound(s: Seq<char>, p: int, c: char)
    requires
        0 <= p <= s.len(),
    ensures
        p + run_of(s, p, c) <= s.len(),
    decreases s.len() - p,
{
    if p < s.len() && s[p] == c {
        lemma_run_bound(s, p + 1, c);
    }
}

/// How many `c` follow one another from `p`.
pub fn count_run(s: &Vec<char>, p: usize, c: char) -> (r: usize)
    requires
        p <= s@.len(),
    ensures
        r == run_of(s@, p as int, c),
        p + r <= s@.len(),
{
    let mut i = p;
    proof {
        lemma_run_bound(s@, p as int, c);
    }
    while i < s.len() && s[i] == c
        invariant
            p <= i <= s@.len(),
            run_of(s@, p as int, c) == (i - p) + run_of(s@, i as int, c),
        decreases s.len() - i,
    {
        i += 1;
    }
    i - p
}

/// How many ASCII digits follow one another from `p`.
pub fn count_digits(s: &Vec<char>, p: usize) -> (r: usize)
    requires
        p <= s@.len(),
    ensures
        r == digits_at(s@, p as int),
        p + r <= s@.len(),
{
    let mut i = p;
    while i < s.len() && '0' <= s[i] && s[i] <= '9'
        invariant
            p <= i <= s@.len(),
            digits_at(s@, p as int) == (i - p) + digits_at(s@, i as int),
        decreases s.len() - i,
    {
        i += 1;
    }
    i - p
}

/// Whether a bullet marker starts at `p`.
pub fn is_bullet(s: &Vec<char>, p: usize) -> (r: bool)
    ensures
        r == bullet_at(s@, p as int),
{
    at_lit(s, p, &vec!['+', ' ']) || at_lit(s, p, &vec!['-', ' ']) || at_lit(s, p, &vec!['*', ' '])
}

/// The length of a numbered marker at `p`, or 0.
pub fn ordinal_marker(s: &Vec<char>, p: usize) -> (r: usize)
    requires
        p <= s@.len(),
    ensures
        r == ordinal_len(s@, p as int),
        r > 0 ==> p + r <= s@.len(),
{
    // the length fits in a usize, so positions below it do too
    let _len = s.len();
    let d = count_digits(s, p);
    if d > 0 && at_lit(s, p + d, &vec!['.', ' ']) {
        d + 2
    } else {
        0
    }
}

/// The level of a header marker at `p`, or 0.
pub fn header_marker(s: &Vec<char>, p: usize) -> (r: usize)
    requires
        p <= s@.len(),
    ensures
        r == header_level(s@, p as int),
        r > 0 ==> r <= 6 && p + r + 1 <= s@.len(),
{
    // the length fits in a usize, so positions below it do too
    let _len = s.len();
    let h = count_run(s, p, '#');
    let sp = vec![' '];
    assert(sp@ =~= seq![' ']);
    if 1 <= h && h <= 6 && at_lit(s, p + h, &sp) {
        h
    } else {
        0
    }
}

/// Reads a list whose items are indented by at least `min` spaces, from `p`.
pub fn parse_list(s: &Vec<char>, p: usize, min: usize, pages: &Vec<PageInfo>) -> (r: (
    List,
    usize,
))
    requires
        p <= s@.len(),
    ensures
        ({
            let (items, o, e) = list_from(s@, p as int, min as nat, false, pages_view(pages@));
            list_is(r.0, ListV { ordered: o, items }) && r.1 as int == e
        }),
        r.1 <= s@.len(),
    decreases s@.len() - p,
{
    let ghost pv = pages_view(pages@);
    let mut items: Vec<ListItem> = Vec::new();
    let ghost mut vitems: Seq<ListItemV> = Seq::empty();
    let mut ordered = false;
    let mut i = p;
    loop
        invariant
            p <= i <= s@.len(),
            pv == pages_view(pages@),
            items@.len() == vitems.len(),
            forall|k: int| 0 <= k < vitems.len() ==> item_is(#[trigger] items@[k], vitems[k]),
            ({
                let (all, o, e) = list_from(s@, p as int, min as nat, false, pv);
                let (rest, o2, e2) = list_from(s@, i as int, min as nat, ordered, pv);
                all == vitems + rest && o == o2 && e == e2
            }),
        decreases s@.len() - i,
    {
        if i >= s.len() {
            assert(vitems + Seq::empty() =~= vitems);
            return (List { ordered, items }, i);
        }
        let n = count_run(s, i, ' ');
        let m = i + n;
        let bullet = is_bullet(s, m);
        let mk = if bullet {
            2
        } else {
            ordinal_marker(s, m)
        };
        if n < min || mk == 0 {
            assert(vitems + Seq::empty() =~= vitems);
            return (List { ordered, items }, i);
        }
        let (spans, q) = parse_spans(s, m + mk, pages);
        if !(i < q && q <= s.len()) {
            assert(vitems + Seq::empty() =~= vitems);
            return (List { ordered, items }, i);
        }
        let (sub, r) = parse_list(s, q, n + 1, pages);
        if !(q <= r && r <= s.len()) {
            assert(vitems + Seq::empty() =~= vitems);
            return (List { ordered, items }, i);
        }
        let ghost sv = list_from(s@, q as int, (n + 1) as nat, false, pv);
        let ghost iv = ListItemV { spans: spans_view(spans@), list: ListV { ordered: sv.1, items: sv.0 } };
        let ghost old_items = items@;
        items.push(ListItem { spans, list: sub });
        proof {
            let rest = list_from(s@, r as int, min as nat, !bullet, pv).0;
            assert(vitems + (seq![iv] + rest) =~= vitems.push(iv) + rest);
            assert(item_is(items@[items@.len() - 1], iv));
            vitems = vitems.push(iv);
            assert forall|k: int| 0 <= k < vitems.len() implies item_is(#[trigger] items@[k], vitems[k]) by {
                if k < old_items.len() {
                    assert(items@[k] == old_items[k]);
                }
            }
        }
        ordered = !bullet;
        i = r;
    }
}

/// Whether `s[i..e]` holds nothing but `-`, spaces and `|`.
pub fn separator_line(s: &Vec<char>, i: usize, e: usize) -> (r: bool)
    requires
        i <= e <= s@.len(),
    ensures
        r == is_separator(s@, i as int, e as int),
{
    let mut k = i;
    while k < e
        invariant
            i <= k <= e <= s@.len(),
            forall|j: int| i <= j < k ==> #[trigger] s@[j] == '-' || s@[j] == ' ' || s@[j] == '|',
        decreases e - k,
    {
        if !(s[k] == '-' || s[k] == ' ' || s[k] == '|') {
            return false;
        }
        k += 1;
    }
    true
}

/// Splits `s[i..e]` into cells at each `|`.
pub fn split_cells(s: &Vec<char>, i: usize, e: usize) -> (r: Vec<String>)
    requires
        i <= e <= s@.len(),
    ensures
        row_view(r) == cells_from(s@, i as int, e as int),
{
    let mut cells: Vec<String> = Vec::new();
    let mut k = i;
    while k < e
        invariant
            i <= k <= e <= s@.len(),
            cells_from(s@, i as int, e as int) == row_view(cells) + cells_from(s@, k as int, e as int),
        decreases e - k,
    {
        let mut j = k;
        while j < e && s[j] != '|'
            invariant
                k <= j <= e <= s@.len(),
                cell_end(s@, k as int, e as int) == cell_end(s@, j as int, e as int),
            decreases e - j,
        {
            j += 1;
        }
        let ghost before = cells@;
        let c = escaped(s, k, j);
        cells.push(c);
        proof {
            assert(row_view(cells) =~= before.map_values(|x: String| x@).push(c@));
        }
        if j < e {
            proof {
                assert(row_view(cells) + cells_from(s@, j + 1, e as int) =~= before.map_values(
                    |x: String| x@,
                ) + (seq![c@] + cells_from(s@, j + 1, e as int)));
            }
            k = j + 1;
        } else {
            proof {
                assert(cells_from(s@, e as int, e as int) =~= Seq::empty());
                assert(row_view(cells) + cells_from(s@, e as int, e as int) =~= before.map_values(
                    |x: String| x@,
                ) + seq![c@]);
            }
            k = e;
        }
    }
    assert(row_view(cells) + Seq::empty() =~= row_view(cells));
    cells
}

/// Reads the table row at `p`.
pub fn parse_row(s: &Vec<char>, p: usize) -> (r: (Option<Vec<String>>, usize))
    requires
        p <= s@.len(),
    ensures
        r.1 as int == row_at(s@, p as int).1,
        r.1 <= s@.len(),
        match r.0 {
            Some(cells) => row_at(s@, p as int).0 == Some(row_view(cells)),
            None => row_at(s@, p as int).0 == None::<Seq<Seq<char>>>,
        },
{
    if !(p < s.len() && s[p] == '|') {
        proof {
            if at(s@, p as int, seq!['|']) {
                assert(s@.subrange(p as int, p + 1)[0] == '|');
            }
        }
        return (None, p);
    }
    assert(s@.subrange(p as int, p + 1) =~= seq!['|']);
    let e = find_line_end(s, p + 1);
    let next = skip_newline(s, e);
    proof {
        if at(s@, e as int, seq!['\r', '\n']) {
        }
    }
    if separator_line(s, p + 1, e) {
        (None, next)
    } else {
        (Some(split_cells(s, p + 1, e)), next)
    }
}

/// Reads rows from `p` up to the first line that is no row.
pub fn parse_rows(s: &Vec<char>, p: usize) -> (r: (Vec<Vec<String>>, usize))
    requires
        p <= s@.len(),
    ensures
        (rows_view(r.0@), r.1 as int) == rows_from(s@, p as int),
        r.1 <= s@.len(),
{
    let mut rows: Vec<Vec<String>> = Vec::new();
    let mut i = p;
    loop
        invariant
            i <= s@.len(),
            rows_from(s@, p as int) == (rows_view(rows@) + rows_from(s@, i as int).0, rows_from(
                s@,
                i as int,
            ).1),
        decreases s@.len() - i,
    {
        let (row, q) = parse_row(s, i);
        match row {
            None => {
                assert(rows_view(rows@) + Seq::empty() =~= rows_view(rows@));
                return (rows, q);
            },
            Some(cells) => {
                if !(i < q && q <= s.len()) {
                    assert(rows_view(rows@) + Seq::empty() =~= rows_view(rows@));
                    return (rows, q);
                }
                let ghost before = rows@;
                proof {
                    let rest = rows_from(s@, q as int).0;
                    assert(rows_view(before.push(cells)) =~= rows_view(before).push(row_view(cells)));
                    assert(rows_view(before) + (seq![row_view(cells)] + rest) =~= rows_view(
                        before.push(cells),
                    ) + rest);
                }
                rows.push(cells);
                i = q;
            },
        }
    }
}

/// Each field that the lookup gave, in HTML form.
fn escape_opt(o: &Option<String>) -> (r: Option<String>)
    ensures
        opt_view(r) == opt_escape(opt_view(*o)),
{
    match o {
        Some(t) => Some(escape_string(t.as_str())),
        None => None,
    }
}

/// Reads the link card whose URL starts at `p`.
pub fn parse_card(s: &Vec<char>, p: usize, pages: &Vec<PageInfo>) -> (r: (Block, usize))
    requires
        p <= s@.len(),
    ensures
        block_is(r.0, card_at(s@, p as int, pages_view(pages@)).0),
        r.1 as int == card_at(s@, p as int, pages_view(pages@)).1,
        r.1 <= s@.len(),
{
    // the length fits in a usize, so positions below it do too
    let _len = s.len();
    let close = vec![')'];
    assert(close@ =~= seq![')']);
    let q = find_lit(s, p, &close);
    let url = escaped(s, p, q);
    let e = if at_lit(s, q, &close) {
        q + 1
    } else {
        q
    };
    match crate::spans::find_page(pages, &url) {
        Some(k) => {
            let pg = &pages[k];
            (
                Block::LinkCard {
                    title: escape_string(pg.card_title.as_str()),
                    image: escape_opt(&pg.image),
                    url,
                    description: escape_opt(&pg.description),
                    site_name: escape_opt(&pg.site_name),
                },
                e,
            )
        },
        None => (
            Block::LinkCard { title: String::new(), image: None, url, description: None, site_name: None },
            e,
        ),
    }
}

/// Reads raw text from `p` up to a closing `lit` or the end of input.
pub fn parse_raw(s: &Vec<char>, p: usize, lit: &Vec<char>) -> (r: (String, usize))
    requires
        p <= s@.len(),
    ensures
        (r.0@, r.1 as int) == raw_until(s@, p as int, lit@),
        r.1 <= s@.len(),
{
    // the length fits in a usize, so positions below it do too
    let _len = s.len();
    let q = find_lit(s, p, lit);
    let t = escaped(s, p, q);
    if at_lit(s, q, lit) {
        (t, q + lit.len())
    } else {
        (t, q)
    }
}

/// Reads the code block whose language tag starts at `p`.
pub fn parse_code_block(s: &Vec<char>, p: usize) -> (r: (Block, usize))
    requires
        p <= s@.len(),
    ensures
        block_is(r.0, code_at(s@, p as int).0),
        r.1 as int == code_at(s@, p as int).1,
        r.1 <= s@.len(),
{
    let le = find_line_end(s, p);
    let lang = escaped(s, p, le);
    let b = skip_newline(s, le);
    let fence = vec!['`', '`', '`'];
    assert(fence@ =~= seq!['`', '`', '`']);
    let (code, e) = parse_raw(s, b, &fence);
    (Block::CodeBlock { lang, code }, e)
}

} // verus!
