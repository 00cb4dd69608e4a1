//! Every block the parser reads takes at least one character.
use vstd::prelude::*;

use crate::blocks::{
    bullet_at, digits_at, header_level, list_from, ordinal_len, row_at, rows_from, run_of,
};
use crate::cursor::{at, find_from, is_nl, line_end, scan, scan2, skip_nl};
use crate::data::PageInfoV;
use crate::parser::{step, DocV};
use crate::spans::{at_newline, span_at, spans_from, text_end};

verus! {

proof fn lemma_line_end(s: Seq<char>, p: int)
    requires
        0 <= p <= s.len(),
    ensures
        p <= line_end(s, p) <= s.len(),
        p < s.len() && !is_nl(s[p]) ==> p < line_end(s, p),
    decreases s.len() - p,
{
    if p < s.len() && !is_nl(s[p]) {
        lemma_line_end(s, p + 1);
    }
}

proof fn lemma_text_end(s: Seq<char>, p: int)
    requires
        0 <= p <= s.len(),
    ensures
        p <= text_end(s, p) <= s.len(),
    decreases s.len() - p,
{
    if p < s.len() && !crate::spans::is_special(s[p]) {
        lemma_text_end(s, p + 1);
    }
}

proof fn lemma_scan(s: Seq<char>, p: int, d: char)
    requires
        0 <= p,
    ensures
        scan(s, p, d) == -1 || p <= scan(s, p, d) < s.len(),
    decreases s.len() - p,
{
    if p < s.len() && !is_nl(s[p]) && s[p] != d {
        lemma_scan(s, p + 1, d);
    }
}

proof fn lemma_scan2(s: Seq<char>, p: int, d: char)
    requires
        0 <= p,
    ensures
        scan2(s, p, d) == -1 || (p <= scan2(s, p, d) && scan2(s, p, d) + 1 < s.len()),
    decreases s.len() - p,
{
    if p < s.len() && !is_nl(s[p]) && !(s[p] == d && p + 1 < s.len() && s[p + 1] == d) {
        lemma_scan2(s, p + 1, d);
    }
}

pub proof fn lemma_find_from(s: Seq<char>, p: int, lit: Seq<char>)
    requires
        0 <= p <= s.len(),
    ensures
        p <= find_from(s, p, lit) <= s.len(),
    decreases s.len() - p,
{
    if p < s.len() && !at(s, p, lit) {
        lemma_find_from(s, p + 1, lit);
    }
}

proof fn lemma_skip_nl(s: Seq<char>, p: int)
    requires
        0 <= p <= s.len(),
    ensures
        p <= skip_nl(s, p) <= s.len(),
{
}

/// A span always takes at least one character and stays within the input.
pub proof fn lemma_span_at_advances(s: Seq<char>, p: int, pages: Seq<PageInfoV>)
    requires
        0 <= p < s.len(),
        !is_nl(s[p]),
    ensures
        p < span_at(s, p, pages).1 <= s.len(),
{
    lemma_line_end(s, p);
    lemma_text_end(s, p + 1);
    lemma_scan(s, p + 1, ']');
    let q = scan(s, p + 1, ']');
    if q >= 0 {
        lemma_scan(s, q + 2, ')');
    }
    lemma_scan2(s, p + 2, s[p]);
    lemma_scan(s, p + 1, s[p]);
    lemma_scan(s, p + 1, '$');
    lemma_scan(s, p + 1, '`');
    lemma_scan(s, p + 4, ')');
}

/// The spans of a line end after its line break, within the input; at the
/// end of input nothing is read.
pub proof fn lemma_spans_from_advances(s: Seq<char>, p: int, pages: Seq<PageInfoV>)
    requires
        0 <= p <= s.len(),
    ensures
        p <= spans_from(s, p, pages).1 <= s.len(),
        p < s.len() ==> p < spans_from(s, p, pages).1,
    decreases s.len() - p,
{
    if p < s.len() {
        if at_newline(s, p) {
            lemma_skip_nl(s, p);
            if at(s, p, seq!['\r', '\n']) {
            } else {
                assert(at(s, p, seq!['\n']));
            }
        } else {
            if s[p] == '\n' {
                assert(s.subrange(p, p + 1) =~= seq!['\n']);
            }
            if !is_nl(s[p]) {
                lemma_span_at_advances(s, p, pages);
            } else {
                // a `\r` that no `\n` follows is read as text
                lemma_text_end(s, p + 1);
            }
            let q = span_at(s, p, pages).1;
            if p < q <= s.len() {
                lemma_spans_from_advances(s, q, pages);
            }
        }
    }
}

proof fn lemma_list_from_bounds(s: Seq<char>, p: int, min: nat, ordered: bool, pages: Seq<PageInfoV>)
    requires
        0 <= p <= s.len(),
    ensures
        p <= list_from(s, p, min, ordered, pages).2 <= s.len(),
    decreases s.len() - p,
{
    let n = run_of(s, p, ' ');
    let m = p + n;
    let mk: nat = if bullet_at(s, m) {
        2
    } else {
        ordinal_len(s, m)
    };
    if !(p < 0 || p >= s.len() || n < min || mk == 0) {
        let (spans, q) = spans_from(s, m + mk, pages);
        if p < q <= s.len() {
            lemma_list_from_bounds(s, q, n + 1, false, pages);
            let r = list_from(s, q, n + 1, false, pages).2;
            if q <= r <= s.len() {
                lemma_list_from_bounds(s, r, min, !bullet_at(s, m), pages);
            }
        }
    }
}

proof fn lemma_rows_from_bounds(s: Seq<char>, p: int)
    requires
        0 <= p <= s.len(),
    ensures
        p <= rows_from(s, p).1 <= s.len(),
        at(s, p, seq!['|']) ==> p < rows_from(s, p).1,
    decreases s.len() - p,
{
    if at(s, p, seq!['|']) {
        lemma_line_end(s, p + 1);
        lemma_skip_nl(s, line_end(s, p + 1));
    }
    let (row, q) = row_at(s, p);
    if let Some(cells) = row {
        if p < q <= s.len() {
            lemma_rows_from_bounds(s, q);
        }
    }
}

/// Every block takes at least one character, and stays within the input.
pub proof fn lemma_step_advances(s: Seq<char>, p: int, pages: Seq<PageInfoV>, st: DocV)
    requires
        0 <= p < s.len(),
    ensures
        p < step(s, p, pages, st).1 <= s.len(),
{
    let lv = header_level(s, p);
    if lv > 0 {
        lemma_spans_from_advances(s, p + lv + 1, pages);
    } else if at(s, p, seq!['>', ' ']) {
        lemma_spans_from_advances(s, p + 2, pages);
    } else if bullet_at(s, p) || ordinal_len(s, p) > 0 {
        lemma_list_from_bounds(s, p, 0, false, pages);
        let n = run_of(s, p, ' ');
        if n > 0 {
            assert(s[p] == ' ');
            if bullet_at(s, p) {
                assert(s.subrange(p, p + 2)[0] == s[p]);
            } else {
                assert(digits_at(s, p) == 0);
            }
        }
        assert(n == 0);
        lemma_spans_from_advances(
            s,
            p + if bullet_at(s, p) {
                2
            } else {
                ordinal_len(s, p) as int
            },
            pages,
        );
        let mk: nat = if bullet_at(s, p) {
            2
        } else {
            ordinal_len(s, p)
        };
        let q = spans_from(s, p + mk, pages).1;
        lemma_list_from_bounds(s, q, 1, false, pages);
        let r = list_from(s, q, 1, false, pages).2;
        lemma_list_from_bounds(s, r, 0, !bullet_at(s, p), pages);
    } else if at(s, p, seq!['?', '[', ']', '(']) {
        lemma_find_from(s, p + 4, seq![')']);
    } else if at(s, p, seq!['$', '$']) {
        lemma_find_from(s, p + 2, seq!['$', '$']);
    } else if at(s, p, seq!['`', '`', '`']) {
        lemma_line_end(s, p + 3);
        let le = line_end(s, p + 3);
        lemma_skip_nl(s, le);
        lemma_find_from(s, skip_nl(s, le), seq!['`', '`', '`']);
    } else if at(s, p, seq!['|']) {
        lemma_rows_from_bounds(s, p);
        lemma_rows_from_bounds(s, rows_from(s, p).1);
    } else {
        lemma_spans_from_advances(s, p, pages);
    }
}

} // verus!
