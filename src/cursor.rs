//! Positions in the source text: lookahead, line ends, and the HTML escaping
//! of text.
use vstd::prelude::*;
use vstd::std_specs::iter::IteratorSpec;

verus! {

/// A character that ends a line: `\n`, or the `\r` of `\r\n`.
pub open spec fn is_nl(c: char) -> bool {
    c == '\n' || c == '\r'
}

/// `lit` occurs in `s` at position `p`.
pub open spec fn at(s: Seq<char>, p: int, lit: Seq<char>) -> bool {
    0 <= p && p + lit.len() <= s.len() && s.subrange(p, p + lit.len()) == lit
}

/// The HTML form of one character: `<` and `>` become entities, nothing else changes.
pub open spec fn escape_char(c: char) -> Seq<char> {
    if c == '<' {
        seq!['&', 'l', 't', ';']
    } else if c == '>' {
        seq!['&', 'g', 't', ';']
    } else {
        seq![c]
    }
}

/// `t` with every character replaced by its HTML form.
pub open spec fn escape(t: Seq<char>) -> Seq<char>
    decreases t.len(),
{
    if t.len() == 0 {
        Seq::empty()
    } else {
        escape(t.drop_last()) + escape_char(t.last())
    }
}

/// The first position at or after `p` where the line ends (a `\r`, a `\n`, or the end of input).
pub open spec fn line_end(s: Seq<char>, p: int) -> int
    decreases s.len() - p,
{
    if p < 0 || p >= s.len() || is_nl(s[p]) {
        p
    } else {
        line_end(s, p + 1)
    }
}

/// The first position at or after `p` on the same line that holds `d`, or -1.
pub open spec fn scan(s: Seq<char>, p: int, d: char) -> int
    decreases s.len() - p,
{
    if p < 0 || p >= s.len() || is_nl(s[p]) {
        -1
    } else if s[p] == d {
        p
    } else {
        scan(s, p + 1, d)
    }
}

/// The first position at or after `p` on the same line where `d` occurs twice in a row, or -1.
pub open spec fn scan2(s: Seq<char>, p: int, d: char) -> int
    decreases s.len() - p,
{
    if p < 0 || p >= s.len() || is_nl(s[p]) {
        -1
    } else if s[p] == d && p + 1 < s.len() && s[p + 1] == d {
        p
    } else {
        scan2(s, p + 1, d)
    }
}

/// The first position at or after `p` where `lit` occurs, across lines, or `s.len()`.
pub open spec fn find_from(s: Seq<char>, p: int, lit: Seq<char>) -> int
    decreases s.len() - p,
{
    if p < 0 || p >= s.len() || at(s, p, lit) {
        p
    } else {
        find_from(s, p + 1, lit)
    }
}

/// The position after the line break at `p`, if there is one there.
pub open spec fn skip_nl(s: Seq<char>, p: int) -> int {
    if at(s, p, seq!['\r', '\n']) {
        p + 2
    } else if at(s, p, seq!['\n']) {
        p + 1
    } else {
        p
    }
}

proof fn lemma_escape_push(t: Seq<char>, c: char)
    ensures
        escape(t.push(c)) == escape(t) + escape_char(c),
{
    assert(t.push(c).drop_last() =~= t);
}

/// Whether `lit` occurs in `s` at position `p`.
pub fn at_lit(s: &Vec<char>, p: usize, lit: &Vec<char>) -> (r: bool)
    ensures
        r == at(s@, p as int, lit@),
{
    if p > s.len() || lit.len() > s.len() - p {
        return false;
    }
    let mut i: usize = 0;
    while i < lit.len()
        invariant
            p + lit@.len() <= s@.len(),
            s@.len() <= usize::MAX,
            i <= lit@.len(),
            forall|k: int| 0 <= k < i ==> s@[p + k] == lit@[k],
        decreases lit.len() - i,
    {
        assert(p + i < s@.len());
        if s[p + i] != lit[i] {
            assert(s@.subrange(p as int, p + lit@.len())[i as int] != lit@[i as int]);
            return false;
        }
        i += 1;
    }
    assert(s@.subrange(p as int, p + lit@.len()) =~= lit@);
    true
}

/// Appends the HTML form of `c`.
pub fn push_escaped(buf: &mut Vec<char>, c: char)
    ensures
        final(buf)@ == old(buf)@ + escape_char(c),
{
    if c == '<' {
        buf.push('&');
        buf.push('l');
        buf.push('t');
        buf.push(';');
    } else if c == '>' {
        buf.push('&');
        buf.push('g');
        buf.push('t');
        buf.push(';');
    } else {
        buf.push(c);
    }
    assert(final(buf)@ =~= old(buf)@ + escape_char(c));
}

/// Appends the HTML form of `s[a..b]`.
pub fn push_escaped_range(buf: &mut Vec<char>, s: &Vec<char>, a: usize, b: usize)
    requires
        a <= b <= s@.len(),
    ensures
        final(buf)@ == old(buf)@ + escape(s@.subrange(a as int, b as int)),
{
    let mut i = a;
    while i < b
        invariant
            a <= i <= b <= s@.len(),
            buf@ == old(buf)@ + escape(s@.subrange(a as int, i as int)),
        decreases b - i,
    {
        let ghost before = buf@;
        push_escaped(buf, s[i]);
        proof {
            assert(s@.subrange(a as int, i + 1) =~= s@.subrange(a as int, i as int).push(s@[i as int]));
            lemma_escape_push(s@.subrange(a as int, i as int), s@[i as int]);
            assert(buf@ =~= old(buf)@ + escape(s@.subrange(a as int, i + 1)));
        }
        i += 1;
    }
}

/// Appends `s[a..b]` unchanged.
pub fn push_range(buf: &mut Vec<char>, s: &Vec<char>, a: usize, b: usize)
    requires
        a <= b <= s@.len(),
    ensures
        final(buf)@ == old(buf)@ + s@.subrange(a as int, b as int),
{
    let mut i = a;
    while i < b
        invariant
            a <= i <= b <= s@.len(),
            buf@ == old(buf)@ + s@.subrange(a as int, i as int),
        decreases b - i,
    {
        buf.push(s[i]);
        assert(buf@ =~= old(buf)@ + s@.subrange(a as int, i + 1));
        i += 1;
    }
}

/// Where the line that holds `p` ends.
pub fn find_line_end(s: &Vec<char>, p: usize) -> (r: usize)
    requires
        p <= s@.len(),
    ensures
        r as int == line_end(s@, p as int),
        p <= r <= s@.len(),
{
    let mut i = p;
    while i < s.len() && s[i] != '\n' && s[i] != '\r'
        invariant
            p <= i <= s@.len(),
            line_end(s@, p as int) == line_end(s@, i as int),
        decreases s.len() - i,
    {
        i += 1;
    }
    i
}

/// Where `d` next occurs on the line from `p`.
pub fn find_on_line(s: &Vec<char>, p: usize, d: char) -> (r: Option<usize>)
    requires
        !is_nl(d),
    ensures
        match r {
            Some(q) => scan(s@, p as int, d) == q as int && p <= q < s@.len(),
            None => scan(s@, p as int, d) == -1,
        },
{
    let mut i = p;
    while i < s.len() && s[i] != '\n' && s[i] != '\r' && s[i] != d
        invariant
            p <= i,
            scan(s@, p as int, d) == scan(s@, i as int, d),
        decreases s.len() - i,
    {
        i += 1;
    }
    if i < s.len() && s[i] == d {
        Some(i)
    } else {
        None
    }
}

/// Where `d` next occurs twice in a row on the line from `p`.
pub fn find_double_on_line(s: &Vec<char>, p: usize, d: char) -> (r: Option<usize>)
    requires
        !is_nl(d),
    ensures
        match r {
            Some(q) => scan2(s@, p as int, d) == q as int && p <= q && q + 1 < s@.len(),
            None => scan2(s@, p as int, d) == -1,
        },
{
    let mut i = p;
    while i < s.len() && s[i] != '\n' && s[i] != '\r' && !(s[i] == d && i + 1 < s.len() && s[i
        + 1] == d)
        invariant
            p <= i,
            scan2(s@, p as int, d) == scan2(s@, i as int, d),
        decreases s.len() - i,
    {
        i += 1;
    }
    if i < s.len() && s[i] == d && i + 1 < s.len() && s[i + 1] == d {
        Some(i)
    } else {
        None
    }
}

/// Where `lit` next occurs at or after `p`, or the end of input.
pub fn find_lit(s: &Vec<char>, p: usize, lit: &Vec<char>) -> (r: usize)
    requires
        p <= s@.len(),
    ensures
        r as int == find_from(s@, p as int, lit@),
        p <= r <= s@.len(),
{
    let mut i = p;
    while i < s.len() && !at_lit(s, i, lit)
        invariant
            p <= i <= s@.len(),
            find_from(s@, p as int, lit@) == find_from(s@, i as int, lit@),
        decreases s.len() - i,
    {
        i += 1;
    }
    i
}

/// Where the line break at `p` ends, if there is one there.
pub fn skip_newline(s: &Vec<char>, p: usize) -> (r: usize)
    ensures
        r as int == skip_nl(s@, p as int),
{
    if p < s.len() && s.len() - p >= 2 && s[p] == '\r' && s[p + 1] == '\n' {
        assert(s@.subrange(p as int, p + 2) =~= seq!['\r', '\n']);
        p + 2
    } else if p < s.len() && s[p] == '\n' {
        assert(s@.subrange(p as int, p + 1) =~= seq!['\n']);
        assert(!at(s@, p as int, seq!['\r', '\n'])) by {
            if at(s@, p as int, seq!['\r', '\n']) {
                assert(s@.subrange(p as int, p + 2)[0] == '\r');
            }
        }
        p + 1
    } else {
        assert(!at(s@, p as int, seq!['\r', '\n'])) by {
            if at(s@, p as int, seq!['\r', '\n']) {
                assert(s@.subrange(p as int, p + 2)[0] == '\r');
                assert(s@.subrange(p as int, p + 2)[1] == '\n');
            }
        }
        assert(!at(s@, p as int, seq!['\n'])) by {
            if at(s@, p as int, seq!['\n']) {
                assert(s@.subrange(p as int, p + 1)[0] == '\n');
            }
        }
        p
    }
}

} // verus!

verus! {

/// Relies on `FromIterator<char>` for `String`: the string holds the characters in order.
#[verifier::external_body]
pub(crate) fn string_of(v: &Vec<char>) -> (r: String)
    ensures
        r@ == v@,
{
    v.iter().collect()
}

/// The characters of `s` in order.
pub fn chars_of(s: &str) -> (r: Vec<char>)
    ensures
        r@ == s@,
{
    broadcast use vstd::string::axiom_spec_iter, vstd::string::next_postcondition;

    let mut it = s.chars();
    let mut r: Vec<char> = Vec::new();
    loop
        invariant
            r@ + it.remaining() == s@,
            it.decrease() is Some,
        decreases it.decrease()->0,
    {
        let ghost before = it.remaining();
        match it.next() {
            Some(c) => {
                assert(r@.push(c) + it.remaining() =~= r@ + before);
                r.push(c);
            },
            None => {
                assert(r@ =~= s@);
                return r;
            },
        }
    }
}

/// The HTML form of `s[a..b]` as a string.
pub fn escaped(s: &Vec<char>, a: usize, b: usize) -> (r: String)
    requires
        a <= b <= s@.len(),
    ensures
        r@ == escape(s@.subrange(a as int, b as int)),
{
    let mut buf: Vec<char> = Vec::new();
    push_escaped_range(&mut buf, s, a, b);
    assert(buf@ =~= escape(s@.subrange(a as int, b as int)));
    string_of(&buf)
}

/// The HTML form of `t`.
pub fn escape_string(t: &str) -> (r: String)
    ensures
        r@ == escape(t@),
{
    let cs = chars_of(t);
    assert(cs@.subrange(0, cs@.len() as int) =~= cs@);
    escaped(&cs, 0, cs.len())
}

} // verus!
