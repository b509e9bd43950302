//! Character-level text primitives: white space, trimming, prefixes, lines
//! and white-space separated fields.
//!
//! Text is modelled as `Seq<char>`. The executable functions work on a
//! slice of characters and describe pieces of it by index ranges, so that
//! no piece is ever copied.

use vstd::prelude::*;

verus! {

/// The characters that carry the Unicode `White_Space` property.
pub open spec fn is_space(c: char) -> bool {
    let n = c as u32;
    ||| 0x09 <= n <= 0x0d
    ||| n == 0x20
    ||| n == 0x85
    ||| n == 0xa0
    ||| n == 0x1680
    ||| 0x2000 <= n <= 0x200a
    ||| n == 0x2028
    ||| n == 0x2029
    ||| n == 0x202f
    ||| n == 0x205f
    ||| n == 0x3000
}

/// `s` begins with `p`.
pub open spec fn has_prefix(s: Seq<char>, p: Seq<char>) -> bool {
    p.len() <= s.len() && s.subrange(0, p.len() as int) == p
}

/// `s` ends with `p`.
pub open spec fn has_suffix(s: Seq<char>, p: Seq<char>) -> bool {
    p.len() <= s.len() && s.subrange(s.len() - p.len(), s.len() as int) == p
}

/// `s` without every leading repetition of the non-empty pattern `p`.
pub open spec fn strip_prefixes(s: Seq<char>, p: Seq<char>) -> Seq<char>
    decreases s.len(),
{
    if p.len() > 0 && has_prefix(s, p) {
        strip_prefixes(s.skip(p.len() as int), p)
    } else {
        s
    }
}

/// `s` without every trailing repetition of the non-empty pattern `p`.
pub open spec fn strip_suffixes(s: Seq<char>, p: Seq<char>) -> Seq<char>
    decreases s.len(),
{
    if p.len() > 0 && has_suffix(s, p) {
        strip_suffixes(s.take(s.len() - p.len()), p)
    } else {
        s
    }
}

/// `s` without its leading white space.
pub open spec fn trim_start(s: Seq<char>) -> Seq<char>
    decreases s.len(),
{
    if s.len() > 0 && is_space(s[0]) {
        trim_start(s.skip(1))
    } else {
        s
    }
}

/// `s` without its trailing white space.
pub open spec fn trim_end(s: Seq<char>) -> Seq<char>
    decreases s.len(),
{
    if s.len() > 0 && is_space(s.last()) {
        trim_end(s.drop_last())
    } else {
        s
    }
}

/// `s` without leading and trailing white space.
pub open spec fn trim(s: Seq<char>) -> Seq<char> {
    trim_end(trim_start(s))
}

/// The number of characters of `s` before its first line feed.
pub open spec fn line_len(s: Seq<char>) -> nat
    decreases s.len(),
{
    if s.len() == 0 || s[0] == '\n' {
        0
    } else {
        1 + line_len(s.skip(1))
    }
}

/// `s` without one trailing carriage return.
pub open spec fn strip_cr(s: Seq<char>) -> Seq<char> {
    if s.len() > 0 && s.last() == '\r' {
        s.drop_last()
    } else {
        s
    }
}

/// The lines of `s`. A line ends at a line feed; the line feed, and a
/// carriage return directly before it, are not part of the line. Text after
/// the last line feed is a line of its own, kept as it is, unless it is empty.
pub open spec fn lines(s: Seq<char>) -> Seq<Seq<char>>
    decreases s.len(),
{
    if s.len() == 0 {
        Seq::empty()
    } else {
        let n = line_len(s) as int;
        if n >= s.len() {
            seq![s]
        } else {
            seq![strip_cr(s.take(n))] + lines(s.skip(n + 1))
        }
    }
}

/// The number of characters of `s` before its first white-space character.
pub open spec fn token_len(s: Seq<char>) -> nat
    decreases s.len(),
{
    if s.len() == 0 || is_space(s[0]) {
        0
    } else {
        1 + token_len(s.skip(1))
    }
}

/// The maximal runs of characters of `s` that hold no white space, in order.
pub open spec fn fields(s: Seq<char>) -> Seq<Seq<char>>
    decreases s.len(),
{
    if s.len() == 0 {
        Seq::empty()
    } else if is_space(s[0]) {
        fields(s.skip(1))
    } else {
        let n = token_len(s) as int;
        if n >= s.len() {
            seq![s]
        } else {
            seq![s.take(n)] + fields(s.skip(n))
        }
    }
}

/// A piece of a text: the characters from index `lo` up to, not including, `hi`.
#[derive(Clone, Copy, Debug)]
pub struct Span {
    pub lo: usize,
    pub hi: usize,
}

impl Span {
    /// The span lies within a text of `len` characters.
    pub open spec fn fits(self, len: nat) -> bool {
        self.lo <= self.hi <= len
    }

    /// The characters of `s` that the span covers.
    pub open spec fn of(self, s: Seq<char>) -> Seq<char> {
        s.subrange(self.lo as int, self.hi as int)
    }
}

/// The pieces of `s` that a sequence of spans covers.
pub open spec fn pieces(s: Seq<char>, spans: Seq<Span>) -> Seq<Seq<char>> {
    Seq::new(spans.len(), |i: int| spans[i].of(s))
}

/// Every span lies within a text of `len` characters.
pub open spec fn all_fit(spans: Seq<Span>, len: nat) -> bool {
    forall|i: int| 0 <= i < spans.len() ==> (#[trigger] spans[i]).fits(len)
}

/// The first line of a text is no longer than the text.
pub proof fn lemma_line_len_bound(s: Seq<char>)
    ensures
        line_len(s) <= s.len(),
    decreases s.len(),
{
    if s.len() > 0 && s[0] != '\n' {
        lemma_line_len_bound(s.skip(1));
    }
}

/// How `lines` takes the first line off a text that is not empty.
pub proof fn lemma_lines_unfold(s: Seq<char>)
    requires
        s.len() > 0,
    ensures
        line_len(s) <= s.len(),
        line_len(s) == s.len() ==> lines(s) == seq![s],
        line_len(s) < s.len() ==> lines(s) == seq![strip_cr(s.take(line_len(s) as int))] + lines(
            s.skip(line_len(s) as int + 1),
        ),
{
    lemma_line_len_bound(s);
}

/// A run of `n` characters without a line feed that ends the text or is
/// followed by a line feed is the first line.
pub proof fn lemma_line_len_is(s: Seq<char>, n: int)
    requires
        0 <= n <= s.len(),
        forall|j: int| 0 <= j < n ==> s[j] != '\n',
        n == s.len() || s[n] == '\n',
    ensures
        line_len(s) == n,
    decreases n,
{
    if n > 0 {
        lemma_line_len_is(s.skip(1), n - 1);
    }
}

/// A run of `n` characters without white space that ends the text or is
/// followed by white space is the first token.
pub proof fn lemma_token_len_is(s: Seq<char>, n: int)
    requires
        0 <= n <= s.len(),
        forall|j: int| 0 <= j < n ==> !is_space(s[j]),
        n == s.len() || is_space(s[n]),
    ensures
        token_len(s) == n,
    decreases n,
{
    if n > 0 {
        lemma_token_len_is(s.skip(1), n - 1);
    }
}

/// A text that ends with a line feed has its first line feed before its end.
pub proof fn lemma_line_feed_last(a: Seq<char>)
    requires
        a.len() > 0,
        a.last() == '\n',
    ensures
        line_len(a) < a.len(),
    decreases a.len(),
{
    if a[0] != '\n' {
        lemma_line_feed_last(a.skip(1));
    }
}

/// What follows a text does not move the first line feed of the text.
pub proof fn lemma_line_len_append(a: Seq<char>, b: Seq<char>)
    requires
        line_len(a) < a.len(),
    ensures
        line_len(a + b) == line_len(a),
    decreases a.len(),
{
    if a[0] != '\n' {
        assert((a + b).skip(1) =~= a.skip(1) + b);
        lemma_line_len_append(a.skip(1), b);
    }
}

/// The lines of two texts in a row, of which the first ends with a line
/// feed, are the lines of the first and then the lines of the second.
pub proof fn lemma_lines_append(a: Seq<char>, b: Seq<char>)
    requires
        a.len() == 0 || a.last() == '\n',
    ensures
        lines(a + b) == lines(a) + lines(b),
    decreases a.len(),
{
    if a.len() > 0 {
        let n = line_len(a) as int;
        let rest = a.skip(n + 1);
        lemma_line_feed_last(a);
        lemma_line_len_append(a, b);
        assert((a + b).take(n) =~= a.take(n));
        assert((a + b).skip(n + 1) =~= rest + b);
        lemma_lines_append(rest, b);
    }
}

/// A text without a line feed, followed by a carriage return and a line
/// feed, is one line: the text.
pub proof fn lemma_one_line(l: Seq<char>)
    requires
        forall|i: int| 0 <= i < l.len() ==> l[i] != '\n',
    ensures
        lines(l + seq!['\r', '\n']) == seq![l],
{
    let s = l + seq!['\r', '\n'];
    let n = l.len() as int + 1;
    lemma_line_len_is(s, n);
    lemma_lines_unfold(s);
    assert(strip_cr(s.take(n)) =~= l);
}

/// Tells whether `c` is a white-space character.
pub fn is_whitespace(c: char) -> (b: bool)
    ensures
        b == is_space(c),
{
    let n: u32 = c as u32;
    (0x09 <= n && n <= 0x0d) || n == 0x20 || n == 0x85 || n == 0xa0 || n == 0x1680 || (0x2000 <= n
        && n <= 0x200a) || n == 0x2028 || n == 0x2029 || n == 0x202f || n == 0x205f || n == 0x3000
}

/// The characters of `s`, in order.
pub fn chars_of(s: &str) -> (v: Vec<char>)
    ensures
        v@ == s@,
{
    broadcast use vstd::string::axiom_spec_iter;

    let mut v: Vec<char> = Vec::new();
    for c in it: s.chars()
        invariant
            it.seq() == s@,
            v@ == s@.take(it.index()),
    {
        v.push(c);
    }
    v
}

/// Tells whether the piece `lo..hi` of `s` begins with `p`.
pub fn starts_with(s: &[char], lo: usize, hi: usize, p: &[char]) -> (b: bool)
    requires
        lo <= hi <= s.len(),
    ensures
        b == has_prefix(s@.subrange(lo as int, hi as int), p@),
{
    let ghost piece = s@.subrange(lo as int, hi as int);
    if p.len() > hi - lo {
        return false;
    }
    let mut i: usize = 0;
    while i < p.len()
        invariant
            lo <= hi <= s.len(),
            p.len() <= hi - lo,
            i <= p.len(),
            piece == s@.subrange(lo as int, hi as int),
            forall|j: int| 0 <= j < i ==> piece[j] == p@[j],
        decreases p.len() - i,
    {
        if s[lo + i] != p[i] {
            return false;
        }
        i = i + 1;
    }
    assert(piece.subrange(0, p.len() as int) =~= p@);
    true
}

/// Tells whether the piece `lo..hi` of `s` ends with `p`.
pub fn ends_with(s: &[char], lo: usize, hi: usize, p: &[char]) -> (b: bool)
    requires
        lo <= hi <= s.len(),
    ensures
        b == has_suffix(s@.subrange(lo as int, hi as int), p@),
{
    let ghost piece = s@.subrange(lo as int, hi as int);
    if p.len() > hi - lo {
        return false;
    }
    let base: usize = hi - p.len();
    let ghost tail = piece.subrange(piece.len() - p.len(), piece.len() as int);
    let mut i: usize = 0;
    while i < p.len()
        invariant
            lo <= base,
            base + p.len() == hi,
            hi <= s.len(),
            i <= p.len(),
            piece == s@.subrange(lo as int, hi as int),
            tail == piece.subrange(piece.len() - p.len(), piece.len() as int),
            forall|j: int| 0 <= j < i ==> tail[j] == p@[j],
        decreases p.len() - i,
    {
        if s[base + i] != p[i] {
            return false;
        }
        i = i + 1;
    }
    assert(tail =~= p@);
    true
}

/// Where the piece `lo..hi` of `s` begins once every leading repetition of
/// `p` is taken off.
pub fn skip_prefixes(s: &[char], lo: usize, hi: usize, p: &[char]) -> (r: usize)
    requires
        lo <= hi <= s.len(),
    ensures
        lo <= r <= hi,
        s@.subrange(r as int, hi as int) == strip_prefixes(s@.subrange(lo as int, hi as int), p@),
{
    if p.len() == 0 {
        return lo;
    }
    let mut cur: usize = lo;
    while starts_with(s, cur, hi, p)
        invariant
            lo <= cur <= hi <= s.len(),
            p.len() > 0,
            strip_prefixes(s@.subrange(lo as int, hi as int), p@) == strip_prefixes(
                s@.subrange(cur as int, hi as int),
                p@,
            ),
        decreases hi - cur,
    {
        assert(s@.subrange(cur as int, hi as int).skip(p.len() as int) =~= s@.subrange(
            cur + p.len(),
            hi as int,
        ));
        cur = cur + p.len();
    }
    cur
}

/// Where the piece `lo..hi` of `s` ends once every trailing repetition of
/// `p` is taken off.
pub fn drop_suffixes(s: &[char], lo: usize, hi: usize, p: &[char]) -> (r: usize)
    requires
        lo <= hi <= s.len(),
    ensures
        lo <= r <= hi,
        s@.subrange(lo as int, r as int) == strip_suffixes(s@.subrange(lo as int, hi as int), p@),
{
    if p.len() == 0 {
        return hi;
    }
    let mut cur: usize = hi;
    while ends_with(s, lo, cur, p)
        invariant
            lo <= cur <= hi <= s.len(),
            p.len() > 0,
            strip_suffixes(s@.subrange(lo as int, hi as int), p@) == strip_suffixes(
                s@.subrange(lo as int, cur as int),
                p@,
            ),
        decreases cur - lo,
    {
        assert(s@.subrange(lo as int, cur as int).take(cur - lo - p.len()) =~= s@.subrange(
            lo as int,
            cur - p.len(),
        ));
        cur = cur - p.len();
    }
    cur
}

/// The piece `lo..hi` of `s` without leading and trailing white space.
pub fn trim_span(s: &[char], lo: usize, hi: usize) -> (r: Span)
    requires
        lo <= hi <= s.len(),
    ensures
        lo <= r.lo <= r.hi <= hi,
        r.of(s@) == trim(s@.subrange(lo as int, hi as int)),
{
    let mut a: usize = lo;
    while a < hi && is_whitespace(s[a])
        invariant
            lo <= a <= hi <= s.len(),
            trim_start(s@.subrange(lo as int, hi as int)) == trim_start(
                s@.subrange(a as int, hi as int),
            ),
        decreases hi - a,
    {
        assert(s@.subrange(a as int, hi as int).skip(1) =~= s@.subrange(a + 1, hi as int));
        a = a + 1;
    }
    let mut b: usize = hi;
    while a < b && is_whitespace(s[b - 1])
        invariant
            a <= b <= hi <= s.len(),
            trim_end(s@.subrange(a as int, hi as int)) == trim_end(s@.subrange(a as int, b as int)),
        decreases b - a,
    {
        assert(s@.subrange(a as int, b as int).drop_last() =~= s@.subrange(a as int, b - 1));
        b = b - 1;
    }
    Span { lo: a, hi: b }
}

/// The lines of `s`, as spans of it.
pub fn line_spans(s: &[char]) -> (spans: Vec<Span>)
    ensures
        all_fit(spans@, s@.len()),
        pieces(s@, spans@) == lines(s@),
{
    let mut spans: Vec<Span> = Vec::new();
    let mut pos: usize = 0;
    proof {
        assert(s@.skip(0) =~= s@);
    }
    while pos < s.len()
        invariant
            pos <= s.len(),
            all_fit(spans@, s@.len()),
            lines(s@) == pieces(s@, spans@) + lines(s@.skip(pos as int)),
        decreases s.len() - pos,
    {
        let ghost rest = s@.skip(pos as int);
        let mut end: usize = pos;
        while end < s.len() && s[end] != '\n'
            invariant
                pos <= end <= s.len(),
                forall|j: int| pos <= j < end ==> s@[j] != '\n',
            decreases s.len() - end,
        {
            end = end + 1;
        }
        proof {
            lemma_line_len_is(rest, end - pos);
        }
        if end == s.len() {
            spans.push(Span { lo: pos, hi: end });
            pos = end;
        } else {
            let stop: usize = if end > pos && s[end - 1] == '\r' {
                end - 1
            } else {
                end
            };
            spans.push(Span { lo: pos, hi: stop });
            proof {
                assert(strip_cr(rest.take(end - pos)) =~= s@.subrange(pos as int, stop as int));
                assert(rest.skip(end - pos + 1) =~= s@.skip(end + 1));
            }
            pos = end + 1;
        }
    }
    spans
}

/// The white-space separated fields of the piece `lo..hi` of `s`, as spans
/// of `s`.
pub fn field_spans(s: &[char], lo: usize, hi: usize) -> (spans: Vec<Span>)
    requires
        lo <= hi <= s.len(),
    ensures
        all_fit(spans@, s@.len()),
        pieces(s@, spans@) == fields(s@.subrange(lo as int, hi as int)),
{
    let mut spans: Vec<Span> = Vec::new();
    let mut pos: usize = lo;
    while pos < hi
        invariant
            lo <= pos <= hi <= s.len(),
            all_fit(spans@, s@.len()),
            fields(s@.subrange(lo as int, hi as int)) == pieces(s@, spans@) + fields(
                s@.subrange(pos as int, hi as int),
            ),
        decreases hi - pos,
    {
        let ghost rest = s@.subrange(pos as int, hi as int);
        if is_whitespace(s[pos]) {
            proof {
                assert(rest.skip(1) =~= s@.subrange(pos + 1, hi as int));
            }
            pos = pos + 1;
        } else {
            let mut end: usize = pos;
            while end < hi && !is_whitespace(s[end])
                invariant
                    pos <= end <= hi <= s.len(),
                    forall|j: int| pos <= j < end ==> !is_space(s@[j]),
                decreases hi - end,
            {
                end = end + 1;
            }
            spans.push(Span { lo: pos, hi: end });
            proof {
                lemma_token_len_is(rest, end - pos);
                assert(rest.take(end - pos) =~= s@.subrange(pos as int, end as int));
                assert(rest.skip(end - pos) =~= s@.subrange(end as int, hi as int));
            }
            pos = end;
        }
    }
    spans
}

} // verus!
