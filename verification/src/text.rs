//! Whitespace, words and trimming on character sequences, as `str::split_whitespace`
//! and `str::trim` define them.

use vstd::prelude::*;

verus! {

/// `c` has the Unicode White_Space property (the test of `char::is_whitespace`).
pub open spec fn is_white(c: char) -> bool {
    ||| ('\u{9}' <= c && c <= '\u{d}')
    ||| c == ' '
    ||| c == '\u{85}'
    ||| c == '\u{a0}'
    ||| c == '\u{1680}'
    ||| ('\u{2000}' <= c && c <= '\u{200a}')
    ||| c == '\u{2028}'
    ||| c == '\u{2029}'
    ||| c == '\u{202f}'
    ||| c == '\u{205f}'
    ||| c == '\u{3000}'
}

/// Tells whether `c` is a whitespace character.
pub fn white(c: char) -> (w: bool)
    ensures
        w == is_white(c),
{
    ('\u{9}' <= c && c <= '\u{d}') || c == ' ' || c == '\u{85}' || c == '\u{a0}' || c == '\u{1680}'
        || ('\u{2000}' <= c && c <= '\u{200a}') || c == '\u{2028}' || c == '\u{2029}'
        || c == '\u{202f}' || c == '\u{205f}' || c == '\u{3000}'
}

/// Reading `s` from left to right: the words already closed by a whitespace character,
/// and the run of non-whitespace characters at the end of `s`.
pub open spec fn scan_words(s: Seq<char>) -> (Seq<Seq<char>>, Seq<char>)
    decreases s.len(),
{
    if s.len() == 0 {
        (Seq::empty(), Seq::empty())
    } else {
        let (done, run) = scan_words(s.drop_last());
        if is_white(s.last()) {
            if run.len() > 0 {
                (done.push(run), Seq::empty())
            } else {
                (done, Seq::empty())
            }
        } else {
            (done, run.push(s.last()))
        }
    }
}

/// The words of `s`: its maximal runs of non-whitespace characters, in order
/// (what `str::split_whitespace` yields).
pub open spec fn words(s: Seq<char>) -> Seq<Seq<char>> {
    let (done, run) = scan_words(s);
    if run.len() > 0 {
        done.push(run)
    } else {
        done
    }
}

/// The characters of `s`, in order.
pub fn chars_of(s: &str) -> (chars: Vec<char>)
    ensures
        chars@ == s@,
{
    let mut chars: Vec<char> = Vec::new();
    for c in it: s.chars()
        invariant
            chars@ == it.seq().take(it.index()),
    {
        chars.push(c);
    }
    chars
}

/// `bounds` lists, as start and end positions in `chars`, exactly the sequences of `parts`.
pub open spec fn spans_spell(chars: Seq<char>, bounds: Seq<(usize, usize)>, parts: Seq<Seq<char>>) -> bool {
    &&& bounds.len() == parts.len()
    &&& forall|i: int|
        0 <= i < bounds.len() ==> {
            &&& (#[trigger] bounds[i]).0 <= bounds[i].1 <= chars.len()
            &&& chars.subrange(bounds[i].0 as int, bounds[i].1 as int) == parts[i]
        }
}

/// The positions of the words of `chars`: for each word, where it starts and where it ends
/// (exclusive), in order.
pub fn word_spans(chars: &Vec<char>) -> (bounds: Vec<(usize, usize)>)
    ensures
        spans_spell(chars@, bounds@, words(chars@)),
{
    let n = chars.len();
    let mut bounds: Vec<(usize, usize)> = Vec::new();
    let mut start: usize = 0;
    for i in 0..n
        invariant
            n == chars@.len(),
            start <= i,
            spans_spell(chars@, bounds@, scan_words(chars@.take(i as int)).0),
            scan_words(chars@.take(i as int)).1 == chars@.subrange(start as int, i as int),
    {
        let c = chars[i];
        let ghost prefix = chars@.take(i as int);
        proof {
            assert(chars@.take(i + 1).drop_last() == prefix);
            assert(chars@.take(i + 1).last() == c);
        }
        if white(c) {
            if start < i {
                bounds.push((start, i));
            }
            start = i + 1;
            proof {
                assert(chars@.subrange(start as int, i + 1) =~= Seq::<char>::empty());
            }
        } else {
            proof {
                assert(chars@.subrange(start as int, i + 1) =~= chars@.subrange(start as int, i as int).push(c));
            }
        }
    }
    proof {
        assert(chars@.take(n as int) == chars@);
    }
    if start < n {
        bounds.push((start, n));
    }
    bounds
}

/// `s` without its leading whitespace.
pub open spec fn trim_start(s: Seq<char>) -> Seq<char>
    decreases s.len(),
{
    if s.len() > 0 && is_white(s[0]) {
        trim_start(s.drop_first())
    } else {
        s
    }
}

/// `s` without its trailing whitespace.
pub open spec fn trim_end(s: Seq<char>) -> Seq<char>
    decreases s.len(),
{
    if s.len() > 0 && is_white(s.last()) {
        trim_end(s.drop_last())
    } else {
        s
    }
}

/// `s` without leading and trailing whitespace (what `str::trim` returns).
pub open spec fn trimmed(s: Seq<char>) -> Seq<char> {
    trim_end(trim_start(s))
}

/// Where the text of `chars` without leading and trailing whitespace starts and ends.
pub fn trimmed_span(chars: &Vec<char>) -> (span: (usize, usize))
    ensures
        span.0 <= span.1 <= chars@.len(),
        chars@.subrange(span.0 as int, span.1 as int) == trimmed(chars@),
{
    let n = chars.len();
    let mut lo: usize = 0;
    proof {
        assert(chars@.subrange(0, n as int) =~= chars@);
    }
    while lo < n && white(chars[lo])
        invariant
            n == chars@.len(),
            lo <= n,
            trim_start(chars@) == trim_start(chars@.subrange(lo as int, n as int)),
        decreases n - lo,
    {
        proof {
            assert(chars@.subrange(lo as int, n as int).drop_first() =~= chars@.subrange(lo + 1, n as int));
        }
        lo = lo + 1;
    }
    let ghost rest = chars@.subrange(lo as int, n as int);
    proof {
        assert(trim_start(rest) == rest);
    }
    let mut hi: usize = n;
    while hi > lo && white(chars[hi - 1])
        invariant
            n == chars@.len(),
            lo <= hi <= n,
            rest == chars@.subrange(lo as int, n as int),
            trim_end(rest) == trim_end(chars@.subrange(lo as int, hi as int)),
        decreases hi,
    {
        proof {
            assert(chars@.subrange(lo as int, hi as int).drop_last() =~= chars@.subrange(lo as int, hi - 1));
        }
        hi = hi - 1;
    }
    (lo, hi)
}

/// `trim_start` drops exactly the leading whitespace: it is the rest of `s` from the first
/// non-whitespace character on.
proof fn lemma_trim_start_drops_leading_white(s: Seq<char>) -> (lo: int)
    ensures
        0 <= lo <= s.len(),
        trim_start(s) == s.subrange(lo, s.len() as int),
        forall|k: int| 0 <= k < lo ==> is_white(#[trigger] s[k]),
        lo < s.len() ==> !is_white(s[lo]),
    decreases s.len(),
{
    if s.len() > 0 && is_white(s[0]) {
        let rest = lemma_trim_start_drops_leading_white(s.drop_first());
        assert(s.drop_first().subrange(rest, s.len() - 1) =~= s.subrange(rest + 1, s.len() as int));
        assert forall|k: int| 0 <= k < rest + 1 implies is_white(#[trigger] s[k]) by {
            if k > 0 {
                assert(s[k] == s.drop_first()[k - 1]);
            }
        }
        rest + 1
    } else {
        assert(s.subrange(0, s.len() as int) =~= s);
        0
    }
}

/// `trim_end` drops exactly the trailing whitespace: it is `s` up to its last
/// non-whitespace character.
proof fn lemma_trim_end_drops_trailing_white(s: Seq<char>) -> (hi: int)
    ensures
        0 <= hi <= s.len(),
        trim_end(s) == s.subrange(0, hi),
        forall|k: int| hi <= k < s.len() ==> is_white(#[trigger] s[k]),
        hi > 0 ==> !is_white(s[hi - 1]),
    decreases s.len(),
{
    if s.len() > 0 && is_white(s.last()) {
        let rest = lemma_trim_end_drops_trailing_white(s.drop_last());
        assert(s.drop_last().subrange(0, rest) =~= s.subrange(0, rest));
        assert forall|k: int| rest <= k < s.len() implies is_white(#[trigger] s[k]) by {
            if k < s.len() - 1 {
                assert(s[k] == s.drop_last()[k]);
            }
        }
        rest
    } else {
        assert(s.subrange(0, s.len() as int) =~= s);
        s.len() as int
    }
}

/// Trimming removes whitespace at both ends and nothing else: the trimmed text is a piece
/// `s[lo..hi]` of `s`, everything before `lo` and from `hi` on is whitespace, and a non-empty
/// trimmed text starts and ends with a non-whitespace character.
pub proof fn lemma_trimmed_is_inner_piece(s: Seq<char>)
    ensures
        exists|lo: int, hi: int|
            {
                &&& 0 <= lo <= hi <= s.len()
                &&& trimmed(s) == s.subrange(lo, hi)
                &&& forall|k: int| 0 <= k < lo ==> is_white(#[trigger] s[k])
                &&& forall|k: int| hi <= k < s.len() ==> is_white(#[trigger] s[k])
                &&& lo < hi ==> !is_white(s[lo]) && !is_white(s[hi - 1])
            },
{
    let lo = lemma_trim_start_drops_leading_white(s);
    let t = trim_start(s);
    let h = lemma_trim_end_drops_trailing_white(t);
    let hi = lo + h;
    assert(trimmed(s) =~= s.subrange(lo, hi));
    assert forall|k: int| hi <= k < s.len() implies is_white(#[trigger] s[k]) by {
        assert(s[k] == t[k - lo]);
    }
    if lo < hi {
        assert(s[lo] == t[0]);
        assert(s[hi - 1] == t[h - 1]);
        if lo == s.len() {
            assert(false);
        }
    }
}

/// `w` is a word: non-empty and free of whitespace.
pub open spec fn is_word(w: Seq<char>) -> bool {
    w.len() > 0 && forall|k: int| 0 <= k < w.len() ==> !is_white(#[trigger] w[k])
}

/// The words of `ws` joined by single spaces.
pub open spec fn spaced(ws: Seq<Seq<char>>) -> Seq<char>
    decreases ws.len(),
{
    if ws.len() == 0 {
        Seq::empty()
    } else if ws.len() == 1 {
        ws[0]
    } else {
        spaced(ws.drop_last()) + seq![' '] + ws.last()
    }
}

/// Appending characters that are not whitespace extends the run at the end and closes no word.
proof fn lemma_scan_extends_run(s: Seq<char>, t: Seq<char>)
    requires
        forall|k: int| 0 <= k < t.len() ==> !is_white(#[trigger] t[k]),
    ensures
        scan_words(s + t) == (scan_words(s).0, scan_words(s).1 + t),
    decreases t.len(),
{
    if t.len() == 0 {
        assert(s + t =~= s);
        assert(scan_words(s).1 + t =~= scan_words(s).1);
    } else {
        let front = t.drop_last();
        assert forall|k: int| 0 <= k < front.len() implies !is_white(#[trigger] front[k]) by {
            assert(front[k] == t[k]);
        }
        lemma_scan_extends_run(s, front);
        assert((s + t).drop_last() =~= s + front);
        assert((s + t).last() == t.last());
        assert(!is_white(t[t.len() - 1]));
        assert(scan_words(s).1 + front.push(t.last()) =~= scan_words(s).1 + t);
        assert((scan_words(s).1 + front).push(t.last()) =~= scan_words(s).1 + t);
    }
}

/// Splitting words joined by single spaces gives back the words: `words` undoes `spaced`.
pub proof fn lemma_words_of_spaced(ws: Seq<Seq<char>>)
    requires
        forall|i: int| 0 <= i < ws.len() ==> is_word(#[trigger] ws[i]),
    ensures
        words(spaced(ws)) == ws,
    decreases ws.len(),
{
    if ws.len() == 0 {
        assert(words(spaced(ws)) =~= ws);
    } else if ws.len() == 1 {
        lemma_scan_extends_run(Seq::empty(), ws[0]);
        assert(Seq::<char>::empty() + ws[0] =~= ws[0]);
        assert(words(spaced(ws)) =~= ws);
    } else {
        let rest = ws.drop_last();
        assert forall|i: int| 0 <= i < rest.len() implies is_word(#[trigger] rest[i]) by {
            assert(rest[i] == ws[i]);
        }
        lemma_words_of_spaced(rest);
        let closed = spaced(rest) + seq![' '];
        assert(closed.drop_last() =~= spaced(rest));
        assert(closed.last() == ' ');
        assert(scan_words(closed) == (words(spaced(rest)), Seq::<char>::empty()));
        assert(is_word(ws[ws.len() - 1]));
        lemma_scan_extends_run(closed, ws.last());
        assert(Seq::<char>::empty() + ws.last() =~= ws.last());
        assert(words(spaced(ws)) =~= ws);
    }
}

/// Whitespace is exactly the 25 characters of the Unicode White_Space property.
pub proof fn lemma_white_is_unicode_white_space(c: char)
    ensures
        is_white(c) == set![
            '\u{9}', '\u{a}', '\u{b}', '\u{c}', '\u{d}', ' ', '\u{85}', '\u{a0}', '\u{1680}',
            '\u{2000}', '\u{2001}', '\u{2002}', '\u{2003}', '\u{2004}', '\u{2005}', '\u{2006}',
            '\u{2007}', '\u{2008}', '\u{2009}', '\u{200a}', '\u{2028}', '\u{2029}', '\u{202f}',
            '\u{205f}', '\u{3000}',
        ].contains(c),
{
}

} // verus!
