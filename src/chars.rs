//! Character-level building blocks of the descriptor grammar: splitting on a
//! separator, whitespace tokens and `key=value` fields.
//!
//! Pieces of a text are handed around as spans `(start, end)` into one
//! character vector, so that nothing is copied while parsing.
use vstd::prelude::*;

verus! {

/// The whitespace that separates tokens: space, tab, line feed, carriage
/// return and form feed.
pub open spec fn is_space(c: char) -> bool {
    c == ' ' || c == '\t' || c == '\n' || c == '\r' || c == '\x0C'
}

/// The pieces of `s` between occurrences of `sep`; always at least one.
pub open spec fn split_on(s: Seq<char>, sep: char) -> Seq<Seq<char>>
    decreases s.len(),
{
    if s.len() == 0 {
        seq![Seq::empty()]
    } else {
        let p = split_on(s.drop_last(), sep);
        if s.last() == sep {
            p.push(Seq::empty())
        } else {
            p.update(p.len() - 1, p.last().push(s.last()))
        }
    }
}

/// Tokens finished so far in `s`, and the token still being read.
pub open spec fn tokens_acc(s: Seq<char>) -> (Seq<Seq<char>>, Seq<char>)
    decreases s.len(),
{
    if s.len() == 0 {
        (Seq::empty(), Seq::empty())
    } else {
        let (done, cur) = tokens_acc(s.drop_last());
        if is_space(s.last()) {
            if cur.len() > 0 {
                (done.push(cur), Seq::empty())
            } else {
                (done, Seq::empty())
            }
        } else {
            (done, cur.push(s.last()))
        }
    }
}

/// The maximal runs of non-whitespace characters of `s`, in order.
pub open spec fn tokens(s: Seq<char>) -> Seq<Seq<char>> {
    let (done, cur) = tokens_acc(s);
    if cur.len() > 0 {
        done.push(cur)
    } else {
        done
    }
}

/// The index of the first `c` in `s`, or the length of `s` if there is none.
pub open spec fn first_index(s: Seq<char>, c: char) -> int
    decreases s.len(),
{
    if s.len() == 0 {
        0
    } else if s[0] == c {
        0
    } else {
        1 + first_index(s.drop_first(), c)
    }
}

/// Whether a token is a `key=value` field.
pub open spec fn has_value(t: Seq<char>) -> bool {
    first_index(t, '=') < t.len()
}

/// What stands before the first `=` of a token.
pub open spec fn key_of(t: Seq<char>) -> Seq<char> {
    t.take(first_index(t, '='))
}

/// What stands after the first `=` of a token.
pub open spec fn value_of(t: Seq<char>) -> Seq<char> {
    t.skip(first_index(t, '=') + 1)
}

/// The value of the first `key=value` field of `toks` whose key is `key`.
pub open spec fn find_value(toks: Seq<Seq<char>>, key: Seq<char>) -> Option<Seq<char>>
    decreases toks.len(),
{
    if toks.len() == 0 {
        None
    } else if has_value(toks[0]) && key_of(toks[0]) == key {
        Some(value_of(toks[0]))
    } else {
        find_value(toks.drop_first(), key)
    }
}

/// Every span of the list lies, in order, inside `lo..hi`.
pub open spec fn spans_within(spans: Seq<(usize, usize)>, lo: int, hi: int) -> bool {
    forall|j: int| 0 <= j < spans.len() ==> lo <= #[trigger] spans[j].0 <= spans[j].1 <= hi
}

/// The pieces of `s` that a list of spans marks out.
pub open spec fn spans_text(s: Seq<char>, spans: Seq<(usize, usize)>) -> Seq<Seq<char>> {
    Seq::new(spans.len(), |j: int| s.subrange(spans[j].0 as int, spans[j].1 as int))
}

/// Copies the characters of a string slice into a vector.
pub fn chars_of(s: &str) -> (r: Vec<char>)
    ensures
        r@ == s@,
{
    let mut v: Vec<char> = Vec::new();
    for c in it: s.chars()
        invariant
            v@ == it.seq().take(it.index()),
    {
        v.push(c);
    }
    v
}

/// Splits `s[lo..hi]` at every `sep`.
pub fn split_spans(s: &Vec<char>, lo: usize, hi: usize, sep: char) -> (r: Vec<(usize, usize)>)
    requires
        lo <= hi <= s@.len(),
    ensures
        spans_within(r@, lo as int, hi as int),
        spans_text(s@, r@) == split_on(s@.subrange(lo as int, hi as int), sep),
{
    let mut done: Vec<(usize, usize)> = Vec::new();
    let mut start: usize = lo;
    let mut i: usize = lo;
    assert(s@.subrange(lo as int, lo as int) =~= Seq::<char>::empty());
    assert(spans_text(s@, done@).push(s@.subrange(lo as int, lo as int)) =~= seq![Seq::empty()]);
    while i < hi
        invariant
            lo <= start <= i <= hi <= s@.len(),
            spans_within(done@, lo as int, start as int),
            spans_text(s@, done@).push(s@.subrange(start as int, i as int))
                == split_on(s@.subrange(lo as int, i as int), sep),
        decreases hi - i,
    {
        let ghost before = s@.subrange(lo as int, i as int);
        let ghost pieces = spans_text(s@, done@);
        assert(s@.subrange(lo as int, i + 1).drop_last() =~= before);
        assert(s@.subrange(lo as int, i + 1).last() == s@[i as int]);
        if s[i] == sep {
            let ghost old_start = start;
            done.push((start, i));
            start = i + 1;
            assert(spans_text(s@, done@) =~= pieces.push(s@.subrange(old_start as int, i as int)));
            assert(s@.subrange(start as int, i + 1) =~= Seq::<char>::empty());
        } else {
            assert(s@.subrange(start as int, i + 1) =~= s@.subrange(start as int, i as int).push(
                s@[i as int],
            ));
        }
        i = i + 1;
    }
    assert(s@.subrange(lo as int, hi as int) =~= s@.subrange(lo as int, i as int));
    done.push((start, hi));
    assert(spans_text(s@, done@) =~= spans_text(s@, done@.drop_last()).push(
        s@.subrange(start as int, hi as int),
    ));
    done
}

/// Splits `s[lo..hi]` into its whitespace-separated tokens.
pub fn token_spans(s: &Vec<char>, lo: usize, hi: usize) -> (r: Vec<(usize, usize)>)
    requires
        lo <= hi <= s@.len(),
    ensures
        spans_within(r@, lo as int, hi as int),
        spans_text(s@, r@) == tokens(s@.subrange(lo as int, hi as int)),
{
    let mut done: Vec<(usize, usize)> = Vec::new();
    let mut start: usize = lo;
    let mut i: usize = lo;
    assert(s@.subrange(lo as int, lo as int) =~= Seq::<char>::empty());
    assert(spans_text(s@, done@) =~= Seq::<Seq<char>>::empty());
    while i < hi
        invariant
            lo <= start <= i <= hi <= s@.len(),
            spans_within(done@, lo as int, start as int),
            spans_text(s@, done@) == tokens_acc(s@.subrange(lo as int, i as int)).0,
            s@.subrange(start as int, i as int) == tokens_acc(s@.subrange(lo as int, i as int)).1,
        decreases hi - i,
    {
        let ghost before = s@.subrange(lo as int, i as int);
        let ghost pieces = spans_text(s@, done@);
        assert(s@.subrange(lo as int, i + 1).drop_last() =~= before);
        assert(s@.subrange(lo as int, i + 1).last() == s@[i as int]);
        let c = s[i];
        if c == ' ' || c == '\t' || c == '\n' || c == '\r' || c == '\x0C' {
            if start < i {
                done.push((start, i));
                assert(spans_text(s@, done@) =~= pieces.push(s@.subrange(start as int, i as int)));
            }
            start = i + 1;
            assert(s@.subrange(start as int, i + 1) =~= Seq::<char>::empty());
        } else {
            assert(s@.subrange(start as int, i + 1) =~= s@.subrange(start as int, i as int).push(c));
        }
        i = i + 1;
    }
    assert(s@.subrange(lo as int, hi as int) =~= s@.subrange(lo as int, i as int));
    if start < hi {
        let ghost pieces = spans_text(s@, done@);
        done.push((start, hi));
        assert(spans_text(s@, done@) =~= pieces.push(s@.subrange(start as int, hi as int)));
    }
    done
}

proof fn lemma_first_index(t: Seq<char>, c: char, i: int)
    requires
        0 <= i <= t.len(),
        forall|k: int| 0 <= k < i ==> t[k] != c,
        i == t.len() || t[i] == c,
    ensures
        first_index(t, c) == i,
    decreases i,
{
    if i > 0 {
        let u = t.drop_first();
        assert forall|k: int| 0 <= k < i - 1 implies u[k] != c by {
            assert(u[k] == t[k + 1]);
        }
        if i < t.len() {
            assert(u[i - 1] == t[i]);
        }
        lemma_first_index(u, c, i - 1);
    }
}

/// The position of the first `c` in `s[lo..hi]`, or `hi` if there is none.
pub fn find_char(s: &Vec<char>, lo: usize, hi: usize, c: char) -> (r: usize)
    requires
        lo <= hi <= s@.len(),
    ensures
        lo <= r <= hi,
        r - lo == first_index(s@.subrange(lo as int, hi as int), c),
{
    let ghost t = s@.subrange(lo as int, hi as int);
    let mut i: usize = lo;
    while i < hi && s[i] != c
        invariant
            lo <= i <= hi <= s@.len(),
            t == s@.subrange(lo as int, hi as int),
            forall|k: int| 0 <= k < i - lo ==> t[k] != c,
        decreases hi - i,
    {
        i = i + 1;
    }
    proof {
        lemma_first_index(t, c, i - lo);
    }
    i
}

/// Whether `s[lo..hi]` spells `word`.
pub fn span_equals(s: &Vec<char>, lo: usize, hi: usize, word: &Vec<char>) -> (r: bool)
    requires
        lo <= hi <= s@.len(),
    ensures
        r == (s@.subrange(lo as int, hi as int) == word@),
{
    if hi - lo != word.len() {
        return false;
    }
    let mut k: usize = 0;
    while k < word.len()
        invariant
            hi - lo == word@.len(),
            lo <= hi <= s@.len(),
            k <= word@.len(),
            forall|j: int| 0 <= j < k ==> s@[lo + j] == word@[j],
        decreases word@.len() - k,
    {
        if s[lo + k] != word[k] {
            assert(s@.subrange(lo as int, hi as int)[k as int] != word@[k as int]);
            return false;
        }
        k = k + 1;
    }
    assert(s@.subrange(lo as int, hi as int) =~= word@);
    true
}

/// The value of the first `key=value` token among `toks` whose key is `key`.
pub fn find_value_span(s: &Vec<char>, toks: &Vec<(usize, usize)>, key: &Vec<char>) -> (r: Option<
    (usize, usize),
>)
    requires
        spans_within(toks@, 0, s@.len() as int),
    ensures
        match r {
            Some(sp) => sp.0 <= sp.1 <= s@.len() && find_value(spans_text(s@, toks@), key@) == Some(
                s@.subrange(sp.0 as int, sp.1 as int),
            ),
            None => find_value(spans_text(s@, toks@), key@) is None,
        },
{
    let ghost all = spans_text(s@, toks@);
    let mut j: usize = 0;
    assert(all.skip(0) =~= all);
    while j < toks.len()
        invariant
            j <= toks@.len(),
            all == spans_text(s@, toks@),
            spans_within(toks@, 0, s@.len() as int),
            find_value(all, key@) == find_value(all.skip(j as int), key@),
        decreases toks@.len() - j,
    {
        let (a, b) = toks[j];
        let ghost t = s@.subrange(a as int, b as int);
        assert(all.skip(j as int)[0] == t);
        assert(all.skip(j as int).drop_first() =~= all.skip(j + 1));
        let p: usize = find_char(s, a, b, '=');
        if p < b && span_equals(s, a, p, key) {
            assert(t.take(p - a) =~= s@.subrange(a as int, p as int));
            assert(t.skip(p - a + 1) =~= s@.subrange(p + 1, b as int));
            return Some((p + 1, b));
        }
        if p < b {
            assert(t.take(p - a) =~= s@.subrange(a as int, p as int));
        }
        j = j + 1;
    }
    assert(all.skip(j as int) =~= Seq::<Seq<char>>::empty());
    None
}

} // verus!
