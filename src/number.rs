//! Decimal integers as the descriptor writes them: an optional sign and one
//! or more digits, within the range of an `i32`.
use vstd::prelude::*;

verus! {

pub open spec fn is_digit(c: char) -> bool {
    '0' <= c && c <= '9'
}

pub open spec fn all_digits(s: Seq<char>) -> bool {
    forall|i: int| 0 <= i < s.len() ==> is_digit(#[trigger] s[i])
}

/// The number that a string of decimal digits spells.
pub open spec fn digits_value(s: Seq<char>) -> int
    decreases s.len(),
{
    if s.len() == 0 {
        0
    } else {
        digits_value(s.drop_last()) * 10 + (s.last() as int - '0' as int)
    }
}

/// The digits of `s`, after a leading `+` or `-` if there is one.
pub open spec fn unsigned_part(s: Seq<char>) -> Seq<char> {
    if s.len() > 0 && (s[0] == '-' || s[0] == '+') {
        s.drop_first()
    } else {
        s
    }
}

/// The integer that `s` spells, if it is one that fits in an `i32`.
pub open spec fn parse_int(s: Seq<char>) -> Option<int> {
    let ds = unsigned_part(s);
    let v = if s.len() > 0 && s[0] == '-' {
        -digits_value(ds)
    } else {
        digits_value(ds)
    };
    if ds.len() > 0 && all_digits(ds) && i32::MIN <= v <= i32::MAX {
        Some(v)
    } else {
        None
    }
}

proof fn lemma_digits_grow(s: Seq<char>, k: int)
    requires
        0 <= k <= s.len(),
        all_digits(s),
    ensures
        0 <= digits_value(s.take(k)) <= digits_value(s),
    decreases s.len() - k,
{
    if k < s.len() {
        lemma_digits_grow(s, k + 1);
        assert(s.take(k + 1).drop_last() =~= s.take(k));
        assert(is_digit(s[k]));
    } else {
        assert(s.take(k) =~= s);
        lemma_digits_nonneg(s);
    }
}

proof fn lemma_digits_nonneg(s: Seq<char>)
    requires
        all_digits(s),
    ensures
        digits_value(s) >= 0,
    decreases s.len(),
{
    if s.len() > 0 {
        assert(is_digit(s.last()));
        lemma_digits_nonneg(s.drop_last());
    }
}

/// Reads the integer that `s[lo..hi]` spells.
pub fn parse_int_span(s: &Vec<char>, lo: usize, hi: usize) -> (r: Option<i32>)
    requires
        lo <= hi <= s@.len(),
    ensures
        match r {
            Some(v) => parse_int(s@.subrange(lo as int, hi as int)) == Some(v as int),
            None => parse_int(s@.subrange(lo as int, hi as int)) is None,
        },
{
    let ghost t = s@.subrange(lo as int, hi as int);
    let negative = lo < hi && s[lo] == '-';
    let start: usize = if lo < hi && (s[lo] == '-' || s[lo] == '+') {
        lo + 1
    } else {
        lo
    };
    let ghost ds = s@.subrange(start as int, hi as int);
    assert(ds =~= unsigned_part(t));
    if start == hi {
        return None;
    }
    let mut mag: u64 = 0;
    let mut i: usize = start;
    assert(ds.take(0) =~= Seq::<char>::empty());
    while i < hi
        invariant
            start <= i <= hi <= s@.len(),
            ds == s@.subrange(start as int, hi as int),
            ds == unsigned_part(t),
            t == s@.subrange(lo as int, hi as int),
            negative == (t.len() > 0 && t[0] == '-'),
            all_digits(ds.take(i - start)),
            mag == digits_value(ds.take(i - start)),
            mag <= 2147483648,
        decreases hi - i,
    {
        let c: char = s[i];
        assert(c == ds[i - start]);
        assert(ds.take(i - start + 1).drop_last() =~= ds.take(i - start));
        if !('0' <= c && c <= '9') {
            assert(!is_digit(ds[i - start]));
            assert(!all_digits(ds));
            assert(parse_int(t) is None);
            return None;
        }
        let d: u64 = (c as u32 - '0' as u32) as u64;
        mag = mag * 10 + d;
        assert(ds.take(i - start + 1).last() == c);
        assert(mag == digits_value(ds.take(i - start + 1)));
        assert(all_digits(ds.take(i - start + 1))) by {
            assert forall|k: int| 0 <= k < i - start + 1 implies is_digit(
                #[trigger] ds.take(i - start + 1)[k],
            ) by {
                if k < i - start {
                    assert(ds.take(i - start + 1)[k] == ds.take(i - start)[k]);
                }
            }
        }
        if mag > 2147483648 {
            proof {
                if all_digits(ds) {
                    lemma_digits_grow(ds, i - start + 1);
                }
                assert(parse_int(t) is None);
            }
            return None;
        }
        i = i + 1;
    }
    assert(ds.take(i - start) =~= ds);
    if negative {
        let v: i64 = -(mag as i64);
        Some(v as i32)
    } else if mag <= 2147483647 {
        Some(mag as i32)
    } else {
        None
    }
}

} // verus!
