use vstd::prelude::*;

verus! {

/// A sysfs line with one trailing `'\n'` removed, and then one trailing `'\r'`.
pub open spec fn strip_last(s: Seq<char>, c: char) -> Seq<char> {
    if s.len() > 0 && s.last() == c {
        s.drop_last()
    } else {
        s
    }
}

/// The text of a sysfs attribute file without its line ending.
pub open spec fn trimmed(s: Seq<char>) -> Seq<char> {
    strip_last(strip_last(s, '\n'), '\r')
}

pub open spec fn is_digit(c: char) -> bool {
    '0' <= c && c <= '9'
}

pub open spec fn all_digits(d: Seq<char>) -> bool {
    forall|i: int| 0 <= i < d.len() ==> #[trigger] is_digit(d[i])
}

/// The number that a sequence of decimal digits writes, most significant first.
pub open spec fn digits_value(d: Seq<char>) -> int
    decreases d.len(),
{
    if d.len() == 0 {
        0
    } else {
        10 * digits_value(d.drop_last()) + (d.last() as int - '0' as int)
    }
}

/// Whether `s` starts with a sign character, and the text after it.
pub open spec fn has_sign(s: Seq<char>) -> bool {
    s.len() > 0 && (s[0] == '-' || s[0] == '+')
}

pub open spec fn unsigned_part(s: Seq<char>) -> Seq<char> {
    if has_sign(s) {
        s.drop_first()
    } else {
        s
    }
}

/// The value of `s` read as a decimal integer: an optional `+` or `-`, then one
/// or more ASCII digits, and nothing else; `None` where `s` has another shape or
/// the value does not fit in an `i64`.
pub open spec fn int_of(s: Seq<char>) -> Option<int> {
    let d = unsigned_part(s);
    let v = if has_sign(s) && s[0] == '-' {
        -digits_value(d)
    } else {
        digits_value(d)
    };
    if d.len() > 0 && all_digits(d) && i64::MIN <= v <= i64::MAX {
        Some(v)
    } else {
        None
    }
}

proof fn lemma_digits_nonneg(d: Seq<char>)
    requires
        all_digits(d),
    ensures
        digits_value(d) >= 0,
    decreases d.len(),
{
    if d.len() > 0 {
        assert(is_digit(d[d.len() - 1]));
        lemma_digits_nonneg(d.drop_last());
    }
}

/// A prefix of a digit sequence never writes a larger number than the whole.
proof fn lemma_prefix_le(d: Seq<char>, k: int)
    requires
        all_digits(d),
        0 <= k <= d.len(),
    ensures
        digits_value(d.take(k)) <= digits_value(d),
    decreases d.len() - k,
{
    if k == d.len() {
        assert(d.take(k) =~= d);
    } else {
        lemma_prefix_le(d, k + 1);
        assert(d.take(k + 1).drop_last() =~= d.take(k));
        assert(is_digit(d[k]));
        lemma_digits_nonneg(d.take(k));
    }
}

/// Removes one trailing `'\n'`, then one trailing `'\r'`.
pub fn trim_line(s: &str) -> (r: String)
    ensures
        r@ == trimmed(s@),
{
    let n = s.unicode_len();
    let mut k = n;
    if k > 0 && s.get_char(k - 1) == '\n' {
        k = k - 1;
    }
    proof {
        assert(s@.take(k as int) =~= strip_last(s@, '\n'));
    }
    if k > 0 && s.get_char(k - 1) == '\r' {
        k = k - 1;
    }
    let r = s.substring_char(0, k).to_owned();
    assert(r@ =~= trimmed(s@));
    r
}

/// Reads `s` as a decimal integer, as `int_of` describes.
pub fn parse_int(s: &str) -> (r: Option<i64>)
    ensures
        match int_of(s@) {
            Some(w) => r == Some(w as i64),
            None => r is None,
        },
{
    let n = s.unicode_len();
    let mut start: usize = 0;
    let mut negative = false;
    if n > 0 {
        let c = s.get_char(0);
        if c == '-' {
            negative = true;
            start = 1;
        } else if c == '+' {
            start = 1;
        }
    }
    let ghost d = unsigned_part(s@);
    assert(d =~= s@.subrange(start as int, n as int));
    if start == n {
        return None;
    }
    let limit: u128 = 0x8000_0000_0000_0000;
    let mut acc: u128 = 0;
    let mut i = start;
    while i < n
        invariant
            start <= i <= n,
            n == s@.len(),
            d == s@.subrange(start as int, n as int),
            d == unsigned_part(s@),
            negative == (has_sign(s@) && s@[0] == '-'),
            acc == digits_value(d.take(i - start)),
            limit == 0x8000_0000_0000_0000u128,
            acc <= limit,
            all_digits(d.take(i - start)),
        decreases n - i,
    {
        let c = s.get_char(i);
        if c < '0' || c > '9' {
            assert(!is_digit(d[i - start]));
            return None;
        }
        let ghost k = i - start;
        assert(d.take(k + 1).drop_last() =~= d.take(k));
        assert(all_digits(d.take(k + 1))) by {
            assert forall|j: int| 0 <= j < k + 1 implies #[trigger] is_digit(d.take(k + 1)[j]) by {
                if j < k {
                    assert(d.take(k + 1)[j] == d.take(k)[j]);
                }
            }
        }
        acc = acc * 10 + (c as u128 - '0' as u128);
        i = i + 1;
        if acc > limit {
            proof {
                if all_digits(d) {
                    lemma_prefix_le(d, k + 1);
                }
            }
            return None;
        }
    }
    assert(d.take(n - start) =~= d);
    if negative {
        if acc == limit {
            Some(i64::MIN)
        } else {
            Some(-(acc as i64))
        }
    } else if acc == limit {
        None
    } else {
        Some(acc as i64)
    }
}

} // verus!
