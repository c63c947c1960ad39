use vstd::prelude::*;
use vstd::string::*;

use crate::coordinates::{all_digits, digits_value, is_digit};

verus! {

/// `pat` occurs in `s` at index `i`.
pub open spec fn occurs_at(s: Seq<char>, pat: Seq<char>, i: int) -> bool {
    0 <= i && i + pat.len() <= s.len() && s.subrange(i, i + pat.len()) == pat
}

/// Where the last piece starts when `str::split` cuts `s` at `pat` from left to
/// right: scanning from `i`, each match found moves the start past itself.
pub open spec fn split_tail_from(s: Seq<char>, pat: Seq<char>, start: int, i: int) -> int
    decreases s.len() + 1 - i,
{
    if pat.len() == 0 || i < 0 || i + pat.len() > s.len() {
        start
    } else if occurs_at(s, pat, i) {
        split_tail_from(s, pat, i + pat.len(), i + pat.len())
    } else {
        split_tail_from(s, pat, start, i + 1)
    }
}

/// The last piece that `str::split` gives for a non-empty pattern.
pub open spec fn after_last(s: Seq<char>, pat: Seq<char>) -> Seq<char> {
    s.skip(split_tail_from(s, pat, 0, 0))
}

/// The first index at or above `i` where `pat` occurs in `s`, or the length of `s`.
pub open spec fn first_occurrence_from(s: Seq<char>, pat: Seq<char>, i: int) -> int
    decreases s.len() + 1 - i,
{
    if i < 0 || i + pat.len() > s.len() {
        s.len() as int
    } else if occurs_at(s, pat, i) {
        i
    } else {
        first_occurrence_from(s, pat, i + 1)
    }
}

/// The text before the first occurrence of `pat`, or all of `s`: the first piece that
/// `str::split` gives.
pub open spec fn before_first(s: Seq<char>, pat: Seq<char>) -> Seq<char> {
    s.take(first_occurrence_from(s, pat, 0))
}

/// `s` without any `c`.
pub open spec fn without_char(s: Seq<char>, c: char) -> Seq<char>
    decreases s.len(),
{
    if s.len() == 0 {
        s
    } else if s.last() == c {
        without_char(s.drop_last(), c)
    } else {
        without_char(s.drop_last(), c).push(s.last())
    }
}

proof fn lemma_split_tail_bounds(s: Seq<char>, pat: Seq<char>, start: int, i: int)
    requires
        0 <= start <= i,
        start <= s.len(),
    ensures
        start <= split_tail_from(s, pat, start, i) <= s.len(),
    decreases s.len() + 1 - i,
{
    if pat.len() == 0 || i < 0 || i + pat.len() > s.len() {
    } else if occurs_at(s, pat, i) {
        lemma_split_tail_bounds(s, pat, i + pat.len(), i + pat.len());
    } else {
        lemma_split_tail_bounds(s, pat, start, i + 1);
    }
}

proof fn lemma_first_occurrence_bounds(s: Seq<char>, pat: Seq<char>, i: int)
    requires
        0 <= i,
    ensures
        i <= first_occurrence_from(s, pat, i) <= s.len() || first_occurrence_from(s, pat, i) == s.len(),
        0 <= first_occurrence_from(s, pat, i) <= s.len(),
    decreases s.len() + 1 - i,
{
    if i + pat.len() <= s.len() && !occurs_at(s, pat, i) {
        lemma_first_occurrence_bounds(s, pat, i + 1);
    }
}

/// Whether `pat` occurs in `s` at `i`.
fn occurs_at_exec(s: &str, n: usize, pat: &str, m: usize, i: usize) -> (b: bool)
    requires
        n == s@.len(),
        m == pat@.len(),
    ensures
        b == occurs_at(s@, pat@, i as int),
{
    if i > n || m > n - i {
        return false;
    }
    let mut j: usize = 0;
    while j < m
        invariant
            j <= m,
            i + m <= n,
            n == s@.len(),
            m == pat@.len(),
            forall|k: int| 0 <= k < j ==> s@[i + k] == pat@[k],
        decreases m - j,
    {
        if s.get_char(i + j) != pat.get_char(j) {
            assert(s@.subrange(i as int, i + m)[j as int] != pat@[j as int]);
            return false;
        }
        j = j + 1;
    }
    assert(s@.subrange(i as int, i + m) =~= pat@);
    true
}

/// The last piece of `s` split by `pat`, as `s.split(pat).last()` gives it.
pub fn split_last(s: &str, pat: &str) -> (r: String)
    requires
        pat@.len() > 0,
    ensures
        r@ == after_last(s@, pat@),
{
    let n = s.unicode_len();
    let m = pat.unicode_len();
    let mut start: usize = 0;
    let mut i: usize = 0;
    while i <= n && m <= n - i
        invariant
            n == s@.len(),
            m == pat@.len(),
            m > 0,
            start <= i,
            start <= n,
            split_tail_from(s@, pat@, 0, 0) == split_tail_from(s@, pat@, start as int, i as int),
        decreases n + 1 - i,
    {
        if occurs_at_exec(s, n, pat, m, i) {
            i = i + m;
            start = i;
        } else {
            i = i + 1;
        }
    }
    proof {
        lemma_split_tail_bounds(s@, pat@, start as int, i as int);
    }
    let r = s.substring_char(start, n);
    assert(r@ =~= s@.skip(start as int));
    String::from_str(r)
}

/// The first piece of `s` split by `pat`.
pub fn split_first(s: &str, pat: &str) -> (r: String)
    ensures
        r@ == before_first(s@, pat@),
{
    let n = s.unicode_len();
    let m = pat.unicode_len();
    let mut i: usize = 0;
    proof {
        lemma_first_occurrence_bounds(s@, pat@, 0);
    }
    while i <= n && m <= n - i
        invariant
            n == s@.len(),
            m == pat@.len(),
            first_occurrence_from(s@, pat@, 0) == first_occurrence_from(s@, pat@, i as int),
        decreases n + 1 - i,
    {
        if occurs_at_exec(s, n, pat, m, i) {
            let r = s.substring_char(0, i);
            assert(r@ =~= s@.take(i as int));
            return String::from_str(r);
        }
        assert(m > 0) by {
            if m == 0 {
                assert(s@.subrange(i as int, i as int) =~= pat@);
            }
        }
        i = i + 1;
    }
    assert(first_occurrence_from(s@, pat@, i as int) == n);
    assert(s@.take(n as int) =~= s@);
    String::from_str(s)
}

/// `s` without any `c`.
pub fn remove_char(s: &str, c: char) -> (r: String)
    ensures
        r@ == without_char(s@, c),
{
    let n = s.unicode_len();
    let mut r = String::new();
    let mut i: usize = 0;
    while i < n
        invariant
            i <= n,
            n == s@.len(),
            r@ == without_char(s@.take(i as int), c),
        decreases n - i,
    {
        let d = s.get_char(i);
        let piece = s.substring_char(i, i + 1);
        assert(s@.take(i + 1).drop_last() =~= s@.take(i as int));
        if d != c {
            r.append(piece);
            assert(piece@ =~= seq![d]);
        }
        i = i + 1;
    }
    assert(s@.take(n as int) =~= s@);
    r
}

/// What `str::parse::<u32>` gives: an optional `+`, then at least one decimal digit,
/// with a value that fits in a `u32`.
pub open spec fn spec_parse_u32(s: Seq<char>) -> Option<u32> {
    let d = if s.len() > 0 && s[0] == '+' {
        s.skip(1)
    } else {
        s
    };
    if d.len() > 0 && all_digits(d) && digits_value(d) <= u32::MAX {
        Some(digits_value(d) as u32)
    } else {
        None
    }
}

proof fn lemma_digits_value_nonneg(s: Seq<char>)
    requires
        all_digits(s),
    ensures
        digits_value(s) >= 0,
    decreases s.len(),
{
    if s.len() > 0 {
        assert(is_digit(s[s.len() - 1]));
        lemma_digits_value_nonneg(s.drop_last());
    }
}

proof fn lemma_digits_value_prefix(s: Seq<char>, k: int)
    requires
        all_digits(s),
        0 <= k <= s.len(),
    ensures
        digits_value(s.take(k)) <= digits_value(s),
    decreases s.len(),
{
    if k < s.len() {
        assert(all_digits(s.drop_last())) by {
            assert forall|i: int| 0 <= i < s.drop_last().len() implies is_digit(
                #[trigger] s.drop_last()[i],
            ) by {
                assert(s.drop_last()[i] == s[i]);
            }
        }
        lemma_digits_value_prefix(s.drop_last(), k);
        assert(s.drop_last().take(k) =~= s.take(k));
        lemma_digits_value_nonneg(s.drop_last());
        assert(is_digit(s[s.len() - 1]));
    } else {
        assert(s.take(k) =~= s);
    }
}

/// Reads a `u32` as `str::parse::<u32>` does.
pub fn parse_u32(s: &str) -> (r: Option<u32>)
    ensures
        r == spec_parse_u32(s@),
{
    let n = s.unicode_len();
    if n == 0 {
        return None;
    }
    let c0 = s.get_char(0);
    let start: usize = if c0 == '+' { 1 } else { 0 };
    let ghost d = s@.skip(start as int);
    assert(s@[0] == c0);
    assert(s@.skip(0) =~= s@);
    if start == n {
        assert(d.len() == 0);
        return None;
    }
    let mut acc: u64 = 0;
    let mut i: usize = start;
    while i < n
        invariant
            start <= i <= n,
            n == s@.len(),
            s@.len() > 0,
            s@[0] == c0,
            start == (if c0 == '+' { 1usize } else { 0usize }),
            d == s@.skip(start as int),
            start == 0 ==> d == s@,
            all_digits(s@.subrange(start as int, i as int)),
            acc == digits_value(s@.subrange(start as int, i as int)),
            acc <= 4294967295,
        decreases n - i,
    {
        let c = s.get_char(i);
        let ghost pre = s@.subrange(start as int, i as int);
        let ghost post = s@.subrange(start as int, i + 1);
        assert(post.drop_last() =~= pre);
        let cu = c as u32;
        assert(d[i - start] == c);
        if !(48 <= cu && cu <= 57) {
            assert(!is_digit(d[i - start]));
            assert(!all_digits(d));
            return None;
        }
        let dig = (cu - 48) as u64;
        let next = acc * 10 + dig;
        assert(all_digits(post)) by {
            assert forall|j: int| 0 <= j < post.len() implies is_digit(#[trigger] post[j]) by {
                if j < pre.len() {
                    assert(post[j] == pre[j]);
                }
            }
        }
        i = i + 1;
        if next > 4294967295 {
            proof {
                assert(post =~= d.take(i - start));
                if all_digits(d) {
                    lemma_digits_value_prefix(d, i - start);
                }
            }
            return None;
        }
        acc = next;
    }
    assert(s@.subrange(start as int, n as int) =~= d);
    Some(acc as u32)
}

/// Removing a character leaves none of it, and keeps the others in order.
pub proof fn lemma_without_char(s: Seq<char>, c: char)
    ensures
        !without_char(s, c).contains(c),
        without_char(s, c).len() <= s.len(),
        !s.contains(c) ==> without_char(s, c) == s,
    decreases s.len(),
{
    if s.len() > 0 {
        lemma_without_char(s.drop_last(), c);
        if !s.contains(c) {
            assert(!s.drop_last().contains(c)) by {
                assert forall|j: int| 0 <= j < s.drop_last().len() implies s.drop_last()[j] != c by {
                    assert(s.drop_last()[j] == s[j]);
                }
            }
            assert(s.drop_last().push(s.last()) =~= s);
        }
        let r = without_char(s.drop_last(), c);
        if s.last() != c {
            assert forall|j: int| 0 <= j < r.push(s.last()).len() implies r.push(s.last())[j] != c by {
                if j < r.len() {
                    assert(r.push(s.last())[j] == r[j]);
                }
            }
        }
    }
}

} // verus!
