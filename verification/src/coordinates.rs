use vstd::prelude::*;
use vstd::string::*;

verus! {

/// The position of a tile in a map, in tiles.
#[derive(Clone, Copy, Debug, Hash, PartialEq, Eq, Default, Structural)]
pub struct Coordinates {
    pub x: i32,
    pub y: i32,
}

impl Coordinates {
    pub fn new(x: i32, y: i32) -> (r: Self)
        ensures
            r.x == x,
            r.y == y,
    {
        Self { x, y }
    }
}

/// A decimal digit.
pub open spec fn is_digit(c: char) -> bool {
    '0' as u32 <= c as u32 <= '9' as u32
}

/// Every character is a decimal digit.
pub open spec fn all_digits(s: Seq<char>) -> bool {
    forall|i: int| 0 <= i < s.len() ==> is_digit(#[trigger] s[i])
}

/// The value of a string of decimal digits.
pub open spec fn digits_value(s: Seq<char>) -> int
    decreases s.len(),
{
    if s.len() == 0 {
        0
    } else {
        digits_value(s.drop_last()) * 10 + (s.last() as u32 - '0' as u32)
    }
}

/// What `str::parse::<i32>` gives: an optional sign, then at least one decimal digit,
/// with a value that fits in an `i32`.
pub open spec fn spec_parse_i32(s: Seq<char>) -> Option<i32> {
    if s.len() > 0 && s[0] == '-' {
        let d = s.skip(1);
        if d.len() > 0 && all_digits(d) && -digits_value(d) >= i32::MIN {
            Some((-digits_value(d)) as i32)
        } else {
            None
        }
    } else {
        let d = if s.len() > 0 && s[0] == '+' {
            s.skip(1)
        } else {
            s
        };
        if d.len() > 0 && all_digits(d) && digits_value(d) <= i32::MAX {
            Some(digits_value(d) as i32)
        } else {
            None
        }
    }
}

/// The index of the first `c` in `s`, or the length of `s` when there is none.
pub open spec fn first_index_of(s: Seq<char>, c: char) -> int
    decreases s.len(),
{
    if s.len() == 0 {
        0
    } else if s[0] == c {
        0
    } else {
        1 + first_index_of(s.drop_first(), c)
    }
}

/// `x;y`: the text before the first `;` and the text between it and the next `;` (or the
/// end), each an `i32`. Text after a second `;` is ignored.
pub open spec fn spec_parse_coordinates(s: Seq<char>) -> Option<Coordinates> {
    let p = first_index_of(s, ';');
    if p >= s.len() {
        None
    } else {
        let rest = s.skip(p + 1);
        let q = first_index_of(rest, ';');
        match (spec_parse_i32(s.take(p)), spec_parse_i32(rest.take(q))) {
            (Some(x), Some(y)) => Some(Coordinates { x, y }),
            _ => None,
        }
    }
}

proof fn lemma_first_index_of_bounds(s: Seq<char>, c: char)
    ensures
        0 <= first_index_of(s, c) <= s.len(),
        first_index_of(s, c) < s.len() ==> s[first_index_of(s, c)] == c,
        forall|j: int| 0 <= j < first_index_of(s, c) ==> s[j] != c,
    decreases s.len(),
{
    if s.len() > 0 && s[0] != c {
        lemma_first_index_of_bounds(s.drop_first(), c);
        assert forall|j: int| 0 <= j < first_index_of(s, c) implies s[j] != c by {
            if j > 0 {
                assert(s[j] == s.drop_first()[j - 1]);
            }
        }
    }
}

proof fn lemma_first_index_of_step(s: Seq<char>, c: char, i: int)
    requires
        0 <= i < s.len(),
        s[i] != c,
    ensures
        first_index_of(s.skip(i), c) == 1 + first_index_of(s.skip(i + 1), c),
{
    assert(s.skip(i).drop_first() =~= s.skip(i + 1));
}

proof fn lemma_digits_value_nonneg(s: Seq<char>)
    requires
        all_digits(s),
    ensures
        digits_value(s) >= 0,
    decreases s.len(),
{
    if s.len() > 0 {
        assert(is_digit(s[s.len() - 1]));
        lemma_digits_value_nonneg(s.drop_last());
    }
}

/// A prefix of a digit string has a value no larger than the whole.
proof fn lemma_digits_value_prefix(s: Seq<char>, k: int)
    requires
        all_digits(s),
        0 <= k <= s.len(),
    ensures
        digits_value(s.take(k)) <= digits_value(s),
    decreases s.len(),
{
    if k < s.len() {
        assert(all_digits(s.drop_last())) by {
            assert forall|i: int| 0 <= i < s.drop_last().len() implies is_digit(
                #[trigger] s.drop_last()[i],
            ) by {
                assert(s.drop_last()[i] == s[i]);
            }
        }
        lemma_digits_value_prefix(s.drop_last(), k);
        assert(s.drop_last().take(k) =~= s.take(k));
        lemma_digits_value_nonneg(s.drop_last());
        assert(is_digit(s[s.len() - 1]));
    } else {
        assert(s.take(k) =~= s);
    }
}

/// Reads an `i32` as `str::parse::<i32>` does.
pub fn parse_i32(s: &str) -> (r: Option<i32>)
    ensures
        r == spec_parse_i32(s@),
{
    let n = s.unicode_len();
    if n == 0 {
        return None;
    }
    let c0 = s.get_char(0);
    let neg = c0 == '-';
    let start: usize = if c0 == '-' || c0 == '+' { 1 } else { 0 };
    let ghost d = s@.skip(start as int);
    assert(s@[0] == c0);
    assert(s@.skip(0) =~= s@);
    assert(start == 0 ==> d == s@);
    if start == n {
        assert(d.len() == 0);
        return None;
    }
    let mut acc: i64 = 0;
    let mut i: usize = start;
    while i < n
        invariant
            start <= i <= n,
            n == s@.len(),
            d == s@.skip(start as int),
            s@.len() > 0,
            s@[0] == c0,
            neg == (c0 == '-'),
            start == (if c0 == '-' || c0 == '+' { 1usize } else { 0usize }),
            start == 0 ==> d == s@,
            all_digits(s@.subrange(start as int, i as int)),
            acc == digits_value(s@.subrange(start as int, i as int)),
            0 <= acc <= 2147483648,
        decreases n - i,
    {
        let c = s.get_char(i);
        let ghost pre = s@.subrange(start as int, i as int);
        let ghost post = s@.subrange(start as int, i + 1);
        assert(post.drop_last() =~= pre);
        let cu = c as u32;
        assert(d[i - start] == c);
        if !(48 <= cu && cu <= 57) {
            assert(!is_digit(d[i - start]));
            assert(!all_digits(d));
            return None;
        }
        let dig = (cu - 48) as i64;
        acc = acc * 10 + dig;
        assert(all_digits(post)) by {
            assert forall|j: int| 0 <= j < post.len() implies is_digit(#[trigger] post[j]) by {
                if j < pre.len() {
                    assert(post[j] == pre[j]);
                }
            }
        }
        i = i + 1;
        if acc > 2147483648 {
            proof {
                assert(post =~= d.take(i - start));
                if all_digits(d) {
                    lemma_digits_value_prefix(d, i - start);
                    assert(digits_value(d) > 2147483648);
                }
            }
            return None;
        }
    }
    assert(s@.subrange(start as int, n as int) =~= d);
    if neg {
        Some((-acc) as i32)
    } else if acc <= 2147483647 {
        Some(acc as i32)
    } else {
        None
    }
}

impl Coordinates {
    /// Reads coordinates written as `x;y`, as saved maps store them.
    pub fn parse(v: &str) -> (r: Option<Coordinates>)
        ensures
            r == spec_parse_coordinates(v@),
    {
        let n = v.unicode_len();
        proof {
            lemma_first_index_of_bounds(v@, ';');
        }
        let mut p: usize = 0;
        assert(v@.skip(0) =~= v@);
        while p < n && v.get_char(p) != ';'
            invariant
                p <= n,
                n == v@.len(),
                first_index_of(v@, ';') == p + first_index_of(v@.skip(p as int), ';'),
            decreases n - p,
        {
            proof {
                lemma_first_index_of_step(v@, ';', p as int);
            }
            p = p + 1;
        }
        if p == n {
            assert(v@.skip(p as int).len() == 0);
            return None;
        }
        assert(first_index_of(v@.skip(p as int), ';') == 0);
        let first = v.substring_char(0, p);
        let rest = v.substring_char(p + 1, n);
        let m = rest.unicode_len();
        proof {
            lemma_first_index_of_bounds(rest@, ';');
        }
        let mut q: usize = 0;
        assert(rest@.skip(0) =~= rest@);
        while q < m && rest.get_char(q) != ';'
            invariant
                q <= m,
                m == rest@.len(),
                first_index_of(rest@, ';') == q + first_index_of(rest@.skip(q as int), ';'),
            decreases m - q,
        {
            proof {
                lemma_first_index_of_step(rest@, ';', q as int);
            }
            q = q + 1;
        }
        if q < m {
            assert(first_index_of(rest@.skip(q as int), ';') == 0);
        } else {
            assert(rest@.skip(q as int).len() == 0);
        }
        let second = rest.substring_char(0, q);
        assert(first@ =~= v@.take(p as int));
        assert(rest@ =~= v@.skip(p + 1));
        assert(second@ =~= rest@.take(q as int));
        match (parse_i32(first), parse_i32(second)) {
            (Some(x), Some(y)) => Some(Coordinates { x, y }),
            _ => None,
        }
    }
}

/// The decimal digit `d` (0 to 9).
pub open spec fn digit_char(d: int) -> char {
    if d == 0 {
        '0'
    } else if d == 1 {
        '1'
    } else if d == 2 {
        '2'
    } else if d == 3 {
        '3'
    } else if d == 4 {
        '4'
    } else if d == 5 {
        '5'
    } else if d == 6 {
        '6'
    } else if d == 7 {
        '7'
    } else if d == 8 {
        '8'
    } else {
        '9'
    }
}

/// The decimal digits of `n`, without leading zeros.
pub open spec fn nat_text(n: nat) -> Seq<char>
    decreases n,
{
    if n < 10 {
        seq![digit_char(n as int)]
    } else {
        nat_text(n / 10).push(digit_char((n % 10) as int))
    }
}

/// An integer in decimal, with a `-` when it is negative, as `Display` writes it.
pub open spec fn int_text(i: int) -> Seq<char> {
    if i < 0 {
        seq!['-'] + nat_text((-i) as nat)
    } else {
        nat_text(i as nat)
    }
}

/// Coordinates written as `x;y`, as saved maps store them.
pub open spec fn coordinates_text(c: Coordinates) -> Seq<char> {
    int_text(c.x as int) + seq![';'] + int_text(c.y as int)
}

fn digit_str(d: u64) -> (r: &'static str)
    requires
        d < 10,
    ensures
        r@ == seq![digit_char(d as int)],
{
    proof {
        reveal_strlit("0");
        reveal_strlit("1");
        reveal_strlit("2");
        reveal_strlit("3");
        reveal_strlit("4");
        reveal_strlit("5");
        reveal_strlit("6");
        reveal_strlit("7");
        reveal_strlit("8");
        reveal_strlit("9");
    }
    if d == 0 {
        "0"
    } else if d == 1 {
        "1"
    } else if d == 2 {
        "2"
    } else if d == 3 {
        "3"
    } else if d == 4 {
        "4"
    } else if d == 5 {
        "5"
    } else if d == 6 {
        "6"
    } else if d == 7 {
        "7"
    } else if d == 8 {
        "8"
    } else {
        "9"
    }
}

fn append_nat(s: &mut String, n: u64)
    ensures
        final(s)@ == old(s)@ + nat_text(n as nat),
    decreases n,
{
    if n >= 10 {
        append_nat(s, n / 10);
    }
    s.append(digit_str(n % 10));
    assert(old(s)@ + nat_text(n as nat) =~= if n >= 10 {
        old(s)@ + nat_text((n / 10) as nat) + seq![digit_char((n % 10) as int)]
    } else {
        old(s)@ + seq![digit_char((n % 10) as int)]
    });
}

impl Coordinates {
    /// The coordinates written as `x;y` (see `coordinates_text`).
    pub fn to_text(&self) -> (r: String)
        ensures
            r@ == coordinates_text(*self),
    {
        let mut s = String::new();
        append_int(&mut s, self.x);
        s.append(";");
        proof {
            reveal_strlit(";");
        }
        append_int(&mut s, self.y);
        assert(s@ =~= coordinates_text(*self));
        s
    }
}

fn append_int(s: &mut String, i: i32)
    ensures
        final(s)@ == old(s)@ + int_text(i as int),
{
    if i < 0 {
        s.append("-");
        proof {
            reveal_strlit("-");
        }
        let n: u64 = (-(i as i64)) as u64;
        append_nat(s, n);
        assert(final(s)@ =~= old(s)@ + int_text(i as int)) by {
            assert(int_text(i as int) == seq!['-'] + nat_text(n as nat));
        }
    } else {
        append_nat(s, i as u64);
    }
}

proof fn lemma_digit_char(d: int)
    requires
        0 <= d < 10,
    ensures
        digit_char(d) as u32 == '0' as u32 + d,
        is_digit(digit_char(d)),
{
}

proof fn lemma_nat_text_digits(n: nat)
    ensures
        all_digits(nat_text(n)),
        digits_value(nat_text(n)) == n,
        nat_text(n).len() > 0,
        nat_text(n)[0] != '-' && nat_text(n)[0] != '+',
        !nat_text(n).contains(';'),
    decreases n,
{
    lemma_digit_char((n % 10) as int);
    if n < 10 {
        assert(nat_text(n).drop_last() =~= Seq::<char>::empty());
        assert(digits_value(nat_text(n)) == digits_value(Seq::<char>::empty()) * 10 + (
        digit_char(n as int) as u32 - '0' as u32));
    }
    if n >= 10 {
        lemma_nat_text_digits(n / 10);
        let s = nat_text(n / 10);
        let c = digit_char((n % 10) as int);
        assert(nat_text(n).drop_last() =~= s);
        assert(nat_text(n)[0] == s[0]);
        assert forall|i: int| 0 <= i < nat_text(n).len() implies is_digit(#[trigger] nat_text(n)[i]) by {
            if i < s.len() {
                assert(nat_text(n)[i] == s[i]);
            }
        }
        assert((n / 10) * 10 + n % 10 == n) by (nonlinear_arith);
        assert(nat_text(n).last() == c);
        assert(digits_value(nat_text(n)) == digits_value(s) * 10 + (c as u32 - '0' as u32));
        assert forall|i: int| 0 <= i < nat_text(n).len() implies nat_text(n)[i] != ';' by {
            if i < s.len() {
                assert(nat_text(n)[i] == s[i]);
            }
        }
    }
}

/// Reading the text of a number back gives the number.
proof fn lemma_parse_int_text(i: i32)
    ensures
        spec_parse_i32(int_text(i as int)) == Some(i),
        !int_text(i as int).contains(';'),
{
    if i < 0 {
        let n = (-i) as nat;
        lemma_nat_text_digits(n);
        let t = int_text(i as int);
        assert(t.skip(1) =~= nat_text(n));
        assert forall|j: int| 0 <= j < t.len() implies t[j] != ';' by {
            if j > 0 {
                assert(t[j] == nat_text(n)[j - 1]);
            }
        }
    } else {
        lemma_nat_text_digits(i as nat);
    }
}

proof fn lemma_first_index_of_prefix(a: Seq<char>, b: Seq<char>, c: char)
    requires
        !a.contains(c),
    ensures
        first_index_of(a + seq![c] + b, c) == a.len(),
    decreases a.len(),
{
    let s = a + seq![c] + b;
    if a.len() == 0 {
        assert(s[0] == c);
    } else {
        assert(s[0] == a[0]);
        assert(!a.drop_first().contains(c)) by {
            assert forall|j: int| 0 <= j < a.drop_first().len() implies a.drop_first()[j] != c by {
                assert(a.drop_first()[j] == a[j + 1]);
            }
        }
        lemma_first_index_of_prefix(a.drop_first(), b, c);
        assert(s.drop_first() =~= a.drop_first() + seq![c] + b);
    }
}

proof fn lemma_first_index_of_absent(a: Seq<char>, c: char)
    requires
        !a.contains(c),
    ensures
        first_index_of(a, c) == a.len(),
    decreases a.len(),
{
    if a.len() > 0 {
        assert(a[0] != c);
        assert(!a.drop_first().contains(c)) by {
            assert forall|j: int| 0 <= j < a.drop_first().len() implies a.drop_first()[j] != c by {
                assert(a.drop_first()[j] == a[j + 1]);
            }
        }
        lemma_first_index_of_absent(a.drop_first(), c);
    }
}

/// Coordinates written as `x;y` read back as the same coordinates: a saved map
/// keeps the positions of its tiles.
pub proof fn lemma_coordinates_text_round_trip(c: Coordinates)
    ensures
        spec_parse_coordinates(coordinates_text(c)) == Some(c),
{
    let a = int_text(c.x as int);
    let b = int_text(c.y as int);
    let s = coordinates_text(c);
    lemma_parse_int_text(c.x);
    lemma_parse_int_text(c.y);
    lemma_first_index_of_prefix(a, b, ';');
    assert(s =~= a + seq![';'] + b);
    assert(s.take(a.len() as int) =~= a);
    assert(s.skip(a.len() as int + 1) =~= b);
    lemma_first_index_of_absent(b, ';');
    assert(b.take(b.len() as int) =~= b);
}

/// Reads coordinates from their `x;y` text when a saved map is read.
#[derive(Debug, Clone, Copy)]
pub struct CoordinatesVisitor;

impl CoordinatesVisitor {
    /// The coordinates written in `v` (see `spec_parse_coordinates`); none where the
    /// text has no `;` or a part is not an `i32`.
    pub fn visit_str(&self, v: &str) -> (r: Option<Coordinates>)
        ensures
            r == spec_parse_coordinates(v@),
    {
        Coordinates::parse(v)
    }
}

} // verus!
