//! Character-level helpers over string views: splitting on a separator,
//! locating a multi-character pattern, and reading decimal integers.
use vstd::prelude::*;

verus! {

/// The pieces of `s` between occurrences of `sep`, in order; an empty `s`
/// gives one empty piece, and a trailing separator gives a trailing empty piece.
pub open spec fn split_char(s: Seq<char>, sep: char) -> Seq<Seq<char>>
    decreases s.len(),
{
    if s.len() == 0 {
        seq![Seq::<char>::empty()]
    } else {
        let rest = split_char(s.drop_last(), sep);
        if s.last() == sep {
            rest.push(Seq::<char>::empty())
        } else {
            rest.update(rest.len() - 1, rest.last().push(s.last()))
        }
    }
}

pub proof fn lemma_split_char_nonempty(s: Seq<char>, sep: char)
    ensures
        split_char(s, sep).len() >= 1,
    decreases s.len(),
{
    if s.len() > 0 {
        lemma_split_char_nonempty(s.drop_last(), sep);
    }
}

/// Whether `p` occurs in `s` starting at index `i`.
pub open spec fn occurs_at(s: Seq<char>, p: Seq<char>, i: int) -> bool {
    0 <= i && i + p.len() <= s.len() && s.subrange(i, i + p.len()) == p
}

/// The pieces that `s` splits into around its leftmost occurrence of `p`:
/// what comes before it and, when `p` occurs, what comes after it.
pub open spec fn split_first(s: Seq<char>, p: Seq<char>) -> (Seq<char>, Option<Seq<char>>) {
    if exists|i: int| occurs_at(s, p, i) {
        let k = choose|i: int| occurs_at(s, p, i) && forall|j: int| 0 <= j < i ==> !occurs_at(s, p, j);
        (s.subrange(0, k), Some(s.subrange(k + p.len(), s.len() as int)))
    } else {
        (s, None)
    }
}

/// The second piece of `s` split on the non-empty pattern `p`: the text
/// between its first and second occurrences (or the end), if `p` occurs.
pub open spec fn second_piece(s: Seq<char>, p: Seq<char>) -> Option<Seq<char>> {
    match split_first(s, p).1 {
        Some(rest) => Some(split_first(rest, p).0),
        None => None,
    }
}

pub open spec fn is_digit(c: char) -> bool {
    '0' <= c && c <= '9'
}

pub open spec fn digit_value(c: char) -> int {
    (c as int) - ('0' as int)
}

/// The value of a run of decimal digits.
pub open spec fn digits_value(d: Seq<char>) -> int
    decreases d.len(),
{
    if d.len() == 0 {
        0
    } else {
        10 * digits_value(d.drop_last()) + digit_value(d.last())
    }
}

pub open spec fn all_digits(d: Seq<char>) -> bool {
    forall|i: int| 0 <= i < d.len() ==> is_digit(#[trigger] d[i])
}

/// A signed decimal integer as `str::parse::<i32>` reads it: an optional
/// `+` or `-`, then at least one digit and nothing else, within `i32`'s range.
pub open spec fn parse_i32(s: Seq<char>) -> Option<i32> {
    let neg = s.len() > 0 && s[0] == '-';
    let signed = s.len() > 0 && (s[0] == '-' || s[0] == '+');
    let d = if signed { s.drop_first() } else { s };
    let v = if neg { -digits_value(d) } else { digits_value(d) };
    if d.len() > 0 && all_digits(d) && i32::MIN <= v <= i32::MAX {
        Some(v as i32)
    } else {
        None
    }
}

proof fn lemma_digits_value_nonneg(d: Seq<char>)
    requires
        all_digits(d),
    ensures
        digits_value(d) >= 0,
    decreases d.len(),
{
    if d.len() > 0 {
        assert(is_digit(d[d.len() - 1]));
        lemma_digits_value_nonneg(d.drop_last());
    }
}

proof fn lemma_digits_value_grows(d: Seq<char>, n: int)
    requires
        all_digits(d),
        0 <= n <= d.len(),
    ensures
        digits_value(d.subrange(0, n)) <= digits_value(d),
    decreases d.len(),
{
    if n < d.len() {
        let e = d.drop_last();
        assert(all_digits(e));
        lemma_digits_value_grows(e, n);
        assert(e.subrange(0, n) == d.subrange(0, n));
        lemma_digits_value_nonneg(e);
        assert(is_digit(d[d.len() - 1]));
    } else {
        assert(d.subrange(0, n) == d);
    }
}

/// The characters of `s`, one per element.
pub fn chars_of(s: &str) -> (r: Vec<char>)
    ensures
        r@ == s@,
{
    let mut r: Vec<char> = Vec::new();
    for c in it: s.chars()
        invariant
            r@ == it.seq().take(it.index() as int),
            it.seq() == s@,
    {
        r.push(c);
        assert(r@ == it.seq().take(it.index() as int + 1));
    }
    assert(r@ == s@);
    r
}

/// Whether two character sequences are equal.
pub fn chars_eq(a: &Vec<char>, b: &Vec<char>) -> (r: bool)
    ensures
        r == (a@ == b@),
{
    if a.len() != b.len() {
        return false;
    }
    let mut i: usize = 0;
    while i < a.len()
        invariant
            a@.len() == b@.len(),
            i <= a@.len(),
            a@.take(i as int) == b@.take(i as int),
        decreases a.len() - i,
    {
        if a[i] != b[i] {
            assert(a@[i as int] != b@[i as int]);
            return false;
        }
        assert(a@.take(i + 1) == a@.take(i as int).push(a@[i as int]));
        assert(b@.take(i + 1) == b@.take(i as int).push(b@[i as int]));
        i = i + 1;
    }
    assert(a@ == a@.take(i as int));
    assert(b@ == b@.take(i as int));
    true
}

/// The characters of `c` from index `a` up to `b`.
pub fn copy_range(c: &Vec<char>, a: usize, b: usize) -> (r: Vec<char>)
    requires
        a <= b <= c@.len(),
    ensures
        r@ == c@.subrange(a as int, b as int),
{
    let mut r: Vec<char> = Vec::new();
    let mut i: usize = a;
    while i < b
        invariant
            a <= i <= b <= c@.len(),
            r@ == c@.subrange(a as int, i as int),
        decreases b - i,
    {
        r.push(c[i]);
        assert(c@.subrange(a as int, i + 1) == c@.subrange(a as int, i as int).push(c@[i as int]));
        i = i + 1;
    }
    r
}

/// Each of `r` bounds, within `c`, the piece of `pieces` at its own index.
pub open spec fn ranges_cover(c: Seq<char>, r: Seq<(usize, usize)>, pieces: Seq<Seq<char>>) -> bool {
    &&& r.len() <= pieces.len()
    &&& forall|k: int|
        0 <= k < r.len() ==> {
            &&& (#[trigger] r[k]).0 <= r[k].1 <= c.len()
            &&& c.subrange(r[k].0 as int, r[k].1 as int) == pieces[k]
        }
}

/// The bounds, as character indices into `c`, of each piece of `c` split on `sep`.
pub fn split_ranges(c: &Vec<char>, sep: char) -> (r: Vec<(usize, usize)>)
    ensures
        r@.len() == split_char(c@, sep).len(),
        ranges_cover(c@, r@, split_char(c@, sep)),
{
    let mut r: Vec<(usize, usize)> = Vec::new();
    let mut st: usize = 0;
    let mut i: usize = 0;
    proof {
        assert(c@.take(0) == Seq::<char>::empty());
    }
    while i < c.len()
        invariant
            st <= i <= c@.len(),
            r@.len() + 1 == split_char(c@.take(i as int), sep).len(),
            c@.subrange(st as int, i as int) == split_char(c@.take(i as int), sep).last(),
            ranges_cover(c@, r@, split_char(c@.take(i as int), sep)),
        decreases c.len() - i,
    {
        let ghost prev = split_char(c@.take(i as int), sep);
        let ghost t = c@.take(i + 1);
        assert(t.drop_last() == c@.take(i as int));
        assert(t.last() == c@[i as int]);
        let ghost old_r = r@;
        if c[i] == sep {
            r.push((st, i));
            st = i + 1;
            assert(split_char(t, sep) == prev.push(Seq::<char>::empty()));
            assert forall|k: int| 0 <= k < r@.len() implies {
                &&& (#[trigger] r@[k]).0 <= r@[k].1 <= c@.len()
                &&& c@.subrange(r@[k].0 as int, r@[k].1 as int) == split_char(t, sep)[k]
            } by {
                assert(split_char(t, sep)[k] == prev[k]);
                if k < old_r.len() {
                    assert(r@[k] == old_r[k]);
                }
            }
        } else {
            assert(split_char(t, sep) == prev.update(prev.len() - 1, prev.last().push(c@[i as int])));
            assert(c@.subrange(st as int, i + 1) == c@.subrange(st as int, i as int).push(c@[i as int]));
            assert forall|k: int| 0 <= k < r@.len() implies {
                &&& (#[trigger] r@[k]).0 <= r@[k].1 <= c@.len()
                &&& c@.subrange(r@[k].0 as int, r@[k].1 as int) == split_char(t, sep)[k]
            } by {
                assert(split_char(t, sep)[k] == prev[k]);
            }
        }
        i = i + 1;
        assert(t == c@.take(i as int));
    }
    assert(c@.take(i as int) == c@);
    let ghost old_r = r@;
    let ghost pieces = split_char(c@, sep);
    r.push((st, i));
    assert forall|k: int| 0 <= k < r@.len() implies {
        &&& (#[trigger] r@[k]).0 <= r@[k].1 <= c@.len()
        &&& c@.subrange(r@[k].0 as int, r@[k].1 as int) == pieces[k]
    } by {
        if k < old_r.len() {
            assert(r@[k] == old_r[k]);
        }
    }
    r
}

/// The index of the leftmost occurrence of `p` in `s`, if any.
pub fn find_first(s: &Vec<char>, p: &Vec<char>) -> (r: Option<usize>)
    requires
        p@.len() > 0,
    ensures
        match r {
            Some(k) => occurs_at(s@, p@, k as int) && forall|j: int|
                0 <= j < k ==> !occurs_at(s@, p@, j),
            None => forall|j: int| !occurs_at(s@, p@, j),
        },
{
    if p.len() > s.len() {
        return None;
    }
    let n = s.len();
    let last = n - p.len();
    let mut i: usize = 0;
    while i <= last
        invariant
            n == s@.len(),
            p@.len() > 0,
            last + p@.len() == s@.len(),
            forall|j: int| 0 <= j < i ==> !occurs_at(s@, p@, j),
        decreases last + 1 - i,
    {
        let mut m: usize = 0;
        let mut same = true;
        while m < p.len()
            invariant
                i <= last,
                n == s@.len(),
                last + p@.len() == s@.len(),
                m <= p@.len(),
                same ==> s@.subrange(i as int, i + m) == p@.take(m as int),
                !same ==> !occurs_at(s@, p@, i as int),
            decreases p.len() - m,
        {
            if same {
                assert(i + m < s@.len());
                if s[i + m] != p[m] {
                    same = false;
                    assert(s@.subrange(i as int, i + p@.len())[m as int] != p@[m as int]);
                } else {
                    assert(s@.subrange(i as int, i + m + 1) == s@.subrange(i as int, i + m).push(s@[i + m]));
                    assert(p@.take(m + 1) == p@.take(m as int).push(p@[m as int]));
                }
            }
            m = m + 1;
        }
        if same {
            assert(p@.take(m as int) == p@);
            return Some(i);
        }
        i = i + 1;
    }
    proof {
        assert forall|j: int| !occurs_at(s@, p@, j) by {
            if j > last {
                assert(!(j + p@.len() <= s@.len()));
            }
        }
    }
    None
}

pub proof fn lemma_split_first_at(s: Seq<char>, p: Seq<char>, k: int)
    requires
        occurs_at(s, p, k),
        forall|j: int| 0 <= j < k ==> !occurs_at(s, p, j),
    ensures
        split_first(s, p) == (s.subrange(0, k), Some(s.subrange(k + p.len(), s.len() as int))),
{
    let c = choose|i: int| occurs_at(s, p, i) && forall|j: int| 0 <= j < i ==> !occurs_at(s, p, j);
    assert(occurs_at(s, p, c) && forall|j: int| 0 <= j < c ==> !occurs_at(s, p, j));
    if c < k {
        assert(!occurs_at(s, p, c));
    }
    if k < c {
        assert(!occurs_at(s, p, k));
    }
}

/// What lies before the leftmost occurrence of `p` in `s` and, when `p`
/// occurs, what lies after it.
pub fn split_first_exec(s: &Vec<char>, p: &Vec<char>) -> (r: (Vec<char>, Option<Vec<char>>))
    requires
        p@.len() > 0,
    ensures
        r.0@ == split_first(s@, p@).0,
        r.1 is Some == split_first(s@, p@).1 is Some,
        r.1 is Some ==> r.1->0@ == split_first(s@, p@).1->0,
{
    match find_first(s, p) {
        Some(k) => {
            proof {
                lemma_split_first_at(s@, p@, k as int);
            }
            assert(k + p@.len() <= s@.len());
            let n = s.len();
            (copy_range(s, 0, k), Some(copy_range(s, k + p.len(), n)))
        },
        None => {
            let t = copy_range(s, 0, s.len());
            assert(t@ == s@);
            (t, None)
        },
    }
}

/// The second piece of `s` split on `p`, if `p` occurs in `s`.
pub fn second_piece_exec(s: &Vec<char>, p: &Vec<char>) -> (r: Option<Vec<char>>)
    requires
        p@.len() > 0,
    ensures
        r is Some == second_piece(s@, p@) is Some,
        r is Some ==> r->0@ == second_piece(s@, p@)->0,
{
    let (_, rest) = split_first_exec(s, p);
    match rest {
        Some(t) => {
            let (u, _) = split_first_exec(&t, p);
            Some(u)
        },
        None => None,
    }
}

/// Reads `d` as `str::parse::<i32>` does.
#[verifier::rlimit(40)]
pub fn parse_i32_exec(d: &Vec<char>) -> (r: Option<i32>)
    ensures
        r == parse_i32(d@),
{
    let n = d.len();
    if n == 0 {
        return None;
    }
    let neg = d[0] == '-';
    let start: usize = if d[0] == '-' || d[0] == '+' { 1 } else { 0 };
    let ghost digits = d@.subrange(start as int, n as int);
    proof {
        if start == 1 {
            assert(digits == d@.drop_first());
        } else {
            assert(digits == d@);
        }
    }
    let ghost signed = d@[0] == '-' || d@[0] == '+';
    assert(signed == (start == 1));
    assert(digits == (if signed { d@.drop_first() } else { d@ }));
    if start == n {
        return None;
    }
    let mut acc: i64 = 0;
    let mut i: usize = start;
    while i < n
        invariant
            start <= i <= n == d@.len(),
            0 < n,
            digits == d@.subrange(start as int, n as int),
            digits == (if d@[0] == '-' || d@[0] == '+' { d@.drop_first() } else { d@ }),
            digits.len() > 0,
            neg == (d@[0] == '-'),
            all_digits(d@.subrange(start as int, i as int)),
            acc == digits_value(d@.subrange(start as int, i as int)),
            0 <= acc <= 2147483648,
        decreases n - i,
    {
        let c = d[i];
        let ghost pre = d@.subrange(start as int, i as int);
        let ghost nxt = d@.subrange(start as int, i + 1);
        assert(nxt.drop_last() == pre);
        assert(nxt.last() == c);
        if !('0' <= c && c <= '9') {
            proof {
                assert(digits[i - start] == c);
                assert(!is_digit(digits[i - start]));
                assert(!all_digits(digits));
            }
            return None;
        }
        let v: i64 = (c as u32 - '0' as u32) as i64;
        acc = acc * 10 + v;
        proof {
            assert(all_digits(nxt)) by {
                assert forall|j: int| 0 <= j < nxt.len() implies is_digit(#[trigger] nxt[j]) by {
                    if j < pre.len() {
                        assert(nxt[j] == pre[j]);
                    }
                }
            }
        }
        if acc > 2147483648 {
            proof {
                let m = (i + 1 - start) as int;
                assert(digits.subrange(0, m) == nxt);
                if all_digits(digits) {
                    lemma_digits_value_grows(digits, m);
                    assert(digits_value(digits) > 2147483648);
                }
            }
            return None;
        }
        i = i + 1;
    }
    assert(d@.subrange(start as int, i as int) == digits);
    if neg {
        if acc > 2147483648 {
            return None;
        }
        Some((-acc) as i32)
    } else {
        if acc > 2147483647 {
            return None;
        }
        Some(acc as i32)
    }
}

} // verus!
