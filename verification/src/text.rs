//! Character-level helpers shared by the parsers and formatters.

use vstd::prelude::*;
use vstd::string::StringExecFns;

verus! {

/// Appends one character to a `String` (`String::push`).
#[verifier::external_body]
pub(crate) fn push_char(s: &mut String, c: char)
    ensures
        final(s)@ == old(s)@.push(c),
{
    s.push(c);
}

/// The characters of `s`, in order.
pub fn chars_of(s: &str) -> (r: Vec<char>)
    ensures
        r@ == s@,
{
    let mut r: Vec<char> = Vec::new();
    for c in it: s.chars()
        invariant
            r@ == it.seq().take(it.index() as int),
    {
        r.push(c);
    }
    r
}

/// Builds a `String` holding exactly the characters of `v`.
pub fn string_of(v: &[char]) -> (s: String)
    ensures
        s@ == v@,
{
    let mut s = String::new();
    let mut i: usize = 0;
    while i < v.len()
        invariant
            i <= v.len(),
            s@ == v@.take(i as int),
        decreases v.len() - i,
    {
        push_char(&mut s, v[i]);
        assert(v@.take(i as int).push(v@[i as int]) =~= v@.take(i + 1));
        i = i + 1;
    }
    assert(v@.take(v@.len() as int) =~= v@);
    s
}


/// Drops the leading characters that satisfy `p`.
pub open spec fn trim_start_by(s: Seq<char>, p: spec_fn(char) -> bool) -> Seq<char>
    decreases s.len(),
{
    if s.len() > 0 && p(s[0]) {
        trim_start_by(s.drop_first(), p)
    } else {
        s
    }
}

/// Drops the trailing characters that satisfy `p`.
pub open spec fn trim_end_by(s: Seq<char>, p: spec_fn(char) -> bool) -> Seq<char>
    decreases s.len(),
{
    if s.len() > 0 && p(s.last()) {
        trim_end_by(s.drop_last(), p)
    } else {
        s
    }
}

/// Drops the leading and the trailing characters that satisfy `p`.
pub open spec fn trim_by(s: Seq<char>, p: spec_fn(char) -> bool) -> Seq<char> {
    trim_end_by(trim_start_by(s, p), p)
}

pub proof fn lemma_trim_start_by(s: Seq<char>, p: spec_fn(char) -> bool, i: int)
    requires
        0 <= i <= s.len(),
        forall|k: int| 0 <= k < i ==> p(#[trigger] s[k]),
        i == s.len() || !p(s[i]),
    ensures
        trim_start_by(s, p) == s.subrange(i, s.len() as int),
    decreases s.len(),
{
    if i == 0 {
        assert(s.subrange(0, s.len() as int) =~= s);
    } else {
        let t = s.drop_first();
        assert forall|k: int| 0 <= k < i - 1 implies p(#[trigger] t[k]) by {
            assert(t[k] == s[k + 1]);
        }
        lemma_trim_start_by(t, p, i - 1);
        assert(t.subrange(i - 1, t.len() as int) =~= s.subrange(i, s.len() as int));
    }
}

pub proof fn lemma_trim_end_by(s: Seq<char>, p: spec_fn(char) -> bool, j: int)
    requires
        0 <= j <= s.len(),
        forall|k: int| j <= k < s.len() ==> p(#[trigger] s[k]),
        j == 0 || !p(s[j - 1]),
    ensures
        trim_end_by(s, p) == s.take(j),
    decreases s.len(),
{
    if j == s.len() {
        assert(s.take(j) =~= s);
    } else {
        let t = s.drop_last();
        assert forall|k: int| j <= k < t.len() implies p(#[trigger] t[k]) by {
            assert(t[k] == s[k]);
        }
        lemma_trim_end_by(t, p, j);
        assert(t.take(j) =~= s.take(j));
    }
}

/// ASCII upper-casing of one character (`char::to_ascii_uppercase`).
pub open spec fn ascii_upper(c: char) -> char {
    if 'a' <= c && c <= 'z' {
        ((c as u32) - 32) as char
    } else {
        c
    }
}

/// ASCII lower-casing of one character (`char::to_ascii_lowercase`).
pub open spec fn ascii_lower(c: char) -> char {
    if 'A' <= c && c <= 'Z' {
        ((c as u32) + 32) as char
    } else {
        c
    }
}

pub fn to_ascii_upper(c: char) -> (r: char)
    ensures
        r == ascii_upper(c),
{
    if 'a' <= c && c <= 'z' {
        let u: u8 = (c as u8) - 32;
        u as char
    } else {
        c
    }
}

pub fn to_ascii_lower(c: char) -> (r: char)
    ensures
        r == ascii_lower(c),
{
    if 'A' <= c && c <= 'Z' {
        let u: u8 = (c as u8) + 32;
        u as char
    } else {
        c
    }
}

pub open spec fn is_ascii_digit(c: char) -> bool {
    '0' <= c && c <= '9'
}

/// Unicode `White_Space` characters (what `char::is_whitespace` tests).
pub open spec fn is_unicode_whitespace(c: char) -> bool {
    let u = c as u32;
    ||| 0x09 <= u <= 0x0d
    ||| u == 0x20
    ||| u == 0x85
    ||| u == 0xa0
    ||| u == 0x1680
    ||| 0x2000 <= u <= 0x200a
    ||| u == 0x2028
    ||| u == 0x2029
    ||| u == 0x202f
    ||| u == 0x205f
    ||| u == 0x3000
}

pub fn is_whitespace_char(c: char) -> (r: bool)
    ensures
        r == is_unicode_whitespace(c),
{
    let u = c as u32;
    (0x09 <= u && u <= 0x0d) || u == 0x20 || u == 0x85 || u == 0xa0 || u == 0x1680 || (0x2000
        <= u && u <= 0x200a) || u == 0x2028 || u == 0x2029 || u == 0x202f || u == 0x205f || u
        == 0x3000
}

/// `str::trim`: leading and trailing whitespace removed.
pub open spec fn trim_ws(s: Seq<char>) -> Seq<char> {
    trim_by(s, |c: char| is_unicode_whitespace(c))
}

/// Bounds `[a, b)` of `s` with surrounding whitespace removed.
pub fn trim_ws_bounds(s: &Vec<char>) -> (r: (usize, usize))
    ensures
        r.0 <= r.1 <= s@.len(),
        trim_ws(s@) == s@.subrange(r.0 as int, r.1 as int),
{
    let n = s.len();
    let mut a: usize = 0;
    while a < n && is_whitespace_char(s[a])
        invariant
            0 <= a <= n,
            n == s@.len(),
            forall|k: int| 0 <= k < a ==> is_unicode_whitespace(#[trigger] s@[k]),
        decreases n - a,
    {
        a = a + 1;
    }
    let ghost ws = |c: char| is_unicode_whitespace(c);
    proof {
        lemma_trim_start_by(s@, ws, a as int);
    }
    let ghost ts = s@.subrange(a as int, n as int);
    let mut b: usize = n;
    while b > a && is_whitespace_char(s[b - 1])
        invariant
            a <= b <= n,
            n == s@.len(),
            forall|k: int| b <= k < n ==> is_unicode_whitespace(#[trigger] s@[k]),
        decreases b,
    {
        b = b - 1;
    }
    proof {
        assert forall|k: int| b - a <= k < ts.len() implies ws(#[trigger] ts[k]) by {
            assert(ts[k] == s@[k + a]);
        }
        if b > a {
            assert(ts[b - a - 1] == s@[b - 1]);
        }
        lemma_trim_end_by(ts, ws, b - a);
        assert(ts.take(b - a) =~= s@.subrange(a as int, b as int));
    }
    (a, b)
}

/// The characters `v[a..b]`.
pub fn slice_chars(v: &Vec<char>, a: usize, b: usize) -> (r: Vec<char>)
    requires
        a <= b <= v@.len(),
    ensures
        r@ == v@.subrange(a as int, b as int),
{
    let mut r: Vec<char> = Vec::new();
    let mut k: usize = a;
    while k < b
        invariant
            a <= k <= b,
            b <= v@.len(),
            r@ == v@.subrange(a as int, k as int),
        decreases b - k,
    {
        r.push(v[k]);
        assert(v@.subrange(a as int, k as int).push(v@[k as int]) =~= v@.subrange(
            a as int,
            k + 1,
        ));
        k = k + 1;
    }
    r
}

pub open spec fn seq_starts_with(s: Seq<char>, p: Seq<char>) -> bool {
    p.len() <= s.len() && s.take(p.len() as int) == p
}

/// Whether `s[from..]` starts with the characters of `p`.
pub fn starts_with_at(s: &Vec<char>, from: usize, p: &str) -> (r: bool)
    requires
        from <= s@.len(),
    ensures
        r == seq_starts_with(s@.subrange(from as int, s@.len() as int), p@),
{
    let pc = chars_of(p);
    let ghost t = s@.subrange(from as int, s@.len() as int);
    if pc.len() > s.len() - from {
        return false;
    }
    let mut k: usize = 0;
    while k < pc.len()
        invariant
            0 <= k <= pc@.len(),
            pc@ == p@,
            from <= s@.len(),
            s@.len() == s.len(),
            pc@.len() <= s@.len() - from,
            t == s@.subrange(from as int, s@.len() as int),
            forall|j: int| 0 <= j < k ==> t[j] == pc@[j],
        decreases pc@.len() - k,
    {
        if s[from + k] != pc[k] {
            assert(t.take(pc@.len() as int)[k as int] != pc@[k as int]);
            return false;
        }
        k = k + 1;
    }
    assert(t.take(pc@.len() as int) =~= pc@);
    true
}

/// Whether two strings hold the same characters.
pub fn same_text(a: &str, b: &str) -> (r: bool)
    ensures
        r == (a@ == b@),
{
    let ac = chars_of(a);
    let bc = chars_of(b);
    if ac.len() != bc.len() {
        return false;
    }
    let mut k: usize = 0;
    while k < ac.len()
        invariant
            0 <= k <= ac@.len(),
            ac@.len() == bc@.len(),
            ac@ == a@,
            bc@ == b@,
            forall|j: int| 0 <= j < k ==> ac@[j] == bc@[j],
        decreases ac@.len() - k,
    {
        if ac[k] != bc[k] {
            return false;
        }
        k = k + 1;
    }
    assert(ac@ =~= bc@);
    true
}

/// Index of the last occurrence of `c` in `s`, or -1.
pub open spec fn last_index_of(s: Seq<char>, c: char) -> int
    decreases s.len(),
{
    if s.len() == 0 {
        -1
    } else if s.last() == c {
        s.len() - 1
    } else {
        last_index_of(s.drop_last(), c)
    }
}

pub proof fn lemma_last_index_of_bounds(s: Seq<char>, c: char)
    ensures
        -1 <= last_index_of(s, c) < s.len(),
        last_index_of(s, c) >= 0 ==> s[last_index_of(s, c)] == c,
        forall|k: int| last_index_of(s, c) < k < s.len() ==> #[trigger] s[k] != c,
    decreases s.len(),
{
    if s.len() > 0 && s.last() != c {
        let t = s.drop_last();
        lemma_last_index_of_bounds(t, c);
        assert forall|k: int| last_index_of(s, c) < k < s.len() implies #[trigger] s[k] != c by {
            if k < t.len() {
                assert(s[k] == t[k]);
            }
        }
    }
}

pub proof fn lemma_last_index_of(s: Seq<char>, c: char, i: int)
    requires
        -1 <= i < s.len(),
        i >= 0 ==> s[i] == c,
        forall|k: int| i < k < s.len() ==> #[trigger] s[k] != c,
    ensures
        last_index_of(s, c) == i,
    decreases s.len(),
{
    if s.len() > 0 && i < s.len() - 1 {
        let t = s.drop_last();
        assert forall|k: int| i < k < t.len() implies #[trigger] t[k] != c by {
            assert(t[k] == s[k]);
        }
        lemma_last_index_of(t, c, i);
    }
}

/// Index of the last `c` in `s[from..to]` (relative to `s`), if any.
pub fn find_last(s: &Vec<char>, from: usize, to: usize, c: char) -> (r: Option<usize>)
    requires
        from <= to <= s@.len(),
    ensures
        match r {
            Some(i) => from <= i < to && last_index_of(s@.subrange(from as int, to as int), c)
                == i - from,
            None => last_index_of(s@.subrange(from as int, to as int), c) == -1,
        },
{
    let ghost t = s@.subrange(from as int, to as int);
    let mut i: usize = to;
    while i > from
        invariant
            from <= i <= to,
            to <= s@.len(),
            t == s@.subrange(from as int, to as int),
            forall|k: int| i - from <= k < t.len() ==> #[trigger] t[k] != c,
        decreases i,
    {
        if s[i - 1] == c {
            proof {
                assert(t[i - 1 - from] == c);
                lemma_last_index_of(t, c, i - 1 - from);
            }
            return Some(i - 1);
        }
        assert(t[i - 1 - from] == s@[i - 1]);
        i = i - 1;
    }
    proof {
        lemma_last_index_of(t, c, -1);
    }
    None
}

/// Decimal value of a string of ASCII digits.
pub open spec fn decimal_value(ds: Seq<char>) -> nat
    decreases ds.len(),
{
    if ds.len() == 0 {
        0
    } else {
        10 * decimal_value(ds.drop_last()) + ((ds.last() as u32) - ('0' as u32)) as nat
    }
}

pub open spec fn all_digits(ds: Seq<char>) -> bool {
    forall|k: int| 0 <= k < ds.len() ==> is_ascii_digit(#[trigger] ds[k])
}

/// Rust's `FromStr` for an unsigned integer whose largest value is `max`:
/// an optional `+`, then one or more ASCII digits, with a value up to `max`.
pub open spec fn parse_unsigned(s: Seq<char>, max: nat) -> Option<nat> {
    let ds = if s.len() > 0 && s[0] == '+' {
        s.drop_first()
    } else {
        s
    };
    if ds.len() > 0 && all_digits(ds) && decimal_value(ds) <= max {
        Some(decimal_value(ds))
    } else {
        None
    }
}

proof fn lemma_decimal_monotone(ds: Seq<char>, i: int)
    requires
        0 <= i <= ds.len(),
    ensures
        decimal_value(ds.take(i)) <= decimal_value(ds),
    decreases ds.len(),
{
    if i < ds.len() {
        let t = ds.drop_last();
        lemma_decimal_monotone(t, i);
        assert(t.take(i) =~= ds.take(i));
    } else {
        assert(ds.take(i) =~= ds);
    }
}

/// Parses `s[from..to]` as an unsigned decimal whose largest value is `max`.
pub fn parse_unsigned_at(s: &Vec<char>, from: usize, to: usize, max: u64) -> (r: Option<u64>)
    requires
        from <= to <= s@.len(),
    ensures
        match parse_unsigned(s@.subrange(from as int, to as int), max as nat) {
            Some(v) => r == Some(v as u64),
            None => r is None,
        },
{
    let ghost t = s@.subrange(from as int, to as int);
    let mut a = from;
    if a < to && s[a] == '+' {
        a = a + 1;
    }
    let ghost ds = s@.subrange(a as int, to as int);
    assert(ds =~= (if t.len() > 0 && t[0] == '+' {
        t.drop_first()
    } else {
        t
    }));
    if a == to {
        return None;
    }
    let mut v: u64 = 0;
    let mut k: usize = a;
    while k < to
        invariant
            a <= k <= to,
            to <= s@.len(),
            from <= a,
            t == s@.subrange(from as int, to as int),
            ds == (if t.len() > 0 && t[0] == '+' {
                t.drop_first()
            } else {
                t
            }),
            ds == s@.subrange(a as int, to as int),
            all_digits(ds.take(k - a)),
            v as nat == decimal_value(ds.take(k - a)),
            v <= max,
        decreases to - k,
    {
        let c = s[k];
        if !('0' <= c && c <= '9') {
            assert(ds[k - a] == c);
            assert(!is_ascii_digit(ds[k - a]));
            return None;
        }
        let dgt: u64 = ((c as u32) - ('0' as u32)) as u64;
        assert(ds.take(k + 1 - a).drop_last() =~= ds.take(k - a));
        if dgt > max || v > (max - dgt) / 10 {
            proof {
                assert(decimal_value(ds.take(k + 1 - a)) == 10 * v + dgt);
                assert(10 * v + dgt > max) by (nonlinear_arith)
                    requires
                        dgt > max || v > (max - dgt) / 10,
                        dgt <= 9,
                ;
                lemma_decimal_monotone(ds, k + 1 - a);
            }
            return None;
        }
        proof {
            assert(10 * v + dgt <= max) by (nonlinear_arith)
                requires
                    v <= (max - dgt) / 10,
                    dgt <= max,
            ;
        }
        v = 10 * v + dgt;
        k = k + 1;
    }
    assert(ds.take(to - a) =~= ds);
    Some(v)
}

/// `a` followed by `b`.
pub fn join2(a: &str, b: &str) -> (r: String)
    ensures
        r@ == a@ + b@,
{
    let mut r = a.to_owned();
    r.append(b);
    r
}

/// `a`, `b` and `c`, one after the other.
pub fn join3(a: &str, b: &str, c: &str) -> (r: String)
    ensures
        r@ == a@ + b@ + c@,
{
    let mut r = a.to_owned();
    r.append(b);
    r.append(c);
    r
}

/// Index of the first occurrence of `c` in `s`, or -1.
pub open spec fn first_index_of(s: Seq<char>, c: char) -> int
    decreases s.len(),
{
    if s.len() == 0 {
        -1
    } else if s[0] == c {
        0
    } else {
        let i = first_index_of(s.drop_first(), c);
        if i < 0 {
            -1
        } else {
            i + 1
        }
    }
}

pub proof fn lemma_first_index_of(s: Seq<char>, c: char, i: int)
    requires
        0 <= i <= s.len(),
        i < s.len() ==> s[i] == c,
        forall|k: int| 0 <= k < i ==> #[trigger] s[k] != c,
    ensures
        first_index_of(s, c) == (if i == s.len() {
            -1
        } else {
            i
        }),
    decreases s.len(),
{
    if s.len() > 0 && i > 0 {
        let t = s.drop_first();
        assert forall|k: int| 0 <= k < i - 1 implies #[trigger] t[k] != c by {
            assert(t[k] == s[k + 1]);
        }
        lemma_first_index_of(t, c, i - 1);
    }
}

pub proof fn lemma_first_index_of_found(s: Seq<char>, c: char)
    requires
        first_index_of(s, c) >= 0,
    ensures
        first_index_of(s, c) < s.len(),
        s[first_index_of(s, c)] == c,
        forall|k: int| 0 <= k < first_index_of(s, c) ==> #[trigger] s[k] != c,
    decreases s.len(),
{
    if s.len() > 0 && s[0] != c {
        let t = s.drop_first();
        lemma_first_index_of_found(t, c);
        assert forall|k: int| 0 <= k < first_index_of(s, c) implies #[trigger] s[k] != c by {
            if k > 0 {
                assert(s[k] == t[k - 1]);
            }
        }
    }
}

pub proof fn lemma_first_index_of_none(s: Seq<char>, c: char)
    requires
        first_index_of(s, c) == -1,
    ensures
        forall|k: int| 0 <= k < s.len() ==> #[trigger] s[k] != c,
    decreases s.len(),
{
    if s.len() > 0 {
        let t = s.drop_first();
        if s[0] != c {
            lemma_first_index_of_none(t, c);
            assert forall|k: int| 0 <= k < s.len() implies #[trigger] s[k] != c by {
                if k > 0 {
                    assert(s[k] == t[k - 1]);
                }
            }
        }
    }
}

/// Index of the first `c` in `s[from..to]` (relative to `s`), if any.
pub fn find_first(s: &Vec<char>, from: usize, to: usize, c: char) -> (r: Option<usize>)
    requires
        from <= to <= s@.len(),
    ensures
        match r {
            Some(i) => from <= i < to && first_index_of(s@.subrange(from as int, to as int), c)
                == i - from,
            None => first_index_of(s@.subrange(from as int, to as int), c) == -1,
        },
{
    let ghost t = s@.subrange(from as int, to as int);
    let mut i: usize = from;
    while i < to
        invariant
            from <= i <= to,
            to <= s@.len(),
            t == s@.subrange(from as int, to as int),
            forall|k: int| 0 <= k < i - from ==> #[trigger] t[k] != c,
        decreases to - i,
    {
        if s[i] == c {
            proof {
                lemma_first_index_of(t, c, i - from);
            }
            return Some(i);
        }
        assert(t[i - from] == s@[i as int]);
        i = i + 1;
    }
    proof {
        lemma_first_index_of(t, c, t.len() as int);
    }
    None
}

/// `s` split at every `c` (`str::split` with a character pattern).
pub open spec fn split_char(s: Seq<char>, c: char) -> Seq<Seq<char>>
    decreases s.len(),
{
    let i = first_index_of(s, c);
    if i < 0 || i >= s.len() {
        seq![s]
    } else {
        seq![s.take(i)] + split_char(s.skip(i + 1), c)
    }
}

/// Lexicographic "greater than" on character sequences, comparing code
/// points (which orders UTF-8 strings as `str`'s `Ord` does).
pub open spec fn text_greater(a: Seq<char>, b: Seq<char>) -> bool
    decreases a.len(),
{
    if a.len() == 0 {
        false
    } else if b.len() == 0 {
        true
    } else if a[0] != b[0] {
        (a[0] as u32) > (b[0] as u32)
    } else {
        text_greater(a.drop_first(), b.drop_first())
    }
}

pub fn chars_greater(a: &Vec<char>, b: &Vec<char>) -> (r: bool)
    ensures
        r == text_greater(a@, b@),
{
    let mut k: usize = 0;
    assert(a@.skip(0) =~= a@);
    assert(b@.skip(0) =~= b@);
    while k < a.len() && k < b.len()
        invariant
            0 <= k <= a@.len(),
            k <= b@.len(),
            text_greater(a@, b@) == text_greater(a@.skip(k as int), b@.skip(k as int)),
        decreases a@.len() - k,
    {
        if a[k] != b[k] {
            assert(a@.skip(k as int)[0] == a@[k as int]);
            assert(b@.skip(k as int)[0] == b@[k as int]);
            return (a[k] as u32) > (b[k] as u32);
        }
        assert(a@.skip(k as int).drop_first() =~= a@.skip(k + 1));
        assert(b@.skip(k as int).drop_first() =~= b@.skip(k + 1));
        k = k + 1;
    }
    k < a.len()
}

/// The digit character for `d` in base 16 (lower case), `d < 16`.
pub open spec fn digit_char(d: nat) -> char {
    if d < 10 {
        (('0' as u32) + d) as char
    } else {
        (('a' as u32) + d - 10) as char
    }
}

/// `n` written in `base` (10 or 16) with lower-case digits and no leading
/// zeros; `0` for zero.
pub open spec fn digits_in_base(n: nat, base: nat) -> Seq<char>
    decreases n,
{
    if base < 2 || n < base {
        seq![digit_char(n)]
    } else {
        proof {
            assert(n / base < n) by (nonlinear_arith)
                requires
                    base >= 2,
                    n >= base,
            ;
        }
        digits_in_base(n / base, base).push(digit_char(n % base))
    }
}

fn digit_of(d: u8) -> (c: char)
    requires
        d < 16,
    ensures
        c == digit_char(d as nat),
{
    if d < 10 {
        (48u8 + d) as char
    } else {
        (87u8 + d) as char
    }
}

/// `n` in `base` (10 or 16), lower-case digits.
pub fn u128_in_base(n: u128, base: u128) -> (r: String)
    requires
        base == 10 || base == 16,
    ensures
        r@ == digits_in_base(n as nat, base as nat),
{
    // Collect digits least significant first, then reverse.
    let mut rev: Vec<char> = Vec::new();
    let mut m = n;
    let ghost mut suffix: Seq<char> = Seq::empty();
    while m >= base
        invariant
            base == 10 || base == 16,
            digits_in_base(n as nat, base as nat) == digits_in_base(m as nat, base as nat) + suffix,
            rev@.len() == suffix.len(),
            forall|k: int| 0 <= k < suffix.len() ==> #[trigger] rev@[k] == suffix[suffix.len() - 1 - k],
        decreases m,
    {
        let d = (m % base) as u8;
        let c = digit_of(d);
        rev.push(c);
        proof {
            assert(digits_in_base(m as nat, base as nat) == digits_in_base((m / base) as nat, base as nat).push(c));
            assert(digits_in_base((m / base) as nat, base as nat).push(c) + suffix =~= digits_in_base((m / base) as nat, base as nat) + (seq![c] + suffix));
            suffix = seq![c] + suffix;
        }
        assert forall|k: int| 0 <= k < suffix.len() implies #[trigger] rev@[k] == suffix[suffix.len() - 1 - k] by {
            if k < rev@.len() - 1 {
                assert(suffix[suffix.len() - 1 - k] == suffix.drop_first()[suffix.len() - 2 - k]);
            }
        }
        m = m / base;
    }
    let c = digit_of(m as u8);
    rev.push(c);
    proof {
        assert(digits_in_base(m as nat, base as nat) == seq![c]);
        suffix = seq![c] + suffix;
    }
    assert forall|k: int| 0 <= k < suffix.len() implies #[trigger] rev@[k] == suffix[suffix.len() - 1 - k] by {
        if k < rev@.len() - 1 {
            assert(suffix[suffix.len() - 1 - k] == suffix.drop_first()[suffix.len() - 2 - k]);
        }
    }
    assert(digits_in_base(n as nat, base as nat) =~= suffix);
    let mut out: Vec<char> = Vec::new();
    let mut i: usize = rev.len();
    while i > 0
        invariant
            0 <= i <= rev@.len(),
            rev@.len() == suffix.len(),
            forall|k: int| 0 <= k < suffix.len() ==> #[trigger] rev@[k] == suffix[suffix.len() - 1 - k],
            out@ == suffix.take(suffix.len() - i),
        decreases i,
    {
        i = i - 1;
        out.push(rev[i]);
        assert(suffix.take(suffix.len() - i - 1).push(suffix[suffix.len() - 1 - i]) =~= suffix.take(suffix.len() - i));
    }
    assert(suffix.take(suffix.len() as int) =~= suffix);
    string_of(&out)
}

/// `n` in decimal.
pub fn decimal(n: u64) -> (r: String)
    ensures
        r@ == digits_in_base(n as nat, 10),
{
    u128_in_base(n as u128, 10)
}

/// Whether `v` holds exactly the characters of `lit`.
pub fn chars_equal(v: &Vec<char>, lit: &str) -> (r: bool)
    ensures
        r == (v@ == lit@),
{
    let l = chars_of(lit);
    if l.len() != v.len() {
        return false;
    }
    let mut k: usize = 0;
    while k < l.len()
        invariant
            0 <= k <= l@.len(),
            l@.len() == v@.len(),
            l@ == lit@,
            forall|j: int| 0 <= j < k ==> v@[j] == l@[j],
        decreases l@.len() - k,
    {
        if v[k] != l[k] {
            return false;
        }
        k = k + 1;
    }
    assert(v@ =~= l@);
    true
}

} // verus!
