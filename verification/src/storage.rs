//! Filesystem naming rules: sanitising a filename received from the peer,
//! the collision-avoiding names tried when saving, and the default
//! download directory.

use vstd::prelude::*;
use crate::text::{ascii_upper, last_index_of, chars_of, decimal, digits_in_base, find_last, slice_chars, is_ascii_digit, lemma_trim_end_by, lemma_trim_start_by, string_of, to_ascii_upper, trim_by};

verus! {

/// Longest filename (in characters) that sanitising keeps.
pub const MAX_FILENAME_CHARS: usize = 200;

pub open spec fn is_path_sep(c: char) -> bool {
    c == '/' || c == '\\'
}

/// What follows the last `/` or `\` of `s` (all of `s` when it has none).
pub open spec fn last_segment(s: Seq<char>) -> Seq<char>
    decreases s.len(),
{
    if s.len() == 0 {
        s
    } else if is_path_sep(s.last()) {
        Seq::empty()
    } else {
        last_segment(s.drop_last()).push(s.last())
    }
}

/// Control characters and the characters Windows forbids in names.
pub open spec fn is_forbidden_char(c: char) -> bool {
    (c as u32) < 0x20 || c == '<' || c == '>' || c == ':' || c == '"' || c == '|' || c == '?'
        || c == '*'
}

pub open spec fn replace_forbidden(c: char) -> char {
    if is_forbidden_char(c) {
        '_'
    } else {
        c
    }
}

pub open spec fn is_dot_or_space(c: char) -> bool {
    c == '.' || c == ' '
}

/// The part of `s` before its first `.` (all of `s` when it has none).
pub open spec fn stem_of(s: Seq<char>) -> Seq<char>
    decreases s.len(),
{
    if s.len() == 0 {
        s
    } else if s[0] == '.' {
        Seq::empty()
    } else {
        seq![s[0]] + stem_of(s.drop_first())
    }
}

pub open spec fn untitled() -> Seq<char> {
    seq!['u', 'n', 't', 'i', 't', 'l', 'e', 'd']
}

/// Windows reserved device names, for an already upper-cased stem:
/// CON, PRN, AUX, NUL, and COM or LPT followed by one or more digits.
pub open spec fn is_reserved_stem(u: Seq<char>) -> bool {
    ||| u == seq!['C', 'O', 'N']
    ||| u == seq!['P', 'R', 'N']
    ||| u == seq!['A', 'U', 'X']
    ||| u == seq!['N', 'U', 'L']
    ||| {
        &&& u.len() > 3
        &&& (u.take(3) == seq!['C', 'O', 'M'] || u.take(3) == seq!['L', 'P', 'T'])
        &&& forall|k: int| 3 <= k < u.len() ==> is_ascii_digit(#[trigger] u[k])
    }
}

/// Last path segment, forbidden characters replaced by `_`, leading and
/// trailing dots and spaces removed; `untitled` when nothing is left.
pub open spec fn sanitized_base(s: Seq<char>) -> Seq<char> {
    let t = trim_by(last_segment(s).map_values(|c: char| replace_forbidden(c)), |c: char| is_dot_or_space(c));
    if t.len() == 0 {
        untitled()
    } else {
        t
    }
}

pub open spec fn name_is_reserved(b: Seq<char>) -> bool {
    is_reserved_stem(stem_of(b).map_values(|c: char| ascii_upper(c)))
}

/// The name `sanitize_filename` produces for `s`.
pub open spec fn spec_sanitize_filename(s: Seq<char>) -> Seq<char> {
    let b = sanitized_base(s);
    let r = if name_is_reserved(b) {
        seq!['_'] + b
    } else {
        b
    };
    if r.len() > MAX_FILENAME_CHARS {
        r.take(MAX_FILENAME_CHARS as int)
    } else {
        r
    }
}

proof fn lemma_last_segment(s: Seq<char>, i: int)
    requires
        0 <= i <= s.len(),
        forall|k: int| i <= k < s.len() ==> !is_path_sep(#[trigger] s[k]),
        i == 0 || is_path_sep(s[i - 1]),
    ensures
        last_segment(s) == s.subrange(i, s.len() as int),
    decreases s.len(),
{
    if s.len() == i {
        assert(s.subrange(i, s.len() as int) =~= Seq::<char>::empty());
    } else {
        let t = s.drop_last();
        assert forall|k: int| i <= k < t.len() implies !is_path_sep(#[trigger] t[k]) by {
            assert(t[k] == s[k]);
        }
        lemma_last_segment(t, i);
        assert(t.subrange(i, t.len() as int).push(s.last()) =~= s.subrange(i, s.len() as int));
    }
}

proof fn lemma_stem_of(s: Seq<char>, d: int)
    requires
        0 <= d <= s.len(),
        forall|k: int| 0 <= k < d ==> #[trigger] s[k] != '.',
        d == s.len() || s[d] == '.',
    ensures
        stem_of(s) == s.take(d),
    decreases s.len(),
{
    if d == 0 {
        assert(s.take(0) =~= Seq::<char>::empty());
    } else {
        let t = s.drop_first();
        assert forall|k: int| 0 <= k < d - 1 implies #[trigger] t[k] != '.' by {
            assert(t[k] == s[k + 1]);
        }
        lemma_stem_of(t, d - 1);
        assert(seq![s[0]] + t.take(d - 1) =~= s.take(d));
    }
}

fn is_forbidden(c: char) -> (r: bool)
    ensures
        r == is_forbidden_char(c),
{
    (c as u32) < 0x20 || c == '<' || c == '>' || c == ':' || c == '"' || c == '|' || c == '?'
        || c == '*'
}

/// Decides whether an upper-cased stem is a Windows device name.
fn reserved_stem(u: &Vec<char>) -> (r: bool)
    ensures
        r == is_reserved_stem(u@),
{
    let n = u.len();
    if n == 3 {
        let a = u[0];
        let b = u[1];
        let c = u[2];
        let r = (a == 'C' && b == 'O' && c == 'N') || (a == 'P' && b == 'R' && c == 'N')
            || (a == 'A' && b == 'U' && c == 'X') || (a == 'N' && b == 'U' && c == 'L');
        proof {
            if r {
                if a == 'C' && b == 'O' && c == 'N' {
                    assert(u@ =~= seq!['C', 'O', 'N']);
                } else if a == 'P' && b == 'R' && c == 'N' {
                    assert(u@ =~= seq!['P', 'R', 'N']);
                } else if a == 'A' && b == 'U' && c == 'X' {
                    assert(u@ =~= seq!['A', 'U', 'X']);
                } else {
                    assert(u@ =~= seq!['N', 'U', 'L']);
                }
            } else {
                assert(u@ != seq!['C', 'O', 'N'] ==> true);
                if u@ == seq!['C', 'O', 'N'] {
                    assert(u@[0] == 'C' && u@[1] == 'O' && u@[2] == 'N');
                }
                if u@ == seq!['P', 'R', 'N'] {
                    assert(u@[0] == 'P' && u@[1] == 'R' && u@[2] == 'N');
                }
                if u@ == seq!['A', 'U', 'X'] {
                    assert(u@[0] == 'A' && u@[1] == 'U' && u@[2] == 'X');
                }
                if u@ == seq!['N', 'U', 'L'] {
                    assert(u@[0] == 'N' && u@[1] == 'U' && u@[2] == 'L');
                }
            }
        }
        return r;
    }
    if n < 3 {
        proof {
            assert(u@ != seq!['C', 'O', 'N']);
            assert(u@ != seq!['P', 'R', 'N']);
            assert(u@ != seq!['A', 'U', 'X']);
            assert(u@ != seq!['N', 'U', 'L']);
        }
        return false;
    }
    // n > 3: COM or LPT followed by digits only.
    proof {
        assert(u@ != seq!['C', 'O', 'N']);
        assert(u@ != seq!['P', 'R', 'N']);
        assert(u@ != seq!['A', 'U', 'X']);
        assert(u@ != seq!['N', 'U', 'L']);
    }
    let com = u[0] == 'C' && u[1] == 'O' && u[2] == 'M';
    let lpt = u[0] == 'L' && u[1] == 'P' && u[2] == 'T';
    proof {
        if com {
            assert(u@.take(3) =~= seq!['C', 'O', 'M']);
        }
        if lpt {
            assert(u@.take(3) =~= seq!['L', 'P', 'T']);
        }
        if u@.take(3) == seq!['C', 'O', 'M'] {
            assert(u@.take(3)[0] == 'C' && u@.take(3)[1] == 'O' && u@.take(3)[2] == 'M');
        }
        if u@.take(3) == seq!['L', 'P', 'T'] {
            assert(u@.take(3)[0] == 'L' && u@.take(3)[1] == 'P' && u@.take(3)[2] == 'T');
        }
    }
    if !(com || lpt) {
        return false;
    }
    let mut k: usize = 3;
    while k < n
        invariant
            3 <= k <= n,
            n == u@.len(),
            forall|j: int| 3 <= j < k ==> is_ascii_digit(#[trigger] u@[j]),
        decreases n - k,
    {
        let c = u[k];
        if !('0' <= c && c <= '9') {
            return false;
        }
        k = k + 1;
    }
    true
}

/// Sanitize a filename received from the peer.
///
/// Keeps only the last path segment (after the last `/` or `\`), replaces
/// control characters and `< > : " | ? *` with `_`, strips leading and
/// trailing dots and spaces, falls back to `untitled` when nothing is
/// left, prefixes Windows device names (CON, PRN, AUX, NUL, COMn, LPTn,
/// judged on the upper-cased part before the first dot) with `_`, and keeps
/// at most 200 characters.
pub fn sanitize_filename(input: &str) -> (out: String)
    ensures
        out@ == spec_sanitize_filename(input@),
{
    let s = chars_of(input);
    let n = s.len();
    // Start of the last path segment.
    let mut i: usize = n;
    while i > 0 && !(s[i - 1] == '/' || s[i - 1] == '\\')
        invariant
            0 <= i <= n,
            n == s@.len(),
            forall|k: int| i <= k < n ==> !is_path_sep(#[trigger] s@[k]),
        decreases i,
    {
        i = i - 1;
    }
    proof {
        lemma_last_segment(s@, i as int);
    }
    let ghost seg = s@.subrange(i as int, n as int);
    let ghost mapped = seg.map_values(|c: char| replace_forbidden(c));
    // Replace forbidden characters.
    let mut m: Vec<char> = Vec::new();
    let mut j: usize = i;
    while j < n
        invariant
            i <= j <= n,
            n == s@.len(),
            seg == s@.subrange(i as int, n as int),
            mapped == seg.map_values(|c: char| replace_forbidden(c)),
            m@ == mapped.take(j - i),
        decreases n - j,
    {
        let c = s[j];
        let d = if is_forbidden(c) { '_' } else { c };
        m.push(d);
        assert(mapped.take(j - i).push(d) =~= mapped.take(j + 1 - i));
        j = j + 1;
    }
    assert(mapped.take(n - i) =~= mapped);
    // Trim dots and spaces at both ends.
    let ml = m.len();
    let mut a: usize = 0;
    while a < ml && (m[a] == '.' || m[a] == ' ')
        invariant
            0 <= a <= ml,
            ml == m@.len(),
            forall|k: int| 0 <= k < a ==> is_dot_or_space(#[trigger] m@[k]),
        decreases ml - a,
    {
        a = a + 1;
    }
    let ghost dot_space = |c: char| is_dot_or_space(c);
    proof {
        lemma_trim_start_by(m@, dot_space, a as int);
    }
    let ghost ts = m@.subrange(a as int, ml as int);
    let mut b: usize = ml;
    while b > a && (m[b - 1] == '.' || m[b - 1] == ' ')
        invariant
            a <= b <= ml,
            ml == m@.len(),
            forall|k: int| b <= k < ml ==> is_dot_or_space(#[trigger] m@[k]),
        decreases b,
    {
        b = b - 1;
    }
    proof {
        assert forall|k: int| b - a <= k < ts.len() implies dot_space(#[trigger] ts[k]) by {
            assert(ts[k] == m@[k + a]);
        }
        if b > a {
            assert(ts[b - a - 1] == m@[b - 1]);
        }
        lemma_trim_end_by(ts, dot_space, b - a);
        assert(ts.take(b - a) =~= m@.subrange(a as int, b as int));
    }
    // Base name: the trimmed text, or `untitled`.
    let mut base: Vec<char> = Vec::new();
    if a == b {
        base.push('u');
        base.push('n');
        base.push('t');
        base.push('i');
        base.push('t');
        base.push('l');
        base.push('e');
        base.push('d');
        assert(base@ =~= untitled());
    } else {
        let mut k: usize = a;
        while k < b
            invariant
                a <= k <= b,
                b <= ml,
                ml == m@.len(),
                base@ == m@.subrange(a as int, k as int),
            decreases b - k,
        {
            base.push(m[k]);
            assert(m@.subrange(a as int, k as int).push(m@[k as int]) =~= m@.subrange(
                a as int,
                k + 1,
            ));
            k = k + 1;
        }
    }
    assert(base@ == sanitized_base(input@));
    // Upper-cased stem.
    let bl = base.len();
    let mut d: usize = 0;
    let mut upper: Vec<char> = Vec::new();
    while d < bl && base[d] != '.'
        invariant
            0 <= d <= bl,
            bl == base@.len(),
            forall|k: int| 0 <= k < d ==> #[trigger] base@[k] != '.',
            upper@ == base@.take(d as int).map_values(|c: char| ascii_upper(c)),
        decreases bl - d,
    {
        let u = to_ascii_upper(base[d]);
        upper.push(u);
        assert(base@.take(d as int).map_values(|c: char| ascii_upper(c)).push(u) =~= base@.take(
            d + 1,
        ).map_values(|c: char| ascii_upper(c)));
        d = d + 1;
    }
    proof {
        lemma_stem_of(base@, d as int);
    }
    let reserved = reserved_stem(&upper);
    // Assemble, prefixing reserved names, and cap the length.
    let mut r: Vec<char> = Vec::new();
    if reserved {
        r.push('_');
    }
    let ghost full = if reserved {
        seq!['_'] + base@
    } else {
        base@
    };
    let mut k: usize = 0;
    while k < bl && r.len() < MAX_FILENAME_CHARS
        invariant
            0 <= k <= bl,
            bl == base@.len(),
            full == (if reserved {
                seq!['_'] + base@
            } else {
                base@
            }),
            r@ == full.take(r@.len() as int),
            r@.len() == k + (if reserved {
                1int
            } else {
                0int
            }),
            r@.len() <= MAX_FILENAME_CHARS,
        decreases bl - k,
    {
        let ghost before = r@;
        r.push(base[k]);
        assert(full[before.len() as int] == base@[k as int]);
        assert(before.push(base@[k as int]) =~= full.take(before.len() + 1int));
        k = k + 1;
    }
    proof {
        if full.len() > MAX_FILENAME_CHARS {
            assert(r@ =~= full.take(MAX_FILENAME_CHARS as int));
        } else {
            assert(r@ =~= full);
        }
    }
    string_of(&r)
}

#[verifier::external_type_specification]
#[verifier::external_body]
pub struct ExPathBuf(std::path::PathBuf);

/// A copy of a path (`PathBuf::clone`): a clone is equal to the path it
/// was made from (as vstd states of `String::clone`).
#[verifier::external_body]
pub(crate) fn copy_path(p: &std::path::PathBuf) -> (r: std::path::PathBuf)
    ensures
        r == *p,
{
    p.clone()
}

/// `base` with the relative component `part` appended (`Path::join`).
/// The separator is the platform's, so nothing is stated of the result.
#[verifier::external_body]
pub(crate) fn path_join(base: &std::path::PathBuf, part: &str) -> std::path::PathBuf {
    base.join(part)
}

/// The path made of the text `s` (`PathBuf::from`). Nothing is stated of
/// the path.
#[verifier::external_body]
pub(crate) fn path_of(s: &str) -> std::path::PathBuf {
    std::path::PathBuf::from(s)
}

/// Default download directory: `Downloads/Wormhole` under the user's home
/// directory, or `.` when the home directory is unknown.
pub fn default_download_dir(home: Option<std::path::PathBuf>) -> std::path::PathBuf {
    match home {
        Some(h) => {
            let d = path_join(&h, "Downloads");
            path_join(&d, "Wormhole")
        },
        None => path_of("."),
    }
}

/// How many numbered alternatives are tried when a name is taken.
pub const MAX_SAVE_ATTEMPTS: u32 = 999;

/// Where a name splits into stem and extension: its last `.`, unless that
/// is the first character (or there is none, giving the length).
pub open spec fn ext_split(s: Seq<char>) -> int {
    let i = last_index_of(s, '.');
    if i > 0 {
        i
    } else {
        s.len() as int
    }
}

/// The name tried at `attempt` when saving a received file: the
/// sanitised name first, then `stem-1.ext`, `stem-2.ext`, ...
pub open spec fn spec_save_name(safe: Seq<char>, attempt: nat) -> Seq<char> {
    if attempt == 0 {
        safe
    } else {
        let k = ext_split(safe);
        safe.take(k) + seq!['-'] + digits_in_base(attempt, 10) + safe.skip(k)
    }
}

/// The name to try at `attempt` for a file the peer called `suggested`.
pub fn save_name_candidate(suggested: &str, attempt: u32) -> (r: String)
    ensures
        r@ == spec_save_name(spec_sanitize_filename(suggested@), attempt as nat),
{
    let safe = sanitize_filename(suggested);
    if attempt == 0 {
        return safe;
    }
    let v = chars_of(safe.as_str());
    let n = v.len();
    assert(v@.subrange(0, n as int) =~= v@);
    let k = match find_last(&v, 0, n, '.') {
        Some(i) => if i > 0 {
            i
        } else {
            n
        },
        None => n,
    };
    let mut out = slice_chars(&v, 0, k);
    out.push('-');
    let num = chars_of(decimal(attempt as u64).as_str());
    let mut j: usize = 0;
    let ghost head = out@;
    while j < num.len()
        invariant
            0 <= j <= num@.len(),
            out@ == head + num@.take(j as int),
        decreases num@.len() - j,
    {
        out.push(num[j]);
        assert(head + num@.take(j + 1) =~= (head + num@.take(j as int)).push(num@[j as int]));
        j = j + 1;
    }
    assert(num@.take(num@.len() as int) =~= num@);
    let tail = slice_chars(&v, k, n);
    let mut j: usize = 0;
    let ghost head2 = out@;
    while j < tail.len()
        invariant
            0 <= j <= tail@.len(),
            out@ == head2 + tail@.take(j as int),
        decreases tail@.len() - j,
    {
        out.push(tail[j]);
        assert(head2 + tail@.take(j + 1) =~= (head2 + tail@.take(j as int)).push(tail@[j as int]));
        j = j + 1;
    }
    assert(tail@.take(tail@.len() as int) =~= tail@);
    assert(v@.take(k as int) =~= v@.subrange(0, k as int));
    assert(v@.skip(k as int) =~= v@.subrange(k as int, n as int));
    string_of(&out)
}

} // verus!
