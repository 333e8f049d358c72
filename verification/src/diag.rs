//! Formatting used when exercising the protocol end to end: verifier
//! fingerprints in hex, human-readable sizes, and run-unique ids.

use vstd::prelude::*;
use crate::text::{decimal, digit_char, digits_in_base, join2, string_of};

verus! {

pub open spec fn hex_pair(b: u8) -> Seq<char> {
    seq![digit_char((b / 16) as nat), digit_char((b % 16) as nat)]
}

/// Lower-case hex of each byte, two digits per byte.
pub open spec fn hex_of(bytes: Seq<u8>) -> Seq<char>
    decreases bytes.len(),
{
    if bytes.len() == 0 {
        Seq::empty()
    } else {
        hex_of(bytes.drop_last()) + hex_pair(bytes.last())
    }
}

fn nibble(d: u8) -> (c: char)
    requires
        d < 16,
    ensures
        c == digit_char(d as nat),
{
    if d < 10 {
        (48u8 + d) as char
    } else {
        (87u8 + d) as char
    }
}

/// Hex encoding of bytes, two lower-case digits per byte.
pub fn encode(bytes: &[u8]) -> (r: String)
    ensures
        r@ == hex_of(bytes@),
        r@.len() == 2 * bytes@.len(),
{
    let mut out: Vec<char> = Vec::new();
    let mut k: usize = 0;
    while k < bytes.len()
        invariant
            0 <= k <= bytes@.len(),
            out@ == hex_of(bytes@.take(k as int)),
            out@.len() == 2 * k,
        decreases bytes@.len() - k,
    {
        let b = bytes[k];
        assert(bytes@.take(k + 1).drop_last() =~= bytes@.take(k as int));
        out.push(nibble(b / 16));
        out.push(nibble(b % 16));
        assert(out@ =~= hex_of(bytes@.take(k as int)) + hex_pair(b));
        k = k + 1;
    }
    assert(bytes@.take(bytes@.len() as int) =~= bytes@);
    string_of(&out)
}

/// A byte count in whole MB, KB or B (rounded down).
pub open spec fn spec_human(n: nat) -> Seq<char> {
    if n >= 1048576 {
        digits_in_base(n / 1048576, 10) + " MB"@
    } else if n >= 1024 {
        digits_in_base(n / 1024, 10) + " KB"@
    } else {
        digits_in_base(n, 10) + " B"@
    }
}

pub fn human(n: usize) -> (r: String)
    ensures
        r@ == spec_human(n as nat),
{
    if n >= 1048576 {
        let d = decimal((n / 1048576) as u64);
        join2(d.as_str(), " MB")
    } else if n >= 1024 {
        let d = decimal((n / 1024) as u64);
        join2(d.as_str(), " KB")
    } else {
        let d = decimal(n as u64);
        join2(d.as_str(), " B")
    }
}

/// A run-unique id: the clock in nanoseconds, in hex.
pub fn uuid_like() -> (r: String)
    ensures
        exists|n: nat| r@ == digits_in_base(n, 16),
{
    crate::session::make_id()
}

} // verus!
