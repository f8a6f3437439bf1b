//! Hexadecimal rendering of commit ids.

use vstd::prelude::*;
use crate::git::types::CommitId;
use crate::strings::push_char;

verus! {

/// The `i`-th hexadecimal digit (most significant first) of an id, for
/// `i < 40`.
pub open spec fn nibble(id: CommitId, i: int) -> u64 {
    if i < 16 {
        (id.hi >> ((60 - 4 * i) as u64)) & 0xF
    } else if i < 32 {
        (id.mid >> ((60 - 4 * (i - 16)) as u64)) & 0xF
    } else {
        ((id.lo >> ((28 - 4 * (i - 32)) as u32)) & 0xF) as u64
    }
}

/// The lowercase hexadecimal digit for `n < 16`.
pub open spec fn hex_digit(n: u64) -> char {
    if n < 10 {
        ((n + 48) as u32) as char
    } else {
        ((n + 87) as u32) as char
    }
}

/// The first `n` hexadecimal digits of an id (`n <= 40`).
pub open spec fn oid_hex_prefix(id: CommitId, n: nat) -> Seq<char> {
    Seq::new(n, |i: int| hex_digit(nibble(id, i)))
}

/// The full 40-digit hexadecimal form of an id.
pub open spec fn oid_hex(id: CommitId) -> Seq<char> {
    oid_hex_prefix(id, 40)
}

fn nibble_at(id: CommitId, i: usize) -> (r: u64)
    requires
        i < 40,
    ensures
        r == nibble(id, i as int),
        r < 16,
{
    if i < 16 {
        let a: u64 = id.hi >> ((60 - 4 * i) as u64);
        let r: u64 = a & 0xF;
        assert(r < 16) by (bit_vector)
            requires
                r == a & 0xF,
        ;
        r
    } else if i < 32 {
        let a: u64 = id.mid >> ((60 - 4 * (i - 16)) as u64);
        let r: u64 = a & 0xF;
        assert(r < 16) by (bit_vector)
            requires
                r == a & 0xF,
        ;
        r
    } else {
        let a: u32 = id.lo >> ((28 - 4 * (i - 32)) as u32);
        let b: u32 = a & 0xF;
        assert(b < 16) by (bit_vector)
            requires
                b == a & 0xF,
        ;
        b as u64
    }
}

/// Appends the first `n` hexadecimal digits of `id`.
pub fn push_oid_hex(s: &mut String, id: CommitId, n: usize)
    requires
        n <= 40,
    ensures
        final(s)@ == old(s)@ + oid_hex_prefix(id, n as nat),
{
    let mut i: usize = 0;
    while i < n
        invariant
            i <= n <= 40,
            s@ == old(s)@ + oid_hex_prefix(id, i as nat),
        decreases n - i,
    {
        let d = nibble_at(id, i);
        let c: char = if d < 10 { ((d as u8) + 48u8) as char } else { ((d as u8) + 87u8) as char };
        push_char(s, c);
        assert(s@ =~= old(s)@ + oid_hex_prefix(id, (i + 1) as nat));
        i += 1;
    }
}

/// The first `n` hexadecimal digits of `id` (all 40 when `n >= 40`), as
/// `{:.n}` formats a git object id.
pub fn oid_prefix(id: CommitId, n: usize) -> (r: String)
    ensures
        r@ == oid_hex_prefix(id, if n < 40 { n as nat } else { 40 }),
{
    let mut s = String::new();
    push_oid_hex(&mut s, id, if n < 40 { n } else { 40 });
    s
}

} // verus!
