//! Unsigned variable-length integers (LEB128): seven bits to a byte, lowest
//! group first, the top bit of a byte saying that another byte follows.

use vstd::prelude::*;

verus! {

/// The unsigned LEB128 number at the front of `s`, with the count of bytes
/// that spell it; `None` where every byte of `s` says that another follows.
pub open spec fn uleb128(s: Seq<u8>) -> Option<(nat, nat)>
    decreases s.len(),
{
    if s.len() == 0 {
        None
    } else if s[0] < 0x80 {
        Some((s[0] as nat, 1nat))
    } else {
        match uleb128(s.skip(1)) {
            Some((v, n)) => Some(((s[0] - 0x80) as nat + 128 * v, n + 1)),
            None => None,
        }
    }
}

/// The shortest unsigned LEB128 spelling of `v`.
pub open spec fn uleb128_bytes(v: nat) -> Seq<u8>
    decreases v,
{
    if v < 0x80 {
        seq![v as u8]
    } else {
        seq![(v % 128 + 0x80) as u8] + uleb128_bytes(v / 128)
    }
}

/// The number at the front of `s` as a reader of 64-bit numbers takes it: with
/// the count of its bytes, where it ends within ten bytes and fits in 64 bits,
/// and not at all where it does not.
pub open spec fn uleb128_u64(s: Seq<u8>) -> Option<(u64, nat)> {
    match uleb128(s) {
        Some((v, n)) => if n <= 10 && v <= u64::MAX {
            Some((v as u64, n))
        } else {
            None
        },
        None => None,
    }
}

/// `leb128::read::unsigned` on a byte slice, handing back the number it read,
/// if it read one, and the part of the slice that it left unread.
///
/// Trusted: the call succeeds exactly when the number at the front of `bytes`
/// ends within ten bytes and fits in 64 bits; it then returns that number and
/// has consumed exactly the bytes that spell it.
#[verifier::external_body]
pub(crate) fn read_unsigned<'a>(bytes: &'a [u8]) -> (r: (Option<u64>, &'a [u8]))
    ensures
        match uleb128_u64(bytes@) {
            Some((v, n)) => r.0 == Some(v) && r.1@ == bytes@.skip(n as int),
            None => r.0 is None,
        },
{
    let mut rest = bytes;
    match leb128::read::unsigned(&mut rest) {
        Ok(v) => (Some(v), rest),
        Err(_) => (None, rest),
    }
}

/// `leb128::write::unsigned` onto a byte vector.
///
/// Trusted: the call appends the shortest spelling of `val` to `out`; writing
/// to a vector cannot fail.
#[verifier::external_body]
pub(crate) fn write_unsigned(out: &mut Vec<u8>, val: u64)
    ensures
        final(out)@ == old(out)@ + uleb128_bytes(val as nat),
{
    let _ = leb128::write::unsigned(out, val);
}

/// A number that `s` spells is spelt by at least one byte and by no more
/// bytes than `s` has.
pub proof fn lemma_uleb128_len(s: Seq<u8>)
    ensures
        uleb128(s) matches Some((_, n)) ==> 1 <= n <= s.len(),
    decreases s.len(),
{
    if s.len() > 0 && s[0] >= 0x80 {
        lemma_uleb128_len(s.skip(1));
    }
}

/// Reading the shortest spelling of `v` gives `v` back and stops where the
/// spelling ends, whatever follows it.
pub proof fn lemma_uleb128_of_bytes(v: nat, tail: Seq<u8>)
    ensures
        uleb128(uleb128_bytes(v) + tail) == Some((v, uleb128_bytes(v).len())),
    decreases v,
{
    let s = uleb128_bytes(v) + tail;
    if v < 0x80 {
        assert(s[0] == v as u8);
    } else {
        lemma_uleb128_of_bytes(v / 128, tail);
        assert(s[0] == (v % 128 + 0x80) as u8);
        assert(s.skip(1) =~= uleb128_bytes(v / 128) + tail);
    }
}

/// The power of 128 below which a number is spelt in at most `k` bytes.
pub open spec fn reach(k: nat) -> nat
    decreases k,
{
    if k == 0 {
        1
    } else {
        128 * reach((k - 1) as nat)
    }
}

/// A number below the `k`-th power of 128 is spelt in at most `k` bytes.
pub proof fn lemma_uleb128_bytes_len(v: nat, k: nat)
    requires
        k >= 1,
        v < reach(k),
    ensures
        1 <= uleb128_bytes(v).len() <= k,
    decreases k,
{
    if v >= 0x80 {
        assert(reach(1) == 128) by {
            reveal_with_fuel(reach, 2);
        }
        assert(k >= 2);
        lemma_uleb128_bytes_len(v / 128, (k - 1) as nat);
    }
}

/// A number of 64 bits is spelt in at most ten bytes, one of 32 bits in at
/// most five.
pub proof fn lemma_uleb128_bytes_len_fixed(v: nat)
    ensures
        v <= u64::MAX ==> uleb128_bytes(v).len() <= 10,
        v <= u32::MAX ==> uleb128_bytes(v).len() <= 5,
{
    assert(reach(5) == 0x8_0000_0000 && reach(10) == 0x40_0000_0000_0000_0000) by {
        reveal_with_fuel(reach, 11);
    }
    if v <= u64::MAX {
        lemma_uleb128_bytes_len(v, 10);
    }
    if v <= u32::MAX {
        lemma_uleb128_bytes_len(v, 5);
    }
}

/// Whether the number at the front of `s` is spelt in its shortest form: by
/// one byte, or with a last byte that is not zero.
pub open spec fn shortest(s: Seq<u8>) -> bool {
    uleb128(s) matches Some((_, n)) && (n == 1 || s[n - 1] != 0)
}

/// A spelling whose last byte is not zero spells a number that is not zero.
pub proof fn lemma_uleb128_positive(s: Seq<u8>)
    requires
        uleb128(s) matches Some((_, n)) && s[n - 1] != 0,
    ensures
        uleb128(s) matches Some((v, _)) && v > 0,
    decreases s.len(),
{
    if s[0] >= 0x80 {
        let t = s.skip(1);
        lemma_uleb128_len(t);
        let n = uleb128(t).unwrap().1;
        assert(t[n - 1] == s[n as int]);
        lemma_uleb128_positive(t);
    }
}

/// A number read from its shortest spelling is written back as the very bytes
/// it was read from.
pub proof fn lemma_uleb128_bytes_of_shortest(s: Seq<u8>)
    requires
        shortest(s),
    ensures
        uleb128(s) matches Some((v, n)) && uleb128_bytes(v) == s.take(n as int),
    decreases s.len(),
{
    lemma_uleb128_len(s);
    let (v, n) = uleb128(s).unwrap();
    if s[0] < 0x80 {
        assert(uleb128_bytes(v) =~= s.take(1));
    } else {
        let t = s.skip(1);
        lemma_uleb128_len(t);
        let (w, m) = uleb128(t).unwrap();
        assert(t[m - 1] == s[n - 1]);
        lemma_uleb128_positive(t);
        lemma_uleb128_bytes_of_shortest(t);
        assert(v / 128 == w && v % 128 == s[0] - 0x80);
        assert(seq![s[0]] + t.take(m as int) =~= s.take(n as int));
    }
}

} // verus!
