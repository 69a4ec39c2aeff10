//! The mathematical model of a cursor, and what it means for a decoding step
//! to stay within one.

use crate::error::{ErrorKindView, ErrorView};
use vstd::prelude::*;

verus! {

/// The mathematical model of a [`Parser`]: the bytes still to be read, and the
/// offset of the first of them in the whole input.
pub struct Cursor {
    pub bytes: Seq<u8>,
    pub pos: nat,
}

impl Cursor {
    /// The cursor after `n` more bytes have been consumed.
    pub open spec fn skip(self, n: nat) -> Cursor {
        Cursor { bytes: self.bytes.skip(n as int), pos: self.pos + n }
    }

    /// The same cursor moved forward to offset `at` of the whole input.
    pub open spec fn at(self, at: nat) -> Cursor {
        self.skip((at - self.pos) as nat)
    }

    /// The failure of the given kind at this cursor's position.
    pub open spec fn fail(self, kind: ErrorKindView) -> ErrorView {
        ErrorView { at: self.pos, kind }
    }
}

/// What the wire grammar says of decoding a value at a cursor: the value with
/// the cursor past it, or the failure.
pub type Decoded<V> = Result<(V, Cursor), ErrorView>;

/// Whether `d`, decoded at `c`, has stayed within the range of `c`: a success
/// leaves a cursor that `c` reaches by consuming some of its bytes, a failure
/// is reported at an offset between the two ends of `c`.
pub open spec fn within<V>(c: Cursor, d: Decoded<V>) -> bool {
    match d {
        Ok((_, rest)) => c.pos <= rest.pos <= c.pos + c.bytes.len() && rest == c.at(rest.pos),
        Err(e) => c.pos <= e.at <= c.pos + c.bytes.len(),
    }
}

/// Moving a cursor forward in two steps is moving it forward in one.
pub proof fn lemma_at_at(c: Cursor, a: nat, b: nat)
    requires
        c.pos <= a <= b <= c.pos + c.bytes.len(),
    ensures
        c.at(a).at(b) == c.at(b),
        c.at(c.pos) == c,
{
    assert(c.bytes.skip(a - c.pos).skip(b - a) =~= c.bytes.skip(b - c.pos));
    assert(c.bytes.skip(0) =~= c.bytes);
}

/// Where a decoding step that started at `c` and gave `d` leaves the cursor:
/// past the value on success, on the failing token on failure.
pub open spec fn moved<V>(c: Cursor, d: Decoded<V>) -> Cursor {
    match d {
        Ok((_, rest)) => rest,
        Err(e) => c.at(e.at),
    }
}

/// A step that stays within a cursor reached from `c` stays within `c`, and
/// where it fails, the failing token is the same seen from either.
pub proof fn lemma_within_from<V>(c: Cursor, mid: Cursor, d: Decoded<V>)
    requires
        c.pos <= mid.pos <= c.pos + c.bytes.len(),
        mid == c.at(mid.pos),
        within(mid, d),
    ensures
        within(c, d),
        d matches Err(e) ==> mid.at(e.at) == c.at(e.at),
{
    match d {
        Ok((_, rest)) => lemma_at_at(c, mid.pos, rest.pos),
        Err(e) => lemma_at_at(c, mid.pos, e.at),
    }
}

} // verus!
