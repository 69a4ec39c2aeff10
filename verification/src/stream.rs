//! Counted sequences and bounded item streams: a count, then exactly that
//! many items, then nothing.

use crate::cursor::{lemma_at_at, lemma_within_from, moved, within, Cursor, Decoded};
use crate::error::{Error, ErrorKindView, ErrorView};
use crate::parser::{delivers, Parse};
use vstd::prelude::*;

verus! {

/// Whether a pull on a stream that was to give `want` has given `got`: the
/// end of the stream where the grammar says so, else an item or a failure as
/// [`delivers`] has it.
pub open spec fn pulls<T: View>(
    want: Option<Decoded<T::V>>,
    before: Cursor,
    after: Cursor,
    got: Option<Result<T, Error>>,
) -> bool {
    match want {
        Some(d) => got matches Some(g) && delivers(d, before, after, g),
        None => got is None,
    }
}

/// The mathematical model of a bounded item stream: the cursor over what is
/// left of its payload, and the number of items that are still to come.
pub struct Stream {
    pub cursor: Cursor,
    pub left: nat,
}

impl Stream {
    /// What the next pull on the stream gives. A stream that owes no more
    /// items ends if its payload is used up, and fails on the bytes that
    /// trail if it is not; a stream that owes an item decodes one.
    pub open spec fn next<'a, T: Parse<'a>>(self) -> Option<Decoded<T::V>> {
        if self.left > 0 {
            Some(T::decode(self.cursor))
        } else if self.cursor.bytes.len() > 0 {
            Some(Err(self.cursor.fail(ErrorKindView::TrailingBytes)))
        } else {
            None
        }
    }

    /// The stream after that pull: one item less is owed, whether or not the
    /// item decoded, and the cursor is where decoding left it.
    pub open spec fn after_next<'a, T: Parse<'a>>(self) -> Stream {
        if self.left > 0 {
            Stream {
                cursor: moved(self.cursor, T::decode(self.cursor)),
                left: (self.left - 1) as nat,
            }
        } else {
            self
        }
    }

    /// What pulling the stream until it ends or fails gives: the items in
    /// the order they came, or the first failure.
    pub open spec fn drain<'a, T: Parse<'a>>(self) -> Result<Seq<T::V>, ErrorView>
        decreases self.left,
    {
        match self.next::<T>() {
            Some(Ok((v, _))) => match self.after_next::<T>().drain::<T>() {
                Ok(items) => Ok(seq![v] + items),
                Err(e) => Err(e),
            },
            Some(Err(e)) => Err(e),
            None => Ok(Seq::empty()),
        }
    }
}

/// A stream ends exactly when it owes no item and its payload is used up.
pub proof fn lemma_stream_ends<'a, T: Parse<'a>>(s: Stream)
    ensures
        s.next::<T>() is None <==> s.left == 0 && s.cursor.bytes.len() == 0,
{
}

/// A stream that owes a single item and whose payload holds more than that
/// item hands the item out and then fails, on the first of the bytes that
/// trail.
pub proof fn lemma_trailing_bytes<'a, T: Parse<'a>>(s: Stream)
    requires
        s.left == 1,
        T::decode(s.cursor) matches Ok((_, rest)) && rest.bytes.len() > 0,
    ensures
        s.next::<T>() == Some(T::decode(s.cursor)),
        T::decode(s.cursor) matches Ok((_, rest)) && s.after_next::<T>().next::<T>() == Some(
            Err::<(T::V, Cursor), ErrorView>(rest.fail(ErrorKindView::TrailingBytes)),
        ),
{
}

/// What decoding `n` values of one type in a row gives: the values in the
/// order they were met, or the first failure.
pub open spec fn decode_many<'a, T: Parse<'a>>(c: Cursor, n: nat) -> Decoded<Seq<T::V>>
    decreases n,
{
    if n == 0 {
        Ok((Seq::empty(), c))
    } else {
        match decode_many::<T>(c, (n - 1) as nat) {
            Ok((values, rest)) => match T::decode(rest) {
                Ok((v, after)) => Ok((values.push(v), after)),
                Err(e) => Err(e),
            },
            Err(e) => Err(e),
        }
    }
}

/// What decoding a counted sequence gives: a count as a variable-length
/// integer, then that many values.
pub open spec fn counted<'a, T: Parse<'a>>(c: Cursor) -> Decoded<Seq<T::V>> {
    match u32::decode(c) {
        Ok((n, rest)) => decode_many::<T>(rest, n as nat),
        Err(e) => Err(e),
    }
}

/// Values in a row can be taken from the front: the first, then the others
/// from where the first ended.
pub proof fn lemma_decode_many_front<'a, T: Parse<'a>>(c: Cursor, n: nat)
    requires
        n > 0,
    ensures
        decode_many::<T>(c, n) == (match T::decode(c) {
            Ok((v, rest)) => match decode_many::<T>(rest, (n - 1) as nat) {
                Ok((values, after)) => Ok((seq![v] + values, after)),
                Err(e) => Err(e),
            },
            Err(e) => Err(e),
        }),
    decreases n,
{
    if n == 1 {
        assert(decode_many::<T>(c, 0) == Ok::<(Seq<T::V>, Cursor), ErrorView>((Seq::empty(), c)));
        if let Ok((v, rest)) = T::decode(c) {
            assert(Seq::<T::V>::empty().push(v) =~= seq![v] + Seq::<T::V>::empty());
        }
    } else {
        lemma_decode_many_front::<T>(c, (n - 1) as nat);
        if let Ok((v, rest)) = T::decode(c) {
            if let Ok((values, mid)) = decode_many::<T>(rest, (n - 2) as nat) {
                if let Ok((w, after)) = T::decode(mid) {
                    assert((seq![v] + values).push(w) =~= seq![v] + values.push(w));
                }
            }
        }
    }
}

/// Pulling a stream to its end gives what its payload holds as a sequence
/// of as many items as the stream owes, provided that nothing trails them;
/// where bytes trail, the pull after the last item fails on the first of them.
pub proof fn lemma_drain<'a, T: Parse<'a>>(s: Stream)
    ensures
        s.drain::<T>() == (match decode_many::<T>(s.cursor, s.left) {
            Ok((items, rest)) => if rest.bytes.len() == 0 {
                Ok(items)
            } else {
                Err(rest.fail(ErrorKindView::TrailingBytes))
            },
            Err(e) => Err(e),
        }),
    decreases s.left,
{
    if s.left > 0 {
        lemma_decode_many_front::<T>(s.cursor, s.left);
        if T::decode(s.cursor) is Ok {
            lemma_drain::<T>(s.after_next::<T>());
        }
    }
}

/// Decoding values in a row stays within the cursor's range, and gives as
/// many values as were asked for.
pub proof fn lemma_decode_many_within<'a, T: Parse<'a>>(c: Cursor, n: nat)
    ensures
        within(c, decode_many::<T>(c, n)),
        decode_many::<T>(c, n) matches Ok((values, _)) ==> values.len() == n,
    decreases n,
{
    if n == 0 {
        lemma_at_at(c, c.pos, c.pos);
    } else {
        lemma_decode_many_within::<T>(c, (n - 1) as nat);
        if let Ok((_, rest)) = decode_many::<T>(c, (n - 1) as nat) {
            T::lemma_decode_within(rest);
            lemma_within_from(c, rest, T::decode(rest));
        }
    }
}

/// Decoding a counted sequence stays within the cursor's range.
pub proof fn lemma_counted_within<'a, T: Parse<'a>>(c: Cursor)
    ensures
        within(c, counted::<T>(c)),
{
    u32::lemma_decode_within(c);
    if let Ok((n, rest)) = u32::decode(c) {
        lemma_decode_many_within::<T>(rest, n as nat);
        lemma_within_from(c, rest, decode_many::<T>(rest, n as nat));
    }
}

/// Once a value in a row has failed to decode, asking for more values in
/// that row gives the same failure.
pub proof fn lemma_decode_many_fails<'a, T: Parse<'a>>(c: Cursor, m: nat, n: nat)
    requires
        m <= n,
        decode_many::<T>(c, m) is Err,
    ensures
        decode_many::<T>(c, n) == decode_many::<T>(c, m),
    decreases n,
{
    if m < n {
        lemma_decode_many_fails::<T>(c, m, (n - 1) as nat);
    }
}

} // verus!
