//! The cursor that every decoding step works on, the primitive decoders, and
//! the trait that ties a decodable type to its place in the wire grammar.

use crate::cursor::{lemma_at_at, moved, within, Cursor, Decoded};
use crate::error::{Error, ErrorKind, ErrorKindView, ErrorView};
use crate::section::Section;
use crate::stream::{pulls, Stream};
use crate::varint::{
    lemma_uleb128_bytes_len_fixed, lemma_uleb128_len, lemma_uleb128_of_bytes, read_unsigned,
    uleb128_bytes, uleb128_u64,
};
use vstd::prelude::*;
use vstd::slice::slice_subrange;
use vstd::string::StringSliceAdditionalSpecFns;
use vstd::utf8::{decode_utf8, encode_utf8_decode_utf8, valid_utf8};

verus! {

/// A position-tracked view over a byte range that it does not own.
pub struct Parser<'a> {
    bytes: &'a [u8],
    pos: usize,
}

impl<'a> View for Parser<'a> {
    type V = Cursor;

    closed spec fn view(&self) -> Cursor {
        Cursor { bytes: self.bytes@, pos: self.pos as nat }
    }
}

impl<'a> Clone for Parser<'a> {
    /// Another cursor over the same bytes at the same position.
    fn clone(&self) -> (r: Self)
        ensures
            r@ == self@,
    {
        proof {
            use_type_invariant(self);
        }
        Parser { bytes: self.bytes, pos: self.pos }
    }
}

/// Whether a decoding step that started at `before` and was to give `want`
/// has given `got` and left the cursor at `after`: on success the value and the
/// cursor are the grammar's; on failure the cursor rests on the failing token.
pub open spec fn delivers<T: View>(
    want: Decoded<T::V>,
    before: Cursor,
    after: Cursor,
    got: Result<T, Error>,
) -> bool {
    &&& after == moved(before, want)
    &&& match want {
        Ok((v, _)) => got matches Ok(t) && t@ == v,
        Err(e) => got matches Err(f) && f@ == e,
    }
}

/// The version string that a stream must open with.
pub open spec fn expected_version() -> Seq<char> {
    seq!['0', '.', '1', '.', '0']
}

/// The constant `wit_schema_version::VERSION`.
///
/// Trusted: the constant is the version of the crate that defines it, which
/// is 0.1.0.
#[verifier::external_body]
pub(crate) fn schema_version() -> (v: &'static str)
    ensures
        v@ == expected_version(),
{
    wit_schema_version::VERSION
}

/// `core::str::from_utf8`, with its error dropped.
///
/// Trusted: the call succeeds exactly on well-formed UTF-8, and the string it
/// returns is the one that those bytes spell.
#[verifier::external_body]
fn str_from_utf8<'a>(bytes: &'a [u8]) -> (r: Option<&'a str>)
    ensures
        r is Some <==> valid_utf8(bytes@),
        r matches Some(s) ==> s.spec_bytes() == bytes@,
{
    match core::str::from_utf8(bytes) {
        Ok(s) => Some(s),
        Err(_) => None,
    }
}

/// Whether two byte ranges hold the same bytes.
fn same_bytes(a: &[u8], b: &[u8]) -> (same: bool)
    ensures
        same == (a@ == b@),
{
    if a.len() != b.len() {
        return false;
    }
    let mut i: usize = 0;
    while i < a.len()
        invariant
            a@.len() == b@.len(),
            i <= a@.len(),
            forall|j: int| 0 <= j < i ==> a@[j] == b@[j],
        decreases a@.len() - i,
    {
        if a[i] != b[i] {
            return false;
        }
        i += 1;
    }
    assert(a@ =~= b@);
    true
}

/// Whether two strings are the same, compared byte for byte.
pub(crate) fn same_text(a: &str, b: &str) -> (same: bool)
    ensures
        same == (a@ == b@),
{
    proof {
        encode_utf8_decode_utf8(a@);
        encode_utf8_decode_utf8(b@);
    }
    same_bytes(a.as_bytes(), b.as_bytes())
}

/// What opening a stream on `input` gives: the cursor past the version string,
/// or the failure. Every failure is reported at offset zero.
pub open spec fn opened(input: Seq<u8>) -> Result<Cursor, ErrorView> {
    let c = Cursor { bytes: input, pos: 0 };
    match <&str>::decode(c) {
        Ok((found, rest)) => if found == expected_version() {
            Ok(rest)
        } else {
            Err(c.fail(ErrorKindView::InvalidVersion(found)))
        },
        Err(e) => Err(e),
    }
}

/// Whether `r` is what opening a stream on `input` gives.
pub open spec fn opens<'a>(input: Seq<u8>, r: Result<Parser<'a>, Error>) -> bool {
    match opened(input) {
        Ok(c) => r matches Ok(p) && p@ == c,
        Err(e) => r matches Err(f) && f@ == e,
    }
}

/// Opening a stream is a function of the input: two results of opening one
/// on the same bytes are both cursors at the same place over the same bytes,
/// or both the same failure.
pub proof fn lemma_open_deterministic<'a, 'b>(
    input: Seq<u8>,
    first: Result<Parser<'a>, Error>,
    second: Result<Parser<'b>, Error>,
)
    requires
        opens(input, first),
        opens(input, second),
    ensures
        match first {
            Ok(p) => second matches Ok(q) && p@ == q@,
            Err(e) => second matches Err(f) && e@ == f@,
        },
{
}

/// What carving a length-prefixed range out of `c` gives: a cursor scoped to
/// exactly that range, at its true offset in the whole input, with the
/// cursor past the range.
pub open spec fn scoped(c: Cursor) -> Decoded<Cursor> {
    match <&[u8]>::decode(c) {
        Ok((range, rest)) => Ok(
            (Cursor { bytes: range, pos: (rest.pos - range.len()) as nat }, rest),
        ),
        Err(e) => Err(e),
    }
}

/// A type that has a place in the wire grammar.
pub trait Parse<'a>: Sized + View {
    /// What decoding one value of this type at `c` gives.
    spec fn decode(c: Cursor) -> Decoded<Self::V>;

    /// Decoding never reads past the end of the cursor's range and never
    /// moves backwards.
    proof fn lemma_decode_within(c: Cursor)
        ensures
            within(c, Self::decode(c)),
    ;

    /// Decodes one value of this type at the parser's position. On success
    /// the parser has moved past the value; on failure it rests on the token
    /// that failed, whose offset the error reports.
    fn parse(parser: &mut Parser<'a>) -> (r: Result<Self, Error>)
        ensures
            delivers(Self::decode(old(parser)@), old(parser)@, final(parser)@, r),
    ;
}

impl<'a> Parser<'a> {
    #[verifier::type_invariant]
    spec fn in_range(self) -> bool {
        self.pos + self.bytes@.len() <= usize::MAX
    }

    /// Opens a stream: checks that `bytes` begins with the expected version
    /// string and hands back the cursor past it.
    pub fn new(bytes: &'a [u8]) -> (r: Result<Parser<'a>, Error>)
        ensures
            opens(bytes@, r),
    {
        assert(bytes@.len() == bytes.len());
        let mut parser = Parser { bytes, pos: 0 };
        let version = <&str>::parse(&mut parser)?;
        if !same_text(version, schema_version()) {
            return Err(Error::new(0, ErrorKind::InvalidVersion(version.to_owned())));
        }
        Ok(parser)
    }

    /// Carves a length-prefixed range out of the input and hands it back as a
    /// cursor of its own, which cannot read past the end of that range.
    pub fn carve(&mut self) -> (r: Result<Parser<'a>, Error>)
        ensures
            delivers(scoped(old(self)@), old(self)@, final(self)@, r),
    {
        let bytes = <&[u8]>::parse(self)?;
        proof {
            use_type_invariant(&*self);
            lemma_uleb128_len(old(self)@.bytes);
        }
        Ok(Parser { bytes, pos: self.pos - bytes.len() })
    }

    /// The same cursor moved forward to offset `at` of the whole input.
    pub(crate) fn moved_to(&self, at: usize) -> (r: Parser<'a>)
        requires
            self@.pos <= at <= self@.pos + self@.bytes.len(),
        ensures
            r@ == self@.at(at as nat),
    {
        proof {
            use_type_invariant(self);
        }
        let rest = slice_subrange(self.bytes, at - self.pos, self.bytes.len());
        Parser { bytes: rest, pos: at }
    }

    /// The offset in the whole input of the next byte to be read.
    pub fn pos(&self) -> (pos: usize)
        ensures
            pos == self@.pos,
    {
        self.pos
    }

    /// Whether no byte is left to read.
    pub fn is_empty(&self) -> (b: bool)
        ensures
            b == (self@.bytes.len() == 0),
    {
        self.bytes.len() == 0
    }

    /// The failure of the given kind at the parser's position.
    pub fn error(&self, kind: ErrorKind) -> (e: Error)
        ensures
            e@ == self@.fail(kind@),
    {
        Error::new(self.pos, kind)
    }

    /// Decodes the next section: its id, its payload carved out as a cursor of
    /// its own, and the count of items that the payload announces.
    pub fn section(&mut self) -> (r: Result<Section<'a>, Error>)
        ensures
            delivers(Section::decode(old(self)@), old(self)@, final(self)@, r),
    {
        self.parse()
    }

    /// Pulls the next item of a section whose payload this parser is scoped
    /// to, `cnt` being the number of items that are still to come.
    pub fn parse_next_in_section<T: Parse<'a>>(&mut self, cnt: &mut u32) -> (r: Option<
        Result<T, Error>,
    >)
        ensures
            ({
                let stream = Stream { cursor: old(self)@, left: *old(cnt) as nat };
                &&& pulls(stream.next::<T>(), old(self)@, final(self)@, r)
                &&& stream.after_next::<T>() == Stream {
                    cursor: final(self)@,
                    left: *final(cnt) as nat,
                }
            }),
    {
        proof {
            lemma_at_at(self@, self@.pos, self@.pos);
        }
        if *cnt == 0 {
            if self.bytes.len() != 0 {
                return Some(Err(self.error(ErrorKind::TrailingBytes)));
            }
            None
        } else {
            *cnt -= 1;
            Some(T::parse(self))
        }
    }

    /// Decodes one value of type `T` at the parser's position.
    pub fn parse<T: Parse<'a>>(&mut self) -> (r: Result<T, Error>)
        ensures
            delivers(T::decode(old(self)@), old(self)@, final(self)@, r),
    {
        T::parse(self)
    }
}

impl<'a> Parse<'a> for u8 {
    /// One byte.
    open spec fn decode(c: Cursor) -> Decoded<u8> {
        if c.bytes.len() == 0 {
            Err(c.fail(ErrorKindView::UnexpectedEndOfInput))
        } else {
            Ok((c.bytes[0], c.skip(1)))
        }
    }

    proof fn lemma_decode_within(c: Cursor) {
        lemma_at_at(c, c.pos, c.pos);
    }

    fn parse(parser: &mut Parser<'a>) -> (r: Result<u8, Error>) {
        proof {
            use_type_invariant(&*parser);
        }
        if parser.bytes.len() == 0 {
            assert(parser@.bytes.skip(0) =~= parser@.bytes);
            Err(parser.error(ErrorKind::UnexpectedEndOfInput))
        } else {
            let byte = parser.bytes[0];
            let rest = slice_subrange(parser.bytes, 1, parser.bytes.len());
            *parser = Parser { bytes: rest, pos: parser.pos + 1 };
            Ok(byte)
        }
    }
}

impl<'a> Parse<'a> for u32 {
    /// A variable-length integer that fits in 32 bits. One that fits in 64
    /// bits only is too large; one that is cut short, or runs over ten bytes
    /// or 64 bits, is malformed.
    open spec fn decode(c: Cursor) -> Decoded<u32> {
        match uleb128_u64(c.bytes) {
            Some((v, n)) => if v <= u32::MAX {
                Ok((v as u32, c.skip(n)))
            } else {
                Err(c.fail(ErrorKindView::VarintTooLarge(v as nat)))
            },
            None => Err(c.fail(ErrorKindView::VarintMalformed)),
        }
    }

    proof fn lemma_decode_within(c: Cursor) {
        lemma_uleb128_len(c.bytes);
        lemma_at_at(c, c.pos, c.pos);
    }

    fn parse(parser: &mut Parser<'a>) -> (r: Result<u32, Error>) {
        proof {
            use_type_invariant(&*parser);
            lemma_uleb128_len(parser@.bytes);
            assert(parser@.bytes.skip(0) =~= parser@.bytes);
        }
        let (read, rest) = read_unsigned(parser.bytes);
        match read {
            Some(n) => {
                if n <= u32::MAX as u64 {
                    let used = parser.bytes.len() - rest.len();
                    *parser = Parser { bytes: rest, pos: parser.pos + used };
                    Ok(n as u32)
                } else {
                    Err(parser.error(ErrorKind::VarintTooLarge(n)))
                }
            },
            None => Err(parser.error(ErrorKind::VarintMalformed)),
        }
    }
}

/// A number written in its shortest spelling decodes as itself where it
/// fits in 32 bits, and is refused as too large where it does not; the largest
/// that decodes is 4294967295.
pub proof fn lemma_decode_u32_of_bytes(v: u64, pos: nat, tail: Seq<u8>)
    ensures
        u32::decode(Cursor { bytes: uleb128_bytes(v as nat) + tail, pos }) == (if v <= u32::MAX {
            Ok::<(u32, Cursor), ErrorView>(
                (v as u32, Cursor { bytes: tail, pos: pos + uleb128_bytes(v as nat).len() }),
            )
        } else {
            Err::<(u32, Cursor), ErrorView>(
                ErrorView { at: pos, kind: ErrorKindView::VarintTooLarge(v as nat) },
            )
        }),
{
    let spelt = uleb128_bytes(v as nat);
    lemma_uleb128_of_bytes(v as nat, tail);
    lemma_uleb128_bytes_len_fixed(v as nat);
    assert((spelt + tail).skip(spelt.len() as int) =~= tail);
}

impl<'a> Parse<'a> for &'a [u8] {
    /// A length as a variable-length integer, then that many bytes.
    open spec fn decode(c: Cursor) -> Decoded<Seq<u8>> {
        match u32::decode(c) {
            Ok((len, rest)) => if len <= rest.bytes.len() {
                Ok((rest.bytes.take(len as int), rest.skip(len as nat)))
            } else {
                Err(c.fail(ErrorKindView::Truncated(len as nat)))
            },
            Err(e) => Err(e),
        }
    }

    proof fn lemma_decode_within(c: Cursor) {
        u32::lemma_decode_within(c);
        if let Ok((len, rest)) = u32::decode(c) {
            if len <= rest.bytes.len() {
                lemma_at_at(c, rest.pos, rest.pos + len as nat);
            }
        }
    }

    fn parse(parser: &mut Parser<'a>) -> (r: Result<&'a [u8], Error>) {
        let start = parser.clone();
        let len = match u32::parse(parser) {
            Ok(len) => len as usize,
            Err(e) => { return Err(e); },
        };
        proof {
            use_type_invariant(&*parser);
            assert(start@.bytes.skip(0) =~= start@.bytes);
        }
        if len <= parser.bytes.len() {
            let range = slice_subrange(parser.bytes, 0, len);
            let rest = slice_subrange(parser.bytes, len, parser.bytes.len());
            *parser = Parser { bytes: rest, pos: parser.pos + len };
            Ok(range)
        } else {
            *parser = start;
            Err(parser.error(ErrorKind::Truncated(len)))
        }
    }
}

impl<'a> Parse<'a> for &'a str {
    /// A length-prefixed byte range that is well-formed UTF-8.
    open spec fn decode(c: Cursor) -> Decoded<Seq<char>> {
        match <&[u8]>::decode(c) {
            Ok((raw, rest)) => if valid_utf8(raw) {
                Ok((decode_utf8(raw), rest))
            } else {
                Err(c.fail(ErrorKindView::InvalidUtf8))
            },
            Err(e) => Err(e),
        }
    }

    proof fn lemma_decode_within(c: Cursor) {
        <&[u8]>::lemma_decode_within(c);
    }

    fn parse(parser: &mut Parser<'a>) -> (r: Result<&'a str, Error>) {
        let start = parser.clone();
        let raw = <&[u8]>::parse(parser)?;
        match str_from_utf8(raw) {
            Some(s) => {
                proof {
                    encode_utf8_decode_utf8(s@);
                }
                Ok(s)
            },
            None => {
                proof {
                    assert(start@.bytes.skip(0) =~= start@.bytes);
                }
                *parser = start;
                Err(parser.error(ErrorKind::InvalidUtf8))
            },
        }
    }
}

} // verus!
