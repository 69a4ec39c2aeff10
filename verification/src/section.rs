//! Sections and the bounded streams of items that they hold.

use crate::cursor::{lemma_at_at, lemma_within_from, Cursor, Decoded};
use crate::error::{Error, ErrorKind, ErrorKindView};
use crate::func::Func;
use crate::parser::{scoped, Parse, Parser};
use crate::stream::{pulls, Stream};
use crate::types::Type;
use vstd::prelude::*;

verus! {

/// The function types of a type section, one per pull.
pub struct Types<'a> {
    parser: Parser<'a>,
    cnt: u32,
}

/// The imports of an import section, one per pull.
pub struct Imports<'a> {
    parser: Parser<'a>,
    cnt: u32,
}

/// The exports of an export section, one per pull.
pub struct Exports<'a> {
    parser: Parser<'a>,
    cnt: u32,
}

/// The functions of a function section, one per pull.
pub struct Funcs<'a> {
    parser: Parser<'a>,
    cnt: u32,
}

impl<'a> View for Types<'a> {
    type V = Stream;

    closed spec fn view(&self) -> Stream {
        Stream { cursor: self.parser@, left: self.cnt as nat }
    }
}

impl<'a> View for Imports<'a> {
    type V = Stream;

    closed spec fn view(&self) -> Stream {
        Stream { cursor: self.parser@, left: self.cnt as nat }
    }
}

impl<'a> View for Exports<'a> {
    type V = Stream;

    closed spec fn view(&self) -> Stream {
        Stream { cursor: self.parser@, left: self.cnt as nat }
    }
}

impl<'a> View for Funcs<'a> {
    type V = Stream;

    closed spec fn view(&self) -> Stream {
        Stream { cursor: self.parser@, left: self.cnt as nat }
    }
}

impl<'a> Types<'a> {
    /// Pulls the next function type. `None` ends the stream; after a failure
    /// the stream is not to be pulled again.
    pub fn next(&mut self) -> (r: Option<Result<Type, Error>>)
        ensures
            pulls(old(self)@.next::<Type>(), old(self)@.cursor, final(self)@.cursor, r),
            final(self)@ == old(self)@.after_next::<Type>(),
    {
        self.parser.parse_next_in_section(&mut self.cnt)
    }
}

impl<'a> Imports<'a> {
    /// Pulls the next import. `None` ends the stream; after a failure the
    /// stream is not to be pulled again.
    pub fn next(&mut self) -> (r: Option<Result<Import<'a>, Error>>)
        ensures
            pulls(old(self)@.next::<Import<'a>>(), old(self)@.cursor, final(self)@.cursor, r),
            final(self)@ == old(self)@.after_next::<Import<'a>>(),
    {
        self.parser.parse_next_in_section(&mut self.cnt)
    }
}

impl<'a> Exports<'a> {
    /// Pulls the next export. `None` ends the stream; after a failure the
    /// stream is not to be pulled again.
    pub fn next(&mut self) -> (r: Option<Result<Export<'a>, Error>>)
        ensures
            pulls(old(self)@.next::<Export<'a>>(), old(self)@.cursor, final(self)@.cursor, r),
            final(self)@ == old(self)@.after_next::<Export<'a>>(),
    {
        self.parser.parse_next_in_section(&mut self.cnt)
    }
}

impl<'a> Funcs<'a> {
    /// Pulls the next function. `None` ends the stream; after a failure the
    /// stream is not to be pulled again.
    pub fn next(&mut self) -> (r: Option<Result<Func<'a>, Error>>)
        ensures
            pulls(old(self)@.next::<Func<'a>>(), old(self)@.cursor, final(self)@.cursor, r),
            final(self)@ == old(self)@.after_next::<Func<'a>>(),
    {
        self.parser.parse_next_in_section(&mut self.cnt)
    }
}

/// A function that the module takes from outside.
#[derive(Clone, Copy, Debug, PartialEq, Eq)]
pub struct Import<'a> {
    pub module: &'a str,
    pub name: &'a str,
    pub ty: u32,
}

/// The mathematical model of an [`Import`].
pub struct ImportView {
    pub module: Seq<char>,
    pub name: Seq<char>,
    pub ty: u32,
}

impl<'a> View for Import<'a> {
    type V = ImportView;

    open spec fn view(&self) -> ImportView {
        ImportView { module: self.module@, name: self.name@, ty: self.ty }
    }
}

impl<'a> Parse<'a> for Import<'a> {
    /// The module's name, the function's name, the index of its type.
    open spec fn decode(c: Cursor) -> Decoded<ImportView> {
        match <&str>::decode(c) {
            Ok((module, c1)) => match <&str>::decode(c1) {
                Ok((name, c2)) => match u32::decode(c2) {
                    Ok((ty, c3)) => Ok((ImportView { module, name, ty }, c3)),
                    Err(e) => Err(e),
                },
                Err(e) => Err(e),
            },
            Err(e) => Err(e),
        }
    }

    proof fn lemma_decode_within(c: Cursor) {
        <&str>::lemma_decode_within(c);
        if let Ok((_, c1)) = <&str>::decode(c) {
            <&str>::lemma_decode_within(c1);
            lemma_within_from(c, c1, <&str>::decode(c1));
            if let Ok((_, c2)) = <&str>::decode(c1) {
                u32::lemma_decode_within(c2);
                lemma_within_from(c, c2, u32::decode(c2));
            }
        }
    }

    fn parse(parser: &mut Parser<'a>) -> (r: Result<Import<'a>, Error>) {
        let ghost c = parser@;
        proof {
            Import::lemma_decode_within(c);
            <&str>::lemma_decode_within(c);
        }
        let module = <&str>::parse(parser)?;
        let ghost c1 = parser@;
        proof {
            <&str>::lemma_decode_within(c1);
            lemma_within_from(c, c1, <&str>::decode(c1));
        }
        let name = <&str>::parse(parser)?;
        let ghost c2 = parser@;
        proof {
            u32::lemma_decode_within(c2);
            lemma_within_from(c, c2, u32::decode(c2));
        }
        let ty = u32::parse(parser)?;
        Ok(Import { module, name, ty })
    }
}

/// A function that the module offers to the outside.
#[derive(Clone, Copy, Debug, PartialEq, Eq)]
pub struct Export<'a> {
    pub func: u32,
    pub name: &'a str,
}

/// The mathematical model of an [`Export`].
pub struct ExportView {
    pub func: u32,
    pub name: Seq<char>,
}

impl<'a> View for Export<'a> {
    type V = ExportView;

    open spec fn view(&self) -> ExportView {
        ExportView { func: self.func, name: self.name@ }
    }
}

impl<'a> Parse<'a> for Export<'a> {
    /// The index of the function, then the name it is offered under.
    open spec fn decode(c: Cursor) -> Decoded<ExportView> {
        match u32::decode(c) {
            Ok((func, c1)) => match <&str>::decode(c1) {
                Ok((name, c2)) => Ok((ExportView { func, name }, c2)),
                Err(e) => Err(e),
            },
            Err(e) => Err(e),
        }
    }

    proof fn lemma_decode_within(c: Cursor) {
        u32::lemma_decode_within(c);
        if let Ok((_, c1)) = u32::decode(c) {
            <&str>::lemma_decode_within(c1);
            lemma_within_from(c, c1, <&str>::decode(c1));
        }
    }

    fn parse(parser: &mut Parser<'a>) -> (r: Result<Export<'a>, Error>) {
        let ghost c = parser@;
        proof {
            u32::lemma_decode_within(c);
        }
        let func = u32::parse(parser)?;
        let ghost c1 = parser@;
        proof {
            <&str>::lemma_decode_within(c1);
            lemma_within_from(c, c1, <&str>::decode(c1));
        }
        let name = <&str>::parse(parser)?;
        Ok(Export { func, name })
    }
}

/// One section of the stream, with the items of its payload still to be
/// pulled.
pub enum Section<'a> {
    Type(Types<'a>),
    Import(Imports<'a>),
    Export(Exports<'a>),
    Func(Funcs<'a>),
}

/// The mathematical model of a [`Section`].
pub enum SectionView {
    Type(Stream),
    Import(Stream),
    Export(Stream),
    Func(Stream),
}

impl SectionView {
    /// The section that the id stands for, holding the given items. Ids
    /// above three stand for no section.
    pub open spec fn with_id(id: u8, items: Stream) -> SectionView
        recommends
            id <= 3,
    {
        match id {
            0 => SectionView::Type(items),
            1 => SectionView::Import(items),
            2 => SectionView::Export(items),
            _ => SectionView::Func(items),
        }
    }
}

impl<'a> View for Section<'a> {
    type V = SectionView;

    open spec fn view(&self) -> SectionView {
        match self {
            Section::Type(items) => SectionView::Type(items@),
            Section::Import(items) => SectionView::Import(items@),
            Section::Export(items) => SectionView::Export(items@),
            Section::Func(items) => SectionView::Func(items@),
        }
    }
}

impl<'a> Parse<'a> for Section<'a> {
    /// The section id, then the length-prefixed payload, which opens with
    /// the count of its items. The payload is read before the id is looked
    /// at, so a payload that is cut short is reported before an unknown id.
    open spec fn decode(c: Cursor) -> Decoded<SectionView> {
        match u8::decode(c) {
            Ok((id, rest)) => match scoped(rest) {
                Ok((payload, after)) => if id > 3 {
                    Err(c.fail(ErrorKindView::InvalidSection(id)))
                } else {
                    match u32::decode(payload) {
                        Ok((cnt, items)) => Ok(
                            (
                                SectionView::with_id(
                                    id,
                                    Stream { cursor: items, left: cnt as nat },
                                ),
                                after,
                            ),
                        ),
                        Err(e) => Err(e),
                    }
                },
                Err(e) => Err(e),
            },
            Err(e) => Err(e),
        }
    }

    proof fn lemma_decode_within(c: Cursor) {
        u8::lemma_decode_within(c);
        if let Ok((_, rest)) = u8::decode(c) {
            <&[u8]>::lemma_decode_within(rest);
            lemma_within_from(c, rest, scoped(rest));
            if let Ok((payload, _)) = scoped(rest) {
                u32::lemma_decode_within(payload);
            }
        }
    }

    fn parse(parser: &mut Parser<'a>) -> (r: Result<Section<'a>, Error>) {
        let start = parser.clone();
        proof {
            Section::lemma_decode_within(start@);
            u8::lemma_decode_within(start@);
            lemma_at_at(start@, start@.pos, start@.pos);
        }
        let id = u8::parse(parser)?;
        proof {
            <&[u8]>::lemma_decode_within(parser@);
            lemma_within_from(start@, parser@, scoped(parser@));
        }
        let mut payload = parser.carve()?;
        if id > 3 {
            *parser = start;
            return Err(parser.error(ErrorKind::InvalidSection(id)));
        }
        let cnt = match u32::parse(&mut payload) {
            Ok(cnt) => cnt,
            Err(e) => {
                *parser = start.moved_to(e.at());
                return Err(e);
            },
        };
        Ok(
            match id {
                0 => Section::Type(Types { parser: payload, cnt }),
                1 => Section::Import(Imports { parser: payload, cnt }),
                2 => Section::Export(Exports { parser: payload, cnt }),
                _ => Section::Func(Funcs { parser: payload, cnt }),
            },
        )
    }
}

} // verus!
