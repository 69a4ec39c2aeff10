//! Value types and function types.

use crate::error::{Error, ErrorKind, ErrorKindView, ErrorView};
use crate::cursor::{lemma_at_at, lemma_within_from, Cursor, Decoded};
use crate::parser::{delivers, Parse, Parser};
use crate::stream::{
    counted, decode_many, lemma_counted_within, lemma_decode_many_fails,
    lemma_decode_many_within,
};
use vstd::prelude::*;

verus! {

/// The type of a value that crosses the interface.
#[derive(Clone, Copy, Debug, PartialEq, Eq, Structural)]
pub enum ValType {
    S8,
    S16,
    S32,
    S64,
    U8,
    U16,
    U32,
    U64,
    F32,
    F64,
    String,
}

impl View for ValType {
    type V = ValType;

    open spec fn view(&self) -> ValType {
        *self
    }
}

impl ValType {
    /// The byte that stands for this value type on the wire.
    pub open spec fn spec_code(self) -> u8 {
        match self {
            ValType::String => 0,
            ValType::S8 => 1,
            ValType::S16 => 2,
            ValType::S32 => 3,
            ValType::S64 => 4,
            ValType::U8 => 5,
            ValType::U16 => 6,
            ValType::U32 => 7,
            ValType::U64 => 8,
            ValType::F32 => 9,
            ValType::F64 => 10,
        }
    }

    /// The value type that `code` stands for, if it stands for one.
    pub open spec fn spec_from_code(code: u8) -> Option<ValType> {
        match code {
            0 => Some(ValType::String),
            1 => Some(ValType::S8),
            2 => Some(ValType::S16),
            3 => Some(ValType::S32),
            4 => Some(ValType::S64),
            5 => Some(ValType::U8),
            6 => Some(ValType::U16),
            7 => Some(ValType::U32),
            8 => Some(ValType::U64),
            9 => Some(ValType::F32),
            10 => Some(ValType::F64),
            _ => None,
        }
    }

    /// The byte that stands for this value type on the wire.
    #[verifier::when_used_as_spec(spec_code)]
    pub fn code(self) -> (code: u8)
        ensures
            code == self.spec_code(),
    {
        match self {
            ValType::String => 0,
            ValType::S8 => 1,
            ValType::S16 => 2,
            ValType::S32 => 3,
            ValType::S64 => 4,
            ValType::U8 => 5,
            ValType::U16 => 6,
            ValType::U32 => 7,
            ValType::U64 => 8,
            ValType::F32 => 9,
            ValType::F64 => 10,
        }
    }

    /// The value type that `code` stands for, if it stands for one.
    #[verifier::when_used_as_spec(spec_from_code)]
    pub fn from_code(code: u8) -> (ty: Option<ValType>)
        ensures
            ty == ValType::spec_from_code(code),
    {
        match code {
            0 => Some(ValType::String),
            1 => Some(ValType::S8),
            2 => Some(ValType::S16),
            3 => Some(ValType::S32),
            4 => Some(ValType::S64),
            5 => Some(ValType::U8),
            6 => Some(ValType::U16),
            7 => Some(ValType::U32),
            8 => Some(ValType::U64),
            9 => Some(ValType::F32),
            10 => Some(ValType::F64),
            _ => None,
        }
    }
}

/// The table of value type codes reads the same in both directions.
pub proof fn lemma_valtype_codes(ty: ValType, code: u8)
    ensures
        ValType::spec_from_code(ty.spec_code()) == Some(ty),
        ValType::spec_from_code(code) == Some(ty) <==> ty.spec_code() == code,
        ValType::spec_from_code(code) is Some <==> code <= 10,
{
}

impl<'a> Parse<'a> for ValType {
    /// One byte, which must be a value type code.
    open spec fn decode(c: Cursor) -> Decoded<ValType> {
        match u8::decode(c) {
            Ok((code, rest)) => match ValType::spec_from_code(code) {
                Some(ty) => Ok((ty, rest)),
                None => Err(c.fail(ErrorKindView::InvalidValType(code))),
            },
            Err(e) => Err(e),
        }
    }

    proof fn lemma_decode_within(c: Cursor) {
        u8::lemma_decode_within(c);
    }

    fn parse(parser: &mut Parser<'a>) -> (r: Result<ValType, Error>) {
        let start = parser.clone();
        let code = u8::parse(parser)?;
        match ValType::from_code(code) {
            Some(ty) => Ok(ty),
            None => {
                proof {
                    lemma_at_at(start@, start@.pos, start@.pos);
                }
                *parser = start;
                Err(parser.error(ErrorKind::InvalidValType(code)))
            },
        }
    }
}

/// A function type: what a function takes and what it gives.
#[derive(Clone, Debug, PartialEq, Eq)]
pub struct Type {
    pub params: Vec<ValType>,
    pub results: Vec<ValType>,
}

/// The mathematical model of a [`Type`].
pub struct TypeView {
    pub params: Seq<ValType>,
    pub results: Seq<ValType>,
}

impl View for Type {
    type V = TypeView;

    open spec fn view(&self) -> TypeView {
        TypeView { params: self.params@, results: self.results@ }
    }
}

/// Decodes a counted sequence of value types.
fn parse_valtypes<'a>(parser: &mut Parser<'a>) -> (r: Result<Vec<ValType>, Error>)
    ensures
        delivers(counted::<ValType>(old(parser)@), old(parser)@, final(parser)@, r),
{
    let ghost start = parser@;
    let cnt = u32::parse(parser)?;
    let ghost first = parser@;
    proof {
        u32::lemma_decode_within(start);
        lemma_at_at(first, first.pos, first.pos);
    }
    let mut types: Vec<ValType> = Vec::new();
    let mut i: u32 = 0;
    while i < cnt
        invariant
            i <= cnt,
            start == old(parser)@,
            u32::decode(start) == Ok::<(u32, Cursor), ErrorView>((cnt, first)),
            start.pos <= first.pos <= start.pos + start.bytes.len(),
            first == start.at(first.pos),
            decode_many::<ValType>(first, i as nat) == Ok::<(Seq<ValType>, Cursor), ErrorView>(
                (types@, parser@),
            ),
        decreases cnt - i,
    {
        let ghost before = parser@;
        proof {
            lemma_decode_many_within::<ValType>(first, i as nat);
            ValType::lemma_decode_within(before);
            lemma_within_from(first, before, ValType::decode(before));
            lemma_within_from(start, first, decode_many::<ValType>(first, (i + 1) as nat));
        }
        match ValType::parse(parser) {
            Ok(ty) => {
                types.push(ty);
            },
            Err(e) => {
                proof {
                    lemma_decode_many_fails::<ValType>(first, (i + 1) as nat, cnt as nat);
                }
                return Err(e);
            },
        }
        i += 1;
    }
    Ok(types)
}

impl<'a> Parse<'a> for Type {
    /// The parameters, then the results, each a counted sequence of value
    /// types.
    open spec fn decode(c: Cursor) -> Decoded<TypeView> {
        match counted::<ValType>(c) {
            Ok((params, rest)) => match counted::<ValType>(rest) {
                Ok((results, after)) => Ok((TypeView { params, results }, after)),
                Err(e) => Err(e),
            },
            Err(e) => Err(e),
        }
    }

    proof fn lemma_decode_within(c: Cursor) {
        lemma_counted_within::<ValType>(c);
        if let Ok((_, rest)) = counted::<ValType>(c) {
            lemma_counted_within::<ValType>(rest);
            lemma_within_from(c, rest, counted::<ValType>(rest));
        }
    }

    fn parse(parser: &mut Parser<'a>) -> (r: Result<Type, Error>) {
        let ghost start = parser@;
        let params = parse_valtypes(parser)?;
        proof {
            lemma_counted_within::<ValType>(start);
            lemma_counted_within::<ValType>(parser@);
            lemma_within_from(start, parser@, counted::<ValType>(parser@));
        }
        let results = parse_valtypes(parser)?;
        Ok(Type { params, results })
    }
}

} // verus!
