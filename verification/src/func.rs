//! Functions and their instruction streams.

use crate::cursor::{moved, Cursor, Decoded};
use crate::error::{Error, ErrorKind, ErrorKindView, ErrorView};
use crate::instr::Instruction;
use crate::parser::{scoped, Parse, Parser};
use crate::stream::pulls;
use vstd::prelude::*;

verus! {

/// A function: the index of its type, and its body, whose instructions are
/// decoded on demand.
pub struct Func<'a> {
    pub ty: u32,
    parser: Parser<'a>,
}

/// The mathematical model of a [`Func`]: the index of its type, and the cursor
/// over the instruction bytes of its body.
pub struct FuncView {
    pub ty: u32,
    pub body: Cursor,
}

impl<'a> View for Func<'a> {
    type V = FuncView;

    closed spec fn view(&self) -> FuncView {
        FuncView { ty: self.ty, body: self.parser@ }
    }
}

impl<'a> Parse<'a> for Func<'a> {
    /// The length-prefixed body, which opens with the index of the
    /// function's type; what follows the index in the body is the
    /// instruction stream, kept undecoded.
    open spec fn decode(c: Cursor) -> Decoded<FuncView> {
        match scoped(c) {
            Ok((body, after)) => match u32::decode(body) {
                Ok((ty, code)) => Ok((FuncView { ty, body: code }, after)),
                Err(e) => Err(e),
            },
            Err(e) => Err(e),
        }
    }

    proof fn lemma_decode_within(c: Cursor) {
        <&[u8]>::lemma_decode_within(c);
        if let Ok((body, _)) = scoped(c) {
            u32::lemma_decode_within(body);
        }
    }

    fn parse(parser: &mut Parser<'a>) -> (r: Result<Func<'a>, Error>) {
        let start = parser.clone();
        proof {
            Func::lemma_decode_within(start@);
        }
        let mut body = parser.carve()?;
        match u32::parse(&mut body) {
            Ok(ty) => Ok(Func { ty, parser: body }),
            Err(e) => {
                *parser = start.moved_to(e.at());
                Err(e)
            },
        }
    }
}

/// A function whose announced body length is more than the bytes that
/// remain fails as truncated, at the offset of the length prefix.
pub proof fn lemma_func_truncated(c: Cursor)
    requires
        u32::decode(c) matches Ok((len, rest)) && len > rest.bytes.len(),
    ensures
        u32::decode(c) matches Ok((len, _)) && Func::decode(c) == Err::<(FuncView, Cursor), ErrorView>(
            ErrorView { at: c.pos, kind: ErrorKindView::Truncated(len as nat) },
        ),
{
}

/// The instructions of a function body, one per pull.
pub struct Instructions<'a> {
    parser: Parser<'a>,
}

impl<'a> View for Instructions<'a> {
    type V = Cursor;

    closed spec fn view(&self) -> Cursor {
        self.parser@
    }
}

impl<'a> Func<'a> {
    /// The index of the function's type.
    pub fn ty(&self) -> (ty: u32)
        ensures
            ty == self@.ty,
    {
        self.ty
    }

    /// A fresh stream over the instructions of the body, from its start.
    /// Streams made from one function do not share their progress.
    pub fn instrs(&self) -> (r: Instructions<'a>)
        ensures
            r@ == self@.body,
    {
        Instructions { parser: self.parser.clone() }
    }
}

/// What the next pull on the instruction stream at `c` gives. The terminal
/// instruction is not handed out: it ends the stream if it is the last byte
/// of the body, and fails on the bytes that trail if it is not.
pub open spec fn next_instruction(c: Cursor) -> Option<Decoded<Instruction>> {
    match Instruction::decode(c) {
        Ok((instr, rest)) => if !instr.spec_opcode().spec_is_terminal() {
            Some(Ok((instr, rest)))
        } else if rest.bytes.len() > 0 {
            Some(Err(rest.fail(ErrorKindView::TrailingBytes)))
        } else {
            None
        },
        Err(e) => Some(Err(e)),
    }
}

/// An instruction stream ends exactly on a terminal instruction that is the
/// last thing in the body.
pub proof fn lemma_instructions_end(c: Cursor)
    ensures
        next_instruction(c) is None <==> (Instruction::decode(c) matches Ok((instr, rest))
            && instr.spec_opcode().spec_is_terminal() && rest.bytes.len() == 0),
{
}

impl<'a> Instructions<'a> {
    /// Pulls the next instruction. `None` ends the stream; after a failure
    /// the stream is not to be pulled again.
    pub fn next(&mut self) -> (r: Option<Result<Instruction, Error>>)
        ensures
            pulls(next_instruction(old(self)@), old(self)@, final(self)@, r),
            final(self)@ == moved(old(self)@, Instruction::decode(old(self)@)),
    {
        proof {
            Instruction::lemma_decode_within(self@);
        }
        match self.parser.parse::<Instruction>() {
            Ok(instr) => {
                if instr.opcode().is_terminal() {
                    if self.parser.is_empty() {
                        None
                    } else {
                        Some(Err(self.parser.error(ErrorKind::TrailingBytes)))
                    }
                } else {
                    Some(Ok(instr))
                }
            },
            Err(e) => Some(Err(e)),
        }
    }
}

} // verus!
