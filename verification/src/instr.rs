//! The instruction set. One table gives each instruction its opcode byte, its
//! mnemonic and the shape of its operand; the decoder and the encoder both go
//! through it, so they cannot drift apart.

use crate::error::{Error, ErrorKind, ErrorKindView, ErrorView};
use crate::cursor::{lemma_at_at, Cursor, Decoded};
use crate::parser::{same_text, Parse, Parser};
use crate::varint::{
    lemma_uleb128_bytes_len_fixed, lemma_uleb128_bytes_of_shortest, lemma_uleb128_len,
    lemma_uleb128_of_bytes, shortest, uleb128_bytes, write_unsigned,
};
use vstd::prelude::*;

verus! {

/// An instruction without its operand: one row of the instruction table.
#[derive(Clone, Copy, Debug, PartialEq, Eq, Structural)]
pub enum Opcode {
    ArgGet,
    CallCore,
    End,
}

impl Opcode {
    /// The instruction table: for each instruction its opcode byte, its
    /// mnemonic in the textual syntax, and whether an index follows the
    /// opcode byte.
    pub open spec fn spec_row(self) -> (u8, Seq<char>, bool) {
        match self {
            Opcode::ArgGet => (0x00, "arg.get"@, true),
            Opcode::CallCore => (0x01, "call-core"@, true),
            Opcode::End => (0x02, "end"@, false),
        }
    }

    /// The byte that stands for this instruction on the wire.
    pub open spec fn spec_byte(self) -> u8 {
        self.spec_row().0
    }

    /// The name of this instruction in the textual syntax.
    pub open spec fn spec_mnemonic(self) -> Seq<char> {
        self.spec_row().1
    }

    /// Whether an index follows the opcode byte.
    pub open spec fn spec_takes_index(self) -> bool {
        self.spec_row().2
    }

    /// Whether this instruction ends an instruction stream.
    pub open spec fn spec_is_terminal(self) -> bool {
        self == Opcode::End
    }

    /// The instruction that `byte` stands for, if it stands for one.
    pub open spec fn spec_from_byte(byte: u8) -> Option<Opcode> {
        if byte == Opcode::ArgGet.spec_byte() {
            Some(Opcode::ArgGet)
        } else if byte == Opcode::CallCore.spec_byte() {
            Some(Opcode::CallCore)
        } else if byte == Opcode::End.spec_byte() {
            Some(Opcode::End)
        } else {
            None
        }
    }

    /// The instruction that the mnemonic `word` names, if it names one.
    pub open spec fn spec_from_mnemonic(word: Seq<char>) -> Option<Opcode> {
        if word == Opcode::ArgGet.spec_mnemonic() {
            Some(Opcode::ArgGet)
        } else if word == Opcode::CallCore.spec_mnemonic() {
            Some(Opcode::CallCore)
        } else if word == Opcode::End.spec_mnemonic() {
            Some(Opcode::End)
        } else {
            None
        }
    }

    /// The instruction table: for each instruction its opcode byte, its
    /// mnemonic in the textual syntax, and whether an index follows the
    /// opcode byte.
    pub fn row(self) -> (row: (u8, &'static str, bool))
        ensures
            row.0 == self.spec_row().0,
            row.1@ == self.spec_row().1,
            row.2 == self.spec_row().2,
    {
        match self {
            Opcode::ArgGet => (0x00, "arg.get", true),
            Opcode::CallCore => (0x01, "call-core", true),
            Opcode::End => (0x02, "end", false),
        }
    }

    /// The byte that stands for this instruction on the wire.
    #[verifier::when_used_as_spec(spec_byte)]
    pub fn byte(self) -> (byte: u8)
        ensures
            byte == self.spec_byte(),
    {
        self.row().0
    }

    /// The name of this instruction in the textual syntax.
    pub fn mnemonic(self) -> (word: &'static str)
        ensures
            word@ == self.spec_mnemonic(),
    {
        self.row().1
    }

    /// Whether an index follows the opcode byte.
    #[verifier::when_used_as_spec(spec_takes_index)]
    pub fn takes_index(self) -> (takes: bool)
        ensures
            takes == self.spec_takes_index(),
    {
        self.row().2
    }

    /// Whether this instruction ends an instruction stream.
    #[verifier::when_used_as_spec(spec_is_terminal)]
    pub fn is_terminal(self) -> (terminal: bool)
        ensures
            terminal == self.spec_is_terminal(),
    {
        match self {
            Opcode::End => true,
            _ => false,
        }
    }

    /// The instruction that `byte` stands for, if it stands for one.
    #[verifier::when_used_as_spec(spec_from_byte)]
    pub fn from_byte(byte: u8) -> (op: Option<Opcode>)
        ensures
            op == Opcode::spec_from_byte(byte),
    {
        if byte == Opcode::ArgGet.byte() {
            Some(Opcode::ArgGet)
        } else if byte == Opcode::CallCore.byte() {
            Some(Opcode::CallCore)
        } else if byte == Opcode::End.byte() {
            Some(Opcode::End)
        } else {
            None
        }
    }

    /// The instruction that the mnemonic `word` names, if it names one.
    pub fn from_mnemonic(word: &str) -> (op: Option<Opcode>)
        ensures
            op == Opcode::spec_from_mnemonic(word@),
    {
        if same_text(word, Opcode::ArgGet.mnemonic()) {
            Some(Opcode::ArgGet)
        } else if same_text(word, Opcode::CallCore.mnemonic()) {
            Some(Opcode::CallCore)
        } else if same_text(word, Opcode::End.mnemonic()) {
            Some(Opcode::End)
        } else {
            None
        }
    }
}

/// Each instruction is the one that its own opcode byte stands for, and a
/// byte stands for no instruction but the one that has it as its opcode.
pub proof fn lemma_opcode_bytes(op: Opcode, byte: u8)
    ensures
        Opcode::spec_from_byte(op.spec_byte()) == Some(op),
        Opcode::spec_from_byte(byte) == Some(op) <==> op.spec_byte() == byte,
{
}

/// Each instruction is the one that its own mnemonic names, and a word names
/// no instruction but the one that has it as its mnemonic.
pub proof fn lemma_opcode_mnemonics(op: Opcode, word: Seq<char>)
    ensures
        Opcode::spec_from_mnemonic(op.spec_mnemonic()) == Some(op),
        Opcode::spec_from_mnemonic(word) == Some(op) <==> op.spec_mnemonic() == word,
{
    reveal_strlit("arg.get");
    reveal_strlit("call-core");
    reveal_strlit("end");
    assert("arg.get"@.len() == 7 && "call-core"@.len() == 9 && "end"@.len() == 3);
}

/// One instruction of a function body.
#[derive(Clone, Copy, Debug, PartialEq, Eq, Structural)]
pub enum Instruction {
    /// Pushes the argument of the given index.
    ArgGet(u32),
    /// Calls the core function of the given index.
    CallCore(u32),
    /// Ends the instruction stream.
    End,
}

impl View for Instruction {
    type V = Instruction;

    open spec fn view(&self) -> Instruction {
        *self
    }
}

impl Instruction {
    /// The row of the instruction table that this instruction belongs to.
    pub open spec fn spec_opcode(self) -> Opcode {
        match self {
            Instruction::ArgGet(_) => Opcode::ArgGet,
            Instruction::CallCore(_) => Opcode::CallCore,
            Instruction::End => Opcode::End,
        }
    }

    /// The index that this instruction carries, if it carries one.
    pub open spec fn spec_index(self) -> Option<u32> {
        match self {
            Instruction::ArgGet(index) => Some(index),
            Instruction::CallCore(index) => Some(index),
            Instruction::End => None,
        }
    }

    /// The instruction of the given row with the given index; the index is
    /// dropped where the row takes none.
    pub open spec fn spec_new(op: Opcode, index: u32) -> Instruction {
        match op {
            Opcode::ArgGet => Instruction::ArgGet(index),
            Opcode::CallCore => Instruction::CallCore(index),
            Opcode::End => Instruction::End,
        }
    }

    /// The bytes that stand for this instruction on the wire: its opcode
    /// byte, then its index as a variable-length integer if it carries one.
    pub open spec fn encoding(self) -> Seq<u8> {
        match self.spec_index() {
            Some(index) => seq![self.spec_opcode().spec_byte()] + uleb128_bytes(index as nat),
            None => seq![self.spec_opcode().spec_byte()],
        }
    }

    /// The row of the instruction table that this instruction belongs to.
    #[verifier::when_used_as_spec(spec_opcode)]
    pub fn opcode(self) -> (op: Opcode)
        ensures
            op == self.spec_opcode(),
    {
        match self {
            Instruction::ArgGet(_) => Opcode::ArgGet,
            Instruction::CallCore(_) => Opcode::CallCore,
            Instruction::End => Opcode::End,
        }
    }

    /// The index that this instruction carries, if it carries one.
    #[verifier::when_used_as_spec(spec_index)]
    pub fn index(self) -> (index: Option<u32>)
        ensures
            index == self.spec_index(),
    {
        match self {
            Instruction::ArgGet(index) => Some(index),
            Instruction::CallCore(index) => Some(index),
            Instruction::End => None,
        }
    }

    /// The instruction of the given row with the given index; the index is
    /// dropped where the row takes none.
    #[verifier::when_used_as_spec(spec_new)]
    pub fn new(op: Opcode, index: u32) -> (instr: Instruction)
        ensures
            instr == Instruction::spec_new(op, index),
    {
        match op {
            Opcode::ArgGet => Instruction::ArgGet(index),
            Opcode::CallCore => Instruction::CallCore(index),
            Opcode::End => Instruction::End,
        }
    }

    /// Appends to `out` the bytes that stand for this instruction on the wire.
    pub fn encode(&self, out: &mut Vec<u8>)
        ensures
            final(out)@ == old(out)@ + self.encoding(),
    {
        out.push(self.opcode().byte());
        if let Some(index) = self.index() {
            write_unsigned(out, index as u64);
        }
        assert(final(out)@ =~= old(out)@ + self.encoding());
    }
}

impl<'a> Parse<'a> for Instruction {
    /// An opcode byte, then an index where the instruction table asks for one.
    open spec fn decode(c: Cursor) -> Decoded<Instruction> {
        match u8::decode(c) {
            Ok((byte, rest)) => match Opcode::spec_from_byte(byte) {
                Some(op) => if op.spec_takes_index() {
                    match u32::decode(rest) {
                        Ok((index, after)) => Ok((Instruction::spec_new(op, index), after)),
                        Err(e) => Err(e),
                    }
                } else {
                    Ok((Instruction::spec_new(op, 0), rest))
                },
                None => Err(c.fail(ErrorKindView::InvalidInstruction(byte))),
            },
            Err(e) => Err(e),
        }
    }

    proof fn lemma_decode_within(c: Cursor) {
        u8::lemma_decode_within(c);
        if let Ok((byte, rest)) = u8::decode(c) {
            u32::lemma_decode_within(rest);
            if let Ok((_, after)) = u32::decode(rest) {
                lemma_at_at(c, rest.pos, after.pos);
            }
        }
    }

    fn parse(parser: &mut Parser<'a>) -> (r: Result<Instruction, Error>) {
        let start = parser.clone();
        let byte = u8::parse(parser)?;
        proof {
            u8::lemma_decode_within(start@);
            u32::lemma_decode_within(parser@);
            lemma_at_at(start@, parser@.pos, parser@.pos);
        }
        match Opcode::from_byte(byte) {
            Some(op) => {
                if op.takes_index() {
                    let ghost rest = parser@;
                    let index = u32::parse(parser)?;
                    proof {
                        lemma_at_at(start@, rest.pos, parser@.pos);
                    }
                    Ok(Instruction::new(op, index))
                } else {
                    Ok(Instruction::new(op, 0))
                }
            },
            None => {
                *parser = start;
                Err(parser.error(ErrorKind::InvalidInstruction(byte)))
            },
        }
    }
}

/// Decoding what `encode` writes gives the instruction back, and the cursor
/// stops where those bytes end, whatever follows them.
pub proof fn lemma_decode_of_encoding(instr: Instruction, pos: nat, tail: Seq<u8>)
    ensures
        Instruction::decode(Cursor { bytes: instr.encoding() + tail, pos }) == Ok::<
            (Instruction, Cursor),
            ErrorView,
        >((instr, Cursor { bytes: tail, pos: pos + instr.encoding().len() })),
{
    let bytes = instr.encoding() + tail;
    let c = Cursor { bytes, pos };
    let rest = c.skip(1);
    assert(bytes[0] == instr.spec_opcode().spec_byte());
    match instr.spec_index() {
        Some(index) => {
            let spelt = uleb128_bytes(index as nat);
            assert(rest.bytes =~= spelt + tail);
            lemma_uleb128_of_bytes(index as nat, tail);
            lemma_uleb128_bytes_len_fixed(index as nat);
            assert(rest.bytes.skip(spelt.len() as int) =~= tail);
        },
        None => {
            assert(rest.bytes =~= tail);
        },
    }
}

/// Encoding what was decoded gives back the very bytes that were consumed,
/// where the index, if there is one, was spelt in its shortest form. (An index
/// padded with zero groups decodes too, and is written back without them.)
pub proof fn lemma_encoding_of_decoded(c: Cursor)
    requires
        Instruction::decode(c) matches Ok((instr, _)) && (instr.spec_index() is Some ==> shortest(
            c.bytes.skip(1),
        )),
    ensures
        Instruction::decode(c) matches Ok((instr, rest)) && instr.encoding() == c.bytes.take(
            rest.pos - c.pos,
        ),
{
    let (instr, rest) = Instruction::decode(c)->Ok_0;
    let tail = c.bytes.skip(1);
    match instr.spec_index() {
        Some(index) => {
            lemma_uleb128_len(tail);
            lemma_uleb128_bytes_of_shortest(tail);
            let n = rest.pos - c.pos - 1;
            assert(seq![c.bytes[0]] + tail.take(n) =~= c.bytes.take(n + 1));
        },
        None => {
            assert(seq![c.bytes[0]] =~= c.bytes.take(1));
        },
    }
}

} // verus!
