//! Bytecode disassembly: decodes the raw code bytes of one code
//! attribute into an ordered sequence of instruction records, each the
//! opcode's mnemonic plus the operand bytes it consumed.
//!
//! Widths come from a per-opcode table, so adding an opcode is one table
//! row. An opcode outside the table fails the whole disassembly with a
//! typed error naming the byte and its offset — never a silent skip
//! that would desynchronize every later instruction — and a trailing
//! partial instruction fails likewise.

use crate::errors::DecodeError;
use vstd::prelude::*;

verus! {

pub const OP_ILOAD_0: u8 = 0x1a;
pub const OP_ILOAD_1: u8 = 0x1b;
pub const OP_ILOAD_2: u8 = 0x1c;
pub const OP_ISTORE_2: u8 = 0x3d;
pub const OP_IADD: u8 = 0x60;
pub const OP_IRETURN: u8 = 0xac;
pub const OP_ALOAD_0: u8 = 0x2a;
pub const OP_RETURN: u8 = 0xb1;
pub const OP_GETSTATIC: u8 = 0xb2;
pub const OP_LDC: u8 = 0x12;
pub const OP_INVOKESPECIAL: u8 = 0xb7;
pub const OP_INVOKEVIRTUAL: u8 = 0xb6;

/// One decoded instruction: the opcode byte, its mnemonic, and the
/// operand bytes it consumed, in stream order.
#[derive(Debug, Clone)]
pub struct Instruction {
    pub opcode: u8,
    pub mnemonic: String,
    pub operands: Vec<u8>,
}

/// The mathematical shape of an instruction record.
pub struct InstructionView {
    pub opcode: u8,
    pub mnemonic: Seq<char>,
    pub operands: Seq<u8>,
}

impl View for Instruction {
    type V = InstructionView;

    open spec fn view(&self) -> InstructionView {
        InstructionView { opcode: self.opcode, mnemonic: self.mnemonic@, operands: self.operands@ }
    }
}

impl DeepView for Instruction {
    type V = InstructionView;

    open spec fn deep_view(&self) -> InstructionView {
        self.view()
    }
}

/// The fixed operand width of a recognized opcode; none for an opcode
/// outside the table.
pub open spec fn spec_opcode_width(op: u8) -> Option<nat> {
    if op == OP_LDC {
        Option::Some(1nat)
    } else if op == OP_GETSTATIC || op == OP_INVOKEVIRTUAL || op == OP_INVOKESPECIAL {
        Option::Some(2nat)
    } else if op == OP_ILOAD_0 || op == OP_ILOAD_1 || op == OP_ILOAD_2 || op == OP_ISTORE_2 || op
        == OP_IADD || op == OP_IRETURN || op == OP_ALOAD_0 || op == OP_RETURN {
        Option::Some(0nat)
    } else {
        Option::None
    }
}

/// The mnemonic of a recognized opcode; empty for one outside the table.
pub open spec fn spec_mnemonic(op: u8) -> Seq<char> {
    if op == OP_LDC {
        "ldc"@
    } else if op == OP_GETSTATIC {
        "getstatic"@
    } else if op == OP_INVOKEVIRTUAL {
        "invokevirtual"@
    } else if op == OP_INVOKESPECIAL {
        "invokespecial"@
    } else if op == OP_ILOAD_0 {
        "iload_0"@
    } else if op == OP_ILOAD_1 {
        "iload_1"@
    } else if op == OP_ILOAD_2 {
        "iload_2"@
    } else if op == OP_ISTORE_2 {
        "istore_2"@
    } else if op == OP_IADD {
        "iadd"@
    } else if op == OP_IRETURN {
        "ireturn"@
    } else if op == OP_ALOAD_0 {
        "aload_0"@
    } else if op == OP_RETURN {
        "return"@
    } else {
        Seq::empty()
    }
}

/// The opcode table: a recognized opcode's mnemonic and operand width.
pub fn opcode_info(op: u8) -> (r: Option<(&'static str, usize)>)
    ensures
        match r {
            Some(p) => spec_opcode_width(op) == Option::Some(p.1 as nat) && p.0@ == spec_mnemonic(
                op,
            ),
            None => spec_opcode_width(op) is None,
        },
{
    if op == OP_LDC {
        Some(("ldc", 1))
    } else if op == OP_GETSTATIC {
        Some(("getstatic", 2))
    } else if op == OP_INVOKEVIRTUAL {
        Some(("invokevirtual", 2))
    } else if op == OP_INVOKESPECIAL {
        Some(("invokespecial", 2))
    } else if op == OP_ILOAD_0 {
        Some(("iload_0", 0))
    } else if op == OP_ILOAD_1 {
        Some(("iload_1", 0))
    } else if op == OP_ILOAD_2 {
        Some(("iload_2", 0))
    } else if op == OP_ISTORE_2 {
        Some(("istore_2", 0))
    } else if op == OP_IADD {
        Some(("iadd", 0))
    } else if op == OP_IRETURN {
        Some(("ireturn", 0))
    } else if op == OP_ALOAD_0 {
        Some(("aload_0", 0))
    } else if op == OP_RETURN {
        Some(("return", 0))
    } else {
        None
    }
}

/// What disassembling `code` from `pos` to the end yields: the
/// instruction records in order, or the error that stops the decode.
/// Offsets in errors are relative to the start of the code region.
pub open spec fn spec_disassemble(code: Seq<u8>, pos: int) -> Result<
    Seq<InstructionView>,
    DecodeError,
>
    decreases code.len() - pos,
{
    if pos >= code.len() {
        Ok(Seq::empty())
    } else {
        let op = code[pos];
        match spec_opcode_width(op) {
            Option::None => Err(DecodeError::UnknownOpcode { opcode: op, offset: pos as usize }),
            Option::Some(w) => {
                if pos + 1 + w > code.len() {
                    Err(DecodeError::TruncatedInstruction { opcode: op, offset: pos as usize })
                } else {
                    match spec_disassemble(code, pos + 1 + w) {
                        Err(e) => Err(e),
                        Ok(rest) => Ok(
                            seq![
                                InstructionView {
                                    opcode: op,
                                    mnemonic: spec_mnemonic(op),
                                    operands: code.subrange(pos + 1, pos + 1 + w),
                                },
                            ] + rest,
                        ),
                    }
                }
            },
        }
    }
}

/// Disassembles the raw code bytes of one code attribute, covering the
/// whole region or failing; the outcome is exactly [`spec_disassemble`]
/// from offset zero.
#[verifier::loop_isolation(false)]
pub fn parse_byte_code(code: &Vec<u8>) -> (r: Result<Vec<Instruction>, DecodeError>)
    ensures
        match r {
            Ok(v) => spec_disassemble(code@, 0) == Ok::<_, DecodeError>(v.deep_view()),
            Err(e) => spec_disassemble(code@, 0) == Err::<Seq<InstructionView>, _>(e),
        },
{
    let n = code.len();
    let mut out: Vec<Instruction> = Vec::new();
    let mut pos: usize = 0;
    while pos < n
        invariant
            pos <= n,
            spec_disassemble(code@, 0) == (match spec_disassemble(code@, pos as int) {
                Ok(rest) => Ok::<_, DecodeError>(out.deep_view() + rest),
                Err(e) => Err::<Seq<InstructionView>, _>(e),
            }),
        decreases n - pos,
    {
        let op = code[pos];
        match opcode_info(op) {
            None => {
                return Err(DecodeError::UnknownOpcode { opcode: op, offset: pos });
            },
            Some((mnemonic, w)) => {
                if w > n - (pos + 1) {
                    return Err(DecodeError::TruncatedInstruction { opcode: op, offset: pos });
                }
                let mut operands: Vec<u8> = Vec::new();
                let mut i: usize = 0;
                while i < w
                    invariant
                        i <= w,
                        w <= n - (pos + 1),
                        operands@ =~= code@.subrange(pos + 1, pos + 1 + i),
                    decreases w - i,
                {
                    operands.push(code[pos + 1 + i]);
                    i = i + 1;
                }
                let ghost out_before = out.deep_view();
                let ghost iv = InstructionView {
                    opcode: op,
                    mnemonic: spec_mnemonic(op),
                    operands: code@.subrange(pos + 1, pos + 1 + w),
                };
                out.push(Instruction { opcode: op, mnemonic: mnemonic.to_owned(), operands });
                proof {
                    assert(out.deep_view() =~= out_before.push(iv));
                    assert forall|rest: Seq<InstructionView>| (out_before + (seq![iv] + rest))
                        =~= (out.deep_view() + rest) by {};
                }
                pos = pos + 1 + w;
            },
        }
    }
    proof {
        assert(out.deep_view() + Seq::<InstructionView>::empty() =~= out.deep_view());
    }
    Ok(out)
}

/// The encoded size of one instruction record: the opcode byte plus its
/// operands.
pub open spec fn spec_instruction_size(i: InstructionView) -> nat {
    1 + i.operands.len()
}

/// The encoded size of an instruction sequence.
pub open spec fn spec_code_size(s: Seq<InstructionView>) -> nat
    decreases s.len(),
{
    if s.len() == 0 {
        0
    } else {
        spec_instruction_size(s[0]) + spec_code_size(s.drop_first())
    }
}

/// Appending one record adds its size.
pub proof fn lemma_code_size_push(s: Seq<InstructionView>, x: InstructionView)
    ensures
        spec_code_size(s.push(x)) == spec_code_size(s) + spec_instruction_size(x),
    decreases s.len(),
{
    if s.len() == 0 {
        assert(s.push(x)[0] == x);
        assert(s.push(x).drop_first() =~= Seq::<InstructionView>::empty());
        assert(spec_code_size(s) == 0);
        assert(spec_code_size(s.push(x).drop_first()) == 0);
        assert(spec_code_size(s.push(x)) == spec_instruction_size(x) + spec_code_size(
            s.push(x).drop_first(),
        ));
    } else {
        assert(s.push(x)[0] == s[0]);
        assert(s.push(x).drop_first() =~= s.drop_first().push(x));
        lemma_code_size_push(s.drop_first(), x);
    }
}

/// Whatever a disassembly decodes re-encodes to exactly the bytes it
/// consumed: the summed instruction sizes equal the region's length.
/// Re-encoding a decoded code body therefore reproduces the declared
/// code length.
pub proof fn lemma_disassemble_size(code: Seq<u8>, pos: int)
    requires
        0 <= pos <= code.len(),
        spec_disassemble(code, pos) is Ok,
    ensures
        spec_code_size(spec_disassemble(code, pos)->Ok_0) == code.len() - pos,
    decreases code.len() - pos,
{
    if pos < code.len() {
        let op = code[pos];
        match spec_opcode_width(op) {
            Option::None => {},
            Option::Some(w) => {
                lemma_disassemble_size(code, pos + 1 + w);
                let rest = spec_disassemble(code, pos + 1 + w)->Ok_0;
                let iv = InstructionView {
                    opcode: op,
                    mnemonic: spec_mnemonic(op),
                    operands: code.subrange(pos + 1, pos + 1 + w),
                };
                assert((seq![iv] + rest).drop_first() =~= rest);
            },
        }
    }
}

/// The number of bytes the given instruction records re-encode to.
#[verifier::loop_isolation(false)]
pub fn encoded_length(instrs: &Vec<Instruction>) -> (n: usize)
    requires
        spec_code_size(instrs.deep_view()) <= usize::MAX,
    ensures
        n == spec_code_size(instrs.deep_view()),
{
    let mut total: usize = 0;
    let mut i: usize = 0;
    let count = instrs.len();
    while i < count
        invariant
            i <= count,
            total == spec_code_size(instrs.deep_view().take(i as int)),
        decreases count - i,
    {
        proof {
            assert(instrs.deep_view().take(i + 1) =~= instrs.deep_view().take(i as int).push(
                instrs.deep_view()[i as int],
            ));
            lemma_code_size_push(instrs.deep_view().take(i as int), instrs.deep_view()[i as int]);
            lemma_code_size_take_bound(instrs.deep_view(), i + 1);
        }
        total = total + 1 + instrs[i].operands.len();
        i = i + 1;
    }
    proof {
        assert(instrs.deep_view().take(count as int) =~= instrs.deep_view());
    }
    total
}

/// A prefix never re-encodes to more bytes than the whole.
pub proof fn lemma_code_size_take_bound(s: Seq<InstructionView>, k: int)
    requires
        0 <= k <= s.len(),
    ensures
        spec_code_size(s.take(k)) <= spec_code_size(s),
    decreases s.len() - k,
{
    if k < s.len() {
        assert(s.take(k + 1) =~= s.take(k).push(s[k]));
        lemma_code_size_push(s.take(k), s[k]);
        lemma_code_size_take_bound(s, k + 1);
        assert(s.take(s.len() as int) =~= s);
    } else {
        assert(s.take(k) =~= s);
    }
}

} // verus!
