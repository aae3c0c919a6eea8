//! The attribute tree: named, length-prefixed, self-describing records
//! attached to the class, to each method, and to each code body.
//!
//! Every attribute record is `(name index, 4-byte length, payload)`.
//! Decoding consumes exactly `length` payload bytes whether or not the
//! attribute's internal structure is understood: an unknown name decodes
//! to an opaque raw-bytes variant, never a desynchronized skip and never
//! a fatal error. A known attribute whose payload does not account for
//! exactly its declared length fails with a length-mismatch error.

use crate::bytecode::{spec_disassemble, Instruction, InstructionView};
use crate::bytestream::{spec_read_n, spec_read_u2, spec_read_u4, ByteStream};
use crate::constantpool::{spec_resolve, ConstantPool, PoolEntryView};
use crate::errors::DecodeError;
use vstd::prelude::*;

verus! {

/// One row of a line-number table: a bytecode offset and the source
/// line it comes from.
#[derive(Debug, Clone, Copy, PartialEq, Eq, Structural)]
pub struct LineNumberTableEntry {
    pub start_pc: u16,
    pub line_number: u16,
}

impl View for LineNumberTableEntry {
    type V = LineNumberTableEntry;

    open spec fn view(&self) -> LineNumberTableEntry {
        *self
    }
}

impl DeepView for LineNumberTableEntry {
    type V = LineNumberTableEntry;

    open spec fn deep_view(&self) -> LineNumberTableEntry {
        *self
    }
}

/// One decoded attribute. Each variant owns exactly the fields
/// meaningful to it; names outside the known kinds decode to
/// [`Attr::Unknown`] with their raw payload.
#[derive(Debug)]
pub enum Attr {
    /// A code body: operand-stack and local-slot maxima, the raw code
    /// length, the disassembled instructions, and the nested attribute
    /// list that lives inside the code attribute.
    Code {
        max_stack: u16,
        max_locals: u16,
        code_length: u32,
        code: Vec<Instruction>,
        attrs: Vec<Attr>,
    },
    /// Ordered (bytecode offset, source line) pairs.
    LineNumberTable { table: Vec<LineNumberTableEntry> },
    /// The resolved source file name.
    SourceFile { file: String },
    /// An attribute whose name this decoder does not know: kept opaque,
    /// with its payload consumed byte-exactly.
    Unknown { name: String, data: Vec<u8> },
}

/// The mathematical shape of an attribute tree.
pub enum AttrView {
    Code {
        max_stack: u16,
        max_locals: u16,
        code_length: u32,
        code: Seq<InstructionView>,
        attrs: Seq<AttrView>,
    },
    LineNumberTable { table: Seq<LineNumberTableEntry> },
    SourceFile { file: Seq<char> },
    Unknown { name: Seq<char>, data: Seq<u8> },
}

/// The model of one attribute, nested attributes included.
pub open spec fn attr_view(a: Attr) -> AttrView
    decreases a, 1int,
{
    match a {
        Attr::Code { max_stack, max_locals, code_length, code, attrs } => AttrView::Code {
            max_stack,
            max_locals,
            code_length,
            code: code.deep_view(),
            attrs: attrs_seq_view(attrs@),
        },
        Attr::LineNumberTable { table } => AttrView::LineNumberTable { table: table.deep_view() },
        Attr::SourceFile { file } => AttrView::SourceFile { file: file@ },
        Attr::Unknown { name, data } => AttrView::Unknown { name: name@, data: data@ },
    }
}

/// The models of a sequence of attributes, in order.
pub open spec fn attrs_seq_view(s: Seq<Attr>) -> Seq<AttrView>
    decreases s, 0int,
{
    if s.len() == 0 {
        Seq::empty()
    } else {
        seq![attr_view(s[0])] + attrs_seq_view(s.drop_first())
    }
}

impl View for Attr {
    type V = AttrView;

    open spec fn view(&self) -> AttrView {
        attr_view(*self)
    }
}

impl DeepView for Attr {
    type V = AttrView;

    open spec fn deep_view(&self) -> AttrView {
        attr_view(*self)
    }
}

/// `attrs_seq_view` maps `attr_view` over the sequence: same length,
/// element by element.
pub proof fn lemma_attrs_seq_view(s: Seq<Attr>)
    ensures
        attrs_seq_view(s).len() == s.len(),
        forall|j: int| 0 <= j < s.len() ==> attrs_seq_view(s)[j] == attr_view(s[j]),
    decreases s.len(),
{
    if s.len() > 0 {
        lemma_attrs_seq_view(s.drop_first());
        assert forall|j: int| 0 <= j < s.len() implies attrs_seq_view(s)[j] == attr_view(s[j]) by {
            if j > 0 {
                assert(s.drop_first()[j - 1] == s[j]);
            }
        };
    }
}

/// Appending one attribute appends its model.
pub proof fn lemma_attrs_seq_view_push(s: Seq<Attr>, x: Attr)
    ensures
        attrs_seq_view(s.push(x)) == attrs_seq_view(s).push(attr_view(x)),
{
    lemma_attrs_seq_view(s);
    lemma_attrs_seq_view(s.push(x));
    assert(attrs_seq_view(s.push(x)) =~= attrs_seq_view(s).push(attr_view(x)));
}

/// What decoding `n` line-number rows at `pos` yields.
pub open spec fn spec_parse_lnt_entries(data: Seq<u8>, pos: int, n: nat) -> Result<
    (Seq<LineNumberTableEntry>, int),
    DecodeError,
>
    decreases n,
{
    if n == 0 {
        Ok((Seq::empty(), pos))
    } else {
        match spec_read_u2(data, pos) {
            Err(e) => Err(e),
            Ok((start_pc, p1)) => match spec_read_u2(data, p1) {
                Err(e) => Err(e),
                Ok((line_number, p2)) => match spec_parse_lnt_entries(data, p2, (n - 1) as nat) {
                    Err(e) => Err(e),
                    Ok((rest, p3)) => Ok(
                        (seq![LineNumberTableEntry { start_pc, line_number }] + rest, p3),
                    ),
                },
            },
        }
    }
}

/// What decoding a whole line-number-table payload yields: its row
/// count, then exactly that many rows, which must account for the whole
/// payload.
pub open spec fn spec_parse_lnt(payload: Seq<u8>) -> Result<Seq<LineNumberTableEntry>, DecodeError> {
    match spec_read_u2(payload, 0) {
        Err(e) => Err(e),
        Ok((n, p1)) => match spec_parse_lnt_entries(payload, p1, n as nat) {
            Err(e) => Err(e),
            Ok((table, p2)) => {
                if p2 == payload.len() {
                    Ok(table)
                } else {
                    Err(
                        DecodeError::AttributeLengthMismatch {
                            declared: payload.len() as usize,
                            consumed: p2 as usize,
                        },
                    )
                }
            },
        },
    }
}

/// What decoding a code-attribute payload yields: the stack and local
/// maxima, the disassembled code, the structurally consumed exception
/// table, and the nested attribute list, which together must account
/// for the whole payload.
pub open spec fn spec_parse_code_attr(payload: Seq<u8>, pool: Seq<PoolEntryView>) -> Result<
    AttrView,
    DecodeError,
>
    decreases payload.len(), 3int, 0int,
{
    match spec_read_u2(payload, 0) {
        Err(e) => Err(e),
        Ok((max_stack, p1)) => match spec_read_u2(payload, p1) {
            Err(e) => Err(e),
            Ok((max_locals, p2)) => match spec_read_u4(payload, p2) {
                Err(e) => Err(e),
                Ok((code_length, p3)) => match spec_read_n(payload, p3, code_length as usize) {
                    Err(e) => Err(e),
                    Ok((code_bytes, p4)) => match spec_disassemble(code_bytes, 0) {
                        Err(e) => Err(e),
                        Ok(code) => match spec_read_u2(payload, p4) {
                            Err(e) => Err(e),
                            Ok((exc_count, p5)) => match spec_read_n(
                                payload,
                                p5,
                                (exc_count * 8) as usize,
                            ) {
                                Err(e) => Err(e),
                                Ok((_exc, p6)) => match spec_parse_attr_list(payload, p6, pool) {
                                    Err(e) => Err(e),
                                    Ok((attrs, p7)) => {
                                        if p7 == payload.len() {
                                            Ok(
                                                AttrView::Code {
                                                    max_stack,
                                                    max_locals,
                                                    code_length,
                                                    code,
                                                    attrs,
                                                },
                                            )
                                        } else {
                                            Err(
                                                DecodeError::AttributeLengthMismatch {
                                                    declared: payload.len() as usize,
                                                    consumed: p7 as usize,
                                                },
                                            )
                                        }
                                    },
                                },
                            },
                        },
                    },
                },
            },
        },
    }
}

/// What decoding one attribute record at `pos` yields: its name index
/// resolved through the pool, its 4-byte length, and a payload of
/// exactly that many bytes, decoded by kind.
pub open spec fn spec_parse_attr(data: Seq<u8>, pos: int, pool: Seq<PoolEntryView>) -> Result<
    (AttrView, int),
    DecodeError,
>
    decreases data.len(), 0int, 0int,
{
    match spec_read_u2(data, pos) {
        Err(e) => Err(e),
        Ok((name_index, p1)) => match spec_resolve(pool, name_index as usize, pool.len()) {
            Err(e) => Err(e),
            Ok(name) => match spec_read_u4(data, p1) {
                Err(e) => Err(e),
                Ok((length, p2)) => match spec_read_n(data, p2, length as usize) {
                    Err(e) => Err(e),
                    Ok((payload, p3)) => {
                        if name == "Code"@ {
                            match spec_parse_code_attr(payload, pool) {
                                Err(e) => Err(e),
                                Ok(av) => Ok((av, p3)),
                            }
                        } else if name == "LineNumberTable"@ {
                            match spec_parse_lnt(payload) {
                                Err(e) => Err(e),
                                Ok(table) => Ok((AttrView::LineNumberTable { table }, p3)),
                            }
                        } else if name == "SourceFile"@ {
                            match spec_read_u2(payload, 0) {
                                Err(e) => Err(e),
                                Ok((file_index, q1)) => {
                                    if q1 != payload.len() {
                                        Err(
                                            DecodeError::AttributeLengthMismatch {
                                                declared: payload.len() as usize,
                                                consumed: q1 as usize,
                                            },
                                        )
                                    } else {
                                        match spec_resolve(pool, file_index as usize, pool.len()) {
                                            Err(e) => Err(e),
                                            Ok(file) => Ok((AttrView::SourceFile { file }, p3)),
                                        }
                                    }
                                },
                            }
                        } else {
                            Ok((AttrView::Unknown { name, data: payload }, p3))
                        }
                    },
                },
            },
        },
    }
}

/// What decoding `n` attribute records at `pos` yields, in order.
pub open spec fn spec_parse_attrs_n(
    data: Seq<u8>,
    pos: int,
    pool: Seq<PoolEntryView>,
    n: nat,
) -> Result<(Seq<AttrView>, int), DecodeError>
    decreases data.len(), 1int, n,
{
    if n == 0 {
        Ok((Seq::empty(), pos))
    } else {
        match spec_parse_attr(data, pos, pool) {
            Err(e) => Err(e),
            Ok((av, p1)) => match spec_parse_attrs_n(data, p1, pool, (n - 1) as nat) {
                Err(e) => Err(e),
                Ok((rest, p2)) => Ok((seq![av] + rest, p2)),
            },
        }
    }
}

/// What decoding a whole attribute list at `pos` yields: a 16-bit
/// attribute count, then exactly that many records.
pub open spec fn spec_parse_attr_list(data: Seq<u8>, pos: int, pool: Seq<PoolEntryView>) -> Result<
    (Seq<AttrView>, int),
    DecodeError,
>
    decreases data.len(), 2int, 0int,
{
    match spec_read_u2(data, pos) {
        Err(e) => Err(e),
        Ok((n, p1)) => spec_parse_attrs_n(data, p1, pool, n as nat),
    }
}

/// Decodes a line-number-table payload: its row count, then exactly
/// that many rows, which must account for the whole payload.
#[verifier::loop_isolation(false)]
fn parse_lnt_payload(payload: Vec<u8>) -> (r: Result<Vec<LineNumberTableEntry>, DecodeError>)
    ensures
        match r {
            Ok(table) => spec_parse_lnt(payload@) == Ok::<_, DecodeError>(table.deep_view()),
            Err(e) => spec_parse_lnt(payload@) == Err::<Seq<LineNumberTableEntry>, _>(e),
        },
{
    let ghost pv = payload@;
    let total_len = payload.len();
    let mut pb = ByteStream::new(payload);
    let count = match pb.parse_u2() {
        Ok(v) => v,
        Err(e) => return Err(e),
    };
    let ghost rows_start = pb.position();
    let mut table: Vec<LineNumberTableEntry> = Vec::new();
    let mut i: u16 = 0;
    while i < count
        invariant
            pb.wf(),
            pb.bytes() == pv,
            i <= count,
            spec_parse_lnt_entries(pv, rows_start, count as nat) == (match spec_parse_lnt_entries(
                pv,
                pb.position(),
                (count - i) as nat,
            ) {
                Ok((rest, p)) => Ok::<_, DecodeError>((table.deep_view() + rest, p)),
                Err(e) => Err::<(Seq<LineNumberTableEntry>, int), _>(e),
            }),
        decreases count - i,
    {
        let start_pc = match pb.parse_u2() {
            Ok(v) => v,
            Err(e) => return Err(e),
        };
        let line_number = match pb.parse_u2() {
            Ok(v) => v,
            Err(e) => return Err(e),
        };
        let ghost table_before = table.deep_view();
        let row = LineNumberTableEntry { start_pc, line_number };
        table.push(row);
        proof {
            assert(table.deep_view() =~= table_before.push(row));
            assert forall|rest: Seq<LineNumberTableEntry>| (table_before + (seq![row] + rest))
                =~= (table.deep_view() + rest) by {};
        }
        i = i + 1;
    }
    proof {
        assert(table.deep_view() + Seq::<LineNumberTableEntry>::empty() =~= table.deep_view());
    }
    if !pb.is_exhausted() {
        return Err(
            DecodeError::AttributeLengthMismatch { declared: total_len, consumed: pb.pos() },
        );
    }
    Ok(table)
}

/// Decodes a code-attribute payload: maxima, disassembled code, the
/// structurally consumed exception table, and the nested attribute
/// list.
fn parse_code_attr(payload: Vec<u8>, cp: &ConstantPool) -> (r: Result<Attr, DecodeError>)
    ensures
        match r {
            Ok(a) => spec_parse_code_attr(payload@, cp.entries()) == Ok::<_, DecodeError>(
                attr_view(a),
            ),
            Err(e) => spec_parse_code_attr(payload@, cp.entries()) == Err::<AttrView, _>(e),
        },
    decreases payload@.len(), 3int,
{
    let total_len = payload.len();
    let mut pb = ByteStream::new(payload);
    let max_stack = match pb.parse_u2() {
        Ok(v) => v,
        Err(e) => return Err(e),
    };
    let max_locals = match pb.parse_u2() {
        Ok(v) => v,
        Err(e) => return Err(e),
    };
    let code_length = match pb.parse_u4() {
        Ok(v) => v,
        Err(e) => return Err(e),
    };
    let code_bytes = match pb.parse_n(code_length as usize) {
        Ok(v) => v,
        Err(e) => return Err(e),
    };
    let code = match crate::bytecode::parse_byte_code(&code_bytes) {
        Ok(v) => v,
        Err(e) => return Err(e),
    };
    let exc_count = match pb.parse_u2() {
        Ok(v) => v,
        Err(e) => return Err(e),
    };
    let _exc = match pb.parse_n(exc_count as usize * 8) {
        Ok(v) => v,
        Err(e) => return Err(e),
    };
    let nested = match parse_attrs(&mut pb, cp) {
        Ok(v) => v,
        Err(e) => return Err(e),
    };
    if !pb.is_exhausted() {
        return Err(
            DecodeError::AttributeLengthMismatch { declared: total_len, consumed: pb.pos() },
        );
    }
    Ok(Attr::Code { max_stack, max_locals, code_length, code, attrs: nested })
}

/// Decodes one attribute record: name index resolved through the pool,
/// 4-byte length, and a payload of exactly that many bytes, decoded by
/// kind; an unknown name keeps its payload as raw bytes.
fn parse_one_attr(bytes: &mut ByteStream, cp: &ConstantPool) -> (r: Result<Attr, DecodeError>)
    requires
        old(bytes).wf(),
    ensures
        final(bytes).wf(),
        final(bytes).bytes() == old(bytes).bytes(),
        match r {
            Ok(a) => spec_parse_attr(old(bytes).bytes(), old(bytes).position(), cp.entries())
                == Ok::<_, DecodeError>((attr_view(a), final(bytes).position())),
            Err(e) => spec_parse_attr(old(bytes).bytes(), old(bytes).position(), cp.entries())
                == Err::<(AttrView, int), _>(e),
        },
    decreases old(bytes).remaining(), 0int,
{
    let name_index = match bytes.parse_u2() {
        Ok(v) => v,
        Err(e) => return Err(e),
    };
    let name = match cp.query(name_index as usize) {
        Ok(v) => v,
        Err(e) => return Err(e),
    };
    let length = match bytes.parse_u4() {
        Ok(v) => v,
        Err(e) => return Err(e),
    };
    let payload = match bytes.parse_n(length as usize) {
        Ok(v) => v,
        Err(e) => return Err(e),
    };
    if name == "Code".to_owned() {
        match parse_code_attr(payload, cp) {
            Ok(a) => Ok(a),
            Err(e) => Err(e),
        }
    } else if name == "LineNumberTable".to_owned() {
        match parse_lnt_payload(payload) {
            Ok(table) => Ok(Attr::LineNumberTable { table }),
            Err(e) => Err(e),
        }
    } else if name == "SourceFile".to_owned() {
        let mut pb = ByteStream::new(payload);
        let file_index = match pb.parse_u2() {
            Ok(v) => v,
            Err(e) => return Err(e),
        };
        if !pb.is_exhausted() {
            return Err(
                DecodeError::AttributeLengthMismatch {
                    declared: length as usize,
                    consumed: pb.pos(),
                },
            );
        }
        match cp.query(file_index as usize) {
            Ok(file) => Ok(Attr::SourceFile { file }),
            Err(e) => Err(e),
        }
    } else {
        Ok(Attr::Unknown { name, data: payload })
    }
}

/// Decodes a whole attribute list from the cursor: a 16-bit attribute
/// count, then exactly that many records, each consuming exactly its
/// declared payload length.
#[verifier::loop_isolation(false)]
pub fn parse_attrs(bytes: &mut ByteStream, constantpool: &ConstantPool) -> (r: Result<
    Vec<Attr>,
    DecodeError,
>)
    requires
        old(bytes).wf(),
    ensures
        final(bytes).wf(),
        final(bytes).bytes() == old(bytes).bytes(),
        match r {
            Ok(attrs) => spec_parse_attr_list(
                old(bytes).bytes(),
                old(bytes).position(),
                constantpool.entries(),
            ) == Ok::<_, DecodeError>((attrs_seq_view(attrs@), final(bytes).position())),
            Err(e) => spec_parse_attr_list(
                old(bytes).bytes(),
                old(bytes).position(),
                constantpool.entries(),
            ) == Err::<(Seq<AttrView>, int), _>(e),
        },
    decreases old(bytes).remaining(), 2int,
{
    let ghost data = bytes.bytes();
    let ghost pool = constantpool.entries();
    let count = match bytes.parse_u2() {
        Ok(v) => v,
        Err(e) => return Err(e),
    };
    let ghost records_start = bytes.position();
    let mut attrs: Vec<Attr> = Vec::new();
    let mut i: u16 = 0;
    while i < count
        invariant
            bytes.wf(),
            bytes.bytes() == data,
            i <= count,
            bytes.remaining() <= old(bytes).remaining() - 2,
            spec_parse_attrs_n(data, records_start, pool, count as nat) == (match spec_parse_attrs_n(
                data,
                bytes.position(),
                pool,
                (count - i) as nat,
            ) {
                Ok((rest, p)) => Ok::<_, DecodeError>((attrs_seq_view(attrs@) + rest, p)),
                Err(e) => Err::<(Seq<AttrView>, int), _>(e),
            }),
        decreases count - i,
    {
        let a = match parse_one_attr(bytes, constantpool) {
            Ok(v) => v,
            Err(e) => return Err(e),
        };
        let ghost av = attr_view(a);
        let ghost attrs_before = attrs@;
        attrs.push(a);
        proof {
            lemma_attrs_seq_view_push(attrs_before, attrs@[attrs@.len() - 1]);
            assert(attrs@ =~= attrs_before.push(attrs@[attrs@.len() - 1]));
            assert forall|rest: Seq<AttrView>| (attrs_seq_view(attrs_before) + (seq![av]
                + rest)) =~= (attrs_seq_view(attrs@) + rest) by {};
        }
        i = i + 1;
    }
    proof {
        assert(attrs_seq_view(attrs@) + Seq::<AttrView>::empty() =~= attrs_seq_view(attrs@));
    }
    Ok(attrs)
}

} // verus!
