//! The constant pool: the tag-discriminated constant table that every
//! later section of the class file references by 1-based index.
//!
//! A declared count `C` announces `C - 1` index slots. Long and double
//! constants occupy two consecutive slots; this decoder materializes the
//! second slot as an explicit [`ConstantPoolInfo::Unusable`] entry, so
//! that entry `i` (1-based) is always `info[i - 1]` and index arithmetic
//! stays uniform.
//!
//! Resolution follows each entry's first stored index until it reaches a
//! UTF-8 text entry. The walk is bounded by the pool size, so a cyclic
//! or self-referential chain fails with a typed error instead of
//! recursing forever.

use crate::bytestream::{spec_read_n, spec_read_u1, spec_read_u2, spec_read_u4, ByteStream};
use crate::errors::{DecodeError, PoolError};
use vstd::prelude::*;

verus! {

pub const CONSTANT_UTF8: u8 = 1;
pub const CONSTANT_INTEGER: u8 = 3;
pub const CONSTANT_FLOAT: u8 = 4;
pub const CONSTANT_LONG: u8 = 5;
pub const CONSTANT_DOUBLE: u8 = 6;
pub const CONSTANT_CLASS: u8 = 7;
pub const CONSTANT_STRING: u8 = 8;
pub const CONSTANT_FIELDREF: u8 = 9;
pub const CONSTANT_METHODREF: u8 = 10;
pub const CONSTANT_INTERFACEMETHODREF: u8 = 11;
pub const CONSTANT_NAMEANDTYPE: u8 = 12;
pub const CONSTANT_METHODHANDLE: u8 = 15;
pub const CONSTANT_METHODTYPE: u8 = 16;
pub const CONSTANT_INVOKEDYNAMIC: u8 = 18;

/// One decoded constant pool entry. Non-text entries hold 1-based
/// indices into the same pool; the UTF-8 entry holds its decoded text
/// directly. Float and double payloads are kept as their raw big-endian
/// words, since this decoder never does arithmetic on them.
#[derive(Debug, Clone)]
pub enum ConstantPoolInfo {
    Utf8 { text: String },
    Integer { value: u32 },
    Float { bits: u32 },
    Long { high_bytes: u32, low_bytes: u32 },
    Double { high_bits: u32, low_bits: u32 },
    Class { name_index: u16 },
    StringRef { string_index: u16 },
    FieldRef { class_index: u16, name_and_type_index: u16 },
    MethodRef { class_index: u16, name_and_type_index: u16 },
    InterfaceMethodRef { class_index: u16, name_and_type_index: u16 },
    NameAndType { name_index: u16, descriptor_index: u16 },
    MethodHandle { reference_kind: u8, reference_index: u16 },
    MethodType { descriptor_index: u16 },
    InvokeDynamic { bootstrap_method_attr_index: u16, name_and_type_index: u16 },
    /// The second slot of a long or double constant; it can never be
    /// referenced meaningfully.
    Unusable,
}

/// The mathematical shape of a pool entry: as [`ConstantPoolInfo`], with
/// text as a character sequence.
pub enum PoolEntryView {
    Utf8 { text: Seq<char> },
    Integer { value: u32 },
    Float { bits: u32 },
    Long { high_bytes: u32, low_bytes: u32 },
    Double { high_bits: u32, low_bits: u32 },
    Class { name_index: u16 },
    StringRef { string_index: u16 },
    FieldRef { class_index: u16, name_and_type_index: u16 },
    MethodRef { class_index: u16, name_and_type_index: u16 },
    InterfaceMethodRef { class_index: u16, name_and_type_index: u16 },
    NameAndType { name_index: u16, descriptor_index: u16 },
    MethodHandle { reference_kind: u8, reference_index: u16 },
    MethodType { descriptor_index: u16 },
    InvokeDynamic { bootstrap_method_attr_index: u16, name_and_type_index: u16 },
    Unusable,
}

impl View for ConstantPoolInfo {
    type V = PoolEntryView;

    open spec fn view(&self) -> PoolEntryView {
        match *self {
            ConstantPoolInfo::Utf8 { ref text } => PoolEntryView::Utf8 { text: text@ },
            ConstantPoolInfo::Integer { value } => PoolEntryView::Integer { value },
            ConstantPoolInfo::Float { bits } => PoolEntryView::Float { bits },
            ConstantPoolInfo::Long { high_bytes, low_bytes } => PoolEntryView::Long {
                high_bytes,
                low_bytes,
            },
            ConstantPoolInfo::Double { high_bits, low_bits } => PoolEntryView::Double {
                high_bits,
                low_bits,
            },
            ConstantPoolInfo::Class { name_index } => PoolEntryView::Class { name_index },
            ConstantPoolInfo::StringRef { string_index } => PoolEntryView::StringRef {
                string_index,
            },
            ConstantPoolInfo::FieldRef { class_index, name_and_type_index } => PoolEntryView::FieldRef {
                class_index,
                name_and_type_index,
            },
            ConstantPoolInfo::MethodRef { class_index, name_and_type_index } => PoolEntryView::MethodRef {
                class_index,
                name_and_type_index,
            },
            ConstantPoolInfo::InterfaceMethodRef {
                class_index,
                name_and_type_index,
            } => PoolEntryView::InterfaceMethodRef { class_index, name_and_type_index },
            ConstantPoolInfo::NameAndType { name_index, descriptor_index } => PoolEntryView::NameAndType {
                name_index,
                descriptor_index,
            },
            ConstantPoolInfo::MethodHandle { reference_kind, reference_index } => PoolEntryView::MethodHandle {
                reference_kind,
                reference_index,
            },
            ConstantPoolInfo::MethodType { descriptor_index } => PoolEntryView::MethodType {
                descriptor_index,
            },
            ConstantPoolInfo::InvokeDynamic {
                bootstrap_method_attr_index,
                name_and_type_index,
            } => PoolEntryView::InvokeDynamic { bootstrap_method_attr_index, name_and_type_index },
            ConstantPoolInfo::Unusable => PoolEntryView::Unusable,
        }
    }
}

impl DeepView for ConstantPoolInfo {
    type V = PoolEntryView;

    open spec fn deep_view(&self) -> PoolEntryView {
        self.view()
    }
}

/// The first stored index of an indirect entry: the index that the
/// resolution walk follows next. Entries that hold no index (text and
/// numeric constants, and the unusable slot) have none.
pub open spec fn spec_first_index(e: PoolEntryView) -> Option<u16> {
    match e {
        PoolEntryView::Utf8 { .. } => Option::None,
        PoolEntryView::Integer { .. } => Option::None,
        PoolEntryView::Float { .. } => Option::None,
        PoolEntryView::Long { .. } => Option::None,
        PoolEntryView::Double { .. } => Option::None,
        PoolEntryView::Class { name_index } => Option::Some(name_index),
        PoolEntryView::StringRef { string_index } => Option::Some(string_index),
        PoolEntryView::FieldRef { class_index, .. } => Option::Some(class_index),
        PoolEntryView::MethodRef { class_index, .. } => Option::Some(class_index),
        PoolEntryView::InterfaceMethodRef { class_index, .. } => Option::Some(class_index),
        PoolEntryView::NameAndType { name_index, .. } => Option::Some(name_index),
        PoolEntryView::MethodHandle { reference_index, .. } => Option::Some(reference_index),
        PoolEntryView::MethodType { descriptor_index } => Option::Some(descriptor_index),
        PoolEntryView::InvokeDynamic { bootstrap_method_attr_index, .. } => Option::Some(
            bootstrap_method_attr_index,
        ),
        PoolEntryView::Unusable => Option::None,
    }
}

/// What resolving `index` against `entries` yields when at most `fuel`
/// indirections may be followed: the text of the UTF-8 entry the walk
/// reaches, or the error that stops it.
pub open spec fn spec_resolve(
    entries: Seq<PoolEntryView>,
    index: usize,
    fuel: nat,
) -> Result<Seq<char>, DecodeError>
    decreases fuel,
{
    if index == 0 || index > entries.len() {
        Err(
            DecodeError::MalformedPool {
                err: PoolError::IndexOutOfRange { index, limit: entries.len() as usize },
            },
        )
    } else {
        match entries[index - 1] {
            PoolEntryView::Utf8 { text } => Ok(text),
            e => match spec_first_index(e) {
                Option::None => Err(DecodeError::MalformedPool { err: PoolError::NotText { index } }),
                Option::Some(j) => if fuel == 0 {
                    Err(DecodeError::MalformedPool { err: PoolError::CyclicReference { index } })
                } else {
                    spec_resolve(entries, j as usize, (fuel - 1) as nat)
                },
            },
        }
    }
}

/// The ordered pool entries plus the original declared count.
#[derive(Debug, Clone)]
pub struct ConstantPool {
    pub count: usize,
    pub info: Vec<ConstantPoolInfo>,
}

impl ConstantPool {
    /// The pool as a sequence of entry models.
    pub open spec fn entries(&self) -> Seq<PoolEntryView> {
        self.info.deep_view()
    }

    /// The declared count is always the number of decoded slots plus
    /// one; the format reserves index zero and carries the count in 16
    /// bits.
    pub open spec fn wf(&self) -> bool {
        self.count == self.entries().len() + 1 && self.count <= 0xFFFF
    }

    /// The first stored index of an entry, as [`spec_first_index`].
    pub fn first_index(e: &ConstantPoolInfo) -> (r: Option<u16>)
        ensures
            r == spec_first_index(e@),
    {
        match *e {
            ConstantPoolInfo::Utf8 { .. } => Option::None,
            ConstantPoolInfo::Integer { .. } => Option::None,
            ConstantPoolInfo::Float { .. } => Option::None,
            ConstantPoolInfo::Long { .. } => Option::None,
            ConstantPoolInfo::Double { .. } => Option::None,
            ConstantPoolInfo::Class { name_index } => Option::Some(name_index),
            ConstantPoolInfo::StringRef { string_index } => Option::Some(string_index),
            ConstantPoolInfo::FieldRef { class_index, .. } => Option::Some(class_index),
            ConstantPoolInfo::MethodRef { class_index, .. } => Option::Some(class_index),
            ConstantPoolInfo::InterfaceMethodRef { class_index, .. } => Option::Some(class_index),
            ConstantPoolInfo::NameAndType { name_index, .. } => Option::Some(name_index),
            ConstantPoolInfo::MethodHandle { reference_index, .. } => Option::Some(reference_index),
            ConstantPoolInfo::MethodType { descriptor_index } => Option::Some(descriptor_index),
            ConstantPoolInfo::InvokeDynamic { bootstrap_method_attr_index, .. } => Option::Some(
                bootstrap_method_attr_index,
            ),
            ConstantPoolInfo::Unusable => Option::None,
        }
    }

    /// Resolves a 1-based index to text, following indirection through
    /// the pool. The walk is bounded by the pool size, so it always
    /// terminates; its outcome is exactly [`spec_resolve`] at full fuel.
    pub fn query(&self, index: usize) -> (r: Result<String, DecodeError>)
        ensures
            match r {
                Ok(t) => spec_resolve(self.entries(), index, self.entries().len()) == Ok::<
                    Seq<char>,
                    DecodeError,
                >(t@),
                Err(e) => spec_resolve(self.entries(), index, self.entries().len()) == Err::<
                    Seq<char>,
                    DecodeError,
                >(e),
            },
    {
        let ghost entries = self.entries();
        let n = self.info.len();
        let mut cur = index;
        let mut fuel = n;
        loop
            invariant
                entries == self.entries(),
                n == entries.len(),
                fuel <= n,
                spec_resolve(entries, index, n as nat) == spec_resolve(entries, cur, fuel as nat),
            decreases fuel,
        {
            if cur == 0 || cur > n {
                return Err(
                    DecodeError::MalformedPool {
                        err: PoolError::IndexOutOfRange { index: cur, limit: n },
                    },
                );
            }
            proof {
                assert(entries[cur - 1] == self.info[cur - 1]@);
            }
            match &self.info[cur - 1] {
                ConstantPoolInfo::Utf8 { text } => {
                    return Ok(text.clone());
                },
                e => {
                    match Self::first_index(e) {
                        Option::None => {
                            return Err(
                                DecodeError::MalformedPool { err: PoolError::NotText { index: cur } },
                            );
                        },
                        Option::Some(j) => {
                            if fuel == 0 {
                                return Err(
                                    DecodeError::MalformedPool {
                                        err: PoolError::CyclicReference { index: cur },
                                    },
                                );
                            }
                            cur = j as usize;
                            fuel = fuel - 1;
                        },
                    }
                },
            }
        }
    }
}

/// Relies on String::from_utf8: it returns the decoded text exactly when
/// the bytes are valid UTF-8, and refuses them otherwise.
#[verifier::external_body]
fn string_from_utf8(bytes: Vec<u8>) -> (r: Option<String>)
    ensures
        r is Some <==> vstd::utf8::valid_utf8(bytes@),
        r matches Some(s) ==> s@ == vstd::utf8::decode_utf8(bytes@),
{
    match String::from_utf8(bytes) {
        Ok(s) => Some(s),
        Err(_) => None,
    }
}

/// What decoding one pool entry at `pos` yields: the entry's model and
/// the position just past it, or the error that stops the decode.
pub open spec fn spec_parse_entry(data: Seq<u8>, pos: int) -> Result<
    (PoolEntryView, int),
    DecodeError,
> {
    match spec_read_u1(data, pos) {
        Err(e) => Err(e),
        Ok((tag, p1)) => {
            if tag == CONSTANT_UTF8 {
                match spec_read_u2(data, p1) {
                    Err(e) => Err(e),
                    Ok((length, p2)) => match spec_read_n(data, p2, length as usize) {
                        Err(e) => Err(e),
                        Ok((payload, p3)) => {
                            if vstd::utf8::valid_utf8(payload) {
                                Ok((PoolEntryView::Utf8 { text: vstd::utf8::decode_utf8(payload) }, p3))
                            } else {
                                Err(
                                    DecodeError::MalformedPool {
                                        err: PoolError::InvalidUtf8 { offset: p2 as usize },
                                    },
                                )
                            }
                        },
                    },
                }
            } else if tag == CONSTANT_INTEGER {
                match spec_read_u4(data, p1) {
                    Err(e) => Err(e),
                    Ok((v, p2)) => Ok((PoolEntryView::Integer { value: v }, p2)),
                }
            } else if tag == CONSTANT_FLOAT {
                match spec_read_u4(data, p1) {
                    Err(e) => Err(e),
                    Ok((v, p2)) => Ok((PoolEntryView::Float { bits: v }, p2)),
                }
            } else if tag == CONSTANT_LONG {
                match spec_read_u4(data, p1) {
                    Err(e) => Err(e),
                    Ok((hi, p2)) => match spec_read_u4(data, p2) {
                        Err(e) => Err(e),
                        Ok((lo, p3)) => Ok(
                            (PoolEntryView::Long { high_bytes: hi, low_bytes: lo }, p3),
                        ),
                    },
                }
            } else if tag == CONSTANT_DOUBLE {
                match spec_read_u4(data, p1) {
                    Err(e) => Err(e),
                    Ok((hi, p2)) => match spec_read_u4(data, p2) {
                        Err(e) => Err(e),
                        Ok((lo, p3)) => Ok(
                            (PoolEntryView::Double { high_bits: hi, low_bits: lo }, p3),
                        ),
                    },
                }
            } else if tag == CONSTANT_CLASS {
                match spec_read_u2(data, p1) {
                    Err(e) => Err(e),
                    Ok((i, p2)) => Ok((PoolEntryView::Class { name_index: i }, p2)),
                }
            } else if tag == CONSTANT_STRING {
                match spec_read_u2(data, p1) {
                    Err(e) => Err(e),
                    Ok((i, p2)) => Ok((PoolEntryView::StringRef { string_index: i }, p2)),
                }
            } else if tag == CONSTANT_FIELDREF {
                match spec_read_u2(data, p1) {
                    Err(e) => Err(e),
                    Ok((c, p2)) => match spec_read_u2(data, p2) {
                        Err(e) => Err(e),
                        Ok((n, p3)) => Ok(
                            (PoolEntryView::FieldRef { class_index: c, name_and_type_index: n }, p3),
                        ),
                    },
                }
            } else if tag == CONSTANT_METHODREF {
                match spec_read_u2(data, p1) {
                    Err(e) => Err(e),
                    Ok((c, p2)) => match spec_read_u2(data, p2) {
                        Err(e) => Err(e),
                        Ok((n, p3)) => Ok(
                            (PoolEntryView::MethodRef { class_index: c, name_and_type_index: n }, p3),
                        ),
                    },
                }
            } else if tag == CONSTANT_INTERFACEMETHODREF {
                match spec_read_u2(data, p1) {
                    Err(e) => Err(e),
                    Ok((c, p2)) => match spec_read_u2(data, p2) {
                        Err(e) => Err(e),
                        Ok((n, p3)) => Ok(
                            (
                                PoolEntryView::InterfaceMethodRef {
                                    class_index: c,
                                    name_and_type_index: n,
                                },
                                p3,
                            ),
                        ),
                    },
                }
            } else if tag == CONSTANT_NAMEANDTYPE {
                match spec_read_u2(data, p1) {
                    Err(e) => Err(e),
                    Ok((n, p2)) => match spec_read_u2(data, p2) {
                        Err(e) => Err(e),
                        Ok((d, p3)) => Ok(
                            (PoolEntryView::NameAndType { name_index: n, descriptor_index: d }, p3),
                        ),
                    },
                }
            } else if tag == CONSTANT_METHODHANDLE {
                match spec_read_u1(data, p1) {
                    Err(e) => Err(e),
                    Ok((k, p2)) => match spec_read_u2(data, p2) {
                        Err(e) => Err(e),
                        Ok((i, p3)) => Ok(
                            (
                                PoolEntryView::MethodHandle {
                                    reference_kind: k,
                                    reference_index: i,
                                },
                                p3,
                            ),
                        ),
                    },
                }
            } else if tag == CONSTANT_METHODTYPE {
                match spec_read_u2(data, p1) {
                    Err(e) => Err(e),
                    Ok((d, p2)) => Ok((PoolEntryView::MethodType { descriptor_index: d }, p2)),
                }
            } else if tag == CONSTANT_INVOKEDYNAMIC {
                match spec_read_u2(data, p1) {
                    Err(e) => Err(e),
                    Ok((b, p2)) => match spec_read_u2(data, p2) {
                        Err(e) => Err(e),
                        Ok((n, p3)) => Ok(
                            (
                                PoolEntryView::InvokeDynamic {
                                    bootstrap_method_attr_index: b,
                                    name_and_type_index: n,
                                },
                                p3,
                            ),
                        ),
                    },
                }
            } else {
                Err(
                    DecodeError::MalformedPool {
                        err: PoolError::UnknownTag { tag, offset: pos as usize },
                    },
                )
            }
        },
    }
}

/// How many index slots an entry occupies: two for the wide (long and
/// double) constants, one otherwise.
pub open spec fn spec_entry_slots(e: PoolEntryView) -> nat {
    if e is Long || e is Double {
        2
    } else {
        1
    }
}

/// What decoding `slots` remaining index slots at `pos` yields: the
/// entry models in order, each wide entry followed by its unusable
/// second slot, and the position just past them.
pub open spec fn spec_parse_entries(data: Seq<u8>, pos: int, slots: nat) -> Result<
    (Seq<PoolEntryView>, int),
    DecodeError,
>
    decreases slots,
{
    if slots == 0 {
        Ok((Seq::empty(), pos))
    } else {
        match spec_parse_entry(data, pos) {
            Err(e) => Err(e),
            Ok((entry, p1)) => {
                let w = spec_entry_slots(entry);
                if w > slots {
                    Err(
                        DecodeError::MalformedPool {
                            err: PoolError::WideEntryOverrun { offset: pos as usize },
                        },
                    )
                } else {
                    match spec_parse_entries(data, p1, (slots - w) as nat) {
                        Err(e) => Err(e),
                        Ok((rest, p2)) => {
                            let here = if w == 2 {
                                seq![entry, PoolEntryView::Unusable]
                            } else {
                                seq![entry]
                            };
                            Ok((here + rest, p2))
                        },
                    }
                }
            },
        }
    }
}

/// What decoding the whole pool at `pos` yields: the declared count,
/// the entry models, and the position just past the pool. A declared
/// count of zero is a format violation, not an empty pool.
pub open spec fn spec_parse_pool(data: Seq<u8>, pos: int) -> Result<
    (u16, Seq<PoolEntryView>, int),
    DecodeError,
> {
    match spec_read_u2(data, pos) {
        Err(e) => Err(e),
        Ok((count, p1)) => {
            if count == 0 {
                Err(DecodeError::MalformedPool { err: PoolError::InvalidCount })
            } else {
                match spec_parse_entries(data, p1, (count - 1) as nat) {
                    Err(e) => Err(e),
                    Ok((entries, p2)) => Ok((count, entries, p2)),
                }
            }
        },
    }
}

/// A successful entry-sequence decode yields exactly one entry model
/// per index slot.
pub proof fn lemma_parse_entries_len(data: Seq<u8>, pos: int, slots: nat)
    requires
        spec_parse_entries(data, pos, slots) is Ok,
    ensures
        spec_parse_entries(data, pos, slots)->Ok_0.0.len() == slots,
    decreases slots,
{
    if slots > 0 {
        match spec_parse_entry(data, pos) {
            Err(_) => {},
            Ok((entry, p1)) => {
                let w = spec_entry_slots(entry);
                if w <= slots {
                    lemma_parse_entries_len(data, p1, (slots - w) as nat);
                }
            },
        }
    }
}

impl ConstantPool {
    /// Decodes one entry from the cursor, tag byte first.
    fn parse_entry(bytes: &mut ByteStream) -> (r: Result<ConstantPoolInfo, DecodeError>)
        requires
            old(bytes).wf(),
        ensures
            final(bytes).wf(),
            final(bytes).bytes() == old(bytes).bytes(),
            match r {
                Ok(entry) => spec_parse_entry(old(bytes).bytes(), old(bytes).position()) == Ok::<
                    _,
                    DecodeError,
                >((entry@, final(bytes).position())),
                Err(e) => spec_parse_entry(old(bytes).bytes(), old(bytes).position()) == Err::<
                    (PoolEntryView, int),
                    _,
                >(e),
            },
    {
        let tag_offset = bytes.pos();
        let tag = match bytes.parse_u1() {
            Ok(t) => t,
            Err(e) => return Err(e),
        };
        if tag == CONSTANT_UTF8 {
            let length = match bytes.parse_u2() {
                Ok(l) => l,
                Err(e) => return Err(e),
            };
            let payload_offset = bytes.pos();
            let payload = match bytes.parse_n(length as usize) {
                Ok(p) => p,
                Err(e) => return Err(e),
            };
            match string_from_utf8(payload) {
                Some(text) => Ok(ConstantPoolInfo::Utf8 { text }),
                None => Err(
                    DecodeError::MalformedPool {
                        err: PoolError::InvalidUtf8 { offset: payload_offset },
                    },
                ),
            }
        } else if tag == CONSTANT_INTEGER {
            match bytes.parse_u4() {
                Ok(v) => Ok(ConstantPoolInfo::Integer { value: v }),
                Err(e) => Err(e),
            }
        } else if tag == CONSTANT_FLOAT {
            match bytes.parse_u4() {
                Ok(v) => Ok(ConstantPoolInfo::Float { bits: v }),
                Err(e) => Err(e),
            }
        } else if tag == CONSTANT_LONG {
            let hi = match bytes.parse_u4() {
                Ok(v) => v,
                Err(e) => return Err(e),
            };
            match bytes.parse_u4() {
                Ok(lo) => Ok(ConstantPoolInfo::Long { high_bytes: hi, low_bytes: lo }),
                Err(e) => Err(e),
            }
        } else if tag == CONSTANT_DOUBLE {
            let hi = match bytes.parse_u4() {
                Ok(v) => v,
                Err(e) => return Err(e),
            };
            match bytes.parse_u4() {
                Ok(lo) => Ok(ConstantPoolInfo::Double { high_bits: hi, low_bits: lo }),
                Err(e) => Err(e),
            }
        } else if tag == CONSTANT_CLASS {
            match bytes.parse_u2() {
                Ok(i) => Ok(ConstantPoolInfo::Class { name_index: i }),
                Err(e) => Err(e),
            }
        } else if tag == CONSTANT_STRING {
            match bytes.parse_u2() {
                Ok(i) => Ok(ConstantPoolInfo::StringRef { string_index: i }),
                Err(e) => Err(e),
            }
        } else if tag == CONSTANT_FIELDREF {
            let c = match bytes.parse_u2() {
                Ok(v) => v,
                Err(e) => return Err(e),
            };
            match bytes.parse_u2() {
                Ok(n) => Ok(ConstantPoolInfo::FieldRef { class_index: c, name_and_type_index: n }),
                Err(e) => Err(e),
            }
        } else if tag == CONSTANT_METHODREF {
            let c = match bytes.parse_u2() {
                Ok(v) => v,
                Err(e) => return Err(e),
            };
            match bytes.parse_u2() {
                Ok(n) => Ok(ConstantPoolInfo::MethodRef { class_index: c, name_and_type_index: n }),
                Err(e) => Err(e),
            }
        } else if tag == CONSTANT_INTERFACEMETHODREF {
            let c = match bytes.parse_u2() {
                Ok(v) => v,
                Err(e) => return Err(e),
            };
            match bytes.parse_u2() {
                Ok(n) => Ok(
                    ConstantPoolInfo::InterfaceMethodRef {
                        class_index: c,
                        name_and_type_index: n,
                    },
                ),
                Err(e) => Err(e),
            }
        } else if tag == CONSTANT_NAMEANDTYPE {
            let n = match bytes.parse_u2() {
                Ok(v) => v,
                Err(e) => return Err(e),
            };
            match bytes.parse_u2() {
                Ok(d) => Ok(ConstantPoolInfo::NameAndType { name_index: n, descriptor_index: d }),
                Err(e) => Err(e),
            }
        } else if tag == CONSTANT_METHODHANDLE {
            let k = match bytes.parse_u1() {
                Ok(v) => v,
                Err(e) => return Err(e),
            };
            match bytes.parse_u2() {
                Ok(i) => Ok(
                    ConstantPoolInfo::MethodHandle { reference_kind: k, reference_index: i },
                ),
                Err(e) => Err(e),
            }
        } else if tag == CONSTANT_METHODTYPE {
            match bytes.parse_u2() {
                Ok(d) => Ok(ConstantPoolInfo::MethodType { descriptor_index: d }),
                Err(e) => Err(e),
            }
        } else if tag == CONSTANT_INVOKEDYNAMIC {
            let b = match bytes.parse_u2() {
                Ok(v) => v,
                Err(e) => return Err(e),
            };
            match bytes.parse_u2() {
                Ok(n) => Ok(
                    ConstantPoolInfo::InvokeDynamic {
                        bootstrap_method_attr_index: b,
                        name_and_type_index: n,
                    },
                ),
                Err(e) => Err(e),
            }
        } else {
            Err(DecodeError::MalformedPool { err: PoolError::UnknownTag { tag, offset: tag_offset } })
        }
    }

    /// Decodes the whole constant pool from the cursor: the declared
    /// count, then exactly `count - 1` index slots of entries.
    #[verifier::loop_isolation(false)]
    #[verifier::rlimit(60)]
    pub fn parse(bytes: &mut ByteStream) -> (r: Result<ConstantPool, DecodeError>)
        requires
            old(bytes).wf(),
        ensures
            final(bytes).wf(),
            final(bytes).bytes() == old(bytes).bytes(),
            match r {
                Ok(pool) => pool.wf() && spec_parse_pool(old(bytes).bytes(), old(bytes).position())
                    == Ok::<_, DecodeError>(
                    (pool.count as u16, pool.entries(), final(bytes).position()),
                ),
                Err(e) => spec_parse_pool(old(bytes).bytes(), old(bytes).position()) == Err::<
                    (u16, Seq<PoolEntryView>, int),
                    _,
                >(e),
            },
    {
        let ghost data = bytes.bytes();
        let count = match bytes.parse_u2() {
            Ok(c) => c,
            Err(e) => return Err(e),
        };
        if count == 0 {
            return Err(DecodeError::MalformedPool { err: PoolError::InvalidCount });
        }
        let ghost total: nat = (count - 1) as nat;
        let ghost entries_start = bytes.position();
        let mut info: Vec<ConstantPoolInfo> = Vec::new();
        let mut slots: u16 = count - 1;
        while slots > 0
            invariant
                bytes.wf(),
                bytes.bytes() == data,
                spec_parse_entries(data, entries_start, total) == (match spec_parse_entries(
                    data,
                    bytes.position(),
                    slots as nat,
                ) {
                    Ok((rest, p)) => Ok::<_, DecodeError>((info.deep_view() + rest, p)),
                    Err(e) => Err::<(Seq<PoolEntryView>, int), _>(e),
                }),
            decreases slots,
        {
            let entry_offset = bytes.pos();
            let ghost info_here = info.deep_view();
            let entry = match Self::parse_entry(bytes) {
                Ok(e) => e,
                Err(e) => return Err(e),
            };
            let wide = match &entry {
                ConstantPoolInfo::Long { .. } => true,
                ConstantPoolInfo::Double { .. } => true,
                _ => false,
            };
            proof {
                assert(spec_entry_slots(entry@) == if wide { 2nat } else { 1nat });
            }
            if wide {
                if slots == 1 {
                    return Err(
                        DecodeError::MalformedPool {
                            err: PoolError::WideEntryOverrun { offset: entry_offset },
                        },
                    );
                }
                let ghost entry_v = entry@;
                info.push(entry);
                info.push(ConstantPoolInfo::Unusable);
                slots = slots - 2;
                proof {
                    assert(info.deep_view() =~= info_here + seq![entry_v, PoolEntryView::Unusable]);
                    assert forall|rest: Seq<PoolEntryView>| (info_here + (seq![
                        entry_v,
                        PoolEntryView::Unusable,
                    ] + rest)) =~= (info.deep_view() + rest) by {};
                }
            } else {
                let ghost entry_v = entry@;
                info.push(entry);
                slots = slots - 1;
                proof {
                    assert(info.deep_view() =~= info_here + seq![entry_v]);
                    assert forall|rest: Seq<PoolEntryView>| (info_here + (seq![entry_v] + rest))
                        =~= (info.deep_view() + rest) by {};
                }
            }
        }
        proof {
            assert(info.deep_view() + Seq::<PoolEntryView>::empty() =~= info.deep_view());
            lemma_parse_entries_len(data, entries_start, total);
        }
        Ok(ConstantPool { count: count as usize, info })
    }
}

/// Raising the fuel of a resolution that already succeeds changes
/// nothing: success at little fuel is success at more.
pub proof fn lemma_resolve_fuel_monotonic(
    entries: Seq<PoolEntryView>,
    index: usize,
    f1: nat,
    f2: nat,
)
    requires
        f1 <= f2,
        spec_resolve(entries, index, f1) is Ok,
    ensures
        spec_resolve(entries, index, f2) == spec_resolve(entries, index, f1),
    decreases f1,
{
    if 1 <= index <= entries.len() {
        match entries[index - 1] {
            PoolEntryView::Utf8 { .. } => {},
            e => {
                match spec_first_index(e) {
                    Option::None => {},
                    Option::Some(j) => {
                        lemma_resolve_fuel_monotonic(
                            entries,
                            j as usize,
                            (f1 - 1) as nat,
                            (f2 - 1) as nat,
                        );
                    },
                }
            },
        }
    }
}

/// Resolving an index that names a UTF-8 entry returns that entry's
/// exact text, whatever the fuel.
pub proof fn lemma_resolve_utf8(entries: Seq<PoolEntryView>, index: usize, fuel: nat)
    requires
        1 <= index <= entries.len(),
        entries[index - 1] is Utf8,
    ensures
        spec_resolve(entries, index, fuel) == Ok::<Seq<char>, DecodeError>(
            entries[index - 1]->Utf8_text,
        ),
{
}

/// Resolution is transitive: when resolving an indirect entry succeeds,
/// it returns the same text as resolving that entry's target index
/// directly.
pub proof fn lemma_resolve_transitive(entries: Seq<PoolEntryView>, index: usize)
    requires
        1 <= index <= entries.len(),
        spec_first_index(entries[index - 1]) is Some,
        spec_resolve(entries, index, entries.len()) is Ok,
    ensures
        spec_resolve(entries, spec_first_index(entries[index - 1])->Some_0 as usize, entries.len())
            == spec_resolve(entries, index, entries.len()),
{
    let j = spec_first_index(entries[index - 1])->Some_0;
    let n = entries.len();
    assert(!(entries[index - 1] is Utf8));
    assert(n >= 1);
    assert(spec_resolve(entries, index, n) == spec_resolve(entries, j as usize, (n - 1) as nat));
    lemma_resolve_fuel_monotonic(entries, j as usize, (n - 1) as nat, n);
}

/// Index zero and any index past the last entry always fail with the
/// index-range error, whatever the pool holds.
pub proof fn lemma_resolve_index_out_of_range(entries: Seq<PoolEntryView>, index: usize, fuel: nat)
    requires
        index == 0 || index > entries.len(),
    ensures
        spec_resolve(entries, index, fuel) == Err::<Seq<char>, DecodeError>(
            DecodeError::MalformedPool {
                err: PoolError::IndexOutOfRange { index, limit: entries.len() as usize },
            },
        ),
{
}

} // verus!
