//! Typed decode errors.
//!
//! Every failure of the decode pipeline is terminal for the current call
//! and is reported as a value of [`DecodeError`], carrying the byte offset
//! where it arose where one is meaningful. The library never aborts the
//! process; acting on an error belongs to the caller.

use vstd::prelude::*;

verus! {

/// Why a constant-pool decode or lookup failed.
#[derive(Clone, Copy, Debug, PartialEq, Eq, Structural)]
pub enum PoolError {
    /// The declared pool count was zero, which the format forbids:
    /// a valid count is always the number of entries plus one.
    InvalidCount,
    /// An entry began with a tag byte outside the recognized kinds.
    /// `offset` is the position of the tag byte.
    UnknownTag { tag: u8, offset: usize },
    /// A lookup used index zero or an index past the last entry;
    /// the valid range is `1 ..= limit`.
    IndexOutOfRange { index: usize, limit: usize },
    /// Following indirections from the entry at `index` would exceed the
    /// pool size, so the reference chain can never reach text.
    CyclicReference { index: usize },
    /// Resolution reached the entry at `index`, which holds neither text
    /// nor a further index to follow.
    NotText { index: usize },
    /// A text entry's payload, beginning at `offset`, was not valid UTF-8.
    InvalidUtf8 { offset: usize },
    /// A two-slot (long or double) entry began at `offset` in the pool's
    /// last remaining slot, so its second slot falls outside the pool.
    WideEntryOverrun { offset: usize },
}

/// A structurally recognized but deliberately unimplemented section of the
/// class file.
#[derive(Clone, Copy, Debug, PartialEq, Eq, Structural)]
pub enum Section {
    Interfaces,
    Fields,
}

/// A terminal decode failure.
#[derive(Clone, Copy, Debug, PartialEq, Eq, Structural)]
pub enum DecodeError {
    /// A cursor read asked for more bytes than remain.
    OutOfBounds { requested: usize, remaining: usize },
    /// The constant pool could not be decoded, or a lookup into it failed.
    MalformedPool { err: PoolError },
    /// The input declares entries of a section this decoder does not
    /// implement, which it refuses rather than misparse.
    UnsupportedSection { section: Section },
    /// An instruction stream held an opcode outside the opcode table.
    /// `offset` is relative to the start of the code region.
    UnknownOpcode { opcode: u8, offset: usize },
    /// An instruction's operands would run past the end of the code
    /// region. `offset` is the opcode's position in that region.
    TruncatedInstruction { opcode: u8, offset: usize },
    /// Decoding an attribute's payload did not consume exactly its
    /// declared length.
    AttributeLengthMismatch { declared: usize, consumed: usize },
}

/// The fixed wording of each error's human-readable cause.
pub open spec fn spec_describe(e: DecodeError) -> Seq<char> {
    match e {
        DecodeError::OutOfBounds { .. } => "read past the end of the input"@,
        DecodeError::MalformedPool { err } => match err {
            PoolError::InvalidCount => "constant pool count of zero"@,
            PoolError::UnknownTag { .. } => "unknown constant pool tag"@,
            PoolError::IndexOutOfRange { .. } => "constant pool index out of range"@,
            PoolError::CyclicReference { .. } => "cyclic constant pool reference"@,
            PoolError::NotText { .. } => "constant pool entry is not text"@,
            PoolError::InvalidUtf8 { .. } => "constant pool text is not valid UTF-8"@,
            PoolError::WideEntryOverrun { .. } => "two-slot constant overruns the pool"@,
        },
        DecodeError::UnsupportedSection { section } => match section {
            Section::Interfaces => "interface table entries are not supported"@,
            Section::Fields => "field table entries are not supported"@,
        },
        DecodeError::UnknownOpcode { .. } => "unknown opcode"@,
        DecodeError::TruncatedInstruction { .. } => "truncated instruction"@,
        DecodeError::AttributeLengthMismatch { .. } => "attribute payload length mismatch"@,
    }
}

impl DecodeError {
    /// The human-readable cause of this error; positions and values sit in
    /// the variant's own fields.
    pub fn describe(&self) -> (r: String)
        ensures
            r@ == spec_describe(*self),
    {
        match self {
            DecodeError::OutOfBounds { .. } => "read past the end of the input".to_owned(),
            DecodeError::MalformedPool { err } => match err {
                PoolError::InvalidCount => "constant pool count of zero".to_owned(),
                PoolError::UnknownTag { .. } => "unknown constant pool tag".to_owned(),
                PoolError::IndexOutOfRange { .. } => "constant pool index out of range".to_owned(),
                PoolError::CyclicReference { .. } => "cyclic constant pool reference".to_owned(),
                PoolError::NotText { .. } => "constant pool entry is not text".to_owned(),
                PoolError::InvalidUtf8 { .. } => "constant pool text is not valid UTF-8".to_owned(),
                PoolError::WideEntryOverrun { .. } => "two-slot constant overruns the pool".to_owned(),
            },
            DecodeError::UnsupportedSection { section } => match section {
                Section::Interfaces => "interface table entries are not supported".to_owned(),
                Section::Fields => "field table entries are not supported".to_owned(),
            },
            DecodeError::UnknownOpcode { .. } => "unknown opcode".to_owned(),
            DecodeError::TruncatedInstruction { .. } => "truncated instruction".to_owned(),
            DecodeError::AttributeLengthMismatch { .. } => "attribute payload length mismatch".to_owned(),
        }
    }
}

} // verus!
