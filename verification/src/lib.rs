//! Decoder for the class file binary format: a length-prefixed,
//! index-indirected container holding a constant pool, access flags,
//! a method table and a recursively nested attribute tree.
//!
//! The decoding pipeline is pure: it reads a byte buffer through a
//! bounds-checked cursor and either produces the immutable decoded
//! structure or a typed error; it performs no I/O of its own. Loading
//! bytes, prompting a user and printing the result belong to callers.

pub mod accessflags;
pub mod attributes;
pub mod bytecode;
pub mod bytestream;
pub mod class;
pub mod constantpool;
pub mod errors;
pub mod method;
pub mod query;

use crate::attributes::{attrs_seq_view, Attr, AttrView};
use crate::constantpool::{ConstantPool, PoolEntryView};
use crate::method::{Method, MethodView};
use vstd::prelude::*;

verus! {

/// The root aggregate of one decode: every section of the class file,
/// fully formed and never mutated afterwards.
#[derive(Debug)]
pub struct JavaClassFile {
    pub magic: u32,
    pub minor: u16,
    pub major: u16,
    pub constant_pool: ConstantPool,
    pub access_flags: Vec<String>,
    pub this_class: String,
    pub super_class: String,
    pub methods: Vec<Method>,
    pub attrs: Vec<Attr>,
}

/// The mathematical shape of a decoded class file.
pub struct ClassFileView {
    pub magic: u32,
    pub minor: u16,
    pub major: u16,
    pub constant_pool_count: usize,
    pub constant_pool: Seq<PoolEntryView>,
    pub access_flags: Seq<Seq<char>>,
    pub this_class: Seq<char>,
    pub super_class: Seq<char>,
    pub methods: Seq<MethodView>,
    pub attrs: Seq<AttrView>,
}

impl View for JavaClassFile {
    type V = ClassFileView;

    open spec fn view(&self) -> ClassFileView {
        ClassFileView {
            magic: self.magic,
            minor: self.minor,
            major: self.major,
            constant_pool_count: self.constant_pool.count,
            constant_pool: self.constant_pool.entries(),
            access_flags: self.access_flags.deep_view(),
            this_class: self.this_class@,
            super_class: self.super_class@,
            methods: self.methods.deep_view(),
            attrs: attrs_seq_view(self.attrs@),
        }
    }
}

} // verus!
