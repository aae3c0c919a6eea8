//! The class structure decoder: one sequential pipeline over the input
//! bytes — magic, versions, constant pool, class access flags, this and
//! super class names, the (unsupported, explicitly refused) interface
//! and field tables, the method table, and the class-level attributes.
//! Any failing step aborts the whole decode; there is no partial class
//! file.

use crate::accessflags::{parse_class_access_flags, spec_class_flag_table, spec_flags};
use crate::attributes::{parse_attrs, spec_parse_attr_list};
use crate::bytestream::{spec_read_u2, spec_read_u4, ByteStream};
use crate::constantpool::{spec_parse_pool, spec_resolve, ConstantPool};
use crate::errors::{DecodeError, Section};
use crate::method::{parse_methods, spec_parse_method_list};
use crate::{ClassFileView, JavaClassFile};
use vstd::prelude::*;

verus! {

/// What decoding a whole class file at `pos` yields: the fully formed
/// class model and the position just past the class-level attributes.
/// A non-empty interface or field table is refused explicitly rather
/// than misparsed.
pub open spec fn spec_parse_class(data: Seq<u8>, pos: int) -> Result<
    (ClassFileView, int),
    DecodeError,
> {
    match spec_read_u4(data, pos) {
        Err(e) => Err(e),
        Ok((magic, p1)) => match spec_read_u2(data, p1) {
            Err(e) => Err(e),
            Ok((minor, p2)) => match spec_read_u2(data, p2) {
                Err(e) => Err(e),
                Ok((major, p3)) => match spec_parse_pool(data, p3) {
                    Err(e) => Err(e),
                    Ok((count, pool, p4)) => match spec_read_u2(data, p4) {
                        Err(e) => Err(e),
                        Ok((mask, p5)) => match spec_read_u2(data, p5) {
                            Err(e) => Err(e),
                            Ok((this_index, p6)) => match spec_resolve(
                                pool,
                                this_index as usize,
                                pool.len(),
                            ) {
                                Err(e) => Err(e),
                                Ok(this_class) => match spec_read_u2(data, p6) {
                                    Err(e) => Err(e),
                                    Ok((super_index, p7)) => match spec_resolve(
                                        pool,
                                        super_index as usize,
                                        pool.len(),
                                    ) {
                                        Err(e) => Err(e),
                                        Ok(super_class) => match spec_read_u2(data, p7) {
                                            Err(e) => Err(e),
                                            Ok((interfaces_count, p8)) => {
                                                if interfaces_count != 0 {
                                                    Err(
                                                        DecodeError::UnsupportedSection {
                                                            section: Section::Interfaces,
                                                        },
                                                    )
                                                } else {
                                                    match spec_read_u2(data, p8) {
                                                        Err(e) => Err(e),
                                                        Ok((fields_count, p9)) => {
                                                            if fields_count != 0 {
                                                                Err(
                                                                    DecodeError::UnsupportedSection {
                                                                        section: Section::Fields,
                                                                    },
                                                                )
                                                            } else {
                                                                match spec_parse_method_list(
                                                                    data,
                                                                    p9,
                                                                    pool,
                                                                ) {
                                                                    Err(e) => Err(e),
                                                                    Ok((methods, p10)) => match spec_parse_attr_list(
                                                                        data,
                                                                        p10,
                                                                        pool,
                                                                    ) {
                                                                        Err(e) => Err(e),
                                                                        Ok((attrs, p11)) => Ok(
                                                                            (
                                                                                ClassFileView {
                                                                                    magic,
                                                                                    minor,
                                                                                    major,
                                                                                    constant_pool_count:
                                                                                        count as usize,
                                                                                    constant_pool:
                                                                                        pool,
                                                                                    access_flags:
                                                                                        spec_flags(
                                                                                        mask,
                                                                                        spec_class_flag_table(),
                                                                                    ),
                                                                                    this_class,
                                                                                    super_class,
                                                                                    methods,
                                                                                    attrs,
                                                                                },
                                                                                p11,
                                                                            ),
                                                                        ),
                                                                    },
                                                                }
                                                            }
                                                        },
                                                    }
                                                }
                                            },
                                        },
                                    },
                                },
                            },
                        },
                    },
                },
            },
        },
    }
}

/// Owns the input bytes for the duration of one decode.
pub struct JavaClassFileParser {
    bytes: ByteStream,
}

impl JavaClassFileParser {
    /// The whole input buffer.
    pub closed spec fn input(&self) -> Seq<u8> {
        self.bytes.bytes()
    }

    /// How far the decode has read.
    pub closed spec fn cursor(&self) -> int {
        self.bytes.position()
    }

    /// The cursor never stands past the end of the input.
    pub closed spec fn wf(&self) -> bool {
        self.bytes.wf()
    }

    /// A parser over the given class file bytes.
    pub fn new(bytes: Vec<u8>) -> (s: Self)
        ensures
            s.wf(),
            s.input() == bytes@,
            s.cursor() == 0,
    {
        JavaClassFileParser { bytes: ByteStream::new(bytes) }
    }

    /// Runs the whole decode pipeline: the outcome is exactly
    /// [`spec_parse_class`] at the parser's position, and a returned
    /// class file carries a well-formed constant pool.
    pub fn parse(&mut self) -> (r: Result<JavaClassFile, DecodeError>)
        requires
            old(self).wf(),
        ensures
            final(self).wf(),
            final(self).input() == old(self).input(),
            match r {
                Ok(cf) => cf.constant_pool.wf() && spec_parse_class(
                    old(self).input(),
                    old(self).cursor(),
                ) == Ok::<_, DecodeError>((cf@, final(self).cursor())),
                Err(e) => spec_parse_class(old(self).input(), old(self).cursor()) == Err::<
                    (ClassFileView, int),
                    _,
                >(e),
            },
    {
        let magic = match self.bytes.parse_u4() {
            Ok(v) => v,
            Err(e) => return Err(e),
        };
        let minor = match self.bytes.parse_u2() {
            Ok(v) => v,
            Err(e) => return Err(e),
        };
        let major = match self.bytes.parse_u2() {
            Ok(v) => v,
            Err(e) => return Err(e),
        };
        let constant_pool = match ConstantPool::parse(&mut self.bytes) {
            Ok(v) => v,
            Err(e) => return Err(e),
        };
        let mask = match self.bytes.parse_u2() {
            Ok(v) => v,
            Err(e) => return Err(e),
        };
        let this_index = match self.bytes.parse_u2() {
            Ok(v) => v,
            Err(e) => return Err(e),
        };
        let this_class = match constant_pool.query(this_index as usize) {
            Ok(v) => v,
            Err(e) => return Err(e),
        };
        let super_index = match self.bytes.parse_u2() {
            Ok(v) => v,
            Err(e) => return Err(e),
        };
        let super_class = match constant_pool.query(super_index as usize) {
            Ok(v) => v,
            Err(e) => return Err(e),
        };
        let interfaces_count = match self.bytes.parse_u2() {
            Ok(v) => v,
            Err(e) => return Err(e),
        };
        if interfaces_count != 0 {
            return Err(DecodeError::UnsupportedSection { section: Section::Interfaces });
        }
        let fields_count = match self.bytes.parse_u2() {
            Ok(v) => v,
            Err(e) => return Err(e),
        };
        if fields_count != 0 {
            return Err(DecodeError::UnsupportedSection { section: Section::Fields });
        }
        let methods = match parse_methods(&mut self.bytes, &constant_pool) {
            Ok(v) => v,
            Err(e) => return Err(e),
        };
        let attrs = match parse_attrs(&mut self.bytes, &constant_pool) {
            Ok(v) => v,
            Err(e) => return Err(e),
        };
        Ok(
            JavaClassFile {
                magic,
                minor,
                major,
                constant_pool,
                access_flags: parse_class_access_flags(mask),
                this_class,
                super_class,
                methods,
                attrs,
            },
        )
    }
}

} // verus!
