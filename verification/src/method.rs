//! The method table: each entry owns an access-flag set, its resolved
//! name and descriptor text, and an attribute tree; a method is created
//! once during decoding and never mutated afterwards.

use crate::accessflags::{parse_method_access_flags, spec_flags, spec_method_flag_table};
use crate::attributes::{attrs_seq_view, parse_attrs, spec_parse_attr_list, Attr, AttrView};
use crate::bytestream::{spec_read_u2, ByteStream};
use crate::constantpool::{spec_resolve, ConstantPool, PoolEntryView};
use crate::errors::DecodeError;
use vstd::prelude::*;

verus! {

/// One decoded method.
#[derive(Debug)]
pub struct Method {
    pub access_flags: Vec<String>,
    pub name: String,
    pub descriptor: String,
    pub attrs: Vec<Attr>,
}

/// The mathematical shape of a method.
pub struct MethodView {
    pub access_flags: Seq<Seq<char>>,
    pub name: Seq<char>,
    pub descriptor: Seq<char>,
    pub attrs: Seq<AttrView>,
}

impl View for Method {
    type V = MethodView;

    open spec fn view(&self) -> MethodView {
        MethodView {
            access_flags: self.access_flags.deep_view(),
            name: self.name@,
            descriptor: self.descriptor@,
            attrs: attrs_seq_view(self.attrs@),
        }
    }
}

impl DeepView for Method {
    type V = MethodView;

    open spec fn deep_view(&self) -> MethodView {
        self.view()
    }
}

/// What decoding one method-table entry at `pos` yields: its access
/// mask decoded against the member flag table, its name and descriptor
/// resolved through the pool, and its attribute list.
pub open spec fn spec_parse_method(data: Seq<u8>, pos: int, pool: Seq<PoolEntryView>) -> Result<
    (MethodView, int),
    DecodeError,
> {
    match spec_read_u2(data, pos) {
        Err(e) => Err(e),
        Ok((mask, p1)) => match spec_read_u2(data, p1) {
            Err(e) => Err(e),
            Ok((name_index, p2)) => match spec_resolve(pool, name_index as usize, pool.len()) {
                Err(e) => Err(e),
                Ok(name) => match spec_read_u2(data, p2) {
                    Err(e) => Err(e),
                    Ok((descriptor_index, p3)) => match spec_resolve(
                        pool,
                        descriptor_index as usize,
                        pool.len(),
                    ) {
                        Err(e) => Err(e),
                        Ok(descriptor) => match spec_parse_attr_list(data, p3, pool) {
                            Err(e) => Err(e),
                            Ok((attrs, p4)) => Ok(
                                (
                                    MethodView {
                                        access_flags: spec_flags(mask, spec_method_flag_table()),
                                        name,
                                        descriptor,
                                        attrs,
                                    },
                                    p4,
                                ),
                            ),
                        },
                    },
                },
            },
        },
    }
}

/// What decoding `n` method-table entries at `pos` yields, in order.
pub open spec fn spec_parse_methods_n(
    data: Seq<u8>,
    pos: int,
    pool: Seq<PoolEntryView>,
    n: nat,
) -> Result<(Seq<MethodView>, int), DecodeError>
    decreases n,
{
    if n == 0 {
        Ok((Seq::empty(), pos))
    } else {
        match spec_parse_method(data, pos, pool) {
            Err(e) => Err(e),
            Ok((m, p1)) => match spec_parse_methods_n(data, p1, pool, (n - 1) as nat) {
                Err(e) => Err(e),
                Ok((rest, p2)) => Ok((seq![m] + rest, p2)),
            },
        }
    }
}

/// What decoding the whole method table at `pos` yields: a 16-bit
/// method count, then exactly that many entries.
pub open spec fn spec_parse_method_list(
    data: Seq<u8>,
    pos: int,
    pool: Seq<PoolEntryView>,
) -> Result<(Seq<MethodView>, int), DecodeError> {
    match spec_read_u2(data, pos) {
        Err(e) => Err(e),
        Ok((n, p1)) => spec_parse_methods_n(data, p1, pool, n as nat),
    }
}

/// Decodes one method-table entry from the cursor.
fn parse_method(bytes: &mut ByteStream, cp: &ConstantPool) -> (r: Result<Method, DecodeError>)
    requires
        old(bytes).wf(),
    ensures
        final(bytes).wf(),
        final(bytes).bytes() == old(bytes).bytes(),
        match r {
            Ok(m) => spec_parse_method(old(bytes).bytes(), old(bytes).position(), cp.entries())
                == Ok::<_, DecodeError>((m@, final(bytes).position())),
            Err(e) => spec_parse_method(old(bytes).bytes(), old(bytes).position(), cp.entries())
                == Err::<(MethodView, int), _>(e),
        },
{
    let mask = match bytes.parse_u2() {
        Ok(v) => v,
        Err(e) => return Err(e),
    };
    let name_index = match bytes.parse_u2() {
        Ok(v) => v,
        Err(e) => return Err(e),
    };
    let name = match cp.query(name_index as usize) {
        Ok(v) => v,
        Err(e) => return Err(e),
    };
    let descriptor_index = match bytes.parse_u2() {
        Ok(v) => v,
        Err(e) => return Err(e),
    };
    let descriptor = match cp.query(descriptor_index as usize) {
        Ok(v) => v,
        Err(e) => return Err(e),
    };
    let attrs = match parse_attrs(bytes, cp) {
        Ok(v) => v,
        Err(e) => return Err(e),
    };
    Ok(Method { access_flags: parse_method_access_flags(mask), name, descriptor, attrs })
}

/// Decodes the whole method table from the cursor: a 16-bit method
/// count, then exactly that many entries, in declaration order.
#[verifier::loop_isolation(false)]
pub fn parse_methods(bytes: &mut ByteStream, constantpool: &ConstantPool) -> (r: Result<
    Vec<Method>,
    DecodeError,
>)
    requires
        old(bytes).wf(),
    ensures
        final(bytes).wf(),
        final(bytes).bytes() == old(bytes).bytes(),
        match r {
            Ok(methods) => spec_parse_method_list(
                old(bytes).bytes(),
                old(bytes).position(),
                constantpool.entries(),
            ) == Ok::<_, DecodeError>((methods.deep_view(), final(bytes).position())),
            Err(e) => spec_parse_method_list(
                old(bytes).bytes(),
                old(bytes).position(),
                constantpool.entries(),
            ) == Err::<(Seq<MethodView>, int), _>(e),
        },
{
    let ghost data = bytes.bytes();
    let ghost pool = constantpool.entries();
    let count = match bytes.parse_u2() {
        Ok(v) => v,
        Err(e) => return Err(e),
    };
    let ghost entries_start = bytes.position();
    let mut methods: Vec<Method> = Vec::new();
    let mut i: u16 = 0;
    while i < count
        invariant
            bytes.wf(),
            bytes.bytes() == data,
            i <= count,
            spec_parse_methods_n(data, entries_start, pool, count as nat) == (match spec_parse_methods_n(
                data,
                bytes.position(),
                pool,
                (count - i) as nat,
            ) {
                Ok((rest, p)) => Ok::<_, DecodeError>((methods.deep_view() + rest, p)),
                Err(e) => Err::<(Seq<MethodView>, int), _>(e),
            }),
        decreases count - i,
    {
        let m = match parse_method(bytes, constantpool) {
            Ok(v) => v,
            Err(e) => return Err(e),
        };
        let ghost mv = m@;
        let ghost methods_before = methods.deep_view();
        methods.push(m);
        proof {
            assert(methods.deep_view() =~= methods_before.push(mv));
            assert forall|rest: Seq<MethodView>| (methods_before + (seq![mv] + rest))
                =~= (methods.deep_view() + rest) by {};
        }
        i = i + 1;
    }
    proof {
        assert(methods.deep_view() + Seq::<MethodView>::empty() =~= methods.deep_view());
    }
    Ok(methods)
}

} // verus!
