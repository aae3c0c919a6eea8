//! Access-flag decoding: a 16-bit mask against a fixed table of
//! (name, bit) rows yields the set of symbolic flag names, in table
//! order. Any mask is valid input; bits that no row names are ignored,
//! matching the format's forward-compatibility convention.

use vstd::prelude::*;

verus! {

/// The names of the table rows whose bit is set in `mask`, in table
/// order.
pub open spec fn spec_flags(mask: u16, table: Seq<(Seq<char>, u16)>) -> Seq<Seq<char>>
    decreases table.len(),
{
    if table.len() == 0 {
        Seq::empty()
    } else {
        let rest = spec_flags(mask, table.drop_last());
        if mask & table.last().1 != 0 {
            rest.push(table.last().0)
        } else {
            rest
        }
    }
}

/// The class-level flag table.
pub open spec fn spec_class_flag_table() -> Seq<(Seq<char>, u16)> {
    seq![
        ("ACC_PUBLIC"@, 0x0001u16),
        ("ACC_FINAL"@, 0x0010u16),
        ("ACC_SUPER"@, 0x0020u16),
        ("ACC_INTERFACE"@, 0x0200u16),
        ("ACC_ABSTRACT"@, 0x0400u16),
        ("ACC_SYNTHETIC"@, 0x1000u16),
        ("ACC_ANNOTATION"@, 0x2000u16),
        ("ACC_ENUM"@, 0x4000u16),
    ]
}

/// The member-level flag table; it shares bit values with the class
/// table under different meanings.
pub open spec fn spec_method_flag_table() -> Seq<(Seq<char>, u16)> {
    seq![
        ("ACC_PUBLIC"@, 0x0001u16),
        ("ACC_PRIVATE"@, 0x0002u16),
        ("ACC_PROTECTED"@, 0x0004u16),
        ("ACC_STATIC"@, 0x0008u16),
        ("ACC_FINAL"@, 0x0010u16),
        ("ACC_SYNCHRONIZED"@, 0x0020u16),
        ("ACC_BRIDGE"@, 0x0040u16),
        ("ACC_VARARGS"@, 0x0080u16),
        ("ACC_NATIVE"@, 0x0100u16),
        ("ACC_ABSTRACT"@, 0x0400u16),
        ("ACC_STRICT"@, 0x0800u16),
        ("ACC_SYNTHETIC"@, 0x1000u16),
    ]
}

/// The class-level flag table as data.
pub fn class_access_flag_table() -> (t: Vec<(&'static str, u16)>)
    ensures
        t.deep_view() == spec_class_flag_table(),
{
    let mut t: Vec<(&'static str, u16)> = Vec::new();
    t.push(("ACC_PUBLIC", 0x0001));
    t.push(("ACC_FINAL", 0x0010));
    t.push(("ACC_SUPER", 0x0020));
    t.push(("ACC_INTERFACE", 0x0200));
    t.push(("ACC_ABSTRACT", 0x0400));
    t.push(("ACC_SYNTHETIC", 0x1000));
    t.push(("ACC_ANNOTATION", 0x2000));
    t.push(("ACC_ENUM", 0x4000));
    proof {
        assert(t.deep_view() =~= spec_class_flag_table());
    }
    t
}

/// The member-level flag table as data.
pub fn method_access_flag_table() -> (t: Vec<(&'static str, u16)>)
    ensures
        t.deep_view() == spec_method_flag_table(),
{
    let mut t: Vec<(&'static str, u16)> = Vec::new();
    t.push(("ACC_PUBLIC", 0x0001));
    t.push(("ACC_PRIVATE", 0x0002));
    t.push(("ACC_PROTECTED", 0x0004));
    t.push(("ACC_STATIC", 0x0008));
    t.push(("ACC_FINAL", 0x0010));
    t.push(("ACC_SYNCHRONIZED", 0x0020));
    t.push(("ACC_BRIDGE", 0x0040));
    t.push(("ACC_VARARGS", 0x0080));
    t.push(("ACC_NATIVE", 0x0100));
    t.push(("ACC_ABSTRACT", 0x0400));
    t.push(("ACC_STRICT", 0x0800));
    t.push(("ACC_SYNTHETIC", 0x1000));
    proof {
        assert(t.deep_view() =~= spec_method_flag_table());
    }
    t
}

/// Decodes `mask` against a flag table: the result holds exactly the
/// names of the rows whose bit is set, in table order.
pub fn parse_access_flags(mask: u16, access_flags: &Vec<(&str, u16)>) -> (r: Vec<String>)
    ensures
        r.deep_view() == spec_flags(mask, access_flags.deep_view()),
{
    let ghost table: Seq<(Seq<char>, u16)> = access_flags.deep_view();
    let mut flags: Vec<String> = Vec::new();
    let n = access_flags.len();
    let mut i: usize = 0;
    while i < n
        invariant
            n == access_flags.len(),
            table == access_flags.deep_view(),
            i <= n,
            flags.deep_view() == spec_flags(mask, table.take(i as int)),
        decreases n - i,
    {
        let pair = &access_flags[i];
        proof {
            assert(table.take(i + 1).drop_last() =~= table.take(i as int));
            assert(table.take(i + 1).last() == table[i as int]);
            assert(table[i as int].1 == pair.1);
        }
        if mask & pair.1 != 0 {
            flags.push(pair.0.to_owned());
            proof {
                assert(flags.deep_view() =~= spec_flags(mask, table.take(i as int)).push(
                    table[i as int].0,
                ));
            }
        }
        i = i + 1;
    }
    proof {
        assert(table.take(n as int) =~= table);
    }
    flags
}

/// Decodes a class-level access mask.
pub fn parse_class_access_flags(mask: u16) -> (r: Vec<String>)
    ensures
        r.deep_view() == spec_flags(mask, spec_class_flag_table()),
{
    let table = class_access_flag_table();
    parse_access_flags(mask, &table)
}

/// Decodes a member-level access mask.
pub fn parse_method_access_flags(mask: u16) -> (r: Vec<String>)
    ensures
        r.deep_view() == spec_flags(mask, spec_method_flag_table()),
{
    let table = method_access_flag_table();
    parse_access_flags(mask, &table)
}

/// Flag decoding reads only the bits the table names: two masks that
/// agree on every table bit decode to the same flag set.
pub proof fn lemma_flags_depend_only_on_table_bits(m1: u16, m2: u16, table: Seq<(Seq<char>, u16)>)
    requires
        forall|i: int| 0 <= i < table.len() ==> m1 & (#[trigger] table[i]).1 == m2 & table[i].1,
    ensures
        spec_flags(m1, table) == spec_flags(m2, table),
    decreases table.len(),
{
    if table.len() > 0 {
        assert forall|i: int| 0 <= i < table.drop_last().len() implies m1 & (#[trigger] table.drop_last()[i]).1
            == m2 & table.drop_last()[i].1 by {
            assert(table.drop_last()[i] == table[i]);
        };
        lemma_flags_depend_only_on_table_bits(m1, m2, table.drop_last());
        assert(table.last() == table[table.len() - 1]);
    }
}

/// Setting a bit that no table row names leaves the decoded flag set
/// unchanged.
pub proof fn lemma_flags_ignore_unknown_bit(mask: u16, bit: u16, table: Seq<(Seq<char>, u16)>)
    requires
        forall|i: int| 0 <= i < table.len() ==> (#[trigger] table[i]).1 & bit == 0,
    ensures
        spec_flags((mask | bit) as u16, table) == spec_flags(mask, table),
{
    assert forall|i: int| 0 <= i < table.len() implies ((mask | bit) as u16) & (#[trigger] table[i]).1
        == mask & table[i].1 by {
        let t = table[i].1;
        assert(t & bit == 0 ==> ((mask | bit) as u16) & t == mask & t) by (bit_vector);
    };
    lemma_flags_depend_only_on_table_bits((mask | bit) as u16, mask, table);
}

} // verus!
