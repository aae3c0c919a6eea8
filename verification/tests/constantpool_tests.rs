use rusvm::bytestream::ByteStream;
use rusvm::constantpool::{ConstantPool, ConstantPoolInfo};
use rusvm::errors::{DecodeError, PoolError};

fn push_u2(out: &mut Vec<u8>, v: u16) {
    out.extend_from_slice(&v.to_be_bytes());
}

/// A pool holding one UTF-8 entry per given text, in order.
fn utf8_pool(texts: &[&str]) -> Vec<u8> {
    let mut out = Vec::new();
    push_u2(&mut out, (texts.len() + 1) as u16);
    for t in texts {
        out.push(1); // UTF-8 tag
        push_u2(&mut out, t.len() as u16);
        out.extend_from_slice(t.as_bytes());
    }
    out
}

fn parse_pool(bytes: Vec<u8>) -> Result<ConstantPool, DecodeError> {
    let mut s = ByteStream::new(bytes);
    ConstantPool::parse(&mut s)
}

#[test]
fn utf8_entry_resolves_to_its_exact_text() {
    let pool = parse_pool(utf8_pool(&["Foo"])).unwrap();
    assert_eq!(pool.count, 2);
    assert_eq!(pool.info.len(), 1);
    assert_eq!(pool.query(1), Ok("Foo".to_string()));
}

#[test]
fn non_ascii_utf8_text_is_decoded() {
    let pool = parse_pool(utf8_pool(&["caf\u{e9}"])).unwrap();
    assert_eq!(pool.query(1), Ok("caf\u{e9}".to_string()));
}

#[test]
fn indirect_entry_resolves_like_its_target() {
    // index 1: class reference -> index 2; index 2: UTF-8 "Owner".
    let mut bytes = Vec::new();
    push_u2(&mut bytes, 3);
    bytes.push(7); // class tag
    push_u2(&mut bytes, 2);
    bytes.push(1); // UTF-8 tag
    push_u2(&mut bytes, 5);
    bytes.extend_from_slice(b"Owner");
    let pool = parse_pool(bytes).unwrap();
    assert_eq!(pool.query(1), pool.query(2));
    assert_eq!(pool.query(1), Ok("Owner".to_string()));
}

#[test]
fn index_zero_and_past_end_fail_with_range_error() {
    let pool = parse_pool(utf8_pool(&["Foo", "Bar"])).unwrap();
    assert_eq!(
        pool.query(0),
        Err(DecodeError::MalformedPool {
            err: PoolError::IndexOutOfRange { index: 0, limit: 2 }
        })
    );
    assert_eq!(
        pool.query(3),
        Err(DecodeError::MalformedPool {
            err: PoolError::IndexOutOfRange { index: 3, limit: 2 }
        })
    );
}

#[test]
fn self_referential_entry_fails_instead_of_recursing() {
    // index 1: class reference -> index 1.
    let mut bytes = Vec::new();
    push_u2(&mut bytes, 2);
    bytes.push(7);
    push_u2(&mut bytes, 1);
    let pool = parse_pool(bytes).unwrap();
    assert_eq!(
        pool.query(1),
        Err(DecodeError::MalformedPool { err: PoolError::CyclicReference { index: 1 } })
    );
}

#[test]
fn two_entry_cycle_fails() {
    let mut bytes = Vec::new();
    push_u2(&mut bytes, 3);
    bytes.push(7);
    push_u2(&mut bytes, 2);
    bytes.push(7);
    push_u2(&mut bytes, 1);
    let pool = parse_pool(bytes).unwrap();
    assert!(matches!(
        pool.query(1),
        Err(DecodeError::MalformedPool { err: PoolError::CyclicReference { .. } })
    ));
}

#[test]
fn numeric_entry_cannot_resolve_to_text() {
    let mut bytes = Vec::new();
    push_u2(&mut bytes, 2);
    bytes.push(3); // integer tag
    bytes.extend_from_slice(&42u32.to_be_bytes());
    let pool = parse_pool(bytes).unwrap();
    assert!(matches!(pool.info[0], ConstantPoolInfo::Integer { value: 42 }));
    assert_eq!(
        pool.query(1),
        Err(DecodeError::MalformedPool { err: PoolError::NotText { index: 1 } })
    );
}

#[test]
fn unknown_tag_is_fatal_and_names_tag_and_offset() {
    let mut bytes = Vec::new();
    push_u2(&mut bytes, 2);
    bytes.push(99);
    assert!(matches!(
        parse_pool(bytes),
        Err(DecodeError::MalformedPool {
            err: PoolError::UnknownTag { tag: 99, offset: 2 }
        })
    ));
}

#[test]
fn declared_count_of_zero_is_refused() {
    let bytes = vec![0, 0];
    assert!(matches!(
        parse_pool(bytes),
        Err(DecodeError::MalformedPool { err: PoolError::InvalidCount })
    ));
}

#[test]
fn long_constant_occupies_two_slots() {
    // count 4: three slots; a long (two slots) then a UTF-8 entry.
    let mut bytes = Vec::new();
    push_u2(&mut bytes, 4);
    bytes.push(5); // long tag
    bytes.extend_from_slice(&1u32.to_be_bytes());
    bytes.extend_from_slice(&2u32.to_be_bytes());
    bytes.push(1); // UTF-8 tag
    push_u2(&mut bytes, 3);
    bytes.extend_from_slice(b"Foo");
    let pool = parse_pool(bytes).unwrap();
    assert_eq!(pool.info.len(), 3);
    assert!(matches!(
        pool.info[0],
        ConstantPoolInfo::Long { high_bytes: 1, low_bytes: 2 }
    ));
    assert!(matches!(pool.info[1], ConstantPoolInfo::Unusable));
    assert_eq!(pool.query(3), Ok("Foo".to_string()));
    assert_eq!(
        pool.query(2),
        Err(DecodeError::MalformedPool { err: PoolError::NotText { index: 2 } })
    );
}

#[test]
fn wide_constant_in_last_slot_is_refused() {
    // count 2: one slot, not enough for a double.
    let mut bytes = Vec::new();
    push_u2(&mut bytes, 2);
    bytes.push(6); // double tag
    bytes.extend_from_slice(&0u32.to_be_bytes());
    bytes.extend_from_slice(&0u32.to_be_bytes());
    assert!(matches!(
        parse_pool(bytes),
        Err(DecodeError::MalformedPool {
            err: PoolError::WideEntryOverrun { offset: 2 }
        })
    ));
}

#[test]
fn invalid_utf8_payload_is_refused() {
    let mut bytes = Vec::new();
    push_u2(&mut bytes, 2);
    bytes.push(1); // UTF-8 tag
    push_u2(&mut bytes, 1);
    bytes.push(0xff);
    assert!(matches!(
        parse_pool(bytes),
        Err(DecodeError::MalformedPool { err: PoolError::InvalidUtf8 { offset: 5 } })
    ));
}

#[test]
fn truncated_entry_payload_reports_out_of_bounds() {
    let mut bytes = Vec::new();
    push_u2(&mut bytes, 2);
    bytes.push(7); // class tag, but only one byte of its index follows
    bytes.push(0);
    assert!(matches!(
        parse_pool(bytes),
        Err(DecodeError::OutOfBounds { requested: 2, remaining: 1 })
    ));
}

#[test]
fn every_tag_kind_is_recognized() {
    let mut bytes = Vec::new();
    push_u2(&mut bytes, 17);
    bytes.push(1); // UTF-8
    push_u2(&mut bytes, 1);
    bytes.push(b'x');
    bytes.push(3); // integer
    bytes.extend_from_slice(&7u32.to_be_bytes());
    bytes.push(4); // float (raw bits)
    bytes.extend_from_slice(&0x3f800000u32.to_be_bytes());
    bytes.push(5); // long: two slots
    bytes.extend_from_slice(&0u32.to_be_bytes());
    bytes.extend_from_slice(&9u32.to_be_bytes());
    bytes.push(6); // double: two slots
    bytes.extend_from_slice(&0x3ff00000u32.to_be_bytes());
    bytes.extend_from_slice(&0u32.to_be_bytes());
    bytes.push(7); // class
    push_u2(&mut bytes, 1);
    bytes.push(8); // string
    push_u2(&mut bytes, 1);
    bytes.push(9); // field ref
    push_u2(&mut bytes, 6);
    push_u2(&mut bytes, 1);
    bytes.push(10); // method ref
    push_u2(&mut bytes, 6);
    push_u2(&mut bytes, 1);
    bytes.push(11); // interface method ref
    push_u2(&mut bytes, 6);
    push_u2(&mut bytes, 1);
    bytes.push(12); // name and type
    push_u2(&mut bytes, 1);
    push_u2(&mut bytes, 1);
    bytes.push(15); // method handle
    bytes.push(5);
    push_u2(&mut bytes, 1);
    bytes.push(16); // method type
    push_u2(&mut bytes, 1);
    bytes.push(18); // invoke dynamic
    push_u2(&mut bytes, 0);
    push_u2(&mut bytes, 1);
    let pool = parse_pool(bytes).unwrap();
    assert_eq!(pool.info.len(), 16);
    assert!(matches!(pool.info[15], ConstantPoolInfo::InvokeDynamic { .. }));
    // The method handle resolves through its reference index to "x".
    assert_eq!(pool.query(14), Ok("x".to_string()));
}

#[test]
fn string_reference_resolves_through_its_target() {
    // index 1: string reference -> index 2; index 2: UTF-8 "hi".
    let mut bytes = Vec::new();
    push_u2(&mut bytes, 3);
    bytes.push(8); // string tag
    push_u2(&mut bytes, 2);
    bytes.push(1);
    push_u2(&mut bytes, 2);
    bytes.extend_from_slice(b"hi");
    let pool = parse_pool(bytes).unwrap();
    assert_eq!(pool.query(1), Ok("hi".to_string()));
}

#[test]
fn name_and_type_follows_its_name_index() {
    // index 1: name-and-type (name 2, descriptor 3); 2: "run"; 3: "()V".
    let mut bytes = Vec::new();
    push_u2(&mut bytes, 4);
    bytes.push(12); // name-and-type tag
    push_u2(&mut bytes, 2);
    push_u2(&mut bytes, 3);
    bytes.push(1);
    push_u2(&mut bytes, 3);
    bytes.extend_from_slice(b"run");
    bytes.push(1);
    push_u2(&mut bytes, 3);
    bytes.extend_from_slice(b"()V");
    let pool = parse_pool(bytes).unwrap();
    assert_eq!(pool.query(1), Ok("run".to_string()));
}
