use rusvm::class::JavaClassFileParser;
use rusvm::errors::{DecodeError, Section};

fn push_u2(out: &mut Vec<u8>, v: u16) {
    out.extend_from_slice(&v.to_be_bytes());
}

fn push_u4(out: &mut Vec<u8>, v: u32) {
    out.extend_from_slice(&v.to_be_bytes());
}

fn push_utf8(out: &mut Vec<u8>, text: &str) {
    out.push(1);
    push_u2(out, text.len() as u16);
    out.extend_from_slice(text.as_bytes());
}

/// The smallest decodable class file: one pool entry "Foo", used as
/// both this-class and super-class name, no methods, no attributes.
fn minimal_class() -> Vec<u8> {
    let mut b = Vec::new();
    push_u4(&mut b, 0xCAFEBABE); // magic
    push_u2(&mut b, 0); // minor
    push_u2(&mut b, 61); // major
    push_u2(&mut b, 2); // pool count: one entry
    push_utf8(&mut b, "Foo");
    push_u2(&mut b, 0x0021); // class access mask
    push_u2(&mut b, 1); // this class
    push_u2(&mut b, 1); // super class
    push_u2(&mut b, 0); // interfaces
    push_u2(&mut b, 0); // fields
    push_u2(&mut b, 0); // methods
    push_u2(&mut b, 0); // class attributes
    b
}

#[test]
fn minimal_class_file_decodes() {
    let cf = JavaClassFileParser::new(minimal_class()).parse().unwrap();
    assert_eq!(cf.magic, 0xCAFEBABE);
    assert_eq!(cf.minor, 0);
    assert_eq!(cf.major, 61);
    assert_eq!(cf.constant_pool.count, 2);
    assert_eq!(cf.access_flags, vec!["ACC_PUBLIC", "ACC_SUPER"]);
    assert_eq!(cf.this_class, "Foo");
    assert_eq!(cf.super_class, "Foo");
    assert!(cf.methods.is_empty());
    assert!(cf.attrs.is_empty());
}

#[test]
fn interface_entries_are_refused_explicitly() {
    let mut b = minimal_class();
    let n = b.len();
    b[n - 8] = 0;
    b[n - 7] = 1; // one interface entry
    assert!(matches!(
        JavaClassFileParser::new(b).parse(),
        Err(DecodeError::UnsupportedSection { section: Section::Interfaces })
    ));
}

#[test]
fn field_entries_are_refused_explicitly() {
    let mut b = minimal_class();
    let n = b.len();
    b[n - 6] = 0;
    b[n - 5] = 2; // two field entries
    assert!(matches!(
        JavaClassFileParser::new(b).parse(),
        Err(DecodeError::UnsupportedSection { section: Section::Fields })
    ));
}

#[test]
fn truncated_header_reports_out_of_bounds() {
    assert!(matches!(
        JavaClassFileParser::new(vec![0xca, 0xfe]).parse(),
        Err(DecodeError::OutOfBounds { requested: 4, remaining: 2 })
    ));
}

#[test]
fn truncated_tail_reports_out_of_bounds() {
    let mut b = minimal_class();
    b.truncate(b.len() - 3);
    assert!(matches!(
        JavaClassFileParser::new(b).parse(),
        Err(DecodeError::OutOfBounds { .. })
    ));
}

#[test]
fn unresolvable_this_class_aborts_the_decode() {
    let mut b = minimal_class();
    // Point this-class at index 7, which the pool does not have.
    let at = b.len() - 12;
    b[at] = 0;
    b[at + 1] = 7;
    assert!(matches!(
        JavaClassFileParser::new(b).parse(),
        Err(DecodeError::MalformedPool { .. })
    ));
}

/// A class with one method `add:(II)I` carrying a code attribute.
fn class_with_method() -> Vec<u8> {
    let mut b = Vec::new();
    push_u4(&mut b, 0xCAFEBABE);
    push_u2(&mut b, 0);
    push_u2(&mut b, 63);
    push_u2(&mut b, 6); // pool count: five entries
    push_utf8(&mut b, "Calc"); // 1
    push_utf8(&mut b, "java/lang/Object"); // 2
    push_utf8(&mut b, "add"); // 3
    push_utf8(&mut b, "(II)I"); // 4
    push_utf8(&mut b, "Code"); // 5
    push_u2(&mut b, 0x0021);
    push_u2(&mut b, 1);
    push_u2(&mut b, 2);
    push_u2(&mut b, 0); // interfaces
    push_u2(&mut b, 0); // fields
    push_u2(&mut b, 1); // one method
    push_u2(&mut b, 0x0009); // public static
    push_u2(&mut b, 3); // name "add"
    push_u2(&mut b, 4); // descriptor "(II)I"
    push_u2(&mut b, 1); // one method attribute
    push_u2(&mut b, 5); // "Code"
    let code_body = [0x1a, 0x1b, 0x60, 0xac];
    let mut payload = Vec::new();
    push_u2(&mut payload, 2);
    push_u2(&mut payload, 2);
    push_u4(&mut payload, code_body.len() as u32);
    payload.extend_from_slice(&code_body);
    push_u2(&mut payload, 0);
    push_u2(&mut payload, 0);
    push_u4(&mut b, payload.len() as u32);
    b.extend_from_slice(&payload);
    push_u2(&mut b, 0); // class attributes
    b
}

#[test]
fn class_with_method_decodes_fully() {
    let cf = JavaClassFileParser::new(class_with_method()).parse().unwrap();
    assert_eq!(cf.this_class, "Calc");
    assert_eq!(cf.super_class, "java/lang/Object");
    assert_eq!(cf.methods.len(), 1);
    let m = &cf.methods[0];
    assert_eq!(m.name, "add");
    assert_eq!(m.descriptor, "(II)I");
    assert_eq!(m.access_flags, vec!["ACC_PUBLIC", "ACC_STATIC"]);
    assert_eq!(m.attrs.len(), 1);
    match &m.attrs[0] {
        rusvm::attributes::Attr::Code { code_length, code, .. } => {
            assert_eq!(*code_length, 4);
            let mnemonics: Vec<&str> = code.iter().map(|i| i.mnemonic.as_str()).collect();
            assert_eq!(mnemonics, vec!["iload_0", "iload_1", "iadd", "ireturn"]);
        }
        other => panic!("expected a code attribute, got {:?}", other),
    }
}

#[test]
fn trailing_bytes_after_the_class_are_left_unread() {
    let mut b = minimal_class();
    b.extend_from_slice(&[1, 2, 3]);
    let cf = JavaClassFileParser::new(b).parse().unwrap();
    assert_eq!(cf.this_class, "Foo");
}
