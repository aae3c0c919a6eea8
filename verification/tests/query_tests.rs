use rusvm::class::JavaClassFileParser;
use rusvm::query::{Query, QueryResult, QueryType};

fn push_u2(out: &mut Vec<u8>, v: u16) {
    out.extend_from_slice(&v.to_be_bytes());
}

fn push_u4(out: &mut Vec<u8>, v: u32) {
    out.extend_from_slice(&v.to_be_bytes());
}

fn push_utf8(out: &mut Vec<u8>, text: &str) {
    out.push(1);
    push_u2(out, text.len() as u16);
    out.extend_from_slice(text.as_bytes());
}

/// A class with two overloads of `run` and one `stop`, all without
/// attribute bodies.
fn class_with_overloads() -> Vec<u8> {
    let mut b = Vec::new();
    push_u4(&mut b, 0xCAFEBABE);
    push_u2(&mut b, 0);
    push_u2(&mut b, 61);
    push_u2(&mut b, 6); // pool count: five entries
    push_utf8(&mut b, "Job"); // 1
    push_utf8(&mut b, "run"); // 2
    push_utf8(&mut b, "()V"); // 3
    push_utf8(&mut b, "(I)V"); // 4
    push_utf8(&mut b, "stop"); // 5
    push_u2(&mut b, 0x0021);
    push_u2(&mut b, 1);
    push_u2(&mut b, 1);
    push_u2(&mut b, 0);
    push_u2(&mut b, 0);
    push_u2(&mut b, 3); // three methods
    for (name_idx, desc_idx, mask) in [(2u16, 3u16, 0x0001u16), (2, 4, 0x0002), (5, 3, 0x0001)] {
        push_u2(&mut b, mask);
        push_u2(&mut b, name_idx);
        push_u2(&mut b, desc_idx);
        push_u2(&mut b, 0); // no attributes
    }
    push_u2(&mut b, 0);
    b
}

#[test]
fn find_method_returns_first_match_in_declaration_order() {
    let cf = JavaClassFileParser::new(class_with_overloads()).parse().unwrap();
    let q = Query::new(&cf);
    match q.query(QueryType::QMethod("run".to_string())) {
        Some(QueryResult::QMethod(m)) => {
            assert_eq!(m.name, "run");
            assert_eq!(m.descriptor, "()V"); // the first overload, not "(I)V"
            assert_eq!(m.access_flags, vec!["ACC_PUBLIC"]);
            assert!(m.attrs.is_empty());
        }
        other => panic!("expected one method, got {:?}", other),
    }
}

#[test]
fn find_missing_method_returns_nothing() {
    let cf = JavaClassFileParser::new(class_with_overloads()).parse().unwrap();
    let q = Query::new(&cf);
    assert!(q.query(QueryType::QMethod("halt".to_string())).is_none());
}

#[test]
fn method_name_match_is_exact() {
    let cf = JavaClassFileParser::new(class_with_overloads()).parse().unwrap();
    let q = Query::new(&cf);
    assert!(q.query(QueryType::QMethod("ru".to_string())).is_none());
    assert!(q.query(QueryType::QMethod("runs".to_string())).is_none());
}

#[test]
fn list_methods_returns_every_overload_in_order() {
    let cf = JavaClassFileParser::new(class_with_overloads()).parse().unwrap();
    let q = Query::new(&cf);
    match q.query(QueryType::QMethodList) {
        Some(QueryResult::QMethodList(list)) => {
            let pairs: Vec<(&str, &str)> = list
                .iter()
                .map(|m| (m.name.as_str(), m.descriptor.as_str()))
                .collect();
            assert_eq!(
                pairs,
                vec![("run", "()V"), ("run", "(I)V"), ("stop", "()V")]
            );
            assert!(list.iter().all(|m| m.attrs.is_empty()));
            assert_eq!(list[1].access_flags, vec!["ACC_PRIVATE"]);
        }
        other => panic!("expected the method list, got {:?}", other),
    }
}

#[test]
fn list_of_empty_class_is_empty() {
    let mut b = Vec::new();
    push_u4(&mut b, 0xCAFEBABE);
    push_u2(&mut b, 0);
    push_u2(&mut b, 61);
    push_u2(&mut b, 2);
    push_utf8(&mut b, "Foo");
    push_u2(&mut b, 0);
    push_u2(&mut b, 1);
    push_u2(&mut b, 1);
    push_u2(&mut b, 0);
    push_u2(&mut b, 0);
    push_u2(&mut b, 0);
    push_u2(&mut b, 0);
    let cf = JavaClassFileParser::new(b).parse().unwrap();
    let q = Query::new(&cf);
    match q.query(QueryType::QMethodList) {
        Some(QueryResult::QMethodList(list)) => assert!(list.is_empty()),
        other => panic!("expected the method list, got {:?}", other),
    }
}
