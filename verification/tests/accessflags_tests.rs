use rusvm::accessflags::{
    class_access_flag_table, method_access_flag_table, parse_access_flags,
    parse_class_access_flags, parse_method_access_flags,
};

#[test]
fn class_mask_0x0021_gives_public_and_super() {
    assert_eq!(parse_class_access_flags(0x0021), vec!["ACC_PUBLIC", "ACC_SUPER"]);
}

#[test]
fn method_mask_0x0009_gives_public_and_static() {
    assert_eq!(parse_method_access_flags(0x0009), vec!["ACC_PUBLIC", "ACC_STATIC"]);
}

#[test]
fn zero_mask_gives_no_flags() {
    assert!(parse_class_access_flags(0).is_empty());
    assert!(parse_method_access_flags(0).is_empty());
}

#[test]
fn result_order_follows_the_table_not_the_bits() {
    assert_eq!(
        parse_method_access_flags(0x0400 | 0x0001),
        vec!["ACC_PUBLIC", "ACC_ABSTRACT"]
    );
}

#[test]
fn decode_is_pure_and_repeatable() {
    let first = parse_class_access_flags(0x0431);
    let second = parse_class_access_flags(0x0431);
    assert_eq!(first, second);
}

#[test]
fn bits_outside_the_table_are_ignored() {
    // 0x8000 names no class-level flag: setting it changes nothing.
    assert_eq!(
        parse_class_access_flags(0x0021 | 0x8000),
        parse_class_access_flags(0x0021)
    );
    // 0x0002 names no class-level flag either, though it is a method flag.
    assert_eq!(
        parse_class_access_flags(0x0021 | 0x0002),
        parse_class_access_flags(0x0021)
    );
}

#[test]
fn same_bit_means_different_names_per_table() {
    assert_eq!(parse_class_access_flags(0x0020), vec!["ACC_SUPER"]);
    assert_eq!(parse_method_access_flags(0x0020), vec!["ACC_SYNCHRONIZED"]);
}

#[test]
fn decode_against_an_explicit_table() {
    let table = vec![("left", 0x0001u16), ("right", 0x0002u16)];
    assert_eq!(parse_access_flags(0x0003, &table), vec!["left", "right"]);
    assert_eq!(parse_access_flags(0x0002, &table), vec!["right"]);
    assert_eq!(parse_access_flags(0xfffc, &table), Vec::<String>::new());
}

#[test]
fn exported_tables_match_the_format() {
    let class_table = class_access_flag_table();
    assert_eq!(class_table.len(), 8);
    assert_eq!(class_table[0], ("ACC_PUBLIC", 0x0001));
    assert_eq!(class_table[7], ("ACC_ENUM", 0x4000));
    let method_table = method_access_flag_table();
    assert_eq!(method_table.len(), 12);
    assert_eq!(method_table[3], ("ACC_STATIC", 0x0008));
}
