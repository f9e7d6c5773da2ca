use avarus::names::{Name, NameTables};

fn tables() -> NameTables {
    NameTables {
        first: (0..8192).map(|i| format!("f{}", i)).collect(),
        last: (0..16384).map(|i| format!("l{}", i)).collect(),
        order: (0..8).map(|i| format!("o{}", i)).collect(),
        pronouns: (0..4).map(|i| format!("p{}", i)).collect(),
    }
}

fn test_to_from(num: u32) -> u32 {
    let t = tables();
    let name = Name::from_num(num).to_str(&t).unwrap();

    Name::from_str(&name, &t).unwrap().to_num()
}

#[test]
fn middling() {
    const TEST_NUM: u32 = 6522345;
    assert_eq!(TEST_NUM, test_to_from(TEST_NUM));
}

#[test]
fn names_small() {
    const TEST_NUM: u32 = u32::MIN;
    assert_eq!(TEST_NUM, test_to_from(TEST_NUM));
}

#[test]
fn names_big() {
    const TEST_NUM: u32 = u32::MAX - 1;
    assert_eq!(TEST_NUM, test_to_from(TEST_NUM));
}

#[test]
fn many() {
    for n in 0..1000 {
        assert_eq!(n, test_to_from(n));
    }
}

#[test]
fn fields_pack_and_cut() {
    let n = Name::from_fields(4097, 16000, 5, 2);
    assert_eq!(n.first(), 4097);
    assert_eq!(n.last(), 16000);
    assert_eq!(n.order(), 5);
    assert_eq!(n.pronouns(), 2);
}

#[test]
fn written_form_reads_back() {
    let t = tables();
    let n = Name::from_fields(12, 34, 6, 1);
    let s = n.to_str(&t).unwrap();
    assert_eq!(s, "f12 l34 o6 (p1)");
    assert_eq!(Name::from_str(&s, &t).unwrap(), n);
}

#[test]
fn malformed_names_are_refused() {
    let t = tables();
    assert!(Name::from_str("f1 l1 o1", &t).is_err());
    assert!(Name::from_str("nosuch l1 o1 (p1)", &t).is_err());
    assert!(Name::from_str("f1 nosuch o1 (p1)", &t).is_err());
    assert!(Name::from_str("f1 l1 nosuch (p1)", &t).is_err());
    assert!(Name::from_str("f1 l1 o1 (nosuch)", &t).is_err());
}
