use doh_proxy::request_key::{RequestKey, RequestKeyError};

fn q(name: &str, qtype: u16, qclass: u16) -> (Vec<u8>, u16, u16) {
    (name.as_bytes().to_vec(), qtype, qclass)
}

#[test]
fn empty_question_set_yields_no_key() {
    let queries: Vec<(Vec<u8>, u16, u16)> = Vec::new();
    assert_eq!(
        RequestKey::from_queries(&queries),
        Err(RequestKeyError::EmptyQueries)
    );
}

#[test]
fn key_is_case_insensitive_over_names() {
    let a = RequestKey::from_queries(&vec![q("EXAMPLE.local.", 1, 1)]).unwrap();
    let b = RequestKey::from_queries(&vec![q("example.LOCAL.", 1, 1)]).unwrap();
    assert!(a.key_eq(&b));
}

#[test]
fn key_ignores_question_order() {
    let a = RequestKey::from_queries(&vec![q("a.test.", 1, 1), q("b.test.", 28, 1)]).unwrap();
    let b = RequestKey::from_queries(&vec![q("b.test.", 28, 1), q("a.test.", 1, 1)]).unwrap();
    assert!(a.key_eq(&b));
}

#[test]
fn key_distinguishes_types_and_classes() {
    let a = RequestKey::from_queries(&vec![q("a.test.", 1, 1)]).unwrap();
    let b = RequestKey::from_queries(&vec![q("a.test.", 28, 1)]).unwrap();
    let c = RequestKey::from_queries(&vec![q("a.test.", 1, 3)]).unwrap();
    assert!(!a.key_eq(&b));
    assert!(!a.key_eq(&c));
    assert!(!b.key_eq(&c));
}

#[test]
fn key_distinguishes_different_multisets() {
    let a = RequestKey::from_queries(&vec![q("a.test.", 1, 1), q("a.test.", 1, 1)]).unwrap();
    let b = RequestKey::from_queries(&vec![q("a.test.", 1, 1)]).unwrap();
    assert!(!a.key_eq(&b));
    assert_eq!(a.len(), 2);
    assert_eq!(b.len(), 1);
}

#[test]
fn same_multiset_under_case_and_order_gives_equal_keys() {
    let a =
        RequestKey::from_queries(&vec![q("B.test.", 1, 1), q("a.TEST.", 1, 1)]).unwrap();
    let b =
        RequestKey::from_queries(&vec![q("a.test.", 1, 1), q("b.test.", 1, 1)]).unwrap();
    assert!(a.key_eq(&b));
}

#[test]
fn bytes_eq_compares_contents() {
    assert!(doh_proxy::request_key::bytes_eq(
        &b"abc".to_vec(),
        &b"abc".to_vec()
    ));
    assert!(!doh_proxy::request_key::bytes_eq(
        &b"abc".to_vec(),
        &b"abd".to_vec()
    ));
    assert!(!doh_proxy::request_key::bytes_eq(
        &b"abc".to_vec(),
        &b"ab".to_vec()
    ));
}
