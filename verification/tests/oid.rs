use gitgraph::commit::{CommitInfo, SignatureInfo};
use gitgraph::oid::Oid;
use gitgraph::oid_set::OidSet;

#[test]
fn oid_keeps_its_bytes() {
    let mut bytes = [0u8; 20];
    bytes[3] = 9;
    let id = Oid::from_bytes(bytes);
    assert_eq!(id.as_bytes(), &bytes);
    assert!(!id.is_zero());
    assert!(Oid::zero().is_zero());
    assert_eq!(Oid::zero().as_bytes(), &[0u8; 20]);
}

#[test]
fn oid_equality_is_by_bytes() {
    let mut bytes = [7u8; 20];
    let a = Oid::from_bytes(bytes);
    assert!(a.same(&Oid::from_bytes(bytes)));
    bytes[19] = 8;
    let b = Oid::from_bytes(bytes);
    assert!(!a.same(&b));
    assert!(a < b);
    assert_ne!(a, b);
}

#[test]
fn signature_hash_is_the_md5_of_the_email() {
    let signature = SignatureInfo::new(
        Some("Ann".to_string()),
        Some("test@example.com".to_string()),
        17,
    );
    assert_eq!(signature.hash.as_deref(), Some("55502f40dc8b7c769880b10874abc9d0"));
    assert_eq!(signature.name.as_deref(), Some("Ann"));
    assert_eq!(signature.email.as_deref(), Some("test@example.com"));
    assert_eq!(signature.time, 17);
}

#[test]
fn signature_hash_of_the_empty_email() {
    let signature = SignatureInfo::new(None, Some(String::new()), 0);
    assert_eq!(signature.hash.as_deref(), Some("d41d8cd98f00b204e9800998ecf8427e"));
}

#[test]
fn signature_without_email_has_no_hash() {
    let signature = SignatureInfo::new(Some("Ann".to_string()), None, 3);
    assert_eq!(signature.hash, None);
    assert_eq!(signature.email, None);
}

#[test]
fn commit_knows_whether_it_is_a_merge() {
    let nobody = SignatureInfo::from_parts(None, None, None, 0);
    let id = Oid::from_bytes([1; 20]);
    let one = CommitInfo::new(id, None, None, 5, vec![id], nobody.clone(), nobody.clone());
    let two = CommitInfo::new(
        id,
        Some("s".to_string()),
        None,
        5,
        vec![id, id],
        nobody.clone(),
        nobody,
    );
    assert!(!one.is_merge());
    assert!(two.is_merge());
    assert_eq!(two.summary.as_deref(), Some("s"));
    assert_eq!(two.time, 5);
}

#[test]
fn oid_set_holds_what_was_put_in() {
    let mut set = OidSet::new();
    let a = Oid::from_bytes([1; 20]);
    let mut bytes = [1u8; 20];
    bytes[19] = 2;
    // The same first bytes as `a`: both go to one bucket.
    let b = Oid::from_bytes(bytes);
    let c = Oid::from_bytes([3; 20]);
    assert!(!set.contains(&a));
    set.insert(a);
    assert!(set.contains(&a));
    assert!(!set.contains(&b));
    assert!(!set.contains(&c));
    set.insert(b);
    set.insert(c);
    set.insert(a);
    assert!(set.contains(&a) && set.contains(&b) && set.contains(&c));
    assert!(!set.contains(&Oid::zero()));
}

#[test]
fn oid_order_goes_by_the_first_byte_that_differs() {
    let low = Oid::from_bytes([5; 20]);
    let mut bytes = [5u8; 20];
    bytes[7] = 6;
    bytes[8] = 0;
    let high = Oid::from_bytes(bytes);
    assert!(low.precedes(&high));
    assert!(!high.precedes(&low));
    assert!(!low.precedes(&low));
    assert!(Oid::zero().precedes(&low));
    assert_eq!(low.precedes(&high), low < high);
    assert_eq!(high.precedes(&low), high < low);
}
