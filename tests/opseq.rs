use rustpad::opseq::OpSeq;

#[test]
fn compose_operations() {
    let mut a = OpSeq::default();
    a.insert("abc");
    let mut b = OpSeq::default();
    b.retain(3);
    b.insert("def");
    let after_a = a.apply("").unwrap();
    let after_b = b.apply(&after_a).unwrap();
    let c = a.compose(&b).unwrap();
    let after_c = c.apply("").unwrap();
    assert_eq!(after_c, after_b);
    assert_eq!(after_c, "abcdef");
}

#[test]
fn transform_operations() {
    let s = "abc";
    let mut a = OpSeq::default();
    a.retain(3);
    a.insert("def");
    let mut b = OpSeq::default();
    b.retain(3);
    b.insert("ghi");
    let pair = a.transform(&b).unwrap();
    let (a_prime, b_prime) = (pair.first(), pair.second());
    let ab_prime = a.compose(&b_prime).unwrap();
    let ba_prime = b.compose(&a_prime).unwrap();
    let after_ab_prime = ab_prime.apply(s).unwrap();
    let after_ba_prime = ba_prime.apply(s).unwrap();
    assert_eq!(ab_prime, ba_prime);
    assert_eq!(after_ab_prime, after_ba_prime);
    // the first operation's insert goes first
    assert_eq!(after_ab_prime, "abcdefghi");
}

#[test]
fn invert_operations() {
    let s = "abc";
    let mut o = OpSeq::default();
    o.retain(3);
    o.insert("def");
    let p = o.invert(s);
    assert_eq!(p.apply(&o.apply(s).unwrap()).unwrap(), s);
    assert_eq!(p.base_len(), 6);
    assert_eq!(p.target_len(), 3);
}

#[test]
fn invert_restores_deleted_text() {
    let s = "hello world";
    let mut o = OpSeq::new();
    o.retain(6);
    o.delete(5);
    o.insert("there");
    assert_eq!(o.apply(s).unwrap(), "hello there");
    let p = o.invert(s);
    assert_eq!(p.apply("hello there").unwrap(), s);
}

#[test]
fn transform_index() {
    let mut o = OpSeq::default();
    o.retain(3);
    o.insert("def");
    o.retain(3);
    o.insert("abc");
    assert_eq!(o.transform_index(2), 2);
    assert_eq!(o.transform_index(3), 6);
    assert_eq!(o.transform_index(5), 8);
    assert_eq!(o.transform_index(7), 13);
}

#[test]
fn transform_index_across_delete() {
    let mut o = OpSeq::new();
    o.retain(2);
    o.delete(3);
    o.retain(4);
    assert_eq!(o.transform_index(0), 0);
    assert_eq!(o.transform_index(2), 2);
    assert_eq!(o.transform_index(4), 2);
    assert_eq!(o.transform_index(5), 2);
    assert_eq!(o.transform_index(7), 4);
    // past the base length
    assert_eq!(o.transform_index(20), 17);
}

#[test]
fn transform_index_counts_code_points() {
    let mut o = OpSeq::new();
    o.insert("🎉é");
    o.retain(2);
    assert_eq!(o.transform_index(0), 2);
    assert_eq!(o.transform_index(1), 3);
}

#[test]
fn lengths_count_code_points() {
    let mut o = OpSeq::new();
    o.insert("h🎉e🎉l👨\u{200d}👨\u{200d}👦\u{200d}👦lo");
    assert_eq!(o.base_len(), 0);
    assert_eq!(o.target_len(), 14);
    let mut family = OpSeq::new();
    family.insert("👨\u{200d}👨\u{200d}👦\u{200d}👦");
    assert_eq!(family.target_len(), 7);
    let mut party = OpSeq::new();
    party.insert("🎉");
    assert_eq!(party.target_len(), 1);
    let mut d = OpSeq::new();
    d.delete(14);
    assert_eq!(d.base_len(), 14);
    assert_eq!(d.target_len(), 0);
    assert_eq!(d.apply("h🎉e🎉l👨\u{200d}👨\u{200d}👦\u{200d}👦lo").unwrap(), "");
}

#[test]
fn apply_rejects_wrong_length() {
    let mut o = OpSeq::new();
    o.retain(3);
    assert_eq!(o.apply("ab"), None);
    assert_eq!(o.apply("abcd"), None);
    // three code points, more bytes
    assert_eq!(o.apply("🎉🎉🎉").unwrap(), "🎉🎉🎉");
}

#[test]
fn compose_rejects_wrong_length() {
    let mut a = OpSeq::new();
    a.insert("abc");
    let mut b = OpSeq::new();
    b.retain(2);
    assert!(a.compose(&b).is_none());
}

#[test]
fn transform_rejects_wrong_length() {
    let mut a = OpSeq::new();
    a.retain(2);
    let mut b = OpSeq::new();
    b.retain(3);
    assert!(a.transform(&b).is_none());
    assert!(a.transform_raw(&b).is_none());
}

#[test]
fn transform_converges() {
    let s = "hello";
    let mut a = OpSeq::new();
    a.retain(2);
    a.insert("n");
    a.delete(1);
    a.retain(2);
    let mut b = OpSeq::new();
    b.delete(1);
    b.retain(4);
    b.insert("!");
    let (a2, b2) = a.transform_raw(&b).unwrap();
    let left = b2.apply(&a.apply(s).unwrap()).unwrap();
    let right = a2.apply(&b.apply(s).unwrap()).unwrap();
    assert_eq!(left, right);
    assert_eq!(left, "enlo!");
}

#[test]
fn builders_merge_and_reorder() {
    let mut o1 = OpSeq::new();
    o1.delete(1);
    o1.insert("lo");
    o1.retain(2);
    o1.retain(3);
    let mut o2 = OpSeq::new();
    o2.delete(1);
    o2.insert("l");
    o2.insert("o");
    o2.retain(5);
    assert_eq!(o1, o2);
    assert_eq!(o1.base_len(), 6);
    assert_eq!(o1.target_len(), 7);
}

#[test]
fn noop_detection() {
    let mut o = OpSeq::with_capacity(4);
    assert!(o.is_noop());
    o.retain(5);
    assert!(o.is_noop());
    o.retain(3);
    assert!(o.is_noop());
    o.insert("lorem");
    assert!(!o.is_noop());
}

#[test]
fn pair_parts_are_copies() {
    let mut a = OpSeq::new();
    a.insert("x");
    let b = OpSeq::new();
    let pair = a.transform(&b).unwrap();
    let first = pair.first();
    let second = pair.second();
    assert_eq!(first.base_len(), 0);
    assert_eq!(first.target_len(), 1);
    assert_eq!(second.base_len(), 1);
    assert_eq!(second.target_len(), 1);
    assert_ne!(first, second);
}

#[test]
fn lengths_fit_at_the_limit() {
    let mut o = OpSeq::new();
    o.insert("abc");
    assert!(o.lengths_fit());
    let mut big = operational_transform::OperationSeq::default();
    big.retain(u64::MAX);
    assert!(OpSeq(big).lengths_fit());
}

#[test]
fn transform_result_lengths() {
    let mut a = OpSeq::new();
    a.retain(2);
    a.insert("xyz");
    let mut b = OpSeq::new();
    b.delete(1);
    b.retain(1);
    let (a2, b2) = a.transform_raw(&b).unwrap();
    assert_eq!(a2.base_len(), b.target_len());
    assert_eq!(b2.base_len(), a.target_len());
    assert_eq!(a2.target_len(), b2.target_len());
    assert_eq!(a2.target_len(), 4);
}
