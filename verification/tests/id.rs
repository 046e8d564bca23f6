use schling_common::id::{InvalidFormat, ParseError};
use schling_common::id::{Doc, Proj, Sec};
use std::cmp::Ordering;
use std::collections::{BTreeMap, HashMap};

fn malformed<T>(at: usize) -> Result<T, ParseError> {
    Err(ParseError::Malformed { at })
}

#[test]
fn compact_text_is_the_tokens_of_the_chain() {
    assert_eq!(Proj::new(3).to_string(), "00000003");
    assert_eq!(Doc::new(5, Proj::new(3)).to_string(), "0000000300000005");
    assert_eq!(
        Doc::new(5, Proj::new(3)).to_string(),
        "00000003".to_string() + "00000005"
    );
    assert_eq!(
        Sec::new(0xABCDEF, Doc::new(5, Proj::new(u32::MAX))).to_string(),
        "FFFFFFFF0000000500ABCDEF"
    );
}

#[test]
fn human_readable_text_is_tags_and_decimals() {
    assert_eq!(Proj::new(3).to_query(), "proj=3");
    assert_eq!(Doc::new(5, Proj::new(3)).to_query(), "proj=3&doc=5");
    assert_eq!(
        Sec::new(0, Doc::new(4294967295, Proj::new(10))).to_query(),
        "proj=10&doc=4294967295&card=0"
    );
}

#[test]
fn compact_text_parses_back() {
    let proj = Proj::new(0xDEADBEEF);
    let doc = Doc::new(0, proj);
    let sec = Sec::new(u32::MAX, doc);
    assert_eq!(Proj::from_str(&proj.to_string()), Ok(proj));
    assert_eq!(Doc::from_str(&doc.to_string()), Ok(doc));
    assert_eq!(Sec::from_str(&sec.to_string()), Ok(sec));
    assert_eq!("0000000300000005".parse::<Doc>(), Ok(Doc::new(5, Proj::new(3))));
    assert_eq!("0000000a".parse::<Proj>(), Ok(Proj::new(10)));
    assert_eq!("000000010000000200000003".parse::<Sec>(), Ok(Sec::new(3, Doc::new(2, Proj::new(1)))));
}

#[test]
fn parsing_stops_behind_the_last_token() {
    assert_eq!(Proj::from_str("0000000300000005"), Ok(Proj::new(3)));
    assert_eq!(Doc::from_str("0000000300000005 and more"), Ok(Doc::new(5, Proj::new(3))));
}

#[test]
fn short_or_non_hex_text_is_rejected_at_the_token_that_fails() {
    assert_eq!(Proj::from_str(""), malformed(0));
    assert_eq!(Proj::from_str("1234567"), malformed(0));
    assert_eq!(Proj::from_str("proj=3"), malformed(0));
    assert_eq!(Doc::from_str("00000003"), malformed(8));
    assert_eq!(Doc::from_str("000000030000000"), malformed(8));
    assert_eq!(Doc::from_str("0000000300000x05"), malformed(8));
    assert_eq!(Doc::from_str("0000000g00000005"), malformed(0));
    assert_eq!(Sec::from_str("0000000300000005"), malformed(16));
    assert_eq!(Sec::from_str("00000003000000050000000-"), malformed(16));
    assert_eq!(Sec::from_str("00000003 000000500000001"), malformed(8));
    assert_eq!(Sec::from_str("\u{fffd}0000003000000050000001"), malformed(0));
}

#[test]
fn human_readable_text_parses_back() {
    let proj = Proj::new(7);
    let doc = Doc::new(4294967295, proj);
    let sec = Sec::new(0, doc);
    assert_eq!(Proj::from_query(&proj.to_query()), Ok(proj));
    assert_eq!(Doc::from_query(&doc.to_query()), Ok(doc));
    assert_eq!(Sec::from_query(&sec.to_query()), Ok(sec));
    assert_eq!(Proj::from_query("proj=007"), Ok(Proj::new(7)));
    assert_eq!(Proj::from_query("proj=3&doc=5"), Ok(Proj::new(3)));
    assert_eq!(Doc::from_query("proj=3&doc=5&card=1"), Ok(Doc::new(5, Proj::new(3))));
    assert_eq!(Sec::from_query("proj=3&doc=5&card=1#top"), Ok(Sec::new(1, Doc::new(5, Proj::new(3)))));
}

#[test]
fn human_readable_text_is_rejected_at_the_part_that_fails() {
    assert_eq!(Proj::from_query(""), malformed(0));
    assert_eq!(Proj::from_query("proj"), malformed(0));
    assert_eq!(Proj::from_query("Proj=3"), malformed(0));
    assert_eq!(Proj::from_query("proj="), malformed(5));
    assert_eq!(Proj::from_query("proj=x"), malformed(5));
    assert_eq!(Proj::from_query("proj=-1"), malformed(5));
    assert_eq!(Proj::from_query("proj=4294967296"), malformed(5));
    assert_eq!(Proj::from_query("proj=99999999999999999999999999"), malformed(5));
    assert_eq!(Doc::from_query("proj=3"), malformed(6));
    assert_eq!(Doc::from_query("proj=3&card=5"), malformed(6));
    assert_eq!(Doc::from_query("proj=31&doc="), malformed(12));
    assert_eq!(Sec::from_query("proj=3&doc=5"), malformed(12));
    assert_eq!(Sec::from_query("proj=3&doc=5&card=4294967296"), malformed(18));
    assert_eq!(Sec::from_query("00000003000000050000000A"), malformed(0));
}

#[test]
fn the_next_identifier_takes_the_count_as_its_value() {
    let proj = Proj::new(9);
    let doc = proj.next_id(2);
    assert_eq!(doc.value, 2);
    assert_eq!(doc.proj, proj);
    assert_eq!(doc, Doc::new(2, proj));
    let sec = doc.next_id(2);
    assert_eq!(sec.value, 2);
    assert_eq!(sec.doc, doc);
    assert_eq!(proj.next_id(0), Doc::new(0, proj));
    assert_eq!(doc.next_id(u32::MAX).value, u32::MAX);
}

#[test]
fn stored_text_is_the_compact_text_and_reads_back() {
    let sec = Sec::new(1, Doc::new(2, Proj::new(3)));
    assert_eq!(sec.serialize(), sec.to_string());
    assert_eq!(sec.doc.serialize(), "0000000300000002");
    assert_eq!(sec.doc.proj.serialize(), "00000003");
    assert_eq!(Sec::deserialize(&sec.serialize()), Ok(sec));
    assert_eq!(Doc::deserialize(&sec.doc.serialize()), Ok(sec.doc));
    assert_eq!(Proj::deserialize(&sec.doc.proj.serialize()), Ok(sec.doc.proj));
}

#[test]
fn a_failure_at_the_stored_text_is_only_invalid_format() {
    assert_eq!(Proj::deserialize("nonsense"), Err(InvalidFormat));
    assert_eq!(Doc::deserialize("00000003"), Err(InvalidFormat));
    assert_eq!(Sec::deserialize("proj=3&doc=5&card=1"), Err(InvalidFormat));
}

#[test]
fn identifiers_are_copies_of_their_parents() {
    let mut proj = Proj::new(1);
    let doc = Doc::new(2, proj);
    proj.value = 99;
    assert_eq!(doc.proj, Proj::new(1));
    assert_eq!(proj, Proj::new(99));
}

#[test]
fn equality_and_order_look_at_the_whole_chain() {
    let a = Doc::new(5, Proj::new(1));
    let b = Doc::new(5, Proj::new(2));
    assert_ne!(a, b);
    assert!(a < b);
    assert_eq!(a.partial_cmp(&b), Some(Ordering::Less));
    assert_eq!(b.partial_cmp(&a), Some(Ordering::Greater));
    assert_eq!(a.partial_cmp(&a), Some(Ordering::Equal));
    assert!(Doc::new(9, Proj::new(1)) < Doc::new(0, Proj::new(2)));
    assert!(Doc::new(1, Proj::new(1)) < Doc::new(2, Proj::new(1)));
    assert!(Sec::new(9, a) < Sec::new(0, b));
    assert!(Sec::new(0, a) < Sec::new(1, a));
    assert!(Sec::new(7, Doc::new(9, Proj::new(0))) < Sec::new(0, Doc::new(0, Proj::new(1))));
    assert!(Proj::new(1) < Proj::new(2));
    assert_eq!(Proj::new(4).partial_cmp(&Proj::new(3)), Some(Ordering::Greater));
}

#[test]
fn the_order_by_hand_and_the_derived_one_agree() {
    let values = [0u32, 1, 2, u32::MAX];
    let mut all = Vec::new();
    for p in values {
        for d in values {
            for s in values {
                all.push(Sec::new(s, Doc::new(d, Proj::new(p))));
            }
        }
    }
    for a in &all {
        for b in &all {
            assert_eq!(a.partial_cmp(b), Some(a.cmp(b)));
            assert_eq!(a.doc.partial_cmp(&b.doc), Some(a.doc.cmp(&b.doc)));
            assert_eq!(a.doc.proj.partial_cmp(&b.doc.proj), Some(a.doc.proj.cmp(&b.doc.proj)));
            assert_eq!(a.cmp(b) == Ordering::Equal, a == b);
        }
    }
}

#[test]
fn identifiers_are_keys_of_maps() {
    let a = Sec::new(1, Doc::new(1, Proj::new(1)));
    let b = Sec::new(1, Doc::new(1, Proj::new(2)));
    let mut hashed = HashMap::new();
    hashed.insert(a, "a");
    hashed.insert(b, "b");
    assert_eq!(hashed.len(), 2);
    assert_eq!(hashed[&a], "a");
    let mut ordered = BTreeMap::new();
    ordered.insert(b, "b");
    ordered.insert(a, "a");
    assert_eq!(ordered.keys().copied().collect::<Vec<_>>(), vec![a, b]);
}

#[test]
fn identifiers_convert_from_and_to_their_values() {
    assert_eq!(Proj::from(7), Proj::new(7));
    assert_eq!(u32::from(Proj::new(7)), 7);
    assert_eq!(u32::from(Doc::new(8, Proj::new(7))), 8);
    assert_eq!(u32::from(Sec::new(9, Doc::new(8, Proj::new(7)))), 9);
}
