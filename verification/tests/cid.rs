use wnfs_adapter::cid::{accept_decoded, confirm_text, parse_cid, parse_cid_text, serialize_cid};
use wnfs_adapter::error::AdapterError;

const TEXT_V1: &str = "bafyreibjo4xmgaevkgud7mbifn3dzp4v4lyaui4yvqp3f2bqwtxcjrdqg4";

const DIGEST: [u8; 32] = [
    41, 119, 46, 195, 0, 149, 81, 168, 63, 176, 40, 43, 118, 60, 191, 149, 226, 240, 10, 35, 152,
    172, 31, 178, 232, 48, 180, 238, 36, 196, 112, 55,
];

/// The binary form of `TEXT_V1`: version 1, codec dag-cbor, sha2-256.
fn bytes_v1() -> Vec<u8> {
    let mut bytes = vec![0x01, 0x71, 0x12, 0x20];
    bytes.extend_from_slice(&DIGEST);
    bytes
}

/// A version 0 identifier: a bare sha2-256 multihash.
fn bytes_v0() -> Vec<u8> {
    let mut bytes = vec![0x12, 0x20];
    bytes.extend_from_slice(&DIGEST);
    bytes
}

fn unprintable() -> AdapterError {
    AdapterError::SerializationFailure("CID has no text form".to_string())
}

#[test]
fn binary_form_is_read() {
    let id = parse_cid(&bytes_v1()).unwrap();
    assert_eq!(id.as_bytes(), bytes_v1().as_slice());
}

#[test]
fn version_zero_is_read() {
    let id = parse_cid(&bytes_v0()).unwrap();
    assert_eq!(id.as_bytes(), bytes_v0().as_slice());
}

#[test]
fn what_follows_an_identifier_is_not_part_of_it() {
    let mut input = bytes_v1();
    input.extend_from_slice(&[0xde, 0xad, 0xbe, 0xef]);
    let id = parse_cid(&input).unwrap();
    assert_eq!(id.as_bytes(), bytes_v1().as_slice());
    assert!(id.same_as(&parse_cid(&bytes_v1()).unwrap()));
}

#[test]
fn empty_input_is_invalid() {
    assert_eq!(parse_cid(&[]), Err(AdapterError::InvalidCid));
}

#[test]
fn garbage_is_invalid() {
    assert_eq!(parse_cid(&[0xff, 0xff, 0xff]), Err(AdapterError::InvalidCid));
    assert_eq!(parse_cid(&[0x05, 0x71, 0x12, 0x20]), Err(AdapterError::InvalidCid));
}

#[test]
fn a_truncated_identifier_is_invalid() {
    let bytes = bytes_v1();
    for cut in 0..bytes.len() {
        assert_eq!(parse_cid(&bytes[..cut]), Err(AdapterError::InvalidCid), "cut at {}", cut);
    }
}

#[test]
fn an_unknown_version_is_invalid() {
    let mut bytes = bytes_v1();
    bytes[0] = 0x02;
    assert_eq!(parse_cid(&bytes), Err(AdapterError::InvalidCid));
}

#[test]
fn a_digest_that_is_too_long_is_invalid() {
    let mut bytes = vec![0x01, 0x71, 0x12, 0x41];
    bytes.extend_from_slice(&[0u8; 65]);
    assert_eq!(parse_cid(&bytes), Err(AdapterError::InvalidCid));
}

#[test]
fn textual_form_is_read() {
    let id = parse_cid_text(TEXT_V1).unwrap();
    assert_eq!(id.as_bytes(), bytes_v1().as_slice());
}

#[test]
fn textual_form_behind_a_gateway_prefix_is_read() {
    let text = format!("/ipfs/{}", TEXT_V1);
    let id = parse_cid_text(&text).unwrap();
    assert_eq!(id.as_bytes(), bytes_v1().as_slice());
}

#[test]
fn malformed_text_is_invalid() {
    assert_eq!(parse_cid_text(""), Err(AdapterError::InvalidCid));
    assert_eq!(parse_cid_text("b"), Err(AdapterError::InvalidCid));
    assert_eq!(parse_cid_text("not a cid"), Err(AdapterError::InvalidCid));
    assert_eq!(parse_cid_text("bafy!!!"), Err(AdapterError::InvalidCid));
    assert_eq!(parse_cid_text("Qm"), Err(AdapterError::InvalidCid));
    assert_eq!(parse_cid_text("é"), Err(AdapterError::InvalidCid));
}

#[test]
fn text_cut_short_is_invalid() {
    assert_eq!(parse_cid_text(&TEXT_V1[..TEXT_V1.len() - 8]), Err(AdapterError::InvalidCid));
}

#[test]
fn identifier_is_written_as_text() {
    let id = parse_cid(&bytes_v1()).unwrap();
    assert_eq!(serialize_cid(&id), Ok(TEXT_V1.to_string()));
}

#[test]
fn version_zero_is_written_in_base58() {
    let id = parse_cid(&bytes_v0()).unwrap();
    let text = serialize_cid(&id).unwrap();
    assert_eq!(text.len(), 46);
    assert!(text.starts_with("Qm"));
}

#[test]
fn reading_a_cid_inverts_writing_it() {
    for bytes in [bytes_v0(), bytes_v1()] {
        let id = parse_cid(&bytes).unwrap();
        let text = serialize_cid(&id).unwrap();
        let again = parse_cid_text(&text).unwrap();
        assert!(again.same_as(&id));
        assert_eq!(again.as_bytes(), bytes.as_slice());
    }
}

#[test]
fn different_identifiers_have_different_texts() {
    let one = parse_cid(&bytes_v1()).unwrap();
    let mut other_bytes = bytes_v1();
    other_bytes[10] ^= 1;
    let other = parse_cid(&other_bytes).unwrap();
    assert!(!one.same_as(&other));
    assert_ne!(serialize_cid(&one), serialize_cid(&other));
}

#[test]
fn duplicate_is_the_same_identifier() {
    let id = parse_cid(&bytes_v1()).unwrap();
    let copy = id.duplicate();
    assert!(copy.same_as(&id));
    assert_eq!(copy, id);
}

#[test]
fn accept_decoded_keeps_the_bytes() {
    assert_eq!(accept_decoded(Ok(vec![1, 2, 3])), Ok(vec![1, 2, 3]));
}

#[test]
fn accept_decoded_turns_every_objection_into_invalid_cid() {
    assert_eq!(accept_decoded(Err(libipld::cid::Error::InputTooShort)), Err(AdapterError::InvalidCid));
    assert_eq!(accept_decoded(Err(libipld::cid::Error::ParsingError)), Err(AdapterError::InvalidCid));
    assert_eq!(
        accept_decoded(Err(libipld::cid::Error::InvalidCidVersion)),
        Err(AdapterError::InvalidCid)
    );
}

#[test]
fn confirm_text_hands_on_a_text_that_reads_back() {
    assert_eq!(
        confirm_text(&[1, 2, 3], "text".to_string(), Ok(vec![1, 2, 3])),
        Ok("text".to_string())
    );
}

#[test]
fn confirm_text_refuses_a_text_that_reads_back_as_another() {
    assert_eq!(confirm_text(&[1, 2, 3], "text".to_string(), Ok(vec![1, 2, 4])), Err(unprintable()));
    assert_eq!(confirm_text(&[1, 2, 3], "text".to_string(), Ok(vec![1, 2])), Err(unprintable()));
}

#[test]
fn confirm_text_refuses_a_text_that_does_not_read_back() {
    assert_eq!(
        confirm_text(&[1, 2, 3], "text".to_string(), Err(libipld::cid::Error::ParsingError)),
        Err(unprintable())
    );
}
