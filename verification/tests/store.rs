use std::collections::HashMap;

use wnfs_adapter::error::AdapterError;
use wnfs_adapter::hex::{hex_encode, push_hex};
use wnfs_adapter::store::{GetReply, HostCall, JSStore, PutReply};

/// A host that keeps what it is given in memory.
struct MemoryHost {
    held: HashMap<Vec<u8>, Vec<u8>>,
}

impl MemoryHost {
    fn new() -> Self {
        MemoryHost { held: HashMap::new() }
    }

    fn put(&mut self, call: HostCall) -> PutReply {
        match call {
            HostCall::Put { key, value } => {
                self.held.insert(key, value);
                PutReply::Acknowledged
            }
            HostCall::Get { .. } => PutReply::Rejected("not a put".to_string()),
        }
    }

    fn get(&self, call: HostCall) -> GetReply {
        match call {
            HostCall::Get { key } => match self.held.get(&key) {
                Some(value) => GetReply::Value(value.clone()),
                None => GetReply::Value(Vec::new()),
            },
            HostCall::Put { .. } => GetReply::Rejected("not a get".to_string()),
        }
    }
}

#[test]
fn hex_of_no_bytes_is_empty() {
    assert_eq!(hex_encode(&[]), Vec::<u8>::new());
}

#[test]
fn hex_is_lower_case_high_nibble_first() {
    assert_eq!(hex_encode(&[0x00, 0xff, 0x1a, 0xa1, 0x09, 0x90]), b"00ff1aa10990".to_vec());
}

#[test]
fn hex_covers_every_digit() {
    assert_eq!(
        hex_encode(&[0x01, 0x23, 0x45, 0x67, 0x89, 0xab, 0xcd, 0xef]),
        b"0123456789abcdef".to_vec()
    );
}

#[test]
fn push_hex_appends() {
    let mut out = b"key:".to_vec();
    push_hex(&mut out, &[0xbe, 0xef]);
    assert_eq!(out, b"key:beef".to_vec());
    push_hex(&mut out, &[]);
    assert_eq!(out, b"key:beef".to_vec());
}

#[test]
fn key_is_namespace_then_hex() {
    let store = JSStore::new("fula/".to_string());
    assert_eq!(store.key_for(&[0x01, 0x55, 0x12]), b"fula/015512".to_vec());
}

#[test]
fn key_of_empty_namespace_is_hex_alone() {
    let store = JSStore::new(String::new());
    assert_eq!(store.key_for(&[0xde, 0xad]), b"dead".to_vec());
}

#[test]
fn key_takes_namespace_as_utf8() {
    let store = JSStore::new("é:".to_string());
    assert_eq!(store.key_for(&[0x0f]), vec![0xc3, 0xa9, b':', b'0', b'f']);
}

#[test]
fn keys_of_different_identifiers_differ() {
    let store = JSStore::new("ns".to_string());
    assert_ne!(store.key_for(&[0x01, 0x10]), store.key_for(&[0x01, 0x01]));
    assert_ne!(store.key_for(&[0x01]), store.key_for(&[0x01, 0x00]));
}

#[test]
fn get_block_asks_for_the_key() {
    let store = JSStore::new("ns-".to_string());
    assert_eq!(store.get_block(vec![0xab, 0xcd]), HostCall::Get { key: b"ns-abcd".to_vec() });
}

#[test]
fn put_block_writes_the_bytes_under_the_key() {
    let store = JSStore::new("ns-".to_string());
    assert_eq!(
        store.put_block(vec![0xab, 0xcd], vec![1, 2, 3]),
        HostCall::Put { key: b"ns-abcd".to_vec(), value: vec![1, 2, 3] }
    );
}

#[test]
fn complete_get_hands_the_block_on() {
    assert_eq!(JSStore::complete_get(GetReply::Value(vec![7, 8, 9])), Ok(vec![7, 8, 9]));
}

#[test]
fn complete_get_reports_an_empty_value_as_absent() {
    assert_eq!(
        JSStore::complete_get(GetReply::Value(Vec::new())),
        Err(AdapterError::StoreReadAbsent("Block data is empty".to_string()))
    );
}

#[test]
fn complete_get_reports_a_rejection_with_its_message() {
    assert_eq!(
        JSStore::complete_get(GetReply::Rejected("Failed to call 'get': boom".to_string())),
        Err(AdapterError::StoreReadAbsent("Failed to call 'get': boom".to_string()))
    );
}

#[test]
fn complete_get_reports_what_is_no_byte_string() {
    assert_eq!(
        JSStore::complete_get(GetReply::Undecodable("not a Uint8Array".to_string())),
        Err(AdapterError::SerializationFailure("not a Uint8Array".to_string()))
    );
}

#[test]
fn blocking_get_hands_the_block_on() {
    assert_eq!(JSStore::complete_get_blocking(GetReply::Value(vec![7, 8, 9])), vec![7, 8, 9]);
}

#[test]
fn blocking_get_folds_every_failure_into_no_bytes() {
    assert_eq!(JSStore::complete_get_blocking(GetReply::Value(Vec::new())), Vec::<u8>::new());
    assert_eq!(
        JSStore::complete_get_blocking(GetReply::Rejected("boom".to_string())),
        Vec::<u8>::new()
    );
    assert_eq!(
        JSStore::complete_get_blocking(GetReply::Undecodable("boom".to_string())),
        Vec::<u8>::new()
    );
}

#[test]
fn both_variants_yield_the_same_bytes() {
    let replies = || {
        vec![
            GetReply::Value(vec![1]),
            GetReply::Value(vec![0, 0, 0]),
            GetReply::Value(Vec::new()),
            GetReply::Rejected("r".to_string()),
            GetReply::Undecodable("u".to_string()),
        ]
    };
    for (one, other) in replies().into_iter().zip(replies()) {
        let blocking = JSStore::complete_get_blocking(one);
        match JSStore::complete_get(other) {
            Ok(block) => assert_eq!(blocking, block),
            Err(_) => assert_eq!(blocking, Vec::<u8>::new()),
        }
    }
}

#[test]
fn complete_put_acknowledges() {
    assert_eq!(JSStore::complete_put(PutReply::Acknowledged), Ok(()));
}

#[test]
fn complete_put_reports_a_rejection_as_write_failure() {
    assert_eq!(
        JSStore::complete_put(PutReply::Rejected("quota exceeded".to_string())),
        Err(AdapterError::StoreWriteFailure("quota exceeded".to_string()))
    );
}

#[test]
fn a_block_that_was_put_is_got_back() {
    let store = JSStore::new("client-1/".to_string());
    let mut host = MemoryHost::new();
    let cid = vec![0x01, 0x55, 0x12, 0x20, 0xaa];
    let blocks: Vec<Vec<u8>> = vec![vec![0], vec![1, 2, 3], vec![0xff; 1000], b"!!!???".to_vec()];
    for block in blocks {
        let ack = JSStore::complete_put(host.put(store.put_block(cid.clone(), block.clone())));
        assert_eq!(ack, Ok(()));
        let got = JSStore::complete_get(host.get(store.get_block(cid.clone())));
        assert_eq!(got, Ok(block.clone()));
        let got = JSStore::complete_get_blocking(host.get(store.get_block(cid.clone())));
        assert_eq!(got, block);
    }
}

#[test]
fn an_empty_block_is_got_back_only_by_the_blocking_variant() {
    let store = JSStore::new("client-1/".to_string());
    let mut host = MemoryHost::new();
    let cid = vec![0x01, 0x55];
    let _ = host.put(store.put_block(cid.clone(), Vec::new()));
    assert_eq!(
        JSStore::complete_get_blocking(host.get(store.get_block(cid.clone()))),
        Vec::<u8>::new()
    );
    assert_eq!(
        JSStore::complete_get(host.get(store.get_block(cid))),
        Err(AdapterError::StoreReadAbsent("Block data is empty".to_string()))
    );
}

#[test]
fn a_put_leaves_other_blocks_alone() {
    let store = JSStore::new("client-1/".to_string());
    let mut host = MemoryHost::new();
    let _ = host.put(store.put_block(vec![1], vec![10]));
    let _ = host.put(store.put_block(vec![2], vec![20]));
    assert_eq!(JSStore::complete_get(host.get(store.get_block(vec![1]))), Ok(vec![10]));
    assert_eq!(JSStore::complete_get(host.get(store.get_block(vec![2]))), Ok(vec![20]));
}

#[test]
fn a_block_that_was_never_put_is_absent() {
    let store = JSStore::new("client-1/".to_string());
    let host = MemoryHost::new();
    assert_eq!(
        JSStore::complete_get(host.get(store.get_block(vec![9]))),
        Err(AdapterError::StoreReadAbsent("Block data is empty".to_string()))
    );
    assert_eq!(
        JSStore::complete_get_blocking(host.get(store.get_block(vec![9]))),
        Vec::<u8>::new()
    );
}

#[test]
fn namespaces_keep_clients_apart() {
    let one = JSStore::new("one/".to_string());
    let two = JSStore::new("two/".to_string());
    let mut host = MemoryHost::new();
    let _ = host.put(one.put_block(vec![1], vec![10]));
    assert_eq!(JSStore::complete_get_blocking(host.get(two.get_block(vec![1]))), Vec::<u8>::new());
    assert_eq!(JSStore::complete_get_blocking(host.get(one.get_block(vec![1]))), vec![10]);
}

#[test]
fn error_messages_are_those_of_the_cause() {
    assert_eq!(AdapterError::InvalidCid.message(), "Invalid CID");
    assert_eq!(AdapterError::ForestLoadFailure("a".to_string()).message(), "a");
    assert_eq!(AdapterError::StoreWriteFailure("b".to_string()).message(), "b");
    assert_eq!(AdapterError::StoreReadAbsent("c".to_string()).message(), "c");
    assert_eq!(AdapterError::TreeOperationFailure("d".to_string()).message(), "d");
    assert_eq!(AdapterError::SerializationFailure("e".to_string()).message(), "e");
}
