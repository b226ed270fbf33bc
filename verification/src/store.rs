//! The block store adapter: how a block's identifier becomes a key of the
//! host's key/value store, and how the host's answers are read.
//!
//! The host's store is reached through calls that only the host can carry
//! out.  The adapter therefore works in two halves around each of them: it
//! says which call to make ([`JSStore::get_block`], [`JSStore::put_block`]),
//! and it reads the answer that came back ([`JSStore::complete_get`],
//! [`JSStore::complete_get_blocking`], [`JSStore::complete_put`]).

use vstd::prelude::*;
use vstd::string::StringSliceAdditionalSpecFns;
use vstd::utf8::encode_utf8;
use crate::bytes::push_all;
use crate::error::{AdapterError, ErrorModel};
use crate::hex::{hex_text, lemma_hex_injective, push_hex};

verus! {

/// A call for the host to carry out on its key/value store.
#[derive(Debug, PartialEq, Eq)]
pub enum HostCall {
    /// Read the value under `key`.
    Get { key: Vec<u8> },
    /// Write `value` under `key`.
    Put { key: Vec<u8>, value: Vec<u8> },
}

/// The mathematical value of a [`HostCall`].
pub enum HostCallModel {
    Get { key: Seq<u8> },
    Put { key: Seq<u8>, value: Seq<u8> },
}

impl View for HostCall {
    type V = HostCallModel;

    open spec fn view(&self) -> HostCallModel {
        match self {
            HostCall::Get { key } => HostCallModel::Get { key: key@ },
            HostCall::Put { key, value } => HostCallModel::Put { key: key@, value: value@ },
        }
    }
}

/// What the host answered to a `Get`.
#[derive(Debug, PartialEq, Eq)]
pub enum GetReply {
    /// The host resolved the read with these bytes.
    Value(Vec<u8>),
    /// The host refused or failed the read.
    Rejected(String),
    /// The host resolved the read with something that is no byte string.
    Undecodable(String),
}

/// The mathematical value of a [`GetReply`].
pub enum GetReplyModel {
    Value(Seq<u8>),
    Rejected(Seq<char>),
    Undecodable(Seq<char>),
}

impl View for GetReply {
    type V = GetReplyModel;

    open spec fn view(&self) -> GetReplyModel {
        match self {
            GetReply::Value(bytes) => GetReplyModel::Value(bytes@),
            GetReply::Rejected(message) => GetReplyModel::Rejected(message@),
            GetReply::Undecodable(message) => GetReplyModel::Undecodable(message@),
        }
    }
}

/// What the host answered to a `Put`.
#[derive(Debug, PartialEq, Eq)]
pub enum PutReply {
    /// The host stored the value.
    Acknowledged,
    /// The host refused or failed the write.
    Rejected(String),
}

/// The mathematical value of a [`PutReply`].
pub enum PutReplyModel {
    Acknowledged,
    Rejected(Seq<char>),
}

impl View for PutReply {
    type V = PutReplyModel;

    open spec fn view(&self) -> PutReplyModel {
        match self {
            PutReply::Acknowledged => PutReplyModel::Acknowledged,
            PutReply::Rejected(message) => PutReplyModel::Rejected(message@),
        }
    }
}

/// The key under which the block named `cid` is kept by a store whose
/// namespace is `namespace`: the namespace's UTF-8 bytes, then the
/// identifier in hexadecimal.
pub open spec fn storage_key(namespace: Seq<char>, cid: Seq<u8>) -> Seq<u8> {
    encode_utf8(namespace) + hex_text(cid)
}

/// The message of the failure that an empty value stands for.
pub open spec fn empty_block_message() -> Seq<char> {
    "Block data is empty"@
}

/// What a read yields when the caller can be told of a failure: the bytes
/// that the host resolved with, unless there are none.
pub open spec fn block_of_reply(reply: GetReplyModel) -> Result<Seq<u8>, ErrorModel> {
    match reply {
        GetReplyModel::Value(bytes) => if bytes.len() == 0 {
            Err(ErrorModel::StoreReadAbsent(empty_block_message()))
        } else {
            Ok(bytes)
        },
        GetReplyModel::Rejected(message) => Err(ErrorModel::StoreReadAbsent(message)),
        GetReplyModel::Undecodable(message) => Err(ErrorModel::SerializationFailure(message)),
    }
}

/// What a read yields when the caller cannot be told of a failure: the
/// block, or no bytes at all in place of every failure.
pub open spec fn blocking_block_of_reply(reply: GetReplyModel) -> Seq<u8> {
    match block_of_reply(reply) {
        Ok(bytes) => bytes,
        Err(_) => Seq::empty(),
    }
}

/// What a write yields: nothing, or the host's refusal.
pub open spec fn ack_of_reply(reply: PutReplyModel) -> Result<(), ErrorModel> {
    match reply {
        PutReplyModel::Acknowledged => Ok(()),
        PutReplyModel::Rejected(message) => Err(ErrorModel::StoreWriteFailure(message)),
    }
}

/// The mathematical value of the outcome of a read.
pub open spec fn block_result_model(result: Result<Vec<u8>, AdapterError>) -> Result<
    Seq<u8>,
    ErrorModel,
> {
    match result {
        Ok(bytes) => Ok(bytes@),
        Err(error) => Err(error@),
    }
}

/// The mathematical value of the outcome of a write.
pub open spec fn ack_result_model(result: Result<(), AdapterError>) -> Result<(), ErrorModel> {
    match result {
        Ok(()) => Ok(()),
        Err(error) => Err(error@),
    }
}

/// One client's view of the host's block store.
///
/// All keys that a store asks the host for begin with the store's
/// namespace, which sets its blocks apart from those of other clients of
/// the same host.
#[derive(Clone, Debug)]
pub struct JSStore {
    namespace: String,
}

impl JSStore {
    /// The namespace that this store prepends to every key.
    pub closed spec fn namespace(&self) -> Seq<char> {
        self.namespace@
    }

    /// A store that keeps its blocks under `namespace`.
    pub fn new(namespace: String) -> (store: Self)
        ensures
            store.namespace() == namespace@,
    {
        JSStore { namespace }
    }

    /// The key of the block named `cid`.
    pub fn key_for(&self, cid: &[u8]) -> (key: Vec<u8>)
        ensures
            key@ == storage_key(self.namespace(), cid@),
    {
        let mut key: Vec<u8> = Vec::new();
        push_all(&mut key, self.namespace.as_str().as_bytes());
        push_hex(&mut key, cid);
        assert(key@ =~= storage_key(self.namespace(), cid@));
        key
    }

    /// The call that reads the block named `cid`.
    pub fn get_block(&self, cid: Vec<u8>) -> (call: HostCall)
        ensures
            call@ == (HostCallModel::Get { key: storage_key(self.namespace(), cid@) }),
    {
        HostCall::Get { key: self.key_for(cid.as_slice()) }
    }

    /// The call that writes `bytes` as the block named `cid`.
    pub fn put_block(&self, cid: Vec<u8>, bytes: Vec<u8>) -> (call: HostCall)
        ensures
            call@ == (HostCallModel::Put {
                key: storage_key(self.namespace(), cid@),
                value: bytes@,
            }),
    {
        HostCall::Put { key: self.key_for(cid.as_slice()), value: bytes }
    }

    /// Reads the host's answer to a `Get` for a caller that can be told of
    /// a failure.  A value without bytes means that the host holds no
    /// block: it is reported, never handed on as a block.
    pub fn complete_get(reply: GetReply) -> (block: Result<Vec<u8>, AdapterError>)
        ensures
            block_result_model(block) == block_of_reply(reply@),
    {
        match reply {
            GetReply::Value(bytes) => {
                if bytes.len() == 0 {
                    Err(AdapterError::StoreReadAbsent("Block data is empty".to_owned()))
                } else {
                    Ok(bytes)
                }
            },
            GetReply::Rejected(message) => Err(AdapterError::StoreReadAbsent(message)),
            GetReply::Undecodable(message) => Err(AdapterError::SerializationFailure(message)),
        }
    }

    /// Reads the host's answer to a `Get` for a caller that cannot be told
    /// of a failure: every failure becomes a block without bytes.
    pub fn complete_get_blocking(reply: GetReply) -> (block: Vec<u8>)
        ensures
            block@ == blocking_block_of_reply(reply@),
    {
        match Self::complete_get(reply) {
            Ok(bytes) => bytes,
            Err(_) => Vec::new(),
        }
    }

    /// Reads the host's answer to a `Put`.
    pub fn complete_put(reply: PutReply) -> (ack: Result<(), AdapterError>)
        ensures
            ack_result_model(ack) == ack_of_reply(reply@),
    {
        match reply {
            PutReply::Acknowledged => Ok(()),
            PutReply::Rejected(message) => Err(AdapterError::StoreWriteFailure(message)),
        }
    }
}

/// What a host that keeps `held` holds after it has carried out `call`.
pub open spec fn host_after(held: Map<Seq<u8>, Seq<u8>>, call: HostCallModel) -> Map<
    Seq<u8>,
    Seq<u8>,
> {
    match call {
        HostCallModel::Get { key } => held,
        HostCallModel::Put { key, value } => held.insert(key, value),
    }
}

/// What a host that keeps `held` answers to a read of `key`: the value it
/// holds there, or a value without bytes where it holds none.
pub open spec fn host_answer(held: Map<Seq<u8>, Seq<u8>>, key: Seq<u8>) -> GetReplyModel {
    if held.dom().contains(key) {
        GetReplyModel::Value(held[key])
    } else {
        GetReplyModel::Value(Seq::empty())
    }
}

/// Two identifiers have the same key in one namespace only if they are the
/// same identifier.
pub proof fn lemma_key_injective(namespace: Seq<char>, a: Seq<u8>, b: Seq<u8>)
    requires
        storage_key(namespace, a) == storage_key(namespace, b),
    ensures
        a == b,
{
    let prefix = encode_utf8(namespace);
    assert(hex_text(a) =~= storage_key(namespace, a).skip(prefix.len() as int));
    assert(hex_text(b) =~= storage_key(namespace, b).skip(prefix.len() as int));
    lemma_hex_injective(a, b);
}

/// Namespaces keep clients apart.  Where the UTF-8 forms of two namespaces
/// differ at some place that both of them have, so that neither is the
/// beginning of the other, no key of the one is a key of the other,
/// whatever the identifiers are.
pub proof fn lemma_namespaces_are_apart(
    one: Seq<char>,
    other: Seq<char>,
    place: int,
    cid_of_one: Seq<u8>,
    cid_of_other: Seq<u8>,
)
    requires
        0 <= place < encode_utf8(one).len(),
        place < encode_utf8(other).len(),
        encode_utf8(one)[place] != encode_utf8(other)[place],
    ensures
        storage_key(one, cid_of_one) != storage_key(other, cid_of_other),
{
    assert(storage_key(one, cid_of_one)[place] == encode_utf8(one)[place]);
    assert(storage_key(other, cid_of_other)[place] == encode_utf8(other)[place]);
}

/// A block that was written is read back as it was written: after the host
/// has carried out the write of `block` under `cid`, its answer to the read
/// of `cid` yields exactly `block` for a caller that cannot be told of
/// failures, and for any caller if `block` has at least one byte.
pub proof fn lemma_put_then_get(
    namespace: Seq<char>,
    held: Map<Seq<u8>, Seq<u8>>,
    cid: Seq<u8>,
    block: Seq<u8>,
)
    ensures
        ({
            let key = storage_key(namespace, cid);
            let after = host_after(held, HostCallModel::Put { key, value: block });
            &&& blocking_block_of_reply(host_answer(after, key)) == block
            &&& block.len() > 0 ==> block_of_reply(host_answer(after, key)) == Ok::<
                Seq<u8>,
                ErrorModel,
            >(block)
        }),
{
    let key = storage_key(namespace, cid);
    let after = host_after(held, HostCallModel::Put { key, value: block });
    assert(after.dom().contains(key));
    assert(after[key] == block);
    if block.len() == 0 {
        assert(blocking_block_of_reply(host_answer(after, key)) =~= block);
    }
}

/// Writing a block again changes nothing: a host that has carried out a
/// write holds the same after carrying it out once more.
pub proof fn lemma_put_again_changes_nothing(
    namespace: Seq<char>,
    held: Map<Seq<u8>, Seq<u8>>,
    cid: Seq<u8>,
    block: Seq<u8>,
)
    ensures
        ({
            let put = HostCallModel::Put { key: storage_key(namespace, cid), value: block };
            host_after(host_after(held, put), put) == host_after(held, put)
        }),
{
    let put = HostCallModel::Put { key: storage_key(namespace, cid), value: block };
    assert(host_after(host_after(held, put), put) =~= host_after(held, put));
}

/// Writing one block leaves every other block of the namespace as it was:
/// the host's answer to a read of `other` is the same before and after the
/// write under `cid`.
pub proof fn lemma_put_keeps_others(
    namespace: Seq<char>,
    held: Map<Seq<u8>, Seq<u8>>,
    cid: Seq<u8>,
    block: Seq<u8>,
    other: Seq<u8>,
)
    requires
        other != cid,
    ensures
        ({
            let after = host_after(
                held,
                HostCallModel::Put { key: storage_key(namespace, cid), value: block },
            );
            host_answer(after, storage_key(namespace, other)) == host_answer(
                held,
                storage_key(namespace, other),
            )
        }),
{
    if storage_key(namespace, other) == storage_key(namespace, cid) {
        lemma_key_injective(namespace, other, cid);
    }
}

} // verus!
