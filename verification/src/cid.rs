//! Content identifiers.
//!
//! What counts as an identifier, and how one is written as bytes and as
//! text, is `libipld`'s to say.  This module asks it, keeps the answers as
//! plain bytes in [`ContentId`], and turns every refusal into
//! [`AdapterError::InvalidCid`].

use vstd::prelude::*;
use crate::bytes::{copy_range, same_bytes};
use crate::error::{AdapterError, ErrorModel};

verus! {

/// The bytes of the identifier that `libipld` reads from the bytes `input`,
/// or `None` where it reads none.
pub uninterp spec fn cid_binary_form(input: Seq<u8>) -> Option<Seq<u8>>;

/// The bytes of the identifier that `libipld` reads from the text `text`,
/// or `None` where it reads none.
pub uninterp spec fn cid_text_form(text: Seq<char>) -> Option<Seq<u8>>;

/// The text that `libipld` prints for the identifier it reads from the
/// bytes `input`, or `None` where it reads none.
pub uninterp spec fn cid_display(input: Seq<u8>) -> Option<Seq<char>>;

/// The objection that `libipld` raises to an input.  Nothing is known of a
/// value of this type but that it is one.
#[verifier::external_type_specification]
#[verifier::external_body]
pub struct ExCidError(libipld::cid::Error);

/// `libipld::Cid::try_from` on a byte slice, followed by `Cid::to_bytes` on
/// the identifier that was read.  The contract claims one thing: what comes
/// back depends on the bytes of `input` alone, and so has a name,
/// `cid_binary_form`.  It says nothing of which inputs are read.
#[verifier::external_body]
fn decode_binary(input: &[u8]) -> (decoded: Result<Vec<u8>, libipld::cid::Error>)
    ensures
        match decoded {
            Ok(bytes) => cid_binary_form(input@) == Some(bytes@),
            Err(_) => cid_binary_form(input@) is None,
        },
{
    let cid = libipld::Cid::try_from(input)?;
    Ok(cid.to_bytes())
}

/// `libipld::Cid::try_from` on a string slice, followed by `Cid::to_bytes`
/// on the identifier that was read.  The contract claims one thing: what
/// comes back depends on the characters of `text` alone, and so has a
/// name, `cid_text_form`.  It says nothing of which texts are read.
#[verifier::external_body]
fn decode_text(text: &str) -> (decoded: Result<Vec<u8>, libipld::cid::Error>)
    ensures
        match decoded {
            Ok(bytes) => cid_text_form(text@) == Some(bytes@),
            Err(_) => cid_text_form(text@) is None,
        },
{
    let cid = libipld::Cid::try_from(text)?;
    Ok(cid.to_bytes())
}

/// `to_string` on the identifier that `libipld::Cid::try_from` reads from a
/// byte slice.  The contract claims one thing: what comes back depends on
/// the bytes of `input` alone, and so has a name, `cid_display`.  It says
/// nothing of what the text looks like, nor that it can be read back.
#[verifier::external_body]
fn display_text(input: &[u8]) -> (printed: Result<String, libipld::cid::Error>)
    ensures
        match printed {
            Ok(text) => cid_display(input@) == Some(text@),
            Err(_) => cid_display(input@) is None,
        },
{
    let cid = libipld::Cid::try_from(input)?;
    Ok(cid.to_string())
}

/// Whether `bytes` are the bytes of an identifier that was read from some
/// input, binary or textual.
pub open spec fn is_cid_form(bytes: Seq<u8>) -> bool {
    ||| exists|input: Seq<u8>| #[trigger] cid_binary_form(input) == Some(bytes)
    ||| exists|text: Seq<char>| #[trigger] cid_text_form(text) == Some(bytes)
}

/// What reading an identifier from the bytes `input` yields.
pub open spec fn parsed_cid(input: Seq<u8>) -> Result<Seq<u8>, ErrorModel> {
    match cid_binary_form(input) {
        Some(bytes) => Ok(bytes),
        None => Err(ErrorModel::InvalidCid),
    }
}

/// What reading an identifier from the text `text` yields.
pub open spec fn parsed_cid_text(text: Seq<char>) -> Result<Seq<u8>, ErrorModel> {
    match cid_text_form(text) {
        Some(bytes) => Ok(bytes),
        None => Err(ErrorModel::InvalidCid),
    }
}

/// The message of the failure to print an identifier.
pub open spec fn unprintable_message() -> Seq<char> {
    "CID has no text form"@
}

/// The text of the identifier with the bytes `bytes`: what is printed for
/// it, provided that reading the print gives the same identifier back.
pub open spec fn cid_text(bytes: Seq<u8>) -> Option<Seq<char>> {
    match cid_display(bytes) {
        Some(text) => if cid_text_form(text) == Some(bytes) {
            Some(text)
        } else {
            None
        },
        None => None,
    }
}

/// What writing the identifier with the bytes `bytes` as text yields.
pub open spec fn serialized_cid(bytes: Seq<u8>) -> Result<Seq<char>, ErrorModel> {
    match cid_text(bytes) {
        Some(text) => Ok(text),
        None => Err(ErrorModel::SerializationFailure(unprintable_message())),
    }
}

/// A content identifier: the name of one immutable block, or of one
/// snapshot of the file system.
///
/// A value only ever holds bytes that `libipld` gave for an identifier it
/// had read.  Two values are the same identifier when their bytes are the
/// same.
#[derive(Debug, PartialEq, Eq)]
pub struct ContentId {
    bytes: Vec<u8>,
}

impl View for ContentId {
    type V = Seq<u8>;

    closed spec fn view(&self) -> Seq<u8> {
        self.bytes@
    }
}

/// The mathematical value of the outcome of reading an identifier.
pub open spec fn cid_result_model(result: Result<ContentId, AdapterError>) -> Result<
    Seq<u8>,
    ErrorModel,
> {
    match result {
        Ok(id) => Ok(id@),
        Err(error) => Err(error@),
    }
}

/// The mathematical value of the outcome of an operation that yields text.
pub open spec fn text_result_model(result: Result<String, AdapterError>) -> Result<
    Seq<char>,
    ErrorModel,
> {
    match result {
        Ok(text) => Ok(text@),
        Err(error) => Err(error@),
    }
}

/// Settles what the decoder said of an input: the bytes of the identifier
/// it read, or `InvalidCid` in place of whatever it objected to.
pub fn accept_decoded(decoded: Result<Vec<u8>, libipld::cid::Error>) -> (accepted: Result<
    Vec<u8>,
    AdapterError,
>)
    ensures
        match decoded {
            Ok(bytes) => accepted matches Ok(kept) && kept@ == bytes@,
            Err(_) => accepted matches Err(error) && error@ == ErrorModel::InvalidCid,
        },
{
    match decoded {
        Ok(bytes) => Ok(bytes),
        Err(_) => Err(AdapterError::InvalidCid),
    }
}

/// Settles what the decoder said of the print `printed` of the identifier
/// with the bytes `bytes`: the print is handed on if `reread`, the outcome of
/// reading it, holds the same bytes again; else a `SerializationFailure`
/// takes its place.
pub fn confirm_text(
    bytes: &[u8],
    printed: String,
    reread: Result<Vec<u8>, libipld::cid::Error>,
) -> (confirmed: Result<String, AdapterError>)
    ensures
        match reread {
            Ok(again) if again@ == bytes@ => confirmed matches Ok(kept) && kept@ == printed@,
            _ => confirmed matches Err(error) && error@ == ErrorModel::SerializationFailure(
                unprintable_message(),
            ),
        },
{
    match reread {
        Ok(again) => {
            if same_bytes(again.as_slice(), bytes) {
                Ok(printed)
            } else {
                Err(unprintable())
            }
        },
        Err(_) => Err(unprintable()),
    }
}

fn unprintable() -> (error: AdapterError)
    ensures
        error@ == ErrorModel::SerializationFailure(unprintable_message()),
{
    AdapterError::SerializationFailure("CID has no text form".to_owned())
}

impl ContentId {
    #[verifier::type_invariant]
    spec fn well_formed(self) -> bool {
        is_cid_form(self.bytes@)
    }

    /// The identifier's bytes.
    pub fn as_bytes(&self) -> (bytes: &[u8])
        ensures
            bytes@ == self@,
            is_cid_form(self@),
    {
        proof {
            use_type_invariant(self);
        }
        self.bytes.as_slice()
    }

    /// Whether `self` and `other` are the same identifier.
    pub fn same_as(&self, other: &ContentId) -> (same: bool)
        ensures
            same == (self@ == other@),
    {
        same_bytes(self.bytes.as_slice(), other.bytes.as_slice())
    }

    /// Another value for the same identifier.
    pub fn duplicate(&self) -> (copy: ContentId)
        ensures
            copy@ == self@,
    {
        proof {
            use_type_invariant(self);
        }
        let bytes = copy_range(self.bytes.as_slice(), 0, self.bytes.len());
        assert(bytes@ =~= self.bytes@);
        ContentId { bytes }
    }
}

impl Clone for ContentId {
    fn clone(&self) -> (copy: Self)
        ensures
            copy@ == self@,
    {
        self.duplicate()
    }
}

/// Reads an identifier from its binary form.  What `libipld` does not read
/// as an identifier is refused with `InvalidCid`; nothing is put in its
/// place.
pub fn parse_cid(input: &[u8]) -> (parsed: Result<ContentId, AdapterError>)
    ensures
        cid_result_model(parsed) == parsed_cid(input@),
{
    match accept_decoded(decode_binary(input)) {
        Ok(bytes) => Ok(ContentId { bytes }),
        Err(error) => Err(error),
    }
}

/// Reads an identifier from its textual form.  What `libipld` does not read
/// as an identifier is refused with `InvalidCid`; nothing is put in its
/// place.
pub fn parse_cid_text(text: &str) -> (parsed: Result<ContentId, AdapterError>)
    ensures
        cid_result_model(parsed) == parsed_cid_text(text@),
{
    match accept_decoded(decode_text(text)) {
        Ok(bytes) => Ok(ContentId { bytes }),
        Err(error) => Err(error),
    }
}

/// Writes an identifier as text.  The text is handed out only after it has
/// been read back and found to name `id` again, so that whoever receives
/// it can return it in place of `id`.
pub fn serialize_cid(id: &ContentId) -> (text: Result<String, AdapterError>)
    ensures
        text_result_model(text) == serialized_cid(id@),
{
    match display_text(id.bytes.as_slice()) {
        Ok(printed) => {
            let reread = decode_text(printed.as_str());
            confirm_text(id.bytes.as_slice(), printed, reread)
        },
        Err(_) => Err(unprintable()),
    }
}

/// Reading is the inverse of writing: a text that `serialize_cid` hands out
/// for an identifier is read by `parse_cid_text` as that identifier.
pub proof fn lemma_parse_inverts_serialize(bytes: Seq<u8>, text: Seq<char>)
    requires
        serialized_cid(bytes) == Ok::<Seq<char>, ErrorModel>(text),
    ensures
        parsed_cid_text(text) == Ok::<Seq<u8>, ErrorModel>(bytes),
{
}

/// Different identifiers are never written as the same text.
pub proof fn lemma_serialize_injective(a: Seq<u8>, b: Seq<u8>)
    requires
        serialized_cid(a) is Ok,
        serialized_cid(a) == serialized_cid(b),
    ensures
        a == b,
{
}

} // verus!
