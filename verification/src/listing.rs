//! Directory listings as bytes.
//!
//! A listing crosses the host boundary as one flat run of bytes.  Each entry
//! that has both of its timestamps becomes a record: its name, a field
//! mark, the time of creation, a field mark, the time of modification and a
//! record mark.  Names are written in UTF-8 and times as decimal seconds.
//! An entry that lacks a timestamp is left out altogether.
//!
//! The host reads a listing by cutting it at the record marks and each
//! record at its field marks.  [`decode_listing`] reads it the same way,
//! and [`lemma_decode_inverts_encode`] shows for which names this gives
//! back what was written.

use vstd::prelude::*;
use vstd::string::StringSliceAdditionalSpecFns;
use vstd::utf8::{decode_utf8, encode_utf8, valid_utf8};
use crate::bytes::{copy_range, push_all};
use crate::decimal::{decimal_text, parse_decimal, parsed_decimal, push_decimal};
use crate::error::{AdapterError, ErrorModel};

verus! {

/// One entry of a directory listing.
#[derive(Clone, Debug, PartialEq, Eq)]
pub struct ListingEntry {
    /// The entry's name within its directory.
    pub name: String,
    /// When the entry was created, in seconds since the epoch, if known.
    pub created: Option<i64>,
    /// When the entry was last modified, in seconds since the epoch, if
    /// known.
    pub modified: Option<i64>,
}

/// The mathematical value of a [`ListingEntry`].
pub struct EntryModel {
    pub name: Seq<char>,
    pub created: Option<i64>,
    pub modified: Option<i64>,
}

impl View for ListingEntry {
    type V = EntryModel;

    open spec fn view(&self) -> EntryModel {
        EntryModel { name: self.name@, created: self.created, modified: self.modified }
    }
}

/// The mathematical value of a sequence of entries.
pub open spec fn entries_model(entries: Seq<ListingEntry>) -> Seq<EntryModel> {
    Seq::new(entries.len(), |k: int| entries[k]@)
}

/// The mark made of three times the byte `byte`.
pub open spec fn mark_of(byte: u8) -> Seq<u8> {
    seq![byte, byte, byte]
}

/// The ASCII code of `?`, of which the field mark is made.
pub open spec fn field_byte() -> u8 {
    63
}

/// The ASCII code of `!`, of which the record mark is made.
pub open spec fn record_byte() -> u8 {
    33
}

/// The mark between the fields of a record: `???`.
pub open spec fn field_mark() -> Seq<u8> {
    mark_of(field_byte())
}

/// The mark behind each record: `!!!`.
pub open spec fn record_mark() -> Seq<u8> {
    mark_of(record_byte())
}

/// Whether an entry has both of its timestamps.
pub open spec fn is_complete(entry: EntryModel) -> bool {
    entry.created is Some && entry.modified is Some
}

/// The fields of the record of a complete entry, with the marks between
/// them.
pub open spec fn record_body(entry: EntryModel) -> Seq<u8>
    recommends
        is_complete(entry),
{
    encode_utf8(entry.name) + field_mark() + decimal_text(entry.created->0 as int) + field_mark()
        + decimal_text(entry.modified->0 as int)
}

/// The record of a complete entry.
pub open spec fn record_text(entry: EntryModel) -> Seq<u8>
    recommends
        is_complete(entry),
{
    record_body(entry) + record_mark()
}

/// The bytes of a listing: the records of its complete entries, in order.
pub open spec fn listing_text(entries: Seq<EntryModel>) -> Seq<u8>
    decreases entries.len(),
{
    if entries.len() == 0 {
        Seq::empty()
    } else if is_complete(entries[0]) {
        record_text(entries[0]) + listing_text(entries.drop_first())
    } else {
        listing_text(entries.drop_first())
    }
}

/// The complete entries of a listing, in order.
pub open spec fn complete_entries(entries: Seq<EntryModel>) -> Seq<EntryModel>
    decreases entries.len(),
{
    if entries.len() == 0 {
        Seq::empty()
    } else if is_complete(entries[0]) {
        seq![entries[0]] + complete_entries(entries.drop_first())
    } else {
        complete_entries(entries.drop_first())
    }
}

/// Whether `needle` stands in `hay` at position `at`.
pub open spec fn matches_at(hay: Seq<u8>, needle: Seq<u8>, at: int) -> bool {
    0 <= at && at + needle.len() <= hay.len() && hay.subrange(at, at + needle.len()) == needle
}

/// The first position at or after `from` at which `needle` stands in `hay`.
pub open spec fn first_match_from(hay: Seq<u8>, needle: Seq<u8>, from: int) -> Option<int>
    decreases hay.len() + 1 - from,
{
    if from < 0 || from + needle.len() > hay.len() {
        None
    } else if matches_at(hay, needle, from) {
        Some(from)
    } else {
        first_match_from(hay, needle, from + 1)
    }
}

/// The first position at which `needle` stands in `hay`.
pub open spec fn first_match(hay: Seq<u8>, needle: Seq<u8>) -> Option<int> {
    first_match_from(hay, needle, 0)
}

/// What a record without its mark is read as: the fields before, between
/// and behind its first two field marks, as a name and two times.
pub open spec fn parse_record(record: Seq<u8>) -> Option<EntryModel> {
    match first_match(record, field_mark()) {
        None => None,
        Some(name_end) => {
            let name = record.take(name_end);
            let times = record.skip(name_end + 3);
            match first_match(times, field_mark()) {
                None => None,
                Some(created_end) => {
                    let created = parsed_decimal(times.take(created_end));
                    let modified = parsed_decimal(times.skip(created_end + 3));
                    if valid_utf8(name) && created is Some && modified is Some {
                        Some(EntryModel { name: decode_utf8(name), created, modified })
                    } else {
                        None
                    }
                },
            }
        },
    }
}

/// What the bytes of a listing are read as: the records up to each record
/// mark, one after the other, with nothing left over.
pub open spec fn parse_listing(bytes: Seq<u8>) -> Option<Seq<EntryModel>>
    decreases bytes.len(),
{
    if bytes.len() == 0 {
        Some(Seq::empty())
    } else {
        match first_match(bytes, record_mark()) {
            None => None,
            Some(end) => {
                if 0 <= end && end + 3 <= bytes.len() {
                    match (parse_record(bytes.take(end)), parse_listing(bytes.skip(end + 3))) {
                        (Some(entry), Some(others)) => Some(seq![entry] + others),
                        _ => None,
                    }
                } else {
                    None
                }
            },
        }
    }
}

/// The message of the failure to read a listing.
pub open spec fn malformed_listing_message() -> Seq<char> {
    "Listing is malformed"@
}

/// What reading the bytes of a listing yields.
pub open spec fn decoded_listing(bytes: Seq<u8>) -> Result<Seq<EntryModel>, ErrorModel> {
    match parse_listing(bytes) {
        Some(entries) => Ok(entries),
        None => Err(ErrorModel::SerializationFailure(malformed_listing_message())),
    }
}

/// The mathematical value of the outcome of reading a listing.
pub open spec fn listing_result_model(result: Result<Vec<ListingEntry>, AdapterError>) -> Result<
    Seq<EntryModel>,
    ErrorModel,
> {
    match result {
        Ok(entries) => Ok(entries_model(entries@)),
        Err(error) => Err(error@),
    }
}

/// A position at which the needle stands, with none before it from `from`
/// on, is the first match from `from`.
pub proof fn lemma_first_match_found(hay: Seq<u8>, needle: Seq<u8>, from: int, at: int)
    requires
        0 <= from <= at,
        matches_at(hay, needle, at),
        forall|j: int| from <= j < at ==> !#[trigger] matches_at(hay, needle, j),
    ensures
        first_match_from(hay, needle, from) == Some(at),
    decreases at - from,
{
    if from < at {
        lemma_first_match_found(hay, needle, from + 1, at);
    }
}

/// Where the needle stands nowhere from `from` on, there is no first match.
pub proof fn lemma_first_match_none(hay: Seq<u8>, needle: Seq<u8>, from: int)
    requires
        forall|j: int| from <= j ==> !#[trigger] matches_at(hay, needle, j),
    ensures
        first_match_from(hay, needle, from) is None,
    decreases hay.len() + 1 - from,
{
    if !(from < 0 || from + needle.len() > hay.len()) {
        lemma_first_match_none(hay, needle, from + 1);
    }
}

/// The first match is a match and has none before it; where there is no
/// first match there is no match.
pub proof fn lemma_first_match_sound(hay: Seq<u8>, needle: Seq<u8>, from: int)
    requires
        0 <= from,
    ensures
        match first_match_from(hay, needle, from) {
            Some(at) => {
                &&& from <= at
                &&& matches_at(hay, needle, at)
                &&& forall|j: int| from <= j < at ==> !#[trigger] matches_at(hay, needle, j)
            },
            None => forall|j: int| from <= j ==> !#[trigger] matches_at(hay, needle, j),
        },
    decreases hay.len() + 1 - from,
{
    if from + needle.len() > hay.len() {
    } else if matches_at(hay, needle, from) {
    } else {
        lemma_first_match_sound(hay, needle, from + 1);
    }
}

/// Whether a name can stand in a record and be read back from it: its
/// UTF-8 bytes hold neither mark, and do not end in the byte that the
/// field mark is made of, which would run into the mark behind it.
pub open spec fn is_writable_name(name: Seq<char>) -> bool {
    let bytes = encode_utf8(name);
    &&& forall|j: int| !#[trigger] matches_at(bytes, field_mark(), j)
    &&& forall|j: int| !#[trigger] matches_at(bytes, record_mark(), j)
    &&& bytes.len() > 0 ==> bytes.last() != field_byte()
}

/// The bytes of a mark are the byte it is made of.
proof fn lemma_match_bytes(hay: Seq<u8>, byte: u8, at: int)
    requires
        matches_at(hay, mark_of(byte), at),
    ensures
        at + 3 <= hay.len(),
        hay[at] == byte,
        hay[at + 1] == byte,
        hay[at + 2] == byte,
{
    let window = hay.subrange(at, at + 3);
    assert(window[0] == hay[at]);
    assert(window[1] == hay[at + 1]);
    assert(window[2] == hay[at + 2]);
}

/// Behind the name, the body of a record holds field marks, digits and
/// minus signs only.
proof fn lemma_body_behind_name(entry: EntryModel, i: int)
    requires
        is_complete(entry),
        encode_utf8(entry.name).len() <= i < record_body(entry).len(),
    ensures
        record_body(entry)[i] != record_byte(),
        record_body(entry).last() != record_byte(),
        record_body(entry).len() >= encode_utf8(entry.name).len() + 8,
{
    let name = encode_utf8(entry.name);
    let created = decimal_text(entry.created->0 as int);
    let modified = decimal_text(entry.modified->0 as int);
    let k = i - name.len();
    crate::decimal::lemma_decimal_text_alphabet(entry.modified->0 as int, 0);
    crate::decimal::lemma_decimal_text_alphabet(entry.created->0 as int, 0);
    if k < 3 {
    } else if k < 3 + created.len() {
        crate::decimal::lemma_decimal_text_alphabet(entry.created->0 as int, k - 3);
        assert(record_body(entry)[i] == created[k - 3]);
    } else if k < 6 + created.len() {
    } else {
        crate::decimal::lemma_decimal_text_alphabet(
            entry.modified->0 as int,
            k - 6 - created.len(),
        );
        assert(record_body(entry)[i] == modified[k - 6 - created.len()]);
    }
    assert(record_body(entry).last() == modified.last());
}

/// In a listing that starts with the record of `entry`, the first record
/// mark is the one behind the body of that record.
proof fn lemma_record_mark_found(entry: EntryModel, behind: Seq<u8>)
    requires
        is_complete(entry),
        is_writable_name(entry.name),
    ensures
        first_match(record_text(entry) + behind, record_mark()) == Some(
            record_body(entry).len() as int,
        ),
{
    let name = encode_utf8(entry.name);
    let body = record_body(entry);
    let whole = record_text(entry) + behind;
    lemma_body_behind_name(entry, name.len() as int);
    assert(whole.subrange(body.len() as int, body.len() as int + 3) =~= record_mark());
    assert forall|j: int| 0 <= j < body.len() implies !#[trigger] matches_at(
        whole,
        record_mark(),
        j,
    ) by {
        if matches_at(whole, record_mark(), j) {
            lemma_match_bytes(whole, record_byte(), j);
            assert(whole[j] == body[j]);
            if j >= name.len() {
                lemma_body_behind_name(entry, j);
            } else if j + 3 <= name.len() {
                assert(name.subrange(j, j + 3) =~= whole.subrange(j, j + 3));
                assert(matches_at(name, record_mark(), j));
            } else {
                assert(whole[name.len() as int] == body[name.len() as int]);
                assert(body[name.len() as int] == field_byte());
            }
        }
    }
    lemma_first_match_found(whole, record_mark(), 0, body.len() as int);
}

/// The body of the record of `entry` is read as `entry`.
proof fn lemma_record_read_back(entry: EntryModel)
    requires
        is_complete(entry),
        is_writable_name(entry.name),
    ensures
        parse_record(record_body(entry)) == Some(entry),
{
    let name = encode_utf8(entry.name);
    let created = decimal_text(entry.created->0 as int);
    let modified = decimal_text(entry.modified->0 as int);
    let body = record_body(entry);
    // The first field mark is the one behind the name.
    assert(body.subrange(name.len() as int, name.len() as int + 3) =~= field_mark());
    assert forall|j: int| 0 <= j < name.len() implies !#[trigger] matches_at(
        body,
        field_mark(),
        j,
    ) by {
        if matches_at(body, field_mark(), j) {
            lemma_match_bytes(body, field_byte(), j);
            if j + 3 <= name.len() {
                assert(name.subrange(j, j + 3) =~= body.subrange(j, j + 3));
                assert(matches_at(name, field_mark(), j));
            } else {
                assert(body[name.len() - 1] == name.last());
            }
        }
    }
    lemma_first_match_found(body, field_mark(), 0, name.len() as int);
    assert(body.take(name.len() as int) =~= name);
    // The next one is the one behind the time of creation.
    let times = body.skip(name.len() as int + 3);
    assert(times =~= created + field_mark() + modified);
    assert(times.subrange(created.len() as int, created.len() as int + 3) =~= field_mark());
    assert forall|j: int| 0 <= j < created.len() implies !#[trigger] matches_at(
        times,
        field_mark(),
        j,
    ) by {
        if matches_at(times, field_mark(), j) {
            lemma_match_bytes(times, field_byte(), j);
            crate::decimal::lemma_decimal_text_alphabet(entry.created->0 as int, j);
            assert(times[j] == created[j]);
        }
    }
    lemma_first_match_found(times, field_mark(), 0, created.len() as int);
    assert(times.take(created.len() as int) =~= created);
    assert(times.skip(created.len() as int + 3) =~= modified);
    crate::decimal::lemma_parse_inverts_print(entry.created->0);
    crate::decimal::lemma_parse_inverts_print(entry.modified->0);
    vstd::utf8::encode_utf8_valid_utf8(entry.name);
    vstd::utf8::encode_utf8_decode_utf8(entry.name);
}

/// Reading is the inverse of writing.  The bytes written for a listing are
/// read as the entries of that listing that have both timestamps, each as
/// it was and in the order in which they stood; the entries that lack a
/// timestamp have left no trace.  This holds of every listing whose
/// complete entries have names that can stand in a record.
pub proof fn lemma_decode_inverts_encode(entries: Seq<EntryModel>)
    requires
        forall|k: int|
            0 <= k < entries.len() && is_complete(#[trigger] entries[k]) ==> is_writable_name(
                entries[k].name,
            ),
    ensures
        parse_listing(listing_text(entries)) == Some(complete_entries(entries)),
        decoded_listing(listing_text(entries)) == Ok::<Seq<EntryModel>, ErrorModel>(
            complete_entries(entries),
        ),
    decreases entries.len(),
{
    if entries.len() > 0 {
        let first = entries[0];
        let others = entries.drop_first();
        assert forall|k: int| 0 <= k < others.len() && is_complete(
            #[trigger] others[k],
        ) implies is_writable_name(others[k].name) by {
            assert(others[k] == entries[k + 1]);
        }
        lemma_decode_inverts_encode(others);
        if is_complete(first) {
            let behind = listing_text(others);
            let bytes = listing_text(entries);
            let body = record_body(first);
            lemma_record_mark_found(first, behind);
            lemma_record_read_back(first);
            assert(bytes.take(body.len() as int) =~= body);
            assert(bytes.skip(body.len() as int + 3) =~= behind);
        }
    }
}

/// What is read from a record is what the record was written for: a record
/// that is read as an entry is the body of that entry's record, and the
/// entry is complete and has a name that can stand in a record.
proof fn lemma_record_is_its_entrys(record: Seq<u8>)
    requires
        parse_record(record) is Some,
    ensures
        is_complete(parse_record(record)->0),
        record_body(parse_record(record)->0) == record,
        forall|j: int| !#[trigger] matches_at(encode_utf8(parse_record(record)->0.name), field_mark(), j),
        encode_utf8(parse_record(record)->0.name).len() > 0 ==> encode_utf8(
            parse_record(record)->0.name,
        ).last() != field_byte(),
        encode_utf8(parse_record(record)->0.name) == record.take(
            first_match(record, field_mark())->0,
        ),
{
    let entry = parse_record(record)->0;
    lemma_first_match_sound(record, field_mark(), 0);
    let name_end = first_match(record, field_mark())->0;
    let name = record.take(name_end);
    let times = record.skip(name_end + 3);
    lemma_first_match_sound(times, field_mark(), 0);
    let created_end = first_match(times, field_mark())->0;
    let created = times.take(created_end);
    let modified = times.skip(created_end + 3);
    vstd::utf8::decode_utf8_encode_utf8(name);
    assert(decimal_text(entry.created->0 as int) == created);
    assert(decimal_text(entry.modified->0 as int) == modified);
    assert(record.subrange(name_end, name_end + 3) == field_mark());
    assert(times.subrange(created_end, created_end + 3) == field_mark());
    assert(times =~= created + field_mark() + modified) by {
        assert(times =~= times.take(created_end) + times.subrange(created_end, created_end + 3)
            + times.skip(created_end + 3));
    }
    assert(record =~= name + field_mark() + times) by {
        assert(record =~= record.take(name_end) + record.subrange(name_end, name_end + 3)
            + record.skip(name_end + 3));
    }
    assert(record_body(entry) =~= record);
    assert forall|j: int| !#[trigger] matches_at(name, field_mark(), j) by {
        if matches_at(name, field_mark(), j) {
            assert(record.subrange(j, j + 3) =~= name.subrange(j, j + 3));
            assert(matches_at(record, field_mark(), j));
        }
    }
    if name.len() > 0 && name.last() == field_byte() {
        lemma_match_bytes(record, field_byte(), name_end);
        assert(record.subrange(name_end - 1, name_end + 2) =~= field_mark());
        assert(matches_at(record, field_mark(), name_end - 1));
    }
}

/// Only what was written is read.  Bytes that are read as a listing are
/// the bytes written for the entries they are read as, and each of these
/// entries has both timestamps and a name that can stand in a record.  So
/// no two runs of bytes are read as the same listing.
pub proof fn lemma_decode_accepts_only_encodings(bytes: Seq<u8>)
    requires
        parse_listing(bytes) is Some,
    ensures
        listing_text(parse_listing(bytes)->0) == bytes,
        forall|k: int|
            0 <= k < parse_listing(bytes)->0.len() ==> {
                &&& is_complete(#[trigger] parse_listing(bytes)->0[k])
                &&& is_writable_name(parse_listing(bytes)->0[k].name)
            },
    decreases bytes.len(),
{
    let entries = parse_listing(bytes)->0;
    if bytes.len() > 0 {
        lemma_first_match_sound(bytes, record_mark(), 0);
        let end = first_match(bytes, record_mark())->0;
        let record = bytes.take(end);
        let behind = bytes.skip(end + 3);
        let first = parse_record(record)->0;
        let others = parse_listing(behind)->0;
        lemma_record_is_its_entrys(record);
        lemma_decode_accepts_only_encodings(behind);
        assert(entries == seq![first] + others);
        assert(entries.drop_first() =~= others);
        assert(bytes.subrange(end, end + 3) == record_mark());
        assert(bytes =~= record + record_mark() + behind) by {
            assert(bytes =~= bytes.take(end) + bytes.subrange(end, end + 3) + bytes.skip(end + 3));
        }
        assert(listing_text(entries) =~= bytes);
        let name = encode_utf8(first.name);
        assert forall|j: int| !#[trigger] matches_at(name, record_mark(), j) by {
            if matches_at(name, record_mark(), j) {
                assert(bytes.subrange(j, j + 3) =~= name.subrange(j, j + 3));
                assert(matches_at(bytes, record_mark(), j));
            }
        }
        assert(is_writable_name(first.name));
        assert forall|k: int| 0 <= k < entries.len() implies {
            &&& is_complete(#[trigger] entries[k])
            &&& is_writable_name(entries[k].name)
        } by {
            if k > 0 {
                assert(entries[k] == others[k - 1]);
            }
        }
    } else {
        assert(listing_text(entries) =~= bytes);
    }
}

/// `String::from_utf8`, with its error dropped.  The contract says what the
/// documentation of std says: the call succeeds exactly on well-formed
/// UTF-8, and the string it gives then has the bytes that were passed.
#[verifier::external_body]
fn text_of_utf8(bytes: Vec<u8>) -> (text: Option<String>)
    ensures
        text is Some <==> valid_utf8(bytes@),
        text matches Some(s) ==> encode_utf8(s@) == bytes@,
{
    String::from_utf8(bytes).ok()
}

/// Finds the first place at or after `from` where the byte `byte` stands
/// three times in a row.  Behind the end of `hay` there is no such place.
pub fn find_mark(hay: &[u8], from: usize, byte: u8) -> (found: Option<usize>)
    ensures
        from > hay@.len() ==> found is None,
        from <= hay@.len() ==> match found {
            Some(at) => {
                &&& from <= at
                &&& at + 3 <= hay@.len()
                &&& first_match(hay@.skip(from as int), mark_of(byte)) == Some(at - from)
            },
            None => first_match(hay@.skip(from as int), mark_of(byte)) is None,
        },
{
    if from > hay.len() {
        return None;
    }
    let ghost rest = hay@.skip(from as int);
    let ghost mark = mark_of(byte);
    let len: usize = hay.len();
    let mut at: usize = from;
    while at < len && len - at >= 3
        invariant
            len == hay@.len(),
            from <= at <= len,
            rest == hay@.skip(from as int),
            mark == mark_of(byte),
            forall|j: int| 0 <= j < at - from ==> !#[trigger] matches_at(rest, mark, j),
        decreases len - at,
    {
        if hay[at] == byte && hay[at + 1] == byte && hay[at + 2] == byte {
            proof {
                assert(rest.subrange(at - from, at - from + 3) =~= mark);
                lemma_first_match_found(rest, mark, 0, at - from);
            }
            return Some(at);
        }
        proof {
            let window = rest.subrange(at - from, at - from + 3);
            assert(window[0] == hay@[at as int]);
            assert(window[1] == hay@[at + 1]);
            assert(window[2] == hay@[at + 2]);
        }
        at += 1;
    }
    proof {
        lemma_first_match_none(rest, mark, 0);
    }
    None
}

/// Appends the record of `entry` to `out` if the entry has both of its
/// timestamps, and nothing if it has not.
pub fn push_record(out: &mut Vec<u8>, entry: &ListingEntry)
    ensures
        final(out)@ == old(out)@ + (if is_complete(entry@) {
            record_text(entry@)
        } else {
            Seq::empty()
        }),
{
    let ghost before = out@;
    match (entry.created, entry.modified) {
        (Some(created), Some(modified)) => {
            push_all(out, entry.name.as_str().as_bytes());
            out.push(63);
            out.push(63);
            out.push(63);
            push_decimal(out, created);
            out.push(63);
            out.push(63);
            out.push(63);
            push_decimal(out, modified);
            out.push(33);
            out.push(33);
            out.push(33);
            assert(out@ =~= before + record_text(entry@));
        },
        _ => {
            assert(out@ =~= before + Seq::<u8>::empty());
        },
    }
}

/// Writes a listing as bytes.
pub fn encode_listing(entries: &[ListingEntry]) -> (bytes: Vec<u8>)
    ensures
        bytes@ == listing_text(entries_model(entries@)),
{
    let ghost all = entries_model(entries@);
    let mut bytes: Vec<u8> = Vec::new();
    let mut next: usize = 0;
    assert(all.skip(0) =~= all);
    while next < entries.len()
        invariant
            all == entries_model(entries@),
            next <= entries@.len(),
            listing_text(all) == bytes@ + listing_text(all.skip(next as int)),
        decreases entries.len() - next,
    {
        let ghost rest = all.skip(next as int);
        assert(rest[0] == entries@[next as int]@);
        assert(rest.drop_first() =~= all.skip(next + 1));
        push_record(&mut bytes, &entries[next]);
        next += 1;
    }
    assert(listing_text(all.skip(next as int)) =~= Seq::<u8>::empty());
    bytes
}

/// Reads one record, without its mark, as an entry.
pub fn decode_record(record: &[u8]) -> (entry: Option<ListingEntry>)
    ensures
        match parse_record(record@) {
            Some(model) => entry matches Some(read) && read@ == model,
            None => entry is None,
        },
{
    assert(record@.skip(0) =~= record@);
    let len: usize = record.len();
    let name_end: usize = match find_mark(record, 0, 63) {
        Some(at) => at,
        None => { return None; },
    };
    let times_start: usize = name_end + 3;
    let created_end: usize = match find_mark(record, times_start, 63) {
        Some(at) => at,
        None => { return None; },
    };
    let ghost times = record@.skip(times_start as int);
    proof {
        assert(record@.take(name_end as int) =~= record@.subrange(0, name_end as int));
        assert(times.take(created_end - times_start) =~= record@.subrange(
            times_start as int,
            created_end as int,
        ));
        assert(times.skip(created_end - times_start + 3) =~= record@.subrange(
            created_end + 3,
            record@.len() as int,
        ));
    }
    let name_bytes = copy_range(record, 0, name_end);
    let created_text = copy_range(record, times_start, created_end);
    let modified_text = copy_range(record, created_end + 3, len);
    let created = parse_decimal(created_text.as_slice());
    let modified = parse_decimal(modified_text.as_slice());
    match text_of_utf8(name_bytes) {
        Some(name) => {
            if created.is_some() && modified.is_some() {
                proof {
                    vstd::utf8::encode_utf8_decode_utf8(name@);
                }
                Some(ListingEntry { name, created, modified })
            } else {
                None
            }
        },
        None => None,
    }
}

fn malformed_listing() -> (error: AdapterError)
    ensures
        error@ == ErrorModel::SerializationFailure(malformed_listing_message()),
{
    AdapterError::SerializationFailure("Listing is malformed".to_owned())
}

/// What reading the rest of a listing adds to the entries read so far.
spec fn read_on(sofar: Seq<EntryModel>, rest: Option<Seq<EntryModel>>) -> Option<
    Seq<EntryModel>,
> {
    match rest {
        Some(others) => Some(sofar + others),
        None => None,
    }
}

/// Reads the bytes of a listing.  Bytes that are not a run of records, each
/// with a name in UTF-8, two times and its record mark, are refused with a
/// `SerializationFailure`.
pub fn decode_listing(bytes: &[u8]) -> (entries: Result<Vec<ListingEntry>, AdapterError>)
    ensures
        listing_result_model(entries) == decoded_listing(bytes@),
{
    let mut entries: Vec<ListingEntry> = Vec::new();
    let mut at: usize = 0;
    assert(bytes@.skip(0) =~= bytes@);
    assert(read_on(entries_model(entries@), parse_listing(bytes@)) == parse_listing(bytes@)) by {
        if parse_listing(bytes@) is Some {
            assert(entries_model(entries@) + parse_listing(bytes@)->0 =~= parse_listing(bytes@)->0);
        }
    }
    while at < bytes.len()
        invariant
            at <= bytes@.len(),
            parse_listing(bytes@) == read_on(
                entries_model(entries@),
                parse_listing(bytes@.skip(at as int)),
            ),
        decreases bytes.len() - at,
    {
        let ghost rest = bytes@.skip(at as int);
        let end: usize = match find_mark(bytes, at, 33) {
            Some(end) => end,
            None => { return Err(malformed_listing()); },
        };
        proof {
            assert(rest.take(end - at) =~= bytes@.subrange(at as int, end as int));
            assert(rest.skip(end - at + 3) =~= bytes@.skip(end + 3));
        }
        let record = copy_range(bytes, at, end);
        match decode_record(record.as_slice()) {
            Some(entry) => {
                let ghost sofar = entries_model(entries@);
                entries.push(entry);
                proof {
                    assert(entries_model(entries@) =~= sofar.push(entry@));
                    let after = parse_listing(bytes@.skip(end + 3));
                    if after is Some {
                        assert(sofar + (seq![entry@] + after->0) =~= sofar.push(entry@)
                            + after->0);
                    }
                }
                at = end + 3;
            },
            None => { return Err(malformed_listing()); },
        }
    }
    proof {
        assert(bytes@.skip(at as int).len() == 0);
        assert(entries_model(entries@) + Seq::<EntryModel>::empty() =~= entries_model(entries@));
    }
    Ok(entries)
}

} // verus!
