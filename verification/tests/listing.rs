use wnfs_adapter::error::AdapterError;
use wnfs_adapter::listing::{
    decode_listing, decode_record, encode_listing, find_mark, push_record, ListingEntry,
};

fn entry(name: &str, created: Option<i64>, modified: Option<i64>) -> ListingEntry {
    ListingEntry { name: name.to_string(), created, modified }
}

fn malformed() -> AdapterError {
    AdapterError::SerializationFailure("Listing is malformed".to_string())
}

/// What the host does with the bytes of a listing: it cuts them at the
/// record marks and each record at the field marks.
fn host_split(bytes: &[u8]) -> Vec<(String, String, String)> {
    let text = String::from_utf8(bytes.to_vec()).unwrap();
    let mut rows = Vec::new();
    for record in text.split("!!!") {
        if record.is_empty() {
            continue;
        }
        let fields: Vec<&str> = record.split("???").collect();
        assert_eq!(fields.len(), 3);
        rows.push((fields[0].to_string(), fields[1].to_string(), fields[2].to_string()));
    }
    rows
}

#[test]
fn an_empty_listing_has_no_bytes() {
    assert_eq!(encode_listing(&[]), Vec::<u8>::new());
}

#[test]
fn a_record_is_name_created_modified() {
    let bytes = encode_listing(&[entry("a.txt", Some(1700000000), Some(1700000100))]);
    assert_eq!(bytes, b"a.txt???1700000000???1700000100!!!".to_vec());
}

#[test]
fn records_follow_each_other_in_order() {
    let bytes = encode_listing(&[
        entry("docs", Some(1), Some(2)),
        entry("b", Some(-5), Some(0)),
        entry("c d", Some(30), Some(40)),
    ]);
    assert_eq!(bytes, b"docs???1???2!!!b???-5???0!!!c d???30???40!!!".to_vec());
}

#[test]
fn an_entry_without_a_timestamp_is_left_out() {
    let bytes = encode_listing(&[
        entry("kept", Some(1), Some(2)),
        entry("no-created", None, Some(2)),
        entry("no-modified", Some(1), None),
        entry("neither", None, None),
        entry("kept-too", Some(3), Some(4)),
    ]);
    assert_eq!(bytes, b"kept???1???2!!!kept-too???3???4!!!".to_vec());
}

#[test]
fn a_listing_of_incomplete_entries_has_no_bytes() {
    let bytes = encode_listing(&[entry("a", None, Some(2)), entry("b", Some(1), None)]);
    assert_eq!(bytes, Vec::<u8>::new());
}

#[test]
fn names_are_written_in_utf8() {
    let bytes = encode_listing(&[entry("é", Some(1), Some(2))]);
    assert_eq!(bytes, vec![0xc3, 0xa9, b'?', b'?', b'?', b'1', b'?', b'?', b'?', b'2', b'!', b'!', b'!']);
}

#[test]
fn push_record_appends_one_record() {
    let mut out = b"x???1???2!!!".to_vec();
    push_record(&mut out, &entry("y", Some(3), Some(4)));
    assert_eq!(out, b"x???1???2!!!y???3???4!!!".to_vec());
    push_record(&mut out, &entry("z", None, Some(4)));
    assert_eq!(out, b"x???1???2!!!y???3???4!!!".to_vec());
}

#[test]
fn find_mark_gives_the_first_place() {
    assert_eq!(find_mark(b"ab!!!cd!!!", 0, b'!'), Some(2));
    assert_eq!(find_mark(b"ab!!!cd!!!", 2, b'!'), Some(2));
    assert_eq!(find_mark(b"ab!!!cd!!!", 3, b'!'), Some(7));
    assert_eq!(find_mark(b"ab!!!cd!!!", 8, b'!'), None);
    assert_eq!(find_mark(b"!!!!", 0, b'!'), Some(0));
    assert_eq!(find_mark(b"!!!!", 1, b'!'), Some(1));
    assert_eq!(find_mark(b"!!!!", 2, b'!'), None);
}

#[test]
fn find_mark_finds_nothing_where_nothing_is() {
    assert_eq!(find_mark(b"", 0, b'!'), None);
    assert_eq!(find_mark(b"!!", 0, b'!'), None);
    assert_eq!(find_mark(b"!?!?!?", 0, b'!'), None);
    assert_eq!(find_mark(b"abc", 3, b'!'), None);
    assert_eq!(find_mark(b"???", 0, b'!'), None);
}

#[test]
fn a_record_is_read() {
    assert_eq!(decode_record(b"a.txt???10???20"), Some(entry("a.txt", Some(10), Some(20))));
    assert_eq!(decode_record(b"???-1???0"), Some(entry("", Some(-1), Some(0))));
}

#[test]
fn a_record_with_too_few_fields_is_refused() {
    assert_eq!(decode_record(b""), None);
    assert_eq!(decode_record(b"a.txt"), None);
    assert_eq!(decode_record(b"a.txt???10"), None);
    assert_eq!(decode_record(b"a.txt??10??20"), None);
}

#[test]
fn a_record_with_too_many_fields_is_refused() {
    assert_eq!(decode_record(b"a???1???2???3"), None);
}

#[test]
fn a_record_with_a_bad_time_is_refused() {
    assert_eq!(decode_record(b"a??????2"), None);
    assert_eq!(decode_record(b"a???1???"), None);
    assert_eq!(decode_record(b"a???01???2"), None);
    assert_eq!(decode_record(b"a???1???2x"), None);
    assert_eq!(decode_record(b"a???1???9223372036854775808"), None);
}

#[test]
fn a_record_with_a_name_that_is_no_utf8_is_refused() {
    assert_eq!(decode_record(&[0xff, b'?', b'?', b'?', b'1', b'?', b'?', b'?', b'2']), None);
    assert_eq!(decode_record(&[0xc3, b'?', b'?', b'?', b'1', b'?', b'?', b'?', b'2']), None);
}

#[test]
fn a_listing_is_read() {
    assert_eq!(
        decode_listing(b"docs???1???2!!!b???-5???0!!!"),
        Ok(vec![entry("docs", Some(1), Some(2)), entry("b", Some(-5), Some(0))])
    );
}

#[test]
fn no_bytes_are_an_empty_listing() {
    assert_eq!(decode_listing(b""), Ok(Vec::new()));
}

#[test]
fn a_listing_that_does_not_end_in_a_record_mark_is_refused() {
    assert_eq!(decode_listing(b"a???1???2"), Err(malformed()));
    assert_eq!(decode_listing(b"a???1???2!!"), Err(malformed()));
    assert_eq!(decode_listing(b"a???1???2!!!b???3???4"), Err(malformed()));
    assert_eq!(decode_listing(b"a???1???2!!!x"), Err(malformed()));
}

#[test]
fn a_listing_with_a_bad_record_is_refused() {
    assert_eq!(decode_listing(b"!!!"), Err(malformed()));
    assert_eq!(decode_listing(b"a???1!!!"), Err(malformed()));
    assert_eq!(decode_listing(b"a???1???2!!!!!!"), Err(malformed()));
    assert_eq!(decode_listing(b"a???1???2!!!b???x???4!!!"), Err(malformed()));
}

#[test]
fn reading_a_listing_inverts_writing_it() {
    let entries = vec![
        entry("a.txt", Some(1700000000), Some(1700000100)),
        entry("", Some(0), Some(0)),
        entry("with space", Some(-1), Some(i64::MAX)),
        entry("q?mark", Some(i64::MIN), Some(5)),
        entry("two??marks", Some(1), Some(5)),
        entry("?starts", Some(1), Some(5)),
        entry("bang!", Some(2), Some(6)),
        entry("two!!", Some(2), Some(6)),
        entry("!starts", Some(2), Some(6)),
        entry("!!", Some(2), Some(6)),
        entry("документ", Some(3), Some(7)),
        entry("📁", Some(4), Some(8)),
    ];
    assert_eq!(decode_listing(&encode_listing(&entries)), Ok(entries));
}

#[test]
fn incomplete_entries_are_absent_after_a_round_trip() {
    let entries = vec![
        entry("a", Some(1), Some(2)),
        entry("b", None, Some(2)),
        entry("c", Some(3), Some(4)),
        entry("d", Some(3), None),
    ];
    assert_eq!(
        decode_listing(&encode_listing(&entries)),
        Ok(vec![entry("a", Some(1), Some(2)), entry("c", Some(3), Some(4))])
    );
}

#[test]
fn the_host_reads_what_was_written() {
    let entries = vec![
        entry("a.txt", Some(1700000000), Some(1700000100)),
        entry("skipped", None, None),
        entry("dir", Some(-7), Some(12)),
    ];
    assert_eq!(
        host_split(&encode_listing(&entries)),
        vec![
            ("a.txt".to_string(), "1700000000".to_string(), "1700000100".to_string()),
            ("dir".to_string(), "-7".to_string(), "12".to_string()),
        ]
    );
}

#[test]
fn a_name_that_ends_in_the_field_byte_is_not_read_back() {
    let entries = vec![entry("what?", Some(1), Some(2))];
    let bytes = encode_listing(&entries);
    assert_eq!(bytes, b"what????1???2!!!".to_vec());
    assert_ne!(decode_listing(&bytes), Ok(entries));
}

#[test]
fn a_name_that_holds_a_mark_is_not_read_back() {
    for name in ["a???b", "a!!!b", "!!!", "???"] {
        let entries = vec![entry(name, Some(1), Some(2))];
        assert_ne!(decode_listing(&encode_listing(&entries)), Ok(entries));
    }
}

#[test]
fn writing_a_listing_inverts_reading_it() {
    let texts: Vec<&[u8]> = vec![b"", b"a???1???2!!!", b"???0???0!!!x y???-3???4!!!"];
    for text in texts {
        let entries = decode_listing(text).unwrap();
        assert_eq!(encode_listing(&entries), text.to_vec());
    }
}
