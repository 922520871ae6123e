use mtl_info::{
    read_entry, read_tag, ByteSource, DecodeError, EntryHeaderTag, HeaderInformation,
    MetalLibrary, Parser,
};

const COUNT_POINTER: usize = 0x50;

fn tag(code: &[u8; 4], payload: &[u8]) -> Vec<u8> {
    let mut out = code.to_vec();
    out.extend_from_slice(&(payload.len() as u16).to_le_bytes());
    out.extend_from_slice(payload);
    out
}

fn name_tag(name: &str) -> Vec<u8> {
    let mut payload = name.as_bytes().to_vec();
    payload.push(0);
    tag(b"NAME", &payload)
}

fn size_tag(size: u64) -> Vec<u8> {
    tag(b"MDSZ", &size.to_le_bytes())
}

fn offset_tag(slots: [u64; 3]) -> Vec<u8> {
    let mut payload = Vec::new();
    for slot in slots {
        payload.extend_from_slice(&slot.to_le_bytes());
    }
    tag(b"OFFT", &payload)
}

fn record(tags: &[Vec<u8>]) -> Vec<u8> {
    let mut out = vec![0xAA, 0xBB, 0xCC, 0xDD];
    for t in tags {
        out.extend_from_slice(t);
    }
    out.extend_from_slice(b"ENDT");
    out
}

/// A container that declares `count` entries, holds `records` as its entry
/// index and `body` as its section of entry bodies.
fn container(count: u32, records: &[Vec<u8>], body: &[u8]) -> (Vec<u8>, u64) {
    let mut data = vec![0u8; COUNT_POINTER];
    data[0..4].copy_from_slice(b"MTLB");
    data[0x18..0x1C].copy_from_slice(&(COUNT_POINTER as u32).to_le_bytes());
    data.extend_from_slice(&count.to_le_bytes());
    for r in records {
        data.extend_from_slice(r);
    }
    let bodies = data.len() as u64;
    data[0x48..0x4C].copy_from_slice(&(bodies as u32).to_le_bytes());
    data.extend_from_slice(body);
    (data, bodies)
}

fn foo_record() -> Vec<u8> {
    record(&[name_tag("foo"), size_tag(1234), offset_tag([0, 0, 42])])
}

fn library_of(data: Vec<u8>) -> Result<Vec<(String, u64, u64)>, DecodeError> {
    let mut parser = Parser::new(ByteSource::new(data));
    let lib = parser.library()?;
    Ok(lib
        .entry_stubs
        .iter()
        .map(|e| (e.name.clone(), e.body_size, e.body_offset))
        .collect())
}

#[test]
fn round_trip_single_entry() {
    let (data, _) = container(1, &[foo_record()], &[]);
    let entries = library_of(data).unwrap();
    assert_eq!(entries, vec![("foo".to_string(), 1234, 42)]);
}

#[test]
fn header_fields_follow_the_pointers() {
    let (data, bodies) = container(7, &[], &[1, 2, 3]);
    let mut parser = Parser::new(ByteSource::new(data));
    let h = parser.header().unwrap();
    assert_eq!(
        h,
        HeaderInformation {
            entry_headers_offset: COUNT_POINTER as u64 + 4,
            entry_bodies_offset: bodies,
            number_of_entries: 7,
        }
    );
}

#[test]
fn header_from_reader_leaves_cursor_at_first_record() {
    let (data, _) = container(1, &[foo_record()], &[]);
    let mut source = ByteSource::new(data);
    let h = HeaderInformation::from_reader(&mut source).unwrap();
    assert_eq!(source.position(), h.entry_headers_offset);
    assert_eq!(h.entry_headers_offset, 0x54);
}

#[test]
fn header_of_short_container_is_eof() {
    let mut parser = Parser::new(ByteSource::new(vec![0u8; 0x30]));
    assert_eq!(parser.header(), Err(DecodeError::UnexpectedEof));
}

#[test]
fn header_with_count_pointer_past_end_is_eof() {
    let mut data = vec![0u8; 0x50];
    data[0x18..0x1C].copy_from_slice(&0x1000u32.to_le_bytes());
    let mut parser = Parser::new(ByteSource::new(data));
    assert_eq!(parser.header(), Err(DecodeError::UnexpectedEof));
}

#[test]
fn first_tag_end_yields_no_entries() {
    let (data, _) = container(3, &[record(&[]), foo_record()], &[]);
    assert_eq!(library_of(data).unwrap(), vec![]);
}

#[test]
fn unnamed_record_truncates_stream() {
    let unnamed = record(&[size_tag(5), offset_tag([1, 2, 3])]);
    let (data, _) = container(3, &[foo_record(), unnamed, foo_record()], &[]);
    let entries = library_of(data).unwrap();
    assert_eq!(entries.len(), 1);
    assert_eq!(entries[0].0, "foo");
}

#[test]
fn stream_stops_at_declared_count() {
    let second = record(&[name_tag("bar")]);
    let (data, _) = container(1, &[foo_record(), second], &[]);
    let entries = library_of(data).unwrap();
    assert_eq!(entries, vec![("foo".to_string(), 1234, 42)]);
}

#[test]
fn stream_reads_every_declared_entry() {
    let second = record(&[name_tag("bar"), size_tag(9)]);
    let (data, _) = container(2, &[foo_record(), second], &[]);
    let entries = library_of(data).unwrap();
    assert_eq!(
        entries,
        vec![("foo".to_string(), 1234, 42), ("bar".to_string(), 9, 0)]
    );
}

#[test]
fn zero_declared_entries_reads_nothing() {
    let (data, _) = container(0, &[foo_record()], &[]);
    assert_eq!(library_of(data).unwrap(), vec![]);
}

#[test]
fn missing_size_and_offset_default_to_zero() {
    let (data, _) = container(1, &[record(&[name_tag("bare")])], &[]);
    assert_eq!(library_of(data).unwrap(), vec![("bare".to_string(), 0, 0)]);
}

#[test]
fn last_tag_of_a_kind_wins() {
    let r = record(&[
        name_tag("first"),
        size_tag(1),
        offset_tag([0, 0, 2]),
        name_tag("second"),
        size_tag(3),
        offset_tag([9, 9, 4]),
    ]);
    let (data, _) = container(1, &[r], &[]);
    assert_eq!(library_of(data).unwrap(), vec![("second".to_string(), 3, 4)]);
}

#[test]
fn unknown_tag_is_skipped() {
    let extra = tag(b"XTRA", &[7u8; 10]);
    let r = record(&[name_tag("foo"), extra, size_tag(1234), offset_tag([0, 0, 42])]);
    let (data, _) = container(1, &[r], &[]);
    assert_eq!(library_of(data).unwrap(), vec![("foo".to_string(), 1234, 42)]);
}

#[test]
fn unknown_tag_is_reported_with_its_length() {
    let mut bytes = tag(b"XTRA", &[1u8; 10]);
    bytes.extend_from_slice(b"ENDT");
    let mut source = ByteSource::new(bytes);
    match read_tag(&mut source).unwrap() {
        EntryHeaderTag::Other(t) => {
            assert_eq!(&t.code, b"XTRA");
            assert_eq!(t.length, 10);
        }
        other => panic!("unexpected tag {:?}", other),
    }
    assert_eq!(source.position(), 16);
    assert!(matches!(read_tag(&mut source), Ok(EntryHeaderTag::End)));
}

#[test]
fn end_tag_has_no_length_field() {
    let mut source = ByteSource::new(b"ENDT".to_vec());
    assert!(matches!(read_tag(&mut source), Ok(EntryHeaderTag::End)));
    assert_eq!(source.position(), 4);
}

#[test]
fn name_tag_drops_terminating_nul() {
    let mut source = ByteSource::new(name_tag("vertex_main"));
    match read_tag(&mut source).unwrap() {
        EntryHeaderTag::Name(n) => assert_eq!(n, "vertex_main"),
        other => panic!("unexpected tag {:?}", other),
    }
    assert_eq!(source.position(), 6 + 12);
}

#[test]
fn name_tag_keeps_multibyte_text() {
    let mut source = ByteSource::new(name_tag("fünf"));
    match read_tag(&mut source).unwrap() {
        EntryHeaderTag::Name(n) => assert_eq!(n, "fünf"),
        other => panic!("unexpected tag {:?}", other),
    }
}

#[test]
fn empty_name_payload_gives_empty_name() {
    let mut source = ByteSource::new(tag(b"NAME", &[]));
    match read_tag(&mut source).unwrap() {
        EntryHeaderTag::Name(n) => assert_eq!(n, ""),
        other => panic!("unexpected tag {:?}", other),
    }
}

#[test]
fn size_tag_reads_eight_bytes_whatever_its_length() {
    let mut bytes = b"MDSZ".to_vec();
    bytes.extend_from_slice(&3u16.to_le_bytes());
    bytes.extend_from_slice(&0x0102_0304_0506_0708u64.to_le_bytes());
    let mut source = ByteSource::new(bytes);
    match read_tag(&mut source).unwrap() {
        EntryHeaderTag::Size(s) => assert_eq!(s, 0x0102_0304_0506_0708),
        other => panic!("unexpected tag {:?}", other),
    }
    assert_eq!(source.position(), 14);
}

#[test]
fn offset_tag_uses_third_slot() {
    let mut source = ByteSource::new(offset_tag([11, 22, 0x1_0000_0001]));
    match read_tag(&mut source).unwrap() {
        EntryHeaderTag::Offset(o) => assert_eq!(o, 0x1_0000_0001),
        other => panic!("unexpected tag {:?}", other),
    }
    assert_eq!(source.position(), 30);
}

#[test]
fn offset_tag_consumes_its_whole_payload() {
    let mut payload = Vec::new();
    for slot in [1u64, 2, 77, 4] {
        payload.extend_from_slice(&slot.to_le_bytes());
    }
    let mut bytes = tag(b"OFFT", &payload);
    bytes.extend_from_slice(b"ENDT");
    let mut source = ByteSource::new(bytes);
    assert!(matches!(read_tag(&mut source), Ok(EntryHeaderTag::Offset(77))));
    assert!(matches!(read_tag(&mut source), Ok(EntryHeaderTag::End)));
}

#[test]
fn short_offset_table_is_an_error() {
    let r = record(&[name_tag("foo"), tag(b"OFFT", &[0u8; 16])]);
    let (data, _) = container(1, &[r], &[]);
    assert_eq!(library_of(data), Err(DecodeError::OffsetTableTooShort));
}

#[test]
fn invalid_utf8_name_is_an_error() {
    let r = record(&[tag(b"NAME", &[0xff, 0xfe, 0])]);
    let (data, _) = container(1, &[r], &[]);
    assert_eq!(library_of(data), Err(DecodeError::InvalidName));
}

#[test]
fn truncated_index_is_eof() {
    let (mut data, _) = container(1, &[foo_record()], &[]);
    data.truncate(data.len() - 2);
    assert_eq!(library_of(data), Err(DecodeError::UnexpectedEof));
}

#[test]
fn truncated_tag_payload_is_eof() {
    let mut bytes = tag(b"XTRA", &[1u8; 10]);
    bytes.truncate(12);
    let mut source = ByteSource::new(bytes);
    assert!(matches!(read_tag(&mut source), Err(DecodeError::UnexpectedEof)));
}

#[test]
fn read_entry_without_name_gives_none() {
    let mut source = ByteSource::new(record(&[size_tag(3)]));
    assert!(matches!(read_entry(&mut source), Ok(None)));
    assert_eq!(source.position(), 4 + 14 + 4);
}

#[test]
fn magic_accepts_mtlb() {
    let mut source = ByteSource::new(b"MTLB and more".to_vec());
    assert_eq!(Parser::is_metal_library_file(&mut source), Ok(true));
    assert_eq!(source.position(), 4);
}

#[test]
fn magic_rejects_other_bytes() {
    let mut source = ByteSource::new(b"MTLA and more".to_vec());
    assert_eq!(Parser::is_metal_library_file(&mut source), Ok(false));
    let mut source = ByteSource::new(b"BLTM".to_vec());
    assert_eq!(Parser::is_metal_library_file(&mut source), Ok(false));
}

#[test]
fn magic_reads_from_the_start() {
    let mut source = ByteSource::new(b"MTLBxyz".to_vec());
    source.seek(5);
    assert_eq!(Parser::is_metal_library_file(&mut source), Ok(true));
}

#[test]
fn magic_on_short_source_is_eof() {
    let mut source = ByteSource::new(b"MTL".to_vec());
    assert_eq!(
        Parser::is_metal_library_file(&mut source),
        Err(DecodeError::UnexpectedEof)
    );
}

#[test]
fn repeated_calls_return_the_first_results() {
    let (data, _) = container(1, &[foo_record()], &[]);
    let mut parser = Parser::new(ByteSource::new(data));
    let h1 = parser.header().unwrap();
    let names1: Vec<String> = parser
        .library()
        .unwrap()
        .entry_stubs
        .iter()
        .map(|e| e.name.clone())
        .collect();
    let h2 = parser.header().unwrap();
    let lib = parser.library().unwrap();
    assert_eq!(h1, h2);
    assert_eq!(lib.header, h1);
    let names2: Vec<String> = lib.entry_stubs.iter().map(|e| e.name.clone()).collect();
    assert_eq!(names1, names2);
}

#[test]
fn library_after_body_read_still_scans_the_index() {
    let (data, bodies) = container(1, &[foo_record()], &[5u8; 8]);
    let mut parser = Parser::new(ByteSource::new(data));
    parser.header().unwrap();
    parser.read_from_offset(bodies, 8).unwrap();
    assert_eq!(parser.library().unwrap().entry_stubs.len(), 1);
}

#[test]
fn read_from_offset_returns_written_bytes() {
    let body: Vec<u8> = (0u8..32).collect();
    let (data, bodies) = container(1, &[foo_record()], &body);
    let mut fresh = Parser::new(ByteSource::new(data.clone()));
    let direct = fresh.read_from_offset(bodies + 4, 6).unwrap();
    assert_eq!(direct, vec![4, 5, 6, 7, 8, 9]);

    let mut used = Parser::new(ByteSource::new(data));
    used.header().unwrap();
    used.library().unwrap();
    assert_eq!(used.read_from_offset(bodies + 4, 6).unwrap(), direct);
}

#[test]
fn read_from_offset_past_end_is_eof() {
    let (data, _) = container(0, &[], &[1, 2, 3]);
    let len = data.len() as u64;
    let mut parser = Parser::new(ByteSource::new(data));
    assert_eq!(parser.read_from_offset(len - 2, 3), Err(DecodeError::UnexpectedEof));
    assert_eq!(parser.read_from_offset(len + 10, 0), Err(DecodeError::UnexpectedEof));
    assert_eq!(parser.read_from_offset(len, 0), Ok(vec![]));
}

#[test]
fn entry_body_lies_after_body_section_start() {
    let mut body = vec![0u8; 42];
    body.extend_from_slice(&[9, 8, 7]);
    let r = record(&[name_tag("foo"), size_tag(3), offset_tag([0, 0, 42])]);
    let (data, _) = container(1, &[r], &body);
    let mut parser = Parser::new(ByteSource::new(data));
    let entry = parser.library().unwrap().entry_stubs[0].clone();
    assert_eq!(parser.read_entry_body(&entry).unwrap(), vec![9, 8, 7]);
}

#[test]
fn entry_body_past_end_is_eof() {
    let (data, _) = container(1, &[foo_record()], &[0u8; 10]);
    let mut parser = Parser::new(ByteSource::new(data));
    let entry = parser.library().unwrap().entry_stubs[0].clone();
    assert_eq!(parser.read_entry_body(&entry), Err(DecodeError::UnexpectedEof));
}

#[test]
fn find_entry_by_name() {
    let second = record(&[name_tag("bar")]);
    let third = record(&[name_tag("foo"), size_tag(1)]);
    let (data, _) = container(3, &[foo_record(), second, third], &[]);
    let mut parser = Parser::new(ByteSource::new(data));
    let lib = parser.library().unwrap();
    assert_eq!(lib.find_entry("bar"), Some(1));
    assert_eq!(lib.find_entry("foo"), Some(0));
    assert_eq!(lib.find_entry("baz"), None);
}

#[test]
fn create_without_entries_is_empty() {
    let h = HeaderInformation {
        entry_headers_offset: 4,
        entry_bodies_offset: 8,
        number_of_entries: 3,
    };
    let lib = MetalLibrary::create(h, None);
    assert_eq!(lib.header, h);
    assert!(lib.entry_stubs.is_empty());
}

#[test]
fn source_skip_and_reads() {
    let mut source = ByteSource::new(vec![1, 2, 3, 4, 5, 6, 7, 8, 9, 10, 11]);
    assert_eq!(source.len(), 11);
    assert_eq!(source.read_u16_le(), Ok(0x0201));
    assert_eq!(source.skip(1), Ok(()));
    assert_eq!(source.read_u32_le(), Ok(0x0706_0504));
    assert_eq!(source.skip(5), Err(DecodeError::UnexpectedEof));
    assert_eq!(source.position(), 7);
    assert_eq!(source.read_u64_le(), Err(DecodeError::UnexpectedEof));
    source.seek(0);
    assert_eq!(source.read_u64_le(), Ok(0x0807_0605_0403_0201));
    assert_eq!(source.read_bytes(3), Ok(vec![9, 10, 11]));
}
