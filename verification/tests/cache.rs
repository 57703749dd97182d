use fwumious_wabbit::cache::append_bytes;
use fwumious_wabbit::cache::append_u32;
use fwumious_wabbit::cache::append_u64;
use fwumious_wabbit::cache::check_header;
use fwumious_wabbit::cache::encode_header;
use fwumious_wabbit::cache::header_len;
use fwumious_wabbit::cache::read_records;
use fwumious_wabbit::cache::CacheError;
use fwumious_wabbit::cache::RecordCache;
use fwumious_wabbit::cache::CACHE_HEADER_VERSION;
use fwumious_wabbit::cache::READBUF_LEN;

const CONFIG: &[u8] = b"{\"entries\":[{\"namespace_char\":\"A\"}]}";

fn header(config: &[u8]) -> Vec<u8> {
    let mut out = Vec::new();
    encode_header(&mut out, config);
    out
}

fn writer(config: &[u8]) -> RecordCache {
    RecordCache::new("train.vw", true, None, config)
}

/// A record of `len` words whose first word is `len`.
fn record(len: u32, salt: u32) -> Vec<u32> {
    let mut words = vec![len];
    for i in 1..len {
        words.push(salt.wrapping_mul(2654435761).wrapping_add(i * 0x01020304));
    }
    words
}

/// Reads a cache as a file would be read: `chunk` bytes at a time.
fn read_through(rc: &mut RecordCache, mut stream: &[u8], chunk: usize) -> Vec<Vec<u32>> {
    let mut records = Vec::new();
    loop {
        match rc.get_next_record().unwrap() {
            Some(record) => {
                if record.is_empty() {
                    return records;
                }
                records.push(record);
            }
            None => {
                let want = chunk.min(stream.len()).min(rc.room());
                if want == 0 {
                    return records;
                }
                let taken = rc.refill(&stream[..want]);
                assert_eq!(taken, want);
                stream = &stream[taken..];
            }
        }
    }
}

#[test]
fn test_header_layout_is_bit_exact() {
    let bytes = header(b"xyz");
    assert_eq!(
        bytes,
        vec![
            b'F', b'W', b'C', b'A', // magic
            4, 0, 0, 0, // version
            3, 0, 0, 0, 0, 0, 0, 0, // length of the configuration
            b'x', b'y', b'z',
        ]
    );
    assert_eq!(CACHE_HEADER_VERSION, 4);
    assert_eq!(header_len(b"xyz"), Some(19));
}

#[test]
fn test_little_endian_words() {
    let mut out = vec![9u8];
    append_u32(&mut out, 0x01020304);
    append_u64(&mut out, 0x1112131415161718);
    append_bytes(&mut out, &[7, 8]);
    assert_eq!(
        out,
        vec![9, 4, 3, 2, 1, 0x18, 0x17, 0x16, 0x15, 0x14, 0x13, 0x12, 0x11, 7, 8]
    );
}

#[test]
fn test_header_with_same_configuration_is_accepted() {
    let mut bytes = header(CONFIG);
    assert_eq!(check_header(&bytes, CONFIG), Ok(16 + CONFIG.len()));
    bytes.extend_from_slice(&[1, 0, 0, 0, 1, 0, 0, 0]);
    assert_eq!(check_header(&bytes, CONFIG), Ok(16 + CONFIG.len()));
    let rc = RecordCache::reader(64);
    assert_eq!(rc.verify_header(&bytes, CONFIG), Ok(()));
    assert_eq!(check_header(&header(b""), b""), Ok(16));
}

#[test]
fn test_header_errors_are_distinct() {
    let good = header(CONFIG);

    let mut other_config = CONFIG.to_vec();
    other_config[5] ^= 1;
    assert_eq!(check_header(&header(&other_config), CONFIG), Err(CacheError::ConfigMismatch));
    let mut longer_config = CONFIG.to_vec();
    longer_config.push(b' ');
    assert_eq!(check_header(&header(&longer_config), CONFIG), Err(CacheError::ConfigMismatch));
    assert_eq!(check_header(&header(b""), CONFIG), Err(CacheError::ConfigMismatch));

    for i in 0..4 {
        let mut bad_magic = good.clone();
        bad_magic[i] ^= 0x20;
        assert_eq!(check_header(&bad_magic, CONFIG), Err(CacheError::BadMagic));
    }

    for version in [0u32, 3, 5, 0x0400_0000] {
        let mut bad_version = good.clone();
        bad_version[4..8].copy_from_slice(&version.to_le_bytes());
        assert_eq!(check_header(&bad_version, CONFIG), Err(CacheError::VersionMismatch));
    }

    // the first fault decides
    let mut all_bad = header(&other_config);
    all_bad[4] = 9;
    assert_eq!(check_header(&all_bad, CONFIG), Err(CacheError::VersionMismatch));
    all_bad[0] = b'X';
    assert_eq!(check_header(&all_bad, CONFIG), Err(CacheError::BadMagic));

    let rc = RecordCache::reader(64);
    assert_eq!(rc.verify_header(&all_bad, CONFIG), Err(CacheError::BadMagic));
}

#[test]
fn test_truncated_header() {
    let good = header(CONFIG);
    assert_eq!(check_header(&[], CONFIG), Err(CacheError::BadMagic));
    assert_eq!(check_header(&good[..3], CONFIG), Err(CacheError::BadMagic));
    assert_eq!(check_header(&good[..4], CONFIG), Err(CacheError::Truncated));
    assert_eq!(check_header(&good[..7], CONFIG), Err(CacheError::Truncated));
    assert_eq!(check_header(&good[..8], CONFIG), Err(CacheError::Truncated));
    assert_eq!(check_header(&good[..15], CONFIG), Err(CacheError::Truncated));
    assert_eq!(check_header(&good[..16], CONFIG), Err(CacheError::Truncated));
    assert_eq!(check_header(&good[..good.len() - 1], CONFIG), Err(CacheError::Truncated));
    assert_eq!(check_header(&good, CONFIG), Ok(good.len()));
}

#[test]
fn test_new_disabled_cache_does_nothing() {
    let mut rc = RecordCache::new("train.vw", false, Some(&header(CONFIG)), CONFIG);
    assert!(!rc.reading);
    assert!(!rc.writing);
    assert!(rc.output.is_empty());
    rc.push_record(&[2, 7]);
    assert!(rc.output.is_empty());
    assert_eq!(rc.write_finish(), None);
    assert_eq!(rc.get_next_record(), Err(CacheError::NotReading));
}

#[test]
fn test_new_reads_usable_cache() {
    let rc = RecordCache::new("train.vw", true, Some(&header(CONFIG)), CONFIG);
    assert!(rc.reading);
    assert!(!rc.writing);
    assert!(!rc.gz);
    assert_eq!(rc.byte_buffer.len(), READBUF_LEN);
    assert_eq!(READBUF_LEN, 1024 * 100);
    assert_eq!(rc.room(), READBUF_LEN);
    assert!(rc.output.is_empty());
    assert_eq!(rc.final_filename, "train.vw.fwcache");
    assert_eq!(rc.temporary_filename, "train.vw.fwcache.writing");
}

#[test]
fn test_new_rewrites_unusable_cache() {
    let mut stale = header(CONFIG);
    stale[4] = 3;
    let rc = RecordCache::new("data/train.vw.gz", true, Some(&stale), CONFIG);
    assert!(!rc.reading);
    assert!(rc.writing);
    assert!(rc.gz);
    assert_eq!(rc.output, header(CONFIG));
    assert_eq!(rc.final_filename, "data/train.vw.gz.fwcache");
    assert_eq!(rc.temporary_filename, "data/train.vw.gz.fwcache.writing");

    let rc = RecordCache::new("z", true, Some(&header(b"other")), CONFIG);
    assert!(rc.writing && !rc.reading && !rc.gz);
}

#[test]
fn test_new_writes_where_no_cache_exists() {
    let rc = writer(CONFIG);
    assert!(!rc.reading);
    assert!(rc.writing);
    assert_eq!(rc.output, header(CONFIG));
}

#[test]
fn test_gz_is_decided_by_the_end_of_the_name() {
    for (name, gz) in [
        ("a.gz", true),
        ("gz", true),
        ("agz", true),
        ("a.gz.txt", false),
        ("g", false),
        ("z", false),
        ("", false),
        ("a.GZ", false),
        ("\u{e9}t\u{e9}.gz", true),
        ("a.g\u{7a}", true),
    ] {
        assert_eq!(RecordCache::new(name, false, None, CONFIG).gz, gz, "{:?}", name);
    }
}

#[test]
fn test_push_record_appends_little_endian_words() {
    let mut rc = writer(b"");
    let start = rc.output.len();
    rc.push_record(&[3, 0x01020304, 0xFFFFFFFE]);
    assert_eq!(
        rc.output[start..].to_vec(),
        vec![3, 0, 0, 0, 4, 3, 2, 1, 0xFE, 0xFF, 0xFF, 0xFF]
    );
    rc.push_record(&[1]);
    assert_eq!(rc.output[start + 12..].to_vec(), vec![1, 0, 0, 0]);
    rc.push_record(&[]);
    assert_eq!(rc.output.len(), start + 16);
}

#[test]
fn test_write_finish_hands_over_the_output() {
    let mut rc = writer(CONFIG);
    rc.push_record(&[2, 5]);
    let mut expected = header(CONFIG);
    expected.extend_from_slice(&[2, 0, 0, 0, 5, 0, 0, 0]);
    assert_eq!(rc.write_finish(), Some(expected));
    assert!(rc.output.is_empty());
    assert!(rc.writing);
    assert_eq!(rc.write_finish(), Some(Vec::new()));
}

#[test]
fn test_write_header_appends() {
    let mut rc = writer(b"a");
    rc.write_header(b"bc");
    let mut expected = header(b"a");
    expected.extend_from_slice(&header(b"bc"));
    assert_eq!(rc.output, expected);
}

#[test]
fn test_round_trip_through_header_and_records() {
    let records: Vec<Vec<u32>> =
        vec![record(3, 1), record(1, 2), record(40, 3), record(2, 4), record(7, 5)];
    let mut w = writer(CONFIG);
    for r in records.iter() {
        w.push_record(r);
    }
    let file = w.write_finish().unwrap();

    let head_len = header_len(CONFIG).unwrap();
    let mut r = RecordCache::new("train.vw", true, Some(&file[..head_len]), CONFIG);
    assert!(r.reading);
    assert_eq!(read_through(&mut r, &file[head_len..], 4096), records);
    // at the end the reader keeps asking for more
    assert_eq!(r.get_next_record(), Ok(None));
}

#[test]
fn test_round_trip_with_refills_inside_records() {
    let records: Vec<Vec<u32>> = (1..60).map(|i| record(1 + (i * 7) % 23, i)).collect();
    let mut w = writer(b"");
    let start = w.output.len();
    for r in records.iter() {
        w.push_record(r);
    }
    let stream = w.output[start..].to_vec();
    for chunk in [1, 2, 3, 4, 5, 7, 64, 1000] {
        for window in [92, 93, 100, 4096] {
            assert_eq!(read_records(&stream, chunk, window), records, "{} {}", chunk, window);
            let mut rc = RecordCache::reader(window);
            assert_eq!(read_through(&mut rc, &stream, chunk), records, "{} {}", chunk, window);
        }
    }
}

#[test]
fn test_reader_stops_at_a_record_longer_than_its_window() {
    let records = vec![record(2, 1), record(5, 2), record(2, 3)];
    let mut stream = Vec::new();
    for r in records.iter() {
        for word in r {
            stream.extend_from_slice(&word.to_le_bytes());
        }
    }
    assert_eq!(read_records(&stream, 3, 20), records);
    assert_eq!(read_records(&stream, 3, 19), records[..1].to_vec());
    assert_eq!(read_records(&stream, 3, 8), records[..1].to_vec());
    assert_eq!(read_records(&stream, 3, 7), Vec::<Vec<u32>>::new());
    assert_eq!(read_records(&stream, 3, 0), Vec::<Vec<u32>>::new());
}

#[test]
fn test_reader_stops_at_an_incomplete_record() {
    let mut stream = Vec::new();
    for word in [2u32, 9, 3, 8] {
        stream.extend_from_slice(&word.to_le_bytes());
    }
    assert_eq!(read_records(&stream, 5, 64), vec![vec![2, 9]]);
    stream.extend_from_slice(&[7, 0]);
    assert_eq!(read_records(&stream, 5, 64), vec![vec![2, 9]]);
    stream.extend_from_slice(&[0, 0]);
    assert_eq!(read_records(&stream, 5, 64), vec![vec![2, 9], vec![3, 8, 7]]);
    assert_eq!(read_records(&[], 5, 64), Vec::<Vec<u32>>::new());
    assert_eq!(read_records(&[1, 0, 0], 5, 64), Vec::<Vec<u32>>::new());
}

#[test]
fn test_reader_stops_at_a_record_of_length_zero() {
    let mut stream = Vec::new();
    for word in [1u32, 0, 1] {
        stream.extend_from_slice(&word.to_le_bytes());
    }
    assert_eq!(read_records(&stream, 4, 64), vec![vec![1]]);
    let mut rc = RecordCache::reader(64);
    assert_eq!(rc.refill(&stream[4..]), 8);
    assert_eq!(rc.get_next_record(), Ok(Some(Vec::new())));
    assert_eq!(rc.get_next_record(), Ok(Some(Vec::new())));
    assert_eq!(rc.start_pointer, 0);
}

#[test]
fn test_window_steps() {
    let mut rc = RecordCache::reader(12);
    assert_eq!(rc.room(), 12);
    assert_eq!(rc.get_next_record(), Ok(None));
    assert_eq!(rc.refill(&[2, 0, 0]), 3);
    assert_eq!(rc.get_next_record(), Ok(None));
    assert_eq!(rc.refill(&[0, 5, 0, 0, 0, 1, 0, 0, 0, 9, 9]), 9);
    assert_eq!(rc.room(), 0);
    assert_eq!(rc.refill(&[1]), 0);
    assert_eq!(rc.get_next_record(), Ok(Some(vec![2, 5])));
    assert_eq!((rc.start_pointer, rc.end_pointer), (8, 12));
    assert_eq!(rc.room(), 0);
    assert_eq!(rc.get_next_record(), Ok(Some(vec![1])));
    assert_eq!((rc.start_pointer, rc.end_pointer), (12, 12));
    // nothing complete is left: the rest moves to the front
    assert_eq!(rc.get_next_record(), Ok(None));
    assert_eq!((rc.start_pointer, rc.end_pointer), (0, 0));
    assert_eq!(rc.room(), 12);

    let mut rc = RecordCache::reader(12);
    rc.refill(&[1, 0, 0, 0, 3, 0, 0, 0, 6, 6]);
    assert_eq!(rc.get_next_record(), Ok(Some(vec![1])));
    assert_eq!(rc.get_next_record(), Ok(None));
    assert_eq!((rc.start_pointer, rc.end_pointer), (0, 6));
    assert_eq!(rc.byte_buffer[..6].to_vec(), vec![3, 0, 0, 0, 6, 6]);
    assert_eq!(rc.refill(&[6, 6, 7, 7, 7, 7, 8]), 6);
    assert_eq!(rc.get_next_record(), Ok(Some(vec![3, 0x06060606, 0x07070707])));
}

#[test]
fn test_writer_does_not_read() {
    let mut rc = writer(CONFIG);
    assert_eq!(rc.get_next_record(), Err(CacheError::NotReading));
}

#[test]
fn test_huge_length_word_is_no_record() {
    let mut rc = RecordCache::reader(16);
    rc.refill(&[0xFF, 0xFF, 0xFF, 0xFF, 1, 0, 0, 0]);
    assert_eq!(rc.get_next_record(), Ok(None));
    assert_eq!(read_records(&[0xFF, 0xFF, 0xFF, 0x7F, 1, 0, 0, 0], 8, 16), Vec::<Vec<u32>>::new());
}
