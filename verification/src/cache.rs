//! The record cache: already parsed examples, kept as length-prefixed
//! records behind a header that says what configuration produced them.
//!
//! Layout of a cache: four magic bytes; the format version, 32 bits little
//! endian; the length of the serialized namespace configuration, 64 bits
//! little endian, and the configuration itself; then the records. A record
//! is a run of 32-bit little-endian words of which the first is the number
//! of words in the record, itself included.
//!
//! This module frames and checks bytes. Moving them to and from a file is the
//! caller's business.

use byteorder::ByteOrder;
use vstd::bytes::spec_u32_from_le_bytes;
use vstd::bytes::spec_u32_to_le_bytes;
use vstd::bytes::spec_u64_from_le_bytes;
use vstd::bytes::spec_u64_to_le_bytes;
use vstd::prelude::*;
use vstd::slice::slice_subrange;
use vstd::string::StrSliceExecFns;
use vstd::string::StringExecFns;

verus! {

/// Version of the cache format.
pub const CACHE_HEADER_VERSION: u32 = 4;

/// Length of the reader's window.
pub const READBUF_LEN: usize = 102400;

/// Length of the header in front of the configuration: magic, version and
/// the configuration's length.
pub const HEADER_PREFIX_LEN: usize = 16;

/// The magic bytes, `FWCA`.
pub open spec fn spec_magic() -> Seq<u8> {
    seq![0x46u8, 0x57u8, 0x43u8, 0x41u8]
}

/// Why a cache cannot be used.
#[derive(Clone, Copy, Debug, PartialEq, Eq, Structural)]
pub enum CacheError {
    /// A record was asked of a cache that is not open for reading.
    NotReading,
    /// The cache does not begin with the magic bytes.
    BadMagic,
    /// The cache was written in another version of the format.
    VersionMismatch,
    /// The cache was produced under another namespace configuration.
    ConfigMismatch,
    /// The cache ends inside its header.
    Truncated,
}

/// `byteorder::LittleEndian::read_u32`: the first four bytes of `buf`, read
/// as a little-endian number. The outside function panics on fewer than four
/// bytes, which `requires` leaves out.
#[verifier::external_body]
fn read_u32_le(buf: &[u8]) -> (r: u32)
    requires
        buf@.len() >= 4,
    ensures
        r == spec_u32_from_le_bytes(buf@.subrange(0, 4)),
{
    byteorder::LittleEndian::read_u32(buf)
}

/// `byteorder::LittleEndian::read_u64`: the first eight bytes of `buf`, read
/// as a little-endian number. The outside function panics on fewer than
/// eight bytes, which `requires` leaves out.
#[verifier::external_body]
fn read_u64_le(buf: &[u8]) -> (r: u64)
    requires
        buf@.len() >= 8,
    ensures
        r == spec_u64_from_le_bytes(buf@.subrange(0, 8)),
{
    byteorder::LittleEndian::read_u64(buf)
}

/// `byteorder::LittleEndian::write_u32`: overwrites the first four bytes of
/// `buf` with `n` in little-endian order and leaves the rest alone. The
/// outside function panics on fewer than four bytes, which `requires` leaves
/// out.
#[verifier::external_body]
fn write_u32_le(buf: &mut [u8], n: u32)
    requires
        old(buf)@.len() >= 4,
    ensures
        final(buf)@ == spec_u32_to_le_bytes(n) + old(buf)@.subrange(4, old(buf)@.len() as int),
{
    byteorder::LittleEndian::write_u32(buf, n)
}

/// `byteorder::LittleEndian::write_u64`: overwrites the first eight bytes of
/// `buf` with `n` in little-endian order and leaves the rest alone. The
/// outside function panics on fewer than eight bytes, which `requires` leaves
/// out.
#[verifier::external_body]
fn write_u64_le(buf: &mut [u8], n: u64)
    requires
        old(buf)@.len() >= 8,
    ensures
        final(buf)@ == spec_u64_to_le_bytes(n) + old(buf)@.subrange(8, old(buf)@.len() as int),
{
    byteorder::LittleEndian::write_u64(buf, n)
}

/// Appends `n` to `out` as four little-endian bytes.
pub fn append_u32(out: &mut Vec<u8>, n: u32)
    ensures
        final(out)@ == old(out)@ + spec_u32_to_le_bytes(n),
{
    let mut word: Vec<u8> = Vec::new();
    word.push(0);
    word.push(0);
    word.push(0);
    word.push(0);
    write_u32_le(word.as_mut_slice(), n);
    proof {
        vstd::bytes::lemma_auto_spec_u32_to_from_le_bytes();
    }
    assert(word@ =~= spec_u32_to_le_bytes(n));
    append_bytes(out, word.as_slice());
}

/// Appends `n` to `out` as eight little-endian bytes.
pub fn append_u64(out: &mut Vec<u8>, n: u64)
    ensures
        final(out)@ == old(out)@ + spec_u64_to_le_bytes(n),
{
    let mut word: Vec<u8> = Vec::new();
    let mut i: usize = 0;
    while i < 8
        invariant
            i <= 8,
            word@.len() == i,
        decreases 8 - i,
    {
        word.push(0);
        i += 1;
    }
    write_u64_le(word.as_mut_slice(), n);
    proof {
        vstd::bytes::lemma_auto_spec_u64_to_from_le_bytes();
    }
    assert(word@ =~= spec_u64_to_le_bytes(n));
    append_bytes(out, word.as_slice());
}

/// Appends `bytes` to `out`.
pub fn append_bytes(out: &mut Vec<u8>, bytes: &[u8])
    ensures
        final(out)@ == old(out)@ + bytes@,
{
    let mut i: usize = 0;
    while i < bytes.len()
        invariant
            i <= bytes@.len(),
            out@ == old(out)@ + bytes@.subrange(0, i as int),
        decreases bytes@.len() - i,
    {
        out.push(bytes[i]);
        i += 1;
        assert(out@ =~= old(out)@ + bytes@.subrange(0, i as int));
    }
    assert(bytes@.subrange(0, bytes@.len() as int) =~= bytes@);
}

/// The header of a cache that was produced under `config`.
pub open spec fn spec_header(config: Seq<u8>) -> Seq<u8> {
    spec_magic() + spec_u32_to_le_bytes(CACHE_HEADER_VERSION) + spec_u64_to_le_bytes(
        config.len() as u64,
    ) + config
}

/// What checking the head of a cache against `config` gives: the length of
/// the header where it is the header for `config`, and else the first thing
/// that is wrong with it, in the order magic, version, configuration.
pub open spec fn spec_verify_header(head: Seq<u8>, config: Seq<u8>) -> Result<nat, CacheError> {
    if head.len() < 4 || head.subrange(0, 4) != spec_magic() {
        Err(CacheError::BadMagic)
    } else if head.len() < 8 {
        Err(CacheError::Truncated)
    } else if spec_u32_from_le_bytes(head.subrange(4, 8)) != CACHE_HEADER_VERSION {
        Err(CacheError::VersionMismatch)
    } else if head.len() < 16 {
        Err(CacheError::Truncated)
    } else if spec_u64_from_le_bytes(head.subrange(8, 16)) != config.len() {
        Err(CacheError::ConfigMismatch)
    } else if head.len() < 16 + config.len() {
        Err(CacheError::Truncated)
    } else if head.subrange(16, 16 + config.len() as int) != config {
        Err(CacheError::ConfigMismatch)
    } else {
        Ok(16 + config.len())
    }
}

/// Number of leading bytes of a cache that `check_header` needs to see to
/// accept it under `config`; `None` where that number does not fit in
/// `usize`.
pub fn header_len(config: &[u8]) -> (r: Option<usize>)
    ensures
        match r {
            Some(n) => n == 16 + config@.len(),
            None => 16 + config@.len() > usize::MAX,
        },
{
    config.len().checked_add(HEADER_PREFIX_LEN)
}

/// Whether `a[from .. from + b.len()]` equals `b`.
fn bytes_match(a: &[u8], from: usize, b: &[u8]) -> (r: bool)
    requires
        from + b@.len() <= a@.len(),
    ensures
        r == (a@.subrange(from as int, from + b@.len()) == b@),
{
    let ghost a_len = a.len();
    let mut i: usize = 0;
    while i < b.len()
        invariant
            a_len == a@.len(),
            from + b@.len() <= a@.len(),
            i <= b@.len(),
            forall|j: int| 0 <= j < i ==> a@[from + j] == b@[j],
        decreases b@.len() - i,
    {
        if a[from + i] != b[i] {
            assert(a@.subrange(from as int, from + b@.len())[i as int] != b@[i as int]);
            return false;
        }
        i += 1;
    }
    assert(a@.subrange(from as int, from + b@.len()) =~= b@);
    true
}

/// Writes the header for `config`: magic, version, and the configuration
/// behind its length.
pub fn encode_header(out: &mut Vec<u8>, config: &[u8])
    ensures
        final(out)@ == old(out)@ + spec_header(config@),
{
    out.push(0x46);
    out.push(0x57);
    out.push(0x43);
    out.push(0x41);
    assert(out@ =~= old(out)@ + spec_magic());
    append_u32(out, CACHE_HEADER_VERSION);
    append_u64(out, config.len() as u64);
    append_bytes(out, config);
    assert(out@ =~= old(out)@ + spec_header(config@));
}

/// Checks the head of a cache against the configuration of this run. The
/// cache is usable exactly when it begins with the header that
/// `encode_header` writes for `config`; the result is then the header's
/// length. Else the error tells what is wrong: the magic bytes, the version,
/// the configuration, or a cache that ends inside its header.
pub fn check_header(head: &[u8], config: &[u8]) -> (r: Result<usize, CacheError>)
    ensures
        match r {
            Ok(n) => spec_verify_header(head@, config@) == Ok::<nat, CacheError>(n as nat),
            Err(e) => spec_verify_header(head@, config@) == Err::<nat, CacheError>(e),
        },
{
    if head.len() < 4 {
        return Err(CacheError::BadMagic);
    }
    if head[0] != 0x46 || head[1] != 0x57 || head[2] != 0x43 || head[3] != 0x41 {
        assert(head@.subrange(0, 4)[0] == head@[0]);
        assert(head@.subrange(0, 4)[1] == head@[1]);
        assert(head@.subrange(0, 4)[2] == head@[2]);
        assert(head@.subrange(0, 4)[3] == head@[3]);
        return Err(CacheError::BadMagic);
    }
    assert(head@.subrange(0, 4) =~= spec_magic());
    if head.len() < 8 {
        return Err(CacheError::Truncated);
    }
    let version_bytes = vstd::slice::slice_subrange(head, 4, 8);
    assert(version_bytes@.subrange(0, 4) =~= head@.subrange(4, 8));
    let version = read_u32_le(version_bytes);
    if version != CACHE_HEADER_VERSION {
        return Err(CacheError::VersionMismatch);
    }
    if head.len() < 16 {
        return Err(CacheError::Truncated);
    }
    let length_bytes = vstd::slice::slice_subrange(head, 8, 16);
    assert(length_bytes@.subrange(0, 8) =~= head@.subrange(8, 16));
    let stored_len = read_u64_le(length_bytes);
    if stored_len != config.len() as u64 {
        return Err(CacheError::ConfigMismatch);
    }
    if head.len() - 16 < config.len() {
        return Err(CacheError::Truncated);
    }
    if !bytes_match(head, 16, config) {
        return Err(CacheError::ConfigMismatch);
    }
    Ok(16 + config.len())
}

/// The bytes of a run of words: each word as four little-endian bytes, in
/// order.
pub open spec fn spec_words_to_bytes(words: Seq<u32>) -> Seq<u8>
    decreases words.len(),
{
    if words.len() == 0 {
        Seq::empty()
    } else {
        spec_words_to_bytes(words.drop_last()) + spec_u32_to_le_bytes(words.last())
    }
}

/// The `i`-th little-endian word of `bytes`.
pub open spec fn spec_word_at(bytes: Seq<u8>, i: int) -> u32 {
    spec_u32_from_le_bytes(bytes.subrange(4 * i, 4 * i + 4))
}

/// The first `n` little-endian words of `bytes`.
pub open spec fn spec_bytes_to_words(bytes: Seq<u8>, n: nat) -> Seq<u32> {
    Seq::new(n, |i: int| spec_word_at(bytes, i))
}

/// The record at the head of `pending`, if all of it is there: the first
/// word says how many words the record has, itself included.
pub open spec fn spec_head_record(pending: Seq<u8>) -> Option<Seq<u32>> {
    if pending.len() < 4 {
        None
    } else {
        let n = spec_u32_from_le_bytes(pending.subrange(0, 4));
        if 4 * n <= pending.len() {
            Some(spec_bytes_to_words(pending, n as nat))
        } else {
            None
        }
    }
}

/// The records that a reader with a window of `window` bytes hands out for
/// a stream, in order. It stops at the end of the stream, at a record that
/// the stream ends inside, at a record that is longer than the window, and
/// at a record of length zero.
pub open spec fn spec_parse(stream: Seq<u8>, window: nat) -> Seq<Seq<u32>>
    decreases stream.len(),
{
    match spec_head_record(stream) {
        Some(words) => if 0 < words.len() && 4 * words.len() <= window && 4 * words.len()
            <= stream.len() {
            seq![words] + spec_parse(stream.skip(4 * words.len() as int), window)
        } else {
            Seq::empty()
        },
        None => Seq::empty(),
    }
}

/// A record whose first word is its own length in words.
pub open spec fn spec_self_describing(record: Seq<u32>) -> bool {
    record.len() >= 1 && record[0] == record.len()
}

/// The bytes of a run of records.
pub open spec fn spec_encode_records(records: Seq<Seq<u32>>) -> Seq<u8>
    decreases records.len(),
{
    if records.len() == 0 {
        Seq::empty()
    } else {
        spec_words_to_bytes(records[0]) + spec_encode_records(records.skip(1))
    }
}

/// `s` ends in `gz`.
pub open spec fn spec_ends_with_gz(s: Seq<char>) -> bool {
    s.len() >= 2 && s[s.len() - 2] == 'g' && s[s.len() - 1] == 'z'
}

/// The words of a run take four bytes each, and each word can be read back
/// at its place.
pub proof fn lemma_words_bytes(words: Seq<u32>)
    ensures
        spec_words_to_bytes(words).len() == 4 * words.len(),
        forall|i: int|
            0 <= i < words.len() ==> spec_words_to_bytes(words).subrange(4 * i, 4 * i + 4)
                == spec_u32_to_le_bytes(#[trigger] words[i]),
        spec_bytes_to_words(spec_words_to_bytes(words), words.len()) == words,
    decreases words.len(),
{
    vstd::bytes::lemma_auto_spec_u32_to_from_le_bytes();
    let bytes = spec_words_to_bytes(words);
    if words.len() > 0 {
        let front = words.drop_last();
        lemma_words_bytes(front);
        let front_bytes = spec_words_to_bytes(front);
        assert forall|i: int| 0 <= i < words.len() implies bytes.subrange(4 * i, 4 * i + 4)
            == spec_u32_to_le_bytes(#[trigger] words[i]) by {
            if i < front.len() {
                assert(bytes.subrange(4 * i, 4 * i + 4) =~= front_bytes.subrange(4 * i, 4 * i + 4));
                assert(front[i] == words[i]);
            } else {
                assert(bytes.subrange(4 * i, 4 * i + 4) =~= spec_u32_to_le_bytes(words.last()));
            }
        }
    }
    assert forall|i: int| 0 <= i < words.len() implies #[trigger] spec_word_at(bytes, i)
        == words[i] by {
        assert(bytes.subrange(4 * i, 4 * i + 4) == spec_u32_to_le_bytes(words[i]));
    }
    assert(spec_bytes_to_words(bytes, words.len()) =~= words);
}

/// What lies in front of a stream decides its first record: once a record
/// is complete at the head of `pending`, it is the first record of every
/// stream that begins with `pending`; and while the length word is there
/// but the record is not, no stream that begins so has a first record
/// shorter than what is missing.
pub proof fn lemma_head_record_of_prefix(pending: Seq<u8>, more: Seq<u8>)
    ensures
        spec_head_record(pending) is Some ==> spec_head_record(pending + more) == spec_head_record(
            pending,
        ),
        pending.len() >= 4 ==> (pending + more).subrange(0, 4) == pending.subrange(0, 4),
{
    let stream = pending + more;
    if pending.len() >= 4 {
        assert(stream.subrange(0, 4) =~= pending.subrange(0, 4));
        let n = spec_u32_from_le_bytes(pending.subrange(0, 4));
        if 4 * n <= pending.len() {
            assert forall|i: int| 0 <= i < n implies #[trigger] spec_word_at(stream, i)
                == spec_word_at(pending, i) by {
                assert(stream.subrange(4 * i, 4 * i + 4) =~= pending.subrange(4 * i, 4 * i + 4));
            }
            assert(spec_bytes_to_words(stream, n as nat) =~= spec_bytes_to_words(
                pending,
                n as nat,
            ));
        }
    }
}

/// Writing self-describing records and reading them back gives the same
/// records in the same order, word for word, whenever each record fits in
/// the reader's window.
pub proof fn lemma_cache_round_trip(records: Seq<Seq<u32>>, window: nat)
    requires
        forall|i: int|
            0 <= i < records.len() ==> spec_self_describing(#[trigger] records[i]) && 4
                * records[i].len() <= window,
    ensures
        spec_parse(spec_encode_records(records), window) == records,
    decreases records.len(),
{
    if records.len() > 0 {
        vstd::bytes::lemma_auto_spec_u32_to_from_le_bytes();
        let first = records[0];
        let rest = records.skip(1);
        let first_bytes = spec_words_to_bytes(first);
        let rest_bytes = spec_encode_records(rest);
        let stream = spec_encode_records(records);
        lemma_words_bytes(first);
        lemma_head_record_of_prefix(first_bytes, rest_bytes);
        assert(first_bytes.subrange(0, 4) == spec_u32_to_le_bytes(first[0]));
        assert(spec_head_record(first_bytes) == Some(first));
        assert(stream.skip(4 * first.len() as int) =~= rest_bytes);
        assert forall|i: int| 0 <= i < rest.len() implies spec_self_describing(#[trigger] rest[i])
            && 4 * rest[i].len() <= window by {
            assert(rest[i] == records[i + 1]);
        }
        lemma_cache_round_trip(rest, window);
        assert(seq![first] + rest =~= records);
    }
}

/// A cache is usable under the configuration that it was written for, and
/// each way of not being so gives an error of its own: another
/// configuration, other magic bytes, another version.
pub proof fn lemma_header_validation(config: Seq<u8>, other: Seq<u8>, records: Seq<u8>)
    requires
        config.len() <= u64::MAX,
        other.len() <= u64::MAX,
        other != config,
    ensures
        spec_verify_header(spec_header(config) + records, config) == Ok::<nat, CacheError>(
            16 + config.len(),
        ),
        spec_verify_header(spec_header(other) + records, config) == Err::<nat, CacheError>(
            CacheError::ConfigMismatch,
        ),
        forall|head: Seq<u8>|
            head.len() >= 4 && head.subrange(0, 4) != spec_magic() ==> #[trigger] spec_verify_header(
                head,
                config,
            ) == Err::<nat, CacheError>(CacheError::BadMagic),
        forall|version: u32|
            version != CACHE_HEADER_VERSION ==> #[trigger] spec_verify_header(
                spec_magic() + spec_u32_to_le_bytes(version) + records,
                config,
            ) == Err::<nat, CacheError>(CacheError::VersionMismatch),
{
    vstd::bytes::lemma_auto_spec_u32_to_from_le_bytes();
    vstd::bytes::lemma_auto_spec_u64_to_from_le_bytes();
    lemma_header_parts(config, records);
    lemma_header_parts(other, records);
    if other.len() == config.len() {
        let head = spec_header(other) + records;
        assert(head.subrange(16, 16 + config.len() as int) =~= other);
    }
    assert forall|version: u32| version != CACHE_HEADER_VERSION implies #[trigger] spec_verify_header(
        spec_magic() + spec_u32_to_le_bytes(version) + records,
        config,
    ) == Err::<nat, CacheError>(CacheError::VersionMismatch) by {
        let head = spec_magic() + spec_u32_to_le_bytes(version) + records;
        assert(head.subrange(0, 4) =~= spec_magic());
        assert(head.subrange(4, 8) =~= spec_u32_to_le_bytes(version));
    }
}

proof fn lemma_header_parts(config: Seq<u8>, records: Seq<u8>)
    requires
        config.len() <= u64::MAX,
    ensures
        (spec_header(config) + records).len() == 16 + config.len() + records.len(),
        (spec_header(config) + records).subrange(0, 4) == spec_magic(),
        (spec_header(config) + records).subrange(4, 8) == spec_u32_to_le_bytes(
            CACHE_HEADER_VERSION,
        ),
        (spec_header(config) + records).subrange(8, 16) == spec_u64_to_le_bytes(
            config.len() as u64,
        ),
        (spec_header(config) + records).subrange(16, 16 + config.len() as int) == config,
{
    vstd::bytes::lemma_auto_spec_u32_to_from_le_bytes();
    vstd::bytes::lemma_auto_spec_u64_to_from_le_bytes();
    let head = spec_header(config) + records;
    assert(head.subrange(0, 4) =~= spec_magic());
    assert(head.subrange(4, 8) =~= spec_u32_to_le_bytes(CACHE_HEADER_VERSION));
    assert(head.subrange(8, 16) =~= spec_u64_to_le_bytes(config.len() as u64));
    assert(head.subrange(16, 16 + config.len() as int) =~= config);
}

/// A record cache, open for reading, open for writing, or switched off.
///
/// A reader holds a window on the cache: `byte_buffer[start_pointer ..
/// end_pointer]` are the bytes that have come in and belong to no record
/// handed out yet. A writer collects in `output` the bytes that are to go
/// to the temporary file.
pub struct RecordCache {
    pub temporary_filename: String,
    pub final_filename: String,
    pub gz: bool,
    pub writing: bool,
    pub reading: bool,
    pub byte_buffer: Vec<u8>,
    pub output: Vec<u8>,
    pub start_pointer: usize,
    pub end_pointer: usize,
}

impl RecordCache {
    /// The window lies inside the buffer.
    pub open spec fn wf(&self) -> bool {
        self.start_pointer <= self.end_pointer <= self.byte_buffer@.len()
    }

    /// The bytes that have come in and belong to no record handed out yet.
    pub open spec fn spec_pending(&self) -> Seq<u8> {
        self.byte_buffer@.subrange(self.start_pointer as int, self.end_pointer as int)
    }

    /// Everything but the window and the output is as in `other`.
    pub open spec fn spec_same_mode(&self, other: &RecordCache) -> bool {
        &&& self.temporary_filename == other.temporary_filename
        &&& self.final_filename == other.final_filename
        &&& self.gz == other.gz
        &&& self.writing == other.writing
        &&& self.reading == other.reading
    }

    /// Decides what the cache of `input_filename` is used for. `cache_head`
    /// is the beginning of the existing cache file, where there is one, and
    /// `config` the serialized namespace configuration of this run.
    ///
    /// A cache that is not enabled neither reads nor writes. An enabled one
    /// reads where a cache file exists and its header is the header for
    /// `config`; else it writes, and its output begins with that header. The
    /// cache file is named after the input with `.fwcache` behind it, and
    /// written under that name with `.writing` behind it; both are
    /// compressed where the input's name ends in `gz`.
    pub fn new(input_filename: &str, enabled: bool, cache_head: Option<&[u8]>, config: &[u8]) -> (rc:
        RecordCache)
        ensures
            rc.wf(),
            rc.temporary_filename@ == input_filename@ + ".fwcache.writing"@,
            rc.final_filename@ == input_filename@ + ".fwcache"@,
            rc.gz == spec_ends_with_gz(input_filename@),
            rc.reading == (enabled && (cache_head matches Some(head) && spec_verify_header(
                head@,
                config@,
            ) is Ok)),
            rc.writing == (enabled && !rc.reading),
            rc.spec_pending() == Seq::<u8>::empty(),
            rc.byte_buffer@.len() == if rc.reading {
                READBUF_LEN as int
            } else {
                0
            },
            rc.output@ == if rc.writing {
                spec_header(config@)
            } else {
                Seq::<u8>::empty()
            },
    {
        let temporary_filename = String::from_str(input_filename).concat(".fwcache.writing");
        let final_filename = String::from_str(input_filename).concat(".fwcache");
        let name_len = input_filename.unicode_len();
        let gz = name_len >= 2 && input_filename.get_char(name_len - 2) == 'g'
            && input_filename.get_char(name_len - 1) == 'z';
        let mut rc = RecordCache {
            temporary_filename,
            final_filename,
            gz,
            writing: false,
            reading: false,
            byte_buffer: Vec::new(),
            output: Vec::new(),
            start_pointer: 0,
            end_pointer: 0,
        };
        assert(rc.spec_pending() =~= Seq::<u8>::empty());
        if enabled {
            match cache_head {
                Some(head) => {
                    if rc.verify_header(head, config).is_ok() {
                        rc.reading = true;
                        rc.resize_window(READBUF_LEN);
                    }
                },
                None => {},
            }
            if !rc.reading {
                rc.writing = true;
                rc.write_header(config);
            }
        }
        rc
    }

    /// An empty window of `len` zero bytes.
    fn resize_window(&mut self, len: usize)
        ensures
            final(self).spec_same_mode(old(self)),
            final(self).output == old(self).output,
            final(self).byte_buffer@.len() == len,
            final(self).start_pointer == 0,
            final(self).end_pointer == 0,
            final(self).wf(),
            final(self).spec_pending() == Seq::<u8>::empty(),
    {
        self.byte_buffer.clear();
        let mut i: usize = 0;
        while i < len
            invariant
                self.spec_same_mode(old(self)),
                self.output == old(self).output,
                i <= len,
                self.byte_buffer@.len() == i,
            decreases len - i,
        {
            self.byte_buffer.push(0);
            i += 1;
        }
        self.start_pointer = 0;
        self.end_pointer = 0;
        assert(self.spec_pending() =~= Seq::<u8>::empty());
    }

    /// A reader with an empty window of `window` bytes.
    pub fn reader(window: usize) -> (rc: RecordCache)
        ensures
            rc.wf(),
            rc.reading,
            !rc.writing,
            rc.byte_buffer@.len() == window,
            rc.spec_pending() == Seq::<u8>::empty(),
            rc.output@ == Seq::<u8>::empty(),
    {
        let mut rc = RecordCache {
            temporary_filename: String::new(),
            final_filename: String::new(),
            gz: false,
            writing: false,
            reading: true,
            byte_buffer: Vec::new(),
            output: Vec::new(),
            start_pointer: 0,
            end_pointer: 0,
        };
        rc.resize_window(window);
        rc
    }

    /// A writer appends the record to its output, each word as four
    /// little-endian bytes. A cache that does not write ignores the record.
    pub fn push_record(&mut self, record_buf: &[u32])
        ensures
            final(self).spec_same_mode(old(self)),
            final(self).byte_buffer == old(self).byte_buffer,
            final(self).start_pointer == old(self).start_pointer,
            final(self).end_pointer == old(self).end_pointer,
            final(self).output@ == if old(self).writing {
                old(self).output@ + spec_words_to_bytes(record_buf@)
            } else {
                old(self).output@
            },
    {
        if self.writing {
            let mut i: usize = 0;
            while i < record_buf.len()
                invariant
                    self.spec_same_mode(old(self)),
                    self.byte_buffer == old(self).byte_buffer,
                    self.start_pointer == old(self).start_pointer,
                    self.end_pointer == old(self).end_pointer,
                    i <= record_buf@.len(),
                    self.output@ == old(self).output@ + spec_words_to_bytes(
                        record_buf@.subrange(0, i as int),
                    ),
                decreases record_buf@.len() - i,
            {
                append_u32(&mut self.output, record_buf[i]);
                i += 1;
                assert(record_buf@.subrange(0, i as int).drop_last() =~= record_buf@.subrange(
                    0,
                    i - 1,
                ));
                assert(self.output@ =~= old(self).output@ + spec_words_to_bytes(
                    record_buf@.subrange(0, i as int),
                ));
            }
            assert(record_buf@.subrange(0, record_buf@.len() as int) =~= record_buf@);
        }
    }

    /// Ends the writing. A writer hands over what is left of its output: once
    /// those bytes are in the temporary file, that file takes the cache's
    /// final name. A cache that does not write hands over nothing.
    pub fn write_finish(&mut self) -> (r: Option<Vec<u8>>)
        ensures
            final(self).spec_same_mode(old(self)),
            final(self).byte_buffer == old(self).byte_buffer,
            final(self).start_pointer == old(self).start_pointer,
            final(self).end_pointer == old(self).end_pointer,
            match r {
                Some(bytes) => {
                    &&& old(self).writing
                    &&& bytes@ == old(self).output@
                    &&& final(self).output@ == Seq::<u8>::empty()
                },
                None => !old(self).writing && final(self).output == old(self).output,
            },
    {
        if self.writing {
            let mut bytes: Vec<u8> = Vec::new();
            std::mem::swap(&mut bytes, &mut self.output);
            Some(bytes)
        } else {
            None
        }
    }

    /// Appends to the output the header for `config`.
    pub fn write_header(&mut self, config: &[u8])
        ensures
            final(self).spec_same_mode(old(self)),
            final(self).byte_buffer == old(self).byte_buffer,
            final(self).start_pointer == old(self).start_pointer,
            final(self).end_pointer == old(self).end_pointer,
            final(self).output@ == old(self).output@ + spec_header(config@),
    {
        encode_header(&mut self.output, config);
    }

    /// Checks the head of an existing cache against the configuration of
    /// this run. The cache is usable exactly when it begins with the header
    /// that `write_header` writes for `config`. Else the error tells what is
    /// wrong, in the order magic bytes, version, configuration.
    pub fn verify_header(&self, head: &[u8], config: &[u8]) -> (r: Result<(), CacheError>)
        ensures
            match r {
                Ok(_) => spec_verify_header(head@, config@) is Ok,
                Err(e) => spec_verify_header(head@, config@) == Err::<nat, CacheError>(e),
            },
    {
        match check_header(head, config) {
            Ok(_) => Ok(()),
            Err(e) => Err(e),
        }
    }

    /// Number of bytes that the window can still take in.
    pub fn room(&self) -> (r: usize)
        requires
            self.wf(),
        ensures
            r == self.byte_buffer@.len() - self.end_pointer,
    {
        self.byte_buffer.len() - self.end_pointer
    }

    /// Takes bytes that have been read from the cache into the window, as
    /// many as there is room for, and says how many that was.
    pub fn refill(&mut self, data: &[u8]) -> (taken: usize)
        requires
            old(self).wf(),
        ensures
            final(self).wf(),
            final(self).spec_same_mode(old(self)),
            final(self).output == old(self).output,
            final(self).byte_buffer@.len() == old(self).byte_buffer@.len(),
            final(self).start_pointer == old(self).start_pointer,
            taken == if data@.len() <= old(self).byte_buffer@.len() - old(self).end_pointer {
                data@.len() as int
            } else {
                old(self).byte_buffer@.len() - old(self).end_pointer
            },
            final(self).spec_pending() == old(self).spec_pending() + data@.subrange(
                0,
                taken as int,
            ),
    {
        let room = self.byte_buffer.len() - self.end_pointer;
        let taken = if data.len() <= room {
            data.len()
        } else {
            room
        };
        let ghost first = self.end_pointer;
        let ghost buffer_len = self.byte_buffer.len();
        let mut i: usize = 0;
        while i < taken
            invariant
                buffer_len == self.byte_buffer@.len(),
                self.spec_same_mode(old(self)),
                self.output == old(self).output,
                self.byte_buffer@.len() == old(self).byte_buffer@.len(),
                self.start_pointer == old(self).start_pointer,
                self.start_pointer <= first,
                first == old(self).end_pointer,
                self.end_pointer == first + i,
                first + taken <= self.byte_buffer@.len(),
                taken <= data@.len(),
                i <= taken,
                forall|j: int| 0 <= j < first ==> self.byte_buffer@[j] == old(self).byte_buffer@[j],
                forall|j: int| 0 <= j < i ==> self.byte_buffer@[first + j] == data@[j],
            decreases taken - i,
        {
            self.byte_buffer[self.end_pointer] = data[i];
            self.end_pointer += 1;
            i += 1;
        }
        assert(self.spec_pending() =~= old(self).spec_pending() + data@.subrange(0, taken as int));
        taken
    }

    /// The next step of reading. A cache that is not open for reading
    /// refuses. Where the window holds a whole record at its head, the record
    /// is handed out and the window begins behind it. Else the pending bytes
    /// are moved to the front of the buffer, so that all free room lies
    /// behind them, and the answer is `None`: more bytes are needed. When no
    /// more bytes can be had, the cache is at its end.
    pub fn get_next_record(&mut self) -> (r: Result<Option<Vec<u32>>, CacheError>)
        requires
            old(self).wf(),
        ensures
            final(self).wf(),
            final(self).spec_same_mode(old(self)),
            final(self).output == old(self).output,
            final(self).byte_buffer@.len() == old(self).byte_buffer@.len(),
            !old(self).reading ==> r == Err::<Option<Vec<u32>>, CacheError>(CacheError::NotReading)
                && *final(self) == *old(self),
            old(self).reading ==> match spec_head_record(old(self).spec_pending()) {
                Some(words) => {
                    &&& r matches Ok(Some(record))
                    &&& record@ == words
                    &&& final(self).spec_pending() == old(self).spec_pending().skip(
                        4 * words.len() as int,
                    )
                },
                None => {
                    &&& r matches Ok(None)
                    &&& final(self).spec_pending() == old(self).spec_pending()
                    &&& final(self).start_pointer == 0
                },
            },
    {
        if !self.reading {
            return Err(CacheError::NotReading);
        }
        let available = self.end_pointer - self.start_pointer;
        let ghost pending = self.spec_pending();
        if available >= 4 {
            let head = slice_subrange(
                self.byte_buffer.as_slice(),
                self.start_pointer,
                self.start_pointer + 4,
            );
            assert(head@.subrange(0, 4) =~= pending.subrange(0, 4));
            let record_len = read_u32_le(head);
            if (record_len as u64) * 4 <= available as u64 {
                let n = record_len as usize;
                let mut record: Vec<u32> = Vec::new();
                let mut i: usize = 0;
                while i < n
                    invariant
                        *self == *old(self),
                        self.wf(),
                        pending == self.spec_pending(),
                        4 * n <= pending.len(),
                        i <= n,
                        record@.len() == i,
                        forall|j: int| 0 <= j < i ==> record@[j] == spec_word_at(pending, j),
                    decreases n - i,
                {
                    let word = slice_subrange(
                        self.byte_buffer.as_slice(),
                        self.start_pointer + 4 * i,
                        self.start_pointer + 4 * i + 4,
                    );
                    assert(word@.subrange(0, 4) =~= pending.subrange(4 * i, 4 * i + 4));
                    record.push(read_u32_le(word));
                    i += 1;
                }
                assert(record@ =~= spec_bytes_to_words(pending, n as nat));
                self.start_pointer += 4 * n;
                assert(self.spec_pending() =~= pending.skip(4 * n));
                return Ok(Some(record));
            }
        }
        let start = self.start_pointer;
        let mut i: usize = 0;
        while i < available
            invariant
                self.spec_same_mode(old(self)),
                self.output == old(self).output,
                self.byte_buffer@.len() == old(self).byte_buffer@.len(),
                self.start_pointer == start,
                start == old(self).start_pointer,
                self.end_pointer == old(self).end_pointer,
                available == self.end_pointer - start,
                old(self).wf(),
                i <= available,
                forall|j: int| 0 <= j < i ==> self.byte_buffer@[j] == old(self).byte_buffer@[start + j],
                forall|j: int|
                    i <= j < self.byte_buffer@.len() ==> self.byte_buffer@[j] == old(self).byte_buffer@[j],
            decreases available - i,
        {
            let byte = self.byte_buffer[start + i];
            self.byte_buffer[i] = byte;
            i += 1;
        }
        self.end_pointer = available;
        self.start_pointer = 0;
        assert(self.spec_pending() =~= pending);
        Ok(None)
    }
}

/// Reads every record of a cache that is wholly in memory: `stream` is what
/// follows the header. The bytes come into a window of `window` bytes, at
/// most `chunk` at a time, as they would from a file. The result does not
/// depend on `chunk`.
pub fn read_records(stream: &[u8], chunk: usize, window: usize) -> (records: Vec<Vec<u32>>)
    requires
        chunk > 0,
    ensures
        records@.len() == spec_parse(stream@, window as nat).len(),
        forall|i: int|
            0 <= i < records@.len() ==> (#[trigger] records@[i])@ == spec_parse(
                stream@,
                window as nat,
            )[i],
{
    let mut rc = RecordCache::reader(window);
    let mut records: Vec<Vec<u32>> = Vec::new();
    let ghost mut done: Seq<Seq<u32>> = Seq::empty();
    let mut position: usize = 0;
    assert(rc.spec_pending() + stream@.subrange(0, stream@.len() as int) =~= stream@);
    assert(done + spec_parse(stream@, window as nat) =~= spec_parse(stream@, window as nat));
    loop
        invariant_except_break
            done + spec_parse(
                rc.spec_pending() + stream@.subrange(position as int, stream@.len() as int),
                window as nat,
            ) == spec_parse(stream@, window as nat),
        invariant
            chunk > 0,
            rc.wf(),
            rc.reading,
            rc.byte_buffer@.len() == window,
            position <= stream@.len(),
            records@.len() == done.len(),
            forall|i: int| 0 <= i < records@.len() ==> (#[trigger] records@[i])@ == done[i],
        ensures
            records@.len() == done.len(),
            forall|i: int| 0 <= i < records@.len() ==> (#[trigger] records@[i])@ == done[i],
            done == spec_parse(stream@, window as nat),
        decreases 2 * (stream@.len() - position) + rc.spec_pending().len(),
    {
        let ghost pending = rc.spec_pending();
        let ghost unread = stream@.subrange(position as int, stream@.len() as int);
        proof {
            lemma_head_record_of_prefix(pending, unread);
        }
        match rc.get_next_record() {
            Ok(Some(record)) => {
                if record.len() == 0 {
                    assert(done + Seq::<Seq<u32>>::empty() =~= done);
                    break ;
                }
                proof {
                    assert((pending + unread).skip(4 * record@.len() as int) =~= pending.skip(
                        4 * record@.len() as int,
                    ) + unread);
                    assert(done.push(record@) + spec_parse(
                        (pending + unread).skip(4 * record@.len() as int),
                        window as nat,
                    ) =~= done + (seq![record@] + spec_parse(
                        (pending + unread).skip(4 * record@.len() as int),
                        window as nat,
                    )));
                    done = done.push(record@);
                }
                records.push(record);
            },
            Ok(None) => {
                let left = stream.len() - position;
                let want = if chunk <= left {
                    chunk
                } else {
                    left
                };
                let data = slice_subrange(stream, position, position + want);
                let taken = rc.refill(data);
                if taken == 0 {
                    proof {
                        if want == 0 {
                            assert(pending + unread =~= pending);
                        }
                        assert(done + Seq::<Seq<u32>>::empty() =~= done);
                    }
                    break ;
                }
                proof {
                    assert(pending + data@.subrange(0, taken as int) + stream@.subrange(
                        position + taken,
                        stream@.len() as int,
                    ) =~= pending + unread);
                }
                position += taken;
            },
            Err(_) => {
                assert(false);
                break ;
            },
        }
    }
    records
}

} // verus!
