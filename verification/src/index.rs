//! Decoding the local chunk index.
//!
//! Each blob file sits beside a read-only key/value store. Keys are
//! chunk-name strings and values are decimal-encoded byte offsets into the
//! blob; the byte length of a chunk comes from the manifest, not from the
//! store. Malformed keys and values (non-UTF-8, non-numeric) are skipped
//! silently: a corrupt index entry never aborts extraction of the valid
//! ones.

use vstd::prelude::*;
use vstd::utf8::{decode_utf8, valid_utf8};

verus! {

/// One raw entry of the on-disk key/value store, exactly as the store hands
/// it out.
pub struct RawIndexEntry {
    pub key: Vec<u8>,
    pub value: Vec<u8>,
}

/// A chunk the current manifest asks for: its content-addressed name and
/// its raw (decompressed) byte size.
pub struct WantedChunk {
    pub chunk_name: String,
    pub chunk_size: u64,
}

/// A decoded index entry: where a wanted chunk's bytes lie inside the blob
/// file, and how many of them there are.
pub struct ChunkIndexEntry {
    pub chunk_name: String,
    pub offset: u64,
    pub size: u64,
}

/// The mathematical value of a decoded index entry.
pub struct ChunkIndexEntryView {
    pub chunk_name: Seq<char>,
    pub offset: u64,
    pub size: u64,
}

impl View for ChunkIndexEntry {
    type V = ChunkIndexEntryView;

    open spec fn view(&self) -> ChunkIndexEntryView {
        ChunkIndexEntryView {
            chunk_name: self.chunk_name@,
            offset: self.offset,
            size: self.size,
        }
    }
}

/// Whether `b` is an ASCII decimal digit.
pub open spec fn is_dec_digit(b: u8) -> bool {
    0x30 <= b <= 0x39
}

/// Whether every byte of `s` is an ASCII decimal digit.
pub open spec fn all_dec_digits(s: Seq<u8>) -> bool {
    forall|i: int| 0 <= i < s.len() ==> is_dec_digit(#[trigger] s[i])
}

/// The integer denoted by a sequence of decimal digit bytes.
pub open spec fn dec_value(s: Seq<u8>) -> int
    recommends
        all_dec_digits(s),
    decreases s.len(),
{
    if s.len() == 0 {
        0
    } else {
        dec_value(s.drop_last()) * 10 + s.last() - 0x30
    }
}

/// The digit part of a decimal numeral: everything after an optional
/// leading plus sign.
pub open spec fn dec_digits_of(s: Seq<u8>) -> Seq<u8> {
    if s.len() > 0 && s[0] == 0x2b {
        s.skip(1)
    } else {
        s
    }
}

/// The offset denoted by an index value: a non-empty run of decimal digits,
/// after an optional leading plus sign, whose value fits in a `u64`.
/// Anything else is malformed.
pub open spec fn spec_parse_u64(s: Seq<u8>) -> Option<u64> {
    let d = dec_digits_of(s);
    if d.len() > 0 && all_dec_digits(d) && dec_value(d) <= u64::MAX {
        Some(dec_value(d) as u64)
    } else {
        None
    }
}

/// The value of a digit sequence never goes negative.
proof fn lemma_dec_value_nonneg(s: Seq<u8>)
    requires
        all_dec_digits(s),
    ensures
        dec_value(s) >= 0,
    decreases s.len(),
{
    if s.len() > 0 {
        assert(all_dec_digits(s.drop_last())) by {
            assert(forall|i: int| 0 <= i < s.len() - 1 ==> s.drop_last()[i] == s[i]);
        }
        lemma_dec_value_nonneg(s.drop_last());
    }
}

/// Appending digits never shrinks the value: every prefix denotes at most
/// what the whole run denotes.
proof fn lemma_dec_value_prefix(s: Seq<u8>, i: int)
    requires
        all_dec_digits(s),
        0 <= i <= s.len(),
    ensures
        dec_value(s.take(i)) <= dec_value(s),
    decreases s.len() - i,
{
    if i < s.len() {
        assert(all_dec_digits(s.take(i + 1))) by {
            assert(forall|k: int| 0 <= k < i + 1 ==> s.take(i + 1)[k] == s[k]);
        }
        assert(s.take(i + 1).drop_last() =~= s.take(i));
        assert(s.take(i + 1).last() == s[i]);
        assert(all_dec_digits(s.take(i))) by {
            assert(forall|k: int| 0 <= k < i ==> s.take(i)[k] == s[k]);
        }
        lemma_dec_value_nonneg(s.take(i));
        assert(dec_value(s.take(i + 1)) == dec_value(s.take(i)) * 10 + s[i] - 0x30);
        assert(dec_value(s.take(i)) <= dec_value(s.take(i + 1)));
        lemma_dec_value_prefix(s, i + 1);
        assert(s.take(s.len() as int) =~= s);
    } else {
        assert(s.take(i) =~= s);
    }
}

/// Parse a decimal-encoded byte offset, the way the index store's values
/// are written. Returns `None` on empty input, a non-digit byte, or a value
/// too large for a `u64`.
pub fn parse_offset_value(bytes: &[u8]) -> (r: Option<u64>)
    ensures
        r == spec_parse_u64(bytes@),
{
    let ghost d = dec_digits_of(bytes@);
    let n = bytes.len();
    let start: usize = if n > 0 && bytes[0] == 0x2b {
        1
    } else {
        0
    };
    proof {
        assert(d =~= bytes@.skip(start as int));
    }
    if n == start {
        return None;
    }
    let mut acc: u64 = 0;
    let mut i: usize = start;
    while i < n
        invariant
            start <= i <= n,
            n == bytes@.len(),
            start < n,
            d == dec_digits_of(bytes@),
            d =~= bytes@.skip(start as int),
            all_dec_digits(d.take(i - start)),
            acc == dec_value(d.take(i - start)),
        decreases n - i,
    {
        let b = bytes[i];
        if b < 0x30 || b > 0x39 {
            proof {
                assert(d[i - start] == bytes@[i as int]);
                assert(!is_dec_digit(d[i - start]));
                assert(!all_dec_digits(d));
            }
            return None;
        }
        let digit = (b - 0x30) as u64;
        let ghost prev = d.take(i - start);
        proof {
            assert(d.take(i - start + 1).drop_last() =~= prev);
            assert(d.take(i - start + 1).last() == d[i - start]);
            assert(d[i - start] == bytes@[i as int]);
        }
        let grown = match acc.checked_mul(10) {
            Some(x) => x.checked_add(digit),
            None => None,
        };
        match grown {
            Some(x) => {
                acc = x;
            },
            None => {
                proof {
                    assert(dec_value(d.take(i - start + 1)) == acc * 10 + b - 0x30);
                    assert(dec_value(d.take(i - start + 1)) > u64::MAX);
                    if all_dec_digits(d) {
                        lemma_dec_value_prefix(d, i - start + 1);
                        assert(dec_value(d) > u64::MAX);
                    }
                }
                return None;
            },
        }
        i = i + 1;
    }
    proof {
        assert(d.take(n - start) =~= d);
    }
    Some(acc)
}

/// Relies on `String::from_utf8`: it succeeds exactly on valid UTF-8 input,
/// and the returned string's characters are the UTF-8 decoding of the
/// bytes.
#[verifier::external_body]
fn bytes_to_string(bytes: &Vec<u8>) -> (r: Option<String>)
    ensures
        r is Some <==> valid_utf8(bytes@),
        r matches Some(s) ==> s@ == decode_utf8(bytes@),
{
    String::from_utf8(bytes.clone()).ok()
}

/// The size recorded for `name` in the wanted list, scanning from the
/// front.
pub open spec fn spec_wanted_lookup(wanted: Seq<WantedChunk>, name: Seq<char>) -> Option<u64>
    decreases wanted.len(),
{
    if wanted.len() == 0 {
        None
    } else if wanted[0].chunk_name@ == name {
        Some(wanted[0].chunk_size)
    } else {
        spec_wanted_lookup(wanted.skip(1), name)
    }
}

/// Look a chunk name up in the wanted list.
pub fn lookup_wanted(wanted: &Vec<WantedChunk>, name: &String) -> (r: Option<u64>)
    ensures
        r == spec_wanted_lookup(wanted@, name@),
{
    let mut i: usize = 0;
    proof {
        assert(wanted@.skip(0) =~= wanted@);
    }
    while i < wanted.len()
        invariant
            i <= wanted@.len(),
            spec_wanted_lookup(wanted@, name@) == spec_wanted_lookup(
                wanted@.skip(i as int),
                name@,
            ),
        decreases wanted@.len() - i,
    {
        proof {
            assert(wanted@.skip(i as int)[0] == wanted@[i as int]);
            assert(wanted@.skip(i as int).skip(1) =~= wanted@.skip(i + 1));
        }
        if wanted[i].chunk_name == *name {
            return Some(wanted[i].chunk_size);
        }
        i = i + 1;
    }
    None
}

/// What one raw store entry contributes to extraction: `None` when the key
/// is not valid UTF-8, the value is not a decimal offset, or the manifest
/// does not want the chunk; otherwise the decoded entry.
pub open spec fn spec_entry_selection(e: RawIndexEntry, wanted: Seq<WantedChunk>) -> Option<
    ChunkIndexEntryView,
> {
    if valid_utf8(e.key@) {
        let name = decode_utf8(e.key@);
        match spec_parse_u64(e.value@) {
            Some(offset) => match spec_wanted_lookup(wanted, name) {
                Some(size) => Some(ChunkIndexEntryView { chunk_name: name, offset, size }),
                None => None,
            },
            None => None,
        }
    } else {
        None
    }
}

/// The decoded entries selected out of the raw store contents, in store
/// order.
pub open spec fn spec_select_wanted(entries: Seq<RawIndexEntry>, wanted: Seq<WantedChunk>) -> Seq<
    ChunkIndexEntryView,
>
    decreases entries.len(),
{
    if entries.len() == 0 {
        Seq::empty()
    } else {
        let rest = spec_select_wanted(entries.drop_last(), wanted);
        match spec_entry_selection(entries.last(), wanted) {
            Some(v) => rest.push(v),
            None => rest,
        }
    }
}

/// Walk the raw index entries and keep, in order, every well-formed entry
/// whose chunk the manifest wants, pairing the store's offset with the
/// manifest's size.
pub fn select_wanted_chunks(entries: &Vec<RawIndexEntry>, wanted: &Vec<WantedChunk>) -> (r: Vec<
    ChunkIndexEntry,
>)
    ensures
        r@.map_values(|e: ChunkIndexEntry| e@) == spec_select_wanted(entries@, wanted@),
{
    let mut out: Vec<ChunkIndexEntry> = Vec::new();
    let mut i: usize = 0;
    while i < entries.len()
        invariant
            i <= entries@.len(),
            out@.map_values(|e: ChunkIndexEntry| e@) == spec_select_wanted(
                entries@.take(i as int),
                wanted@,
            ),
        decreases entries@.len() - i,
    {
        let e = &entries[i];
        proof {
            assert(entries@.take(i + 1).drop_last() =~= entries@.take(i as int));
            assert(entries@.take(i + 1).last() == entries@[i as int]);
        }
        match bytes_to_string(&e.key) {
            Some(name) => {
                match parse_offset_value(e.value.as_slice()) {
                    Some(offset) => {
                        match lookup_wanted(wanted, &name) {
                            Some(size) => {
                                let entry = ChunkIndexEntry { chunk_name: name, offset, size };
                                out.push(entry);
                                proof {
                                    assert(out@.map_values(|x: ChunkIndexEntry| x@)
                                        =~= out@.drop_last().map_values(|x: ChunkIndexEntry| x@)
                                        .push(out@.last()@));
                                }
                            },
                            None => {},
                        }
                    },
                    None => {},
                }
            },
            None => {},
        }
        i = i + 1;
    }
    proof {
        assert(entries@.take(entries@.len() as int) =~= entries@);
    }
    out
}

/// The store's lookup contract: the offset and length under which `name`'s
/// bytes can be found, or `None` when the index holds no such chunk.
pub open spec fn spec_index_lookup(entries: Seq<ChunkIndexEntryView>, name: Seq<char>) -> Option<
    (u64, u64),
>
    decreases entries.len(),
{
    if entries.len() == 0 {
        None
    } else if entries[0].chunk_name == name {
        Some((entries[0].offset, entries[0].size))
    } else {
        spec_index_lookup(entries.skip(1), name)
    }
}

/// A decoded, read-only chunk index: chunk name to (byte offset, byte
/// length) within one blob file.
pub struct ChunkIndex {
    pub entries: Vec<ChunkIndexEntry>,
}

impl ChunkIndex {
    /// Wrap the entries decoded from one blob's store.
    pub fn new(entries: Vec<ChunkIndexEntry>) -> (r: ChunkIndex)
        ensures
            r.entries@ == entries@,
    {
        ChunkIndex { entries }
    }

    /// Where `chunk_name`'s bytes lie in the blob: the first matching
    /// entry's offset and length.
    pub fn lookup(&self, chunk_name: &String) -> (r: Option<(u64, u64)>)
        ensures
            r == spec_index_lookup(
                self.entries@.map_values(|e: ChunkIndexEntry| e@),
                chunk_name@,
            ),
    {
        let ghost views = self.entries@.map_values(|e: ChunkIndexEntry| e@);
        let mut i: usize = 0;
        proof {
            assert(views.skip(0) =~= views);
        }
        while i < self.entries.len()
            invariant
                i <= self.entries@.len(),
                views == self.entries@.map_values(|e: ChunkIndexEntry| e@),
                spec_index_lookup(views, chunk_name@) == spec_index_lookup(
                    views.skip(i as int),
                    chunk_name@,
                ),
            decreases self.entries@.len() - i,
        {
            proof {
                assert(views.skip(i as int)[0] == views[i as int]);
                assert(views.skip(i as int).skip(1) =~= views.skip(i + 1));
            }
            if self.entries[i].chunk_name == *chunk_name {
                return Some((self.entries[i].offset, self.entries[i].size));
            }
            i = i + 1;
        }
        None
    }
}

} // verus!
