//! Post-run integrity checking: digests of reconstructed files against the
//! expected values a `pkg_version` listing records.

use crate::serialize::PkgVersion;
use vstd::prelude::*;
use vstd::string::StringExecFns;

verus! {

/// The sixteen digest bytes that hashing `data` yields.
pub uninterp spec fn md5_of(data: Seq<u8>) -> Seq<u8>;

/// Relies on `md5::compute`: the digest is sixteen bytes determined by the
/// input data alone.
#[verifier::external_body]
fn md5_digest(data: &[u8]) -> (r: [u8; 16])
    ensures
        r@ == md5_of(data@),
{
    md5::compute(data).0
}

/// The lowercase hexadecimal character of one value below sixteen.
pub open spec fn hex_digit_chars(v: int) -> Seq<char> {
    if v == 0 {
        seq!['0']
    } else if v == 1 {
        seq!['1']
    } else if v == 2 {
        seq!['2']
    } else if v == 3 {
        seq!['3']
    } else if v == 4 {
        seq!['4']
    } else if v == 5 {
        seq!['5']
    } else if v == 6 {
        seq!['6']
    } else if v == 7 {
        seq!['7']
    } else if v == 8 {
        seq!['8']
    } else if v == 9 {
        seq!['9']
    } else if v == 10 {
        seq!['a']
    } else if v == 11 {
        seq!['b']
    } else if v == 12 {
        seq!['c']
    } else if v == 13 {
        seq!['d']
    } else if v == 14 {
        seq!['e']
    } else {
        seq!['f']
    }
}

/// The lowercase hexadecimal rendering of a byte sequence: two characters
/// per byte, high nibble first.
pub open spec fn spec_hex_of(bytes: Seq<u8>) -> Seq<char>
    decreases bytes.len(),
{
    if bytes.len() == 0 {
        Seq::empty()
    } else {
        spec_hex_of(bytes.drop_last()) + hex_digit_chars(bytes.last() as int / 16)
            + hex_digit_chars(bytes.last() as int % 16)
    }
}

/// Append the hexadecimal character of one nibble.
fn push_hex_digit(s: &mut String, v: u8)
    requires
        v < 16,
    ensures
        final(s)@ == old(s)@ + hex_digit_chars(v as int),
{
    let d: &str = match v {
        0 => "0",
        1 => "1",
        2 => "2",
        3 => "3",
        4 => "4",
        5 => "5",
        6 => "6",
        7 => "7",
        8 => "8",
        9 => "9",
        10 => "a",
        11 => "b",
        12 => "c",
        13 => "d",
        14 => "e",
        _ => "f",
    };
    proof {
        reveal_strlit("0");
        reveal_strlit("1");
        reveal_strlit("2");
        reveal_strlit("3");
        reveal_strlit("4");
        reveal_strlit("5");
        reveal_strlit("6");
        reveal_strlit("7");
        reveal_strlit("8");
        reveal_strlit("9");
        reveal_strlit("a");
        reveal_strlit("b");
        reveal_strlit("c");
        reveal_strlit("d");
        reveal_strlit("e");
        reveal_strlit("f");
        assert("0"@ =~= seq!['0']);
        assert("1"@ =~= seq!['1']);
        assert("2"@ =~= seq!['2']);
        assert("3"@ =~= seq!['3']);
        assert("4"@ =~= seq!['4']);
        assert("5"@ =~= seq!['5']);
        assert("6"@ =~= seq!['6']);
        assert("7"@ =~= seq!['7']);
        assert("8"@ =~= seq!['8']);
        assert("9"@ =~= seq!['9']);
        assert("a"@ =~= seq!['a']);
        assert("b"@ =~= seq!['b']);
        assert("c"@ =~= seq!['c']);
        assert("d"@ =~= seq!['d']);
        assert("e"@ =~= seq!['e']);
        assert("f"@ =~= seq!['f']);
        assert(d@ == hex_digit_chars(v as int));
    }
    s.append(d);
}

/// Hash a file's bytes and render the digest the way `pkg_version` records
/// it: thirty-two lowercase hexadecimal characters.
pub fn calculate_md5_hash(data: &[u8]) -> (r: String)
    ensures
        r@ == spec_hex_of(md5_of(data@)),
{
    let digest = md5_digest(data);
    let mut out = String::new();
    let mut i: usize = 0;
    proof {
        assert(digest@.take(0) =~= Seq::<u8>::empty());
    }
    while i < 16
        invariant
            i <= 16,
            digest@ == md5_of(data@),
            digest@.len() == 16,
            out@ == spec_hex_of(digest@.take(i as int)),
        decreases 16 - i,
    {
        let v = digest[i];
        push_hex_digit(&mut out, v / 16);
        push_hex_digit(&mut out, v % 16);
        proof {
            assert(digest@.take(i + 1).drop_last() =~= digest@.take(i as int));
            assert(digest@.take(i + 1).last() == digest@[i as int]);
        }
        i = i + 1;
    }
    proof {
        assert(digest@.take(16) =~= digest@);
    }
    out
}

/// The outcome of holding one reconstructed file against its `pkg_version`
/// record.
#[derive(Clone, Copy, PartialEq, Eq, Structural, Debug)]
pub enum FileCheckResult {
    /// The file could not be read.
    Missing,
    /// The file's digest differs from the recorded one.
    Mismatch,
    /// The file's digest equals the recorded one.
    Matches,
}

/// Hold one file's bytes (absent when the file could not be read) against
/// its `pkg_version` record.
pub fn check_pkg_file(entry: &PkgVersion, data: Option<&Vec<u8>>) -> (r: FileCheckResult)
    ensures
        data is None ==> r == FileCheckResult::Missing,
        data matches Some(d) ==> r == if spec_hex_of(md5_of(d@)) == entry.md5@ {
            FileCheckResult::Matches
        } else {
            FileCheckResult::Mismatch
        },
{
    match data {
        None => FileCheckResult::Missing,
        Some(d) => {
            let hash = calculate_md5_hash(d.as_slice());
            if hash == entry.md5 {
                FileCheckResult::Matches
            } else {
                FileCheckResult::Mismatch
            }
        },
    }
}

} // verus!
