//! The sidecar file formats that steer a patch run.
//!
//! A patch archive carries either `hdiffmap.json` (explicit source, target
//! and patch names per file) or `hdifffiles.txt` (one target name per
//! line, patch names derived by suffix), plus `deletefiles.txt` (one path
//! per line to remove) and `pkg_version` (one expected digest per file).
//! Reading those files from disk is the caller's business; the shapes and
//! the conversions between them live here.

use vstd::prelude::*;
use vstd::string::StringExecFns;
use vstd::string::StrSliceExecFns;

verus! {

/// One patch instruction: apply `patch_file_name` to `source_file_name`
/// (none when empty) to produce `target_file_name`.
pub struct HDiffData {
    pub source_file_name: String,
    pub target_file_name: String,
    pub patch_file_name: String,
}

/// The mathematical value of one patch instruction.
pub struct HDiffDataView {
    pub source_file_name: Seq<char>,
    pub target_file_name: Seq<char>,
    pub patch_file_name: Seq<char>,
}

impl View for HDiffData {
    type V = HDiffDataView;

    open spec fn view(&self) -> HDiffDataView {
        HDiffDataView {
            source_file_name: self.source_file_name@,
            target_file_name: self.target_file_name@,
            patch_file_name: self.patch_file_name@,
        }
    }
}

/// The whole patch plan of one run, in manifest order.
pub struct HDiffMap {
    pub diff_map: Vec<HDiffData>,
}

/// One line of `hdifffiles.txt`: the file a patch exists for.
pub struct HDiffFiles {
    pub remote_file: String,
}

/// One record of `pkg_version`: a file and its expected digest, written as
/// lowercase hexadecimal.
pub struct PkgVersion {
    pub remote_file: String,
    pub md5: String,
}

/// The list of files `deletefiles.txt` names, one per line.
pub struct DeleteFiles;

/// The patch suffix appended to a target name to name its patch file.
pub open spec fn spec_hdiff_suffix() -> Seq<char> {
    ".hdiff"@
}

/// The patch instruction a bare file list implies for one file: the file
/// patches onto itself, from a patch named by the diff suffix.
pub open spec fn spec_entry_from_file(name: Seq<char>) -> HDiffDataView {
    HDiffDataView {
        source_file_name: name,
        target_file_name: name,
        patch_file_name: name + spec_hdiff_suffix(),
    }
}

/// The patch instructions a whole file list implies, in file order.
pub open spec fn spec_entries_from_files(files: Seq<HDiffFiles>) -> Seq<HDiffDataView>
    decreases files.len(),
{
    if files.len() == 0 {
        Seq::empty()
    } else {
        spec_entries_from_files(files.drop_last()).push(
            spec_entry_from_file(files.last().remote_file@),
        )
    }
}

impl HDiffMap {
    /// Derive the explicit patch plan that a bare `hdifffiles.txt` listing
    /// implies.
    pub fn from_hdiff_files(files: &Vec<HDiffFiles>) -> (r: HDiffMap)
        ensures
            r.diff_map@.map_values(|e: HDiffData| e@) == spec_entries_from_files(files@),
    {
        let mut out: Vec<HDiffData> = Vec::new();
        let mut i: usize = 0;
        while i < files.len()
            invariant
                i <= files@.len(),
                out@.map_values(|e: HDiffData| e@) == spec_entries_from_files(
                    files@.take(i as int),
                ),
            decreases files@.len() - i,
        {
            let name = &files[i].remote_file;
            let entry = HDiffData {
                source_file_name: name.clone(),
                target_file_name: name.clone(),
                patch_file_name: name.clone().concat(".hdiff"),
            };
            out.push(entry);
            proof {
                assert(files@.take(i + 1).drop_last() =~= files@.take(i as int));
                assert(files@.take(i + 1).last() == files@[i as int]);
                assert(out@.last()@ == spec_entry_from_file(files@[i as int].remote_file@));
                assert(out@.map_values(|e: HDiffData| e@) =~= out@.drop_last().map_values(
                    |e: HDiffData| e@,
                ).push(out@.last()@));
            }
            i = i + 1;
        }
        proof {
            assert(files@.take(files@.len() as int) =~= files@);
        }
        HDiffMap { diff_map: out }
    }
}

/// The lines of `s`, split at every newline character; the separators are
/// dropped and empty lines are kept, so an empty input has one empty line.
pub open spec fn spec_split_lines(s: Seq<char>) -> Seq<Seq<char>>
    decreases s.len(),
{
    if s.len() == 0 {
        seq![Seq::<char>::empty()]
    } else if s[0] == '\n' {
        seq![Seq::<char>::empty()] + spec_split_lines(s.skip(1))
    } else {
        let rest = spec_split_lines(s.skip(1));
        seq![seq![s[0]] + rest[0]] + rest.skip(1)
    }
}

/// A split always yields at least one line.
proof fn lemma_split_nonempty(s: Seq<char>)
    ensures
        spec_split_lines(s).len() >= 1,
    decreases s.len(),
{
    if s.len() > 0 {
        lemma_split_nonempty(s.skip(1));
    }
}

/// A text without newlines is a single line.
proof fn lemma_split_no_nl(s: Seq<char>)
    requires
        forall|j: int| 0 <= j < s.len() ==> s[j] != '\n',
    ensures
        spec_split_lines(s) == seq![s],
    decreases s.len(),
{
    if s.len() == 0 {
        assert(seq![Seq::<char>::empty()] =~~= seq![s]);
    } else {
        assert(forall|j: int| 0 <= j < s.skip(1).len() ==> s.skip(1)[j] == s[j + 1]);
        lemma_split_no_nl(s.skip(1));
        let rest = spec_split_lines(s.skip(1));
        lemma_split_nonempty(s.skip(1));
        assert(rest[0] == s.skip(1));
        assert(seq![s[0]] + s.skip(1) =~= s);
        assert(rest.skip(1) =~= Seq::<Seq<char>>::empty());
        assert(seq![seq![s[0]] + rest[0]] + rest.skip(1) =~= seq![s]);
    }
}

/// Splitting at the first newline: everything before it is the first line,
/// and the rest of the text splits on its own.
proof fn lemma_split_first_nl(s: Seq<char>, k: int)
    requires
        0 <= k < s.len(),
        s[k] == '\n',
        forall|j: int| 0 <= j < k ==> s[j] != '\n',
    ensures
        spec_split_lines(s) == seq![s.take(k)] + spec_split_lines(s.skip(k + 1)),
    decreases k,
{
    if k == 0 {
        assert(s.take(0) =~= Seq::<char>::empty());
        assert(seq![Seq::<char>::empty()] + spec_split_lines(s.skip(1)) =~= seq![s.take(0)]
            + spec_split_lines(s.skip(1)));
    } else {
        let t = s.skip(1);
        assert(forall|j: int| 0 <= j < t.len() ==> t[j] == s[j + 1]);
        lemma_split_first_nl(t, k - 1);
        let rest = spec_split_lines(t);
        lemma_split_nonempty(t.skip(k));
        assert(rest == seq![t.take(k - 1)] + spec_split_lines(t.skip(k)));
        assert(rest[0] == t.take(k - 1));
        assert(rest.skip(1) =~= spec_split_lines(t.skip(k)));
        assert(t.skip(k) =~= s.skip(k + 1));
        assert(seq![s[0]] + t.take(k - 1) =~= s.take(k));
        assert(seq![seq![s[0]] + rest[0]] + rest.skip(1) =~= seq![s.take(k)] + spec_split_lines(
            s.skip(k + 1),
        ));
    }
}

impl DeleteFiles {
    /// Split a file list into its lines, one entry per line.
    pub fn from(contents: &str) -> (r: Vec<String>)
        ensures
            r@.map_values(|line: String| line@) == spec_split_lines(contents@),
    {
        let n = contents.unicode_len();
        let mut out: Vec<String> = Vec::new();
        let mut start: usize = 0;
        let mut i: usize = 0;
        proof {
            assert(contents@.skip(0) =~= contents@);
            assert(out@.map_values(|line: String| line@) =~= Seq::<Seq<char>>::empty());
        }
        while i < n
            invariant
                n == contents@.len(),
                start <= i <= n,
                forall|j: int| start <= j < i ==> contents@[j] != '\n',
                out@.map_values(|line: String| line@) + spec_split_lines(contents@.skip(start as int))
                    =~= spec_split_lines(contents@),
            decreases n - i,
        {
            let c = contents.get_char(i);
            if c == '\n' {
                let line = contents.substring_char(start, i).to_owned();
                proof {
                    let t = contents@.skip(start as int);
                    assert(forall|j: int| 0 <= j < t.len() ==> t[j] == contents@[j + start]);
                    assert(t[i - start] == '\n');
                    lemma_split_first_nl(t, i - start);
                    assert(t.take(i - start) =~= contents@.subrange(start as int, i as int));
                    assert(t.skip(i - start + 1) =~= contents@.skip(i + 1));
                }
                out.push(line);
                proof {
                    assert(out@.map_values(|line: String| line@) =~= out@.drop_last().map_values(
                        |line: String| line@,
                    ).push(out@.last()@));
                }
                start = i + 1;
            }
            i = i + 1;
        }
        let line = contents.substring_char(start, n).to_owned();
        proof {
            let t = contents@.skip(start as int);
            assert(forall|j: int| 0 <= j < t.len() ==> t[j] == contents@[j + start]);
            lemma_split_no_nl(t);
            assert(t =~= contents@.subrange(start as int, n as int));
        }
        out.push(line);
        proof {
            assert(out@.map_values(|line: String| line@) =~= out@.drop_last().map_values(
                |line: String| line@,
            ).push(out@.last()@));
            assert(out@.drop_last().map_values(|line: String| line@) + seq![out@.last()@]
                =~= out@.map_values(|line: String| line@));
        }
        out
    }
}

} // verus!
