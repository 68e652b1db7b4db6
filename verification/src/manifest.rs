//! The decoded manifest: the authoritative description of the assets of one
//! update and of the chunks that compose them.
//!
//! A chunk-mode manifest lists asset groups, each an ordered sequence of
//! named chunks placed at destination offsets. A diff-mode manifest lists
//! asset groups whose entries name the archive file holding each asset's
//! diff payload, together with the predecessor-file data that drives the
//! patch plan.

use crate::index::{spec_wanted_lookup, WantedChunk};
use vstd::prelude::*;

verus! {

/// One chunk of a chunk-mode asset: its content-addressed name, its raw
/// (decompressed) size, and the byte offset at which it lands inside the
/// owning asset.
pub struct AssetChunk {
    pub chunk_name: String,
    pub chunk_size_decompressed: u64,
    pub chunk_on_file_offset: u64,
}

/// One target asset of a chunk-mode manifest: its path relative to the
/// install root, its declared total size, and its chunks.
pub struct AssetGroup {
    pub asset_name: String,
    pub asset_size: u64,
    pub asset_chunks: Vec<AssetChunk>,
}

/// A decoded chunk-mode manifest.
pub struct SophonChunkProto {
    pub assets: Vec<AssetGroup>,
}

/// One entry of a diff-mode asset group: which archive file holds the
/// asset's diff payload, where the payload lies inside it, and the
/// predecessor-file data the patch decision rests on. An empty
/// `original_file_path` means the asset has no predecessor file.
pub struct SophonManifestAsset {
    pub chunk_file_name: String,
    pub hdiff_file_in_chunk_offset: u64,
    pub hdiff_file_size: u64,
    pub original_file_size: u64,
    pub original_file_path: String,
}

/// The chunk sequence of a diff-mode asset group. A group without one is
/// skipped by this engine.
pub struct SophonManifestAssetData {
    pub assets: Vec<SophonManifestAsset>,
}

/// One target asset of a diff-mode manifest.
pub struct SophonManifestAssetGroup {
    pub asset_name: String,
    pub asset_size: u64,
    pub asset_data: Option<SophonManifestAssetData>,
}

/// A decoded diff-mode manifest.
pub struct SophonManifestProto {
    pub assets: Vec<SophonManifestAssetGroup>,
}

/// One hit of an archive-file search: the asset group that owns the entry,
/// by name and declared size, and the entry itself.
pub struct LdiffMatch {
    pub asset_name: String,
    pub asset_size: u64,
    pub asset: SophonManifestAsset,
}

/// The first entry of one group carrying the searched archive-file name.
pub open spec fn spec_first_match(assets: Seq<SophonManifestAsset>, name: Seq<char>) -> Option<
    SophonManifestAsset,
>
    decreases assets.len(),
{
    if assets.len() == 0 {
        None
    } else if assets[0].chunk_file_name@ == name {
        Some(assets[0])
    } else {
        spec_first_match(assets.skip(1), name)
    }
}

/// Every group's hit for the searched archive-file name, in manifest
/// order; groups without a chunk sequence, or without a hit, contribute
/// nothing.
pub open spec fn spec_ldiff_matches(groups: Seq<SophonManifestAssetGroup>, name: Seq<char>) -> Seq<
    LdiffMatch,
>
    decreases groups.len(),
{
    if groups.len() == 0 {
        Seq::empty()
    } else {
        let rest = spec_ldiff_matches(groups.drop_last(), name);
        match groups.last().asset_data {
            Some(data) => match spec_first_match(data.assets@, name) {
                Some(a) => rest.push(
                    LdiffMatch {
                        asset_name: groups.last().asset_name,
                        asset_size: groups.last().asset_size,
                        asset: a,
                    },
                ),
                None => rest,
            },
            None => rest,
        }
    }
}

/// A field-for-field copy of one diff-mode manifest entry.
fn clone_manifest_asset(a: &SophonManifestAsset) -> (r: SophonManifestAsset)
    ensures
        r == *a,
{
    SophonManifestAsset {
        chunk_file_name: a.chunk_file_name.clone(),
        hdiff_file_in_chunk_offset: a.hdiff_file_in_chunk_offset,
        hdiff_file_size: a.hdiff_file_size,
        original_file_size: a.original_file_size,
        original_file_path: a.original_file_path.clone(),
    }
}

/// The first entry of one chunk sequence carrying the searched
/// archive-file name.
fn first_match(assets: &Vec<SophonManifestAsset>, name: &String) -> (r: Option<SophonManifestAsset>)
    ensures
        r == spec_first_match(assets@, name@),
{
    let mut i: usize = 0;
    proof {
        assert(assets@.skip(0) =~= assets@);
    }
    while i < assets.len()
        invariant
            i <= assets@.len(),
            spec_first_match(assets@, name@) == spec_first_match(assets@.skip(i as int), name@),
        decreases assets@.len() - i,
    {
        proof {
            assert(assets@.skip(i as int)[0] == assets@[i as int]);
            assert(assets@.skip(i as int).skip(1) =~= assets@.skip(i + 1));
        }
        if assets[i].chunk_file_name == *name {
            return Some(clone_manifest_asset(&assets[i]));
        }
        i = i + 1;
    }
    None
}

/// Find every asset that the archive file `file_name` carries a payload
/// for: per group, the first entry naming that file, together with the
/// owning group's name and size.
pub fn find_ldiff_matches(manifest: &SophonManifestProto, file_name: &String) -> (r: Vec<
    LdiffMatch,
>)
    ensures
        r@ == spec_ldiff_matches(manifest.assets@, file_name@),
{
    let groups = &manifest.assets;
    let mut out: Vec<LdiffMatch> = Vec::new();
    let mut gi: usize = 0;
    while gi < groups.len()
        invariant
            gi <= groups@.len(),
            out@ == spec_ldiff_matches(groups@.take(gi as int), file_name@),
        decreases groups@.len() - gi,
    {
        let group = &groups[gi];
        proof {
            assert(groups@.take(gi + 1).drop_last() =~= groups@.take(gi as int));
            assert(groups@.take(gi + 1).last() == groups@[gi as int]);
        }
        match &group.asset_data {
            Some(data) => {
                match first_match(&data.assets, file_name) {
                    Some(asset) => {
                        out.push(
                            LdiffMatch {
                                asset_name: group.asset_name.clone(),
                                asset_size: group.asset_size,
                                asset,
                            },
                        );
                    },
                    None => {},
                }
            },
            None => {},
        }
        gi = gi + 1;
    }
    proof {
        assert(groups@.take(groups@.len() as int) =~= groups@);
    }
    out
}

/// All chunks of all asset groups, in manifest order.
pub open spec fn spec_flat_chunks(assets: Seq<AssetGroup>) -> Seq<AssetChunk>
    decreases assets.len(),
{
    if assets.len() == 0 {
        Seq::empty()
    } else {
        spec_flat_chunks(assets.drop_last()) + assets.last().asset_chunks@
    }
}

/// The raw size the manifest records for chunk `name`: the size attached to
/// its last occurrence, the way repeated insertion into a map leaves the
/// last write in place.
pub open spec fn spec_cache_size(chunks: Seq<AssetChunk>, name: Seq<char>) -> Option<u64>
    decreases chunks.len(),
{
    if chunks.len() == 0 {
        None
    } else if chunks.last().chunk_name@ == name {
        Some(chunks.last().chunk_size_decompressed)
    } else {
        spec_cache_size(chunks.drop_last(), name)
    }
}

/// Whether no two entries of the wanted list share a chunk name.
pub open spec fn unique_names(cache: Seq<WantedChunk>) -> bool {
    forall|a: int, b: int|
        0 <= a < b < cache.len() ==> (#[trigger] cache[a].chunk_name@) != (
        #[trigger] cache[b].chunk_name@)
}

/// Updating the entry that holds `e`'s name redirects that name's lookup to
/// `e` and leaves every other name alone.
proof fn lemma_lookup_update(s: Seq<WantedChunk>, i: int, e: WantedChunk, n: Seq<char>)
    requires
        0 <= i < s.len(),
        s[i].chunk_name@ == e.chunk_name@,
        unique_names(s),
    ensures
        spec_wanted_lookup(s.update(i, e), n) == if n == e.chunk_name@ {
            Some(e.chunk_size)
        } else {
            spec_wanted_lookup(s, n)
        },
    decreases s.len(),
{
    let t = s.update(i, e);
    if i == 0 {
        assert(t[0] == e);
        assert(t.skip(1) =~= s.skip(1));
    } else {
        assert(t[0] == s[0]);
        assert(s[0].chunk_name@ != e.chunk_name@);
        assert(t.skip(1) =~= s.skip(1).update(i - 1, e));
        assert(unique_names(s.skip(1))) by {
            assert(forall|a: int| 0 <= a < s.skip(1).len() ==> s.skip(1)[a] == s[a + 1]);
        }
        assert(s.skip(1)[i - 1] == s[i]);
        lemma_lookup_update(s.skip(1), i - 1, e, n);
    }
}

/// Appending an entry serves lookups of its name only when no earlier entry
/// already does, and leaves every other name alone.
proof fn lemma_lookup_push(s: Seq<WantedChunk>, e: WantedChunk, n: Seq<char>)
    ensures
        spec_wanted_lookup(s.push(e), n) == match spec_wanted_lookup(s, n) {
            Some(v) => Some(v),
            None => if n == e.chunk_name@ {
                Some(e.chunk_size)
            } else {
                None
            },
        },
    decreases s.len(),
{
    if s.len() == 0 {
        assert(s.push(e)[0] == e);
        assert(s.push(e).skip(1) =~= Seq::<WantedChunk>::empty());
        assert(spec_wanted_lookup(s, n) is None);
        if e.chunk_name@ == n {
            assert(spec_wanted_lookup(s.push(e), n) == Some(e.chunk_size));
        } else {
            assert(spec_wanted_lookup(s.push(e), n) == spec_wanted_lookup(
                Seq::<WantedChunk>::empty(),
                n,
            ));
            assert(spec_wanted_lookup(Seq::<WantedChunk>::empty(), n) is None);
        }
    } else {
        assert(s.push(e)[0] == s[0]);
        assert(s.push(e).skip(1) =~= s.skip(1).push(e));
        lemma_lookup_push(s.skip(1), e, n);
        if s[0].chunk_name@ == n {
            assert(spec_wanted_lookup(s.push(e), n) == Some(s[0].chunk_size));
            assert(spec_wanted_lookup(s, n) == Some(s[0].chunk_size));
        } else {
            assert(spec_wanted_lookup(s.push(e), n) == spec_wanted_lookup(
                s.skip(1).push(e),
                n,
            ));
            assert(spec_wanted_lookup(s, n) == spec_wanted_lookup(s.skip(1), n));
        }
    }
}

/// A name no entry carries is never found.
proof fn lemma_lookup_absent(s: Seq<WantedChunk>, n: Seq<char>)
    requires
        forall|k: int| 0 <= k < s.len() ==> (#[trigger] s[k].chunk_name@) != n,
    ensures
        spec_wanted_lookup(s, n) is None,
    decreases s.len(),
{
    if s.len() > 0 {
        assert(forall|k: int| 0 <= k < s.skip(1).len() ==> s.skip(1)[k] == s[k + 1]);
        lemma_lookup_absent(s.skip(1), n);
    }
}

/// Record one chunk in the wanted list: overwrite the size of an entry that
/// already carries the name, append a fresh entry otherwise.
fn cache_insert(cache: &mut Vec<WantedChunk>, chunk_name: &String, chunk_size: u64)
    requires
        unique_names(old(cache)@),
    ensures
        unique_names(final(cache)@),
        forall|n: Seq<char>|
            #[trigger] spec_wanted_lookup(final(cache)@, n) == if n == chunk_name@ {
                Some(chunk_size)
            } else {
                spec_wanted_lookup(old(cache)@, n)
            },
{
    let mut i: usize = 0;
    while i < cache.len()
        invariant
            i <= cache@.len(),
            cache@ == old(cache)@,
            unique_names(cache@),
            forall|k: int| 0 <= k < i ==> (#[trigger] cache@[k].chunk_name@) != chunk_name@,
        decreases cache@.len() - i,
    {
        if cache[i].chunk_name == *chunk_name {
            let entry = WantedChunk { chunk_name: chunk_name.clone(), chunk_size };
            proof {
                assert(cache@[i as int].chunk_name@ == entry.chunk_name@);
                assert forall|n: Seq<char>|
                    #[trigger] spec_wanted_lookup(cache@.update(i as int, entry), n) == (if n
                        == chunk_name@ {
                        Some(chunk_size)
                    } else {
                        spec_wanted_lookup(cache@, n)
                    }) by {
                    lemma_lookup_update(cache@, i as int, entry, n);
                }
                assert(forall|a: int, b: int|
                    0 <= a < b < cache@.len() ==> (#[trigger] cache@.update(i as int, entry)[a])
                        .chunk_name@ != (#[trigger] cache@.update(i as int, entry)[b]).chunk_name@);
            }
            cache[i] = entry;
            return ;
        }
        i = i + 1;
    }
    let entry = WantedChunk { chunk_name: chunk_name.clone(), chunk_size };
    proof {
        lemma_lookup_absent(cache@, chunk_name@);
        assert forall|n: Seq<char>|
            #[trigger] spec_wanted_lookup(cache@.push(entry), n) == (if n == chunk_name@ {
                Some(chunk_size)
            } else {
                spec_wanted_lookup(cache@, n)
            }) by {
            lemma_lookup_push(cache@, entry, n);
        }
        assert(forall|a: int, b: int|
            0 <= a < b < cache@.push(entry).len() ==> (#[trigger] cache@.push(entry)[a]).chunk_name@
                != (#[trigger] cache@.push(entry)[b]).chunk_name@);
    }
    cache.push(entry);
}

/// Build the wanted-chunk list of a whole manifest: every chunk name any
/// asset references, each carried once, with the size its last manifest
/// occurrence declares.
pub fn build_chunk_cache(manifest: &SophonChunkProto) -> (r: Vec<WantedChunk>)
    ensures
        unique_names(r@),
        forall|n: Seq<char>|
            #[trigger] spec_wanted_lookup(r@, n) == spec_cache_size(
                spec_flat_chunks(manifest.assets@),
                n,
            ),
{
    let mut cache: Vec<WantedChunk> = Vec::new();
    let assets = &manifest.assets;
    let mut ai: usize = 0;
    while ai < assets.len()
        invariant
            ai <= assets@.len(),
            unique_names(cache@),
            forall|n: Seq<char>|
                #[trigger] spec_wanted_lookup(cache@, n) == spec_cache_size(
                    spec_flat_chunks(assets@.take(ai as int)),
                    n,
                ),
        decreases assets@.len() - ai,
    {
        let chunks = &assets[ai].asset_chunks;
        let ghost flat_before = spec_flat_chunks(assets@.take(ai as int));
        let mut ci: usize = 0;
        while ci < chunks.len()
            invariant
                ci <= chunks@.len(),
                chunks@ == assets@[ai as int].asset_chunks@,
                ai < assets@.len(),
                unique_names(cache@),
                forall|n: Seq<char>|
                    #[trigger] spec_wanted_lookup(cache@, n) == spec_cache_size(
                        flat_before + chunks@.take(ci as int),
                        n,
                    ),
            decreases chunks@.len() - ci,
        {
            let c = &chunks[ci];
            proof {
                assert((flat_before + chunks@.take(ci + 1)).drop_last() =~= flat_before
                    + chunks@.take(ci as int));
                assert((flat_before + chunks@.take(ci + 1)).last() == chunks@[ci as int]);
            }
            cache_insert(&mut cache, &c.chunk_name, c.chunk_size_decompressed);
            ci = ci + 1;
        }
        proof {
            assert(assets@.take(ai + 1).drop_last() =~= assets@.take(ai as int));
            assert(assets@.take(ai + 1).last() == assets@[ai as int]);
            assert(spec_flat_chunks(assets@.take(ai + 1)) =~= flat_before + chunks@.take(
                chunks@.len() as int,
            ));
        }
        ai = ai + 1;
    }
    proof {
        assert(assets@.take(assets@.len() as int) =~= assets@);
    }
    cache
}

} // verus!
