//! The diff-plan builder: deciding, per asset, whether a chunk stands for
//! a binary diff against a predecessor file, a payload that builds the
//! asset on its own, or a file that is already current.
//!
//! The decision rests on two size comparisons alone. A non-zero original
//! file size means a predecessor exists and the payload is a diff against
//! it. Otherwise, a payload smaller or larger than the whole asset still
//! needs the patcher's no-source mode, while a payload of exactly the
//! asset's size already is the asset and needs no plan entry.

use crate::manifest::{SophonManifestAsset, SophonManifestAssetGroup, SophonManifestProto};
use crate::serialize::{spec_hdiff_suffix, HDiffData, HDiffDataView};
use vstd::prelude::*;
use vstd::string::StringExecFns;

verus! {

/// The terminal state of one asset's diff decision.
#[derive(Clone, Copy, PartialEq, Eq, Structural, Debug)]
pub enum DiffDecision {
    NeedsFullDiff,
    NeedsPayloadOnly,
    AlreadyCurrent,
}

/// How the payload-only branch names its patch file. Deployed builders
/// disagree: one appends the diff suffix exactly as the full-diff branch
/// does, the other reuses the asset name verbatim. The choice is explicit
/// configuration, never merged silently.
#[derive(Clone, Copy, PartialEq, Eq, Structural, Debug)]
pub enum PayloadPatchNaming {
    DiffSuffix,
    AssetNameVerbatim,
}

/// The diff decision for one chunk: determined purely by the two size
/// comparisons, visited once, terminal immediately.
pub open spec fn spec_diff_decision(
    original_file_size: u64,
    hdiff_file_size: u64,
    asset_size: u64,
) -> DiffDecision {
    if original_file_size != 0 {
        DiffDecision::NeedsFullDiff
    } else if hdiff_file_size != asset_size {
        DiffDecision::NeedsPayloadOnly
    } else {
        DiffDecision::AlreadyCurrent
    }
}

/// Decide what one chunk means for its asset.
pub fn diff_decision(original_file_size: u64, hdiff_file_size: u64, asset_size: u64) -> (d:
    DiffDecision)
    ensures
        d == spec_diff_decision(original_file_size, hdiff_file_size, asset_size),
{
    if original_file_size != 0 {
        DiffDecision::NeedsFullDiff
    } else if hdiff_file_size != asset_size {
        DiffDecision::NeedsPayloadOnly
    } else {
        DiffDecision::AlreadyCurrent
    }
}

/// Whether `name` occurs in the list of locally available archive names.
pub open spec fn spec_name_available(names: Seq<String>, name: Seq<char>) -> bool {
    exists|i: int| 0 <= i < names.len() && (#[trigger] names[i])@ == name
}

/// Linear membership test against the available-archive list.
pub fn name_available(names: &Vec<String>, name: &String) -> (r: bool)
    ensures
        r == spec_name_available(names@, name@),
{
    let mut i: usize = 0;
    while i < names.len()
        invariant
            i <= names@.len(),
            forall|j: int| 0 <= j < i ==> (#[trigger] names@[j])@ != name@,
        decreases names@.len() - i,
    {
        if names[i] == *name {
            return true;
        }
        i = i + 1;
    }
    false
}

/// The patch-file name of the payload-only branch under the chosen naming.
pub open spec fn spec_payload_patch_name(
    asset_name: Seq<char>,
    naming: PayloadPatchNaming,
) -> Seq<char> {
    match naming {
        PayloadPatchNaming::DiffSuffix => asset_name + spec_hdiff_suffix(),
        PayloadPatchNaming::AssetNameVerbatim => asset_name,
    }
}

/// The plan entry one chunk contributes for its asset, or `None` when the
/// chunk's archive is unavailable or the asset is already current.
pub open spec fn spec_plan_entry(
    chunk: SophonManifestAsset,
    asset_name: Seq<char>,
    asset_size: u64,
    names: Seq<String>,
    naming: PayloadPatchNaming,
) -> Option<HDiffDataView> {
    if !spec_name_available(names, chunk.chunk_file_name@) {
        None
    } else {
        match spec_diff_decision(chunk.original_file_size, chunk.hdiff_file_size, asset_size) {
            DiffDecision::NeedsFullDiff => Some(
                HDiffDataView {
                    source_file_name: chunk.original_file_path@,
                    target_file_name: asset_name,
                    patch_file_name: asset_name + spec_hdiff_suffix(),
                },
            ),
            DiffDecision::NeedsPayloadOnly => Some(
                HDiffDataView {
                    source_file_name: Seq::empty(),
                    target_file_name: asset_name,
                    patch_file_name: spec_payload_patch_name(asset_name, naming),
                },
            ),
            DiffDecision::AlreadyCurrent => None,
        }
    }
}

/// The plan entries one asset group contributes, in chunk order.
pub open spec fn spec_asset_plan(
    chunks: Seq<SophonManifestAsset>,
    asset_name: Seq<char>,
    asset_size: u64,
    names: Seq<String>,
    naming: PayloadPatchNaming,
) -> Seq<HDiffDataView>
    decreases chunks.len(),
{
    if chunks.len() == 0 {
        Seq::empty()
    } else {
        let rest = spec_asset_plan(chunks.drop_last(), asset_name, asset_size, names, naming);
        match spec_plan_entry(chunks.last(), asset_name, asset_size, names, naming) {
            Some(v) => rest.push(v),
            None => rest,
        }
    }
}

/// The whole plan: every asset group's entries concatenated in manifest
/// order. A group without a chunk sequence contributes nothing.
pub open spec fn spec_make_diff_map(
    groups: Seq<SophonManifestAssetGroup>,
    names: Seq<String>,
    naming: PayloadPatchNaming,
) -> Seq<HDiffDataView>
    decreases groups.len(),
{
    if groups.len() == 0 {
        Seq::empty()
    } else {
        let rest = spec_make_diff_map(groups.drop_last(), names, naming);
        match groups.last().asset_data {
            Some(data) => rest + spec_asset_plan(
                data.assets@,
                groups.last().asset_name@,
                groups.last().asset_size,
                names,
                naming,
            ),
            None => rest,
        }
    }
}

/// Build the diff plan of a whole manifest against the locally available
/// archive names. Order is manifest order, so repeated runs produce the
/// same plan.
pub fn make_diff_map(
    manifest: &SophonManifestProto,
    chunk_names: &Vec<String>,
    naming: PayloadPatchNaming,
) -> (r: Vec<HDiffData>)
    ensures
        r@.map_values(|e: HDiffData| e@) == spec_make_diff_map(
            manifest.assets@,
            chunk_names@,
            naming,
        ),
{
    let groups = &manifest.assets;
    let mut out: Vec<HDiffData> = Vec::new();
    let mut gi: usize = 0;
    while gi < groups.len()
        invariant
            gi <= groups@.len(),
            out@.map_values(|e: HDiffData| e@) == spec_make_diff_map(
                groups@.take(gi as int),
                chunk_names@,
                naming,
            ),
        decreases groups@.len() - gi,
    {
        let group = &groups[gi];
        let ghost plan_before = spec_make_diff_map(groups@.take(gi as int), chunk_names@, naming);
        match &group.asset_data {
            Some(data) => {
                let chunks = &data.assets;
                let mut ci: usize = 0;
                proof {
                    assert(chunks@.take(0) =~= Seq::<SophonManifestAsset>::empty());
                    assert(out@.map_values(|e: HDiffData| e@) =~= plan_before + spec_asset_plan(
                        chunks@.take(0),
                        group.asset_name@,
                        group.asset_size,
                        chunk_names@,
                        naming,
                    ));
                }
                while ci < chunks.len()
                    invariant
                        ci <= chunks@.len(),
                        gi < groups@.len(),
                        chunks@ == groups@[gi as int].asset_data->Some_0.assets@,
                        group == &groups[gi as int],
                        out@.map_values(|e: HDiffData| e@) == plan_before + spec_asset_plan(
                            chunks@.take(ci as int),
                            group.asset_name@,
                            group.asset_size,
                            chunk_names@,
                            naming,
                        ),
                    decreases chunks@.len() - ci,
                {
                    let c = &chunks[ci];
                    proof {
                        assert(chunks@.take(ci + 1).drop_last() =~= chunks@.take(ci as int));
                        assert(chunks@.take(ci + 1).last() == chunks@[ci as int]);
                    }
                    if name_available(chunk_names, &c.chunk_file_name) {
                        let decision = diff_decision(
                            c.original_file_size,
                            c.hdiff_file_size,
                            group.asset_size,
                        );
                        match decision {
                            DiffDecision::NeedsFullDiff => {
                                let entry = HDiffData {
                                    source_file_name: c.original_file_path.clone(),
                                    target_file_name: group.asset_name.clone(),
                                    patch_file_name: group.asset_name.clone().concat(".hdiff"),
                                };
                                out.push(entry);
                                proof {
                                    assert(out@.last()@ == spec_plan_entry(
                                        chunks@[ci as int],
                                        group.asset_name@,
                                        group.asset_size,
                                        chunk_names@,
                                        naming,
                                    )->Some_0);
                                    assert(out@.map_values(|e: HDiffData| e@)
                                        =~= out@.drop_last().map_values(|e: HDiffData| e@).push(
                                        out@.last()@,
                                    ));
                                    assert(plan_before + spec_asset_plan(
                                        chunks@.take(ci as int),
                                        group.asset_name@,
                                        group.asset_size,
                                        chunk_names@,
                                        naming,
                                    ).push(out@.last()@) =~= (plan_before + spec_asset_plan(
                                        chunks@.take(ci as int),
                                        group.asset_name@,
                                        group.asset_size,
                                        chunk_names@,
                                        naming,
                                    )).push(out@.last()@));
                                }
                            },
                            DiffDecision::NeedsPayloadOnly => {
                                let patch_file_name = match naming {
                                    PayloadPatchNaming::DiffSuffix => group.asset_name.clone()
                                        .concat(".hdiff"),
                                    PayloadPatchNaming::AssetNameVerbatim => group.asset_name
                                        .clone(),
                                };
                                let entry = HDiffData {
                                    source_file_name: String::new(),
                                    target_file_name: group.asset_name.clone(),
                                    patch_file_name,
                                };
                                out.push(entry);
                                proof {
                                    assert(out@.last()@ == spec_plan_entry(
                                        chunks@[ci as int],
                                        group.asset_name@,
                                        group.asset_size,
                                        chunk_names@,
                                        naming,
                                    )->Some_0);
                                    assert(out@.map_values(|e: HDiffData| e@)
                                        =~= out@.drop_last().map_values(|e: HDiffData| e@).push(
                                        out@.last()@,
                                    ));
                                    assert(plan_before + spec_asset_plan(
                                        chunks@.take(ci as int),
                                        group.asset_name@,
                                        group.asset_size,
                                        chunk_names@,
                                        naming,
                                    ).push(out@.last()@) =~= (plan_before + spec_asset_plan(
                                        chunks@.take(ci as int),
                                        group.asset_name@,
                                        group.asset_size,
                                        chunk_names@,
                                        naming,
                                    )).push(out@.last()@));
                                }
                            },
                            DiffDecision::AlreadyCurrent => {},
                        }
                    }
                    ci = ci + 1;
                }
                proof {
                    assert(chunks@.take(chunks@.len() as int) =~= chunks@);
                    assert(groups@.take(gi + 1).drop_last() =~= groups@.take(gi as int));
                    assert(groups@.take(gi + 1).last() == groups@[gi as int]);
                }
            },
            None => {
                proof {
                    assert(groups@.take(gi + 1).drop_last() =~= groups@.take(gi as int));
                    assert(groups@.take(gi + 1).last() == groups@[gi as int]);
                }
            },
        }
        gi = gi + 1;
    }
    proof {
        assert(groups@.take(groups@.len() as int) =~= groups@);
    }
    out
}

/// The file the extractor stages one asset's payload under: a payload-only
/// asset is staged under the asset name itself (it is the whole file),
/// while a diff payload carries the patch suffix for the patcher to find.
pub fn staged_payload_name(asset_name: &String, original_file_size: u64) -> (r: String)
    ensures
        r@ == asset_name@ + if original_file_size == 0 {
            Seq::<char>::empty()
        } else {
            spec_hdiff_suffix()
        },
{
    if original_file_size == 0 {
        let r = asset_name.clone();
        proof {
            assert(asset_name@ + Seq::<char>::empty() =~= asset_name@);
        }
        r
    } else {
        asset_name.clone().concat(".hdiff")
    }
}

/// The three outcomes of the plan builder, shown on a manifest of one
/// asset group holding one available chunk: a zero original size with a
/// payload of exactly the asset's size yields no entry; a zero original
/// size with any other payload size yields exactly one payload-only entry
/// whose source is empty; a non-zero original size yields exactly one
/// full-diff entry whose source is the chunk's original file path.
pub proof fn lemma_diff_plan_single_chunk(
    group: SophonManifestAssetGroup,
    chunk: SophonManifestAsset,
    names: Seq<String>,
    naming: PayloadPatchNaming,
)
    requires
        group.asset_data matches Some(d) && d.assets@ == seq![chunk],
        spec_name_available(names, chunk.chunk_file_name@),
    ensures
        chunk.original_file_size == 0 && chunk.hdiff_file_size == group.asset_size
            ==> spec_make_diff_map(seq![group], names, naming) == Seq::<HDiffDataView>::empty(),
        chunk.original_file_size == 0 && chunk.hdiff_file_size != group.asset_size
            ==> spec_make_diff_map(seq![group], names, naming) == seq![
            HDiffDataView {
                source_file_name: Seq::empty(),
                target_file_name: group.asset_name@,
                patch_file_name: spec_payload_patch_name(group.asset_name@, naming),
            },
        ],
        chunk.original_file_size != 0 ==> spec_make_diff_map(seq![group], names, naming) == seq![
            HDiffDataView {
                source_file_name: chunk.original_file_path@,
                target_file_name: group.asset_name@,
                patch_file_name: group.asset_name@ + spec_hdiff_suffix(),
            },
        ],
{
    let groups = seq![group];
    let data = group.asset_data->Some_0;
    assert(groups.drop_last() =~= Seq::<SophonManifestAssetGroup>::empty());
    assert(groups.last() == group);
    assert(data.assets@.drop_last() =~= Seq::<SophonManifestAsset>::empty());
    assert(data.assets@.last() == chunk);
    assert(spec_asset_plan(
        Seq::<SophonManifestAsset>::empty(),
        group.asset_name@,
        group.asset_size,
        names,
        naming,
    ) == Seq::<HDiffDataView>::empty());
    assert(spec_make_diff_map(Seq::<SophonManifestAssetGroup>::empty(), names, naming)
        == Seq::<HDiffDataView>::empty());
    let lone = spec_plan_entry(chunk, group.asset_name@, group.asset_size, names, naming);
    match lone {
        Some(v) => {
            assert(spec_asset_plan(data.assets@, group.asset_name@, group.asset_size, names, naming)
                =~= seq![v]);
            assert(spec_make_diff_map(groups, names, naming) =~= seq![v]);
        },
        None => {
            assert(spec_asset_plan(data.assets@, group.asset_name@, group.asset_size, names, naming)
                =~= Seq::<HDiffDataView>::empty());
            assert(spec_make_diff_map(groups, names, naming) =~= Seq::<HDiffDataView>::empty());
        },
    }
}

/// What to do for one plan entry when the run reaches it.
#[derive(Clone, Copy, PartialEq, Eq, Structural, Debug)]
pub enum PatchStep {
    /// The patch file, or the named source file, is missing: leave the
    /// entry alone and go on with the rest.
    Skip,
    /// Apply the patch against the named source file; afterwards the
    /// source is removed exactly when it is not also the target.
    ApplyFull { remove_source_after: bool },
    /// Apply the patch with no source file.
    ApplyEmpty,
}

/// The step one plan entry calls for, given which of its files exist.
pub open spec fn spec_patch_step(
    source_name: Seq<char>,
    target_name: Seq<char>,
    patch_exists: bool,
    source_exists: bool,
) -> PatchStep {
    if !patch_exists {
        PatchStep::Skip
    } else if source_name.len() > 0 {
        if !source_exists {
            PatchStep::Skip
        } else {
            PatchStep::ApplyFull { remove_source_after: source_name != target_name }
        }
    } else {
        PatchStep::ApplyEmpty
    }
}

/// Decide how to treat one plan entry. Per-entry failures never unwind a
/// batch: a missing patch or source file yields `Skip`, not an error.
pub fn plan_patch_step(data: &HDiffData, patch_exists: bool, source_exists: bool) -> (s: PatchStep)
    ensures
        s == spec_patch_step(
            data.source_file_name@,
            data.target_file_name@,
            patch_exists,
            source_exists,
        ),
{
    if !patch_exists {
        PatchStep::Skip
    } else if !data.source_file_name.as_str().is_empty() {
        if !source_exists {
            PatchStep::Skip
        } else {
            PatchStep::ApplyFull {
                remove_source_after: data.source_file_name != data.target_file_name,
            }
        }
    } else {
        PatchStep::ApplyEmpty
    }
}

} // verus!
