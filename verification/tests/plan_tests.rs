use sophon::manifest::{
    SophonManifestAsset, SophonManifestAssetData, SophonManifestAssetGroup, SophonManifestProto,
};
use sophon::plan::{
    diff_decision, make_diff_map, name_available, plan_patch_step, staged_payload_name,
    DiffDecision, PatchStep, PayloadPatchNaming,
};
use sophon::serialize::HDiffData;

fn asset(
    chunk_file_name: &str,
    original_file_size: u64,
    original_file_path: &str,
    hdiff_file_size: u64,
) -> SophonManifestAsset {
    SophonManifestAsset {
        chunk_file_name: chunk_file_name.to_string(),
        hdiff_file_in_chunk_offset: 0,
        hdiff_file_size,
        original_file_size,
        original_file_path: original_file_path.to_string(),
    }
}

fn one_group_manifest(
    asset_name: &str,
    asset_size: u64,
    assets: Vec<SophonManifestAsset>,
) -> SophonManifestProto {
    SophonManifestProto {
        assets: vec![SophonManifestAssetGroup {
            asset_name: asset_name.to_string(),
            asset_size,
            asset_data: Some(SophonManifestAssetData { assets }),
        }],
    }
}

#[test]
fn decision_full_diff_when_original_nonzero() {
    assert_eq!(diff_decision(5, 100, 100), DiffDecision::NeedsFullDiff);
    assert_eq!(diff_decision(5, 50, 100), DiffDecision::NeedsFullDiff);
}

#[test]
fn decision_payload_only_when_sizes_differ() {
    assert_eq!(diff_decision(0, 50, 200), DiffDecision::NeedsPayloadOnly);
    assert_eq!(diff_decision(0, 300, 200), DiffDecision::NeedsPayloadOnly);
}

#[test]
fn decision_already_current_when_payload_is_whole_asset() {
    assert_eq!(diff_decision(0, 200, 200), DiffDecision::AlreadyCurrent);
}

#[test]
fn plan_skips_asset_already_current() {
    let manifest = one_group_manifest("data.bin", 200, vec![asset("arc", 0, "", 200)]);
    let names = vec!["arc".to_string()];
    let plan = make_diff_map(&manifest, &names, PayloadPatchNaming::DiffSuffix);
    assert!(plan.is_empty());
}

#[test]
fn plan_payload_only_entry_has_empty_source() {
    // One asset group, original_file_size = 0, payload smaller than the
    // asset: exactly one entry, source empty, patch named by suffix.
    let manifest = one_group_manifest("data.bin", 200, vec![asset("arc", 0, "ignored", 50)]);
    let names = vec!["arc".to_string()];
    let plan = make_diff_map(&manifest, &names, PayloadPatchNaming::DiffSuffix);
    assert_eq!(plan.len(), 1);
    assert_eq!(plan[0].source_file_name, "");
    assert_eq!(plan[0].target_file_name, "data.bin");
    assert_eq!(plan[0].patch_file_name, "data.bin.hdiff");
}

#[test]
fn plan_payload_only_entry_verbatim_naming() {
    let manifest = one_group_manifest("data.bin", 200, vec![asset("arc", 0, "", 50)]);
    let names = vec!["arc".to_string()];
    let plan = make_diff_map(&manifest, &names, PayloadPatchNaming::AssetNameVerbatim);
    assert_eq!(plan.len(), 1);
    assert_eq!(plan[0].source_file_name, "");
    assert_eq!(plan[0].target_file_name, "data.bin");
    assert_eq!(plan[0].patch_file_name, "data.bin");
}

#[test]
fn plan_full_diff_entry_carries_original_path() {
    let manifest = one_group_manifest("data.bin", 200, vec![asset("arc", 77, "old/data.bin", 200)]);
    let names = vec!["arc".to_string()];
    let plan = make_diff_map(&manifest, &names, PayloadPatchNaming::DiffSuffix);
    assert_eq!(plan.len(), 1);
    assert_eq!(plan[0].source_file_name, "old/data.bin");
    assert_eq!(plan[0].target_file_name, "data.bin");
    assert_eq!(plan[0].patch_file_name, "data.bin.hdiff");
    // Full-diff naming is not configuration-dependent.
    let plan2 = make_diff_map(&manifest, &names, PayloadPatchNaming::AssetNameVerbatim);
    assert_eq!(plan2[0].patch_file_name, "data.bin.hdiff");
}

#[test]
fn plan_ignores_unavailable_archives() {
    let manifest = one_group_manifest("data.bin", 200, vec![asset("arc", 77, "old", 200)]);
    let names = vec!["other".to_string()];
    let plan = make_diff_map(&manifest, &names, PayloadPatchNaming::DiffSuffix);
    assert!(plan.is_empty());
}

#[test]
fn plan_skips_groups_without_chunk_sequence() {
    let manifest = SophonManifestProto {
        assets: vec![SophonManifestAssetGroup {
            asset_name: "plain".to_string(),
            asset_size: 10,
            asset_data: None,
        }],
    };
    let names = vec!["arc".to_string()];
    let plan = make_diff_map(&manifest, &names, PayloadPatchNaming::DiffSuffix);
    assert!(plan.is_empty());
}

#[test]
fn plan_concatenates_groups_in_manifest_order() {
    let manifest = SophonManifestProto {
        assets: vec![
            SophonManifestAssetGroup {
                asset_name: "a.bin".to_string(),
                asset_size: 10,
                asset_data: Some(SophonManifestAssetData {
                    assets: vec![asset("arc", 1, "a.old", 10)],
                }),
            },
            SophonManifestAssetGroup {
                asset_name: "b.bin".to_string(),
                asset_size: 20,
                asset_data: Some(SophonManifestAssetData {
                    assets: vec![asset("arc", 0, "", 5)],
                }),
            },
        ],
    };
    let names = vec!["arc".to_string()];
    let plan = make_diff_map(&manifest, &names, PayloadPatchNaming::DiffSuffix);
    assert_eq!(plan.len(), 2);
    assert_eq!(plan[0].target_file_name, "a.bin");
    assert_eq!(plan[1].target_file_name, "b.bin");
}

#[test]
fn scenario_payload_only_builder() {
    // One asset group, original_file_size = 0, diff_payload_size = 50,
    // asset_size = 200: exactly one entry {"", "data.bin", "data.bin.hdiff"}.
    let manifest = one_group_manifest("data.bin", 200, vec![asset("ldiff_0001", 0, "", 50)]);
    let names = vec!["ldiff_0001".to_string()];
    let plan = make_diff_map(&manifest, &names, PayloadPatchNaming::DiffSuffix);
    assert_eq!(plan.len(), 1);
    assert_eq!(plan[0].source_file_name, "");
    assert_eq!(plan[0].target_file_name, "data.bin");
    assert_eq!(plan[0].patch_file_name, "data.bin.hdiff");
}

#[test]
fn staged_payload_name_drops_suffix_without_predecessor() {
    assert_eq!(staged_payload_name(&"data.bin".to_string(), 0), "data.bin");
    assert_eq!(staged_payload_name(&"data.bin".to_string(), 123), "data.bin.hdiff");
}

#[test]
fn name_available_is_exact_membership() {
    let names = vec!["a".to_string(), "b".to_string()];
    assert!(name_available(&names, &"a".to_string()));
    assert!(name_available(&names, &"b".to_string()));
    assert!(!name_available(&names, &"c".to_string()));
    assert!(!name_available(&Vec::new(), &"a".to_string()));
}

fn entry(source: &str, target: &str, patch: &str) -> HDiffData {
    HDiffData {
        source_file_name: source.to_string(),
        target_file_name: target.to_string(),
        patch_file_name: patch.to_string(),
    }
}

#[test]
fn patch_step_skips_when_patch_missing() {
    let e = entry("src", "dst", "dst.hdiff");
    assert_eq!(plan_patch_step(&e, false, true), PatchStep::Skip);
}

#[test]
fn patch_step_skips_when_source_named_but_missing() {
    let e = entry("src", "dst", "dst.hdiff");
    assert_eq!(plan_patch_step(&e, true, false), PatchStep::Skip);
}

#[test]
fn patch_step_full_apply_removes_distinct_source() {
    let e = entry("src", "dst", "dst.hdiff");
    assert_eq!(
        plan_patch_step(&e, true, true),
        PatchStep::ApplyFull { remove_source_after: true }
    );
}

#[test]
fn patch_step_full_apply_keeps_source_equal_to_target() {
    let e = entry("dst", "dst", "dst.hdiff");
    assert_eq!(
        plan_patch_step(&e, true, true),
        PatchStep::ApplyFull { remove_source_after: false }
    );
}

#[test]
fn patch_step_empty_apply_without_source_name() {
    let e = entry("", "dst", "dst.hdiff");
    assert_eq!(plan_patch_step(&e, true, false), PatchStep::ApplyEmpty);
    assert_eq!(plan_patch_step(&e, true, true), PatchStep::ApplyEmpty);
}
