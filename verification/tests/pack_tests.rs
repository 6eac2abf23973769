use rla::config::emit_config;
use rla::config::RlaConfig;
use rla::error::Error;
use rla::pack::max_numeric_stem_exec;
use rla::pack::next_output_apk;
use rla::pack::pack_apk;
use rla::pack::smali_mapping_dex;
use rla::pack::PackStrategy;
use rla::pack::SyncStep;

fn cfg(smali_only: bool) -> Vec<u8> {
    emit_config(&RlaConfig {
        smali_only,
        git_enable: true,
        jadx_enable: true,
        force_override: false,
    })
}

#[test]
fn mapping_follows_unit_name() {
    let (unit, dex) = smali_mapping_dex(b"app/smalis/classes.dex".to_vec(), &b"tmp".to_vec()).unwrap();
    assert_eq!(unit, b"app/smalis/classes.dex".to_vec());
    assert_eq!(dex, b"tmp/classes.dex".to_vec());
}

#[test]
fn mapping_needs_a_file_name() {
    let r = smali_mapping_dex(b"app/smalis/".to_vec(), &b"tmp".to_vec());
    assert_eq!(r.unwrap_err(), Error::InvalidInput);
}

#[test]
fn output_numbering_starts_at_one() {
    let p = next_output_apk(&b"app".to_vec(), &Vec::new()).unwrap();
    assert_eq!(p, b"app/output/1.apk".to_vec());
}

#[test]
fn output_numbering_is_consecutive_over_repeated_packs() {
    // Repeated packs with no manual removal: each artifact is the
    // previous number plus one, gap-free from 1.
    let mut entries: Vec<Vec<u8>> = Vec::new();
    for expect in 1..=5u64 {
        let p = next_output_apk(&b"app".to_vec(), &entries).unwrap();
        let want = format!("app/output/{}.apk", expect).into_bytes();
        assert_eq!(p, want);
        entries.push(format!("{}.apk", expect).into_bytes());
    }
}

#[test]
fn output_numbering_exceeds_existing_maximum() {
    let entries = vec![b"3.apk".to_vec(), b"7.apk".to_vec(), b"2.apk".to_vec()];
    let p = next_output_apk(&b"app".to_vec(), &entries).unwrap();
    assert_eq!(p, b"app/output/8.apk".to_vec());
}

#[test]
fn output_numbering_ignores_non_numeric_entries() {
    let entries = vec![b"notes.txt".to_vec(), b"old.apk".to_vec()];
    assert_eq!(max_numeric_stem_exec(&entries), 0);
    let p = next_output_apk(&b"app".to_vec(), &entries).unwrap();
    assert_eq!(p, b"app/output/1.apk".to_vec());
}

#[test]
fn pack_without_config_fails() {
    let r = pack_apk(
        &b"app".to_vec(),
        None,
        &Vec::new(),
        &Vec::new(),
        &Vec::new(),
        &b"tmp".to_vec(),
    );
    assert_eq!(r.unwrap_err(), Error::InvalidInput);
}

#[test]
fn pack_with_unparsable_config_fails() {
    let bad = b"{broken".to_vec();
    let r = pack_apk(
        &b"app".to_vec(),
        Some(&bad),
        &Vec::new(),
        &Vec::new(),
        &Vec::new(),
        &b"tmp".to_vec(),
    );
    assert_eq!(r.unwrap_err(), Error::InvalidInput);
}

#[test]
fn pack_splice_strategy_plan() {
    let config = cfg(true);
    let units = vec![
        b"app/smalis/classes.dex".to_vec(),
        b"app/smalis/classes2.dex".to_vec(),
    ];
    let plan = pack_apk(
        &b"app".to_vec(),
        Some(&config),
        &units,
        &Vec::new(),
        &Vec::new(),
        &b"tmp".to_vec(),
    )
    .unwrap();
    assert_eq!(plan.strategy, PackStrategy::Splice);
    assert_eq!(plan.assemble.len(), 2);
    assert_eq!(plan.assemble[0].unit_dir, b"app/smalis/classes.dex".to_vec());
    assert_eq!(plan.assemble[0].out_dex, b"tmp/classes.dex".to_vec());
    assert_eq!(plan.assemble[1].out_dex, b"tmp/classes2.dex".to_vec());
    assert_eq!(plan.output_apk, b"app/output/1.apk".to_vec());
    match plan.sync {
        SyncStep::Splice { bak_apk, splice_cwd, splice_files } => {
            assert_eq!(bak_apk, b"app/bak.apk".to_vec());
            assert_eq!(splice_cwd, b"tmp".to_vec());
            // The spliced names are exactly the dex names the unpack
            // created the units from.
            assert_eq!(splice_files, vec![b"classes.dex".to_vec(), b"classes2.dex".to_vec()]);
        },
        SyncStep::FullRebuild { .. } => panic!("splice strategy expected"),
    }
}

#[test]
fn pack_full_strategy_plan() {
    let config = cfg(false);
    let units = vec![b"app/smalis/classes.dex".to_vec()];
    let present = vec![b"classes.dex".to_vec()];
    let plan = pack_apk(
        &b"app".to_vec(),
        Some(&config),
        &units,
        &present,
        &vec![b"1.apk".to_vec()],
        &b"tmp".to_vec(),
    )
    .unwrap();
    assert_eq!(plan.strategy, PackStrategy::FullRebuild);
    assert_eq!(plan.output_apk, b"app/output/2.apk".to_vec());
    match plan.sync {
        SyncStep::FullRebuild { copies, rebuild_src } => {
            assert_eq!(rebuild_src, b"app/unpacked".to_vec());
            assert_eq!(copies.len(), 1);
            assert_eq!(copies[0].from, b"tmp/classes.dex".to_vec());
            assert_eq!(copies[0].to, b"app/unpacked/classes.dex".to_vec());
        },
        SyncStep::Splice { .. } => panic!("full rebuild strategy expected"),
    }
}

#[test]
fn pack_full_sync_stale_unit_is_a_mapping_mismatch() {
    let config = cfg(false);
    let units = vec![
        b"app/smalis/classes.dex".to_vec(),
        b"app/smalis/classes2.dex".to_vec(),
    ];
    // The unpacked tree no longer has classes2.dex.
    let present = vec![b"classes.dex".to_vec()];
    let r = pack_apk(
        &b"app".to_vec(),
        Some(&config),
        &units,
        &present,
        &Vec::new(),
        &b"tmp".to_vec(),
    );
    match r.unwrap_err() {
        Error::MappingMismatch { dex_name } => assert_eq!(dex_name, b"classes2.dex".to_vec()),
        e => panic!("expected MappingMismatch, got {:?}", e),
    }
}

#[test]
fn pack_splice_mode_skips_mapping_check() {
    // In disassemble-only mode there is no unpacked tree to compare
    // against, so a stale-looking name list is no error.
    let config = cfg(true);
    let units = vec![b"app/smalis/classes2.dex".to_vec()];
    let plan = pack_apk(
        &b"app".to_vec(),
        Some(&config),
        &units,
        &Vec::new(),
        &Vec::new(),
        &b"tmp".to_vec(),
    );
    assert!(plan.is_ok());
}
