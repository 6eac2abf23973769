//! An unpack followed by packs, played out at the plan level: the
//! dex files found at unpack time come back out of pack unchanged,
//! and repeated packs number their artifacts consecutively.

use rla::commands::debugsign;
use rla::config::parse_config;
use rla::config::RlaConfig;
use rla::pack::pack_apk;
use rla::pack::SyncStep;
use rla::unpack::disassembly_units;
use rla::unpack::prepare_files_plan;
use rla::unpack::select_dex_entries;
use rla::unpack::unpack_apk;

#[test]
fn unpack_then_pack_splices_the_same_dex_names() {
    // Unpack in disassemble-only mode.
    let config = RlaConfig {
        smali_only: true,
        git_enable: false,
        jadx_enable: false,
        force_override: false,
    };
    let plan = unpack_apk(&b"demo.apk".to_vec(), false, &config).unwrap();
    let root = plan.dest.clone();
    assert_eq!(root, b"demo".to_vec());

    // What unpack persists, pack reads back unchanged.
    let files = prepare_files_plan(&root, &config);
    assert_eq!(parse_config(&files.config_bytes), Some(config));

    // The archive held two top-level dex entries.
    let entries = vec![
        b"scratch/0_tmpdex/classes.dex".to_vec(),
        b"scratch/0_tmpdex/classes2.dex".to_vec(),
        b"scratch/0_tmpdex/resources.arsc".to_vec(),
    ];
    let dexes = select_dex_entries(&entries);
    let units = disassembly_units(&dexes, &b"demo/smalis".to_vec()).unwrap();
    let unit_dirs: Vec<Vec<u8>> = units.iter().map(|u| u.unit_dir.clone()).collect();

    // Pack with no edits: the spliced names are exactly the dex
    // names the unpack found, and the artifact is a signed copy of
    // the backup.
    let pack = pack_apk(
        &root,
        Some(&files.config_bytes),
        &unit_dirs,
        &Vec::new(),
        &Vec::new(),
        &b"scratch/1_tmpdex".to_vec(),
    )
    .unwrap();
    assert_eq!(pack.output_apk, b"demo/output/1.apk".to_vec());
    match &pack.sync {
        SyncStep::Splice { bak_apk, splice_files, .. } => {
            assert_eq!(bak_apk, &b"demo/bak.apk".to_vec());
            assert_eq!(
                splice_files,
                &vec![b"classes.dex".to_vec(), b"classes2.dex".to_vec()]
            );
        },
        SyncStep::FullRebuild { .. } => panic!("splice strategy expected"),
    }
    let sign = debugsign(&pack.output_apk, &b"s/apksigner.jar".to_vec(), &b"s/debug.keystore".to_vec());
    assert_eq!(sign.sidecar, b"demo/output/1.apk.idsig".to_vec());

    // A second pack against the same project numbers the next
    // artifact consecutively.
    let pack2 = pack_apk(
        &root,
        Some(&files.config_bytes),
        &unit_dirs,
        &Vec::new(),
        &vec![b"1.apk".to_vec()],
        &b"scratch/2_tmpdex".to_vec(),
    )
    .unwrap();
    assert_eq!(pack2.output_apk, b"demo/output/2.apk".to_vec());
}
