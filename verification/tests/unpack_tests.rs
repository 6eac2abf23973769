use rla::config::RlaConfig;
use rla::error::Error;
use rla::unpack::disassembly_units;
use rla::unpack::is_top_level_dex;
use rla::unpack::prepare_files_plan;
use rla::unpack::select_dex_entries;
use rla::unpack::unpack_apk;
use rla::unpack::UnpackTask;

fn cfg(smali_only: bool, git_enable: bool, jadx_enable: bool, force_override: bool) -> RlaConfig {
    RlaConfig { smali_only, git_enable, jadx_enable, force_override }
}

#[test]
fn unpack_rejects_non_apk_input() {
    let r = unpack_apk(&b"notes.txt".to_vec(), false, &cfg(false, true, true, false));
    assert_eq!(r.unwrap_err(), Error::InvalidInput);
    // Even a force'd unpack of a non-APK is rejected before any plan exists.
    let r = unpack_apk(&b"archive.zip".to_vec(), true, &cfg(false, true, true, true));
    assert_eq!(r.unwrap_err(), Error::InvalidInput);
}

#[test]
fn unpack_rejects_existing_destination_without_force() {
    let r = unpack_apk(&b"app.apk".to_vec(), true, &cfg(false, true, true, false));
    assert_eq!(r.unwrap_err(), Error::AlreadyExists);
}

#[test]
fn unpack_with_force_removes_and_recreates_destination() {
    let plan = unpack_apk(&b"app.apk".to_vec(), true, &cfg(false, true, true, true)).unwrap();
    assert!(plan.remove_dest_first);
    assert_eq!(plan.dest, b"app".to_vec());
    let plan = unpack_apk(&b"app.apk".to_vec(), false, &cfg(false, true, true, true)).unwrap();
    assert!(!plan.remove_dest_first);
}

#[test]
fn unpack_plan_full_mode_with_everything_enabled() {
    let plan = unpack_apk(&b"work/app.apk".to_vec(), false, &cfg(false, true, true, false)).unwrap();
    assert_eq!(plan.dest, b"work/app".to_vec());
    assert_eq!(
        plan.phase1,
        vec![
            UnpackTask::PrepareFiles,
            UnpackTask::ExtractAll,
            UnpackTask::GitInit,
            UnpackTask::JadxDecompile
        ]
    );
    assert!(plan.run_git_commit);
}

#[test]
fn unpack_plan_smali_only_mode() {
    let plan = unpack_apk(&b"app.apk".to_vec(), false, &cfg(true, true, false, false)).unwrap();
    assert_eq!(
        plan.phase1,
        vec![UnpackTask::PrepareFiles, UnpackTask::ExtractSmali, UnpackTask::GitInit]
    );
}

#[test]
fn unpack_plan_without_git_runs_no_git_work() {
    let plan = unpack_apk(&b"app.apk".to_vec(), false, &cfg(false, false, true, false)).unwrap();
    assert!(!plan.phase1.contains(&UnpackTask::GitInit));
    assert!(!plan.run_git_commit);
    // Everything else is still produced.
    assert!(plan.phase1.contains(&UnpackTask::PrepareFiles));
    assert!(plan.phase1.contains(&UnpackTask::ExtractAll));
    assert!(plan.phase1.contains(&UnpackTask::JadxDecompile));
}

#[test]
fn prepare_files_lists_every_artifact() {
    let c = cfg(true, false, true, false);
    let p = prepare_files_plan(&b"app".to_vec(), &c);
    assert_eq!(p.bak_apk, b"app/bak.apk".to_vec());
    assert_eq!(p.gitignore_path, b"app/.gitignore".to_vec());
    assert_eq!(p.gitignore, b"output\n**.DS_Store\n".to_vec());
    assert_eq!(p.config_path, b"app/.rla.config.json".to_vec());
    assert_eq!(
        String::from_utf8(p.config_bytes).unwrap(),
        "{\"smali_only\":true,\"git_enable\":false,\"jadx_enable\":true,\"force_override\":false}"
    );
    assert_eq!(p.mini_frida_dir, b"app/mini_frida".to_vec());
}

#[test]
fn top_level_dex_filter() {
    assert!(is_top_level_dex(&b"classes.dex".to_vec()));
    assert!(is_top_level_dex(&b"classes2.dex".to_vec()));
    assert!(!is_top_level_dex(&b"lib/classes.dex".to_vec()));
    assert!(!is_top_level_dex(&b"resources.arsc".to_vec()));
}

#[test]
fn select_dex_entries_keeps_only_dex_files_in_order() {
    let entries = vec![
        b"app/unpacked/classes.dex".to_vec(),
        b"app/unpacked/AndroidManifest.xml".to_vec(),
        b"app/unpacked/classes2.dex".to_vec(),
        b"app/unpacked/res".to_vec(),
    ];
    let dexes = select_dex_entries(&entries);
    assert_eq!(
        dexes,
        vec![b"app/unpacked/classes.dex".to_vec(), b"app/unpacked/classes2.dex".to_vec()]
    );
}

#[test]
fn n_dex_files_give_n_units() {
    let dexes = vec![
        b"u/classes.dex".to_vec(),
        b"u/classes2.dex".to_vec(),
        b"u/classes3.dex".to_vec(),
    ];
    let units = disassembly_units(&dexes, &b"app/smalis".to_vec()).unwrap();
    assert_eq!(units.len(), 3);
    assert_eq!(units[0].dex, b"u/classes.dex".to_vec());
    assert_eq!(units[0].unit_dir, b"app/smalis/classes.dex".to_vec());
    assert_eq!(units[1].unit_dir, b"app/smalis/classes2.dex".to_vec());
    assert_eq!(units[2].unit_dir, b"app/smalis/classes3.dex".to_vec());
    // All unit directories are distinct.
    assert_ne!(units[0].unit_dir, units[1].unit_dir);
    assert_ne!(units[1].unit_dir, units[2].unit_dir);
    assert_ne!(units[0].unit_dir, units[2].unit_dir);
}

#[test]
fn extraction_with_no_dex_fails() {
    let r = disassembly_units(&Vec::new(), &b"app/smalis".to_vec());
    assert_eq!(r.unwrap_err(), Error::InvalidInput);
}

#[test]
fn project_layout_paths_are_distinct() {
    let root = b"app".to_vec();
    let paths = vec![
        rla::layout::bak_apk_path(&root),
        rla::layout::rla_config_path(&root),
        rla::layout::gitignore_path(&root),
        rla::layout::unpacked_path(&root),
        rla::layout::smalis_path(&root),
        rla::layout::jadx_src_path(&root),
        rla::layout::output_dir_path(&root),
        rla::layout::mini_frida_path(&root),
    ];
    for i in 0..paths.len() {
        for j in i + 1..paths.len() {
            assert_ne!(paths[i], paths[j]);
        }
    }
}
