use rla::commands::baksmali_command;
use rla::commands::debugsign;
use rla::commands::git_add_command;
use rla::commands::git_commit_command;
use rla::commands::git_init_command;
use rla::commands::initial_commit_message;
use rla::commands::jadx_command;
use rla::commands::jadx_compile_command;
use rla::commands::jar_command;
use rla::commands::smali_assemble_command;
use rla::commands::unzip_command;
use rla::commands::zip_update_command;
use rla::error::Error;
use rla::layout::find_rla_root;
use rla::layout::resolve_project_root;
use rla::layout::AncestorDir;
use rla::layout::Dep;
use rla::layout::Scratch;
use rla::smali_to_java::select_java_file;
use rla::smali_to_java::smali_to_java;
use rla::tasks::join_outcomes;
use rla::tasks::TaskOutcome;

fn args_of(v: &[&str]) -> Vec<Vec<u8>> {
    v.iter().map(|s| s.as_bytes().to_vec()).collect()
}

#[test]
fn signer_command_is_exact() {
    let plan = debugsign(
        &b"app/output/1.apk".to_vec(),
        &b"scratch/apksigner.jar".to_vec(),
        &b"scratch/debug.keystore".to_vec(),
    );
    assert_eq!(plan.command.program, b"java".to_vec());
    assert_eq!(
        plan.command.args,
        args_of(&[
            "-jar",
            "scratch/apksigner.jar",
            "sign",
            "--ks",
            "scratch/debug.keystore",
            "--ks-pass",
            "pass:android",
            "app/output/1.apk",
        ])
    );
    assert!(plan.command.cwd.is_none());
    assert_eq!(plan.sidecar, b"app/output/1.apk.idsig".to_vec());
}

#[test]
fn command_line_rendering() {
    let plan = debugsign(&b"1.apk".to_vec(), &b"s.jar".to_vec(), &b"ks".to_vec());
    let line = plan.command.to_line();
    assert_eq!(
        String::from_utf8(line).unwrap(),
        "java -jar s.jar sign --ks ks --ks-pass pass:android 1.apk"
    );
}

#[test]
fn assembler_and_disassembler_commands() {
    let c = smali_assemble_command(&b"smalis/classes.dex".to_vec(), &b"tmp/classes.dex".to_vec(), &b"smali.jar".to_vec());
    assert_eq!(c.program, b"java".to_vec());
    assert_eq!(c.args, args_of(&["-jar", "smali.jar", "a", "smalis/classes.dex", "-o", "tmp/classes.dex"]));
    let c = baksmali_command(&b"u/classes.dex".to_vec(), &b"smalis/classes.dex".to_vec(), &b"baksmali.jar".to_vec());
    assert_eq!(c.args, args_of(&["-jar", "baksmali.jar", "d", "u/classes.dex", "-o", "smalis/classes.dex"]));
}

#[test]
fn git_commands_run_in_project_root() {
    let init = git_init_command(&b"app".to_vec());
    assert_eq!(init.program, b"git".to_vec());
    assert_eq!(init.args, args_of(&["init"]));
    assert_eq!(init.cwd, Some(b"app".to_vec()));
    let add = git_add_command(&b"app".to_vec());
    assert_eq!(add.args, args_of(&["add", "."]));
    let msg = initial_commit_message();
    let commit = git_commit_command(&b"app".to_vec(), &msg);
    assert_eq!(commit.args, args_of(&["commit", "-m", "Frist init project"]));
}

#[test]
fn archive_and_decompiler_commands() {
    let c = jadx_command(&b"app.apk".to_vec(), &b"app/jadx-src".to_vec());
    assert_eq!(c.program, b"jadx".to_vec());
    assert_eq!(c.args, args_of(&["-e", "app.apk", "-d", "app/jadx-src"]));
    let c = jadx_compile_command(&b"src/Main.smali".to_vec(), &b"t/0_tmp.java".to_vec());
    assert_eq!(c.program, b"jadx".to_vec());
    assert_eq!(c.args, args_of(&["-d", "t/0_tmp.java", "src/Main.smali"]));
    let c = unzip_command(&b"app.apk".to_vec(), &b"app/unpacked".to_vec());
    assert_eq!(c.program, b"unzip".to_vec());
    assert_eq!(c.args, args_of(&["-n", "-d", "app/unpacked", "app.apk"]));
    let c = zip_update_command(
        &b"app/output/1.apk".to_vec(),
        &b"tmp".to_vec(),
        &vec![b"classes.dex".to_vec(), b"classes2.dex".to_vec()],
    );
    assert_eq!(c.program, b"zip".to_vec());
    assert_eq!(c.args, args_of(&["app/output/1.apk", "classes.dex", "classes2.dex"]));
    assert_eq!(c.cwd, Some(b"tmp".to_vec()));
}

#[test]
fn jar_command_forwards_arguments() {
    let c = jar_command(&b"smali.jar".to_vec(), &args_of(&["a", "x"]));
    assert_eq!(c.program, b"java".to_vec());
    assert_eq!(c.args, args_of(&["-jar", "smali.jar", "a", "x"]));
}

#[test]
fn join_surfaces_first_required_failure() {
    let outcomes = vec![
        TaskOutcome { name: b"prepare".to_vec(), required: true, result: Ok(()) },
        TaskOutcome {
            name: b"extract".to_vec(),
            required: true,
            result: Err(Error::ToolFailure { exit_code: 2, output: b"boom".to_vec() }),
        },
        TaskOutcome {
            name: b"extract2".to_vec(),
            required: true,
            result: Err(Error::InvalidInput),
        },
    ];
    let r = join_outcomes(outcomes);
    assert_eq!(r.unwrap_err(), Error::ToolFailure { exit_code: 2, output: b"boom".to_vec() });
}

#[test]
fn join_ignores_optional_failures() {
    let outcomes = vec![
        TaskOutcome { name: b"prepare".to_vec(), required: true, result: Ok(()) },
        TaskOutcome { name: b"git".to_vec(), required: false, result: Err(Error::NotFound) },
        TaskOutcome { name: b"jadx".to_vec(), required: false, result: Err(Error::InvalidInput) },
    ];
    assert!(join_outcomes(outcomes).is_ok());
}

#[test]
fn one_failing_required_task_aborts_a_fanout() {
    // N concurrent disassembly tasks, one of which failed: the join
    // reports that failure whatever the others did.
    for failing in 0..3usize {
        let outcomes: Vec<TaskOutcome> = (0..3)
            .map(|i| TaskOutcome {
                name: format!("dex{}", i).into_bytes(),
                required: true,
                result: if i == failing {
                    Err(Error::ToolFailure { exit_code: 1, output: Vec::new() })
                } else {
                    Ok(())
                },
            })
            .collect();
        let r = join_outcomes(outcomes);
        assert_eq!(r.unwrap_err(), Error::ToolFailure { exit_code: 1, output: Vec::new() });
    }
}

#[test]
fn project_root_resolution() {
    let explicit = resolve_project_root(Some(b"proj".to_vec()), &Vec::new()).unwrap();
    assert_eq!(explicit, b"proj".to_vec());
    let ancestors = vec![
        AncestorDir { path: b"/w/a/b".to_vec(), has_marker: false },
        AncestorDir { path: b"/w/a".to_vec(), has_marker: true },
        AncestorDir { path: b"/w".to_vec(), has_marker: true },
    ];
    let found = resolve_project_root(None, &ancestors).unwrap();
    assert_eq!(found, b"/w/a".to_vec());
    let none = vec![AncestorDir { path: b"/w".to_vec(), has_marker: false }];
    assert_eq!(resolve_project_root(None, &none).unwrap_err(), Error::NotFound);
}

#[test]
fn marker_search_picks_nearest_ancestor() {
    assert_eq!(find_rla_root(&vec![false, true, true]), Some(1));
    assert_eq!(find_rla_root(&vec![true]), Some(0));
    assert_eq!(find_rla_root(&vec![false, false]), None);
    assert_eq!(find_rla_root(&Vec::new()), None);
}

#[test]
fn scratch_counter_disambiguates_names() {
    let mut scratch = Scratch::new(b"/tmp/work".to_vec());
    let a = scratch.temppath(&b"tmpdex".to_vec());
    let b = scratch.temppath(&b"tmpdex".to_vec());
    assert_eq!(a, b"/tmp/work/0_tmpdex".to_vec());
    assert_eq!(b, b"/tmp/work/1_tmpdex".to_vec());
    assert_ne!(a, b);
}

#[test]
fn dep_release_path() {
    let dep = Dep { name: b"apksigner.jar".to_vec(), bytes: vec![1, 2, 3] };
    assert_eq!(dep.release_path(&b"/tmp/bin".to_vec()), b"/tmp/bin/apksigner.jar".to_vec());
}

#[test]
fn smali_to_java_plans_destination() {
    let plan = smali_to_java(&b"src/Main.smali".to_vec(), true).unwrap();
    assert_eq!(plan.dest, b"src/Main.java".to_vec());
    assert_eq!(plan.dest_name, b"Main.java".to_vec());
    assert_eq!(
        smali_to_java(&b"src/Main.java".to_vec(), true).unwrap_err(),
        Error::InvalidInput
    );
    assert_eq!(
        smali_to_java(&b"src/Main.smali".to_vec(), false).unwrap_err(),
        Error::InvalidInput
    );
}

#[test]
fn select_java_file_takes_first_match() {
    let entries = vec![
        b"t/0_tmp.java/other.java".to_vec(),
        b"t/0_tmp.java/a/Main.java".to_vec(),
        b"t/0_tmp.java/b/Main.java".to_vec(),
    ];
    assert_eq!(select_java_file(&entries, &b"Main.java".to_vec()), Some(1));
    assert_eq!(select_java_file(&entries, &b"Missing.java".to_vec()), None);
}
