//! The unpack pipeline: APK to editable project.
//!
//! The pipeline itself is a plan: which destination to create, which
//! tasks to launch together, and which final task depends on them.
//! The caller validates nothing itself; it reports what it observed
//! (does the destination exist, which files did the archive hold) and
//! executes exactly what the plan says.

use vstd::prelude::*;
use crate::bytesutil::rfind;
use crate::config::RlaConfig;
use crate::config::config_json;
use crate::config::emit_config;
use crate::error::Error;
use crate::layout::bak_apk_path;
use crate::layout::gitignore_bytes;
use crate::layout::gitignore_content;
use crate::layout::gitignore_name;
use crate::layout::bak_apk_name;
use crate::layout::mini_frida_name;
use crate::layout::rla_config_name;
use crate::layout::gitignore_path;
use crate::layout::mini_frida_path;
use crate::layout::rla_config_path;
use crate::paths::file_name_spec;
use crate::paths::is_apk_path;
use crate::paths::is_apk_path_bytes;
use crate::paths::is_dex_path;
use crate::paths::is_dex_path_bytes;
use crate::paths::join_spec;
use crate::paths::join_path;
use crate::paths::file_name;
use crate::paths::slash;
use crate::paths::strip_apk_ext;
use crate::paths::strip_apk_ext_bytes;
use crate::tasks::TaskOutcome;
use crate::tasks::first_required_failure;
use crate::tasks::lemma_first_required_failure;
use crate::tasks::outcome_passes;

verus! {

/// One task of the unpack pipeline's parallel phase.
#[derive(Clone, Copy, Debug, PartialEq, Eq, Structural)]
pub enum UnpackTask {
    /// Copy the backup APK, write the ignore file and the
    /// configuration, release the helper assets.  Required.
    PrepareFiles,
    /// Expand the whole archive and disassemble every top-level dex.
    /// Required.
    ExtractAll,
    /// Expand only the top-level dex entries and disassemble them.
    /// Required.
    ExtractSmali,
    /// Initialise a repository at the project root.  Optional.
    GitInit,
    /// Decompile the APK into the decompiled-source tree.  Optional.
    JadxDecompile,
}

impl UnpackTask {
    /// The required tasks: preparation and extraction.  The rest is
    /// best-effort.
    pub open spec fn required_spec(self) -> bool {
        self == UnpackTask::PrepareFiles || self == UnpackTask::ExtractAll || self
            == UnpackTask::ExtractSmali
    }

    /// Whether a failure here aborts the pipeline.
    pub fn required(&self) -> (r: bool)
        ensures
            r == self.required_spec(),
    {
        match self {
            UnpackTask::PrepareFiles => true,
            UnpackTask::ExtractAll => true,
            UnpackTask::ExtractSmali => true,
            UnpackTask::GitInit => false,
            UnpackTask::JadxDecompile => false,
        }
    }
}

/// The parallel phase chosen by a configuration: prepare files, the
/// mode's extraction, then version control and decompilation when
/// enabled.
pub open spec fn phase1_tasks(c: RlaConfig) -> Seq<UnpackTask> {
    seq![UnpackTask::PrepareFiles] + (if c.smali_only {
        seq![UnpackTask::ExtractSmali]
    } else {
        seq![UnpackTask::ExtractAll]
    }) + (if c.git_enable {
        seq![UnpackTask::GitInit]
    } else {
        Seq::<UnpackTask>::empty()
    }) + (if c.jadx_enable {
        seq![UnpackTask::JadxDecompile]
    } else {
        Seq::<UnpackTask>::empty()
    })
}

/// The whole unpack, as data: where the project is created, whether
/// an existing destination is removed first, which tasks run in
/// parallel, and whether the commit task follows them.
#[derive(Debug)]
pub struct UnpackPlan {
    /// The project root to create: the APK path, extension stripped.
    pub dest: Vec<u8>,
    /// Remove an existing destination before creating it afresh.
    pub remove_dest_first: bool,
    /// The parallel phase.
    pub phase1: Vec<UnpackTask>,
    /// Whether the commit task runs after the parallel phase.
    pub run_git_commit: bool,
}

/// Validates an unpack request and lays out the pipeline.
///
/// Fails with `InvalidInput` exactly when the path does not name an
/// APK, with `AlreadyExists` exactly when the destination exists and
/// overwriting was not requested; no plan — and so no file system
/// effect — exists in either case.
pub fn unpack_apk(apk: &Vec<u8>, dest_exists: bool, config: &RlaConfig) -> (r: Result<
    UnpackPlan,
    Error,
>)
    ensures
        !is_apk_path(apk@) ==> r == Err::<UnpackPlan, Error>(Error::InvalidInput),
        is_apk_path(apk@) && dest_exists && !config.force_override ==> r == Err::<
            UnpackPlan,
            Error,
        >(Error::AlreadyExists),
        is_apk_path(apk@) && (!dest_exists || config.force_override) ==> (r matches Ok(p)
            && p.dest@ == strip_apk_ext(apk@) && p.remove_dest_first == (dest_exists
            && config.force_override) && p.phase1@ == phase1_tasks(*config) && p.run_git_commit
            == config.git_enable),
{
    if !is_apk_path_bytes(apk) {
        return Err(Error::InvalidInput);
    }
    if dest_exists && !config.force_override {
        return Err(Error::AlreadyExists);
    }
    let dest = strip_apk_ext_bytes(apk);
    let mut phase1: Vec<UnpackTask> = Vec::new();
    phase1.push(UnpackTask::PrepareFiles);
    if config.smali_only {
        phase1.push(UnpackTask::ExtractSmali);
    } else {
        phase1.push(UnpackTask::ExtractAll);
    }
    if config.git_enable {
        phase1.push(UnpackTask::GitInit);
    }
    if config.jadx_enable {
        phase1.push(UnpackTask::JadxDecompile);
    }
    proof {
        assert(phase1@ =~= phase1_tasks(*config));
    }
    Ok(
        UnpackPlan {
            dest,
            remove_dest_first: dest_exists && config.force_override,
            phase1,
            run_git_commit: config.git_enable,
        },
    )
}

/// Everything the prepare-files task writes, with the exact bytes of
/// the generated files.
#[derive(Debug)]
pub struct PrepareFilesPlan {
    /// Where the source APK is copied to.
    pub bak_apk: Vec<u8>,
    /// Path of the ignore file.
    pub gitignore_path: Vec<u8>,
    /// Contents of the ignore file.
    pub gitignore: Vec<u8>,
    /// Path of the persisted configuration.
    pub config_path: Vec<u8>,
    /// Contents of the persisted configuration.
    pub config_bytes: Vec<u8>,
    /// The helper-assets directory to create.
    pub mini_frida_dir: Vec<u8>,
}

/// Lays out the prepare-files task for a project at `root`.
pub fn prepare_files_plan(root: &Vec<u8>, config: &RlaConfig) -> (r: PrepareFilesPlan)
    ensures
        r.bak_apk@ == join_spec(root@, bak_apk_name()),
        r.gitignore_path@ == join_spec(root@, gitignore_name()),
        r.gitignore@ == gitignore_content(),
        r.config_path@ == join_spec(root@, rla_config_name()),
        r.config_bytes@ == config_json(*config),
        r.mini_frida_dir@ == join_spec(root@, mini_frida_name()),
{
    PrepareFilesPlan {
        bak_apk: bak_apk_path(root),
        gitignore_path: gitignore_path(root),
        gitignore: gitignore_bytes(),
        config_path: rla_config_path(root),
        config_bytes: emit_config(config),
        mini_frida_dir: mini_frida_path(root),
    }
}

/// Whether an archive entry is a top-level dex: no directory part,
/// and the dex extension.  This is the entry filter of
/// disassemble-only extraction.
pub fn is_top_level_dex(name: &Vec<u8>) -> (r: bool)
    ensures
        r == (rfind(name@, slash()) is None && is_dex_path(name@)),
{
    let mut i: usize = 0;
    let mut has_slash = false;
    while i < name.len()
        invariant
            0 <= i <= name@.len(),
            has_slash == exists|j: int| 0 <= j < i && name@[j] == slash(),
        decreases name@.len() - i,
    {
        if name[i] == 47 {
            has_slash = true;
        }
        i += 1;
    }
    proof {
        crate::bytesutil::lemma_rfind(name@, slash());
        if has_slash {
            assert(rfind(name@, slash()) is Some);
        }
    }
    !has_slash && is_dex_path_bytes(name)
}

/// The dex-file test, as a predicate value.
pub open spec fn dex_pred() -> spec_fn(Seq<u8>) -> bool {
    |s: Seq<u8>| is_dex_path(s)
}

/// Keeps exactly the entries that name dex files, in order.
pub fn select_dex_entries(entries: &Vec<Vec<u8>>) -> (r: Vec<Vec<u8>>)
    ensures
        r.deep_view() == entries.deep_view().filter(dex_pred()),
{
    let mut r: Vec<Vec<u8>> = Vec::new();
    proof {
        assert(entries.deep_view().subrange(0, 0) =~= Seq::<Seq<u8>>::empty());
        reveal(Seq::filter);
    }
    let mut i: usize = 0;
    while i < entries.len()
        invariant
            0 <= i <= entries@.len(),
            entries.deep_view().len() == entries@.len(),
            r.deep_view() == entries.deep_view().subrange(0, i as int).filter(dex_pred()),
        decreases entries@.len() - i,
    {
        let ghost elem = entries.deep_view()[i as int];
        proof {
            let pre = entries.deep_view().subrange(0, i as int);
            assert(pre.push(elem) =~= entries.deep_view().subrange(0, i + 1));
            Seq::lemma_filter_push(pre, elem, dex_pred());
            assert(elem =~= entries@[i as int]@);
            assert(dex_pred()(elem) == is_dex_path(entries@[i as int]@));
        }
        if is_dex_path_bytes(&entries[i]) {
            let x = entries[i].clone();
            proof {
                assert(x@ =~= entries@[i as int]@);
            }
            r.push(x);
            proof {
                assert(r.deep_view() =~~= entries.deep_view().subrange(0, i + 1).filter(
                    dex_pred(),
                ));
            }
        } else {
            proof {
                assert(entries.deep_view().subrange(0, i + 1).filter(dex_pred())
                    == entries.deep_view().subrange(0, i as int).filter(dex_pred()));
            }
        }
        i += 1;
    }
    proof {
        assert(entries.deep_view().subrange(0, entries@.len() as int) =~= entries.deep_view());
    }
    r
}

/// One dex file's disassembly: the unit directory is the disassembly
/// root joined with the dex file's name.
#[derive(Debug)]
pub struct DisassemblyUnit {
    /// The dex file to disassemble.
    pub dex: Vec<u8>,
    /// The directory its disassembly is written to.
    pub unit_dir: Vec<u8>,
}

/// Fans the found dex files out into one disassembly unit each.
/// Fails with `InvalidInput` exactly when there is no dex file at
/// all, or when one of them has no file name.
pub fn disassembly_units(dex_paths: &Vec<Vec<u8>>, smalis_root: &Vec<u8>) -> (r: Result<
    Vec<DisassemblyUnit>,
    Error,
>)
    ensures
        r is Err <==> dex_paths@.len() == 0 || exists|i: int|
            0 <= i < dex_paths@.len() && file_name_spec(#[trigger] dex_paths@[i]@).len() == 0,
        r is Err ==> r == Err::<Vec<DisassemblyUnit>, Error>(Error::InvalidInput),
        r matches Ok(units) ==> units@.len() == dex_paths@.len() && forall|i: int|
            0 <= i < units@.len() ==> (#[trigger] units@[i]).dex@ == dex_paths@[i]@
                && units@[i].unit_dir@ == join_spec(
                smalis_root@,
                file_name_spec(dex_paths@[i]@),
            ),
{
    if dex_paths.len() == 0 {
        return Err(Error::InvalidInput);
    }
    let mut units: Vec<DisassemblyUnit> = Vec::new();
    let mut i: usize = 0;
    while i < dex_paths.len()
        invariant
            0 <= i <= dex_paths@.len(),
            units@.len() == i,
            forall|j: int| 0 <= j < i ==> file_name_spec(#[trigger] dex_paths@[j]@).len() > 0,
            forall|j: int| 0 <= j < i ==> (#[trigger] units@[j]).dex@ == dex_paths@[j]@
                && units@[j].unit_dir@ == join_spec(
                smalis_root@,
                file_name_spec(dex_paths@[j]@),
            ),
        decreases dex_paths@.len() - i,
    {
        let name = file_name(&dex_paths[i]);
        if name.len() == 0 {
            return Err(Error::InvalidInput);
        }
        let unit_dir = join_path(smalis_root, &name);
        let dex = dex_paths[i].clone();
        proof {
            assert(dex@ =~= dex_paths@[i as int]@);
        }
        units.push(DisassemblyUnit { dex, unit_dir });
        i += 1;
    }
    Ok(units)
}

/// Disassembling N dex files yields exactly N units; and when the
/// dex files' names are pairwise distinct, so are the unit
/// directories: no two dex files share a disassembly unit.
pub proof fn lemma_units_distinct(
    dex_paths: Seq<Seq<u8>>,
    smalis_root: Seq<u8>,
    units: Seq<DisassemblyUnit>,
)
    requires
        units.len() == dex_paths.len(),
        forall|i: int| 0 <= i < units.len() ==> (#[trigger] units[i]).unit_dir@ == join_spec(
            smalis_root,
            file_name_spec(dex_paths[i]),
        ),
        forall|i: int, j: int|
            0 <= i < j < dex_paths.len() ==> file_name_spec(#[trigger] dex_paths[i])
                != file_name_spec(#[trigger] dex_paths[j]),
    ensures
        forall|i: int, j: int|
            0 <= i < j < units.len() ==> (#[trigger] units[i]).unit_dir@ != (
            #[trigger] units[j]).unit_dir@,
{
    assert forall|i: int, j: int| 0 <= i < j < units.len() implies (
    #[trigger] units[i]).unit_dir@ != (#[trigger] units[j]).unit_dir@ by {
        let a = file_name_spec(dex_paths[i]);
        let b = file_name_spec(dex_paths[j]);
        if join_spec(smalis_root, a) == join_spec(smalis_root, b) {
            crate::paths::lemma_join_injective(smalis_root, a, b);
        }
    }
}

/// When every disassembly task is required and exactly one of them
/// failed, the joined extraction surfaces that failure: the whole
/// extraction aborts, whatever the other tasks wrote meanwhile.
pub proof fn lemma_extraction_abort(s: Seq<TaskOutcome>, i: int)
    requires
        0 <= i < s.len(),
        forall|j: int| 0 <= j < s.len() ==> (#[trigger] s[j]).required,
        s[i].result is Err,
        forall|j: int| 0 <= j < s.len() && j != i ==> (#[trigger] s[j]).result is Ok,
    ensures
        first_required_failure(s) == Some(i),
{
    lemma_first_required_failure(s);
    match first_required_failure(s) {
        Some(k) => {
            assert(!outcome_passes(s[k]));
            if k != i {
                assert(s[k].result is Ok);
            }
            if k > i {
                assert(outcome_passes(s[i]));
            }
        },
        None => {
            assert(outcome_passes(s[i]));
        },
    }
}

/// Disabling version control removes exactly the version-control
/// work from the plan: no repository initialisation, while
/// preparation, extraction and (when enabled) decompilation all
/// remain.
pub proof fn lemma_no_git_unpack(c: RlaConfig)
    requires
        !c.git_enable,
    ensures
        !phase1_tasks(c).contains(UnpackTask::GitInit),
        phase1_tasks(c).contains(UnpackTask::PrepareFiles),
        c.smali_only ==> phase1_tasks(c).contains(UnpackTask::ExtractSmali),
        !c.smali_only ==> phase1_tasks(c).contains(UnpackTask::ExtractAll),
        c.jadx_enable ==> phase1_tasks(c).contains(UnpackTask::JadxDecompile),
{
    let p = phase1_tasks(c);
    assert(p[0] == UnpackTask::PrepareFiles);
    if c.smali_only {
        assert(p[1] == UnpackTask::ExtractSmali);
    } else {
        assert(p[1] == UnpackTask::ExtractAll);
    }
    if c.jadx_enable {
        assert(p[2] == UnpackTask::JadxDecompile);
        assert(p.len() == 3);
    } else {
        assert(p.len() == 2);
    }
    assert forall|k: int| 0 <= k < p.len() implies p[k] != UnpackTask::GitInit by {}
}

} // verus!
