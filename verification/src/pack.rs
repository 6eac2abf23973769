//! The pack pipeline: project back to a signed APK.
//!
//! Pack reads the persisted configuration, re-assembles every
//! disassembly unit, and produces a fresh output artifact either by
//! splicing the new dex files into a copy of the backup APK
//! (disassemble-only projects) or by rebuilding the whole unpacked
//! tree (full projects).  As with unpack, everything here is a plan
//! over plain values; the caller reports directory contents and
//! executes the returned steps.

use vstd::prelude::*;
use crate::config::RlaConfig;
use crate::config::parse_config;
use crate::config::parse_config_spec;
use crate::error::Error;
use crate::layout::bak_apk_name;
use crate::layout::output_name;
use crate::layout::unpacked_name;
use crate::layout::bak_apk_path;
use crate::layout::output_dir_path;
use crate::layout::unpacked_path;
use crate::num::dec_of;
use crate::num::digits_val;
use crate::num::format_u64;
use crate::num::is_numeral;
use crate::num::parse_u64;
use crate::bytesutil::ascii_seq;
use crate::bytesutil::concat_bytes;
use crate::bytesutil::contains_bytes;
use crate::bytesutil::tok;
use crate::paths::file_name;
use crate::paths::file_name_spec;
use crate::paths::join_spec;
use crate::paths::join_path;
use crate::paths::stem;
use crate::paths::stem_spec;

verus! {

/// Maps one disassembly unit back to the dex file it will be
/// assembled into: the unit's own directory name, placed under
/// `dex_dir`.  Fails with `InvalidInput` exactly when the unit path
/// has no file name.
pub fn smali_mapping_dex(smali_dir: Vec<u8>, dex_dir: &Vec<u8>) -> (r: Result<
    (Vec<u8>, Vec<u8>),
    Error,
>)
    ensures
        file_name_spec(smali_dir@).len() == 0 ==> r == Err::<(Vec<u8>, Vec<u8>), Error>(
            Error::InvalidInput,
        ),
        file_name_spec(smali_dir@).len() > 0 ==> (r matches Ok(p) && p.0@ == smali_dir@ && p.1@
            == join_spec(dex_dir@, file_name_spec(smali_dir@))),
{
    let name = file_name(&smali_dir);
    if name.len() == 0 {
        return Err(Error::InvalidInput);
    }
    let dex = join_path(dex_dir, &name);
    Ok((smali_dir, dex))
}

/// One unit's re-assembly: run the assembler on `unit_dir`, writing
/// `out_dex`.
#[derive(Debug)]
pub struct AssembleTask {
    /// The disassembly unit to assemble.
    pub unit_dir: Vec<u8>,
    /// The dex file it produces, in the scratch dex directory.
    pub out_dex: Vec<u8>,
}

/// Fans the disassembly units out into one assemble task each, all
/// writing into `dex_dir`.  Fails with `InvalidInput` exactly when a
/// unit path has no file name.
pub fn assemble_tasks(unit_dirs: &Vec<Vec<u8>>, dex_dir: &Vec<u8>) -> (r: Result<
    Vec<AssembleTask>,
    Error,
>)
    ensures
        r is Err <==> exists|i: int|
            0 <= i < unit_dirs@.len() && file_name_spec(#[trigger] unit_dirs@[i]@).len() == 0,
        r is Err ==> r == Err::<Vec<AssembleTask>, Error>(Error::InvalidInput),
        r matches Ok(tasks) ==> tasks@.len() == unit_dirs@.len() && forall|i: int|
            0 <= i < tasks@.len() ==> (#[trigger] tasks@[i]).unit_dir@ == unit_dirs@[i]@
                && tasks@[i].out_dex@ == join_spec(dex_dir@, file_name_spec(unit_dirs@[i]@)),
{
    let mut tasks: Vec<AssembleTask> = Vec::new();
    let mut i: usize = 0;
    while i < unit_dirs.len()
        invariant
            0 <= i <= unit_dirs@.len(),
            tasks@.len() == i,
            forall|j: int| 0 <= j < i ==> file_name_spec(#[trigger] unit_dirs@[j]@).len() > 0,
            forall|j: int| 0 <= j < i ==> (#[trigger] tasks@[j]).unit_dir@ == unit_dirs@[j]@
                && tasks@[j].out_dex@ == join_spec(dex_dir@, file_name_spec(unit_dirs@[j]@)),
        decreases unit_dirs@.len() - i,
    {
        let unit = unit_dirs[i].clone();
        proof {
            assert(unit@ =~= unit_dirs@[i as int]@);
        }
        match smali_mapping_dex(unit, dex_dir) {
            Err(e) => {
                return Err(e);
            },
            Ok((unit_dir, out_dex)) => {
                tasks.push(AssembleTask { unit_dir, out_dex });
            },
        }
        i += 1;
    }
    Ok(tasks)
}

/// The numeric value of an output entry's stem, or 0 when the stem
/// is not a numeral that fits in a `u64`.
pub open spec fn stem_val(name: Seq<u8>) -> nat {
    if is_numeral(stem_spec(name)) && digits_val(stem_spec(name)) <= u64::MAX {
        digits_val(stem_spec(name))
    } else {
        0
    }
}

/// The greatest numeric stem among the entries, 0 when there is
/// none.
pub open spec fn max_numeric_stem(entries: Seq<Seq<u8>>) -> nat
    decreases entries.len(),
{
    if entries.len() == 0 {
        0
    } else {
        let rest = max_numeric_stem(entries.drop_last());
        if stem_val(entries.last()) > rest {
            stem_val(entries.last())
        } else {
            rest
        }
    }
}

/// The greatest numeric stem fits in a `u64`.
pub proof fn lemma_max_numeric_stem_bound(entries: Seq<Seq<u8>>)
    ensures
        max_numeric_stem(entries) <= u64::MAX,
    decreases entries.len(),
{
    if entries.len() > 0 {
        lemma_max_numeric_stem_bound(entries.drop_last());
    }
}

/// No entry's numeric stem exceeds the maximum.
pub proof fn lemma_max_numeric_stem_ge(entries: Seq<Seq<u8>>, i: int)
    requires
        0 <= i < entries.len(),
    ensures
        stem_val(entries[i]) <= max_numeric_stem(entries),
    decreases entries.len(),
{
    if i < entries.len() - 1 {
        lemma_max_numeric_stem_ge(entries.drop_last(), i);
        assert(entries.drop_last()[i] == entries[i]);
    }
}

/// Scans the output directory's entries for the greatest numeric
/// stem.
pub fn max_numeric_stem_exec(entries: &Vec<Vec<u8>>) -> (r: u64)
    ensures
        r == max_numeric_stem(entries.deep_view()),
{
    let mut max: u64 = 0;
    let mut i: usize = 0;
    proof {
        assert(entries.deep_view().subrange(0, 0) =~= Seq::<Seq<u8>>::empty());
    }
    while i < entries.len()
        invariant
            0 <= i <= entries@.len(),
            entries.deep_view().len() == entries@.len(),
            max == max_numeric_stem(entries.deep_view().subrange(0, i as int)),
        decreases entries@.len() - i,
    {
        let ghost pre = entries.deep_view().subrange(0, i as int);
        let ghost cur = entries.deep_view().subrange(0, i + 1);
        proof {
            assert(cur.drop_last() =~= pre);
            assert(cur.last() == entries.deep_view()[i as int]);
            assert(entries.deep_view()[i as int] =~= entries@[i as int]@);
        }
        let s = stem(&entries[i]);
        match parse_u64(&s) {
            Some(v) => {
                proof {
                    assert(stem_val(cur.last()) == v as nat);
                }
                if v > max {
                    max = v;
                }
            },
            None => {
                proof {
                    assert(stem_val(cur.last()) == 0);
                }
            },
        }
        i += 1;
    }
    proof {
        assert(entries.deep_view().subrange(0, entries@.len() as int) =~= entries.deep_view());
    }
    max
}

/// The file name of output artifact number `n`.
pub open spec fn output_artifact_name(n: nat) -> Seq<u8> {
    dec_of(n) + ascii_seq(".apk"@)
}

/// The number the next output artifact gets: one greater than the
/// greatest numeric stem already present.
pub open spec fn next_output_index(entries: Seq<Seq<u8>>) -> nat {
    max_numeric_stem(entries) + 1
}

/// Allocates the next output artifact path under `root`, given the
/// names currently in the output directory.  Fails with
/// `InvalidInput` only when the numbering is exhausted.
pub fn next_output_apk(root: &Vec<u8>, output_entries: &Vec<Vec<u8>>) -> (r: Result<Vec<u8>, Error>)
    ensures
        max_numeric_stem(output_entries.deep_view()) == u64::MAX ==> r == Err::<Vec<u8>, Error>(
            Error::InvalidInput,
        ),
        max_numeric_stem(output_entries.deep_view()) < u64::MAX ==> (r matches Ok(p) && p@
            == join_spec(
            join_spec(root@, output_name()),
            output_artifact_name(next_output_index(output_entries.deep_view())),
        )),
{
    proof {
        reveal_strlit(".apk");
    }
    let max = max_numeric_stem_exec(output_entries);
    if max == u64::MAX {
        return Err(Error::InvalidInput);
    }
    let digits = format_u64(max + 1);
    let ext = tok(".apk");
    let name = concat_bytes(&digits, &ext);
    let out_dir = output_dir_path(root);
    Ok(join_path(&out_dir, &name))
}

/// A fresh artifact's number is strictly greater than every numeric
/// stem already in the output directory: artifacts are never
/// overwritten.
pub proof fn lemma_next_output_fresh(entries: Seq<Seq<u8>>, i: int)
    requires
        0 <= i < entries.len(),
    ensures
        next_output_index(entries) > stem_val(entries[i]),
{
    lemma_max_numeric_stem_ge(entries, i);
}

/// The artifact file name for `n` has stem value exactly `n`.
pub proof fn lemma_output_artifact_stem(n: nat)
    requires
        n <= u64::MAX,
    ensures
        stem_val(output_artifact_name(n)) == n,
{
    reveal_strlit(".apk");
    crate::num::lemma_dec_of_val(n);
    let d = dec_of(n);
    let name = output_artifact_name(n);
    let dot = crate::paths::dot();
    assert(name[d.len() as int] == dot);
    assert forall|j: int| d.len() < j < name.len() implies name[j] != dot by {
        assert(name[j] == ascii_seq(".apk"@)[j - d.len()]);
    }
    crate::bytesutil::lemma_rfind(name, dot);
    match crate::bytesutil::rfind(name, dot) {
        None => {
            assert(name[d.len() as int] == dot);
        },
        Some(k) => {
            assert(k == d.len() as int);
            assert(k > 0);
            assert(name.subrange(0, k) =~= d);
        },
    }
}

/// Packing again after an artifact lands in the output directory
/// allocates exactly the next number: repeated packs are numbered
/// consecutively, with no gaps and no reuse.
pub proof fn lemma_output_numbering_gap_free(entries: Seq<Seq<u8>>, n: nat)
    requires
        n == next_output_index(entries),
        n <= u64::MAX,
    ensures
        next_output_index(entries.push(output_artifact_name(n))) == n + 1,
{
    lemma_output_artifact_stem(n);
    let t = entries.push(output_artifact_name(n));
    assert(t.drop_last() =~= entries);
    assert(t.last() == output_artifact_name(n));
    assert(max_numeric_stem(t) == n);
}

/// An empty output directory yields artifact number 1.
pub proof fn lemma_output_numbering_starts_at_one()
    ensures
        next_output_index(Seq::<Seq<u8>>::empty()) == 1,
{
}

/// Which way this project is packed.
#[derive(Clone, Copy, Debug, PartialEq, Eq, Structural)]
pub enum PackStrategy {
    /// Copy the backup APK and splice the fresh dex files into it.
    Splice,
    /// Overwrite the dex files inside the unpacked tree and
    /// recompress the whole tree.
    FullRebuild,
}

/// One dex copy of the full-rebuild sync: the assembled dex replaces
/// its counterpart in the unpacked tree.
#[derive(Debug)]
pub struct DexCopy {
    /// The freshly assembled dex in the scratch dex directory.
    pub from: Vec<u8>,
    /// The dex of the same name inside the unpacked tree.
    pub to: Vec<u8>,
}

/// Index of the first unit name with no counterpart among the
/// unpacked tree's dex names.
pub open spec fn first_missing(names: Seq<Seq<u8>>, present: Seq<Seq<u8>>) -> Option<int>
    decreases names.len(),
{
    if names.len() == 0 {
        None
    } else if !present.contains(names[0]) {
        Some(0)
    } else {
        match first_missing(names.drop_first(), present) {
            Some(i) => Some(i + 1),
            None => None,
        }
    }
}

/// `first_missing` points at the first absent name, and is `None`
/// exactly when every name is present.
pub proof fn lemma_first_missing(names: Seq<Seq<u8>>, present: Seq<Seq<u8>>)
    ensures
        match first_missing(names, present) {
            Some(i) => 0 <= i < names.len() && !present.contains(names[i]) && forall|j: int|
                0 <= j < i ==> present.contains(#[trigger] names[j]),
            None => forall|j: int| 0 <= j < names.len() ==> present.contains(#[trigger] names[j]),
        },
    decreases names.len(),
{
    if names.len() > 0 && present.contains(names[0]) {
        let d = names.drop_first();
        lemma_first_missing(d, present);
        match first_missing(d, present) {
            Some(i) => {
                assert(names[i + 1] == d[i]);
                assert forall|j: int| 0 <= j < i + 1 implies present.contains(
                    #[trigger] names[j],
                ) by {
                    if j > 0 {
                        assert(names[j] == d[j - 1]);
                    }
                }
            },
            None => {
                assert forall|j: int| 0 <= j < names.len() implies present.contains(
                    #[trigger] names[j],
                ) by {
                    if j > 0 {
                        assert(names[j] == d[j - 1]);
                    }
                }
            },
        }
    }
}

/// The strategy-specific synchronisation step.
#[derive(Debug)]
pub enum SyncStep {
    /// Copy the backup APK to the new artifact, then splice the
    /// named dex files into it, running the archiver inside the
    /// scratch dex directory.
    Splice {
        /// Path of the backup APK to copy from.
        bak_apk: Vec<u8>,
        /// The directory the splice runs in.
        splice_cwd: Vec<u8>,
        /// The dex file names to splice into the artifact.
        splice_files: Vec<Vec<u8>>,
    },
    /// Copy each assembled dex over its counterpart in the unpacked
    /// tree, then recompress the whole tree into the new artifact.
    FullRebuild {
        /// The per-dex copies, in unit order.
        copies: Vec<DexCopy>,
        /// The tree that is recompressed.
        rebuild_src: Vec<u8>,
    },
}

/// The whole pack, as data.
#[derive(Debug)]
pub struct PackPlan {
    /// The configuration read back from the project.
    pub config: RlaConfig,
    /// The strategy the configuration selects.
    pub strategy: PackStrategy,
    /// The concurrent re-assembly of every unit.
    pub assemble: Vec<AssembleTask>,
    /// The artifact the pack produces.
    pub output_apk: Vec<u8>,
    /// What happens between assembly and signing.
    pub sync: SyncStep,
}

/// The file names of the disassembly units: each names the dex it
/// assembles back into.
pub open spec fn unit_names(unit_dirs: Seq<Seq<u8>>) -> Seq<Seq<u8>> {
    unit_dirs.map_values(|d: Seq<u8>| file_name_spec(d))
}

/// Whether some unit path has no file name.
pub open spec fn has_nameless_unit(unit_dirs: Seq<Seq<u8>>) -> bool {
    exists|i: int| 0 <= i < unit_dirs.len() && file_name_spec(#[trigger] unit_dirs[i]).len() == 0
}

/// The configuration carried by the reported bytes of the persisted
/// configuration file: `None` when the file is missing or does not
/// parse.
pub open spec fn given_config(config_bytes: Option<&Vec<u8>>) -> Option<RlaConfig> {
    match config_bytes {
        None => None,
        Some(b) => parse_config_spec(b@),
    }
}

/// The parsed configuration, when there is one.
pub open spec fn the_config(config_bytes: Option<&Vec<u8>>) -> RlaConfig {
    match given_config(config_bytes) {
        Some(c) => c,
        None => RlaConfig {
            smali_only: false,
            git_enable: false,
            jadx_enable: false,
            force_override: false,
        },
    }
}

/// The name of the first stale unit: the first unit name with no
/// counterpart among the unpacked tree's dex names.
pub open spec fn missing_unit_name(unit_dirs: Seq<Seq<u8>>, present: Seq<Seq<u8>>) -> Seq<u8> {
    match first_missing(unit_names(unit_dirs), present) {
        Some(k) => unit_names(unit_dirs)[k],
        None => Seq::empty(),
    }
}

/// Lays out the whole pack for the project at `root`.
///
/// The caller reports what it observed on disk: the bytes of the
/// persisted configuration (`None` when the file is missing), the
/// unit directories under the disassembly root, the dex file names
/// present at the top level of the unpacked tree, and the entries of
/// the output directory; `dex_dir` is the scratch directory that
/// receives the assembled dex files.
///
/// Fails with `InvalidInput` when the configuration is missing or
/// unparsable, when a unit has no file name, or when the output
/// numbering is exhausted; fails with `MappingMismatch` — naming the
/// first stale unit — when a full-rebuild project has a unit with no
/// counterpart dex in the unpacked tree.  Otherwise the plan is owed.
pub fn pack_apk(
    root: &Vec<u8>,
    config_bytes: Option<&Vec<u8>>,
    unit_dirs: &Vec<Vec<u8>>,
    unpacked_dex_names: &Vec<Vec<u8>>,
    output_entries: &Vec<Vec<u8>>,
    dex_dir: &Vec<u8>,
) -> (r: Result<PackPlan, Error>)
    ensures
        given_config(config_bytes) is None ==> r == Err::<PackPlan, Error>(Error::InvalidInput),
        (given_config(config_bytes) is Some && has_nameless_unit(unit_dirs.deep_view())) ==> r
            == Err::<PackPlan, Error>(Error::InvalidInput),
        (given_config(config_bytes) is Some && !has_nameless_unit(unit_dirs.deep_view())
            && !the_config(config_bytes).smali_only && first_missing(
            unit_names(unit_dirs.deep_view()),
            unpacked_dex_names.deep_view(),
        ) is Some) ==> (r matches Err(e) && e matches Error::MappingMismatch { dex_name }
            && dex_name@ == missing_unit_name(
            unit_dirs.deep_view(),
            unpacked_dex_names.deep_view(),
        )),
        (given_config(config_bytes) is Some && !has_nameless_unit(unit_dirs.deep_view()) && (
        the_config(config_bytes).smali_only || first_missing(
            unit_names(unit_dirs.deep_view()),
            unpacked_dex_names.deep_view(),
        ) is None) && max_numeric_stem(output_entries.deep_view()) == u64::MAX) ==> r == Err::<
            PackPlan,
            Error,
        >(Error::InvalidInput),
        (given_config(config_bytes) is Some && !has_nameless_unit(unit_dirs.deep_view()) && (
        the_config(config_bytes).smali_only || first_missing(
            unit_names(unit_dirs.deep_view()),
            unpacked_dex_names.deep_view(),
        ) is None) && max_numeric_stem(output_entries.deep_view()) < u64::MAX) ==> (r matches Ok(
            plan,
        ) && pack_plan_matches(
            plan,
            the_config(config_bytes),
            root@,
            unit_dirs.deep_view(),
            output_entries.deep_view(),
            dex_dir@,
        )),
{
    let c = match config_bytes {
        None => {
            return Err(Error::InvalidInput);
        },
        Some(b) => match parse_config(b) {
            None => {
                return Err(Error::InvalidInput);
            },
            Some(c) => c,
        },
    };
    let assemble = match assemble_tasks(unit_dirs, dex_dir) {
        Err(e) => {
            proof {
                crate::bytesutil::lemma_deep_view_elems(unit_dirs);
                let w = choose|i: int|
                    0 <= i < unit_dirs@.len() && file_name_spec(#[trigger] unit_dirs@[i]@).len()
                        == 0;
                assert(file_name_spec(unit_dirs.deep_view()[w]).len() == 0);
                assert(has_nameless_unit(unit_dirs.deep_view()));
            }
            return Err(e);
        },
        Ok(t) => t,
    };
    proof {
        crate::bytesutil::lemma_deep_view_elems(unit_dirs);
        assert forall|i: int|
            0 <= i < unit_dirs.deep_view().len() implies file_name_spec(
            #[trigger] unit_dirs.deep_view()[i],
        ).len() > 0 by {
            assert(unit_dirs.deep_view()[i] == unit_dirs@[i]@);
            assert(file_name_spec(unit_dirs@[i]@).len() > 0);
        }
        assert(!has_nameless_unit(unit_dirs.deep_view()));
    }
    let ghost names_spec = unit_names(unit_dirs.deep_view());
    let mut names: Vec<Vec<u8>> = Vec::new();
    let mut i: usize = 0;
    while i < unit_dirs.len()
        invariant
            0 <= i <= unit_dirs@.len(),
            names_spec == unit_names(unit_dirs.deep_view()),
            names_spec.len() == unit_dirs@.len(),
            forall|j: int| 0 <= j < names_spec.len() ==> names_spec[j] == file_name_spec(
                #[trigger] unit_dirs@[j]@,
            ),
            names@.len() == i,
            forall|j: int| 0 <= j < i ==> (#[trigger] names@[j])@ == names_spec[j],
        decreases unit_dirs@.len() - i,
    {
        proof {
            assert(unit_dirs.deep_view()[i as int] =~= unit_dirs@[i as int]@);
        }
        let n = file_name(&unit_dirs[i]);
        names.push(n);
        i += 1;
    }
    if !c.smali_only {
        let mut k: usize = 0;
        while k < names.len()
            invariant
                0 <= k <= names@.len(),
                names@.len() == names_spec.len(),
                names_spec == unit_names(unit_dirs.deep_view()),
                given_config(config_bytes) == Some(c),
                !c.smali_only,
                !has_nameless_unit(unit_dirs.deep_view()),
                forall|j: int| 0 <= j < names_spec.len() ==> (#[trigger] names@[j])@
                    == names_spec[j],
                forall|j: int| 0 <= j < k ==> unpacked_dex_names.deep_view().contains(
                    #[trigger] names_spec[j],
                ),
            decreases names@.len() - k,
        {
            if !contains_bytes(unpacked_dex_names, &names[k]) {
                proof {
                    lemma_first_missing(names_spec, unpacked_dex_names.deep_view());
                    assert(!unpacked_dex_names.deep_view().contains(names_spec[k as int]));
                    assert(first_missing(names_spec, unpacked_dex_names.deep_view()) == Some(
                        k as int,
                    ));
                }
                let dex_name = names[k].clone();
                proof {
                    assert(dex_name@ =~= names@[k as int]@);
                }
                return Err(Error::MappingMismatch { dex_name });
            }
            k += 1;
        }
        proof {
            lemma_first_missing(names_spec, unpacked_dex_names.deep_view());
        }
    }
    let output_apk = match next_output_apk(root, output_entries) {
        Err(e) => {
            return Err(e);
        },
        Ok(p) => p,
    };
    proof {
        lemma_max_numeric_stem_bound(output_entries.deep_view());
        assert(max_numeric_stem(output_entries.deep_view()) < u64::MAX);
        assert(output_apk@ == join_spec(
            join_spec(root@, output_name()),
            output_artifact_name(next_output_index(output_entries.deep_view())),
        ));
    }
    let sync = if c.smali_only {
        let bak_apk = bak_apk_path(root);
        let splice_cwd = dex_dir.clone();
        proof {
            assert(splice_cwd@ =~= dex_dir@);
            assert(names.deep_view() =~~= names_spec);
        }
        SyncStep::Splice { bak_apk, splice_cwd, splice_files: names }
    } else {
        let unpacked = unpacked_path(root);
        let mut copies: Vec<DexCopy> = Vec::new();
        let mut j: usize = 0;
        while j < names.len()
            invariant
                0 <= j <= names@.len(),
                names@.len() == names_spec.len(),
                forall|m: int| 0 <= m < names_spec.len() ==> (#[trigger] names@[m])@
                    == names_spec[m],
                unpacked@ == join_spec(root@, unpacked_name()),
                copies@.len() == j,
                forall|m: int| 0 <= m < j ==> (#[trigger] copies@[m]).from@ == join_spec(
                    dex_dir@,
                    names_spec[m],
                ) && copies@[m].to@ == join_spec(
                    join_spec(root@, unpacked_name()),
                    names_spec[m],
                ),
            decreases names@.len() - j,
        {
            let from = join_path(dex_dir, &names[j]);
            let to = join_path(&unpacked, &names[j]);
            copies.push(DexCopy { from, to });
            j += 1;
        }
        SyncStep::FullRebuild { copies, rebuild_src: unpacked }
    };
    let strategy = if c.smali_only {
        PackStrategy::Splice
    } else {
        PackStrategy::FullRebuild
    };
    let plan = PackPlan { config: c, strategy, assemble, output_apk, sync };
    proof {
        assert(pack_plan_matches(
            plan,
            c,
            root@,
            unit_dirs.deep_view(),
            output_entries.deep_view(),
            dex_dir@,
        ));
    }
    Ok(plan)
}

/// What a successful pack plan holds, piece by piece.
pub open spec fn pack_plan_matches(
    plan: PackPlan,
    c: RlaConfig,
    root: Seq<u8>,
    unit_dirs: Seq<Seq<u8>>,
    output_entries: Seq<Seq<u8>>,
    dex_dir: Seq<u8>,
) -> bool {
    let names = unit_names(unit_dirs);
    &&& plan.config == c
    &&& plan.strategy == (if c.smali_only {
        PackStrategy::Splice
    } else {
        PackStrategy::FullRebuild
    })
    &&& plan.assemble.len() == unit_dirs.len()
    &&& (forall|i: int|
        0 <= i < unit_dirs.len() ==> (#[trigger] plan.assemble@[i]).unit_dir@ == unit_dirs[i]
            && plan.assemble@[i].out_dex@ == join_spec(dex_dir, names[i]))
    &&& plan.output_apk@ == join_spec(
        join_spec(root, output_name()),
        output_artifact_name(next_output_index(output_entries)),
    )
    &&& (c.smali_only ==> (plan.sync matches SyncStep::Splice { bak_apk, splice_cwd, splice_files }
        && bak_apk@ == join_spec(root, bak_apk_name()) && splice_cwd@ == dex_dir
        && splice_files.deep_view() == names))
    &&& (!c.smali_only ==> (plan.sync matches SyncStep::FullRebuild { copies, rebuild_src }
        && rebuild_src@ == join_spec(root, unpacked_name()) && copies.len() == names.len() && (
    forall|i: int|
        0 <= i < names.len() ==> (#[trigger] copies@[i]).from@ == join_spec(dex_dir, names[i])
            && copies@[i].to@ == join_spec(join_spec(root, unpacked_name()), names[i]))))
}

/// After an unpack in either mode, each disassembly unit's directory
/// name is exactly the dex file name it came from; so a pack that
/// reads those units back maps every unit to its own dex again, and
/// a disassemble-only pack splices exactly the original dex names
/// into a copy of the backed-up APK.
pub proof fn lemma_unpack_pack_round_trip(smalis_root: Seq<u8>, dex_names: Seq<Seq<u8>>)
    requires
        forall|i: int|
            0 <= i < dex_names.len() ==> (#[trigger] dex_names[i]).len() > 0 && forall|j: int|
                0 <= j < dex_names[i].len() ==> dex_names[i][j] != crate::paths::slash(),
    ensures
        unit_names(dex_names.map_values(|n: Seq<u8>| join_spec(smalis_root, n))) =~= dex_names,
{
    let dirs = dex_names.map_values(|n: Seq<u8>| join_spec(smalis_root, n));
    assert forall|i: int| 0 <= i < dex_names.len() implies unit_names(dirs)[i] == dex_names[i] by {
        assert(dirs[i] == join_spec(smalis_root, dex_names[i]));
        crate::paths::lemma_join_file_name(smalis_root, dex_names[i]);
    }
}

} // verus!
