//! The fixed directory layout of a project.
//!
//! Every well-known path inside a project root is computed here, so
//! that both pipelines and their callers agree byte for byte on where
//! things live.

use vstd::prelude::*;
use crate::bytesutil::ascii_seq;
use crate::bytesutil::concat_bytes;
use crate::bytesutil::tok;
use crate::num::dec_of;
use crate::num::format_u64;
use crate::error::Error;
use crate::paths::join_spec;
use crate::paths::join_path;

verus! {

/// Name of the backup copy of the original APK.
pub open spec fn bak_apk_name() -> Seq<u8> {
    ascii_seq("bak.apk"@)
}

/// Name of the persisted configuration, which doubles as the project
/// marker.
pub open spec fn rla_config_name() -> Seq<u8> {
    ascii_seq(".rla.config.json"@)
}

/// Name of the ignore file materialized at unpack time.
pub open spec fn gitignore_name() -> Seq<u8> {
    ascii_seq(".gitignore"@)
}

/// Contents of the ignore file.
pub open spec fn gitignore_content() -> Seq<u8> {
    ascii_seq("output\n**.DS_Store\n"@)
}

/// Name of the raw-unzipped tree.
pub open spec fn unpacked_name() -> Seq<u8> {
    ascii_seq("unpacked"@)
}

/// Name of the directory that holds one disassembly unit per dex.
pub open spec fn smalis_name() -> Seq<u8> {
    ascii_seq("smalis"@)
}

/// Name of the decompiled-source tree.
pub open spec fn jadx_src_name() -> Seq<u8> {
    ascii_seq("jadx-src"@)
}

/// Name of the directory that receives output artifacts.
pub open spec fn output_name() -> Seq<u8> {
    ascii_seq("output"@)
}

/// Name of the directory for the bundled dynamic-instrumentation
/// helper assets.
pub open spec fn mini_frida_name() -> Seq<u8> {
    ascii_seq("mini_frida"@)
}

/// Path of the backup APK under `root`.
pub fn bak_apk_path(root: &Vec<u8>) -> (r: Vec<u8>)
    ensures
        r@ == join_spec(root@, bak_apk_name()),
{
    proof {
        reveal_strlit("bak.apk");
    }
    let name = tok("bak.apk");
    join_path(root, &name)
}

/// Path of the persisted configuration under `root`.
pub fn rla_config_path(root: &Vec<u8>) -> (r: Vec<u8>)
    ensures
        r@ == join_spec(root@, rla_config_name()),
{
    proof {
        reveal_strlit(".rla.config.json");
    }
    let name = tok(".rla.config.json");
    join_path(root, &name)
}

/// Path of the ignore file under `root`.
pub fn gitignore_path(root: &Vec<u8>) -> (r: Vec<u8>)
    ensures
        r@ == join_spec(root@, gitignore_name()),
{
    proof {
        reveal_strlit(".gitignore");
    }
    let name = tok(".gitignore");
    join_path(root, &name)
}

/// The bytes written to the ignore file.
pub fn gitignore_bytes() -> (r: Vec<u8>)
    ensures
        r@ == gitignore_content(),
{
    proof {
        reveal_strlit("output\n**.DS_Store\n");
    }
    tok("output\n**.DS_Store\n")
}

/// Path of the raw-unzipped tree under `root`.
pub fn unpacked_path(root: &Vec<u8>) -> (r: Vec<u8>)
    ensures
        r@ == join_spec(root@, unpacked_name()),
{
    proof {
        reveal_strlit("unpacked");
    }
    let name = tok("unpacked");
    join_path(root, &name)
}

/// Path of the disassembly root under `root`.
pub fn smalis_path(root: &Vec<u8>) -> (r: Vec<u8>)
    ensures
        r@ == join_spec(root@, smalis_name()),
{
    proof {
        reveal_strlit("smalis");
    }
    let name = tok("smalis");
    join_path(root, &name)
}

/// Path of the decompiled-source tree under `root`.
pub fn jadx_src_path(root: &Vec<u8>) -> (r: Vec<u8>)
    ensures
        r@ == join_spec(root@, jadx_src_name()),
{
    proof {
        reveal_strlit("jadx-src");
    }
    let name = tok("jadx-src");
    join_path(root, &name)
}

/// Path of the output directory under `root`.
pub fn output_dir_path(root: &Vec<u8>) -> (r: Vec<u8>)
    ensures
        r@ == join_spec(root@, output_name()),
{
    proof {
        reveal_strlit("output");
    }
    let name = tok("output");
    join_path(root, &name)
}

/// Path of the helper-assets directory under `root`.
pub fn mini_frida_path(root: &Vec<u8>) -> (r: Vec<u8>)
    ensures
        r@ == join_spec(root@, mini_frida_name()),
{
    proof {
        reveal_strlit("mini_frida");
    }
    let name = tok("mini_frida");
    join_path(root, &name)
}

/// The well-known children of a project root, in one list.
pub open spec fn project_child_names() -> Seq<Seq<u8>> {
    seq![
        bak_apk_name(),
        rla_config_name(),
        gitignore_name(),
        unpacked_name(),
        smalis_name(),
        jadx_src_name(),
        output_name(),
        mini_frida_name(),
    ]
}

/// The well-known paths of a project never collide: what the
/// prepare-files task writes, the two extraction trees, the
/// decompiled-source tree and the output directory are pairwise
/// distinct children of the root, which is what lets the parallel
/// phase write them concurrently.
pub proof fn lemma_layout_paths_distinct(root: Seq<u8>)
    ensures
        forall|i: int, j: int|
            0 <= i < j < project_child_names().len() ==> join_spec(
                root,
                #[trigger] project_child_names()[i],
            ) != join_spec(root, #[trigger] project_child_names()[j]),
{
    reveal_strlit("bak.apk");
    reveal_strlit(".rla.config.json");
    reveal_strlit(".gitignore");
    reveal_strlit("unpacked");
    reveal_strlit("smalis");
    reveal_strlit("jadx-src");
    reveal_strlit("output");
    reveal_strlit("mini_frida");
    let ns = project_child_names();
    assert(ns[0].len() == 7 && ns[0][0] == 98);
    assert(ns[1].len() == 16 && ns[1][0] == 46);
    assert(ns[2].len() == 10 && ns[2][0] == 46);
    assert(ns[3].len() == 8 && ns[3][0] == 117);
    assert(ns[4].len() == 6 && ns[4][0] == 115);
    assert(ns[5].len() == 8 && ns[5][0] == 106);
    assert(ns[6].len() == 6 && ns[6][0] == 111);
    assert(ns[7].len() == 10 && ns[7][0] == 109);
    assert forall|i: int, j: int| 0 <= i < j < ns.len() implies join_spec(
        root,
        #[trigger] ns[i],
    ) != join_spec(root, #[trigger] ns[j]) by {
        if join_spec(root, ns[i]) == join_spec(root, ns[j]) {
            crate::paths::lemma_join_injective(root, ns[i], ns[j]);
            assert(ns[i].len() == ns[j].len());
            assert(ns[i][0] == ns[j][0]);
        }
    }
}

/// Picks the project root on the ancestor search: `has_marker[i]`
/// says whether the i-th directory, walking upward from the working
/// directory, holds the project marker.  The nearest marked ancestor
/// wins.
pub fn find_rla_root(has_marker: &Vec<bool>) -> (r: Option<usize>)
    ensures
        match r {
            Some(i) => i < has_marker@.len() && has_marker@[i as int] && forall|j: int|
                0 <= j < i ==> !has_marker@[j],
            None => forall|j: int| 0 <= j < has_marker@.len() ==> !has_marker@[j],
        },
{
    let mut i: usize = 0;
    while i < has_marker.len()
        invariant
            0 <= i <= has_marker@.len(),
            forall|j: int| 0 <= j < i ==> !has_marker@[j],
        decreases has_marker@.len() - i,
    {
        if has_marker[i] {
            return Some(i);
        }
        i += 1;
    }
    None
}

/// One directory on the upward walk from the working directory,
/// with whether it holds the project marker.
#[derive(Debug)]
pub struct AncestorDir {
    /// The directory's path.
    pub path: Vec<u8>,
    /// Whether the project marker file exists in it.
    pub has_marker: bool,
}

/// Resolves the project root for pack: an explicitly given directory
/// wins; otherwise the nearest marked ancestor; with neither, the
/// search fails with `NotFound`.
pub fn resolve_project_root(explicit: Option<Vec<u8>>, ancestors: &Vec<AncestorDir>) -> (r: Result<
    Vec<u8>,
    Error,
>)
    ensures
        explicit matches Some(d) ==> r == Ok::<Vec<u8>, Error>(d),
        explicit is None && (exists|i: int|
            0 <= i < ancestors@.len() && (#[trigger] ancestors@[i]).has_marker) ==> (r matches Ok(
            p,
        ) && exists|i: int|
            0 <= i < ancestors@.len() && (#[trigger] ancestors@[i]).has_marker && p@
                == ancestors@[i].path@ && forall|j: int| 0 <= j < i ==> !ancestors@[j].has_marker),
        explicit is None && (forall|i: int|
            0 <= i < ancestors@.len() ==> !(#[trigger] ancestors@[i]).has_marker) ==> r == Err::<
            Vec<u8>,
            Error,
        >(Error::NotFound),
{
    if let Some(d) = explicit {
        return Ok(d);
    }
    let mut i: usize = 0;
    while i < ancestors.len()
        invariant
            explicit is None,
            0 <= i <= ancestors@.len(),
            forall|j: int| 0 <= j < i ==> !(#[trigger] ancestors@[j]).has_marker,
        decreases ancestors@.len() - i,
    {
        if ancestors[i].has_marker {
            let p = ancestors[i].path.clone();
            proof {
                assert(p@ =~= ancestors@[i as int].path@);
            }
            return Ok(p);
        }
        i += 1;
    }
    Err(Error::NotFound)
}

/// A vendored tool shipped inside the program and released to a
/// scratch directory before use.
#[derive(Debug)]
pub struct Dep {
    /// File name the tool is released under.
    pub name: Vec<u8>,
    /// The embedded bytes of the tool.
    pub bytes: Vec<u8>,
}

impl Dep {
    /// The path the tool is released to inside `dir`.
    pub fn release_path(&self, dir: &Vec<u8>) -> (r: Vec<u8>)
        ensures
            r@ == join_spec(dir@, self.name@),
    {
        join_path(dir, &self.name)
    }
}

/// The process-wide scratch state: the directory that receives
/// vendored tools and temporary files, and the counter that keeps
/// concurrently allocated temporary names apart.
#[derive(Debug)]
pub struct Scratch {
    /// The scratch directory.
    pub dir: Vec<u8>,
    /// Next temporary-name disambiguator.
    pub counter: u64,
}

/// The temporary name allocated for `name` under counter value `n`.
pub open spec fn temp_name_spec(n: nat, name: Seq<u8>) -> Seq<u8> {
    dec_of(n) + ascii_seq("_"@) + name
}

impl Scratch {
    /// A fresh scratch state over `dir`.
    pub fn new(dir: Vec<u8>) -> (r: Scratch)
        ensures
            r.dir == dir,
            r.counter == 0,
    {
        Scratch { dir, counter: 0 }
    }

    /// Allocates a temporary path for `name`, disambiguated by the
    /// monotonically increasing counter.
    pub fn temppath(&mut self, name: &Vec<u8>) -> (r: Vec<u8>)
        requires
            old(self).counter < u64::MAX,
        ensures
            final(self).dir == old(self).dir,
            final(self).counter == old(self).counter + 1,
            r@ == join_spec(old(self).dir@, temp_name_spec(old(self).counter as nat, name@)),
    {
        proof {
            reveal_strlit("_");
        }
        let digits = format_u64(self.counter);
        let sep = tok("_");
        let pre = concat_bytes(&digits, &sep);
        let base = concat_bytes(&pre, name);
        self.counter += 1;
        proof {
            assert(base@ =~= temp_name_spec(old(self).counter as nat, name@));
        }
        join_path(&self.dir, &base)
    }
}

} // verus!
