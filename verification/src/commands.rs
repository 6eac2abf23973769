//! Exact command lines for the external tools.
//!
//! Every process the pipelines spawn is described first as a value:
//! a program, its arguments, and an optional working directory.  The
//! builders here pin each argument, so a caller that executes the
//! command runs exactly the line the contract shows.

use vstd::prelude::*;
use crate::bytesutil::ascii_seq;
use crate::bytesutil::concat_bytes;
use crate::bytesutil::push_bytes;
use crate::bytesutil::tok;

verus! {

/// A command to hand to the external-tool runner.
#[derive(Debug)]
pub struct CommandSpec {
    /// The program to execute.
    pub program: Vec<u8>,
    /// Its arguments, in order.
    pub args: Vec<Vec<u8>>,
    /// The working directory to run in, when one is needed.
    pub cwd: Option<Vec<u8>>,
}

/// `parts` joined with single spaces.
pub open spec fn joined_with_spaces(parts: Seq<Seq<u8>>) -> Seq<u8>
    decreases parts.len(),
{
    if parts.len() == 0 {
        Seq::empty()
    } else if parts.len() == 1 {
        parts[0]
    } else {
        parts[0] + ascii_seq(" "@) + joined_with_spaces(parts.drop_first())
    }
}

proof fn lemma_joined_push(parts: Seq<Seq<u8>>, x: Seq<u8>)
    ensures
        parts.len() == 0 ==> joined_with_spaces(parts.push(x)) == x,
        parts.len() > 0 ==> joined_with_spaces(parts.push(x)) == joined_with_spaces(parts)
            + ascii_seq(" "@) + x,
    decreases parts.len(),
{
    let p = parts.push(x);
    if parts.len() == 0 {
        assert(p[0] == x);
    } else {
        lemma_joined_push(parts.drop_first(), x);
        assert(p.drop_first() =~= parts.drop_first().push(x));
        if parts.len() == 1 {
            assert(joined_with_spaces(p) == p[0] + ascii_seq(" "@) + joined_with_spaces(
                p.drop_first(),
            ));
        }
    }
}

impl CommandSpec {
    /// The whole command as one display line: the program, then each
    /// argument, separated by spaces.  Used for failure context.
    pub fn to_line(&self) -> (r: Vec<u8>)
        ensures
            r@ == joined_with_spaces(seq![self.program@] + self.args.deep_view()),
    {
        proof {
            reveal_strlit(" ");
        }
        let mut line = self.program.clone();
        let ghost parts = seq![self.program@] + self.args.deep_view();
        proof {
            assert(parts.subrange(0, 1) =~= seq![self.program@]);
            assert(joined_with_spaces(parts.subrange(0, 1)) == self.program@);
        }
        let sp = tok(" ");
        let mut i: usize = 0;
        while i < self.args.len()
            invariant
                0 <= i <= self.args@.len(),
                parts == seq![self.program@] + self.args.deep_view(),
                parts.len() == 1 + self.args@.len(),
                forall|j: int| 0 <= j < self.args@.len() ==> parts[j + 1] == self.args@[j]@,
                sp@ == ascii_seq(" "@),
                line@ == joined_with_spaces(parts.subrange(0, i + 1)),
            decreases self.args@.len() - i,
        {
            push_bytes(&mut line, &sp);
            push_bytes(&mut line, &self.args[i]);
            proof {
                let pre = parts.subrange(0, i + 1);
                lemma_joined_push(pre, parts[i + 1]);
                assert(pre.push(parts[i + 1]) =~= parts.subrange(0, i + 2));
            }
            i += 1;
        }
        proof {
            assert(parts.subrange(0, parts.len() as int) =~= parts);
        }
        line
    }
}

/// The token "java".
fn java_bytes() -> (r: Vec<u8>)
    ensures
        r@ == ascii_seq("java"@),
{
    proof {
        reveal_strlit("java");
    }
    tok("java")
}

/// A `java -jar <jar> <args...>` invocation.
pub fn jar_command(jar: &Vec<u8>, args: &Vec<Vec<u8>>) -> (r: CommandSpec)
    ensures
        r.program@ == ascii_seq("java"@),
        r.args.deep_view() == seq![ascii_seq("-jar"@), jar@] + args.deep_view(),
        r.cwd is None,
{
    proof {
        reveal_strlit("-jar");
    }
    let mut a: Vec<Vec<u8>> = Vec::new();
    a.push(tok("-jar"));
    a.push(jar.clone());
    let mut i: usize = 0;
    while i < args.len()
        invariant
            0 <= i <= args@.len(),
            a@.len() == 2 + i,
            a@[0]@ == ascii_seq("-jar"@),
            a@[1]@ == jar@,
            forall|j: int| 0 <= j < i ==> a@[j + 2]@ == args@[j]@,
        decreases args@.len() - i,
    {
        let x = args[i].clone();
        proof {
            assert(x@ =~= args@[i as int]@);
        }
        a.push(x);
        i += 1;
    }
    proof {
        assert(a.deep_view() =~~= seq![ascii_seq("-jar"@), jar@] + args.deep_view());
    }
    CommandSpec { program: java_bytes(), args: a, cwd: None }
}

/// The assembler invocation: `java -jar <jar> a <smali_dir> -o <dex>`.
pub fn smali_assemble_command(smali_dir: &Vec<u8>, out_dex: &Vec<u8>, jar: &Vec<u8>) -> (r:
    CommandSpec)
    ensures
        r.program@ == ascii_seq("java"@),
        r.args.deep_view() == seq![
            ascii_seq("-jar"@),
            jar@,
            ascii_seq("a"@),
            smali_dir@,
            ascii_seq("-o"@),
            out_dex@,
        ],
        r.cwd is None,
{
    proof {
        reveal_strlit("-jar");
        reveal_strlit("a");
        reveal_strlit("-o");
    }
    let mut a: Vec<Vec<u8>> = Vec::new();
    a.push(tok("-jar"));
    a.push(jar.clone());
    a.push(tok("a"));
    a.push(smali_dir.clone());
    a.push(tok("-o"));
    a.push(out_dex.clone());
    proof {
        assert(a.deep_view() =~~= seq![
            ascii_seq("-jar"@),
            jar@,
            ascii_seq("a"@),
            smali_dir@,
            ascii_seq("-o"@),
            out_dex@,
        ]);
    }
    CommandSpec { program: java_bytes(), args: a, cwd: None }
}

/// The disassembler invocation: `java -jar <jar> d <dex> -o <outdir>`.
pub fn baksmali_command(dex: &Vec<u8>, outdir: &Vec<u8>, jar: &Vec<u8>) -> (r: CommandSpec)
    ensures
        r.program@ == ascii_seq("java"@),
        r.args.deep_view() == seq![
            ascii_seq("-jar"@),
            jar@,
            ascii_seq("d"@),
            dex@,
            ascii_seq("-o"@),
            outdir@,
        ],
        r.cwd is None,
{
    proof {
        reveal_strlit("-jar");
        reveal_strlit("d");
        reveal_strlit("-o");
    }
    let mut a: Vec<Vec<u8>> = Vec::new();
    a.push(tok("-jar"));
    a.push(jar.clone());
    a.push(tok("d"));
    a.push(dex.clone());
    a.push(tok("-o"));
    a.push(outdir.clone());
    proof {
        assert(a.deep_view() =~~= seq![
            ascii_seq("-jar"@),
            jar@,
            ascii_seq("d"@),
            dex@,
            ascii_seq("-o"@),
            outdir@,
        ]);
    }
    CommandSpec { program: java_bytes(), args: a, cwd: None }
}

/// `git init`, run inside the project root.
pub fn git_init_command(workdir: &Vec<u8>) -> (r: CommandSpec)
    ensures
        r.program@ == ascii_seq("git"@),
        r.args.deep_view() == seq![ascii_seq("init"@)],
        r.cwd.deep_view() == Some(workdir@),
{
    proof {
        reveal_strlit("git");
        reveal_strlit("init");
    }
    let mut a: Vec<Vec<u8>> = Vec::new();
    a.push(tok("init"));
    proof {
        assert(a.deep_view() =~~= seq![ascii_seq("init"@)]);
    }
    CommandSpec { program: tok("git"), args: a, cwd: Some(workdir.clone()) }
}

/// `git add .`, run inside the project root.
pub fn git_add_command(workdir: &Vec<u8>) -> (r: CommandSpec)
    ensures
        r.program@ == ascii_seq("git"@),
        r.args.deep_view() == seq![ascii_seq("add"@), ascii_seq("."@)],
        r.cwd.deep_view() == Some(workdir@),
{
    proof {
        reveal_strlit("git");
        reveal_strlit("add");
        reveal_strlit(".");
    }
    let mut a: Vec<Vec<u8>> = Vec::new();
    a.push(tok("add"));
    a.push(tok("."));
    proof {
        assert(a.deep_view() =~~= seq![ascii_seq("add"@), ascii_seq("."@)]);
    }
    CommandSpec { program: tok("git"), args: a, cwd: Some(workdir.clone()) }
}

/// `git commit -m <msg>`, run inside the project root.
pub fn git_commit_command(workdir: &Vec<u8>, msg: &Vec<u8>) -> (r: CommandSpec)
    ensures
        r.program@ == ascii_seq("git"@),
        r.args.deep_view() == seq![ascii_seq("commit"@), ascii_seq("-m"@), msg@],
        r.cwd.deep_view() == Some(workdir@),
{
    proof {
        reveal_strlit("git");
        reveal_strlit("commit");
        reveal_strlit("-m");
    }
    let mut a: Vec<Vec<u8>> = Vec::new();
    a.push(tok("commit"));
    a.push(tok("-m"));
    a.push(msg.clone());
    proof {
        assert(a.deep_view() =~~= seq![ascii_seq("commit"@), ascii_seq("-m"@), msg@]);
    }
    CommandSpec { program: tok("git"), args: a, cwd: Some(workdir.clone()) }
}

/// The fixed message of the initial commit.
pub fn initial_commit_message() -> (r: Vec<u8>)
    ensures
        r@ == ascii_seq("Frist init project"@),
{
    proof {
        reveal_strlit("Frist init project");
    }
    tok("Frist init project")
}

/// The decompiler invocation: `jadx -e <apk> -d <outdir>`.
pub fn jadx_command(apk: &Vec<u8>, outdir: &Vec<u8>) -> (r: CommandSpec)
    ensures
        r.program@ == ascii_seq("jadx"@),
        r.args.deep_view() == seq![ascii_seq("-e"@), apk@, ascii_seq("-d"@), outdir@],
        r.cwd is None,
{
    proof {
        reveal_strlit("jadx");
        reveal_strlit("-e");
        reveal_strlit("-d");
    }
    let mut a: Vec<Vec<u8>> = Vec::new();
    a.push(tok("-e"));
    a.push(apk.clone());
    a.push(tok("-d"));
    a.push(outdir.clone());
    proof {
        assert(a.deep_view() =~~= seq![ascii_seq("-e"@), apk@, ascii_seq("-d"@), outdir@]);
    }
    CommandSpec { program: tok("jadx"), args: a, cwd: None }
}

/// The decompiler invocation on one listing: `jadx -d <outdir> <smali>`.
pub fn jadx_compile_command(smali: &Vec<u8>, outdir: &Vec<u8>) -> (r: CommandSpec)
    ensures
        r.program@ == ascii_seq("jadx"@),
        r.args.deep_view() == seq![ascii_seq("-d"@), outdir@, smali@],
        r.cwd is None,
{
    proof {
        reveal_strlit("jadx");
        reveal_strlit("-d");
    }
    let mut a: Vec<Vec<u8>> = Vec::new();
    a.push(tok("-d"));
    a.push(outdir.clone());
    a.push(smali.clone());
    proof {
        assert(a.deep_view() =~~= seq![ascii_seq("-d"@), outdir@, smali@]);
    }
    CommandSpec { program: tok("jadx"), args: a, cwd: None }
}

/// The full-archive expansion: `unzip -n -d <dir> <apk>`.
pub fn unzip_command(apk: &Vec<u8>, dir: &Vec<u8>) -> (r: CommandSpec)
    ensures
        r.program@ == ascii_seq("unzip"@),
        r.args.deep_view() == seq![ascii_seq("-n"@), ascii_seq("-d"@), dir@, apk@],
        r.cwd is None,
{
    proof {
        reveal_strlit("unzip");
        reveal_strlit("-n");
        reveal_strlit("-d");
    }
    let mut a: Vec<Vec<u8>> = Vec::new();
    a.push(tok("-n"));
    a.push(tok("-d"));
    a.push(dir.clone());
    a.push(apk.clone());
    proof {
        assert(a.deep_view() =~~= seq![ascii_seq("-n"@), ascii_seq("-d"@), dir@, apk@]);
    }
    CommandSpec { program: tok("unzip"), args: a, cwd: None }
}

/// The archive splice: `zip <apk> <files...>`, run inside the
/// directory that holds the files to update.
pub fn zip_update_command(apk: &Vec<u8>, workdir: &Vec<u8>, files: &Vec<Vec<u8>>) -> (r:
    CommandSpec)
    ensures
        r.program@ == ascii_seq("zip"@),
        r.args.deep_view() == seq![apk@] + files.deep_view(),
        r.cwd.deep_view() == Some(workdir@),
{
    proof {
        reveal_strlit("zip");
    }
    let mut a: Vec<Vec<u8>> = Vec::new();
    a.push(apk.clone());
    let mut i: usize = 0;
    while i < files.len()
        invariant
            0 <= i <= files@.len(),
            a@.len() == 1 + i,
            a@[0]@ == apk@,
            forall|j: int| 0 <= j < i ==> a@[j + 1]@ == files@[j]@,
        decreases files@.len() - i,
    {
        let x = files[i].clone();
        proof {
            assert(x@ =~= files@[i as int]@);
        }
        a.push(x);
        i += 1;
    }
    proof {
        assert(a.deep_view() =~~= seq![apk@] + files.deep_view());
    }
    CommandSpec { program: tok("zip"), args: a, cwd: Some(workdir.clone()) }
}

/// The plan for signing an output artifact with the debug keystore:
/// the signer invocation, and the signature side-car file to remove
/// afterwards.
#[derive(Debug)]
pub struct SignPlan {
    /// The signer command.
    pub command: CommandSpec,
    /// Path of the side-car signature file the signer may leave
    /// behind; it is deleted if present.
    pub sidecar: Vec<u8>,
}

/// Builds the debug-signing plan for `apk`: run the bundled signer
/// with the debug keystore, then drop the `.idsig` side-car.
pub fn debugsign(apk: &Vec<u8>, signer_jar: &Vec<u8>, keystore: &Vec<u8>) -> (r: SignPlan)
    ensures
        r.command.program@ == ascii_seq("java"@),
        r.command.args.deep_view() == seq![
            ascii_seq("-jar"@),
            signer_jar@,
            ascii_seq("sign"@),
            ascii_seq("--ks"@),
            keystore@,
            ascii_seq("--ks-pass"@),
            ascii_seq("pass:android"@),
            apk@,
        ],
        r.command.cwd is None,
        r.sidecar@ == apk@ + ascii_seq(".idsig"@),
{
    proof {
        reveal_strlit("-jar");
        reveal_strlit("sign");
        reveal_strlit("--ks");
        reveal_strlit("--ks-pass");
        reveal_strlit("pass:android");
        reveal_strlit(".idsig");
    }
    let mut a: Vec<Vec<u8>> = Vec::new();
    a.push(tok("-jar"));
    a.push(signer_jar.clone());
    a.push(tok("sign"));
    a.push(tok("--ks"));
    a.push(keystore.clone());
    a.push(tok("--ks-pass"));
    a.push(tok("pass:android"));
    a.push(apk.clone());
    proof {
        assert(a.deep_view() =~~= seq![
            ascii_seq("-jar"@),
            signer_jar@,
            ascii_seq("sign"@),
            ascii_seq("--ks"@),
            keystore@,
            ascii_seq("--ks-pass"@),
            ascii_seq("pass:android"@),
            apk@,
        ]);
    }
    let ext = tok(".idsig");
    let sidecar = concat_bytes(apk, &ext);
    SignPlan { command: CommandSpec { program: java_bytes(), args: a, cwd: None }, sidecar }
}

} // verus!
