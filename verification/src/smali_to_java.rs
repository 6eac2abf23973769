//! Turning one disassembly listing back into readable source.
//!
//! The decompiler writes its output somewhere under a scratch
//! directory; the library decides whether the request is valid, what
//! the destination file is called, and which produced file to take.

use vstd::prelude::*;
use crate::bytesutil::ascii_seq;
use crate::bytesutil::concat_bytes;
use crate::bytesutil::subrange_bytes;
use crate::bytesutil::tok;
use crate::error::Error;
use crate::paths::file_name;
use crate::paths::file_name_spec;
use crate::paths::has_dot_ext;
use crate::paths::has_dot_ext_bytes;

verus! {

/// The `.smali` extension, with its leading dot.
pub open spec fn smali_dot_ext() -> Seq<u8> {
    ascii_seq(".smali"@)
}

/// Where the produced source file belongs: the listing's own path
/// with its extension swapped.
#[derive(Debug)]
pub struct SmaliToJavaPlan {
    /// The destination file: the input path with `.smali` replaced
    /// by `.java`.
    pub dest: Vec<u8>,
    /// The destination's file name, which identifies the produced
    /// file among the decompiler's output.
    pub dest_name: Vec<u8>,
}

/// The input path with its `.smali` extension replaced by `.java`.
pub open spec fn java_dest_spec(path: Seq<u8>) -> Seq<u8> {
    path.subrange(0, path.len() - smali_dot_ext().len()) + ascii_seq(".java"@)
}

/// Validates a source-reconstruction request.  Fails with
/// `InvalidInput` exactly when the path is not an existing `.smali`
/// file.
pub fn smali_to_java(path: &Vec<u8>, is_file: bool) -> (r: Result<SmaliToJavaPlan, Error>)
    ensures
        !(is_file && has_dot_ext(path@, smali_dot_ext())) ==> r == Err::<SmaliToJavaPlan, Error>(
            Error::InvalidInput,
        ),
        is_file && has_dot_ext(path@, smali_dot_ext()) ==> (r matches Ok(p) && p.dest@
            == java_dest_spec(path@) && p.dest_name@ == file_name_spec(java_dest_spec(path@))),
{
    proof {
        reveal_strlit(".smali");
        reveal_strlit(".java");
    }
    let smali_ext = tok(".smali");
    if !is_file || !has_dot_ext_bytes(path, &smali_ext) {
        return Err(Error::InvalidInput);
    }
    proof {
        crate::bytesutil::lemma_rfind(path@, crate::paths::slash());
        assert(file_name_spec(path@).len() <= path@.len());
    }
    let stem_part = subrange_bytes(path, 0, path.len() - 6);
    let java_ext = tok(".java");
    let dest = concat_bytes(&stem_part, &java_ext);
    let dest_name = file_name(&dest);
    Ok(SmaliToJavaPlan { dest, dest_name })
}

/// Picks the first produced file whose name matches the wanted
/// destination name, walking the decompiler's output in order.
pub fn select_java_file(entries: &Vec<Vec<u8>>, dest_name: &Vec<u8>) -> (r: Option<usize>)
    ensures
        match r {
            Some(i) => i < entries@.len() && file_name_spec(entries@[i as int]@) == dest_name@
                && forall|j: int|
                0 <= j < i ==> file_name_spec(#[trigger] entries@[j]@) != dest_name@,
            None => forall|j: int|
                0 <= j < entries@.len() ==> file_name_spec(#[trigger] entries@[j]@) != dest_name@,
        },
{
    let mut i: usize = 0;
    while i < entries.len()
        invariant
            0 <= i <= entries@.len(),
            forall|j: int| 0 <= j < i ==> file_name_spec(#[trigger] entries@[j]@) != dest_name@,
        decreases entries@.len() - i,
    {
        let name = file_name(&entries[i]);
        if crate::bytesutil::bytes_eq(&name, dest_name) {
            return Some(i);
        }
        i += 1;
    }
    None
}

} // verus!
