//! Checkpoint-input materialization plan: the files of a checkpoint's inner
//! tree and the validation of their relative paths, so that a corrupt tree
//! can never name a location outside the input directory.
use vstd::prelude::*;

use crate::text::{chars_of, concat, concat3, opt_view, split, split_vec, string_of, views};

verus! {

/// Directory name of the materialized input inside the run directory.
pub const CHECKPOINT_INPUT_DIR: &'static str = "checkpoint-input";

/// Per-file byte cap.
pub const CHECKPOINT_INPUT_MAX_FILE_BYTES: u64 = 64 * 1024 * 1024;

/// Total materialized-bytes cap across every file of one checkpoint.
pub const CHECKPOINT_INPUT_MAX_TOTAL_BYTES: u64 = 256 * 1024 * 1024;

/// One file of the checkpoint's inner tree, identified by its blob oid.
#[derive(Debug, Clone)]
pub struct CheckpointInputFile {
    /// Path relative to the inner tree root, with `/` separators.
    pub rel_path: String,
    pub oid: String,
}

/// Validated materialization plan for one checkpoint.
#[derive(Debug, Clone)]
pub struct CheckpointInputSpec {
    pub checkpoint_id: String,
    pub files: Vec<CheckpointInputFile>,
}

/// A path component that could escape or alias the input directory.
pub open spec fn unsafe_component(c: Seq<char>) -> bool {
    c.len() == 0 || c == "."@ || c == ".."@
}

/// Whether every `/`-separated component of `rel` is safe.
pub open spec fn rel_path_is_safe(rel: Seq<char>) -> bool {
    forall|i: int| 0 <= i < split(rel, '/').len() ==> !unsafe_component(#[trigger] split(rel, '/')[i])
}

/// The refusal for a path with an unsafe component.
pub open spec fn unsafe_path_message(rel: Seq<char>) -> Seq<char> {
    "checkpoint input path '"@ + rel + "' contains an unsafe component; refusing"@
}

fn is_unsafe_component(c: &Vec<char>) -> (r: bool)
    ensures
        r == unsafe_component(c@),
{
    proof {
        reveal_strlit(".");
        reveal_strlit("..");
    }
    if c.len() == 0 {
        true
    } else if c.len() == 1 {
        let r = c[0] == '.';
        proof {
            if r {
                assert(c@ =~= "."@);
            }
            assert(c@ != ".."@);
        }
        r
    } else if c.len() == 2 {
        proof {
            if c@ == ".."@ {
                assert(c@[0] == '.' && c@[1] == '.');
            }
        }
        let r = c[0] == '.' && c[1] == '.';
        proof {
            if r {
                assert(c@ =~= ".."@);
            }
            assert(c@ != "."@);
        }
        r
    } else {
        assert(c@ != "."@ && c@ != ".."@);
        false
    }
}

/// The components of a checkpoint-relative path, refusing empty, `.` and
/// `..` components (which also refuses absolute paths and the empty path).
pub fn sanitize_rel_path(rel: &str) -> (r: Result<Vec<String>, String>)
    ensures
        rel_path_is_safe(rel@) <==> r is Ok,
        r matches Ok(parts) ==> crate::text::string_views(parts@) == split(rel@, '/'),
        r matches Err(msg) ==> msg@ == unsafe_path_message(rel@),
{
    let chars = chars_of(rel);
    let pieces = split_vec(&chars, '/');
    let mut out: Vec<String> = Vec::new();
    let mut i: usize = 0;
    while i < pieces.len()
        invariant
            i <= pieces.len(),
            chars@ == rel@,
            views(pieces@) == split(rel@, '/'),
            out@.len() == i,
            forall|k: int| 0 <= k < i ==> (#[trigger] out@[k])@ == pieces@[k]@,
            forall|k: int| 0 <= k < i ==> !unsafe_component(#[trigger] split(rel@, '/')[k]),
        decreases pieces.len() - i,
    {
        assert(split(rel@, '/')[i as int] == pieces@[i as int]@);
        if is_unsafe_component(&pieces[i]) {
            let msg = concat3(
                "checkpoint input path '",
                rel,
                "' contains an unsafe component; refusing",
            );
            return Err(msg);
        }
        let part = string_of(&pieces[i]);
        out.push(part);
        i += 1;
    }
    assert(crate::text::string_views(out@) =~= split(rel@, '/'));
    Ok(out)
}

// ---------------------------------------------------------------------------
// Blob ids and byte caps
// ---------------------------------------------------------------------------
/// The message `git_internal`'s `ObjectHash::from_str` gives for `oid`, none
/// when it parses.
pub uninterp spec fn oid_parse_error(oid: Seq<char>) -> Option<Seq<char>>;

/// An ASCII hexadecimal digit.
pub open spec fn is_hex_digit(c: char) -> bool {
    ('0' <= c && c <= '9') || ('a' <= c && c <= 'f') || ('A' <= c && c <= 'F')
}

/// `git_internal::hash::ObjectHash::from_str(oid)`: none when it parses, else
/// its error text. As its source shows, the text of ASCII characters parses
/// exactly when it has 40 or 64 characters, all hexadecimal digits, and an
/// ASCII text of another length is refused as `Invalid hash length`; the
/// text of other refusals (the hex decoder's) is only named.
#[verifier::external_body]
fn blob_oid_error(oid: &str) -> (r: Option<String>)
    ensures
        opt_view(r) == oid_parse_error(oid@),
        (forall|i: int| 0 <= i < oid@.len() ==> is_hex_digit(#[trigger] oid@[i])) && (oid@.len()
            == 40 || oid@.len() == 64) ==> r is None,
        (forall|i: int| 0 <= i < oid@.len() ==> (#[trigger] oid@[i]) < 128 as char) && oid@.len()
            != 40 && oid@.len() != 64 ==> opt_view(r) == Some("Invalid hash length"@),
{
    match oid.parse::<git_internal::hash::ObjectHash>() {
        Ok(_) => None,
        Err(e) => Some(e),
    }
}

/// The refusal of a file whose blob id does not parse.
pub open spec fn invalid_oid_message(oid: Seq<char>, reason: Seq<char>) -> Seq<char> {
    "invalid blob oid '"@ + oid + "' in checkpoint input spec: "@ + reason
}

/// Checks the blob id of `file` before its blob is read.
pub fn check_blob_oid(file: &CheckpointInputFile) -> (r: Result<(), String>)
    ensures
        match oid_parse_error(file.oid@) {
            None => r is Ok,
            Some(reason) => r matches Err(m) && m@ == invalid_oid_message(file.oid@, reason),
        },
{
    match blob_oid_error(file.oid.as_str()) {
        None => Ok(()),
        Some(reason) => {
            let head = concat3("invalid blob oid '", file.oid.as_str(), "' in checkpoint input spec: ");
            Err(concat(head.as_str(), reason.as_str()))
        },
    }
}

/// `a + b`, or `u64::MAX` when it does not fit.
pub open spec fn saturating_sum(a: u64, b: u64) -> u64 {
    if a + b <= u64::MAX {
        (a + b) as u64
    } else {
        u64::MAX
    }
}

/// What reading one blob gives: its length and whether the read stopped at
/// the per-file cap, or why the object store could not read it.
pub open spec fn blob_admission(
    checkpoint_id: Seq<char>,
    rel_path: Seq<char>,
    oid: Seq<char>,
    read: Result<(u64, bool), Seq<char>>,
    total: u64,
) -> Result<u64, Seq<char>> {
    match read {
        Err(e) => Err(
            "checkpoint blob "@ + oid + " ("@ + rel_path
                + ") is not readable from the local object store: "@ + e,
        ),
        Ok((len, truncated)) => if truncated {
            Err(
                "checkpoint blob "@ + oid + " ("@ + rel_path
                    + ") exceeds the 67108864-byte per-file cap; refusing to materialize"@,
            )
        } else if saturating_sum(total, len) > CHECKPOINT_INPUT_MAX_TOTAL_BYTES {
            Err(
                "checkpoint "@ + checkpoint_id
                    + " materialization exceeds the 268435456-byte total cap; refusing"@,
            )
        } else {
            Ok(saturating_sum(total, len))
        },
    }
}

/// Admits one blob of `spec`'s file `file` whose read gave `read`, with
/// `total` bytes admitted before it: the new total, or the refusal (an
/// unreadable blob, a blob cut at the 64 MiB per-file cap, or a total past
/// the 256 MiB cap).
pub fn admit_blob(
    checkpoint_id: &str,
    file: &CheckpointInputFile,
    read: Result<(u64, bool), String>,
    total: u64,
) -> (r: Result<u64, String>)
    ensures
        match r {
            Ok(t) => blob_admission(checkpoint_id@, file.rel_path@, file.oid@, read_result(read), total)
                == Ok::<u64, Seq<char>>(t),
            Err(m) => blob_admission(checkpoint_id@, file.rel_path@, file.oid@, read_result(read), total)
                == Err::<u64, Seq<char>>(m@),
        },
{
    let head = concat3("checkpoint blob ", file.oid.as_str(), " (");
    let head = concat(head.as_str(), file.rel_path.as_str());
    match read {
        Err(e) => {
            let m = concat3(head.as_str(), ") is not readable from the local object store: ", e.as_str());
            Err(m)
        },
        Ok((len, truncated)) => {
            if truncated {
                Err(concat(head.as_str(), ") exceeds the 67108864-byte per-file cap; refusing to materialize"))
            } else {
                let sum: u64 = total.saturating_add(len);
                if sum > CHECKPOINT_INPUT_MAX_TOTAL_BYTES {
                    Err(
                        concat3(
                            "checkpoint ",
                            checkpoint_id,
                            " materialization exceeds the 268435456-byte total cap; refusing",
                        ),
                    )
                } else {
                    Ok(sum)
                }
            }
        },
    }
}

/// The view of a blob read.
pub open spec fn read_result(read: Result<(u64, bool), String>) -> Result<(u64, bool), Seq<char>> {
    match read {
        Ok(x) => Ok(x),
        Err(e) => Err(e@),
    }
}

} // verus!
