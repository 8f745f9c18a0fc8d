//! Layer application: whiteout classification, the two-pass plan over a
//! tar layer's entries, diff-id validation, and the idempotence of applying
//! plain file layers.

use vstd::prelude::*;
use vstd::string::{StrSliceExecFns, StringExecFns};
use crate::digest::Digest;
use crate::errors::Error;
use crate::hashing::matches_hash;

verus! {

/// A whiteout found in a layer: the opaque marker, or a file whiteout with
/// its full marker name.
#[derive(Debug, Clone)]
pub enum Whiteout {
    WhiteoutOpaque,
    WhiteoutFile(String),
}

impl Whiteout {
    /// The opaque whiteout marker name.
    pub fn opaque() -> (r: &'static str)
        ensures
            r@ == ".wh..wh..opq"@,
    {
        ".wh..wh..opq"
    }

    /// The prefix of a file whiteout name.
    pub fn file() -> (r: &'static str)
        ensures
            r@ == ".wh."@,
    {
        ".wh."
    }
}

/// What a regular file's name means: the opaque marker empties its parent
/// directory, a `.wh.` prefix deletes the named sibling, anything else is a
/// plain file.
pub open spec fn spec_whiteout(name: Seq<char>) -> Option<Whiteout> {
    if name == ".wh..wh..opq"@ {
        Some(Whiteout::WhiteoutOpaque)
    } else if name.len() >= 4 && name.take(4) == ".wh."@ {
        Some(Whiteout::WhiteoutFile(arbitrary()))
    } else {
        None
    }
}

/// Classifies a regular file's name.
pub fn matches_whiteout(name: &str) -> (r: Option<Whiteout>)
    ensures
        match r {
            Some(w) => spec_whiteout(name@) is Some && (w is WhiteoutOpaque <==> name@
                == ".wh..wh..opq"@) && (match w {
                Whiteout::WhiteoutFile(f) => f@ == name@,
                Whiteout::WhiteoutOpaque => true,
            }),
            None => spec_whiteout(name@) is None,
        },
{
    proof {
        reveal_strlit(".wh..wh..opq");
        reveal_strlit(".wh.");
    }
    if crate::text::str_eq(name, ".wh..wh..opq") {
        return Some(Whiteout::WhiteoutOpaque);
    }
    let n = name.unicode_len();
    if n >= 4 {
        let prefix = name.substring_char(0, 4);
        proof {
            assert(name@.take(4) =~= name@.subrange(0, 4));
        }
        if crate::text::str_eq(prefix, ".wh.") {
            return Some(Whiteout::WhiteoutFile(String::from_str(name)));
        }
    }
    proof {
        if name@.len() >= 4 && name@.take(4) == ".wh."@ {
            assert(false);
        }
    }
    None
}

/// One entry of a tar layer, with its path already split into the parent
/// directory and the file name, and a flag for regular files.
pub struct LayerEntry {
    pub parent: String,
    pub name: String,
    pub is_file: bool,
}

/// One deletion to perform before files land: empty a directory, or remove
/// one file, both relative to the layer root.
#[derive(Debug, Clone)]
pub enum WhiteoutAction {
    RemoveDirContents(String),
    RemoveFile(String),
}

/// The file a `.wh.` marker deletes: the marker's sibling without the
/// prefix.
pub open spec fn whiteout_target(parent: Seq<char>, name: Seq<char>) -> Seq<char>
    recommends
        name.len() >= 4,
{
    parent + seq!['/'] + name.skip(4)
}

/// The planned action of one entry, if it is a whiteout.
pub open spec fn spec_entry_action(e: LayerEntry) -> Option<WhiteoutAction> {
    if !e.is_file {
        None
    } else if e.name@ == ".wh..wh..opq"@ {
        Some(WhiteoutAction::RemoveDirContents(arbitrary()))
    } else if e.name@.len() >= 4 && e.name@.take(4) == ".wh."@ {
        Some(WhiteoutAction::RemoveFile(arbitrary()))
    } else {
        None
    }
}

/// Whether a planned action matches an entry: directory contents are
/// removed for the opaque marker's parent; the sibling named without the
/// `.wh.` prefix is removed for a file whiteout.
pub open spec fn action_matches(e: LayerEntry, a: WhiteoutAction) -> bool {
    match a {
        WhiteoutAction::RemoveDirContents(d) => e.is_file && e.name@ == ".wh..wh..opq"@ && d@
            == e.parent@,
        WhiteoutAction::RemoveFile(f) => e.is_file && e.name@.len() >= 4 && e.name@.take(4)
            == ".wh."@ && e.name@ != ".wh..wh..opq"@ && f@ == whiteout_target(e.parent@, e.name@),
    }
}

/// The first pass over a layer: the deletions its whiteout entries ask for,
/// in entry order. Every whiteout entry contributes exactly one action and
/// nothing else contributes any.
pub fn plan_whiteouts(entries: &Vec<LayerEntry>) -> (r: Vec<(usize, WhiteoutAction)>)
    ensures
        forall|j: int|
            0 <= j < r@.len() ==> (#[trigger] r@[j]).0 < entries@.len() && action_matches(
                entries@[r@[j].0 as int],
                r@[j].1,
            ),
        forall|j1: int, j2: int| 0 <= j1 < j2 < r@.len() ==> r@[j1].0 < r@[j2].0,
        forall|i: int|
            0 <= i < entries@.len() && spec_entry_action(#[trigger] entries@[i]) is Some
                ==> exists|j: int| 0 <= j < r@.len() && (#[trigger] r@[j]).0 == i,
{
    let mut out: Vec<(usize, WhiteoutAction)> = Vec::new();
    let mut k: usize = 0;
    while k < entries.len()
        invariant
            k <= entries@.len(),
            forall|j: int|
                0 <= j < out@.len() ==> (#[trigger] out@[j]).0 < k && action_matches(
                    entries@[out@[j].0 as int],
                    out@[j].1,
                ),
            forall|j1: int, j2: int| 0 <= j1 < j2 < out@.len() ==> out@[j1].0 < out@[j2].0,
            forall|i: int|
                0 <= i < k && spec_entry_action(#[trigger] entries@[i]) is Some ==> exists|j: int|
                    0 <= j < out@.len() && (#[trigger] out@[j]).0 == i,
        decreases entries@.len() - k,
    {
        let e = &entries[k];
        let ghost old_out = out@;
        if e.is_file {
            match matches_whiteout(e.name.as_str()) {
                Some(Whiteout::WhiteoutOpaque) => {
                    out.push((k, WhiteoutAction::RemoveDirContents(e.parent.clone())));
                }
                Some(Whiteout::WhiteoutFile(_)) => {
                    let n = e.name.unicode_len();
                    let stripped = e.name.as_str().substring_char(4, n);
                    let mut target = e.parent.clone();
                    target.append("/");
                    target.append(stripped);
                    proof {
                        reveal_strlit("/");
                        assert(e.name@.skip(4) =~= e.name@.subrange(4, e.name@.len() as int));
                        assert(target@ =~= whiteout_target(e.parent@, e.name@));
                    }
                    out.push((k, WhiteoutAction::RemoveFile(target)));
                }
                None => {}
            }
        }
        proof {
            assert forall|i: int|
                0 <= i < k + 1 && spec_entry_action(#[trigger] entries@[i]) is Some implies exists|
                j: int,
            |
                0 <= j < out@.len() && (#[trigger] out@[j]).0 == i by {
                if i == k as int {
                    assert(out@[out@.len() - 1].0 == i);
                } else {
                    let j = choose|j: int|
                        0 <= j < old_out.len() && (#[trigger] old_out[j]).0 == i;
                    assert(out@[j].0 == i);
                }
            }
        }
        k += 1;
    }
    out
}

/// The second pass keeps every entry that is not a whiteout: the indices of
/// the entries to unpack, in order.
pub fn plan_copies(entries: &Vec<LayerEntry>) -> (r: Vec<usize>)
    ensures
        forall|j: int|
            0 <= j < r@.len() ==> (#[trigger] r@[j]) < entries@.len() && spec_entry_action(
                entries@[r@[j] as int],
            ) is None,
        forall|j1: int, j2: int| 0 <= j1 < j2 < r@.len() ==> r@[j1] < r@[j2],
        forall|i: int|
            0 <= i < entries@.len() && spec_entry_action(#[trigger] entries@[i]) is None
                ==> exists|j: int| 0 <= j < r@.len() && (#[trigger] r@[j]) == i,
{
    let mut out: Vec<usize> = Vec::new();
    let mut k: usize = 0;
    while k < entries.len()
        invariant
            k <= entries@.len(),
            forall|j: int|
                0 <= j < out@.len() ==> (#[trigger] out@[j]) < k && spec_entry_action(
                    entries@[out@[j] as int],
                ) is None,
            forall|j1: int, j2: int| 0 <= j1 < j2 < out@.len() ==> out@[j1] < out@[j2],
            forall|i: int|
                0 <= i < k && spec_entry_action(#[trigger] entries@[i]) is None ==> exists|j: int|
                    0 <= j < out@.len() && (#[trigger] out@[j]) == i,
        decreases entries@.len() - k,
    {
        let e = &entries[k];
        let ghost old_out = out@;
        let skip = e.is_file && matches_whiteout(e.name.as_str()).is_some();
        if !skip {
            out.push(k);
        }
        proof {
            assert forall|i: int|
                0 <= i < k + 1 && spec_entry_action(#[trigger] entries@[i]) is None implies exists|
                j: int,
            |
                0 <= j < out@.len() && (#[trigger] out@[j]) == i by {
                if i == k as int {
                    assert(out@[out@.len() - 1] == i);
                } else {
                    let j = choose|j: int| 0 <= j < old_out.len() && (#[trigger] old_out[j]) == i;
                    assert(out@[j] == i);
                }
            }
        }
        k += 1;
    }
    out
}

/// Checks the hash of the decoded tar stream against the expected diff id.
pub fn validate_diff_id(decoded: &[u8], diff_id: &Digest) -> (r: Result<(), Error>)
    ensures
        r is Ok <==> matches_hash(diff_id.algo, diff_id.hash@, decoded@),
        r is Err ==> r.unwrap_err() == Error::LayerInvalidDiffIdError,
{
    if crate::hashing::verify_digest(diff_id, decoded) {
        Ok(())
    } else {
        Err(Error::LayerInvalidDiffIdError)
    }
}

/// A layer unpack target: the root directory everything lands under.
#[derive(Debug, Clone)]
pub struct Image {
    pub root: String,
}

impl Image {
    /// An unpacker rooted at `dest`.
    pub fn init(dest: String) -> (r: Image)
        ensures
            r.root@ == dest@,
    {
        Image { root: dest }
    }
}

/// The model of a directory tree: file paths to file bytes.
pub open spec fn apply_files(
    fs: Map<Seq<char>, Seq<u8>>,
    files: Seq<(Seq<char>, Seq<u8>)>,
) -> Map<Seq<char>, Seq<u8>>
    decreases files.len(),
{
    if files.len() == 0 {
        fs
    } else {
        apply_files(fs, files.drop_last()).insert(files.last().0, files.last().1)
    }
}

/// Layer idempotence for plain file layers: unpacking the same files twice
/// leaves the same tree as unpacking them once, because files overwrite.
/// A layer with an opaque whiteout does not have this property: its second
/// application fails when the emptied directory no longer exists.
pub proof fn lemma_layer_idempotent(fs: Map<Seq<char>, Seq<u8>>, files: Seq<(Seq<char>, Seq<u8>)>)
    ensures
        apply_files(apply_files(fs, files), files) =~= apply_files(fs, files),
{
    let once = apply_files(fs, files);
    let twice = apply_files(once, files);
    lemma_apply_files_frame(fs, files);
    lemma_apply_files_frame(once, files);
    lemma_apply_files_written(once, fs, files);
    assert forall|k: Seq<char>| #![auto] twice.dom().contains(k) <==> once.dom().contains(k) by {
        if !files_contain(files, k) {
            assert(twice.dom().contains(k) <==> once.dom().contains(k));
        }
    }
    assert forall|k: Seq<char>| twice.dom().contains(k) implies #[trigger] twice[k] == once[k] by {
        if !files_contain(files, k) {
            assert(twice[k] == once[k]);
        }
    }
    assert(twice =~= once);
}

/// Applying files only changes the written paths.
proof fn lemma_apply_files_frame(fs: Map<Seq<char>, Seq<u8>>, files: Seq<(Seq<char>, Seq<u8>)>)
    ensures
        forall|k: Seq<char>|
            !files_contain(files, k) ==> (#[trigger] apply_files(fs, files).dom().contains(k)
                <==> fs.dom().contains(k)) && (fs.dom().contains(k) ==> apply_files(fs, files)[k]
                == fs[k]),
    decreases files.len(),
{
    if files.len() > 0 {
        lemma_apply_files_frame(fs, files.drop_last());
        assert forall|k: Seq<char>|
            !files_contain(files, k) implies (#[trigger] apply_files(fs, files).dom().contains(k)
            <==> fs.dom().contains(k)) && (fs.dom().contains(k) ==> apply_files(fs, files)[k]
            == fs[k]) by {
            assert(!files_contain(files.drop_last(), k));
            assert(k != files.last().0);
            assert(apply_files(fs, files) == apply_files(fs, files.drop_last()).insert(
                files.last().0,
                files.last().1,
            ));
            assert((apply_files(fs, files.drop_last()).dom().contains(k) <==> fs.dom().contains(k))
                && (fs.dom().contains(k) ==> apply_files(fs, files.drop_last())[k] == fs[k]));
        }
    }
}

/// A written path ends up present with its last written value, no matter
/// the starting tree.
proof fn lemma_apply_files_written(
    fs1: Map<Seq<char>, Seq<u8>>,
    fs2: Map<Seq<char>, Seq<u8>>,
    files: Seq<(Seq<char>, Seq<u8>)>,
)
    ensures
        forall|k: Seq<char>|
            #![trigger files_contain(files, k)]
            files_contain(files, k) ==> apply_files(fs1, files).dom().contains(k) && apply_files(
                fs2,
                files,
            ).dom().contains(k) && apply_files(fs1, files)[k] == apply_files(fs2, files)[k],
    decreases files.len(),
{
    if files.len() > 0 {
        lemma_apply_files_written(fs1, fs2, files.drop_last());
        assert forall|k: Seq<char>|
            files_contain(files, k) implies apply_files(fs1, files).dom().contains(k)
            && apply_files(fs2, files).dom().contains(k) && apply_files(fs1, files)[k]
            == apply_files(fs2, files)[k] by {
            if k != files.last().0 {
                assert(files_contain(files.drop_last(), k));
            }
        }
    }
}

/// Whether some file entry writes the path.
pub open spec fn files_contain(files: Seq<(Seq<char>, Seq<u8>)>, k: Seq<char>) -> bool
    decreases files.len(),
{
    if files.len() == 0 {
        false
    } else {
        files.last().0 == k || files_contain(files.drop_last(), k)
    }
}

} // verus!
