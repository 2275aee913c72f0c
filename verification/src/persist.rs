//! The world lives in the object's `/tmp` tree while it runs and in its SQLite
//! storage between runs: one row per file, written at checkpoint, read at
//! start. The files are walked and the rows read and written outside the
//! library; which rows a checkpoint writes and removes is decided here.

use vstd::prelude::*;

verus! {

/// The root of the world's tree while it runs.
pub const ROOT: &'static str = "/tmp/world";

/// A file of the world: its path relative to the root, and its contents.
pub struct WorldFile {
    pub path: String,
    pub data: Vec<u8>,
}

/// The rows that a checkpoint writes and removes.
pub struct SavePlan {
    /// The indices, ascending, of the files to write.
    pub write: Vec<usize>,
    /// The indices, ascending, of the stored rows to remove.
    pub remove: Vec<usize>,
}

/// No two of `files` have the same path.
pub open spec fn distinct_paths(files: Seq<WorldFile>) -> bool {
    forall|i: int, j: int|
        0 <= i < files.len() && 0 <= j < files.len() && i != j ==> #[trigger] files[i].path@
            != #[trigger] files[j].path@
}

/// Some file of `files` has `path`.
pub open spec fn has_path(files: Seq<WorldFile>, path: Seq<char>) -> bool {
    exists|j: int| 0 <= j < files.len() && #[trigger] files[j].path@ == path
}

/// Some file of `files` has `path` and holds `data`.
pub open spec fn has_file(files: Seq<WorldFile>, path: Seq<char>, data: Seq<u8>) -> bool {
    exists|j: int| 0 <= j < files.len() && #[trigger] files[j].path@ == path && files[j].data@ == data
}

/// The file `files[i]` is written unless a stored row has its path and its
/// contents.
pub open spec fn should_write(stored: Seq<WorldFile>, files: Seq<WorldFile>, i: int) -> bool {
    !has_file(stored, files[i].path@, files[i].data@)
}

/// The stored row `stored[j]` is removed when no file has its path.
pub open spec fn should_remove(stored: Seq<WorldFile>, files: Seq<WorldFile>, j: int) -> bool {
    !has_path(files, stored[j].path@)
}

/// `indices` lists, ascending, exactly the indices below `n` for which
/// `keep` holds.
pub open spec fn lists_exactly(indices: Seq<usize>, n: nat, keep: spec_fn(int) -> bool) -> bool {
    &&& forall|a: int, b: int| 0 <= a < b < indices.len() ==> indices[a] < indices[b]
    &&& forall|a: int| 0 <= a < indices.len() ==> indices[a] < n && keep(indices[a] as int)
    &&& forall|i: int| 0 <= i < n && #[trigger] keep(i) ==> indices.contains(i as usize)
}

/// Whether no two of `files` have the same path, as holds of the rows of
/// the storage table, keyed by path, and of the files of a tree.
pub fn has_distinct_paths(files: &Vec<WorldFile>) -> (distinct: bool)
    ensures
        distinct == distinct_paths(files@),
{
    let mut i: usize = 0;
    while i < files.len()
        invariant
            i <= files@.len(),
            forall|a: int, b: int|
                0 <= a < i && 0 <= b < files@.len() && a != b ==> #[trigger] files@[a].path@
                    != #[trigger] files@[b].path@,
        decreases files@.len() - i,
    {
        let mut j: usize = 0;
        while j < files.len()
            invariant
                i < files@.len(),
                j <= files@.len(),
                forall|a: int, b: int|
                    0 <= a < i && 0 <= b < files@.len() && a != b ==> #[trigger] files@[a].path@
                        != #[trigger] files@[b].path@,
                forall|b: int| 0 <= b < j && b != i ==> files@[i as int].path@ != #[trigger] files@[b].path@,
            decreases files@.len() - j,
        {
            if j != i && files[i].path == files[j].path {
                return false;
            }
            j = j + 1;
        }
        i = i + 1;
    }
    true
}

/// Whether two byte strings are equal.
fn same_bytes(a: &[u8], b: &[u8]) -> (same: bool)
    ensures
        same == (a@ == b@),
{
    if a.len() != b.len() {
        return false;
    }
    let mut i: usize = 0;
    while i < a.len()
        invariant
            a@.len() == b@.len(),
            i <= a@.len(),
            forall|k: int| 0 <= k < i ==> a@[k] == b@[k],
        decreases a@.len() - i,
    {
        if a[i] != b[i] {
            return false;
        }
        i = i + 1;
    }
    assert(a@ =~= b@);
    true
}

/// Whether some stored row has `path` and, if so, whether it holds `data`.
fn find(stored: &Vec<WorldFile>, path: &String, data: &[u8]) -> (found: (bool, bool))
    ensures
        found.0 == has_path(stored@, path@),
        found.1 == has_file(stored@, path@, data@),
{
    let mut i: usize = 0;
    let mut present = false;
    let mut same = false;
    while i < stored.len()
        invariant
            i <= stored@.len(),
            present == exists|j: int| 0 <= j < i && #[trigger] stored@[j].path@ == path@,
            same == exists|j: int|
                0 <= j < i && #[trigger] stored@[j].path@ == path@ && stored@[j].data@ == data@,
        decreases stored@.len() - i,
    {
        let entry = &stored[i];
        if entry.path == *path {
            present = true;
            if same_bytes(entry.data.as_slice(), data) {
                same = true;
            }
        }
        i = i + 1;
    }
    (present, same)
}

/// The rows that a checkpoint writes and removes, given the stored rows and
/// the files now under the root: a file is written unless a stored row has
/// its path and its contents; a stored row is removed when no file has its
/// path any more. Files are written in the order given.
pub fn plan_save(stored: &Vec<WorldFile>, files: &Vec<WorldFile>) -> (plan: SavePlan)
    requires
        distinct_paths(stored@),
        distinct_paths(files@),
    ensures
        lists_exactly(plan.write@, files@.len(), |i: int| should_write(stored@, files@, i)),
        lists_exactly(plan.remove@, stored@.len(), |j: int| should_remove(stored@, files@, j)),
{
    let mut write: Vec<usize> = Vec::new();
    let mut i: usize = 0;
    while i < files.len()
        invariant
            i <= files@.len(),
            forall|a: int, b: int| 0 <= a < b < write@.len() ==> write@[a] < write@[b],
            forall|a: int| 0 <= a < write@.len() ==> write@[a] < i && should_write(stored@, files@, write@[a] as int),
            forall|k: int| 0 <= k < i && #[trigger] should_write(stored@, files@, k) ==> write@.contains(k as usize),
        decreases files@.len() - i,
    {
        let file = &files[i];
        let (_, same) = find(stored, &file.path, file.data.as_slice());
        let ghost prev = write@;
        if !same {
            write.push(i);
        }
        proof {
            assert forall|k: int| 0 <= k < i + 1 && #[trigger] should_write(stored@, files@, k) implies write@.contains(
                k as usize,
            ) by {
                if k == i {
                    assert(write@[write@.len() - 1] == i);
                } else {
                    let a = choose|a: int| 0 <= a < prev.len() && prev[a] == k as usize;
                    assert(write@[a] == k as usize);
                }
            }
        }
        i = i + 1;
    }
    let mut remove: Vec<usize> = Vec::new();
    let mut j: usize = 0;
    while j < stored.len()
        invariant
            j <= stored@.len(),
            forall|a: int, b: int| 0 <= a < b < remove@.len() ==> remove@[a] < remove@[b],
            forall|a: int|
                0 <= a < remove@.len() ==> remove@[a] < j && should_remove(stored@, files@, remove@[a] as int),
            forall|k: int| 0 <= k < j && #[trigger] should_remove(stored@, files@, k) ==> remove@.contains(k as usize),
        decreases stored@.len() - j,
    {
        let (present, _) = find(files, &stored[j].path, stored[j].data.as_slice());
        let ghost prev = remove@;
        if !present {
            remove.push(j);
        }
        proof {
            assert forall|k: int| 0 <= k < j + 1 && #[trigger] should_remove(stored@, files@, k) implies remove@.contains(
                k as usize,
            ) by {
                if k == j {
                    assert(remove@[remove@.len() - 1] == j);
                } else {
                    let a = choose|a: int| 0 <= a < prev.len() && prev[a] == k as usize;
                    assert(remove@[a] == k as usize);
                }
            }
        }
        j = j + 1;
    }
    SavePlan { write, remove }
}

/// The contents of the file with path `path` among `files`, if there is one.
pub open spec fn contents_at(files: Seq<WorldFile>, path: Seq<char>) -> Option<Seq<u8>> {
    if has_path(files, path) {
        Some(files[choose|j: int| 0 <= j < files.len() && #[trigger] files[j].path@ == path].data@)
    } else {
        None
    }
}

/// The contents that the row for `path` holds once the files at `write` are
/// written over the stored rows and the rows at `remove` are removed.
pub open spec fn row_after(
    stored: Seq<WorldFile>,
    files: Seq<WorldFile>,
    write: Seq<usize>,
    remove: Seq<usize>,
    path: Seq<char>,
) -> Option<Seq<u8>> {
    if exists|a: int| 0 <= a < write.len() && #[trigger] files[write[a] as int].path@ == path {
        let a = choose|a: int| 0 <= a < write.len() && #[trigger] files[write[a] as int].path@ == path;
        Some(files[write[a] as int].data@)
    } else if exists|j: int|
        0 <= j < stored.len() && #[trigger] stored[j].path@ == path && !remove.contains(j as usize) {
        let j = choose|j: int|
            0 <= j < stored.len() && #[trigger] stored[j].path@ == path && !remove.contains(
                j as usize,
            );
        Some(stored[j].data@)
    } else {
        None
    }
}

/// A checkpoint leaves the storage holding exactly the world's files: once a
/// plan is carried out, the row for each path holds what the file with that
/// path holds, and there is no row for a path that no file has.
pub proof fn lemma_checkpoint_mirrors_files(
    stored: Seq<WorldFile>,
    files: Seq<WorldFile>,
    write: Seq<usize>,
    remove: Seq<usize>,
    path: Seq<char>,
)
    requires
        stored.len() <= usize::MAX,
        files.len() <= usize::MAX,
        distinct_paths(stored),
        distinct_paths(files),
        lists_exactly(write, files.len(), |i: int| should_write(stored, files, i)),
        lists_exactly(remove, stored.len(), |j: int| should_remove(stored, files, j)),
    ensures
        row_after(stored, files, write, remove, path) == contents_at(files, path),
{
    let keep_write = |i: int| should_write(stored, files, i);
    let keep_remove = |j: int| should_remove(stored, files, j);
    if has_path(files, path) {
        let i = choose|j: int| 0 <= j < files.len() && #[trigger] files[j].path@ == path;
        if should_write(stored, files, i) {
            assert(keep_write(i));
            assert(write.contains(i as usize));
            let w = choose|a: int| 0 <= a < write.len() && write[a] == i as usize;
            assert(files[write[w] as int].path@ == path);
            let a = choose|a: int| 0 <= a < write.len() && #[trigger] files[write[a] as int].path@ == path;
            assert(write[a] == i as usize);
        } else {
            let j = choose|j: int|
                0 <= j < stored.len() && #[trigger] stored[j].path@ == files[i].path@
                    && stored[j].data@ == files[i].data@;
            assert(!(exists|a: int| 0 <= a < write.len() && #[trigger] files[write[a] as int].path@ == path)) by {
                if exists|a: int| 0 <= a < write.len() && #[trigger] files[write[a] as int].path@ == path {
                    let a = choose|a: int| 0 <= a < write.len() && #[trigger] files[write[a] as int].path@ == path;
                    assert(keep_write(write[a] as int));
                    assert(write[a] as int == i);
                }
            }
            assert(!remove.contains(j as usize)) by {
                if remove.contains(j as usize) {
                    let r = choose|r: int| 0 <= r < remove.len() && remove[r] == j as usize;
                    assert(keep_remove(remove[r] as int));
                    assert(files[i].path@ == stored[j].path@);
                }
            }
            assert(stored[j].path@ == path && !remove.contains(j as usize));
            let k = choose|k: int|
                0 <= k < stored.len() && #[trigger] stored[k].path@ == path && !remove.contains(
                    k as usize,
                );
            assert(k == j);
        }
    } else {
        assert(!(exists|a: int| 0 <= a < write.len() && #[trigger] files[write[a] as int].path@ == path)) by {
            if exists|a: int| 0 <= a < write.len() && #[trigger] files[write[a] as int].path@ == path {
                let a = choose|a: int| 0 <= a < write.len() && #[trigger] files[write[a] as int].path@ == path;
                assert(has_path(files, path));
            }
        }
        assert(!(exists|j: int|
            0 <= j < stored.len() && #[trigger] stored[j].path@ == path && !remove.contains(j as usize))) by {
            if exists|j: int|
                0 <= j < stored.len() && #[trigger] stored[j].path@ == path && !remove.contains(j as usize) {
                let j = choose|j: int|
                    0 <= j < stored.len() && #[trigger] stored[j].path@ == path && !remove.contains(
                        j as usize,
                    );
                assert(keep_remove(j));
            }
        }
    }
}

/// A save right after a save changes nothing: when the stored rows already
/// hold exactly the world's files, no file is written and no row removed.
pub proof fn lemma_save_after_save(
    stored: Seq<WorldFile>,
    files: Seq<WorldFile>,
    write: Seq<usize>,
    remove: Seq<usize>,
)
    requires
        distinct_paths(stored),
        distinct_paths(files),
        forall|path: Seq<char>| contents_at(stored, path) == contents_at(files, path),
        lists_exactly(write, files.len(), |i: int| should_write(stored, files, i)),
        lists_exactly(remove, stored.len(), |j: int| should_remove(stored, files, j)),
    ensures
        write.len() == 0,
        remove.len() == 0,
{
    let keep_write = |i: int| should_write(stored, files, i);
    let keep_remove = |j: int| should_remove(stored, files, j);
    if write.len() > 0 {
        let i = write[0] as int;
        assert(keep_write(i));
        let path = files[i].path@;
        assert(has_path(files, path));
        let k = choose|j: int| 0 <= j < files.len() && #[trigger] files[j].path@ == path;
        assert(k == i);
        assert(contents_at(stored, path) == contents_at(files, path));
        assert(has_path(stored, path));
        let j = choose|j: int| 0 <= j < stored.len() && #[trigger] stored[j].path@ == path;
        assert(has_file(stored, path, files[i].data@));
    }
    if remove.len() > 0 {
        let j = remove[0] as int;
        assert(keep_remove(j));
        let path = stored[j].path@;
        assert(has_path(stored, path));
        assert(contents_at(stored, path) == contents_at(files, path));
    }
}

} // verus!
