//! The file list that the auxiliary window displays.
//!
//! Everything here is pure bookkeeping on plain values: deduplicated
//! insertion, lookup by identifier, renaming, and the selection of drag
//! payloads.  The embedding application queries the file system (does a
//! path exist, how large is it, is it a directory) and hands the answers
//! in; it also owns the lock around the store when several threads share
//! it.

use vstd::prelude::*;

verus! {

/// A displayed file, as the richer command set records it.
#[derive(Clone, Debug)]
pub struct FileMetadata {
    pub id: u64,
    pub name: String,
    pub path: String,
    pub size: u64,
    pub file_type: String,
}

/// Whether `c` separates path components.
pub open spec fn spec_is_separator(c: char) -> bool {
    c == '/' || c == '\\'
}

/// Index at which the final path component starts: one past the last
/// separator, or zero when there is none.
pub open spec fn spec_base_start(s: Seq<char>) -> int
    decreases s.len(),
{
    if s.len() == 0 {
        0
    } else if spec_is_separator(s.last()) {
        s.len() as int
    } else {
        spec_base_start(s.drop_last())
    }
}

/// Index of the last `'.'` in `s`, or `-1` when there is none.
pub open spec fn spec_last_dot(s: Seq<char>) -> int
    decreases s.len(),
{
    if s.len() == 0 {
        -1
    } else if s.last() == '.' {
        s.len() - 1
    } else {
        spec_last_dot(s.drop_last())
    }
}

/// The final component of a path: everything after the last `'/'` or
/// `'\\'`, or the whole path when it has no separator.
pub fn base_name(path: &str) -> (r: String)
    ensures
        r@ == path@.subrange(spec_base_start(path@), path@.len() as int),
        0 <= spec_base_start(path@) <= path@.len(),
{
    let n = path.unicode_len();
    let mut cut: usize = 0;
    let mut i: usize = 0;
    proof {
        assert(path@.take(0int) =~= Seq::<char>::empty());
    }
    while i < n
        invariant
            i <= n,
            n == path@.len(),
            cut <= i,
            cut == spec_base_start(path@.take(i as int)),
        decreases n - i,
    {
        let c = path.get_char(i);
        proof {
            assert(path@.take(i + 1).last() == path@[i as int]);
            assert(path@.take(i + 1).drop_last() =~= path@.take(i as int));
        }
        if c == '/' || c == '\\' {
            cut = i + 1;
        }
        i = i + 1;
    }
    proof {
        assert(path@.take(n as int) =~= path@);
    }
    let tail = path.substring_char(cut, n);
    tail.to_owned()
}

/// The extension of a file name: everything after the last `'.'`, provided
/// that dot is neither absent nor the leading character.  A leading dot
/// alone (a hidden file) yields no extension.
pub fn extension(name: &str) -> (r: Option<String>)
    ensures
        spec_last_dot(name@) >= 1 ==> (r matches Some(e) && e@ == name@.subrange(
            spec_last_dot(name@) + 1,
            name@.len() as int,
        )),
        spec_last_dot(name@) < 1 ==> r is None,
        spec_last_dot(name@) < name@.len(),
{
    let n = name.unicode_len();
    let mut dot: usize = 0;
    let mut found = false;
    let mut i: usize = 0;
    proof {
        assert(name@.take(0int) =~= Seq::<char>::empty());
    }
    while i < n
        invariant
            i <= n,
            n == name@.len(),
            found ==> dot < i && dot == spec_last_dot(name@.take(i as int)),
            !found ==> spec_last_dot(name@.take(i as int)) == -1,
        decreases n - i,
    {
        let c = name.get_char(i);
        proof {
            assert(name@.take(i + 1).last() == name@[i as int]);
            assert(name@.take(i + 1).drop_last() =~= name@.take(i as int));
        }
        if c == '.' {
            dot = i;
            found = true;
        }
        i = i + 1;
    }
    proof {
        assert(name@.take(n as int) =~= name@);
    }
    if found && dot >= 1 {
        let tail = name.substring_char(dot + 1, n);
        Some(tail.to_owned())
    } else {
        None
    }
}

/// Builds the record for one file from what the embedding application
/// read off the file system: the display name is the path's final
/// component, and the type tag is `"folder"` for a directory, the name's
/// extension otherwise, or `"unknown"` without one.
pub fn make_metadata(id: u64, path: &str, size: u64, is_directory: bool) -> (meta: FileMetadata)
    ensures
        meta.id == id,
        meta.size == size,
        meta.path@ == path@,
        meta.name@ == path@.subrange(spec_base_start(path@), path@.len() as int),
        is_directory ==> meta.file_type@ == "folder"@,
        !is_directory && spec_last_dot(meta.name@) >= 1 ==> meta.file_type@ == meta.name@.subrange(
            spec_last_dot(meta.name@) + 1,
            meta.name@.len() as int,
        ),
        !is_directory && spec_last_dot(meta.name@) < 1 ==> meta.file_type@ == "unknown"@,
{
    let name = base_name(path);
    let file_type = if is_directory {
        "folder".to_owned()
    } else {
        match extension(name.as_str()) {
            Some(ext) => ext,
            None => "unknown".to_owned(),
        }
    };
    FileMetadata { id, name, path: path.to_owned(), size, file_type }
}

/// Whether some entry already records this path.
pub open spec fn spec_contains_path(files: Seq<FileMetadata>, path: Seq<char>) -> bool {
    exists|i: int| 0 <= i < files.len() && files[i].path@ == path
}

/// Index of the first entry with this identifier, or `-1` when there is
/// none.
pub open spec fn spec_find_id(files: Seq<FileMetadata>, id: u64) -> int
    decreases files.len(),
{
    if files.len() == 0 {
        -1
    } else if files.first().id == id {
        0
    } else {
        let rest = spec_find_id(files.drop_first(), id);
        if rest < 0 {
            -1
        } else {
            rest + 1
        }
    }
}

/// What `spec_find_id` finds: the first index with the identifier, if any.
pub proof fn lemma_find_id(files: Seq<FileMetadata>, id: u64)
    ensures
        spec_find_id(files, id) < 0 ==> forall|j: int|
            0 <= j < files.len() ==> files[j].id != id,
        spec_find_id(files, id) >= 0 ==> 0 <= spec_find_id(files, id) < files.len()
            && files[spec_find_id(files, id)].id == id && forall|j: int|
            0 <= j < spec_find_id(files, id) ==> files[j].id != id,
    decreases files.len(),
{
    if files.len() > 0 && files.first().id != id {
        let rest = files.drop_first();
        lemma_find_id(rest, id);
        assert(forall|j: int| 0 <= j < rest.len() ==> rest[j] == files[j + 1]);
        let r = spec_find_id(rest, id);
        if r < 0 {
            assert forall|j: int| 0 <= j < files.len() implies files[j].id != id by {
                if j > 0 {
                    assert(files[j] == rest[j - 1]);
                }
            }
        } else {
            assert(files[r + 1] == rest[r]);
            assert forall|j: int| 0 <= j < r + 1 implies files[j].id != id by {
                if j > 0 {
                    assert(files[j] == rest[j - 1]);
                }
            }
        }
    }
}

/// Appends the file unless an entry with the same path is already listed;
/// reports whether it was appended.
pub fn add_metadata(list: &mut Vec<FileMetadata>, file: FileMetadata) -> (added: bool)
    ensures
        added == !spec_contains_path(old(list)@, file.path@),
        added ==> final(list)@ == old(list)@.push(file),
        !added ==> final(list)@ == old(list)@,
{
    let n = list.len();
    let mut i: usize = 0;
    while i < n
        invariant
            i <= n,
            n == list@.len(),
            forall|j: int| 0 <= j < i ==> list@[j].path@ != file.path@,
        decreases n - i,
    {
        if list[i].path == file.path {
            return false;
        }
        i = i + 1;
    }
    list.push(file);
    true
}

/// Removes the first entry with this identifier; reports whether one was
/// there.
pub fn remove_metadata(list: &mut Vec<FileMetadata>, id: u64) -> (removed: bool)
    ensures
        removed == (spec_find_id(old(list)@, id) >= 0),
        removed ==> final(list)@ == old(list)@.remove(spec_find_id(old(list)@, id)),
        !removed ==> final(list)@ == old(list)@,
{
    proof {
        lemma_find_id(old(list)@, id);
    }
    let n = list.len();
    let mut i: usize = 0;
    while i < n
        invariant
            i <= n,
            n == list@.len(),
            list@ == old(list)@,
            forall|j: int| 0 <= j < i ==> list@[j].id != id,
        decreases n - i,
    {
        if list[i].id == id {
            proof {
                lemma_find_id(old(list)@, id);
                assert(old(list)@[i as int].id == id);
                assert(spec_find_id(old(list)@, id) == i as int);
            }
            list.remove(i);
            return true;
        }
        i = i + 1;
    }
    false
}

/// Gives the first entry with this identifier the new name; reports
/// whether one was there.
pub fn rename_metadata(list: &mut Vec<FileMetadata>, id: u64, new_name: String) -> (renamed: bool)
    ensures
        renamed == (spec_find_id(old(list)@, id) >= 0),
        renamed ==> final(list)@ == old(list)@.update(
            spec_find_id(old(list)@, id),
            (FileMetadata {
                id,
                name: new_name,
                path: old(list)@[spec_find_id(old(list)@, id)].path,
                size: old(list)@[spec_find_id(old(list)@, id)].size,
                file_type: old(list)@[spec_find_id(old(list)@, id)].file_type,
            }),
        ),
        !renamed ==> final(list)@ == old(list)@,
{
    proof {
        lemma_find_id(old(list)@, id);
    }
    let n = list.len();
    let mut i: usize = 0;
    while i < n
        invariant
            i <= n,
            n == list@.len(),
            list@ == old(list)@,
            forall|j: int| 0 <= j < i ==> list@[j].id != id,
        decreases n - i,
    {
        if list[i].id == id {
            proof {
                lemma_find_id(old(list)@, id);
                assert(old(list)@[i as int].id == id);
                assert(spec_find_id(old(list)@, id) == i as int);
            }
            let path = list[i].path.clone();
            let size = list[i].size;
            let file_type = list[i].file_type.clone();
            list[i] = FileMetadata { id, name: new_name, path, size, file_type };
            return true;
        }
        i = i + 1;
    }
    false
}

/// Whether two pieces of text hold the same characters.
fn str_eq(a: &str, b: &str) -> (r: bool)
    ensures
        r == (a@ == b@),
{
    let n = a.unicode_len();
    if b.unicode_len() != n {
        return false;
    }
    let mut i: usize = 0;
    while i < n
        invariant
            i <= n,
            n == a@.len(),
            n == b@.len(),
            forall|j: int| 0 <= j < i ==> a@[j] == b@[j],
        decreases n - i,
    {
        if a.get_char(i) != b.get_char(i) {
            return false;
        }
        i = i + 1;
    }
    proof {
        assert(a@ =~= b@);
    }
    true
}

/// Index of the first entry with this path, or `-1` when there is none.
pub open spec fn spec_find_path(files: Seq<FileMetadata>, path: Seq<char>) -> int
    decreases files.len(),
{
    if files.len() == 0 {
        -1
    } else if files.first().path@ == path {
        0
    } else {
        let rest = spec_find_path(files.drop_first(), path);
        if rest < 0 {
            -1
        } else {
            rest + 1
        }
    }
}

/// What `spec_find_path` finds: the first index with the path, if any.
pub proof fn lemma_find_path(files: Seq<FileMetadata>, path: Seq<char>)
    ensures
        spec_find_path(files, path) < 0 ==> forall|j: int|
            0 <= j < files.len() ==> files[j].path@ != path,
        spec_find_path(files, path) >= 0 ==> 0 <= spec_find_path(files, path) < files.len()
            && files[spec_find_path(files, path)].path@ == path && forall|j: int|
            0 <= j < spec_find_path(files, path) ==> files[j].path@ != path,
    decreases files.len(),
{
    if files.len() > 0 && files.first().path@ != path {
        let rest = files.drop_first();
        lemma_find_path(rest, path);
        assert(forall|j: int| 0 <= j < rest.len() ==> rest[j] == files[j + 1]);
        let r = spec_find_path(rest, path);
        if r < 0 {
            assert forall|j: int| 0 <= j < files.len() implies files[j].path@ != path by {
                if j > 0 {
                    assert(files[j] == rest[j - 1]);
                }
            }
        } else {
            assert(files[r + 1] == rest[r]);
            assert forall|j: int| 0 <= j < r + 1 implies files[j].path@ != path by {
                if j > 0 {
                    assert(files[j] == rest[j - 1]);
                }
            }
        }
    }
}

/// Removes the first entry recorded under this path — the pruning done
/// when a listed file turns out to no longer exist; reports whether one
/// was there.
pub fn remove_metadata_by_path(list: &mut Vec<FileMetadata>, path: &str) -> (removed: bool)
    ensures
        removed == (spec_find_path(old(list)@, path@) >= 0),
        removed ==> final(list)@ == old(list)@.remove(spec_find_path(old(list)@, path@)),
        !removed ==> final(list)@ == old(list)@,
{
    proof {
        lemma_find_path(old(list)@, path@);
    }
    let n = list.len();
    let mut i: usize = 0;
    while i < n
        invariant
            i <= n,
            n == list@.len(),
            list@ == old(list)@,
            forall|j: int| 0 <= j < i ==> list@[j].path@ != path@,
        decreases n - i,
    {
        if str_eq(list[i].path.as_str(), path) {
            proof {
                lemma_find_path(old(list)@, path@);
                assert(old(list)@[i as int].path@ == path@);
                assert(spec_find_path(old(list)@, path@) == i as int);
            }
            list.remove(i);
            return true;
        }
        i = i + 1;
    }
    false
}

/// Empties the list, as the clear command does.
pub fn clear_metadata(list: &mut Vec<FileMetadata>)
    ensures
        final(list)@.len() == 0,
{
    list.clear();
}

/// The entries marked for keeping, in order: entry `j` stays exactly when
/// `keep[j]` is true.
pub open spec fn spec_kept(files: Seq<FileMetadata>, keep: Seq<bool>) -> Seq<FileMetadata>
    decreases files.len(),
{
    if files.len() == 0 {
        Seq::empty()
    } else if keep.len() < files.len() {
        Seq::empty()
    } else if keep[files.len() - 1] {
        spec_kept(files.drop_last(), keep).push(files.last())
    } else {
        spec_kept(files.drop_last(), keep)
    }
}

/// Keeps exactly the entries whose flag is true — the embedding
/// application sets entry `j`'s flag to whether its path still exists —
/// and reports whether anything was dropped.
pub fn retain_existing(list: &mut Vec<FileMetadata>, keep: &Vec<bool>) -> (changed: bool)
    requires
        keep@.len() == old(list)@.len(),
    ensures
        final(list)@ == spec_kept(old(list)@, keep@),
        changed == (final(list)@.len() != old(list)@.len()),
{
    let n = list.len();
    let mut result: Vec<FileMetadata> = Vec::new();
    let mut i: usize = 0;
    proof {
        assert(old(list)@.take(0int) =~= Seq::<FileMetadata>::empty());
    }
    while i < n
        invariant
            i <= n,
            n == list@.len(),
            list@ == old(list)@,
            keep@.len() == n,
            result@ == spec_kept(list@.take(i as int), keep@),
            result@.len() <= i,
        decreases n - i,
    {
        proof {
            assert(list@.take(i + 1).last() == list@[i as int]);
            assert(list@.take(i + 1).drop_last() =~= list@.take(i as int));
        }
        if keep[i] {
            let path = list[i].path.clone();
            let name = list[i].name.clone();
            let file_type = list[i].file_type.clone();
            let id = list[i].id;
            let size = list[i].size;
            result.push(FileMetadata { id, name, path, size, file_type });
            proof {
                assert(result@.last() == list@[i as int]);
            }
        }
        i = i + 1;
    }
    proof {
        assert(list@.take(n as int) =~= list@);
    }
    let changed = result.len() != n;
    *list = result;
    changed
}

/// A displayed file, as the drop listener records it.
#[derive(Clone, Debug)]
pub struct FileInfo {
    pub id: u64,
    pub path: String,
    pub name: String,
    pub size: u64,
    pub is_directory: bool,
}

impl FileInfo {
    /// A field-by-field copy, equal to the value it was taken from.
    pub fn duplicate(&self) -> (r: FileInfo)
        ensures
            r == *self,
    {
        FileInfo {
            id: self.id,
            path: self.path.clone(),
            name: self.name.clone(),
            size: self.size,
            is_directory: self.is_directory,
        }
    }
}

/// Whether some entry already records this path.
pub open spec fn spec_store_contains_path(files: Seq<FileInfo>, path: Seq<char>) -> bool {
    exists|i: int| 0 <= i < files.len() && files[i].path@ == path
}

/// Index of the first entry with this identifier, or `-1` when there is
/// none.
pub open spec fn spec_store_find_id(files: Seq<FileInfo>, id: u64) -> int
    decreases files.len(),
{
    if files.len() == 0 {
        -1
    } else if files.first().id == id {
        0
    } else {
        let rest = spec_store_find_id(files.drop_first(), id);
        if rest < 0 {
            -1
        } else {
            rest + 1
        }
    }
}

/// What `spec_store_find_id` finds: the first index with the identifier,
/// if any.
pub proof fn lemma_store_find_id(files: Seq<FileInfo>, id: u64)
    ensures
        spec_store_find_id(files, id) < 0 ==> forall|j: int|
            0 <= j < files.len() ==> files[j].id != id,
        spec_store_find_id(files, id) >= 0 ==> 0 <= spec_store_find_id(files, id) < files.len()
            && files[spec_store_find_id(files, id)].id == id && forall|j: int|
            0 <= j < spec_store_find_id(files, id) ==> files[j].id != id,
    decreases files.len(),
{
    if files.len() > 0 && files.first().id != id {
        let rest = files.drop_first();
        lemma_store_find_id(rest, id);
        assert(forall|j: int| 0 <= j < rest.len() ==> rest[j] == files[j + 1]);
        let r = spec_store_find_id(rest, id);
        if r < 0 {
            assert forall|j: int| 0 <= j < files.len() implies files[j].id != id by {
                if j > 0 {
                    assert(files[j] == rest[j - 1]);
                }
            }
        } else {
            assert(files[r + 1] == rest[r]);
            assert forall|j: int| 0 <= j < r + 1 implies files[j].id != id by {
                if j > 0 {
                    assert(files[j] == rest[j - 1]);
                }
            }
        }
    }
}

/// The entries that do not carry this identifier, in order.
pub open spec fn spec_without_id(files: Seq<FileInfo>, id: u64) -> Seq<FileInfo>
    decreases files.len(),
{
    if files.len() == 0 {
        Seq::empty()
    } else if files.last().id == id {
        spec_without_id(files.drop_last(), id)
    } else {
        spec_without_id(files.drop_last(), id).push(files.last())
    }
}

/// The paths of the entries whose identifier is listed in `ids`, in store
/// order.
pub open spec fn spec_selected_paths(files: Seq<FileInfo>, ids: Seq<u64>) -> Seq<String>
    decreases files.len(),
{
    if files.len() == 0 {
        Seq::empty()
    } else if ids.contains(files.last().id) {
        spec_selected_paths(files.drop_last(), ids).push(files.last().path)
    } else {
        spec_selected_paths(files.drop_last(), ids)
    }
}

/// Whether `ids` lists this identifier.
fn ids_contain(ids: &Vec<u64>, id: u64) -> (r: bool)
    ensures
        r == ids@.contains(id),
{
    let n = ids.len();
    let mut i: usize = 0;
    while i < n
        invariant
            i <= n,
            n == ids@.len(),
            forall|j: int| 0 <= j < i ==> ids@[j] != id,
        decreases n - i,
    {
        if ids[i] == id {
            return true;
        }
        i = i + 1;
    }
    false
}

/// The shared store of dropped files.  The embedding application wraps it
/// in its lock; all operations here are single-threaded bookkeeping.
#[derive(Debug)]
pub struct FileStore {
    pub files: Vec<FileInfo>,
}

impl FileStore {
    /// An empty store.
    pub fn new() -> (s: FileStore)
        ensures
            s.files@.len() == 0,
    {
        FileStore { files: Vec::new() }
    }

    /// Appends the file unless an entry with the same path is already
    /// listed; reports whether it was appended.
    pub fn add_file(&mut self, file: FileInfo) -> (added: bool)
        ensures
            added == !spec_store_contains_path(old(self).files@, file.path@),
            added ==> final(self).files@ == old(self).files@.push(file),
            !added ==> final(self).files@ == old(self).files@,
    {
        let n = self.files.len();
        let mut i: usize = 0;
        while i < n
            invariant
                i <= n,
                n == self.files@.len(),
                self.files@ == old(self).files@,
                forall|j: int| 0 <= j < i ==> self.files@[j].path@ != file.path@,
            decreases n - i,
        {
            if self.files[i].path == file.path {
                return false;
            }
            i = i + 1;
        }
        self.files.push(file);
        true
    }

    /// A copy of the whole list, in order.
    pub fn get_stored_files(&self) -> (r: Vec<FileInfo>)
        ensures
            r@ == self.files@,
    {
        let n = self.files.len();
        let mut r: Vec<FileInfo> = Vec::new();
        let mut i: usize = 0;
        while i < n
            invariant
                i <= n,
                n == self.files@.len(),
                r@ =~= self.files@.take(i as int),
            decreases n - i,
        {
            r.push(self.files[i].duplicate());
            i = i + 1;
        }
        proof {
            assert(self.files@.take(n as int) =~= self.files@);
        }
        r
    }

    /// Removes every entry with this identifier.
    pub fn remove_file(&mut self, id: u64)
        ensures
            final(self).files@ == spec_without_id(old(self).files@, id),
    {
        let n = self.files.len();
        let mut kept: Vec<FileInfo> = Vec::new();
        let mut i: usize = 0;
        proof {
            assert(old(self).files@.take(0int) =~= Seq::<FileInfo>::empty());
        }
        while i < n
            invariant
                i <= n,
                n == self.files@.len(),
                self.files@ == old(self).files@,
                kept@ == spec_without_id(self.files@.take(i as int), id),
            decreases n - i,
        {
            proof {
                assert(self.files@.take(i + 1).last() == self.files@[i as int]);
                assert(self.files@.take(i + 1).drop_last() =~= self.files@.take(i as int));
            }
            if self.files[i].id != id {
                kept.push(self.files[i].duplicate());
            }
            i = i + 1;
        }
        proof {
            assert(self.files@.take(n as int) =~= self.files@);
        }
        self.files = kept;
    }

    /// Gives the first entry with this identifier the new name; reports
    /// whether one was there.
    pub fn rename_file(&mut self, id: u64, new_name: String) -> (renamed: bool)
        ensures
            renamed == (spec_store_find_id(old(self).files@, id) >= 0),
            renamed ==> final(self).files@ == old(self).files@.update(
                spec_store_find_id(old(self).files@, id),
                (FileInfo {
                    id,
                    path: old(self).files@[spec_store_find_id(old(self).files@, id)].path,
                    name: new_name,
                    size: old(self).files@[spec_store_find_id(old(self).files@, id)].size,
                    is_directory: old(self).files@[spec_store_find_id(
                        old(self).files@,
                        id,
                    )].is_directory,
                }),
            ),
            !renamed ==> final(self).files@ == old(self).files@,
    {
        proof {
            lemma_store_find_id(old(self).files@, id);
        }
        let n = self.files.len();
        let mut i: usize = 0;
        while i < n
            invariant
                i <= n,
                n == self.files@.len(),
                self.files@ == old(self).files@,
                forall|j: int| 0 <= j < i ==> self.files@[j].id != id,
            decreases n - i,
        {
            if self.files[i].id == id {
                proof {
                    lemma_store_find_id(old(self).files@, id);
                    assert(old(self).files@[i as int].id == id);
                    assert(spec_store_find_id(old(self).files@, id) == i as int);
                }
                let path = self.files[i].path.clone();
                let size = self.files[i].size;
                let is_directory = self.files[i].is_directory;
                self.files[i] = FileInfo { id, path, name: new_name, size, is_directory };
                return true;
            }
            i = i + 1;
        }
        false
    }

    /// The paths of the entries selected by `ids`, in store order: the
    /// payload of a multi-file drag.
    pub fn paths_for_ids(&self, ids: &Vec<u64>) -> (r: Vec<String>)
        ensures
            r@ == spec_selected_paths(self.files@, ids@),
    {
        let n = self.files.len();
        let mut r: Vec<String> = Vec::new();
        let mut i: usize = 0;
        proof {
            assert(self.files@.take(0int) =~= Seq::<FileInfo>::empty());
        }
        while i < n
            invariant
                i <= n,
                n == self.files@.len(),
                r@ == spec_selected_paths(self.files@.take(i as int), ids@),
            decreases n - i,
        {
            proof {
                assert(self.files@.take(i + 1).last() == self.files@[i as int]);
                assert(self.files@.take(i + 1).drop_last() =~= self.files@.take(i as int));
            }
            if ids_contain(ids, self.files[i].id) {
                r.push(self.files[i].path.clone());
            }
            i = i + 1;
        }
        proof {
            assert(self.files@.take(n as int) =~= self.files@);
        }
        r
    }
}

} // verus!
