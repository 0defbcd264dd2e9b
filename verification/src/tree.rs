//! The namespace as plain values: what makes the two pools a tree of
//! directories with files attached, and what each operation makes of it.
//!
//! The functions here are ghost code: they say what the executable
//! operations of `fs` compute.
use vstd::prelude::*;
use crate::arena::{
    DirectoryView,
    FileView,
    blank_content,
    empty_directory,
    empty_file,
    free_directory_slot,
    free_file_slot,
    no_children,
    no_files,
};
use crate::error::ShellError;
use crate::names::{DOT, pad_nul, trim_nul};
use crate::slots::{count_used, first_index_of};

verus! {

/// The directory pool and the file pool, record by record.
pub struct Namespace {
    pub dirs: Seq<DirectoryView>,
    pub files: Seq<FileView>,
}

impl Namespace {
    /// Slot `d` holds a live directory.
    pub open spec fn live_dir(self, d: int) -> bool {
        0 <= d < 100 && self.dirs[d].index == d
    }

    /// Slot `f` holds a live file.
    pub open spec fn live_file(self, f: int) -> bool {
        0 <= f < 10 && self.files[f].index == f
    }

    /// Entry `j` of the child array of directory `d`.
    pub open spec fn child_at(self, d: int, j: int) -> usize {
        self.dirs[d].child_indexes[j]
    }

    /// Entry `j` of the file array of directory `d`.
    pub open spec fn file_at(self, d: int, j: int) -> usize {
        self.dirs[d].files_indexes[j]
    }

    /// The text of the name of directory `d`.
    pub open spec fn dir_name(self, d: int) -> Seq<u8> {
        trim_nul(self.dirs[d].name)
    }

    /// The text of the name of file `f`.
    pub open spec fn file_name(self, f: int) -> Seq<u8> {
        trim_nul(self.files[f].name)
    }

    /// The pools and the arrays in the records have their sizes, and every
    /// record is live in its own slot or is the free record.
    pub open spec fn shaped(self) -> bool {
        &&& self.dirs.len() == 100
        &&& self.files.len() == 10
        &&& forall|d: int|
            0 <= d < 100 ==> {
                &&& (#[trigger] self.dirs[d]).name.len() == 10
                &&& self.dirs[d].child_indexes.len() == 20
                &&& self.dirs[d].files_indexes.len() == 5
                &&& (self.dirs[d].index == d || self.dirs[d] == empty_directory())
            }
        &&& forall|f: int|
            0 <= f < 10 ==> {
                &&& (#[trigger] self.files[f]).name.len() == 10
                &&& self.files[f].content.len() == 2000
                &&& self.files[f].count_lines <= 25
                &&& (self.files[f].index == f || self.files[f] == empty_file())
            }
    }

    /// Every child entry of `d` names a live directory other than the root
    /// whose parent is `d`; no directory is named twice, and no two children
    /// have the same name.
    pub open spec fn children_ok(self, d: int) -> bool {
        &&& forall|j: int|
            0 <= j < 20 && #[trigger] self.child_at(d, j) != 100 ==> {
                &&& 0 < self.child_at(d, j) < 100
                &&& self.dirs[self.child_at(d, j) as int].index == self.child_at(d, j)
                &&& self.dirs[self.child_at(d, j) as int].parent_index == d
            }
        &&& forall|j: int, k: int|
            0 <= j < k < 20 && #[trigger] self.child_at(d, j) != 100 && #[trigger] self.child_at(
                d,
                k,
            ) != 100 ==> {
                &&& self.child_at(d, j) != self.child_at(d, k)
                &&& self.dir_name(self.child_at(d, j) as int) != self.dir_name(
                    self.child_at(d, k) as int,
                )
            }
    }

    /// Every file entry of `d` names a live file that `d` owns, and no file is
    /// named twice.
    pub open spec fn files_ok(self, d: int) -> bool {
        &&& forall|j: int|
            0 <= j < 5 && #[trigger] self.file_at(d, j) != 10 ==> {
                &&& self.file_at(d, j) < 10
                &&& self.files[self.file_at(d, j) as int].index == self.file_at(d, j)
                &&& self.files[self.file_at(d, j) as int].folder_index == d
            }
        &&& forall|j: int, k: int|
            0 <= j < k < 5 && #[trigger] self.file_at(d, j) != 10 && #[trigger] self.file_at(d, k)
                != 10 ==> self.file_at(d, j) != self.file_at(d, k)
    }

    /// What holds of the live directory `d`: its parent is live, it counts
    /// its children, it has a name, its entries are in order, and unless it
    /// is the root its parent lists it.
    pub open spec fn dir_ok(self, d: int) -> bool {
        &&& self.live_dir(self.dirs[d].parent_index as int)
        &&& self.dirs[d].child_count == count_used(self.dirs[d].child_indexes, 100)
        &&& self.dir_name(d).len() > 0
        &&& self.children_ok(d)
        &&& self.files_ok(d)
        &&& d != 0 ==> exists|j: int|
            0 <= j < 20 && #[trigger] self.child_at(self.dirs[d].parent_index as int, j) == d
    }

    /// What holds of the live file `f`: its directory is live and lists it.
    pub open spec fn file_ok(self, f: int) -> bool {
        &&& self.live_dir(self.files[f].folder_index as int)
        &&& exists|j: int|
            0 <= j < 5 && #[trigger] self.file_at(self.files[f].folder_index as int, j) == f
    }

    /// `depth` gives every live directory its distance from the root. Where
    /// such a map exists, no directory is its own ancestor.
    pub open spec fn ranked(self, depth: Seq<nat>) -> bool {
        &&& depth.len() == 100
        &&& depth[0] == 0
        &&& forall|d: int|
            0 < d < 100 && #[trigger] self.live_dir(d) ==> depth[d]
                == depth[self.dirs[d].parent_index as int] + 1
    }

    /// The namespace is a tree: slot 0 holds the root, which is its own
    /// parent; every live record is in order; no directory is its own
    /// ancestor.
    pub open spec fn wf(self) -> bool {
        &&& self.shaped()
        &&& self.dirs[0].index == 0
        &&& self.dirs[0].parent_index == 0
        &&& forall|d: int| #[trigger] self.live_dir(d) ==> self.dir_ok(d)
        &&& forall|f: int| #[trigger] self.live_file(f) ==> self.file_ok(f)
        &&& exists|depth: Seq<nat>| #[trigger] self.ranked(depth)
    }

    /// Entry `j` of directory `d` names a child whose name is `text`.
    pub open spec fn child_named(self, d: int, j: int, text: Seq<u8>) -> bool {
        self.child_at(d, j) != 100 && self.dir_name(self.child_at(d, j) as int) == text
    }

    /// The first entry of `d`, at or after `from`, that names a child called
    /// `text`; 20 where there is none.
    pub open spec fn child_entry(self, d: int, text: Seq<u8>, from: int) -> int
        decreases 20 - from,
    {
        if from >= 20 {
            20
        } else if self.child_named(d, from, text) {
            from
        } else {
            self.child_entry(d, text, from + 1)
        }
    }

    /// The first free entry of the child array of `d`; 20 where it is full.
    pub open spec fn free_child_entry(self, d: int) -> int {
        first_index_of(self.dirs[d].child_indexes, 100, 0)
    }

    /// The slot of the child of `d` called `text`: the first match in the
    /// order of the child array; `NotFound` where no child has that name.
    pub open spec fn resolve_child(self, d: int, text: Seq<u8>) -> Result<usize, ShellError> {
        if self.child_entry(d, text, 0) < 20 {
            Ok(self.child_at(d, self.child_entry(d, text, 0)))
        } else {
            Err(ShellError::NotFound)
        }
    }

    /// Why no child called `text` can be created in `d`, if so: the name is
    /// too long, or empty, or taken, or no slot or no entry is free.
    pub open spec fn create_child_error(self, d: int, text: Seq<u8>) -> Option<ShellError> {
        if text.len() > 10 {
            Some(ShellError::NameTooLong)
        } else if text.len() == 0 {
            Some(ShellError::NameEmpty)
        } else if self.child_entry(d, text, 0) < 20 {
            Some(ShellError::AlreadyExists)
        } else if free_directory_slot(self.dirs) >= 100 || self.free_child_entry(d) >= 20 {
            Some(ShellError::ArenaExhausted)
        } else {
            None
        }
    }

    /// The namespace after a child called `text` was created in `d`: the
    /// first free slot holds the new directory, and the first free entry of
    /// `d` names it.
    pub open spec fn create_child(self, d: int, text: Seq<u8>) -> Namespace {
        let slot = free_directory_slot(self.dirs);
        let parent = self.dirs[d];
        Namespace {
            dirs: self.dirs.update(
                slot,
                DirectoryView {
                    index: slot as usize,
                    name: pad_nul(text, 10),
                    parent_index: d as usize,
                    child_count: 0,
                    child_indexes: no_children(),
                    files_indexes: no_files(),
                },
            ).update(
                d,
                DirectoryView {
                    child_count: (parent.child_count + 1) as usize,
                    child_indexes: parent.child_indexes.update(
                        self.free_child_entry(d),
                        slot as usize,
                    ),
                    ..parent
                },
            ),
            ..self
        }
    }

    /// Why the child of `d` called `text` cannot be deleted, if so: there is
    /// none, or it has children of its own.
    pub open spec fn delete_child_error(self, d: int, text: Seq<u8>) -> Option<ShellError> {
        if self.child_entry(d, text, 0) >= 20 {
            Some(ShellError::NotFound)
        } else if self.dirs[self.child_at(d, self.child_entry(d, text, 0)) as int].child_count
            > 0 {
            Some(ShellError::NotEmpty)
        } else {
            None
        }
    }

    /// The namespace after the child of `d` called `text` was deleted: its
    /// slot is free, the entry of `d` that named it is empty, and the files
    /// it held are free as well.
    pub open spec fn delete_child(self, d: int, text: Seq<u8>) -> Namespace {
        let entry = self.child_entry(d, text, 0);
        let target = self.child_at(d, entry);
        let parent = self.dirs[d];
        Namespace {
            dirs: self.dirs.update(target as int, empty_directory()).update(
                d,
                DirectoryView {
                    child_count: (parent.child_count - 1) as usize,
                    child_indexes: parent.child_indexes.update(entry, 100),
                    ..parent
                },
            ),
            files: Seq::new(
                10,
                |f: int|
                    if self.files[f].index == f && self.files[f].folder_index == target {
                        empty_file()
                    } else {
                        self.files[f]
                    },
            ),
        }
    }

    /// Where `cd` with the argument `text` leads from `current`: the
    /// argument that is one dot and nothing else leads to the parent, which
    /// for the root is the root; any other leads to the child of that name,
    /// a name that starts with a dot as well.
    pub open spec fn change_directory(self, current: int, text: Seq<u8>) -> Result<
        usize,
        ShellError,
    > {
        if text == seq![DOT] {
            Ok(self.dirs[current].parent_index)
        } else {
            self.resolve_child(current, text)
        }
    }

    /// Entry `j` of directory `d` names a file whose name is `text`.
    pub open spec fn file_named(self, d: int, j: int, text: Seq<u8>) -> bool {
        self.file_at(d, j) != 10 && self.file_name(self.file_at(d, j) as int) == text
    }

    /// The first entry of `d`, at or after `from`, that names a file called
    /// `text`; 5 where there is none.
    pub open spec fn file_entry(self, d: int, text: Seq<u8>, from: int) -> int
        decreases 5 - from,
    {
        if from >= 5 {
            5
        } else if self.file_named(d, from, text) {
            from
        } else {
            self.file_entry(d, text, from + 1)
        }
    }

    /// The first free entry of the file array of `d`; 5 where it is full.
    pub open spec fn free_file_entry(self, d: int) -> int {
        first_index_of(self.dirs[d].files_indexes, 10, 0)
    }

    /// The slot of the file of `d` called `text`: the first match in the
    /// order of the file array; `NotFound` where no file has that name.
    pub open spec fn find_file(self, d: int, text: Seq<u8>) -> Result<usize, ShellError> {
        if self.file_entry(d, text, 0) < 5 {
            Ok(self.file_at(d, self.file_entry(d, text, 0)))
        } else {
            Err(ShellError::NotFound)
        }
    }

    /// Why no file called `text` can be created in `d`, if so: the name is
    /// too long, or no slot or no entry is free.
    pub open spec fn create_file_error(self, d: int, text: Seq<u8>) -> Option<ShellError> {
        if text.len() > 10 {
            Some(ShellError::NameTooLong)
        } else if free_file_slot(self.files) >= 10 || self.free_file_entry(d) >= 5 {
            Some(ShellError::ArenaExhausted)
        } else {
            None
        }
    }

    /// The namespace after a file called `text` was created in `d`: the first
    /// free slot holds the new file, without text, and the first free entry
    /// of `d` names it.
    pub open spec fn create_file(self, d: int, text: Seq<u8>) -> Namespace {
        let slot = free_file_slot(self.files);
        let owner = self.dirs[d];
        Namespace {
            dirs: self.dirs.update(
                d,
                DirectoryView {
                    files_indexes: owner.files_indexes.update(
                        self.free_file_entry(d),
                        slot as usize,
                    ),
                    ..owner
                },
            ),
            files: self.files.update(
                slot,
                FileView {
                    index: slot as usize,
                    name: pad_nul(text, 10),
                    count_lines: 0,
                    folder_index: d as usize,
                    content: blank_content(),
                },
            ),
        }
    }

    /// The namespace after the file of `d` called `text` was deleted: its
    /// slot is free and the entry of `d` that named it is empty.
    pub open spec fn delete_file(self, d: int, text: Seq<u8>) -> Namespace {
        let entry = self.file_entry(d, text, 0);
        let owner = self.dirs[d];
        Namespace {
            dirs: self.dirs.update(
                d,
                DirectoryView { files_indexes: owner.files_indexes.update(entry, 10), ..owner },
            ),
            files: self.files.update(self.file_at(d, entry) as int, empty_file()),
        }
    }

    /// The namespace with `count_lines` rows of file `f` taken as meaningful.
    pub open spec fn with_count_lines(self, f: int, count_lines: usize) -> Namespace {
        Namespace {
            files: self.files.update(f, FileView { count_lines, ..self.files[f] }),
            ..self
        }
    }

    /// The namespace with the text of file `f` replaced.
    pub open spec fn with_content(self, f: int, content: Seq<u8>) -> Namespace {
        Namespace { files: self.files.update(f, FileView { content, ..self.files[f] }), ..self }
    }

    /// The namespace after one more row of file `f` became meaningful; a file
    /// has no more rows than the console.
    pub open spec fn with_line_added(self, f: int) -> Namespace {
        if self.files[f].count_lines < 25 {
            self.with_count_lines(f, (self.files[f].count_lines + 1) as usize)
        } else {
            self
        }
    }

    /// The meaningful part of the text of file `f`: its first `count_lines` rows.
    pub open spec fn file_text(self, f: int) -> Seq<u8> {
        self.files[f].content.subrange(0, self.files[f].count_lines * 80)
    }

    /// Whether one of the first `upto` entries of the file array of `d` names a file.
    pub open spec fn any_file(self, d: int, upto: int) -> bool {
        exists|j: int| 0 <= j < upto && #[trigger] self.file_at(d, j) != 10
    }

    /// The names of the files in the first `upto` entries of `d`, in the
    /// order of the entries, with a space between one name and the next.
    pub open spec fn files_text(self, d: int, upto: int) -> Seq<u8>
        decreases upto,
    {
        if upto <= 0 {
            Seq::empty()
        } else if self.file_at(d, upto - 1) == 10 {
            self.files_text(d, upto - 1)
        } else if self.any_file(d, upto - 1) {
            self.files_text(d, upto - 1) + seq![0x20u8] + self.file_name(
                self.file_at(d, upto - 1) as int,
            )
        } else {
            self.files_text(d, upto - 1) + self.file_name(self.file_at(d, upto - 1) as int)
        }
    }
}

} // verus!
