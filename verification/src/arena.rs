//! The two pools of the namespace: a hundred directory records and ten file
//! records. A record whose `index` is the pool's capacity is free; a live
//! record holds its own slot number there.
use vstd::prelude::*;
use crate::error::ShellError;
use crate::names::{MAX_SIZE_DIRECTORY_NAME, NUL};
use crate::slots::{
    count_used,
    first_index_of,
    lemma_count_used_bound,
    lemma_count_used_none,
    lemma_count_used_update,
    lemma_first_index_of_is,
};

verus! {

/// How many children a directory can have.
pub const MAX_COUNT_CHILDREN_DIRECTORIES: usize = 20;

/// Capacity of the directory pool.
pub const MAX_COUNT_DIRECTORIES: usize = 100;

/// How many files a directory can hold.
pub const MAX_COUNT_FILES_IN_FOLDER: usize = 5;

/// Capacity of the file pool.
pub const MAX_COUNT_FILES: usize = 10;

/// Stands for "no directory": in `index` it marks a free record, in a child
/// array an empty entry.
pub const DELETED_INDEX_DIRECTORY: usize = 100;

/// Stands for "no file": in `index` it marks a free record, in a file array
/// an empty entry.
pub const DELETED_INDEX_FILE: usize = 10;

/// Rows of a file's content.
pub const BUF_HEIGHT: u32 = 25;

/// Bytes in a row of a file's content.
pub const BUF_WIDTH: u32 = 80;

/// Bytes of a file's content: one for each cell of the console.
pub const BUF_SIZE: usize = 2000;

/// A directory record.
#[derive(Clone, Copy, Debug)]
pub struct Directory {
    /// The record's own slot, or `DELETED_INDEX_DIRECTORY` in a free record.
    pub index: usize,
    /// The name, padded with NUL bytes.
    pub name: [u8; MAX_SIZE_DIRECTORY_NAME],
    /// The slot of the parent; the root is its own parent.
    pub parent_index: usize,
    /// How many entries of `child_indexes` name a directory.
    pub child_count: usize,
    /// The slots of the children; `DELETED_INDEX_DIRECTORY` in an empty entry.
    pub child_indexes: [usize; MAX_COUNT_CHILDREN_DIRECTORIES],
    /// The slots of the files; `DELETED_INDEX_FILE` in an empty entry.
    pub files_indexes: [usize; MAX_COUNT_FILES_IN_FOLDER],
}

/// A directory record as plain values.
pub struct DirectoryView {
    pub index: usize,
    pub name: Seq<u8>,
    pub parent_index: usize,
    pub child_count: usize,
    pub child_indexes: Seq<usize>,
    pub files_indexes: Seq<usize>,
}

impl View for Directory {
    type V = DirectoryView;

    open spec fn view(&self) -> DirectoryView {
        DirectoryView {
            index: self.index,
            name: self.name@,
            parent_index: self.parent_index,
            child_count: self.child_count,
            child_indexes: self.child_indexes@,
            files_indexes: self.files_indexes@,
        }
    }
}

/// A name buffer without text.
pub open spec fn blank_name() -> Seq<u8> {
    Seq::new(10, |i: int| 0u8)
}

/// A child array without children.
pub open spec fn no_children() -> Seq<usize> {
    Seq::new(20, |i: int| 100usize)
}

/// A file array without files.
pub open spec fn no_files() -> Seq<usize> {
    Seq::new(5, |i: int| 10usize)
}

/// A file's content before anything was written to it.
pub open spec fn blank_content() -> Seq<u8> {
    Seq::new(2000, |i: int| 0u8)
}

/// The free directory record: no name, no parent, no children, no files.
pub open spec fn empty_directory() -> DirectoryView {
    DirectoryView {
        index: 100,
        name: blank_name(),
        parent_index: 100,
        child_count: 0,
        child_indexes: no_children(),
        files_indexes: no_files(),
    }
}

impl Directory {
    /// The free directory record.
    pub fn empty() -> (d: Directory)
        ensures
            d@ == empty_directory(),
    {
        let d = Directory {
            index: DELETED_INDEX_DIRECTORY,
            name: [NUL;MAX_SIZE_DIRECTORY_NAME],
            parent_index: DELETED_INDEX_DIRECTORY,
            child_count: 0,
            child_indexes: [DELETED_INDEX_DIRECTORY;MAX_COUNT_CHILDREN_DIRECTORIES],
            files_indexes: [DELETED_INDEX_FILE;MAX_COUNT_FILES_IN_FOLDER],
        };
        assert(d@.name =~= blank_name());
        assert(d@.child_indexes =~= no_children());
        assert(d@.files_indexes =~= no_files());
        d
    }
}

/// A file record.
#[derive(Clone, Copy, Debug)]
pub struct File {
    /// The record's own slot, or `DELETED_INDEX_FILE` in a free record.
    pub index: usize,
    /// The name, padded with NUL bytes.
    pub name: [u8; MAX_SIZE_DIRECTORY_NAME],
    /// How many rows of `content` are meaningful.
    pub count_lines: usize,
    /// The slot of the directory that holds the file.
    pub folder_index: usize,
    /// The text, one row of the console after the other.
    pub content: [u8; BUF_SIZE],
}

/// A file record as plain values.
pub struct FileView {
    pub index: usize,
    pub name: Seq<u8>,
    pub count_lines: usize,
    pub folder_index: usize,
    pub content: Seq<u8>,
}

impl View for File {
    type V = FileView;

    open spec fn view(&self) -> FileView {
        FileView {
            index: self.index,
            name: self.name@,
            count_lines: self.count_lines,
            folder_index: self.folder_index,
            content: self.content@,
        }
    }
}

/// The free file record: no name, no owner, no text.
pub open spec fn empty_file() -> FileView {
    FileView {
        index: 10,
        name: blank_name(),
        count_lines: 0,
        folder_index: 100,
        content: blank_content(),
    }
}

impl File {
    /// The free file record.
    pub fn empty() -> (f: File)
        ensures
            f@ == empty_file(),
    {
        let f = File {
            index: DELETED_INDEX_FILE,
            name: [NUL;MAX_SIZE_DIRECTORY_NAME],
            count_lines: 0,
            folder_index: DELETED_INDEX_DIRECTORY,
            content: [NUL;BUF_SIZE],
        };
        assert(f@.name =~= blank_name());
        assert(f@.content =~= blank_content());
        f
    }
}

/// The `index` field of each directory record, slot by slot.
pub open spec fn directory_indexes(dirs: Seq<DirectoryView>) -> Seq<usize> {
    Seq::new(dirs.len(), |i: int| dirs[i].index)
}

/// The `index` field of each file record, slot by slot.
pub open spec fn file_indexes(files: Seq<FileView>) -> Seq<usize> {
    Seq::new(files.len(), |i: int| files[i].index)
}

/// How many directory records are live.
pub open spec fn live_directories(dirs: Seq<DirectoryView>) -> nat {
    count_used(directory_indexes(dirs), 100)
}

/// The first free directory slot; the capacity where the pool is full.
pub open spec fn free_directory_slot(dirs: Seq<DirectoryView>) -> int {
    first_index_of(directory_indexes(dirs), 100, 0)
}

/// The first free file slot; the capacity where the pool is full.
pub open spec fn free_file_slot(files: Seq<FileView>) -> int {
    first_index_of(file_indexes(files), 10, 0)
}

/// Overwriting one record changes the number of live records by what the
/// record was and what it becomes.
pub proof fn lemma_live_directories_update(dirs: Seq<DirectoryView>, slot: int, d: DirectoryView)
    requires
        0 <= slot < dirs.len(),
    ensures
        live_directories(dirs.update(slot, d)) + (if dirs[slot].index != 100 {
            1nat
        } else {
            0nat
        }) == live_directories(dirs) + (if d.index != 100 {
            1nat
        } else {
            0nat
        }),
        live_directories(dirs) <= dirs.len(),
{
    let s = directory_indexes(dirs);
    lemma_count_used_update(s, 100, slot, d.index);
    lemma_count_used_bound(s, 100);
    assert(directory_indexes(dirs.update(slot, d)) =~= s.update(slot, d.index));
}

/// The pool of directory records.
pub struct DirectoryList {
    directories: [Directory; MAX_COUNT_DIRECTORIES],
    directory_count: usize,
}

impl View for DirectoryList {
    type V = Seq<DirectoryView>;

    closed spec fn view(&self) -> Seq<DirectoryView> {
        Seq::new(100, |i: int| self.directories@[i]@)
    }
}

impl DirectoryList {
    /// The pool knows how many of its records are live.
    pub closed spec fn wf(&self) -> bool {
        self.directory_count == live_directories(self@)
    }

    /// A pool of free records.
    pub fn new() -> (list: DirectoryList)
        ensures
            list.wf(),
            list@ == Seq::new(100, |i: int| empty_directory()),
    {
        let list = DirectoryList {
            directories: [Directory::empty();MAX_COUNT_DIRECTORIES],
            directory_count: 0,
        };
        proof {
            assert(list@ =~= Seq::new(100, |i: int| empty_directory()));
            lemma_count_used_none(directory_indexes(list@), 100);
        }
        list
    }

    /// The record in `slot`.
    pub fn get(&self, slot: usize) -> (d: Directory)
        requires
            slot < 100,
        ensures
            d@ == self@[slot as int],
    {
        self.directories[slot]
    }

    /// Puts the record `d` into `slot`.
    pub fn set(&mut self, slot: usize, d: Directory)
        requires
            old(self).wf(),
            slot < 100,
        ensures
            final(self).wf(),
            final(self)@ == old(self)@.update(slot as int, d@),
    {
        proof {
            lemma_live_directories_update(self@, slot as int, d@);
            lemma_live_directories_update(self@, slot as int, empty_directory());
        }
        if self.directories[slot].index != DELETED_INDEX_DIRECTORY {
            self.directory_count -= 1;
        }
        if d.index != DELETED_INDEX_DIRECTORY {
            self.directory_count += 1;
        }
        self.directories[slot] = d;
        assert(self@ =~= old(self)@.update(slot as int, d@));
    }

    /// The first free slot, in ascending order; `ArenaExhausted` where every
    /// record is live.
    pub fn allocate(&self) -> (r: Result<usize, ShellError>)
        ensures
            match r {
                Ok(slot) => slot < 100 && slot == free_directory_slot(self@),
                Err(e) => e == ShellError::ArenaExhausted && free_directory_slot(self@) == 100,
            },
    {
        let mut i: usize = 0;
        while i < MAX_COUNT_DIRECTORIES
            invariant
                i <= 100,
                forall|k: int| 0 <= k < i ==> directory_indexes(self@)[k] != 100,
            decreases 100 - i,
        {
            if self.directories[i].index == DELETED_INDEX_DIRECTORY {
                proof {
                    lemma_first_index_of_is(directory_indexes(self@), 100, 0, i as int);
                }
                return Ok(i);
            }
            i += 1;
        }
        proof {
            lemma_first_index_of_is(directory_indexes(self@), 100, 0, 100);
        }
        Err(ShellError::ArenaExhausted)
    }

    /// Resets the record in `slot` to the free record.
    pub fn free(&mut self, slot: usize)
        requires
            old(self).wf(),
            slot < 100,
        ensures
            final(self).wf(),
            final(self)@ == old(self)@.update(slot as int, empty_directory()),
    {
        self.set(slot, Directory::empty());
    }

    /// How many records are live.
    pub fn live_count(&self) -> (n: usize)
        requires
            self.wf(),
        ensures
            n == live_directories(self@),
            n <= 100,
    {
        proof {
            lemma_count_used_bound(directory_indexes(self@), 100);
        }
        self.directory_count
    }
}

/// The pool of file records.
pub struct FileList {
    files: [File; MAX_COUNT_FILES],
}

impl View for FileList {
    type V = Seq<FileView>;

    closed spec fn view(&self) -> Seq<FileView> {
        Seq::new(10, |i: int| self.files@[i]@)
    }
}

impl FileList {
    /// A pool of free records.
    pub fn new() -> (list: FileList)
        ensures
            list@ == Seq::new(10, |i: int| empty_file()),
    {
        let list = FileList { files: [File::empty();MAX_COUNT_FILES] };
        assert(list@ =~= Seq::new(10, |i: int| empty_file()));
        list
    }

    /// The record in `slot`.
    pub fn get(&self, slot: usize) -> (f: &File)
        requires
            slot < 10,
        ensures
            f@ == self@[slot as int],
    {
        &self.files[slot]
    }

    /// Puts the record `f` into `slot`.
    pub fn set(&mut self, slot: usize, f: File)
        requires
            slot < 10,
        ensures
            final(self)@ == old(self)@.update(slot as int, f@),
    {
        self.files[slot] = f;
        assert(self@ =~= old(self)@.update(slot as int, f@));
    }

    /// Sets how many rows of the file in `slot` are meaningful.
    pub fn set_count_lines(&mut self, slot: usize, count_lines: usize)
        requires
            slot < 10,
        ensures
            final(self)@ == old(self)@.update(
                slot as int,
                FileView { count_lines, ..old(self)@[slot as int] },
            ),
    {
        self.files[slot].count_lines = count_lines;
        assert(self@ =~= old(self)@.update(
            slot as int,
            FileView { count_lines, ..old(self)@[slot as int] },
        ));
    }

    /// Replaces the text of the file in `slot`.
    pub fn set_content(&mut self, slot: usize, content: [u8; BUF_SIZE])
        requires
            slot < 10,
        ensures
            final(self)@ == old(self)@.update(
                slot as int,
                FileView { content: content@, ..old(self)@[slot as int] },
            ),
    {
        self.files[slot].content = content;
        assert(self@ =~= old(self)@.update(
            slot as int,
            FileView { content: content@, ..old(self)@[slot as int] },
        ));
    }

    /// The first free slot, in ascending order; `ArenaExhausted` where every
    /// record is live.
    pub fn allocate(&self) -> (r: Result<usize, ShellError>)
        ensures
            match r {
                Ok(slot) => slot < 10 && slot == free_file_slot(self@),
                Err(e) => e == ShellError::ArenaExhausted && free_file_slot(self@) == 10,
            },
    {
        let mut i: usize = 0;
        while i < MAX_COUNT_FILES
            invariant
                i <= 10,
                forall|k: int| 0 <= k < i ==> file_indexes(self@)[k] != 10,
            decreases 10 - i,
        {
            if self.files[i].index == DELETED_INDEX_FILE {
                proof {
                    lemma_first_index_of_is(file_indexes(self@), 10, 0, i as int);
                }
                return Ok(i);
            }
            i += 1;
        }
        proof {
            lemma_first_index_of_is(file_indexes(self@), 10, 0, 10);
        }
        Err(ShellError::ArenaExhausted)
    }

    /// Resets the record in `slot` to the free record.
    pub fn free(&mut self, slot: usize)
        requires
            slot < 10,
        ensures
            final(self)@ == old(self)@.update(slot as int, empty_file()),
    {
        self.set(slot, File::empty());
    }
}

} // verus!
