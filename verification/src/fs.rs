//! The namespace in its two pools, and the operations of the shell's
//! commands on it. Each operation is proved to compute what `tree` and
//! `listing` say of it, and to keep the namespace a tree.
use vstd::prelude::*;
use vstd::slice::slice_subrange;
use crate::arena::{
    BUF_HEIGHT,
    BUF_SIZE,
    BUF_WIDTH,
    DELETED_INDEX_DIRECTORY,
    DELETED_INDEX_FILE,
    Directory,
    DirectoryList,
    DirectoryView,
    File,
    FileList,
    MAX_COUNT_CHILDREN_DIRECTORIES,
    MAX_COUNT_DIRECTORIES,
    MAX_COUNT_FILES,
    MAX_COUNT_FILES_IN_FOLDER,
    blank_content,
    directory_indexes,
    empty_directory,
    empty_file,
    free_directory_slot,
    free_file_slot,
    lemma_live_directories_update,
    live_directories,
    no_children,
    no_files,
};
use crate::error::ShellError;
use crate::invariants::{
    lemma_child_differs,
    lemma_child_entry,
    lemma_child_entry_is,
    lemma_create_child_wf,
    lemma_create_file_wf,
    lemma_delete_child_wf,
    lemma_delete_file_wf,
    lemma_file_change_wf,
    lemma_file_entry,
    lemma_file_entry_is,
};
use crate::names::{
    DOT,
    LINE_FEED,
    MAX_SIZE_DIRECTORY_NAME,
    NUL,
    SLASH,
    SPACE,
    holds_text,
    lemma_trim_nul,
    lemma_trim_pad,
    pad_nul,
    text_len,
    trim_nul,
};
use crate::slots::{
    first_index_of,
    lemma_count_used_bound,
    lemma_count_used_none,
    lemma_count_used_update,
    lemma_first_index_of_is,
};
use crate::laws::law_live_count;
use crate::listing::spaces;
use crate::tree::Namespace;
use crate::vga_buf::{VGADriver, lemma_print_concat, lemma_print_one};

verus! {

/// The name of the root directory.
pub open spec fn root_name() -> Seq<u8> {
    seq![0x72u8, 0x6fu8, 0x6fu8, 0x74u8]
}

/// The namespace that holds the root directory and nothing else.
pub open spec fn initial_namespace() -> Namespace {
    Namespace {
        dirs: Seq::new(
            100,
            |i: int|
                if i == 0 {
                    DirectoryView {
                        index: 0,
                        name: pad_nul(root_name(), 10),
                        parent_index: 0,
                        child_count: 0,
                        child_indexes: no_children(),
                        files_indexes: no_files(),
                    }
                } else {
                    empty_directory()
                },
        ),
        files: Seq::new(10, |f: int| empty_file()),
    }
}

/// The namespace with only the root is a tree.
pub proof fn lemma_initial_wf()
    ensures
        initial_namespace().wf(),
        live_directories(initial_namespace().dirs) == 1,
{
    let ns = initial_namespace();
    lemma_trim_pad(root_name(), 10);
    lemma_count_used_none(no_children(), 100);
    assert(ns.shaped());
    assert forall|d: int| #[trigger] ns.live_dir(d) implies ns.dir_ok(d) by {
        assert(d == 0);
        assert(ns.children_ok(0));
        assert(ns.files_ok(0));
    }
    assert(ns.ranked(Seq::new(100, |i: int| 0nat)));
    let rest = Seq::new(100, |i: int| empty_directory());
    lemma_count_used_none(directory_indexes(rest), 100);
    lemma_live_directories_update(rest, 0, ns.dirs[0]);
    assert(rest.update(0, ns.dirs[0]) =~= ns.dirs);
}

/// The first entry of `entries` that holds `free`; the length where none does.
fn first_free_entry(entries: &[usize], free: usize) -> (entry: usize)
    ensures
        entry == first_index_of(entries@, free, 0),
        entry <= entries@.len(),
{
    let mut i: usize = 0;
    while i < entries.len()
        invariant
            i <= entries@.len(),
            forall|k: int| 0 <= k < i ==> entries@[k] != free,
        decreases entries@.len() - i,
    {
        if entries[i] == free {
            proof {
                lemma_first_index_of_is(entries@, free, 0, i as int);
            }
            return i;
        }
        i += 1;
    }
    proof {
        lemma_first_index_of_is(entries@, free, 0, i as int);
    }
    i
}

/// The name buffer that holds the text of `name`.
fn padded_name(name: &[u8]) -> (stored: [u8; MAX_SIZE_DIRECTORY_NAME])
    requires
        trim_nul(name@).len() <= 10,
    ensures
        stored@ == pad_nul(trim_nul(name@), 10),
{
    let n = text_len(name);
    let mut stored = [NUL;MAX_SIZE_DIRECTORY_NAME];
    proof {
        lemma_trim_nul(name@);
    }
    let mut i: usize = 0;
    while i < n
        invariant
            i <= n <= 10,
            n == trim_nul(name@).len(),
            n <= name@.len(),
            trim_nul(name@) == name@.subrange(0, n as int),
            forall|k: int| 0 <= k < i ==> stored@[k] == name@[k],
            forall|k: int| i <= k < 10 ==> stored@[k] == 0u8,
        decreases n - i,
    {
        stored[i] = name[i];
        i += 1;
    }
    assert(stored@ =~= pad_nul(trim_nul(name@), 10));
    stored
}

/// The directories and files of the shell.
pub struct FileSystem {
    directory_list: DirectoryList,
    files_list: FileList,
}

impl View for FileSystem {
    type V = Namespace;

    closed spec fn view(&self) -> Namespace {
        Namespace { dirs: self.directory_list@, files: self.files_list@ }
    }
}

impl FileSystem {
    /// The namespace is a tree, and the directory pool knows how many of its
    /// records are live.
    pub closed spec fn wf(&self) -> bool {
        &&& self.directory_list.wf()
        &&& self@.wf()
    }

    /// The namespace of a file system that is in order is a tree.
    pub proof fn lemma_wf(&self)
        requires
            self.wf(),
        ensures
            self@.wf(),
    {
    }

    /// A namespace that holds the root directory, called `root`, and nothing else.
    pub fn new() -> (fs: FileSystem)
        ensures
            fs.wf(),
            fs@ == initial_namespace(),
    {
        let mut fs = FileSystem {
            directory_list: DirectoryList::new(),
            files_list: FileList::new(),
        };
        let mut name = [NUL;MAX_SIZE_DIRECTORY_NAME];
        name[0] = 0x72;
        name[1] = 0x6f;
        name[2] = 0x6f;
        name[3] = 0x74;
        let root = Directory {
            index: 0,
            name,
            parent_index: 0,
            child_count: 0,
            child_indexes: [DELETED_INDEX_DIRECTORY;MAX_COUNT_CHILDREN_DIRECTORIES],
            files_indexes: [DELETED_INDEX_FILE;MAX_COUNT_FILES_IN_FOLDER],
        };
        fs.directory_list.set(0, root);
        proof {
            lemma_initial_wf();
            assert(root@.name =~= pad_nul(root_name(), 10));
            assert(root@.child_indexes =~= no_children());
            assert(root@.files_indexes =~= no_files());
            assert(fs@.dirs =~= initial_namespace().dirs);
            assert(fs@.files =~= initial_namespace().files);
        }
        fs
    }

    /// How many directories there are, the root among them: at least one and
    /// no more than the pool holds.
    pub fn live_directories(&self) -> (n: usize)
        requires
            self.wf(),
        ensures
            n == live_directories(self@.dirs),
            1 <= n <= 100,
    {
        proof {
            lemma_live_directories_update(self@.dirs, 0, empty_directory());
        }
        self.directory_list.live_count()
    }

    /// The record in slot `slot` of the directory pool.
    pub fn directory(&self, slot: usize) -> (d: Directory)
        requires
            slot < 100,
        ensures
            d@ == self@.dirs[slot as int],
    {
        self.directory_list.get(slot)
    }

    /// The record in slot `slot` of the file pool.
    pub fn file(&self, slot: usize) -> (f: &File)
        requires
            slot < 10,
        ensures
            f@ == self@.files[slot as int],
    {
        self.files_list.get(slot)
    }

    /// Whether slot `slot` holds a live directory.
    pub fn is_live_directory(&self, slot: usize) -> (live: bool)
        ensures
            live == self@.live_dir(slot as int),
    {
        slot < MAX_COUNT_DIRECTORIES && self.directory_list.get(slot).index == slot
    }

    /// Whether slot `slot` holds a live file.
    pub fn is_live_file(&self, slot: usize) -> (live: bool)
        ensures
            live == self@.live_file(slot as int),
    {
        slot < MAX_COUNT_FILES && self.files_list.get(slot).index == slot
    }

    /// The first entry of `dir` that names a child called `name`; 20 where
    /// there is none.
    fn find_child_entry(&self, dir: usize, name: &[u8]) -> (entry: usize)
        requires
            self.wf(),
            self@.live_dir(dir as int),
        ensures
            entry == self@.child_entry(dir as int, trim_nul(name@), 0),
            entry <= 20,
    {
        let record = self.directory_list.get(dir);
        let mut j: usize = 0;
        assert(self@.dir_ok(dir as int));
        while j < MAX_COUNT_CHILDREN_DIRECTORIES
            invariant
                j <= 20,
                self.wf(),
                self@.live_dir(dir as int),
                self@.dir_ok(dir as int),
                record@ == self@.dirs[dir as int],
                forall|k: int| 0 <= k < j ==> !self@.child_named(dir as int, k, trim_nul(name@)),
            decreases 20 - j,
        {
            let child = record.child_indexes[j];
            if child != DELETED_INDEX_DIRECTORY {
                assert(self@.child_at(dir as int, j as int) != 100);
                let candidate = self.directory_list.get(child);
                if holds_text(candidate.name.as_slice(), name) {
                    proof {
                        lemma_child_entry_is(self@, dir as int, trim_nul(name@), 0, j as int);
                    }
                    return j;
                }
            }
            j += 1;
        }
        proof {
            lemma_child_entry_is(self@, dir as int, trim_nul(name@), 0, 20);
        }
        j
    }

    /// The slot of the child of `dir` called `name`: the first match in the
    /// order of the child array; `NotFound` where no child has that name.
    pub fn resolve_child(&self, dir: usize, name: &[u8]) -> (r: Result<usize, ShellError>)
        requires
            self.wf(),
            self@.live_dir(dir as int),
        ensures
            r == self@.resolve_child(dir as int, trim_nul(name@)),
            r matches Ok(child) ==> self@.live_dir(child as int),
    {
        let entry = self.find_child_entry(dir, name);
        if entry < MAX_COUNT_CHILDREN_DIRECTORIES {
            proof {
                lemma_child_entry(self@, dir as int, trim_nul(name@), 0);
                lemma_child_differs(self@, dir as int, entry as int);
            }
            Ok(self.directory_list.get(dir).child_indexes[entry])
        } else {
            Err(ShellError::NotFound)
        }
    }

    /// Creates a child called `name` in `dir` and gives its slot.
    ///
    /// Fails with `NameTooLong` where the name has more than ten bytes, with
    /// `NameEmpty` where it has none, with `AlreadyExists` where `dir` has a
    /// child of that name, and with `ArenaExhausted` where the pool or the
    /// child array of `dir` is full. A failure changes nothing.
    pub fn create_child(&mut self, dir: usize, name: &[u8]) -> (r: Result<usize, ShellError>)
        requires
            old(self).wf(),
            old(self)@.live_dir(dir as int),
        ensures
            final(self).wf(),
            match r {
                Ok(slot) => {
                    &&& old(self)@.create_child_error(dir as int, trim_nul(name@)) is None
                    &&& slot == free_directory_slot(old(self)@.dirs)
                    &&& final(self)@ == old(self)@.create_child(dir as int, trim_nul(name@))
                    &&& live_directories(final(self)@.dirs) == live_directories(old(self)@.dirs)
                        + 1
                },
                Err(e) => {
                    &&& old(self)@.create_child_error(dir as int, trim_nul(name@)) == Some(e)
                    &&& final(self)@ == old(self)@
                },
            },
    {
        let ghost text = trim_nul(name@);
        let n = text_len(name);
        if n > MAX_SIZE_DIRECTORY_NAME {
            return Err(ShellError::NameTooLong);
        }
        if n == 0 {
            return Err(ShellError::NameEmpty);
        }
        if self.find_child_entry(dir, name) < MAX_COUNT_CHILDREN_DIRECTORIES {
            return Err(ShellError::AlreadyExists);
        }
        let slot = match self.directory_list.allocate() {
            Ok(slot) => slot,
            Err(e) => {
                return Err(e);
            },
        };
        let mut parent = self.directory_list.get(dir);
        let entry = first_free_entry(parent.child_indexes.as_slice(), DELETED_INDEX_DIRECTORY);
        if entry >= MAX_COUNT_CHILDREN_DIRECTORIES {
            return Err(ShellError::ArenaExhausted);
        }
        proof {
            lemma_trim_nul(name@);
            law_live_count(self@, dir as int, text);
            lemma_create_child_wf(self@, dir as int, text);
            assert(self@.dir_ok(dir as int));
            lemma_count_used_bound(parent@.child_indexes, 100);
        }
        let directory = Directory {
            index: slot,
            name: padded_name(name),
            parent_index: dir,
            child_count: 0,
            child_indexes: [DELETED_INDEX_DIRECTORY;MAX_COUNT_CHILDREN_DIRECTORIES],
            files_indexes: [DELETED_INDEX_FILE;MAX_COUNT_FILES_IN_FOLDER],
        };
        self.directory_list.set(slot, directory);
        parent.child_indexes[entry] = slot;
        parent.child_count += 1;
        self.directory_list.set(dir, parent);
        proof {
            let expected = old(self)@.create_child(dir as int, text);
            assert(directory@.child_indexes =~= no_children());
            assert(directory@.files_indexes =~= no_files());
            assert(parent@.child_indexes =~= old(self)@.dirs[dir as int].child_indexes.update(
                entry as int,
                slot,
            ));
            assert(self@.dirs =~= expected.dirs);
        }
        Ok(slot)
    }

    /// Deletes the child of `dir` called `name` and gives the slot that
    /// became free. The files that the child held become free as well.
    ///
    /// Fails with `NotFound` where `dir` has no child of that name and with
    /// `NotEmpty` where the child has children of its own. A failure changes
    /// nothing.
    pub fn delete_child(&mut self, dir: usize, name: &[u8]) -> (r: Result<usize, ShellError>)
        requires
            old(self).wf(),
            old(self)@.live_dir(dir as int),
        ensures
            final(self).wf(),
            match r {
                Ok(slot) => {
                    &&& old(self)@.delete_child_error(dir as int, trim_nul(name@)) is None
                    &&& old(self)@.resolve_child(dir as int, trim_nul(name@)) == Ok::<
                        usize,
                        ShellError,
                    >(slot)
                    &&& final(self)@ == old(self)@.delete_child(dir as int, trim_nul(name@))
                    &&& live_directories(final(self)@.dirs) == live_directories(old(self)@.dirs)
                        - 1
                },
                Err(e) => {
                    &&& old(self)@.delete_child_error(dir as int, trim_nul(name@)) == Some(e)
                    &&& final(self)@ == old(self)@
                },
            },
    {
        let ghost text = trim_nul(name@);
        let entry = self.find_child_entry(dir, name);
        if entry >= MAX_COUNT_CHILDREN_DIRECTORIES {
            return Err(ShellError::NotFound);
        }
        let mut parent = self.directory_list.get(dir);
        let slot = parent.child_indexes[entry];
        proof {
            lemma_child_entry(self@, dir as int, text, 0);
            lemma_child_differs(self@, dir as int, entry as int);
            assert(self@.dir_ok(dir as int));
            assert(self@.dir_ok(slot as int));
        }
        let target = self.directory_list.get(slot);
        if target.child_count > 0 {
            return Err(ShellError::NotEmpty);
        }
        let mut j: usize = 0;
        while j < MAX_COUNT_FILES_IN_FOLDER
            invariant
                j <= 5,
                slot < 100,
                old(self)@.wf(),
                old(self)@.live_dir(slot as int),
                old(self)@.dir_ok(slot as int),
                target@ == old(self)@.dirs[slot as int],
                self.directory_list == old(self).directory_list,
                self@.files.len() == 10,
                forall|g: int|
                    0 <= g < 10 ==> #[trigger] self@.files[g] == (if exists|k: int|
                        0 <= k < j && #[trigger] old(self)@.file_at(slot as int, k) == g {
                        empty_file()
                    } else {
                        old(self)@.files[g]
                    }),
            decreases 5 - j,
        {
            let f = target.files_indexes[j];
            if f != DELETED_INDEX_FILE {
                assert(old(self)@.file_at(slot as int, j as int) != 10);
                self.files_list.free(f);
            }
            proof {
                assert forall|g: int| 0 <= g < 10 implies #[trigger] self@.files[g] == (if exists|
                    k: int,
                |
                    0 <= k < j + 1 && #[trigger] old(self)@.file_at(slot as int, k) == g {
                    empty_file()
                } else {
                    old(self)@.files[g]
                }) by {
                    if exists|k: int|
                        0 <= k < j && #[trigger] old(self)@.file_at(slot as int, k) == g {
                        let k = choose|k: int|
                            0 <= k < j && #[trigger] old(self)@.file_at(slot as int, k) == g;
                        assert(0 <= k < j + 1 && old(self)@.file_at(slot as int, k) == g);
                    }
                }
            }
            j += 1;
        }
        self.directory_list.free(slot);
        parent.child_indexes[entry] = DELETED_INDEX_DIRECTORY;
        proof {
            lemma_count_used_update(
                old(self)@.dirs[dir as int].child_indexes,
                100,
                entry as int,
                100,
            );
        }
        parent.child_count -= 1;
        self.directory_list.set(dir, parent);
        proof {
            let expected = old(self)@.delete_child(dir as int, text);
            law_live_count(old(self)@, dir as int, text);
            lemma_delete_child_wf(old(self)@, dir as int, text);
            assert(parent@.child_indexes =~= old(self)@.dirs[dir as int].child_indexes.update(
                entry as int,
                100,
            ));
            assert(self@.dirs =~= expected.dirs);
            assert forall|g: int| 0 <= g < 10 implies self@.files[g] == expected.files[g] by {
                let old_ns = old(self)@;
                if old_ns.files[g].index == g && old_ns.files[g].folder_index == slot {
                    assert(old_ns.live_file(g));
                    assert(old_ns.file_ok(g));
                    let w = choose|w: int|
                        0 <= w < 5 && #[trigger] old_ns.file_at(slot as int, w) == g;
                    assert(0 <= w < 5 && old_ns.file_at(slot as int, w) == g);
                } else {
                    if exists|k: int| 0 <= k < 5 && #[trigger] old_ns.file_at(slot as int, k) == g {
                        let k = choose|k: int|
                            0 <= k < 5 && #[trigger] old_ns.file_at(slot as int, k) == g;
                        assert(old_ns.file_at(slot as int, k) != 10);
                    }
                }
            }
            assert(self@.files =~= expected.files);
        }
        Ok(slot)
    }

    /// Where `cd` with the argument `token` leads from `current`: the
    /// argument that is one dot and nothing else leads to the parent, which
    /// for the root is the root; any other leads to the child of that name,
    /// and fails with `NotFound` where there is none.
    pub fn change_directory(&self, current: usize, token: &[u8]) -> (r: Result<usize, ShellError>)
        requires
            self.wf(),
            self@.live_dir(current as int),
        ensures
            r == self@.change_directory(current as int, trim_nul(token@)),
            r matches Ok(d) ==> self@.live_dir(d as int),
    {
        let n = text_len(token);
        proof {
            lemma_trim_nul(token@);
            assert(self@.dir_ok(current as int));
        }
        if n == 1 && token[0] == DOT {
            assert(trim_nul(token@) =~= seq![DOT]);
            Ok(self.directory_list.get(current).parent_index)
        } else {
            if n == 1 {
                assert(trim_nul(token@)[0] == token@[0]);
            }
            self.resolve_child(current, token)
        }
    }

    /// Prints the path of `dir`: for each directory from the root down to
    /// `dir`, a slash and the directory's name.
    pub fn print_path(&self, dir: usize, screen: &mut VGADriver)
        requires
            self.wf(),
            self@.live_dir(dir as int),
            old(screen).wf(),
        ensures
            final(screen).wf(),
            final(screen)@ == old(screen)@.print(self@.path_text(dir as int)),
        decreases self@.depth_of(dir as int),
    {
        let record = self.directory_list.get(dir);
        let ghost before = screen@;
        let ghost above = Seq::<u8>::empty();
        if dir != 0 {
            proof {
                self@.lemma_parent_nearer(dir as int);
                above = self@.path_text(record.parent_index as int);
            }
            self.print_path(record.parent_index, screen);
        }
        screen.print_byte(SLASH);
        screen.print_text(record.name.as_slice());
        proof {
            let name = self@.dir_name(dir as int);
            lemma_print_one(before.print(above), SLASH);
            lemma_print_concat(before, above, seq![SLASH]);
            lemma_print_concat(before, above + seq![SLASH], name);
            if dir == 0 {
                assert(above + seq![SLASH] =~= seq![SLASH]);
            }
        }
    }

    /// Prints the tree below `dir`: each child on a line of its own, after
    /// four spaces for each level of `depth`, as a slash and its name, and
    /// under it the tree below the child, one level deeper. A directory
    /// without children prints nothing.
    pub fn print_tree(&self, dir: usize, depth: usize, screen: &mut VGADriver)
        requires
            self.wf(),
            self@.live_dir(dir as int),
            old(screen).wf(),
            depth + 100 <= usize::MAX,
        ensures
            final(screen).wf(),
            final(screen)@ == old(screen)@.print(self@.tree_text(dir as int, depth as nat)),
    {
        self.print_subtree(dir, depth, screen);
    }

    /// Prints the tree below `dir` from the level `level`.
    fn print_subtree(&self, dir: usize, level: usize, screen: &mut VGADriver)
        requires
            self.wf(),
            self@.live_dir(dir as int),
            old(screen).wf(),
            level + 100 - self@.depth_of(dir as int) <= usize::MAX,
        ensures
            final(screen).wf(),
            final(screen)@ == old(screen)@.print(self@.tree_lines(dir as int, level as nat, 0)),
        decreases 100 - self@.depth_of(dir as int),
    {
        let record = self.directory_list.get(dir);
        let ghost ns = self@;
        let ghost whole = ns.tree_lines(dir as int, level as nat, 0);
        let mut j: usize = 0;
        while j < MAX_COUNT_CHILDREN_DIRECTORIES
            invariant
                j <= 20,
                self.wf(),
                ns == self@,
                ns.live_dir(dir as int),
                record@ == ns.dirs[dir as int],
                level + 100 - ns.depth_of(dir as int) <= usize::MAX,
                screen.wf(),
                whole == ns.tree_lines(dir as int, level as nat, 0),
                old(screen)@.print(whole) == screen@.print(
                    ns.tree_lines(dir as int, level as nat, j as int),
                ),
            decreases 20 - j,
        {
            let child = record.child_indexes[j];
            if child != DELETED_INDEX_DIRECTORY {
                let ghost before = screen@;
                let ghost name = ns.dir_name(child as int);
                let ghost below = ns.tree_lines(child as int, (level + 1) as nat, 0);
                let ghost rest = ns.tree_lines(dir as int, level as nat, j + 1);
                proof {
                    assert(ns.child_at(dir as int, j as int) == child);
                    ns.lemma_child_deeper(dir as int, j as int);
                }
                let candidate = self.directory_list.get(child);
                screen.print_byte(LINE_FEED);
                print_indent(screen, level);
                screen.print_byte(SLASH);
                screen.print_text(candidate.name.as_slice());
                self.print_subtree(child, level + 1, screen);
                proof {
                    let a = seq![LINE_FEED];
                    let b = a + spaces(4 * level as nat);
                    let c = b + seq![SLASH];
                    let d = c + name;
                    let e = d + below;
                    lemma_print_one(before, LINE_FEED);
                    lemma_print_concat(before, a, spaces(4 * level as nat));
                    lemma_print_one(before.print(b), SLASH);
                    lemma_print_concat(before, b, seq![SLASH]);
                    lemma_print_concat(before, c, name);
                    lemma_print_concat(before, d, below);
                    lemma_print_concat(before, e, rest);
                    assert(ns.tree_lines(dir as int, level as nat, j as int) == e + rest);
                }
            }
            j += 1;
        }
    }

    /// The first entry of `dir` that names a file called `name`; 5 where
    /// there is none.
    fn find_file_entry(&self, dir: usize, name: &[u8]) -> (entry: usize)
        requires
            self.wf(),
            self@.live_dir(dir as int),
        ensures
            entry == self@.file_entry(dir as int, trim_nul(name@), 0),
            entry <= 5,
    {
        let record = self.directory_list.get(dir);
        let mut j: usize = 0;
        assert(self@.dir_ok(dir as int));
        while j < MAX_COUNT_FILES_IN_FOLDER
            invariant
                j <= 5,
                self.wf(),
                self@.live_dir(dir as int),
                self@.dir_ok(dir as int),
                record@ == self@.dirs[dir as int],
                forall|k: int| 0 <= k < j ==> !self@.file_named(dir as int, k, trim_nul(name@)),
            decreases 5 - j,
        {
            let f = record.files_indexes[j];
            if f != DELETED_INDEX_FILE {
                assert(self@.file_at(dir as int, j as int) != 10);
                let candidate = self.files_list.get(f);
                if holds_text(candidate.name.as_slice(), name) {
                    proof {
                        lemma_file_entry_is(self@, dir as int, trim_nul(name@), 0, j as int);
                    }
                    return j;
                }
            }
            j += 1;
        }
        proof {
            lemma_file_entry_is(self@, dir as int, trim_nul(name@), 0, 5);
        }
        j
    }

    /// The slot of the file of `dir` called `name`: the first match in the
    /// order of the file array; `NotFound` where no file has that name.
    pub fn find_file(&self, dir: usize, name: &[u8]) -> (r: Result<usize, ShellError>)
        requires
            self.wf(),
            self@.live_dir(dir as int),
        ensures
            r == self@.find_file(dir as int, trim_nul(name@)),
            r matches Ok(f) ==> self@.live_file(f as int) && self@.files[f as int].folder_index
                == dir,
    {
        let entry = self.find_file_entry(dir, name);
        if entry < MAX_COUNT_FILES_IN_FOLDER {
            proof {
                lemma_file_entry(self@, dir as int, trim_nul(name@), 0);
                assert(self@.dir_ok(dir as int));
                assert(self@.file_at(dir as int, entry as int) != 10);
            }
            Ok(self.directory_list.get(dir).files_indexes[entry])
        } else {
            Err(ShellError::NotFound)
        }
    }

    /// Creates a file called `name` in `dir`, without text, and gives its slot.
    ///
    /// Fails with `NameTooLong` where the name has more than ten bytes and
    /// with `ArenaExhausted` where the pool or the file array of `dir` is
    /// full. A failure changes nothing.
    pub fn create_file(&mut self, dir: usize, name: &[u8]) -> (r: Result<usize, ShellError>)
        requires
            old(self).wf(),
            old(self)@.live_dir(dir as int),
        ensures
            final(self).wf(),
            match r {
                Ok(slot) => {
                    &&& old(self)@.create_file_error(dir as int, trim_nul(name@)) is None
                    &&& slot == free_file_slot(old(self)@.files)
                    &&& final(self)@ == old(self)@.create_file(dir as int, trim_nul(name@))
                    &&& final(self)@.live_file(slot as int)
                },
                Err(e) => {
                    &&& old(self)@.create_file_error(dir as int, trim_nul(name@)) == Some(e)
                    &&& final(self)@ == old(self)@
                },
            },
    {
        let ghost text = trim_nul(name@);
        let n = text_len(name);
        if n > MAX_SIZE_DIRECTORY_NAME {
            return Err(ShellError::NameTooLong);
        }
        let slot = match self.files_list.allocate() {
            Ok(slot) => slot,
            Err(e) => {
                return Err(e);
            },
        };
        let mut owner = self.directory_list.get(dir);
        let entry = first_free_entry(owner.files_indexes.as_slice(), DELETED_INDEX_FILE);
        if entry >= MAX_COUNT_FILES_IN_FOLDER {
            return Err(ShellError::ArenaExhausted);
        }
        proof {
            lemma_create_file_wf(self@, dir as int, text);
        }
        let file = File {
            index: slot,
            name: padded_name(name),
            count_lines: 0,
            folder_index: dir,
            content: [NUL;BUF_SIZE],
        };
        self.files_list.set(slot, file);
        owner.files_indexes[entry] = slot;
        self.directory_list.set(dir, owner);
        proof {
            let expected = old(self)@.create_file(dir as int, text);
            assert(file@.content =~= blank_content());
            assert(owner@.files_indexes =~= old(self)@.dirs[dir as int].files_indexes.update(
                entry as int,
                slot,
            ));
            assert(self@.dirs =~= expected.dirs);
            assert(self@.files =~= expected.files);
        }
        Ok(slot)
    }

    /// Deletes the file of `dir` called `name` and gives the slot that became
    /// free. Fails with `NotFound` where `dir` has no file of that name; a
    /// failure changes nothing.
    pub fn delete_file(&mut self, dir: usize, name: &[u8]) -> (r: Result<usize, ShellError>)
        requires
            old(self).wf(),
            old(self)@.live_dir(dir as int),
        ensures
            final(self).wf(),
            r == old(self)@.find_file(dir as int, trim_nul(name@)),
            match r {
                Ok(slot) => final(self)@ == old(self)@.delete_file(dir as int, trim_nul(name@)),
                Err(e) => final(self)@ == old(self)@,
            },
    {
        let ghost text = trim_nul(name@);
        let entry = self.find_file_entry(dir, name);
        if entry >= MAX_COUNT_FILES_IN_FOLDER {
            return Err(ShellError::NotFound);
        }
        let mut owner = self.directory_list.get(dir);
        let slot = owner.files_indexes[entry];
        proof {
            lemma_file_entry(self@, dir as int, text, 0);
            assert(self@.dir_ok(dir as int));
            assert(self@.file_at(dir as int, entry as int) != 10);
            lemma_delete_file_wf(self@, dir as int, text);
        }
        self.files_list.free(slot);
        owner.files_indexes[entry] = DELETED_INDEX_FILE;
        self.directory_list.set(dir, owner);
        proof {
            let expected = old(self)@.delete_file(dir as int, text);
            assert(owner@.files_indexes =~= old(self)@.dirs[dir as int].files_indexes.update(
                entry as int,
                10,
            ));
            assert(self@.dirs =~= expected.dirs);
            assert(self@.files =~= expected.files);
        }
        Ok(slot)
    }

    /// Clears the console and prints the meaningful rows of the file of
    /// `dir` called `name`. Fails with `NotFound` where `dir` has no file of
    /// that name; the console is then as it was.
    pub fn read_file(&self, dir: usize, name: &[u8], screen: &mut VGADriver) -> (r: Result<
        usize,
        ShellError,
    >)
        requires
            self.wf(),
            self@.live_dir(dir as int),
            old(screen).wf(),
        ensures
            final(screen).wf(),
            r == self@.find_file(dir as int, trim_nul(name@)),
            match r {
                Ok(f) => final(screen)@ == old(screen)@.clear().print(self@.file_text(f as int)),
                Err(e) => final(screen)@ == old(screen)@,
            },
    {
        let f = match self.find_file(dir, name) {
            Ok(f) => f,
            Err(e) => {
                return Err(e);
            },
        };
        let file = self.files_list.get(f);
        assert(self@.shaped());
        assert(self@.files[f as int].count_lines <= 25);
        screen.clear();
        screen.print_bytes(slice_subrange(
            file.content.as_slice(),
            0,
            file.count_lines * BUF_WIDTH as usize,
        ));
        Ok(f)
    }

    /// Opens the file of `dir` called `name` for writing anew: none of its
    /// rows is meaningful any more. Gives the file's slot; fails with
    /// `NotFound` where `dir` has no file of that name, and then changes nothing.
    pub fn edit_file(&mut self, dir: usize, name: &[u8]) -> (r: Result<usize, ShellError>)
        requires
            old(self).wf(),
            old(self)@.live_dir(dir as int),
        ensures
            final(self).wf(),
            r == old(self)@.find_file(dir as int, trim_nul(name@)),
            match r {
                Ok(f) => final(self)@ == old(self)@.with_count_lines(f as int, 0)
                    && final(self)@.live_file(f as int),
                Err(e) => final(self)@ == old(self)@,
            },
    {
        let f = match self.find_file(dir, name) {
            Ok(f) => f,
            Err(e) => {
                return Err(e);
            },
        };
        proof {
            assert(self@.shaped());
            lemma_file_change_wf(self@, f as int, 0, self@.files[f as int].content);
        }
        self.files_list.set_count_lines(f, 0);
        Ok(f)
    }

    /// Takes one more row of file `f` as meaningful; a file has no more rows
    /// than the console.
    pub fn add_line(&mut self, f: usize)
        requires
            old(self).wf(),
            old(self)@.live_file(f as int),
        ensures
            final(self).wf(),
            final(self)@ == old(self)@.with_line_added(f as int),
            final(self)@.live_file(f as int),
    {
        proof {
            assert(self@.shaped());
            lemma_file_change_wf(self@, f as int, 0, self@.files[f as int].content);
        }
        let count_lines = self.files_list.get(f).count_lines;
        if count_lines < BUF_HEIGHT as usize {
            self.files_list.set_count_lines(f, count_lines + 1);
        }
    }

    /// Replaces the text of file `f`.
    pub fn store_content(&mut self, f: usize, content: [u8; BUF_SIZE])
        requires
            old(self).wf(),
            old(self)@.live_file(f as int),
        ensures
            final(self).wf(),
            final(self)@ == old(self)@.with_content(f as int, content@),
            final(self)@.live_file(f as int),
    {
        proof {
            lemma_file_change_wf(self@, f as int, 0, content@);
        }
        self.files_list.set_content(f, content);
    }

    /// Prints the names of the files of `dir`, in the order of its file
    /// array, with a space between one name and the next.
    pub fn list_files(&self, dir: usize, screen: &mut VGADriver)
        requires
            self.wf(),
            self@.live_dir(dir as int),
            old(screen).wf(),
        ensures
            final(screen).wf(),
            final(screen)@ == old(screen)@.print(self@.files_text(dir as int, 5)),
    {
        let record = self.directory_list.get(dir);
        let ghost ns = self@;
        let mut first = true;
        let mut j: usize = 0;
        assert(ns.dir_ok(dir as int));
        while j < MAX_COUNT_FILES_IN_FOLDER
            invariant
                j <= 5,
                self.wf(),
                ns == self@,
                ns.live_dir(dir as int),
                ns.dir_ok(dir as int),
                record@ == ns.dirs[dir as int],
                screen.wf(),
                first == !ns.any_file(dir as int, j as int),
                screen@ == old(screen)@.print(ns.files_text(dir as int, j as int)),
            decreases 5 - j,
        {
            let f = record.files_indexes[j];
            let ghost before = ns.files_text(dir as int, j as int);
            if f != DELETED_INDEX_FILE {
                assert(ns.file_at(dir as int, j as int) == f);
                let file = self.files_list.get(f);
                if !first {
                    screen.print_byte(SPACE);
                }
                screen.print_text(file.name.as_slice());
                proof {
                    let name = ns.file_name(f as int);
                    if first {
                        lemma_print_concat(old(screen)@, before, name);
                    } else {
                        lemma_print_one(old(screen)@.print(before), SPACE);
                        lemma_print_concat(old(screen)@, before, seq![SPACE]);
                        lemma_print_concat(old(screen)@, before + seq![SPACE], name);
                    }
                }
                first = false;
            } else {
                proof {
                    if ns.any_file(dir as int, j + 1) {
                        let k = choose|k: int|
                            0 <= k < j + 1 && #[trigger] ns.file_at(dir as int, k) != 10;
                        assert(0 <= k < j && ns.file_at(dir as int, k) != 10);
                    }
                }
            }
            j += 1;
        }
    }
}

/// Prints four spaces for each level.
fn print_indent(screen: &mut VGADriver, level: usize)
    requires
        old(screen).wf(),
    ensures
        final(screen).wf(),
        final(screen)@ == old(screen)@.print(spaces(4 * level as nat)),
{
    let mut i: usize = 0;
    while i < level
        invariant
            i <= level,
            screen.wf(),
            screen@ == old(screen)@.print(spaces(4 * i as nat)),
        decreases level - i,
    {
        let mut k: usize = 0;
        while k < 4
            invariant
                k <= 4,
                i < level,
                screen.wf(),
                screen@ == old(screen)@.print(spaces((4 * i + k) as nat)),
            decreases 4 - k,
        {
            proof {
                let more = spaces((4 * i + k + 1) as nat);
                assert(more.drop_last() =~= spaces((4 * i + k) as nat));
            }
            screen.print_byte(SPACE);
            k += 1;
        }
        i += 1;
    }
}

} // verus!
