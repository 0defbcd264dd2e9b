//! Proofs that the operations on the namespace keep it a tree.
use vstd::prelude::*;
use crate::arena::{
    directory_indexes,
    empty_directory,
    empty_file,
    file_indexes,
    free_directory_slot,
    free_file_slot,
    no_children,
};
use crate::names::{is_text, lemma_trim_pad};
use crate::slots::{
    count_used,
    first_index_of,
    lemma_count_used_bound,
    lemma_count_used_none,
    lemma_count_used_update,
    lemma_count_used_zero,
    lemma_first_index_of,
};
use crate::tree::Namespace;

verus! {

/// Where the entry of a child called `text` lies: within the child array, at
/// an entry that names such a child, with no such entry before it.
pub proof fn lemma_child_entry(ns: Namespace, d: int, text: Seq<u8>, from: int)
    requires
        0 <= from <= 20,
    ensures
        from <= ns.child_entry(d, text, from) <= 20,
        ns.child_entry(d, text, from) < 20 ==> ns.child_named(
            d,
            ns.child_entry(d, text, from),
            text,
        ),
        forall|k: int| from <= k < ns.child_entry(d, text, from) ==> !ns.child_named(d, k, text),
    decreases 20 - from,
{
    if from < 20 && !ns.child_named(d, from, text) {
        lemma_child_entry(ns, d, text, from + 1);
    }
}

/// An entry that names a child called `text`, with no such entry between
/// `from` and it, is the one that the search finds.
pub proof fn lemma_child_entry_is(ns: Namespace, d: int, text: Seq<u8>, from: int, r: int)
    requires
        0 <= from <= r <= 20,
        r < 20 ==> ns.child_named(d, r, text),
        forall|k: int| from <= k < r ==> !ns.child_named(d, k, text),
    ensures
        ns.child_entry(d, text, from) == r,
    decreases r - from,
{
    if from < r {
        lemma_child_entry_is(ns, d, text, from + 1, r);
    }
}

/// A free slot holds the free record, which no live record refers to.
pub proof fn lemma_free_directory_slot(ns: Namespace)
    requires
        ns.wf(),
    ensures
        0 < free_directory_slot(ns.dirs) <= 100,
        free_directory_slot(ns.dirs) < 100 ==> ns.dirs[free_directory_slot(ns.dirs)]
            == empty_directory(),
        forall|k: int| 0 <= k < free_directory_slot(ns.dirs) ==> ns.live_dir(k),
{
    let s = directory_indexes(ns.dirs);
    lemma_first_index_of(s, 100, 0);
    let r = first_index_of(s, 100, 0);
    assert(s[0] == ns.dirs[0].index);
    if r < 100 {
        assert(s[r] == ns.dirs[r].index);
    }
    assert forall|k: int| 0 <= k < r implies ns.live_dir(k) by {
        assert(s[k] == ns.dirs[k].index);
    }
}

/// Creating a child keeps the namespace a tree.
pub proof fn lemma_create_child_wf(ns: Namespace, d: int, text: Seq<u8>)
    requires
        ns.wf(),
        ns.live_dir(d),
        is_text(text),
        ns.create_child_error(d, text) is None,
    ensures
        ns.create_child(d, text).wf(),
{
    let new = ns.create_child(d, text);
    let slot = free_directory_slot(ns.dirs);
    let entry = ns.free_child_entry(d);
    let parent = ns.dirs[d];
    lemma_free_directory_slot(ns);
    lemma_first_index_of(parent.child_indexes, 100, 0);
    lemma_child_entry(ns, d, text, 0);
    lemma_trim_pad(text, 10);
    lemma_count_used_none(no_children(), 100);
    lemma_count_used_update(parent.child_indexes, 100, entry, slot as usize);
    lemma_count_used_bound(parent.child_indexes, 100);
    assert(ns.dir_ok(d));
    assert(slot != d);
    assert(new.dirs[slot].index == slot);
    assert(new.dirs[d].index == d);
    assert forall|x: int| 0 <= x < 100 && x != slot implies (#[trigger] new.dirs[x]).index
        == ns.dirs[x].index && new.dirs[x].parent_index == ns.dirs[x].parent_index
        && new.dirs[x].name == ns.dirs[x].name && new.dirs[x].files_indexes
        == ns.dirs[x].files_indexes by {}
    assert forall|x: int| 0 <= x < 100 && x != slot && x != d implies #[trigger] new.dirs[x]
        == ns.dirs[x] by {}
    assert forall|x: int| ns.live_dir(x) implies new.live_dir(x) by {}
    assert(new.shaped());
    assert forall|x: int| #[trigger] new.live_dir(x) implies new.dir_ok(x) by {
        if x == slot {
            assert(new.child_at(d, entry) == slot);
            assert(new.dirs[x].parent_index == d);
            assert(new.live_dir(d));
            assert(new.dirs[x].child_count == count_used(new.dirs[x].child_indexes, 100));
            assert(new.dir_name(x) == text);
            assert(new.children_ok(x));
            assert(new.files_ok(x));
            assert(new.dir_ok(x));
        } else {
            assert(ns.live_dir(x));
            assert(ns.dir_ok(x));
            let p = ns.dirs[x].parent_index as int;
            assert(new.live_dir(p));
            assert forall|j: int| 0 <= j < 20 && x != d implies new.child_at(x, j) == ns.child_at(
                x,
                j,
            ) by {}
            assert forall|j: int| 0 <= j < 20 && j != entry implies new.child_at(d, j)
                == ns.child_at(d, j) by {}
            assert forall|j: int| 0 <= j < 5 implies new.file_at(x, j) == ns.file_at(x, j) by {}
            assert forall|j: int| 0 <= j < 20 && #[trigger] new.child_at(x, j) != 100 implies {
                &&& 0 < new.child_at(x, j) < 100
                &&& new.dirs[new.child_at(x, j) as int].index == new.child_at(x, j)
                &&& new.dirs[new.child_at(x, j) as int].parent_index == x
            } by {
                if x == d && j == entry {
                } else {
                    assert(ns.child_at(x, j) != 100);
                }
            }
            assert forall|j: int, k: int|
                0 <= j < k < 20 && #[trigger] new.child_at(x, j) != 100 && #[trigger] new.child_at(
                    x,
                    k,
                ) != 100 implies {
                &&& new.child_at(x, j) != new.child_at(x, k)
                &&& new.dir_name(new.child_at(x, j) as int) != new.dir_name(
                    new.child_at(x, k) as int,
                )
            } by {
                if x == d && (j == entry || k == entry) {
                    let other = if j == entry {
                        k
                    } else {
                        j
                    };
                    assert(ns.child_at(d, other) != 100);
                    assert(!ns.child_named(d, other, text));
                    assert(new.dir_name(slot) == text);
                } else {
                    assert(ns.child_at(x, j) != 100);
                    assert(ns.child_at(x, k) != 100);
                }
            }
            assert(new.children_ok(x));
            assert(new.files_ok(x));
            if x != 0 {
                let w = choose|j: int| 0 <= j < 20 && #[trigger] ns.child_at(p, j) == x;
                assert(new.child_at(p, w) == x);
            }
            assert(new.dir_ok(x));
        }
    }
    assert forall|f: int| #[trigger] new.live_file(f) implies new.file_ok(f) by {
        assert(ns.live_file(f));
        assert(ns.file_ok(f));
        let o = ns.files[f].folder_index as int;
        let w = choose|j: int| 0 <= j < 5 && #[trigger] ns.file_at(o, j) == f;
        assert(new.file_at(o, w) == f);
    }
    let depth = choose|depth: Seq<nat>| #[trigger] ns.ranked(depth);
    let deeper = depth.update(slot, depth[d] + 1);
    assert(new.ranked(deeper)) by {
        assert forall|x: int| 0 < x < 100 && #[trigger] new.live_dir(x) implies deeper[x]
            == deeper[new.dirs[x].parent_index as int] + 1 by {
            if x != slot {
                assert(ns.live_dir(x));
                assert(ns.dir_ok(x));
            }
        }
    }
}

/// A child is not the directory that lists it.
pub proof fn lemma_child_differs(ns: Namespace, d: int, j: int)
    requires
        ns.wf(),
        ns.live_dir(d),
        0 <= j < 20,
        ns.child_at(d, j) != 100,
    ensures
        ns.child_at(d, j) != d,
        ns.live_dir(ns.child_at(d, j) as int),
        ns.child_at(d, j) != 0,
{
    assert(ns.dir_ok(d));
    let c = ns.child_at(d, j) as int;
    let depth = choose|depth: Seq<nat>| #[trigger] ns.ranked(depth);
    assert(ns.live_dir(c));
}

/// Deleting a child keeps the namespace a tree.
pub proof fn lemma_delete_child_wf(ns: Namespace, d: int, text: Seq<u8>)
    requires
        ns.wf(),
        ns.live_dir(d),
        ns.delete_child_error(d, text) is None,
    ensures
        ns.delete_child(d, text).wf(),
{
    let new = ns.delete_child(d, text);
    let entry = ns.child_entry(d, text, 0);
    let target = ns.child_at(d, entry) as int;
    let parent = ns.dirs[d];
    lemma_child_entry(ns, d, text, 0);
    lemma_child_differs(ns, d, entry);
    assert(ns.dir_ok(d));
    assert(ns.dir_ok(target));
    lemma_count_used_zero(ns.dirs[target].child_indexes, 100);
    lemma_count_used_update(parent.child_indexes, 100, entry, 100);
    assert forall|x: int| 0 <= x < 100 && x != target implies (#[trigger] new.dirs[x]).index
        == ns.dirs[x].index && new.dirs[x].parent_index == ns.dirs[x].parent_index
        && new.dirs[x].name == ns.dirs[x].name && new.dirs[x].files_indexes
        == ns.dirs[x].files_indexes by {}
    assert forall|x: int| 0 <= x < 100 && x != target && x != d implies #[trigger] new.dirs[x]
        == ns.dirs[x] by {}
    assert forall|x: int| new.live_dir(x) implies ns.live_dir(x) && x != target by {}
    assert forall|f: int| new.live_file(f) implies ns.live_file(f) && new.files[f] == ns.files[f]
        && ns.files[f].folder_index != target by {}
    assert(new.shaped());
    assert forall|x: int| #[trigger] new.live_dir(x) implies new.dir_ok(x) by {
        assert(ns.live_dir(x));
        assert(ns.dir_ok(x));
        let p = ns.dirs[x].parent_index as int;
        if x != 0 {
            let w = choose|j: int| 0 <= j < 20 && #[trigger] ns.child_at(p, j) == x;
            if p == target {
                assert(ns.dirs[target].child_indexes[w] == 100);
            }
            assert(new.child_at(p, w) == x);
        }
        assert(new.live_dir(p));
        assert forall|j: int| 0 <= j < 20 && x != d implies new.child_at(x, j) == ns.child_at(
            x,
            j,
        ) by {}
        assert forall|j: int| 0 <= j < 20 && j != entry implies new.child_at(d, j) == ns.child_at(
            d,
            j,
        ) by {}
        assert forall|j: int| 0 <= j < 5 implies new.file_at(x, j) == ns.file_at(x, j) by {}
        assert forall|j: int| 0 <= j < 20 && #[trigger] new.child_at(x, j) != 100 implies {
            &&& 0 < new.child_at(x, j) < 100
            &&& new.dirs[new.child_at(x, j) as int].index == new.child_at(x, j)
            &&& new.dirs[new.child_at(x, j) as int].parent_index == x
        } by {
            assert(ns.child_at(x, j) != 100);
            if x == d {
                assert(ns.child_at(d, entry) != 100);
                assert(j != entry);
                if j < entry {
                    assert(ns.child_at(d, j) != ns.child_at(d, entry));
                } else {
                    assert(ns.child_at(d, entry) != ns.child_at(d, j));
                }
            }
        }
        assert forall|j: int, k: int|
            0 <= j < k < 20 && #[trigger] new.child_at(x, j) != 100 && #[trigger] new.child_at(
                x,
                k,
            ) != 100 implies {
            &&& new.child_at(x, j) != new.child_at(x, k)
            &&& new.dir_name(new.child_at(x, j) as int) != new.dir_name(new.child_at(x, k) as int)
        } by {
            assert(ns.child_at(x, j) != 100);
            assert(ns.child_at(x, k) != 100);
            if x == d {
                assert(ns.child_at(d, entry) != 100);
                if j < entry {
                    assert(ns.child_at(d, j) != ns.child_at(d, entry));
                } else {
                    assert(ns.child_at(d, entry) != ns.child_at(d, j));
                }
                if k < entry {
                    assert(ns.child_at(d, k) != ns.child_at(d, entry));
                } else {
                    assert(ns.child_at(d, entry) != ns.child_at(d, k));
                }
            }
        }
        assert(new.children_ok(x));
        assert forall|j: int| 0 <= j < 5 && #[trigger] new.file_at(x, j) != 10 implies {
            &&& new.file_at(x, j) < 10
            &&& new.files[new.file_at(x, j) as int].index == new.file_at(x, j)
            &&& new.files[new.file_at(x, j) as int].folder_index == x
        } by {
            assert(ns.file_at(x, j) != 10);
        }
        assert(new.files_ok(x));
        assert(new.dir_ok(x));
    }
    assert forall|f: int| #[trigger] new.live_file(f) implies new.file_ok(f) by {
        assert(ns.live_file(f));
        assert(ns.file_ok(f));
        let o = ns.files[f].folder_index as int;
        let w = choose|j: int| 0 <= j < 5 && #[trigger] ns.file_at(o, j) == f;
        assert(new.file_at(o, w) == f);
    }
    let depth = choose|depth: Seq<nat>| #[trigger] ns.ranked(depth);
    assert(new.ranked(depth)) by {
        assert forall|x: int| 0 < x < 100 && #[trigger] new.live_dir(x) implies depth[x]
            == depth[new.dirs[x].parent_index as int] + 1 by {
            assert(ns.live_dir(x));
        }
    }
}

/// Where the entry of a file called `text` lies: within the file array, at
/// an entry that names such a file, with no such entry before it.
pub proof fn lemma_file_entry(ns: Namespace, d: int, text: Seq<u8>, from: int)
    requires
        0 <= from <= 5,
    ensures
        from <= ns.file_entry(d, text, from) <= 5,
        ns.file_entry(d, text, from) < 5 ==> ns.file_named(
            d,
            ns.file_entry(d, text, from),
            text,
        ),
        forall|k: int| from <= k < ns.file_entry(d, text, from) ==> !ns.file_named(d, k, text),
    decreases 5 - from,
{
    if from < 5 && !ns.file_named(d, from, text) {
        lemma_file_entry(ns, d, text, from + 1);
    }
}

/// An entry that names a file called `text`, with no such entry between
/// `from` and it, is the one that the search finds.
pub proof fn lemma_file_entry_is(ns: Namespace, d: int, text: Seq<u8>, from: int, r: int)
    requires
        0 <= from <= r <= 5,
        r < 5 ==> ns.file_named(d, r, text),
        forall|k: int| from <= k < r ==> !ns.file_named(d, k, text),
    ensures
        ns.file_entry(d, text, from) == r,
    decreases r - from,
{
    if from < r {
        lemma_file_entry_is(ns, d, text, from + 1, r);
    }
}

/// A free file slot holds the free record.
pub proof fn lemma_free_file_slot(ns: Namespace)
    requires
        ns.wf(),
    ensures
        0 <= free_file_slot(ns.files) <= 10,
        free_file_slot(ns.files) < 10 ==> ns.files[free_file_slot(ns.files)] == empty_file(),
{
    let s = file_indexes(ns.files);
    lemma_first_index_of(s, 10, 0);
    let r = first_index_of(s, 10, 0);
    if r < 10 {
        assert(s[r] == ns.files[r].index);
    }
}

/// A change that touches only files keeps every directory in order, as long
/// as each file entry of a directory still names a live file of that directory.
proof fn lemma_dirs_kept(ns: Namespace, new: Namespace)
    requires
        ns.wf(),
        new.dirs.len() == 100,
        forall|x: int|
            0 <= x < 100 ==> (#[trigger] new.dirs[x]).index == ns.dirs[x].index
                && new.dirs[x].parent_index == ns.dirs[x].parent_index && new.dirs[x].name
                == ns.dirs[x].name && new.dirs[x].child_indexes == ns.dirs[x].child_indexes
                && new.dirs[x].child_count == ns.dirs[x].child_count,
        forall|x: int| #[trigger] new.live_dir(x) ==> new.files_ok(x),
    ensures
        forall|x: int| #[trigger] new.live_dir(x) ==> new.dir_ok(x),
        exists|depth: Seq<nat>| #[trigger] new.ranked(depth),
        new.dirs[0].index == 0,
        new.dirs[0].parent_index == 0,
{
    assert forall|x: int| #[trigger] new.live_dir(x) implies new.dir_ok(x) by {
        assert(ns.live_dir(x));
        assert(ns.dir_ok(x));
        let p = ns.dirs[x].parent_index as int;
        assert(new.live_dir(p));
        assert forall|j: int| 0 <= j < 20 implies new.child_at(x, j) == ns.child_at(x, j) by {}
        assert forall|j: int| 0 <= j < 20 && #[trigger] new.child_at(x, j) != 100 implies {
            &&& 0 < new.child_at(x, j) < 100
            &&& new.dirs[new.child_at(x, j) as int].index == new.child_at(x, j)
            &&& new.dirs[new.child_at(x, j) as int].parent_index == x
        } by {
            assert(ns.child_at(x, j) != 100);
        }
        assert forall|j: int, k: int|
            0 <= j < k < 20 && #[trigger] new.child_at(x, j) != 100 && #[trigger] new.child_at(
                x,
                k,
            ) != 100 implies {
            &&& new.child_at(x, j) != new.child_at(x, k)
            &&& new.dir_name(new.child_at(x, j) as int) != new.dir_name(new.child_at(x, k) as int)
        } by {
            assert(ns.child_at(x, j) != 100);
            assert(ns.child_at(x, k) != 100);
        }
        assert(new.children_ok(x));
        if x != 0 {
            let w = choose|j: int| 0 <= j < 20 && #[trigger] ns.child_at(p, j) == x;
            assert(new.child_at(p, w) == x);
        }
        assert(new.dir_name(x) == ns.dir_name(x));
        assert(new.dir_ok(x));
    }
    let depth = choose|depth: Seq<nat>| #[trigger] ns.ranked(depth);
    assert(new.ranked(depth)) by {
        assert forall|x: int| 0 < x < 100 && #[trigger] new.live_dir(x) implies depth[x]
            == depth[new.dirs[x].parent_index as int] + 1 by {
            assert(ns.live_dir(x));
        }
    }
}

/// Creating a file keeps the namespace a tree.
pub proof fn lemma_create_file_wf(ns: Namespace, d: int, text: Seq<u8>)
    requires
        ns.wf(),
        ns.live_dir(d),
        ns.create_file_error(d, text) is None,
    ensures
        ns.create_file(d, text).wf(),
{
    let new = ns.create_file(d, text);
    let slot = free_file_slot(ns.files);
    let entry = ns.free_file_entry(d);
    lemma_free_file_slot(ns);
    lemma_first_index_of(ns.dirs[d].files_indexes, 10, 0);
    assert(ns.dir_ok(d));
    assert forall|x: int, j: int| 0 <= x < 100 && 0 <= j < 5 && !(x == d && j == entry) implies
        #[trigger] new.file_at(x, j) == ns.file_at(x, j) by {}
    assert(new.file_at(d, entry) == slot);
    assert forall|g: int| 0 <= g < 10 && g != slot implies #[trigger] new.files[g]
        == ns.files[g] by {}
    assert(new.shaped());
    assert forall|x: int| #[trigger] new.live_dir(x) implies new.files_ok(x) by {
        assert(ns.live_dir(x));
        assert(ns.dir_ok(x));
        assert forall|j: int| 0 <= j < 5 && #[trigger] new.file_at(x, j) != 10 implies {
            &&& new.file_at(x, j) < 10
            &&& new.files[new.file_at(x, j) as int].index == new.file_at(x, j)
            &&& new.files[new.file_at(x, j) as int].folder_index == x
        } by {
            if !(x == d && j == entry) {
                assert(ns.file_at(x, j) != 10);
            }
        }
        assert forall|j: int, k: int|
            0 <= j < k < 5 && #[trigger] new.file_at(x, j) != 10 && #[trigger] new.file_at(x, k)
                != 10 implies new.file_at(x, j) != new.file_at(x, k) by {
            if x == d && (j == entry || k == entry) {
                let other = if j == entry {
                    k
                } else {
                    j
                };
                assert(ns.file_at(d, other) != 10);
            } else {
                assert(ns.file_at(x, j) != 10);
                assert(ns.file_at(x, k) != 10);
            }
        }
    }
    lemma_dirs_kept(ns, new);
    assert forall|g: int| #[trigger] new.live_file(g) implies new.file_ok(g) by {
        if g != slot {
            assert(ns.live_file(g));
            assert(ns.file_ok(g));
            let o = ns.files[g].folder_index as int;
            let w = choose|j: int| 0 <= j < 5 && #[trigger] ns.file_at(o, j) == g;
            assert(new.file_at(o, w) == g);
        } else {
            assert(new.live_dir(d));
        }
    }
}

/// Deleting a file keeps the namespace a tree.
pub proof fn lemma_delete_file_wf(ns: Namespace, d: int, text: Seq<u8>)
    requires
        ns.wf(),
        ns.live_dir(d),
        ns.find_file(d, text) is Ok,
    ensures
        ns.delete_file(d, text).wf(),
{
    let new = ns.delete_file(d, text);
    let entry = ns.file_entry(d, text, 0);
    let target = ns.file_at(d, entry) as int;
    lemma_file_entry(ns, d, text, 0);
    assert(ns.dir_ok(d));
    assert(ns.file_at(d, entry) != 10);
    assert forall|x: int, j: int| 0 <= x < 100 && 0 <= j < 5 && !(x == d && j == entry) implies
        #[trigger] new.file_at(x, j) == ns.file_at(x, j) by {}
    assert forall|g: int| 0 <= g < 10 && g != target implies #[trigger] new.files[g]
        == ns.files[g] by {}
    assert(new.shaped());
    assert forall|x: int| #[trigger] new.live_dir(x) implies new.files_ok(x) by {
        assert(ns.live_dir(x));
        assert(ns.dir_ok(x));
        assert forall|j: int| 0 <= j < 5 && #[trigger] new.file_at(x, j) != 10 implies {
            &&& new.file_at(x, j) < 10
            &&& new.files[new.file_at(x, j) as int].index == new.file_at(x, j)
            &&& new.files[new.file_at(x, j) as int].folder_index == x
        } by {
            assert(ns.file_at(x, j) != 10);
            if x == d {
                if j < entry {
                    assert(ns.file_at(d, j) != ns.file_at(d, entry));
                } else {
                    assert(ns.file_at(d, entry) != ns.file_at(d, j));
                }
            }
        }
        assert forall|j: int, k: int|
            0 <= j < k < 5 && #[trigger] new.file_at(x, j) != 10 && #[trigger] new.file_at(x, k)
                != 10 implies new.file_at(x, j) != new.file_at(x, k) by {
            assert(ns.file_at(x, j) != 10);
            assert(ns.file_at(x, k) != 10);
        }
    }
    lemma_dirs_kept(ns, new);
    assert forall|g: int| #[trigger] new.live_file(g) implies new.file_ok(g) by {
        assert(ns.live_file(g));
        assert(ns.file_ok(g));
        let o = ns.files[g].folder_index as int;
        let w = choose|j: int| 0 <= j < 5 && #[trigger] ns.file_at(o, j) == g;
        assert(new.file_at(o, w) == g);
    }
}

/// Changing the text of a live file, or how much of it is meaningful, keeps
/// the namespace a tree.
pub proof fn lemma_file_change_wf(ns: Namespace, f: int, count_lines: usize, content: Seq<u8>)
    requires
        ns.wf(),
        ns.live_file(f),
        count_lines <= 25,
        content.len() == 2000,
    ensures
        ns.with_count_lines(f, count_lines).wf(),
        ns.with_content(f, content).wf(),
        ns.with_line_added(f).wf(),
{
    lemma_files_kept(ns, ns.with_count_lines(f, count_lines));
    lemma_files_kept(ns, ns.with_content(f, content));
    if ns.files[f].count_lines < 25 {
        lemma_files_kept(ns, ns.with_count_lines(f, (ns.files[f].count_lines + 1) as usize));
    }
}

/// A change that keeps the directories, and of each file its slot, owner and
/// sizes, keeps the namespace a tree.
proof fn lemma_files_kept(ns: Namespace, new: Namespace)
    requires
        ns.wf(),
        new.dirs == ns.dirs,
        new.files.len() == 10,
        forall|g: int|
            0 <= g < 10 ==> (#[trigger] new.files[g]).index == ns.files[g].index
                && new.files[g].folder_index == ns.files[g].folder_index && new.files[g].name.len()
                == 10 && new.files[g].content.len() == 2000 && new.files[g].count_lines <= 25,
        forall|g: int|
            0 <= g < 10 && ns.files[g].index != g ==> #[trigger] new.files[g] == ns.files[g],
    ensures
        new.wf(),
{
    assert(new.shaped());
    assert forall|x: int| #[trigger] new.live_dir(x) implies new.files_ok(x) by {
        assert(ns.live_dir(x));
        assert(ns.dir_ok(x));
        assert forall|j: int| 0 <= j < 5 implies new.file_at(x, j) == ns.file_at(x, j) by {}
        assert forall|j: int| 0 <= j < 5 && #[trigger] new.file_at(x, j) != 10 implies {
            &&& new.file_at(x, j) < 10
            &&& new.files[new.file_at(x, j) as int].index == new.file_at(x, j)
            &&& new.files[new.file_at(x, j) as int].folder_index == x
        } by {
            assert(ns.file_at(x, j) != 10);
        }
        assert forall|j: int, k: int|
            0 <= j < k < 5 && #[trigger] new.file_at(x, j) != 10 && #[trigger] new.file_at(x, k)
                != 10 implies new.file_at(x, j) != new.file_at(x, k) by {
            assert(ns.file_at(x, j) != 10);
            assert(ns.file_at(x, k) != 10);
        }
    }
    lemma_dirs_kept(ns, new);
    assert forall|g: int| #[trigger] new.live_file(g) implies new.file_ok(g) by {
        assert(ns.live_file(g));
        assert(ns.file_ok(g));
        let o = ns.files[g].folder_index as int;
        let w = choose|j: int| 0 <= j < 5 && #[trigger] ns.file_at(o, j) == g;
        assert(new.file_at(o, w) == g);
    }
}

} // verus!
