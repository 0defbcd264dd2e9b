//! What holds of the operations taken together.
use vstd::prelude::*;
use vstd::string::{StringSliceAdditionalSpecFns, is_ascii_spec_bytes};
use crate::arena::{
    directory_indexes,
    empty_directory,
    free_directory_slot,
    lemma_live_directories_update,
    live_directories,
};
use crate::commands::{Command, command_named, command_not_found_text, error_text};
use crate::error::ShellError;
use crate::fs::lemma_initial_wf;
use crate::invariants::{
    lemma_child_differs,
    lemma_child_entry,
    lemma_child_entry_is,
    lemma_create_child_wf,
    lemma_create_file_wf,
    lemma_delete_child_wf,
    lemma_delete_file_wf,
    lemma_file_change_wf,
    lemma_file_entry,
    lemma_free_directory_slot,
    lemma_free_file_slot,
};
use crate::listing::{ancestor, lemma_ancestor};
use crate::names::{
    DOT,
    LINE_FEED,
    SPACE,
    is_text,
    lemma_trim_concat,
    lemma_trim_nul,
    lemma_trim_pad,
    lemma_trim_pad_any,
    trim_nul,
};
use crate::parser::{
    argument_part,
    argument_start,
    command_end,
    command_part,
    has_separator,
    lemma_scan_command,
    split_argument,
    split_command,
};
use crate::shell::{ShellState, TAB, lemma_printed_wf, prompt_text};
use crate::vga_buf::lemma_print_wf;
use crate::slots::{lemma_count_used_zero, lemma_first_index_of, lemma_first_index_of_is};
use crate::tree::Namespace;

verus! {

/// The names of the twelve commands, byte for byte.
pub proof fn law_command_names()
    ensures
        "echo".spec_bytes() == seq![0x65u8, 0x63u8, 0x68u8, 0x6fu8],
        "curdir".spec_bytes() == seq![0x63u8, 0x75u8, 0x72u8, 0x64u8, 0x69u8, 0x72u8],
        "mkdir".spec_bytes() == seq![0x6du8, 0x6bu8, 0x64u8, 0x69u8, 0x72u8],
        "clear".spec_bytes() == seq![0x63u8, 0x6cu8, 0x65u8, 0x61u8, 0x72u8],
        "cd".spec_bytes() == seq![0x63u8, 0x64u8],
        "dirtree".spec_bytes() == seq![0x64u8, 0x69u8, 0x72u8, 0x74u8, 0x72u8, 0x65u8, 0x65u8],
        "deldir".spec_bytes() == seq![0x64u8, 0x65u8, 0x6cu8, 0x64u8, 0x69u8, 0x72u8],
        "ls".spec_bytes() == seq![0x6cu8, 0x73u8],
        "mkfile".spec_bytes() == seq![0x6du8, 0x6bu8, 0x66u8, 0x69u8, 0x6cu8, 0x65u8],
        "delfile".spec_bytes() == seq![0x64u8, 0x65u8, 0x6cu8, 0x66u8, 0x69u8, 0x6cu8, 0x65u8],
        "readfile".spec_bytes() == seq![
            0x72u8, 0x65u8, 0x61u8, 0x64u8, 0x66u8, 0x69u8, 0x6cu8, 0x65u8,
        ],
        "editfile".spec_bytes() == seq![
            0x65u8, 0x64u8, 0x69u8, 0x74u8, 0x66u8, 0x69u8, 0x6cu8, 0x65u8,
        ],
{
    assert("echo".spec_bytes() =~= seq![0x65u8, 0x63u8, 0x68u8, 0x6fu8]) by {
        reveal_strlit("echo");
        is_ascii_spec_bytes("echo");
    }
    assert("curdir".spec_bytes() =~= seq![0x63u8, 0x75u8, 0x72u8, 0x64u8, 0x69u8, 0x72u8]) by {
        reveal_strlit("curdir");
        is_ascii_spec_bytes("curdir");
    }
    assert("mkdir".spec_bytes() =~= seq![0x6du8, 0x6bu8, 0x64u8, 0x69u8, 0x72u8]) by {
        reveal_strlit("mkdir");
        is_ascii_spec_bytes("mkdir");
    }
    assert("clear".spec_bytes() =~= seq![0x63u8, 0x6cu8, 0x65u8, 0x61u8, 0x72u8]) by {
        reveal_strlit("clear");
        is_ascii_spec_bytes("clear");
    }
    assert("cd".spec_bytes() =~= seq![0x63u8, 0x64u8]) by {
        reveal_strlit("cd");
        is_ascii_spec_bytes("cd");
    }
    assert("dirtree".spec_bytes() =~= seq![
        0x64u8, 0x69u8, 0x72u8, 0x74u8, 0x72u8, 0x65u8, 0x65u8,
    ]) by {
        reveal_strlit("dirtree");
        is_ascii_spec_bytes("dirtree");
    }
    assert("deldir".spec_bytes() =~= seq![0x64u8, 0x65u8, 0x6cu8, 0x64u8, 0x69u8, 0x72u8]) by {
        reveal_strlit("deldir");
        is_ascii_spec_bytes("deldir");
    }
    assert("ls".spec_bytes() =~= seq![0x6cu8, 0x73u8]) by {
        reveal_strlit("ls");
        is_ascii_spec_bytes("ls");
    }
    assert("mkfile".spec_bytes() =~= seq![0x6du8, 0x6bu8, 0x66u8, 0x69u8, 0x6cu8, 0x65u8]) by {
        reveal_strlit("mkfile");
        is_ascii_spec_bytes("mkfile");
    }
    assert("delfile".spec_bytes() =~= seq![
        0x64u8, 0x65u8, 0x6cu8, 0x66u8, 0x69u8, 0x6cu8, 0x65u8,
    ]) by {
        reveal_strlit("delfile");
        is_ascii_spec_bytes("delfile");
    }
    assert("readfile".spec_bytes() =~= seq![
        0x72u8, 0x65u8, 0x61u8, 0x64u8, 0x66u8, 0x69u8, 0x6cu8, 0x65u8,
    ]) by {
        reveal_strlit("readfile");
        is_ascii_spec_bytes("readfile");
    }
    assert("editfile".spec_bytes() =~= seq![
        0x65u8, 0x64u8, 0x69u8, 0x74u8, 0x66u8, 0x69u8, 0x6cu8, 0x65u8,
    ]) by {
        reveal_strlit("editfile");
        is_ascii_spec_bytes("editfile");
    }
}

/// A child that was just created is found under its name, in the slot that
/// the creation gave.
pub proof fn law_created_child_resolves(ns: Namespace, d: int, text: Seq<u8>)
    requires
        ns.wf(),
        ns.live_dir(d),
        is_text(text),
        ns.create_child_error(d, text) is None,
    ensures
        ns.create_child(d, text).resolve_child(d, text) == Ok::<usize, ShellError>(
            free_directory_slot(ns.dirs) as usize,
        ),
{
    let new = ns.create_child(d, text);
    let slot = free_directory_slot(ns.dirs);
    let entry = ns.free_child_entry(d);
    lemma_free_directory_slot(ns);
    lemma_first_index_of(ns.dirs[d].child_indexes, 100, 0);
    lemma_child_entry(ns, d, text, 0);
    lemma_trim_pad(text, 10);
    assert(ns.dir_ok(d));
    assert(slot != d);
    assert(new.child_at(d, entry) == slot);
    assert(new.dir_name(slot) == text);
    assert forall|k: int| 0 <= k < entry implies !new.child_named(d, k, text) by {
        assert(new.child_at(d, k) == ns.child_at(d, k));
        assert(ns.child_at(d, k) != 100);
        assert(!ns.child_named(d, k, text));
        let c = ns.child_at(d, k) as int;
        assert(c != slot);
        assert(new.dirs[c].name == ns.dirs[c].name);
    }
    lemma_child_entry_is(new, d, text, 0, entry);
}

/// A child can be deleted exactly when it has no child of its own. One that
/// has a child is refused with `NotEmpty`.
pub proof fn law_delete_needs_empty(ns: Namespace, d: int, text: Seq<u8>)
    requires
        ns.wf(),
        ns.live_dir(d),
        ns.resolve_child(d, text) is Ok,
    ensures
        ns.delete_child_error(d, text) is None <==> ns.dirs[ns.resolve_child(
            d,
            text,
        ).unwrap() as int].child_count == 0,
        ns.delete_child_error(d, text) is None <==> (forall|j: int|
            0 <= j < 20 ==> ns.child_at(ns.resolve_child(d, text).unwrap() as int, j) == 100),
        ns.delete_child_error(d, text) is Some ==> ns.delete_child_error(d, text) == Some(
            ShellError::NotEmpty,
        ),
{
    let target = ns.resolve_child(d, text).unwrap() as int;
    lemma_child_entry(ns, d, text, 0);
    lemma_child_differs(ns, d, ns.child_entry(d, text, 0));
    assert(ns.dir_ok(target));
    lemma_count_used_zero(ns.dirs[target].child_indexes, 100);
    if ns.delete_child_error(d, text) is None {
        assert forall|j: int| 0 <= j < 20 implies ns.child_at(target, j) == 100 by {
            assert(ns.dirs[target].child_indexes[j] == 100);
        }
    }
    if forall|j: int| 0 <= j < 20 ==> ns.child_at(target, j) == 100 {
        assert forall|j: int| 0 <= j < 20 implies ns.dirs[target].child_indexes[j] == 100 by {
            assert(ns.child_at(target, j) == 100);
        }
    }
}

/// The slot of a deleted directory is free again: the next directory that
/// is created, wherever, takes that slot or a lower one that was free
/// before, and takes that very slot where no lower one was free.
pub proof fn law_freed_slot_is_reused(
    ns: Namespace,
    d: int,
    text: Seq<u8>,
    d2: int,
    text2: Seq<u8>,
)
    requires
        ns.wf(),
        ns.live_dir(d),
        ns.delete_child_error(d, text) is None,
        ns.delete_child(d, text).live_dir(d2),
        is_text(text2),
        ns.delete_child(d, text).create_child_error(d2, text2) is None,
    ensures
        !ns.delete_child(d, text).live_dir(ns.resolve_child(d, text).unwrap() as int),
        free_directory_slot(ns.delete_child(d, text).dirs) <= ns.resolve_child(d, text).unwrap(),
        free_directory_slot(ns.dirs) > ns.resolve_child(d, text).unwrap() ==> free_directory_slot(
            ns.delete_child(d, text).dirs,
        ) == ns.resolve_child(d, text).unwrap(),
        ns.delete_child(d, text).create_child(d2, text2).live_dir(
            free_directory_slot(ns.delete_child(d, text).dirs),
        ),
{
    let after = ns.delete_child(d, text);
    let target = ns.resolve_child(d, text).unwrap() as int;
    lemma_child_entry(ns, d, text, 0);
    lemma_child_differs(ns, d, ns.child_entry(d, text, 0));
    lemma_delete_child_wf(ns, d, text);
    lemma_free_directory_slot(ns);
    lemma_free_directory_slot(after);
    assert(after.dirs[target] == empty_directory());
    let before_indexes = directory_indexes(ns.dirs);
    let after_indexes = directory_indexes(after.dirs);
    lemma_first_index_of(after_indexes, 100, 0);
    assert(after_indexes[target] == 100);
    if free_directory_slot(ns.dirs) > target {
        assert forall|k: int| 0 <= k < target implies after_indexes[k] != 100 by {
            assert(ns.live_dir(k));
            assert(after.dirs[k].index == ns.dirs[k].index);
        }
        lemma_first_index_of_is(after_indexes, 100, 0, target);
    }
    let slot = free_directory_slot(after.dirs);
    assert(slot != d2);
}

/// There is at least one live directory, the root, and there are no more
/// than the pool holds. Creating a child makes one more, deleting a child
/// one less.
pub proof fn law_live_count(ns: Namespace, d: int, text: Seq<u8>)
    requires
        ns.wf(),
        ns.live_dir(d),
    ensures
        1 <= live_directories(ns.dirs) <= 100,
        ns.create_child_error(d, text) is None ==> live_directories(ns.create_child(d, text).dirs)
            == live_directories(ns.dirs) + 1,
        ns.delete_child_error(d, text) is None ==> live_directories(ns.delete_child(d, text).dirs)
            == live_directories(ns.dirs) - 1,
{
    lemma_live_directories_update(ns.dirs, 0, empty_directory());
    assert(ns.dir_ok(d));
    if ns.create_child_error(d, text) is None {
        let slot = free_directory_slot(ns.dirs);
        lemma_free_directory_slot(ns);
        let fresh = ns.create_child(d, text).dirs[slot];
        let first = ns.dirs.update(slot, fresh);
        lemma_live_directories_update(ns.dirs, slot, fresh);
        lemma_live_directories_update(first, d, ns.create_child(d, text).dirs[d]);
        assert(first.update(d, ns.create_child(d, text).dirs[d]) =~= ns.create_child(d, text).dirs);
    }
    if ns.delete_child_error(d, text) is None {
        lemma_child_entry(ns, d, text, 0);
        lemma_child_differs(ns, d, ns.child_entry(d, text, 0));
        let target = ns.child_at(d, ns.child_entry(d, text, 0)) as int;
        let first = ns.dirs.update(target, empty_directory());
        lemma_live_directories_update(ns.dirs, target, empty_directory());
        lemma_live_directories_update(first, d, ns.delete_child(d, text).dirs[d]);
        assert(first.update(d, ns.delete_child(d, text).dirs[d]) =~= ns.delete_child(d, text).dirs);
    }
}

/// `cd` to a name that no child of the current directory has, and that is
/// not the one dot that stands for the parent, leaves the shell where it is
/// and prints that the folder was not found, with the name.
pub proof fn law_cd_unknown_stays(state: ShellState, argument: Seq<u8>)
    requires
        state.wf(),
        argument != seq![DOT],
        state.namespace.child_entry(state.current_directory as int, argument, 0) >= 20,
    ensures
        state.outcome(Command::Cd, argument) == Err::<(), ShellError>(ShellError::NotFound),
        state.run(Command::Cd, argument) == (ShellState {
            screen: state.screen.print("\n[Error] folder not found: ".spec_bytes() + argument),
            ..state
        }),
{
}

/// A live file is listed by one directory only, the one it names as its
/// owner, and in one entry only.
pub proof fn law_file_has_one_owner(ns: Namespace, f: int, d: int, j: int, d2: int, j2: int)
    requires
        ns.wf(),
        ns.live_file(f),
        ns.live_dir(d),
        ns.live_dir(d2),
        0 <= j < 5,
        0 <= j2 < 5,
        ns.file_at(d, j) == f,
        ns.file_at(d2, j2) == f,
    ensures
        d == ns.files[f].folder_index,
        d2 == d,
        j2 == j,
        exists|k: int| 0 <= k < 5 && #[trigger] ns.file_at(ns.files[f].folder_index as int, k) == f,
{
    assert(ns.dir_ok(d));
    assert(ns.dir_ok(d2));
    assert(ns.file_ok(f));
    if j < j2 {
        assert(ns.file_at(d, j) != ns.file_at(d, j2));
    }
    if j2 < j {
        assert(ns.file_at(d, j2) != ns.file_at(d, j));
    }
}

/// No directory is its own ancestor: going up from a live directory other
/// than the root, by one step or more, never leads back to it.
pub proof fn law_no_directory_is_its_own_ancestor(ns: Namespace, d: int, n: nat)
    requires
        ns.wf(),
        ns.live_dir(d),
        d != 0,
        n >= 1,
    ensures
        ancestor(ns, d, n) != d,
{
    let depth = choose|depth: Seq<nat>| #[trigger] ns.ranked(depth);
    assert(ns.dir_ok(d));
    if n <= depth[d] {
        lemma_ancestor(ns, depth, d, n);
    } else {
        lemma_ancestor(ns, depth, d, depth[d]);
        let top = ancestor(ns, d, depth[d]);
        assert(top == 0) by {
            if top != 0 {
                assert(ns.live_dir(top));
            }
        }
        lemma_ancestor_joined(ns, d, depth[d], (n - depth[d]) as nat);
        lemma_root_stays(ns, (n - depth[d]) as nat);
    }
}

/// Going up `a` steps and then `b` steps is going up `a + b` steps.
proof fn lemma_ancestor_joined(ns: Namespace, d: int, a: nat, b: nat)
    ensures
        ancestor(ns, d, a + b) == ancestor(ns, ancestor(ns, d, a), b),
    decreases a,
{
    if a > 0 {
        lemma_ancestor_joined(ns, ns.dirs[d].parent_index as int, (a - 1) as nat, b);
        assert(ancestor(ns, d, a + b) == ancestor(
            ns,
            ns.dirs[d].parent_index as int,
            (a + b - 1) as nat,
        ));
    }
}

/// Going up from the root leads to the root.
proof fn lemma_root_stays(ns: Namespace, n: nat)
    requires
        ns.wf(),
    ensures
        ancestor(ns, 0, n) == 0,
    decreases n,
{
    if n > 0 {
        lemma_root_stays(ns, (n - 1) as nat);
    }
}

/// After `mkdir` made a directory, `cd` with the same name enters it: the
/// current directory is the new slot, whose parent is the directory the
/// shell was in, and `cd` changes nothing else. The one name that `cd` does
/// not take for a child is the single dot.
pub proof fn law_cd_enters_created_directory(state: ShellState, name: Seq<u8>)
    requires
        state.wf(),
        is_text(name),
        name != seq![DOT],
        state.outcome(Command::Mkdir, name) is Ok,
    ensures
        state.run(Command::Mkdir, name).outcome(Command::Cd, name) is Ok,
        state.run(Command::Mkdir, name).run(Command::Cd, name) == (ShellState {
            current_directory: free_directory_slot(state.namespace.dirs) as usize,
            ..state.run(Command::Mkdir, name)
        }),
        state.run(Command::Mkdir, name).namespace.dirs[free_directory_slot(
            state.namespace.dirs,
        )].parent_index == state.current_directory,
{
    let ns = state.namespace;
    let current = state.current_directory as int;
    law_created_child_resolves(ns, current, name);
    lemma_free_directory_slot(ns);
    assert(ns.dir_ok(current));
}

/// `deldir` of a child that has a child of its own is refused with
/// `NotEmpty`: the console says so, and nothing else changes.
pub proof fn law_deldir_refuses_directory_with_children(
    state: ShellState,
    argument: Seq<u8>,
    target: usize,
)
    requires
        state.wf(),
        state.namespace.resolve_child(state.current_directory as int, argument) == Ok::<
            usize,
            ShellError,
        >(target),
        state.namespace.dirs[target as int].child_count >= 1,
    ensures
        state.outcome(Command::Deldir, argument) == Err::<(), ShellError>(ShellError::NotEmpty),
        state.run(Command::Deldir, argument) == (ShellState {
            screen: state.screen.print(
                "\n[Error] directory is not empty: ".spec_bytes() + argument,
            ),
            ..state
        }),
{
}

/// `deldir` makes one live directory less where it succeeds and leaves
/// their number where it fails. The root stays live and its own parent, so
/// there is always one live directory at least.
pub proof fn law_deldir_live_count(state: ShellState, argument: Seq<u8>)
    requires
        state.wf(),
    ensures
        state.outcome(Command::Deldir, argument) is Ok ==> live_directories(
            state.run(Command::Deldir, argument).namespace.dirs,
        ) == live_directories(state.namespace.dirs) - 1,
        state.outcome(Command::Deldir, argument) is Err ==> live_directories(
            state.run(Command::Deldir, argument).namespace.dirs,
        ) == live_directories(state.namespace.dirs),
        state.run(Command::Deldir, argument).namespace.dirs[0].index == 0,
        state.run(Command::Deldir, argument).namespace.dirs[0].parent_index == 0,
        live_directories(state.run(Command::Deldir, argument).namespace.dirs) >= 1,
{
    let ns = state.namespace;
    let current = state.current_directory as int;
    law_live_count(ns, current, argument);
    if state.outcome(Command::Deldir, argument) is Ok {
        lemma_delete_child_wf(ns, current, argument);
        let after = ns.delete_child(current, argument);
        lemma_live_directories_update(after.dirs, 0, empty_directory());
    }
}

/// A command that fails leaves the line, the namespace, the current
/// directory and the mode as they were: only the console changes, by the
/// message of the error.
pub proof fn law_failed_command_changes_only_console(
    state: ShellState,
    command: Command,
    argument: Seq<u8>,
    error: ShellError,
)
    requires
        state.outcome(command, argument) == Err::<(), ShellError>(error),
    ensures
        state.run(command, argument) == (ShellState {
            screen: state.screen.print(error_text(error, command.of_file(), argument)),
            ..state
        }),
        state.run(command, argument).line == state.line,
        state.run(command, argument).namespace == state.namespace,
        state.run(command, argument).current_directory == state.current_directory,
        state.run(command, argument).is_editing_file == state.is_editing_file,
        state.run(command, argument).current_editing_file == state.current_editing_file,
{
}

/// The state of a new shell is in order.
pub proof fn law_initial_state_in_order()
    ensures
        ShellState::initial().wf(),
{
    lemma_initial_wf();
}

/// A command keeps the state of the shell in order, whether it succeeds or fails.
pub proof fn law_command_keeps_order(state: ShellState, command: Command, argument: Seq<u8>)
    requires
        state.wf(),
        !state.is_editing_file,
        is_text(argument),
    ensures
        state.run(command, argument).wf(),
{
    let ns = state.namespace;
    let current = state.current_directory as int;
    assert(ns.dir_ok(current));
    match state.outcome(command, argument) {
        Err(e) => {
            lemma_printed_wf(state, error_text(e, command.of_file(), argument));
        },
        Ok(_) => {
            match command {
                Command::Echo => {
                    lemma_printed_wf(state, seq![LINE_FEED] + argument);
                },
                Command::Curdir => {
                    lemma_printed_wf(state, seq![LINE_FEED] + ns.path_text(current));
                },
                Command::Mkdir => {
                    lemma_create_child_wf(ns, current, argument);
                    lemma_free_directory_slot(ns);
                    lemma_first_index_of(ns.dirs[current].child_indexes, 100, 0);
                    lemma_print_wf(
                        state.screen,
                        "\n[Ok] Directory \"".spec_bytes() + argument
                            + "\" created successfully!".spec_bytes(),
                    );
                },
                Command::Clear => {},
                Command::Cd => {
                    if argument != seq![DOT] {
                        lemma_child_entry(ns, current, argument, 0);
                        lemma_child_differs(ns, current, ns.child_entry(current, argument, 0));
                    }
                },
                Command::Dirtree => {
                    lemma_printed_wf(state, ns.tree_text(current, 0));
                },
                Command::Deldir => {
                    lemma_delete_child_wf(ns, current, argument);
                    lemma_child_entry(ns, current, argument, 0);
                    lemma_child_differs(ns, current, ns.child_entry(current, argument, 0));
                },
                Command::Ls => {
                    lemma_printed_wf(state, seq![LINE_FEED] + ns.files_text(current, 5));
                },
                Command::Mkfile => {
                    lemma_create_file_wf(ns, current, argument);
                    lemma_free_file_slot(ns);
                    lemma_first_index_of(ns.dirs[current].files_indexes, 10, 0);
                },
                Command::Delfile => {
                    lemma_delete_file_wf(ns, current, argument);
                    lemma_file_entry(ns, current, argument, 0);
                },
                Command::Readfile => {
                    lemma_print_wf(
                        state.screen.clear(),
                        ns.file_text(ns.find_file(current, argument).unwrap() as int),
                    );
                },
                Command::Editfile => {
                    lemma_file_entry(ns, current, argument, 0);
                    let f = ns.find_file(current, argument).unwrap() as int;
                    assert(ns.file_at(current, ns.file_entry(current, argument, 0)) != 10);
                    assert(ns.live_file(f));
                    lemma_file_change_wf(ns, f, 0, ns.files[f].content);
                },
            }
        },
    }
}

/// Every keystroke keeps the state of the shell in order.
pub proof fn law_step_keeps_order(state: ShellState, key: u8)
    requires
        state.wf(),
    ensures
        state.step(key).wf(),
{
    let ns = state.namespace;
    if key == LINE_FEED {
        if state.is_editing_file {
            let f = state.current_editing_file as int;
            lemma_file_change_wf(ns, f, 0, ns.files[f].content);
        } else {
            let ran = if state.line.len() - argument_start(state.line) > 70 {
                state.printed(error_text(ShellError::ArgumentTooLong, false, Seq::empty()))
            } else {
                state.execute(
                    trim_nul(split_command(state.line)),
                    trim_nul(split_argument(state.line)),
                )
            };
            assert(ran.wf()) by {
                if state.line.len() - argument_start(state.line) > 70 {
                    lemma_printed_wf(
                        state,
                        error_text(ShellError::ArgumentTooLong, false, Seq::empty()),
                    );
                } else {
                    let name = trim_nul(split_command(state.line));
                    let argument = trim_nul(split_argument(state.line));
                    lemma_trim_nul(split_argument(state.line));
                    match command_named(name) {
                        Some(command) => {
                            law_command_keeps_order(state, command, argument);
                        },
                        None => {
                            lemma_printed_wf(state, command_not_found_text(name));
                        },
                    }
                }
            }
            let fresh = ShellState { line: Seq::empty(), ..ran };
            lemma_printed_wf(fresh, seq![LINE_FEED] + prompt_text());
        }
    } else if key == TAB {
        if state.is_editing_file {
            let f = state.current_editing_file as int;
            lemma_file_change_wf(ns, f, 0, state.screen.glyphs());
            lemma_print_wf(state.screen.clear(), prompt_text());
        }
    } else {
        lemma_printed_wf(state, error_text(ShellError::BufferFull, false, Seq::empty()));
    }
}

/// A line that holds a command, a space and an argument is given back by
/// its two tokens: the text of the command token, a space and the text of
/// the argument token make the text of the line. The command must not end
/// in a NUL byte, which the token would lose; a line without a separating
/// space is not given back, as the space that joins the tokens is not in it.
pub proof fn law_split_rejoins(line: Seq<u8>)
    requires
        line.len() <= 80,
        line.len() - argument_start(line) <= 70,
        has_separator(line),
        is_text(command_part(line)),
    ensures
        trim_nul(split_command(line)) + seq![SPACE] + trim_nul(split_argument(line)) == trim_nul(
            line,
        ),
{
    let k = command_end(line);
    lemma_scan_command(line, 0);
    let command = command_part(line);
    let argument = argument_part(line);
    lemma_trim_pad(command, 10);
    lemma_trim_pad_any(argument, 70);
    let head = command + seq![SPACE];
    assert(head + argument =~= line);
    lemma_trim_concat(head, argument);
}

/// No other line is given back by its two tokens: where the text of the
/// command token, a space and the text of the argument token make the text
/// of the line, a space separates command and argument in the line, and the
/// command does not end in a NUL byte.
pub proof fn law_split_rejoins_only_then(line: Seq<u8>)
    requires
        line.len() <= 80,
        line.len() - argument_start(line) <= 70,
        trim_nul(split_command(line)) + seq![SPACE] + trim_nul(split_argument(line)) == trim_nul(
            line,
        ),
    ensures
        has_separator(line),
        is_text(command_part(line)),
{
    let k = command_end(line);
    lemma_scan_command(line, 0);
    let command = command_part(line);
    let argument = argument_part(line);
    lemma_trim_pad_any(command, 10);
    lemma_trim_pad_any(argument, 70);
    lemma_trim_nul(command);
    lemma_trim_nul(line);
    let shown = trim_nul(command);
    let joined = shown + seq![SPACE] + trim_nul(argument);
    let at = shown.len() as int;
    assert(joined[at] == SPACE);
    assert(trim_nul(line)[at] == line.subrange(0, trim_nul(line).len() as int)[at]);
    assert(line[at] == SPACE);
    assert(at == k);
    assert(shown =~= command);
}

} // verus!
