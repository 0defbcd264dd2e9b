//! The command set of the shell: the table of command names, and what the
//! shell prints when a command fails.
use vstd::prelude::*;
use vstd::string::StringSliceAdditionalSpecFns;
use crate::error::ShellError;
use crate::names::{COMMAND_SIZE, compare_str_with_arr, trim_nul};
use crate::vga_buf::{VGADriver, lemma_print_concat};

verus! {

/// The commands of the shell.
#[derive(Clone, Copy, Debug, PartialEq, Eq)]
pub enum Command {
    /// `echo`: prints its argument.
    Echo,
    /// `curdir`: prints the path of the current directory.
    Curdir,
    /// `mkdir`: creates a child of the current directory.
    Mkdir,
    /// `clear`: blanks the console.
    Clear,
    /// `cd`: moves to a child, or with the argument `.` to the parent.
    Cd,
    /// `dirtree`: prints the tree below the current directory.
    Dirtree,
    /// `deldir`: deletes a child of the current directory.
    Deldir,
    /// `ls`: prints the names of the files of the current directory.
    Ls,
    /// `mkfile`: creates a file and opens it for writing.
    Mkfile,
    /// `delfile`: deletes a file.
    Delfile,
    /// `readfile`: prints a file.
    Readfile,
    /// `editfile`: opens a file for writing anew.
    Editfile,
}

impl Command {
    /// Whether the argument of the command names a file, not a directory.
    pub open spec fn of_file(self) -> bool {
        self == Command::Mkfile || self == Command::Delfile || self == Command::Readfile || self
            == Command::Editfile
    }

}

/// The command that `text` names, if it names one. Names are compared byte
/// for byte: letter case counts.
pub open spec fn command_named(text: Seq<u8>) -> Option<Command> {
    if text == "echo".spec_bytes() {
        Some(Command::Echo)
    } else if text == "curdir".spec_bytes() {
        Some(Command::Curdir)
    } else if text == "mkdir".spec_bytes() {
        Some(Command::Mkdir)
    } else if text == "clear".spec_bytes() {
        Some(Command::Clear)
    } else if text == "cd".spec_bytes() {
        Some(Command::Cd)
    } else if text == "dirtree".spec_bytes() {
        Some(Command::Dirtree)
    } else if text == "deldir".spec_bytes() {
        Some(Command::Deldir)
    } else if text == "ls".spec_bytes() {
        Some(Command::Ls)
    } else if text == "mkfile".spec_bytes() {
        Some(Command::Mkfile)
    } else if text == "delfile".spec_bytes() {
        Some(Command::Delfile)
    } else if text == "readfile".spec_bytes() {
        Some(Command::Readfile)
    } else if text == "editfile".spec_bytes() {
        Some(Command::Editfile)
    } else {
        None
    }
}

/// The command that the token names, if it names one.
pub fn lookup_command(token: [u8; COMMAND_SIZE]) -> (command: Option<Command>)
    ensures
        command == command_named(trim_nul(token@)),
{
    if compare_str_with_arr("echo", token) {
        Some(Command::Echo)
    } else if compare_str_with_arr("curdir", token) {
        Some(Command::Curdir)
    } else if compare_str_with_arr("mkdir", token) {
        Some(Command::Mkdir)
    } else if compare_str_with_arr("clear", token) {
        Some(Command::Clear)
    } else if compare_str_with_arr("cd", token) {
        Some(Command::Cd)
    } else if compare_str_with_arr("dirtree", token) {
        Some(Command::Dirtree)
    } else if compare_str_with_arr("deldir", token) {
        Some(Command::Deldir)
    } else if compare_str_with_arr("ls", token) {
        Some(Command::Ls)
    } else if compare_str_with_arr("mkfile", token) {
        Some(Command::Mkfile)
    } else if compare_str_with_arr("delfile", token) {
        Some(Command::Delfile)
    } else if compare_str_with_arr("readfile", token) {
        Some(Command::Readfile)
    } else if compare_str_with_arr("editfile", token) {
        Some(Command::Editfile)
    } else {
        None
    }
}

/// What the shell prints when the command token `text` names no command.
pub open spec fn command_not_found_text(text: Seq<u8>) -> Seq<u8> {
    "\nCommand \"".spec_bytes() + text + "\" not found!".spec_bytes()
}

/// What the shell prints when a command fails with `error`. `of_file` says
/// whether the command's argument names a file; `argument` is the text of
/// the argument.
pub open spec fn error_text(error: ShellError, of_file: bool, argument: Seq<u8>) -> Seq<u8> {
    match error {
        ShellError::NotFound => if of_file {
            "\n[Error] file not found: ".spec_bytes() + argument
        } else {
            "\n[Error] folder not found: ".spec_bytes() + argument
        },
        ShellError::AlreadyExists => "\n[Error] name already exists: ".spec_bytes() + argument,
        ShellError::NameTooLong => if of_file {
            "\n[Error] The maximum size of the file name is 10 characters".spec_bytes()
        } else {
            "\n[Error] The maximum size of the directory name is 10 characters".spec_bytes()
        },
        ShellError::NameEmpty => "\n[Error] The name is empty".spec_bytes(),
        ShellError::ArenaExhausted => "\n[Error] No free slot is left".spec_bytes(),
        ShellError::NotEmpty => "\n[Error] directory is not empty: ".spec_bytes() + argument,
        ShellError::BufferFull => "\n[Error] The line is full".spec_bytes(),
        ShellError::ArgumentTooLong =>
            "\n[Error] The maximum size of the argument is 70 characters".spec_bytes(),
        ShellError::CommandNotFound(token) => command_not_found_text(trim_nul(token@)),
    }
}

/// Prints that the command token names no command.
pub fn print_error_command_not_found(screen: &mut VGADriver, cmd: [u8; COMMAND_SIZE])
    requires
        old(screen).wf(),
    ensures
        final(screen).wf(),
        final(screen)@ == old(screen)@.print(command_not_found_text(trim_nul(cmd@))),
{
    screen.print("\nCommand \"");
    screen.print_text(cmd.as_slice());
    screen.print("\" not found!");
    proof {
        let a = "\nCommand \"".spec_bytes();
        let b = trim_nul(cmd@);
        let c = "\" not found!".spec_bytes();
        lemma_print_concat(old(screen)@, a, b);
        lemma_print_concat(old(screen)@, a + b, c);
    }
}

/// Prints a message followed by the text of the argument.
fn print_with_argument(screen: &mut VGADriver, message: &str, argument: &[u8])
    requires
        old(screen).wf(),
    ensures
        final(screen).wf(),
        final(screen)@ == old(screen)@.print(message.spec_bytes() + trim_nul(argument@)),
{
    screen.print(message);
    screen.print_text(argument);
    proof {
        lemma_print_concat(old(screen)@, message.spec_bytes(), trim_nul(argument@));
    }
}

/// Prints what the shell has to say of a command that failed with `error`.
pub fn print_error(screen: &mut VGADriver, error: ShellError, of_file: bool, argument: &[u8])
    requires
        old(screen).wf(),
    ensures
        final(screen).wf(),
        final(screen)@ == old(screen)@.print(error_text(error, of_file, trim_nul(argument@))),
{
    match error {
        ShellError::NotFound => {
            if of_file {
                print_with_argument(screen, "\n[Error] file not found: ", argument);
            } else {
                print_with_argument(screen, "\n[Error] folder not found: ", argument);
            }
        },
        ShellError::AlreadyExists => {
            print_with_argument(screen, "\n[Error] name already exists: ", argument);
        },
        ShellError::NameTooLong => {
            if of_file {
                screen.print("\n[Error] The maximum size of the file name is 10 characters");
            } else {
                screen.print("\n[Error] The maximum size of the directory name is 10 characters");
            }
        },
        ShellError::NameEmpty => {
            screen.print("\n[Error] The name is empty");
        },
        ShellError::ArenaExhausted => {
            screen.print("\n[Error] No free slot is left");
        },
        ShellError::NotEmpty => {
            print_with_argument(screen, "\n[Error] directory is not empty: ", argument);
        },
        ShellError::BufferFull => {
            screen.print("\n[Error] The line is full");
        },
        ShellError::ArgumentTooLong => {
            screen.print("\n[Error] The maximum size of the argument is 70 characters");
        },
        ShellError::CommandNotFound(token) => {
            print_error_command_not_found(screen, token);
        },
    }
}

} // verus!
