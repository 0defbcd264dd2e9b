//! The shell: a line editor that runs a command when the line is finished,
//! and a mode in which the keystrokes are the text of a file instead.
use vstd::prelude::*;
use vstd::string::StringSliceAdditionalSpecFns;
use pc_keyboard::DecodedKey;
use crate::arena::{DELETED_INDEX_FILE, free_file_slot};
use crate::commands::{
    Command,
    command_named,
    command_not_found_text,
    error_text,
    lookup_command,
    print_error,
    print_error_command_not_found,
};
use crate::error::ShellError;
use crate::fs::{FileSystem, initial_namespace, lemma_initial_wf};
use crate::invariants::lemma_child_entry;
use crate::keys::{character_of, decoded_character, key_byte, low_byte};
use crate::names::{
    ARGV_SIZE,
    COMMAND_SIZE,
    LINE_FEED,
    NUL,
    SPACE,
    lemma_trim_nul_is,
    trim_nul,
};
use crate::parser::{LineBuffer, argument_start, split_argument, split_command};
use crate::tree::Namespace;
use crate::vga_buf::{
    Alignment,
    Color,
    Screen,
    VGADriver,
    lemma_print_concat,
    lemma_print_one,
    lemma_print_wf,
};

verus! {

/// How many columns the prompt takes; a backspace does not erase them.
pub const FORMATING_STRING_LENGTH: u32 = 3;

/// The key that takes back the last keystroke.
pub const BACKSPACE: u8 = 8;

/// The key that ends the writing of a file.
pub const TAB: u8 = 9;

/// The first of the four arrow key codes.
pub const ARROW_LEFT: u8 = 37;

/// The last of the four arrow key codes.
pub const ARROW_DOWN: u8 = 40;

/// The control code beyond the glyphs.
pub const DELETE: u8 = 127;

/// The prompt.
pub open spec fn prompt_text() -> Seq<u8> {
    " $ ".spec_bytes()
}

/// Whether `key` is the code of an arrow key. The arrow keys do nothing.
pub open spec fn is_arrow(key: u8) -> bool {
    ARROW_LEFT <= key <= ARROW_DOWN
}

/// Whether `key` is shown as a glyph: it is no control code and no arrow key.
pub open spec fn is_glyph(key: u8) -> bool {
    key >= SPACE && key != DELETE && !is_arrow(key)
}

/// The state of the shell as plain values.
pub struct ShellState {
    /// The line typed so far.
    pub line: Seq<u8>,
    /// The directories and files.
    pub namespace: Namespace,
    /// The slot of the current directory.
    pub current_directory: usize,
    /// Whether the keystrokes go to a file.
    pub is_editing_file: bool,
    /// The slot of the file that is written; the file sentinel otherwise.
    pub current_editing_file: usize,
    /// The console.
    pub screen: Screen,
}

impl ShellState {
    /// The line fits its buffer, the namespace is a tree, the current
    /// directory is live, a file is named exactly while one is written, and
    /// the console is left-aligned.
    pub open spec fn wf(self) -> bool {
        &&& self.line.len() <= 80
        &&& self.namespace.wf()
        &&& self.namespace.live_dir(self.current_directory as int)
        &&& if self.is_editing_file {
            self.namespace.live_file(self.current_editing_file as int)
        } else {
            self.current_editing_file == 10
        }
        &&& self.screen.wf()
        &&& self.screen.alignment == Alignment::Left
    }

    /// The state of a new shell: an empty line, the root alone and current,
    /// a blank console in white on black.
    pub open spec fn initial() -> ShellState {
        ShellState {
            line: Seq::empty(),
            namespace: initial_namespace(),
            current_directory: 0,
            is_editing_file: false,
            current_editing_file: 10,
            screen: Screen::blank(
                Color::White.spec_code(),
                Color::Black.spec_code(),
                Alignment::Left,
            ),
        }
    }

    /// The state after `text` was printed.
    pub open spec fn printed(self, text: Seq<u8>) -> ShellState {
        ShellState { screen: self.screen.print(text), ..self }
    }

    /// Whether `command` with the argument `argument` succeeds, and with
    /// which error it fails.
    pub open spec fn outcome(self, command: Command, argument: Seq<u8>) -> Result<(), ShellError> {
        let ns = self.namespace;
        let current = self.current_directory as int;
        match command {
            Command::Mkdir => match ns.create_child_error(current, argument) {
                Some(e) => Err(e),
                None => Ok(()),
            },
            Command::Deldir => match ns.delete_child_error(current, argument) {
                Some(e) => Err(e),
                None => Ok(()),
            },
            Command::Cd => match ns.change_directory(current, argument) {
                Ok(_) => Ok(()),
                Err(e) => Err(e),
            },
            Command::Mkfile => match ns.create_file_error(current, argument) {
                Some(e) => Err(e),
                None => Ok(()),
            },
            Command::Delfile | Command::Readfile | Command::Editfile => match ns.find_file(
                current,
                argument,
            ) {
                Ok(_) => Ok(()),
                Err(e) => Err(e),
            },
            _ => Ok(()),
        }
    }

    /// The state after `command` with the argument `argument` succeeded.
    pub open spec fn done(self, command: Command, argument: Seq<u8>) -> ShellState {
        let ns = self.namespace;
        let current = self.current_directory as int;
        match command {
            Command::Echo => self.printed(seq![LINE_FEED] + argument),
            Command::Curdir => self.printed(seq![LINE_FEED] + ns.path_text(current)),
            Command::Mkdir => ShellState {
                namespace: ns.create_child(current, argument),
                screen: self.screen.print(
                    "\n[Ok] Directory \"".spec_bytes() + argument
                        + "\" created successfully!".spec_bytes(),
                ),
                ..self
            },
            Command::Clear => ShellState { screen: self.screen.clear(), ..self },
            Command::Cd => ShellState {
                current_directory: ns.change_directory(current, argument).unwrap(),
                ..self
            },
            Command::Dirtree => self.printed(ns.tree_text(current, 0)),
            Command::Deldir => ShellState { namespace: ns.delete_child(current, argument), ..self },
            Command::Ls => self.printed(seq![LINE_FEED] + ns.files_text(current, 5)),
            Command::Mkfile => ShellState {
                namespace: ns.create_file(current, argument),
                is_editing_file: true,
                current_editing_file: free_file_slot(ns.files) as usize,
                screen: self.screen.clear(),
                ..self
            },
            Command::Delfile => ShellState { namespace: ns.delete_file(current, argument), ..self },
            Command::Readfile => ShellState {
                screen: self.screen.clear().print(
                    ns.file_text(ns.find_file(current, argument).unwrap() as int),
                ),
                ..self
            },
            Command::Editfile => ShellState {
                namespace: ns.with_count_lines(ns.find_file(current, argument).unwrap() as int, 0),
                is_editing_file: true,
                current_editing_file: ns.find_file(current, argument).unwrap(),
                screen: self.screen.clear(),
                ..self
            },
        }
    }

    /// The state after `command` ran with the argument `argument`: what the
    /// command does where it succeeds; where it fails, nothing but the
    /// message of the error on the console.
    pub open spec fn run(self, command: Command, argument: Seq<u8>) -> ShellState {
        match self.outcome(command, argument) {
            Ok(_) => self.done(command, argument),
            Err(e) => self.printed(error_text(e, command.of_file(), argument)),
        }
    }

    /// The state after the command called `name` ran with the argument
    /// `argument`. A name that is no command's changes nothing but the console.
    pub open spec fn execute(self, name: Seq<u8>, argument: Seq<u8>) -> ShellState {
        match command_named(name) {
            Some(command) => self.run(command, argument),
            None => self.printed(command_not_found_text(name)),
        }
    }

    /// The state after the line was finished: the line is split and the
    /// command runs; the line is empty again; and unless a file is written
    /// now, the prompt stands on a new row.
    pub open spec fn enter(self) -> ShellState {
        let ran = if self.line.len() - argument_start(self.line) > 70 {
            self.printed(error_text(ShellError::ArgumentTooLong, false, Seq::empty()))
        } else {
            self.execute(trim_nul(split_command(self.line)), trim_nul(split_argument(self.line)))
        };
        let fresh = ShellState { line: Seq::empty(), ..ran };
        if fresh.is_editing_file {
            fresh
        } else {
            fresh.printed(seq![LINE_FEED] + prompt_text())
        }
    }

    /// The state after the key `key`.
    ///
    /// While a line is typed: a line feed finishes the line; a backspace
    /// takes the last byte off the line and its glyph off the console, but
    /// never the prompt; a glyph is added to the line and shown, but where
    /// the line is full the console says so instead. While a file is
    /// written: a line feed makes one more row of the file meaningful and
    /// starts a new row; a backspace takes the last glyph off the console;
    /// a glyph is shown; a tab stores the glyphs of the console as the text
    /// of the file, blanks the console and goes back to the prompt. Every
    /// other key does nothing.
    pub open spec fn step(self, key: u8) -> ShellState {
        if key == LINE_FEED {
            if self.is_editing_file {
                ShellState {
                    namespace: self.namespace.with_line_added(self.current_editing_file as int),
                    screen: self.screen.put(LINE_FEED),
                    ..self
                }
            } else {
                self.enter()
            }
        } else if key == BACKSPACE {
            if self.is_editing_file {
                ShellState { screen: self.screen.erase_last(0), ..self }
            } else {
                ShellState {
                    line: if self.line.len() > 0 {
                        self.line.drop_last()
                    } else {
                        self.line
                    },
                    screen: self.screen.erase_last(3),
                    ..self
                }
            }
        } else if key == TAB {
            if self.is_editing_file {
                ShellState {
                    namespace: self.namespace.with_content(
                        self.current_editing_file as int,
                        self.screen.glyphs(),
                    ),
                    is_editing_file: false,
                    current_editing_file: 10,
                    screen: self.screen.clear().print(prompt_text()),
                    ..self
                }
            } else {
                self
            }
        } else if is_glyph(key) {
            if self.is_editing_file {
                ShellState { screen: self.screen.put(key), ..self }
            } else if self.line.len() < 80 {
                ShellState { line: self.line.push(key), screen: self.screen.put(key), ..self }
            } else {
                self.printed(error_text(ShellError::BufferFull, false, Seq::empty()))
            }
        } else {
            self
        }
    }
}

/// Printing keeps the state of the shell in order.
pub proof fn lemma_printed_wf(state: ShellState, text: Seq<u8>)
    requires
        state.wf(),
    ensures
        state.printed(text).wf(),
{
    lemma_print_wf(state.screen, text);
}

/// The shell.
pub struct Shell {
    line: LineBuffer,
    file_system: FileSystem,
    current_directory: usize,
    is_editing_file: bool,
    current_editing_file: usize,
    screen: VGADriver,
}

impl View for Shell {
    type V = ShellState;

    closed spec fn view(&self) -> ShellState {
        ShellState {
            line: self.line@,
            namespace: self.file_system@,
            current_directory: self.current_directory,
            is_editing_file: self.is_editing_file,
            current_editing_file: self.current_editing_file,
            screen: self.screen@,
        }
    }
}

impl Shell {
    /// The parts of the shell are in order, and so is its state.
    pub closed spec fn wf(&self) -> bool {
        &&& self.line.wf()
        &&& self.file_system.wf()
        &&& self.screen.wf()
        &&& self@.wf()
    }

    /// The state of a shell that is in order is in order.
    pub proof fn lemma_wf(&self)
        requires
            self.wf(),
        ensures
            self@.wf(),
    {
    }

    /// A shell with an empty line, the root directory alone and current, and
    /// a blank console.
    pub fn new() -> (shell: Shell)
        ensures
            shell.wf(),
            shell@ == ShellState::initial(),
    {
        proof {
            lemma_initial_wf();
        }
        Shell {
            line: LineBuffer::new(),
            file_system: FileSystem::new(),
            current_directory: 0,
            is_editing_file: false,
            current_editing_file: DELETED_INDEX_FILE,
            screen: VGADriver::new(Color::White, Color::Black, Alignment::Left),
        }
    }

    /// The slot of the current directory.
    pub fn current_directory(&self) -> (slot: usize)
        ensures
            slot == self@.current_directory,
    {
        self.current_directory
    }

    /// Whether the keystrokes go to a file.
    pub fn is_editing_file(&self) -> (editing: bool)
        ensures
            editing == self@.is_editing_file,
    {
        self.is_editing_file
    }

    /// The slot of the file that is written; the file sentinel otherwise.
    pub fn current_editing_file(&self) -> (slot: usize)
        ensures
            slot == self@.current_editing_file,
    {
        self.current_editing_file
    }

    /// The console.
    pub fn screen(&self) -> (screen: &VGADriver)
        ensures
            screen@ == self@.screen,
    {
        &self.screen
    }

    /// The directories and files.
    pub fn file_system(&self) -> (file_system: &FileSystem)
        ensures
            file_system@ == self@.namespace,
            self.wf() ==> file_system.wf(),
    {
        &self.file_system
    }

    /// The line typed so far.
    pub fn line(&self) -> (line: &LineBuffer)
        ensures
            line@ == self@.line,
            self.wf() ==> line.wf(),
    {
        &self.line
    }

    /// Prints the prompt.
    pub fn good_formatting(&mut self)
        requires
            old(self).wf(),
        ensures
            final(self).wf(),
            final(self)@ == old(self)@.printed(prompt_text()),
    {
        self.screen.print(" $ ");
        proof {
            lemma_printed_wf(old(self)@, prompt_text());
        }
    }

    /// `echo`: prints the argument on a new row.
    pub fn echo_command(&mut self, argv: &[u8; ARGV_SIZE]) -> (r: Result<(), ShellError>)
        requires
            old(self).wf(),
        ensures
            final(self).wf(),
            r == old(self)@.outcome(Command::Echo, trim_nul(argv@)),
            final(self)@ == old(self)@.run(Command::Echo, trim_nul(argv@)),
    {
        self.screen.print_byte(LINE_FEED);
        self.screen.print_text(argv.as_slice());
        proof {
            let text = trim_nul(argv@);
            lemma_print_one(old(self)@.screen, LINE_FEED);
            lemma_print_concat(old(self)@.screen, seq![LINE_FEED], text);
            lemma_printed_wf(old(self)@, seq![LINE_FEED] + text);
        }
        Ok(())
    }

    /// `curdir`: prints the path of the current directory on a new row.
    pub fn current_directory_command(&mut self) -> (r: Result<(), ShellError>)
        requires
            old(self).wf(),
        ensures
            final(self).wf(),
            r == old(self)@.outcome(Command::Curdir, Seq::empty()),
            forall|argument: Seq<u8>| final(self)@ == old(self)@.run(Command::Curdir, argument),
    {
        self.screen.print_byte(LINE_FEED);
        self.file_system.print_path(self.current_directory, &mut self.screen);
        proof {
            let text = old(self)@.namespace.path_text(self.current_directory as int);
            lemma_print_one(old(self)@.screen, LINE_FEED);
            lemma_print_concat(old(self)@.screen, seq![LINE_FEED], text);
            lemma_printed_wf(old(self)@, seq![LINE_FEED] + text);
        }
        Ok(())
    }

    /// `mkdir`: creates a child of the current directory and says so.
    pub fn create_folder_command(&mut self, argv: &[u8; ARGV_SIZE]) -> (r: Result<(), ShellError>)
        requires
            old(self).wf(),
        ensures
            final(self).wf(),
            r == old(self)@.outcome(Command::Mkdir, trim_nul(argv@)),
            final(self)@ == old(self)@.run(Command::Mkdir, trim_nul(argv@)),
    {
        let ghost text = trim_nul(argv@);
        let created = self.file_system.create_child(self.current_directory, argv.as_slice());
        proof {
            self.file_system.lemma_wf();
        }
        match created {
            Ok(_) => {
                self.screen.print("\n[Ok] Directory \"");
                self.screen.print_text(argv.as_slice());
                self.screen.print("\" created successfully!");
                proof {
                    let a = "\n[Ok] Directory \"".spec_bytes();
                    let c = "\" created successfully!".spec_bytes();
                    lemma_print_concat(old(self)@.screen, a, text);
                    lemma_print_concat(old(self)@.screen, a + text, c);
                    lemma_print_wf(old(self)@.screen, a + text + c);
                }
                Ok(())
            },
            Err(e) => {
                print_error(&mut self.screen, e, false, argv.as_slice());
                proof {
                    lemma_printed_wf(old(self)@, error_text(e, false, text));
                }
                Err(e)
            },
        }
    }

    /// `clear`: blanks the console.
    pub fn clear_command(&mut self) -> (r: Result<(), ShellError>)
        requires
            old(self).wf(),
        ensures
            final(self).wf(),
            r == old(self)@.outcome(Command::Clear, Seq::empty()),
            forall|argument: Seq<u8>| final(self)@ == old(self)@.run(Command::Clear, argument),
    {
        self.screen.clear();
        Ok(())
    }

    /// `cd`: moves to the child named by the argument, or with the argument
    /// `.` to the parent. Where there is no such child, the current
    /// directory stays and the console says so.
    pub fn change_directory_command(&mut self, argv: &[u8; ARGV_SIZE]) -> (r: Result<
        (),
        ShellError,
    >)
        requires
            old(self).wf(),
        ensures
            final(self).wf(),
            r == old(self)@.outcome(Command::Cd, trim_nul(argv@)),
            final(self)@ == old(self)@.run(Command::Cd, trim_nul(argv@)),
    {
        match self.file_system.change_directory(self.current_directory, argv.as_slice()) {
            Ok(directory) => {
                self.current_directory = directory;
                Ok(())
            },
            Err(e) => {
                print_error(&mut self.screen, e, false, argv.as_slice());
                proof {
                    lemma_printed_wf(old(self)@, error_text(e, false, trim_nul(argv@)));
                }
                Err(e)
            },
        }
    }

    /// `dirtree`: prints the tree below the current directory.
    pub fn directory_tree_command(&mut self) -> (r: Result<(), ShellError>)
        requires
            old(self).wf(),
        ensures
            final(self).wf(),
            r == old(self)@.outcome(Command::Dirtree, Seq::empty()),
            forall|argument: Seq<u8>| final(self)@ == old(self)@.run(Command::Dirtree, argument),
    {
        self.file_system.print_tree(self.current_directory, 0, &mut self.screen);
        proof {
            lemma_printed_wf(
                old(self)@,
                old(self)@.namespace.tree_text(self.current_directory as int, 0),
            );
        }
        Ok(())
    }

    /// `deldir`: deletes the child of the current directory named by the
    /// argument, unless it has children of its own.
    pub fn delete_directory_command(&mut self, dir_name: &[u8; ARGV_SIZE]) -> (r: Result<
        (),
        ShellError,
    >)
        requires
            old(self).wf(),
            !old(self)@.is_editing_file,
        ensures
            final(self).wf(),
            r == old(self)@.outcome(Command::Deldir, trim_nul(dir_name@)),
            final(self)@ == old(self)@.run(Command::Deldir, trim_nul(dir_name@)),
    {
        let deleted = self.file_system.delete_child(self.current_directory, dir_name.as_slice());
        proof {
            self.file_system.lemma_wf();
        }
        match deleted {
            Ok(_) => {
                proof {
                    let current = self.current_directory as int;
                    let ns = old(self)@.namespace;
                    lemma_child_entry(ns, current, trim_nul(dir_name@), 0);
                    assert(ns.dir_ok(current));
                    assert(ns.delete_child(current, trim_nul(dir_name@)).dirs[current].index
                        == current);
                }
                Ok(())
            },
            Err(e) => {
                print_error(&mut self.screen, e, false, dir_name.as_slice());
                proof {
                    lemma_printed_wf(old(self)@, error_text(e, false, trim_nul(dir_name@)));
                }
                Err(e)
            },
        }
    }

    /// `ls`: prints the names of the files of the current directory on a new row.
    pub fn list_files_command(&mut self) -> (r: Result<(), ShellError>)
        requires
            old(self).wf(),
        ensures
            final(self).wf(),
            r == old(self)@.outcome(Command::Ls, Seq::empty()),
            forall|argument: Seq<u8>| final(self)@ == old(self)@.run(Command::Ls, argument),
    {
        self.screen.print_byte(LINE_FEED);
        self.file_system.list_files(self.current_directory, &mut self.screen);
        proof {
            let text = old(self)@.namespace.files_text(self.current_directory as int, 5);
            lemma_print_one(old(self)@.screen, LINE_FEED);
            lemma_print_concat(old(self)@.screen, seq![LINE_FEED], text);
            lemma_printed_wf(old(self)@, seq![LINE_FEED] + text);
        }
        Ok(())
    }

    /// `mkfile`: creates a file in the current directory, blanks the console
    /// and takes the keystrokes that follow as the file's text.
    pub fn create_file_command(&mut self, argv: &[u8; ARGV_SIZE]) -> (r: Result<(), ShellError>)
        requires
            old(self).wf(),
        ensures
            final(self).wf(),
            r == old(self)@.outcome(Command::Mkfile, trim_nul(argv@)),
            final(self)@ == old(self)@.run(Command::Mkfile, trim_nul(argv@)),
    {
        let created = self.file_system.create_file(self.current_directory, argv.as_slice());
        proof {
            self.file_system.lemma_wf();
        }
        match created {
            Ok(file) => {
                self.is_editing_file = true;
                self.current_editing_file = file;
                self.screen.clear();
                Ok(())
            },
            Err(e) => {
                print_error(&mut self.screen, e, true, argv.as_slice());
                proof {
                    lemma_printed_wf(old(self)@, error_text(e, true, trim_nul(argv@)));
                }
                Err(e)
            },
        }
    }

    /// `delfile`: deletes the file of the current directory named by the argument.
    pub fn delete_file_command(&mut self, argv: &[u8; ARGV_SIZE]) -> (r: Result<(), ShellError>)
        requires
            old(self).wf(),
            !old(self)@.is_editing_file,
        ensures
            final(self).wf(),
            r == old(self)@.outcome(Command::Delfile, trim_nul(argv@)),
            final(self)@ == old(self)@.run(Command::Delfile, trim_nul(argv@)),
    {
        let deleted = self.file_system.delete_file(self.current_directory, argv.as_slice());
        proof {
            self.file_system.lemma_wf();
        }
        match deleted {
            Ok(_) => Ok(()),
            Err(e) => {
                print_error(&mut self.screen, e, true, argv.as_slice());
                proof {
                    lemma_printed_wf(old(self)@, error_text(e, true, trim_nul(argv@)));
                }
                Err(e)
            },
        }
    }

    /// `readfile`: blanks the console and prints the meaningful rows of the
    /// file named by the argument.
    pub fn print_file_content_command(&mut self, argv: &[u8; ARGV_SIZE]) -> (r: Result<
        (),
        ShellError,
    >)
        requires
            old(self).wf(),
        ensures
            final(self).wf(),
            r == old(self)@.outcome(Command::Readfile, trim_nul(argv@)),
            final(self)@ == old(self)@.run(Command::Readfile, trim_nul(argv@)),
    {
        match self.file_system.read_file(
            self.current_directory,
            argv.as_slice(),
            &mut self.screen,
        ) {
            Ok(file) => {
                proof {
                    lemma_print_wf(
                        old(self)@.screen.clear(),
                        old(self)@.namespace.file_text(file as int),
                    );
                }
                Ok(())
            },
            Err(e) => {
                print_error(&mut self.screen, e, true, argv.as_slice());
                proof {
                    lemma_printed_wf(old(self)@, error_text(e, true, trim_nul(argv@)));
                }
                Err(e)
            },
        }
    }

    /// `editfile`: opens the file named by the argument for writing anew,
    /// blanks the console and takes the keystrokes that follow as the
    /// file's text.
    pub fn edit_file_command(&mut self, argv: &[u8; ARGV_SIZE]) -> (r: Result<(), ShellError>)
        requires
            old(self).wf(),
        ensures
            final(self).wf(),
            r == old(self)@.outcome(Command::Editfile, trim_nul(argv@)),
            final(self)@ == old(self)@.run(Command::Editfile, trim_nul(argv@)),
    {
        let opened = self.file_system.edit_file(self.current_directory, argv.as_slice());
        proof {
            self.file_system.lemma_wf();
        }
        match opened {
            Ok(file) => {
                self.is_editing_file = true;
                self.current_editing_file = file;
                self.screen.clear();
                Ok(())
            },
            Err(e) => {
                print_error(&mut self.screen, e, true, argv.as_slice());
                proof {
                    lemma_printed_wf(old(self)@, error_text(e, true, trim_nul(argv@)));
                }
                Err(e)
            },
        }
    }

    /// Runs `command` with the argument token `argv`.
    pub fn run_command(&mut self, command: Command, argv: &[u8; ARGV_SIZE]) -> (r: Result<
        (),
        ShellError,
    >)
        requires
            old(self).wf(),
            !old(self)@.is_editing_file,
        ensures
            final(self).wf(),
            r == old(self)@.outcome(command, trim_nul(argv@)),
            final(self)@ == old(self)@.run(command, trim_nul(argv@)),
    {
        match command {
            Command::Echo => self.echo_command(argv),
            Command::Curdir => self.current_directory_command(),
            Command::Mkdir => self.create_folder_command(argv),
            Command::Clear => self.clear_command(),
            Command::Cd => self.change_directory_command(argv),
            Command::Dirtree => self.directory_tree_command(),
            Command::Deldir => self.delete_directory_command(argv),
            Command::Ls => self.list_files_command(),
            Command::Mkfile => self.create_file_command(argv),
            Command::Delfile => self.delete_file_command(argv),
            Command::Readfile => self.print_file_content_command(argv),
            Command::Editfile => self.edit_file_command(argv),
        }
    }

    /// Runs the command that the first token names with the second token as
    /// its argument. Fails with `CommandNotFound` where the first token
    /// names no command, and with the command's error where the command fails.
    pub fn execute_command(&mut self, argv: ([u8; COMMAND_SIZE], [u8; ARGV_SIZE])) -> (r: Result<
        (),
        ShellError,
    >)
        requires
            old(self).wf(),
            !old(self)@.is_editing_file,
        ensures
            final(self).wf(),
            r == (match command_named(trim_nul(argv.0@)) {
                Some(command) => old(self)@.outcome(command, trim_nul(argv.1@)),
                None => Err(ShellError::CommandNotFound(argv.0)),
            }),
            final(self)@ == old(self)@.execute(trim_nul(argv.0@), trim_nul(argv.1@)),
    {
        match lookup_command(argv.0) {
            Some(command) => self.run_command(command, &argv.1),
            None => {
                print_error_command_not_found(&mut self.screen, argv.0);
                proof {
                    lemma_printed_wf(old(self)@, command_not_found_text(trim_nul(argv.0@)));
                }
                Err(ShellError::CommandNotFound(argv.0))
            },
        }
    }

    /// Finishes the line: splits it, runs the command, empties the line and,
    /// unless a file is written now, prints the prompt on a new row.
    fn enter_pressed(&mut self)
        requires
            old(self).wf(),
            !old(self)@.is_editing_file,
        ensures
            final(self).wf(),
            final(self)@ == old(self)@.enter(),
    {
        match self.line.split() {
            Ok(argv) => {
                let _ = self.execute_command(argv);
            },
            Err(e) => {
                self.report(e);
            },
        }
        self.line.clear();
        if self.is_editing_file {
            return ;
        }
        let ghost ran = self@;
        self.screen.print_byte(LINE_FEED);
        self.good_formatting();
        proof {
            lemma_print_one(ran.screen, LINE_FEED);
            lemma_print_concat(ran.screen, seq![LINE_FEED], prompt_text());
        }
    }

    /// A line feed: while a file is written, one more row of the file
    /// becomes meaningful and a new row starts; else the line is finished.
    fn line_feed_pressed(&mut self)
        requires
            old(self).wf(),
        ensures
            final(self).wf(),
            final(self)@ == old(self)@.step(LINE_FEED),
    {
        if self.is_editing_file {
            self.file_system.add_line(self.current_editing_file);
            self.screen.print_byte(LINE_FEED);
            proof {
                self.file_system.lemma_wf();
            }
        } else {
            self.enter_pressed();
        }
    }

    /// A backspace: the last glyph leaves the console, and while a line is
    /// typed the last byte leaves the line; the prompt stays.
    fn backspace_pressed(&mut self)
        requires
            old(self).wf(),
        ensures
            final(self).wf(),
            final(self)@ == old(self)@.step(BACKSPACE),
    {
        if self.is_editing_file {
            self.screen.delete_last_symbol(0);
        } else {
            self.screen.delete_last_symbol(FORMATING_STRING_LENGTH);
            self.line.backspace();
        }
    }

    /// A tab: while a file is written, the glyphs of the console become the
    /// text of the file, the console is blanked and the prompt is back.
    fn tab_pressed(&mut self)
        requires
            old(self).wf(),
        ensures
            final(self).wf(),
            final(self)@ == old(self)@.step(TAB),
    {
        if self.is_editing_file {
            self.is_editing_file = false;
            let content = self.screen.get_buffer();
            self.file_system.store_content(self.current_editing_file, content);
            self.current_editing_file = DELETED_INDEX_FILE;
            self.screen.clear();
            self.screen.print(" $ ");
            proof {
                self.file_system.lemma_wf();
                lemma_print_wf(old(self)@.screen.clear(), prompt_text());
            }
        }
    }

    /// A glyph: it is shown, and while a line is typed it is added to the
    /// line; a full line takes no more, and the console says so.
    fn glyph_pressed(&mut self, key: u8)
        requires
            old(self).wf(),
            is_glyph(key),
            key != LINE_FEED,
        ensures
            final(self).wf(),
            final(self)@ == old(self)@.step(key),
    {
        if self.is_editing_file {
            self.screen.print_byte(key);
        } else {
            match self.line.append(key) {
                Ok(_) => {
                    self.screen.print_byte(key);
                    proof {
                        self.line.lemma_len();
                    }
                },
                Err(e) => {
                    self.report(e);
                },
            }
        }
    }

    /// Prints the message of an error that came without an argument.
    fn report(&mut self, error: ShellError)
        requires
            old(self).wf(),
        ensures
            final(self).wf(),
            final(self)@ == old(self)@.printed(error_text(error, false, Seq::empty())),
    {
        let nothing = [NUL;ARGV_SIZE];
        proof {
            lemma_trim_nul_is(nothing@, 0);
            assert(nothing@.subrange(0, 0) =~= Seq::<u8>::empty());
            lemma_printed_wf(old(self)@, error_text(error, false, Seq::empty()));
        }
        print_error(&mut self.screen, error, false, nothing.as_slice());
    }

    /// Takes one keystroke.
    pub fn on_key_pressed(&mut self, key: u8)
        requires
            old(self).wf(),
        ensures
            final(self).wf(),
            final(self)@ == old(self)@.step(key),
    {
        if key == LINE_FEED {
            self.line_feed_pressed();
        } else if key == BACKSPACE {
            self.backspace_pressed();
        } else if key == TAB {
            self.tab_pressed();
        } else if key >= SPACE && key != DELETE && !(ARROW_LEFT <= key && key <= ARROW_DOWN) {
            self.glyph_pressed(key);
        }
    }
}

/// Shows the prompt of a shell that was just made.
pub fn init_shell(shell: &mut Shell)
    requires
        old(shell).wf(),
    ensures
        final(shell).wf(),
        final(shell)@ == old(shell)@.printed(prompt_text()),
{
    shell.good_formatting();
}

/// Takes what the keyboard decoder made of a key: a character goes to the
/// shell as the low byte of its code; a key without a character does nothing.
pub fn handle_character(shell: &mut Shell, character: Option<char>)
    requires
        old(shell).wf(),
    ensures
        final(shell).wf(),
        final(shell)@ == (match character {
            Some(c) => old(shell)@.step(low_byte(c)),
            None => old(shell)@,
        }),
{
    match character {
        Some(c) => shell.on_key_pressed(key_byte(c)),
        None => {},
    }
}

/// Takes a decoded key from the keyboard: a key that stands for a character
/// is one keystroke of the shell; any other key does nothing.
pub fn handle_keyboard_interrupt(shell: &mut Shell, key: DecodedKey)
    requires
        old(shell).wf(),
    ensures
        final(shell).wf(),
        final(shell)@ == (match character_of(key) {
            Some(c) => old(shell)@.step(low_byte(c)),
            None => old(shell)@,
        }),
{
    handle_character(shell, decoded_character(key));
}

} // verus!
