//! The line buffer that collects keystrokes, and the split of a finished
//! line into a command token and an argument token.
use vstd::prelude::*;
use crate::error::ShellError;
use crate::names::{ARGV_SIZE, COMMAND_SIZE, NUL, SPACE, pad_nul};

verus! {

/// Capacity of the line buffer.
pub const LINE_SIZE: usize = 80;

/// Where the scan for the end of the command, begun at `from`, stops: at
/// the first space, at the tenth byte, or at the end of the line.
pub open spec fn scan_command(line: Seq<u8>, from: int) -> int
    decreases line.len() - from,
{
    if from >= line.len() || from >= 10 || line[from] == SPACE {
        from
    } else {
        scan_command(line, from + 1)
    }
}

/// How many bytes of the line make the command: those before the first
/// space, and no more than ten.
pub open spec fn command_end(line: Seq<u8>) -> int {
    scan_command(line, 0)
}

/// Whether a space follows the command and separates it from the argument.
pub open spec fn has_separator(line: Seq<u8>) -> bool {
    command_end(line) < line.len() && line[command_end(line)] == SPACE
}

/// Where the argument starts: behind the separating space where there is
/// one, and right behind the command where there is none.
pub open spec fn argument_start(line: Seq<u8>) -> int {
    if has_separator(line) {
        command_end(line) + 1
    } else {
        command_end(line)
    }
}

/// The bytes of the line that make the command.
pub open spec fn command_part(line: Seq<u8>) -> Seq<u8> {
    line.subrange(0, command_end(line))
}

/// The bytes of the line that make the argument.
pub open spec fn argument_part(line: Seq<u8>) -> Seq<u8> {
    line.subrange(argument_start(line), line.len() as int)
}

/// The command token of the line.
pub open spec fn split_command(line: Seq<u8>) -> Seq<u8> {
    pad_nul(command_part(line), 10)
}

/// The argument token of the line.
pub open spec fn split_argument(line: Seq<u8>) -> Seq<u8> {
    pad_nul(argument_part(line), 70)
}

/// Where the scan stops: within the line and the first ten bytes, at a
/// space if before the end of both, with no space before it.
pub proof fn lemma_scan_command(line: Seq<u8>, from: int)
    requires
        0 <= from <= line.len(),
        from <= 10,
    ensures
        from <= scan_command(line, from) <= line.len(),
        scan_command(line, from) <= 10,
        scan_command(line, from) < line.len() && scan_command(line, from) < 10
            ==> line[scan_command(line, from)] == SPACE,
        forall|k: int| from <= k < scan_command(line, from) ==> line[k] != SPACE,
    decreases line.len() - from,
{
    if !(from >= line.len() || from >= 10 || line[from] == SPACE) {
        lemma_scan_command(line, from + 1);
    }
}

/// A place where the scan has to stop, with no space between `from` and it,
/// is where it stops.
pub proof fn lemma_scan_command_is(line: Seq<u8>, from: int, r: int)
    requires
        0 <= from <= r <= line.len(),
        r <= 10,
        r == line.len() || r == 10 || line[r] == SPACE,
        forall|k: int| from <= k < r ==> line[k] != SPACE,
    ensures
        scan_command(line, from) == r,
    decreases r - from,
{
    if from < r {
        lemma_scan_command_is(line, from + 1, r);
    }
}

/// Splits the first `buf_len` bytes of `arr` into a command token and an
/// argument token, both padded with NUL bytes.
///
/// The command is what stands before the first space, and no more than ten
/// bytes. The argument is the rest of the line, without the one space that
/// separates it from the command; it is empty where the command is the whole
/// line. Fails with `ArgumentTooLong` where the argument has more than
/// seventy bytes.
pub fn mu_split(arr: [u8; LINE_SIZE], buf_len: usize) -> (r: Result<
    ([u8; COMMAND_SIZE], [u8; ARGV_SIZE]),
    ShellError,
>)
    requires
        buf_len <= 80,
    ensures
        match r {
            Ok((cmd, argument)) => {
                &&& buf_len - argument_start(arr@.subrange(0, buf_len as int)) <= 70
                &&& cmd@ == split_command(arr@.subrange(0, buf_len as int))
                &&& argument@ == split_argument(arr@.subrange(0, buf_len as int))
            },
            Err(e) => {
                &&& e == ShellError::ArgumentTooLong
                &&& buf_len - argument_start(arr@.subrange(0, buf_len as int)) > 70
            },
        },
{
    let ghost line = arr@.subrange(0, buf_len as int);
    let mut cmd: [u8; COMMAND_SIZE] = [NUL;COMMAND_SIZE];
    let mut argument: [u8; ARGV_SIZE] = [NUL;ARGV_SIZE];
    let mut i: usize = 0;
    while i < buf_len && i < COMMAND_SIZE && arr[i] != SPACE
        invariant
            i <= buf_len <= 80,
            i <= 10,
            line == arr@.subrange(0, buf_len as int),
            forall|k: int| 0 <= k < i ==> line[k] != SPACE,
            forall|k: int| 0 <= k < i ==> cmd@[k] == line[k],
            forall|k: int| i <= k < 10 ==> cmd@[k] == NUL,
        decreases buf_len - i,
    {
        cmd[i] = arr[i];
        i += 1;
    }
    proof {
        lemma_scan_command_is(line, 0, i as int);
        assert(cmd@ =~= split_command(line));
    }
    if i < buf_len && arr[i] == SPACE {
        i += 1;
    }
    assert(i == argument_start(line));
    if buf_len - i > ARGV_SIZE {
        return Err(ShellError::ArgumentTooLong);
    }
    let start = i;
    let mut j: usize = 0;
    while i < buf_len
        invariant
            start <= i <= buf_len <= 80,
            buf_len - start <= 70,
            j == i - start,
            line == arr@.subrange(0, buf_len as int),
            forall|k: int| 0 <= k < j ==> argument@[k] == line[start + k],
            forall|k: int| j <= k < 70 ==> argument@[k] == NUL,
        decreases buf_len - i,
    {
        argument[j] = arr[i];
        i += 1;
        j += 1;
    }
    assert(argument@ =~= split_argument(line));
    Ok((cmd, argument))
}

/// The keystrokes of the line that is being typed.
pub struct LineBuffer {
    buf: [u8; LINE_SIZE],
    buf_len: usize,
}

impl View for LineBuffer {
    type V = Seq<u8>;

    closed spec fn view(&self) -> Seq<u8> {
        self.buf@.subrange(0, self.buf_len as int)
    }
}

impl LineBuffer {
    /// The line is no longer than the buffer.
    pub closed spec fn wf(&self) -> bool {
        self.buf_len <= 80
    }

    /// A well-formed buffer holds eighty bytes at most.
    pub proof fn lemma_len(&self)
        requires
            self.wf(),
        ensures
            self@.len() <= 80,
    {
    }

    /// An empty line.
    pub fn new() -> (line: LineBuffer)
        ensures
            line.wf(),
            line@ == Seq::<u8>::empty(),
    {
        let line = LineBuffer { buf: [NUL;LINE_SIZE], buf_len: 0 };
        assert(line@ =~= Seq::<u8>::empty());
        line
    }

    /// How many bytes the line holds.
    pub fn len(&self) -> (n: usize)
        requires
            self.wf(),
        ensures
            n == self@.len(),
            n <= 80,
    {
        self.buf_len
    }

    /// Adds `byte` to the end of the line. Fails with `BufferFull` where
    /// the line holds eighty bytes, and then changes nothing.
    pub fn append(&mut self, byte: u8) -> (r: Result<(), ShellError>)
        requires
            old(self).wf(),
        ensures
            final(self).wf(),
            match r {
                Ok(_) => old(self)@.len() < 80 && final(self)@ == old(self)@.push(byte),
                Err(e) => e == ShellError::BufferFull && old(self)@.len() == 80 && final(self)@
                    == old(self)@,
            },
    {
        if self.buf_len >= LINE_SIZE {
            return Err(ShellError::BufferFull);
        }
        self.buf[self.buf_len] = byte;
        self.buf_len += 1;
        assert(self@ =~= old(self)@.push(byte));
        Ok(())
    }

    /// Takes the last byte off the line; nothing changes where the line is empty.
    pub fn backspace(&mut self)
        requires
            old(self).wf(),
        ensures
            final(self).wf(),
            final(self)@ == (if old(self)@.len() > 0 {
                old(self)@.drop_last()
            } else {
                old(self)@
            }),
    {
        if self.buf_len > 0 {
            self.buf_len -= 1;
            self.buf[self.buf_len] = NUL;
            assert(self@ =~= old(self)@.drop_last());
        }
    }

    /// Empties the line.
    pub fn clear(&mut self)
        requires
            old(self).wf(),
        ensures
            final(self).wf(),
            final(self)@ == Seq::<u8>::empty(),
    {
        self.buf_len = 0;
        assert(self@ =~= Seq::<u8>::empty());
    }

    /// Splits the line into a command token and an argument token, as
    /// `mu_split` does.
    pub fn split(&self) -> (r: Result<([u8; COMMAND_SIZE], [u8; ARGV_SIZE]), ShellError>)
        requires
            self.wf(),
        ensures
            match r {
                Ok((cmd, argument)) => {
                    &&& self@.len() - argument_start(self@) <= 70
                    &&& cmd@ == split_command(self@)
                    &&& argument@ == split_argument(self@)
                },
                Err(e) => {
                    &&& e == ShellError::ArgumentTooLong
                    &&& self@.len() - argument_start(self@) > 70
                },
            },
    {
        mu_split(self.buf, self.buf_len)
    }
}

} // verus!
