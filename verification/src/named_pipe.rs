//! Named pipes: where a pipe lives, and the mode word of a pipe end.

use crate::sys::{OsError, Step, Syscall, SysReturn};
use crate::wide::{encode_wide, wide};
use libc::c_int;
use vstd::prelude::*;
use vstd::string::*;

verus! {

/// Read mode of a pipe end that hands out bytes as they come.
pub const PIPE_READMODE_BYTE: u32 = 0;

/// Read mode of a pipe end that hands out one message at a time.
pub const PIPE_READMODE_MESSAGE: u32 = 2;

/// Mode of a pipe end on which no call waits.
pub const PIPE_NOWAIT: u32 = 1;

/// How a pipe frames what is written to it.
#[derive(Clone, Copy, Debug, PartialEq, Eq, Structural)]
pub enum PipeMode {
    /// A stream of bytes: the limits of the single writes are not kept.
    Bytes,
    /// A stream of messages: every write is one message, and is read as one.
    Messages,
}

impl PipeMode {
    /// The read mode that goes with this framing.
    pub open spec fn readmode(self) -> u32 {
        match self {
            PipeMode::Bytes => PIPE_READMODE_BYTE,
            PipeMode::Messages => PIPE_READMODE_MESSAGE,
        }
    }

    /// The read mode that goes with this framing.
    pub fn to_readmode(self) -> (bits: u32)
        ensures
            bits == self.readmode(),
    {
        match self {
            PipeMode::Bytes => PIPE_READMODE_BYTE,
            PipeMode::Messages => PIPE_READMODE_MESSAGE,
        }
    }
}

/// The two things that are negotiated for a pipe end. They do not depend on
/// each other, and only the second can change once the end exists.
#[derive(Clone, Copy, Debug, PartialEq, Eq, Structural)]
pub struct Mode {
    /// Whether the limits of the single writes are kept.
    pub framing: PipeMode,
    /// Whether calls return at once where they would have to wait.
    pub nonblocking: bool,
}

/// The framing part of a mode word for an end that reads in `read_mode`, or
/// that does not read at all.
pub open spec fn read_mode_bits(read_mode: Option<PipeMode>) -> u32 {
    match read_mode {
        Some(mode) => mode.readmode(),
        None => 0,
    }
}

/// The combined mode word: the framing bits, and the blocking flag in the
/// lowest bit.
pub open spec fn mode_word(read_mode: Option<PipeMode>, nonblocking: bool) -> u32 {
    read_mode_bits(read_mode) | (if nonblocking { PIPE_NOWAIT } else { 0u32 })
}

/// All of a mode word but its lowest bit.
pub open spec fn framing_bits(word: u32) -> u32 {
    word & !1u32
}

/// The lowest bit of a mode word.
pub open spec fn blocking_bit(word: u32) -> bool {
    word & 1u32 == 1u32
}

/// The call that sets the mode word of the pipe end `handle`.
pub open spec fn mode_call(handle: c_int, read_mode: Option<PipeMode>, nonblocking: bool) -> Syscall {
    Syscall::SetState { fd: handle, mode: mode_word(read_mode, nonblocking) }
}

/// Makes the pipe end `handle` blocking or not.
///
/// The word that is set is put together from the read mode that the end has
/// and the flag asked for, so the framing stays as it was. Before there is an
/// answer, the one call is to be made. It has failed where it returned zero,
/// and the error that was reported comes out.
pub fn set_nonblocking_for_stream(
    handle: c_int,
    read_mode: Option<PipeMode>,
    nonblocking: bool,
    last: Option<SysReturn>,
) -> (step: Step<Result<(), OsError>>)
    ensures
        step == mode_call(handle, read_mode, nonblocking).checked(last),
        framing_bits(mode_word(read_mode, nonblocking)) == read_mode_bits(read_mode),
        blocking_bit(mode_word(read_mode, nonblocking)) == nonblocking,
{
    let read_mode_word: u32 = match read_mode {
        Some(mode) => mode.to_readmode(),
        None => 0,
    };
    // the flag is the lowest bit, so the truth value goes in as it is
    let mode: u32 = read_mode_word | nonblocking as u32;
    proof {
        lemma_mode_word_parts(read_mode, nonblocking);
    }
    (Syscall::SetState { fd: handle, mode }).check(last)
}

/// A mode word holds its two parts apart: the framing bits are those of the
/// read mode whatever the flag is, and the lowest bit is the flag whatever
/// the read mode is.
pub proof fn lemma_mode_word_parts(read_mode: Option<PipeMode>, nonblocking: bool)
    ensures
        framing_bits(mode_word(read_mode, nonblocking)) == read_mode_bits(read_mode),
        blocking_bit(mode_word(read_mode, nonblocking)) == nonblocking,
        mode_word(read_mode, nonblocking) == read_mode_bits(read_mode) + (if nonblocking {
            1int
        } else {
            0int
        }),
{
    assert((0u32 | 0u32) & !1u32 == 0u32 && (0u32 | 0u32) & 1u32 == 0u32 && (0u32 | 0u32) == 0u32)
        by (bit_vector);
    assert((0u32 | 1u32) & !1u32 == 0u32 && (0u32 | 1u32) & 1u32 == 1u32 && (0u32 | 1u32) == 1u32)
        by (bit_vector);
    assert((2u32 | 0u32) & !1u32 == 2u32 && (2u32 | 0u32) & 1u32 == 0u32 && (2u32 | 0u32) == 2u32)
        by (bit_vector);
    assert((2u32 | 1u32) & !1u32 == 2u32 && (2u32 | 1u32) & 1u32 == 1u32 && (2u32 | 1u32) == 3u32)
        by (bit_vector);
}

/// Changing the blocking flag of any mode word, as often as one likes,
/// leaves every other bit of the word as it was, and the flag is what was
/// set last.
pub proof fn lemma_toggle_keeps_framing(word: u32, first: bool, second: bool)
    ensures
        framing_bits(with_blocking(with_blocking(word, first), second)) == framing_bits(word),
        blocking_bit(with_blocking(with_blocking(word, first), second)) == second,
        with_blocking(with_blocking(word, first), !first) == with_blocking(word, !first),
        with_blocking(with_blocking(word, first), first) == with_blocking(word, first),
{
    assert(((word & !1u32) | 0u32) & !1u32 == word & !1u32) by (bit_vector);
    assert(((word & !1u32) | 1u32) & !1u32 == word & !1u32) by (bit_vector);
    assert(((word & !1u32) | 0u32) & 1u32 == 0u32) by (bit_vector);
    assert(((word & !1u32) | 1u32) & 1u32 == 1u32) by (bit_vector);
}

/// The mode word `word` with its blocking flag set to `nonblocking` and its
/// framing bits kept.
pub open spec fn with_blocking(word: u32, nonblocking: bool) -> u32 {
    framing_bits(word) | (if nonblocking { PIPE_NOWAIT } else { 0u32 })
}

/// The word that [`set_nonblocking_for_stream`] sets is the word that the end
/// had, with nothing but the blocking flag changed.
pub proof fn lemma_mode_word_changes_flag_only(
    read_mode: Option<PipeMode>,
    before: bool,
    after: bool,
)
    ensures
        mode_word(read_mode, after) == with_blocking(mode_word(read_mode, before), after),
{
    lemma_mode_word_parts(read_mode, before);
}

/// The place of the pipe `name` on `host`, or on this machine where `host` is
/// `None`: two backslashes, the host or a dot, `\pipe\`, the name, all as wide
/// characters, and a zero to end it.
pub open spec fn pipe_path(name: Seq<char>, host: Option<Seq<char>>) -> Seq<u16> {
    wide(
        seq!['\\', '\\'] + (match host {
            Some(h) => h,
            None => seq!['.'],
        }) + seq!['\\', 'p', 'i', 'p', 'e', '\\'] + name,
    ).push(0u16)
}

/// The text of a host name as it stands in contracts.
pub open spec fn host_text(hostname: Option<&str>) -> Option<Seq<char>> {
    match hostname {
        Some(host) => Some(host@),
        None => None,
    }
}

/// The path under which the operating system knows the pipe `pipe_name` of
/// `hostname`, ready to be handed to it: the same names always give the same
/// path, and nothing else has a part in it.
pub fn convert_path(pipe_name: &str, hostname: Option<&str>) -> (path: Vec<u16>)
    ensures
        path@ == pipe_path(pipe_name@, host_text(hostname)),
{
    let mut text = String::from_str("\\\\");
    match hostname {
        Some(host) => text.append(host),
        None => text.append("."),
    }
    text.append("\\pipe\\");
    text.append(pipe_name);
    proof {
        reveal_strlit("\\\\");
        reveal_strlit(".");
        reveal_strlit("\\pipe\\");
        assert("\\\\"@ =~= seq!['\\', '\\']);
        assert("."@ =~= seq!['.']);
        assert("\\pipe\\"@ =~= seq!['\\', 'p', 'i', 'p', 'e', '\\']);
    }
    // the encoding leaves the terminator out, so it is added here
    let mut path = encode_wide(text.as_str());
    path.push(0);
    path
}

/// The name of a pipe: the name proper, and the host on which the pipe lives
/// where that is not this machine. A name is made once and never changes; all
/// that it is for is to give the path of the pipe.
#[derive(Debug)]
pub struct PipeName {
    name: String,
    host: Option<String>,
}

impl PipeName {
    /// The name proper.
    pub closed spec fn name(self) -> Seq<char> {
        self.name@
    }

    /// The host, where one was given.
    pub closed spec fn host(self) -> Option<Seq<char>> {
        match self.host {
            Some(host) => Some(host@),
            None => None,
        }
    }

    /// The path that this name stands for.
    pub open spec fn path(self) -> Seq<u16> {
        pipe_path(self.name(), self.host())
    }

    /// The name of the pipe `pipe_name` of `hostname`, or of this machine.
    pub fn new(pipe_name: &str, hostname: Option<&str>) -> (name: Self)
        ensures
            name.name() == pipe_name@,
            name.host() == host_text(hostname),
    {
        let host = match hostname {
            Some(host) => Some(String::from_str(host)),
            None => None,
        };
        PipeName { name: String::from_str(pipe_name), host }
    }

    /// The path under which the operating system knows the pipe, as
    /// [`convert_path`] gives it.
    pub fn to_path(&self) -> (path: Vec<u16>)
        ensures
            path@ == self.path(),
    {
        match &self.host {
            Some(host) => convert_path(self.name.as_str(), Some(host.as_str())),
            None => convert_path(self.name.as_str(), None),
        }
    }
}

} // verus!
