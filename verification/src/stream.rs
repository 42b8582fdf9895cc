//! The connection as its user sees it: one descriptor and the mode that was
//! negotiated for it.

use crate::fdops::{close_next, vectored_count, CloseStep, FdOps};
use crate::instancer::{Allocation, Instancer, Side};
use crate::named_pipe::{
    framing_bits, lemma_mode_word_parts, mode_call, set_nonblocking_for_stream, Mode,
};
use crate::sys::{OsError, Step, Syscall, SysReturn};
use libc::c_int;
use vstd::prelude::*;

verus! {

/// A duplex connection. It owns its descriptor, and closing the stream closes
/// that descriptor and nothing else.
#[derive(Debug)]
pub struct Stream {
    /// The descriptor of the connection.
    pub handle: FdOps,
    /// The mode that was negotiated for it.
    pub mode: Mode,
}

impl Stream {
    /// Wraps a connected descriptor whose mode is `mode`.
    pub fn new(handle: FdOps, mode: Mode) -> (stream: Self)
        ensures
            stream == (Stream { handle, mode }),
    {
        Stream { handle, mode }
    }

    /// Begins a connection to a server as its client. The stream is made of
    /// the end that comes out, with [`crate::instancer::Instance::into_stream`].
    pub fn connect(mode: Mode) -> (step: Allocation)
        ensures
            step == Instancer::begun(Side::Client, mode),
    {
        Instancer::begin(Side::Client, mode)
    }

    /// Reads once into a buffer of `len` bytes, as [`FdOps::read`] does.
    /// On a stream of messages the read takes one message and never runs two
    /// together; on a stream of bytes it takes what is there, up to `len`.
    pub fn read(&self, len: usize, last: Option<SysReturn>) -> (step: Step<Result<usize, OsError>>)
        ensures
            step == (Syscall::Read { fd: self.handle.fd, len }).counted(last),
    {
        self.handle.read(len, last)
    }

    /// Reads once into a list of `bufs` buffers, as [`FdOps::read_vectored`]
    /// does.
    pub fn read_vectored(&self, bufs: usize, last: Option<SysReturn>) -> (step: Step<
        Result<usize, OsError>,
    >)
        ensures
            step == (Syscall::ReadVectored {
                fd: self.handle.fd,
                count: vectored_count(bufs as int) as c_int,
            }).counted(last),
    {
        self.handle.read_vectored(bufs, last)
    }

    /// Writes once from a buffer of `len` bytes, as [`FdOps::write`] does. On
    /// a stream of messages what one write takes is one message.
    pub fn write(&self, len: usize, last: Option<SysReturn>) -> (step: Step<
        Result<usize, OsError>,
    >)
        ensures
            step == (Syscall::Write { fd: self.handle.fd, len }).counted(last),
    {
        self.handle.write(len, last)
    }

    /// Writes once from a list of `bufs` buffers, as
    /// [`FdOps::write_vectored`] does.
    pub fn write_vectored(&self, bufs: usize, last: Option<SysReturn>) -> (step: Step<
        Result<usize, OsError>,
    >)
        ensures
            step == (Syscall::WriteVectored {
                fd: self.handle.fd,
                count: vectored_count(bufs as int) as c_int,
            }).counted(last),
    {
        self.handle.write_vectored(bufs, last)
    }

    /// Forces earlier writes through, as [`FdOps::flush`] does.
    pub fn flush(&self, last: Option<SysReturn>) -> (step: Step<Result<(), OsError>>)
        ensures
            step == (Syscall::Sync { fd: self.handle.fd }).checked(last),
    {
        self.handle.flush(last)
    }

    /// The call that makes the stream blocking or not. The framing that the
    /// stream has goes into the word again, unchanged.
    pub open spec fn blocking_call(self, nonblocking: bool) -> Syscall {
        mode_call(self.handle.fd, Some(self.mode.framing), nonblocking)
    }

    /// The stream as it is after one step of making it blocking or not: with
    /// the new flag where the answer `last` means success, and as it was
    /// before any answer and after a failure.
    pub open spec fn with_blocking(self, nonblocking: bool, last: Option<SysReturn>) -> Stream {
        match last {
            Some(ret) if self.blocking_call(nonblocking).succeeds(ret.value) => Stream {
                handle: self.handle,
                mode: Mode { framing: self.mode.framing, nonblocking },
            },
            _ => self,
        }
    }

    /// Makes the stream blocking or not: one call. Where it succeeded the
    /// stream has the new flag; where it failed the error comes out and the
    /// stream is as it was. The framing and the descriptor are the same in
    /// either case.
    pub fn set_nonblocking(&mut self, nonblocking: bool, last: Option<SysReturn>) -> (step: Step<
        Result<(), OsError>,
    >)
        ensures
            step == old(self).blocking_call(nonblocking).checked(last),
            *final(self) == old(self).with_blocking(nonblocking, last),
            final(self).mode.framing == old(self).mode.framing,
            final(self).handle == old(self).handle,
    {
        let step = set_nonblocking_for_stream(
            self.handle.as_raw_fd(),
            Some(self.mode.framing),
            nonblocking,
            last,
        );
        match step {
            Step::Done(Ok(())) => {
                self.mode.nonblocking = nonblocking;
            },
            _ => {},
        }
        step
    }

    /// The descriptor, which stays owned by the stream.
    pub fn as_raw_fd(&self) -> (fd: c_int)
        ensures
            fd == self.handle.fd,
    {
        self.handle.as_raw_fd()
    }

    /// Gives the descriptor out. Releasing it is up to the caller.
    pub fn into_raw_fd(self) -> (fd: c_int)
        ensures
            fd == self.handle.fd,
    {
        self.handle.into_raw_fd()
    }

    /// Makes a stream of a connected descriptor that nothing else owns and
    /// whose mode is `mode`.
    pub fn from_raw(fd: c_int, mode: Mode) -> (stream: Self)
        ensures
            stream == (Stream { handle: FdOps { fd }, mode }),
    {
        Stream { handle: FdOps::from_raw(fd), mode }
    }

    /// Ends the stream: the first step of closing its descriptor, which
    /// [`crate::fdops::close_fd`] carries on with. Nothing else is closed.
    pub fn close(self) -> (step: CloseStep)
        ensures
            step == close_next(self.handle.fd, None),
    {
        self.handle.close()
    }
}

/// However often the blocking flag of a stream is changed, and whether the
/// changes succeed or fail, the stream keeps its framing and its descriptor,
/// and every word that is set carries the bits of that framing.
pub proof fn lemma_toggling_keeps_framing(
    stream: Stream,
    first: bool,
    first_answer: Option<SysReturn>,
    second: bool,
    second_answer: Option<SysReturn>,
)
    ensures
        ({
            let once = stream.with_blocking(first, first_answer);
            let twice = once.with_blocking(second, second_answer);
            &&& once.mode.framing == stream.mode.framing
            &&& twice.mode.framing == stream.mode.framing
            &&& twice.handle == stream.handle
            &&& once.blocking_call(second) == stream.blocking_call(second)
            &&& stream.blocking_call(first) matches Syscall::SetState { mode, .. }
                && framing_bits(mode) == stream.mode.framing.readmode()
            &&& once.blocking_call(second) matches Syscall::SetState { mode, .. }
                && framing_bits(mode) == stream.mode.framing.readmode()
        }),
{
    lemma_mode_word_parts(Some(stream.mode.framing), first);
    lemma_mode_word_parts(Some(stream.mode.framing), second);
}

} // verus!
