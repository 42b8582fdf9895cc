//! The boundary to the operating system: what is asked of it and what it answers.

use crate::named_pipe::PipeMode;
use libc::c_int;
use vstd::multiset::Multiset;
use vstd::prelude::*;

verus! {

/// An error as the operating system reported it.
#[derive(Clone, Copy, Debug, PartialEq, Eq, Structural)]
pub struct OsError {
    /// The raw error code.
    pub code: i32,
    /// Whether the code means that a signal cut the call short.
    pub interrupted: bool,
}

/// What one call into the operating system came back with.
#[derive(Clone, Copy, Debug, PartialEq, Eq, Structural)]
pub struct SysReturn {
    /// The value that the call returned.
    pub value: isize,
    /// The error that was current right after the call. It has a meaning only
    /// where `value` reports a failure.
    pub error: OsError,
}

/// What an operation comes to: a call for the embedding program to make, or
/// its end.
///
/// An operation is begun by asking for its step with no answer. Every call
/// that comes out is made, and its answer handed in for the next step, until
/// `Done` comes out.
#[derive(Debug, PartialEq, Eq)]
pub enum Step<T> {
    /// The call to make now.
    Call(Syscall),
    /// The operation is over, and this is what it gave.
    Done(T),
}

/// One call into the operating system, ready to be performed.
#[derive(Clone, Copy, Debug, PartialEq, Eq, Structural)]
pub enum Syscall {
    /// Read at most `len` bytes from `fd` into one buffer.
    Read { fd: c_int, len: usize },
    /// Read from `fd` into the first `count` buffers of a list.
    ReadVectored { fd: c_int, count: c_int },
    /// Write at most `len` bytes from one buffer to `fd`.
    Write { fd: c_int, len: usize },
    /// Write the first `count` buffers of a list to `fd`.
    WriteVectored { fd: c_int, count: c_int },
    /// Force what was written to `fd` onto its medium.
    Sync { fd: c_int },
    /// Release `fd`.
    Close { fd: c_int },
    /// Set the combined mode word of the pipe end `fd`.
    SetState { fd: c_int, mode: u32 },
    /// Bring a new server end of the pipe into being, with the given framing,
    /// and return its descriptor.
    Create { framing: PipeMode },
    /// Open a client end of the pipe and return its descriptor.
    Open,
    /// Take the next client of the listening socket `fd` and return the
    /// descriptor of the connection to it.
    Accept { fd: c_int },
    /// Wait on the server end `fd` until a client has connected to it.
    Connect { fd: c_int },
    /// Cut the server end `fd` loose from its client, so that it can serve
    /// another.
    Disconnect { fd: c_int },
}

impl Syscall {
    /// Whether a return value of `value` means that this call succeeded.
    ///
    /// Transfers and the sync fail with a negative value. A close succeeds
    /// with zero and with nothing else. The calls that are particular to
    /// pipe ends answer with a truth value, where zero is the failure. The
    /// calls that make a descriptor succeed with one, which is never negative.
    pub open spec fn succeeds(self, value: isize) -> bool {
        match self {
            Syscall::Read { .. } | Syscall::ReadVectored { .. } | Syscall::Write { .. }
            | Syscall::WriteVectored { .. } | Syscall::Sync { .. } => value >= 0,
            Syscall::Close { .. } => value == 0,
            Syscall::SetState { .. } | Syscall::Connect { .. } | Syscall::Disconnect { .. } => value
                != 0,
            Syscall::Create { .. } | Syscall::Open | Syscall::Accept { .. } => 0 <= value <= c_int::MAX,
        }
    }

    /// What a finished call comes to: success, or the failure with the error
    /// that the operating system reported.
    pub open spec fn outcome(self, ret: SysReturn) -> Result<(), OsError> {
        if self.succeeds(ret.value) {
            Ok(())
        } else {
            Err(ret.error)
        }
    }

    /// The descriptors that exist once this call was answered by `ret` and
    /// that did not exist before.
    pub open spec fn acquires(self, ret: SysReturn) -> Multiset<c_int> {
        match self {
            Syscall::Create { .. } | Syscall::Open | Syscall::Accept { .. } => if self.succeeds(ret.value) {
                Multiset::singleton(ret.value as c_int)
            } else {
                Multiset::empty()
            },
            _ => Multiset::empty(),
        }
    }

    /// The descriptors that are gone once this call was answered by `ret`.
    ///
    /// A close that was interrupted has to be made again. After any other
    /// answer the descriptor must not be touched: a success has released it,
    /// and after another failure nothing can be known of it.
    pub open spec fn releases(self, ret: SysReturn) -> Multiset<c_int> {
        match self {
            Syscall::Close { fd } => if ret.value != 0 && ret.error.interrupted {
                Multiset::empty()
            } else {
                Multiset::singleton(fd)
            },
            _ => Multiset::empty(),
        }
    }

    /// An operation that is this one call: the call before there is an
    /// answer, and after it the success or the failure that it means. The
    /// call is never made a second time.
    pub open spec fn checked(self, last: Option<SysReturn>) -> Step<Result<(), OsError>> {
        match last {
            None => Step::Call(self),
            Some(ret) => Step::Done(self.outcome(ret)),
        }
    }

    /// An operation that is this one transfer: the call before there is an
    /// answer, and after it the number of bytes moved or the failure. The
    /// call is never made a second time, however few bytes were moved.
    pub open spec fn counted(self, last: Option<SysReturn>) -> Step<Result<usize, OsError>> {
        match last {
            None => Step::Call(self),
            Some(ret) => Step::Done(ret.transferred()),
        }
    }

    /// Whether `value` means that this call succeeded.
    pub fn succeeded(&self, value: isize) -> (ok: bool)
        ensures
            ok == self.succeeds(value),
    {
        match self {
            Syscall::Read { .. } | Syscall::ReadVectored { .. } | Syscall::Write { .. }
            | Syscall::WriteVectored { .. } | Syscall::Sync { .. } => value >= 0,
            Syscall::Close { .. } => value == 0,
            Syscall::SetState { .. } | Syscall::Connect { .. } | Syscall::Disconnect { .. } => value
                != 0,
            Syscall::Create { .. } | Syscall::Open | Syscall::Accept { .. } => 0 <= value && value <= 0x7fff_ffff,
        }
    }

    /// Tells a finished call's success from its failure, which carries the
    /// error that the operating system reported.
    pub fn status(&self, ret: SysReturn) -> (r: Result<(), OsError>)
        ensures
            r == self.outcome(ret),
    {
        if self.succeeded(ret.value) {
            Ok(())
        } else {
            Err(ret.error)
        }
    }

    /// The step of an operation that is this one call.
    pub fn check(self, last: Option<SysReturn>) -> (step: Step<Result<(), OsError>>)
        ensures
            step == self.checked(last),
    {
        match last {
            None => Step::Call(self),
            Some(ret) => Step::Done(self.status(ret)),
        }
    }

    /// The step of an operation that is this one transfer.
    pub fn count(self, last: Option<SysReturn>) -> (step: Step<Result<usize, OsError>>)
        ensures
            step == self.counted(last),
    {
        match last {
            None => Step::Call(self),
            Some(ret) => Step::Done(ret.count()),
        }
    }
}

impl SysReturn {
    /// The number of bytes that a transfer moved: the returned value where it
    /// is not negative, and the reported error where it is.
    pub open spec fn transferred(self) -> Result<usize, OsError> {
        if self.value >= 0 {
            Ok(self.value as usize)
        } else {
            Err(self.error)
        }
    }

    /// Reads the answer to a transfer: the number of bytes it moved, which may
    /// be fewer than were asked for, or the error that was reported.
    pub fn count(&self) -> (r: Result<usize, OsError>)
        ensures
            r == self.transferred(),
    {
        if self.value >= 0 {
            Ok(self.value as usize)
        } else {
            Err(self.error)
        }
    }
}

/// Two steps that each keep the account of descriptors keep it together:
/// where `middle` accounts for `before`, and `after` for `middle`, `after`
/// accounts for `before` with what the two steps made and gave up.
pub proof fn lemma_accounts_add_up(
    before: Multiset<c_int>,
    made_first: Multiset<c_int>,
    gone_first: Multiset<c_int>,
    middle: Multiset<c_int>,
    made_then: Multiset<c_int>,
    gone_then: Multiset<c_int>,
    after: Multiset<c_int>,
)
    requires
        middle.add(gone_first) == before.add(made_first),
        after.add(gone_then) == middle.add(made_then),
    ensures
        after.add(gone_first.add(gone_then)) == before.add(made_first.add(made_then)),
{
    assert forall|fd: c_int|
        after.add(gone_first.add(gone_then)).count(fd) == before.add(
            made_first.add(made_then),
        ).count(fd) by {
        assert(middle.add(gone_first).count(fd) == middle.count(fd) + gone_first.count(fd));
        assert(before.add(made_first).count(fd) == before.count(fd) + made_first.count(fd));
        assert(after.add(gone_then).count(fd) == after.count(fd) + gone_then.count(fd));
        assert(middle.add(made_then).count(fd) == middle.count(fd) + made_then.count(fd));
    }
    assert(after.add(gone_first.add(gone_then)) =~= before.add(made_first.add(made_then)));
}

} // verus!
