//! Ownership of one file descriptor: the calls made on it, and its release.

use crate::sys::{OsError, Step, Syscall, SysReturn};
use libc::c_int;
use to_method::To;
use vstd::prelude::*;

verus! {

/// `To::try_to::<c_int>` on a `usize`, which is `c_int::try_from`: the same
/// number where it fits, and nothing where it does not.
#[verifier::external_body]
fn try_to_c_int(n: usize) -> (r: Option<c_int>)
    ensures
        r == (if n <= c_int::MAX { Some(n as c_int) } else { None }),
{
    match n.try_to::<c_int>() {
        Ok(count) => Some(count),
        Err(_) => None,
    }
}

/// The number of buffers that one vectored call is told of when `bufs` are at
/// hand: all of them, as long as the count can be written as a `c_int`, and
/// the largest `c_int` beyond that.
pub open spec fn vectored_count(bufs: int) -> int {
    if bufs <= c_int::MAX {
        bufs
    } else {
        c_int::MAX as int
    }
}

/// The bytes that buffers of the lengths `lens` hold together.
pub open spec fn capacity(lens: Seq<usize>) -> int
    decreases lens.len(),
{
    if lens.len() == 0 {
        0
    } else {
        capacity(lens.drop_last()) + lens.last()
    }
}

/// Owner of one file descriptor.
///
/// The value is neither `Clone` nor `Copy`: whoever holds it is the one owner
/// of the descriptor, and giving the descriptor up consumes the value.
#[derive(Debug)]
pub struct FdOps {
    /// The descriptor that this value owns.
    pub fd: c_int,
}

impl FdOps {
    /// Takes ownership of `fd`.
    pub fn new(fd: c_int) -> (ops: Self)
        ensures
            ops.fd == fd,
    {
        FdOps { fd }
    }

    /// Reads once into a buffer of `len` bytes.
    ///
    /// Before there is an answer, the one read is to be made. After it the
    /// operation is over: it gives the number of bytes that arrived, which
    /// may be fewer than `len`, or the error that was reported where the
    /// returned value is negative. No second read is made for the rest.
    pub fn read(&self, len: usize, last: Option<SysReturn>) -> (step: Step<Result<usize, OsError>>)
        ensures
            step == (Syscall::Read { fd: self.fd, len }).counted(last),
    {
        (Syscall::Read { fd: self.fd, len }).count(last)
    }

    /// Reads once into a list of `bufs` buffers.
    ///
    /// The call names as many of the buffers as a `c_int` can count; those
    /// beyond are left out of it, and it is for the caller to go on with
    /// them. The answer is read as that of [`FdOps::read`] is.
    pub fn read_vectored(&self, bufs: usize, last: Option<SysReturn>) -> (step: Step<
        Result<usize, OsError>,
    >)
        ensures
            step == (Syscall::ReadVectored {
                fd: self.fd,
                count: vectored_count(bufs as int) as c_int,
            }).counted(last),
    {
        let count = try_to_c_int(bufs).unwrap_or(c_int::MAX);
        (Syscall::ReadVectored { fd: self.fd, count }).count(last)
    }

    /// Writes once from a buffer of `len` bytes.
    ///
    /// Before there is an answer, the one write is to be made. After it the
    /// operation is over: it gives the number of bytes that were taken, which
    /// may be fewer than `len`, or the error that was reported where the
    /// returned value is negative. No second write is made for the rest.
    pub fn write(&self, len: usize, last: Option<SysReturn>) -> (step: Step<
        Result<usize, OsError>,
    >)
        ensures
            step == (Syscall::Write { fd: self.fd, len }).counted(last),
    {
        (Syscall::Write { fd: self.fd, len }).count(last)
    }

    /// Writes once from a list of `bufs` buffers.
    ///
    /// The call names as many of the buffers as a `c_int` can count; those
    /// beyond are left out of it, and it is for the caller to go on with
    /// them. The answer is read as that of [`FdOps::write`] is.
    pub fn write_vectored(&self, bufs: usize, last: Option<SysReturn>) -> (step: Step<
        Result<usize, OsError>,
    >)
        ensures
            step == (Syscall::WriteVectored {
                fd: self.fd,
                count: vectored_count(bufs as int) as c_int,
            }).counted(last),
    {
        let count = try_to_c_int(bufs).unwrap_or(c_int::MAX);
        (Syscall::WriteVectored { fd: self.fd, count }).count(last)
    }

    /// Forces earlier writes onto the medium: one call, which has failed
    /// where the returned value is negative, with the error that was reported.
    pub fn flush(&self, last: Option<SysReturn>) -> (step: Step<Result<(), OsError>>)
        ensures
            step == (Syscall::Sync { fd: self.fd }).checked(last),
    {
        (Syscall::Sync { fd: self.fd }).check(last)
    }

    /// What the answer to a call that makes a descriptor stands for: the
    /// owner of the descriptor that came back, or the error that was reported
    /// where none came back.
    pub open spec fn acquired(call: Syscall, last: Option<SysReturn>) -> Step<
        Result<FdOps, OsError>,
    > {
        match last {
            None => Step::Call(call),
            Some(ret) => if 0 <= ret.value <= c_int::MAX {
                Step::Done(Ok(FdOps { fd: ret.value as c_int }))
            } else {
                Step::Done(Err(ret.error))
            },
        }
    }

    /// Makes a descriptor by the one call `call` and takes ownership of it.
    pub fn acquire(call: Syscall, last: Option<SysReturn>) -> (step: Step<Result<FdOps, OsError>>)
        ensures
            step == FdOps::acquired(call, last),
    {
        match last {
            None => Step::Call(call),
            Some(ret) => {
                if 0 <= ret.value && ret.value <= 0x7fff_ffff {
                    Step::Done(Ok(FdOps::new(ret.value as c_int)))
                } else {
                    Step::Done(Err(ret.error))
                }
            },
        }
    }

    /// Gives the descriptor up: the first step of closing it, which
    /// [`close_fd`] carries on with.
    pub fn close(self) -> (step: CloseStep)
        ensures
            step == close_next(self.fd, None),
    {
        close_fd(self.fd, None)
    }

    /// The descriptor, which stays owned by `self`.
    pub fn as_raw_fd(&self) -> (fd: c_int)
        ensures
            fd == self.fd,
    {
        self.fd
    }

    /// Gives the descriptor out. It is no longer owned by any `FdOps`, and
    /// releasing it is up to the caller.
    pub fn into_raw_fd(self) -> (fd: c_int)
        ensures
            fd == self.fd,
    {
        self.fd
    }

    /// Takes ownership of `fd`, which nothing else may own.
    pub fn from_raw(fd: c_int) -> (ops: Self)
        ensures
            ops.fd == fd,
    {
        FdOps::new(fd)
    }
}

/// What closing a descriptor comes to after each attempt.
#[derive(Clone, Copy, Debug, PartialEq, Eq, Structural)]
pub enum CloseStep {
    /// The call to make now; its answer goes into the next [`close_fd`].
    Call(Syscall),
    /// The descriptor is released. No further call is made on it.
    Released,
    /// The attempt failed with something else than an interruption. What has
    /// become of the descriptor cannot be known, and no further call is made
    /// on it.
    Violated(OsError),
}

/// What follows in closing `fd` once the last attempt was answered by `last`,
/// or before any attempt where `last` is `None`.
pub open spec fn close_next(fd: c_int, last: Option<SysReturn>) -> CloseStep {
    match last {
        None => CloseStep::Call(Syscall::Close { fd }),
        Some(ret) => if ret.value == 0 {
            CloseStep::Released
        } else if ret.error.interrupted {
            CloseStep::Call(Syscall::Close { fd })
        } else {
            CloseStep::Violated(ret.error)
        },
    }
}

/// One step of closing `fd`: the first attempt where `last` is `None`, the
/// same attempt again for as long as the answer is an interruption, and the
/// end at the first answer that is anything else.
pub fn close_fd(fd: c_int, last: Option<SysReturn>) -> (step: CloseStep)
    ensures
        step == close_next(fd, last),
{
    match last {
        None => CloseStep::Call(Syscall::Close { fd }),
        Some(ret) => {
            if ret.value == 0 {
                CloseStep::Released
            } else if ret.error.interrupted {
                CloseStep::Call(Syscall::Close { fd })
            } else {
                CloseStep::Violated(ret.error)
            }
        },
    }
}

/// How far closing a descriptor has come.
pub struct CloseTrace {
    /// Where it stands.
    pub step: CloseStep,
    /// How many calls were made.
    pub calls: nat,
    /// How many of them released the descriptor.
    pub releases: nat,
}

/// Closing `fd` against an operating system that answers the attempts with
/// `answers`, in this order. Answers that come after the end are not asked for.
pub open spec fn close_trace(fd: c_int, answers: Seq<SysReturn>) -> CloseTrace
    decreases answers.len(),
{
    if answers.len() == 0 {
        CloseTrace { step: close_next(fd, None), calls: 0, releases: 0 }
    } else {
        let before = close_trace(fd, answers.drop_last());
        match before.step {
            CloseStep::Call(_) => CloseTrace {
                step: close_next(fd, Some(answers.last())),
                calls: before.calls + 1,
                releases: before.releases + if answers.last().value == 0 { 1nat } else { 0nat },
            },
            _ => before,
        }
    }
}

/// Whether `ret` answers a close with an interruption.
pub open spec fn interrupted_close(ret: SysReturn) -> bool {
    ret.value != 0 && ret.error.interrupted
}

/// As long as every answer is an interruption, closing goes on with the same
/// call and nothing is released.
pub proof fn lemma_close_retries_while_interrupted(fd: c_int, answers: Seq<SysReturn>)
    requires
        forall|i: int| 0 <= i < answers.len() ==> interrupted_close(#[trigger] answers[i]),
    ensures
        close_trace(fd, answers) == (CloseTrace {
            step: CloseStep::Call(Syscall::Close { fd }),
            calls: answers.len(),
            releases: 0,
        }),
    decreases answers.len(),
{
    if answers.len() > 0 {
        lemma_close_retries_while_interrupted(fd, answers.drop_last());
    }
}

/// Closing gets through any number of interruptions: once the first answer
/// that is a success arrives the descriptor is released, after one call for
/// each interruption and one more, and it was released exactly once.
pub proof fn lemma_close_survives_interruptions(
    fd: c_int,
    interruptions: Seq<SysReturn>,
    success: SysReturn,
)
    requires
        forall|i: int|
            0 <= i < interruptions.len() ==> interrupted_close(#[trigger] interruptions[i]),
        success.value == 0,
    ensures
        close_trace(fd, interruptions.push(success)) == (CloseTrace {
            step: CloseStep::Released,
            calls: interruptions.len() + 1,
            releases: 1,
        }),
{
    lemma_close_retries_while_interrupted(fd, interruptions);
    assert(interruptions.push(success).drop_last() =~= interruptions);
}

/// Whatever the operating system answers, a descriptor is never released
/// twice, it has been released once exactly where closing ended in
/// `Released`, and every call but the last was answered by an interruption.
pub proof fn lemma_close_releases_at_most_once(fd: c_int, answers: Seq<SysReturn>)
    ensures
        close_trace(fd, answers).releases <= 1,
        close_trace(fd, answers).releases == 1 <==> close_trace(fd, answers).step
            == CloseStep::Released,
        close_trace(fd, answers).calls <= answers.len(),
        close_trace(fd, answers).step is Call ==> close_trace(fd, answers).calls == answers.len(),
        forall|i: int|
            0 <= i < close_trace(fd, answers).calls - 1 ==> interrupted_close(#[trigger] answers[i]),
    decreases answers.len(),
{
    if answers.len() > 0 {
        lemma_close_releases_at_most_once(fd, answers.drop_last());
        let before = close_trace(fd, answers.drop_last());
        assert forall|i: int| 0 <= i < close_trace(fd, answers).calls - 1 implies interrupted_close(
            #[trigger] answers[i],
        ) by {
            assert(answers[i] == answers.drop_last()[i]);
            if before.step is Call && i == before.calls - 1 {
                // the call before the last one led to another call
                lemma_call_follows_interruption(fd, answers.drop_last());
            }
        }
    }
}

/// Where closing stands at a call after at least one answer, the last answer
/// was an interruption.
proof fn lemma_call_follows_interruption(fd: c_int, answers: Seq<SysReturn>)
    requires
        answers.len() > 0,
        close_trace(fd, answers).step is Call,
    ensures
        close_trace(fd, answers).calls == answers.len(),
        interrupted_close(answers.last()),
    decreases answers.len(),
{
    lemma_close_releases_at_most_once(fd, answers.drop_last());
}

/// Once closing has ended, no answer that might still come changes anything:
/// no call is made for it.
pub proof fn lemma_close_stays_ended(fd: c_int, answers: Seq<SysReturn>, more: Seq<SysReturn>)
    requires
        !(close_trace(fd, answers).step is Call),
    ensures
        close_trace(fd, answers + more) == close_trace(fd, answers),
    decreases more.len(),
{
    if more.len() == 0 {
        assert(answers + more =~= answers);
    } else {
        lemma_close_stays_ended(fd, answers, more.drop_last());
        assert((answers + more).drop_last() =~= answers + more.drop_last());
    }
}

/// Giving a descriptor up because a step that followed its creation failed
/// with `error`: the descriptor is closed as [`close_fd`] closes it, and when
/// no further call is to be made on it, the error comes out.
pub open spec fn abandon_next(fd: c_int, error: OsError, last: Option<SysReturn>) -> Step<OsError> {
    match close_next(fd, last) {
        CloseStep::Call(call) => Step::Call(call),
        _ => Step::Done(error),
    }
}

/// Closes a descriptor whose owner met the error `e`, and hands `e` back when
/// that is done. Like [`close_fd`] it is called once with no answer and then
/// with the answer to each call that came out of it.
pub fn close_by_error(socket: c_int, e: OsError, last: Option<SysReturn>) -> (step: Step<OsError>)
    ensures
        step == abandon_next(socket, e, last),
{
    match close_fd(socket, last) {
        CloseStep::Call(call) => Step::Call(call),
        _ => Step::Done(e),
    }
}

/// Closes a descriptor on which the call answered by `failed` has just
/// failed: the error of that answer is kept, the descriptor is closed, and
/// the error is handed back when that is done.
pub fn handle_fd_error(fd: c_int, failed: SysReturn, last: Option<SysReturn>) -> (step: Step<
    OsError,
>)
    ensures
        step == abandon_next(fd, failed.error, last),
{
    let e = failed.error;
    close_by_error(fd, e, last)
}

/// A vectored transfer that stays within the buffers that its call named
/// reports that many bytes, which is no more than all the buffers hold; and
/// the call named no more buffers than a `c_int` can count.
pub proof fn lemma_vectored_transfer_is_partial(lens: Seq<usize>, ret: SysReturn)
    requires
        0 <= ret.value <= capacity(lens.take(vectored_count(lens.len() as int))),
    ensures
        ret.transferred() == Ok::<usize, OsError>(ret.value as usize),
        ret.value <= capacity(lens),
        vectored_count(lens.len() as int) <= c_int::MAX,
        vectored_count(lens.len() as int) <= lens.len(),
        lens.len() <= c_int::MAX ==> vectored_count(lens.len() as int) == lens.len(),
        lens.len() > c_int::MAX ==> vectored_count(lens.len() as int) == c_int::MAX,
{
    lemma_capacity_of_prefix(lens, vectored_count(lens.len() as int));
}

/// The first `n` buffers hold no more than all of them.
pub proof fn lemma_capacity_of_prefix(lens: Seq<usize>, n: int)
    requires
        0 <= n <= lens.len(),
    ensures
        0 <= capacity(lens.take(n)) <= capacity(lens),
    decreases lens.len(),
{
    if n == lens.len() {
        assert(lens.take(n) =~= lens);
        if lens.len() > 0 {
            lemma_capacity_of_prefix(lens.drop_last(), n - 1);
        }
    } else {
        lemma_capacity_of_prefix(lens.drop_last(), n);
        assert(lens.drop_last().take(n) =~= lens.take(n));
    }
}

} // verus!
