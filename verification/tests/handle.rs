use interprocess::fdops::{close_by_error, close_fd, handle_fd_error, CloseStep, FdOps};
use interprocess::sys::{OsError, Step, Syscall, SysReturn};

const EINTR: OsError = OsError { code: 4, interrupted: true };
const EIO: OsError = OsError { code: 5, interrupted: false };
const EAGAIN: OsError = OsError { code: 11, interrupted: false };

fn answer(value: isize, error: OsError) -> SysReturn {
    SysReturn { value, error }
}

/// A stand-in for the kernel that answers a close with an interruption a
/// given number of times and then with what is set for the end.
struct Interrupting {
    interruptions: usize,
    last: SysReturn,
    calls: Vec<Syscall>,
    releases: usize,
}

impl Interrupting {
    fn new(interruptions: usize, last: SysReturn) -> Self {
        Interrupting { interruptions, last, calls: Vec::new(), releases: 0 }
    }

    fn perform(&mut self, call: Syscall) -> SysReturn {
        self.calls.push(call);
        if self.interruptions > 0 {
            self.interruptions -= 1;
            answer(-1, EINTR)
        } else {
            if self.last.value == 0 {
                self.releases += 1;
            }
            self.last
        }
    }
}

fn run_close(fd: i32, os: &mut Interrupting) -> CloseStep {
    let mut step = close_fd(fd, None);
    let mut rounds = 0;
    loop {
        match step {
            CloseStep::Call(call) => {
                rounds += 1;
                assert!(rounds < 10_000);
                let ret = os.perform(call);
                step = close_fd(fd, Some(ret));
            }
            end => return end,
        }
    }
}

#[test]
fn new_owns_the_descriptor_it_is_given() {
    let ops = FdOps::new(7);
    assert_eq!(ops.as_raw_fd(), 7);
    assert_eq!(ops.fd, 7);
    assert_eq!(ops.into_raw_fd(), 7);
    assert_eq!(FdOps::from_raw(-1).as_raw_fd(), -1);
}

#[test]
fn read_asks_for_one_read_of_the_buffer() {
    let ops = FdOps::new(3);
    assert_eq!(ops.read(5, None), Step::Call(Syscall::Read { fd: 3, len: 5 }));
    assert_eq!(ops.read(0, None), Step::Call(Syscall::Read { fd: 3, len: 0 }));
}

#[test]
fn read_gives_the_count_that_came_back() {
    let ops = FdOps::new(3);
    assert_eq!(ops.read(5, Some(answer(5, EAGAIN))), Step::Done(Ok(5)));
    // fewer bytes than were asked for end the read all the same
    assert_eq!(ops.read(5, Some(answer(2, EAGAIN))), Step::Done(Ok(2)));
    assert_eq!(ops.read(5, Some(answer(0, EAGAIN))), Step::Done(Ok(0)));
    assert_eq!(
        ops.read(5, Some(answer(isize::MAX, EAGAIN))),
        Step::Done(Ok(isize::MAX as usize))
    );
}

#[test]
fn read_fails_with_the_reported_error() {
    let ops = FdOps::new(3);
    assert_eq!(ops.read(5, Some(answer(-1, EAGAIN))), Step::Done(Err(EAGAIN)));
    assert_eq!(ops.read(5, Some(answer(isize::MIN, EIO))), Step::Done(Err(EIO)));
}

#[test]
fn read_is_not_made_again_after_an_interruption() {
    let ops = FdOps::new(3);
    assert_eq!(ops.read(5, Some(answer(-1, EINTR))), Step::Done(Err(EINTR)));
    assert_eq!(ops.write(5, Some(answer(-1, EINTR))), Step::Done(Err(EINTR)));
    assert_eq!(ops.flush(Some(answer(-1, EINTR))), Step::Done(Err(EINTR)));
}

#[test]
fn write_asks_once_and_gives_the_count() {
    let ops = FdOps::new(4);
    assert_eq!(ops.write(10, None), Step::Call(Syscall::Write { fd: 4, len: 10 }));
    assert_eq!(ops.write(10, Some(answer(10, EIO))), Step::Done(Ok(10)));
    assert_eq!(ops.write(10, Some(answer(3, EIO))), Step::Done(Ok(3)));
    assert_eq!(ops.write(10, Some(answer(-1, EIO))), Step::Done(Err(EIO)));
}

#[test]
fn vectored_calls_name_every_buffer_that_can_be_counted() {
    let ops = FdOps::new(5);
    assert_eq!(ops.read_vectored(0, None), Step::Call(Syscall::ReadVectored { fd: 5, count: 0 }));
    assert_eq!(ops.read_vectored(3, None), Step::Call(Syscall::ReadVectored { fd: 5, count: 3 }));
    assert_eq!(
        ops.write_vectored(1024, None),
        Step::Call(Syscall::WriteVectored { fd: 5, count: 1024 })
    );
    assert_eq!(
        ops.write_vectored(i32::MAX as usize, None),
        Step::Call(Syscall::WriteVectored { fd: 5, count: i32::MAX })
    );
}

#[test]
fn vectored_calls_clamp_a_count_that_is_too_large() {
    let ops = FdOps::new(5);
    let over = i32::MAX as usize + 1;
    assert_eq!(
        ops.read_vectored(over, None),
        Step::Call(Syscall::ReadVectored { fd: 5, count: i32::MAX })
    );
    assert_eq!(
        ops.read_vectored(usize::MAX, None),
        Step::Call(Syscall::ReadVectored { fd: 5, count: i32::MAX })
    );
    assert_eq!(
        ops.write_vectored(over, None),
        Step::Call(Syscall::WriteVectored { fd: 5, count: i32::MAX })
    );
    assert_eq!(
        ops.write_vectored(usize::MAX, None),
        Step::Call(Syscall::WriteVectored { fd: 5, count: i32::MAX })
    );
}

#[test]
fn vectored_calls_give_the_partial_count() {
    let ops = FdOps::new(5);
    // buffers of 4, 4 and 4 bytes, of which the kernel filled the first and
    // half of the second
    assert_eq!(ops.read_vectored(3, Some(answer(6, EIO))), Step::Done(Ok(6)));
    assert_eq!(ops.write_vectored(usize::MAX, Some(answer(6, EIO))), Step::Done(Ok(6)));
    assert_eq!(ops.read_vectored(3, Some(answer(-1, EIO))), Step::Done(Err(EIO)));
    assert_eq!(ops.write_vectored(3, Some(answer(-1, EAGAIN))), Step::Done(Err(EAGAIN)));
}

#[test]
fn flush_is_one_sync() {
    let ops = FdOps::new(6);
    assert_eq!(ops.flush(None), Step::Call(Syscall::Sync { fd: 6 }));
    assert_eq!(ops.flush(Some(answer(0, EIO))), Step::Done(Ok(())));
    assert_eq!(ops.flush(Some(answer(1, EIO))), Step::Done(Ok(())));
    assert_eq!(ops.flush(Some(answer(-1, EIO))), Step::Done(Err(EIO)));
}

#[test]
fn acquire_takes_the_descriptor_that_came_back() {
    match FdOps::acquire(Syscall::Open, None) {
        Step::Call(call) => assert_eq!(call, Syscall::Open),
        Step::Done(_) => panic!("nothing was asked yet"),
    }
    match FdOps::acquire(Syscall::Open, Some(answer(9, EIO))) {
        Step::Done(Ok(ops)) => assert_eq!(ops.as_raw_fd(), 9),
        other => panic!("{:?}", other),
    }
    match FdOps::acquire(Syscall::Open, Some(answer(0, EIO))) {
        Step::Done(Ok(ops)) => assert_eq!(ops.as_raw_fd(), 0),
        other => panic!("{:?}", other),
    }
    match FdOps::acquire(Syscall::Open, Some(answer(-1, EIO))) {
        Step::Done(Err(e)) => assert_eq!(e, EIO),
        other => panic!("{:?}", other),
    }
    match FdOps::acquire(Syscall::Open, Some(answer(i32::MAX as isize + 1, EAGAIN))) {
        Step::Done(Err(e)) => assert_eq!(e, EAGAIN),
        other => panic!("{:?}", other),
    }
}

#[test]
fn close_begins_with_one_close() {
    assert_eq!(close_fd(8, None), CloseStep::Call(Syscall::Close { fd: 8 }));
    assert_eq!(FdOps::new(8).close(), CloseStep::Call(Syscall::Close { fd: 8 }));
}

#[test]
fn close_succeeds_at_once() {
    let mut os = Interrupting::new(0, answer(0, EIO));
    assert_eq!(run_close(8, &mut os), CloseStep::Released);
    assert_eq!(os.calls, vec![Syscall::Close { fd: 8 }]);
    assert_eq!(os.releases, 1);
}

#[test]
fn close_gets_through_interruptions() {
    for n in [1usize, 2, 3, 17, 1000] {
        let mut os = Interrupting::new(n, answer(0, EIO));
        assert_eq!(run_close(8, &mut os), CloseStep::Released);
        assert_eq!(os.calls.len(), n + 1);
        assert!(os.calls.iter().all(|call| *call == Syscall::Close { fd: 8 }));
        assert_eq!(os.releases, 1);
    }
}

#[test]
fn close_ends_on_any_other_failure() {
    let mut os = Interrupting::new(2, answer(-1, EIO));
    assert_eq!(run_close(8, &mut os), CloseStep::Violated(EIO));
    assert_eq!(os.calls.len(), 3);
    assert_eq!(os.releases, 0);
}

#[test]
fn close_takes_zero_alone_for_success() {
    assert_eq!(close_fd(8, Some(answer(0, EINTR))), CloseStep::Released);
    assert_eq!(close_fd(8, Some(answer(1, EINTR))), CloseStep::Call(Syscall::Close { fd: 8 }));
    assert_eq!(close_fd(8, Some(answer(1, EIO))), CloseStep::Violated(EIO));
    assert_eq!(close_fd(8, Some(answer(-1, EIO))), CloseStep::Violated(EIO));
}

#[test]
fn close_by_error_hands_the_error_back_when_closed() {
    assert_eq!(close_by_error(9, EAGAIN, None), Step::Call(Syscall::Close { fd: 9 }));
    assert_eq!(
        close_by_error(9, EAGAIN, Some(answer(-1, EINTR))),
        Step::Call(Syscall::Close { fd: 9 })
    );
    assert_eq!(close_by_error(9, EAGAIN, Some(answer(0, EINTR))), Step::Done(EAGAIN));
    // a close that fails for good ends it too, with the error that led here
    assert_eq!(close_by_error(9, EAGAIN, Some(answer(-1, EIO))), Step::Done(EAGAIN));
}

#[test]
fn handle_fd_error_keeps_the_error_of_the_failed_call() {
    let failed = answer(-1, EAGAIN);
    assert_eq!(handle_fd_error(9, failed, None), Step::Call(Syscall::Close { fd: 9 }));
    assert_eq!(
        handle_fd_error(9, failed, Some(answer(-1, EINTR))),
        Step::Call(Syscall::Close { fd: 9 })
    );
    assert_eq!(handle_fd_error(9, failed, Some(answer(0, EIO))), Step::Done(EAGAIN));
}

#[test]
fn status_reads_each_call_by_its_own_rule() {
    let ok = answer(0, EIO);
    let one = answer(1, EIO);
    let neg = answer(-1, EIO);
    assert_eq!(Syscall::Sync { fd: 1 }.status(ok), Ok(()));
    assert_eq!(Syscall::Sync { fd: 1 }.status(neg), Err(EIO));
    assert_eq!(Syscall::Close { fd: 1 }.status(ok), Ok(()));
    assert_eq!(Syscall::Close { fd: 1 }.status(one), Err(EIO));
    assert_eq!(Syscall::SetState { fd: 1, mode: 0 }.status(one), Ok(()));
    assert_eq!(Syscall::SetState { fd: 1, mode: 0 }.status(neg), Ok(()));
    assert_eq!(Syscall::SetState { fd: 1, mode: 0 }.status(ok), Err(EIO));
    assert_eq!(Syscall::Connect { fd: 1 }.status(ok), Err(EIO));
    assert_eq!(Syscall::Disconnect { fd: 1 }.status(one), Ok(()));
    assert_eq!(Syscall::Open.status(ok), Ok(()));
    assert_eq!(Syscall::Open.status(neg), Err(EIO));
    assert_eq!(Syscall::Accept { fd: 1 }.status(answer(i32::MAX as isize, EIO)), Ok(()));
    assert_eq!(Syscall::Accept { fd: 1 }.status(answer(i32::MAX as isize + 1, EIO)), Err(EIO));
    assert!(Syscall::Read { fd: 1, len: 1 }.succeeded(0));
    assert!(!Syscall::Read { fd: 1, len: 1 }.succeeded(-1));
    assert_eq!(one.count(), Ok(1));
    assert_eq!(neg.count(), Err(EIO));
}

fn crosses_threads<T: Send + Sync>() {}

#[test]
fn owners_can_be_handed_to_another_thread() {
    crosses_threads::<FdOps>();
    crosses_threads::<interprocess::stream::Stream>();
    crosses_threads::<interprocess::listener::Listener>();
}
