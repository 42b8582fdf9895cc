//! Bringing one end of a pipe into being, with nothing left behind where that
//! fails half way.

use crate::fdops::{abandon_next, close_by_error, FdOps};
use crate::named_pipe::{mode_call, set_nonblocking_for_stream, Mode};
use crate::stream::Stream;
use crate::sys::{lemma_accounts_add_up, OsError, Step, Syscall, SysReturn};
use libc::c_int;
use vstd::multiset::Multiset;
use vstd::prelude::*;

verus! {

/// Which end of a pipe is meant.
#[derive(Clone, Copy, Debug, PartialEq, Eq, Structural)]
pub enum Side {
    /// The end that waits for clients.
    Server,
    /// The end that connects to a server.
    Client,
}

/// Where an end stands in serving.
#[derive(Clone, Copy, Debug, PartialEq, Eq, Structural)]
pub enum InstanceState {
    /// It exists and serves nobody yet.
    Idle,
    /// It is tied to the other side.
    Connected,
    /// The other side has left, and it has not been reset since.
    Disconnected,
}

/// One end of a pipe as the operating system holds it.
#[derive(Debug)]
pub struct Instance {
    /// The descriptor of the end, which this value owns.
    pub handle: FdOps,
    /// The mode that the end was given.
    pub mode: Mode,
    /// Where the end stands.
    pub state: InstanceState,
}

impl Instance {
    /// The call that waits for a client.
    pub open spec fn connect_call(self) -> Syscall {
        Syscall::Connect { fd: self.handle.fd }
    }

    /// The call that cuts the end loose from a client that has left.
    pub open spec fn reset_call(self) -> Syscall {
        Syscall::Disconnect { fd: self.handle.fd }
    }

    /// The end as it is after one step of an operation on it: in the state
    /// `reached` where the answer `last` means that `call` succeeded, and as
    /// it was before any answer and after a failure.
    pub open spec fn after(self, call: Syscall, last: Option<SysReturn>, reached: InstanceState) -> Instance {
        match last {
            Some(ret) if call.succeeds(ret.value) => Instance { state: reached, ..self },
            _ => self,
        }
    }

    /// Waits for a client: one call, after whose success the end is
    /// connected. After a failure it is as it was, and can wait again.
    pub fn connect(&mut self, last: Option<SysReturn>) -> (step: Step<Result<(), OsError>>)
        ensures
            step == old(self).connect_call().checked(last),
            *final(self) == old(self).after(
                old(self).connect_call(),
                last,
                InstanceState::Connected,
            ),
    {
        let step = (Syscall::Connect { fd: self.handle.as_raw_fd() }).check(last);
        match step {
            Step::Done(Ok(())) => {
                self.state = InstanceState::Connected;
            },
            _ => {},
        }
        step
    }

    /// Resets the end after its client has left: one call, after whose
    /// success the end is idle again. After a failure it is as it was.
    pub fn reset(&mut self, last: Option<SysReturn>) -> (step: Step<Result<(), OsError>>)
        ensures
            step == old(self).reset_call().checked(last),
            *final(self) == old(self).after(old(self).reset_call(), last, InstanceState::Idle),
    {
        let step = (Syscall::Disconnect { fd: self.handle.as_raw_fd() }).check(last);
        match step {
            Step::Done(Ok(())) => {
                self.state = InstanceState::Idle;
            },
            _ => {},
        }
        step
    }

    /// Hands the end out as a stream, which owns the descriptor from then on.
    pub fn into_stream(self) -> (stream: Stream)
        ensures
            stream == (Stream { handle: self.handle, mode: self.mode }),
    {
        Stream { handle: self.handle, mode: self.mode }
    }

    /// Takes the end back from a stream whose other side has left.
    pub fn from_stream(stream: Stream) -> (instance: Self)
        ensures
            instance == (Instance {
                handle: stream.handle,
                mode: stream.mode,
                state: InstanceState::Disconnected,
            }),
    {
        Instance { handle: stream.handle, mode: stream.mode, state: InstanceState::Disconnected }
    }
}

/// How far the making of an end has come.
#[derive(Debug)]
pub enum Phase {
    /// The call that makes the end is under way. No descriptor exists yet.
    Acquiring,
    /// The end exists, and the call that sets its mode is under way.
    Configuring(FdOps),
    /// Setting the mode failed with the error given, and the descriptor given
    /// is being closed.
    Abandoning(c_int, OsError),
}

/// The making of one end of a pipe: the end is created, then its mode is set.
/// An end whose mode cannot be set is closed before the failure is reported.
#[derive(Debug)]
pub struct Instancer {
    /// The end that is made.
    pub side: Side,
    /// The mode that it is to have.
    pub mode: Mode,
    /// How far it has come.
    pub phase: Phase,
}

/// What the making of an end comes to after each answer.
#[derive(Debug)]
pub enum Allocation {
    /// The call to make now; its answer goes into [`Instancer::resume`].
    Call(Instancer, Syscall),
    /// The end is there: idle on the server's side, connected on the client's.
    Ready(Instance),
    /// No end was made, and none is left open.
    Failed(OsError),
}

/// The state in which a new end of the given side begins.
pub open spec fn born(side: Side) -> InstanceState {
    match side {
        Side::Server => InstanceState::Idle,
        Side::Client => InstanceState::Connected,
    }
}

impl Instancer {
    /// The call that makes the end.
    pub open spec fn first_call(self) -> Syscall {
        match self.side {
            Side::Server => Syscall::Create { framing: self.mode.framing },
            Side::Client => Syscall::Open,
        }
    }

    /// The call whose answer is waited for.
    pub open spec fn call(self) -> Syscall {
        match self.phase {
            Phase::Acquiring => self.first_call(),
            Phase::Configuring(handle) => mode_call(
                handle.fd,
                Some(self.mode.framing),
                self.mode.nonblocking,
            ),
            Phase::Abandoning(fd, _) => Syscall::Close { fd },
        }
    }

    /// The descriptors that are in this value's care.
    pub open spec fn owned(self) -> Multiset<c_int> {
        match self.phase {
            Phase::Acquiring => Multiset::empty(),
            Phase::Configuring(handle) => Multiset::singleton(handle.fd),
            Phase::Abandoning(fd, _) => Multiset::singleton(fd),
        }
    }

    /// The beginning: nothing exists, and the first call is to be made.
    pub open spec fn start(side: Side, mode: Mode) -> Instancer {
        Instancer { side, mode, phase: Phase::Acquiring }
    }

    /// The first step: the first call is to be made.
    pub open spec fn begun(side: Side, mode: Mode) -> Allocation {
        Allocation::Call(Instancer::start(side, mode), Instancer::start(side, mode).call())
    }

    /// The end `handle` is given its mode. Where that fails, the end is given
    /// up and the failure reported once it is closed.
    pub open spec fn configure(self, handle: FdOps, last: Option<SysReturn>) -> Allocation {
        match mode_call(handle.fd, Some(self.mode.framing), self.mode.nonblocking).checked(last) {
            Step::Call(call) => Allocation::Call(
                Instancer { phase: Phase::Configuring(handle), ..self },
                call,
            ),
            Step::Done(Ok(_)) => Allocation::Ready(
                Instance { handle, mode: self.mode, state: born(self.side) },
            ),
            Step::Done(Err(error)) => self.abandon(handle.fd, error, None),
        }
    }

    /// The descriptor `fd` is closed, and `error` reported when no further
    /// call is to be made on it.
    pub open spec fn abandon(self, fd: c_int, error: OsError, last: Option<SysReturn>) -> Allocation {
        match abandon_next(fd, error, last) {
            Step::Call(call) => Allocation::Call(
                Instancer { phase: Phase::Abandoning(fd, error), ..self },
                call,
            ),
            Step::Done(e) => Allocation::Failed(e),
        }
    }

    /// What follows the answer `ret` to the call that was under way.
    pub open spec fn next(self, ret: SysReturn) -> Allocation {
        match self.phase {
            Phase::Acquiring => match FdOps::acquired(self.first_call(), Some(ret)) {
                Step::Call(call) => Allocation::Call(self, call),
                Step::Done(Ok(handle)) => self.configure(handle, None),
                Step::Done(Err(error)) => Allocation::Failed(error),
            },
            Phase::Configuring(handle) => self.configure(handle, Some(ret)),
            Phase::Abandoning(fd, error) => self.abandon(fd, error, Some(ret)),
        }
    }

    /// Begins the making of an end of the given side with the given mode.
    /// What comes out is the call that makes the end.
    pub fn begin(side: Side, mode: Mode) -> (step: Allocation)
        ensures
            step == Instancer::begun(side, mode),
    {
        let call = match side {
            Side::Server => Syscall::Create { framing: mode.framing },
            Side::Client => Syscall::Open,
        };
        Allocation::Call(Instancer { side, mode, phase: Phase::Acquiring }, call)
    }

    /// Takes the answer to the call that was under way and says what follows.
    ///
    /// The end is there once it was created and its mode was set. Where it
    /// cannot be created, the error of that call comes out. Where it was
    /// created and its mode cannot be set, it is closed first, through any
    /// number of interruptions, and the error of the call that set the mode
    /// comes out after that.
    ///
    /// Whatever the answer is, the descriptors in the care of what comes out
    /// are those that were in the care of `self`, with the one that the call
    /// made and without the one that it gave up: none is dropped, and none is
    /// closed that was not owned.
    pub fn resume(self, ret: SysReturn) -> (step: Allocation)
        ensures
            step == self.next(ret),
            step.owned().add(self.call().releases(ret)) == self.owned().add(
                self.call().acquires(ret),
            ),
            step matches Allocation::Call(then, call) ==> call == then.call(),
    {
        proof {
            self.lemma_step_keeps_account(ret);
        }
        let Instancer { side, mode, phase } = self;
        match phase {
            Phase::Acquiring => {
                let call = match side {
                    Side::Server => Syscall::Create { framing: mode.framing },
                    Side::Client => Syscall::Open,
                };
                match FdOps::acquire(call, Some(ret)) {
                    Step::Call(call) => Allocation::Call(
                        Instancer { side, mode, phase: Phase::Acquiring },
                        call,
                    ),
                    Step::Done(Ok(handle)) => configure(side, mode, handle, None),
                    Step::Done(Err(error)) => Allocation::Failed(error),
                }
            },
            Phase::Configuring(handle) => configure(side, mode, handle, Some(ret)),
            Phase::Abandoning(fd, error) => abandon(side, mode, fd, error, Some(ret)),
        }
    }

    /// One step keeps the account of descriptors: what is owned afterwards,
    /// together with what the call gave up, is what was owned before together
    /// with what the call made. And the call that comes out is the one that
    /// the new state waits for.
    pub proof fn lemma_step_keeps_account(self, ret: SysReturn)
        ensures
            self.next(ret).owned().add(self.call().releases(ret)) =~= self.owned().add(
                self.call().acquires(ret),
            ),
            self.next(ret) matches Allocation::Call(then, call) ==> call == then.call()
                && then.side == self.side && then.mode == self.mode,
    {
    }
}

fn configure(side: Side, mode: Mode, handle: FdOps, last: Option<SysReturn>) -> (step: Allocation)
    ensures
        step == Instancer::start(side, mode).configure(handle, last),
{
    match set_nonblocking_for_stream(
        handle.as_raw_fd(),
        Some(mode.framing),
        mode.nonblocking,
        last,
    ) {
        Step::Call(call) => Allocation::Call(
            Instancer { side, mode, phase: Phase::Configuring(handle) },
            call,
        ),
        Step::Done(Ok(())) => {
            let state = match side {
                Side::Server => InstanceState::Idle,
                Side::Client => InstanceState::Connected,
            };
            Allocation::Ready(Instance { handle, mode, state })
        },
        Step::Done(Err(error)) => abandon(side, mode, handle.into_raw_fd(), error, None),
    }
}

fn abandon(side: Side, mode: Mode, fd: c_int, error: OsError, last: Option<SysReturn>) -> (step:
    Allocation)
    ensures
        step == Instancer::start(side, mode).abandon(fd, error, last),
{
    match close_by_error(fd, error, last) {
        Step::Call(call) => Allocation::Call(
            Instancer { side, mode, phase: Phase::Abandoning(fd, error) },
            call,
        ),
        Step::Done(e) => Allocation::Failed(e),
    }
}

impl Allocation {
    /// The descriptors that are in this value's care.
    pub open spec fn owned(self) -> Multiset<c_int> {
        match self {
            Allocation::Call(instancer, _) => instancer.owned(),
            Allocation::Ready(instance) => Multiset::singleton(instance.handle.fd),
            Allocation::Failed(_) => Multiset::empty(),
        }
    }
}

/// Where the making of an end stands once `answers` have answered its calls,
/// in this order. Answers that come after the end are not asked for.
pub open spec fn run(step: Allocation, answers: Seq<SysReturn>) -> Allocation
    decreases answers.len(),
{
    if answers.len() == 0 {
        step
    } else {
        match step {
            Allocation::Call(instancer, _) => run(
                instancer.next(answers.first()),
                answers.drop_first(),
            ),
            _ => step,
        }
    }
}

/// The descriptors that came into being while `answers` answered the calls.
pub open spec fn acquired(step: Allocation, answers: Seq<SysReturn>) -> Multiset<c_int>
    decreases answers.len(),
{
    if answers.len() == 0 {
        Multiset::empty()
    } else {
        match step {
            Allocation::Call(instancer, _) => instancer.call().acquires(answers.first()).add(
                acquired(instancer.next(answers.first()), answers.drop_first()),
            ),
            _ => Multiset::empty(),
        }
    }
}

/// The descriptors that were given up while `answers` answered the calls.
pub open spec fn released(step: Allocation, answers: Seq<SysReturn>) -> Multiset<c_int>
    decreases answers.len(),
{
    if answers.len() == 0 {
        Multiset::empty()
    } else {
        match step {
            Allocation::Call(instancer, _) => instancer.call().releases(answers.first()).add(
                released(instancer.next(answers.first()), answers.drop_first()),
            ),
            _ => Multiset::empty(),
        }
    }
}

/// Whatever the operating system answers, and however many answers there are,
/// no descriptor is lost sight of: those in care at the end, together with
/// those given up on the way, are those in care at the beginning together
/// with those that came into being on the way.
pub proof fn lemma_run_keeps_account(step: Allocation, answers: Seq<SysReturn>)
    ensures
        run(step, answers).owned().add(released(step, answers)) == step.owned().add(
            acquired(step, answers),
        ),
    decreases answers.len(),
{
    if answers.len() > 0 && step is Call {
        let instancer = step->Call_0;
        let next = instancer.next(answers.first());
        let rest = answers.drop_first();
        instancer.lemma_step_keeps_account(answers.first());
        lemma_run_keeps_account(next, rest);
        lemma_accounts_add_up(
            step.owned(),
            instancer.call().acquires(answers.first()),
            instancer.call().releases(answers.first()),
            next.owned(),
            acquired(next, rest),
            released(next, rest),
            run(next, rest).owned(),
        );
    } else {
        assert(run(step, answers).owned().add(released(step, answers)) =~= step.owned().add(
            acquired(step, answers),
        ));
    }
}

/// What has ended stays as it is: no call is made for an answer that comes
/// after the end.
pub proof fn lemma_run_stays_ended(step: Allocation, answers: Seq<SysReturn>)
    requires
        !(step is Call),
    ensures
        run(step, answers) == step,
        acquired(step, answers) == Multiset::<c_int>::empty(),
        released(step, answers) == Multiset::<c_int>::empty(),
{
}

/// The making of an end that ends in failure leaves nothing open: every
/// descriptor that came into being on the way was given up again, once.
pub proof fn lemma_failure_leaves_nothing_open(side: Side, mode: Mode, answers: Seq<SysReturn>)
    requires
        run(Instancer::begun(side, mode), answers) is Failed,
    ensures
        released(Instancer::begun(side, mode), answers) == acquired(
            Instancer::begun(side, mode),
            answers,
        ),
{
    let begun = Instancer::begun(side, mode);
    lemma_run_keeps_account(begun, answers);
    assert(run(begun, answers).owned().add(released(begun, answers)) =~= released(begun, answers));
    assert(begun.owned().add(acquired(begun, answers)) =~= acquired(begun, answers));
}

/// The making of an end that succeeds has made exactly the descriptor that
/// comes out, and has given none up.
pub proof fn lemma_success_owns_what_was_made(side: Side, mode: Mode, answers: Seq<SysReturn>)
    requires
        run(Instancer::begun(side, mode), answers) is Ready,
    ensures
        released(Instancer::begun(side, mode), answers) == Multiset::<c_int>::empty(),
        acquired(Instancer::begun(side, mode), answers) == run(
            Instancer::begun(side, mode),
            answers,
        ).owned(),
        run(Instancer::begun(side, mode), answers)->Ready_0.mode == mode,
        run(Instancer::begun(side, mode), answers)->Ready_0.state == born(side),
{
    let begun = Instancer::begun(side, mode);
    let start = Instancer::start(side, mode);
    lemma_run_keeps_account(begun, answers);
    // an end comes out of the second answer, or never
    assert(answers.len() >= 1);
    let first = start.next(answers.first());
    let rest = answers.drop_first();
    assert(run(begun, answers) == run(first, rest));
    if !(first is Call) {
        lemma_run_stays_ended(first, rest);
    }
    assert(rest.len() >= 1);
    let second = first->Call_0.next(rest.first());
    let last = rest.drop_first();
    assert(run(first, rest) == run(second, last));
    if second is Call {
        lemma_abandoning_never_succeeds(second, last);
    }
    lemma_run_stays_ended(second, last);
    assert(released(first, rest) =~= Multiset::<c_int>::empty());
    assert(released(begun, answers) =~= Multiset::<c_int>::empty());
    assert(acquired(begun, answers) =~= run(begun, answers).owned()) by {
        assert(run(begun, answers).owned().add(Multiset::<c_int>::empty()) =~= run(
            begun,
            answers,
        ).owned());
        assert(begun.owned().add(acquired(begun, answers)) =~= acquired(begun, answers));
    }
}

/// The making of an end succeeds where the operating system grants its two
/// calls: the end that comes out owns the descriptor that was created, has
/// the mode asked for, and nothing was given up on the way.
pub proof fn lemma_granted_setup_succeeds(
    side: Side,
    mode: Mode,
    created: SysReturn,
    configured: SysReturn,
)
    requires
        0 <= created.value <= c_int::MAX,
        configured.value != 0,
    ensures
        run(Instancer::begun(side, mode), seq![created, configured]) == Allocation::Ready(
            Instance { handle: FdOps { fd: created.value as c_int }, mode, state: born(side) },
        ),
        acquired(Instancer::begun(side, mode), seq![created, configured]) == Multiset::singleton(
            created.value as c_int,
        ),
        released(Instancer::begun(side, mode), seq![created, configured])
            == Multiset::<c_int>::empty(),
{
    let answers = seq![created, configured];
    let begun = Instancer::begun(side, mode);
    let first = Instancer::start(side, mode).next(created);
    let second = first->Call_0.next(configured);
    assert(answers.first() == created);
    assert(answers.drop_first() =~= seq![configured]);
    assert(seq![configured].first() == configured);
    assert(seq![configured].drop_first() =~= Seq::<SysReturn>::empty());
    lemma_run_stays_ended(second, Seq::<SysReturn>::empty());
    assert(run(first, seq![configured]) == second);
    assert(run(begun, answers) == second);
    assert(acquired(first, seq![configured]) =~= Multiset::<c_int>::empty());
    assert(acquired(begun, answers) =~= Multiset::singleton(created.value as c_int));
    assert(released(first, seq![configured]) =~= Multiset::<c_int>::empty());
    assert(released(begun, answers) =~= Multiset::<c_int>::empty());
}

/// Once an end is being closed, no end comes out any more.
proof fn lemma_abandoning_never_succeeds(step: Allocation, answers: Seq<SysReturn>)
    requires
        step matches Allocation::Call(instancer, _) && instancer.phase is Abandoning,
    ensures
        !(run(step, answers) is Ready),
    decreases answers.len(),
{
    if answers.len() > 0 {
        let next = step->Call_0.next(answers.first());
        if next is Call {
            lemma_abandoning_never_succeeds(next, answers.drop_first());
        } else {
            lemma_run_stays_ended(next, answers.drop_first());
        }
    }
}

/// An end that was created and whose mode could then not be set is closed,
/// through any number of interruptions, and the error of the failed call comes
/// out when the close has got through. The descriptor that was created is the
/// one that is given up, and it is given up once.
pub proof fn lemma_failed_setup_closes_the_end(
    side: Side,
    mode: Mode,
    created: SysReturn,
    refused: SysReturn,
    interruptions: Seq<SysReturn>,
    closed: SysReturn,
)
    requires
        0 <= created.value <= c_int::MAX,
        refused.value == 0,
        forall|i: int|
            0 <= i < interruptions.len() ==> crate::fdops::interrupted_close(
                #[trigger] interruptions[i],
            ),
        closed.value == 0,
    ensures
        ({
            let answers = seq![created, refused] + interruptions.push(closed);
            let begun = Instancer::begun(side, mode);
            &&& run(begun, answers) == Allocation::Failed(refused.error)
            &&& acquired(begun, answers) == Multiset::singleton(created.value as c_int)
            &&& released(begun, answers) == Multiset::singleton(created.value as c_int)
        }),
{
    let answers = seq![created, refused] + interruptions.push(closed);
    let begun = Instancer::begun(side, mode);
    let fd = created.value as c_int;
    let first = Instancer::start(side, mode).next(created);
    let second = first->Call_0.next(refused);
    let after_one = seq![refused] + interruptions.push(closed);
    let after_two = interruptions.push(closed);
    assert(answers.first() == created);
    assert(answers.drop_first() =~= after_one);
    assert(after_one.first() == refused);
    assert(after_one.drop_first() =~= after_two);
    assert(run(begun, answers) == run(first, after_one));
    assert(run(first, after_one) == run(second, after_two));
    lemma_abandoning_through_interruptions(second, interruptions, closed);
    assert(acquired(first, after_one) =~= Multiset::<c_int>::empty());
    assert(acquired(begun, answers) =~= Multiset::singleton(fd));
    assert(released(first, after_one) =~= Multiset::singleton(fd));
    assert(released(begun, answers) =~= Multiset::singleton(fd));
}

/// An end that is being closed is closed after any number of interruptions,
/// by the first answer that is a success.
proof fn lemma_abandoning_through_interruptions(
    step: Allocation,
    interruptions: Seq<SysReturn>,
    closed: SysReturn,
)
    requires
        step matches Allocation::Call(instancer, _) && instancer.phase is Abandoning,
        forall|i: int|
            0 <= i < interruptions.len() ==> crate::fdops::interrupted_close(
                #[trigger] interruptions[i],
            ),
        closed.value == 0,
    ensures
        run(step, interruptions.push(closed)) == Allocation::Failed(
            step->Call_0.phase->Abandoning_1,
        ),
        acquired(step, interruptions.push(closed)) == Multiset::<c_int>::empty(),
        released(step, interruptions.push(closed)) == Multiset::singleton(
            step->Call_0.phase->Abandoning_0,
        ),
    decreases interruptions.len(),
{
    let answers = interruptions.push(closed);
    let instancer = step->Call_0;
    if interruptions.len() == 0 {
        assert(answers.first() == closed);
        assert(answers.drop_first() =~= Seq::<SysReturn>::empty());
        lemma_run_stays_ended(instancer.next(closed), answers.drop_first());
        assert(acquired(step, answers) =~= Multiset::<c_int>::empty());
        assert(released(step, answers) =~= Multiset::singleton(instancer.phase->Abandoning_0));
    } else {
        assert(answers.first() == interruptions[0]);
        assert(answers.drop_first() =~= interruptions.drop_first().push(closed));
        let next = instancer.next(interruptions[0]);
        assert forall|i: int| 0 <= i < interruptions.drop_first().len() implies crate::fdops::interrupted_close(
             #[trigger] interruptions.drop_first()[i],
        ) by {
            assert(interruptions.drop_first()[i] == interruptions[i + 1]);
        }
        lemma_abandoning_through_interruptions(next, interruptions.drop_first(), closed);
        assert(acquired(step, answers) =~= Multiset::<c_int>::empty());
        assert(released(step, answers) =~= Multiset::singleton(instancer.phase->Abandoning_0));
    }
}

/// The descriptors that came into being over several makings of an end, one
/// after the other, each with its own answers.
pub open spec fn acquired_over(side: Side, mode: Mode, cycles: Seq<Seq<SysReturn>>) -> Multiset<
    c_int,
>
    decreases cycles.len(),
{
    if cycles.len() == 0 {
        Multiset::empty()
    } else {
        acquired_over(side, mode, cycles.drop_last()).add(
            acquired(Instancer::begun(side, mode), cycles.last()),
        )
    }
}

/// The descriptors that were given up over several makings of an end.
pub open spec fn released_over(side: Side, mode: Mode, cycles: Seq<Seq<SysReturn>>) -> Multiset<
    c_int,
>
    decreases cycles.len(),
{
    if cycles.len() == 0 {
        Multiset::empty()
    } else {
        released_over(side, mode, cycles.drop_last()).add(
            released(Instancer::begun(side, mode), cycles.last()),
        )
    }
}

/// After any number of makings that all failed, as many descriptors are open
/// as were open before the first: all that came into being were given up.
pub proof fn lemma_failed_cycles_return_to_baseline(
    side: Side,
    mode: Mode,
    cycles: Seq<Seq<SysReturn>>,
)
    requires
        forall|i: int|
            0 <= i < cycles.len() ==> #[trigger] run(Instancer::begun(side, mode), cycles[i])
                is Failed,
    ensures
        released_over(side, mode, cycles) == acquired_over(side, mode, cycles),
        released_over(side, mode, cycles).len() == acquired_over(side, mode, cycles).len(),
    decreases cycles.len(),
{
    if cycles.len() > 0 {
        lemma_failed_cycles_return_to_baseline(side, mode, cycles.drop_last());
        assert(run(Instancer::begun(side, mode), cycles[cycles.len() - 1]) is Failed);
        lemma_failure_leaves_nothing_open(side, mode, cycles.last());
    }
}

} // verus!
