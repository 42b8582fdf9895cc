//! Accepting clients, one after the other, on server ends that are used again
//! once their client has left.

use crate::fdops::{close_fd, close_next, CloseStep, FdOps};
use crate::instancer::{Allocation, Instance, InstanceState, Instancer, Side};
use crate::named_pipe::{Mode, PipeName};
use crate::stream::Stream;
use crate::sys::{lemma_accounts_add_up, OsError, Step, Syscall, SysReturn};
use libc::c_int;
use vstd::multiset::Multiset;
use vstd::prelude::*;

verus! {

/// A listener on a named pipe. Each of its server ends serves one client at a
/// time; the ends that serve nobody wait in `pool` until a client is accepted
/// on them.
#[derive(Debug)]
pub struct Listener {
    /// The place of the pipe.
    pub path: Vec<u16>,
    /// The mode that new ends are given.
    pub mode: Mode,
    /// The ends that serve nobody: idle ones, and ones whose client has left.
    pub pool: Vec<Instance>,
}

/// A listener as contracts see it.
pub struct ListenerView {
    /// The place of the pipe.
    pub path: Seq<u16>,
    /// The mode that new ends are given.
    pub mode: Mode,
    /// The ends that serve nobody, the one that came in last at the end.
    pub pool: Seq<Instance>,
}

impl View for Listener {
    type V = ListenerView;

    open spec fn view(&self) -> ListenerView {
        ListenerView { path: self.path@, mode: self.mode, pool: self.pool@ }
    }
}

/// How far the accepting of a client has come.
#[derive(Debug)]
pub enum AcceptPhase {
    /// A new end is being made, because none was there to be used.
    Allocating(Instancer),
    /// An end whose client has left is being reset.
    Resetting(Instance),
    /// An end that could not be reset is being closed. A new one is made
    /// after that.
    Discarding(FdOps),
    /// An idle end waits for its client.
    Connecting(Instance),
}

/// A listener that is accepting a client. It gives the listener back when
/// that has come to an end.
#[derive(Debug)]
pub struct Accepting {
    /// The listener, with the ends that are not being worked on.
    pub listener: Listener,
    /// The end that is being worked on, and what is done to it.
    pub phase: AcceptPhase,
}

/// A listener that is accepting a client, as contracts see it.
pub struct AcceptingView {
    /// The listener, with the ends that are not being worked on.
    pub listener: ListenerView,
    /// The end that is being worked on, and what is done to it.
    pub phase: AcceptPhase,
}

impl View for Accepting {
    type V = AcceptingView;

    open spec fn view(&self) -> AcceptingView {
        AcceptingView { listener: self.listener@, phase: self.phase }
    }
}

/// What accepting a client comes to after each answer.
#[derive(Debug)]
pub enum Accept {
    /// The call to make now; its answer goes into [`Accepting::resume`].
    Call(Accepting, Syscall),
    /// A client has connected. The stream owns the end that serves it until
    /// it is handed back with [`Listener::recycle`].
    Accepted(Listener, Stream),
    /// No client was accepted. No end was lost over it.
    Failed(Listener, OsError),
}

/// What accepting a client comes to, as contracts see it.
pub enum AcceptView {
    Call(AcceptingView, Syscall),
    Accepted(ListenerView, Stream),
    Failed(ListenerView, OsError),
}

impl View for Accept {
    type V = AcceptView;

    open spec fn view(&self) -> AcceptView {
        match *self {
            Accept::Call(accepting, call) => AcceptView::Call(accepting@, call),
            Accept::Accepted(listener, stream) => AcceptView::Accepted(listener@, stream),
            Accept::Failed(listener, error) => AcceptView::Failed(listener@, error),
        }
    }
}

/// The descriptors of the ends in a pool.
pub open spec fn pool_owned(pool: Seq<Instance>) -> Multiset<c_int>
    decreases pool.len(),
{
    if pool.len() == 0 {
        Multiset::empty()
    } else {
        pool_owned(pool.drop_last()).insert(pool.last().handle.fd)
    }
}

impl ListenerView {
    /// The descriptors that are in the listener's care.
    pub open spec fn owned(self) -> Multiset<c_int> {
        pool_owned(self.pool)
    }

    /// The listener with one more end in its pool.
    pub open spec fn with(self, instance: Instance) -> ListenerView {
        ListenerView { pool: self.pool.push(instance), ..self }
    }

    /// The listener once `stream`, whose client has left, is handed back.
    pub open spec fn recycled(self, stream: Stream) -> ListenerView {
        self.with(
            Instance {
                handle: stream.handle,
                mode: stream.mode,
                state: InstanceState::Disconnected,
            },
        )
    }

    /// A new end is being made for the client: the end waits for the client
    /// once it is there, and where none can be made the error comes out.
    pub open spec fn allocated(self, allocation: Allocation) -> AcceptView {
        match allocation {
            Allocation::Call(instancer, call) => AcceptView::Call(
                AcceptingView { listener: self, phase: AcceptPhase::Allocating(instancer) },
                call,
            ),
            Allocation::Ready(instance) => self.connect(instance, None),
            Allocation::Failed(error) => AcceptView::Failed(self, error),
        }
    }

    /// An end waits for the client. Where one connects, the stream to it
    /// comes out. Where waiting fails, the error comes out and the end goes
    /// back into the pool.
    pub open spec fn connect(self, instance: Instance, last: Option<SysReturn>) -> AcceptView {
        match instance.connect_call().checked(last) {
            Step::Call(call) => AcceptView::Call(
                AcceptingView { listener: self, phase: AcceptPhase::Connecting(instance) },
                call,
            ),
            Step::Done(Ok(_)) => AcceptView::Accepted(
                self,
                Stream { handle: instance.handle, mode: instance.mode },
            ),
            Step::Done(Err(error)) => AcceptView::Failed(self.with(instance), error),
        }
    }

    /// An end whose client has left is reset. It waits for the next client
    /// once that is done, and where it cannot be reset it is discarded.
    pub open spec fn reset(self, instance: Instance, last: Option<SysReturn>) -> AcceptView {
        match instance.reset_call().checked(last) {
            Step::Call(call) => AcceptView::Call(
                AcceptingView { listener: self, phase: AcceptPhase::Resetting(instance) },
                call,
            ),
            Step::Done(Ok(_)) => self.connect(
                Instance { state: InstanceState::Idle, ..instance },
                None,
            ),
            Step::Done(Err(_)) => self.discard(instance.handle, None),
        }
    }

    /// An end that cannot be used again is closed, and a new one is made when
    /// no further call is to be made on it.
    pub open spec fn discard(self, handle: FdOps, last: Option<SysReturn>) -> AcceptView {
        match close_next(handle.fd, last) {
            CloseStep::Call(call) => AcceptView::Call(
                AcceptingView { listener: self, phase: AcceptPhase::Discarding(handle) },
                call,
            ),
            _ => self.allocated(Instancer::begun(Side::Server, self.mode)),
        }
    }

    /// An end from the pool is taken up: an idle one waits for the client at
    /// once, and any other is reset first.
    pub open spec fn take_up(self, instance: Instance) -> AcceptView {
        if instance.state == InstanceState::Idle {
            self.connect(instance, None)
        } else {
            self.reset(instance, None)
        }
    }

    /// The first step of accepting a client: the end that came into the pool
    /// last is taken up, and a new one is made where the pool is empty.
    pub open spec fn accept(self) -> AcceptView {
        if self.pool.len() == 0 {
            self.allocated(Instancer::begun(Side::Server, self.mode))
        } else {
            ListenerView { pool: self.pool.drop_last(), ..self }.take_up(self.pool.last())
        }
    }
}

impl AcceptingView {
    /// The call whose answer is waited for.
    pub open spec fn call(self) -> Syscall {
        match self.phase {
            AcceptPhase::Allocating(instancer) => instancer.call(),
            AcceptPhase::Resetting(instance) => instance.reset_call(),
            AcceptPhase::Discarding(handle) => Syscall::Close { fd: handle.fd },
            AcceptPhase::Connecting(instance) => instance.connect_call(),
        }
    }

    /// The descriptors that are in this value's care: those of the pool and
    /// the one that is being worked on.
    pub open spec fn owned(self) -> Multiset<c_int> {
        self.listener.owned().add(
            match self.phase {
                AcceptPhase::Allocating(instancer) => instancer.owned(),
                AcceptPhase::Resetting(instance) => Multiset::singleton(instance.handle.fd),
                AcceptPhase::Discarding(handle) => Multiset::singleton(handle.fd),
                AcceptPhase::Connecting(instance) => Multiset::singleton(instance.handle.fd),
            },
        )
    }

    /// What follows the answer `ret` to the call that was under way.
    pub open spec fn next(self, ret: SysReturn) -> AcceptView {
        match self.phase {
            AcceptPhase::Allocating(instancer) => self.listener.allocated(instancer.next(ret)),
            AcceptPhase::Resetting(instance) => self.listener.reset(instance, Some(ret)),
            AcceptPhase::Discarding(handle) => self.listener.discard(handle, Some(ret)),
            AcceptPhase::Connecting(instance) => self.listener.connect(instance, Some(ret)),
        }
    }

    /// One step keeps the account of descriptors: what is in care afterwards,
    /// together with what the call gave up, is what was in care before
    /// together with what the call made. And the call that comes out is the
    /// one that the new state waits for.
    pub proof fn lemma_step_keeps_account(self, ret: SysReturn)
        ensures
            self.next(ret).owned().add(self.call().releases(ret)) == self.owned().add(
                self.call().acquires(ret),
            ),
            self.next(ret) matches AcceptView::Call(then, call) ==> call == then.call(),
    {
        match self.phase {
            AcceptPhase::Allocating(instancer) => {
                instancer.lemma_step_keeps_account(ret);
                assert forall|fd: c_int|
                    self.next(ret).owned().add(self.call().releases(ret)).count(fd)
                        == self.owned().add(self.call().acquires(ret)).count(fd) by {
                    assert(instancer.next(ret).owned().add(instancer.call().releases(ret)).count(fd)
                        == instancer.owned().add(instancer.call().acquires(ret)).count(fd));
                }
            },
            AcceptPhase::Connecting(instance) => {
                assert(self.listener.pool.push(instance).drop_last() =~= self.listener.pool);
            },
            _ => {},
        }
        assert(self.next(ret).owned().add(self.call().releases(ret)) =~= self.owned().add(
            self.call().acquires(ret),
        ));
    }
}

impl AcceptView {
    /// The descriptors that are in this value's care. Those of a stream that
    /// is handed out are in the stream's.
    pub open spec fn owned(self) -> Multiset<c_int> {
        match self {
            AcceptView::Call(accepting, _) => accepting.owned(),
            AcceptView::Accepted(listener, stream) => listener.owned().add(
                Multiset::singleton(stream.handle.fd),
            ),
            AcceptView::Failed(listener, _) => listener.owned(),
        }
    }
}

impl Listener {
    /// A listener on the pipe `name`, with no end yet. The first end is made
    /// when the first client is accepted.
    pub fn new(name: &PipeName, mode: Mode) -> (listener: Self)
        ensures
            listener@ == (ListenerView { path: name.path(), mode, pool: Seq::empty() }),
    {
        Listener { path: name.to_path(), mode, pool: Vec::new() }
    }

    /// Begins to accept a client. What comes out is a call to make: that
    /// which resets or connects the end that came into the pool last, or that
    /// which makes a new end where the pool is empty. Nothing changes hands:
    /// what was in the listener's care still is.
    pub fn accept(self) -> (step: Accept)
        ensures
            step@ == self@.accept(),
            step@ is Call,
            step@.owned() == self@.owned(),
    {
        let Listener { path, mode, pool } = self;
        let mut pool = pool;
        let ghost before = pool@;
        match pool.pop() {
            Some(instance) => {
                assert(pool@ =~= before.drop_last());
                let listener = Listener { path, mode, pool };
                assert(listener@.take_up(instance).owned() =~= listener@.owned().insert(
                    instance.handle.fd,
                ));
                if instance.state == InstanceState::Idle {
                    connect(listener, instance, None)
                } else {
                    reset(listener, instance, None)
                }
            },
            None => {
                let listener = Listener { path, mode, pool };
                assert(listener@.accept().owned() =~= listener@.owned());
                let begun = Instancer::begin(Side::Server, mode);
                allocated(listener, begun)
            },
        }
    }

    /// Takes back a stream whose client has left. The end that served it
    /// goes into the pool, and is reset and used again for a later client.
    pub fn recycle(self, stream: Stream) -> (listener: Self)
        ensures
            listener@ == self@.recycled(stream),
            listener@.owned() == self@.owned().insert(stream.handle.fd),
    {
        let Listener { path, mode, pool } = self;
        let mut pool = pool;
        let ghost before = pool@;
        let instance = Instance::from_stream(stream);
        pool.push(instance);
        assert(pool@.drop_last() =~= before);
        Listener { path, mode, pool }
    }
}

fn allocated(listener: Listener, allocation: Allocation) -> (step: Accept)
    ensures
        step@ == listener@.allocated(allocation),
{
    match allocation {
        Allocation::Call(instancer, call) => Accept::Call(
            Accepting { listener, phase: AcceptPhase::Allocating(instancer) },
            call,
        ),
        Allocation::Ready(instance) => connect(listener, instance, None),
        Allocation::Failed(error) => Accept::Failed(listener, error),
    }
}

fn connect(listener: Listener, instance: Instance, last: Option<SysReturn>) -> (step: Accept)
    ensures
        step@ == listener@.connect(instance, last),
{
    let mut instance = instance;
    match instance.connect(last) {
        Step::Call(call) => Accept::Call(
            Accepting { listener, phase: AcceptPhase::Connecting(instance) },
            call,
        ),
        Step::Done(Ok(())) => Accept::Accepted(listener, instance.into_stream()),
        Step::Done(Err(error)) => {
            let Listener { path, mode, pool } = listener;
            let mut pool = pool;
            pool.push(instance);
            Accept::Failed(Listener { path, mode, pool }, error)
        },
    }
}

fn reset(listener: Listener, instance: Instance, last: Option<SysReturn>) -> (step: Accept)
    ensures
        step@ == listener@.reset(instance, last),
{
    let mut instance = instance;
    match instance.reset(last) {
        Step::Call(call) => Accept::Call(
            Accepting { listener, phase: AcceptPhase::Resetting(instance) },
            call,
        ),
        Step::Done(Ok(())) => connect(listener, instance, None),
        Step::Done(Err(_)) => discard(listener, instance.handle, None),
    }
}

fn discard(listener: Listener, handle: FdOps, last: Option<SysReturn>) -> (step: Accept)
    ensures
        step@ == listener@.discard(handle, last),
{
    match close_fd(handle.as_raw_fd(), last) {
        CloseStep::Call(call) => Accept::Call(
            Accepting { listener, phase: AcceptPhase::Discarding(handle) },
            call,
        ),
        _ => {
            let begun = Instancer::begin(Side::Server, listener.mode);
            allocated(listener, begun)
        },
    }
}

impl Accepting {
    /// Takes the answer to the call that was under way and says what follows.
    ///
    /// A new end is made where none is there. An end whose client has left is
    /// reset, and where that fails it is closed and a new one is made in its
    /// place. The end then waits for a client: where one connects, the stream
    /// to it comes out; where waiting fails, the error comes out and the end
    /// goes back into the pool. Where no end can be made, the error of that
    /// comes out.
    ///
    /// Whatever the answer is, the descriptors in the care of what comes out
    /// are those that were in the care of `self`, with the one that the call
    /// made and without the one that it gave up.
    pub fn resume(self, ret: SysReturn) -> (step: Accept)
        ensures
            step@ == self@.next(ret),
            step@.owned().add(self@.call().releases(ret)) == self@.owned().add(
                self@.call().acquires(ret),
            ),
            step@ matches AcceptView::Call(then, call) ==> call == then.call(),
    {
        proof {
            self@.lemma_step_keeps_account(ret);
        }
        let Accepting { listener, phase } = self;
        match phase {
            AcceptPhase::Allocating(instancer) => {
                let allocation = instancer.resume(ret);
                allocated(listener, allocation)
            },
            AcceptPhase::Resetting(instance) => reset(listener, instance, Some(ret)),
            AcceptPhase::Discarding(handle) => discard(listener, handle, Some(ret)),
            AcceptPhase::Connecting(instance) => connect(listener, instance, Some(ret)),
        }
    }
}

/// Where accepting a client stands once `answers` have answered its calls, in
/// this order. Answers that come after the end are not asked for.
pub open spec fn accept_run(step: AcceptView, answers: Seq<SysReturn>) -> AcceptView
    decreases answers.len(),
{
    if answers.len() == 0 {
        step
    } else {
        match step {
            AcceptView::Call(accepting, _) => accept_run(
                accepting.next(answers.first()),
                answers.drop_first(),
            ),
            _ => step,
        }
    }
}

/// The descriptors that came into being while `answers` answered the calls.
pub open spec fn accept_acquired(step: AcceptView, answers: Seq<SysReturn>) -> Multiset<c_int>
    decreases answers.len(),
{
    if answers.len() == 0 {
        Multiset::empty()
    } else {
        match step {
            AcceptView::Call(accepting, _) => accepting.call().acquires(answers.first()).add(
                accept_acquired(accepting.next(answers.first()), answers.drop_first()),
            ),
            _ => Multiset::empty(),
        }
    }
}

/// The descriptors that were given up while `answers` answered the calls.
pub open spec fn accept_released(step: AcceptView, answers: Seq<SysReturn>) -> Multiset<c_int>
    decreases answers.len(),
{
    if answers.len() == 0 {
        Multiset::empty()
    } else {
        match step {
            AcceptView::Call(accepting, _) => accepting.call().releases(answers.first()).add(
                accept_released(accepting.next(answers.first()), answers.drop_first()),
            ),
            _ => Multiset::empty(),
        }
    }
}

/// A listener never loses an end. Whatever the operating system answers
/// while a client is accepted, and however many answers there are, the
/// descriptors in care at the end (in the pool, in work, or handed out as the
/// stream), together with those given up on the way, are those in care at the
/// beginning together with those that came into being on the way.
pub proof fn lemma_accept_keeps_account(step: AcceptView, answers: Seq<SysReturn>)
    ensures
        accept_run(step, answers).owned().add(accept_released(step, answers)) == step.owned().add(
            accept_acquired(step, answers),
        ),
    decreases answers.len(),
{
    if answers.len() > 0 && step is Call {
        let accepting = step->Call_0;
        let next = accepting.next(answers.first());
        let rest = answers.drop_first();
        accepting.lemma_step_keeps_account(answers.first());
        lemma_accept_keeps_account(next, rest);
        lemma_accounts_add_up(
            step.owned(),
            accepting.call().acquires(answers.first()),
            accepting.call().releases(answers.first()),
            next.owned(),
            accept_acquired(next, rest),
            accept_released(next, rest),
            accept_run(next, rest).owned(),
        );
    } else {
        assert(accept_run(step, answers).owned().add(accept_released(step, answers))
            =~= step.owned().add(accept_acquired(step, answers)));
    }
}

/// An answer that every call made in accepting a client takes for a success.
pub open spec fn granted(ret: SysReturn) -> bool {
    0 < ret.value <= c_int::MAX
}

/// What has ended stays as it is: no call is made for an answer that comes
/// after the end.
pub proof fn lemma_accept_stays_ended(step: AcceptView, answers: Seq<SysReturn>)
    requires
        !(step is Call),
    ensures
        accept_run(step, answers) == step,
        accept_acquired(step, answers) == Multiset::<c_int>::empty(),
        accept_released(step, answers) == Multiset::<c_int>::empty(),
{
}

/// Every client is accepted as long as the operating system grants what it
/// is asked for, whatever ends the listener has: on an idle end after one
/// call, on an end whose client has left after two, and on a new end after
/// three. No end is closed over it.
pub proof fn lemma_accept_succeeds(listener: ListenerView, answers: Seq<SysReturn>)
    requires
        answers.len() >= 3,
        forall|i: int| 0 <= i < answers.len() ==> granted(#[trigger] answers[i]),
    ensures
        accept_run(listener.accept(), answers) is Accepted,
        accept_released(listener.accept(), answers) == Multiset::<c_int>::empty(),
{
    let first = listener.accept();
    let one = answers.drop_first();
    let two = one.drop_first();
    let three = two.drop_first();
    assert(granted(answers[0]) && granted(answers[1]) && granted(answers[2]));
    assert(answers.first() == answers[0]);
    assert(one.first() == answers[1]);
    assert(two.first() == answers[2]);
    let second = first->Call_0.next(answers[0]);
    assert(accept_run(first, answers) == accept_run(second, one));
    assert(accept_released(first, answers) =~= accept_released(second, one));
    if second is Call {
        let third = second->Call_0.next(answers[1]);
        assert(accept_run(second, one) == accept_run(third, two));
        assert(accept_released(second, one) =~= accept_released(third, two));
        if third is Call {
            let last = third->Call_0.next(answers[2]);
            assert(accept_run(third, two) == accept_run(last, three));
            assert(accept_released(third, two) =~= accept_released(last, three));
            assert(last is Accepted);
            lemma_accept_stays_ended(last, three);
        } else {
            lemma_accept_stays_ended(third, two);
        }
    } else {
        lemma_accept_stays_ended(second, one);
    }
}

/// The first client of a listener: an end is created, its mode is set, and it
/// waits for the client. Where the operating system answers each of the three
/// calls with a success, the client is accepted on the end that was created,
/// and the listener is as it was.
pub proof fn lemma_first_client(
    listener: ListenerView,
    created: SysReturn,
    configured: SysReturn,
    connected: SysReturn,
)
    requires
        listener.pool.len() == 0,
        0 <= created.value <= c_int::MAX,
        configured.value != 0,
        connected.value != 0,
    ensures
        accept_run(listener.accept(), seq![created, configured, connected]) == AcceptView::Accepted(
            listener,
            Stream { handle: FdOps { fd: created.value as c_int }, mode: listener.mode },
        ),
        accept_acquired(listener.accept(), seq![created, configured, connected])
            == Multiset::singleton(created.value as c_int),
        accept_released(listener.accept(), seq![created, configured, connected])
            == Multiset::<c_int>::empty(),
{
    reveal_with_fuel(accept_run, 2);
    reveal_with_fuel(accept_acquired, 2);
    reveal_with_fuel(accept_released, 2);
    let answers = seq![created, configured, connected];
    let first = listener.accept();
    let second = first->Call_0.next(created);
    let third = second->Call_0.next(configured);
    let last = third->Call_0.next(connected);
    assert(answers.first() == created);
    assert(answers.drop_first() =~= seq![configured, connected]);
    assert(seq![configured, connected].first() == configured);
    assert(seq![configured, connected].drop_first() =~= seq![connected]);
    assert(seq![connected].first() == connected);
    assert(seq![connected].drop_first() =~= Seq::<SysReturn>::empty());
    assert(accept_run(third, seq![connected]) == last);
    assert(accept_run(second, seq![configured, connected]) == last);
    assert(accept_run(first, answers) == last);
    assert(accept_acquired(third, seq![connected]) =~= Multiset::<c_int>::empty());
    assert(accept_acquired(second, seq![configured, connected]) =~= Multiset::<c_int>::empty());
    assert(accept_acquired(first, answers) =~= Multiset::singleton(created.value as c_int));
    assert(accept_released(third, seq![connected]) =~= Multiset::<c_int>::empty());
    assert(accept_released(second, seq![configured, connected]) =~= Multiset::<c_int>::empty());
    assert(accept_released(first, answers) =~= Multiset::<c_int>::empty());
}

/// The next client of a listener: once a stream is handed back, the end that
/// served it is reset and waits for the next client. Where the operating
/// system answers both calls with a success, the client is accepted on that
/// same end, no descriptor is made or given up, and the listener is as it was
/// before the stream was handed back.
pub proof fn lemma_next_client(
    listener: ListenerView,
    stream: Stream,
    reset: SysReturn,
    connected: SysReturn,
)
    requires
        reset.value != 0,
        connected.value != 0,
    ensures
        accept_run(listener.recycled(stream).accept(), seq![reset, connected])
            == AcceptView::Accepted(listener, stream),
        accept_acquired(listener.recycled(stream).accept(), seq![reset, connected])
            == Multiset::<c_int>::empty(),
        accept_released(listener.recycled(stream).accept(), seq![reset, connected])
            == Multiset::<c_int>::empty(),
{
    reveal_with_fuel(accept_run, 2);
    reveal_with_fuel(accept_acquired, 2);
    reveal_with_fuel(accept_released, 2);
    let answers = seq![reset, connected];
    let back = listener.recycled(stream);
    assert(back.pool.drop_last() =~= listener.pool);
    assert(ListenerView { pool: back.pool.drop_last(), ..back } == listener);
    let first = back.accept();
    let second = first->Call_0.next(reset);
    let last = second->Call_0.next(connected);
    assert(answers.first() == reset);
    assert(answers.drop_first() =~= seq![connected]);
    assert(seq![connected].first() == connected);
    assert(seq![connected].drop_first() =~= Seq::<SysReturn>::empty());
    assert(accept_run(second, seq![connected]) == last);
    assert(accept_run(first, answers) == last);
    assert(accept_acquired(second, seq![connected]) =~= Multiset::<c_int>::empty());
    assert(accept_acquired(first, answers) =~= Multiset::<c_int>::empty());
    assert(accept_released(second, seq![connected]) =~= Multiset::<c_int>::empty());
    assert(accept_released(first, answers) =~= Multiset::<c_int>::empty());
}

/// Serving one client after the other: each round hands the stream of the
/// last client back and accepts the next, with the two answers of the round.
/// What comes out is where the last round ended, or the first round that did
/// not end with a client.
pub open spec fn serve(
    listener: ListenerView,
    stream: Stream,
    rounds: Seq<(SysReturn, SysReturn)>,
) -> AcceptView
    decreases rounds.len(),
{
    if rounds.len() == 0 {
        AcceptView::Accepted(listener, stream)
    } else {
        match accept_run(
            listener.recycled(stream).accept(),
            seq![rounds.first().0, rounds.first().1],
        ) {
            AcceptView::Accepted(then, next) => serve(then, next, rounds.drop_first()),
            other => other,
        }
    }
}

/// A listener serves any number of clients one after the other on one end:
/// as long as the operating system resets the end and connects the next
/// client, every client is accepted, nothing has to be done to the listener
/// in between but to hand the stream back, and neither the listener nor the
/// end changes over it.
pub proof fn lemma_serves_every_client(
    listener: ListenerView,
    stream: Stream,
    rounds: Seq<(SysReturn, SysReturn)>,
)
    requires
        forall|i: int|
            0 <= i < rounds.len() ==> (#[trigger] rounds[i]).0.value != 0 && rounds[i].1.value
                != 0,
    ensures
        serve(listener, stream, rounds) == AcceptView::Accepted(listener, stream),
    decreases rounds.len(),
{
    if rounds.len() > 0 {
        assert(rounds.first() == rounds[0]);
        lemma_next_client(listener, stream, rounds.first().0, rounds.first().1);
        assert forall|i: int| 0 <= i < rounds.drop_first().len() implies (
        #[trigger] rounds.drop_first()[i]).0.value != 0 && rounds.drop_first()[i].1.value != 0 by {
            assert(rounds.drop_first()[i] == rounds[i + 1]);
        }
        lemma_serves_every_client(listener, stream, rounds.drop_first());
    }
}

/// An end that cannot be reset is not kept and not lost: it is closed, a new
/// end is made in its place, and the client is accepted on the new one. The
/// descriptor of the old end is given up once, and the listener is as it was
/// before the stream was handed back.
pub proof fn lemma_failed_reset_replaces_the_end(
    listener: ListenerView,
    stream: Stream,
    refused: SysReturn,
    closed: SysReturn,
    created: SysReturn,
    configured: SysReturn,
    connected: SysReturn,
)
    requires
        listener.pool.len() == 0,
        refused.value == 0,
        closed.value == 0,
        0 <= created.value <= c_int::MAX,
        configured.value != 0,
        connected.value != 0,
    ensures
        ({
            let answers = seq![refused, closed, created, configured, connected];
            let first = listener.recycled(stream).accept();
            &&& accept_run(first, answers) == AcceptView::Accepted(
                listener,
                Stream { handle: FdOps { fd: created.value as c_int }, mode: listener.mode },
            )
            &&& accept_acquired(first, answers) == Multiset::singleton(created.value as c_int)
            &&& accept_released(first, answers) == Multiset::singleton(stream.handle.fd)
        }),
{
    let answers = seq![refused, closed, created, configured, connected];
    let back = listener.recycled(stream);
    assert(back.pool.drop_last() =~= listener.pool);
    assert(ListenerView { pool: back.pool.drop_last(), ..back } == listener);
    let first = back.accept();
    let second = first->Call_0.next(refused);
    let third = second->Call_0.next(closed);
    assert(third == listener.accept());
    let tail = seq![created, configured, connected];
    assert(answers.first() == refused);
    assert(answers.drop_first() =~= seq![closed] + tail);
    assert((seq![closed] + tail).first() == closed);
    assert((seq![closed] + tail).drop_first() =~= tail);
    lemma_first_client(listener, created, configured, connected);
    assert(accept_run(second, seq![closed] + tail) == accept_run(third, tail));
    assert(accept_run(first, answers) == accept_run(third, tail));
    assert(accept_acquired(second, seq![closed] + tail) =~= accept_acquired(third, tail));
    assert(accept_acquired(first, answers) =~= accept_acquired(third, tail));
    assert(accept_released(second, seq![closed] + tail) =~= Multiset::singleton(stream.handle.fd));
    assert(accept_released(first, answers) =~= Multiset::singleton(stream.handle.fd));
}

/// A listener on a socket that is bound already. The socket takes any number
/// of clients itself, so there is no end to make or to use again: accepting a
/// client is one call.
#[derive(Debug)]
pub struct SocketListener {
    /// The listening socket.
    pub socket: FdOps,
    /// The mode of the streams that come out.
    pub mode: Mode,
}

impl SocketListener {
    /// A listener on the bound socket `socket`.
    pub fn new(socket: FdOps, mode: Mode) -> (listener: Self)
        ensures
            listener == (SocketListener { socket, mode }),
    {
        SocketListener { socket, mode }
    }

    /// The call that takes the next client.
    pub open spec fn accept_call(self) -> Syscall {
        Syscall::Accept { fd: self.socket.fd }
    }

    /// Accepting a client: the one call before there is an answer, and after
    /// it a stream on the descriptor that came back, or the error that was
    /// reported where none came back.
    pub open spec fn accepted(self, last: Option<SysReturn>) -> Step<Result<Stream, OsError>> {
        match FdOps::acquired(self.accept_call(), last) {
            Step::Call(call) => Step::Call(call),
            Step::Done(Ok(handle)) => Step::Done(Ok(Stream { handle, mode: self.mode })),
            Step::Done(Err(error)) => Step::Done(Err(error)),
        }
    }

    /// Accepts one client: one call, which gives the stream to the client.
    /// The stream owns the descriptor that the call made; where the call
    /// failed it made none, and the error comes out.
    pub fn accept(&self, last: Option<SysReturn>) -> (step: Step<Result<Stream, OsError>>)
        ensures
            step == self.accepted(last),
            last matches Some(ret) ==> (match step {
                Step::Done(Ok(stream)) => self.accept_call().acquires(ret) == Multiset::singleton(
                    stream.handle.fd,
                ),
                _ => self.accept_call().acquires(ret) == Multiset::<c_int>::empty(),
            }),
    {
        let call = Syscall::Accept { fd: self.socket.as_raw_fd() };
        match FdOps::acquire(call, last) {
            Step::Call(call) => Step::Call(call),
            Step::Done(Ok(handle)) => Step::Done(Ok(Stream::new(handle, self.mode))),
            Step::Done(Err(error)) => Step::Done(Err(error)),
        }
    }
}

} // verus!
