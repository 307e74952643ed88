//! What listeners and streams have in common: a socket that is made in a thread pool, is then
//! registered with the reactor, and is waited for while it is not ready.
use crate::reactor::{polled_state, Poll, Reactor, ReactorState, Token, MAX_PENDING_TAGS};
use vstd::prelude::*;

verus! {

/// The making of a socket that goes on. `A` is the address to bind or connect to, `S` the socket and
/// `E` an error of the operating system.
#[derive(Debug)]
pub struct AsyncSocket<A, S, E, W> {
    /// The address, until the making is started.
    pub addr: Option<A>,
    pub state: Option<Result<S, E>>,
    pub has_polled: bool,
    /// The task that polled first, until it is to be woken.
    pub waker: Option<W>,
}

/// What polling the making of a socket comes to.
pub enum SocketPoll<A, S, E> {
    /// The socket is to be made in the thread pool, with the address; until it is, the making is
    /// pending.
    Start(A),
    Pending,
    Ready(Result<S, E>),
}

/// How a socket is to be registered with the operating system's event queue.
#[derive(Debug, PartialEq, Eq, Structural, Clone, Copy)]
pub struct Registration {
    pub token: Token,
    pub readable: bool,
    pub writable: bool,
}

/// What an attempt at input or output came to.
#[derive(Debug)]
pub enum Attempt<T, E> {
    Done(T),
    /// The socket is not ready.
    WouldBlock,
    Failed(E),
}

/// What follows an attempt at input or output.
#[derive(Debug)]
pub enum IoStep<T, E> {
    /// The operation is over.
    Return(Result<T, E>),
    /// The socket has become ready; try again.
    Retry,
    /// Wait until the task is woken, then ask the reactor again.
    Suspend,
}

/// Interest in reading and in writing, under the reactor's next token.
pub open spec fn next_registration<W>(reactor: ReactorState<W>) -> Registration {
    Registration { token: Token(reactor.next_token), readable: true, writable: true }
}

/// An operation on a socket that goes on.
#[derive(Debug, PartialEq, Eq, Structural, Clone, Copy)]
pub struct Operation {
    /// The task waits until the socket is ready.
    pub waiting: bool,
}

impl Operation {
    /// An operation that was not attempted yet.
    pub fn new() -> (operation: Self)
        ensures
            !operation.waiting,
    {
        Operation { waiting: false }
    }

    /// Tells whether an attempt is to be made. If not, the task was suspended and asks the reactor
    /// first, as after an attempt that would block.
    pub fn is_due(&self) -> (due: bool)
        ensures
            due == !self.waiting,
    {
        !self.waiting
    }
}

/// The making of a socket that was not polled yet.
pub open spec fn unstarted<A, S, E, W>(addr: A) -> AsyncSocket<A, S, E, W> {
    AsyncSocket { addr: Some(addr), state: None, has_polled: false, waker: None }
}

impl<A, S, E, W> AsyncSocket<A, S, E, W> {
    /// The address is kept until the making is polled.
    pub open spec fn wf(&self) -> bool {
        self.addr is Some <==> !self.has_polled
    }

    /// The making of the socket once it has been polled: the first poll leaves the task waiting.
    pub open spec fn after_poll(self, waker: W) -> AsyncSocket<A, S, E, W> {
        if !self.has_polled {
            AsyncSocket { addr: None, has_polled: true, waker: Some(waker), ..self }
        } else {
            AsyncSocket { state: None, ..self }
        }
    }

    pub open spec fn poll_result(self) -> SocketPoll<A, S, E> {
        if !self.has_polled {
            SocketPoll::Start(self.addr.unwrap())
        } else {
            match self.state {
                Some(result) => SocketPoll::Ready(result),
                None => SocketPoll::Pending,
            }
        }
    }

    /// The making of the socket once the thread pool is done with it.
    pub open spec fn after_complete(self, result: Result<S, E>) -> AsyncSocket<A, S, E, W> {
        AsyncSocket { state: Some(result), waker: None, ..self }
    }

    /// Begins the making of a socket with the given address.
    pub fn begin(addr: A, reactor: &mut Reactor<W>) -> (making: Self)
        requires
            old(reactor).wf(),
            old(reactor)@.pending.len() < MAX_PENDING_TAGS,
        ensures
            final(reactor).wf(),
            final(reactor)@ == old(reactor)@.after_begin(),
            making == unstarted::<A, S, E, W>(addr),
    {
        let reactor_tag = reactor.generate_reactor_tag();
        reactor.register_reactor_tag(reactor_tag);
        AsyncSocket { addr: Some(addr), state: None, has_polled: false, waker: None }
    }

    /// Polls the making of the socket. The first poll starts it, with the address that was given,
    /// and leaves the task waiting; a later one gives the result away, if it is there.
    pub fn poll(&mut self, waker: W) -> (polled: SocketPoll<A, S, E>)
        requires
            old(self).wf(),
        ensures
            final(self).wf(),
            polled == old(self).poll_result(),
            *final(self) == old(self).after_poll(waker),
    {
        if !self.has_polled {
            self.has_polled = true;
            self.waker = Some(waker);
            return SocketPoll::Start(self.addr.take().unwrap());
        }
        match self.state.take() {
            None => SocketPoll::Pending,
            Some(result) => SocketPoll::Ready(result),
        }
    }

    /// Takes note of the result of making the socket, and returns the task to be woken.
    pub fn complete(&mut self, result: Result<S, E>) -> (woken: Option<W>)
        ensures
            woken == old(self).waker,
            *final(self) == old(self).after_complete(result),
    {
        self.state = Some(result);
        self.waker.take()
    }
}

/// Chooses how a socket that was made is to be registered: under a fresh token, for reading and
/// writing.
pub fn registration<W>(reactor: &mut Reactor<W>) -> (chosen: Registration)
    requires
        old(reactor).wf(),
    ensures
        final(reactor).wf(),
        final(reactor)@ == old(reactor)@.after_token(),
        chosen == next_registration(old(reactor)@),
{
    let token = reactor.unique_token();
    Registration { token, readable: true, writable: true }
}

/// What follows an attempt, if the socket's token is polled when it would block.
pub open spec fn step_after<T, E, W>(
    attempt: Attempt<T, E>,
    token: Token,
    reactor: ReactorState<W>,
) -> IoStep<T, E> {
    match attempt {
        Attempt::Done(value) => IoStep::Return(Ok(value)),
        Attempt::Failed(error) => IoStep::Return(Err(error)),
        Attempt::WouldBlock => if reactor.happened(token) {
            IoStep::Retry
        } else {
            IoStep::Suspend
        },
    }
}

/// Decides what follows an attempt at input or output on the socket with the given token: what
/// was achieved or went wrong is returned; a socket that was not ready is waited for.
/// A task that is suspended waits, and one that goes on makes another attempt.
pub fn io_step<T, E, W, S: Fn(&W) -> bool>(
    operation: &mut Operation,
    attempt: Attempt<T, E>,
    token: Token,
    reactor: &mut Reactor<W>,
    waker: W,
    will_wake: S,
) -> (step: IoStep<T, E>)
    requires
        old(reactor).wf(),
        forall|w: &W| will_wake.requires((w,)),
    ensures
        final(reactor).wf(),
        step == step_after(attempt, token, old(reactor)@),
        final(operation).waiting == (step is Suspend),
        !(attempt is WouldBlock) ==> final(reactor)@ == old(reactor)@,
        attempt is WouldBlock ==> polled_state(
            old(reactor)@,
            final(reactor)@,
            token,
            waker,
            will_wake,
        ),
{
    operation.waiting = false;
    match attempt {
        Attempt::Done(value) => IoStep::Return(Ok(value)),
        Attempt::Failed(error) => IoStep::Return(Err(error)),
        Attempt::WouldBlock => match reactor.poll(token, waker, will_wake) {
            Poll::Pending => {
                operation.waiting = true;
                IoStep::Suspend
            },
            Poll::Ready(_) => IoStep::Retry,
        },
    }
}

/// The making of a socket is started once, with the address that was given, and its result is given away once: the task of the
/// first poll is woken when the thread pool is done, and its next poll gives the result.
pub proof fn law_making_resolves_once<A, S, E, W>(
    addr: A,
    waker: W,
    later: W,
    result: Result<S, E>,
)
    ensures
        ({
            let making = unstarted::<A, S, E, W>(addr);
            let started = making.after_poll(waker);
            let done = started.after_complete(result);
            &&& making.poll_result() == SocketPoll::<A, S, E>::Start(addr)
            &&& !(started.poll_result() is Start)
            &&& started.waker == Some(waker)
            &&& done.poll_result() == SocketPoll::<A, S, E>::Ready(result)
            &&& done.after_poll(later).poll_result() is Pending
        }),
{
}

/// A task that was suspended on a socket is woken by the event of that socket, after which the
/// attempt is made again.
pub proof fn law_suspended_io_is_retried<T, E, W>(
    token: Token,
    reactor: ReactorState<W>,
    waker: W,
    keep: bool,
)
    requires
        token.0 != crate::reactor::WAKER_TOKEN,
        step_after(Attempt::<T, E>::WouldBlock, token, reactor) is Suspend,
    ensures
        ({
            let waiting = reactor.after_poll(token, waker, keep);
            &&& waiting.woken_by(token).len() == 1
            &&& step_after(Attempt::<T, E>::WouldBlock, token, waiting.after_event(token)) is Retry
        }),
{
    crate::reactor::law_waiting_task_is_woken(reactor, token, waker, keep, token);
}

/// What an attempt achieved, or what went wrong with it, is always handed to the caller, whether or
/// not an event of the socket has happened. Only an attempt that would block is made again, at once if
/// the event has happened meanwhile, and otherwise once the task has been woken.
pub proof fn law_attempt_is_handed_to_the_caller<T, E, W>(
    attempt: Attempt<T, E>,
    value: T,
    error: E,
    token: Token,
    reactor: ReactorState<W>,
)
    ensures
        step_after(Attempt::<T, E>::Done(value), token, reactor) == IoStep::<T, E>::Return(
            Ok(value),
        ),
        step_after(Attempt::<T, E>::Failed(error), token, reactor) == IoStep::<T, E>::Return(
            Err(error),
        ),
        step_after(attempt, token, reactor) is Return <==> !(attempt is WouldBlock),
        step_after(attempt, token, reactor) is Retry <==> attempt is WouldBlock
            && reactor.statuses.contains_key(token.0)
            && reactor.statuses[token.0] is Happened,
        step_after(attempt, token, reactor) is Suspend <==> attempt is WouldBlock && !(
        reactor.statuses.contains_key(token.0) && reactor.statuses[token.0] is Happened),
{
}

/// What follows an attempt depends on the socket's own event alone: two reactors that agree on whether
/// it has happened give the same step.
pub proof fn law_step_depends_on_the_sockets_own_event<T, E, W>(
    attempt: Attempt<T, E>,
    token: Token,
    one: ReactorState<W>,
    other: ReactorState<W>,
)
    requires
        one.statuses.contains_key(token.0) == other.statuses.contains_key(token.0),
        one.statuses.contains_key(token.0) ==> (one.statuses[token.0] is Happened
            <==> other.statuses[token.0] is Happened),
    ensures
        step_after(attempt, token, one) == step_after(attempt, token, other),
{
}

/// A socket is registered under a token that is its own, for reading and for writing.
pub proof fn law_registration_is_for_reading_and_writing<W>(reactor: ReactorState<W>)
    ensures
        next_registration(reactor).token.0 == reactor.next_token,
        next_registration(reactor).readable,
        next_registration(reactor).writable,
        reactor.next_token < usize::MAX ==> next_registration(reactor.after_token()).token
            != next_registration(reactor).token,
{
}

/// The making of a socket, step by step: it starts with the address given, at the first poll and not
/// later; the task of that poll is the one to wake; a result is given away once and is the one that
/// the thread pool came to; and a poll that comes too early changes nothing.
pub proof fn law_making_keeps_what_it_was_given<A, S, E, W>(
    making: AsyncSocket<A, S, E, W>,
    addr: A,
    waker: W,
    result: Result<S, E>,
)
    ensures
        ({
            let begun = unstarted::<A, S, E, W>(addr);
            &&& begun.addr == Some(addr)
            &&& begun.state is None
            &&& begun.waker is None
            &&& !begun.has_polled
            &&& begun.wf()
        }),
        making.wf() <==> (making.addr is None <==> making.has_polled),
        making.addr matches Some(given) ==> !making.has_polled ==> {
            &&& making.poll_result() == SocketPoll::<A, S, E>::Start(given)
            &&& making.after_poll(waker).addr is None
            &&& making.after_poll(waker).has_polled
            &&& making.after_poll(waker).waker == Some(waker)
            &&& making.after_poll(waker).state == making.state
        },
        making.has_polled ==> {
            let after = making.after_poll(waker);
            &&& making.state is None ==> making.poll_result() == SocketPoll::<A, S, E>::Pending
                && after == making
            &&& making.state matches Some(made) ==> making.poll_result() == SocketPoll::<
                A,
                S,
                E,
            >::Ready(made)
            &&& after.state is None
            &&& after.has_polled
            &&& after.addr == making.addr
            &&& after.waker == making.waker
        },
        making.after_complete(result).state == Some(result),
        making.after_complete(result).waker is None,
        making.after_complete(result).addr == making.addr,
        making.after_complete(result).has_polled == making.has_polled,
{
}

} // verus!
