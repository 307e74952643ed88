//! TCP listeners.
use crate::net::tcp::socket::{io_step, next_registration, unstarted, Operation};
use crate::net::tcp::socket::{registration, step_after, AsyncSocket, Attempt, IoStep, Registration};
use crate::net::tcp::stream::HoochTcpStream;
use crate::reactor::{polled_state, Reactor, Token, MAX_PENDING_TAGS};
use vstd::prelude::*;

verus! {

/// A bind that goes on.
pub type AsyncHoochTcpListener<A, L, E, W> = AsyncSocket<A, L, E, W>;

/// A TCP listener that is known to the reactor by its token.
#[derive(Debug)]
pub struct HoochTcpListener<L> {
    pub listener: L,
    pub token: Token,
}

/// What follows an attempt to accept a connection.
#[derive(Debug)]
pub enum AcceptStep<S, A, E> {
    /// The stream, which comes from the address, is to be registered.
    Register(S, A, Registration),
    Failed(E),
    /// The listener has become ready; try again.
    Retry,
    /// Wait until the task is woken, then ask the reactor again.
    Suspend,
}

impl<L> HoochTcpListener<L> {
    /// Begins to bind to the address.
    pub fn bind<A, E, W>(addr: A, reactor: &mut Reactor<W>) -> (binding: AsyncHoochTcpListener<
        A,
        L,
        E,
        W,
    >)
        requires
            old(reactor).wf(),
            old(reactor)@.pending.len() < MAX_PENDING_TAGS,
        ensures
            final(reactor).wf(),
            final(reactor)@ == old(reactor)@.after_begin(),
            binding == unstarted::<A, L, E, W>(addr),
    {
        AsyncSocket::begin(addr, reactor)
    }

    /// Goes on once it is known whether the listener was bound: it is to be registered as
    /// returned, or the error is.
    pub fn bound<E, W>(made: Result<L, E>, reactor: &mut Reactor<W>) -> (next: Result<
        (L, Registration),
        E,
    >)
        requires
            old(reactor).wf(),
        ensures
            final(reactor).wf(),
            match made {
                Ok(listener) => next == Ok::<(L, Registration), E>(
                    (listener, next_registration(old(reactor)@)),
                ) && final(reactor)@ == old(reactor)@.after_token(),
                Err(error) => next == Err::<(L, Registration), E>(error) && final(reactor)@ == old(
                    reactor,
                )@,
            },
    {
        match made {
            Ok(listener) => {
                let chosen = registration(reactor);
                Ok((listener, chosen))
            },
            Err(error) => Err(error),
        }
    }

    /// Ends once it is known whether the listener was registered.
    pub fn registered<E>(listener: L, chosen: Registration, outcome: Result<(), E>) -> (bound:
        Result<Self, E>)
        ensures
            bound == (match outcome {
                Ok(_) => Ok::<Self, E>(HoochTcpListener { listener, token: chosen.token }),
                Err(error) => Err::<Self, E>(error),
            }),
    {
        match outcome {
            Ok(_) => Ok(HoochTcpListener { listener, token: chosen.token }),
            Err(error) => Err(error),
        }
    }

    /// Decides what follows an attempt to accept a connection: a connection is to be registered,
    /// an error is returned; without either the listener is waited for.
    pub fn accept<S, A, E, W, F: Fn(&W) -> bool>(
        &self,
        operation: &mut Operation,
        attempt: Attempt<(S, A), E>,
        reactor: &mut Reactor<W>,
        waker: W,
        will_wake: F,
    ) -> (step: AcceptStep<S, A, E>)
        requires
            old(reactor).wf(),
            forall|w: &W| will_wake.requires((w,)),
        ensures
            final(reactor).wf(),
            step == (match step_after(attempt, self.token, old(reactor)@) {
                IoStep::Return(Ok((stream, addr))) => AcceptStep::Register(
                    stream,
                    addr,
                    next_registration(old(reactor)@),
                ),
                IoStep::Return(Err(error)) => AcceptStep::Failed(error),
                IoStep::Retry => AcceptStep::Retry,
                IoStep::Suspend => AcceptStep::Suspend,
            }),
            final(operation).waiting == (step is Suspend),
            attempt is Done ==> final(reactor)@ == old(reactor)@.after_token(),
            attempt is Failed ==> final(reactor)@ == old(reactor)@,
            attempt is WouldBlock ==> polled_state(
                old(reactor)@,
                final(reactor)@,
                self.token,
                waker,
                will_wake,
            ),
    {
        match io_step(operation, attempt, self.token, reactor, waker, will_wake) {
            IoStep::Return(Ok((stream, addr))) => {
                let chosen = registration(reactor);
                AcceptStep::Register(stream, addr, chosen)
            },
            IoStep::Return(Err(error)) => AcceptStep::Failed(error),
            IoStep::Retry => AcceptStep::Retry,
            IoStep::Suspend => AcceptStep::Suspend,
        }
    }

    /// Ends once it is known whether the accepted stream was registered.
    pub fn accepted<S, A, E>(stream: S, addr: A, chosen: Registration, outcome: Result<(), E>) -> (
    accepted: Result<(HoochTcpStream<S>, A), E>)
        ensures
            accepted == (match outcome {
                Ok(_) => Ok::<(HoochTcpStream<S>, A), E>(
                    (HoochTcpStream { stream, token: chosen.token }, addr),
                ),
                Err(error) => Err::<(HoochTcpStream<S>, A), E>(error),
            }),
    {
        match HoochTcpStream::registered(stream, chosen, outcome) {
            Ok(stream) => Ok((stream, addr)),
            Err(error) => Err(error),
        }
    }
}

} // verus!
