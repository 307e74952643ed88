//! TCP streams.
use crate::net::tcp::socket::{io_step, next_registration, unstarted, Operation};
use crate::net::tcp::socket::{registration, step_after, AsyncSocket, Attempt, IoStep, Registration};
use crate::reactor::{polled_state, Reactor, Token, MAX_PENDING_TAGS};
use vstd::prelude::*;

verus! {

/// A connection attempt that goes on.
pub type AsyncHoochTcpStream<A, S, E, W> = AsyncSocket<A, S, E, W>;

/// A TCP stream that is known to the reactor by its token.
#[derive(Debug)]
pub struct HoochTcpStream<S> {
    pub stream: S,
    pub token: Token,
}

impl<S> HoochTcpStream<S> {
    /// Begins to connect to the address.
    pub fn connect<A, E, W>(addr: A, reactor: &mut Reactor<W>) -> (connecting: AsyncHoochTcpStream<
        A,
        S,
        E,
        W,
    >)
        requires
            old(reactor).wf(),
            old(reactor)@.pending.len() < MAX_PENDING_TAGS,
        ensures
            final(reactor).wf(),
            final(reactor)@ == old(reactor)@.after_begin(),
            connecting == unstarted::<A, S, E, W>(addr),
    {
        AsyncSocket::begin(addr, reactor)
    }

    /// Goes on once it is known whether the connection was made: the stream is to be registered
    /// as returned, or the error is.
    pub fn connected<E, W>(made: Result<S, E>, reactor: &mut Reactor<W>) -> (next: Result<
        (S, Registration),
        E,
    >)
        requires
            old(reactor).wf(),
        ensures
            final(reactor).wf(),
            match made {
                Ok(stream) => next == Ok::<(S, Registration), E>(
                    (stream, next_registration(old(reactor)@)),
                ) && final(reactor)@ == old(reactor)@.after_token(),
                Err(error) => next == Err::<(S, Registration), E>(error) && final(reactor)@ == old(
                    reactor,
                )@,
            },
    {
        match made {
            Ok(stream) => {
                let chosen = registration(reactor);
                Ok((stream, chosen))
            },
            Err(error) => Err(error),
        }
    }

    /// Ends once it is known whether the stream was registered.
    pub fn registered<E>(stream: S, chosen: Registration, outcome: Result<(), E>) -> (connected:
        Result<Self, E>)
        ensures
            connected == (match outcome {
                Ok(_) => Ok::<Self, E>(HoochTcpStream { stream, token: chosen.token }),
                Err(error) => Err::<Self, E>(error),
            }),
    {
        match outcome {
            Ok(_) => Ok(HoochTcpStream { stream, token: chosen.token }),
            Err(error) => Err(error),
        }
    }

    /// Decides what follows an attempt to read: the number of bytes read or the error is returned;
    /// a stream that is not readable is waited for.
    pub fn read<E, W, F: Fn(&W) -> bool>(
        &self,
        operation: &mut Operation,
        attempt: Attempt<usize, E>,
        reactor: &mut Reactor<W>,
        waker: W,
        will_wake: F,
    ) -> (step: IoStep<usize, E>)
        requires
            old(reactor).wf(),
            forall|w: &W| will_wake.requires((w,)),
        ensures
            final(reactor).wf(),
            step == step_after(attempt, self.token, old(reactor)@),
            final(operation).waiting == (step is Suspend),
            !(attempt is WouldBlock) ==> final(reactor)@ == old(reactor)@,
            attempt is WouldBlock ==> polled_state(
                old(reactor)@,
                final(reactor)@,
                self.token,
                waker,
                will_wake,
            ),
    {
        io_step(operation, attempt, self.token, reactor, waker, will_wake)
    }

    /// Decides what follows an attempt to write: the number of bytes written or the error is
    /// returned; a stream that is not writable is waited for.
    pub fn write<E, W, F: Fn(&W) -> bool>(
        &self,
        operation: &mut Operation,
        attempt: Attempt<usize, E>,
        reactor: &mut Reactor<W>,
        waker: W,
        will_wake: F,
    ) -> (step: IoStep<usize, E>)
        requires
            old(reactor).wf(),
            forall|w: &W| will_wake.requires((w,)),
        ensures
            final(reactor).wf(),
            step == step_after(attempt, self.token, old(reactor)@),
            final(operation).waiting == (step is Suspend),
            !(attempt is WouldBlock) ==> final(reactor)@ == old(reactor)@,
            attempt is WouldBlock ==> polled_state(
                old(reactor)@,
                final(reactor)@,
                self.token,
                waker,
                will_wake,
            ),
    {
        io_step(operation, attempt, self.token, reactor, waker, will_wake)
    }
}

} // verus!
