//! A bounded channel whose receiver waits through the reactor.
//!
//! Both ends work on one shared `Channel`. Sending registers the channel's tag with the reactor,
//! so that the task that waits to receive is woken.
use crate::reactor::{Poll, Reactor, ReactorState, ReactorTag, TagType, Token};
use crate::reactor::{MAX_PENDING_TAGS, WAKER_TOKEN};
use crate::utils::counter::number_after;
use std::collections::VecDeque;
use std::marker::PhantomData;
use vstd::prelude::*;

verus! {

/// The channel is closed: it is empty and no sender is left.
#[derive(Debug, PartialEq, Eq, Structural, Clone, Copy)]
pub struct RecvError;

/// Why a message could not be received at once.
#[derive(Debug, PartialEq, Eq, Structural, Clone, Copy)]
pub enum TryRecvError {
    /// The channel is empty, but a sender is left.
    Empty,
    /// The channel is empty and no sender is left.
    Disconnected,
}

/// What became of a message that was to be sent.
#[derive(Debug)]
pub enum SendOutcome<T> {
    /// The channel holds the message. The reactor is to be woken.
    Sent,
    /// The channel holds no messages of its own, so the sender has to wait until the message is
    /// received; `Channel::settle` tells. The reactor is to be woken.
    Offered(usize),
    /// There is no room for the message; the sender has to wait for some.
    Full(T),
    /// The receiver is gone.
    Disconnected(T),
}

/// What became of a message that was offered.
#[derive(Debug)]
pub enum Offer<T> {
    /// It was received.
    Taken,
    /// It was not received yet.
    Waiting,
    /// The receiver is gone.
    Refused(T),
}

/// The state that the two ends of a channel share.
pub struct Channel<T> {
    queue: VecDeque<T>,
    bound: usize,
    /// Number of items in the queue.
    queue_cnt: usize,
    /// Number of senders.
    clone_count: usize,
    receiver_alive: bool,
    /// Number of messages received so far.
    received: usize,
    reactor_tag: ReactorTag,
}

/// What a channel holds.
#[verifier::ext_equal]
pub struct ChannelState<T> {
    /// The messages that wait to be received, oldest first.
    pub queue: Seq<T>,
    pub bound: usize,
    pub senders: usize,
    pub receiver_alive: bool,
    pub received: usize,
    pub tag: ReactorTag,
}

/// The sending end.
#[derive(Debug)]
pub struct BoundedSender<T> {
    pub reactor_tag: ReactorTag,
    pub message: PhantomData<T>,
}

/// The receiving end.
#[derive(Debug)]
pub struct BoundedReceiver<T> {
    pub reactor_tag: ReactorTag,
    pub message: PhantomData<T>,
}

impl<T> ChannelState<T> {
    /// A message can be added: fewer than `bound` wait, or none waits on a channel that only
    /// passes messages from hand to hand.
    pub open spec fn has_room(self) -> bool {
        self.queue.len() < self.bound || self.queue.len() == 0
    }

    /// The next message is accepted.
    pub open spec fn accepts(self) -> bool {
        self.receiver_alive && self.has_room()
    }

    /// No message is left and none can come.
    pub open spec fn closed(self) -> bool {
        self.queue.len() == 0 && self.senders == 0
    }

    /// What becomes of a message that is to be sent.
    pub open spec fn send_outcome(self, val: T) -> SendOutcome<T> {
        if !self.receiver_alive {
            SendOutcome::Disconnected(val)
        } else if !self.has_room() {
            SendOutcome::Full(val)
        } else if self.bound == 0 {
            SendOutcome::Offered(self.received)
        } else {
            SendOutcome::Sent
        }
    }

    pub open spec fn after_send(self, val: T) -> ChannelState<T> {
        if self.accepts() {
            ChannelState { queue: self.queue.push(val), ..self }
        } else {
            self
        }
    }

    /// The state once the oldest message, if there is one, has been received.
    pub open spec fn after_recv(self) -> ChannelState<T> {
        if self.queue.len() > 0 {
            ChannelState {
                queue: self.queue.drop_first(),
                received: number_after(self.received),
                ..self
            }
        } else {
            self
        }
    }

    /// The state once `n` messages have been received.
    pub open spec fn after_recvs(self, n: nat) -> ChannelState<T>
        decreases n,
    {
        if n == 0 {
            self
        } else {
            self.after_recvs((n - 1) as nat).after_recv()
        }
    }

    /// What an attempt to receive at once gives.
    pub open spec fn try_recv_result(self) -> Result<T, TryRecvError> {
        if self.queue.len() > 0 {
            Ok(self.queue[0])
        } else if self.closed() {
            Err(TryRecvError::Disconnected)
        } else {
            Err(TryRecvError::Empty)
        }
    }

    /// What a poll for a message gives.
    pub open spec fn poll_recv_result(self) -> Poll<Result<T, RecvError>> {
        if self.queue.len() > 0 {
            Poll::Ready(Ok(self.queue[0]))
        } else if self.closed() {
            Poll::Ready(Err(RecvError))
        } else {
            Poll::Pending
        }
    }

    /// The reactor once the channel has been polled for a message: a task that finds none waits.
    pub open spec fn reactor_after_poll<W>(
        self,
        reactor: ReactorState<W>,
        waker: W,
    ) -> ReactorState<W> {
        if self.poll_recv_result() is Pending {
            reactor.after_store(self.tag, waker)
        } else {
            reactor
        }
    }

    /// The reactor once a message was to be sent.
    pub open spec fn reactor_after_send<W>(self, reactor: ReactorState<W>) -> ReactorState<W> {
        if self.accepts() {
            reactor.after_register(self.tag)
        } else {
            reactor
        }
    }

    pub open spec fn after_clone(self) -> ChannelState<T> {
        ChannelState { senders: number_after(self.senders), ..self }
    }

    pub open spec fn after_sender_drop(self) -> ChannelState<T> {
        ChannelState { senders: (self.senders - 1) as usize, ..self }
    }

    /// The reactor once a sender is gone: the last one takes the channel's tag along.
    pub open spec fn reactor_after_sender_drop<W>(
        self,
        reactor: ReactorState<W>,
    ) -> ReactorState<W> {
        if self.senders == 1 {
            reactor.after_remove_tag(self.tag)
        } else {
            reactor
        }
    }

    /// Who is to be woken once a sender is gone: the task that waits, if no sender is left.
    pub open spec fn woken_by_sender_drop<W>(self, reactor: ReactorState<W>) -> Option<W> {
        if self.senders == 1 && reactor.tags.contains_key(self.tag.0) {
            match reactor.tags[self.tag.0] {
                TagType::Channel(waker) => Some(waker),
            }
        } else {
            None
        }
    }

    /// The state once the receiver is gone: the messages are dropped, but for one that is still
    /// offered.
    pub open spec fn after_receiver_drop(self) -> ChannelState<T> {
        ChannelState {
            receiver_alive: false,
            queue: if self.bound == 0 {
                self.queue
            } else {
                Seq::empty()
            },
            ..self
        }
    }

    /// The offer numbered `ticket` has neither been taken nor refused.
    pub open spec fn offer_open(self, ticket: usize) -> bool {
        self.bound == 0 && self.received == ticket
    }

    /// The offer numbered `ticket`, if it is open, still has its message.
    pub open spec fn can_settle(self, ticket: usize) -> bool {
        self.offer_open(ticket) ==> self.queue.len() > 0
    }

    pub open spec fn settle_result(self, ticket: usize) -> Offer<T> {
        if !self.offer_open(ticket) {
            Offer::Taken
        } else if self.receiver_alive {
            Offer::Waiting
        } else {
            Offer::Refused(self.queue[0])
        }
    }

    pub open spec fn after_settle(self, ticket: usize) -> ChannelState<T> {
        if self.offer_open(ticket) && !self.receiver_alive {
            ChannelState { queue: self.queue.drop_first(), ..self }
        } else {
            self
        }
    }
}

impl<T> View for Channel<T> {
    type V = ChannelState<T>;

    closed spec fn view(&self) -> ChannelState<T> {
        ChannelState {
            queue: self.queue@,
            bound: self.bound,
            senders: self.clone_count,
            receiver_alive: self.receiver_alive,
            received: self.received,
            tag: self.reactor_tag,
        }
    }
}

impl<T> Channel<T> {
    /// The count is that of the messages, of which there are no more than the bound allows.
    pub closed spec fn wf(&self) -> bool {
        &&& self.queue_cnt == self.queue@.len()
        &&& self.queue@.len() <= self.bound || self.queue@.len() == 1
    }

    /// Number of messages that wait to be received.
    pub fn len(&self) -> (len: usize)
        requires
            self.wf(),
        ensures
            len == self@.queue.len(),
    {
        self.queue_cnt
    }

    /// Number of senders that are left.
    pub fn senders(&self) -> (senders: usize)
        ensures
            senders == self@.senders,
    {
        self.clone_count
    }

    /// Tells whether the next message is accepted.
    pub fn accepts(&self) -> (accepts: bool)
        requires
            self.wf(),
        ensures
            accepts == self@.accepts(),
    {
        self.receiver_alive && (self.queue_cnt < self.bound || self.queue_cnt == 0)
    }

    /// Takes the oldest message out of the queue.
    fn take(&mut self) -> (message: Option<T>)
        requires
            old(self).wf(),
        ensures
            final(self).wf(),
            final(self)@ == old(self)@.after_recv(),
            message is None <==> old(self)@.queue.len() == 0,
            message matches Some(val) ==> val == old(self)@.queue[0],
    {
        let message = self.queue.pop_front();
        if message.is_some() {
            self.queue_cnt = self.queue_cnt - 1;
            self.received = self.received.wrapping_add(1);
        }
        message
    }

    /// Tells whether the offer numbered `ticket`, if it is open, still has its message.
    pub fn can_settle(&self, ticket: usize) -> (possible: bool)
        requires
            self.wf(),
        ensures
            possible == self@.can_settle(ticket),
    {
        self.bound != 0 || self.received != ticket || self.queue_cnt > 0
    }

    /// Tells what became of the message that was offered under `ticket`; if the receiver is gone,
    /// the sender gets the message back.
    pub fn settle(&mut self, ticket: usize) -> (offer: Offer<T>)
        requires
            old(self).wf(),
            old(self)@.can_settle(ticket),
        ensures
            final(self).wf(),
            offer == old(self)@.settle_result(ticket),
            final(self)@ == old(self)@.after_settle(ticket),
    {
        if self.bound != 0 || self.received != ticket {
            return Offer::Taken;
        }
        if self.receiver_alive {
            return Offer::Waiting;
        }
        match self.queue.pop_front() {
            Some(val) => {
                self.queue_cnt = self.queue_cnt - 1;
                Offer::Refused(val)
            },
            None => Offer::Taken,
        }
    }
}

impl<T> BoundedSender<T> {
    /// Sends a value through the channel. If it is accepted, the channel's tag is registered with
    /// the reactor, which is to be woken.
    pub fn send<W>(&self, val: T, channel: &mut Channel<T>, reactor: &mut Reactor<W>) -> (outcome:
        SendOutcome<T>)
        requires
            old(channel).wf(),
            old(reactor).wf(),
            self.reactor_tag == old(channel)@.tag,
            old(channel)@.accepts() ==> old(reactor)@.pending.len() < MAX_PENDING_TAGS,
        ensures
            final(channel).wf(),
            final(reactor).wf(),
            outcome == old(channel)@.send_outcome(val),
            final(channel)@ == old(channel)@.after_send(val),
            final(reactor)@ == old(channel)@.reactor_after_send(old(reactor)@),
    {
        if !channel.receiver_alive {
            return SendOutcome::Disconnected(val);
        }
        if !channel.accepts() {
            return SendOutcome::Full(val);
        }
        channel.queue.push_back(val);
        channel.queue_cnt = channel.queue_cnt + 1;
        reactor.register_reactor_tag(self.reactor_tag);
        if channel.bound == 0 {
            SendOutcome::Offered(channel.received)
        } else {
            SendOutcome::Sent
        }
    }

    /// Clones the sender, increasing the number of senders.
    pub fn clone(&self, channel: &mut Channel<T>) -> (sender: Self)
        requires
            old(channel).wf(),
            old(channel)@.senders < usize::MAX,
        ensures
            final(channel).wf(),
            final(channel)@ == old(channel)@.after_clone(),
            sender.reactor_tag == self.reactor_tag,
    {
        channel.clone_count = channel.clone_count + 1;
        BoundedSender { reactor_tag: self.reactor_tag, message: PhantomData }
    }

    /// Drops the sender and, if this is the last clone, removes its tag from the reactor. Returns
    /// the waker of the task that waits for a message that can no longer come.
    pub fn drop<W>(self, channel: &mut Channel<T>, reactor: &mut Reactor<W>) -> (woken: Option<W>)
        requires
            old(channel).wf(),
            old(reactor).wf(),
            self.reactor_tag == old(channel)@.tag,
            old(channel)@.senders > 0,
        ensures
            final(channel).wf(),
            final(reactor).wf(),
            final(channel)@ == old(channel)@.after_sender_drop(),
            final(reactor)@ == old(channel)@.reactor_after_sender_drop(old(reactor)@),
            woken == old(channel)@.woken_by_sender_drop(old(reactor)@),
    {
        let count: usize = channel.clone_count;
        channel.clone_count = count - 1;
        if count == 1 {
            match reactor.remove_tag(self.reactor_tag) {
                Some(TagType::Channel(waker)) => Some(waker),
                None => None,
            }
        } else {
            None
        }
    }
}

impl<T> BoundedReceiver<T> {
    /// Polls the channel for a message. If there is none but one may still come, the task is
    /// registered with the reactor.
    pub fn poll_recv<W>(
        &self,
        channel: &mut Channel<T>,
        reactor: &mut Reactor<W>,
        waker: W,
    ) -> (polled: Poll<Result<T, RecvError>>)
        requires
            old(channel).wf(),
            old(reactor).wf(),
            self.reactor_tag == old(channel)@.tag,
        ensures
            final(channel).wf(),
            final(reactor).wf(),
            polled == old(channel)@.poll_recv_result(),
            final(channel)@ == old(channel)@.after_recv(),
            final(reactor)@ == old(channel)@.reactor_after_poll(old(reactor)@, waker),
    {
        if channel.queue_cnt == 0 {
            if channel.clone_count == 0 {
                return Poll::Ready(Err(RecvError));
            }
            reactor.store_waker_channel(self.reactor_tag, waker);
            return Poll::Pending;
        }
        match channel.take() {
            Some(val) => Poll::Ready(Ok(val)),
            None => Poll::Ready(Err(RecvError)),
        }
    }

    /// Attempts to receive a message from the channel without blocking.
    pub fn try_recv(&self, channel: &mut Channel<T>) -> (result: Result<T, TryRecvError>)
        requires
            old(channel).wf(),
        ensures
            final(channel).wf(),
            result == old(channel)@.try_recv_result(),
            final(channel)@ == old(channel)@.after_recv(),
    {
        match channel.take() {
            Some(val) => Ok(val),
            None => if channel.clone_count == 0 {
                Err(TryRecvError::Disconnected)
            } else {
                Err(TryRecvError::Empty)
            },
        }
    }

    /// Drops the receiver: what was sent and not received is lost, and nothing more is accepted.
    pub fn drop(self, channel: &mut Channel<T>)
        requires
            old(channel).wf(),
        ensures
            final(channel).wf(),
            final(channel)@ == old(channel)@.after_receiver_drop(),
    {
        channel.receiver_alive = false;
        if channel.bound != 0 {
            channel.queue.clear();
            channel.queue_cnt = 0;
        }
    }
}

/// Creates a new bounded channel with the specified capacity: one sender, the receiver, and the
/// state that they share. The channel has a reactor tag of its own.
pub fn bounded_channel<T, W>(bound: usize, reactor: &mut Reactor<W>) -> (made: (
    BoundedSender<T>,
    BoundedReceiver<T>,
    Channel<T>,
))
    requires
        old(reactor).wf(),
    ensures
        final(reactor).wf(),
        final(reactor)@ == old(reactor)@.after_tag(),
        made.0.reactor_tag == ReactorTag(old(reactor)@.next_tag),
        made.1.reactor_tag == ReactorTag(old(reactor)@.next_tag),
        made.2.wf(),
        made.2@ == (ChannelState::<T> {
            queue: Seq::empty(),
            bound,
            senders: 1,
            receiver_alive: true,
            received: 0,
            tag: ReactorTag(old(reactor)@.next_tag),
        }),
{
    let reactor_tag = reactor.generate_reactor_tag();
    (
        BoundedSender { reactor_tag, message: PhantomData },
        BoundedReceiver { reactor_tag, message: PhantomData },
        Channel {
            queue: VecDeque::new(),
            bound,
            queue_cnt: 0,
            clone_count: 1,
            receiver_alive: true,
            received: 0,
            reactor_tag,
        },
    )
}

proof fn lemma_after_recvs<T>(state: ChannelState<T>, n: nat)
    requires
        n <= state.queue.len(),
    ensures
        state.after_recvs(n).queue == state.queue.skip(n as int),
        state.after_recvs(n).senders == state.senders,
    decreases n,
{
    if n == 0 {
        assert(state.queue.skip(0) =~= state.queue);
    } else {
        lemma_after_recvs(state, (n - 1) as nat);
        assert(state.queue.skip(n - 1).drop_first() =~= state.queue.skip(n as int));
    }
}

/// What was sent is received, in the order in which it was sent: a message that was accepted
/// comes out right after the messages that were waiting before it, in their order.
pub proof fn law_messages_are_received_in_order<T>(state: ChannelState<T>, val: T, n: nat)
    requires
        state.accepts(),
        n <= state.queue.len(),
    ensures
        state.after_send(val).after_recvs(n).try_recv_result() == Ok::<T, TryRecvError>(
            if n < state.queue.len() {
                state.queue[n as int]
            } else {
                val
            },
        ),
        state.after_send(val).after_recvs(n).poll_recv_result() == Poll::Ready(
            Ok::<T, RecvError>(
                if n < state.queue.len() {
                    state.queue[n as int]
                } else {
                    val
                },
            ),
        ),
{
    lemma_after_recvs(state.after_send(val), n);
}

/// A message that is not accepted is handed back, and nothing changes.
pub proof fn law_refused_message_is_handed_back<T, W>(
    state: ChannelState<T>,
    reactor: ReactorState<W>,
    val: T,
)
    requires
        !state.accepts(),
    ensures
        state.send_outcome(val) == SendOutcome::Full(val) || state.send_outcome(val)
            == SendOutcome::Disconnected(val),
        state.send_outcome(val) is Disconnected <==> !state.receiver_alive,
        state.after_send(val) == state,
        state.reactor_after_send(reactor) == reactor,
{
}

/// The channel never holds more messages than its bound; one that only passes messages from hand
/// to hand never has more than one on offer.
pub proof fn law_bound_is_kept<T>(state: ChannelState<T>, val: T)
    requires
        state.queue.len() <= state.bound || state.queue.len() == 1,
    ensures
        ({
            let after = state.after_send(val);
            after.queue.len() <= after.bound || after.queue.len() == 1
        }),
        state.after_recv().queue.len() <= state.queue.len(),
        state.after_receiver_drop().queue.len() <= state.queue.len(),
{
}

/// A task that finds no message is woken by the next one that is sent: once the reactor's own
/// waker has fired, the task has been notified, and polling again gives it the message.
pub proof fn law_send_wakes_the_waiting_receiver<T, W>(
    state: ChannelState<T>,
    reactor: ReactorState<W>,
    waker: W,
    val: T,
)
    requires
        state.poll_recv_result() is Pending,
        state.receiver_alive,
    ensures
        ({
            let waiting = state.reactor_after_poll(reactor, waker);
            let sent = state.after_recv().after_send(val);
            &&& state.after_recv().reactor_after_send(waiting).woken_by(
                Token(WAKER_TOKEN),
            ).contains(waker)
            &&& sent.poll_recv_result() == Poll::Ready(Ok::<T, RecvError>(val))
        }),
{
    let waiting = state.reactor_after_poll(reactor, waker);
    crate::reactor::law_registered_tag_wakes(waiting, state.tag, waker);
}

/// A task that finds no message is woken when the last sender goes, and polling again tells it
/// that the channel is closed.
pub proof fn law_close_wakes_the_waiting_receiver<T, W>(
    state: ChannelState<T>,
    reactor: ReactorState<W>,
    waker: W,
)
    requires
        state.poll_recv_result() is Pending,
        state.senders == 1,
    ensures
        state.woken_by_sender_drop(state.reactor_after_poll(reactor, waker)) == Some(waker),
        state.after_sender_drop().poll_recv_result() == Poll::Ready(Err::<T, RecvError>(RecvError)),
{
}

/// A channel without senders still delivers what was sent; only then does it report that it is
/// closed, and it never makes a task wait.
pub proof fn law_closed_channel_delivers_the_rest<T>(state: ChannelState<T>, n: nat)
    requires
        state.senders == 0,
        n <= state.queue.len(),
    ensures
        n < state.queue.len() ==> state.after_recvs(n).poll_recv_result() == Poll::Ready(
            Ok::<T, RecvError>(state.queue[n as int]),
        ),
        n == state.queue.len() ==> state.after_recvs(n).poll_recv_result() == Poll::Ready(
            Err::<T, RecvError>(RecvError),
        ),
{
    lemma_after_recvs(state, n);
}

/// The tag stays with the reactor as long as a sender is left: only the drop that leaves none
/// removes it, however the senders came about.
pub proof fn law_tag_is_removed_with_the_last_sender<T, W>(
    state: ChannelState<T>,
    reactor: ReactorState<W>,
)
    requires
        0 < state.senders < usize::MAX,
    ensures
        state.after_clone().reactor_after_sender_drop(reactor) == reactor,
        state.after_clone().after_sender_drop() == state,
        state.after_sender_drop().senders == 0 ==> !state.reactor_after_sender_drop(
            reactor,
        ).tags.contains_key(state.tag.0),
        state.after_sender_drop().senders > 0 ==> state.reactor_after_sender_drop(reactor)
            == reactor,
{
}

/// An offer keeps its message for as long as it is open: it has it when it is made, and neither a
/// send, which is refused meanwhile, nor a clone, nor the drop of a sender or of the receiver, nor
/// the question what became of it while the receiver is there, takes the message away. A receive
/// closes the offer.
pub proof fn law_open_offer_keeps_its_message<T>(
    state: ChannelState<T>,
    ticket: usize,
    val: T,
    other: T,
)
    requires
        state.bound == 0,
    ensures
        state.accepts() ==> ({
            let offered = state.after_send(val);
            &&& offered.offer_open(state.received)
            &&& offered.can_settle(state.received)
            &&& offered.queue == seq![val]
        }),
        state.offer_open(ticket) && state.queue.len() > 0 ==> {
            &&& !state.accepts()
            &&& state.after_send(other) == state
            &&& state.after_clone().offer_open(ticket)
            &&& state.after_clone().queue == state.queue
            &&& state.after_sender_drop().offer_open(ticket)
            &&& state.after_sender_drop().queue == state.queue
            &&& state.after_receiver_drop().offer_open(ticket)
            &&& state.after_receiver_drop().queue == state.queue
            &&& state.receiver_alive ==> state.after_settle(ticket) == state
            &&& !state.after_recv().offer_open(ticket)
        },
        !state.offer_open(ticket) ==> state.can_settle(ticket) && state.after_settle(ticket) == state,
{
}

/// A message passed from hand to hand is settled exactly when it has been received or the
/// receiver is gone; in the latter case the sender gets it back.
pub proof fn law_offer_is_settled<T>(state: ChannelState<T>, val: T)
    requires
        state.bound == 0,
        state.accepts(),
    ensures
        state.send_outcome(val) == SendOutcome::<T>::Offered(state.received),
        state.after_send(val).settle_result(state.received) == Offer::<T>::Waiting,
        state.after_send(val).after_recv().settle_result(state.received) == Offer::<T>::Taken,
        state.after_send(val).after_receiver_drop().settle_result(state.received)
            == Offer::Refused(val),
{
}

/// A message is accepted whenever the receiver is there and fewer messages wait than the bound, and
/// it then waits behind all others; how many were received before, and how many senders there are,
/// makes no difference. A channel of bound zero offers one message at a time. In every other case the
/// sender gets the message back and nothing changes.
pub proof fn law_room_is_what_the_bound_leaves<T>(state: ChannelState<T>, val: T)
    ensures
        ({
            let after = state.after_send(val);
            let room = state.queue.len() < state.bound || (state.bound == 0 && state.queue.len()
                == 0);
            &&& state.accepts() <==> state.receiver_alive && room
            &&& state.receiver_alive && state.queue.len() < state.bound ==> state.send_outcome(val)
                == SendOutcome::<T>::Sent
            &&& state.receiver_alive && state.bound == 0 && state.queue.len() == 0
                ==> state.send_outcome(val) == SendOutcome::<T>::Offered(state.received)
            &&& state.receiver_alive && !room ==> state.send_outcome(val) == SendOutcome::Full(val)
            &&& !state.receiver_alive ==> state.send_outcome(val) == SendOutcome::Disconnected(val)
            &&& state.receiver_alive && room ==> {
                &&& after.queue.len() == state.queue.len() + 1
                &&& after.queue.last() == val
                &&& forall|i: int|
                    0 <= i < state.queue.len() ==> #[trigger] after.queue[i] == state.queue[i]
            }
            &&& !(state.receiver_alive && room) ==> after.queue == state.queue
            &&& after.bound == state.bound
            &&& after.senders == state.senders
            &&& after.receiver_alive == state.receiver_alive
            &&& after.received == state.received
            &&& after.tag == state.tag
        }),
{
}

/// Receiving frees a slot: a channel with a bound above zero that holds a message, and no more than
/// its bound allows, accepts another as soon as one has been received.
pub proof fn law_receiving_frees_a_slot<T>(state: ChannelState<T>, val: T)
    requires
        state.receiver_alive,
        0 < state.queue.len() <= state.bound,
    ensures
        state.after_recv().accepts(),
        state.after_recv().send_outcome(val) == SendOutcome::<T>::Sent,
        state.queue.len() == state.bound ==> state.send_outcome(val) == SendOutcome::Full(val),
{
}

/// Two channels in which the same waits behave the same, whatever passed through them before: they
/// accept the same messages and give the same ones out.
pub proof fn law_only_what_waits_counts<T>(one: ChannelState<T>, other: ChannelState<T>, val: T)
    requires
        one.queue == other.queue,
        one.bound == other.bound,
        one.receiver_alive == other.receiver_alive,
        one.senders == other.senders,
    ensures
        one.accepts() == other.accepts(),
        one.bound > 0 ==> one.send_outcome(val) == other.send_outcome(val),
        one.after_send(val).queue == other.after_send(val).queue,
        one.after_recv().queue == other.after_recv().queue,
        one.try_recv_result() == other.try_recv_result(),
        one.poll_recv_result() == other.poll_recv_result(),
{
}

/// Receiving gives the oldest message, which is then gone; the others keep their order, and nothing
/// else changes but the number received. Without a message, a channel with senders has none yet and
/// one without senders is closed, and nothing changes.
pub proof fn law_receiving_gives_the_oldest_message<T>(state: ChannelState<T>)
    ensures
        ({
            let after = state.after_recv();
            &&& state.queue.len() > 0 ==> {
                &&& state.try_recv_result() == Ok::<T, TryRecvError>(state.queue[0])
                &&& state.poll_recv_result() == Poll::Ready(Ok::<T, RecvError>(state.queue[0]))
                &&& after.queue == state.queue.subrange(1, state.queue.len() as int)
                &&& state.received < usize::MAX ==> after.received == state.received + 1
                &&& state.received == usize::MAX ==> after.received == 0
            }
            &&& state.queue.len() == 0 && state.senders > 0 ==> {
                &&& state.try_recv_result() == Err::<T, TryRecvError>(TryRecvError::Empty)
                &&& state.poll_recv_result() == Poll::<Result<T, RecvError>>::Pending
                &&& !state.closed()
            }
            &&& state.queue.len() == 0 && state.senders == 0 ==> {
                &&& state.try_recv_result() == Err::<T, TryRecvError>(TryRecvError::Disconnected)
                &&& state.poll_recv_result() == Poll::Ready(Err::<T, RecvError>(RecvError))
                &&& state.closed()
            }
            &&& state.queue.len() == 0 ==> after == state
            &&& after.bound == state.bound
            &&& after.senders == state.senders
            &&& after.receiver_alive == state.receiver_alive
            &&& after.tag == state.tag
        }),
{
    if state.queue.len() > 0 {
        assert(state.queue.drop_first() =~= state.queue.subrange(1, state.queue.len() as int));
    }
}

/// What passes through the ends of a channel leaves the rest alone: cloning and dropping a sender
/// change the number of senders by one and nothing else; dropping the receiver refuses what is sent
/// from then on and drops what waits, but for a message that is still offered.
pub proof fn law_ends_come_and_go<T>(state: ChannelState<T>, val: T)
    ensures
        ({
            let after = state.after_clone();
            &&& state.senders < usize::MAX ==> after.senders == state.senders + 1
            &&& after.queue == state.queue && after.bound == state.bound
            &&& after.receiver_alive == state.receiver_alive && after.received == state.received
            &&& after.tag == state.tag
        }),
        ({
            let after = state.after_sender_drop();
            &&& state.senders > 0 ==> after.senders == state.senders - 1
            &&& after.queue == state.queue && after.bound == state.bound
            &&& after.receiver_alive == state.receiver_alive && after.received == state.received
            &&& after.tag == state.tag
        }),
        ({
            let after = state.after_receiver_drop();
            &&& !after.receiver_alive
            &&& after.send_outcome(val) == SendOutcome::Disconnected(val)
            &&& state.bound > 0 ==> after.queue.len() == 0
            &&& state.bound == 0 ==> after.queue == state.queue
            &&& after.senders == state.senders && after.bound == state.bound && after.received
                == state.received && after.tag == state.tag
        }),
{
}

/// What the operations of a channel do to the reactor: an accepted message makes the channel's tag
/// pending, a task that finds no message is stored under the channel's tag, the last sender takes that
/// tag along and gives out the waker stored under it; everything else stays as it is.
pub proof fn law_channel_touches_its_own_tag<T, W>(
    state: ChannelState<T>,
    reactor: ReactorState<W>,
    waker: W,
    other: usize,
)
    requires
        other != state.tag.0,
    ensures
        ({
            let after = state.reactor_after_send(reactor);
            let accepted = state.receiver_alive && (state.queue.len() < state.bound
                || state.queue.len() == 0);
            &&& accepted ==> after.pending == reactor.pending.push(state.tag)
            &&& !accepted ==> after.pending == reactor.pending
            &&& after.tags == reactor.tags && after.statuses == reactor.statuses
            &&& after.next_tag == reactor.next_tag && after.next_token == reactor.next_token
        }),
        ({
            let after = state.reactor_after_poll(reactor, waker);
            let waits = state.queue.len() == 0 && state.senders > 0;
            &&& waits ==> after.tags.contains_key(state.tag.0) && after.tags[state.tag.0]
                == TagType::Channel(waker)
            &&& !waits ==> after.tags == reactor.tags
            &&& after.tags.contains_key(other) == reactor.tags.contains_key(other)
            &&& reactor.tags.contains_key(other) ==> after.tags[other] == reactor.tags[other]
            &&& after.pending == reactor.pending && after.statuses == reactor.statuses
            &&& after.next_tag == reactor.next_tag && after.next_token == reactor.next_token
        }),
        ({
            let after = state.reactor_after_sender_drop(reactor);
            &&& state.senders == 1 ==> !after.tags.contains_key(state.tag.0)
            &&& state.senders != 1 ==> after.tags == reactor.tags
            &&& after.tags.contains_key(other) == reactor.tags.contains_key(other)
            &&& reactor.tags.contains_key(other) ==> after.tags[other] == reactor.tags[other]
            &&& after.pending == reactor.pending && after.statuses == reactor.statuses
            &&& after.next_tag == reactor.next_tag && after.next_token == reactor.next_token
        }),
        state.senders == 1 && reactor.tags.contains_key(state.tag.0) ==> (
        reactor.tags[state.tag.0] matches TagType::Channel(stored) ==> state.woken_by_sender_drop(
            reactor,
        ) == Some(stored)),
        state.senders != 1 || !reactor.tags.contains_key(state.tag.0)
            ==> state.woken_by_sender_drop(reactor) is None,
{
}

/// What asking after an offer gives: it was taken if a message has been received since it was made,
/// or if the channel holds messages of its own; it waits while the receiver is there, and the sender gets it back once the receiver is gone. Only
/// the last takes the message away, and nothing else changes.
pub proof fn law_asking_after_an_offer<T>(state: ChannelState<T>, ticket: usize)
    requires
        state.bound == 0 && state.received == ticket ==> state.queue.len() > 0,
    ensures
        ({
            let after = state.after_settle(ticket);
            let open = state.bound == 0 && state.received == ticket;
            let gone = open && !state.receiver_alive;
            &&& state.can_settle(ticket)
            &&& state.offer_open(ticket) == open
            &&& !open ==> state.settle_result(ticket) == Offer::<T>::Taken
            &&& open && state.receiver_alive ==> state.settle_result(ticket) == Offer::<T>::Waiting
            &&& gone ==> state.settle_result(ticket) == Offer::Refused(state.queue[0])
                && after.queue == state.queue.subrange(1, state.queue.len() as int)
            &&& !gone ==> after == state
            &&& after.bound == state.bound && after.senders == state.senders
            &&& after.receiver_alive == state.receiver_alive && after.received == state.received
            &&& after.tag == state.tag
        }),
{
    if state.queue.len() > 0 {
        assert(state.queue.drop_first() =~= state.queue.subrange(1, state.queue.len() as int));
    }
}

/// Something that happens to a channel.
pub enum ChannelStep<T> {
    /// The message is to be sent.
    Send(T),
    /// A message is to be received.
    Receive,
    /// A sender is cloned.
    Clone,
    /// A sender goes.
    DropSender,
}

/// The channel once the steps have been taken in turn.
pub open spec fn after_steps<T>(
    state: ChannelState<T>,
    steps: Seq<ChannelStep<T>>,
) -> ChannelState<T>
    decreases steps.len(),
{
    if steps.len() == 0 {
        state
    } else {
        let before = after_steps(state, steps.drop_last());
        match steps.last() {
            ChannelStep::Send(val) => before.after_send(val),
            ChannelStep::Receive => before.after_recv(),
            ChannelStep::Clone => before.after_clone(),
            ChannelStep::DropSender => before.after_sender_drop(),
        }
    }
}

/// The messages that were not handed back when they were to be sent, in order.
pub open spec fn accepted<T>(state: ChannelState<T>, steps: Seq<ChannelStep<T>>) -> Seq<T>
    decreases steps.len(),
{
    if steps.len() == 0 {
        Seq::empty()
    } else {
        let earlier = accepted(state, steps.drop_last());
        match steps.last() {
            ChannelStep::Send(val) => match after_steps(state, steps.drop_last()).send_outcome(
                val,
            ) {
                SendOutcome::Sent => earlier.push(val),
                SendOutcome::Offered(_) => earlier.push(val),
                _ => earlier,
            },
            _ => earlier,
        }
    }
}

/// The messages that were received, in order.
pub open spec fn delivered<T>(state: ChannelState<T>, steps: Seq<ChannelStep<T>>) -> Seq<T>
    decreases steps.len(),
{
    if steps.len() == 0 {
        Seq::empty()
    } else {
        let earlier = delivered(state, steps.drop_last());
        match steps.last() {
            ChannelStep::Receive => match after_steps(state, steps.drop_last()).try_recv_result() {
                Ok(val) => earlier.push(val),
                Err(_) => earlier,
            },
            _ => earlier,
        }
    }
}

/// Nothing is lost, made up, doubled or put out of order: over any run of sends, receives, clones and
/// drops of senders, what waited at first followed by what was accepted is what was delivered followed
/// by what still waits. The bound and the tag never change.
pub proof fn law_channel_delivers_what_it_accepts<T>(
    state: ChannelState<T>,
    steps: Seq<ChannelStep<T>>,
)
    ensures
        state.queue + accepted(state, steps) == delivered(state, steps) + after_steps(
            state,
            steps,
        ).queue,
        after_steps(state, steps).bound == state.bound,
        after_steps(state, steps).tag == state.tag,
        after_steps(state, steps).receiver_alive == state.receiver_alive,
    decreases steps.len(),
{
    if steps.len() == 0 {
        assert(state.queue + Seq::empty() =~= Seq::empty() + state.queue);
    } else {
        let earlier = steps.drop_last();
        law_channel_delivers_what_it_accepts(state, earlier);
        let before = after_steps(state, earlier);
        let all = state.queue + accepted(state, earlier);
        assert(all == delivered(state, earlier) + before.queue);
        match steps.last() {
            ChannelStep::Send(val) => {
                if before.accepts() {
                    assert(state.queue + accepted(state, steps) =~= all.push(val));
                    assert(delivered(state, steps) + after_steps(state, steps).queue =~= all.push(
                        val,
                    ));
                }
            },
            ChannelStep::Receive => {
                if before.queue.len() > 0 {
                    assert(delivered(state, steps) + after_steps(state, steps).queue =~= all);
                }
            },
            ChannelStep::Clone => {},
            ChannelStep::DropSender => {},
        }
    }
}

} // verus!
