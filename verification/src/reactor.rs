//! The reactor: who waits for which event, and whom an event wakes.
use crate::executor::Status;
use crate::utils::counter::number_after;
use crate::utils::ring_buffer::LockFreeBoundedRingBuffer;
use std::collections::HashMap;
use vstd::prelude::*;

verus! {

broadcast use vstd::std_specs::hash::group_hash_axioms;

/// Identifies a source of input and output events.
#[derive(Debug, Hash, Eq, PartialEq, Structural, Clone, Copy)]
pub struct Token(pub usize);

/// Token of the reactor's own waker.
pub const WAKER_TOKEN: usize = 0;

/// Number of pending tags that the reactor has room for.
pub const MAX_PENDING_TAGS: usize = 1048576;

/// Unique identifier for reactor tags, used to manage and track events.
#[derive(Debug, Hash, Eq, PartialEq, Structural, Clone, Copy)]
pub struct ReactorTag(pub usize);

/// The type of event associated with a `ReactorTag`.
pub enum TagType<W> {
    /// A channel-based event, which uses a waker to notify.
    Channel(W),
}

/// Whether a value can be had yet.
pub enum Poll<T> {
    Pending,
    Ready(T),
}

/// Manages registration, awaiting and polling of asynchronous events, on behalf of tasks that are
/// known by their wakers `W`.
pub struct Reactor<W> {
    /// Tags whose events are pending.
    reactor_tag_buffer: LockFreeBoundedRingBuffer<ReactorTag>,
    /// The waker stored under each tag.
    reactor_tags: HashMap<usize, TagType<W>>,
    /// The status stored under each token.
    statuses: HashMap<usize, Status<W>>,
    next_tag: usize,
    next_token: usize,
}

/// What a reactor holds.
#[verifier::ext_equal]
pub struct ReactorState<W> {
    /// The pending tags, oldest first.
    pub pending: Seq<ReactorTag>,
    pub tags: Map<usize, TagType<W>>,
    pub statuses: Map<usize, Status<W>>,
    pub next_tag: usize,
    pub next_token: usize,
}

/// The wakers stored under the tags in `pending`, in the order of the tags.
pub open spec fn wakers_of<W>(pending: Seq<ReactorTag>, tags: Map<usize, TagType<W>>) -> Seq<W>
    decreases pending.len(),
{
    if pending.len() == 0 {
        Seq::empty()
    } else {
        let earlier = wakers_of(pending.drop_last(), tags);
        if tags.contains_key(pending.last().0) {
            match tags[pending.last().0] {
                TagType::Channel(waker) => earlier.push(waker),
            }
        } else {
            earlier
        }
    }
}

/// What polling a token may make of a reactor: `will_wake` is asked about a waker that already
/// awaits the event.
pub open spec fn polled_state<W, S: Fn(&W) -> bool>(
    before: ReactorState<W>,
    after: ReactorState<W>,
    token: Token,
    waker: W,
    will_wake: S,
) -> bool {
    if before.statuses.contains_key(token.0) {
        match before.statuses[token.0] {
            Status::Awaited(stored) => exists|same: bool| #[trigger]
                will_wake.ensures((&stored,), same) && after == before.after_poll(
                    token,
                    waker,
                    same,
                ),
            Status::Happened => after == before.after_poll(token, waker, false),
        }
    } else {
        after == before.after_poll(token, waker, false)
    }
}

/// Each of the `copies` is a clone of the waker at its place.
pub open spec fn clones_of<W: Clone>(wakers: Seq<W>, copies: Seq<W>) -> bool {
    &&& copies.len() == wakers.len()
    &&& forall|i: int| 0 <= i < wakers.len() ==> cloned(wakers[i], #[trigger] copies[i])
}

impl<W> ReactorState<W> {
    /// The event of the token is awaited by the waker.
    pub open spec fn awaited_by(self, token: Token, waker: W) -> bool {
        self.statuses.contains_key(token.0) && self.statuses[token.0] == Status::Awaited(waker)
    }

    /// The event of the token has happened and nobody has taken note of it yet.
    pub open spec fn happened(self, token: Token) -> bool {
        self.statuses.contains_key(token.0) && self.statuses[token.0] is Happened
    }

    /// The waker stored under the tag is `waker`.
    pub open spec fn parked(self, tag: ReactorTag, waker: W) -> bool {
        self.tags.contains_key(tag.0) && self.tags[tag.0] == TagType::Channel(waker)
    }

    pub open spec fn after_status(self, token: Token, status: Status<W>) -> ReactorState<W> {
        ReactorState { statuses: self.statuses.insert(token.0, status), ..self }
    }

    pub open spec fn after_store(self, tag: ReactorTag, waker: W) -> ReactorState<W> {
        ReactorState { tags: self.tags.insert(tag.0, TagType::Channel(waker)), ..self }
    }

    pub open spec fn after_register(self, tag: ReactorTag) -> ReactorState<W> {
        ReactorState { pending: self.pending.push(tag), ..self }
    }

    pub open spec fn after_remove_tag(self, tag: ReactorTag) -> ReactorState<W> {
        ReactorState { tags: self.tags.remove(tag.0), ..self }
    }

    pub open spec fn after_tag(self) -> ReactorState<W> {
        ReactorState { next_tag: number_after(self.next_tag), ..self }
    }

    /// The state once an operation has begun: it has a tag of its own, which is pending.
    pub open spec fn after_begin(self) -> ReactorState<W> {
        self.after_tag().after_register(ReactorTag(self.next_tag))
    }

    pub open spec fn after_token(self) -> ReactorState<W> {
        ReactorState { next_token: number_after(self.next_token), ..self }
    }

    /// The state once the token has been polled. `keep` tells whether a waker that already awaits
    /// the event is kept in place of the new one.
    pub open spec fn after_poll(self, token: Token, waker: W, keep: bool) -> ReactorState<W> {
        if self.happened(token) {
            ReactorState { statuses: self.statuses.remove(token.0), ..self }
        } else if self.statuses.contains_key(token.0) && keep {
            self
        } else {
            self.after_status(token, Status::Awaited(waker))
        }
    }

    /// The state once an event has been handled: the pending tags are served, or the event of the
    /// token has happened.
    pub open spec fn after_event(self, token: Token) -> ReactorState<W> {
        if token.0 == WAKER_TOKEN {
            ReactorState { pending: Seq::empty(), ..self }
        } else {
            self.after_status(token, Status::Happened)
        }
    }

    /// The wakers that an event notifies: those of the pending tags, or the one that awaits the
    /// token.
    pub open spec fn woken_by(self, token: Token) -> Seq<W> {
        if token.0 == WAKER_TOKEN {
            wakers_of(self.pending, self.tags)
        } else if self.statuses.contains_key(token.0) {
            match self.statuses[token.0] {
                Status::Awaited(waker) => seq![waker],
                Status::Happened => Seq::empty(),
            }
        } else {
            Seq::empty()
        }
    }

    /// The state once the events have been handled in turn.
    pub open spec fn after_events(self, tokens: Seq<Token>) -> ReactorState<W>
        decreases tokens.len(),
    {
        if tokens.len() == 0 {
            self
        } else {
            self.after_events(tokens.drop_last()).after_event(tokens.last())
        }
    }

    /// The wakers that the events notify in turn.
    pub open spec fn woken_by_events(self, tokens: Seq<Token>) -> Seq<W>
        decreases tokens.len(),
    {
        if tokens.len() == 0 {
            Seq::empty()
        } else {
            self.woken_by_events(tokens.drop_last()) + self.after_events(
                tokens.drop_last(),
            ).woken_by(tokens.last())
        }
    }
}

impl<W> View for Reactor<W> {
    type V = ReactorState<W>;

    closed spec fn view(&self) -> ReactorState<W> {
        ReactorState {
            pending: self.reactor_tag_buffer@,
            tags: self.reactor_tags@,
            statuses: self.statuses@,
            next_tag: self.next_tag,
            next_token: self.next_token,
        }
    }
}

impl<W> Reactor<W> {
    /// The buffer of pending tags is sound and has room for `MAX_PENDING_TAGS` of them, which it
    /// does not exceed.
    pub closed spec fn wf(&self) -> bool {
        &&& self.reactor_tag_buffer.wf()
        &&& self.reactor_tag_buffer@.len() <= MAX_PENDING_TAGS <= self.reactor_tag_buffer.bound()
    }

    /// Makes a reactor in which nothing is awaited. Tags are numbered from zero, tokens from one.
    pub fn new() -> (reactor: Self)
        ensures
            reactor.wf(),
            reactor@ == (ReactorState::<W> {
                pending: Seq::empty(),
                tags: Map::empty(),
                statuses: Map::empty(),
                next_tag: 0,
                next_token: 1,
            }),
    {
        Reactor {
            reactor_tag_buffer: LockFreeBoundedRingBuffer::new(MAX_PENDING_TAGS),
            reactor_tags: HashMap::new(),
            statuses: HashMap::new(),
            next_tag: 0,
            next_token: 1,
        }
    }

    /// Generates a unique `ReactorTag` identifier.
    pub fn generate_reactor_tag(&mut self) -> (tag: ReactorTag)
        requires
            old(self).wf(),
        ensures
            final(self).wf(),
            tag == ReactorTag(old(self)@.next_tag),
            final(self)@ == old(self)@.after_tag(),
    {
        let tag = ReactorTag(self.next_tag);
        self.next_tag = self.next_tag.wrapping_add(1);
        tag
    }

    /// Generates a unique `Token` for registering new events with the reactor.
    pub fn unique_token(&mut self) -> (token: Token)
        requires
            old(self).wf(),
        ensures
            final(self).wf(),
            token == Token(old(self)@.next_token),
            final(self)@ == old(self)@.after_token(),
    {
        let token = Token(self.next_token);
        self.next_token = self.next_token.wrapping_add(1);
        token
    }

    /// Returns the waker token used by the reactor.
    pub fn waker_token() -> (token: Token)
        ensures
            token.0 == WAKER_TOKEN,
    {
        Token(WAKER_TOKEN)
    }

    /// Stores a token in an awaited state.
    pub fn status_store(&mut self, token: Token, waker: W)
        requires
            old(self).wf(),
        ensures
            final(self).wf(),
            final(self)@ == old(self)@.after_status(token, Status::Awaited(waker)),
    {
        self.statuses.insert(token.0, Status::Awaited(waker));
    }

    /// Checks if the event of a token has happened.
    pub fn has_token_progressed(&self, token: Token) -> (progressed: bool)
        ensures
            progressed == self@.happened(token),
    {
        match self.statuses.get(&token.0) {
            Some(status) => match status {
                Status::Awaited(_) => false,
                Status::Happened => true,
            },
            None => false,
        }
    }

    /// Stores a waker in the reactor's tag map, associating it with a `ReactorTag`.
    pub fn store_waker_channel(&mut self, reactor_tag: ReactorTag, waker: W)
        requires
            old(self).wf(),
        ensures
            final(self).wf(),
            final(self)@ == old(self)@.after_store(reactor_tag, waker),
    {
        self.reactor_tags.insert(reactor_tag.0, TagType::Channel(waker));
    }

    /// Number of tags that are pending.
    pub fn pending_tags(&self) -> (len: usize)
        ensures
            len == self@.pending.len(),
    {
        self.reactor_tag_buffer.len()
    }

    /// Registers a `ReactorTag` in the tag buffer, marking it as pending.
    pub fn register_reactor_tag(&mut self, reactor_tag: ReactorTag)
        requires
            old(self).wf(),
            old(self)@.pending.len() < MAX_PENDING_TAGS,
        ensures
            final(self).wf(),
            final(self)@ == old(self)@.after_register(reactor_tag),
    {
        let _ = self.reactor_tag_buffer.push(reactor_tag);
    }

    /// Polls the reactor for the event of a token. If it has happened, that is taken note of and
    /// the token is forgotten; otherwise the waker awaits it from now on.
    ///
    /// A waker that already awaits the event is kept if `will_wake` says that it wakes the same
    /// task.
    pub fn poll<S: Fn(&W) -> bool>(&mut self, token: Token, waker: W, will_wake: S) -> (ready: Poll<
        (),
    >)
        requires
            old(self).wf(),
            forall|w: &W| will_wake.requires((w,)),
        ensures
            final(self).wf(),
            ready is Ready <==> old(self)@.happened(token),
            polled_state(old(self)@, final(self)@, token, waker, will_wake),
    {
        match self.statuses.get(&token.0) {
            Some(Status::Awaited(stored)) => {
                let same: bool = will_wake(stored);
                if !same {
                    self.statuses.insert(token.0, Status::Awaited(waker));
                }
                Poll::Pending
            },
            Some(Status::Happened) => {
                self.statuses.remove(&token.0);
                Poll::Ready(())
            },
            None => {
                self.statuses.insert(token.0, Status::Awaited(waker));
                Poll::Pending
            },
        }
    }

    /// Removes a `ReactorTag` from the tag map, effectively unregistering it. Returns the waker
    /// that was stored under it, if there was one.
    pub fn remove_tag(&mut self, reactor_tag: ReactorTag) -> (removed: Option<TagType<W>>)
        requires
            old(self).wf(),
        ensures
            final(self).wf(),
            final(self)@ == old(self)@.after_remove_tag(reactor_tag),
            removed == (if old(self)@.tags.contains_key(reactor_tag.0) {
                Some(old(self)@.tags[reactor_tag.0])
            } else {
                None
            }),
    {
        self.reactor_tags.remove(&reactor_tag.0)
    }
}

/// Cloning a stretch of wakers and then one more is cloning the longer stretch.
proof fn lemma_clones_push<W: Clone>(wakers: Seq<W>, copies: Seq<W>, waker: W, copy: W)
    requires
        clones_of(wakers, copies),
        cloned(waker, copy),
    ensures
        clones_of(wakers.push(waker), copies.push(copy)),
{
}

impl<W: Clone> Reactor<W> {
    /// Takes all pending tags and returns clones of the wakers stored under them, in the order in
    /// which the tags were registered. The wakers stay stored.
    fn drain_tags(&mut self) -> (woken: Vec<W>)
        requires
            old(self).wf(),
        ensures
            final(self).wf(),
            final(self)@ == (ReactorState { pending: Seq::empty(), ..old(self)@ }),
            clones_of(wakers_of(old(self)@.pending, old(self)@.tags), woken@),
    {
        let ghost pending = self@.pending;
        let ghost tags = self@.tags;
        let ghost mut served: int = 0;
        let mut woken: Vec<W> = Vec::new();
        loop
            invariant_except_break
                self.wf(),
                0 <= served <= pending.len(),
                tags == old(self)@.tags,
                pending == old(self)@.pending,
                self@ == (ReactorState { pending: pending.skip(served), ..old(self)@ }),
                clones_of(wakers_of(pending.take(served), tags), woken@),
            ensures
                self.wf(),
                self@ == (ReactorState { pending: Seq::empty(), ..old(self)@ }),
                clones_of(wakers_of(pending, tags), woken@),
            decreases self@.pending.len(),
        {
            let popped = self.reactor_tag_buffer.pop();
            match popped {
                None => {
                    assert(self@.pending =~= Seq::empty());
                    assert(pending.take(served) =~= pending);
                    break;
                },
                Some(reactor_tag) => {
                    proof {
                        assert(reactor_tag == pending[served]);
                        assert(pending.skip(served).drop_first() =~= pending.skip(served + 1));
                        assert(pending.take(served + 1).drop_last() =~= pending.take(served));
                        assert(pending.take(served + 1).last() == reactor_tag);
                    }
                    let ghost before = woken@;
                    if let Some(TagType::Channel(waker)) = self.reactor_tags.get(&reactor_tag.0) {
                        let copy = waker.clone();
                        proof {
                            lemma_clones_push(
                                wakers_of(pending.take(served), tags),
                                before,
                                *waker,
                                copy,
                            );
                        }
                        woken.push(copy);
                    }
                    proof {
                        served = served + 1;
                    }
                },
            }
        }
        woken
    }

    /// Handles one event and returns the wakers to notify. The event of the reactor's own waker
    /// serves all pending tags; any other event has happened from now on.
    pub fn handle_event(&mut self, token: Token) -> (woken: Vec<W>)
        requires
            old(self).wf(),
        ensures
            final(self).wf(),
            final(self)@ == old(self)@.after_event(token),
            clones_of(old(self)@.woken_by(token), woken@),
    {
        if token.0 == WAKER_TOKEN {
            return self.drain_tags();
        }
        let mut woken: Vec<W> = Vec::new();
        let previous = self.statuses.insert(token.0, Status::Happened);
        if let Some(Status::Awaited(waker)) = previous {
            woken.push(waker);
        }
        woken
    }

    /// Handles a batch of events, one after the other, and returns the wakers to notify.
    pub fn run(&mut self, tokens: &Vec<Token>) -> (woken: Vec<W>)
        requires
            old(self).wf(),
        ensures
            final(self).wf(),
            final(self)@ == old(self)@.after_events(tokens@),
            clones_of(old(self)@.woken_by_events(tokens@), woken@),
    {
        let mut woken: Vec<W> = Vec::new();
        let mut i: usize = 0;
        assert(tokens@.take(0) =~= Seq::empty());
        while i < tokens.len()
            invariant
                i <= tokens.len(),
                self.wf(),
                self@ == old(self)@.after_events(tokens@.take(i as int)),
                clones_of(old(self)@.woken_by_events(tokens@.take(i as int)), woken@),
            decreases tokens.len() - i,
        {
            assert(tokens@.take(i as int + 1).drop_last() =~= tokens@.take(i as int));
            assert(tokens@.take(i as int + 1).last() == tokens@[i as int]);
            let mut more = self.handle_event(tokens[i]);
            woken.append(&mut more);
            i = i + 1;
        }
        assert(tokens@.take(tokens.len() as int) =~= tokens@);
        woken
    }
}

/// An event is reported exactly once: once it has happened the next poll of its token is ready,
/// and the poll after that is not.
pub proof fn law_event_is_reported_once<W>(
    state: ReactorState<W>,
    token: Token,
    waker: W,
    keep: bool,
)
    requires
        token.0 != WAKER_TOKEN,
    ensures
        state.after_event(token).happened(token),
        !state.after_event(token).after_poll(token, waker, keep).happened(token),
{
}

/// A task that polled a token too early is woken by the event of that token, and an event of
/// another token leaves it waiting: the waker left behind is the new one, or the one that already
/// waited if it is kept.
pub proof fn law_waiting_task_is_woken<W>(
    state: ReactorState<W>,
    token: Token,
    waker: W,
    keep: bool,
    other: Token,
)
    requires
        token.0 != WAKER_TOKEN,
        !state.happened(token),
    ensures
        ({
            let waiting = state.after_poll(token, waker, keep);
            let expected = if keep && state.statuses.contains_key(token.0) {
                state.woken_by(token)
            } else {
                seq![waker]
            };
            &&& waiting.woken_by(token) == expected
            &&& other != token ==> waiting.after_event(other).woken_by(token) == expected
        }),
{
}

/// An event leaves the status of every other token as it was.
pub proof fn law_events_are_independent<W>(state: ReactorState<W>, token: Token, other: Token)
    requires
        other != token,
    ensures
        state.after_event(other).happened(token) == state.happened(token),
        forall|waker: W|
            state.after_event(other).awaited_by(token, waker) == state.awaited_by(token, waker),
        token.0 != WAKER_TOKEN ==> state.after_event(other).woken_by(token) == state.woken_by(
            token,
        ),
{
}

/// Who is woken for the pending tags: the wakers stored under them, and nobody else.
pub proof fn law_pending_tags_wake_their_wakers<W>(state: ReactorState<W>, waker: W)
    ensures
        state.woken_by(Token(WAKER_TOKEN)).contains(waker) <==> exists|i: int|
            0 <= i < state.pending.len() && state.parked(#[trigger] state.pending[i], waker),
{
    lemma_wakers_of(state.pending, state, waker);
}

proof fn lemma_wakers_of<W>(pending: Seq<ReactorTag>, state: ReactorState<W>, waker: W)
    ensures
        wakers_of(pending, state.tags).contains(waker) <==> exists|i: int|
            0 <= i < pending.len() && state.parked(#[trigger] pending[i], waker),
    decreases pending.len(),
{
    if pending.len() > 0 {
        let rest = pending.drop_last();
        let earlier = wakers_of(rest, state.tags);
        let all = wakers_of(pending, state.tags);
        let last = pending.len() - 1;
        lemma_wakers_of(rest, state, waker);
        if earlier.contains(waker) {
            let k = earlier.index_of(waker);
            assert(all[k] == waker);
            let i = choose|i: int| 0 <= i < rest.len() && state.parked(#[trigger] rest[i], waker);
            assert(state.parked(pending[i], waker));
        }
        if state.parked(pending[last], waker) {
            assert(all[earlier.len() as int] == waker);
        }
        if all.contains(waker) && !earlier.contains(waker) {
            let k = all.index_of(waker);
            assert(k == earlier.len());
            assert(state.parked(pending[last], waker));
        }
        assert forall|i: int|
            0 <= i < pending.len() && state.parked(#[trigger] pending[i], waker) implies all.contains(
            waker,
        ) by {
            if i < last {
                assert(state.parked(rest[i], waker));
            }
        }
    }
}

/// A tag that was registered wakes the waker stored under it at the next event of the reactor's
/// own waker, which leaves no tag pending.
pub proof fn law_registered_tag_wakes<W>(state: ReactorState<W>, tag: ReactorTag, waker: W)
    requires
        state.parked(tag, waker),
    ensures
        state.after_register(tag).woken_by(Token(WAKER_TOKEN)).contains(waker),
        state.after_register(tag).after_event(Token(WAKER_TOKEN)).woken_by(
            Token(WAKER_TOKEN),
        ).len() == 0,
{
    let registered = state.after_register(tag);
    assert(registered.parked(registered.pending[state.pending.len() as int], waker));
    law_pending_tags_wake_their_wakers(registered, waker);
}

/// A tag that was removed wakes nobody: the waker stored under it is not among those woken,
/// unless it is also stored under another tag.
pub proof fn law_removed_tag_wakes_nobody<W>(state: ReactorState<W>, tag: ReactorTag, waker: W)
    requires
        forall|other: ReactorTag| #[trigger] state.parked(other, waker) ==> other == tag,
    ensures
        !state.after_remove_tag(tag).woken_by(Token(WAKER_TOKEN)).contains(waker),
{
    let removed = state.after_remove_tag(tag);
    law_pending_tags_wake_their_wakers(removed, waker);
    assert forall|i: int| 0 <= i < removed.pending.len() implies !removed.parked(
        #[trigger] removed.pending[i],
        waker,
    ) by {
        if removed.parked(removed.pending[i], waker) {
            assert(state.parked(removed.pending[i], waker));
        }
    }
}

/// The state once `n` tokens, and then `m` tags, have been handed out.
pub open spec fn after_numbers<W>(state: ReactorState<W>, n: nat, m: nat) -> ReactorState<W>
    decreases m, n,
{
    if m > 0 {
        after_numbers(state, n, (m - 1) as nat).after_tag()
    } else if n > 0 {
        after_numbers(state, (n - 1) as nat, m).after_token()
    } else {
        state
    }
}

proof fn lemma_numbers<W>(state: ReactorState<W>, n: nat, m: nat)
    requires
        state.next_token + n <= usize::MAX,
        state.next_tag + m <= usize::MAX,
    ensures
        after_numbers(state, n, m).next_token == state.next_token + n,
        after_numbers(state, n, m).next_tag == state.next_tag + m,
    decreases m, n,
{
    if m > 0 {
        lemma_numbers(state, n, (m - 1) as nat);
    } else if n > 0 {
        lemma_numbers(state, (n - 1) as nat, m);
    }
}

/// Tokens are unique, and none is that of the reactor's own waker, until the counter runs out of
/// numbers.
pub proof fn law_tokens_are_unique<W>(state: ReactorState<W>, i: nat, j: nat)
    requires
        i < j,
        state.next_token > 0,
        state.next_token + j <= usize::MAX,
    ensures
        after_numbers(state, i, 0).next_token != after_numbers(state, j, 0).next_token,
        after_numbers(state, j, 0).next_token != WAKER_TOKEN,
{
    lemma_numbers(state, i, 0);
    lemma_numbers(state, j, 0);
}

/// Reactor tags are unique, until the counter runs out of numbers.
pub proof fn law_reactor_tags_are_unique<W>(state: ReactorState<W>, i: nat, j: nat)
    requires
        i < j,
        state.next_tag + j <= usize::MAX,
    ensures
        after_numbers(state, 0, i).next_tag != after_numbers(state, 0, j).next_tag,
{
    lemma_numbers(state, 0, i);
    lemma_numbers(state, 0, j);
}

/// The limits and the number that the reactor keeps to itself.
pub proof fn law_reactor_limits()
    ensures
        MAX_PENDING_TAGS == 1024 * 1024,
        WAKER_TOKEN == 0,
{
}

/// Polling a token touches nothing but the status of that token: every other token has the status it
/// had, so that the task that waits for it is woken as before, and the pending tags, the wakers
/// stored under tags and the counters stay as they are.
pub proof fn law_poll_touches_one_token<W>(
    state: ReactorState<W>,
    token: Token,
    waker: W,
    keep: bool,
    other: Token,
)
    requires
        other != token,
    ensures
        ({
            let after = state.after_poll(token, waker, keep);
            &&& after.statuses.contains_key(other.0) == state.statuses.contains_key(other.0)
            &&& state.statuses.contains_key(other.0) ==> after.statuses[other.0]
                == state.statuses[other.0]
            &&& after.pending == state.pending
            &&& after.tags == state.tags
            &&& after.next_tag == state.next_tag
            &&& after.next_token == state.next_token
            &&& after.happened(other) == state.happened(other)
            &&& forall|w: W| after.awaited_by(other, w) == state.awaited_by(other, w)
            &&& after.woken_by(other) == state.woken_by(other)
        }),
{
}

/// What polling does to the token itself: an event that has happened is taken note of and forgotten;
/// otherwise the waker awaits it, unless one that awaits it already is to be kept.
pub proof fn law_poll_notes_the_event_or_waits<W>(
    state: ReactorState<W>,
    token: Token,
    waker: W,
    keep: bool,
)
    ensures
        ({
            let after = state.after_poll(token, waker, keep);
            let known = state.statuses.contains_key(token.0);
            &&& state.happened(token) <==> known && state.statuses[token.0] == Status::<W>::Happened
            &&& forall|w: W|
                #![trigger state.awaited_by(token, w)]
                state.awaited_by(token, w) <==> known && state.statuses[token.0] == Status::Awaited(
                    w,
                )
            &&& known && state.statuses[token.0] is Happened ==> !after.statuses.contains_key(
                token.0,
            )
            &&& !known || (state.statuses[token.0] is Awaited && !keep)
                ==> after.statuses.contains_key(token.0) && after.statuses[token.0]
                == Status::Awaited(waker)
            &&& known && state.statuses[token.0] is Awaited && keep
                ==> after.statuses.contains_key(token.0) && after.statuses[token.0]
                == state.statuses[token.0]
        }),
{
}

/// What a poll may make of a reactor, whatever `will_wake` says: every other token has the status it
/// had, and nothing but statuses changes. Of the token itself, an event that has happened is
/// forgotten, a token that nobody awaited is awaited by the waker, and one that was awaited is
/// awaited by the waker that was there, if `will_wake` may say so of it, or by the new one, if
/// `will_wake` may deny it.
pub proof fn law_polled_reactor_waits_for_the_token<W, S: Fn(&W) -> bool>(
    before: ReactorState<W>,
    after: ReactorState<W>,
    token: Token,
    waker: W,
    will_wake: S,
    other: usize,
)
    requires
        polled_state(before, after, token, waker, will_wake),
        other != token.0,
    ensures
        after.statuses.contains_key(other) == before.statuses.contains_key(other),
        before.statuses.contains_key(other) ==> after.statuses[other] == before.statuses[other],
        after.pending == before.pending,
        after.tags == before.tags,
        after.next_tag == before.next_tag,
        after.next_token == before.next_token,
        before.statuses.contains_key(token.0) && before.statuses[token.0] is Happened
            ==> !after.statuses.contains_key(token.0),
        !before.statuses.contains_key(token.0) ==> after.statuses.contains_key(token.0)
            && after.statuses[token.0] == Status::Awaited(waker),
        before.statuses.contains_key(token.0) ==> (before.statuses[token.0] matches Status::Awaited(
            stored,
        ) ==> after.statuses.contains_key(token.0) && {
            ||| will_wake.ensures((&stored,), true) && after.statuses[token.0] == Status::Awaited(
                stored,
            )
            ||| will_wake.ensures((&stored,), false) && after.statuses[token.0] == Status::Awaited(
                waker,
            )
        }),
{
    if before.statuses.contains_key(token.0) {
        if let Status::Awaited(stored) = before.statuses[token.0] {
            let same = choose|same: bool| #[trigger]
                will_wake.ensures((&stored,), same) && after == before.after_poll(
                    token,
                    waker,
                    same,
                );
            assert(same == true || same == false);
        }
    }
}

/// Many tasks can wait at once, each for its own event: when two tasks have polled two tokens that
/// nothing was known of, each event wakes the task that polled its token, and no other, whether or
/// not the other event has come.
pub proof fn law_two_tasks_wait_side_by_side<W>(
    state: ReactorState<W>,
    first: Token,
    first_waker: W,
    second: Token,
    second_waker: W,
    keep: bool,
)
    requires
        first != second,
        first.0 != WAKER_TOKEN,
        second.0 != WAKER_TOKEN,
        !state.statuses.contains_key(first.0),
        !state.statuses.contains_key(second.0),
    ensures
        ({
            let waiting = state.after_poll(first, first_waker, keep).after_poll(
                second,
                second_waker,
                keep,
            );
            &&& waiting.woken_by(first) == seq![first_waker]
            &&& waiting.woken_by(second) == seq![second_waker]
            &&& waiting.after_event(first).woken_by(second) == seq![second_waker]
            &&& waiting.after_event(second).woken_by(first) == seq![first_waker]
        }),
{
}

/// An event of a token makes that token's event one that has happened, and wakes whoever awaited it
/// and nobody else; every other status, the pending tags, the stored wakers and the counters stay as
/// they are.
pub proof fn law_event_touches_one_token<W>(state: ReactorState<W>, token: Token, other: Token)
    requires
        token.0 != WAKER_TOKEN,
        other != token,
    ensures
        ({
            let after = state.after_event(token);
            let known = state.statuses.contains_key(token.0);
            &&& after.statuses.contains_key(token.0) && after.statuses[token.0]
                == Status::<W>::Happened
            &&& after.statuses.contains_key(other.0) == state.statuses.contains_key(other.0)
            &&& state.statuses.contains_key(other.0) ==> after.statuses[other.0]
                == state.statuses[other.0]
            &&& after.pending == state.pending
            &&& after.tags == state.tags
            &&& after.next_tag == state.next_tag
            &&& after.next_token == state.next_token
            &&& !known || state.statuses[token.0] is Happened ==> state.woken_by(token).len() == 0
            &&& known ==> (state.statuses[token.0] matches Status::Awaited(waker)
                ==> state.woken_by(token).len() == 1 && state.woken_by(token)[0] == waker)
        }),
{
}

/// The event of the reactor's own waker serves the pending tags: none is pending then, and nothing
/// else changes, so that the wakers stay stored for the next time.
pub proof fn law_waker_event_serves_the_pending_tags<W>(state: ReactorState<W>)
    ensures
        ({
            let after = state.after_event(Token(WAKER_TOKEN));
            &&& after.pending.len() == 0
            &&& after.tags == state.tags
            &&& after.statuses == state.statuses
            &&& after.next_tag == state.next_tag
            &&& after.next_token == state.next_token
            &&& state.woken_by(Token(WAKER_TOKEN)) == wakers_of(state.pending, state.tags)
        }),
{
}

/// Pending tags are served in their order, each as often as it is pending: a tag alone wakes the
/// waker stored under it, or nobody if none is stored, and a stretch of tags followed by another
/// wakes the wakers of the first and then those of the second.
pub proof fn law_pending_tags_are_served_in_order<W>(
    first: Seq<ReactorTag>,
    second: Seq<ReactorTag>,
    tag: ReactorTag,
    tags: Map<usize, TagType<W>>,
)
    ensures
        wakers_of(Seq::empty(), tags) == Seq::<W>::empty(),
        !tags.contains_key(tag.0) ==> wakers_of(seq![tag], tags) == Seq::<W>::empty(),
        tags.contains_key(tag.0) ==> (tags[tag.0] matches TagType::Channel(waker) ==> wakers_of(
            seq![tag],
            tags,
        ) == seq![waker]),
        wakers_of(first + second, tags) == wakers_of(first, tags) + wakers_of(second, tags),
    decreases second.len(),
{
    assert(seq![tag].drop_last() =~= Seq::empty());
    assert(seq![tag].last() == tag);
    assert(wakers_of(seq![tag].drop_last(), tags) =~= Seq::<W>::empty());
    if second.len() == 0 {
        assert(first + second =~= first);
        assert(wakers_of(first, tags) + wakers_of(second, tags) =~= wakers_of(first, tags));
    } else {
        law_pending_tags_are_served_in_order(first, second.drop_last(), tag, tags);
        assert((first + second).drop_last() =~= first + second.drop_last());
        assert((first + second).last() == second.last());
        assert(wakers_of(first + second, tags) =~= wakers_of(first, tags) + wakers_of(second, tags));
    }
}

/// What handing out, storing, registering and removing touch: one counter, the waker under one tag,
/// the end of the pending tags, one status, and nothing else.
pub proof fn law_reactor_operations_touch_one_thing<W>(
    state: ReactorState<W>,
    tag: ReactorTag,
    token: Token,
    waker: W,
    other: usize,
)
    ensures
        ({
            let after = state.after_store(tag, waker);
            &&& after.tags.contains_key(tag.0) && after.tags[tag.0] == TagType::Channel(waker)
            &&& other != tag.0 ==> after.tags.contains_key(other) == state.tags.contains_key(other)
            &&& other != tag.0 && state.tags.contains_key(other) ==> after.tags[other]
                == state.tags[other]
            &&& after.pending == state.pending && after.statuses == state.statuses
            &&& after.next_tag == state.next_tag && after.next_token == state.next_token
            &&& after.parked(tag, waker)
        }),
        ({
            let after = state.after_remove_tag(tag);
            &&& !after.tags.contains_key(tag.0)
            &&& other != tag.0 ==> after.tags.contains_key(other) == state.tags.contains_key(other)
            &&& other != tag.0 && state.tags.contains_key(other) ==> after.tags[other]
                == state.tags[other]
            &&& after.pending == state.pending && after.statuses == state.statuses
            &&& after.next_tag == state.next_tag && after.next_token == state.next_token
            &&& forall|w: W| !after.parked(tag, w)
        }),
        ({
            let after = state.after_register(tag);
            &&& after.pending.len() == state.pending.len() + 1
            &&& after.pending.last() == tag
            &&& forall|i: int|
                0 <= i < state.pending.len() ==> #[trigger] after.pending[i] == state.pending[i]
            &&& after.tags == state.tags && after.statuses == state.statuses
            &&& after.next_tag == state.next_tag && after.next_token == state.next_token
        }),
        ({
            let after = state.after_begin();
            &&& after.pending.len() == state.pending.len() + 1
            &&& after.pending.last() == ReactorTag(state.next_tag)
            &&& forall|i: int|
                0 <= i < state.pending.len() ==> #[trigger] after.pending[i] == state.pending[i]
            &&& after.tags == state.tags && after.statuses == state.statuses
            &&& state.next_tag < usize::MAX ==> after.next_tag == state.next_tag + 1
            &&& state.next_tag == usize::MAX ==> after.next_tag == 0
            &&& after.next_token == state.next_token
        }),
        ({
            let after = state.after_status(token, Status::Awaited(waker));
            &&& after.statuses.contains_key(token.0) && after.statuses[token.0] == Status::Awaited(
                waker,
            )
            &&& other != token.0 ==> after.statuses.contains_key(other)
                == state.statuses.contains_key(other)
            &&& other != token.0 && state.statuses.contains_key(other) ==> after.statuses[other]
                == state.statuses[other]
            &&& after.pending == state.pending && after.tags == state.tags
            &&& after.next_tag == state.next_tag && after.next_token == state.next_token
        }),
        ({
            let after = state.after_tag();
            &&& state.next_tag < usize::MAX ==> after.next_tag == state.next_tag + 1
            &&& state.next_tag == usize::MAX ==> after.next_tag == 0
            &&& after.next_token == state.next_token
            &&& after.pending == state.pending && after.tags == state.tags && after.statuses
                == state.statuses
        }),
        ({
            let after = state.after_token();
            &&& state.next_token < usize::MAX ==> after.next_token == state.next_token + 1
            &&& state.next_token == usize::MAX ==> after.next_token == 0
            &&& after.next_tag == state.next_tag
            &&& after.pending == state.pending && after.tags == state.tags && after.statuses
                == state.statuses
        }),
{
}

/// A batch of events is handled one event after the other: an empty batch does nothing, a batch of
/// one is that event, and a batch followed by another does what the first does and then what the
/// second does.
pub proof fn law_batches_are_handled_in_turn<W>(
    state: ReactorState<W>,
    first: Seq<Token>,
    second: Seq<Token>,
    token: Token,
)
    ensures
        state.after_events(Seq::empty()) == state,
        state.woken_by_events(Seq::empty()) == Seq::<W>::empty(),
        state.after_events(seq![token]) == state.after_event(token),
        state.woken_by_events(seq![token]) == state.woken_by(token),
        state.after_events(first + second) == state.after_events(first).after_events(second),
        state.woken_by_events(first + second) == state.woken_by_events(first)
            + state.after_events(first).woken_by_events(second),
    decreases second.len(),
{
    assert(seq![token].drop_last() =~= Seq::empty());
    assert(seq![token].last() == token);
    assert(state.after_events(seq![token].drop_last()) == state);
    assert(state.woken_by_events(seq![token].drop_last()) =~= Seq::<W>::empty());
    assert(state.woken_by_events(seq![token]) =~= state.woken_by(token));
    if second.len() == 0 {
        assert(first + second =~= first);
        assert(state.woken_by_events(first) =~= state.woken_by_events(first) + state.after_events(
            first,
        ).woken_by_events(second));
    } else {
        law_batches_are_handled_in_turn(state, first, second.drop_last(), token);
        assert((first + second).drop_last() =~= first + second.drop_last());
        assert((first + second).last() == second.last());
        assert(state.woken_by_events(first + second) =~= state.woken_by_events(first)
            + state.after_events(first).woken_by_events(second));
    }
}

/// A batch wakes every task that waits for one of its events, and touches no other token: a token
/// that has no event in the batch keeps its status, and one that has has happened. Stored wakers and
/// counters stay as they are.
pub proof fn law_batch_wakes_those_who_wait<W>(
    state: ReactorState<W>,
    tokens: Seq<Token>,
    token: Token,
)
    requires
        token.0 != WAKER_TOKEN,
    ensures
        ({
            let after = state.after_events(tokens);
            &&& !tokens.contains(token) ==> {
                &&& after.statuses.contains_key(token.0) == state.statuses.contains_key(token.0)
                &&& state.statuses.contains_key(token.0) ==> after.statuses[token.0]
                    == state.statuses[token.0]
            }
            &&& tokens.contains(token) ==> after.statuses.contains_key(token.0)
                && after.statuses[token.0] is Happened
            &&& after.tags == state.tags
            &&& after.next_tag == state.next_tag
            &&& after.next_token == state.next_token
            &&& tokens.contains(token) && state.statuses.contains_key(token.0) ==> (
            state.statuses[token.0] matches Status::Awaited(waker) ==> state.woken_by_events(
                tokens,
            ).contains(waker))
        }),
    decreases tokens.len(),
{
    if tokens.len() > 0 {
        let earlier = tokens.drop_last();
        law_batch_wakes_those_who_wait(state, earlier, token);
        assert(tokens.last() == tokens[tokens.len() - 1]);
        assert forall|t: Token| earlier.contains(t) implies tokens.contains(t) by {
            let i = earlier.index_of(t);
            assert(tokens[i] == t);
        }
        if tokens.contains(token) && token != tokens.last() {
            let i = tokens.index_of(token);
            assert(earlier[i] == token);
        }
        if tokens.contains(token) && state.statuses.contains_key(token.0) {
            if let Status::Awaited(waker) = state.statuses[token.0] {
                let before = state.woken_by_events(earlier);
                let more = state.after_events(earlier).woken_by(tokens.last());
                let all = state.woken_by_events(tokens);
                assert(all =~= before + more);
                if earlier.contains(token) {
                    let k = before.index_of(waker);
                    assert(all[k] == waker);
                } else {
                    assert(more =~= seq![waker]);
                    assert(all[before.len() as int] == waker);
                }
            }
        }
    }
}

/// Clones stand for the wakers that they are clones of, one for one and in the same order.
pub proof fn law_clones_stand_for_their_wakers<W: Clone>(wakers: Seq<W>, copies: Seq<W>, i: int)
    requires
        clones_of(wakers, copies),
        0 <= i < wakers.len() || 0 <= i < copies.len(),
    ensures
        copies.len() == wakers.len(),
        cloned(wakers[i], copies[i]),
{
}

/// Something that happens to a reactor.
pub enum ReactorStep<W> {
    /// The token is polled by a task, whose waker may be kept out by one that is there.
    Poll(Token, W, bool),
    /// The token is stored as awaited by the waker.
    Await(Token, W),
    /// An event comes in.
    Event(Token),
    /// A waker is stored under a tag.
    Store(ReactorTag, W),
    /// A tag is registered.
    Register(ReactorTag),
    /// A tag is removed.
    Remove(ReactorTag),
    /// A tag is handed out.
    NewTag,
    /// A token is handed out.
    NewToken,
}

/// The reactor once the steps have been taken in turn.
pub open spec fn after_steps<W>(
    state: ReactorState<W>,
    steps: Seq<ReactorStep<W>>,
) -> ReactorState<W>
    decreases steps.len(),
{
    if steps.len() == 0 {
        state
    } else {
        let before = after_steps(state, steps.drop_last());
        match steps.last() {
            ReactorStep::Poll(token, waker, keep) => before.after_poll(token, waker, keep),
            ReactorStep::Await(token, waker) => before.after_status(token, Status::Awaited(waker)),
            ReactorStep::Event(token) => before.after_event(token),
            ReactorStep::Store(tag, waker) => before.after_store(tag, waker),
            ReactorStep::Register(tag) => before.after_register(tag),
            ReactorStep::Remove(tag) => before.after_remove_tag(tag),
            ReactorStep::NewTag => before.after_tag(),
            ReactorStep::NewToken => before.after_token(),
        }
    }
}

/// The step is about the token.
pub open spec fn concerns_token<W>(step: ReactorStep<W>, token: Token) -> bool {
    match step {
        ReactorStep::Poll(polled, _, _) => polled == token,
        ReactorStep::Await(awaited, _) => awaited == token,
        ReactorStep::Event(happened) => happened == token,
        _ => false,
    }
}

/// The step is about the waker stored under the tag.
pub open spec fn concerns_tag<W>(step: ReactorStep<W>, tag: ReactorTag) -> bool {
    match step {
        ReactorStep::Store(stored, _) => stored == tag,
        ReactorStep::Remove(removed) => removed == tag,
        _ => false,
    }
}

/// A task waits until its own event comes, and an event that has happened stays so until it is polled:
/// whatever else happens to the reactor, as long as nothing is about the token, its status stays the
/// same. Likewise a waker stays stored under its tag as long as nothing is about that tag.
pub proof fn law_task_waits_until_its_own_event<W>(
    state: ReactorState<W>,
    steps: Seq<ReactorStep<W>>,
    token: Token,
    tag: ReactorTag,
)
    ensures
        (forall|i: int| 0 <= i < steps.len() ==> !concerns_token(#[trigger] steps[i], token)) ==> {
            let after = after_steps(state, steps);
            &&& after.statuses.contains_key(token.0) == state.statuses.contains_key(token.0)
            &&& state.statuses.contains_key(token.0) ==> after.statuses[token.0]
                == state.statuses[token.0]
            &&& token.0 != WAKER_TOKEN ==> after.woken_by(token) == state.woken_by(token)
        },
        (forall|i: int| 0 <= i < steps.len() ==> !concerns_tag(#[trigger] steps[i], tag)) ==> {
            let after = after_steps(state, steps);
            &&& after.tags.contains_key(tag.0) == state.tags.contains_key(tag.0)
            &&& state.tags.contains_key(tag.0) ==> after.tags[tag.0] == state.tags[tag.0]
        },
    decreases steps.len(),
{
    if steps.len() > 0 {
        let earlier = steps.drop_last();
        law_task_waits_until_its_own_event(state, earlier, token, tag);
        let last = steps.len() - 1;
        assert(steps.last() == steps[last]);
        if forall|i: int| 0 <= i < steps.len() ==> !concerns_token(#[trigger] steps[i], token) {
            assert forall|i: int| 0 <= i < earlier.len() implies !concerns_token(
                #[trigger] earlier[i],
                token,
            ) by {
                assert(earlier[i] == steps[i]);
            }
            assert(!concerns_token(steps[last], token));
        }
        if forall|i: int| 0 <= i < steps.len() ==> !concerns_tag(#[trigger] steps[i], tag) {
            assert forall|i: int| 0 <= i < earlier.len() implies !concerns_tag(
                #[trigger] earlier[i],
                tag,
            ) by {
                assert(earlier[i] == steps[i]);
            }
            assert(!concerns_tag(steps[last], tag));
        }
    }
}

} // verus!
