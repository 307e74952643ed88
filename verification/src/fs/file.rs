//! Opening files without blocking an executor: the operation runs in a thread pool, and the task
//! that awaits it is woken through the reactor.
use crate::reactor::{Reactor, ReactorState, ReactorTag, Token};
use crate::reactor::{MAX_PENDING_TAGS, WAKER_TOKEN};
use vstd::prelude::*;

verus! {

/// A file that was opened; `H` is the handle of the operating system.
#[derive(Debug)]
pub struct HoochFile<H> {
    pub handle: H,
}

/// The file operation to be performed.
#[derive(Debug)]
pub enum FileOperation<O> {
    Create,
    Open,
    /// Open with the given options.
    Option(O),
}

/// An opening that goes on. `P` names the file, `O` are options to open it with, `H` is a handle
/// of the operating system and `E` an error of it.
#[derive(Debug)]
pub struct AsyncHoochFile<P, O, H, E> {
    pub path: P,
    pub file_operation: Option<FileOperation<O>>,
    pub reactor_tag: ReactorTag,
    pub file_handle: Option<Result<HoochFile<H>, E>>,
    pub has_polled: bool,
}

/// What polling an opening comes to.
pub enum FilePoll<P, O, H, E> {
    /// The operation is to be performed on the file in the thread pool; until it is, the opening
    /// is pending.
    Start(FileOperation<O>, P),
    Pending,
    Ready(Result<HoochFile<H>, E>),
}

/// An opening that was not polled yet.
pub open spec fn fresh<P, O, H, E>(
    path: P,
    operation: FileOperation<O>,
    reactor_tag: ReactorTag,
) -> AsyncHoochFile<P, O, H, E> {
    AsyncHoochFile {
        path,
        file_operation: Some(operation),
        reactor_tag,
        file_handle: None,
        has_polled: false,
    }
}

impl<P, O, H, E> AsyncHoochFile<P, O, H, E> {
    /// The operation is kept until the opening is polled.
    pub open spec fn wf(&self) -> bool {
        self.file_operation is Some <==> !self.has_polled
    }

    /// The opening once it has been polled.
    pub open spec fn after_poll(self) -> AsyncHoochFile<P, O, H, E> {
        if !self.has_polled {
            AsyncHoochFile { has_polled: true, file_operation: None, ..self }
        } else {
            AsyncHoochFile { file_handle: None, ..self }
        }
    }

    /// The reactor once the opening has been polled: the first poll leaves the task waiting.
    pub open spec fn reactor_after_poll<W>(
        self,
        reactor: ReactorState<W>,
        waker: W,
    ) -> ReactorState<W> {
        if !self.has_polled {
            reactor.after_register(self.reactor_tag).after_store(self.reactor_tag, waker)
        } else {
            reactor
        }
    }

    /// The opening once the operation has been performed.
    pub open spec fn after_complete(self, result: Result<H, E>) -> AsyncHoochFile<P, O, H, E> {
        AsyncHoochFile {
            file_handle: Some(
                match result {
                    Ok(handle) => Ok(HoochFile { handle }),
                    Err(error) => Err(error),
                },
            ),
            ..self
        }
    }

    /// Begins an opening.
    fn begin<W>(path: P, operation: FileOperation<O>, reactor: &mut Reactor<W>) -> (opening: Self)
        requires
            old(reactor).wf(),
            old(reactor)@.pending.len() < MAX_PENDING_TAGS,
        ensures
            final(reactor).wf(),
            final(reactor)@ == old(reactor)@.after_begin(),
            opening == fresh::<P, O, H, E>(path, operation, ReactorTag(old(reactor)@.next_tag)),
    {
        let reactor_tag = reactor.generate_reactor_tag();
        reactor.register_reactor_tag(reactor_tag);
        AsyncHoochFile {
            path,
            file_operation: Some(operation),
            reactor_tag,
            file_handle: None,
            has_polled: false,
        }
    }

    /// Opens a file with the given options.
    pub fn open_path<W>(options: O, path: P, reactor: &mut Reactor<W>) -> (opening: Self)
        requires
            old(reactor).wf(),
            old(reactor)@.pending.len() < MAX_PENDING_TAGS,
        ensures
            final(reactor).wf(),
            final(reactor)@ == old(reactor)@.after_begin(),
            opening == fresh::<P, O, H, E>(
                path,
                FileOperation::Option(options),
                ReactorTag(old(reactor)@.next_tag),
            ),
    {
        Self::begin(path, FileOperation::Option(options), reactor)
    }

    /// Takes note of the result of the operation. The tag is registered with the reactor, which
    /// is to be woken, so that the task polls again.
    pub fn complete<W>(&mut self, result: Result<H, E>, reactor: &mut Reactor<W>)
        requires
            old(reactor).wf(),
            old(reactor)@.pending.len() < MAX_PENDING_TAGS,
        ensures
            final(reactor).wf(),
            *final(self) == old(self).after_complete(result),
            final(reactor)@ == old(reactor)@.after_register(old(self).reactor_tag),
    {
        self.file_handle = Some(
            match result {
                Ok(handle) => Ok(HoochFile { handle }),
                Err(error) => Err(error),
            },
        );
        reactor.register_reactor_tag(self.reactor_tag);
    }
}

impl<H> HoochFile<H> {
    /// Opens a file at the specified path.
    pub fn open<P, O, E, W>(path: P, reactor: &mut Reactor<W>) -> (opening: AsyncHoochFile<P, O, H, E>)
        requires
            old(reactor).wf(),
            old(reactor)@.pending.len() < MAX_PENDING_TAGS,
        ensures
            final(reactor).wf(),
            final(reactor)@ == old(reactor)@.after_begin(),
            opening == fresh::<P, O, H, E>(
                path,
                FileOperation::Open,
                ReactorTag(old(reactor)@.next_tag),
            ),
    {
        AsyncHoochFile::begin(path, FileOperation::Open, reactor)
    }

    /// Creates a file at the specified path.
    pub fn create<P, O, E, W>(path: P, reactor: &mut Reactor<W>) -> (opening: AsyncHoochFile<
        P,
        O,
        H,
        E,
    >)
        requires
            old(reactor).wf(),
            old(reactor)@.pending.len() < MAX_PENDING_TAGS,
        ensures
            final(reactor).wf(),
            final(reactor)@ == old(reactor)@.after_begin(),
            opening == fresh::<P, O, H, E>(
                path,
                FileOperation::Create,
                ReactorTag(old(reactor)@.next_tag),
            ),
    {
        AsyncHoochFile::begin(path, FileOperation::Create, reactor)
    }
}

impl<P: Clone, O, H, E> AsyncHoochFile<P, O, H, E> {
    /// Polls the opening. The first poll starts the operation and leaves the task waiting; a later
    /// one gives the result away, if it is there.
    pub fn poll<W>(&mut self, reactor: &mut Reactor<W>, waker: W) -> (polled: FilePoll<P, O, H, E>)
        requires
            old(self).wf(),
            old(reactor).wf(),
            !old(self).has_polled ==> old(reactor)@.pending.len() < MAX_PENDING_TAGS,
        ensures
            final(self).wf(),
            final(reactor).wf(),
            *final(self) == old(self).after_poll(),
            final(reactor)@ == old(self).reactor_after_poll(old(reactor)@, waker),
            !old(self).has_polled ==> (polled matches FilePoll::Start(operation, path)
                && operation == old(self).file_operation.unwrap() && cloned(old(self).path, path)),
            old(self).has_polled ==> polled == (match old(self).file_handle {
                Some(result) => FilePoll::<P, O, H, E>::Ready(result),
                None => FilePoll::<P, O, H, E>::Pending,
            }),
    {
        if !self.has_polled {
            self.has_polled = true;
            reactor.register_reactor_tag(self.reactor_tag);
            reactor.store_waker_channel(self.reactor_tag, waker);
            let path = self.path.clone();
            let file_operation = self.file_operation.take().unwrap();
            return FilePoll::Start(file_operation, path);
        }
        match self.file_handle.take() {
            None => FilePoll::Pending,
            Some(file_result) => FilePoll::Ready(file_result),
        }
    }
}

/// The operation is started once, by the first poll, whatever happens later.
pub proof fn law_operation_starts_once<P, O, H, E>(
    opening: AsyncHoochFile<P, O, H, E>,
    result: Result<H, E>,
)
    requires
        opening.has_polled,
    ensures
        opening.after_poll().has_polled,
        opening.after_complete(result).has_polled,
{
}

/// Once the operation has been performed the task is woken: at the next event of the reactor's own
/// waker, if the waker of its first poll is still stored. Polling then gives the result, and only
/// once.
pub proof fn law_completed_opening_resolves<P, O, H, E, W>(
    opening: AsyncHoochFile<P, O, H, E>,
    reactor: ReactorState<W>,
    waker: W,
    result: Result<H, E>,
)
    requires
        opening.has_polled,
        reactor.parked(opening.reactor_tag, waker),
    ensures
        reactor.after_register(opening.reactor_tag).woken_by(Token(WAKER_TOKEN)).contains(waker),
        opening.after_complete(result).file_handle matches Some(given) && match result {
            Ok(handle) => given == Ok::<HoochFile<H>, E>(HoochFile { handle }),
            Err(error) => given == Err::<HoochFile<H>, E>(error),
        },
        opening.after_complete(result).after_poll().file_handle is None,
{
    crate::reactor::law_registered_tag_wakes(reactor, opening.reactor_tag, waker);
}

/// The first poll leaves the task's waker under the tag of the opening, and what is performed
/// later leaves it there.
pub proof fn law_first_poll_parks_the_task<P, O, H, E, W>(
    opening: AsyncHoochFile<P, O, H, E>,
    reactor: ReactorState<W>,
    waker: W,
    token: Token,
)
    requires
        !opening.has_polled,
    ensures
        opening.reactor_after_poll(reactor, waker).parked(opening.reactor_tag, waker),
        opening.reactor_after_poll(reactor, waker).after_event(token).parked(
            opening.reactor_tag,
            waker,
        ),
{
}

/// An opening keeps what it was given until it is due: the path, the operation and the tag that it
/// began with, and the result that the operation came to, which it gives away once.
pub proof fn law_opening_keeps_what_it_was_given<P, O, H, E>(
    opening: AsyncHoochFile<P, O, H, E>,
    path: P,
    operation: FileOperation<O>,
    tag: ReactorTag,
    handle: H,
    error: E,
)
    ensures
        ({
            let begun = fresh::<P, O, H, E>(path, operation, tag);
            &&& begun.path == path
            &&& begun.file_operation == Some(operation)
            &&& begun.reactor_tag == tag
            &&& begun.file_handle is None
            &&& !begun.has_polled
            &&& begun.wf()
        }),
        opening.wf() <==> (opening.file_operation is None <==> opening.has_polled),
        ({
            let after = opening.after_poll();
            &&& after.path == opening.path
            &&& after.reactor_tag == opening.reactor_tag
            &&& after.has_polled
            &&& !opening.has_polled ==> after.file_operation is None && after.file_handle
                == opening.file_handle
            &&& opening.has_polled ==> after.file_handle is None && after.file_operation
                == opening.file_operation
        }),
        opening.after_complete(Ok(handle)).file_handle == Some(
            Ok::<HoochFile<H>, E>(HoochFile { handle }),
        ),
        opening.after_complete(Err(error)).file_handle == Some(Err::<HoochFile<H>, E>(error)),
        ({
            let after = opening.after_complete(Ok(handle));
            &&& after.path == opening.path && after.file_operation == opening.file_operation
            &&& after.reactor_tag == opening.reactor_tag && after.has_polled == opening.has_polled
        }),
        ({
            let after = opening.after_complete(Err(error));
            &&& after.path == opening.path && after.file_operation == opening.file_operation
            &&& after.reactor_tag == opening.reactor_tag && after.has_polled == opening.has_polled
        }),
{
}

/// What polling an opening does to the reactor: the first poll makes the opening's tag pending and
/// stores the waker under it; no other tag, no status and no counter changes, and a later poll changes
/// nothing.
pub proof fn law_opening_touches_its_own_tag<P, O, H, E, W>(
    opening: AsyncHoochFile<P, O, H, E>,
    reactor: ReactorState<W>,
    waker: W,
    other: usize,
)
    requires
        other != opening.reactor_tag.0,
    ensures
        ({
            let after = opening.reactor_after_poll(reactor, waker);
            &&& opening.has_polled ==> after == reactor
            &&& !opening.has_polled ==> {
                &&& after.pending == reactor.pending.push(opening.reactor_tag)
                &&& after.tags.contains_key(opening.reactor_tag.0)
                &&& after.tags[opening.reactor_tag.0] == crate::reactor::TagType::Channel(waker)
            }
            &&& after.tags.contains_key(other) == reactor.tags.contains_key(other)
            &&& reactor.tags.contains_key(other) ==> after.tags[other] == reactor.tags[other]
            &&& after.statuses == reactor.statuses
            &&& after.next_tag == reactor.next_tag && after.next_token == reactor.next_token
        }),
{
}

} // verus!
