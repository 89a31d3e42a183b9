//! A span registry that tells the time and the calling thread by itself.

use crate::model::{running_time, RegistryView};
use crate::outside::{Clock, ThreadNumbers};
use crate::registry::SpanRegistry;
use crate::state::SpanState;
use std::time::Instant;
use vstd::prelude::*;

verus! {

/// A [`SpanRegistry`] together with a clock and the numbers of the threads that have used it.
///
/// The operations are those of the registry, for the calling thread and the current time. Nothing
/// is known of either beforehand, so each operation says what it does for some thread that may be
/// calling and some time that the clock may show.
pub struct DelayedLoggerImpl<T> {
    /// The spans.
    pub registry: SpanRegistry<T>,
    /// The threads.
    pub threads: ThreadNumbers,
    /// The clock.
    pub clock: Clock,
}

impl<T> RegistryView<T> {
    /// The registry in which the thread has a stack: the next thread in line is added.
    pub open spec fn joined(self, thread: int) -> RegistryView<T> {
        if thread == self.stacks.len() {
            self.registered()
        } else {
            self
        }
    }
}

impl<T> View for DelayedLoggerImpl<T> {
    type V = RegistryView<T>;

    open spec fn view(&self) -> RegistryView<T> {
        self.registry@
    }
}

impl<T> DelayedLoggerImpl<T> {
    /// Every thread that has a number has a stack.
    pub open spec fn wf(&self) -> bool {
        &&& self.registry.wf()
        &&& forall|number: usize| #[trigger]
            self.threads@.contains(number) ==> number < self@.stacks.len()
    }

    /// The calling thread may be the given one: that is its number, or else it has none and is next
    /// in line for one.
    pub open spec fn may_be_calling(&self, thread: int) -> bool {
        &&& 0 <= thread <= self@.stacks.len()
        &&& thread < self@.stacks.len() ==> self.threads@.contains(thread as usize)
        &&& self.threads.may_tell(self@.stacks.len() as usize, thread as usize)
    }

    /// A registry without spans, whose clock starts now.
    pub fn new(silent_duration: u64) -> (logger: Self)
        ensures
            logger.wf(),
            logger@ == RegistryView::<T>::empty(silent_duration),
            logger.threads@ == Set::<usize>::empty(),
            call_ensures(Instant::now, (), logger.clock.spec_baseline()),
    {
        DelayedLoggerImpl {
            registry: SpanRegistry::new(silent_duration),
            threads: ThreadNumbers::new(),
            clock: Clock::start(),
        }
    }

    /// The number of the calling thread, which is given one if it has none.
    pub fn current_thread(&mut self) -> (thread: usize)
        requires
            old(self).wf(),
        ensures
            final(self).wf(),
            old(self).may_be_calling(thread as int),
            final(self)@ == old(self)@.joined(thread as int),
            final(self).threads@ == old(self).threads@.insert(thread),
            final(self).clock == old(self).clock,
            thread < final(self)@.stacks.len(),
    {
        let fresh = self.registry.thread_count();
        let thread = self.threads.current(fresh);
        if thread == fresh {
            self.registry.register_thread();
        }
        thread
    }

    /// The innermost span that the calling thread is in.
    pub fn current_span(&mut self) -> (id: Option<u64>)
        requires
            old(self).wf(),
        ensures
            final(self).wf(),
            final(self).clock == old(self).clock,
            exists|thread: int|
                {
                    &&& old(self).may_be_calling(thread)
                    &&& final(self).threads@ == old(self).threads@.insert(thread as usize)
                    &&& final(self)@ == #[trigger] old(self)@.joined(thread)
                    &&& id == final(self)@.current_span(thread)
                },
    {
        let thread = self.current_thread();
        self.registry.current_span(thread)
    }

    /// What is attached to the span, its parent, and for how long a thread has been in it.
    pub fn span_data(&self, id: u64) -> (found: (&T, Option<u64>, u64))
        requires
            self@.spans.contains_key(id),
        ensures
            *found.0 == self@.spans[id].data,
            found.1 == self@.spans[id].parent_id,
            exists|now: u64|
                {
                    &&& self.clock.may_show(now)
                    &&& found.2 == #[trigger] running_time(self@.spans[id].entered_time, now)
                },
    {
        let now = self.clock.now();
        self.registry.span_data(id, now)
    }

    /// Registers a span, as a child of the innermost span that the calling thread is in.
    /// `create_data` is given that span, if there is one, and returns what is attached to the new
    /// span. The result is `None`, and no span is registered, if that innermost span was deleted
    /// while the thread was in it.
    pub fn create_span<G>(&mut self, create_data: G) -> (id: Option<u64>) where
        G: FnOnce(Option<(&T, u64)>) -> T,

        requires
            old(self).wf(),
            old(self)@.next_id != 0,
            forall|thread: int|
                old(self).may_be_calling(thread) && #[trigger] old(self)@.joined(
                    thread,
                ).can_create(thread) ==> create_data.requires(
                    (old(self)@.joined(thread).parent_argument(thread),),
                ),
        ensures
            final(self).wf(),
            final(self).clock == old(self).clock,
            exists|thread: int|
                {
                    &&& old(self).may_be_calling(thread)
                    &&& final(self).threads@ == old(self).threads@.insert(thread as usize)
                    &&& if #[trigger] old(self)@.joined(thread).can_create(thread) {
                        &&& id == Some(old(self)@.next_id)
                        &&& exists|data: T|
                            {
                                &&& create_data.ensures(
                                    (old(self)@.joined(thread).parent_argument(thread),),
                                    data,
                                )
                                &&& final(self)@ == #[trigger] old(self)@.joined(thread).created(
                                    data,
                                    old(self)@.joined(thread).current_span(thread),
                                )
                            }
                    } else {
                        id is None && final(self)@ == old(self)@.joined(thread)
                    }
                },
    {
        let thread = self.current_thread();
        assert(self@ == old(self)@.joined(thread as int));
        let possible = match self.registry.current_span(thread) {
            Some(parent) => self.registry.contains(parent),
            None => true,
        };
        assert(possible == old(self)@.joined(thread as int).can_create(thread as int));
        if possible {
            Some(self.registry.create_span(thread, create_data))
        } else {
            None
        }
    }

    /// Registers a span with the given parent, wherever the calling thread is.
    pub fn create_span_with_parent(&mut self, data: T, parent: Option<u64>) -> (id: u64)
        requires
            old(self).wf(),
            old(self)@.next_id != 0,
        ensures
            final(self).wf(),
            final(self).clock == old(self).clock,
            final(self).threads == old(self).threads,
            id == old(self)@.next_id,
            final(self)@ == old(self)@.created(data, parent),
    {
        self.registry.create_span_with_parent(data, parent)
    }

    /// Adds a handle to the span.
    pub fn clone_span(&mut self, id: u64)
        requires
            old(self).wf(),
            old(self)@.spans.contains_key(id),
        ensures
            final(self).wf(),
            final(self).clock == old(self).clock,
            final(self).threads == old(self).threads,
            final(self)@ == old(self)@.cloned(id),
    {
        self.registry.clone_span(id)
    }

    /// Drops a handle to the span. The last handle takes the span with it; then the result is
    /// `true`.
    pub fn delete_span(&mut self, id: u64) -> (deleted: bool)
        requires
            old(self).wf(),
            old(self)@.spans.contains_key(id),
        ensures
            final(self).wf(),
            final(self).clock == old(self).clock,
            final(self).threads == old(self).threads,
            final(self)@ == old(self)@.deleted(id),
            deleted == (old(self)@.spans[id].ref_counter == 1),
    {
        self.registry.delete_span(id)
    }

    /// Sends a message to the span, and returns what is to be printed. The result is `None`, and
    /// nothing happens, if the permission has to be asked for and the request cannot be answered.
    pub fn send_message(&mut self, message: String, id: u64) -> (out: Option<Vec<String>>)
        requires
            old(self).wf(),
            old(self)@.is_active(id),
        ensures
            final(self).wf(),
            final(self).clock == old(self).clock,
            final(self).threads == old(self).threads,
            exists|now: u64|
                {
                    &&& old(self).clock.may_show(now)
                    &&& if #[trigger] old(self)@.can_send(id, now) {
                        &&& out matches Some(printed) && printed@ == old(self)@.send_output(
                            id,
                            message,
                            now,
                        )
                        &&& final(self)@ == old(self)@.sent(id, message, now)
                    } else {
                        out is None && final(self)@ == old(self)@
                    }
                },
    {
        let now = self.clock.now();
        if self.registry.can_send(id, now) {
            Some(self.registry.send_message(message, id, now))
        } else {
            None
        }
    }

    /// Lets the calling thread enter the span. This does not print anything.
    pub fn enter(&mut self, id: u64)
        requires
            old(self).wf(),
            old(self)@.spans.contains_key(id),
            old(self)@.spans[id].state == SpanState::Inactive,
        ensures
            final(self).wf(),
            final(self).clock == old(self).clock,
            exists|thread: int, now: u64|
                {
                    &&& old(self).may_be_calling(thread)
                    &&& final(self).threads@ == old(self).threads@.insert(thread as usize)
                    &&& old(self).clock.may_show(now)
                    &&& final(self)@ == #[trigger] old(self)@.joined(thread).entered(
                        thread,
                        id,
                        now,
                    )
                },
    {
        let thread = self.current_thread();
        let now = self.clock.now();
        self.registry.enter(thread, id, now)
    }

    /// Lets the calling thread leave the span. This does not print anything.
    pub fn exit(&mut self, id: u64)
        requires
            old(self).wf(),
            old(self)@.can_exit(id),
        ensures
            final(self).wf(),
            final(self).clock == old(self).clock,
            exists|thread: int|
                {
                    &&& old(self).may_be_calling(thread)
                    &&& final(self).threads@ == old(self).threads@.insert(thread as usize)
                    &&& final(self)@ == #[trigger] old(self)@.joined(thread).exited(thread, id)
                },
    {
        let thread = self.current_thread();
        self.registry.exit(thread, id)
    }
}

} // verus!
