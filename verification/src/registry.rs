//! The registry of spans: which spans exist, which of them each thread is in, and which of them
//! may print.

use crate::model::{
    answer_output, answerable, answered, climbs, granted, lemma_climb_after,
    lemma_climb_avoids_child, lemma_climb_continues, lemma_climb_is_bounded, lemma_climb_is_unique,
    lemma_climb_passes, lemma_passes_one_more, lemma_request_from, passes, request_from,
    running_time, RegistryView, Request, SpanView,
};
use crate::preservation::{
    lemma_answered_wf, lemma_created_wf, lemma_empty_wf, lemma_entered_wf, lemma_exited_wf, lemma_handles_wf,
    lemma_registered_wf, lemma_sent_wf, lemma_with_span_wf,
};
use crate::state::{AtomicSpanState, SpanState};
use std::collections::hash_map::Entry;
use std::collections::HashMap;
use vstd::prelude::*;

verus! {

/// A registered span.
pub struct SpanData<T> {
    data: T,
    id: u64,
    parent_id: Option<u64>,
    state: AtomicSpanState,
    /// accumulated messages; these are printed as soon as the state goes from
    /// [`SpanState::SilentPeriod`] to [`SpanState::PermissionAcquired`]
    messages: Vec<String>,
    /// the time that the last thread entered this span; zero while no thread is in the span
    entered_time: u64,
    ref_counter: u64,
}

impl<T> View for SpanData<T> {
    type V = SpanView<T>;

    closed spec fn view(&self) -> SpanView<T> {
        SpanView {
            data: self.data,
            id: self.id,
            parent_id: self.parent_id,
            state: self.state@,
            messages: self.messages@,
            entered_time: self.entered_time,
            ref_counter: self.ref_counter,
        }
    }
}

impl<T> SpanData<T> {
    /// The state cell holds a state.
    pub closed spec fn wf(&self) -> bool {
        self.state.wf()
    }

    /// A span that was never entered, with no handle to it.
    pub fn new(id: u64, parent_id: Option<u64>, data: T) -> (span: Self)
        ensures
            span.wf(),
            span@ == SpanView::fresh(id, parent_id, data),
    {
        SpanData {
            data,
            id,
            parent_id,
            state: AtomicSpanState::new(),
            messages: Vec::new(),
            entered_time: 0,
            ref_counter: 0,
        }
    }

    /// What the creator of the span attached to it.
    pub fn data(&self) -> (data: &T)
        ensures
            *data == self@.data,
    {
        &self.data
    }

    /// The number of handles to the span.
    pub fn ref_counter(&self) -> (count: u64)
        ensures
            count == self@.ref_counter,
    {
        self.ref_counter
    }

    /// Moves the messages that are held back to the end of `out`.
    pub fn log_queued_messages(&mut self, out: &mut Vec<String>)
        ensures
            final(self)@ == (SpanView { messages: Seq::empty(), ..old(self)@ }),
            final(self).wf() == old(self).wf(),
            final(out)@ == old(out)@ + old(self)@.messages,
    {
        out.append(&mut self.messages);
    }

    /// Holds a message back.
    pub fn queue_message(&mut self, message: String)
        ensures
            final(self)@ == (SpanView {
                messages: old(self)@.messages.push(message),
                ..old(self)@
            }),
            final(self).wf() == old(self).wf(),
    {
        self.messages.push(message);
    }

    /// Forgets the messages that are held back.
    pub fn discard_queued_messages(&mut self)
        ensures
            final(self)@ == (SpanView { messages: Seq::empty(), ..old(self)@ }),
            final(self).wf() == old(self).wf(),
    {
        self.messages.clear();
    }

    /// Starts the silent period at time `now`.
    pub fn enter(&mut self, now: u64)
        requires
            old(self).wf(),
            old(self)@.state == SpanState::Inactive,
        ensures
            final(self).wf(),
            final(self)@ == (SpanView {
                state: SpanState::SilentPeriod,
                entered_time: now,
                ..old(self)@
            }),
    {
        self.entered_time = now;
        self.state.init();
    }

    /// Makes the span inactive, forgets what it held back, and returns the state that it was left
    /// in.
    pub fn exit(&mut self) -> (previous: SpanState)
        requires
            old(self).wf(),
        ensures
            final(self).wf(),
            previous == old(self)@.state,
            final(self)@ == (SpanView {
                state: SpanState::Inactive,
                messages: Seq::empty(),
                entered_time: 0,
                ..old(self)@
            }),
    {
        self.discard_queued_messages();
        self.entered_time = 0;
        self.state.reset()
    }
}

/// All spans, and for each thread the spans that it is in.
pub struct SpanRegistry<T> {
    id_generator: u64,
    all_spans: HashMap<u64, SpanData<T>>,
    stacks: Vec<Vec<u64>>,
    silent_duration: u64,
}

impl<T> View for SpanRegistry<T> {
    type V = RegistryView<T>;

    closed spec fn view(&self) -> RegistryView<T> {
        RegistryView {
            next_id: self.id_generator,
            spans: self.all_spans@.map_values(|span: SpanData<T>| span@),
            stacks: self.stacks@.map_values(|stack: Vec<u64>| stack@),
            silent_duration: self.silent_duration,
        }
    }
}

impl<T> SpanRegistry<T> {
    /// The state cells hold states, and the contents are what those of every registry are.
    pub closed spec fn wf(&self) -> bool {
        &&& forall|id: u64| #[trigger]
            self.all_spans@.contains_key(id) ==> self.all_spans@[id].wf()
        &&& self@.wf()
    }

    /// What is known of the contents of every registry.
    pub proof fn lemma_wf_view(&self)
        requires
            self.wf(),
        ensures
            self@.wf(),
    {
    }

    /// A registry without spans and threads.
    pub fn new(silent_duration: u64) -> (registry: Self)
        ensures
            registry.wf(),
            registry@ == RegistryView::<T>::empty(silent_duration),
    {
        let registry = SpanRegistry {
            id_generator: 1,
            all_spans: HashMap::new(),
            stacks: Vec::new(),
            silent_duration,
        };
        proof {
            assert(registry@ =~= RegistryView::<T>::empty(silent_duration));
            lemma_empty_wf::<T>(silent_duration);
        }
        registry
    }

    /// The number of registered spans.
    pub fn span_count(&self) -> (count: usize)
        requires
            self.wf(),
        ensures
            count == self@.spans.dom().len(),
    {
        broadcast use vstd::std_specs::hash::group_hash_axioms;

        assert(self@.spans.dom() =~= self.all_spans@.dom());
        self.all_spans.len()
    }

    /// Whether there is an id left for one more span.
    pub fn has_next_id(&self) -> (left: bool)
        ensures
            left == (self@.next_id != 0),
    {
        self.id_generator != 0
    }

    /// Adds a thread that is in no span, and returns its number.
    pub fn register_thread(&mut self) -> (thread: usize)
        requires
            old(self).wf(),
        ensures
            final(self).wf(),
            final(self)@ == old(self)@.registered(),
            thread == old(self)@.stacks.len(),
    {
        let thread = self.stacks.len();
        self.stacks.push(Vec::new());
        proof {
            assert(self@ =~= old(self)@.registered());
            lemma_registered_wf(old(self)@);
        }
        thread
    }

    /// The number of threads.
    pub fn thread_count(&self) -> (count: usize)
        ensures
            count == self@.stacks.len(),
    {
        self.stacks.len()
    }

    /// The spans that the thread is in, innermost last.
    pub fn span_stack(&self, thread: usize) -> (stack: &Vec<u64>)
        requires
            thread < self@.stacks.len(),
        ensures
            stack@ == self@.stacks[thread as int],
    {
        &self.stacks[thread]
    }

    /// The innermost span that the thread is in.
    pub fn current_span(&self, thread: usize) -> (id: Option<u64>)
        requires
            thread < self@.stacks.len(),
        ensures
            id == self@.current_span(thread as int),
    {
        let stack = self.span_stack(thread);
        if stack.len() == 0 {
            None
        } else {
            Some(stack[stack.len() - 1])
        }
    }

    /// The span, if it is registered.
    fn get(&self, id: u64) -> (span: Option<&SpanData<T>>)
        ensures
            span matches Some(span) ==> self.all_spans@.contains_key(id) && *span
                == self.all_spans@[id] && self@.spans.contains_key(id) && span@ == self@.spans[id],
            span is None ==> !self.all_spans@.contains_key(id) && !self@.spans.contains_key(id),
    {
        broadcast use vstd::std_specs::hash::group_hash_axioms;

        self.all_spans.get(&id)
    }

    /// A registered span, to be changed.
    fn span_mut(&mut self, id: u64) -> (span: &mut SpanData<T>)
        requires
            old(self)@.spans.contains_key(id),
        ensures
            *span == old(self).all_spans@[id],
            old(self).wf() ==> span.wf(),
            final(self).all_spans@ == old(self).all_spans@.insert(id, *final(span)),
            final(self).id_generator == old(self).id_generator,
            final(self).stacks == old(self).stacks,
            final(self).silent_duration == old(self).silent_duration,
            final(self)@ == old(self)@.with_span(id, final(span)@),
    {
        broadcast use vstd::std_specs::hash::group_hash_axioms;

        match self.all_spans.entry(id) {
            Entry::Occupied(entry) => entry.into_mut(),
            Entry::Vacant(_) => vstd::pervasive::unreached(),
        }
    }

    /// The state and the parent of a registered span.
    fn state_and_parent(&self, id: u64) -> (found: (SpanState, Option<u64>))
        requires
            self.wf(),
            self@.spans.contains_key(id),
        ensures
            found.0 == self@.spans[id].state,
            found.1 == self@.spans[id].parent_id,
    {
        match self.get(id) {
            Some(span) => (span.state.get(), span.parent_id),
            None => vstd::pervasive::unreached(),
        }
    }

    /// What is attached to the span, its parent, and for how long a thread has been in it at time
    /// `now`.
    pub fn span_data(&self, id: u64, now: u64) -> (found: (&T, Option<u64>, u64))
        requires
            self@.spans.contains_key(id),
        ensures
            *found.0 == self@.spans[id].data,
            found.1 == self@.spans[id].parent_id,
            found.2 == running_time(self@.spans[id].entered_time, now),
    {
        match self.get(id) {
            Some(span) => (
                &span.data,
                span.parent_id,
                if now >= span.entered_time {
                    now - span.entered_time
                } else {
                    0
                },
            ),
            None => vstd::pervasive::unreached(),
        }
    }

    /// What is attached to the span, to be changed.
    pub fn data_mut(&mut self, id: u64) -> (data: &mut T)
        requires
            old(self).wf(),
            old(self)@.spans.contains_key(id),
        ensures
            *data == old(self)@.spans[id].data,
            final(self).wf(),
            final(self)@ == old(self)@.attached(id, *final(data)),
    {
        proof {
            let span = self@.spans[id];
            assert forall|data: T| #[trigger]
                self@.with_span(id, SpanView { data, ..span }).wf() by {
                lemma_with_span_wf(self@, id, SpanView { data, ..span });
            }
        }
        let span = self.span_mut(id);
        &mut span.data
    }

    /// Registers a span, as a child of the innermost span that the thread is in. `create_data`
    /// is given that span, if there is one, and returns what is attached to the new span.
    pub fn create_span<G>(&mut self, thread: usize, create_data: G) -> (id: u64) where
        G: FnOnce(Option<(&T, u64)>) -> T,

        requires
            old(self).wf(),
            old(self)@.next_id != 0,
            thread < old(self)@.stacks.len(),
            old(self)@.can_create(thread as int),
            create_data.requires((old(self)@.parent_argument(thread as int),)),
        ensures
            final(self).wf(),
            id == old(self)@.next_id,
            exists|data: T|
                create_data.ensures((old(self)@.parent_argument(thread as int),), data)
                    && #[trigger] old(self)@.created(data, old(self)@.current_span(thread as int))
                    == final(self)@,
    {
        let parent_id = self.current_span(thread);
        let data = match parent_id {
            Some(parent_id) => match self.get(parent_id) {
                Some(parent) => create_data(Some((parent.data(), parent.id))),
                None => vstd::pervasive::unreached(),
            },
            None => create_data(None),
        };
        self.create_span_with_parent(data, parent_id)
    }

    /// Registers a span with the given parent, wherever the calling thread is.
    pub fn create_span_with_parent(&mut self, data: T, parent: Option<u64>) -> (id: u64)
        requires
            old(self).wf(),
            old(self)@.next_id != 0,
        ensures
            final(self).wf(),
            id == old(self)@.next_id,
            final(self)@ == old(self)@.created(data, parent),
    {
        broadcast use vstd::std_specs::hash::group_hash_axioms;

        let id = self.id_generator;
        self.id_generator = self.id_generator.wrapping_add(1);
        let mut span = SpanData::new(id, parent, data);
        span.ref_counter = span.ref_counter.wrapping_add(1);
        self.all_spans.insert(id, span);
        proof {
            assert(self@ =~= old(self)@.created(data, parent));
            lemma_created_wf(old(self)@, data, parent);
        }
        id
    }

    /// Adds a handle to the span.
    pub fn clone_span(&mut self, id: u64)
        requires
            old(self).wf(),
            old(self)@.spans.contains_key(id),
        ensures
            final(self).wf(),
            final(self)@ == old(self)@.cloned(id),
    {
        let span = self.span_mut(id);
        span.ref_counter = span.ref_counter.wrapping_add(1);
        proof {
            assert(self@ =~= old(self)@.cloned(id));
            lemma_handles_wf(old(self)@, id);
        }
    }

    /// Drops a handle to the span. The last handle takes the span with it; then the result is
    /// `true`.
    pub fn delete_span(&mut self, id: u64) -> (deleted: bool)
        requires
            old(self).wf(),
            old(self)@.spans.contains_key(id),
        ensures
            final(self).wf(),
            final(self)@ == old(self)@.deleted(id),
            deleted == (old(self)@.spans[id].ref_counter == 1),
    {
        broadcast use vstd::std_specs::hash::group_hash_axioms;

        let span = self.span_mut(id);
        let last_ref = span.ref_counter == 1;
        span.ref_counter = span.ref_counter.wrapping_sub(1);
        if last_ref {
            self.all_spans.remove(&id);
        }
        proof {
            assert(self@ =~= old(self)@.deleted(id));
            lemma_handles_wf(old(self)@, id);
        }
        last_ref
    }

    /// Lets a thread enter the span at time `now`. This does not print anything.
    pub fn enter(&mut self, thread: usize, id: u64, now: u64)
        requires
            old(self).wf(),
            thread < old(self)@.stacks.len(),
            old(self)@.spans.contains_key(id),
            old(self)@.spans[id].state == SpanState::Inactive,
        ensures
            final(self).wf(),
            final(self)@ == old(self)@.entered(thread as int, id, now),
    {
        self.stacks[thread].push(id);
        let span = self.span_mut(id);
        span.enter(now);
        proof {
            assert(self@ =~= old(self)@.entered(thread as int, id, now));
            lemma_entered_wf(old(self)@, thread as int, id, now);
        }
    }

    /// Lets a thread leave the span. This does not print anything.
    pub fn exit(&mut self, thread: usize, id: u64)
        requires
            old(self).wf(),
            thread < old(self)@.stacks.len(),
            old(self)@.can_exit(id),
        ensures
            final(self).wf(),
            final(self)@ == old(self)@.exited(thread as int, id),
    {
        proof {
            lemma_exited_wf(old(self)@, thread as int, id);
        }
        self.stacks[thread].pop();
        let span = self.span_mut(id);
        let parent_id = span.parent_id;
        match span.exit() {
            SpanState::PermissionAcquired => {
                if let Some(parent_id) = parent_id {
                    let parent = self.span_mut(parent_id);
                    parent.state.return_permission();
                }
            },
            _ => {},
        }
        assert(self@ =~= old(self)@.exited(thread as int, id));
    }

    /// Borrows the permission from the span on behalf of a child, if possible. A span in its silent
    /// period takes it that the period is over, asks its own parent for the permission, and passes
    /// on what it gets; what it held back until then goes to the end of `out`.
    ///
    /// Returns whether the permission was lent.
    pub fn borrow_permission(&mut self, id: u64, out: &mut Vec<String>) -> (lent: bool)
        requires
            old(self).wf(),
            answerable(old(self)@.spans, Some(id)),
        ensures
            final(self).wf(),
            lent == granted(old(self)@.spans, Some(id)),
            final(self)@ == (RegistryView {
                spans: answered(old(self)@.spans, Some(id)),
                ..old(self)@
            }),
            final(out)@ == old(out)@ + answer_output(old(self)@.spans, Some(id)),
        decreases request_from(old(self)@.spans, Some(id)).run.len(),
    {
        let ghost spans = self@.spans;
        let ghost request = choose|request: Request| #[trigger]
            climbs(spans, Some(id), request) && (request.top matches Some(top)
                ==> spans[top].state != SpanState::Inactive);
        let ghost rest = Request { run: request.run.drop_first(), top: request.top };
        proof {
            lemma_request_from(spans, Some(id), request);
            lemma_climb_passes(spans, Some(id), request);
            lemma_answered_wf(self@, Some(id), request);
        }
        let (state, parent_id) = self.state_and_parent(id);
        let lent = match state {
            SpanState::SilentPeriod => {
                proof {
                    assert(climbs(spans, parent_id, rest));
                    lemma_request_from(spans, parent_id, rest);
                    lemma_climb_avoids_child(spans, id, rest);
                }
                let lent = match parent_id {
                    Some(parent_id) => self.borrow_permission(parent_id, out),
                    None => true,
                };
                assert(self@.spans[id] == spans[id]);
                assert(out@ == old(out)@ + answer_output(spans, parent_id));
                let span = self.span_mut(id);
                if lent {
                    span.state.give_and_borrow_permission();
                    span.log_queued_messages(out);
                } else {
                    span.state.deny_permission();
                }
                lent
            },
            _ => {
                let span = self.span_mut(id);
                span.state.borrow_permission()
            },
        };
        proof {
            if request.run.len() > 0 {
                assert(request.run =~= seq![id] + rest.run);
                assert forall|other: u64| request.run.contains(other) == (other == id
                    || rest.run.contains(other)) by {
                    if rest.run.contains(other) {
                        let i = rest.run.index_of(other);
                        assert(request.run[i + 1] == other);
                    }
                    if other == id {
                        assert(request.run[0] == other);
                    }
                    if request.run.contains(other) && other != id {
                        let i = request.run.index_of(other);
                        assert(rest.run[i - 1] == other);
                    }
                }
            }
            assert(self@.spans =~= answered(spans, Some(id)));
            assert(out@ =~= old(out)@ + answer_output(spans, Some(id)));
        }
        lent
    }

    /// Sends a message to the span at time `now`, and returns what is to be printed.
    ///
    /// In its silent period the span holds the message back. Once the period is over, it asks its
    /// parent for the permission; if it gets it, what was held back is printed as well.
    pub fn send_message(&mut self, message: String, id: u64, now: u64) -> (out: Vec<String>)
        requires
            old(self).wf(),
            old(self)@.can_send(id, now),
        ensures
            final(self).wf(),
            final(self)@ == old(self)@.sent(id, message, now),
            out@ == old(self)@.send_output(id, message, now),
    {
        let ghost spans = self@.spans;
        proof {
            lemma_sent_wf(self@, id, message, now);
        }
        let mut out: Vec<String> = Vec::new();
        let (state, parent_id) = self.state_and_parent(id);
        match state {
            SpanState::SilentPeriod => {
                if self.is_period_over(id, now) {
                    proof {
                        let request = choose|request: Request| #[trigger]
                            climbs(spans, parent_id, request) && (request.top matches Some(top)
                                ==> spans[top].state != SpanState::Inactive);
                        lemma_request_from(spans, parent_id, request);
                        lemma_climb_avoids_child(spans, id, request);
                        lemma_climb_passes(spans, parent_id, request);
                        if parent_id is None {
                            assert(answered(spans, parent_id) =~= spans);
                        }
                    }
                    let lent = match parent_id {
                        Some(parent_id) => self.borrow_permission(parent_id, &mut out),
                        None => true,
                    };
                    assert(out@ =~= answer_output(spans, parent_id));
                    assert(self@.spans == answered(spans, parent_id));
                    assert(self@.spans[id] == spans[id]);
                    let span = self.span_mut(id);
                    if lent {
                        span.state.give_permission();
                        span.log_queued_messages(&mut out);
                        out.push(message);
                    } else {
                        span.state.deny_permission();
                    }
                } else {
                    let span = self.span_mut(id);
                    span.queue_message(message);
                }
            },
            SpanState::PermissionAcquired => {
                out.push(message);
            },
            _ => {},
        }
        proof {
            assert(self@ =~= old(self)@.sent(id, message, now));
            assert(out@ =~= old(self)@.send_output(id, message, now));
        }
        out
    }

    /// Whether the silent period of the span is over at time `now`.
    fn is_period_over(&self, id: u64, now: u64) -> (over: bool)
        requires
            self@.spans.contains_key(id),
        ensures
            over == self@.period_over(id, now),
    {
        match self.get(id) {
            Some(span) => now as u128 >= self.silent_duration as u128 + span.entered_time as u128,
            None => vstd::pervasive::unreached(),
        }
    }

    /// Whether the span is registered.
    pub fn contains(&self, id: u64) -> (found: bool)
        ensures
            found == self@.spans.contains_key(id),
    {
        match self.get(id) {
            Some(_) => true,
            None => false,
        }
    }

    /// Whether a thread is in the span.
    pub fn is_active(&self, id: u64) -> (active: bool)
        requires
            self.wf(),
        ensures
            active == self@.is_active(id),
    {
        match self.get(id) {
            Some(span) => span.state.get() != SpanState::Inactive,
            None => false,
        }
    }

    /// Whether the span can be left.
    pub fn can_exit(&self, id: u64) -> (possible: bool)
        requires
            self.wf(),
        ensures
            possible == self@.can_exit(id),
    {
        match self.get(id) {
            Some(span) => match span.state.get() {
                SpanState::SilentPeriod | SpanState::PermissionDenied => true,
                SpanState::PermissionAcquired => match span.parent_id {
                    Some(parent_id) => self.contains(parent_id),
                    None => true,
                },
                SpanState::PermissionBorrowed | SpanState::Inactive => false,
            },
            None => false,
        }
    }

    /// Whether a message can be sent to the span at time `now`.
    pub fn can_send(&self, id: u64, now: u64) -> (possible: bool)
        requires
            self.wf(),
        ensures
            possible == self@.can_send(id, now),
    {
        if !self.is_active(id) {
            return false;
        }
        let (state, parent_id) = self.state_and_parent(id);
        if state == SpanState::SilentPeriod && self.is_period_over(id, now) {
            self.is_answerable(parent_id)
        } else {
            true
        }
    }

    /// Whether a request for the permission that starts at `start` can be answered.
    pub fn is_answerable(&self, start: Option<u64>) -> (possible: bool)
        requires
            self.wf(),
        ensures
            possible == answerable(self@.spans, start),
    {
        broadcast use vstd::std_specs::hash::group_hash_axioms;

        let ghost spans = self@.spans;
        assert(spans.dom() =~= self.all_spans@.dom());
        let count = self.all_spans.len();
        let mut current = start;
        let mut passed: usize = 0;
        let ghost mut run = Seq::<u64>::empty();
        loop
            invariant
                self.wf(),
                spans == self@.spans,
                spans.dom().finite(),
                count == spans.dom().len(),
                passed == run.len(),
                passed <= count,
                passes(spans, start, run, current),
            decreases count - passed,
        {
            let ghost ended = Request { run: Seq::empty(), top: current };
            match current {
                None => {
                    proof {
                        lemma_climb_after(spans, start, run, current, ended);
                    }
                    return true;
                },
                Some(id) => {
                    if !self.contains(id) {
                        proof {
                            assert forall|request: Request| !#[trigger]
                                climbs(spans, start, request) by {
                                if climbs(spans, start, request) {
                                    lemma_climb_continues(spans, start, run, current, request);
                                }
                            }
                        }
                        return false;
                    }
                    let (state, parent_id) = self.state_and_parent(id);
                    if state != SpanState::SilentPeriod {
                        proof {
                            lemma_climb_after(spans, start, run, current, ended);
                            let found = Request { run: run + ended.run, top: current };
                            assert forall|request: Request| #[trigger]
                                climbs(spans, start, request) implies request == found by {
                                lemma_climb_is_unique(spans, start, request, found);
                            }
                        }
                        return state != SpanState::Inactive;
                    }
                    if passed == count {
                        proof {
                            assert forall|request: Request| !#[trigger]
                                climbs(spans, start, request) by {
                                if climbs(spans, start, request) {
                                    lemma_climb_continues(spans, start, run, current, request);
                                    lemma_climb_is_bounded(spans, start, request);
                                }
                            }
                        }
                        return false;
                    }
                    proof {
                        lemma_passes_one_more(spans, start, run, id);
                        run = run.push(id);
                    }
                    current = parent_id;
                    passed = passed + 1;
                },
            }
        }
    }
}

} // verus!
