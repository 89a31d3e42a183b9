//! The mathematical model of the span registry: what its contents are, and what each operation
//! makes of them.

use crate::state::SpanState;
use vstd::prelude::*;

verus! {

/// The contents of one span.
#[verifier::ext_equal]
pub struct SpanView<T> {
    /// What the creator of the span attached to it.
    pub data: T,
    /// The id under which the span is registered.
    pub id: u64,
    /// The id of the parent span; `None` for a root.
    pub parent_id: Option<u64>,
    /// Where the span stands with respect to the permission to print.
    pub state: SpanState,
    /// The messages that are held back, oldest first.
    pub messages: Seq<String>,
    /// The time at which the span was entered, in microseconds; zero while no thread is in it.
    pub entered_time: u64,
    /// The number of handles to the span.
    pub ref_counter: u64,
}

/// The contents of a registry.
#[verifier::ext_equal]
pub struct RegistryView<T> {
    /// The id of the next span to be created; zero once all ids have been given out.
    pub next_id: u64,
    /// The registered spans by id.
    pub spans: Map<u64, SpanView<T>>,
    /// For each thread the spans that it is in, innermost last.
    pub stacks: Seq<Seq<u64>>,
    /// For how long the messages of an entered span are held back, in microseconds.
    pub silent_duration: u64,
}

/// How far a request for the permission has to climb.
#[verifier::ext_equal]
pub struct Request {
    /// The spans in their silent period that the request passes, innermost first.
    pub run: Seq<u64>,
    /// The first span above them that is not in its silent period; `None` above a root.
    pub top: Option<u64>,
}

impl Request {
    /// The span above span number `i` of the run.
    pub open spec fn above(self, i: int) -> Option<u64> {
        if i + 1 < self.run.len() {
            Some(self.run[i + 1])
        } else {
            self.top
        }
    }
}

/// The request that starts at `start` (nowhere, if that is `None`) climbs as `request` says: from
/// each span in its silent period to the parent of that span.
pub open spec fn climbs<T>(
    spans: Map<u64, SpanView<T>>,
    start: Option<u64>,
    request: Request,
) -> bool
    decreases request.run.len(),
{
    if request.run.len() == 0 {
        &&& request.top == start
        &&& start matches Some(id) ==> spans.contains_key(id) && spans[id].state
            != SpanState::SilentPeriod
    } else {
        &&& start == Some(request.run[0])
        &&& spans.contains_key(request.run[0])
        &&& spans[request.run[0]].state == SpanState::SilentPeriod
        &&& climbs(
            spans,
            spans[request.run[0]].parent_id,
            Request { run: request.run.drop_first(), top: request.top },
        )
    }
}

/// The request that starts at `start`.
pub open spec fn request_from<T>(spans: Map<u64, SpanView<T>>, start: Option<u64>) -> Request {
    choose|request: Request| climbs(spans, start, request)
}

/// The request that starts at `start` comes to an end, and at a span that a thread is in: no
/// ancestor up to there is gone or was left before its descendants.
pub open spec fn answerable<T>(spans: Map<u64, SpanView<T>>, start: Option<u64>) -> bool {
    exists|request: Request|
        {
            &&& #[trigger] climbs(spans, start, request)
            &&& request.top matches Some(id) ==> spans[id].state != SpanState::Inactive
        }
}

/// The request that starts at `start` is granted: the span at its top has the permission and does
/// not lend it already, or the request got past a root.
pub open spec fn granted<T>(spans: Map<u64, SpanView<T>>, start: Option<u64>) -> bool {
    request_from(spans, start).top matches Some(id) ==> spans[id].state
        == SpanState::PermissionAcquired
}

/// The spans after the request that starts at `start` was answered. A granted request leaves all
/// spans that it involved lending the permission, with no messages held back. A denied request
/// ends the silent period of the spans that it passed.
pub open spec fn answered<T>(spans: Map<u64, SpanView<T>>, start: Option<u64>) -> Map<
    u64,
    SpanView<T>,
> {
    let request = request_from(spans, start);
    Map::new(
        |id: u64| spans.contains_key(id),
        |id: u64|
            if request.run.contains(id) {
                if granted(spans, start) {
                    SpanView {
                        state: SpanState::PermissionBorrowed,
                        messages: Seq::empty(),
                        ..spans[id]
                    }
                } else {
                    SpanView { state: SpanState::PermissionDenied, ..spans[id] }
                }
            } else if request.top == Some(id) && granted(spans, start) {
                SpanView { state: SpanState::PermissionBorrowed, ..spans[id] }
            } else {
                spans[id]
            },
    )
}

/// The messages held back by the spans of `run`, outermost span first.
pub open spec fn held_back<T>(spans: Map<u64, SpanView<T>>, run: Seq<u64>) -> Seq<String>
    decreases run.len(),
{
    if run.len() == 0 {
        Seq::empty()
    } else {
        held_back(spans, run.drop_first()) + spans[run[0]].messages
    }
}

/// What is printed while the request that starts at `start` is answered.
pub open spec fn answer_output<T>(spans: Map<u64, SpanView<T>>, start: Option<u64>) -> Seq<String> {
    if granted(spans, start) {
        held_back(spans, request_from(spans, start).run)
    } else {
        Seq::empty()
    }
}

impl<T> SpanView<T> {
    /// A span that was never entered, with no handle to it.
    pub open spec fn fresh(id: u64, parent_id: Option<u64>, data: T) -> SpanView<T> {
        SpanView {
            data,
            id,
            parent_id,
            state: SpanState::Inactive,
            messages: Seq::empty(),
            entered_time: 0,
            ref_counter: 0,
        }
    }
}

/// How long ago the span was entered, which is never before zero.
pub open spec fn running_time(entered_time: u64, now: u64) -> int {
    if now >= entered_time {
        now - entered_time
    } else {
        0
    }
}

/// Wrapping increment of a counter.
pub open spec fn next_count(count: u64) -> u64 {
    if count == u64::MAX {
        0
    } else {
        (count + 1) as u64
    }
}

/// Wrapping decrement of a counter.
pub open spec fn previous_count(count: u64) -> u64 {
    if count == 0 {
        u64::MAX
    } else {
        (count - 1) as u64
    }
}

impl<T> RegistryView<T> {
    /// A registry without spans and threads.
    pub open spec fn empty(silent_duration: u64) -> RegistryView<T> {
        RegistryView { next_id: 1, spans: Map::empty(), stacks: Seq::empty(), silent_duration }
    }

    /// A span is registered under its own id, and that id was given out before.
    pub open spec fn ids_given_out(self) -> bool {
        forall|id: u64| #[trigger]
            self.spans.contains_key(id) ==> id != 0 && self.spans[id].id == id && (self.next_id != 0
                ==> id < self.next_id)
    }

    /// Messages are held back only by a span that has no permission, and a span that no thread is
    /// in keeps nothing of its last visit.
    pub open spec fn messages_accounted_for(self) -> bool {
        forall|id: u64| #[trigger]
            self.spans.contains_key(id) ==> {
                &&& self.spans[id].state.holds_permission() ==> self.spans[id].messages.len() == 0
                &&& self.spans[id].state == SpanState::Inactive ==> self.spans[id].messages.len()
                    == 0 && self.spans[id].entered_time == 0
            }
    }

    /// The span is registered and has the permission, itself or through a child.
    pub open spec fn holds_permission(self, id: u64) -> bool {
        self.spans.contains_key(id) && self.spans[id].state.holds_permission()
    }

    /// A span that is not a root has the permission only while its parent, if that is still
    /// registered, lends it.
    pub open spec fn permission_is_borrowed(self) -> bool {
        forall|id: u64, parent: u64|
            #![trigger self.holds_permission(id), self.spans.contains_key(parent)]
            self.holds_permission(id) && self.spans[id].parent_id == Some(parent)
                && self.spans.contains_key(parent) ==> self.spans[parent].state
                == SpanState::PermissionBorrowed
    }

    /// The parent of a span that has the permission was created at some time.
    pub open spec fn lenders_given_out(self) -> bool {
        forall|id: u64| #[trigger]
            self.holds_permission(id) && self.next_id != 0 ==> (
            self.spans[id].parent_id matches Some(parent) ==> parent < self.next_id)
    }

    /// No two children of one parent have the permission.
    pub open spec fn permission_is_exclusive(self) -> bool {
        forall|a: u64, b: u64| #[trigger]
            self.holds_permission(a) && #[trigger] self.holds_permission(b)
                && self.spans[a].parent_id is Some && self.spans[a].parent_id
                == self.spans[b].parent_id ==> a == b
    }

    /// What holds of every registry.
    pub open spec fn wf(self) -> bool {
        &&& self.ids_given_out()
        &&& self.messages_accounted_for()
        &&& self.permission_is_borrowed()
        &&& self.lenders_given_out()
        &&& self.permission_is_exclusive()
    }

    /// The innermost span that the thread is in.
    pub open spec fn current_span(self, thread: int) -> Option<u64> {
        if self.stacks[thread].len() == 0 {
            None
        } else {
            Some(self.stacks[thread].last())
        }
    }

    /// A span can be created on the thread: the span that the thread is in is registered.
    pub open spec fn can_create(self, thread: int) -> bool {
        self.current_span(thread) matches Some(parent) ==> self.spans.contains_key(parent)
    }

    /// What the creation of a span on the thread is told of the span that it is created in.
    pub open spec fn parent_argument<'a>(self, thread: int) -> Option<(&'a T, u64)> {
        match self.current_span(thread) {
            Some(parent) => Some((&self.spans[parent].data, parent)),
            None => None,
        }
    }

    /// One more thread, which is in no span.
    pub open spec fn registered(self) -> RegistryView<T> {
        RegistryView { stacks: self.stacks.push(Seq::empty()), ..self }
    }

    /// The registry with a new span, to which there is one handle.
    pub open spec fn created(self, data: T, parent_id: Option<u64>) -> RegistryView<T> {
        RegistryView {
            next_id: next_count(self.next_id),
            spans: self.spans.insert(
                self.next_id,
                SpanView { ref_counter: 1, ..SpanView::fresh(self.next_id, parent_id, data) },
            ),
            ..self
        }
    }

    /// The registry with one span replaced.
    pub open spec fn with_span(self, id: u64, span: SpanView<T>) -> RegistryView<T> {
        RegistryView { spans: self.spans.insert(id, span), ..self }
    }

    /// The registry with other data attached to the span.
    pub open spec fn attached(self, id: u64, data: T) -> RegistryView<T> {
        self.with_span(id, SpanView { data, ..self.spans[id] })
    }

    /// One more handle to the span.
    pub open spec fn cloned(self, id: u64) -> RegistryView<T> {
        self.with_span(
            id,
            SpanView { ref_counter: next_count(self.spans[id].ref_counter), ..self.spans[id] },
        )
    }

    /// One handle to the span less; the last one takes the span with it.
    pub open spec fn deleted(self, id: u64) -> RegistryView<T> {
        if self.spans[id].ref_counter == 1 {
            RegistryView { spans: self.spans.remove(id), ..self }
        } else {
            self.with_span(
                id,
                SpanView {
                    ref_counter: previous_count(self.spans[id].ref_counter),
                    ..self.spans[id]
                },
            )
        }
    }

    /// A thread has entered the span, whose silent period starts.
    pub open spec fn entered(self, thread: int, id: u64, now: u64) -> RegistryView<T> {
        RegistryView {
            spans: self.spans.insert(
                id,
                SpanView {
                    state: SpanState::SilentPeriod,
                    entered_time: now,
                    ..self.spans[id]
                },
            ),
            stacks: self.stacks.update(thread, self.stacks[thread].push(id)),
            ..self
        }
    }

    /// The stack without its innermost span, if it has one.
    pub open spec fn popped(stack: Seq<u64>) -> Seq<u64> {
        if stack.len() == 0 {
            stack
        } else {
            stack.drop_last()
        }
    }

    /// A thread has left the span: what it held back is gone, and its parent has the permission
    /// back if the span had it.
    pub open spec fn exited(self, thread: int, id: u64) -> RegistryView<T> {
        let span = self.spans[id];
        let left = self.spans.insert(
            id,
            SpanView {
                state: SpanState::Inactive,
                messages: Seq::empty(),
                entered_time: 0,
                ..span
            },
        );
        RegistryView {
            spans: match span.parent_id {
                Some(parent) if span.state == SpanState::PermissionAcquired => left.insert(
                    parent,
                    SpanView { state: SpanState::PermissionAcquired, ..self.spans[parent] },
                ),
                _ => left,
            },
            stacks: self.stacks.update(thread, Self::popped(self.stacks[thread])),
            ..self
        }
    }

    /// The span can be left: a thread is in it, no child uses its permission, and the parent that
    /// gets the permission back is registered.
    pub open spec fn can_exit(self, id: u64) -> bool {
        &&& self.spans.contains_key(id)
        &&& match self.spans[id].state {
            SpanState::SilentPeriod | SpanState::PermissionDenied => true,
            SpanState::PermissionAcquired => self.spans[id].parent_id matches Some(parent)
                ==> self.spans.contains_key(parent),
            SpanState::PermissionBorrowed | SpanState::Inactive => false,
        }
    }

    /// The silent period of the span is over at time `now`.
    pub open spec fn period_over(self, id: u64, now: u64) -> bool {
        now >= self.silent_duration + self.spans[id].entered_time
    }

    /// A thread is in the span.
    pub open spec fn is_active(self, id: u64) -> bool {
        self.spans.contains_key(id) && self.spans[id].state != SpanState::Inactive
    }

    /// A message can be sent to the span at time `now`: a thread is in it, and if the permission is
    /// to be asked for at that time, the request can be answered.
    pub open spec fn can_send(self, id: u64, now: u64) -> bool {
        &&& self.is_active(id)
        &&& self.spans[id].state == SpanState::SilentPeriod && self.period_over(id, now)
            ==> answerable(self.spans, self.spans[id].parent_id)
    }

    /// The registry after a message was sent to the span at time `now`.
    pub open spec fn sent(self, id: u64, message: String, now: u64) -> RegistryView<T> {
        let span = self.spans[id];
        if span.state != SpanState::SilentPeriod {
            self
        } else if !self.period_over(id, now) {
            self.with_span(id, SpanView { messages: span.messages.push(message), ..span })
        } else {
            let spans = answered(self.spans, span.parent_id);
            RegistryView {
                spans: if granted(self.spans, span.parent_id) {
                    spans.insert(
                        id,
                        SpanView {
                            state: SpanState::PermissionAcquired,
                            messages: Seq::empty(),
                            ..span
                        },
                    )
                } else {
                    spans.insert(id, SpanView { state: SpanState::PermissionDenied, ..span })
                },
                ..self
            }
        }
    }

    /// What is printed when a message is sent to the span at time `now`.
    pub open spec fn send_output(self, id: u64, message: String, now: u64) -> Seq<String> {
        let span = self.spans[id];
        match span.state {
            SpanState::PermissionAcquired => seq![message],
            SpanState::SilentPeriod if self.period_over(id, now) && granted(
                self.spans,
                span.parent_id,
            ) => answer_output(self.spans, span.parent_id) + span.messages + seq![message],
            _ => Seq::empty(),
        }
    }
}

/// At most one request starts at a given span.
pub proof fn lemma_climb_is_unique<T>(
    spans: Map<u64, SpanView<T>>,
    start: Option<u64>,
    a: Request,
    b: Request,
)
    requires
        climbs(spans, start, a),
        climbs(spans, start, b),
    ensures
        a == b,
    decreases a.run.len(),
{
    if a.run.len() == 0 {
        assert(a.run =~= b.run);
    } else {
        let a_rest = Request { run: a.run.drop_first(), top: a.top };
        let b_rest = Request { run: b.run.drop_first(), top: b.top };
        lemma_climb_is_unique(spans, spans[a.run[0]].parent_id, a_rest, b_rest);
        assert(a.run =~= seq![a.run[0]] + a_rest.run);
        assert(b.run =~= seq![b.run[0]] + b_rest.run);
    }
}

/// A request that climbs is the one that `request_from` names.
pub proof fn lemma_request_from<T>(
    spans: Map<u64, SpanView<T>>,
    start: Option<u64>,
    request: Request,
)
    requires
        climbs(spans, start, request),
    ensures
        request_from(spans, start) == request,
{
    lemma_climb_is_unique(spans, start, request, request_from(spans, start));
}

/// The rest of a request, from a span that it passes on, is the request that starts there.
pub proof fn lemma_climb_from<T>(
    spans: Map<u64, SpanView<T>>,
    start: Option<u64>,
    request: Request,
    i: int,
)
    requires
        climbs(spans, start, request),
        0 <= i < request.run.len(),
    ensures
        climbs(
            spans,
            Some(request.run[i]),
            Request { run: request.run.skip(i), top: request.top },
        ),
        spans.contains_key(request.run[i]),
        spans[request.run[i]].state == SpanState::SilentPeriod,
        spans[request.run[i]].parent_id == request.above(i),
    decreases i,
{
    let rest = Request { run: request.run.drop_first(), top: request.top };
    if i == 0 {
        assert(request.run.skip(0) =~= request.run);
        assert(climbs(spans, spans[request.run[0]].parent_id, rest));
    } else {
        lemma_climb_from(spans, spans[request.run[0]].parent_id, rest, i - 1);
        assert(rest.run.skip(i - 1) =~= request.run.skip(i));
    }
}

/// What holds of the spans that a request passes.
pub proof fn lemma_climb_passes<T>(
    spans: Map<u64, SpanView<T>>,
    start: Option<u64>,
    request: Request,
)
    requires
        climbs(spans, start, request),
    ensures
        request.run.no_duplicates(),
        forall|i: int|
            0 <= i < request.run.len() ==> {
                &&& spans.contains_key(#[trigger] request.run[i])
                &&& spans[request.run[i]].state == SpanState::SilentPeriod
            },
        forall|i: int|
            0 <= i < request.run.len() ==> spans[request.run[i]].parent_id
                == #[trigger] request.above(i),
        request.top matches Some(top) ==> spans.contains_key(top) && spans[top].state
            != SpanState::SilentPeriod && !request.run.contains(top),
        start == (if request.run.len() > 0 {
            Some(request.run[0])
        } else {
            request.top
        }),
    decreases request.run.len(),
{
    assert forall|i: int| 0 <= i < request.run.len() implies {
        &&& spans.contains_key(#[trigger] request.run[i])
        &&& spans[request.run[i]].state == SpanState::SilentPeriod
    } by {
        lemma_climb_from(spans, start, request, i);
    }
    assert forall|i: int| 0 <= i < request.run.len() implies spans[request.run[i]].parent_id
        == #[trigger] request.above(i) by {
        lemma_climb_from(spans, start, request, i);
    }
    assert forall|i: int, j: int| 0 <= i < j < request.run.len() implies request.run[i]
        != request.run[j] by {
        if request.run[i] == request.run[j] {
            lemma_climb_from(spans, start, request, i);
            lemma_climb_from(spans, start, request, j);
            lemma_climb_is_unique(
                spans,
                Some(request.run[i]),
                Request { run: request.run.skip(i), top: request.top },
                Request { run: request.run.skip(j), top: request.top },
            );
            assert(request.run.skip(i).len() == request.run.skip(j).len());
        }
    }
    if request.run.len() > 0 {
        let rest = Request { run: request.run.drop_first(), top: request.top };
        lemma_climb_passes(spans, spans[request.run[0]].parent_id, rest);
    }
}

/// A request on behalf of a span in its silent period does not pass that span.
pub proof fn lemma_climb_avoids_child<T>(
    spans: Map<u64, SpanView<T>>,
    child: u64,
    request: Request,
)
    requires
        spans.contains_key(child),
        spans[child].state == SpanState::SilentPeriod,
        climbs(spans, spans[child].parent_id, request),
    ensures
        !request.run.contains(child),
        request.top != Some(child),
{
    lemma_climb_passes(spans, spans[child].parent_id, request);
    let longer = Request { run: seq![child] + request.run, top: request.top };
    assert(longer.run.drop_first() =~= request.run);
    assert(climbs(spans, Some(child), longer));
    if request.run.contains(child) {
        let i = request.run.index_of(child);
        lemma_climb_from(spans, spans[child].parent_id, request, i);
        lemma_climb_is_unique(
            spans,
            Some(child),
            longer,
            Request { run: request.run.skip(i), top: request.top },
        );
        assert(request.run.skip(i).len() == longer.run.len());
    }
}

/// A request passes no more spans than there are.
pub proof fn lemma_climb_is_bounded<T>(
    spans: Map<u64, SpanView<T>>,
    start: Option<u64>,
    request: Request,
)
    requires
        climbs(spans, start, request),
        spans.dom().finite(),
    ensures
        request.run.len() <= spans.dom().len(),
{
    lemma_climb_passes(spans, start, request);
    request.run.unique_seq_to_set();
    assert(request.run.to_set().subset_of(spans.dom()));
    vstd::set_lib::lemma_len_subset(request.run.to_set(), spans.dom());
}

/// From `start` on, the spans of `run` are in their silent period, and `current` is above them.
pub open spec fn passes<T>(
    spans: Map<u64, SpanView<T>>,
    start: Option<u64>,
    run: Seq<u64>,
    current: Option<u64>,
) -> bool
    decreases run.len(),
{
    if run.len() == 0 {
        start == current
    } else {
        &&& start == Some(run[0])
        &&& spans.contains_key(run[0])
        &&& spans[run[0]].state == SpanState::SilentPeriod
        &&& passes(spans, spans[run[0]].parent_id, run.drop_first(), current)
    }
}

/// One more span in its silent period is passed.
pub proof fn lemma_passes_one_more<T>(
    spans: Map<u64, SpanView<T>>,
    start: Option<u64>,
    run: Seq<u64>,
    id: u64,
)
    requires
        passes(spans, start, run, Some(id)),
        spans.contains_key(id),
        spans[id].state == SpanState::SilentPeriod,
    ensures
        passes(spans, start, run.push(id), spans[id].parent_id),
    decreases run.len(),
{
    if run.len() == 0 {
        assert(run.push(id).drop_first() =~= Seq::empty());
        assert(passes(spans, spans[id].parent_id, Seq::empty(), spans[id].parent_id));
    } else {
        lemma_passes_one_more(spans, spans[run[0]].parent_id, run.drop_first(), id);
        assert(run.push(id).drop_first() =~= run.drop_first().push(id));
    }
}

/// After the spans of `run`, the request that starts at `start` is the one that starts at
/// `current`.
pub proof fn lemma_climb_after<T>(
    spans: Map<u64, SpanView<T>>,
    start: Option<u64>,
    run: Seq<u64>,
    current: Option<u64>,
    rest: Request,
)
    requires
        passes(spans, start, run, current),
        climbs(spans, current, rest),
    ensures
        climbs(spans, start, Request { run: run + rest.run, top: rest.top }),
    decreases run.len(),
{
    if run.len() == 0 {
        assert(run + rest.run =~= rest.run);
    } else {
        lemma_climb_after(spans, spans[run[0]].parent_id, run.drop_first(), current, rest);
        assert((run + rest.run).drop_first() =~= run.drop_first() + rest.run);
    }
}

/// A request that starts at `start` passes the spans of `run` first.
pub proof fn lemma_climb_continues<T>(
    spans: Map<u64, SpanView<T>>,
    start: Option<u64>,
    run: Seq<u64>,
    current: Option<u64>,
    request: Request,
)
    requires
        passes(spans, start, run, current),
        climbs(spans, start, request),
    ensures
        request.run.len() >= run.len(),
        climbs(
            spans,
            current,
            Request { run: request.run.skip(run.len() as int), top: request.top },
        ),
    decreases run.len(),
{
    if run.len() == 0 {
        assert(request.run.skip(0) =~= request.run);
    } else {
        let rest = Request { run: request.run.drop_first(), top: request.top };
        lemma_climb_continues(
            spans,
            spans[run[0]].parent_id,
            run.drop_first(),
            current,
            rest,
        );
        assert(rest.run.skip(run.len() - 1) =~= request.run.skip(run.len() as int));
    }
}

/// A request that got past a root is at its end.
pub broadcast proof fn lemma_request_above_root<T>(spans: Map<u64, SpanView<T>>, start: Option<u64>)
    requires
        start is None,
    ensures
        #![trigger request_from(spans, start)]
        #![trigger answerable(spans, start)]
        request_from(spans, start) == (Request { run: Seq::empty(), top: None }),
        answerable(spans, start),
{
    let request = Request { run: Seq::empty(), top: None };
    assert(climbs(spans, start, request));
    lemma_request_from(spans, start, request);
}

/// A request ends at a span that is not in its silent period, and is answered there if a thread is
/// in the span.
pub broadcast proof fn lemma_request_at_top<T>(spans: Map<u64, SpanView<T>>, start: Option<u64>)
    requires
        start is Some,
        spans.contains_key(start->0),
        spans[start->0].state != SpanState::SilentPeriod,
    ensures
        #![trigger request_from(spans, start)]
        #![trigger answerable(spans, start)]
        request_from(spans, start) == (Request { run: Seq::empty(), top: start }),
        answerable(spans, start) == (spans[start->0].state != SpanState::Inactive),
{
    let request = Request { run: Seq::empty(), top: start };
    assert(climbs(spans, start, request));
    lemma_request_from(spans, start, request);
    assert forall|other: Request| #[trigger] climbs(spans, start, other) implies other == request by {
        lemma_request_from(spans, start, other);
    }
}

/// A request passes a span in its silent period, and goes on as one that starts at the parent.
pub broadcast proof fn lemma_request_passes<T>(spans: Map<u64, SpanView<T>>, start: Option<u64>)
    requires
        start is Some,
        spans.contains_key(start->0),
        spans[start->0].state == SpanState::SilentPeriod,
        answerable(spans, spans[start->0].parent_id),
    ensures
        #![trigger request_from(spans, start)]
        #![trigger answerable(spans, start)]
        request_from(spans, start) == (Request {
            run: seq![start->0] + request_from(spans, spans[start->0].parent_id).run,
            top: request_from(spans, spans[start->0].parent_id).top,
        }),
        answerable(spans, start),
{
    let parent_id = spans[start->0].parent_id;
    let rest = choose|rest: Request| #[trigger]
        climbs(spans, parent_id, rest) && (rest.top matches Some(top) ==> spans[top].state
            != SpanState::Inactive);
    let request = Request { run: seq![start->0] + rest.run, top: rest.top };
    assert(request.run.drop_first() =~= rest.run);
    assert(climbs(spans, start, request));
    lemma_request_from(spans, parent_id, rest);
    lemma_request_from(spans, start, request);
}

/// A run holds back what its outer spans hold back, and then what its innermost span does.
pub broadcast proof fn lemma_held_back_innermost<T>(
    spans: Map<u64, SpanView<T>>,
    id: u64,
    outer: Seq<u64>,
)
    ensures
        #[trigger] held_back(spans, seq![id] + outer) == held_back(spans, outer)
            + spans[id].messages,
{
    assert((seq![id] + outer).drop_first() =~= outer);
}

/// How requests are followed step by step.
pub broadcast group group_requests {
    lemma_held_back_innermost,
    lemma_request_above_root,
    lemma_request_at_top,
    lemma_request_passes,
}

} // verus!
