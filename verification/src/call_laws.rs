//! What each call on a registry does, for every registry and every argument.

use crate::model::{answer_output, answerable, answered, granted, RegistryView, SpanView};
use crate::registry::{SpanData, SpanRegistry};
use crate::request_laws::law_request_past_a_root;
use crate::state::{AtomicSpanState, SpanState};
use vstd::prelude::*;

verus! {

/// Nothing but the one span is different.
pub open spec fn only_span_changed<T>(
    before: RegistryView<T>,
    after: RegistryView<T>,
    id: u64,
) -> bool {
    &&& before.spans.contains_key(id)
    &&& after.spans == before.spans.insert(id, after.spans[id])
    &&& after.stacks == before.stacks
    &&& after.next_id == before.next_id
    &&& after.silent_duration == before.silent_duration
}

/// A message to a span that has the permission to itself is printed, alone and at once, whatever the
/// time is, and changes nothing.
pub proof fn law_message_with_permission_is_printed<T>(
    registry: &mut SpanRegistry<T>,
    message: String,
    id: u64,
    now: u64,
    out: Vec<String>,
)
    requires
        call_ensures(SpanRegistry::<T>::send_message, (registry, message, id, now), out),
        old(registry)@.spans.contains_key(id),
        old(registry)@.spans[id].state == SpanState::PermissionAcquired,
    ensures
        out@ == seq![message],
        final(registry)@ == old(registry)@,
{
}

/// A message to a span that lends the permission, or was denied it, is lost, and changes nothing.
pub proof fn law_message_without_permission_is_lost<T>(
    registry: &mut SpanRegistry<T>,
    message: String,
    id: u64,
    now: u64,
    out: Vec<String>,
)
    requires
        call_ensures(SpanRegistry::<T>::send_message, (registry, message, id, now), out),
        old(registry)@.spans.contains_key(id),
        old(registry)@.spans[id].state == SpanState::PermissionDenied || old(registry)@.spans[id].state == SpanState::PermissionBorrowed,
    ensures
        out@.len() == 0,
        final(registry)@ == old(registry)@,
{
}

/// A message to a span in its silent period, before that is over, is held back after those that are
/// held back already, and changes nothing else; nothing is printed.
pub proof fn law_message_in_silent_period_is_held_back<T>(
    registry: &mut SpanRegistry<T>,
    message: String,
    id: u64,
    now: u64,
    out: Vec<String>,
)
    requires
        call_ensures(SpanRegistry::<T>::send_message, (registry, message, id, now), out),
        old(registry)@.spans.contains_key(id),
        old(registry)@.spans[id].state == SpanState::SilentPeriod,
        now < old(registry)@.silent_duration + old(registry)@.spans[id].entered_time,
    ensures
        out@.len() == 0,
        only_span_changed(old(registry)@, final(registry)@, id),
        final(registry)@.spans[id] == (SpanView {
            messages: old(registry)@.spans[id].messages.push(message),
            ..old(registry)@.spans[id]
        }),
{
}

/// A message to a root whose silent period is over is printed after all that the root held back; the
/// root has the permission then, and holds nothing back.
pub proof fn law_message_after_silent_period_of_a_root<T>(
    registry: &mut SpanRegistry<T>,
    message: String,
    id: u64,
    now: u64,
    out: Vec<String>,
)
    requires
        call_ensures(SpanRegistry::<T>::send_message, (registry, message, id, now), out),
        old(registry)@.spans.contains_key(id),
        old(registry)@.spans[id].state == SpanState::SilentPeriod,
        old(registry)@.spans[id].parent_id is None,
        now >= old(registry)@.silent_duration + old(registry)@.spans[id].entered_time,
    ensures
        out@ == old(registry)@.spans[id].messages.push(message),
        only_span_changed(old(registry)@, final(registry)@, id),
        final(registry)@.spans[id] == (SpanView {
            state: SpanState::PermissionAcquired,
            messages: Seq::empty(),
            ..old(registry)@.spans[id]
        }),
{
    law_request_past_a_root(registry@.spans);
    assert(out@ =~= registry@.spans[id].messages.push(message));
}

/// A message to any other span whose silent period is over asks the parent for the permission: what
/// the parent's answer prints comes first, then what the span held back, then the message; or
/// nothing, if the parent does not lend the permission. But for the span itself, all is as the parent
/// leaves it.
pub proof fn law_message_after_silent_period_asks_the_parent<T>(
    registry: &mut SpanRegistry<T>,
    message: String,
    id: u64,
    now: u64,
    out: Vec<String>,
    asked: &mut SpanRegistry<T>,
    parent: u64,
    parent_out: &mut Vec<String>,
    lent: bool,
)
    requires
        call_ensures(SpanRegistry::<T>::send_message, (registry, message, id, now), out),
        call_ensures(SpanRegistry::<T>::borrow_permission, (asked, parent, parent_out), lent),
        old(asked)@ == old(registry)@,
        old(parent_out)@.len() == 0,
        old(registry)@.spans.contains_key(id),
        old(registry)@.spans[id].state == SpanState::SilentPeriod,
        old(registry)@.spans[id].parent_id == Some(parent),
        now >= old(registry)@.silent_duration + old(registry)@.spans[id].entered_time,
    ensures
        lent ==> {
            &&& out@ == final(parent_out)@ + old(registry)@.spans[id].messages.push(message)
            &&& final(registry)@.spans == final(asked)@.spans.insert(
                id,
                SpanView {
                    state: SpanState::PermissionAcquired,
                    messages: Seq::empty(),
                    ..old(registry)@.spans[id]
                },
            )
        },
        !lent ==> {
            &&& out@.len() == 0
            &&& final(registry)@.spans == final(asked)@.spans.insert(
                id,
                SpanView {
                    state: SpanState::PermissionDenied,
                    ..old(registry)@.spans[id]
                },
            )
        },
        final(registry)@.stacks == old(registry)@.stacks,
        final(registry)@.next_id == old(registry)@.next_id,
        final(registry)@.silent_duration == old(registry)@.silent_duration,
{
    let held = registry@.spans[id].messages;
    let above = answer_output(registry@.spans, Some(parent));
    assert(parent_out@ + above =~= above);
    assert(above + held + seq![message] =~= above + held.push(message));
}

/// What comes of a message, in all cases, `out` being what is printed:
///  - no thread is in the span: it cannot be told anything, and nothing changes;
///  - the span has the permission to itself: the message is printed, and nothing changes;
///  - it lends the permission or was denied it: nothing is printed, and nothing changes;
///  - its silent period is not over: nothing is printed, and the message is the last of those that are
///    held back;
///  - its silent period is over and it is a root: what it held back is printed, and then the message, and
///    it has the permission;
///  - its silent period is over and it has a parent: the parent is asked. If that can be answered, and
///    the permission is lent, what the answer prints comes first, then what the span held back, then the
///    message; if it is not lent, nothing is printed, and the span is denied the permission.
pub open spec fn message_told<T>(
    before: RegistryView<T>,
    after: RegistryView<T>,
    id: u64,
    message: String,
    now: u64,
    out: Option<Seq<String>>,
) -> bool {
    let span = before.spans[id];
    match span.state {
        SpanState::Inactive => out is None && after == before,
        SpanState::PermissionAcquired => out == Some(seq![message]) && after == before,
        SpanState::PermissionDenied | SpanState::PermissionBorrowed => {
            &&& out matches Some(printed) && printed.len() == 0
            &&& after == before
        },
        SpanState::SilentPeriod => if now < before.silent_duration + span.entered_time {
            &&& out matches Some(printed) && printed.len() == 0
            &&& only_span_changed(before, after, id)
            &&& after.spans[id] == (SpanView { messages: span.messages.push(message), ..span })
        } else {
            match span.parent_id {
                None => {
                    &&& out == Some(span.messages.push(message))
                    &&& only_span_changed(before, after, id)
                    &&& after.spans[id] == (SpanView {
                        state: SpanState::PermissionAcquired,
                        messages: Seq::empty(),
                        ..span
                    })
                },
                Some(parent) => if !answerable(before.spans, Some(parent)) {
                    out is None && after == before
                } else if granted(before.spans, Some(parent)) {
                    &&& out == Some(
                        answer_output(before.spans, Some(parent)) + span.messages.push(message),
                    )
                    &&& after == (RegistryView {
                        spans: answered(before.spans, Some(parent)).insert(
                            id,
                            SpanView {
                                state: SpanState::PermissionAcquired,
                                messages: Seq::empty(),
                                ..span
                            },
                        ),
                        ..before
                    })
                } else {
                    &&& out matches Some(printed) && printed.len() == 0
                    &&& after == (RegistryView {
                        spans: answered(before.spans, Some(parent)).insert(
                            id,
                            SpanView { state: SpanState::PermissionDenied, ..span },
                        ),
                        ..before
                    })
                },
            }
        },
    }
}

/// A message to a registered span comes to what it has to come to, or cannot be sent.
pub proof fn law_outcome_of_a_message<T>(
    registry: RegistryView<T>,
    id: u64,
    message: String,
    now: u64,
)
    requires
        registry.spans.contains_key(id),
    ensures
        registry.can_send(id, now) ==> message_told(
            registry,
            registry.sent(id, message, now),
            id,
            message,
            now,
            Some(registry.send_output(id, message, now)),
        ),
        !registry.can_send(id, now) ==> message_told(registry, registry, id, message, now, None),
{
    law_request_past_a_root(registry.spans);
    let span = registry.spans[id];
    let output = registry.send_output(id, message, now);
    if registry.can_send(id, now) && span.state == SpanState::SilentPeriod && now
        >= registry.silent_duration + span.entered_time {
        match span.parent_id {
            None => {
                assert(output =~= span.messages.push(message));
            },
            Some(parent) => {
                if granted(registry.spans, Some(parent)) {
                    assert(output =~= answer_output(registry.spans, Some(parent))
                        + span.messages.push(message));
                }
            },
        }
    }
}

/// A message can be sent to every span that a thread is in, but for one whose silent period is over
/// and whose request for the permission cannot be answered.
pub proof fn law_when_a_message_can_be_sent<T>(
    registry: SpanRegistry<T>,
    id: u64,
    now: u64,
    possible: bool,
    above: bool,
)
    requires
        call_ensures(SpanRegistry::<T>::can_send, (&registry, id, now), possible),
        call_ensures(
            SpanRegistry::<T>::is_answerable,
            (&registry, registry@.spans[id].parent_id),
            above,
        ),
    ensures
        possible == (registry@.spans.contains_key(id) && (match registry@.spans[id].state {
            SpanState::Inactive => false,
            SpanState::SilentPeriod => now < registry@.silent_duration
                + registry@.spans[id].entered_time || above,
            SpanState::PermissionAcquired => true,
            SpanState::PermissionDenied => true,
            SpanState::PermissionBorrowed => true,
        })),
{
}

/// Entering a span starts its silent period at the time of entry and makes it the innermost span of
/// the thread; nothing else changes.
pub proof fn law_entering_a_span<T>(
    registry: &mut SpanRegistry<T>,
    thread: usize,
    id: u64,
    now: u64,
)
    requires
        call_ensures(SpanRegistry::<T>::enter, (registry, thread, id, now), ()),
        old(registry)@.spans.contains_key(id),
        thread < old(registry)@.stacks.len(),
    ensures
        final(registry)@.spans == old(registry)@.spans.insert(
            id,
            SpanView {
                state: SpanState::SilentPeriod,
                entered_time: now,
                ..old(registry)@.spans[id]
            },
        ),
        final(registry)@.stacks.len() == old(registry)@.stacks.len(),
        final(registry)@.stacks[thread as int] == old(registry)@.stacks[thread as int].push(id),
        forall|other: int|
            0 <= other < old(registry)@.stacks.len() && other != thread ==> #[trigger] final(registry)@.stacks[other] == old(registry)@.stacks[other],
        final(registry)@.next_id == old(registry)@.next_id,
        final(registry)@.silent_duration == old(registry)@.silent_duration,
{
}

/// Leaving a span takes the innermost span off the stack of the thread, and leaves the span inactive,
/// with nothing held back and no time of entry. Its parent has the permission to itself again if the
/// span had it, and nothing else changes.
pub proof fn law_leaving_a_span<T>(registry: &mut SpanRegistry<T>, thread: usize, id: u64)
    requires
        call_ensures(SpanRegistry::<T>::exit, (registry, thread, id), ()),
        old(registry)@.spans.contains_key(id),
        thread < old(registry)@.stacks.len(),
        old(registry)@.spans[id].parent_id != Some(id),
    ensures
        final(registry)@.spans[id] == (SpanView {
            state: SpanState::Inactive,
            messages: Seq::empty(),
            entered_time: 0,
            ..old(registry)@.spans[id]
        }),
        forall|parent: u64|
            old(registry)@.spans[id].state == SpanState::PermissionAcquired && old(registry)@.spans[id].parent_id == Some(parent) ==> #[trigger] final(registry)@.spans[parent]
                == (SpanView {
                state: SpanState::PermissionAcquired,
                ..old(registry)@.spans[parent]
            }),
        forall|other: u64|
            other != id && !(old(registry)@.spans[id].state == SpanState::PermissionAcquired && old(registry)@.spans[id].parent_id == Some(other)) ==> {
                &&& #[trigger] final(registry)@.spans.contains_key(other) == old(registry)@.spans.contains_key(other)
                &&& final(registry)@.spans[other] == old(registry)@.spans[other]
            },
        final(registry)@.stacks.len() == old(registry)@.stacks.len(),
        old(registry)@.stacks[thread as int].len() > 0 ==> final(registry)@.stacks[thread as int]
            == old(registry)@.stacks[thread as int].take(
            old(registry)@.stacks[thread as int].len() - 1,
        ),
        old(registry)@.stacks[thread as int].len() == 0 ==> final(registry)@.stacks[thread as int]
            == old(registry)@.stacks[thread as int],
        forall|other: int|
            0 <= other < old(registry)@.stacks.len() && other != thread ==> #[trigger] final(registry)@.stacks[other] == old(registry)@.stacks[other],
        final(registry)@.next_id == old(registry)@.next_id,
        final(registry)@.silent_duration == old(registry)@.silent_duration,
{
}

/// A span can be left if a thread is in it and it does not lend the permission, unless the parent to
/// which the permission goes back is gone.
pub proof fn law_when_a_span_can_be_left<T>(registry: SpanRegistry<T>, id: u64, possible: bool)
    requires
        call_ensures(SpanRegistry::<T>::can_exit, (&registry, id), possible),
    ensures
        possible == (registry@.spans.contains_key(id) && (match registry@.spans[id].state {
            SpanState::Inactive => false,
            SpanState::PermissionBorrowed => false,
            SpanState::SilentPeriod => true,
            SpanState::PermissionDenied => true,
            SpanState::PermissionAcquired => match registry@.spans[id].parent_id {
                Some(parent) => registry@.spans.contains_key(parent),
                None => true,
            },
        })),
{
}

/// A new registry has no spans and no threads, and gives out ids from one on.
pub proof fn law_new_registry_is_empty<T>(silent_duration: u64, registry: SpanRegistry<T>)
    requires
        call_ensures(SpanRegistry::<T>::new, (silent_duration,), registry),
    ensures
        registry@.spans == Map::<u64, SpanView<T>>::empty(),
        registry@.stacks.len() == 0,
        registry@.next_id == 1,
        registry@.silent_duration == silent_duration,
{
}

/// A new thread is in no span and gets the next number; the other threads stay where they are.
pub proof fn law_new_thread_is_in_no_span<T>(registry: &mut SpanRegistry<T>, thread: usize)
    requires
        call_ensures(SpanRegistry::<T>::register_thread, (registry,), thread),
    ensures
        thread == old(registry)@.stacks.len(),
        final(registry)@.stacks == old(registry)@.stacks.push(Seq::empty()),
        final(registry)@.spans == old(registry)@.spans,
        final(registry)@.next_id == old(registry)@.next_id,
        final(registry)@.silent_duration == old(registry)@.silent_duration,
{
}

/// A new span gets the next id, the named parent and the given data. It is inactive, holds nothing
/// back and has one handle; nothing else changes, but that the id is used up.
pub proof fn law_creating_a_span<T>(
    registry: &mut SpanRegistry<T>,
    data: T,
    parent: Option<u64>,
    id: u64,
)
    requires
        call_ensures(SpanRegistry::<T>::create_span_with_parent, (registry, data, parent), id),
    ensures
        id == old(registry)@.next_id,
        final(registry)@.spans == old(registry)@.spans.insert(
            id,
            SpanView {
                data,
                id,
                parent_id: parent,
                state: SpanState::Inactive,
                messages: Seq::empty(),
                entered_time: 0,
                ref_counter: 1,
            },
        ),
        final(registry)@.next_id == (if id == u64::MAX {
            0
        } else {
            id + 1
        }),
        final(registry)@.stacks == old(registry)@.stacks,
        final(registry)@.silent_duration == old(registry)@.silent_duration,
{
}

/// A span that is created on a thread is a child of the innermost span of the thread, or a root if
/// there is none, and its data is what the callback returned for that span.
pub proof fn law_creating_a_span_on_a_thread<T, G: FnOnce(Option<(&T, u64)>) -> T>(
    registry: &mut SpanRegistry<T>,
    thread: usize,
    create_data: G,
    id: u64,
)
    requires
        call_ensures(SpanRegistry::<T>::create_span::<G>, (registry, thread, create_data), id),
    ensures
        id == old(registry)@.next_id,
        final(registry)@.spans == old(registry)@.spans.insert(id, final(registry)@.spans[id]),
        final(registry)@.spans[id].id == id,
        final(registry)@.spans[id].state == SpanState::Inactive,
        final(registry)@.spans[id].messages.len() == 0,
        final(registry)@.spans[id].entered_time == 0,
        final(registry)@.spans[id].ref_counter == 1,
        old(registry)@.stacks[thread as int].len() == 0 ==> {
            &&& final(registry)@.spans[id].parent_id is None
            &&& create_data.ensures((None,), final(registry)@.spans[id].data)
        },
        old(registry)@.stacks[thread as int].len() > 0 ==> {
            let parent = old(registry)@.stacks[thread as int].last();
            &&& final(registry)@.spans[id].parent_id == Some(parent)
            &&& create_data.ensures(
                (Some((&old(registry)@.spans[parent].data, parent)),),
                final(registry)@.spans[id].data,
            )
        },
        final(registry)@.next_id == (if id == u64::MAX {
            0
        } else {
            id + 1
        }),
        final(registry)@.stacks == old(registry)@.stacks,
        final(registry)@.silent_duration == old(registry)@.silent_duration,
{
}

/// One more handle, and nothing else.
pub proof fn law_cloning_adds_a_handle<T>(registry: &mut SpanRegistry<T>, id: u64)
    requires
        call_ensures(SpanRegistry::<T>::clone_span, (registry, id), ()),
        old(registry)@.spans.contains_key(id),
        old(registry)@.spans[id].ref_counter < u64::MAX,
    ensures
        only_span_changed(old(registry)@, final(registry)@, id),
        final(registry)@.spans[id] == (SpanView {
            ref_counter: (old(registry)@.spans[id].ref_counter + 1) as u64,
            ..old(registry)@.spans[id]
        }),
{
}

/// The last handle takes the span with it, and nothing else; any other handle that is dropped only
/// makes the number of handles one less.
pub proof fn law_deleting_drops_a_handle<T>(registry: &mut SpanRegistry<T>, id: u64, deleted: bool)
    requires
        call_ensures(SpanRegistry::<T>::delete_span, (registry, id), deleted),
        old(registry)@.spans.contains_key(id),
    ensures
        deleted == (old(registry)@.spans[id].ref_counter == 1),
        deleted ==> final(registry)@ == (RegistryView {
            spans: old(registry)@.spans.remove(id),
            ..old(registry)@
        }),
        !deleted ==> only_span_changed(old(registry)@, final(registry)@, id),
        !deleted && old(registry)@.spans[id].ref_counter > 0 ==> final(registry)@.spans[id] == (
        SpanView {
            ref_counter: (old(registry)@.spans[id].ref_counter - 1) as u64,
            ..old(registry)@.spans[id]
        }),
{
}

/// What is attached to a span is changed as the caller changes it, and nothing else is.
pub proof fn law_data_can_be_changed<T>(registry: &mut SpanRegistry<T>, id: u64, data: &mut T)
    requires
        call_ensures(SpanRegistry::<T>::data_mut, (registry, id), data),
        old(registry)@.spans.contains_key(id),
    ensures
        *old(data) == old(registry)@.spans[id].data,
        only_span_changed(old(registry)@, final(registry)@, id),
        final(registry)@.spans[id] == (SpanView { data: *final(data), ..old(registry)@.spans[id] }),
{
}

/// Questions about a span are answered by what the registry holds of it.
pub proof fn law_questions_about_a_span<T>(
    registry: SpanRegistry<T>,
    id: u64,
    now: u64,
    found: bool,
    active: bool,
    data: (&T, Option<u64>, u64),
)
    requires
        call_ensures(SpanRegistry::<T>::contains, (&registry, id), found),
        call_ensures(SpanRegistry::<T>::is_active, (&registry, id), active),
        call_ensures(SpanRegistry::<T>::span_data, (&registry, id, now), data),
    ensures
        found == registry@.spans.contains_key(id),
        active == (found && registry@.spans[id].state != SpanState::Inactive),
        *data.0 == registry@.spans[id].data,
        data.1 == registry@.spans[id].parent_id,
        now >= registry@.spans[id].entered_time ==> data.2 == now - registry@.spans[id].entered_time,
        now < registry@.spans[id].entered_time ==> data.2 == 0,
{
}

/// Questions about the registry and its threads are answered by what it holds.
pub proof fn law_questions_about_a_registry<T>(
    registry: SpanRegistry<T>,
    thread: usize,
    spans: usize,
    left: bool,
    threads: usize,
    stack: &Vec<u64>,
    current: Option<u64>,
)
    requires
        call_ensures(SpanRegistry::<T>::span_count, (&registry,), spans),
        call_ensures(SpanRegistry::<T>::has_next_id, (&registry,), left),
        call_ensures(SpanRegistry::<T>::thread_count, (&registry,), threads),
        call_ensures(SpanRegistry::<T>::span_stack, (&registry, thread), stack),
        call_ensures(SpanRegistry::<T>::current_span, (&registry, thread), current),
    ensures
        spans == registry@.spans.dom().len(),
        left == (registry@.next_id != 0),
        threads == registry@.stacks.len(),
        stack@ == registry@.stacks[thread as int],
        current is None <==> stack@.len() == 0,
        current matches Some(id) ==> id == stack@[stack@.len() - 1],
{
}

/// A new span is inactive, holds nothing back and has no handles.
pub proof fn law_new_span_data<T>(
    id: u64,
    parent_id: Option<u64>,
    data: T,
    span: SpanData<T>,
    attached: &T,
    handles: u64,
)
    requires
        call_ensures(SpanData::<T>::new, (id, parent_id, data), span),
        call_ensures(SpanData::<T>::data, (&span,), attached),
        call_ensures(SpanData::<T>::ref_counter, (&span,), handles),
    ensures
        *attached == data,
        handles == 0,
        span@.data == data,
        span@.id == id,
        span@.parent_id == parent_id,
        span@.state == SpanState::Inactive,
        span@.messages.len() == 0,
        span@.entered_time == 0,
        span@.ref_counter == 0,
{
}

/// Messages come out in the order in which they were held back, after what was there before, and
/// only once; or not at all, if they are discarded.
pub proof fn law_queue_of_a_span<T>(
    queued: &mut SpanData<T>,
    message: String,
    logged: &mut SpanData<T>,
    out: &mut Vec<String>,
    discarded: &mut SpanData<T>,
)
    requires
        call_ensures(SpanData::<T>::queue_message, (queued, message), ()),
        call_ensures(SpanData::<T>::log_queued_messages, (logged, out), ()),
        call_ensures(SpanData::<T>::discard_queued_messages, (discarded,), ()),
    ensures
        final(queued)@ == (SpanView {
            messages: old(queued)@.messages.push(message),
            ..old(queued)@
        }),
        final(out)@ == old(out)@ + old(logged)@.messages,
        final(logged)@ == (SpanView { messages: Seq::empty(), ..old(logged)@ }),
        final(discarded)@ == (SpanView { messages: Seq::empty(), ..old(discarded)@ }),
{
}

/// A visit starts with a silent period and leaves nothing behind.
pub proof fn law_visit_of_a_span<T>(
    entered: &mut SpanData<T>,
    now: u64,
    left: &mut SpanData<T>,
    left_in: SpanState,
)
    requires
        call_ensures(SpanData::<T>::enter, (entered, now), ()),
        call_ensures(SpanData::<T>::exit, (left,), left_in),
    ensures
        final(entered)@ == (SpanView {
            state: SpanState::SilentPeriod,
            entered_time: now,
            ..old(entered)@
        }),
        left_in == old(left)@.state,
        final(left)@ == (SpanView {
            state: SpanState::Inactive,
            messages: Seq::empty(),
            entered_time: 0,
            ..old(left)@
        }),
{
}

/// The states are numbered from zero in the order of their declaration, and no other number is one.
pub proof fn law_states_are_numbered(state: SpanState, code: u32)
    ensures
        SpanState::of_code(0) == Some(SpanState::SilentPeriod),
        SpanState::of_code(1) == Some(SpanState::PermissionAcquired),
        SpanState::of_code(2) == Some(SpanState::PermissionDenied),
        SpanState::of_code(3) == Some(SpanState::PermissionBorrowed),
        SpanState::of_code(4) == Some(SpanState::Inactive),
        code > 4 ==> SpanState::of_code(code) is None,
        SpanState::of_code(state.code()) == Some(state),
{
}

/// A state cell starts out inactive and then is in the state that the last transition led to.
pub proof fn law_transitions_of_a_cell(
    new: AtomicSpanState,
    entered: &mut AtomicSpanState,
    left: &mut AtomicSpanState,
    given: &mut AtomicSpanState,
    passed_on: &mut AtomicSpanState,
    returned: &mut AtomicSpanState,
    left_in: SpanState,
    shown: SpanState,
)
    requires
        call_ensures(AtomicSpanState::new, (), new),
        call_ensures(AtomicSpanState::get, (&new,), shown),
        call_ensures(AtomicSpanState::init, (entered,), ()),
        call_ensures(AtomicSpanState::reset, (left,), left_in),
        call_ensures(AtomicSpanState::give_permission, (given,), ()),
        call_ensures(AtomicSpanState::give_and_borrow_permission, (passed_on,), ()),
        call_ensures(AtomicSpanState::return_permission, (returned,), ()),
    ensures
        new@ == SpanState::Inactive,
        shown == SpanState::Inactive,
        final(entered)@ == SpanState::SilentPeriod,
        final(left)@ == SpanState::Inactive,
        left_in == old(left)@,
        final(given)@ == SpanState::PermissionAcquired,
        final(passed_on)@ == SpanState::PermissionBorrowed,
        final(returned)@ == SpanState::PermissionAcquired,
{
}

/// Only a silent period ends with a denial, and only a cell that has the permission to itself lends
/// it; in all other states nothing changes.
pub proof fn law_decisions_of_a_cell(
    denied: &mut AtomicSpanState,
    lender: &mut AtomicSpanState,
    lent: bool,
)
    requires
        call_ensures(AtomicSpanState::deny_permission, (denied,), ()),
        call_ensures(AtomicSpanState::borrow_permission, (lender,), lent),
    ensures
        old(denied)@ == SpanState::SilentPeriod ==> final(denied)@ == SpanState::PermissionDenied,
        old(denied)@ != SpanState::SilentPeriod ==> final(denied)@ == old(denied)@,
        lent <==> old(lender)@ == SpanState::PermissionAcquired,
        lent ==> final(lender)@ == SpanState::PermissionBorrowed,
        !lent ==> final(lender)@ == old(lender)@,
{
}

} // verus!
