//! What holds of every registry and of every sequence of operations on one.

use crate::model::{
    answer_output, answered, climbs, granted, held_back, lemma_climb_avoids_child,
    lemma_climb_passes, lemma_request_from, request_from, RegistryView, Request, SpanView,
};
use crate::outside::shown_time;
use crate::preservation::lemma_empty_wf;
use crate::state::SpanState;
use crate::trace::{lemma_after_wf, Operation};
use vstd::prelude::*;

verus! {

/// Whatever is done with a registry, it stays well-formed.
pub proof fn law_operations_keep_the_invariant<T>(
    registry: RegistryView<T>,
    operations: Seq<Operation<T>>,
)
    requires
        registry.wf(),
        registry.all_possible(operations),
    ensures
        registry.after_all(operations).wf(),
    decreases operations.len(),
{
    if operations.len() > 0 {
        lemma_after_wf(registry, operations[0]);
        law_operations_keep_the_invariant(
            registry.after(operations[0]),
            operations.drop_first(),
        );
    }
}

/// In every registry that operations can lead to, at most one child of a span has the permission to
/// print, and only while the span lends it.
pub proof fn law_permission_is_exclusive<T>(
    silent_duration: u64,
    operations: Seq<Operation<T>>,
    a: u64,
    b: u64,
    parent: u64,
)
    requires
        RegistryView::<T>::empty(silent_duration).all_possible(operations),
        ({
            let registry = RegistryView::<T>::empty(silent_duration).after_all(operations);
            &&& registry.holds_permission(a)
            &&& registry.spans[a].parent_id == Some(parent)
        }),
    ensures
        ({
            let registry = RegistryView::<T>::empty(silent_duration).after_all(operations);
            &&& registry.spans.contains_key(parent) ==> registry.spans[parent].state
                == SpanState::PermissionBorrowed
            &&& registry.holds_permission(b) && registry.spans[b].parent_id == Some(parent) ==> a
                == b
        }),
{
    lemma_empty_wf::<T>(silent_duration);
    law_operations_keep_the_invariant(
        RegistryView::<T>::empty(silent_duration),
        operations,
    );
}

/// The state transitions that there are.
pub open spec fn is_transition(from: SpanState, to: SpanState) -> bool {
    match (from, to) {
        (SpanState::Inactive, SpanState::SilentPeriod) => true,
        (SpanState::SilentPeriod, SpanState::PermissionAcquired) => true,
        (SpanState::SilentPeriod, SpanState::PermissionBorrowed) => true,
        (SpanState::SilentPeriod, SpanState::PermissionDenied) => true,
        (SpanState::PermissionAcquired, SpanState::PermissionBorrowed) => true,
        (SpanState::PermissionBorrowed, SpanState::PermissionAcquired) => true,
        (SpanState::PermissionAcquired, SpanState::Inactive) => true,
        (SpanState::PermissionDenied, SpanState::Inactive) => true,
        (SpanState::SilentPeriod, SpanState::Inactive) => true,
        _ => false,
    }
}

/// An operation leaves the state of a span as it is or makes one of the transitions that there are:
/// the silent period starts when the span is entered, the span becomes inactive when it is left,
/// the permission comes back when a child that has it is left, and everything else happens when a
/// message is sent.
pub proof fn law_state_transitions<T>(
    registry: RegistryView<T>,
    operation: Operation<T>,
    id: u64,
)
    requires
        registry.wf(),
        registry.possible(operation),
        registry.spans.contains_key(id),
        registry.after(operation).spans.contains_key(id),
    ensures
        ({
            let from = registry.spans[id].state;
            let to = registry.after(operation).spans[id].state;
            from != to ==> {
                &&& is_transition(from, to)
                &&& match operation {
                    Operation::Enter { id: entered, .. } => entered == id && from
                        == SpanState::Inactive,
                    Operation::Exit { id: left, .. } => {
                        ||| left == id && to == SpanState::Inactive
                        ||| registry.spans[left].state == SpanState::PermissionAcquired
                            && registry.spans[left].parent_id == Some(id) && from
                            == SpanState::PermissionBorrowed && to == SpanState::PermissionAcquired
                    },
                    Operation::Send { .. } => from == SpanState::SilentPeriod || from
                        == SpanState::PermissionAcquired && to == SpanState::PermissionBorrowed,
                    _ => false,
                }
            }
        }),
{
    match operation {
        Operation::Exit { id: left, .. } => {
            if registry.spans[left].state == SpanState::PermissionAcquired {
                assert(registry.holds_permission(left));
            }
        },
        Operation::Send { id: sender, message, now } => {
            let start = registry.spans[sender].parent_id;
            if registry.spans[sender].state == SpanState::SilentPeriod && registry.period_over(
                sender,
                now,
            ) {
                let request = choose|request: Request| #[trigger]
                    climbs(registry.spans, start, request) && (request.top matches Some(top)
                        ==> registry.spans[top].state != SpanState::Inactive);
                lemma_climb_passes(registry.spans, start, request);
                lemma_request_from(registry.spans, start, request);
            }
        },
        _ => {},
    }
}

/// When a span gets out of its silent period with the permission, all messages that it held back
/// are printed, together and in their order, and it holds nothing back any more.
pub proof fn law_held_back_messages_are_printed<T>(
    registry: RegistryView<T>,
    id: u64,
    message: String,
    now: u64,
    other: u64,
)
    requires
        registry.can_send(id, now),
        registry.spans.contains_key(other),
        registry.spans[other].state == SpanState::SilentPeriod,
        registry.sent(id, message, now).holds_permission(other),
    ensures
        registry.sent(id, message, now).spans[other].messages.len() == 0,
        exists|i: int|
            {
                &&& 0 <= i <= i + registry.spans[other].messages.len()
                    <= registry.send_output(id, message, now).len()
                &&& #[trigger] registry.send_output(id, message, now).subrange(
                    i,
                    i + registry.spans[other].messages.len(),
                ) == registry.spans[other].messages
            },
{
    let start = registry.spans[id].parent_id;
    let messages = registry.spans[other].messages;
    let output = registry.send_output(id, message, now);
    let sent = registry.sent(id, message, now);
    assert(registry.spans[id].state == SpanState::SilentPeriod && registry.period_over(id, now));
    let request = choose|request: Request| #[trigger]
        climbs(registry.spans, start, request) && (request.top matches Some(top)
            ==> registry.spans[top].state != SpanState::Inactive);
    lemma_climb_passes(registry.spans, start, request);
    lemma_request_from(registry.spans, start, request);
    lemma_climb_avoids_child(registry.spans, id, request);
    let above = answer_output(registry.spans, start);
    let i = if other == id {
        above.len() as int
    } else {
        assert(sent.spans[other] == answered(registry.spans, start)[other]);
        assert(request.run.contains(other));
        lemma_part_of_held_back(registry.spans, request.run, request.run.index_of(other))
    };
    assert(output == above + registry.spans[id].messages + seq![message]);
    assert(output.subrange(i, i + messages.len()) =~= messages) by {
        if other != id {
            assert forall|k: int| 0 <= k < messages.len() implies output[i + k] == messages[k] by {
                assert(above.subrange(i, i + messages.len())[k] == messages[k]);
            }
        }
    }
}

/// Where, in what the spans of the run hold back, the messages of one of them stand.
proof fn lemma_part_of_held_back<T>(spans: Map<u64, SpanView<T>>, run: Seq<u64>, k: int) -> (i: int)
    requires
        0 <= k < run.len(),
    ensures
        0 <= i <= i + spans[run[k]].messages.len() <= held_back(spans, run).len(),
        held_back(spans, run).subrange(i, i + spans[run[k]].messages.len())
            == spans[run[k]].messages,
    decreases run.len(),
{
    let messages = spans[run[k]].messages;
    let rest = held_back(spans, run.drop_first());
    let all = held_back(spans, run);
    if k == 0 {
        let i = rest.len() as int;
        assert(all.subrange(i, i + messages.len()) =~= messages);
        i
    } else {
        let i = lemma_part_of_held_back(spans, run.drop_first(), k - 1);
        assert(all.subrange(i, i + messages.len()) =~= rest.subrange(i, i + messages.len()));
        i
    }
}

/// Nothing is printed but when a message is sent to a span that has the permission, or whose silent
/// period is over.
pub proof fn law_silent_period_is_silent<T>(registry: RegistryView<T>, operation: Operation<T>)
    requires
        registry.output(operation).len() > 0,
    ensures
        operation matches Operation::Send { id, now, .. } && (registry.spans[id].state
            == SpanState::PermissionAcquired || registry.spans[id].state == SpanState::SilentPeriod
            && registry.period_over(id, now)),
{
}

/// The operations of a thread that enters a span, sends messages to it, and leaves it again.
pub open spec fn visit<T>(
    thread: int,
    id: u64,
    entered: u64,
    messages: Seq<(String, u64)>,
) -> Seq<Operation<T>> {
    seq![Operation::Enter { thread, id, now: entered }] + sends(id, messages) + seq![
        Operation::Exit { thread, id },
    ]
}

/// The operations that send messages, each at its time, to a span.
pub open spec fn sends<T>(id: u64, messages: Seq<(String, u64)>) -> Seq<Operation<T>> {
    Seq::new(
        messages.len(),
        |i: int| Operation::Send { id, message: messages[i].0, now: messages[i].1 },
    )
}

/// Messages that are sent to a span in its silent period are held back, and nothing else happens.
proof fn lemma_silent_sends<T>(registry: RegistryView<T>, id: u64, messages: Seq<(String, u64)>)
    requires
        registry.spans.contains_key(id),
        registry.spans[id].state == SpanState::SilentPeriod,
        forall|i: int|
            0 <= i < messages.len() ==> #[trigger] messages[i].1 < registry.silent_duration
                + registry.spans[id].entered_time,
    ensures
        registry.all_possible(sends(id, messages)),
        registry.output_of_all(sends(id, messages)).len() == 0,
        registry.after_all(sends(id, messages)) == registry.with_span(
            id,
            SpanView {
                messages: registry.spans[id].messages + messages.map_values(
                    |m: (String, u64)| m.0,
                ),
                ..registry.spans[id]
            },
        ),
    decreases messages.len(),
{
    let texts = messages.map_values(|m: (String, u64)| m.0);
    let operations = sends::<T>(id, messages);
    if messages.len() == 0 {
        assert(registry.spans[id].messages + texts =~= registry.spans[id].messages);
        assert(registry.after_all(operations) =~= registry.with_span(
            id,
            SpanView {
                messages: registry.spans[id].messages + texts,
                ..registry.spans[id]
            },
        ));
    } else {
        let next = registry.after(operations[0]);
        let later = messages.drop_first();
        assert(messages[0].1 < registry.silent_duration + registry.spans[id].entered_time);
        assert forall|i: int| 0 <= i < later.len() implies #[trigger] later[i].1
            < next.silent_duration + next.spans[id].entered_time by {
            assert(later[i] == messages[i + 1]);
        }
        lemma_silent_sends(next, id, later);
        assert(operations.drop_first() =~= sends::<T>(id, later));
        assert(next.spans[id].messages + later.map_values(|m: (String, u64)| m.0)
            =~= registry.spans[id].messages + texts);
        assert(registry.after_all(operations) =~= registry.with_span(
            id,
            SpanView {
                messages: registry.spans[id].messages + texts,
                ..registry.spans[id]
            },
        ));
    }
}

/// A visit of a span that ends before its silent period is over, whatever is sent to the span,
/// prints nothing and leaves the registry as it was.
pub proof fn law_short_visit_leaves_no_trace<T>(
    registry: RegistryView<T>,
    thread: int,
    id: u64,
    entered: u64,
    messages: Seq<(String, u64)>,
)
    requires
        registry.wf(),
        0 <= thread < registry.stacks.len(),
        registry.spans.contains_key(id),
        registry.spans[id].state == SpanState::Inactive,
        forall|i: int|
            0 <= i < messages.len() ==> #[trigger] messages[i].1 < registry.silent_duration
                + entered,
    ensures
        registry.all_possible(visit(thread, id, entered, messages)),
        registry.output_of_all(visit(thread, id, entered, messages)).len() == 0,
        registry.after_all(visit(thread, id, entered, messages)) == registry,
{
    let enter = seq![Operation::<T>::Enter { thread, id, now: entered }];
    let exit = seq![Operation::<T>::Exit { thread, id }];
    let inside = registry.entered(thread, id, entered);
    assert(enter.drop_first() =~= Seq::empty());
    assert(exit.drop_first() =~= Seq::empty());
    assert(registry.after_all(enter) == inside) by {
        reveal_with_fuel(RegistryView::after_all, 2);
    }
    assert(registry.all_possible(enter)) by {
        reveal_with_fuel(RegistryView::all_possible, 2);
    }
    assert(registry.output_of_all(enter).len() == 0) by {
        reveal_with_fuel(RegistryView::output_of_all, 2);
    }
    lemma_silent_sends(inside, id, messages);
    let told = inside.after_all(sends(id, messages));
    assert(told.after_all(exit) == told.exited(thread, id)) by {
        reveal_with_fuel(RegistryView::after_all, 2);
    }
    assert(told.all_possible(exit)) by {
        reveal_with_fuel(RegistryView::all_possible, 2);
    }
    assert(told.output_of_all(exit).len() == 0) by {
        reveal_with_fuel(RegistryView::output_of_all, 2);
    }
    crate::trace::lemma_split(registry, enter + sends(id, messages), exit);
    crate::trace::lemma_split(registry, enter, sends(id, messages));
    assert(inside.stacks[thread].drop_last() =~= registry.stacks[thread]);
    assert(told.exited(thread, id).stacks =~= registry.stacks);
    assert(told.exited(thread, id).spans[id] =~= registry.spans[id]);
    assert(told.exited(thread, id).spans =~= registry.spans);
}

/// In every registry whose spans were entered after the parents that they are still silent together
/// with, a message that was held back is printed only if the span that held it back has been
/// running for the silent period.
pub proof fn law_only_long_spans_print<T>(
    registry: RegistryView<T>,
    id: u64,
    message: String,
    now: u64,
    other: u64,
)
    requires
        registry.can_send(id, now),
        forall|child: u64, parent: u64|
            #![trigger registry.spans.contains_key(child), registry.spans.contains_key(parent)]
            {
                &&& registry.spans.contains_key(child)
                &&& registry.spans.contains_key(parent)
                &&& registry.spans[child].parent_id == Some(parent)
                &&& registry.spans[child].state == SpanState::SilentPeriod
                &&& registry.spans[parent].state == SpanState::SilentPeriod
            } ==> registry.spans[parent].entered_time <= registry.spans[child].entered_time,
        registry.spans.contains_key(other),
        registry.spans[other].state == SpanState::SilentPeriod,
        registry.sent(id, message, now).holds_permission(other),
    ensures
        registry.period_over(other, now),
{
    let start = registry.spans[id].parent_id;
    let request = choose|request: Request| #[trigger]
        climbs(registry.spans, start, request) && (request.top matches Some(top)
            ==> registry.spans[top].state != SpanState::Inactive);
    lemma_climb_passes(registry.spans, start, request);
    lemma_request_from(registry.spans, start, request);
    if other != id {
        assert(registry.sent(id, message, now).spans[other] == answered(
            registry.spans,
            start,
        )[other]);
        assert(request.run.contains(other));
        lemma_entered_earlier(registry, id, request, request.run.index_of(other));
    }
}

/// The spans above a silent span were entered no later than it.
proof fn lemma_entered_earlier<T>(
    registry: RegistryView<T>,
    id: u64,
    request: Request,
    k: int,
)
    requires
        registry.spans.contains_key(id),
        registry.spans[id].state == SpanState::SilentPeriod,
        climbs(registry.spans, registry.spans[id].parent_id, request),
        forall|child: u64, parent: u64|
            #![trigger registry.spans.contains_key(child), registry.spans.contains_key(parent)]
            {
                &&& registry.spans.contains_key(child)
                &&& registry.spans.contains_key(parent)
                &&& registry.spans[child].parent_id == Some(parent)
                &&& registry.spans[child].state == SpanState::SilentPeriod
                &&& registry.spans[parent].state == SpanState::SilentPeriod
            } ==> registry.spans[parent].entered_time <= registry.spans[child].entered_time,
        0 <= k < request.run.len(),
    ensures
        registry.spans[request.run[k]].entered_time <= registry.spans[id].entered_time,
    decreases k,
{
    lemma_climb_passes(registry.spans, registry.spans[id].parent_id, request);
    assert(registry.spans.contains_key(request.run[k]));
    if k > 0 {
        lemma_entered_earlier(registry, id, request, k - 1);
        assert(registry.spans.contains_key(request.run[k - 1]));
        assert(registry.spans[request.run[k - 1]].parent_id == request.above(k - 1));
    }
}

/// The root of a tree gets the permission as soon as its silent period is over: what it held back is
/// printed, and then the message.
pub proof fn law_root_is_granted<T>(
    registry: RegistryView<T>,
    id: u64,
    message: String,
    now: u64,
)
    requires
        registry.spans.contains_key(id),
        registry.spans[id].state == SpanState::SilentPeriod,
        registry.spans[id].parent_id is None,
        registry.period_over(id, now),
    ensures
        registry.can_send(id, now),
        registry.send_output(id, message, now) == registry.spans[id].messages.push(message),
        registry.sent(id, message, now) == registry.with_span(
            id,
            SpanView {
                state: SpanState::PermissionAcquired,
                messages: Seq::empty(),
                ..registry.spans[id]
            },
        ),
{
    broadcast use crate::model::group_requests;

    assert(answered(registry.spans, None) =~= registry.spans);
    assert(registry.send_output(id, message, now) =~= registry.spans[id].messages.push(message));
}

/// The child of a span that has the permission to itself gets it as soon as its silent period is
/// over: what it held back is printed, and then the message, and its parent lends the permission.
pub proof fn law_child_is_granted<T>(
    registry: RegistryView<T>,
    id: u64,
    parent: u64,
    message: String,
    now: u64,
)
    requires
        registry.spans.contains_key(id),
        registry.spans[id].state == SpanState::SilentPeriod,
        registry.spans[id].parent_id == Some(parent),
        registry.spans.contains_key(parent),
        registry.spans[parent].state == SpanState::PermissionAcquired,
        registry.period_over(id, now),
    ensures
        registry.can_send(id, now),
        registry.send_output(id, message, now) == registry.spans[id].messages.push(message),
        registry.sent(id, message, now) == registry.with_span(
            parent,
            SpanView { state: SpanState::PermissionBorrowed, ..registry.spans[parent] },
        ).with_span(
            id,
            SpanView {
                state: SpanState::PermissionAcquired,
                messages: Seq::empty(),
                ..registry.spans[id]
            },
        ),
{
    broadcast use crate::model::group_requests;

    assert(answered(registry.spans, Some(parent)) =~= registry.spans.insert(
        parent,
        SpanView { state: SpanState::PermissionBorrowed, ..registry.spans[parent] },
    ));
    assert(registry.send_output(id, message, now) =~= registry.spans[id].messages.push(message));
}

/// While a child has the permission, its siblings are denied it: nothing is printed of the message,
/// nor of anything else, and the sibling that asked stays silent from then on.
pub proof fn law_sibling_is_denied<T>(
    registry: RegistryView<T>,
    holder: u64,
    sibling: u64,
    parent: u64,
    message: String,
    now: u64,
)
    requires
        registry.wf(),
        registry.holds_permission(holder),
        registry.spans[holder].parent_id == Some(parent),
        registry.spans.contains_key(parent),
        registry.spans.contains_key(sibling),
        registry.spans[sibling].parent_id == Some(parent),
        registry.spans[sibling].state == SpanState::SilentPeriod,
        registry.period_over(sibling, now),
    ensures
        registry.can_send(sibling, now),
        registry.send_output(sibling, message, now).len() == 0,
        registry.sent(sibling, message, now) == registry.with_span(
            sibling,
            SpanView { state: SpanState::PermissionDenied, ..registry.spans[sibling] },
        ),
{
    broadcast use crate::model::group_requests;

    assert(answered(registry.spans, Some(parent)) =~= registry.spans);
}

/// A span that was denied the permission stays denied and prints nothing until it is left, whatever
/// happens in between.
pub proof fn law_denied_span_stays_silent<T>(
    registry: RegistryView<T>,
    operations: Seq<Operation<T>>,
    id: u64,
    message: String,
    now: u64,
)
    requires
        registry.wf(),
        registry.all_possible(operations),
        registry.spans.contains_key(id),
        registry.spans[id].state == SpanState::PermissionDenied,
        forall|i: int|
            0 <= i < operations.len() ==> (#[trigger] operations[i] matches Operation::Exit {
                id: left,
                ..
            } ==> left != id),
    ensures
        registry.after_all(operations).spans.contains_key(id) ==> {
            &&& registry.after_all(operations).spans[id].state == SpanState::PermissionDenied
            &&& registry.after_all(operations).send_output(id, message, now).len() == 0
        },
    decreases operations.len(),
{
    if operations.len() > 0 {
        let operation = operations[0];
        let next = registry.after(operation);
        let later = operations.drop_first();
        lemma_after_wf(registry, operation);
        assert forall|i: int| 0 <= i < later.len() implies (#[trigger] later[i] matches Operation::Exit {
            id: left,
            ..
        } ==> left != id) by {
            assert(later[i] == operations[i + 1]);
        }
        if next.spans.contains_key(id) {
            law_state_transitions(registry, operation, id);
            law_denied_span_stays_silent(next, later, id, message, now);
        } else {
            law_ids_are_not_reused(next, later, id);
        }
    }
}

/// The id was given out before.
pub open spec fn given_out<T>(registry: RegistryView<T>, id: u64) -> bool {
    id != 0 && (registry.next_id != 0 ==> id < registry.next_id)
}

/// The id of a span that is gone is not given out again.
pub proof fn law_ids_are_not_reused<T>(
    registry: RegistryView<T>,
    operations: Seq<Operation<T>>,
    id: u64,
)
    requires
        registry.wf(),
        registry.all_possible(operations),
        given_out(registry, id),
        !registry.spans.contains_key(id),
    ensures
        given_out(registry.after_all(operations), id),
        !registry.after_all(operations).spans.contains_key(id),
    decreases operations.len(),
{
    if operations.len() > 0 {
        let operation = operations[0];
        let next = registry.after(operation);
        lemma_after_wf(registry, operation);
        lemma_only_creation_adds(registry, operation);
        law_ids_are_not_reused(next, operations.drop_first(), id);
    }
}

/// Only a creation registers a span, and that under a new id.
proof fn lemma_only_creation_adds<T>(registry: RegistryView<T>, operation: Operation<T>)
    requires
        registry.wf(),
        registry.possible(operation),
    ensures
        operation is Create ==> registry.after(operation).spans.dom()
            == registry.spans.dom().insert(registry.next_id) && !registry.spans.contains_key(
            registry.next_id,
        ),
        operation !is Create ==> registry.after(operation).spans.dom().subset_of(
            registry.spans.dom(),
        ) && registry.after(operation).next_id == registry.next_id,
{
    match operation {
        Operation::Create { data, parent } => {
            assert(registry.after(operation).spans.dom() =~= registry.spans.dom().insert(
                registry.next_id,
            ));
        },
        Operation::Exit { id, .. } => {
            if registry.spans[id].state == SpanState::PermissionAcquired {
                assert(registry.holds_permission(id));
            }
        },
        _ => {},
    }
}

/// A new span gets an id under which no span is registered, and which was not given out before.
pub proof fn law_new_ids_are_fresh<T>(registry: RegistryView<T>, data: T, parent: Option<u64>)
    requires
        registry.wf(),
        registry.next_id != 0,
    ensures
        !given_out(registry, registry.next_id),
        !registry.spans.contains_key(registry.next_id),
        given_out(registry.created(data, parent), registry.next_id),
        registry.created(data, parent).spans.contains_key(registry.next_id),
{
}

/// Leaving a span that got the permission from its parent gives it back: apart from the span itself,
/// which holds nothing back any more, all spans are as they were before it asked.
pub proof fn law_exit_returns_the_permission<T>(
    registry: RegistryView<T>,
    thread: int,
    id: u64,
    parent: u64,
    message: String,
    now: u64,
)
    requires
        registry.spans.contains_key(id),
        registry.spans[id].state == SpanState::SilentPeriod,
        registry.spans[id].parent_id == Some(parent),
        registry.spans.contains_key(parent),
        registry.spans[parent].state == SpanState::PermissionAcquired,
        registry.period_over(id, now),
    ensures
        registry.sent(id, message, now).can_exit(id),
        registry.sent(id, message, now).exited(thread, id).spans == registry.spans.insert(
            id,
            SpanView {
                state: SpanState::Inactive,
                messages: Seq::empty(),
                entered_time: 0,
                ..registry.spans[id]
            },
        ),
{
    law_child_is_granted(registry, id, parent, message, now);
    let after = registry.sent(id, message, now).exited(thread, id);
    assert(after.spans[parent] == registry.spans[parent]);
    assert(after.spans =~= registry.spans.insert(
        id,
        SpanView {
            state: SpanState::Inactive,
            messages: Seq::empty(),
            entered_time: 0,
            ..registry.spans[id]
        },
    ));
}

/// A span that was left can be entered again: leaving it undoes the entry, but for the thread from
/// whose stack a span is taken.
pub proof fn law_exit_undoes_enter<T>(
    registry: RegistryView<T>,
    thread: int,
    id: u64,
    now: u64,
)
    requires
        registry.wf(),
        0 <= thread < registry.stacks.len(),
        registry.spans.contains_key(id),
        registry.spans[id].state == SpanState::Inactive,
    ensures
        registry.entered(thread, id, now).current_span(thread) == Some(id),
        registry.entered(thread, id, now).can_exit(id),
        registry.entered(thread, id, now).exited(thread, id) == registry,
{
    let after = registry.entered(thread, id, now).exited(thread, id);
    assert(registry.stacks[thread].push(id).drop_last() =~= registry.stacks[thread]);
    assert(after.stacks =~= registry.stacks);
    assert(after.spans[id] =~= registry.spans[id]);
    assert(after.spans =~= registry.spans);
}

/// Dropping a handle that was added leaves the registry as it was.
pub proof fn law_delete_undoes_clone<T>(registry: RegistryView<T>, id: u64)
    requires
        registry.spans.contains_key(id),
        registry.spans[id].ref_counter != 0,
    ensures
        registry.cloned(id).deleted(id) == registry,
{
    assert(registry.cloned(id).deleted(id).spans[id] =~= registry.spans[id]);
    assert(registry.cloned(id).deleted(id).spans =~= registry.spans);
}

/// The only handle to a new span takes the span with it, and leaves the others as they were.
pub proof fn law_delete_undoes_creation<T>(
    registry: RegistryView<T>,
    data: T,
    parent: Option<u64>,
)
    requires
        registry.wf(),
        registry.next_id != 0,
    ensures
        registry.created(data, parent).deleted(registry.next_id).spans == registry.spans,
{
    assert(registry.created(data, parent).deleted(registry.next_id).spans =~= registry.spans);
}

/// No operation changes the stack of a thread but that thread entering or leaving a span.
pub proof fn law_threads_are_independent<T>(
    registry: RegistryView<T>,
    operation: Operation<T>,
    thread: int,
)
    requires
        registry.possible(operation),
        0 <= thread < registry.stacks.len(),
        operation matches Operation::Enter { thread: other, .. } ==> other != thread,
        operation matches Operation::Exit { thread: other, .. } ==> other != thread,
    ensures
        registry.after(operation).stacks[thread] == registry.stacks[thread],
        registry.after(operation).current_span(thread) == registry.current_span(thread),
{
}

/// A message changes nothing but the span that it is sent to and those ancestors that are asked for
/// the permission, and of these only the state and the messages that are held back.
pub proof fn law_message_touches_only_those_asked<T>(
    registry: RegistryView<T>,
    id: u64,
    message: String,
    now: u64,
    other: u64,
)
    requires
        registry.can_send(id, now),
        registry.spans.contains_key(other),
    ensures
        registry.sent(id, message, now).spans.dom() == registry.spans.dom(),
        registry.sent(id, message, now).spans[other] == (SpanView {
            state: registry.sent(id, message, now).spans[other].state,
            messages: registry.sent(id, message, now).spans[other].messages,
            ..registry.spans[other]
        }),
        ({
            let request = request_from(registry.spans, registry.spans[id].parent_id);
            other != id && !request.run.contains(other) && request.top != Some(other)
                ==> registry.sent(id, message, now).spans[other] == registry.spans[other]
        }),
{
    let start = registry.spans[id].parent_id;
    let sent = registry.sent(id, message, now);
    if registry.spans[id].state == SpanState::SilentPeriod && registry.period_over(id, now) {
        let request = choose|request: Request| #[trigger]
            climbs(registry.spans, start, request) && (request.top matches Some(top)
                ==> registry.spans[top].state != SpanState::Inactive);
        lemma_climb_passes(registry.spans, start, request);
        lemma_request_from(registry.spans, start, request);
        lemma_climb_avoids_child(registry.spans, id, request);
    }
    assert(sent.spans.dom() =~= registry.spans.dom());
}

/// The time of entry is zero for the spans that no thread is in, and for no others, as long as no span
/// is entered at time zero.
pub proof fn law_entry_time_tells_activity<T>(
    silent_duration: u64,
    operations: Seq<Operation<T>>,
    id: u64,
)
    requires
        RegistryView::<T>::empty(silent_duration).all_possible(operations),
        forall|i: int|
            0 <= i < operations.len() ==> (#[trigger] operations[i] matches Operation::Enter {
                now,
                ..
            } ==> now != 0),
    ensures
        ({
            let registry = RegistryView::<T>::empty(silent_duration).after_all(operations);
            registry.spans.contains_key(id) ==> (registry.spans[id].entered_time == 0
                <==> registry.spans[id].state == SpanState::Inactive)
        }),
{
    lemma_empty_wf::<T>(silent_duration);
    lemma_entry_time_tells_activity(RegistryView::<T>::empty(silent_duration), operations, id);
}

/// The time of entry goes on telling whether a thread is in the span.
proof fn lemma_entry_time_tells_activity<T>(
    registry: RegistryView<T>,
    operations: Seq<Operation<T>>,
    id: u64,
)
    requires
        registry.wf(),
        registry.all_possible(operations),
        registry.is_active(id) ==> registry.spans[id].entered_time != 0,
        forall|i: int|
            0 <= i < operations.len() ==> (#[trigger] operations[i] matches Operation::Enter {
                now,
                ..
            } ==> now != 0),
    ensures
        registry.after_all(operations).wf(),
        registry.after_all(operations).is_active(id) ==> registry.after_all(
            operations,
        ).spans[id].entered_time != 0,
    decreases operations.len(),
{
    if operations.len() > 0 {
        let operation = operations[0];
        let next = registry.after(operation);
        let later = operations.drop_first();
        lemma_after_wf(registry, operation);
        lemma_only_creation_adds(registry, operation);
        assert forall|i: int| 0 <= i < later.len() implies (#[trigger] later[i] matches Operation::Enter {
            now,
            ..
        } ==> now != 0) by {
            assert(later[i] == operations[i + 1]);
        }
        if next.is_active(id) {
            assert(next.spans.dom().contains(id));
            if operation is Create && id == registry.next_id {
                assert(false);
            }
            law_state_transitions(registry, operation, id);
            if let Operation::Send { id: sender, message, now } = operation {
                law_message_touches_only_those_asked(registry, sender, message, now, id);
            }
        }
        lemma_entry_time_tells_activity(next, later, id);
    }
}

/// A clock does not show zero before it has used up its sixty-four bits.
pub proof fn law_clock_does_not_show_zero(elapsed: u128)
    requires
        elapsed + 10 <= u64::MAX,
    ensures
        shown_time(elapsed) == elapsed + 10,
        shown_time(elapsed) != 0,
{
}

/// A granted request leaves the span that was asked lending the permission. A denied one leaves it
/// denied, or lending the permission to the child that has it already.
pub proof fn law_outcome_of_a_request<T>(spans: Map<u64, SpanView<T>>, id: u64)
    requires
        crate::model::answerable(spans, Some(id)),
    ensures
        granted(spans, Some(id)) ==> answered(spans, Some(id))[id].state
            == SpanState::PermissionBorrowed,
        !granted(spans, Some(id)) ==> answered(spans, Some(id))[id].state
            == (if spans[id].state == SpanState::SilentPeriod {
            SpanState::PermissionDenied
        } else {
            spans[id].state
        }),
{
    let request = choose|request: Request| #[trigger]
        climbs(spans, Some(id), request) && (request.top matches Some(top) ==> spans[top].state
            != SpanState::Inactive);
    lemma_climb_passes(spans, Some(id), request);
    lemma_request_from(spans, Some(id), request);
    if request.run.len() > 0 {
        assert(request.run.contains(request.run[0]));
    }
}

/// A state and its code determine each other.
pub proof fn law_state_codes(state: SpanState, code: u32)
    ensures
        SpanState::of_code(state.code()) == Some(state),
        SpanState::of_code(code) == Some(state) <==> state.code() == code,
        SpanState::of_code(code) is Some <==> code <= 4,
{
}

/// What a span holds back has no part in what an operation prints, unless the span has the permission
/// afterwards.
pub proof fn law_nothing_is_printed_without_permission<T>(
    registry: RegistryView<T>,
    operation: Operation<T>,
    id: u64,
    messages: Seq<String>,
)
    requires
        registry.possible(operation),
        registry.spans.contains_key(id),
        !registry.after(operation).holds_permission(id),
    ensures
        registry.with_span(id, SpanView { messages, ..registry.spans[id] }).output(operation)
            == registry.output(operation),
{
    let changed = registry.with_span(id, SpanView { messages, ..registry.spans[id] });
    match operation {
        Operation::Send { id: sender, message, now } => {
            let start = registry.spans[sender].parent_id;
            if registry.spans[sender].state == SpanState::SilentPeriod && registry.period_over(
                sender,
                now,
            ) {
                let request = choose|request: Request| #[trigger]
                    climbs(registry.spans, start, request) && (request.top matches Some(top)
                        ==> registry.spans[top].state != SpanState::Inactive);
                lemma_climb_passes(registry.spans, start, request);
                lemma_climb_avoids_child(registry.spans, sender, request);
                lemma_request_from(registry.spans, start, request);
                assert(changed.spans.dom() =~= registry.spans.dom());
                lemma_climb_ignores_messages(registry.spans, changed.spans, start, request);
                lemma_request_from(changed.spans, start, request);
                if granted(registry.spans, start) {
                    assert(registry.after(operation).spans.contains_key(id));
                    assert(!request.run.contains(id));
                    lemma_held_back_elsewhere(registry.spans, changed.spans, request.run);
                }
            }
        },
        _ => {},
    }
}

/// How far a request climbs does not depend on what is held back.
proof fn lemma_climb_ignores_messages<T>(
    spans: Map<u64, SpanView<T>>,
    changed: Map<u64, SpanView<T>>,
    start: Option<u64>,
    request: Request,
)
    requires
        climbs(spans, start, request),
        changed.dom() == spans.dom(),
        forall|id: u64| #[trigger]
            spans.contains_key(id) ==> changed[id].state == spans[id].state
                && changed[id].parent_id == spans[id].parent_id,
    ensures
        climbs(changed, start, request),
    decreases request.run.len(),
{
    if request.run.len() > 0 {
        assert(spans.contains_key(request.run[0]));
        assert(changed.dom().contains(request.run[0]));
        lemma_climb_ignores_messages(
            spans,
            changed,
            spans[request.run[0]].parent_id,
            Request { run: request.run.drop_first(), top: request.top },
        );
    } else if let Some(id) = start {
        assert(changed.dom().contains(id));
    }
}

/// What a run holds back depends on the spans of the run only.
proof fn lemma_held_back_elsewhere<T>(
    spans: Map<u64, SpanView<T>>,
    changed: Map<u64, SpanView<T>>,
    run: Seq<u64>,
)
    requires
        forall|i: int| 0 <= i < run.len() ==> changed[#[trigger] run[i]] == spans[run[i]],
    ensures
        held_back(changed, run) == held_back(spans, run),
    decreases run.len(),
{
    if run.len() > 0 {
        let rest = run.drop_first();
        assert forall|i: int| 0 <= i < rest.len() implies changed[#[trigger] rest[i]]
            == spans[rest[i]] by {
            assert(rest[i] == run[i + 1]);
        }
        lemma_held_back_elsewhere(spans, changed, rest);
        assert(changed[run[0]] == spans[run[0]]);
    }
}

/// The operations stay within the silent period of a span that was entered at time `entered`: all
/// messages come before it is over, all other spans are entered after the span, and the span
/// itself is not left. New spans are created below spans that exist or have existed.
pub open spec fn within_silent_period<T>(
    registry: RegistryView<T>,
    operations: Seq<Operation<T>>,
    id: u64,
    entered: u64,
) -> bool
    decreases operations.len(),
{
    operations.len() == 0 || {
        &&& match operations[0] {
            Operation::Create { parent, .. } => parent matches Some(parent) ==> given_out(
                registry,
                parent,
            ),
            Operation::Enter { now, .. } => now >= entered,
            Operation::Exit { id: left, .. } => left != id,
            Operation::Send { now, .. } => now < registry.silent_duration + entered,
            _ => true,
        }
        &&& within_silent_period(
            registry.after(operations[0]),
            operations.drop_first(),
            id,
            entered,
        )
    }
}

/// `below` holds all spans below the span.
pub open spec fn holds_all_below<T>(
    registry: RegistryView<T>,
    id: u64,
    below: Set<u64>,
) -> bool {
    forall|child: u64| #[trigger]
        registry.spans.contains_key(child) ==> (registry.spans[child].parent_id matches Some(parent)
            ==> (parent == id || below.contains(parent) ==> below.contains(child)))
}

/// The parents of all spans were given out.
pub open spec fn parents_given_out<T>(registry: RegistryView<T>) -> bool {
    forall|child: u64| #[trigger]
        registry.spans.contains_key(child) ==> (registry.spans[child].parent_id matches Some(parent)
            ==> given_out(registry, parent))
}

/// The span and all spans below it are in a silent period that cannot be over yet.
pub open spec fn all_quiet<T>(registry: RegistryView<T>, id: u64, below: Set<u64>, entered: u64) -> bool {
    &&& registry.wf()
    &&& parents_given_out(registry)
    &&& holds_all_below(registry, id, below)
    &&& !below.contains(id)
    &&& given_out(registry, id)
    &&& forall|x: u64| #[trigger] below.contains(x) ==> given_out(registry, x)
    &&& registry.spans.contains_key(id) ==> registry.spans[id].state == SpanState::SilentPeriod
        && registry.spans[id].entered_time == entered
    &&& forall|x: u64| #[trigger]
        below.contains(x) && registry.spans.contains_key(x) ==> match registry.spans[x].state {
            SpanState::SilentPeriod => registry.spans[x].entered_time >= entered,
            SpanState::Inactive => true,
            _ => false,
        }
}

/// A request that passes a span, or ends at one, of a set that holds all spans below its spans
/// starts at a span of the set.
proof fn lemma_climb_out_of<T>(
    registry: RegistryView<T>,
    id: u64,
    below: Set<u64>,
    start: Option<u64>,
    request: Request,
    k: int,
)
    requires
        holds_all_below(registry, id, below),
        climbs(registry.spans, start, request),
        0 <= k < request.run.len(),
        request.run[k] == id || below.contains(request.run[k]),
    ensures
        start matches Some(first) && (first == id || below.contains(first)),
    decreases k,
{
    lemma_climb_passes(registry.spans, start, request);
    if k > 0 {
        assert(registry.spans[request.run[k - 1]].parent_id == request.above(k - 1));
        assert(registry.spans.contains_key(request.run[k - 1]));
        lemma_climb_out_of(registry, id, below, start, request, k - 1);
    }
}

/// One operation within the silent period keeps the span and the spans below it quiet.
proof fn lemma_stays_quiet<T>(
    registry: RegistryView<T>,
    operation: Operation<T>,
    id: u64,
    below: Set<u64>,
    entered: u64,
) -> (still_below: Set<u64>)
    requires
        registry.possible(operation),
        all_quiet(registry, id, below, entered),
        within_silent_period(registry, seq![operation], id, entered),
    ensures
        all_quiet(registry.after(operation), id, still_below, entered),
{
    let next = registry.after(operation);
    lemma_after_wf(registry, operation);
    lemma_only_creation_adds(registry, operation);
    assert(seq![operation][0] == operation);
    match operation {
        Operation::Create { data, parent } => {
            let still_below = if parent matches Some(p) && (p == id || below.contains(p)) {
                below.insert(registry.next_id)
            } else {
                below
            };
            assert forall|child: u64| #[trigger] next.spans.contains_key(child) implies (
            next.spans[child].parent_id matches Some(p) ==> (p == id || still_below.contains(p)
                ==> still_below.contains(child))) by {
                if child != registry.next_id {
                    assert(registry.spans.contains_key(child));
                }
            }
            still_below
        },
        Operation::Exit { id: left, .. } => {
            if registry.spans[left].state == SpanState::PermissionAcquired {
                assert(registry.holds_permission(left));
                if let Some(parent) = registry.spans[left].parent_id {
                    assert(registry.spans.contains_key(parent));
                    assert(registry.spans[parent].state == SpanState::PermissionBorrowed);
                }
            }
            assert forall|child: u64| #[trigger] next.spans.contains_key(child) implies
                registry.spans.contains_key(child) && next.spans[child].parent_id
                == registry.spans[child].parent_id by {}
            below
        },
        Operation::Send { id: sender, message, now } => {
            let start = registry.spans[sender].parent_id;
            assert forall|child: u64| #[trigger] next.spans.contains_key(child) implies
                registry.spans.contains_key(child) && next.spans[child].parent_id
                == registry.spans[child].parent_id && next.spans[child].entered_time
                == registry.spans[child].entered_time by {
                assert(registry.spans.contains_key(child));
                law_message_touches_only_those_asked(registry, sender, message, now, child);
            }
            assert forall|x: u64| (x == id || below.contains(x)) && #[trigger]
                next.spans.contains_key(x) implies next.spans[x].state
                == registry.spans[x].state by {
                assert(registry.spans.contains_key(x));
                law_message_touches_only_those_asked(registry, sender, message, now, x);
                if registry.spans[sender].state == SpanState::SilentPeriod && registry.period_over(
                    sender,
                    now,
                ) {
                    assert(sender != id && !below.contains(sender));
                    let request = choose|request: Request| #[trigger]
                        climbs(registry.spans, start, request) && (request.top matches Some(top)
                            ==> registry.spans[top].state != SpanState::Inactive);
                    lemma_climb_passes(registry.spans, start, request);
                    lemma_request_from(registry.spans, start, request);
                    if request.run.contains(x) {
                        lemma_climb_out_of(
                            registry,
                            id,
                            below,
                            start,
                            request,
                            request.run.index_of(x),
                        );
                        assert(registry.spans.contains_key(sender));
                    }
                }
            }
            below
        },
        _ => {
            assert forall|child: u64| #[trigger] next.spans.contains_key(child) implies
                registry.spans.contains_key(child) && next.spans[child].parent_id
                == registry.spans[child].parent_id by {}
            below
        },
    }
}

/// A span stays in its silent period, and so prints nothing, as long as the period is not over and
/// the span is not left: whatever any thread does, in whatever spans, nested into the span or not.
/// When the span was entered, no thread may have been in a span below it.
pub proof fn law_short_span_stays_silent<T>(
    registry: RegistryView<T>,
    operations: Seq<Operation<T>>,
    id: u64,
    below: Set<u64>,
)
    requires
        registry.wf(),
        registry.all_possible(operations),
        registry.spans.contains_key(id),
        registry.spans[id].state == SpanState::SilentPeriod,
        within_silent_period(registry, operations, id, registry.spans[id].entered_time),
        parents_given_out(registry),
        holds_all_below(registry, id, below),
        forall|x: u64| #[trigger] below.contains(x) ==> registry.spans.contains_key(x)
            && registry.spans[x].state == SpanState::Inactive,
    ensures
        registry.after_all(operations).spans.contains_key(id) ==> registry.after_all(
            operations,
        ).spans[id].state == SpanState::SilentPeriod,
{
    let entered = registry.spans[id].entered_time;
    assert(all_quiet(registry, id, below, entered));
    lemma_all_stay_quiet(registry, operations, id, below, entered);
}

/// A span that stays in its silent period goes on holding back what it held back.
proof fn lemma_silent_span_keeps_messages<T>(
    registry: RegistryView<T>,
    operation: Operation<T>,
    id: u64,
)
    requires
        registry.wf(),
        registry.possible(operation),
        registry.spans.contains_key(id),
        registry.spans[id].state == SpanState::SilentPeriod,
        registry.after(operation).spans.contains_key(id),
        registry.after(operation).spans[id].state == SpanState::SilentPeriod,
    ensures
        registry.spans[id].messages.is_prefix_of(registry.after(operation).spans[id].messages),
{
    match operation {
        Operation::Create { .. } => lemma_only_creation_adds(registry, operation),
        Operation::Send { id: sender, message, now } => {
            let start = registry.spans[sender].parent_id;
            if registry.spans[sender].state == SpanState::SilentPeriod && registry.period_over(
                sender,
                now,
            ) {
                let request = choose|request: Request| #[trigger]
                    climbs(registry.spans, start, request) && (request.top matches Some(top)
                        ==> registry.spans[top].state != SpanState::Inactive);
                lemma_climb_passes(registry.spans, start, request);
                lemma_request_from(registry.spans, start, request);
                lemma_climb_avoids_child(registry.spans, sender, request);
            }
        },
        _ => {},
    }
}

/// Operations within the silent period keep the span and the spans below it quiet, and the span goes
/// on holding back what it held back.
pub proof fn lemma_all_stay_quiet<T>(
    registry: RegistryView<T>,
    operations: Seq<Operation<T>>,
    id: u64,
    below: Set<u64>,
    entered: u64,
) -> (still_below: Set<u64>)
    requires
        registry.all_possible(operations),
        all_quiet(registry, id, below, entered),
        within_silent_period(registry, operations, id, entered),
    ensures
        all_quiet(registry.after_all(operations), id, still_below, entered),
        registry.spans.contains_key(id) && registry.after_all(operations).spans.contains_key(id)
            ==> registry.spans[id].messages.is_prefix_of(
            registry.after_all(operations).spans[id].messages,
        ),
    decreases operations.len(),
{
    if operations.len() > 0 {
        let operation = operations[0];
        assert(seq![operation].drop_first() =~= Seq::<Operation<T>>::empty());
        reveal_with_fuel(within_silent_period, 2);
        let still_below = lemma_stays_quiet(registry, operation, id, below, entered);
        if registry.after(operation).spans.contains_key(id) {
            if registry.spans.contains_key(id) {
                lemma_silent_span_keeps_messages(registry, operation, id);
            }
        } else {
            law_ids_are_not_reused(registry.after(operation), operations.drop_first(), id);
        }
        lemma_all_stay_quiet(
            registry.after(operation),
            operations.drop_first(),
            id,
            still_below,
            entered,
        )
    } else {
        below
    }
}

/// Nothing of what a span holds back is printed within its silent period: at every point of a
/// sequence of operations as in [`law_short_span_stays_silent`], a message to the span prints
/// nothing, and what is printed of other messages does not depend on what the span holds back.
pub proof fn law_short_span_prints_nothing<T>(
    registry: RegistryView<T>,
    operations: Seq<Operation<T>>,
    id: u64,
    below: Set<u64>,
    k: int,
    messages: Seq<String>,
)
    requires
        registry.wf(),
        registry.all_possible(operations),
        registry.spans.contains_key(id),
        registry.spans[id].state == SpanState::SilentPeriod,
        within_silent_period(registry, operations, id, registry.spans[id].entered_time),
        parents_given_out(registry),
        holds_all_below(registry, id, below),
        forall|x: u64| #[trigger] below.contains(x) ==> registry.spans.contains_key(x)
            && registry.spans[x].state == SpanState::Inactive,
        0 <= k < operations.len(),
    ensures
        ({
            let before = registry.after_all(operations.take(k));
            before.spans.contains_key(id) ==> {
                &&& operations[k] matches Operation::Send { id: to, .. } ==> (to == id
                    ==> before.output(operations[k]).len() == 0)
                &&& before.with_span(
                    id,
                    SpanView { messages, ..before.spans[id] },
                ).output(operations[k]) == before.output(operations[k])
            }
        }),
{
    let entered = registry.spans[id].entered_time;
    let before = registry.after_all(operations.take(k));
    let operation = operations[k];
    assert(all_quiet(registry, id, below, entered));
    let below_then = lemma_quiet_until(registry, operations, id, below, entered, k);
    if before.spans.contains_key(id) {
        let still_below = lemma_stays_quiet(before, operation, id, below_then, entered);
        assert(seq![operation][0] == operation);
        law_nothing_is_printed_without_permission(before, operation, id, messages);
    }
}

/// At every point of operations within the silent period the span and the spans below it are quiet,
/// and the next operation is within the silent period, too.
proof fn lemma_quiet_until<T>(
    registry: RegistryView<T>,
    operations: Seq<Operation<T>>,
    id: u64,
    below: Set<u64>,
    entered: u64,
    k: int,
) -> (below_then: Set<u64>)
    requires
        registry.all_possible(operations),
        all_quiet(registry, id, below, entered),
        within_silent_period(registry, operations, id, entered),
        0 <= k < operations.len(),
    ensures
        all_quiet(registry.after_all(operations.take(k)), id, below_then, entered),
        registry.after_all(operations.take(k)).possible(operations[k]),
        within_silent_period(
            registry.after_all(operations.take(k)),
            seq![operations[k]],
            id,
            entered,
        ),
    decreases k,
{
    let operation = operations[0];
    let later = operations.drop_first();
    assert(seq![operation].drop_first() =~= Seq::<Operation<T>>::empty());
    assert(within_silent_period(registry, seq![operation], id, entered)) by {
        reveal_with_fuel(within_silent_period, 2);
    }
    if k == 0 {
        assert(operations.take(0) =~= Seq::<Operation<T>>::empty());
        below
    } else {
        let still_below = lemma_stays_quiet(registry, operation, id, below, entered);
        assert(operations.take(k).drop_first() =~= later.take(k - 1));
        assert(operations.take(k)[0] == operation);
        assert(later[k - 1] == operations[k]);
        lemma_quiet_until(registry.after(operation), later, id, still_below, entered, k - 1)
    }
}

} // verus!
