//! Every operation on a registry keeps what holds of every registry.

use crate::model::{
    answered, climbs, granted, lemma_climb_avoids_child, lemma_climb_passes,
    lemma_request_from, RegistryView, Request, SpanView,
};
use crate::state::SpanState;
use vstd::prelude::*;

verus! {

/// A registry without spans is well-formed.
pub proof fn lemma_empty_wf<T>(silent_duration: u64)
    ensures
        RegistryView::<T>::empty(silent_duration).wf(),
{
}

/// Adding a thread keeps the registry well-formed.
pub proof fn lemma_registered_wf<T>(registry: RegistryView<T>)
    requires
        registry.wf(),
    ensures
        registry.registered().wf(),
{
    let registered = registry.registered();
    assert forall|id: u64| #[trigger]
        registered.holds_permission(id) implies registry.holds_permission(id) by {}
}

/// Creating a span keeps the registry well-formed, whatever its parent is said to be.
pub proof fn lemma_created_wf<T>(registry: RegistryView<T>, data: T, parent_id: Option<u64>)
    requires
        registry.wf(),
        registry.next_id != 0,
    ensures
        registry.created(data, parent_id).wf(),
        !registry.spans.contains_key(registry.next_id),
{
    let created = registry.created(data, parent_id);
    assert forall|id: u64| created.holds_permission(id) implies #[trigger]
        registry.holds_permission(id) by {}
    assert forall|id: u64, parent: u64|
        #![trigger created.holds_permission(id), created.spans.contains_key(parent)]
        created.holds_permission(id) && created.spans[id].parent_id == Some(parent)
            && created.spans.contains_key(parent) implies created.spans[parent].state
        == SpanState::PermissionBorrowed by {
        assert(registry.holds_permission(id));
        assert(registry.spans.contains_key(parent));
    }
    assert forall|id: u64| #[trigger]
        created.holds_permission(id) && created.next_id != 0 implies (
    created.spans[id].parent_id matches Some(parent) ==> parent < created.next_id) by {
        assert(registry.holds_permission(id));
    }
    assert forall|a: u64, b: u64| #[trigger]
        created.holds_permission(a) && #[trigger] created.holds_permission(b)
            && created.spans[a].parent_id is Some && created.spans[a].parent_id
            == created.spans[b].parent_id implies a == b by {
        assert(registry.holds_permission(a) && registry.holds_permission(b));
    }
}

/// Replacing a span by one with the same id, parent and state keeps the registry well-formed, as
/// long as the new one holds nothing back that it may not.
pub proof fn lemma_with_span_wf<T>(registry: RegistryView<T>, id: u64, span: SpanView<T>)
    requires
        registry.wf(),
        registry.spans.contains_key(id),
        span.id == id,
        span.parent_id == registry.spans[id].parent_id,
        span.state == registry.spans[id].state,
        span.state == SpanState::SilentPeriod || span.messages == registry.spans[id].messages,
        span.entered_time == registry.spans[id].entered_time,
    ensures
        registry.with_span(id, span).wf(),
{
    let replaced = registry.with_span(id, span);
    assert forall|other: u64| #[trigger] replaced.holds_permission(other) implies registry.holds_permission(
        other,
    ) by {}
}

/// Adding or dropping a handle keeps the registry well-formed.
pub proof fn lemma_handles_wf<T>(registry: RegistryView<T>, id: u64)
    requires
        registry.wf(),
        registry.spans.contains_key(id),
    ensures
        registry.cloned(id).wf(),
        registry.deleted(id).wf(),
{
    lemma_with_span_wf(registry, id, registry.cloned(id).spans[id]);
    if registry.spans[id].ref_counter == 1 {
        let deleted = registry.deleted(id);
        assert forall|other: u64| #[trigger]
            deleted.holds_permission(other) implies registry.holds_permission(other) by {}
    } else {
        lemma_with_span_wf(registry, id, registry.deleted(id).spans[id]);
    }
}

/// Entering a span that no thread is in keeps the registry well-formed.
pub proof fn lemma_entered_wf<T>(registry: RegistryView<T>, thread: int, id: u64, now: u64)
    requires
        registry.wf(),
        registry.spans.contains_key(id),
        registry.spans[id].state == SpanState::Inactive,
    ensures
        registry.entered(thread, id, now).wf(),
{
    let entered = registry.entered(thread, id, now);
    assert forall|other: u64| #[trigger] entered.holds_permission(other) implies registry.holds_permission(
        other,
    ) && other != id by {}
}

/// Leaving a span keeps the registry well-formed.
pub proof fn lemma_exited_wf<T>(registry: RegistryView<T>, thread: int, id: u64)
    requires
        registry.wf(),
        registry.can_exit(id),
    ensures
        registry.exited(thread, id).wf(),
        registry.spans[id].state == SpanState::PermissionAcquired ==> (
        registry.spans[id].parent_id matches Some(parent) ==> parent != id
            && registry.spans[parent].state == SpanState::PermissionBorrowed),
{
    let exited = registry.exited(thread, id);
    if registry.spans[id].state == SpanState::PermissionAcquired {
        assert(registry.holds_permission(id));
        if let Some(parent) = registry.spans[id].parent_id {
            assert(registry.spans.contains_key(parent));
        }
    }
    assert forall|other: u64| #[trigger] exited.holds_permission(other) implies registry.holds_permission(
        other,
    ) && other != id && exited.spans[other].parent_id == registry.spans[other].parent_id by {}
    assert forall|other: u64, parent: u64|
        #![trigger exited.holds_permission(other), exited.spans.contains_key(parent)]
        exited.holds_permission(other) && exited.spans[other].parent_id == Some(parent)
            && exited.spans.contains_key(parent) implies exited.spans[parent].state
        == SpanState::PermissionBorrowed by {
        assert(registry.holds_permission(other));
        assert(registry.spans.contains_key(parent));
    }
}

/// Answering a request keeps the registry well-formed. If the request is granted, the span at
/// which it starts lends the permission, to none of its children so far.
pub proof fn lemma_answered_wf<T>(registry: RegistryView<T>, start: Option<u64>, request: Request)
    requires
        registry.wf(),
        climbs(registry.spans, start, request),
    ensures
        (RegistryView { spans: answered(registry.spans, start), ..registry }).wf(),
        granted(registry.spans, start) ==> (start matches Some(lender) ==> {
            let spans = answered(registry.spans, start);
            &&& spans.contains_key(lender)
            &&& spans[lender].state == SpanState::PermissionBorrowed
            &&& forall|id: u64| #[trigger]
                spans.contains_key(id) && spans[id].parent_id == start
                    ==> !spans[id].state.holds_permission()
        }),
{
    lemma_request_from(registry.spans, start, request);
    lemma_climb_passes(registry.spans, start, request);
    let after = RegistryView { spans: answered(registry.spans, start), ..registry };
    assert forall|id: u64| #[trigger] after.holds_permission(id) implies registry.holds_permission(id)
        || (request.run.contains(id) && granted(registry.spans, start)) by {}
    // A span that is still in its silent period, or has the permission to itself, lends it to
    // none of its children.
    assert forall|id: u64, parent: u64|
        #![trigger registry.holds_permission(id), registry.spans.contains_key(parent)]
        registry.holds_permission(id) && registry.spans[id].parent_id == Some(parent)
            && registry.spans.contains_key(parent) implies !request.run.contains(parent) && (
    request.top == Some(parent) ==> !granted(registry.spans, start)) by {}
    assert(after.ids_given_out());
    assert(after.messages_accounted_for());
    assert forall|id: u64, parent: u64|
        #![trigger after.holds_permission(id), after.spans.contains_key(parent)]
        after.holds_permission(id) && after.spans[id].parent_id == Some(parent)
            && after.spans.contains_key(parent) implies after.spans[parent].state
        == SpanState::PermissionBorrowed by {
        assert(registry.spans.contains_key(parent));
        if request.run.contains(id) {
            let i = request.run.index_of(id);
            assert(registry.spans[id].parent_id == request.above(i));
            if i + 1 < request.run.len() {
                assert(request.run[i + 1] == parent);
                assert(request.run.contains(parent));
            }
        } else {
            assert(registry.holds_permission(id));
        }
    }
    assert forall|id: u64| #[trigger]
        after.holds_permission(id) && after.next_id != 0 implies (
    after.spans[id].parent_id matches Some(parent) ==> parent < after.next_id) by {
        if request.run.contains(id) {
            let i = request.run.index_of(id);
            assert(registry.spans[id].parent_id == request.above(i));
            if i + 1 < request.run.len() {
                assert(registry.spans.contains_key(request.run[i + 1]));
            }
        } else {
            assert(registry.holds_permission(id));
        }
    }
    assert forall|a: u64, b: u64| #[trigger]
        after.holds_permission(a) && #[trigger] after.holds_permission(b)
            && after.spans[a].parent_id is Some && after.spans[a].parent_id
            == after.spans[b].parent_id implies a == b by {
        let parent = after.spans[a].parent_id->0;
        if request.run.contains(a) || request.run.contains(b) {
            let c = if request.run.contains(a) {
                a
            } else {
                b
            };
            let d = if request.run.contains(a) {
                b
            } else {
                a
            };
            let i = request.run.index_of(c);
            assert(registry.spans[c].parent_id == request.above(i));
            if i + 1 < request.run.len() {
                assert(request.run[i + 1] == parent);
                assert(request.run.contains(parent));
            }
            assert(registry.spans.contains_key(parent));
            if request.run.contains(d) {
                let j = request.run.index_of(d);
                assert(registry.spans[d].parent_id == request.above(j));
                if j + 1 < request.run.len() {
                    assert(request.run[j + 1] == parent);
                    assert(request.run.contains(parent));
                }
                assert(i == j);
            } else {
                assert(registry.holds_permission(d));
            }
        } else {
            assert(registry.holds_permission(a) && registry.holds_permission(b));
        }
    }
    if granted(registry.spans, start) {
        if let Some(lender) = start {
            if request.run.len() > 0 {
                assert(request.run.contains(request.run[0]));
            }
            assert(registry.spans.contains_key(lender));
            assert forall|id: u64| #[trigger]
                after.spans.contains_key(id) && after.spans[id].parent_id
                    == start implies !after.spans[id].state.holds_permission() by {
                if request.run.contains(id) {
                    let i = request.run.index_of(id);
                    assert(registry.spans[id].parent_id == request.above(i));
                    if i + 1 < request.run.len() {
                        assert(request.run[i + 1] == lender);
                        assert(request.run[0] == lender);
                    } else {
                        assert(request.run.contains(request.run[0]));
                    }
                    assert(false);
                } else if request.top == Some(id) {
                    if registry.holds_permission(id) {
                        assert(false);
                    }
                } else if registry.spans[id].state.holds_permission() {
                    assert(registry.holds_permission(id));
                }
            }
        }
    }
}

/// Sending a message keeps the registry well-formed.
pub proof fn lemma_sent_wf<T>(registry: RegistryView<T>, id: u64, message: String, now: u64)
    requires
        registry.wf(),
        registry.can_send(id, now),
    ensures
        registry.sent(id, message, now).wf(),
{
    let span = registry.spans[id];
    let sent = registry.sent(id, message, now);
    if span.state == SpanState::SilentPeriod {
        if !registry.period_over(id, now) {
            lemma_with_span_wf(registry, id, sent.spans[id]);
        } else {
            let start = span.parent_id;
            let request = choose|request: Request| #[trigger]
                climbs(registry.spans, start, request) && (request.top matches Some(top)
                    ==> registry.spans[top].state != SpanState::Inactive);
            lemma_answered_wf(registry, start, request);
            lemma_request_from(registry.spans, start, request);
            lemma_climb_avoids_child(registry.spans, id, request);
            let after = RegistryView { spans: answered(registry.spans, start), ..registry };
            assert(after.spans[id] == span);
            assert forall|other: u64| other != id implies #[trigger] sent.holds_permission(other)
                == after.holds_permission(other) by {}
            assert forall|other: u64, parent: u64|
                #![trigger sent.holds_permission(other), sent.spans.contains_key(parent)]
                sent.holds_permission(other) && sent.spans[other].parent_id == Some(parent)
                    && sent.spans.contains_key(parent) implies sent.spans[parent].state
                == SpanState::PermissionBorrowed by {
                assert(after.spans.contains_key(parent));
                if other != id {
                    assert(after.holds_permission(other));
                }
            }
            assert forall|other: u64| #[trigger]
                sent.holds_permission(other) && sent.next_id != 0 implies (
            sent.spans[other].parent_id matches Some(parent) ==> parent < sent.next_id) by {
                if other != id {
                    assert(after.holds_permission(other));
                } else if let Some(parent) = start {
                    assert(registry.spans.contains_key(parent));
                }
            }
            assert forall|a: u64, b: u64| #[trigger]
                sent.holds_permission(a) && #[trigger] sent.holds_permission(b)
                    && sent.spans[a].parent_id is Some && sent.spans[a].parent_id
                    == sent.spans[b].parent_id implies a == b by {
                if a != id {
                    assert(after.holds_permission(a));
                    assert(after.spans.contains_key(a));
                }
                if b != id {
                    assert(after.holds_permission(b));
                    assert(after.spans.contains_key(b));
                }
            }
        }
    }
}

} // verus!
