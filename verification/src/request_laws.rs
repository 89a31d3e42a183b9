//! What becomes of a request for the permission, whatever the spans are.

use crate::model::{
    answer_output, answerable, answered, climbs, granted, group_requests, held_back,
    lemma_climb_avoids_child, lemma_request_from, request_from, Request, SpanView,
};
use crate::registry::SpanRegistry;
use crate::state::SpanState;
use vstd::prelude::*;

verus! {

/// A request that got past a root is granted; nobody is involved, and nothing is printed.
pub proof fn law_request_past_a_root<T>(spans: Map<u64, SpanView<T>>)
    ensures
        answerable(spans, None),
        granted(spans, None),
        answered(spans, None) == spans,
        answer_output(spans, None).len() == 0,
{
    broadcast use group_requests;

    assert(request_from(spans, None).run.len() == 0);
    assert(answered(spans, None) =~= spans);
}

/// A span that has the permission to itself lends it, and nothing else happens.
pub proof fn law_request_to_a_holder<T>(spans: Map<u64, SpanView<T>>, id: u64)
    requires
        spans.contains_key(id),
        spans[id].state == SpanState::PermissionAcquired,
    ensures
        answerable(spans, Some(id)),
        granted(spans, Some(id)),
        answered(spans, Some(id)) == spans.insert(
            id,
            SpanView { state: SpanState::PermissionBorrowed, ..spans[id] },
        ),
        answer_output(spans, Some(id)).len() == 0,
{
    broadcast use group_requests;

    assert(request_from(spans, Some(id)).run.len() == 0);
    assert(answered(spans, Some(id)) =~= spans.insert(
        id,
        SpanView { state: SpanState::PermissionBorrowed, ..spans[id] },
    ));
}

/// A span that lends the permission already, or was denied it, denies it, and nothing else happens.
pub proof fn law_request_is_denied<T>(spans: Map<u64, SpanView<T>>, id: u64)
    requires
        spans.contains_key(id),
        spans[id].state == SpanState::PermissionBorrowed || spans[id].state
            == SpanState::PermissionDenied,
    ensures
        answerable(spans, Some(id)),
        !granted(spans, Some(id)),
        answered(spans, Some(id)) == spans,
        answer_output(spans, Some(id)).len() == 0,
{
    broadcast use group_requests;

    assert(request_from(spans, Some(id)).run.len() == 0);
    assert(answered(spans, Some(id)) =~= spans);
}

/// A span in its silent period gets the permission if and only if its parent grants it. If so, the
/// span lends it on, and what it held back is printed after what was held back further up. If not,
/// the span is denied it, and nothing is printed. Everything else is as the parent leaves it.
pub proof fn law_request_is_passed_on<T>(spans: Map<u64, SpanView<T>>, id: u64)
    requires
        spans.contains_key(id),
        spans[id].state == SpanState::SilentPeriod,
        answerable(spans, spans[id].parent_id),
    ensures
        answerable(spans, Some(id)),
        granted(spans, Some(id)) == granted(spans, spans[id].parent_id),
        granted(spans, Some(id)) ==> {
            &&& answered(spans, Some(id)) == answered(spans, spans[id].parent_id).insert(
                id,
                SpanView {
                    state: SpanState::PermissionBorrowed,
                    messages: Seq::empty(),
                    ..spans[id]
                },
            )
            &&& answer_output(spans, Some(id)) == answer_output(spans, spans[id].parent_id)
                + spans[id].messages
        },
        !granted(spans, Some(id)) ==> {
            &&& answered(spans, Some(id)) == answered(spans, spans[id].parent_id).insert(
                id,
                SpanView { state: SpanState::PermissionDenied, ..spans[id] },
            )
            &&& answer_output(spans, Some(id)).len() == 0
        },
{
    broadcast use group_requests;

    let parent = spans[id].parent_id;
    let rest = choose|rest: Request| #[trigger]
        climbs(spans, parent, rest) && (rest.top matches Some(top) ==> spans[top].state
            != SpanState::Inactive);
    lemma_request_from(spans, parent, rest);
    lemma_climb_avoids_child(spans, id, rest);
    let run = seq![id] + rest.run;
    assert(request_from(spans, Some(id)) == (Request { run, top: rest.top }));
    assert forall|other: u64| run.contains(other) == (other == id || rest.run.contains(other)) by {
        if rest.run.contains(other) {
            assert(run[rest.run.index_of(other) + 1] == other);
        }
        if other == id {
            assert(run[0] == other);
        }
        if run.contains(other) && other != id {
            assert(rest.run[run.index_of(other) - 1] == other);
        }
    }
    if granted(spans, Some(id)) {
        assert(answered(spans, Some(id)) =~= answered(spans, parent).insert(
            id,
            SpanView {
                state: SpanState::PermissionBorrowed,
                messages: Seq::empty(),
                ..spans[id]
            },
        ));
        assert(held_back(spans, run) == held_back(spans, rest.run) + spans[id].messages);
    } else {
        assert(answered(spans, Some(id)) =~= answered(spans, parent).insert(
            id,
            SpanView { state: SpanState::PermissionDenied, ..spans[id] },
        ));
    }
}

/// A request cannot be answered by a span that is gone, or that no thread is in, or that has to pass
/// it on to where it cannot be answered.
pub proof fn law_request_without_answer<T>(spans: Map<u64, SpanView<T>>, id: u64)
    requires
        !spans.contains_key(id) || spans[id].state == SpanState::Inactive || (spans[id].state
            == SpanState::SilentPeriod && !answerable(spans, spans[id].parent_id)),
    ensures
        !answerable(spans, Some(id)),
{
    assert forall|request: Request| #[trigger] climbs(spans, Some(id), request) implies (
    request.top matches Some(top) && spans[top].state == SpanState::Inactive) by {
        if request.run.len() > 0 {
            let rest = Request { run: request.run.drop_first(), top: request.top };
            assert(climbs(spans, spans[id].parent_id, rest));
        }
    }
}

/// Asking a span that has the permission to itself for it: it is lent, and nothing is printed.
pub proof fn law_borrowing_from_a_holder<T>(
    registry: &mut SpanRegistry<T>,
    id: u64,
    out: &mut Vec<String>,
    lent: bool,
)
    requires
        call_ensures(SpanRegistry::<T>::borrow_permission, (registry, id, out), lent),
        old(registry)@.spans.contains_key(id),
        old(registry)@.spans[id].state == SpanState::PermissionAcquired,
    ensures
        lent,
        final(out)@ == old(out)@,
        final(registry)@.spans == old(registry)@.spans.insert(
            id,
            SpanView {
                state: SpanState::PermissionBorrowed,
                ..old(registry)@.spans[id]
            },
        ),
        final(registry)@.stacks == old(registry)@.stacks,
        final(registry)@.next_id == old(registry)@.next_id,
        final(registry)@.silent_duration == old(registry)@.silent_duration,
{
    law_request_to_a_holder(registry@.spans, id);
}

/// Asking a span that lends the permission already, or was denied it: it is not lent, and nothing
/// changes.
pub proof fn law_borrowing_in_vain<T>(
    registry: &mut SpanRegistry<T>,
    id: u64,
    out: &mut Vec<String>,
    lent: bool,
)
    requires
        call_ensures(SpanRegistry::<T>::borrow_permission, (registry, id, out), lent),
        old(registry)@.spans.contains_key(id),
        old(registry)@.spans[id].state == SpanState::PermissionBorrowed || old(registry)@.spans[id].state == SpanState::PermissionDenied,
    ensures
        !lent,
        final(out)@ == old(out)@,
        final(registry)@ == old(registry)@,
{
    law_request_is_denied(registry@.spans, id);
}

/// Asking a root in its silent period: it gets the permission and lends it, and what it held back is
/// printed.
pub proof fn law_borrowing_from_a_silent_root<T>(
    registry: &mut SpanRegistry<T>,
    id: u64,
    out: &mut Vec<String>,
    lent: bool,
)
    requires
        call_ensures(SpanRegistry::<T>::borrow_permission, (registry, id, out), lent),
        old(registry)@.spans.contains_key(id),
        old(registry)@.spans[id].state == SpanState::SilentPeriod,
        old(registry)@.spans[id].parent_id is None,
    ensures
        lent,
        final(out)@ == old(out)@ + old(registry)@.spans[id].messages,
        final(registry)@.spans == old(registry)@.spans.insert(
            id,
            SpanView {
                state: SpanState::PermissionBorrowed,
                messages: Seq::empty(),
                ..old(registry)@.spans[id]
            },
        ),
        final(registry)@.stacks == old(registry)@.stacks,
        final(registry)@.next_id == old(registry)@.next_id,
        final(registry)@.silent_duration == old(registry)@.silent_duration,
{
    law_request_past_a_root(registry@.spans);
    law_request_is_passed_on(registry@.spans, id);
    assert(answer_output(registry@.spans, Some(id)) =~= registry@.spans[id].messages);
}

/// Asking a span in its silent period is asking its parent, and then passing on what came of it: the
/// two calls lend alike, and they leave all spans alike but for the span itself.
pub proof fn law_borrowing_asks_the_parent<T>(
    registry: &mut SpanRegistry<T>,
    id: u64,
    out: &mut Vec<String>,
    lent: bool,
    asked: &mut SpanRegistry<T>,
    parent: u64,
    parent_out: &mut Vec<String>,
    parent_lent: bool,
)
    requires
        call_ensures(SpanRegistry::<T>::borrow_permission, (registry, id, out), lent),
        call_ensures(
            SpanRegistry::<T>::borrow_permission,
            (asked, parent, parent_out),
            parent_lent,
        ),
        call_ensures(SpanRegistry::<T>::is_answerable, (old(registry), Some(parent)), true),
        old(asked)@ == old(registry)@,
        old(parent_out)@ == old(out)@,
        old(registry)@.spans.contains_key(id),
        old(registry)@.spans[id].state == SpanState::SilentPeriod,
        old(registry)@.spans[id].parent_id == Some(parent),
    ensures
        lent == parent_lent,
        lent ==> {
            &&& final(out)@ == final(parent_out)@ + old(registry)@.spans[id].messages
            &&& final(registry)@.spans == final(asked)@.spans.insert(
                id,
                SpanView {
                    state: SpanState::PermissionBorrowed,
                    messages: Seq::empty(),
                    ..old(registry)@.spans[id]
                },
            )
        },
        !lent ==> {
            &&& final(out)@ == old(out)@
            &&& final(parent_out)@ == old(out)@
            &&& final(registry)@.spans == final(asked)@.spans.insert(
                id,
                SpanView {
                    state: SpanState::PermissionDenied,
                    ..old(registry)@.spans[id]
                },
            )
        },
{
    law_request_is_passed_on(registry@.spans, id);
    let above = answer_output(registry@.spans, Some(parent));
    let held = registry@.spans[id].messages;
    assert(out@ + (above + held) =~= (out@ + above) + held);
    if !lent {
        assert(answer_output(registry@.spans, Some(parent)).len() == 0);
    }
}

/// When a request can be answered: past a root it can; a span that is gone or that no thread is in
/// cannot answer it; a span about which it was decided can; and a span in its silent period can if
/// its parent can.
pub proof fn law_when_a_request_can_be_answered<T>(
    registry: SpanRegistry<T>,
    start: Option<u64>,
    possible: bool,
    above: bool,
)
    requires
        call_ensures(SpanRegistry::<T>::is_answerable, (&registry, start), possible),
        start matches Some(id) ==> call_ensures(
            SpanRegistry::<T>::is_answerable,
            (&registry, registry@.spans[id].parent_id),
            above,
        ),
    ensures
        possible == (match start {
            None => true,
            Some(id) => registry@.spans.contains_key(id) && (match registry@.spans[id].state {
                SpanState::Inactive => false,
                SpanState::SilentPeriod => above,
                SpanState::PermissionAcquired => true,
                SpanState::PermissionDenied => true,
                SpanState::PermissionBorrowed => true,
            }),
        }),
{
    broadcast use group_requests;

    if let Some(id) = start {
        if registry@.spans.contains_key(id) && registry@.spans[id].state == SpanState::SilentPeriod
            && above {
            law_request_is_passed_on(registry@.spans, id);
        } else if !registry@.spans.contains_key(id) || registry@.spans[id].state
            == SpanState::Inactive || registry@.spans[id].state == SpanState::SilentPeriod {
            law_request_without_answer(registry@.spans, id);
        }
    }
}

} // verus!
