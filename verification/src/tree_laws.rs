//! What holds of the permission to print within each tree of spans.

use crate::model::{
    climbs, granted, lemma_climb_avoids_child, lemma_climb_passes, lemma_request_from,
    RegistryView, Request, SpanView,
};
use crate::preservation::lemma_empty_wf;
use crate::state::SpanState;
use crate::trace::{lemma_after_wf, Operation};
use vstd::prelude::*;

verus! {

/// From `lower`, going to the parent `steps` times leads to `upper`.
pub open spec fn is_above<T>(
    spans: Map<u64, SpanView<T>>,
    upper: u64,
    lower: u64,
    steps: nat,
) -> bool
    decreases steps,
{
    if steps == 0 {
        upper == lower
    } else {
        spans.contains_key(lower) && (spans[lower].parent_id matches Some(parent) && is_above(
            spans,
            upper,
            parent,
            (steps - 1) as nat,
        ))
    }
}

/// `upper` is a proper ancestor of `lower`.
pub open spec fn is_ancestor<T>(spans: Map<u64, SpanView<T>>, upper: u64, lower: u64) -> bool {
    exists|steps: nat| steps > 0 && #[trigger] is_above(spans, upper, lower, steps)
}

/// The two spans are in one tree: both are below one span, or are that span.
pub open spec fn same_tree<T>(spans: Map<u64, SpanView<T>>, a: u64, b: u64) -> bool {
    exists|top: u64, m: nat, n: nat| #[trigger]
        is_above(spans, top, a, m) && #[trigger] is_above(spans, top, b, n)
}

/// If `a` has the permission to itself, no other span of its tree has, and the spans of the tree that
/// lend it are the proper ancestors of `a`. If `b` lends the permission, a span below it has it to
/// itself.
pub open spec fn one_holder_per_tree<T>(spans: Map<u64, SpanView<T>>, a: u64, b: u64) -> bool {
    &&& spans.contains_key(a) && spans[a].state == SpanState::PermissionAcquired ==> {
        &&& spans.contains_key(b) && spans[b].state == SpanState::PermissionAcquired && same_tree(
            spans,
            a,
            b,
        ) ==> a == b
        &&& (spans.contains_key(b) && spans[b].state == SpanState::PermissionBorrowed && same_tree(
            spans,
            a,
            b,
        )) <==> is_ancestor(spans, b, a)
    }
    &&& spans.contains_key(b) && spans[b].state == SpanState::PermissionBorrowed ==> exists|
        holder: u64,
    | #[trigger]
        spans.contains_key(holder) && spans[holder].state == SpanState::PermissionAcquired
            && is_ancestor(spans, b, holder) && same_tree(spans, b, holder)
}

impl<T> RegistryView<T> {
    /// The child is registered below the parent and has the permission.
    pub open spec fn lends(self, parent: u64, child: u64) -> bool {
        self.holds_permission(child) && self.spans[child].parent_id == Some(parent)
    }

    /// The permission is handed down the trees without a gap: parents come before their children,
    /// the parent of a span that has the permission is registered and lends it, and a span that
    /// lends the permission has a child that has it.
    pub open spec fn permission_is_handed_down(self) -> bool {
        &&& forall|id: u64| #[trigger]
            self.spans.contains_key(id) ==> (self.spans[id].parent_id matches Some(parent) ==> parent
                < id)
        &&& forall|id: u64| #[trigger]
            self.holds_permission(id) ==> (self.spans[id].parent_id matches Some(parent)
                ==> self.spans.contains_key(parent) && self.spans[parent].state
                == SpanState::PermissionBorrowed)
        &&& forall|id: u64| #[trigger]
            self.spans.contains_key(id) && self.spans[id].state == SpanState::PermissionBorrowed
                ==> exists|child: u64| self.lends(id, child)
    }
}

/// An orderly operation keeps the permission handed down without a gap.
proof fn lemma_stays_handed_down<T>(registry: RegistryView<T>, operation: Operation<T>)
    requires
        registry.wf(),
        registry.permission_is_handed_down(),
        registry.possible(operation),
        registry.is_orderly(operation),
    ensures
        registry.after(operation).permission_is_handed_down(),
{
    let next = registry.after(operation);
    lemma_after_wf(registry, operation);
    match operation {
        Operation::Send { id: sender, message, now } => {
            lemma_message_hands_down(registry, sender, message, now);
        },
        Operation::Exit { id: left, .. } => {
            if registry.spans[left].state == SpanState::PermissionAcquired {
                assert(registry.holds_permission(left));
            }
            assert forall|id: u64| #[trigger] next.holds_permission(id) implies (
            next.spans[id].parent_id matches Some(parent) ==> next.spans.contains_key(parent)
                && next.spans[parent].state == SpanState::PermissionBorrowed) by {
                assert(registry.holds_permission(id));
                if let Some(parent) = next.spans[id].parent_id {
                    assert(next.spans.contains_key(parent));
                }
            }
            assert forall|id: u64| #[trigger]
                next.spans.contains_key(id) && next.spans[id].state
                    == SpanState::PermissionBorrowed implies exists|child: u64|
                next.lends(id, child) by {
                assert(registry.spans.contains_key(id));
                let child = choose|child: u64| registry.lends(id, child);
                assert(next.lends(id, child));
            }
        },
        _ => {
            assert forall|id: u64| #[trigger] next.holds_permission(id) implies
                registry.holds_permission(id) && next.spans[id].parent_id
                == registry.spans[id].parent_id by {}
            assert forall|id: u64| #[trigger]
                next.spans.contains_key(id) && next.spans[id].state
                    == SpanState::PermissionBorrowed implies exists|child: u64|
                next.lends(id, child) by {
                assert(registry.spans.contains_key(id));
                let child = choose|child: u64| registry.lends(id, child);
                assert(next.lends(id, child));
            }
        },
    }
}

/// A message keeps the permission handed down without a gap.
proof fn lemma_message_hands_down<T>(
    registry: RegistryView<T>,
    sender: u64,
    message: String,
    now: u64,
)
    requires
        registry.wf(),
        registry.permission_is_handed_down(),
        registry.can_send(sender, now),
    ensures
        registry.sent(sender, message, now).permission_is_handed_down(),
{
    let next = registry.sent(sender, message, now);
    let start = registry.spans[sender].parent_id;
    if registry.spans[sender].state == SpanState::SilentPeriod && registry.period_over(sender, now) {
        let request = choose|request: Request| #[trigger]
            climbs(registry.spans, start, request) && (request.top matches Some(top)
                ==> registry.spans[top].state != SpanState::Inactive);
        lemma_climb_passes(registry.spans, start, request);
        lemma_climb_avoids_child(registry.spans, sender, request);
        lemma_request_from(registry.spans, start, request);
        assert forall|id: u64| #[trigger] next.spans.contains_key(id) implies
            registry.spans.contains_key(id) && next.spans[id].parent_id
            == registry.spans[id].parent_id by {}
        assert forall|id: u64| #[trigger] registry.holds_permission(id) implies
            next.holds_permission(id) by {}
        lemma_after_wf(registry, Operation::Send { id: sender, message, now });
        assert forall|id: u64| #[trigger] next.holds_permission(id) implies (
        next.spans[id].parent_id matches Some(parent) ==> next.spans.contains_key(parent)
            && next.spans[parent].state == SpanState::PermissionBorrowed) by {
            if let Some(parent) = next.spans[id].parent_id {
                if id == sender {
                    assert(registry.spans.contains_key(parent));
                } else if request.run.contains(id) {
                    let i = request.run.index_of(id);
                    assert(registry.spans[id].parent_id == request.above(i));
                    if i + 1 < request.run.len() {
                        assert(registry.spans.contains_key(request.run[i + 1]));
                    }
                } else {
                    assert(registry.holds_permission(id));
                }
                assert(next.spans.contains_key(parent));
            }
        }
        assert forall|id: u64| #[trigger]
            next.spans.contains_key(id) && next.spans[id].state
                == SpanState::PermissionBorrowed implies exists|child: u64|
            next.lends(id, child) by {
            assert(registry.spans.contains_key(id));
            if request.run.contains(id) || request.top == Some(id) && granted(
                registry.spans,
                start,
            ) {
                let k = if request.run.contains(id) {
                    request.run.index_of(id)
                } else {
                    request.run.len() as int
                };
                let child = if k == 0 {
                    sender
                } else {
                    request.run[k - 1]
                };
                if k > 0 {
                    assert(registry.spans[child].parent_id == request.above(k - 1));
                    assert(request.run.contains(child));
                    assert(registry.spans.contains_key(child));
                }
                assert(next.lends(id, child));
            } else {
                let child = choose|child: u64| registry.lends(id, child);
                assert(registry.holds_permission(child));
                assert(next.lends(id, child));
            }
        }
    } else {
        assert forall|id: u64| #[trigger] next.holds_permission(id) implies
            registry.holds_permission(id) by {}
        assert forall|id: u64| #[trigger]
            next.spans.contains_key(id) && next.spans[id].state
                == SpanState::PermissionBorrowed implies exists|child: u64|
            next.lends(id, child) by {
            assert(registry.spans.contains_key(id));
            let child = choose|child: u64| registry.lends(id, child);
            assert(next.lends(id, child));
        }
    }
}

/// Orderly operations keep the permission handed down without a gap.
pub proof fn lemma_all_stay_handed_down<T>(registry: RegistryView<T>, operations: Seq<Operation<T>>)
    requires
        registry.wf(),
        registry.permission_is_handed_down(),
        registry.all_possible(operations),
        registry.all_orderly(operations),
    ensures
        registry.after_all(operations).wf(),
        registry.after_all(operations).permission_is_handed_down(),
    decreases operations.len(),
{
    if operations.len() > 0 {
        lemma_after_wf(registry, operations[0]);
        lemma_stays_handed_down(registry, operations[0]);
        lemma_all_stay_handed_down(registry.after(operations[0]), operations.drop_first());
    }
}

/// The last step up to a span comes from a child of it.
proof fn lemma_last_step<T>(spans: Map<u64, SpanView<T>>, upper: u64, lower: u64, steps: nat) -> (
    child: u64)
    requires
        steps > 0,
        is_above(spans, upper, lower, steps),
    ensures
        is_above(spans, child, lower, (steps - 1) as nat),
        spans.contains_key(child),
        spans[child].parent_id == Some(upper),
    decreases steps,
{
    let parent = spans[lower].parent_id->0;
    assert(is_above(spans, upper, parent, (steps - 1) as nat));
    if steps == 1 {
        lower
    } else {
        lemma_last_step(spans, upper, parent, (steps - 1) as nat)
    }
}

/// One more step up.
proof fn lemma_one_step_further<T>(
    spans: Map<u64, SpanView<T>>,
    child: u64,
    lower: u64,
    steps: nat,
)
    requires
        is_above(spans, child, lower, steps),
        spans.contains_key(child),
        spans[child].parent_id is Some,
    ensures
        is_above(spans, spans[child].parent_id->0, lower, steps + 1),
    decreases steps,
{
    if steps > 0 {
        lemma_one_step_further(spans, child, spans[lower].parent_id->0, (steps - 1) as nat);
    } else {
        assert(is_above(spans, spans[child].parent_id->0, spans[child].parent_id->0, 0));
    }
}

/// All spans above one that has the permission lend it.
proof fn lemma_above_lend<T>(registry: RegistryView<T>, upper: u64, lower: u64, steps: nat)
    requires
        registry.permission_is_handed_down(),
        registry.holds_permission(lower),
        is_above(registry.spans, upper, lower, steps),
    ensures
        registry.holds_permission(upper),
        steps > 0 ==> registry.spans[upper].state == SpanState::PermissionBorrowed,
    decreases steps,
{
    if steps > 0 {
        let parent = registry.spans[lower].parent_id->0;
        assert(registry.holds_permission(parent));
        assert(is_above(registry.spans, upper, parent, (steps - 1) as nat));
        lemma_above_lend(registry, upper, parent, (steps - 1) as nat);
    }
}

/// Below a span that lends the permission there is one that has it to itself.
proof fn lemma_below_lender<T>(registry: RegistryView<T>, lender: u64) -> (found: (u64, nat))
    requires
        registry.permission_is_handed_down(),
        registry.spans.contains_key(lender),
        registry.spans[lender].state == SpanState::PermissionBorrowed,
    ensures
        registry.spans.contains_key(found.0),
        registry.spans[found.0].state == SpanState::PermissionAcquired,
        found.1 > 0,
        is_above(registry.spans, lender, found.0, found.1),
    decreases u64::MAX - lender,
{
    let child = choose|child: u64| registry.lends(lender, child);
    assert(registry.lends(lender, child));
    if registry.spans[child].state == SpanState::PermissionAcquired {
        lemma_one_step_further(registry.spans, child, child, 0);
        (child, 1)
    } else {
        let (holder, steps) = lemma_below_lender(registry, child);
        lemma_one_step_further(registry.spans, child, holder, steps);
        (holder, steps + 1)
    }
}

/// Of two spans of one tree that have the permission, the one that is not further down is above the
/// other.
proof fn lemma_holders_are_in_line<T>(
    registry: RegistryView<T>,
    top: u64,
    a: u64,
    b: u64,
    m: nat,
    n: nat,
)
    requires
        registry.wf(),
        registry.permission_is_handed_down(),
        registry.holds_permission(a),
        registry.holds_permission(b),
        is_above(registry.spans, top, a, m),
        is_above(registry.spans, top, b, n),
        m <= n,
    ensures
        is_above(registry.spans, a, b, (n - m) as nat),
    decreases m,
{
    if m > 0 {
        let parent = registry.spans[a].parent_id->0;
        assert(registry.holds_permission(parent));
        lemma_holders_are_in_line(registry, top, parent, b, (m - 1) as nat, n);
        let child = lemma_last_step(registry.spans, parent, b, (n - m + 1) as nat);
        lemma_above_lend(registry, child, b, (n - m) as nat);
        assert(registry.holds_permission(child));
    }
}

/// Where the permission is handed down without a gap, there is one holder per tree.
pub proof fn lemma_one_holder_per_tree<T>(registry: RegistryView<T>, a: u64, b: u64)
    requires
        registry.wf(),
        registry.permission_is_handed_down(),
    ensures
        one_holder_per_tree(registry.spans, a, b),
{
    let spans = registry.spans;
    if spans.contains_key(a) && spans[a].state == SpanState::PermissionAcquired {
        assert(registry.holds_permission(a));
        if registry.holds_permission(b) && same_tree(spans, a, b) {
            let (top, m, n) = choose|top: u64, m: nat, n: nat| #[trigger]
                is_above(spans, top, a, m) && #[trigger] is_above(spans, top, b, n);
            if m <= n {
                lemma_holders_are_in_line(registry, top, a, b, m, n);
                lemma_above_lend(registry, a, b, (n - m) as nat);
            } else {
                lemma_holders_are_in_line(registry, top, b, a, n, m);
                lemma_above_lend(registry, b, a, (m - n) as nat);
            }
        }
        if is_ancestor(spans, b, a) {
            let steps = choose|steps: nat| steps > 0 && #[trigger] is_above(spans, b, a, steps);
            lemma_above_lend(registry, b, a, steps);
            assert(is_above(spans, b, b, 0));
        }
    }
    if spans.contains_key(b) && spans[b].state == SpanState::PermissionBorrowed {
        let (holder, steps) = lemma_below_lender(registry, b);
        assert(is_above(spans, b, b, 0));
        assert(is_above(spans, b, holder, steps));
        assert(spans.contains_key(holder));
    }
}

/// In each tree of spans at most one span has the permission to itself, and the spans that lend it
/// are exactly the proper ancestors of that one: no span lends it if none has it. This is so after
/// any operations on a new registry that name registered spans as parents and take no span away
/// that a thread is in.
pub proof fn law_one_holder_per_tree<T>(
    silent_duration: u64,
    operations: Seq<Operation<T>>,
    a: u64,
    b: u64,
)
    requires
        RegistryView::<T>::empty(silent_duration).all_possible(operations),
        RegistryView::<T>::empty(silent_duration).all_orderly(operations),
    ensures
        one_holder_per_tree(
            RegistryView::<T>::empty(silent_duration).after_all(operations).spans,
            a,
            b,
        ),
{
    lemma_empty_wf::<T>(silent_duration);
    lemma_all_stay_handed_down(RegistryView::<T>::empty(silent_duration), operations);
    lemma_one_holder_per_tree(
        RegistryView::<T>::empty(silent_duration).after_all(operations),
        a,
        b,
    );
}

} // verus!
