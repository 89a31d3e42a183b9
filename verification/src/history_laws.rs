//! What holds of every sequence of calls to a logger.

use crate::color::palette;
use crate::history::{
    law_calls_are_operations, lemma_call_keeps_descriptions, Call, History,
};
use crate::laws::{
    all_quiet, given_out, holds_all_below, law_ids_are_not_reused, lemma_all_stay_quiet, parents_given_out,
    within_silent_period,
};
use crate::logger::SpanDescription;
use crate::model::RegistryView;
use crate::preservation::lemma_empty_wf;
use crate::print_laws::law_palette_cycles;
use crate::state::SpanState;
use crate::trace::{lemma_after_wf, Operation};
use crate::tree_laws::{
    lemma_all_stay_handed_down, lemma_one_holder_per_tree, one_holder_per_tree,
};
use vstd::prelude::*;

verus! {

impl RegistryView<SpanDescription> {
    /// A root has no color, and every other span is one level below its parent and, unless that is a
    /// root, has the color of its parent, if the parent is still registered.
    pub open spec fn colors_are_inherited(self) -> bool {
        &&& forall|id: u64| #[trigger]
            self.spans.contains_key(id) ==> (self.spans[id].parent_id is None
                <==> self.spans[id].data.depth == 0)
        &&& forall|id: u64, parent: u64| #[trigger]
            self.spans.contains_key(id) && #[trigger] self.spans.contains_key(parent)
                && self.spans[id].parent_id == Some(parent) ==> {
                &&& self.spans[id].data.depth == self.spans[parent].data.depth + 1
                &&& self.spans[parent].data.depth > 0 ==> self.spans[id].data.color
                    == self.spans[parent].data.color
            }
    }
}

impl History {
    /// After the first `k` calls, the roots have counted their children, and colors are inherited.
    spec fn children_are_counted(self, k: int) -> bool {
        let state = self.states[k];
        &&& state.wf()
        &&& state.described()
        &&& parents_given_out(state)
        &&& state.colors_are_inherited()
        &&& forall|id: u64| !given_out(state, id) ==> #[trigger] self.children(id, k) == 0
        &&& forall|root: u64|
            state.spans.contains_key(root) && state.spans[root].data.depth == 0
                && #[trigger] self.children(root, k) <= usize::MAX
                ==> state.spans[root].data.color_counter == Some(self.children(root, k) as usize)
    }
}

/// At every point of a history the roots have counted their children.
proof fn lemma_children_are_counted(history: History, k: int)
    requires
        history.wf(),
        0 <= k <= history.calls.len(),
    ensures
        history.children_are_counted(k),
    decreases k,
{
    if k == 0 {
        lemma_empty_wf::<SpanDescription>(history.silent_period);
    } else {
        let before = history.states[k - 1];
        let after = history.states[k];
        let call = history.calls[k - 1];
        lemma_children_are_counted(history, k - 1);
        assert(before.answers(history.levels, history.max_depth, call, after));
        lemma_call_keeps_descriptions(before, history.levels, history.max_depth, call, after);
        assert forall|id: u64| #[trigger] after.spans.contains_key(id) implies
            before.spans.contains_key(id) || (call matches Call::NewSpan { created: Some(new), .. } && new
            == id) by {
            assert(after.spans.dom().contains(id));
        }
        assert(parents_given_out(after));
        assert forall|id: u64, parent: u64| #[trigger]
            after.spans.contains_key(id) && #[trigger] after.spans.contains_key(parent)
                && after.spans[id].parent_id == Some(parent) implies {
            &&& after.spans[id].data.depth == after.spans[parent].data.depth + 1
            &&& after.spans[parent].data.depth > 0 ==> after.spans[id].data.color
                == after.spans[parent].data.color
        } by {
            assert(before.spans.contains_key(parent));
            if before.spans.contains_key(id) {
                assert(before.spans[id].data.wf());
            }
            assert(before.spans[parent].data.wf());
        }
        assert forall|id: u64| !given_out(after, id) implies #[trigger] history.children(id, k)
            == 0 by {
            assert(history.children(id, k - 1) == 0);
        }
        assert forall|root: u64|
            after.spans.contains_key(root) && after.spans[root].data.depth == 0
                && #[trigger] history.children(root, k) <= usize::MAX implies
            after.spans[root].data.color_counter == Some(history.children(root, k) as usize) by {
            assert(history.children(root, k - 1) <= history.children(root, k));
            if !before.spans.contains_key(root) {
                assert(history.children(root, k - 1) == 0);
            }
        }
    }
}

/// The children of a root get the colors of the palette in turn: the one that is created as number
/// `j` below the root, counted from zero, has color number `j` of the palette, which starts over when
/// it is used up. It does not matter whether the root was named as the parent or is the span that the
/// calling thread is in.
pub proof fn law_children_cycle_through_the_palette(history: History, i: int, root: u64, id: u64)
    requires
        history.wf(),
        0 <= i < history.calls.len(),
        history.states[i].creates_below(history.calls[i], root),
        history.calls[i] matches Call::NewSpan { created, .. } && created == Some(id),
        history.states[i].spans[root].data.depth == 0,
        history.children(root, i) <= usize::MAX,
    ensures
        history.states[i + 1].spans.contains_key(id),
        history.states[i + 1].spans[id].parent_id == Some(root),
        history.states[i + 1].spans[id].data.depth == 1,
        history.states[i + 1].spans[id].data.color == Some(
            palette()[(history.children(root, i) % 6) as int],
        ),
        history.children(root, i + 1) == history.children(root, i) + 1,
{
    let before = history.states[i];
    let after = history.states[i + 1];
    lemma_children_are_counted(history, i);
    lemma_call_keeps_descriptions(
        before,
        history.levels,
        history.max_depth,
        history.calls[i],
        after,
    );
    assert(after.spans.dom().contains(id));
    assert(history.children(root, i) % 6 == ((history.children(root, i) as usize) % 6) as nat);
}

/// Any six children of a root that are created one after the other, whatever happens in between, have
/// different colors.
pub proof fn law_siblings_differ_in_color(
    history: History,
    i: int,
    k: int,
    root: u64,
    a: u64,
    b: u64,
)
    requires
        history.wf(),
        0 <= i < k < history.calls.len(),
        history.states[i].creates_below(history.calls[i], root),
        history.states[k].creates_below(history.calls[k], root),
        history.calls[i] matches Call::NewSpan { created, .. } && created == Some(a),
        history.calls[k] matches Call::NewSpan { created, .. } && created == Some(b),
        history.states[i].spans[root].data.depth == 0,
        history.children(root, k) <= usize::MAX,
        history.children(root, k) < history.children(root, i) + 6,
    ensures
        history.states[i + 1].spans[a].data.color != history.states[k + 1].spans[b].data.color,
{
    lemma_children_grow(history, root, i + 1, k);
    lemma_children_are_counted(history, i);
    lemma_children_are_counted(history, k);
    assert(history.states[k].spans.contains_key(root)) by {
        lemma_call_keeps_descriptions(
            history.states[k],
            history.levels,
            history.max_depth,
            history.calls[k],
            history.states[k + 1],
        );
    }
    assert(history.states[i].spans.contains_key(root)) by {
        lemma_call_keeps_descriptions(
            history.states[i],
            history.levels,
            history.max_depth,
            history.calls[i],
            history.states[i + 1],
        );
    }
    law_colors_stay(history, i, k, root);
    law_children_cycle_through_the_palette(history, i, root, a);
    law_children_cycle_through_the_palette(history, k, root, b);
    law_palette_cycles(history.children(root, i) as usize, history.children(root, k) as usize);
}

/// The number of children does not fall.
proof fn lemma_children_grow(history: History, root: u64, i: int, k: int)
    requires
        0 <= i <= k,
    ensures
        history.children(root, i) <= history.children(root, k),
    decreases k - i,
{
    if i < k {
        lemma_children_grow(history, root, i, k - 1);
    }
}

/// The color and the depth of a span do not change as long as it is registered.
pub proof fn law_colors_stay(history: History, i: int, k: int, id: u64)
    requires
        history.wf(),
        0 <= i <= k <= history.calls.len(),
        history.states[i].spans.contains_key(id),
        history.states[k].spans.contains_key(id),
    ensures
        history.states[k].spans[id].data.color == history.states[i].spans[id].data.color,
        history.states[k].spans[id].data.depth == history.states[i].spans[id].data.depth,
        history.states[k].spans[id].parent_id == history.states[i].spans[id].parent_id,
    decreases k - i,
{
    if i < k {
        lemma_children_are_counted(history, k - 1);
        lemma_children_are_counted(history, i);
        lemma_given_out_stays(history, i, k - 1, id);
        lemma_call_keeps_descriptions(
            history.states[k - 1],
            history.levels,
            history.max_depth,
            history.calls[k - 1],
            history.states[k],
        );
        assert(history.states[k].spans.dom().contains(id));
        law_colors_stay(history, i, k - 1, id);
    }
}

/// An id stays given out.
proof fn lemma_given_out_stays(history: History, i: int, k: int, id: u64)
    requires
        history.wf(),
        0 <= i <= k <= history.calls.len(),
        given_out(history.states[i], id),
    ensures
        given_out(history.states[k], id),
    decreases k - i,
{
    if i < k {
        lemma_children_are_counted(history, k - 1);
        lemma_given_out_stays(history, i, k - 1, id);
        lemma_call_keeps_descriptions(
            history.states[k - 1],
            history.levels,
            history.max_depth,
            history.calls[k - 1],
            history.states[k],
        );
    }
}

/// A child of a span that is not a root gets the color of its parent, and is one level below it.
pub proof fn law_child_has_the_color_of_its_parent(history: History, i: int, parent: u64, id: u64)
    requires
        history.wf(),
        0 <= i < history.calls.len(),
        history.states[i].creates_below(history.calls[i], parent),
        history.calls[i] matches Call::NewSpan { created, .. } && created == Some(id),
        history.states[i].spans[parent].data.depth > 0,
    ensures
        history.states[i + 1].spans.contains_key(id),
        history.states[i + 1].spans[id].data.color == history.states[i].spans[parent].data.color,
        history.states[i + 1].spans[id].data.depth == history.states[i].spans[parent].data.depth + 1,
{
    lemma_children_are_counted(history, i);
    lemma_call_keeps_descriptions(
        history.states[i],
        history.levels,
        history.max_depth,
        history.calls[i],
        history.states[i + 1],
    );
    assert(history.states[i + 1].spans.dom().contains(id));
    assert(history.states[i].spans[parent].data.wf());
}

/// At every point of a history, a root has no color, and every span below the second level has the
/// color of its parent; so a second-level span and all spans below it are of one color.
pub proof fn law_trees_are_colored_by_branch(history: History, k: int, id: u64)
    requires
        history.wf(),
        0 <= k <= history.calls.len(),
        history.states[k].spans.contains_key(id),
    ensures
        history.states[k].colors_are_inherited(),
        history.states[k].spans[id].data.depth == 0 ==> history.states[k].spans[id].data.color is None,
{
    lemma_children_are_counted(history, k);
}

impl History {
    /// Call number `j` is for an event in the span.
    pub open spec fn is_event_in(self, j: int, id: u64) -> bool {
        self.calls[j] matches Call::Event { thread, .. } && self.states[j].current_span(thread)
            == Some(id)
    }

    /// From call number `i` on, up to call number `k`, everything happens within the silent period of
    /// a span that was entered at time `entered`: all reports are made before it is over, other spans
    /// are entered after the span, and the span itself is not left.
    pub open spec fn within_silent_period(self, i: int, k: int, id: u64, entered: u64) -> bool {
        forall|j: int|
            i <= j < k ==> match #[trigger] self.calls[j] {
                Call::Event { now, .. } => now < self.silent_period + entered,
                Call::Enter { entered: later, now, .. } => later >= entered && now
                    < self.silent_period + entered,
                Call::Exit { id: left, now, .. } => left != id && now < self.silent_period
                    + entered,
                _ => true,
            }
    }
}

/// The operations of a call within the silent period are within the silent period.
proof fn lemma_operations_within_silent_period(
    registry: RegistryView<SpanDescription>,
    call: Call,
    operations: Seq<Operation<SpanDescription>>,
    id: u64,
    entered: u64,
)
    requires
        registry.wf(),
        registry.all_possible(operations),
        call !is Close ==> registry.all_orderly(operations),
        forall|i: int| 0 <= i < operations.len() ==> call.comprises(#[trigger] operations[i]),
        match call {
            Call::Event { now, .. } => now < registry.silent_duration + entered,
            Call::Enter { entered: later, now, .. } => later >= entered && now
                < registry.silent_duration + entered,
            Call::Exit { id: left, now, .. } => left != id && now < registry.silent_duration
                + entered,
            _ => true,
        },
    ensures
        within_silent_period(registry, operations, id, entered),
        registry.after_all(operations).silent_duration == registry.silent_duration,
    decreases operations.len(),
{
    if operations.len() > 0 {
        let operation = operations[0];
        let later = operations.drop_first();
        assert(call.comprises(operation));
        assert forall|i: int| 0 <= i < later.len() implies call.comprises(#[trigger] later[i]) by {
            assert(later[i] == operations[i + 1]);
        }
        lemma_after_wf(registry, operation);
        lemma_operations_within_silent_period(
            registry.after(operation),
            call,
            later,
            id,
            entered,
        );
    }
}

/// Calls within the silent period keep the span and the spans below it quiet.
proof fn lemma_calls_stay_quiet(
    history: History,
    i: int,
    k: int,
    id: u64,
    below: Set<u64>,
    entered: u64,
) -> (still_below: Set<u64>)
    requires
        history.wf(),
        0 <= i <= k <= history.calls.len(),
        all_quiet(history.states[i], id, below, entered),
        history.within_silent_period(i, k, id, entered),
    ensures
        all_quiet(history.states[k], id, still_below, entered),
        history.states[i].spans.contains_key(id) && history.states[k].spans.contains_key(id)
            ==> history.states[i].spans[id].messages.is_prefix_of(
            history.states[k].spans[id].messages,
        ),
    decreases k - i,
{
    if i == k {
        below
    } else {
        let before = history.states[k - 1];
        let call = history.calls[k - 1];
        let below_then = lemma_calls_stay_quiet(history, i, k - 1, id, below, entered);
        let operations = law_calls_are_operations(
            before,
            history.levels,
            history.max_depth,
            call,
            history.states[k],
        );
        lemma_silent_period_stays(history, k - 1);
        lemma_operations_within_silent_period(before, call, operations, id, entered);
        if history.states[k].spans.contains_key(id) && !before.spans.contains_key(id) {
            law_ids_are_not_reused(before, operations, id);
        }
        lemma_all_stay_quiet(before, operations, id, below_then, entered)
    }
}

/// The silent period of a logger does not change.
proof fn lemma_silent_period_stays(history: History, k: int)
    requires
        history.wf(),
        0 <= k <= history.calls.len(),
    ensures
        history.states[k].silent_duration == history.silent_period,
    decreases k,
{
    if k > 0 {
        let before = history.states[k - 1];
        let operations = law_calls_are_operations(
            before,
            history.levels,
            history.max_depth,
            history.calls[k - 1],
            history.states[k],
        );
        lemma_silent_period_stays(history, k - 1);
        lemma_operations_keep_silent_duration(before, operations);
    }
}

/// No operation changes the silent period.
proof fn lemma_operations_keep_silent_duration(
    registry: RegistryView<SpanDescription>,
    operations: Seq<Operation<SpanDescription>>,
)
    ensures
        registry.after_all(operations).silent_duration == registry.silent_duration,
    decreases operations.len(),
{
    if operations.len() > 0 {
        lemma_operations_keep_silent_duration(
            registry.after(operations[0]),
            operations.drop_first(),
        );
    }
}

/// Nothing is printed for a short span: as long as its silent period is not over and it is not left,
/// a span stays in its silent period, whatever any thread does in whatever spans; it goes on holding
/// back all that it held back, and events in the span print nothing. When the span was entered, no
/// thread may have been in a span below it.
pub proof fn law_logger_is_silent_on_short_spans(
    history: History,
    i: int,
    k: int,
    id: u64,
    below: Set<u64>,
)
    requires
        history.wf(),
        0 <= i <= k <= history.calls.len(),
        history.states[i].spans.contains_key(id),
        history.states[i].spans[id].state == SpanState::SilentPeriod,
        holds_all_below(history.states[i], id, below),
        forall|x: u64| #[trigger] below.contains(x) ==> history.states[i].spans.contains_key(x)
            && history.states[i].spans[x].state == SpanState::Inactive,
        history.within_silent_period(i, k, id, history.states[i].spans[id].entered_time),
    ensures
        history.states[k].spans.contains_key(id) ==> {
            &&& history.states[k].spans[id].state == SpanState::SilentPeriod
            &&& history.states[i].spans[id].messages.is_prefix_of(
                history.states[k].spans[id].messages,
            )
        },
        forall|j: int|
            i <= j < k && #[trigger] history.is_event_in(j, id) ==> history.calls[j].printed().len()
                == 0,
{
    let entered = history.states[i].spans[id].entered_time;
    lemma_children_are_counted(history, i);
    assert(all_quiet(history.states[i], id, below, entered));
    lemma_calls_stay_quiet(history, i, k, id, below, entered);
    assert forall|j: int| i <= j < k && #[trigger] history.is_event_in(j, id) implies history.calls[j]
        .printed().len() == 0 by {
        lemma_calls_stay_quiet(history, i, j, id, below, entered);
        lemma_silent_period_stays(history, j);
        let state = history.states[j];
        assert(state.answers(
            history.levels,
            history.max_depth,
            history.calls[j],
            history.states[j + 1],
        ));
    }
}

impl History {
    /// No span is closed while a thread is in it.
    pub open spec fn no_span_is_closed_early(self) -> bool {
        forall|i: int|
            0 <= i < self.calls.len() ==> (#[trigger] self.calls[i] matches Call::Close { id }
                ==> self.states[i].is_orderly(Operation::Delete { id }))
    }
}

/// The permission is handed down without a gap at every point of a history.
proof fn lemma_calls_hand_down(history: History, k: int)
    requires
        history.wf(),
        history.no_span_is_closed_early(),
        0 <= k <= history.calls.len(),
    ensures
        history.states[k].wf(),
        history.states[k].permission_is_handed_down(),
    decreases k,
{
    if k == 0 {
        lemma_empty_wf::<SpanDescription>(history.silent_period);
    } else {
        let before = history.states[k - 1];
        let call = history.calls[k - 1];
        lemma_calls_hand_down(history, k - 1);
        let operations = law_calls_are_operations(
            before,
            history.levels,
            history.max_depth,
            call,
            history.states[k],
        );
        if call is Close {
            lemma_closing_is_orderly(before, call, operations);
        }
        lemma_all_stay_handed_down(before, operations);
    }
}

/// The operations of a call that closes a span are orderly if no thread is in the span.
proof fn lemma_closing_is_orderly(
    registry: RegistryView<SpanDescription>,
    call: Call,
    operations: Seq<Operation<SpanDescription>>,
)
    requires
        call is Close,
        registry.is_orderly(Operation::Delete { id: call->Close_id }),
        operations.len() <= 1,
        forall|i: int| 0 <= i < operations.len() ==> call.comprises(#[trigger] operations[i]),
    ensures
        registry.all_orderly(operations),
{
    if operations.len() == 1 {
        assert(call.comprises(operations[0]));
        assert(operations.drop_first() =~= Seq::empty());
        assert(registry.after(operations[0]).all_orderly(Seq::empty()));
    }
}

/// At every point of a history in which no span is closed while a thread is in it, at most one span of
/// each tree has the permission to itself, and the spans that lend it are exactly the proper ancestors
/// of that one.
pub proof fn law_logger_has_one_holder_per_tree(history: History, k: int, a: u64, b: u64)
    requires
        history.wf(),
        history.no_span_is_closed_early(),
        0 <= k <= history.calls.len(),
    ensures
        one_holder_per_tree(history.states[k].spans, a, b),
{
    lemma_calls_hand_down(history, k);
    lemma_one_holder_per_tree(history.states[k], a, b);
}

} // verus!
