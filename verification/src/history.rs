//! Sequences of calls to a logger.

use crate::color::colorized;
use crate::laws::{law_message_touches_only_those_asked, law_operations_keep_the_invariant};
use crate::level::{within, Level};
use crate::logger::{lemma_reported_can_exit, SpanDescription};
use crate::model::{next_count, running_time, RegistryView};
use crate::recorder::RecorderView;
use crate::state::SpanState;
use crate::trace::{lemma_split, Operation};
use tracing_core::Metadata;
use vstd::prelude::*;
use vstd::std_specs::range::RangeInclusiveView;

verus! {

/// One call to a logger, with the answer to it.
pub ghost enum Call {
    /// A thread uses the logger for the first time.
    Join,
    /// A span is created.
    NewSpan {
        thread: int,
        fields: RecorderView,
        name: Seq<char>,
        metadata: &'static Metadata<'static>,
        parent: Option<u64>,
        created: Option<u64>,
    },
    /// There is an event.
    Event {
        thread: int,
        level: Level,
        fields: RecorderView,
        now: u64,
        out: Option<Vec<String>>,
    },
    /// A span is entered.
    Enter { thread: int, id: u64, entered: u64, now: u64, out: Option<Vec<String>> },
    /// A span is left.
    Exit { thread: int, id: u64, seen: u64, now: u64, out: Option<Vec<String>> },
    /// A handle to a span is added.
    Clone { id: u64 },
    /// A handle to a span is dropped.
    Close { id: u64 },
}

impl RegistryView<SpanDescription> {
    /// The call may be made, is answered as it says, and leads to the registry `after`.
    pub open spec fn answers(
        self,
        levels: RangeInclusiveView<Level>,
        max_depth: usize,
        call: Call,
        after: RegistryView<SpanDescription>,
    ) -> bool {
        match call {
            Call::Join => after == self.registered(),
            Call::NewSpan { thread, fields, name, metadata, parent, created } => {
                &&& 0 <= thread < self.stacks.len()
                &&& self.new_span_logged(thread, fields, name, metadata, parent, after, created)
            },
            Call::Event { thread, level, fields, now, out } => {
                &&& 0 <= thread < self.stacks.len()
                &&& self.event_logged(levels, max_depth, thread, level, fields, now, after, out)
            },
            Call::Enter { thread, id, entered, now, out } => {
                &&& 0 <= thread < self.stacks.len()
                &&& self.spans.contains_key(id)
                &&& self.spans[id].state == SpanState::Inactive
                &&& self.enter_logged(max_depth, thread, id, entered, now, after, out)
            },
            Call::Exit { thread, id, seen, now, out } => {
                &&& 0 <= thread < self.stacks.len()
                &&& self.can_exit(id)
                &&& self.exit_logged(max_depth, thread, id, seen, now, after, out)
            },
            Call::Clone { id } => self.spans.contains_key(id) && after == self.cloned(id),
            Call::Close { id } => self.spans.contains_key(id) && after == self.deleted(id),
        }
    }

    /// The call creates a span below the given parent.
    pub open spec fn creates_below(self, call: Call, parent: u64) -> bool {
        call matches Call::NewSpan { thread, parent: named, created, .. } && created is Some
            && self.parent_of_new(thread, named) == Some(parent)
    }
}

/// What happened to a logger since it was created.
pub ghost struct History {
    /// The levels of the events that are printed.
    pub levels: RangeInclusiveView<Level>,
    /// The depth from which on events are not printed.
    pub max_depth: usize,
    /// For how long the messages of an entered span are held back.
    pub silent_period: u64,
    /// The calls, in order.
    pub calls: Seq<Call>,
    /// The registry before the first call and after each of them.
    pub states: Seq<RegistryView<SpanDescription>>,
}

impl History {
    /// The history starts with a new logger, and each call leads from one registry to the next.
    pub open spec fn wf(self) -> bool {
        &&& self.states.len() == self.calls.len() + 1
        &&& self.states[0] == RegistryView::<SpanDescription>::empty(self.silent_period)
        &&& forall|i: int|
            0 <= i < self.calls.len() ==> self.states[i].answers(
                self.levels,
                self.max_depth,
                #[trigger] self.calls[i],
                self.states[i + 1],
            )
    }

    /// The number of spans that were created below the parent by the first `k` calls.
    pub open spec fn children(self, parent: u64, k: int) -> nat
        decreases k,
    {
        if k <= 0 {
            0
        } else {
            self.children(parent, k - 1) + (if self.states[k - 1].creates_below(
                self.calls[k - 1],
                parent,
            ) {
                1nat
            } else {
                0
            })
        }
    }
}

impl Call {
    /// What the call prints.
    pub open spec fn printed(self) -> Seq<String> {
        match self {
            Call::Event { out, .. } | Call::Enter { out, .. } | Call::Exit { out, .. } => match out {
                Some(printed) => printed@,
                None => Seq::empty(),
            },
            _ => Seq::empty(),
        }
    }

    /// The operation is one that the call may consist of: it is about the same thread and span, and
    /// takes place at the time that the call says.
    pub open spec fn comprises(self, operation: Operation<SpanDescription>) -> bool {
        match operation {
            Operation::Register => self is Join,
            Operation::Create { .. } | Operation::Attach { .. } => self is NewSpan,
            Operation::Clone { id } => self == Call::Clone { id },
            Operation::Delete { id } => self == Call::Close { id },
            Operation::Enter { thread, id, now } => self matches Call::Enter {
                thread: entering,
                id: span,
                entered,
                ..
            } && thread == entering && id == span && now == entered,
            Operation::Exit { thread, id } => self matches Call::Exit {
                thread: leaving,
                id: span,
                ..
            } && thread == leaving && id == span,
            Operation::Send { now: at, .. } => match self {
                Call::Event { now, .. } | Call::Enter { now, .. } | Call::Exit { now, .. } => at
                    == now,
                _ => false,
            },
        }
    }
}

/// The operations that make up a report.
proof fn lemma_report_is_operations(
    registry: RegistryView<SpanDescription>,
    id: u64,
    text: Option<Seq<char>>,
    now: u64,
    after: RegistryView<SpanDescription>,
    printed: Seq<String>,
) -> (operations: Seq<Operation<SpanDescription>>)
    requires
        registry.can_report(id, text, now),
        registry.reported(id, text, now, after, printed),
    ensures
        registry.all_possible(operations),
        registry.all_orderly(operations),
        registry.after_all(operations) == after,
        registry.output_of_all(operations) == printed,
        forall|i: int|
            0 <= i < operations.len() ==> (#[trigger] operations[i] matches Operation::Send {
                now: at,
                ..
            } && at == now),
{
    match text {
        Some(text) => {
            let message = choose|message: String|
                {
                    &&& colorized(registry.spans[id].data.color, text, message@)
                    &&& after == #[trigger] registry.sent(id, message, now)
                    &&& printed == registry.send_output(id, message, now)
                };
            let operation = Operation::Send { id, message, now };
            lemma_one_operation(registry, operation);
            seq![operation]
        },
        None => {
            assert(printed =~= Seq::empty());
            Seq::empty()
        },
    }
}

/// One operation is a sequence of operations.
proof fn lemma_one_operation(
    registry: RegistryView<SpanDescription>,
    operation: Operation<SpanDescription>,
)
    ensures
        registry.all_possible(seq![operation]) == registry.possible(operation),
        registry.all_orderly(seq![operation]) == registry.is_orderly(operation),
        registry.after_all(seq![operation]) == registry.after(operation),
        registry.output_of_all(seq![operation]) == registry.output(operation),
{
    let next = registry.after(operation);
    assert(seq![operation].drop_first() =~= Seq::empty());
    assert(next.all_possible(Seq::empty()));
    assert(next.all_orderly(Seq::empty()));
    assert(next.after_all(Seq::empty()) == next);
    assert(registry.output(operation) + next.output_of_all(Seq::empty()) =~= registry.output(
        operation,
    ));
}

/// Whatever a logger is called for consists of operations on its registry, for the thread and the span
/// and at the times that the call says, and what the call prints is what they print; so what holds of all operations holds of all
/// calls. Only an event in no span is printed without any. Unless a span is closed, the operations
/// are orderly.
pub proof fn law_calls_are_operations(
    registry: RegistryView<SpanDescription>,
    levels: RangeInclusiveView<Level>,
    max_depth: usize,
    call: Call,
    after: RegistryView<SpanDescription>,
) -> (operations: Seq<Operation<SpanDescription>>)
    requires
        registry.answers(levels, max_depth, call, after),
    ensures
        registry.all_possible(operations),
        registry.after_all(operations) == after,
        call !is Close ==> registry.all_orderly(operations),
        call is Close ==> operations.len() == 1,
        forall|i: int| 0 <= i < operations.len() ==> call.comprises(#[trigger] operations[i]),
        (call matches Call::Event { thread, .. } ==> registry.current_span(thread) is Some)
            ==> registry.output_of_all(operations) == call.printed(),
{
    match call {
        Call::Join => {
            lemma_one_operation(registry, Operation::Register);
            seq![Operation::Register]
        },
        Call::NewSpan { thread, parent, .. } => {
            let parent = registry.parent_of_new(thread, parent);
            if registry.can_create_below(parent) {
                let counted = registry.child_counted(parent);
                let data = after.spans[registry.next_id].data;
                let create = Operation::Create { data, parent };
                lemma_one_operation(counted, create);
                match parent {
                    Some(parent) => {
                        let count = Operation::Attach {
                            id: parent,
                            data: registry.spans[parent].data.child_counted(),
                        };
                        lemma_one_operation(registry, count);
                        lemma_split(registry, seq![count], seq![create]);
                        seq![count] + seq![create]
                    },
                    None => seq![create],
                }
            } else {
                Seq::empty()
            }
        },
        Call::Event { thread, level, fields, now, out } => {
            let text = match registry.current_span(thread) {
                Some(id) => registry.spans[id].data.event_text(max_depth, fields),
                None => None,
            };
            match registry.current_span(thread) {
                Some(id) if within(levels, level) && registry.spans.contains_key(id)
                    && registry.can_report(id, text, now) => lemma_report_is_operations(
                    registry,
                    id,
                    text,
                    now,
                    after,
                    out->0@,
                ),
                _ => {
                    assert(registry.current_span(thread) is Some ==> call.printed() =~= Seq::empty());
                    Seq::empty()
                },
            }
        },
        Call::Enter { thread, id, entered, now, out } => {
            let enter = Operation::Enter { thread, id, now: entered };
            let inside = registry.entered(thread, id, entered);
            let text = registry.spans[id].data.enter_text(max_depth);
            lemma_one_operation(registry, enter);
            if inside.can_report(id, text, now) {
                let report = lemma_report_is_operations(inside, id, text, now, after, out->0@);
                lemma_split(registry, seq![enter], report);
                assert(Seq::<String>::empty() + out->0@ =~= out->0@);
                seq![enter] + report
            } else {
                seq![enter]
            }
        },
        Call::Exit { thread, id, seen, now, out } => {
            let micros = running_time(registry.spans[id].entered_time, seen) as nat;
            let text = registry.spans[id].data.exit_text(max_depth, micros);
            if registry.can_report(id, text, now) {
                let told = choose|told: RegistryView<SpanDescription>|
                    {
                        &&& registry.reported(id, text, now, told, out->0@)
                        &&& after == #[trigger] told.exited(thread, id)
                    };
                let report = lemma_report_is_operations(registry, id, text, now, told, out->0@);
                let exit = Operation::Exit { thread, id };
                lemma_reported_can_exit(registry, id, text, now, told, out->0@);
                lemma_one_operation(told, exit);
                lemma_split(registry, report, seq![exit]);
                assert(out->0@ + Seq::<String>::empty() =~= out->0@);
                report + seq![exit]
            } else {
                Seq::empty()
            }
        },
        Call::Clone { id } => {
            lemma_one_operation(registry, Operation::Clone { id });
            seq![Operation::Clone { id }]
        },
        Call::Close { id } => {
            lemma_one_operation(registry, Operation::Delete { id });
            seq![Operation::Delete { id }]
        },
    }
}

/// A call changes no description, but for the counter of a span below which a span is created, and
/// registers at most one span, below a registered one.
pub proof fn lemma_call_keeps_descriptions(
    registry: RegistryView<SpanDescription>,
    levels: RangeInclusiveView<Level>,
    max_depth: usize,
    call: Call,
    after: RegistryView<SpanDescription>,
)
    requires
        registry.wf(),
        registry.described(),
        registry.answers(levels, max_depth, call, after),
    ensures
        after.wf(),
        after.described(),
        forall|id: u64|
            registry.spans.contains_key(id) && #[trigger] after.spans.contains_key(id) ==> {
                &&& after.spans[id].parent_id == registry.spans[id].parent_id
                &&& after.spans[id].data == if registry.creates_below(call, id) {
                    registry.spans[id].data.child_counted()
                } else {
                    registry.spans[id].data
                }
            },
        match call {
            Call::NewSpan { thread, fields, name, metadata, parent, created: Some(id) } => {
                let parent = registry.parent_of_new(thread, parent);
                &&& id == registry.next_id
                &&& !registry.spans.contains_key(id)
                &&& after.next_id == next_count(id)
                &&& after.spans.dom() == registry.spans.dom().insert(id)
                &&& after.spans[id].parent_id == parent
                &&& registry.can_create_below(parent)
                &&& registry.describes_new(after.spans[id].data, fields, name, metadata, parent)
            },
            _ => {
                &&& after.next_id == registry.next_id
                &&& after.spans.dom().subset_of(registry.spans.dom())
            },
        },
{
    let operations = law_calls_are_operations(registry, levels, max_depth, call, after);
    law_operations_keep_the_invariant(registry, operations);
    match call {
        Call::NewSpan { thread, parent, created: Some(id), .. } => {
            let parent = registry.parent_of_new(thread, parent);
            assert(!registry.spans.contains_key(registry.next_id));
            assert(registry.child_counted(parent).spans.dom() =~= registry.spans.dom());
            assert(after.spans.dom() =~= registry.spans.dom().insert(id));
        },
        Call::Event { thread, level, fields, now, out } => {
            if let Some(id) = registry.current_span(thread) {
                let text = registry.spans[id].data.event_text(max_depth, fields);
                if within(levels, level) && registry.spans.contains_key(id)
                    && registry.can_report(id, text, now) {
                    lemma_report_keeps_descriptions(registry, id, text, now, after, out->0@);
                }
            }
        },
        Call::Enter { thread, id, entered, now, out } => {
            let inside = registry.entered(thread, id, entered);
            let text = registry.spans[id].data.enter_text(max_depth);
            assert(inside.spans.dom() =~= registry.spans.dom());
            if inside.can_report(id, text, now) {
                lemma_report_keeps_descriptions(inside, id, text, now, after, out->0@);
            }
            assert forall|other: u64| #[trigger] after.spans.contains_key(other) implies
                inside.spans.contains_key(other) && registry.spans.contains_key(other) by {}
        },
        Call::Exit { thread, id, seen, now, out } => {
            let micros = running_time(registry.spans[id].entered_time, seen) as nat;
            let text = registry.spans[id].data.exit_text(max_depth, micros);
            if registry.can_report(id, text, now) {
                let told = choose|told: RegistryView<SpanDescription>|
                    {
                        &&& registry.reported(id, text, now, told, out->0@)
                        &&& after == #[trigger] told.exited(thread, id)
                    };
                lemma_report_keeps_descriptions(registry, id, text, now, told, out->0@);
                lemma_reported_can_exit(registry, id, text, now, told, out->0@);
                assert(after.spans.dom() =~= told.spans.dom());
                assert forall|other: u64| #[trigger] after.spans.contains_key(other) implies
                    told.spans.contains_key(other) && after.spans[other].data
                    == told.spans[other].data && after.spans[other].parent_id
                    == told.spans[other].parent_id by {}
            }
        },
        _ => {},
    }
    assert forall|id: u64| #[trigger] after.spans.contains_key(id) implies after.spans[id].data.wf() by {
        if registry.spans.contains_key(id) {
            assert(registry.spans[id].data.wf());
        } else {
            assert(after.spans.dom().contains(id));
        }
    }
}

/// A report changes no description.
proof fn lemma_report_keeps_descriptions(
    registry: RegistryView<SpanDescription>,
    id: u64,
    text: Option<Seq<char>>,
    now: u64,
    after: RegistryView<SpanDescription>,
    printed: Seq<String>,
)
    requires
        registry.can_report(id, text, now),
        registry.reported(id, text, now, after, printed),
        registry.spans.contains_key(id),
    ensures
        after.next_id == registry.next_id,
        after.spans.dom() == registry.spans.dom(),
        forall|other: u64| #[trigger]
            after.spans.contains_key(other) ==> after.spans[other].data
                == registry.spans[other].data && after.spans[other].parent_id
                == registry.spans[other].parent_id,
{
    if let Some(text) = text {
        let message = choose|message: String|
            {
                &&& colorized(registry.spans[id].data.color, text, message@)
                &&& after == #[trigger] registry.sent(id, message, now)
                &&& printed == registry.send_output(id, message, now)
            };
        law_message_touches_only_those_asked(registry, id, message, now, id);
        assert forall|other: u64| #[trigger] after.spans.contains_key(other) implies
            after.spans[other].data == registry.spans[other].data && after.spans[other].parent_id
            == registry.spans[other].parent_id by {
            assert(registry.spans.dom().contains(other));
            law_message_touches_only_those_asked(registry, id, message, now, other);
        }
    }
}

} // verus!
