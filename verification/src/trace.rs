//! Sequences of operations on a registry.

use crate::model::RegistryView;
use crate::preservation::{
    lemma_created_wf, lemma_entered_wf, lemma_exited_wf, lemma_handles_wf, lemma_registered_wf,
    lemma_sent_wf, lemma_with_span_wf,
};
use crate::state::SpanState;
use vstd::prelude::*;

verus! {

/// One operation on a registry.
pub ghost enum Operation<T> {
    /// A thread is added.
    Register,
    /// A span is created.
    Create { data: T, parent: Option<u64> },
    /// A handle to a span is added.
    Clone { id: u64 },
    /// A handle to a span is dropped.
    Delete { id: u64 },
    /// Other data is attached to a span.
    Attach { id: u64, data: T },
    /// A thread enters a span.
    Enter { thread: int, id: u64, now: u64 },
    /// A thread leaves a span.
    Exit { thread: int, id: u64 },
    /// A message is sent to a span.
    Send { id: u64, message: String, now: u64 },
}

impl<T> RegistryView<T> {
    /// The operation can be carried out.
    pub open spec fn possible(self, operation: Operation<T>) -> bool {
        match operation {
            Operation::Register => true,
            Operation::Create { .. } => self.next_id != 0,
            Operation::Clone { id } | Operation::Delete { id } | Operation::Attach {
                id,
                ..
            } => self.spans.contains_key(id),
            Operation::Enter { thread, id, .. } => 0 <= thread < self.stacks.len()
                && self.spans.contains_key(id) && self.spans[id].state == SpanState::Inactive,
            Operation::Exit { thread, id } => 0 <= thread < self.stacks.len() && self.can_exit(id),
            Operation::Send { id, now, .. } => self.can_send(id, now),
        }
    }

    /// The registry after the operation.
    pub open spec fn after(self, operation: Operation<T>) -> RegistryView<T> {
        match operation {
            Operation::Register => self.registered(),
            Operation::Create { data, parent } => self.created(data, parent),
            Operation::Clone { id } => self.cloned(id),
            Operation::Delete { id } => self.deleted(id),
            Operation::Attach { id, data } => self.attached(id, data),
            Operation::Enter { thread, id, now } => self.entered(thread, id, now),
            Operation::Exit { thread, id } => self.exited(thread, id),
            Operation::Send { id, message, now } => self.sent(id, message, now),
        }
    }

    /// What the operation prints.
    pub open spec fn output(self, operation: Operation<T>) -> Seq<String> {
        match operation {
            Operation::Send { id, message, now } => self.send_output(id, message, now),
            _ => Seq::empty(),
        }
    }

    /// The operations can be carried out one after the other.
    pub open spec fn all_possible(self, operations: Seq<Operation<T>>) -> bool
        decreases operations.len(),
    {
        operations.len() == 0 || {
            &&& self.possible(operations[0])
            &&& self.after(operations[0]).all_possible(operations.drop_first())
        }
    }

    /// The operation names a registered span as a parent, if any, and does not take a span away
    /// that a thread is in.
    pub open spec fn is_orderly(self, operation: Operation<T>) -> bool {
        match operation {
            Operation::Create { parent, .. } => parent matches Some(parent)
                ==> self.spans.contains_key(parent),
            Operation::Delete { id } => self.spans[id].ref_counter == 1 ==> self.spans[id].state
                == SpanState::Inactive,
            _ => true,
        }
    }

    /// All of the operations are orderly, one after the other.
    pub open spec fn all_orderly(self, operations: Seq<Operation<T>>) -> bool
        decreases operations.len(),
    {
        operations.len() == 0 || {
            &&& self.is_orderly(operations[0])
            &&& self.after(operations[0]).all_orderly(operations.drop_first())
        }
    }

    /// The registry after all of the operations.
    pub open spec fn after_all(self, operations: Seq<Operation<T>>) -> RegistryView<T>
        decreases operations.len(),
    {
        if operations.len() == 0 {
            self
        } else {
            self.after(operations[0]).after_all(operations.drop_first())
        }
    }

    /// What the operations print together.
    pub open spec fn output_of_all(self, operations: Seq<Operation<T>>) -> Seq<String>
        decreases operations.len(),
    {
        if operations.len() == 0 {
            Seq::empty()
        } else {
            self.output(operations[0]) + self.after(operations[0]).output_of_all(
                operations.drop_first(),
            )
        }
    }
}

/// Every operation keeps a registry well-formed.
pub proof fn lemma_after_wf<T>(registry: RegistryView<T>, operation: Operation<T>)
    requires
        registry.wf(),
        registry.possible(operation),
    ensures
        registry.after(operation).wf(),
{
    match operation {
        Operation::Register => lemma_registered_wf(registry),
        Operation::Create { data, parent } => lemma_created_wf(registry, data, parent),
        Operation::Clone { id } | Operation::Delete { id } => lemma_handles_wf(registry, id),
        Operation::Attach { id, data } => lemma_with_span_wf(
            registry,
            id,
            registry.attached(id, data).spans[id],
        ),
        Operation::Enter { thread, id, now } => lemma_entered_wf(registry, thread, id, now),
        Operation::Exit { thread, id } => lemma_exited_wf(registry, thread, id),
        Operation::Send { id, message, now } => lemma_sent_wf(registry, id, message, now),
    }
}

/// Operations can be split into those that come first and those that come later.
pub proof fn lemma_split<T>(
    registry: RegistryView<T>,
    first: Seq<Operation<T>>,
    later: Seq<Operation<T>>,
)
    ensures
        registry.all_possible(first + later) == (registry.all_possible(first) && registry.after_all(
            first,
        ).all_possible(later)),
        registry.all_orderly(first + later) == (registry.all_orderly(first) && registry.after_all(
            first,
        ).all_orderly(later)),
        registry.after_all(first + later) == registry.after_all(first).after_all(later),
        registry.output_of_all(first + later) == registry.output_of_all(first)
            + registry.after_all(first).output_of_all(later),
    decreases first.len(),
{
    if first.len() == 0 {
        assert(first + later =~= later);
        assert(registry.output_of_all(first) + registry.output_of_all(later)
            =~= registry.output_of_all(later));
    } else {
        let next = registry.after(first[0]);
        lemma_split(next, first.drop_first(), later);
        assert((first + later).drop_first() =~= first.drop_first() + later);
        assert(registry.output_of_all(first + later) =~= registry.output_of_all(first)
            + registry.after_all(first).output_of_all(later));
    }
}

} // verus!
