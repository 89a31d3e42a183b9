//! What the logger reports of spans and events, for every logger and whatever it is told.

use crate::call_laws::{law_outcome_of_a_message, message_told};
use crate::color::{colorized, SpanColor};
use crate::level::Level;
use crate::logger::{lemma_reported_can_exit, SpanDescription};
use crate::model::{answerable, running_time, RegistryView, SpanView};
use crate::recorder::FieldRecorder;
use crate::registry::SpanRegistry;
use crate::request_laws::law_request_past_a_root;
use crate::state::SpanState;
use crate::text::done_text;
use crate::text_laws::{
    is_between, is_text_in_color, law_done_text_tells_the_time, law_range_of_levels,
    law_text_in_color, levels_in_order, tells_time,
};
use std::ops::RangeInclusive;
use tracing_core::Metadata;
use vstd::prelude::*;
use vstd::std_specs::range::RangeInclusiveView;

verus! {

/// The text of a message, if any, and of other fields, if any.
pub open spec fn text_of(message: Option<Seq<char>>, fields: Option<Seq<char>>) -> Seq<char> {
    (match message {
        Some(message) => message,
        None => Seq::empty(),
    }) + (match fields {
        Some(fields) => seq!['('] + fields + seq![')'],
        None => seq!['.'],
    })
}

/// What the text of a recorder is.
proof fn lemma_text_of(recorder: FieldRecorder)
    ensures
        recorder@.text() == text_of(recorder@.message, recorder@.fields),
{
    reveal_strlit("(");
    reveal_strlit(")");
    reveal_strlit(".");
    assert("("@ =~= seq!['(']);
    assert(")"@ =~= seq![')']);
    assert("."@ =~= seq!['.']);
}

/// A description holds what it is made of; only that of a root counts children, from zero on.
pub proof fn law_new_description(
    desc: FieldRecorder,
    depth: usize,
    metadata: &'static Metadata<'static>,
    color: Option<SpanColor>,
    description: SpanDescription,
)
    requires
        call_ensures(SpanDescription::new, (desc, depth, metadata, color), description),
    ensures
        description.desc == desc,
        description.depth == depth,
        description.metadata == metadata,
        description.color == color,
        depth == 0 ==> description.color_counter == Some(0usize),
        depth > 0 ==> description.color_counter is None,
{
}

/// A description that counts children gives out the colors in turn; any other one gives out its own
/// color, and does not change.
pub proof fn law_color_for_a_child(
    description: &mut SpanDescription,
    color: Option<SpanColor>,
    count: usize,
    in_turn: SpanColor,
)
    requires
        call_ensures(SpanDescription::color_for_child, (description,), color),
        call_ensures(SpanColor::from_count, (count,), in_turn),
    ensures
        old(description).color_counter == Some(count) ==> {
            &&& color == Some(in_turn)
            &&& *final(description) == (SpanDescription {
                color_counter: final(description).color_counter,
                ..*old(description)
            })
            &&& final(description).color_counter == Some(
                if count == usize::MAX {
                    0usize
                } else {
                    (count + 1) as usize
                },
            )
        },
        old(description).color_counter is None ==> {
            &&& color == old(description).color
            &&& *final(description) == *old(description)
        },
{
}

/// Creating a span fails if and only if there is no id left, the parent is not registered or the parent
/// is too deep down for a child; then nothing changes. The parent is the named one, if one is named,
/// wherever the thread is, and else the innermost span of the thread.
pub proof fn law_when_a_span_can_be_created(
    registry: &mut SpanRegistry<SpanDescription>,
    thread: usize,
    fields: FieldRecorder,
    name: String,
    metadata: &'static Metadata<'static>,
    named: Option<u64>,
    id: Option<u64>,
)
    requires
        call_ensures(
            SpanRegistry::<SpanDescription>::log_new_span,
            (registry, thread, fields, name, metadata, named),
            id,
        ),
    ensures
        named matches Some(parent) ==> (id is Some <==> old(registry)@.next_id != 0 && old(
            registry,
        )@.spans.contains_key(parent) && old(registry)@.spans[parent].data.depth < usize::MAX),
        named is None && old(registry)@.stacks[thread as int].len() > 0 ==> {
            let parent = old(registry)@.stacks[thread as int].last();
            id is Some <==> old(registry)@.next_id != 0 && old(registry)@.spans.contains_key(parent)
                && old(registry)@.spans[parent].data.depth < usize::MAX
        },
        named is None && old(registry)@.stacks[thread as int].len() == 0 ==> (id is Some <==> old(
            registry,
        )@.next_id != 0),
        id is None ==> final(registry)@ == old(registry)@,
{
}

/// A span that is created with a named parent is a child of that parent, one level below it, whatever
/// spans the thread is in. Its color is the next of the palette below a root, and the color of the
/// parent further down; a root counts one child more. Nothing else changes, but that the id is used
/// up.
pub proof fn law_named_parent_is_the_parent(
    registry: &mut SpanRegistry<SpanDescription>,
    thread: usize,
    fields: FieldRecorder,
    name: String,
    metadata: &'static Metadata<'static>,
    parent: u64,
    id: u64,
)
    requires
        old(registry)@.wf(),
        old(registry)@.described(),
        call_ensures(
            SpanRegistry::<SpanDescription>::log_new_span,
            (registry, thread, fields, name, metadata, Some(parent)),
            Some(id),
        ),
    ensures
        created_below(old(registry)@, final(registry)@, parent, id),
        describes(final(registry)@.spans[id].data, fields, name, metadata),
{
    lemma_created_below(registry@, final(registry)@, thread as int, fields, name, metadata, Some(parent), id);
}

/// A span that is created without a named parent by a thread that is in a span is a child of the
/// innermost span of the thread, in the same way as if that were named.
pub proof fn law_current_span_is_the_parent(
    registry: &mut SpanRegistry<SpanDescription>,
    thread: usize,
    fields: FieldRecorder,
    name: String,
    metadata: &'static Metadata<'static>,
    id: u64,
)
    requires
        old(registry)@.wf(),
        old(registry)@.described(),
        old(registry)@.stacks[thread as int].len() > 0,
        call_ensures(
            SpanRegistry::<SpanDescription>::log_new_span,
            (registry, thread, fields, name, metadata, None),
            Some(id),
        ),
    ensures
        created_below(
            old(registry)@,
            final(registry)@,
            old(registry)@.stacks[thread as int].last(),
            id,
        ),
        describes(final(registry)@.spans[id].data, fields, name, metadata),
{
    lemma_created_below(registry@, final(registry)@, thread as int, fields, name, metadata, None, id);
}

/// A span that is created without a named parent by a thread that is in no span is a root: it has no
/// parent, no color and no children so far. Nothing else changes, but that the id is used up.
pub proof fn law_span_without_parent_is_a_root(
    registry: &mut SpanRegistry<SpanDescription>,
    thread: usize,
    fields: FieldRecorder,
    name: String,
    metadata: &'static Metadata<'static>,
    id: u64,
)
    requires
        old(registry)@.stacks[thread as int].len() == 0,
        call_ensures(
            SpanRegistry::<SpanDescription>::log_new_span,
            (registry, thread, fields, name, metadata, None),
            Some(id),
        ),
    ensures
        id == old(registry)@.next_id,
        final(registry)@.spans == old(registry)@.spans.insert(id, final(registry)@.spans[id]),
        final(registry)@.stacks == old(registry)@.stacks,
        final(registry)@.silent_duration == old(registry)@.silent_duration,
        final(registry)@.next_id == (if id == u64::MAX {
            0
        } else {
            id + 1
        }),
        is_unvisited(final(registry)@.spans[id], id),
        final(registry)@.spans[id].parent_id is None,
        final(registry)@.spans[id].data.depth == 0,
        final(registry)@.spans[id].data.color is None,
        final(registry)@.spans[id].data.color_counter == Some(0usize),
        describes(final(registry)@.spans[id].data, fields, name, metadata),
{
}

/// The span is registered under the id, was never entered, and has one handle.
pub open spec fn is_unvisited(span: SpanView<SpanDescription>, id: u64) -> bool {
    &&& span.id == id
    &&& span.state == SpanState::Inactive
    &&& span.messages.len() == 0
    &&& span.entered_time == 0
    &&& span.ref_counter == 1
}

/// The description is made of the name, the other fields and the static description that were given.
pub open spec fn describes(
    data: SpanDescription,
    fields: FieldRecorder,
    name: String,
    metadata: &'static Metadata<'static>,
) -> bool {
    &&& data.desc@.message == Some(name@)
    &&& data.desc@.fields == fields@.fields
    &&& data.metadata == metadata
}

/// `after` is `before` with a new span below the parent, whose next color it got.
pub open spec fn created_below(
    before: RegistryView<SpanDescription>,
    after: RegistryView<SpanDescription>,
    parent: u64,
    id: u64,
) -> bool {
    let above = before.spans[parent].data;
    let new = after.spans[id];
    &&& id == before.next_id
    &&& !before.spans.contains_key(id)
    &&& after.spans.contains_key(id)
    &&& is_unvisited(new, id)
    &&& new.parent_id == Some(parent)
    &&& new.data.depth == above.depth + 1
    &&& new.data.color_counter is None
    &&& above.depth > 0 ==> new.data.color == above.color
    &&& above.depth == 0 ==> (match above.color_counter->0 % 6 {
        0 => new.data.color == Some(SpanColor::BrightBlue),
        1 => new.data.color == Some(SpanColor::BrightCyan),
        2 => new.data.color == Some(SpanColor::BrightMagenta),
        3 => new.data.color == Some(SpanColor::Yellow),
        4 => new.data.color == Some(SpanColor::BrightGreen),
        _ => new.data.color == Some(SpanColor::Red),
    })
    &&& above.depth == 0 && above.color_counter->0 < usize::MAX
        ==> after.spans[parent].data.color_counter == Some((above.color_counter->0 + 1) as usize)
    &&& after.spans[parent] == (SpanView {
        data: SpanDescription {
            color_counter: after.spans[parent].data.color_counter,
            ..above
        },
        ..before.spans[parent]
    })
    &&& above.depth > 0 ==> after.spans[parent] == before.spans[parent]
    &&& after.spans == before.spans.insert(parent, after.spans[parent]).insert(id, new)
    &&& after.stacks == before.stacks
    &&& after.silent_duration == before.silent_duration
    &&& after.next_id == (if id == u64::MAX {
        0
    } else {
        id + 1
    })
}

/// A created span is below its parent.
pub proof fn lemma_created_below(
    before: RegistryView<SpanDescription>,
    after: RegistryView<SpanDescription>,
    thread: int,
    fields: FieldRecorder,
    name: String,
    metadata: &'static Metadata<'static>,
    named: Option<u64>,
    id: u64,
)
    requires
        before.wf(),
        before.described(),
        before.new_span_logged(thread, fields@, name@, metadata, named, after, Some(id)),
        named is Some || before.stacks[thread].len() > 0,
    ensures
        created_below(
            before,
            after,
            match named {
                Some(parent) => parent,
                None => before.stacks[thread].last(),
            },
            id,
        ),
        describes(after.spans[id].data, fields, name, metadata),
{
    let parent = match named {
        Some(parent) => parent,
        None => before.stacks[thread].last(),
    };
    assert(before.spans.contains_key(parent));
    assert(before.spans[parent].data.wf());
    assert(!before.spans.contains_key(before.next_id));
    assert(after.spans =~= before.spans.insert(parent, after.spans[parent]).insert(
        id,
        after.spans[id],
    ));
}

/// An event whose level is not within the range is not printed, wherever the thread is, and changes
/// nothing.
pub proof fn law_event_of_another_level(
    registry: &mut SpanRegistry<SpanDescription>,
    levels: RangeInclusive<Level>,
    start: int,
    end: int,
    i: int,
    max_depth: usize,
    thread: usize,
    fields: FieldRecorder,
    now: u64,
    out: Option<Vec<String>>,
)
    requires
        0 <= start < 5,
        0 <= end < 5,
        0 <= i < 5,
        levels@.start == levels_in_order()[start],
        levels@.end == levels_in_order()[end],
        i < start || i > end,
        call_ensures(
            SpanRegistry::<SpanDescription>::log_event,
            (registry, &levels, max_depth, thread, levels_in_order()[i], fields, now),
            out,
        ),
    ensures
        out matches Some(printed) && printed@.len() == 0,
        final(registry)@ == old(registry)@,
{
}

/// An event whose level is within the range, on a thread that is in no span, is printed at once, as its
/// message and fields, and changes nothing.
pub proof fn law_event_outside_of_spans(
    registry: &mut SpanRegistry<SpanDescription>,
    levels: RangeInclusive<Level>,
    start: int,
    end: int,
    i: int,
    max_depth: usize,
    thread: usize,
    fields: FieldRecorder,
    now: u64,
    out: Option<Vec<String>>,
)
    requires
        0 <= start <= i <= end < 5,
        levels@.start == levels_in_order()[start],
        levels@.end == levels_in_order()[end],
        !levels@.exhausted,
        old(registry)@.stacks[thread as int].len() == 0,
        call_ensures(
            SpanRegistry::<SpanDescription>::log_event,
            (registry, &levels, max_depth, thread, levels_in_order()[i], fields, now),
            out,
        ),
    ensures
        out matches Some(printed) && printed@.len() == 1 && printed@[0]@ == text_of(
            fields@.message,
            fields@.fields,
        ),
        final(registry)@ == old(registry)@,
{
    lemma_text_of(fields);
}

/// An event on a thread whose innermost span is at the maximal depth or below is not printed and changes
/// nothing.
pub proof fn law_event_too_deep_down(
    registry: &mut SpanRegistry<SpanDescription>,
    levels: RangeInclusive<Level>,
    level: Level,
    max_depth: usize,
    thread: usize,
    fields: FieldRecorder,
    now: u64,
    out: Option<Vec<String>>,
)
    requires
        old(registry)@.stacks[thread as int].len() > 0,
        old(registry)@.spans.contains_key(old(registry)@.stacks[thread as int].last()),
        old(registry)@.spans[old(registry)@.stacks[thread as int].last()].data.depth >= max_depth,
        call_ensures(
            SpanRegistry::<SpanDescription>::log_event,
            (registry, &levels, max_depth, thread, level, fields, now),
            out,
        ),
    ensures
        out matches Some(printed) && printed@.len() == 0,
        final(registry)@ == old(registry)@,
{
}

/// An event whose level is within the range, on a thread whose innermost span is registered and not as
/// deep down as the maximal depth, is sent to that span as one message: its message and fields, in the
/// color of the span. If the span has the permission, exactly that is printed.
pub proof fn law_event_in_a_span(
    registry: &mut SpanRegistry<SpanDescription>,
    levels: RangeInclusive<Level>,
    start: int,
    end: int,
    i: int,
    max_depth: usize,
    thread: usize,
    id: u64,
    fields: FieldRecorder,
    now: u64,
    out: Option<Vec<String>>,
)
    requires
        0 <= start <= i <= end < 5,
        levels@.start == levels_in_order()[start],
        levels@.end == levels_in_order()[end],
        !levels@.exhausted,
        old(registry)@.stacks[thread as int].len() > 0,
        old(registry)@.stacks[thread as int].last() == id,
        old(registry)@.spans.contains_key(id),
        old(registry)@.spans[id].data.depth < max_depth,
        call_ensures(
            SpanRegistry::<SpanDescription>::log_event,
            (registry, &levels, max_depth, thread, levels_in_order()[i], fields, now),
            out,
        ),
    ensures
        told(
            old(registry)@,
            final(registry)@,
            id,
            text_of(fields@.message, fields@.fields),
            now,
            out,
        ),
{
    lemma_text_of(fields);
    lemma_told(
        registry@,
        final(registry)@,
        id,
        text_of(fields@.message, fields@.fields),
        now,
        out,
    );
}

/// An event whose level is within the range, on a thread whose innermost span is registered, not as deep
/// down as the maximal depth, and has the permission to itself, is printed, whatever the time is: exactly
/// one message, which is the message and the fields of the event in the color of the span. Nothing
/// changes.
pub proof fn law_event_with_permission_is_printed(
    registry: &mut SpanRegistry<SpanDescription>,
    levels: RangeInclusive<Level>,
    level: Level,
    max_depth: usize,
    thread: usize,
    id: u64,
    fields: FieldRecorder,
    now: u64,
    out: Option<Vec<String>>,
)
    requires
        is_between(levels@, level),
        old(registry)@.stacks[thread as int].len() > 0,
        old(registry)@.stacks[thread as int].last() == id,
        old(registry)@.spans.contains_key(id),
        old(registry)@.spans[id].data.depth < max_depth,
        old(registry)@.spans[id].state == SpanState::PermissionAcquired,
        call_ensures(
            SpanRegistry::<SpanDescription>::log_event,
            (registry, &levels, max_depth, thread, level, fields, now),
            out,
        ),
    ensures
        out is Some,
        out->0@.len() == 1,
        is_text_in_color(
            old(registry)@.spans[id].data.color,
            text_of(fields@.message, fields@.fields),
            out->0@[0]@,
        ),
        final(registry)@ == old(registry)@,
{
    lemma_event_told(
        registry@,
        final(registry)@,
        levels@,
        max_depth,
        thread as int,
        level,
        fields,
        now,
        out,
    );
}

/// What is said to be shown is told to the span, and printed at once if the thread is in no span; of what
/// is said not to be shown nothing is printed; and of what is neither said to be shown nor not, the span
/// is gone, and the event is refused.
pub proof fn law_events_are_shown_as_said(
    registry: &mut SpanRegistry<SpanDescription>,
    levels: RangeInclusive<Level>,
    level: Level,
    max_depth: usize,
    thread: usize,
    fields: FieldRecorder,
    now: u64,
    out: Option<Vec<String>>,
    shown: Option<bool>,
)
    requires
        call_ensures(
            SpanRegistry::<SpanDescription>::shows_event,
            (old(registry), &levels, max_depth, thread, level),
            shown,
        ),
        call_ensures(
            SpanRegistry::<SpanDescription>::log_event,
            (registry, &levels, max_depth, thread, level, fields, now),
            out,
        ),
    ensures
        shown == Some(true) && old(registry)@.stacks[thread as int].len() > 0 ==> told(
            old(registry)@,
            final(registry)@,
            old(registry)@.stacks[thread as int].last(),
            text_of(fields@.message, fields@.fields),
            now,
            out,
        ),
        shown == Some(true) && old(registry)@.stacks[thread as int].len() == 0 ==> {
            &&& out matches Some(printed) && printed@.len() == 1 && printed@[0]@ == text_of(
                fields@.message,
                fields@.fields,
            )
            &&& final(registry)@ == old(registry)@
        },
        shown == Some(false) ==> {
            &&& out matches Some(printed) && printed@.len() == 0
            &&& final(registry)@ == old(registry)@
        },
        shown is None ==> out is None && final(registry)@ == old(registry)@,
        shown == event_is_shown(old(registry)@, levels@, max_depth, thread as int, level),
{
    law_range_of_levels(levels@, level);
    lemma_event_told(
        registry@,
        final(registry)@,
        levels@,
        max_depth,
        thread as int,
        level,
        fields,
        now,
        out,
    );
}

/// An event is shown if its level is within the range and the thread is in no span, or in one that is not
/// as deep down as the maximal depth. If that span is gone, there is no telling.
pub open spec fn event_is_shown(
    registry: RegistryView<SpanDescription>,
    levels: RangeInclusiveView<Level>,
    max_depth: usize,
    thread: int,
    level: Level,
) -> Option<bool> {
    let stack = registry.stacks[thread];
    if !is_between(levels, level) {
        Some(false)
    } else if stack.len() == 0 {
        Some(true)
    } else if registry.spans.contains_key(stack.last()) {
        Some(registry.spans[stack.last()].data.depth < max_depth)
    } else {
        None
    }
}

/// What comes of an event.
pub open spec fn event_told(
    before: RegistryView<SpanDescription>,
    after: RegistryView<SpanDescription>,
    levels: RangeInclusiveView<Level>,
    max_depth: usize,
    thread: int,
    level: Level,
    fields: FieldRecorder,
    now: u64,
    out: Option<Vec<String>>,
) -> bool {
    let stack = before.stacks[thread];
    let text = text_of(fields@.message, fields@.fields);
    match event_is_shown(before, levels, max_depth, thread, level) {
        Some(true) => if stack.len() > 0 {
            told(before, after, stack.last(), text, now, out)
        } else {
            &&& out matches Some(printed) && printed@.len() == 1 && printed@[0]@ == text
            &&& after == before
        },
        Some(false) => {
            &&& out matches Some(printed) && printed@.len() == 0
            &&& after == before
        },
        None => out is None && after == before,
    }
}

/// An event is told to the span that the thread is in.
pub proof fn lemma_event_told(
    before: RegistryView<SpanDescription>,
    after: RegistryView<SpanDescription>,
    levels: RangeInclusiveView<Level>,
    max_depth: usize,
    thread: int,
    level: Level,
    fields: FieldRecorder,
    now: u64,
    out: Option<Vec<String>>,
)
    requires
        before.event_logged(levels, max_depth, thread, level, fields@, now, after, out),
    ensures
        event_told(before, after, levels, max_depth, thread, level, fields, now, out),
{
    lemma_text_of(fields);
    law_range_of_levels(levels, level);
    let text = text_of(fields@.message, fields@.fields);
    if event_is_shown(before, levels, max_depth, thread, level) == Some(true)
        && before.stacks[thread].len() > 0 {
        lemma_told(before, after, before.stacks[thread].last(), text, now, out);
    }
}

/// The span cannot be told anything at time `now`: no thread is in it, or its silent period is over and
/// its parent cannot answer.
pub open spec fn cannot_be_told(
    registry: RegistryView<SpanDescription>,
    id: u64,
    now: u64,
) -> bool {
    ||| registry.spans[id].state == SpanState::Inactive
    ||| registry.spans[id].state == SpanState::SilentPeriod && now >= registry.silent_duration
        + registry.spans[id].entered_time && registry.spans[id].parent_id is Some && !answerable(
        registry.spans,
        registry.spans[id].parent_id,
    )
}

/// The text was told to the span at time `now`, as one message in the color of the span; or the span
/// cannot be told anything, and nothing changes.
pub open spec fn told(
    before: RegistryView<SpanDescription>,
    after: RegistryView<SpanDescription>,
    id: u64,
    text: Seq<char>,
    now: u64,
    out: Option<Vec<String>>,
) -> bool {
    match out {
        Some(printed) => {
            &&& !cannot_be_told(before, id, now)
            &&& exists|message: String|
                {
                    &&& is_text_in_color(before.spans[id].data.color, text, message@)
                    &&& #[trigger] message_told(before, after, id, message, now, Some(printed@))
                }
        },
        None => cannot_be_told(before, id, now) && after == before,
    }
}

/// A report is told to the span.
proof fn lemma_told(
    before: RegistryView<SpanDescription>,
    after: RegistryView<SpanDescription>,
    id: u64,
    text: Seq<char>,
    now: u64,
    out: Option<Vec<String>>,
)
    requires
        before.spans.contains_key(id),
        if before.can_report(id, Some(text), now) {
            out matches Some(printed) && before.reported(id, Some(text), now, after, printed@)
        } else {
            out is None && after == before
        },
    ensures
        told(before, after, id, text, now, out),
{
    let color = before.spans[id].data.color;
    law_request_past_a_root(before.spans);
    if before.can_report(id, Some(text), now) {
        let message = choose|message: String|
            {
                &&& colorized(color, text, message@)
                &&& after == #[trigger] before.sent(id, message, now)
                &&& out->0@ == before.send_output(id, message, now)
            };
        law_text_in_color(color, text, message@);
        law_outcome_of_a_message(before, id, message, now);
        assert(message_told(before, after, id, message, now, Some(out->0@)));
    }
}

/// The registry in which the thread has just entered the span, at time `entered`.
pub open spec fn just_entered(
    registry: RegistryView<SpanDescription>,
    thread: int,
    id: u64,
    entered: u64,
) -> RegistryView<SpanDescription> {
    RegistryView {
        spans: registry.spans.insert(
            id,
            SpanView {
                state: SpanState::SilentPeriod,
                entered_time: entered,
                ..registry.spans[id]
            },
        ),
        stacks: registry.stacks.update(thread, registry.stacks[thread].push(id)),
        ..registry
    }
}

/// Entering a span that is not as deep down as the maximal depth tells it its name and fields, as they
/// are.
pub proof fn law_entering_is_reported(
    registry: &mut SpanRegistry<SpanDescription>,
    max_depth: usize,
    thread: usize,
    id: u64,
    entered: u64,
    now: u64,
    out: Option<Vec<String>>,
)
    requires
        old(registry)@.spans.contains_key(id),
        old(registry)@.spans[id].data.depth < max_depth,
        call_ensures(
            SpanRegistry::<SpanDescription>::log_enter,
            (registry, max_depth, thread, id, entered, now),
            out,
        ),
    ensures
        told(
            just_entered(old(registry)@, thread as int, id, entered),
            final(registry)@,
            id,
            text_of(
                old(registry)@.spans[id].data.desc@.message,
                old(registry)@.spans[id].data.desc@.fields,
            ),
            now,
            out,
        ),
{
    lemma_entering_told(registry@, final(registry)@, max_depth, thread as int, id, entered, now, out);
}

/// Entering a span at the maximal depth tells it its name and fields, with three dots for all that is
/// not shown.
pub proof fn law_entering_at_the_maximal_depth_is_reported(
    registry: &mut SpanRegistry<SpanDescription>,
    max_depth: usize,
    thread: usize,
    id: u64,
    entered: u64,
    now: u64,
    out: Option<Vec<String>>,
)
    requires
        old(registry)@.spans.contains_key(id),
        old(registry)@.spans[id].data.depth == max_depth,
        call_ensures(
            SpanRegistry::<SpanDescription>::log_enter,
            (registry, max_depth, thread, id, entered, now),
            out,
        ),
    ensures
        told(
            just_entered(old(registry)@, thread as int, id, entered),
            final(registry)@,
            id,
            text_of(
                old(registry)@.spans[id].data.desc@.message,
                old(registry)@.spans[id].data.desc@.fields,
            ) + seq!['.', '.', '.'],
            now,
            out,
        ),
{
    lemma_entering_told(registry@, final(registry)@, max_depth, thread as int, id, entered, now, out);
}

/// Entering a span below the maximal depth is not reported, but the span is entered.
pub proof fn law_entering_too_deep_down_is_not_reported(
    registry: &mut SpanRegistry<SpanDescription>,
    max_depth: usize,
    thread: usize,
    id: u64,
    entered: u64,
    now: u64,
    out: Option<Vec<String>>,
)
    requires
        old(registry)@.spans.contains_key(id),
        old(registry)@.spans[id].data.depth > max_depth,
        call_ensures(
            SpanRegistry::<SpanDescription>::log_enter,
            (registry, max_depth, thread, id, entered, now),
            out,
        ),
    ensures
        out matches Some(printed) && printed@.len() == 0,
        final(registry)@ == just_entered(old(registry)@, thread as int, id, entered),
{
    lemma_entering_told(registry@, final(registry)@, max_depth, thread as int, id, entered, now, out);
}

/// The entry into a span was told to it as its depth says.
pub open spec fn entering_told(
    before: RegistryView<SpanDescription>,
    after: RegistryView<SpanDescription>,
    max_depth: usize,
    thread: int,
    id: u64,
    entered: u64,
    now: u64,
    out: Option<Vec<String>>,
) -> bool {
    let data = before.spans[id].data;
    let inside = just_entered(before, thread, id, entered);
    let text = text_of(data.desc@.message, data.desc@.fields);
    if data.depth < max_depth {
        told(inside, after, id, text, now, out)
    } else if data.depth == max_depth {
        told(inside, after, id, text + seq!['.', '.', '.'], now, out)
    } else {
        out matches Some(printed) && printed@.len() == 0 && after == inside
    }
}

/// An entry is told to the span.
pub proof fn lemma_entering_told(
    before: RegistryView<SpanDescription>,
    after: RegistryView<SpanDescription>,
    max_depth: usize,
    thread: int,
    id: u64,
    entered: u64,
    now: u64,
    out: Option<Vec<String>>,
)
    requires
        before.spans.contains_key(id),
        before.enter_logged(max_depth, thread, id, entered, now, after, out),
    ensures
        entering_told(before, after, max_depth, thread, id, entered, now, out),
{
    let data = before.spans[id].data;
    let inside = just_entered(before, thread, id, entered);
    let text = text_of(data.desc@.message, data.desc@.fields);
    lemma_text_of(data.desc);
    reveal_strlit("...");
    assert("..."@ =~= seq!['.', '.', '.']);
    assert(inside == before.entered(thread, id, entered));
    if data.depth < max_depth {
        lemma_told(inside, after, id, text, now, out);
    } else if data.depth == max_depth {
        lemma_told(inside, after, id, text + seq!['.', '.', '.'], now, out);
    }
}

/// `after` is `before` once the thread has left the span: the innermost span is off its stack, and the
/// span is inactive, with nothing left of the visit. A parent from which it had the permission has that
/// to itself again.
pub open spec fn is_left(
    before: RegistryView<SpanDescription>,
    after: RegistryView<SpanDescription>,
    thread: int,
    id: u64,
) -> bool {
    let span = before.spans[id];
    let inactive = SpanView {
        state: SpanState::Inactive,
        messages: Seq::empty(),
        entered_time: 0,
        ..span
    };
    &&& after.next_id == before.next_id
    &&& after.silent_duration == before.silent_duration
    &&& after.stacks == before.stacks.update(thread, after.stacks[thread])
    &&& before.stacks[thread].len() > 0 ==> after.stacks[thread] == before.stacks[thread].take(
        before.stacks[thread].len() - 1,
    )
    &&& before.stacks[thread].len() == 0 ==> after.stacks[thread] == before.stacks[thread]
    &&& if span.state == SpanState::PermissionAcquired && span.parent_id is Some {
        let parent = span.parent_id->0;
        after.spans == before.spans.insert(id, inactive).insert(
            parent,
            SpanView { state: SpanState::PermissionAcquired, ..before.spans[parent] },
        )
    } else {
        after.spans == before.spans.insert(id, inactive)
    }
}

/// Leaving a root tells it how long the visit was, to the microsecond, and ends the line; then it is
/// left. If it cannot be told that, nothing changes.
pub proof fn law_leaving_a_root_is_reported(
    registry: &mut SpanRegistry<SpanDescription>,
    max_depth: usize,
    thread: usize,
    id: u64,
    seen: u64,
    now: u64,
    out: Option<Vec<String>>,
)
    requires
        thread < old(registry)@.stacks.len(),
        old(registry)@.can_exit(id),
        old(registry)@.spans[id].data.depth == 0,
        seen >= old(registry)@.spans[id].entered_time,
        call_ensures(
            SpanRegistry::<SpanDescription>::log_exit,
            (registry, max_depth, thread, id, seen, now),
            out,
        ),
    ensures
        exists|text: Seq<char>, between: RegistryView<SpanDescription>|
            {
                &&& text.last() == '\n'
                &&& tells_time(text.drop_last(), seen - old(registry)@.spans[id].entered_time)
                &&& #[trigger] told(old(registry)@, between, id, text, now, out)
                &&& out is Some ==> is_left(between, final(registry)@, thread as int, id)
            },
        out is None ==> final(registry)@ == old(registry)@,
{
    let (text, between) = lemma_leaving_told(
        registry@,
        final(registry)@,
        max_depth,
        thread as int,
        id,
        seen,
        now,
        out,
    );
    assert(told(registry@, between, id, text, now, out));
}

/// Leaving a span that is no root and at most at the maximal depth tells it how long the visit was, to
/// the microsecond; then it is left. If it cannot be told that, nothing changes.
pub proof fn law_leaving_is_reported(
    registry: &mut SpanRegistry<SpanDescription>,
    max_depth: usize,
    thread: usize,
    id: u64,
    seen: u64,
    now: u64,
    out: Option<Vec<String>>,
)
    requires
        thread < old(registry)@.stacks.len(),
        old(registry)@.can_exit(id),
        0 < old(registry)@.spans[id].data.depth <= max_depth,
        seen >= old(registry)@.spans[id].entered_time,
        call_ensures(
            SpanRegistry::<SpanDescription>::log_exit,
            (registry, max_depth, thread, id, seen, now),
            out,
        ),
    ensures
        exists|text: Seq<char>, between: RegistryView<SpanDescription>|
            {
                &&& tells_time(text, seen - old(registry)@.spans[id].entered_time)
                &&& #[trigger] told(old(registry)@, between, id, text, now, out)
                &&& out is Some ==> is_left(between, final(registry)@, thread as int, id)
            },
        out is None ==> final(registry)@ == old(registry)@,
{
    let (text, between) = lemma_leaving_told(
        registry@,
        final(registry)@,
        max_depth,
        thread as int,
        id,
        seen,
        now,
        out,
    );
    assert(told(registry@, between, id, text, now, out));
}

/// Leaving a span below the maximal depth is not reported, but the span is left.
pub proof fn law_leaving_too_deep_down_is_not_reported(
    registry: &mut SpanRegistry<SpanDescription>,
    max_depth: usize,
    thread: usize,
    id: u64,
    seen: u64,
    now: u64,
    out: Option<Vec<String>>,
)
    requires
        thread < old(registry)@.stacks.len(),
        old(registry)@.can_exit(id),
        old(registry)@.spans[id].data.depth > 0,
        old(registry)@.spans[id].data.depth > max_depth,
        call_ensures(
            SpanRegistry::<SpanDescription>::log_exit,
            (registry, max_depth, thread, id, seen, now),
            out,
        ),
    ensures
        out matches Some(printed) && printed@.len() == 0,
        is_left(old(registry)@, final(registry)@, thread as int, id),
{
    lemma_leaving_told(registry@, final(registry)@, max_depth, thread as int, id, seen, now, out);
}

/// With the permission, the end of a span is printed at once, whatever the time is: exactly one message
/// in the color of the span, which tells the time of the visit, and ends the line for a root.
pub proof fn law_end_of_a_span_with_permission_is_printed(
    registry: &mut SpanRegistry<SpanDescription>,
    max_depth: usize,
    thread: usize,
    id: u64,
    seen: u64,
    now: u64,
    out: Option<Vec<String>>,
)
    requires
        thread < old(registry)@.stacks.len(),
        old(registry)@.can_exit(id),
        old(registry)@.spans[id].state == SpanState::PermissionAcquired,
        old(registry)@.spans[id].data.depth == 0 || old(registry)@.spans[id].data.depth <= max_depth,
        seen >= old(registry)@.spans[id].entered_time,
        call_ensures(
            SpanRegistry::<SpanDescription>::log_exit,
            (registry, max_depth, thread, id, seen, now),
            out,
        ),
    ensures
        out is Some,
        out->0@.len() == 1,
        exists|text: Seq<char>|
            {
                &&& #[trigger] is_text_in_color(
                    old(registry)@.spans[id].data.color,
                    text,
                    out->0@[0]@,
                )
                &&& old(registry)@.spans[id].data.depth > 0 ==> tells_time(
                    text,
                    seen - old(registry)@.spans[id].entered_time,
                )
                &&& old(registry)@.spans[id].data.depth == 0 ==> text.last() == '\n' && tells_time(
                    text.drop_last(),
                    seen - old(registry)@.spans[id].entered_time,
                )
            },
        is_left(old(registry)@, final(registry)@, thread as int, id),
{
    let (text, between) = lemma_leaving_told(
        registry@,
        final(registry)@,
        max_depth,
        thread as int,
        id,
        seen,
        now,
        out,
    );
    assert(told(registry@, between, id, text, now, out));
    assert(is_text_in_color(registry@.spans[id].data.color, text, out->0@[0]@));
}

/// The end of a visit, `between` being the registry after it was reported but before the span is left.
pub open spec fn leaving_told(
    before: RegistryView<SpanDescription>,
    text: Seq<char>,
    between: RegistryView<SpanDescription>,
    after: RegistryView<SpanDescription>,
    max_depth: usize,
    thread: int,
    id: u64,
    seen: u64,
    now: u64,
    out: Option<Vec<String>>,
) -> bool {
    let span = before.spans[id];
    let micros = if seen >= span.entered_time {
        seen - span.entered_time
    } else {
        0
    };
    &&& if span.data.depth == 0 {
        &&& text.len() > 0
        &&& text.last() == '\n'
        &&& tells_time(text.drop_last(), micros)
        &&& told(before, between, id, text, now, out)
    } else if span.data.depth <= max_depth {
        &&& tells_time(text, micros)
        &&& told(before, between, id, text, now, out)
    } else {
        &&& out matches Some(printed) && printed@.len() == 0
        &&& between == before
    }
    &&& out is Some ==> is_left(between, after, thread, id)
    &&& out is None ==> after == before
}

/// The end of a visit is told to the span.
pub proof fn lemma_leaving_told(
    before: RegistryView<SpanDescription>,
    after: RegistryView<SpanDescription>,
    max_depth: usize,
    thread: int,
    id: u64,
    seen: u64,
    now: u64,
    out: Option<Vec<String>>,
) -> (reported: (Seq<char>, RegistryView<SpanDescription>))
    requires
        0 <= thread < before.stacks.len(),
        before.can_exit(id),
        before.exit_logged(max_depth, thread, id, seen, now, after, out),
    ensures
        leaving_told(
            before,
            reported.0,
            reported.1,
            after,
            max_depth,
            thread,
            id,
            seen,
            now,
            out,
        ),
{
    let data = before.spans[id].data;
    let micros = running_time(before.spans[id].entered_time, seen) as nat;
    let text = data.exit_text(max_depth, micros);
    law_done_text_tells_the_time(micros);
    reveal_strlit("\n");
    assert((done_text(micros) + "\n"@).drop_last() =~= done_text(micros));
    let between = if before.can_report(id, text, now) {
        let between = choose|between: RegistryView<SpanDescription>|
            {
                &&& before.reported(id, text, now, between, out->0@)
                &&& after == #[trigger] between.exited(thread, id)
            };
        lemma_reported_can_exit(before, id, text, now, between, out->0@);
        assert(between.stacks == before.stacks);
        assert(is_left(between, after, thread, id));
        between
    } else {
        before
    };
    if text is Some {
        lemma_told(before, between, id, text->0, now, out);
        (text->0, between)
    } else {
        (Seq::empty(), between)
    }
}

} // verus!
