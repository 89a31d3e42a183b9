//! What holds of everything that the logger prints.

use crate::color::SpanColor;
use crate::level::Level;
use crate::logger::{lemma_reported_can_exit, SpanDescription};
use crate::model::{held_back, RegistryView};
use crate::recorder::RecorderView;
use crate::state::SpanState;
use crate::text::{decimal, digit, done_text};
use tracing_core::Metadata;
use vstd::prelude::*;
use vstd::std_specs::range::RangeInclusiveView;

verus! {

/// The colors of the palette are all different, and come around again after as many as there are.
pub proof fn law_palette_cycles(i: usize, j: usize)
    ensures
        SpanColor::of_count(i) == SpanColor::of_count(j) <==> i % 6 == j % 6,
{
}

/// The description of a span after `n` of its children have got their colors.
pub open spec fn after_children(description: SpanDescription, n: nat) -> SpanDescription
    decreases n,
{
    if n == 0 {
        description
    } else {
        after_children(description, (n - 1) as nat).child_counted()
    }
}

/// The counter after children have got their colors.
proof fn lemma_after_children(description: SpanDescription, n: nat)
    requires
        description.color_counter is Some,
        description.color_counter->0 + n <= usize::MAX,
    ensures
        after_children(description, n).color_counter == Some(
            (description.color_counter->0 + n) as usize,
        ),
    decreases n,
{
    if n > 0 {
        lemma_after_children(description, (n - 1) as nat);
    }
}

/// Any children of a root that are created within one round of the palette have different colors.
pub proof fn law_children_of_a_root_differ(description: SpanDescription, n: nat)
    requires
        description.wf(),
        description.depth == 0,
        description.color_counter->0 + n <= usize::MAX,
        0 < n < 6,
    ensures
        description.child_color() is Some,
        after_children(description, n).child_color() is Some,
        description.child_color() != after_children(description, n).child_color(),
{
    lemma_after_children(description, n);
    let count = description.color_counter->0;
    law_palette_cycles(count, (count + n) as usize);
}

/// A span below the second level has the color of its parent, and so the color of the second-level
/// span that it is in. A root has none.
pub proof fn law_subtree_has_one_color(
    registry: RegistryView<SpanDescription>,
    data: SpanDescription,
    fields: RecorderView,
    name: Seq<char>,
    metadata: &'static Metadata<'static>,
    parent: Option<u64>,
)
    requires
        registry.described(),
        registry.can_create_below(parent),
        registry.describes_new(data, fields, name, metadata, parent),
    ensures
        data.wf(),
        parent is None ==> data.depth == 0 && data.color is None,
        parent matches Some(parent) ==> data.depth == registry.spans[parent].data.depth + 1,
        parent matches Some(parent) ==> (registry.spans[parent].data.depth > 0 ==> data.color
            == registry.spans[parent].data.color),
{
}

/// Nothing is printed of an event in a span that is too deep down, nor of one whose level is not
/// within the range: of those that are not shown.
pub proof fn law_filtered_events_are_not_printed(
    registry: RegistryView<SpanDescription>,
    levels: RangeInclusiveView<Level>,
    max_depth: usize,
    thread: int,
    level: Level,
    fields: RecorderView,
    now: u64,
    after: RegistryView<SpanDescription>,
    out: Option<Vec<String>>,
)
    requires
        registry.event_logged(levels, max_depth, thread, level, fields, now, after, out),
        registry.event_shown(levels, max_depth, thread, level) == Some(false),
    ensures
        out matches Some(printed) && printed@.len() == 0,
        after == registry,
{
}

/// Nothing is printed when a span that is too deep down is entered or left.
pub proof fn law_deep_spans_are_not_printed(
    description: SpanDescription,
    max_depth: usize,
    micros: nat,
)
    requires
        description.depth > max_depth,
    ensures
        description.enter_text(max_depth) is None,
        description.exit_text(max_depth, micros) is None,
{
}

/// A span that was just entered and reported can be left.
pub proof fn law_entered_span_can_be_left(
    registry: RegistryView<SpanDescription>,
    max_depth: usize,
    thread: int,
    id: u64,
    entered: u64,
    now: u64,
    after: RegistryView<SpanDescription>,
    out: Option<Vec<String>>,
)
    requires
        registry.spans.contains_key(id),
        registry.spans[id].state == SpanState::Inactive,
        registry.enter_logged(max_depth, thread, id, entered, now, after, out),
    ensures
        after.can_exit(id),
{
    let text = registry.spans[id].data.enter_text(max_depth);
    let inside = registry.entered(thread, id, entered);
    if inside.can_report(id, text, now) {
        lemma_reported_can_exit(inside, id, text, now, after, out->0@);
    }
}

/// Without a silent period, entering a root prints its text at once, if the time of the report is not
/// before the time of entry.
pub proof fn law_without_silent_period_roots_print_at_once(
    registry: RegistryView<SpanDescription>,
    max_depth: usize,
    thread: int,
    id: u64,
    entered: u64,
    now: u64,
    after: RegistryView<SpanDescription>,
    out: Option<Vec<String>>,
)
    requires
        registry.wf(),
        registry.described(),
        registry.silent_duration == 0,
        registry.spans.contains_key(id),
        registry.spans[id].state == SpanState::Inactive,
        registry.spans[id].parent_id is None,
        registry.spans[id].data.depth == 0,
        entered <= now,
        registry.enter_logged(max_depth, thread, id, entered, now, after, out),
    ensures
        out matches Some(printed) && printed@.len() == 1 && Some(printed@[0]@)
            == registry.spans[id].data.enter_text(max_depth),
        after.spans[id].state == SpanState::PermissionAcquired,
{
    broadcast use crate::model::group_requests;

    let inside = registry.entered(thread, id, entered);
    assert(inside.can_send(id, now));
    assert(inside.spans[id].messages.len() == 0);
    assert(held_back(inside.spans, Seq::empty()).len() == 0);
}

/// A decimal representation contains digits only.
proof fn lemma_decimal_digits(n: nat, i: int)
    requires
        0 <= i < decimal(n).len(),
    ensures
        exists|d: nat| #[trigger] digit(d) == decimal(n)[i],
    decreases n,
{
    if n < 10 {
        assert(digit(n) == decimal(n)[i]);
    } else if i < decimal(n / 10).len() {
        lemma_decimal_digits(n / 10, i);
    } else {
        assert(digit(n % 10) == decimal(n)[i]);
    }
}

/// The report on the time that a span took does not end the line.
proof fn lemma_done_text_has_no_line_end(micros: nat)
    ensures
        !done_text(micros).contains('\n'),
{
    reveal_strlit("done(");
    reveal_strlit(" us)");
    let text = done_text(micros);
    assert forall|i: int| 0 <= i < text.len() implies text[i] != '\n' by {
        let k = i - "done("@.len();
        if 0 <= k < decimal(micros).len() {
            lemma_decimal_digits(micros, k);
            assert(text[i] == decimal(micros)[k]);
        }
    }
}

/// The report on a root that is left ends the line, with its last character; the report on any other
/// span does not.
pub proof fn law_only_roots_end_the_line(
    description: SpanDescription,
    max_depth: usize,
    micros: nat,
)
    ensures
        description.depth == 0 ==> (description.exit_text(max_depth, micros) matches Some(text)
            && text.last() == '\n' && !text.drop_last().contains('\n')),
        description.depth != 0 ==> (description.exit_text(max_depth, micros) matches Some(text)
            ==> !text.contains('\n')),
{
    lemma_done_text_has_no_line_end(micros);
    reveal_strlit("\n");
    assert((done_text(micros) + "\n"@).drop_last() =~= done_text(micros));
}

} // verus!
