//! The logger: what it prints of the spans and events that it is told of.

use crate::ambient::DelayedLoggerImpl;
use crate::color::{colorize, colorized, SpanColor};
use crate::level::{is_within, within, Level};
use crate::model::{
    answered, climbs, lemma_climb_passes, lemma_request_from, running_time, RegistryView, Request,
};
use crate::outside::{Clock, ThreadNumbers};
use crate::recorder::{FieldRecorder, RecorderView};
use crate::registry::SpanRegistry;
use crate::state::SpanState;
use crate::text::{done, done_text};
use std::ops::RangeInclusive;
use std::time::Instant;
use tracing_core::Metadata;
use vstd::prelude::*;
use vstd::std_specs::range::RangeInclusiveView;

verus! {

/// [`tracing_core::Metadata`], the static description of a span. It is only handed through.
#[verifier::external_type_specification]
#[verifier::external_body]
pub struct ExMetadata<'a>(Metadata<'a>);

/// What the logger keeps of a span.
pub struct SpanDescription {
    /// The name of the span and the fields that were given on its creation.
    pub desc: FieldRecorder,
    /// The number of ancestors.
    pub depth: usize,
    /// The static description of the span.
    pub metadata: &'static Metadata<'static>,
    /// The color in which the span is printed.
    pub color: Option<SpanColor>,
    /// counter used to assign distinct colors to children; only set for top-level spans
    pub color_counter: Option<usize>,
}

impl SpanDescription {
    /// The roots, and no other spans, count their children; they have no color.
    pub open spec fn wf(self) -> bool {
        &&& self.color_counter is Some <==> self.depth == 0
        &&& self.depth == 0 ==> self.color is None
    }

    /// The color of the next child.
    pub open spec fn child_color(self) -> Option<SpanColor> {
        match self.color_counter {
            Some(count) => Some(SpanColor::of_count(count)),
            None => self.color,
        }
    }

    /// The description once the next child has got its color.
    pub open spec fn child_counted(self) -> SpanDescription {
        match self.color_counter {
            Some(count) => SpanDescription {
                color_counter: Some(
                    if count == usize::MAX {
                        0
                    } else {
                        (count + 1) as usize
                    },
                ),
                ..self
            },
            None => self,
        }
    }

    /// What is printed when the span is entered, if anything.
    pub open spec fn enter_text(self, max_depth: usize) -> Option<Seq<char>> {
        if self.depth < max_depth {
            Some(self.desc@.text())
        } else if self.depth == max_depth {
            Some(self.desc@.text() + "..."@)
        } else {
            None
        }
    }

    /// What is printed when the span is left after the given time, if anything. Leaving a root
    /// ends the line.
    pub open spec fn exit_text(self, max_depth: usize, micros: nat) -> Option<Seq<char>> {
        if self.depth == 0 {
            Some(done_text(micros) + "\n"@)
        } else if self.depth <= max_depth {
            Some(done_text(micros))
        } else {
            None
        }
    }

    /// What is printed of an event in the span, if anything.
    pub open spec fn event_text(self, max_depth: usize, fields: RecorderView) -> Option<Seq<char>> {
        if self.depth < max_depth {
            Some(fields.text())
        } else {
            None
        }
    }

    /// The description of a span at the given depth.
    pub fn new(
        desc: FieldRecorder,
        depth: usize,
        metadata: &'static Metadata<'static>,
        color: Option<SpanColor>,
    ) -> (description: Self)
        ensures
            description == (SpanDescription {
                desc,
                depth,
                metadata,
                color,
                color_counter: if depth == 0 {
                    Some(0)
                } else {
                    None
                },
            }),
            description.wf() == (depth == 0 ==> color is None),
    {
        let color_counter: Option<usize> = if depth == 0 {
            Some(0)
        } else {
            None
        };
        SpanDescription { desc, depth, metadata, color, color_counter }
    }

    /// The color of the next child: below a root the colors of the palette in turn, and further
    /// down the color of the parent.
    pub fn color_for_child(&mut self) -> (color: Option<SpanColor>)
        requires
            old(self).wf(),
        ensures
            final(self).wf(),
            *final(self) == old(self).child_counted(),
            color == old(self).child_color(),
    {
        match self.color_counter {
            Some(count) => {
                self.color_counter = Some(count.wrapping_add(1));
                Some(SpanColor::from_count(count))
            },
            None => self.color,
        }
    }
}

impl RegistryView<SpanDescription> {
    /// The descriptions of all spans are well-formed.
    pub open spec fn described(self) -> bool {
        forall|id: u64| #[trigger] self.spans.contains_key(id) ==> self.spans[id].data.wf()
    }

    /// The parent of a span that is created on the thread: the given one, or else the innermost
    /// span that the thread is in.
    pub open spec fn parent_of_new(self, thread: int, parent: Option<u64>) -> Option<u64> {
        match parent {
            Some(parent) => Some(parent),
            None => self.current_span(thread),
        }
    }

    /// A span can be created below the given parent: there is an id left, and the parent is
    /// registered and not too deep down.
    pub open spec fn can_create_below(self, parent: Option<u64>) -> bool {
        &&& self.next_id != 0
        &&& parent matches Some(parent) ==> self.spans.contains_key(parent)
            && self.spans[parent].data.depth < usize::MAX
    }

    /// The registry in which the parent has given out the color of its next child.
    pub open spec fn child_counted(self, parent: Option<u64>) -> RegistryView<SpanDescription> {
        match parent {
            Some(parent) => self.attached(parent, self.spans[parent].data.child_counted()),
            None => self,
        }
    }

    /// `data` describes a new span below the given parent.
    pub open spec fn describes_new(
        self,
        data: SpanDescription,
        fields: RecorderView,
        name: Seq<char>,
        metadata: &'static Metadata<'static>,
        parent: Option<u64>,
    ) -> bool {
        &&& data.desc@ == (RecorderView { message: Some(name), ..fields })
        &&& data.metadata == metadata
        &&& data.depth == (match parent {
            Some(parent) => self.spans[parent].data.depth + 1,
            None => 0,
        })
        &&& data.color == (match parent {
            Some(parent) => self.spans[parent].data.child_color(),
            None => None,
        })
        &&& data.color_counter == (match parent {
            Some(_) => None,
            None => Some(0usize),
        })
    }

    /// `text` was reported at time `now` to the span, in its color: the registry is `after` then,
    /// and `printed` is what is to be printed. No text, no report.
    pub open spec fn reported(
        self,
        id: u64,
        text: Option<Seq<char>>,
        now: u64,
        after: RegistryView<SpanDescription>,
        printed: Seq<String>,
    ) -> bool {
        match text {
            Some(text) => exists|message: String|
                {
                    &&& colorized(self.spans[id].data.color, text, message@)
                    &&& after == #[trigger] self.sent(id, message, now)
                    &&& printed == self.send_output(id, message, now)
                },
            None => after == self && printed.len() == 0,
        }
    }

    /// A text, if any, can be reported to the span at time `now`.
    pub open spec fn can_report(self, id: u64, text: Option<Seq<char>>, now: u64) -> bool {
        text is Some ==> self.can_send(id, now)
    }
}

/// A report leaves the span in a state in which it can be left, and changes no description.
pub proof fn lemma_reported_can_exit(
    registry: RegistryView<SpanDescription>,
    id: u64,
    text: Option<Seq<char>>,
    now: u64,
    after: RegistryView<SpanDescription>,
    printed: Seq<String>,
)
    requires
        registry.can_report(id, text, now),
        registry.reported(id, text, now, after, printed),
    ensures
        registry.can_exit(id) ==> after.can_exit(id),
        registry.described() ==> after.described(),
        registry.stacks == after.stacks,
        registry.next_id == after.next_id,
        registry.silent_duration == after.silent_duration,
{
    if text is Some && registry.spans[id].state == SpanState::SilentPeriod && registry.period_over(
        id,
        now,
    ) {
        let start = registry.spans[id].parent_id;
        let request = choose|request: Request| #[trigger]
            climbs(registry.spans, start, request) && (request.top matches Some(top)
                ==> registry.spans[top].state != SpanState::Inactive);
        lemma_climb_passes(registry.spans, start, request);
        lemma_request_from(registry.spans, start, request);
        assert(answered(registry.spans, start).dom() =~= registry.spans.dom());
        assert(after.spans.dom() =~= registry.spans.dom());
    }
    assert forall|other: u64| registry.described() && #[trigger]
        after.spans.contains_key(other) implies after.spans[other].data.wf() by {
        assert(registry.spans.contains_key(other));
    }
}

impl SpanRegistry<SpanDescription> {
    /// Registers a span on the thread. Its parent is the given one, or else the innermost span that
    /// the thread is in. The result is `None`, and nothing happens, if a span cannot be created
    /// there.
    pub fn log_new_span(
        &mut self,
        thread: usize,
        fields: FieldRecorder,
        name: String,
        metadata: &'static Metadata<'static>,
        parent: Option<u64>,
    ) -> (id: Option<u64>)
        requires
            old(self).wf(),
            old(self)@.described(),
            thread < old(self)@.stacks.len(),
        ensures
            final(self).wf(),
            final(self)@.described(),
            old(self)@.new_span_logged(
                thread as int,
                fields@,
                name@,
                metadata,
                parent,
                final(self)@,
                id,
            ),
    {
        let mut fields = fields;
        fields.set_message(name);
        if !self.has_next_id() {
            return None;
        }
        let parent = match parent {
            Some(parent) => Some(parent),
            None => self.current_span(thread),
        };
        let data = match parent {
            Some(parent) => {
                if !self.contains(parent) {
                    return None;
                }
                let depth = self.span_data(parent, 0).0.depth;
                if depth == usize::MAX {
                    return None;
                }
                let color = self.data_mut(parent).color_for_child();
                SpanDescription::new(fields, depth + 1, metadata, color)
            },
            None => SpanDescription::new(fields, 0, metadata, None),
        };
        assert(self@ == old(self)@.child_counted(parent));
        let id = self.create_span_with_parent(data, parent);
        Some(id)
    }

    /// Reports a text, if there is one, to the span at time `now` and returns what is to be printed.
    /// The result is `None`, and nothing happens, if the text cannot be reported.
    fn report(&mut self, id: u64, text: Option<String>, now: u64) -> (out: Option<Vec<String>>)
        requires
            old(self).wf(),
            old(self)@.described(),
            old(self)@.spans.contains_key(id),
        ensures
            final(self).wf(),
            final(self)@.described(),
            ({
                let text = crate::recorder::optional_text(text);
                if old(self)@.can_report(id, text, now) {
                    out matches Some(printed) && old(self)@.reported(
                        id,
                        text,
                        now,
                        final(self)@,
                        printed@,
                    )
                } else {
                    out is None && final(self)@ == old(self)@
                }
            }),
    {
        match text {
            Some(text) => {
                if !self.can_send(id, now) {
                    return None;
                }
                let color = self.span_data(id, now).0.color;
                let message = colorize(color, text);
                let out = self.send_message(message, id, now);
                proof {
                    assert(self@ == old(self)@.sent(id, message, now));
                    lemma_reported_can_exit(old(self)@, id, Some(text@), now, self@, out@);
                }
                Some(out)
            },
            None => Some(Vec::new()),
        }
    }

    /// Lets the thread enter the span at time `entered`, and reports that at time `now`. Returns
    /// what is to be printed, or `None` if the report is not possible; the span is entered even
    /// then.
    pub fn log_enter(
        &mut self,
        max_depth: usize,
        thread: usize,
        id: u64,
        entered: u64,
        now: u64,
    ) -> (out: Option<Vec<String>>)
        requires
            old(self).wf(),
            old(self)@.described(),
            thread < old(self)@.stacks.len(),
            old(self)@.spans.contains_key(id),
            old(self)@.spans[id].state == SpanState::Inactive,
        ensures
            final(self).wf(),
            final(self)@.described(),
            old(self)@.enter_logged(max_depth, thread as int, id, entered, now, final(self)@, out),
    {
        self.enter(thread, id, entered);
        let description = self.span_data(id, now).0;
        let text = if description.depth < max_depth {
            Some(description.desc.fmt())
        } else if description.depth == max_depth {
            Some(description.desc.fmt().concat("..."))
        } else {
            None
        };
        self.report(id, text, now)
    }

    /// Reports at time `now` that the thread leaves the span, for which it was in the span until time
    /// `seen`, and lets it leave the span. Returns what is to be printed. The result is `None`, and
    /// nothing happens, if the report is not possible.
    pub fn log_exit(
        &mut self,
        max_depth: usize,
        thread: usize,
        id: u64,
        seen: u64,
        now: u64,
    ) -> (out: Option<Vec<String>>)
        requires
            old(self).wf(),
            old(self)@.described(),
            thread < old(self)@.stacks.len(),
            old(self)@.can_exit(id),
        ensures
            final(self).wf(),
            final(self)@.described(),
            old(self)@.exit_logged(max_depth, thread as int, id, seen, now, final(self)@, out),
    {
        let (description, _, micros) = self.span_data(id, seen);
        let text = if description.depth == 0 {
            Some(done(micros).concat("\n"))
        } else if description.depth <= max_depth {
            Some(done(micros))
        } else {
            None
        };
        let out = self.report(id, text, now);
        match out {
            Some(printed) => {
                let ghost reported = self@;
                proof {
                    lemma_reported_can_exit(
                        old(self)@,
                        id,
                        crate::recorder::optional_text(text),
                        now,
                        reported,
                        printed@,
                    );
                }
                self.exit(thread, id);
                Some(printed)
            },
            None => None,
        }
    }

    /// Whether there is anything to print of an event on the thread. The result is `None` if the
    /// innermost span that the thread is in was deleted while the thread was in it, unless the level
    /// settles the matter.
    pub fn shows_event(
        &self,
        levels: &RangeInclusive<Level>,
        max_depth: usize,
        thread: usize,
        level: Level,
    ) -> (shown: Option<bool>)
        requires
            thread < self@.stacks.len(),
        ensures
            shown == self@.event_shown(levels@, max_depth, thread as int, level),
    {
        if !is_within(levels, level) {
            return Some(false);
        }
        match self.current_span(thread) {
            Some(id) => {
                if self.contains(id) {
                    Some(self.span_data(id, 0).0.depth < max_depth)
                } else {
                    None
                }
            },
            None => Some(true),
        }
    }

    /// Reports an event on the thread at time `now`, if its level is within `levels`: to the
    /// innermost span that the thread is in, or at once if it is in none. Returns what is to be
    /// printed, or `None` if the report is not possible; nothing happens then.
    pub fn log_event(
        &mut self,
        levels: &RangeInclusive<Level>,
        max_depth: usize,
        thread: usize,
        level: Level,
        fields: FieldRecorder,
        now: u64,
    ) -> (out: Option<Vec<String>>)
        requires
            old(self).wf(),
            old(self)@.described(),
            thread < old(self)@.stacks.len(),
        ensures
            final(self).wf(),
            final(self)@.described(),
            old(self)@.event_logged(
                levels@,
                max_depth,
                thread as int,
                level,
                fields@,
                now,
                final(self)@,
                out,
            ),
    {
        if !is_within(levels, level) {
            return Some(Vec::new());
        }
        match self.current_span(thread) {
            Some(id) => {
                if !self.contains(id) {
                    return None;
                }
                let text = if self.span_data(id, now).0.depth < max_depth {
                    Some(fields.to_string())
                } else {
                    None
                };
                self.report(id, text, now)
            },
            None => {
                let mut out: Vec<String> = Vec::new();
                out.push(fields.to_string());
                Some(out)
            },
        }
    }
}

impl RegistryView<SpanDescription> {
    /// What comes of creating a span: its parent is the given one, or else the innermost span that
    /// the thread is in.
    pub open spec fn new_span_logged(
        self,
        thread: int,
        fields: RecorderView,
        name: Seq<char>,
        metadata: &'static Metadata<'static>,
        parent: Option<u64>,
        after: RegistryView<SpanDescription>,
        id: Option<u64>,
    ) -> bool {
        let parent = self.parent_of_new(thread, parent);
        if self.can_create_below(parent) {
            let data = after.spans[self.next_id].data;
            &&& id == Some(self.next_id)
            &&& after == self.child_counted(parent).created(data, parent)
            &&& self.describes_new(data, fields, name, metadata, parent)
        } else {
            id is None && after == self
        }
    }

    /// What comes of entering a span.
    pub open spec fn enter_logged(
        self,
        max_depth: usize,
        thread: int,
        id: u64,
        entered: u64,
        now: u64,
        after: RegistryView<SpanDescription>,
        out: Option<Vec<String>>,
    ) -> bool {
        let text = self.spans[id].data.enter_text(max_depth);
        let inside = self.entered(thread, id, entered);
        if inside.can_report(id, text, now) {
            out matches Some(printed) && inside.reported(id, text, now, after, printed@)
        } else {
            out is None && after == inside
        }
    }

    /// What comes of leaving a span.
    pub open spec fn exit_logged(
        self,
        max_depth: usize,
        thread: int,
        id: u64,
        seen: u64,
        now: u64,
        after: RegistryView<SpanDescription>,
        out: Option<Vec<String>>,
    ) -> bool {
        let micros = running_time(self.spans[id].entered_time, seen) as nat;
        let text = self.spans[id].data.exit_text(max_depth, micros);
        if self.can_report(id, text, now) {
            &&& out is Some
            &&& exists|told: RegistryView<SpanDescription>|
                {
                    &&& self.reported(id, text, now, told, out->0@)
                    &&& after == #[trigger] told.exited(thread, id)
                }
        } else {
            out is None && after == self
        }
    }

    /// Whether there is anything to print of an event: its level is within the range, and the
    /// innermost span that the thread is in, if any, is not too deep down. `None` if that span is
    /// not registered.
    pub open spec fn event_shown(
        self,
        levels: RangeInclusiveView<Level>,
        max_depth: usize,
        thread: int,
        level: Level,
    ) -> Option<bool> {
        if !within(levels, level) {
            Some(false)
        } else {
            match self.current_span(thread) {
                Some(id) => if self.spans.contains_key(id) {
                    Some(self.spans[id].data.depth < max_depth)
                } else {
                    None
                },
                None => Some(true),
            }
        }
    }

    /// What comes of an event.
    pub open spec fn event_logged(
        self,
        levels: RangeInclusiveView<Level>,
        max_depth: usize,
        thread: int,
        level: Level,
        fields: RecorderView,
        now: u64,
        after: RegistryView<SpanDescription>,
        out: Option<Vec<String>>,
    ) -> bool {
        if !within(levels, level) {
            &&& out matches Some(printed) && printed@.len() == 0
            &&& after == self
        } else {
            match self.current_span(thread) {
                Some(id) => {
                    let text = self.spans[id].data.event_text(max_depth, fields);
                    if self.spans.contains_key(id) && self.can_report(id, text, now) {
                        out matches Some(printed) && self.reported(id, text, now, after, printed@)
                    } else {
                        out is None && after == self
                    }
                },
                None => {
                    &&& out matches Some(printed) && printed@.len() == 1 && printed@[0]@
                        == fields.text()
                    &&& after == self
                },
            }
        }
    }
}

/// A logger that prints the events deemed most important to get a high-level overview of the
/// executed algorithm.
///
///  - Messages are only printed after the algorithm has spent a certain time in the current span,
///    thus not printing anything for short spans.
///  - For each root span, all logged sub-spans and events are written in a single line, keeping
///    the output compact.
///  - To make the single line easier to read, every second-level span (and its sub-tree) is printed
///    in a different color, cycling through a fixed palette, where the output supports colors.
///
/// The operations return what is to be printed. They are those of the registry, for the calling
/// thread and the current time, and say what they do for some thread that may be calling and some
/// time that the clock may show.
pub struct DelayedLogger {
    base: DelayedLoggerImpl<SpanDescription>,
    levels: RangeInclusive<Level>,
    max_depth: usize,
}

impl View for DelayedLogger {
    type V = RegistryView<SpanDescription>;

    closed spec fn view(&self) -> RegistryView<SpanDescription> {
        self.base@
    }
}

impl DelayedLogger {
    /// The levels of the events that are printed.
    pub closed spec fn spec_levels(&self) -> RangeInclusiveView<Level> {
        self.levels@
    }

    /// The depth from which on events are not printed.
    pub closed spec fn spec_max_depth(&self) -> usize {
        self.max_depth
    }

    /// The clock that the logger goes by.
    pub closed spec fn spec_clock(&self) -> Clock {
        self.base.clock
    }

    /// The threads that have used the logger.
    pub closed spec fn spec_threads(&self) -> ThreadNumbers {
        self.base.threads
    }

    /// What holds of every logger.
    pub closed spec fn wf(&self) -> bool {
        &&& self.base.wf()
        &&& self@.described()
    }

    /// The calling thread may be the given one: it has used the logger before under that number, or
    /// else it has not used it and is next in line for a stack.
    pub open spec fn may_be_calling(&self, thread: int) -> bool {
        &&& 0 <= thread <= self@.stacks.len()
        &&& thread < self@.stacks.len() ==> self.spec_threads()@.contains(thread as usize)
        &&& self.spec_threads().may_tell(self@.stacks.len() as usize, thread as usize)
    }

    /// What is known of the contents of every logger.
    pub proof fn lemma_wf_view(&self)
        requires
            self.wf(),
        ensures
            self@.wf(),
            self@.described(),
            forall|number: usize| #[trigger]
                self.spec_threads()@.contains(number) ==> number < self@.stacks.len(),
    {
        self.base.registry.lemma_wf_view();
    }

    /// The two loggers are set up alike, and go by the same clock.
    pub open spec fn same_settings(&self, other: &DelayedLogger) -> bool {
        &&& self.spec_levels() == other.spec_levels()
        &&& self.spec_max_depth() == other.spec_max_depth()
        &&& self.spec_clock() == other.spec_clock()
    }

    /// Creates a new [`DelayedLogger`], which logs only events and spans
    ///  - whose [`Level`] is within `levels`
    ///  - which are part of a span that will be running for at least `silent_period` microseconds;
    ///    any message queued at a time when this is not yet decided will be stored and possibly
    ///    printed later
    ///  - are part of a span of depth at most `max_depth` in the span tree; of a span at depth
    ///    `max_depth` only the span itself is shown, with an ellipsis, and not its events
    pub fn new(max_depth: usize, silent_period: u64, levels: RangeInclusive<Level>) -> (logger: Self)
        ensures
            logger.wf(),
            logger@ == RegistryView::<SpanDescription>::empty(silent_period),
            logger.spec_levels() == levels@,
            logger.spec_max_depth() == max_depth,
            logger.spec_threads()@ == Set::<usize>::empty(),
            call_ensures(Instant::now, (), logger.spec_clock().spec_baseline()),
    {
        DelayedLogger { base: DelayedLoggerImpl::new(silent_period), levels, max_depth }
    }

    /// Creates a new [`DelayedLogger`] with a configuration for tests: all levels, a tenth of a
    /// second, and a depth of four.
    pub fn new_for_tests() -> (logger: Self)
        ensures
            logger.wf(),
            logger@ == RegistryView::<SpanDescription>::empty(100000),
            logger.spec_max_depth() == 4,
            logger.spec_threads()@ == Set::<usize>::empty(),
            call_ensures(Instant::now, (), logger.spec_clock().spec_baseline()),
            forall|level: Level| #[trigger] within(logger.spec_levels(), level),
    {
        Self::new(4, 100000, RangeInclusive::new(Level::Error, Level::Trace))
    }

    /// Whether spans and events of the level are of interest at all.
    pub fn enabled(&self, level: Level) -> (enabled: bool)
        ensures
            enabled == within(self.spec_levels(), level),
    {
        is_within(&self.levels, level)
    }

    /// The innermost span that the calling thread is in, with its static description. The result
    /// is `None` if that span was deleted while the thread was in it.
    pub fn current_span(&mut self) -> (current: Option<Option<(u64, &'static Metadata<'static>)>>)
        requires
            old(self).wf(),
        ensures
            final(self).wf(),
            final(self).same_settings(old(self)),
            exists|thread: int|
                {
                    &&& old(self).may_be_calling(thread)
                    &&& final(self).spec_threads()@ == old(self).spec_threads()@.insert(
                        thread as usize,
                    )
                    &&& final(self)@ == #[trigger] old(self)@.joined(thread)
                    &&& current == (match final(self)@.current_span(thread) {
                        Some(id) => if final(self)@.spans.contains_key(id) {
                            Some(Some((id, final(self)@.spans[id].data.metadata)))
                        } else {
                            None
                        },
                        None => Some(None),
                    })
                },
    {
        match self.base.current_span() {
            Some(id) => {
                if self.base.registry.contains(id) {
                    Some(Some((id, self.base.registry.span_data(id, 0).0.metadata)))
                } else {
                    None
                }
            },
            None => Some(None),
        }
    }

    /// Registers a span with the given name, fields and static description. Its parent is the given
    /// one, or else the innermost span that the calling thread is in. The result is `None`, and no
    /// span is registered, if a span cannot be created there.
    pub fn new_span(
        &mut self,
        fields: FieldRecorder,
        name: String,
        metadata: &'static Metadata<'static>,
        parent: Option<u64>,
    ) -> (id: Option<u64>)
        requires
            old(self).wf(),
        ensures
            final(self).wf(),
            final(self).same_settings(old(self)),
            exists|thread: int|
                {
                    &&& old(self).may_be_calling(thread)
                    &&& final(self).spec_threads()@ == old(self).spec_threads()@.insert(
                        thread as usize,
                    )
                    &&& #[trigger] old(self)@.joined(thread).new_span_logged(
                        thread,
                        fields@,
                        name@,
                        metadata,
                        parent,
                        final(self)@,
                        id,
                    )
                },
    {
        let thread = self.base.current_thread();
        let ghost (recorded, named) = (fields@, name@);
        let id = self.base.registry.log_new_span(thread, fields, name, metadata, parent);
        assert(old(self)@.joined(thread as int).new_span_logged(
            thread as int,
            recorded,
            named,
            metadata,
            parent,
            self@,
            id,
        ));
        id
    }

    /// Whether there is anything to print of an event on the calling thread. The result is `None` if
    /// the innermost span that the thread is in was deleted while the thread was in it, unless the
    /// level settles the matter.
    pub fn shows_event(&mut self, level: Level) -> (shown: Option<bool>)
        requires
            old(self).wf(),
        ensures
            final(self).wf(),
            final(self).same_settings(old(self)),
            exists|thread: int|
                {
                    &&& old(self).may_be_calling(thread)
                    &&& final(self).spec_threads()@ == old(self).spec_threads()@.insert(
                        thread as usize,
                    )
                    &&& final(self)@ == #[trigger] old(self)@.joined(thread)
                    &&& shown == final(self)@.event_shown(
                        old(self).spec_levels(),
                        old(self).spec_max_depth(),
                        thread,
                        level,
                    )
                },
    {
        let thread = self.base.current_thread();
        assert(self@ == old(self)@.joined(thread as int));
        self.base.registry.shows_event(&self.levels, self.max_depth, thread, level)
    }

    /// Reports an event. Returns what is to be printed, or `None` if the report is not possible.
    pub fn event(&mut self, level: Level, fields: FieldRecorder) -> (out: Option<Vec<String>>)
        requires
            old(self).wf(),
        ensures
            final(self).wf(),
            final(self).same_settings(old(self)),
            exists|thread: int, now: u64|
                {
                    &&& old(self).may_be_calling(thread)
                    &&& final(self).spec_threads()@ == old(self).spec_threads()@.insert(
                        thread as usize,
                    )
                    &&& old(self).spec_clock().may_show(now)
                    &&& #[trigger] old(self)@.joined(thread).event_logged(
                        old(self).spec_levels(),
                        old(self).spec_max_depth(),
                        thread,
                        level,
                        fields@,
                        now,
                        final(self)@,
                        out,
                    )
                },
    {
        let thread = self.base.current_thread();
        let now = self.base.clock.now();
        let ghost recorded = fields@;
        let out = self.base.registry.log_event(
            &self.levels,
            self.max_depth,
            thread,
            level,
            fields,
            now,
        );
        assert(old(self)@.joined(thread as int).event_logged(
            old(self).spec_levels(),
            old(self).spec_max_depth(),
            thread as int,
            level,
            recorded,
            now,
            self@,
            out,
        ));
        out
    }

    /// Lets the calling thread enter the span, and reports that. Returns what is to be printed, or
    /// `None` if the report is not possible.
    pub fn enter(&mut self, id: u64) -> (out: Option<Vec<String>>)
        requires
            old(self).wf(),
            old(self)@.spans.contains_key(id),
            old(self)@.spans[id].state == SpanState::Inactive,
        ensures
            final(self).wf(),
            final(self).same_settings(old(self)),
            exists|thread: int, entered: u64, now: u64|
                {
                    &&& old(self).may_be_calling(thread)
                    &&& final(self).spec_threads()@ == old(self).spec_threads()@.insert(
                        thread as usize,
                    )
                    &&& old(self).spec_clock().may_show(entered)
                    &&& old(self).spec_clock().may_show(now)
                    &&& entered <= now
                    &&& #[trigger] old(self)@.joined(thread).enter_logged(
                        old(self).spec_max_depth(),
                        thread,
                        id,
                        entered,
                        now,
                        final(self)@,
                        out,
                    )
                },
    {
        let thread = self.base.current_thread();
        let entered = self.base.clock.now();
        let now = self.base.clock.now_after(entered);
        let out = self.base.registry.log_enter(self.max_depth, thread, id, entered, now);
        assert(old(self)@.joined(thread as int).enter_logged(
            old(self).spec_max_depth(),
            thread as int,
            id,
            entered,
            now,
            self@,
            out,
        ));
        out
    }

    /// Reports that the calling thread leaves the span, and lets it leave. Returns what is to be
    /// printed, or `None` if the report is not possible.
    pub fn exit(&mut self, id: u64) -> (out: Option<Vec<String>>)
        requires
            old(self).wf(),
            old(self)@.can_exit(id),
        ensures
            final(self).wf(),
            final(self).same_settings(old(self)),
            exists|thread: int, seen: u64, now: u64|
                {
                    &&& old(self).may_be_calling(thread)
                    &&& final(self).spec_threads()@ == old(self).spec_threads()@.insert(
                        thread as usize,
                    )
                    &&& old(self).spec_clock().may_show(seen)
                    &&& old(self).spec_clock().may_show(now)
                    &&& seen <= now
                    &&& #[trigger] old(self)@.joined(thread).exit_logged(
                        old(self).spec_max_depth(),
                        thread,
                        id,
                        seen,
                        now,
                        final(self)@,
                        out,
                    )
                },
    {
        let thread = self.base.current_thread();
        let seen = self.base.clock.now();
        let now = self.base.clock.now_after(seen);
        let out = self.base.registry.log_exit(self.max_depth, thread, id, seen, now);
        assert(old(self)@.joined(thread as int).exit_logged(
            old(self).spec_max_depth(),
            thread as int,
            id,
            seen,
            now,
            self@,
            out,
        ));
        out
    }

    /// Adds a handle to the span, and returns the id of the span.
    pub fn clone_span(&mut self, id: u64) -> (same: u64)
        requires
            old(self).wf(),
            old(self)@.spans.contains_key(id),
        ensures
            final(self).wf(),
            final(self).same_settings(old(self)),
            final(self).spec_threads() == old(self).spec_threads(),
            final(self)@ == old(self)@.cloned(id),
            same == id,
    {
        self.base.clone_span(id);
        id
    }

    /// Drops a handle to the span. The last handle takes the span with it; then the result is
    /// `true`.
    pub fn try_close(&mut self, id: u64) -> (closed: bool)
        requires
            old(self).wf(),
            old(self)@.spans.contains_key(id),
        ensures
            final(self).wf(),
            final(self).same_settings(old(self)),
            final(self).spec_threads() == old(self).spec_threads(),
            final(self)@ == old(self)@.deleted(id),
            closed == (old(self)@.spans[id].ref_counter == 1),
    {
        self.base.delete_span(id)
    }

    /// Whether the span is registered.
    pub fn contains(&self, id: u64) -> (found: bool)
        ensures
            found == self@.spans.contains_key(id),
    {
        self.base.registry.contains(id)
    }

    /// Whether a thread is in the span.
    pub fn is_active(&self, id: u64) -> (active: bool)
        requires
            self.wf(),
        ensures
            active == self@.is_active(id),
    {
        self.base.registry.is_active(id)
    }

    /// Whether the span can be left.
    pub fn can_exit(&self, id: u64) -> (possible: bool)
        requires
            self.wf(),
        ensures
            possible == self@.can_exit(id),
    {
        self.base.registry.can_exit(id)
    }
}

} // verus!
