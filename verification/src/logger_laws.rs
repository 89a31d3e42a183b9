//! What each call on a logger does, for the thread that makes it and at the time at which it is made.

use crate::ambient::DelayedLoggerImpl;
use crate::call_laws::{law_outcome_of_a_message, message_told, only_span_changed};
use crate::level::{within, Level};
use crate::logger::{DelayedLogger, SpanDescription};
use crate::model::{running_time, RegistryView, SpanView};
use crate::outside::{elapsed_since, Clock, ThreadNumbers};
use crate::preservation::lemma_registered_wf;
use crate::recorder::FieldRecorder;
use crate::report_laws::{
    created_below, describes, entering_told, event_is_shown, event_told, is_unvisited,
    leaving_told, lemma_created_below, lemma_entering_told, lemma_event_told, lemma_leaving_told,
};
use crate::state::SpanState;
use crate::text_laws::{is_between, law_range_of_levels};
use std::ops::RangeInclusive;
use std::time::{Duration, Instant};
use tracing_core::Metadata;
use vstd::prelude::*;

verus! {

/// The registry in which the thread has a stack: an empty one, if it is the next in line.
pub open spec fn with_thread<T>(registry: RegistryView<T>, thread: int) -> RegistryView<T> {
    if thread == registry.stacks.len() {
        RegistryView { stacks: registry.stacks.push(Seq::empty()), ..registry }
    } else {
        registry
    }
}

/// A new logger has no spans, and has the settings that are given.
pub proof fn law_new_logger(
    max_depth: usize,
    silent_period: u64,
    levels: RangeInclusive<Level>,
    logger: DelayedLogger,
)
    requires
        call_ensures(DelayedLogger::new, (max_depth, silent_period, levels), logger),
    ensures
        logger@.spans == Map::<u64, SpanView<SpanDescription>>::empty(),
        logger@.stacks.len() == 0,
        logger@.next_id == 1,
        logger@.silent_duration == silent_period,
        logger.spec_max_depth() == max_depth,
        logger.spec_levels() == levels@,
        logger.spec_threads()@ == Set::<usize>::empty(),
{
}

/// The logger for tests shows events of all levels in spans of a depth below four that take a tenth of a
/// second.
pub proof fn law_logger_for_tests(logger: DelayedLogger, level: Level, enabled: bool)
    requires
        call_ensures(DelayedLogger::new_for_tests, (), logger),
        call_ensures(DelayedLogger::enabled, (&logger, level), enabled),
    ensures
        enabled,
        logger@.silent_duration == 100000,
        logger.spec_max_depth() == 4,
        logger@.spans == Map::<u64, SpanView<SpanDescription>>::empty(),
        logger@.next_id == 1,
{
    assert(within(logger.spec_levels(), level));
}

/// A logger is interested in the levels within its range.
pub proof fn law_logger_enables_its_levels(logger: DelayedLogger, level: Level, enabled: bool)
    requires
        call_ensures(DelayedLogger::enabled, (&logger, level), enabled),
    ensures
        enabled == is_between(logger.spec_levels(), level),
{
    law_range_of_levels(logger.spec_levels(), level);
}

/// The call was made by the thread, which has a number from then on; the settings and the clock stay.
pub open spec fn called_by(before: DelayedLogger, after: DelayedLogger, thread: int) -> bool {
    &&& 0 <= thread <= before@.stacks.len()
    &&& before.may_be_calling(thread)
    &&& after.spec_threads()@ == before.spec_threads()@.insert(thread as usize)
    &&& after.spec_levels() == before.spec_levels()
    &&& after.spec_max_depth() == before.spec_max_depth()
    &&& after.spec_clock() == before.spec_clock()
}

/// The current span is the innermost span of the calling thread, with its static description.
pub proof fn law_logger_tells_the_current_span(
    logger: &mut DelayedLogger,
    current: Option<Option<(u64, &'static Metadata<'static>)>>,
)
    requires
        call_ensures(DelayedLogger::current_span, (logger,), current),
    ensures
        exists|thread: int|
            {
                &&& #[trigger] called_by(*old(logger), *final(logger), thread)
                &&& final(logger)@ == with_thread(old(logger)@, thread)
                &&& final(logger)@.stacks[thread].len() == 0 ==> current == Some(
                    None::<(u64, &'static Metadata<'static>)>,
                )
                &&& final(logger)@.stacks[thread].len() > 0 ==> {
                    let id = final(logger)@.stacks[thread].last();
                    &&& !final(logger)@.spans.contains_key(id) ==> current is None
                    &&& final(logger)@.spans.contains_key(id) ==> current == Some(
                        Some((id, final(logger)@.spans[id].data.metadata)),
                    )
                }
            },
{
    let thread = choose|thread: int|
        {
            &&& logger.may_be_calling(thread)
            &&& final(logger).spec_threads()@ == logger.spec_threads()@.insert(thread as usize)
            &&& final(logger)@ == #[trigger] logger@.joined(thread)
            &&& current == (match final(logger)@.current_span(thread) {
                Some(id) => if final(logger)@.spans.contains_key(id) {
                    Some(Some((id, final(logger)@.spans[id].data.metadata)))
                } else {
                    None
                },
                None => Some(None),
            })
        };
    assert(called_by(*logger, *final(logger), thread));
}

/// A new span is a child of the named parent, if one is named, wherever the calling thread is; else of the
/// innermost span of the calling thread; else a root. It is refused if and only if no id is left, or the
/// parent is gone or too deep down; then nothing changes.
pub proof fn law_logger_creates_spans(
    logger: &mut DelayedLogger,
    fields: FieldRecorder,
    name: String,
    metadata: &'static Metadata<'static>,
    named: Option<u64>,
    id: Option<u64>,
)
    requires
        old(logger).wf(),
        call_ensures(DelayedLogger::new_span, (logger, fields, name, metadata, named), id),
    ensures
        exists|thread: int|
            {
                let before = with_thread(old(logger)@, thread);
                let stack = before.stacks[thread];
                &&& #[trigger] called_by(*old(logger), *final(logger), thread)
                &&& named matches Some(parent) ==> (id is Some <==> before.next_id != 0
                    && before.spans.contains_key(parent) && before.spans[parent].data.depth
                    < usize::MAX)
                &&& named is None && stack.len() > 0 ==> (id is Some <==> before.next_id != 0
                    && before.spans.contains_key(stack.last())
                    && before.spans[stack.last()].data.depth < usize::MAX)
                &&& named is None && stack.len() == 0 ==> (id is Some <==> before.next_id != 0)
                &&& id is None ==> final(logger)@ == before
                &&& id is Some && named is Some ==> created_below(
                    before,
                    final(logger)@,
                    named->0,
                    id->0,
                )
                &&& id is Some && named is None && stack.len() > 0 ==> created_below(
                    before,
                    final(logger)@,
                    stack.last(),
                    id->0,
                )
                &&& id is Some && named is None && stack.len() == 0 ==> {
                    let new = final(logger)@.spans[id->0];
                    &&& id->0 == before.next_id
                    &&& is_unvisited(new, id->0)
                    &&& new.parent_id is None
                    &&& new.data.depth == 0
                    &&& new.data.color is None
                    &&& new.data.color_counter == Some(0usize)
                    &&& final(logger)@.spans == before.spans.insert(id->0, new)
                }
                &&& id is Some ==> describes(
                    final(logger)@.spans[id->0].data,
                    fields,
                    name,
                    metadata,
                )
            },
{
    logger.lemma_wf_view();
    let thread = choose|thread: int|
        {
            &&& logger.may_be_calling(thread)
            &&& final(logger).spec_threads()@ == logger.spec_threads()@.insert(thread as usize)
            &&& #[trigger] logger@.joined(thread).new_span_logged(
                thread,
                fields@,
                name@,
                metadata,
                named,
                final(logger)@,
                id,
            )
        };
    let before = with_thread(logger@, thread);
    assert(before == logger@.joined(thread));
    lemma_registered_wf(logger@);
    assert(before.described());
    if id is Some && (named is Some || before.stacks[thread].len() > 0) {
        lemma_created_below(
            before,
            final(logger)@,
            thread,
            fields,
            name,
            metadata,
            named,
            id->0,
        );
    }
    assert(called_by(*logger, *final(logger), thread));
}

/// Whether an event is shown is said for the calling thread.
pub proof fn law_logger_says_what_is_shown(
    logger: &mut DelayedLogger,
    level: Level,
    shown: Option<bool>,
)
    requires
        call_ensures(DelayedLogger::shows_event, (logger, level), shown),
    ensures
        exists|thread: int|
            {
                &&& #[trigger] called_by(*old(logger), *final(logger), thread)
                &&& final(logger)@ == with_thread(old(logger)@, thread)
                &&& shown == event_is_shown(
                    final(logger)@,
                    old(logger).spec_levels(),
                    old(logger).spec_max_depth(),
                    thread,
                    level,
                )
            },
{
    law_range_of_levels(logger.spec_levels(), level);
    let thread = choose|thread: int|
        {
            &&& logger.may_be_calling(thread)
            &&& final(logger).spec_threads()@ == logger.spec_threads()@.insert(thread as usize)
            &&& final(logger)@ == #[trigger] logger@.joined(thread)
            &&& shown == final(logger)@.event_shown(
                logger.spec_levels(),
                logger.spec_max_depth(),
                thread,
                level,
            )
        };
    assert(called_by(*logger, *final(logger), thread));
}

/// An event is told to the innermost span of the calling thread, at a time that the clock may show.
pub proof fn law_logger_reports_events(
    logger: &mut DelayedLogger,
    level: Level,
    fields: FieldRecorder,
    out: Option<Vec<String>>,
)
    requires
        call_ensures(DelayedLogger::event, (logger, level, fields), out),
    ensures
        exists|thread: int, now: u64|
            {
                &&& called_by(*old(logger), *final(logger), thread)
                &&& old(logger).spec_clock().may_show(now)
                &&& #[trigger] event_told(
                    with_thread(old(logger)@, thread),
                    final(logger)@,
                    old(logger).spec_levels(),
                    old(logger).spec_max_depth(),
                    thread,
                    level,
                    fields,
                    now,
                    out,
                )
            },
{
    let (thread, now) = choose|thread: int, now: u64|
        {
            &&& logger.may_be_calling(thread)
            &&& final(logger).spec_threads()@ == logger.spec_threads()@.insert(thread as usize)
            &&& logger.spec_clock().may_show(now)
            &&& #[trigger] logger@.joined(thread).event_logged(
                logger.spec_levels(),
                logger.spec_max_depth(),
                thread,
                level,
                fields@,
                now,
                final(logger)@,
                out,
            )
        };
    let before = with_thread(logger@, thread);
    assert(before == logger@.joined(thread));
    lemma_event_told(
        before,
        final(logger)@,
        logger.spec_levels(),
        logger.spec_max_depth(),
        thread,
        level,
        fields,
        now,
        out,
    );
    assert(called_by(*logger, *final(logger), thread));
}

/// A span is entered by the calling thread, and that is told to it, at times that the clock may show, in
/// this order.
pub proof fn law_logger_reports_entries(logger: &mut DelayedLogger, id: u64, out: Option<Vec<String>>)
    requires
        old(logger)@.spans.contains_key(id),
        call_ensures(DelayedLogger::enter, (logger, id), out),
    ensures
        exists|thread: int, entered: u64, now: u64|
            {
                &&& called_by(*old(logger), *final(logger), thread)
                &&& old(logger).spec_clock().may_show(entered)
                &&& old(logger).spec_clock().may_show(now)
                &&& entered <= now
                &&& #[trigger] entering_told(
                    with_thread(old(logger)@, thread),
                    final(logger)@,
                    old(logger).spec_max_depth(),
                    thread,
                    id,
                    entered,
                    now,
                    out,
                )
            },
{
    let (thread, entered, now) = choose|thread: int, entered: u64, now: u64|
        {
            &&& logger.may_be_calling(thread)
            &&& final(logger).spec_threads()@ == logger.spec_threads()@.insert(thread as usize)
            &&& logger.spec_clock().may_show(entered)
            &&& logger.spec_clock().may_show(now)
            &&& entered <= now
            &&& #[trigger] logger@.joined(thread).enter_logged(
                logger.spec_max_depth(),
                thread,
                id,
                entered,
                now,
                final(logger)@,
                out,
            )
        };
    let before = with_thread(logger@, thread);
    assert(before == logger@.joined(thread));
    lemma_entering_told(
        before,
        final(logger)@,
        logger.spec_max_depth(),
        thread,
        id,
        entered,
        now,
        out,
    );
    assert(called_by(*logger, *final(logger), thread));
}

/// The end of a visit is told to the span, and then the calling thread leaves it, at times that the clock
/// may show, in this order.
pub proof fn law_logger_reports_ends(logger: &mut DelayedLogger, id: u64, out: Option<Vec<String>>)
    requires
        old(logger)@.can_exit(id),
        call_ensures(DelayedLogger::exit, (logger, id), out),
    ensures
        exists|
            thread: int,
            seen: u64,
            now: u64,
            text: Seq<char>,
            between: RegistryView<SpanDescription>,
        |
            {
                &&& called_by(*old(logger), *final(logger), thread)
                &&& old(logger).spec_clock().may_show(seen)
                &&& old(logger).spec_clock().may_show(now)
                &&& seen <= now
                &&& #[trigger] leaving_told(
                    with_thread(old(logger)@, thread),
                    text,
                    between,
                    final(logger)@,
                    old(logger).spec_max_depth(),
                    thread,
                    id,
                    seen,
                    now,
                    out,
                )
            },
{
    let (thread, seen, now) = choose|thread: int, seen: u64, now: u64|
        {
            &&& logger.may_be_calling(thread)
            &&& final(logger).spec_threads()@ == logger.spec_threads()@.insert(thread as usize)
            &&& logger.spec_clock().may_show(seen)
            &&& logger.spec_clock().may_show(now)
            &&& seen <= now
            &&& #[trigger] logger@.joined(thread).exit_logged(
                logger.spec_max_depth(),
                thread,
                id,
                seen,
                now,
                final(logger)@,
                out,
            )
        };
    let before = with_thread(logger@, thread);
    assert(before == logger@.joined(thread));
    let (text, between) = lemma_leaving_told(
        before,
        final(logger)@,
        logger.spec_max_depth(),
        thread,
        id,
        seen,
        now,
        out,
    );
    assert(called_by(*logger, *final(logger), thread));
    assert(leaving_told(
        before,
        text,
        between,
        final(logger)@,
        logger.spec_max_depth(),
        thread,
        id,
        seen,
        now,
        out,
    ));
}

/// The settings, the clock and the threads are the same.
pub open spec fn same_frame(before: DelayedLogger, after: DelayedLogger) -> bool {
    &&& after.spec_threads() == before.spec_threads()
    &&& after.spec_levels() == before.spec_levels()
    &&& after.spec_max_depth() == before.spec_max_depth()
    &&& after.spec_clock() == before.spec_clock()
}

/// Handles are added and dropped; the last one takes the span with it. Nothing else changes.
pub proof fn law_logger_counts_handles(
    cloned: &mut DelayedLogger,
    same: u64,
    closed: &mut DelayedLogger,
    gone: bool,
    id: u64,
)
    requires
        old(cloned)@.spans.contains_key(id),
        old(closed)@.spans.contains_key(id),
        call_ensures(DelayedLogger::clone_span, (cloned, id), same),
        call_ensures(DelayedLogger::try_close, (closed, id), gone),
    ensures
        same == id,
        same_frame(*old(cloned), *final(cloned)),
        same_frame(*old(closed), *final(closed)),
        only_span_changed(old(cloned)@, final(cloned)@, id),
        old(cloned)@.spans[id].ref_counter < u64::MAX ==> final(cloned)@.spans[id] == (SpanView {
            ref_counter: (old(cloned)@.spans[id].ref_counter + 1) as u64,
            ..old(cloned)@.spans[id]
        }),
        gone == (old(closed)@.spans[id].ref_counter == 1),
        gone ==> final(closed)@ == (RegistryView {
            spans: old(closed)@.spans.remove(id),
            ..old(closed)@
        }),
        !gone ==> only_span_changed(old(closed)@, final(closed)@, id),
        !gone && old(closed)@.spans[id].ref_counter > 0 ==> final(closed)@.spans[id] == (SpanView {
            ref_counter: (old(closed)@.spans[id].ref_counter - 1) as u64,
            ..old(closed)@.spans[id]
        }),
{
}

/// Questions about a span are answered by what the logger holds of it.
pub proof fn law_logger_answers_questions(
    logger: DelayedLogger,
    id: u64,
    found: bool,
    active: bool,
    can_exit: bool,
)
    requires
        call_ensures(DelayedLogger::contains, (&logger, id), found),
        call_ensures(DelayedLogger::is_active, (&logger, id), active),
        call_ensures(DelayedLogger::can_exit, (&logger, id), can_exit),
    ensures
        found == logger@.spans.contains_key(id),
        active == (found && logger@.spans[id].state != SpanState::Inactive),
        can_exit == (found && (match logger@.spans[id].state {
            SpanState::Inactive => false,
            SpanState::PermissionBorrowed => false,
            SpanState::SilentPeriod => true,
            SpanState::PermissionDenied => true,
            SpanState::PermissionAcquired => match logger@.spans[id].parent_id {
                Some(parent) => logger@.spans.contains_key(parent),
                None => true,
            },
        })),
{
}

/// The call was made by the thread, which has a number from then on; the clock stays.
pub open spec fn made_by<T>(
    before: DelayedLoggerImpl<T>,
    after: DelayedLoggerImpl<T>,
    thread: int,
) -> bool {
    &&& 0 <= thread <= before@.stacks.len()
    &&& before.may_be_calling(thread)
    &&& after.threads@ == before.threads@.insert(thread as usize)
    &&& after.clock == before.clock
}

/// A clock counts from a reading that was taken when it was started. What it may show is ten more than the
/// whole microseconds in a time that elapsed since then, in sixty-four bits.
pub proof fn law_time_is_counted_from_the_start(
    started: Clock,
    clock: Clock,
    now: u64,
    any: u64,
    earlier: u64,
    later: u64,
)
    requires
        call_ensures(Clock::start, (), started),
        call_ensures(Clock::now, (&clock,), now),
        call_ensures(Clock::now_after, (&clock, earlier), later),
    ensures
        call_ensures(Instant::now, (), started.spec_baseline()),
        clock.may_show(now),
        clock.may_show(any) <==> exists|elapsed: Duration, micros: u128|
            {
                &&& #[trigger] call_ensures(
                    Instant::elapsed,
                    (&clock.spec_baseline(),),
                    elapsed,
                )
                &&& #[trigger] call_ensures(Duration::as_micros, (&elapsed,), micros)
                &&& any == (micros + 10) % 0x1_0000_0000_0000_0000
            },
        later >= earlier,
        exists|reading: u64| #[trigger]
            call_ensures(Clock::now, (&clock,), reading) && (later == reading || later == earlier
                && reading < earlier),
{
    assert forall|elapsed: Duration, micros: u128|
        {
            &&& #[trigger] call_ensures(Instant::elapsed, (&clock.spec_baseline(),), elapsed)
            &&& #[trigger] call_ensures(Duration::as_micros, (&elapsed,), micros)
            &&& any == (micros + 10) % 0x1_0000_0000_0000_0000
        } implies clock.may_show(any) by {
        assert(elapsed_since(clock.spec_baseline(), micros));
    }
}

/// A thread is told its number, or else the fresh one, which is kept for it then.
pub proof fn law_threads_are_numbered(
    new: ThreadNumbers,
    numbers: &mut ThreadNumbers,
    fresh: usize,
    number: usize,
)
    requires
        call_ensures(ThreadNumbers::new, (), new),
        call_ensures(ThreadNumbers::current, (numbers, fresh), number),
    ensures
        new@ == Set::<usize>::empty(),
        old(numbers)@.contains(number) || number == fresh,
        final(numbers)@ == old(numbers)@.insert(number),
        old(numbers).may_tell(fresh, number),
{
    assert(final(numbers)@ =~= old(numbers)@.insert(number));
}

/// A new registry with a clock has no spans and no threads.
pub proof fn law_new_timed_registry<T>(silent_duration: u64, logger: DelayedLoggerImpl<T>)
    requires
        call_ensures(DelayedLoggerImpl::<T>::new, (silent_duration,), logger),
    ensures
        logger@.spans == Map::<u64, SpanView<T>>::empty(),
        logger@.stacks.len() == 0,
        logger@.next_id == 1,
        logger@.silent_duration == silent_duration,
        logger.threads@ == Set::<usize>::empty(),
{
}

/// The calling thread gets an empty stack if it has none, and the innermost span is told for it.
pub proof fn law_calling_thread<T>(
    logger: &mut DelayedLoggerImpl<T>,
    thread: usize,
    asked: &mut DelayedLoggerImpl<T>,
    current: Option<u64>,
)
    requires
        call_ensures(DelayedLoggerImpl::<T>::current_thread, (logger,), thread),
        call_ensures(DelayedLoggerImpl::<T>::current_span, (asked,), current),
    ensures
        made_by(*old(logger), *final(logger), thread as int),
        final(logger)@ == with_thread(old(logger)@, thread as int),
        exists|caller: int|
            {
                &&& #[trigger] made_by(*old(asked), *final(asked), caller)
                &&& final(asked)@ == with_thread(old(asked)@, caller)
                &&& current is None <==> final(asked)@.stacks[caller].len() == 0
                &&& current matches Some(id) ==> id == final(asked)@.stacks[caller].last()
            },
{
    let caller = choose|caller: int|
        {
            &&& asked.may_be_calling(caller)
            &&& final(asked).threads@ == asked.threads@.insert(caller as usize)
            &&& final(asked)@ == #[trigger] asked@.joined(caller)
            &&& current == final(asked)@.current_span(caller)
        };
    assert(made_by(*asked, *final(asked), caller));
}

/// The running time of a span is counted from its entry to a time that the clock may show.
pub proof fn law_running_time<T>(
    logger: DelayedLoggerImpl<T>,
    id: u64,
    found: (&T, Option<u64>, u64),
)
    requires
        call_ensures(DelayedLoggerImpl::<T>::span_data, (&logger, id), found),
    ensures
        *found.0 == logger@.spans[id].data,
        found.1 == logger@.spans[id].parent_id,
        exists|now: u64|
            {
                &&& #[trigger] logger.clock.may_show(now)
                &&& now >= logger@.spans[id].entered_time ==> found.2 == now
                    - logger@.spans[id].entered_time
                &&& now < logger@.spans[id].entered_time ==> found.2 == 0
            },
{
    let now = choose|now: u64|
        {
            &&& logger.clock.may_show(now)
            &&& found.2 == #[trigger] running_time(
                logger@.spans[id].entered_time,
                now,
            )
        };
    assert(logger.clock.may_show(now));
}

/// The messages that a call returned, if it returned any.
pub open spec fn messages_of(out: Option<Vec<String>>) -> Option<Seq<String>> {
    if out is Some {
        Some(out->0@)
    } else {
        None
    }
}

/// A message comes to what it has to come to at a time that the clock may show.
pub proof fn law_message_at_the_current_time<T>(
    logger: &mut DelayedLoggerImpl<T>,
    message: String,
    id: u64,
    out: Option<Vec<String>>,
)
    requires
        old(logger)@.spans.contains_key(id),
        call_ensures(DelayedLoggerImpl::<T>::send_message, (logger, message, id), out),
    ensures
        exists|now: u64|
            {
                &&& old(logger).clock.may_show(now)
                &&& #[trigger] message_told(
                    old(logger)@,
                    final(logger)@,
                    id,
                    message,
                    now,
                    messages_of(out),
                )
            },
        final(logger).clock == old(logger).clock,
        final(logger).threads == old(logger).threads,
{
    let now = choose|now: u64|
        {
            &&& logger.clock.may_show(now)
            &&& if #[trigger] logger@.can_send(id, now) {
                &&& out matches Some(printed) && printed@ == logger@.send_output(id, message, now)
                &&& final(logger)@ == logger@.sent(id, message, now)
            } else {
                out is None && final(logger)@ == logger@
            }
        };
    law_outcome_of_a_message(logger@, id, message, now);
    assert(message_told(
        logger@,
        final(logger)@,
        id,
        message,
        now,
        messages_of(out),
    ));
}

/// The calling thread enters a span at a time that the clock may show.
pub proof fn law_entering_at_the_current_time<T>(logger: &mut DelayedLoggerImpl<T>, id: u64)
    requires
        old(logger)@.spans.contains_key(id),
        call_ensures(DelayedLoggerImpl::<T>::enter, (logger, id), ()),
    ensures
        exists|thread: int, now: u64|
            {
                let before = with_thread(old(logger)@, thread);
                &&& #[trigger] made_by(*old(logger), *final(logger), thread)
                &&& #[trigger] old(logger).clock.may_show(now)
                &&& final(logger)@.spans == before.spans.insert(
                    id,
                    SpanView {
                        state: SpanState::SilentPeriod,
                        entered_time: now,
                        ..before.spans[id]
                    },
                )
                &&& final(logger)@.stacks == before.stacks.update(
                    thread,
                    before.stacks[thread].push(id),
                )
                &&& final(logger)@.next_id == before.next_id
                &&& final(logger)@.silent_duration == before.silent_duration
            },
{
    let (thread, now) = choose|thread: int, now: u64|
        {
            &&& logger.may_be_calling(thread)
            &&& final(logger).threads@ == logger.threads@.insert(thread as usize)
            &&& logger.clock.may_show(now)
            &&& final(logger)@ == #[trigger] logger@.joined(thread).entered(thread, id, now)
        };
    assert(made_by(*logger, *final(logger), thread));
    assert(logger.clock.may_show(now));
}

/// The calling thread leaves a span: the innermost span is off its stack, nothing is left of the visit, and
/// a parent from which the span had the permission has that to itself again.
pub proof fn law_leaving_as_the_calling_thread<T>(logger: &mut DelayedLoggerImpl<T>, id: u64)
    requires
        old(logger)@.can_exit(id),
        call_ensures(DelayedLoggerImpl::<T>::exit, (logger, id), ()),
    ensures
        exists|thread: int|
            {
                let before = with_thread(old(logger)@, thread);
                let span = before.spans[id];
                let inactive = SpanView {
                    state: SpanState::Inactive,
                    messages: Seq::empty(),
                    entered_time: 0,
                    ..span
                };
                &&& #[trigger] made_by(*old(logger), *final(logger), thread)
                &&& final(logger)@.next_id == before.next_id
                &&& final(logger)@.silent_duration == before.silent_duration
                &&& final(logger)@.stacks == before.stacks.update(
                    thread,
                    if before.stacks[thread].len() > 0 {
                        before.stacks[thread].take(before.stacks[thread].len() - 1)
                    } else {
                        before.stacks[thread]
                    },
                )
                &&& span.state == SpanState::PermissionAcquired && span.parent_id is Some
                    ==> final(logger)@.spans == before.spans.insert(id, inactive).insert(
                    span.parent_id->0,
                    SpanView {
                        state: SpanState::PermissionAcquired,
                        ..before.spans[span.parent_id->0]
                    },
                )
                &&& span.state != SpanState::PermissionAcquired || span.parent_id is None
                    ==> final(logger)@.spans == before.spans.insert(id, inactive)
            },
{
    let thread = choose|thread: int|
        {
            &&& logger.may_be_calling(thread)
            &&& final(logger).threads@ == logger.threads@.insert(thread as usize)
            &&& final(logger)@ == #[trigger] logger@.joined(thread).exited(thread, id)
        };
    assert(made_by(*logger, *final(logger), thread));
}

/// A span with a given parent is created as in a registry, wherever the calling thread is.
pub proof fn law_creating_with_a_given_parent<T>(
    logger: &mut DelayedLoggerImpl<T>,
    data: T,
    parent: Option<u64>,
    id: u64,
)
    requires
        call_ensures(
            DelayedLoggerImpl::<T>::create_span_with_parent,
            (logger, data, parent),
            id,
        ),
    ensures
        id == old(logger)@.next_id,
        final(logger)@.spans == old(logger)@.spans.insert(
            id,
            SpanView {
                data,
                id,
                parent_id: parent,
                state: SpanState::Inactive,
                messages: Seq::empty(),
                entered_time: 0,
                ref_counter: 1,
            },
        ),
        final(logger)@.next_id == (if id == u64::MAX {
            0
        } else {
            id + 1
        }),
        final(logger)@.stacks == old(logger)@.stacks,
        final(logger)@.silent_duration == old(logger)@.silent_duration,
        final(logger).threads == old(logger).threads,
        final(logger).clock == old(logger).clock,
{
}

/// A span is created below the innermost span of the calling thread, with the data that the callback
/// returned for that; or as a root; or not at all, if that innermost span is gone.
pub proof fn law_creating_as_the_calling_thread<T, G: FnOnce(Option<(&T, u64)>) -> T>(
    logger: &mut DelayedLoggerImpl<T>,
    create_data: G,
    id: Option<u64>,
)
    requires
        call_ensures(DelayedLoggerImpl::<T>::create_span::<G>, (logger, create_data), id),
    ensures
        exists|thread: int|
            {
                let before = with_thread(old(logger)@, thread);
                let stack = before.stacks[thread];
                &&& #[trigger] made_by(*old(logger), *final(logger), thread)
                &&& id is None <==> stack.len() > 0 && !before.spans.contains_key(stack.last())
                &&& id is None ==> final(logger)@ == before
                &&& id matches Some(new) ==> {
                    let span = final(logger)@.spans[new];
                    &&& new == before.next_id
                    &&& final(logger)@.spans == before.spans.insert(new, span)
                    &&& span.id == new
                    &&& span.state == SpanState::Inactive
                    &&& span.messages.len() == 0
                    &&& span.entered_time == 0
                    &&& span.ref_counter == 1
                    &&& stack.len() == 0 ==> span.parent_id is None && create_data.ensures(
                        (None,),
                        span.data,
                    )
                    &&& stack.len() > 0 ==> span.parent_id == Some(stack.last())
                        && create_data.ensures(
                        (Some((&before.spans[stack.last()].data, stack.last())),),
                        span.data,
                    )
                    &&& final(logger)@.stacks == before.stacks
                }
            },
{
    let thread = choose|thread: int|
        {
            &&& logger.may_be_calling(thread)
            &&& final(logger).threads@ == logger.threads@.insert(thread as usize)
            &&& if #[trigger] logger@.joined(thread).can_create(thread) {
                &&& id == Some(logger@.next_id)
                &&& exists|data: T|
                    {
                        &&& create_data.ensures(
                            (logger@.joined(thread).parent_argument(thread),),
                            data,
                        )
                        &&& final(logger)@ == #[trigger] logger@.joined(thread).created(
                            data,
                            logger@.joined(thread).current_span(thread),
                        )
                    }
            } else {
                id is None && final(logger)@ == logger@.joined(thread)
            }
        };
    assert(made_by(*logger, *final(logger), thread));
    assert(with_thread(logger@, thread) == logger@.joined(thread));
}

/// Handles are added and dropped; the last one takes the span with it. Nothing else changes.
pub proof fn law_timed_registry_counts_handles<T>(
    cloned: &mut DelayedLoggerImpl<T>,
    deleted: &mut DelayedLoggerImpl<T>,
    gone: bool,
    id: u64,
)
    requires
        old(cloned)@.spans.contains_key(id),
        old(deleted)@.spans.contains_key(id),
        call_ensures(DelayedLoggerImpl::<T>::clone_span, (cloned, id), ()),
        call_ensures(DelayedLoggerImpl::<T>::delete_span, (deleted, id), gone),
    ensures
        final(cloned).threads == old(cloned).threads,
        final(cloned).clock == old(cloned).clock,
        final(deleted).threads == old(deleted).threads,
        final(deleted).clock == old(deleted).clock,
        only_span_changed(old(cloned)@, final(cloned)@, id),
        old(cloned)@.spans[id].ref_counter < u64::MAX ==> final(cloned)@.spans[id] == (SpanView {
            ref_counter: (old(cloned)@.spans[id].ref_counter + 1) as u64,
            ..old(cloned)@.spans[id]
        }),
        gone == (old(deleted)@.spans[id].ref_counter == 1),
        gone ==> final(deleted)@ == (RegistryView {
            spans: old(deleted)@.spans.remove(id),
            ..old(deleted)@
        }),
        !gone ==> only_span_changed(old(deleted)@, final(deleted)@, id),
        !gone && old(deleted)@.spans[id].ref_counter > 0 ==> final(deleted)@.spans[id] == (SpanView {
            ref_counter: (old(deleted)@.spans[id].ref_counter - 1) as u64,
            ..old(deleted)@.spans[id]
        }),
{
}

} // verus!
