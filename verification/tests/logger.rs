use delayed_logger::color::{colorize, SpanColor};
use delayed_logger::level::{is_within, Level};
use delayed_logger::logger::{DelayedLogger, SpanDescription};
use delayed_logger::recorder::FieldRecorder;
use delayed_logger::registry::SpanRegistry;
use delayed_logger::text::{append_decimal, done};
use owo_colors::with_override;
use tracing_core::callsite::{Callsite, Identifier};
use tracing_core::field::FieldSet;
use tracing_core::metadata::Kind;
use tracing_core::subscriber::Interest;
use tracing_core::Metadata;

struct NoCallsite;

impl Callsite for NoCallsite {
    fn set_interest(&self, _interest: Interest) {}

    fn metadata(&self) -> &Metadata<'_> {
        unreachable!()
    }
}

fn metadata(name: &'static str) -> &'static Metadata<'static> {
    let callsite: &'static NoCallsite = Box::leak(Box::new(NoCallsite));
    Box::leak(Box::new(Metadata::new(
        name,
        "tests",
        tracing_core::Level::INFO,
        None,
        None,
        None,
        FieldSet::new(&[], Identifier(callsite)),
        Kind::SPAN,
    )))
}

fn text(message: &str) -> String {
    message.to_owned()
}

fn message(message: &str) -> FieldRecorder {
    let mut fields = FieldRecorder::new();
    fields.record("message", text(message));
    fields
}

/// A registry without a silent period, and its only thread.
fn registry() -> (SpanRegistry<SpanDescription>, usize) {
    let mut registry = SpanRegistry::new(0);
    let thread = registry.register_thread();
    (registry, thread)
}

/// Registers a span below the current one.
fn new_span(registry: &mut SpanRegistry<SpanDescription>, thread: usize, name: &'static str) -> u64 {
    registry.log_new_span(thread, FieldRecorder::new(), text(name), metadata(name), None).unwrap()
}

#[test]
fn fields_are_listed_after_the_message() {
    let mut fields = FieldRecorder::new();
    assert_eq!(fields.fmt(), ".");
    fields.record("n", text("3"));
    assert_eq!(fields.fmt(), "(n=3)");
    fields.record("message", text("solve"));
    assert_eq!(fields.fmt(), "solve(n=3)");
    fields.record("name", text("\"x\""));
    assert_eq!(fields.fmt(), "solve(n=3, name=\"x\")");
    fields.record("message", text("again"));
    assert_eq!(fields.to_string(), "again(n=3, name=\"x\")");
}

#[test]
fn a_recorder_without_fields_ends_in_a_dot() {
    assert_eq!(FieldRecorder::new().to_string(), ".");
    assert_eq!(message("solve").to_string(), "solve.");
    let mut fields = FieldRecorder::new();
    fields.set_message(text("name"));
    assert_eq!(fields.fmt(), "name.");
    let mut fields = FieldRecorder::new();
    fields.record("n", text("3"));
    assert_eq!(fields.to_string(), "(n=3)");
}

#[test]
fn numbers_are_written_in_decimal() {
    for n in [0, 7, 9, 10, 99, 100, 1234567890, u64::MAX] {
        let mut written = text("n=");
        append_decimal(&mut written, n);
        assert_eq!(written, format!("n={}", n));
    }
    assert_eq!(done(0), "done(0 us)");
    assert_eq!(done(1500), "done(1500 us)");
}

#[test]
fn levels_are_ordered_by_verbosity() {
    let levels = [Level::Error, Level::Warn, Level::Info, Level::Debug, Level::Trace];
    for (i, a) in levels.iter().enumerate() {
        for (j, b) in levels.iter().enumerate() {
            assert_eq!(a < b, i < j);
            assert_eq!(a.partial_cmp(b), i.partial_cmp(&j));
        }
        assert!(is_within(&(Level::Error..=Level::Trace), *a));
    }
    assert!(is_within(&(Level::Warn..=Level::Info), Level::Info));
    assert!(!is_within(&(Level::Warn..=Level::Info), Level::Error));
    assert!(!is_within(&(Level::Warn..=Level::Info), Level::Debug));
    assert!(!is_within(&(Level::Info..=Level::Warn), Level::Info));
}

#[test]
fn the_palette_is_cycled_through() {
    let palette = [
        SpanColor::BrightBlue,
        SpanColor::BrightCyan,
        SpanColor::BrightMagenta,
        SpanColor::Yellow,
        SpanColor::BrightGreen,
        SpanColor::Red,
    ];
    for count in 0..20 {
        assert_eq!(SpanColor::from_count(count), palette[count % 6]);
    }
}

#[test]
fn colors_are_escape_codes_where_they_are_supported() {
    let expected = [
        (SpanColor::BrightBlue, "\u{1b}[94mm\u{1b}[39m"),
        (SpanColor::BrightCyan, "\u{1b}[96mm\u{1b}[39m"),
        (SpanColor::BrightMagenta, "\u{1b}[95mm\u{1b}[39m"),
        (SpanColor::Yellow, "\u{1b}[33mm\u{1b}[39m"),
        (SpanColor::BrightGreen, "\u{1b}[92mm\u{1b}[39m"),
        (SpanColor::Red, "\u{1b}[31mm\u{1b}[39m"),
    ];
    for (color, shown) in expected {
        assert_eq!(with_override(true, || colorize(Some(color), text("m"))), shown);
        assert_eq!(with_override(false, || colorize(Some(color), text("m"))), "m");
    }
    assert_eq!(with_override(true, || colorize(None, text("m"))), "m");
}

#[test]
fn children_of_a_root_are_colored_and_pass_their_color_on() {
    let mut root = SpanDescription::new(message("a"), 0, metadata("a"), None);
    assert_eq!(root.color_for_child(), Some(SpanColor::BrightBlue));
    assert_eq!(root.color_for_child(), Some(SpanColor::BrightCyan));
    assert_eq!(root.color_counter, Some(2));
    let mut child = SpanDescription::new(message("b"), 1, metadata("b"), Some(SpanColor::Red));
    assert_eq!(child.color_for_child(), Some(SpanColor::Red));
    assert_eq!(child.color_for_child(), Some(SpanColor::Red));
    assert_eq!(child.color_counter, None);
}

#[test]
fn new_spans_are_described_by_name_depth_and_color() {
    let (mut registry, thread) = registry();
    let mut fields = FieldRecorder::new();
    fields.record("n", text("3"));
    let a = registry.log_new_span(thread, fields, text("a"), metadata("a"), None).unwrap();
    assert_eq!(registry.span_data(a, 0).0.desc.fmt(), "a(n=3)");
    assert_eq!(registry.span_data(a, 0).0.depth, 0);
    assert_eq!(registry.span_data(a, 0).0.color, None);
    assert_eq!(registry.span_data(a, 0).0.metadata.name(), "a");
    registry.enter(thread, a, 10);
    let b = new_span(&mut registry, thread, "b");
    let c = new_span(&mut registry, thread, "c");
    assert_eq!(registry.span_data(b, 0).1, Some(a));
    assert_eq!(registry.span_data(b, 0).0.color, Some(SpanColor::BrightBlue));
    assert_eq!(registry.span_data(c, 0).0.color, Some(SpanColor::BrightCyan));
    let d = registry
        .log_new_span(thread, FieldRecorder::new(), text("d"), metadata("d"), Some(c))
        .unwrap();
    assert_eq!(registry.span_data(d, 0).1, Some(c));
    assert_eq!(registry.span_data(d, 0).0.depth, 2);
    assert_eq!(registry.span_data(d, 0).0.color, Some(SpanColor::BrightCyan));
}

#[test]
fn no_span_is_created_below_an_unknown_one() {
    let (mut registry, thread) = registry();
    let created =
        registry.log_new_span(thread, FieldRecorder::new(), text("a"), metadata("a"), Some(9));
    assert_eq!(created, None);
    assert_eq!(registry.span_count(), 0);
}

#[test]
fn a_line_is_printed_for_a_root() {
    with_override(true, || {
        let (mut registry, thread) = registry();
        let levels = Level::Error..=Level::Trace;
        let a = new_span(&mut registry, thread, "a");
        assert_eq!(registry.log_enter(2, thread, a, 10, 10), Some(vec![text("a.")]));
        let b = new_span(&mut registry, thread, "b");
        assert_eq!(
            registry.log_enter(2, thread, b, 20, 20),
            Some(vec![text("\u{1b}[94mb.\u{1b}[39m")])
        );
        assert_eq!(
            registry.log_event(&levels, 2, thread, Level::Info, message("event"), 25),
            Some(vec![text("\u{1b}[94mevent.\u{1b}[39m")])
        );
        assert_eq!(
            registry.log_exit(2, thread, b, 30, 31),
            Some(vec![text("\u{1b}[94mdone(10 us)\u{1b}[39m")])
        );
        assert_eq!(registry.log_exit(2, thread, a, 40, 40), Some(vec![text("done(30 us)\n")]));
        assert_eq!(registry.current_span(thread), None);
    });
}

#[test]
fn spans_below_the_maximal_depth_are_not_printed() {
    with_override(false, || {
        let (mut registry, thread) = registry();
        let levels = Level::Error..=Level::Trace;
        let a = new_span(&mut registry, thread, "a");
        assert_eq!(registry.log_enter(1, thread, a, 10, 10), Some(vec![text("a.")]));
        let b = new_span(&mut registry, thread, "b");
        assert_eq!(registry.log_enter(1, thread, b, 20, 20), Some(vec![text("b....")]));
        assert_eq!(
            registry.log_event(&levels, 1, thread, Level::Info, message("event"), 25),
            Some(vec![])
        );
        let c = new_span(&mut registry, thread, "c");
        assert_eq!(registry.log_enter(1, thread, c, 30, 30), Some(vec![]));
        assert_eq!(registry.log_exit(1, thread, c, 35, 35), Some(vec![]));
        assert_eq!(registry.log_exit(1, thread, b, 40, 40), Some(vec![text("done(20 us)")]));
        assert_eq!(registry.log_exit(1, thread, a, 50, 50), Some(vec![text("done(40 us)\n")]));
    });
}

#[test]
fn events_of_other_levels_are_not_printed() {
    let (mut registry, thread) = registry();
    let levels = Level::Error..=Level::Info;
    assert_eq!(
        registry.log_event(&levels, 4, thread, Level::Debug, message("event"), 25),
        Some(vec![])
    );
    assert_eq!(
        registry.log_event(&levels, 4, thread, Level::Info, message("event"), 25),
        Some(vec![text("event.")])
    );
}

#[test]
fn reports_that_cannot_be_made_are_refused() {
    let (mut registry, thread) = registry();
    let levels = Level::Error..=Level::Trace;
    let a = new_span(&mut registry, thread, "a");
    let b = registry
        .log_new_span(thread, FieldRecorder::new(), text("b"), metadata("b"), Some(a))
        .unwrap();
    assert_eq!(registry.log_enter(4, thread, b, 10, 10), None);
    assert!(registry.is_active(b));
    assert_eq!(registry.log_event(&levels, 4, thread, Level::Info, message("event"), 25), None);
    assert_eq!(registry.log_exit(4, thread, b, 30, 30), None);
    assert!(registry.is_active(b));
}

#[test]
fn an_event_in_a_deleted_span_is_refused() {
    let (mut registry, thread) = registry();
    let levels = Level::Error..=Level::Trace;
    let a = new_span(&mut registry, thread, "a");
    assert!(registry.log_enter(4, thread, a, 10, 10).is_some());
    assert!(registry.delete_span(a));
    assert_eq!(registry.log_event(&levels, 4, thread, Level::Info, message("event"), 25), None);
}

#[test]
fn the_logger_prints_for_the_calling_thread() {
    with_override(false, || {
        let mut logger = DelayedLogger::new(4, 0, Level::Error..=Level::Info);
        assert!(logger.enabled(Level::Warn));
        assert!(!logger.enabled(Level::Trace));
        assert_eq!(logger.event(Level::Info, message("outside")), Some(vec![text("outside.")]));
        assert!(matches!(logger.current_span(), Some(None)));
        let a = logger.new_span(FieldRecorder::new(), text("a"), metadata("a"), None).unwrap();
        assert!(logger.contains(a));
        assert!(!logger.is_active(a));
        assert!(!logger.can_exit(a));
        assert_eq!(logger.enter(a), Some(vec![text("a.")]));
        assert!(logger.is_active(a));
        let (id, found) = logger.current_span().unwrap().unwrap();
        assert_eq!(id, a);
        assert_eq!(found.name(), "a");
        assert_eq!(logger.event(Level::Info, message("inside")), Some(vec![text("inside.")]));
        assert_eq!(logger.event(Level::Debug, message("inside")), Some(vec![]));
        assert!(logger.can_exit(a));
        let out = logger.exit(a).unwrap();
        assert_eq!(out.len(), 1);
        assert!(out[0].starts_with("done("));
        assert!(out[0].ends_with(" us)\n"));
        assert_eq!(logger.clone_span(a), a);
        assert!(!logger.try_close(a));
        assert!(logger.try_close(a));
        assert!(!logger.contains(a));
    });
}

#[test]
fn the_current_span_may_be_gone() {
    let mut logger = DelayedLogger::new(4, 0, Level::Error..=Level::Info);
    let a = logger.new_span(FieldRecorder::new(), text("a"), metadata("a"), None).unwrap();
    assert!(logger.enter(a).is_some());
    assert!(logger.try_close(a));
    assert!(logger.current_span().is_none());
    assert_eq!(logger.new_span(FieldRecorder::new(), text("b"), metadata("b"), None), None);
}

#[test]
fn the_test_configuration_holds_messages_back() {
    let mut logger = DelayedLogger::new_for_tests();
    for level in [Level::Error, Level::Warn, Level::Info, Level::Debug, Level::Trace] {
        assert!(logger.enabled(level));
    }
    let a = logger.new_span(FieldRecorder::new(), text("a"), metadata("a"), None).unwrap();
    assert_eq!(logger.enter(a), Some(vec![]));
}

#[test]
fn children_of_a_root_cycle_through_the_palette() {
    let (mut registry, thread) = registry();
    let root = new_span(&mut registry, thread, "root");
    let other = new_span(&mut registry, thread, "other");
    registry.enter(thread, root, 10);
    for j in 0..14 {
        // named and contextual parents are counted alike
        let named = if j % 3 == 0 { Some(root) } else { None };
        let child = registry
            .log_new_span(thread, FieldRecorder::new(), text("c"), metadata("c"), named)
            .unwrap();
        let below = registry
            .log_new_span(thread, FieldRecorder::new(), text("d"), metadata("d"), Some(child))
            .unwrap();
        let color = registry.span_data(child, 0).0.color;
        assert_eq!(color, Some(SpanColor::from_count(j % 6)));
        assert_eq!(registry.span_data(below, 0).0.color, color);
        assert_eq!(registry.span_data(below, 0).0.depth, 2);
        registry.delete_span(child);
    }
    // another root counts on its own, and roots have no color
    let child = registry
        .log_new_span(thread, FieldRecorder::new(), text("c"), metadata("c"), Some(other))
        .unwrap();
    assert_eq!(registry.span_data(child, 0).0.color, Some(SpanColor::BrightBlue));
    assert_eq!(registry.span_data(root, 0).0.color, None);
}

#[test]
fn a_short_span_is_not_printed() {
    let mut logger = DelayedLogger::new(4, 1_000_000_000, Level::Error..=Level::Trace);
    let a = logger.new_span(FieldRecorder::new(), text("a"), metadata("a"), None).unwrap();
    assert_eq!(logger.enter(a), Some(Vec::new()));
    let b = logger.new_span(FieldRecorder::new(), text("b"), metadata("b"), None).unwrap();
    assert_eq!(logger.enter(b), Some(Vec::new()));
    assert_eq!(logger.event(Level::Info, message("m")), Some(Vec::new()));
    assert_eq!(logger.exit(b), Some(Vec::new()));
    assert_eq!(logger.event(Level::Info, message("m")), Some(Vec::new()));
    assert_eq!(logger.exit(a), Some(Vec::new()));
    assert_eq!(logger.event(Level::Info, message("m")), Some(vec![text("m.")]));
}

#[test]
fn events_are_shown_by_level_and_depth() {
    let (mut registry, thread) = registry();
    let levels = Level::Error..=Level::Info;
    assert_eq!(registry.shows_event(&levels, 1, thread, Level::Info), Some(true));
    assert_eq!(registry.shows_event(&levels, 1, thread, Level::Debug), Some(false));
    let a = new_span(&mut registry, thread, "a");
    registry.enter(thread, a, 10);
    assert_eq!(registry.shows_event(&levels, 1, thread, Level::Info), Some(true));
    let b = new_span(&mut registry, thread, "b");
    registry.enter(thread, b, 10);
    assert_eq!(registry.shows_event(&levels, 1, thread, Level::Info), Some(false));
    assert_eq!(registry.shows_event(&levels, 2, thread, Level::Info), Some(true));
    registry.delete_span(b);
    assert_eq!(registry.shows_event(&levels, 2, thread, Level::Info), None);
    assert_eq!(registry.shows_event(&levels, 2, thread, Level::Debug), Some(false));
}

#[test]
fn the_logger_shows_events_for_the_calling_thread() {
    let mut logger = DelayedLogger::new(1, 0, Level::Error..=Level::Info);
    assert_eq!(logger.shows_event(Level::Info), Some(true));
    assert_eq!(logger.shows_event(Level::Trace), Some(false));
    for name in ["a", "b"] {
        let id = logger.new_span(FieldRecorder::new(), text(name), metadata("s"), None).unwrap();
        assert!(logger.enter(id).is_some());
        assert_eq!(logger.shows_event(Level::Info), Some(name == "a"));
    }
}

#[test]
fn without_a_silent_period_entering_is_printed_at_once() {
    for _ in 0..100 {
        let mut logger = DelayedLogger::new(1, 0, Level::Error..=Level::Info);
        let id = logger.new_span(FieldRecorder::new(), text("a"), metadata("a"), None).unwrap();
        assert_eq!(logger.enter(id), Some(vec![text("a.")]));
    }
}
