use delayed_logger::registry::{SpanData, SpanRegistry};
use delayed_logger::state::SpanState;

fn text(message: &str) -> String {
    message.to_owned()
}

/// A registry with a silent period of 1000 and one thread.
fn registry() -> (SpanRegistry<u32>, usize) {
    let mut registry = SpanRegistry::new(1000);
    let thread = registry.register_thread();
    (registry, thread)
}

#[test]
fn a_new_span_has_no_handles_and_no_messages() {
    let mut span = SpanData::new(3, Some(2), 7u32);
    assert_eq!(*span.data(), 7);
    assert_eq!(span.ref_counter(), 0);
    let mut out: Vec<String> = Vec::new();
    span.log_queued_messages(&mut out);
    assert_eq!(out, Vec::<String>::new());
}

#[test]
fn queued_messages_are_logged_once_and_in_order() {
    let mut span = SpanData::new(3, None, 7u32);
    span.queue_message(text("one"));
    span.queue_message(text("two"));
    let mut out = vec![text("zero")];
    span.log_queued_messages(&mut out);
    span.log_queued_messages(&mut out);
    assert_eq!(out, vec![text("zero"), text("one"), text("two")]);
}

#[test]
fn discarded_messages_are_not_logged() {
    let mut span = SpanData::new(3, None, 7u32);
    span.queue_message(text("one"));
    span.discard_queued_messages();
    let mut out: Vec<String> = Vec::new();
    span.log_queued_messages(&mut out);
    assert_eq!(out, Vec::<String>::new());
}

#[test]
fn a_span_returns_the_state_it_is_left_in() {
    let mut span = SpanData::new(3, None, 7u32);
    span.enter(5);
    assert_eq!(span.exit(), SpanState::SilentPeriod);
    assert_eq!(span.exit(), SpanState::Inactive);
}

#[test]
fn ids_are_counted_from_one_and_not_reused() {
    let (mut registry, _) = registry();
    assert_eq!(registry.create_span_with_parent(0, None), 1);
    assert_eq!(registry.create_span_with_parent(0, None), 2);
    assert!(registry.delete_span(2));
    assert!(!registry.contains(2));
    assert_eq!(registry.create_span_with_parent(0, None), 3);
    assert!(registry.contains(1));
    assert!(registry.has_next_id());
}

#[test]
fn the_last_handle_takes_the_span() {
    let (mut registry, _) = registry();
    let a = registry.create_span_with_parent(0, None);
    registry.clone_span(a);
    registry.clone_span(a);
    assert!(!registry.delete_span(a));
    assert!(!registry.delete_span(a));
    assert_eq!(registry.span_count(), 1);
    assert!(registry.delete_span(a));
    assert_eq!(registry.span_count(), 0);
}

#[test]
fn span_data_tells_the_parent_and_the_running_time() {
    let (mut registry, thread) = registry();
    let a = registry.create_span_with_parent(5, None);
    let b = registry.create_span_with_parent(6, Some(a));
    registry.enter(thread, b, 100);
    assert_eq!(registry.span_data(b, 250), (&6, Some(a), 150));
    assert_eq!(registry.span_data(b, 99), (&6, Some(a), 0));
    assert_eq!(registry.span_data(a, 250), (&5, None, 250));
}

#[test]
fn attached_data_can_be_changed() {
    let (mut registry, _) = registry();
    let a = registry.create_span_with_parent(5, None);
    *registry.data_mut(a) = 9;
    assert_eq!(*registry.span_data(a, 0).0, 9);
}

#[test]
fn the_creation_of_a_span_is_told_the_current_span() {
    let (mut registry, thread) = registry();
    let a = registry.create_span(thread, |parent| {
        assert_eq!(parent, None);
        5
    });
    registry.enter(thread, a, 10);
    let b = registry.create_span(thread, |parent| {
        assert_eq!(parent, Some((&5, a)));
        6
    });
    assert_eq!(registry.span_data(b, 10), (&6, Some(a), 10));
}

#[test]
fn threads_have_stacks_of_their_own() {
    let (mut registry, first) = registry();
    let second = registry.register_thread();
    assert_eq!(registry.thread_count(), 2);
    let a = registry.create_span_with_parent(0, None);
    let b = registry.create_span_with_parent(0, Some(a));
    registry.enter(first, a, 10);
    registry.enter(second, b, 11);
    assert_eq!(registry.span_stack(first), &vec![a]);
    assert_eq!(registry.current_span(first), Some(a));
    assert_eq!(registry.current_span(second), Some(b));
    registry.exit(second, b);
    assert_eq!(registry.current_span(first), Some(a));
    assert_eq!(registry.current_span(second), None);
}

#[test]
fn leaving_takes_the_innermost_span_off_the_stack() {
    let (mut registry, thread) = registry();
    let a = registry.create_span_with_parent(0, None);
    let b = registry.create_span_with_parent(0, None);
    registry.enter(thread, a, 10);
    registry.enter(thread, b, 11);
    registry.exit(thread, a);
    assert_eq!(registry.span_stack(thread), &vec![a]);
    registry.exit(thread, b);
    assert_eq!(registry.current_span(thread), None);
    registry.enter(thread, a, 12);
    assert_eq!(registry.span_stack(thread), &vec![a]);
}

#[test]
fn leaving_with_an_empty_stack_is_possible() {
    let (mut registry, first) = registry();
    let second = registry.register_thread();
    let a = registry.create_span_with_parent(0, None);
    registry.enter(first, a, 10);
    registry.exit(second, a);
    assert_eq!(registry.current_span(first), Some(a));
    assert_eq!(registry.current_span(second), None);
    assert!(!registry.is_active(a));
}

#[test]
fn the_silent_period_ends_exactly_when_it_is_over() {
    let (mut registry, thread) = registry();
    let a = registry.create_span_with_parent(0, None);
    registry.enter(thread, a, 10);
    assert_eq!(registry.send_message(text("early"), a, 1009), Vec::<String>::new());
    assert_eq!(registry.send_message(text("in time"), a, 1010), vec![text("early"), text("in time")]);
    assert_eq!(registry.send_message(text("later"), a, 0), vec![text("later")]);
}

#[test]
fn the_longest_silent_period_does_not_overflow() {
    let mut registry: SpanRegistry<u32> = SpanRegistry::new(u64::MAX);
    let thread = registry.register_thread();
    let a = registry.create_span_with_parent(0, None);
    registry.enter(thread, a, 1);
    assert_eq!(registry.send_message(text("m"), a, u64::MAX), Vec::<String>::new());
}

#[test]
fn a_request_climbs_and_prints_the_outermost_messages_first() {
    let (mut registry, thread) = registry();
    let a = registry.create_span_with_parent(0, None);
    let b = registry.create_span_with_parent(0, Some(a));
    let c = registry.create_span_with_parent(0, Some(b));
    for (span, name, time) in [(a, "a", 10), (b, "b", 11), (c, "c", 12)] {
        registry.enter(thread, span, time);
        assert_eq!(registry.send_message(text(name), span, time), Vec::<String>::new());
    }
    assert_eq!(
        registry.send_message(text("m"), c, 1012),
        vec![text("a"), text("b"), text("c"), text("m")]
    );
    // the permission is lent, so the spans above print nothing
    assert_eq!(registry.send_message(text("n"), a, 1013), Vec::<String>::new());
    assert_eq!(registry.send_message(text("n"), b, 1013), Vec::<String>::new());
    assert!(!registry.can_exit(a));
    assert!(!registry.can_exit(b));
    assert!(registry.can_exit(c));
    registry.exit(thread, c);
    assert_eq!(registry.send_message(text("n"), b, 1014), vec![text("n")]);
    assert_eq!(registry.send_message(text("n"), a, 1014), Vec::<String>::new());
    registry.exit(thread, b);
    assert_eq!(registry.send_message(text("n"), a, 1015), vec![text("n")]);
    registry.exit(thread, a);
}

#[test]
fn borrowing_from_a_span_ends_its_silent_period() {
    let (mut registry, thread) = registry();
    let a = registry.create_span_with_parent(0, None);
    registry.enter(thread, a, 10);
    assert_eq!(registry.send_message(text("a"), a, 10), Vec::<String>::new());
    let mut out = vec![text("before")];
    assert!(registry.borrow_permission(a, &mut out));
    assert_eq!(out, vec![text("before"), text("a")]);
    assert!(!registry.borrow_permission(a, &mut out));
    assert_eq!(out.len(), 2);
}

#[test]
fn a_denied_request_ends_the_silent_period_of_those_it_passed() {
    let (mut registry, thread) = registry();
    let a = registry.create_span_with_parent(0, None);
    let b = registry.create_span_with_parent(0, Some(a));
    let c = registry.create_span_with_parent(0, Some(a));
    let d = registry.create_span_with_parent(0, Some(c));
    for (span, time) in [(a, 10), (b, 11), (c, 12), (d, 13)] {
        registry.enter(thread, span, time);
    }
    assert_eq!(registry.send_message(text("held"), c, 14), Vec::<String>::new());
    assert_eq!(registry.send_message(text("b"), b, 1011), vec![text("b")]);
    assert_eq!(registry.send_message(text("d"), d, 1013), Vec::<String>::new());
    registry.exit(thread, b);
    // a has the permission back, but c and d were denied it
    assert_eq!(registry.send_message(text("d"), d, 3000), Vec::<String>::new());
    assert_eq!(registry.send_message(text("c"), c, 3000), Vec::<String>::new());
    registry.exit(thread, d);
    registry.exit(thread, c);
    registry.enter(thread, c, 3001);
    assert_eq!(registry.send_message(text("again"), c, 4001), vec![text("again")]);
}

#[test]
fn a_span_that_is_left_forgets_what_it_held_back() {
    let (mut registry, thread) = registry();
    let a = registry.create_span_with_parent(0, None);
    registry.enter(thread, a, 10);
    assert_eq!(registry.send_message(text("first visit"), a, 10), Vec::<String>::new());
    registry.exit(thread, a);
    registry.enter(thread, a, 2000);
    assert_eq!(registry.send_message(text("second visit"), a, 3000), vec![text("second visit")]);
}

#[test]
fn requests_that_cannot_be_answered_are_recognised() {
    let (mut registry, thread) = registry();
    let a = registry.create_span_with_parent(0, None);
    let b = registry.create_span_with_parent(0, Some(a));
    assert!(!registry.is_active(b));
    assert!(!registry.can_send(b, 5000));
    registry.enter(thread, b, 10);
    // nobody is in a
    assert!(registry.can_send(b, 1009));
    assert!(!registry.can_send(b, 1010));
    assert!(!registry.is_answerable(Some(a)));
    registry.enter(thread, a, 20);
    assert!(registry.can_send(b, 1010));
    // a is gone
    assert!(registry.delete_span(a));
    assert!(!registry.can_send(b, 1010));
    assert!(registry.is_answerable(None));
    assert!(!registry.can_send(77, 1010));
    assert!(!registry.can_exit(77));
}

#[test]
fn spans_above_each_other_are_recognised() {
    let (mut registry, thread) = registry();
    let a = registry.create_span_with_parent(0, Some(2));
    let b = registry.create_span_with_parent(0, Some(a));
    let c = registry.create_span_with_parent(0, Some(3));
    registry.enter(thread, a, 10);
    registry.enter(thread, b, 10);
    registry.enter(thread, c, 10);
    assert!(!registry.is_answerable(Some(a)));
    assert!(!registry.is_answerable(Some(c)));
    assert!(!registry.can_send(b, 5000));
}

#[test]
fn a_short_span_stays_silent_whatever_happens_around_it() {
    let (mut registry, first) = registry();
    let second = registry.register_thread();
    let long = registry.create_span_with_parent(0, None);
    registry.enter(second, long, 1);
    assert_eq!(registry.send_message(text("held"), long, 1), Vec::<String>::new());
    let a = registry.create_span_with_parent(0, Some(long));
    registry.enter(first, a, 900);
    assert_eq!(registry.send_message(text("a"), a, 900), Vec::<String>::new());
    let b = registry.create_span(first, |_| 0);
    registry.enter(first, b, 910);
    assert_eq!(registry.send_message(text("b"), b, 1899), Vec::<String>::new());
    assert_eq!(registry.send_message(text("long"), long, 1899), vec![text("held"), text("long")]);
    assert_eq!(registry.send_message(text("a"), a, 1899), Vec::<String>::new());
    registry.exit(first, b);
    registry.exit(first, a);
    assert_eq!(registry.send_message(text("end"), long, 1900), vec![text("end")]);
}

#[test]
fn at_most_one_child_prints_at_a_time() {
    let (mut registry, thread) = registry();
    let parent = registry.create_span_with_parent(0, None);
    registry.enter(thread, parent, 10);
    let children: Vec<u64> =
        (0..4).map(|_| registry.create_span_with_parent(0, Some(parent))).collect();
    for child in &children {
        registry.enter(thread, *child, 20);
    }
    for (i, child) in children.iter().enumerate() {
        let out = registry.send_message(text("m"), *child, 1020);
        assert_eq!(out.len(), if i == 0 { 1 } else { 0 });
    }
}

#[test]
fn the_permission_follows_one_path_down_the_tree() {
    let (mut registry, thread) = registry();
    let root = registry.create_span_with_parent(0, None);
    let a = registry.create_span_with_parent(0, Some(root));
    let b = registry.create_span_with_parent(0, Some(a));
    let c = registry.create_span_with_parent(0, Some(root));
    let d = registry.create_span_with_parent(0, Some(c));
    for id in [root, a, b, c, d] {
        registry.enter(thread, id, 10);
    }
    assert_eq!(registry.send_message(text("b"), b, 1010), vec![text("b")]);
    // the ancestors of b lend the permission and cannot be left, all others are silent
    assert!(!registry.can_exit(root) && !registry.can_exit(a) && registry.can_exit(b));
    assert_eq!(registry.send_message(text("d"), d, 1010), Vec::<String>::new());
    assert_eq!(registry.send_message(text("c"), c, 1010), Vec::<String>::new());
    assert!(registry.can_exit(c) && registry.can_exit(d));
    registry.exit(thread, b);
    // now a has it to itself, and only the root lends it
    assert!(!registry.can_exit(root) && registry.can_exit(a));
    assert_eq!(registry.send_message(text("a"), a, 1010), vec![text("a")]);
    registry.exit(thread, a);
    assert!(registry.can_exit(root));
    assert_eq!(registry.send_message(text("root"), root, 1010), vec![text("root")]);
}

#[test]
fn the_time_of_entry_is_zero_outside_the_span() {
    let (mut registry, thread) = registry();
    let a = registry.create_span_with_parent(0, None);
    assert_eq!(registry.span_data(a, 500).2, 500);
    registry.enter(thread, a, 200);
    assert_eq!(registry.span_data(a, 500).2, 300);
    registry.exit(thread, a);
    assert_eq!(registry.span_data(a, 500).2, 500);
}

#[test]
fn a_created_span_has_one_handle() {
    let (mut registry, _) = registry();
    let a = registry.create_span_with_parent(0, None);
    assert!(registry.delete_span(a));
}
