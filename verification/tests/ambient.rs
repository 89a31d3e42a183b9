use delayed_logger::ambient::DelayedLoggerImpl;
use delayed_logger::outside::{Clock, ThreadNumbers};
use std::time::Instant;

fn text(message: &str) -> String {
    message.to_owned()
}

fn wait_micros(micros: u128) {
    let start = Instant::now();
    while start.elapsed().as_micros() < micros {}
}

#[test]
fn a_clock_starts_at_ten() {
    assert_eq!(Clock::show(0), 10);
    assert_eq!(Clock::show(2500), 2510);
    assert_eq!(Clock::show(u64::MAX as u128), 9);
    assert_eq!(Clock::show(u64::MAX as u128 + 1), 10);
}

#[test]
fn a_clock_moves_on() {
    let clock = Clock::start();
    let first = clock.now();
    wait_micros(500);
    let second = clock.now();
    assert!(first >= 10);
    assert!(second >= first + 500);
}

#[test]
fn a_clock_does_not_go_back() {
    let clock = Clock::start();
    let first = clock.now();
    wait_micros(500);
    assert!(clock.now_after(first) >= first + 500);
    let second = clock.now();
    assert!(clock.now_after(second) >= second);
}

#[test]
fn a_thread_keeps_its_number() {
    let mut numbers = ThreadNumbers::new();
    assert_eq!(numbers.current(4), 4);
    assert_eq!(numbers.current(5), 4);
    assert_eq!(numbers.current(6), 4);
}

#[test]
fn the_calling_thread_is_in_the_span_that_it_entered() {
    let mut logger: DelayedLoggerImpl<u32> = DelayedLoggerImpl::new(0);
    assert_eq!(logger.current_span(), None);
    let a = logger.create_span(|_| 1).unwrap();
    logger.enter(a);
    assert_eq!(logger.current_span(), Some(a));
    assert_eq!(logger.registry.thread_count(), 1);
    let b = logger.create_span(|parent| *parent.unwrap().0 + 1).unwrap();
    assert_eq!(*logger.span_data(b).0, 2);
    assert_eq!(logger.span_data(b).1, Some(a));
    logger.exit(a);
    assert_eq!(logger.current_span(), None);
}

#[test]
fn no_span_is_created_below_a_deleted_one() {
    let mut logger: DelayedLoggerImpl<u32> = DelayedLoggerImpl::new(0);
    let a = logger.create_span(|_| 1).unwrap();
    logger.enter(a);
    assert!(logger.delete_span(a));
    assert_eq!(logger.create_span(|_| 2), None);
    assert_eq!(logger.registry.span_count(), 0);
}

#[test]
fn messages_are_held_back_until_the_period_is_over() {
    let mut logger: DelayedLoggerImpl<u32> = DelayedLoggerImpl::new(1000);
    let a = logger.create_span(|_| 1).unwrap();
    logger.enter(a);
    let mut log = logger.send_message(text("enter a"), a).unwrap();
    wait_micros(2000);
    assert!(logger.span_data(a).2 >= 2000);
    log.extend(logger.send_message(text("exit a"), a).unwrap());
    assert_eq!(log, vec![text("enter a"), text("exit a")]);
}

#[test]
fn messages_of_a_short_span_are_dropped() {
    let mut logger: DelayedLoggerImpl<u32> = DelayedLoggerImpl::new(3_600_000_000);
    let a = logger.create_span(|_| 1).unwrap();
    logger.enter(a);
    assert_eq!(logger.send_message(text("enter a"), a), Some(Vec::new()));
    logger.exit(a);
    logger.clone_span(a);
    assert!(!logger.delete_span(a));
    assert!(logger.delete_span(a));
}

#[test]
fn a_message_that_needs_an_inactive_parent_is_refused() {
    let mut logger: DelayedLoggerImpl<u32> = DelayedLoggerImpl::new(0);
    let a = logger.create_span_with_parent(1, None);
    let b = logger.create_span_with_parent(2, Some(a));
    logger.enter(b);
    assert_eq!(logger.send_message(text("m"), b), None);
    logger.enter(a);
    assert_eq!(logger.send_message(text("m"), b), Some(vec![text("m")]));
}
