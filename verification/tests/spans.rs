use delayed_logger::ambient::DelayedLoggerImpl;
use delayed_logger::registry::SpanRegistry;

#[test]
fn test_spans() {
    let mut log: Vec<String> = Vec::new();
    let mut logger: DelayedLoggerImpl<String> = DelayedLoggerImpl::new(0);

    let a = logger.create_span(|_| "a".to_owned()).unwrap();
    logger.enter(a);
    log.extend(logger.send_message("enter a".to_owned(), a).unwrap());

    let b = logger.create_span(|_| "b".to_owned()).unwrap();
    logger.enter(b);
    log.extend(logger.send_message("enter b".to_owned(), b).unwrap());

    log.extend(logger.send_message("exit b".to_owned(), b).unwrap());
    logger.exit(b);
    logger.delete_span(b);

    log.extend(logger.send_message("exit a".to_owned(), a).unwrap());
    logger.exit(a);
    logger.delete_span(a);

    assert_eq!(0, logger.registry.span_count());
    assert_eq!(
        vec!["enter a".to_owned(), "enter b".to_owned(), "exit b".to_owned(), "exit a".to_owned()],
        log
    );
}

#[test]
fn test_concurrent_spans() {
    let mut log: Vec<String> = Vec::new();
    let mut logger: DelayedLoggerImpl<String> = DelayedLoggerImpl::new(0);

    let a = logger.create_span(|_| "a".to_owned()).unwrap();
    logger.enter(a);
    log.extend(logger.send_message("enter a".to_owned(), a).unwrap());

    let b = logger.create_span(|_| "b".to_owned()).unwrap();
    logger.enter(b);
    log.extend(logger.send_message("enter b".to_owned(), b).unwrap());

    let c = logger.create_span_with_parent("c".to_owned(), Some(a));
    logger.enter(c);
    log.extend(logger.send_message("enter c".to_owned(), c).unwrap());

    log.extend(logger.send_message("exit b".to_owned(), b).unwrap());
    logger.exit(b);
    logger.delete_span(b);

    log.extend(logger.send_message("exit c".to_owned(), c).unwrap());
    logger.exit(c);
    logger.delete_span(c);

    let d = logger.create_span(|_| "d".to_owned()).unwrap();
    logger.enter(d);
    log.extend(logger.send_message("enter d".to_owned(), d).unwrap());

    log.extend(logger.send_message("exit d".to_owned(), d).unwrap());
    logger.exit(d);
    logger.delete_span(d);

    log.extend(logger.send_message("exit a".to_owned(), a).unwrap());
    logger.exit(a);
    logger.delete_span(a);

    assert_eq!(0, logger.registry.span_count());
    assert_eq!(
        vec![
            "enter a".to_owned(),
            "enter b".to_owned(),
            "exit b".to_owned(),
            "enter d".to_owned(),
            "exit d".to_owned(),
            "exit a".to_owned()
        ],
        log
    );
}

#[test]
fn test_skip_short_spans() {
    let mut log: Vec<String> = Vec::new();
    let mut logger: SpanRegistry<String> = SpanRegistry::new(1000);
    let thread = logger.register_thread();

    let a = logger.create_span(thread, |_| "a".to_owned());
    logger.enter(thread, a, 10);
    log.extend(logger.send_message("enter a".to_owned(), a, 10));

    let b = logger.create_span(thread, |_| "b".to_owned());
    logger.enter(thread, b, 11);
    log.extend(logger.send_message("enter b".to_owned(), b, 11));

    // 100 microseconds pass

    log.extend(logger.send_message("exit b".to_owned(), b, 111));
    logger.exit(thread, b);
    logger.delete_span(b);

    log.extend(logger.send_message("exit a".to_owned(), a, 112));
    logger.exit(thread, a);
    logger.delete_span(a);

    assert_eq!(0, logger.span_count());
    assert_eq!(Vec::<String>::new(), log);

    let mut log: Vec<String> = Vec::new();
    let mut logger: SpanRegistry<String> = SpanRegistry::new(1000);
    let thread = logger.register_thread();

    let a = logger.create_span(thread, |_| "a".to_owned());
    logger.enter(thread, a, 10);
    log.extend(logger.send_message("enter a".to_owned(), a, 10));

    let b = logger.create_span(thread, |_| "b".to_owned());
    logger.enter(thread, b, 11);
    log.extend(logger.send_message("enter b".to_owned(), b, 11));

    log.extend(logger.send_message("exit b".to_owned(), b, 12));
    logger.exit(thread, b);
    logger.delete_span(b);

    // 2000 microseconds pass

    log.extend(logger.send_message("exit a".to_owned(), a, 2012));
    logger.exit(thread, a);
    logger.delete_span(a);

    assert_eq!(0, logger.span_count());
    assert_eq!(vec!["enter a".to_owned(), "exit a".to_owned()], log);
}

#[test]
fn test_log_first_long_span() {
    let mut log: Vec<String> = Vec::new();
    let mut logger: SpanRegistry<String> = SpanRegistry::new(1000);
    let thread = logger.register_thread();

    let a = logger.create_span(thread, |_| "a".to_owned());
    logger.enter(thread, a, 10);
    log.extend(logger.send_message("enter a".to_owned(), a, 10));

    let b = logger.create_span(thread, |_| "b".to_owned());
    logger.enter(thread, b, 11);
    log.extend(logger.send_message("enter b".to_owned(), b, 11));

    let c = logger.create_span_with_parent("c".to_owned(), Some(a));
    logger.enter(thread, c, 12);
    log.extend(logger.send_message("enter c".to_owned(), c, 12));

    log.extend(logger.send_message("exit b".to_owned(), b, 13));
    logger.exit(thread, b);
    logger.delete_span(b);

    // 2000 microseconds pass

    log.extend(logger.send_message("exit c".to_owned(), c, 2013));
    logger.exit(thread, c);
    logger.delete_span(c);

    let d = logger.create_span(thread, |_| "d".to_owned());
    logger.enter(thread, d, 2014);
    log.extend(logger.send_message("enter d".to_owned(), d, 2014));

    log.extend(logger.send_message("exit d".to_owned(), d, 2015));
    logger.exit(thread, d);
    logger.delete_span(d);

    log.extend(logger.send_message("exit a".to_owned(), a, 2016));
    logger.exit(thread, a);
    logger.delete_span(a);

    assert_eq!(0, logger.span_count());
    assert_eq!(
        vec![
            "enter a".to_owned(),
            "enter c".to_owned(),
            "exit c".to_owned(),
            "exit a".to_owned()
        ],
        log
    );
}

#[test]
fn test_span_tree_not_execution_stack() {
    let mut logger: SpanRegistry<String> = SpanRegistry::new(1000);
    let main_thread = logger.register_thread();
    let helper_thread = logger.register_thread();

    let a = logger.create_span(main_thread, |_| "/a".to_owned());
    logger.enter(main_thread, a, 10);

    let b = logger.create_span_with_parent("/a/b".to_owned(), Some(a));
    logger.enter(helper_thread, b, 11);
    let current = logger.current_span(helper_thread).unwrap();
    assert_eq!("/a/b", logger.span_data(current, 12).0);
    logger.exit(helper_thread, b);
    logger.delete_span(b);

    logger.exit(main_thread, a);
    logger.delete_span(a);

    let c = logger.create_span(helper_thread, |parent| {
        format!("{}/c", parent.map(|(s, _)| s.as_str()).unwrap_or(""))
    });
    logger.enter(helper_thread, c, 13);
    let current = logger.current_span(helper_thread).unwrap();
    assert_eq!("/c", logger.span_data(current, 14).0);
    logger.exit(helper_thread, c);
    logger.delete_span(c);
}
