use mocksmith::log::Logger;

#[test]
fn macro_doesnt_evaluate_args_if_verbose_disabled() {
    let mut calls = 0;
    let fun = || {
        calls += 1;
        "hello".to_string()
    };

    let mut log = Logger::new(false);
    log.log_verbose_with(fun);
    assert_eq!(calls, 0);
    assert!(log.messages().is_empty());
}

#[test]
fn macro_evalutes_args_when_enabled() {
    let mut calls = 0;
    let fun = || {
        calls += 1;
        "hello".to_string()
    };

    let mut log = Logger::new(true);
    log.log_verbose_with(fun);
    assert_eq!(calls, 1);
    assert_eq!(log.messages().as_slice(), ["hello".to_string()]);
}

#[test]
fn plain_messages_are_kept_in_order() {
    let mut log = Logger::new(false);
    log.log("first".to_string());
    log.log("second".to_string());
    assert_eq!(
        log.take_messages(),
        vec!["first".to_string(), "second".to_string()]
    );
    assert!(log.messages().is_empty());
}

#[test]
fn verbose_messages_are_dropped_when_not_verbose() {
    let mut log = Logger::new(false);
    log.log_verbose("lost".to_string());
    assert!(log.messages().is_empty());

    let mut log = Logger::new(true);
    log.log_verbose("kept".to_string());
    assert_eq!(log.messages().as_slice(), ["kept".to_string()]);
}
