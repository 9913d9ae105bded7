use marrakesh::logger::{sanitize_filename, ConsoleReceiver, LogEvent, Logger, ReceiverIds};

#[test]
fn test_sanitize_filename() {
    assert_eq!(sanitize_filename("test name"), "test_name");
    assert_eq!(sanitize_filename("test/name"), "test_name");
    assert_eq!(sanitize_filename("test:name"), "test_name");
}

#[test]
fn sanitize_filename_replaces_every_forbidden_character() {
    assert_eq!(sanitize_filename("a b/c\\d:e*f?g\"h<i>j|k"), "a_b_c_d_e_f_g_h_i_j_k");
    assert_eq!(sanitize_filename("plain-name_1.log"), "plain-name_1.log");
    assert_eq!(sanitize_filename(""), "");
    assert_eq!(sanitize_filename("é ü"), "é_ü");
}

#[test]
fn sanitize_filename_is_idempotent() {
    let once = sanitize_filename("log/scenario one:variant?");
    let twice = sanitize_filename(&once);
    assert_eq!(once, twice);
    assert_eq!(once, "log_scenario_one_variant_");
}

#[test]
fn console_receiver_filters_events() {
    let r = ConsoleReceiver::new(vec![LogEvent::Validation, LogEvent::Scenario]);
    assert!(r.should_log(LogEvent::Validation));
    assert!(r.should_log(LogEvent::Scenario));
    assert!(!r.should_log(LogEvent::Auction));
    assert!(!r.should_log(LogEvent::Variant));
}

#[test]
fn log_goes_to_receivers_listening_to_the_event() {
    let mut ids = ReceiverIds::new();
    let mut logger = Logger::new();
    let a = logger.add_receiver(&mut ids, vec![LogEvent::Simulation, LogEvent::Convergence]);
    let b = logger.add_receiver(&mut ids, vec![LogEvent::Variant]);
    let c = logger.add_receiver(&mut ids, vec![LogEvent::Convergence]);
    assert!(a < b && b < c);

    let d = logger.log(LogEvent::Convergence, "converged");
    assert_eq!(d.receivers, vec![a, c]);
    assert_eq!(d.text, "converged");

    let d = logger.logln(LogEvent::Variant, "variant done");
    assert_eq!(d.receivers, vec![b]);
    assert_eq!(d.text, "variant done\n");

    let d = logger.log(LogEvent::Auction, "row");
    assert!(d.receivers.is_empty());
}

#[test]
fn errors_and_warnings_go_up_the_hierarchy_once_per_receiver() {
    let mut ids = ReceiverIds::new();
    let mut logger = Logger::new();
    let auction = logger.add_receiver(&mut ids, vec![LogEvent::Auction]);
    let sim_conv = logger.add_receiver(&mut ids, vec![LogEvent::Simulation, LogEvent::Convergence]);
    let validation = logger.add_receiver(&mut ids, vec![LogEvent::Validation]);

    let d = logger.errln(LogEvent::Simulation, "bad bid");
    assert_eq!(d.receivers, vec![sim_conv, validation]);
    assert_eq!(d.text, "ERROR bad bid\n");

    let d = logger.warnln(LogEvent::Auction, "slow");
    assert_eq!(d.receivers, vec![auction, sim_conv, validation]);
    assert_eq!(d.text, "WARNING slow\n");

    let d = logger.errln(LogEvent::Validation, "failed");
    assert_eq!(d.receivers, vec![validation]);
}

#[test]
fn direct_listeners_also_get_errors() {
    let mut ids = ReceiverIds::new();
    let mut logger = Logger::new();
    logger.add_receiver(&mut ids, vec![LogEvent::Variant]);
    logger.add_receiver(&mut ids, vec![LogEvent::Scenario]);
    logger.add_receiver(&mut ids, vec![LogEvent::Auction]);
    for event in [LogEvent::Auction, LogEvent::Simulation, LogEvent::Convergence, LogEvent::Variant, LogEvent::Scenario, LogEvent::Validation] {
        let plain = logger.log(event, "m").receivers;
        let errors = logger.errln(event, "m").receivers;
        for id in plain {
            assert!(errors.contains(&id));
        }
    }
}

#[test]
fn removing_a_receiver_stops_its_messages() {
    let mut ids = ReceiverIds::new();
    let mut logger = Logger::new();
    let a = logger.add_receiver(&mut ids, vec![LogEvent::Validation]);
    let b = logger.add_receiver(&mut ids, vec![LogEvent::Validation]);
    assert_eq!(logger.flush(), vec![a, b]);
    logger.remove_receiver(a);
    assert_eq!(logger.log(LogEvent::Validation, "x").receivers, vec![b]);
    assert_eq!(logger.flush(), vec![b]);
    logger.remove_receiver(12345);
    assert_eq!(logger.flush(), vec![b]);
}

#[test]
fn add_then_remove_restores_the_receivers() {
    let mut ids = ReceiverIds::new();
    let mut logger = Logger::new();
    let a = logger.add_receiver(&mut ids, vec![LogEvent::Scenario]);
    let before = logger.flush();
    let temp = logger.add_receiver(&mut ids, vec![LogEvent::Auction, LogEvent::Scenario]);
    assert_ne!(temp, a);
    logger.remove_receiver(temp);
    assert_eq!(logger.flush(), before);
    assert_eq!(logger.log(LogEvent::Scenario, "s").receivers, vec![a]);
}

#[test]
fn receiver_ids_are_never_reused() {
    let mut ids = ReceiverIds::new();
    let mut logger = Logger::new();
    let a = logger.add_receiver(&mut ids, vec![LogEvent::Scenario]);
    logger.remove_receiver(a);
    let b = logger.add_receiver(&mut ids, vec![LogEvent::Scenario]);
    assert_ne!(a, b);
    assert_eq!(a, 1);
    assert_eq!(b, 2);
}

#[test]
fn added_receiver_is_last_to_hear_its_events() {
    let mut ids = ReceiverIds::new();
    let mut logger = Logger::new();
    let a = logger.add_receiver(&mut ids, vec![LogEvent::Scenario]);
    let b = logger.add_receiver(&mut ids, vec![LogEvent::Convergence]);
    assert_eq!(logger.log(LogEvent::Scenario, "s").receivers, vec![a]);
    assert_eq!(logger.errln(LogEvent::Auction, "e").receivers, vec![a, b]);
    let c = logger.add_receiver(&mut ids, vec![LogEvent::Scenario, LogEvent::Auction]);
    assert_eq!(logger.log(LogEvent::Scenario, "s").receivers, vec![a, c]);
    assert_eq!(logger.errln(LogEvent::Auction, "e").receivers, vec![a, b, c]);
}

#[test]
fn loggers_sharing_a_source_never_repeat_identifiers() {
    let mut ids = ReceiverIds::new();
    let mut first = Logger::new();
    let mut second = Logger::new();
    let a = first.add_receiver(&mut ids, vec![LogEvent::Scenario]);
    let b = second.add_receiver(&mut ids, vec![LogEvent::Scenario]);
    let c = first.add_receiver(&mut ids, vec![LogEvent::Validation]);
    assert_eq!((a, b, c), (1, 2, 3));
    assert_eq!(ids.peek(), 4);
    assert_eq!(first.receiver_id_bound(), 4);
    assert_eq!(second.receiver_id_bound(), 3);
    assert_eq!(first.flush(), vec![a, c]);
    assert_eq!(second.flush(), vec![b]);
}
