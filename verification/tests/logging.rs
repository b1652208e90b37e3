use frame_host::basic_logger;
use frame_host::logging::{Context, Delivery, Logger, Logging, Sink};

fn out(msg: &str) -> Delivery {
    Delivery { sink: Sink::Output, msg: msg.to_string() }
}

fn file(name: &str, msg: &str) -> Delivery {
    Delivery { sink: Sink::File(name.to_string()), msg: msg.to_string() }
}

#[test]
fn poll_delivers_queued_messages_in_order() {
    let (mut handle, logger) = Logger::new();
    handle.log_info("one".to_string());
    handle.log_info("two".to_string());
    assert_eq!(logger.poll_once(&mut handle), vec![out("one"), out("two")]);
    assert_eq!(logger.poll_once(&mut handle), vec![]);
}

#[test]
fn two_polls_deliver_what_one_poll_would() {
    let (mut h1, logger) = Logger::new();
    h1.log_info("a".to_string());
    let mut split = logger.poll_once(&mut h1);
    h1.log_info("b".to_string());
    split.extend(logger.poll_once(&mut h1));

    let (mut h2, logger2) = Logger::new();
    h2.log_info("a".to_string());
    h2.log_info("b".to_string());
    assert_eq!(split, logger2.poll_once(&mut h2));
}

#[test]
fn all_log_registers_the_aggregate_file_once() {
    let (mut handle, mut logger) = Logger::new();
    assert_eq!(logger.all_log("/var/log".to_string()), Some("/var/log/All.txt".to_string()));
    assert_eq!(logger.all_log("/elsewhere".to_string()), None);
    handle.log_info("m".to_string());
    assert_eq!(logger.poll_once(&mut handle), vec![out("m"), file("All", "m")]);
}

#[test]
fn poll_files_writes_each_named_file_in_order() {
    let (mut handle, mut logger) = Logger::new();
    logger.all_log("d".to_string());
    handle.send_context(vec!["All".to_string(), "All".to_string()], "x".to_string());
    handle.log_info("kept".to_string());
    assert_eq!(logger.poll_files(&mut handle), vec![file("All", "x"), file("All", "x")]);
    assert_eq!(logger.poll_once(&mut handle), vec![out("kept"), file("All", "kept")]);
}

#[test]
fn logging_delivers_at_once() {
    let (handle, logger) = Logger::new();
    let mut logging = Logging::new(handle, logger);
    assert_eq!(logging.log_info("hello".to_string()), vec![out("hello")]);
    logging.add_context("frame.txt".to_string());
    assert_eq!(
        logging.log_info_files(vec!["frame.txt".to_string()], "to file".to_string()),
        vec![file("frame.txt", "to file")]
    );
}

#[test]
fn context_without_sinks_logs_to_the_terminal_only() {
    let (handle, logger) = Logger::new();
    let mut ctx = Context::new(Logging::new(handle, logger), "/tmp".to_string());
    assert_eq!(ctx.log_info("hi".to_string()), vec![out("hi")]);
}

#[test]
fn context_logs_to_its_file_sinks() {
    let (handle, logger) = Logger::new();
    let mut ctx = Context::new(Logging::new(handle, logger), "/tmp".to_string());
    assert_eq!(
        ctx.fsink("/tmp".to_string(), "log-frame-host.txt".to_string()),
        "/tmp/log-frame-host.txt"
    );
    assert_eq!(ctx.fsink("/tmp/".to_string(), "b".to_string()), "/tmp/b");
    assert_eq!(
        ctx.log_info("Initializing".to_string()),
        vec![
            out("Initializing"),
            file("log-frame-host.txt", "Initializing"),
            file("b", "Initializing"),
        ]
    );
}

#[test]
fn context_sink_opened_twice_is_written_twice() {
    let (handle, logger) = Logger::new();
    let mut ctx = Context::new(Logging::new(handle, logger), "/tmp".to_string());
    ctx.fsink("/tmp".to_string(), "f".to_string());
    ctx.fsink("/tmp".to_string(), "f".to_string());
    assert_eq!(ctx.log_info("m".to_string()), vec![out("m"), file("f", "m"), file("f", "m")]);
}

#[test]
fn basic_logger_writes_terminal_and_all() {
    let logger = basic_logger::Logger::new("/var/log".to_string());
    assert_eq!(logger.all_path(), "/var/log/All");
    assert_eq!(logger.log("Test Log.".to_string()), vec![out("Test Log."), file("All", "Test Log.")]);
}
