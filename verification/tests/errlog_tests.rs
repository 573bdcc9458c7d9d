use privoxy::errlog::{
    disable_logging, get_log_level_string, init_log_module, is_log_level_enabled, log_error, set_debug_level, JbErr,
    LogDecision, LOG_LEVEL_CGI, LOG_LEVEL_CLF, LOG_LEVEL_ERROR, LOG_LEVEL_FATAL, LOG_LEVEL_INFO,
};

#[test]
fn test_jb_err_to_string() {
    assert_eq!(JbErr::NoError.to_string(), "Success, no error");
    assert_eq!(JbErr::Memory.to_string(), "Out of memory");
    assert_eq!(JbErr::Parse.to_string(), "Parse error");
    assert_eq!(JbErr::File.to_string(), "Error opening, reading or writing a file");
}

#[test]
fn test_log_level_constants() {
    assert_eq!(LOG_LEVEL_FATAL, 0x4000);
    assert_eq!(LOG_LEVEL_ERROR, 0x2000);
    assert_eq!(LOG_LEVEL_INFO, 0x1000);
    assert!(LOG_LEVEL_FATAL > LOG_LEVEL_ERROR);
}

#[test]
fn test_get_log_level_string() {
    assert_eq!(get_log_level_string(LOG_LEVEL_ERROR), "Error");
    assert_eq!(get_log_level_string(LOG_LEVEL_FATAL), "Fatal error");
    assert_eq!(get_log_level_string(LOG_LEVEL_INFO), "Info");
    assert_eq!(get_log_level_string(LOG_LEVEL_CGI), "CGI");
}

#[test]
fn fatal_errors_are_logged_at_every_level() {
    assert!(is_log_level_enabled(LOG_LEVEL_FATAL, disable_logging()));
    assert!(!is_log_level_enabled(LOG_LEVEL_CGI, init_log_module()));
    let level = set_debug_level(LOG_LEVEL_CGI);
    assert!(is_log_level_enabled(LOG_LEVEL_CGI, level));
    assert!(is_log_level_enabled(LOG_LEVEL_FATAL, level));
    assert!(!is_log_level_enabled(LOG_LEVEL_ERROR, level));
    assert!(is_log_level_enabled(LOG_LEVEL_ERROR, init_log_module()));
}

#[test]
fn version_announcement() {
    assert_eq!(privoxy::errlog::show_version("privoxy"), vec!["Privoxy version 4.1.0".to_string(), "Program name: privoxy".to_string()]);
    assert_eq!(privoxy::errlog::show_version("").len(), 1);
}

#[test]
fn test_log_error_decision() {
    let level = init_log_module();
    match log_error(LOG_LEVEL_ERROR, level, "2024-01-02 03:04:05.678", "", 0x2a, "something broke") {
        LogDecision::Write(line) => {
            assert_eq!(line, format!("2024-01-02 03:04:05.678 0000002a {}: something broke", get_log_level_string(LOG_LEVEL_ERROR)))
        },
        _ => panic!("errors are logged"),
    }
    match log_error(LOG_LEVEL_INFO, level, "t", "", 1, "quiet") {
        LogDecision::Skip => {},
        _ => panic!("info is off"),
    }
    match log_error(LOG_LEVEL_FATAL, 0, "t", "", 1, "fatal") {
        LogDecision::Abort => {},
        _ => panic!("an unlogged fatal error stops the program"),
    }
    match log_error(LOG_LEVEL_CLF, LOG_LEVEL_CLF, "t", "10/Oct/2000:13:55:36 -0700", 7, "GET / 200") {
        LogDecision::Write(line) => assert_eq!(line, "10/Oct/2000:13:55:36 -0700 GET / 200"),
        _ => panic!("clf lines are logged"),
    }
    match log_error(LOG_LEVEL_ERROR, LOG_LEVEL_ERROR, "t", "", 0x1234_5678_9abc, "wide") {
        LogDecision::Write(line) => assert!(line.starts_with("t 123456789abc ")),
        _ => panic!("errors are logged"),
    }
}
