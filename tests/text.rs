use journal_store::logger::{error, get_fallback_log_dir, get_log_path, info, log_line, path_join, LogState};
use journal_store::script::clean_script;
use journal_store::text::{chars_of, contains_text, has_sql_extension, same_text, text_less};

#[test]
fn clean_removes_marker_lines() {
    assert_eq!(clean_script("a;\n  --> statement-breakpoint\nb;"), "a;\nb;");
    assert_eq!(clean_script("a;\r\nb;\n"), "a;\nb;");
    assert_eq!(clean_script(""), "");
    assert_eq!(clean_script("-->x"), "");
    assert_eq!(clean_script("x\n\ny"), "x\n\ny");
    assert_eq!(clean_script("-- comment\n->x"), "-- comment\n->x");
}

#[test]
fn substring_search() {
    assert!(contains_text("table users already exists", "already exists"));
    assert!(!contains_text("already exist", "already exists"));
    assert!(contains_text("abc", ""));
    assert!(!contains_text("", "a"));
}

#[test]
fn sql_extension() {
    assert!(has_sql_extension("0001_init.sql"));
    assert!(has_sql_extension("a.sql"));
    assert!(!has_sql_extension(".sql"));
    assert!(!has_sql_extension("init.sql.bak"));
    assert!(!has_sql_extension("init.SQL"));
}

#[test]
fn order_and_equality() {
    assert!(text_less(&chars_of("0001"), &chars_of("0002")));
    assert!(text_less(&chars_of("ab"), &chars_of("abc")));
    assert!(!text_less(&chars_of("b"), &chars_of("abc")));
    assert!(!text_less(&chars_of("same"), &chars_of("same")));
    assert!(same_text("x", "x"));
    assert!(!same_text("x", "y"));
}

#[test]
fn log_text() {
    assert_eq!(error("boom"), "ERROR: boom");
    assert_eq!(info("ready"), "INFO: ready");
    assert_eq!(log_line("2024-01-01 00:00:00.000", "INFO: ready"), "[2024-01-01 00:00:00.000] INFO: ready\n");
}

#[test]
fn fallback_directory_choice() {
    let s = |x: &str| Some(x.to_string());
    assert_eq!(get_fallback_log_dir(s("C:/Users/me"), s("/home/me"), None, None), "C:/Users/me/.journal-todo");
    assert_eq!(get_fallback_log_dir(None, s("/home/me/"), None, None), "/home/me/.journal-todo");
    assert_eq!(get_fallback_log_dir(None, None, s("/tmp"), s("/var/tmp")), "/tmp/journal-todo");
    assert_eq!(get_fallback_log_dir(None, None, None, s("/var/tmp")), "/var/tmp/journal-todo");
    assert_eq!(get_fallback_log_dir(None, None, None, None), ".");
    assert_eq!(path_join("", "x"), "x");
}

#[test]
fn log_path_after_open() {
    let mut state = LogState::new();
    assert_eq!(get_log_path(&state), None);
    let p = state.open_in("/data");
    assert_eq!(p, "/data/journal-todo.log");
    assert_eq!(get_log_path(&state), Some("/data/journal-todo.log".to_string()));
}
