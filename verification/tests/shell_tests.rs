use bootstreep_dashboard::shell::{command_outcome, shell_escape, ssh_target};

#[test]
fn safe_words_stay_unquoted() {
    assert_eq!(shell_escape("abc/def-1.2_x"), "abc/def-1.2_x");
    assert_eq!(shell_escape("überall"), "überall");
    assert_eq!(shell_escape(""), "");
}

#[test]
fn other_words_are_single_quoted() {
    assert_eq!(shell_escape("hello world"), "'hello world'");
    assert_eq!(shell_escape("it's"), "'it'\\''s'");
    assert_eq!(shell_escape("$(rm -rf /)"), "'$(rm -rf /)'");
}

#[test]
fn ssh_target_adds_the_user_where_given() {
    assert_eq!(ssh_target("host", ""), "host");
    assert_eq!(ssh_target("host", "admin"), "admin@host");
}

#[test]
fn outcome_prefers_standard_error_only_on_failure() {
    assert_eq!(command_outcome(false, "out", " err \n"), Err("err".to_string()));
    assert_eq!(command_outcome(false, " out\n", ""), Ok("out".to_string()));
    assert_eq!(command_outcome(true, " x ", "warn"), Ok("x".to_string()));
}
