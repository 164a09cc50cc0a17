fn help_text(args: &[&str]) -> String {
    opaq::help_text(args).expect("a documented command")
}

#[test]
fn login_help_describes_flags() {
    let h = help_text(&["login", "--help"]);
    assert!(h.contains("Server base URL"), "{}", h);
    assert!(h.contains("API key"), "{}", h);
}

#[test]
fn status_help_describes_command() {
    let h = help_text(&["status", "--help"]);
    assert!(h.contains("auth status"), "{}", h);
    assert!(h.contains("opaq status"), "missing example; got: {}", h);
}

#[test]
fn top_help_lists_status_under_auth() {
    let h = help_text(&["--help"]);
    assert!(h.contains("status"), "missing status command; got: {}", h);
}

#[test]
fn principal_set_help_describes_flags() {
    let h = help_text(&["principal", "set", "--help"]);
    assert!(h.contains("name") || h.contains("NAME"), "{}", h);
    assert!(h.contains("role"), "{}", h);
    assert!(h.contains("ttl") || h.contains("TTL"), "{}", h);
    assert!(h.contains("rename"), "{}", h);
}

#[test]
fn principal_rotate_help_describes_command() {
    let h = help_text(&["principal", "rotate", "--help"]);
    assert!(h.contains("rotate") || h.contains("Rotate"), "{}", h);
    assert!(h.contains("name") || h.contains("NAME"), "{}", h);
}

#[test]
fn principal_revoke_help_describes_id() {
    let h = help_text(&["principal", "revoke", "--help"]);
    assert!(h.contains("principal ID"), "{}", h);
}

#[test]
fn set_help_shows_example() {
    let h = help_text(&["set", "--help"]);
    assert!(h.contains("opaq set "), "missing example; got: {}", h);
}

#[test]
fn get_help_shows_example() {
    let h = help_text(&["get", "--help"]);
    assert!(h.contains("opaq get "), "missing example; got: {}", h);
}

#[test]
fn env_help_shows_example() {
    let h = help_text(&["env", "--help"]);
    assert!(h.contains("opaq env "), "missing example; got: {}", h);
}

#[test]
fn unknown_command_has_no_help() {
    assert!(opaq::help_text(&["bogus", "--help"]).is_none());
}

#[test]
fn help_text_layout() {
    let h = help_text(&["rm"]);
    assert_eq!(
        h,
        "Remove a secret\n\n  <PATH>  \n\nExamples:\n  opaq rm /acme/api/prod/STRIPE_KEY\n"
    );
}

#[test]
fn version_is_declared() {
    assert_eq!(opaq::cli::VERSION, "0.1.0");
}

#[test]
fn top_help_shows_command_groups() {
    let h = help_text(&["--help"]);
    assert!(h.contains("Auth"), "{}", h);
    assert!(h.contains("Secrets"), "{}", h);
    assert!(h.contains("Admin"), "{}", h);
}

#[test]
fn top_help_mentions_cheatsheet() {
    let h = help_text(&["--help"]);
    assert!(h.contains("opaq help"), "expected pointer to `opaq help` in footer; got: {}", h);
}

#[test]
fn top_help_template_lays_out_groups() {
    let t = opaq::cli::top_help_template();
    assert!(t.starts_with("{before-help}{name} {version}\n{about}\n\n{usage-heading} {usage}\n\nSetup:\n"));
    assert!(t.contains("Auth:\n  login          Save server URL and API key\n"));
    assert!(t.ends_with("  help           Print a cheatsheet of common commands\n\nOptions:\n{options}\n\n{after-help}"));
    let h = help_text(&["--help"]);
    assert!(h.contains(opaq::cli::TOP_COMMAND_GROUPS));
    assert!(h.contains("  --profile  Credential profile to use"));
}
