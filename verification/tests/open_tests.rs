use zeo_systray::open::{
    escape_sandbox, opener_command, opener_invocation, replace_all, split_words, DEFAULT_OPEN_CMD,
};

#[test]
fn outside_systemd_the_opener_runs_as_given() {
    let (program, args) = escape_sandbox("xdg-open".into(), vec!["zed://x".into()], false);
    assert_eq!(program, "xdg-open");
    assert_eq!(args, vec!["zed://x"]);
}

/// The `--` matters: without it an opener whose first token starts with a
/// dash would be parsed as a systemd-run option.
#[test]
fn under_systemd_the_opener_is_wrapped_in_a_transient_unit() {
    let (program, args) = escape_sandbox("xdg-open".into(), vec!["zed://x".into()], true);
    assert_eq!(program, "systemd-run");
    assert_eq!(
        args,
        vec![
            "--user",
            "--collect",
            "--quiet",
            "--",
            "xdg-open",
            "zed://x"
        ]
    );
}

#[test]
fn the_default_command_builds_the_expected_deep_link() {
    let built = DEFAULT_OPEN_CMD.replace("{session}", "abc-123");
    assert_eq!(built, "xdg-open zed://agent?session=abc-123");
}

// ---- further cases ----

#[test]
fn replacing_agrees_with_the_default_deep_link() {
    assert_eq!(
        replace_all(DEFAULT_OPEN_CMD, "{session}", "abc-123"),
        "xdg-open zed://agent?session=abc-123"
    );
    assert_eq!(replace_all("{a}{a}x{a", "{a}", "b"), "bbx{a");
    assert_eq!(replace_all("aaa", "aa", "b"), "ba");
    assert_eq!(replace_all("", "{cwd}", "x"), "");
}

#[test]
fn words_are_split_on_any_whitespace() {
    assert_eq!(
        split_words("  xdg-open\tzed://x \u{3000}last\n"),
        vec!["xdg-open", "zed://x", "last"]
    );
    assert!(split_words(" \t ").is_empty());
}

#[test]
fn the_default_opener_links_to_the_session() {
    let (program, args) =
        opener_command(DEFAULT_OPEN_CMD, "abc-123", "/home/user/p").expect("has a program");
    assert_eq!(program, "xdg-open");
    assert_eq!(args, vec!["zed://agent?session=abc-123"]);
}

/// A path is substituted inside one word and never split: no shell, no
/// injection.
#[test]
fn a_path_with_spaces_stays_one_argument() {
    let (program, args) =
        opener_command("zed {cwd}", "s", "/tmp/a b; rm -rf x").expect("has a program");
    assert_eq!(program, "zed");
    assert_eq!(args, vec!["/tmp/a b; rm -rf x"]);
}

#[test]
fn an_empty_opener_is_refused() {
    assert!(opener_command("   ", "s", "/tmp").is_none());
    assert!(opener_invocation("", "s", "/tmp", true).is_none());
}

#[test]
fn the_invocation_is_wrapped_under_systemd() {
    let (program, args) =
        opener_invocation("code --goto {cwd}", "s", "/p", true).expect("has a program");
    assert_eq!(program, "systemd-run");
    assert_eq!(
        args,
        vec!["--user", "--collect", "--quiet", "--", "code", "--goto", "/p"]
    );
    let (program, args) =
        opener_invocation("code --goto {cwd}", "s", "/p", false).expect("has a program");
    assert_eq!(program, "code");
    assert_eq!(args, vec!["--goto", "/p"]);
}

#[test]
fn only_open_and_default_actions_open_the_session() {
    assert!(zeo_systray::open::opens_session("open"));
    assert!(zeo_systray::open::opens_session("default"));
    assert!(!zeo_systray::open::opens_session("__closed"));
    assert!(!zeo_systray::open::opens_session("Open"));
}
