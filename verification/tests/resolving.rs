use pieshell::messages::{
    invalid_path_line, not_found_line, resolve_error_line, shell_name, spawn_error_line,
};
use pieshell::parse::{parse_line, split_chars, trim_line, ParseOutcome};
use pieshell::prompt::{build_prompt, display_path};
use pieshell::resolve::{
    find_in_dir, has_path_separator, resolve_explicit, resolve_in_path, split_search_path,
    DirEntry, DirListing, ResolveError,
};

fn chars(s: &str) -> Vec<char> {
    s.chars().collect()
}

fn string(v: &[char]) -> String {
    v.iter().collect()
}

fn entry(name: &str, is_file: bool) -> DirEntry {
    DirEntry { name: chars(name), is_file }
}

fn listing(dir: &str, entries: Option<Vec<DirEntry>>) -> DirListing {
    DirListing { dir: chars(dir), entries }
}

#[test]
fn parses_program_and_arguments() {
    match parse_line(&chars("ls -la")) {
        ParseOutcome::Command { program, args } => {
            assert_eq!(program, chars("ls"));
            assert_eq!(args, vec![chars("-la")]);
        }
        other => panic!("expected a command, got {:?}", other),
    }
}

#[test]
fn surrounding_blanks_are_trimmed() {
    match parse_line(&chars("  ls -la \n")) {
        ParseOutcome::Command { program, args } => {
            assert_eq!(program, chars("ls"));
            assert_eq!(args, vec![chars("-la")]);
        }
        other => panic!("expected a command, got {:?}", other),
    }
}

#[test]
fn consecutive_spaces_keep_empty_tokens() {
    match parse_line(&chars("ls  -la")) {
        ParseOutcome::Command { program, args } => {
            assert_eq!(program, chars("ls"));
            assert_eq!(args, vec![chars(""), chars("-la")]);
        }
        other => panic!("expected a command, got {:?}", other),
    }
}

#[test]
fn empty_line_is_no_command() {
    assert!(matches!(parse_line(&chars("")), ParseOutcome::NoCommand));
}

#[test]
fn blank_line_is_no_command() {
    assert!(matches!(parse_line(&chars("   \t ")), ParseOutcome::NoCommand));
}

#[test]
fn end_of_transmission_ends_session() {
    assert!(matches!(parse_line(&chars("\u{4}")), ParseOutcome::EndSession));
}

#[test]
fn trimming_removes_blanks_on_both_ends() {
    assert_eq!(trim_line(&chars(" \t pwd \r\n")), chars("pwd"));
    assert_eq!(trim_line(&chars("pwd")), chars("pwd"));
    assert_eq!(trim_line(&chars("  ")), chars(""));
}

#[test]
fn splitting_keeps_empty_tokens() {
    let parts = split_chars(&chars("a::b:"), ':');
    assert_eq!(parts, vec![chars("a"), chars(""), chars("b"), chars("")]);
}

#[test]
fn separator_detection_matches_slashes() {
    assert!(has_path_separator(&chars("./script")));
    assert!(has_path_separator(&chars("/bin/ls")));
    assert!(!has_path_separator(&chars("ls")));
}

#[test]
fn search_path_splits_on_colons() {
    let dirs = split_search_path(&chars("/bin:/usr/bin"));
    assert_eq!(dirs, vec![chars("/bin"), chars("/usr/bin")]);
}

#[test]
fn first_matching_directory_wins() {
    let listings = vec![
        listing("/bin", Some(vec![entry("cat", true), entry("ls", true)])),
        listing("/usr/bin", Some(vec![entry("vi", true)])),
    ];
    let path = resolve_in_path(&chars("ls"), &listings).unwrap();
    assert_eq!(string(&path), "/bin/ls");
}

#[test]
fn resolution_of_typed_line_yields_path_and_arguments() {
    let (program, args) = match parse_line(&chars("ls -la")) {
        ParseOutcome::Command { program, args } => (program, args),
        other => panic!("expected a command, got {:?}", other),
    };
    let listings = vec![
        listing("/bin", Some(vec![entry("ls", true)])),
        listing("/usr/bin", Some(vec![entry("true", true)])),
    ];
    let path = resolve_in_path(&program, &listings).unwrap();
    assert_eq!(string(&path), "/bin/ls");
    assert_eq!(args, vec![chars("-la")]);
}

#[test]
fn unreadable_directories_are_skipped() {
    let listings = vec![
        listing("/gone", None),
        listing("/bin", Some(vec![entry("ls", true)])),
    ];
    let path = resolve_in_path(&chars("ls"), &listings).unwrap();
    assert_eq!(string(&path), "/bin/ls");
}

#[test]
fn non_file_entries_do_not_match() {
    let listings = vec![listing("/bin", Some(vec![entry("ls", false)]))];
    match resolve_in_path(&chars("ls"), &listings) {
        Err(ResolveError::NotFound(name)) => assert_eq!(name, chars("ls")),
        other => panic!("expected not-found, got {:?}", other),
    }
}

#[test]
fn unknown_command_is_not_found() {
    let listings = vec![
        listing("/bin", Some(vec![entry("ls", true)])),
        listing("/usr/bin", Some(vec![entry("vi", true)])),
    ];
    match resolve_in_path(&chars("totally-unknown-cmd"), &listings) {
        Err(ResolveError::NotFound(name)) => {
            assert_eq!(string(&name), "totally-unknown-cmd");
            let line = not_found_line(&name);
            assert_eq!(string(&line), "totally-unknown-cmd: command not found");
        }
        other => panic!("expected not-found, got {:?}", other),
    }
}

#[test]
fn missing_explicit_path_is_invalid_input() {
    match resolve_explicit(&chars("./missing-script"), false) {
        Err(ResolveError::InvalidPath(path)) => {
            assert_eq!(string(&path), "./missing-script");
            let line = invalid_path_line(&path);
            assert_eq!(string(&line), "pieshell: ./missing-script: No such file or directory");
        }
        other => panic!("expected invalid-path, got {:?}", other),
    }
}

#[test]
fn existing_explicit_path_resolves_to_itself() {
    let r = resolve_explicit(&chars("./run.sh"), true).unwrap();
    assert_eq!(string(&r), "./run.sh");
}

#[test]
fn directory_entry_search_joins_paths() {
    let entries = vec![entry("ls", true)];
    let found = find_in_dir(&chars("/bin/"), &entries, &chars("ls")).unwrap();
    assert_eq!(string(&found), "/bin/ls");
    assert!(find_in_dir(&chars("/bin"), &entries, &chars("cat")).is_none());
}

#[test]
fn error_lines_follow_the_taxonomy() {
    let invalid = ResolveError::InvalidPath(chars("./x"));
    assert_eq!(string(&resolve_error_line(&invalid)), "pieshell: ./x: No such file or directory");
    let missing = ResolveError::NotFound(chars("x"));
    assert_eq!(string(&resolve_error_line(&missing)), "x: command not found");
}

#[test]
fn spawn_errors_name_shell_program_and_detail() {
    let line = spawn_error_line(&chars("/bin/ls"), &chars("Permission denied"));
    assert_eq!(string(&line), "pieshell: /bin/ls: Permission denied");
    assert_eq!(string(&shell_name()), "pieshell");
}

#[test]
fn home_prefix_is_shortened_at_boundary() {
    let shown = display_path(&chars("/home/alice/project"), &chars("/home/alice"));
    assert_eq!(string(&shown), "~/project");
}

#[test]
fn partial_home_prefix_is_left_alone() {
    let shown = display_path(&chars("/home/alice2/project"), &chars("/home/alice"));
    assert_eq!(string(&shown), "/home/alice2/project");
}

#[test]
fn home_itself_is_shown_as_tilde() {
    let shown = display_path(&chars("/home/alice"), &chars("/home/alice"));
    assert_eq!(string(&shown), "~");
}

#[test]
fn empty_home_changes_nothing() {
    let shown = display_path(&chars("/srv"), &chars(""));
    assert_eq!(string(&shown), "/srv");
}

#[test]
fn prompt_has_user_host_and_directory() {
    let prompt = build_prompt(
        &chars("alice"),
        &chars("raspberrypi"),
        &chars("/home/alice/work"),
        &chars("/home/alice"),
    );
    assert_eq!(string(&prompt), "alice@raspberrypi:~/work$ ");
}

#[test]
fn prompt_outside_home_shows_full_path() {
    let prompt = build_prompt(&chars("root"), &chars("pi"), &chars("/etc"), &chars("/root"));
    assert_eq!(string(&prompt), "root@pi:/etc$ ");
}
