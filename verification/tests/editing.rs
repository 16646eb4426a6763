use pieshell::editor::{collect_line, echo_text, Collected, EditStatus, LineEditor};

fn chars(s: &str) -> Vec<char> {
    s.chars().collect()
}

fn expect_line(input: &str) -> Vec<char> {
    match collect_line(&chars(input)) {
        Collected::Line(text) => text,
        other => panic!("expected a completed line, got {:?}", other),
    }
}

#[test]
fn plain_line_is_returned_without_terminator() {
    assert_eq!(expect_line("ls -la\n"), chars("ls -la"));
}

#[test]
fn carriage_return_completes_a_line() {
    assert_eq!(expect_line("pwd\r"), chars("pwd"));
}

#[test]
fn multibyte_characters_collect_verbatim() {
    assert_eq!(expect_line("héllo wörld\n"), chars("héllo wörld"));
}

#[test]
fn backspace_removes_last_character() {
    assert_eq!(expect_line("ab\u{7f}c\n"), chars("ac"));
}

#[test]
fn backspace_on_empty_line_is_no_op() {
    assert_eq!(expect_line("\u{7f}\u{7f}ok\n"), chars("ok"));
}

#[test]
fn backspace_undoes_each_append() {
    assert_eq!(expect_line("abc\u{7f}\u{7f}\u{7f}\n"), chars(""));
}

#[test]
fn interrupt_discards_collected_text() {
    assert_eq!(expect_line("rm -rf /\u{3}"), chars(""));
}

#[test]
fn interrupt_right_away_gives_empty_line() {
    assert_eq!(expect_line("\u{3}"), chars(""));
}

#[test]
fn end_of_transmission_requests_session_end() {
    assert!(matches!(collect_line(&chars("ab\u{4}")), Collected::Eot));
    assert!(matches!(collect_line(&chars("\u{4}")), Collected::Eot));
}

#[test]
fn exhausted_input_reports_partial_text() {
    match collect_line(&chars("par")) {
        Collected::Pending(text) => assert_eq!(text, chars("par")),
        other => panic!("expected pending text, got {:?}", other),
    }
}

#[test]
fn editor_steps_report_status() {
    let mut ed = LineEditor::new();
    assert_eq!(ed.apply('h'), EditStatus::Pending);
    assert_eq!(ed.apply('i'), EditStatus::Pending);
    assert_eq!(ed.apply('\u{7f}'), EditStatus::Pending);
    assert_eq!(ed.len(), 1);
    assert_eq!(ed.apply('\n'), EditStatus::Done);
    assert_eq!(ed.take_line(), chars("h"));
    assert_eq!(ed.len(), 0);
}

#[test]
fn editor_reports_end_of_transmission() {
    let mut ed = LineEditor::new();
    assert_eq!(ed.apply('x'), EditStatus::Pending);
    assert_eq!(ed.apply('\u{4}'), EditStatus::Eot);
}

#[test]
fn interrupt_clears_editor_text() {
    let mut ed = LineEditor::new();
    ed.apply('a');
    ed.apply('b');
    assert_eq!(ed.apply('\u{3}'), EditStatus::Done);
    assert_eq!(ed.take_line(), chars(""));
}

#[test]
fn echo_shows_interrupt_as_caret_c() {
    assert_eq!(echo_text('\u{3}'), chars("^C\r"));
}

#[test]
fn echo_shows_end_of_transmission_as_exit() {
    assert_eq!(echo_text('\u{4}'), chars("exit\r\r"));
}

#[test]
fn echo_passes_ordinary_characters_through() {
    assert_eq!(echo_text('q'), chars("q"));
    assert_eq!(echo_text('é'), chars("é"));
    assert_eq!(echo_text('\n'), chars("\n"));
}
