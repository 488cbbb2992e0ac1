use snsx::console::{command_prompt_prefix, place_input_line, CommandConsole, ConsoleAction, Key, KeyPress};
use snsx::editor::{panel_title, LogBuffer, TextBuffer};
use snsx::paths::{display_workspace_path, resolve_workspace_input, vendored_module_path, workspace_path, WorkspacePath};
use snsx::studio::OutputTab;

fn key(code: Key) -> KeyPress {
    KeyPress { code, control: false }
}

fn path(parts: &[&str]) -> WorkspacePath {
    WorkspacePath { absolute: true, parts: parts.iter().map(|p| p.to_string()).collect() }
}

#[test]
fn backspace_undoes_typing_in_the_editor() {
    let mut b = TextBuffer::from_text("ab\ncd");
    b.move_right();
    b.insert_char('x');
    assert_eq!(b.to_text(), "axb\ncd");
    assert_eq!(b.cursor(), (2, 0));
    assert!(b.backspace());
    assert_eq!(b.to_text(), "ab\ncd");
    assert_eq!(b.cursor(), (1, 0));
}

#[test]
fn backspace_joins_lines_after_a_newline() {
    let mut b = TextBuffer::from_text("abcd");
    b.move_right();
    b.move_right();
    b.insert_newline();
    assert_eq!(b.to_text(), "ab\ncd");
    assert_eq!(b.cursor(), (0, 1));
    assert!(b.backspace());
    assert_eq!(b.to_text(), "abcd");
    assert_eq!(b.cursor(), (2, 0));
}

#[test]
fn left_and_right_undo_each_other() {
    let mut b = TextBuffer::from_text("ab\ncd");
    b.move_down();
    b.move_right();
    let at = b.cursor();
    b.move_left();
    b.move_right();
    assert_eq!(b.cursor(), at);
    b.move_home();
    b.move_left();
    assert_eq!(b.cursor(), (2, 0));
    b.move_right();
    assert_eq!(b.cursor(), (0, 1));
}

#[test]
fn editor_text_round_trips_through_lines() {
    let b = TextBuffer::from_text("one\ntwo\r\nthree");
    assert_eq!(b.lines(), &vec!["one".to_string(), "two".to_string(), "three".to_string()]);
    assert_eq!(b.to_text(), "one\ntwo\nthree");
    let e = TextBuffer::from_text("");
    assert_eq!(e.lines(), &vec![String::new()]);
    let mut d = TextBuffer::from_text("ab");
    d.move_end();
    assert!(!d.delete_forward());
    d.move_home();
    assert!(d.delete_forward());
    assert_eq!(d.to_text(), "b");
}

#[test]
fn panel_titles_mark_the_active_panel() {
    assert_eq!(panel_title("Run", true), "[Run]");
    assert_eq!(panel_title("Run", false), "Run");
}

#[test]
fn log_buffer_scrolls() {
    let mut log = LogBuffer::with_lines(vec!["a".to_string(), "b".to_string()]);
    log.append_text("c\nd");
    assert_eq!(log.lines(), &vec!["a", "b", "c", "d"].iter().map(|s| s.to_string()).collect::<Vec<_>>());
    log.clear("cleared");
    assert_eq!(log.lines(), &vec!["cleared".to_string()]);
}

#[test]
fn console_backspace_undoes_typing() {
    let mut c = CommandConsole::new();
    assert_eq!(c.handle_command_key(key(Key::Char('l'))), ConsoleAction::Nothing);
    assert_eq!(c.handle_command_key(key(Key::Char('s'))), ConsoleAction::Nothing);
    assert_eq!(c.input(), "ls");
    c.handle_command_key(key(Key::Char('x')));
    c.handle_command_key(key(Key::Backspace));
    assert_eq!(c.input(), "ls");
    assert_eq!(c.cursor(), 2);
}

#[test]
fn console_history_recalls_the_last_command() {
    let mut c = CommandConsole::new();
    for ch in "tree".chars() {
        c.handle_command_key(key(Key::Char(ch)));
    }
    assert_eq!(c.handle_command_key(key(Key::Enter)), ConsoleAction::Execute);
    assert_eq!(c.take_command(), Some("tree".to_string()));
    assert_eq!(c.input(), "");
    c.command_history_previous();
    assert_eq!(c.input(), "tree");
    assert_eq!(c.cursor(), 4);
    c.command_history_next();
    assert_eq!(c.input(), "");
}

#[test]
fn console_blank_commands_are_dropped() {
    let mut c = CommandConsole::new();
    c.prime_command("   ");
    assert_eq!(c.take_command(), None);
    c.prime_command("  run  ");
    assert_eq!(c.take_command(), Some("run".to_string()));
}

#[test]
fn console_input_sessions() {
    let mut c = CommandConsole::new();
    c.enter_run_session(3, "pre");
    assert_eq!(c.session(), Some(3));
    assert_eq!(command_prompt_prefix(c.session()), "in4> ");
    assert_eq!(command_prompt_prefix(None), "> ");
    let ctrl_c = KeyPress { code: Key::Char('c'), control: true };
    assert_eq!(c.handle_command_key(ctrl_c), ConsoleAction::Cancelled);
    assert_eq!(c.session(), None);
    c.enter_run_session(1, "abc");
    assert_eq!(c.take_session_input(), Some((1, "abc".to_string())));
    let lines = place_input_line(vec!["a".to_string()], 2, "x".to_string());
    assert_eq!(lines, vec!["a", "", "x"]);
}

#[test]
fn output_tabs_cycle() {
    let t = OutputTab::Run;
    assert_eq!(t.next().next().next().next(), t);
    assert_eq!(t.next().previous(), t);
    assert_eq!(OutputTab::Security.title(), "Security");
}

#[test]
fn typed_paths_stay_inside_the_workspace() {
    let root = path(&["w"]);
    let base = path(&["w", "src"]);
    let r = resolve_workspace_input(&root, &base, "lib/./a.snsx").unwrap();
    assert_eq!(r.parts, vec!["w", "src", "lib", "a.snsx"]);
    assert_eq!(workspace_path(&root, &r), "src/lib/a.snsx");
    assert_eq!(resolve_workspace_input(&root, &base, " . ").unwrap().parts, vec!["w"]);
    assert_eq!(resolve_workspace_input(&root, &base, "  ").unwrap_err().message(), "path cannot be empty");
    assert_eq!(
        resolve_workspace_input(&root, &base, "../x").unwrap_err().message(),
        "parent directory segments are not allowed"
    );
    assert_eq!(
        resolve_workspace_input(&root, &base, "/etc/passwd").unwrap_err().message(),
        "absolute paths are not allowed inside the SNSX workspace"
    );
    let outside = path(&["other"]);
    assert_eq!(
        resolve_workspace_input(&root, &outside, "x").unwrap_err().message(),
        "path must stay inside the current workspace"
    );
}

#[test]
fn shown_paths() {
    let root = path(&["w"]);
    assert_eq!(display_workspace_path(&root, &root), ".");
    assert_eq!(display_workspace_path(&root, &path(&["x", "y"])), "/x/y");
    let v = vendored_module_path(&root, "std.sentinel");
    assert_eq!(v.parts, vec!["w", "vendor", "modules", "std", "sentinel.snsx"]);
}

#[test]
fn workspace_relative_paths_are_shown_as_typed() {
    let root = path(&["home", "w"]);
    for typed in ["a.snsx", "src/lib/util.snsx", "notes/2024/x.y"] {
        let p = resolve_workspace_input(&root, &root, typed).unwrap();
        assert_eq!(workspace_path(&root, &p), typed);
    }
    assert_eq!(workspace_path(&root, &root), ".");
    let spaced = resolve_workspace_input(&root, &root, "  src//./a  ").unwrap();
    assert_eq!(workspace_path(&root, &spaced), "src/a");
}
