use agenticlaw::keys::{handle_key, handle_pending_key};
use agenticlaw::tui::{char_to_byte, word_backward, word_end, word_forward, App, KeyCode, KeyInput, VimMode};

fn key(code: KeyCode) -> KeyInput {
    KeyInput { code, ctrl: false, shift: false }
}

fn ch(c: char) -> KeyInput {
    key(KeyCode::Char(c))
}

#[test]
fn char_to_byte_ascii() {
    assert_eq!(char_to_byte("hello", 0), 0);
    assert_eq!(char_to_byte("hello", 3), 3);
    assert_eq!(char_to_byte("hello", 5), 5);
}

#[test]
fn char_to_byte_multibyte() {
    let s = "hi🦀bye";
    assert_eq!(char_to_byte(s, 0), 0);
    assert_eq!(char_to_byte(s, 2), 2);
    assert_eq!(char_to_byte(s, 3), 6);
}

#[test]
fn word_forward_basic() {
    let chars: Vec<char> = "hello world foo".chars().collect();
    assert_eq!(word_forward(&chars, 0), 6);
    assert_eq!(word_forward(&chars, 6), 12);
}

#[test]
fn word_forward_at_end() {
    let chars: Vec<char> = "hello".chars().collect();
    assert_eq!(word_forward(&chars, 4), 4);
}

#[test]
fn word_backward_basic() {
    let chars: Vec<char> = "hello world foo".chars().collect();
    assert_eq!(word_backward(&chars, 12), 6);
    assert_eq!(word_backward(&chars, 6), 0);
}

#[test]
fn word_backward_at_start() {
    let chars: Vec<char> = "hello".chars().collect();
    assert_eq!(word_backward(&chars, 0), 0);
}

#[test]
fn word_end_basic() {
    let chars: Vec<char> = "hello world foo".chars().collect();
    assert_eq!(word_end(&chars, 0), 4);
    assert_eq!(word_end(&chars, 4), 10);
}

#[test]
fn word_end_at_end() {
    let chars: Vec<char> = "hi".chars().collect();
    assert_eq!(word_end(&chars, 1), 1);
}

#[test]
fn app_clear_editor() {
    let mut app = App::new("test", "s1", "/tmp/test.ctx");
    app.editor_lines = vec!["hello".to_string(), "world".to_string()];
    app.cursor_row = 1;
    app.cursor_col = 3;
    app.clear_editor();
    assert_eq!(app.editor_lines, vec![""]);
    assert_eq!(app.cursor_row, 0);
    assert_eq!(app.cursor_col, 0);
}

#[test]
fn app_editor_text_multiline() {
    let mut app = App::new("test", "s1", "/tmp/test.ctx");
    app.editor_lines = vec!["line1".to_string(), "line2".to_string()];
    assert_eq!(app.editor_text(), "line1\nline2");
}

#[test]
fn app_push_output_newlines() {
    let mut app = App::new("test", "s1", "/tmp/test.ctx");
    app.push_output("hello\nworld\n");
    assert_eq!(app.output_lines, vec!["hello", "world", ""]);
}

#[test]
fn clamp_cursor_normal_mode() {
    let mut app = App::new("test", "s1", "/tmp/test.ctx");
    app.mode = VimMode::Normal;
    app.editor_lines = vec!["hi".to_string()];
    app.cursor_col = 5;
    app.clamp_cursor();
    assert_eq!(app.cursor_col, 1);
}

#[test]
fn clamp_cursor_insert_mode() {
    let mut app = App::new("test", "s1", "/tmp/test.ctx");
    app.mode = VimMode::Insert;
    app.editor_lines = vec!["hi".to_string()];
    app.cursor_col = 5;
    app.clamp_cursor();
    assert_eq!(app.cursor_col, 2);
}

#[test]
fn vim_mode_labels() {
    assert_eq!(VimMode::Normal.label(), "NORMAL");
    assert_eq!(VimMode::Insert.label(), "INSERT");
    assert_eq!(VimMode::Visual.label(), "VISUAL");
    assert_eq!(VimMode::VisualLine.label(), "V-LINE");
    assert_eq!(VimMode::Search.label(), "SEARCH");
}

#[test]
fn search_matches_case_insensitive() {
    let mut app = App::new("test", "s1", "/tmp/test.ctx");
    app.output_lines = vec!["Hello World".to_string(), "goodbye".to_string(), "HELLO again".to_string()];
    app.search_query = "hello".to_string();
    app.update_search_matches();
    assert_eq!(app.search_matches.len(), 2);
    assert_eq!(app.search_matches[0], (0, 0));
    assert_eq!(app.search_matches[1], (2, 0));
}

#[test]
fn search_no_matches() {
    let mut app = App::new("test", "s1", "/tmp/test.ctx");
    app.output_lines = vec!["hello".to_string()];
    app.search_query = "xyz".to_string();
    app.update_search_matches();
    assert!(app.search_matches.is_empty());
}

#[test]
fn delete_visual_single_line() {
    let mut app = App::new("test", "s1", "/tmp/test.ctx");
    app.mode = VimMode::Visual;
    app.editor_lines = vec!["hello world".to_string()];
    app.visual_anchor_row = 0;
    app.visual_anchor_col = 0;
    app.cursor_row = 0;
    app.cursor_col = 4;
    app.delete_visual_selection();
    assert_eq!(app.editor_lines[0], " world");
}

#[test]
fn delete_visual_line_mode() {
    let mut app = App::new("test", "s1", "/tmp/test.ctx");
    app.mode = VimMode::VisualLine;
    app.editor_lines = vec!["line1".to_string(), "line2".to_string(), "line3".to_string()];
    app.visual_anchor_row = 0;
    app.cursor_row = 1;
    app.delete_visual_selection();
    assert_eq!(app.editor_lines, vec!["line3"]);
}

#[test]
fn pending_key_gg_resets() {
    let mut app = App::new("test", "s1", "/tmp/test.ctx");
    app.cursor_row = 2;
    app.editor_lines = vec!["a".to_string(), "b".to_string(), "c".to_string()];
    app.output_scroll = 50;
    app.pending_key = Some('g');
    let result = handle_pending_key(&mut app, 'g', ch('g'));
    assert!(result.is_none());
    assert_eq!(app.cursor_row, 0);
    assert_eq!(app.output_scroll, 0);
}

#[test]
fn pending_key_dd_deletes_line() {
    let mut app = App::new("test", "s1", "/tmp/test.ctx");
    app.editor_lines = vec!["a".to_string(), "b".to_string(), "c".to_string()];
    app.cursor_row = 1;
    app.pending_key = Some('d');
    handle_pending_key(&mut app, 'd', ch('d'));
    assert_eq!(app.editor_lines, vec!["a", "c"]);
}

#[test]
fn pending_key_unknown_is_noop() {
    let mut app = App::new("test", "s1", "/tmp/test.ctx");
    app.editor_lines = vec!["hello".to_string()];
    let result = handle_pending_key(&mut app, 'z', ch('z'));
    assert!(result.is_none());
    assert_eq!(app.editor_lines, vec!["hello"]);
}

#[test]
fn typing_then_enter_sends_the_text() {
    let mut app = App::new("m", "s", "/tmp/x.ctx");
    assert!(handle_key(&mut app, ch('i')).is_none());
    for c in "hi there".chars() {
        assert!(handle_key(&mut app, ch(c)).is_none());
    }
    assert_eq!(app.editor_lines, vec!["hi there"]);
    assert!(handle_key(&mut app, key(KeyCode::Esc)).is_none());
    assert_eq!(app.mode, VimMode::Normal);
    assert_eq!(app.cursor_col, 7);
    let sent = handle_key(&mut app, key(KeyCode::Enter));
    assert_eq!(sent.as_deref(), Some("hi there"));
    assert_eq!(app.editor_lines, vec![""]);
    assert_eq!(app.output_lines, vec!["> hi there", "", ""]);
    assert_eq!(app.output_scroll, 3);
}

#[test]
fn enter_sends_nothing_while_agent_runs_or_text_is_blank() {
    let mut app = App::new("m", "s", "/tmp/x.ctx");
    app.editor_lines = vec!["   ".to_string()];
    assert!(handle_key(&mut app, key(KeyCode::Enter)).is_none());
    app.editor_lines = vec!["hello".to_string()];
    app.agent_running = true;
    assert!(handle_key(&mut app, key(KeyCode::Enter)).is_none());
    assert_eq!(app.editor_lines, vec!["hello"]);
}

#[test]
fn insert_enter_splits_and_backspace_joins() {
    let mut app = App::new("m", "s", "/tmp/x.ctx");
    app.mode = VimMode::Insert;
    app.editor_lines = vec!["abcd".to_string()];
    app.cursor_col = 2;
    handle_key(&mut app, key(KeyCode::Enter));
    assert_eq!(app.editor_lines, vec!["ab", "cd"]);
    assert_eq!((app.cursor_row, app.cursor_col), (1, 0));
    handle_key(&mut app, key(KeyCode::Backspace));
    assert_eq!(app.editor_lines, vec!["abcd"]);
    assert_eq!((app.cursor_row, app.cursor_col), (0, 2));
    handle_key(&mut app, key(KeyCode::Backspace));
    assert_eq!(app.editor_lines, vec!["acd"]);
    assert_eq!(app.cursor_col, 1);
}

#[test]
fn normal_mode_commands() {
    let mut app = App::new("m", "s", "/tmp/x.ctx");
    app.editor_lines = vec!["  hello world".to_string(), "".to_string(), "end".to_string()];
    handle_key(&mut app, ch('^'));
    assert_eq!(app.cursor_col, 2);
    handle_key(&mut app, ch('x'));
    assert_eq!(app.editor_lines[0], "  ello world");
    handle_key(&mut app, ch('$'));
    assert_eq!(app.cursor_col, 11);
    handle_key(&mut app, ch('}'));
    assert_eq!((app.cursor_row, app.cursor_col), (1, 0));
    handle_key(&mut app, ch('G'));
    assert_eq!(app.cursor_row, 2);
    handle_key(&mut app, ch('o'));
    assert_eq!(app.mode, VimMode::Insert);
    assert_eq!(app.editor_lines, vec!["  ello world", "", "end", ""]);
    assert_eq!(app.cursor_row, 3);
}

#[test]
fn ctrl_keys_quit_toggle_logs_and_vim() {
    let mut app = App::new("m", "s", "/tmp/x.ctx");
    handle_key(&mut app, KeyInput { code: KeyCode::Char('l'), ctrl: true, shift: false });
    assert!(app.show_logs);
    handle_key(&mut app, KeyInput { code: KeyCode::Char('V'), ctrl: true, shift: true });
    assert!(!app.vim_enabled);
    assert_eq!(app.mode, VimMode::Insert);
    handle_key(&mut app, ch('q'));
    assert_eq!(app.editor_lines, vec!["q"]);
    let sent = handle_key(&mut app, KeyInput { code: KeyCode::Enter, ctrl: false, shift: true });
    assert!(sent.is_none());
    assert_eq!(app.editor_lines, vec!["q", ""]);
    handle_key(&mut app, KeyInput { code: KeyCode::Char('c'), ctrl: true, shift: false });
    assert!(app.should_quit);
}

#[test]
fn search_then_next_match_scrolls() {
    let mut app = App::new("m", "s", "/tmp/x.ctx");
    app.output_lines = vec!["alpha".to_string(), "beta".to_string(), "Alpha two".to_string()];
    app.output_scroll = 1;
    handle_key(&mut app, ch('/'));
    assert_eq!(app.mode, VimMode::Search);
    for c in "alp".chars() {
        handle_key(&mut app, ch(c));
    }
    handle_key(&mut app, key(KeyCode::Enter));
    assert_eq!(app.mode, VimMode::Normal);
    assert_eq!(app.search_matches, vec![(0, 0), (2, 0)]);
    assert_eq!(app.output_scroll, 3);
    handle_key(&mut app, ch('n'));
    assert_eq!(app.output_scroll, 1);
}

#[test]
fn visual_delete_across_lines() {
    let mut app = App::new("m", "s", "/tmp/x.ctx");
    app.editor_lines = vec!["abc".to_string(), "def".to_string()];
    app.cursor_col = 1;
    handle_key(&mut app, ch('v'));
    handle_key(&mut app, ch('j'));
    handle_key(&mut app, ch('d'));
    assert_eq!(app.mode, VimMode::Normal);
    assert_eq!(app.editor_lines, vec!["af"]);
    assert_eq!((app.cursor_row, app.cursor_col), (0, 1));
}
