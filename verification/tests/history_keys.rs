use termsim::input::history::CommandHistory;
use termsim::input::keys::{
    apply_completion, find_common_prefix, format_candidates, handle_key, split_completion,
    CompletionResult, Key, KeyAction, TabOutcome,
};
use termsim::line_buffer::{InputMode, TerminalState};

fn stored(h: &CommandHistory) -> Vec<String> {
    h.commands.iter().cloned().collect()
}

#[test]
fn history_dedupes_and_keeps_order() {
    let mut h = CommandHistory::new(50);
    h.add("ls".to_string());
    h.add("pwd".to_string());
    h.add("ls".to_string());
    assert_eq!(stored(&h), vec!["pwd".to_string(), "ls".to_string()]);
    assert_eq!(h.previous(), Some("ls".to_string()));
    assert_eq!(h.previous(), Some("pwd".to_string()));
    assert_eq!(h.previous(), Some("pwd".to_string()));
}

#[test]
fn history_trims_and_ignores_blank() {
    let mut h = CommandHistory::new(50);
    h.add("  ls  ".to_string());
    h.add("   ".to_string());
    h.add("".to_string());
    assert_eq!(stored(&h), vec!["ls".to_string()]);
}

#[test]
fn history_evicts_oldest_beyond_bound() {
    let mut h = CommandHistory::new(2);
    h.add("a".to_string());
    h.add("b".to_string());
    h.add("c".to_string());
    assert_eq!(stored(&h), vec!["b".to_string(), "c".to_string()]);
}

#[test]
fn history_next_steps_back_to_blank() {
    let mut h = CommandHistory::new(50);
    h.add("a".to_string());
    h.add("b".to_string());
    assert_eq!(h.next(), None); // nothing selected yet
    assert_eq!(h.previous(), Some("b".to_string()));
    assert_eq!(h.previous(), Some("a".to_string()));
    assert_eq!(h.next(), Some("b".to_string()));
    assert_eq!(h.next(), Some("".to_string())); // past the most recent
    assert_eq!(h.next(), None);
}

#[test]
fn history_empty_previous_is_none() {
    let mut h = CommandHistory::new(50);
    assert_eq!(h.previous(), None);
}

#[test]
fn adding_resets_navigation() {
    let mut h = CommandHistory::new(50);
    h.add("a".to_string());
    assert_eq!(h.previous(), Some("a".to_string()));
    h.add("b".to_string());
    assert_eq!(h.previous(), Some("b".to_string()));
}

fn normal_state() -> TerminalState {
    TerminalState::default()
}

#[test]
fn characters_insert_at_cursor() {
    let mut st = normal_state();
    let mut h = CommandHistory::new(50);
    for c in "lx".chars() {
        assert!(matches!(handle_key(&mut st, &mut h, Key::Character(c)), KeyAction::Edited));
    }
    assert_eq!(st.current_input, "lx");
    assert_eq!(st.cursor_position, 2);
    assert!(matches!(handle_key(&mut st, &mut h, Key::Backspace), KeyAction::Edited));
    assert_eq!(st.current_input, "l");
    assert!(matches!(handle_key(&mut st, &mut h, Key::Character('s')), KeyAction::Edited));
    assert_eq!(st.current_input, "ls");
    // move nowhere: backspace at position zero is ignored
    st.cursor_position = 0;
    assert!(matches!(handle_key(&mut st, &mut h, Key::Backspace), KeyAction::NoAction));
    // insert in the middle
    st.cursor_position = 1;
    handle_key(&mut st, &mut h, Key::Character('a'));
    assert_eq!(st.current_input, "las");
    assert_eq!(st.cursor_position, 2);
}

#[test]
fn enter_submits_trimmed_and_processes() {
    let mut st = normal_state();
    let mut h = CommandHistory::new(50);
    st.current_input = "  ls  ".to_string();
    st.cursor_position = 6;
    match handle_key(&mut st, &mut h, Key::Enter) {
        KeyAction::Submit(cmd) => assert_eq!(cmd, "ls"),
        _ => panic!("expected a submission"),
    }
    assert_eq!(st.current_input, "");
    assert_eq!(st.cursor_position, 0);
    assert_eq!(st.input_mode, InputMode::Processing);
    assert_eq!(stored(&h), vec!["ls".to_string()]);
}

#[test]
fn enter_on_blank_submits_empty_without_recording() {
    let mut st = normal_state();
    let mut h = CommandHistory::new(50);
    st.current_input = "   ".to_string();
    st.cursor_position = 3;
    match handle_key(&mut st, &mut h, Key::Enter) {
        KeyAction::Submit(cmd) => assert_eq!(cmd, ""),
        _ => panic!("expected a submission"),
    }
    assert!(stored(&h).is_empty());
}

#[test]
fn arrows_replay_history() {
    let mut st = normal_state();
    let mut h = CommandHistory::new(50);
    h.add("ls".to_string());
    h.add("pwd".to_string());
    assert!(matches!(handle_key(&mut st, &mut h, Key::ArrowUp), KeyAction::Edited));
    assert_eq!(st.current_input, "pwd");
    assert_eq!(st.cursor_position, 3);
    handle_key(&mut st, &mut h, Key::ArrowUp);
    assert_eq!(st.current_input, "ls");
    handle_key(&mut st, &mut h, Key::ArrowDown);
    assert_eq!(st.current_input, "pwd");
    handle_key(&mut st, &mut h, Key::ArrowDown);
    assert_eq!(st.current_input, "");
}

#[test]
fn disabled_mode_ignores_every_key() {
    let mut st = normal_state();
    st.input_mode = InputMode::Disabled;
    let mut h = CommandHistory::new(50);
    assert!(matches!(handle_key(&mut st, &mut h, Key::Character('x')), KeyAction::NoAction));
    assert!(matches!(handle_key(&mut st, &mut h, Key::Enter), KeyAction::NoAction));
    assert_eq!(st.current_input, "");
    st.input_mode = InputMode::Processing;
    assert!(matches!(handle_key(&mut st, &mut h, Key::Tab), KeyAction::NoAction));
}

#[test]
fn tab_requests_completion() {
    let mut st = normal_state();
    let mut h = CommandHistory::new(50);
    assert!(matches!(handle_key(&mut st, &mut h, Key::Tab), KeyAction::RequestCompletion));
}

#[test]
fn split_keeps_command_and_isolates_trailing_token() {
    let (prefix, target) = split_completion("cat pro");
    assert_eq!(prefix, "cat ");
    assert_eq!(target, "pro");
    let (prefix, target) = split_completion("he");
    assert_eq!(prefix, "");
    assert_eq!(target, "he");
    let (prefix, target) = split_completion("ls ~/pro");
    assert_eq!(prefix, "ls ");
    assert_eq!(target, "~/pro");
}

#[test]
fn single_completion_replaces_trailing_token() {
    match apply_completion("cat pro", CompletionResult::Single("projects/".to_string())) {
        TabOutcome::Replaced(s) => assert_eq!(s, "cat projects/"),
        _ => panic!("expected a replacement"),
    }
    match apply_completion("he", CompletionResult::Single("help".to_string())) {
        TabOutcome::Replaced(s) => assert_eq!(s, "help"),
        _ => panic!("expected a replacement"),
    }
}

#[test]
fn no_match_leaves_input_alone() {
    assert!(matches!(apply_completion("zzz", CompletionResult::NoMatch), TabOutcome::Unchanged));
}

#[test]
fn multiple_extend_to_longest_common_prefix() {
    let cands = vec!["commandbridge.md".to_string(), "commands.txt".to_string()];
    match apply_completion("cat com", CompletionResult::Multiple(cands)) {
        TabOutcome::Replaced(s) => assert_eq!(s, "cat command"),
        _ => panic!("expected a replacement"),
    }
}

#[test]
fn multiple_without_longer_prefix_show_candidates() {
    let cands = vec!["alpha".to_string(), "beta".to_string()];
    match apply_completion("x ", CompletionResult::Multiple(cands)) {
        TabOutcome::ShowCandidates(block) => assert_eq!(block, "alpha  beta"),
        _ => panic!("expected the candidate block"),
    }
}

#[test]
fn many_candidates_lay_out_in_four_columns() {
    let cands: Vec<String> = (0..11).map(|i| format!("c{}", i)).collect();
    let block = format_candidates(&cands);
    assert_eq!(block, "c0  c1  c2  c3\nc4  c5  c6  c7\nc8  c9  c10");
}

#[test]
fn common_prefix_of_candidates() {
    assert_eq!(find_common_prefix(&vec![]), None);
    assert_eq!(
        find_common_prefix(&vec!["help".to_string(), "hello".to_string(), "heap".to_string()]),
        Some("he".to_string())
    );
    assert_eq!(find_common_prefix(&vec!["solo".to_string()]), Some("solo".to_string()));
    assert_eq!(
        find_common_prefix(&vec!["ab".to_string(), "cd".to_string()]),
        Some("".to_string())
    );
}
