use termsim::line_buffer::{
    add_command_line, add_line, add_output_lines, auto_scroll_to_bottom, clear_buffer,
    get_terminal_state, get_visible_lines, reset_scroll, scroll_down, scroll_up,
    set_current_prompt, set_input_mode, set_terminal_dimensions, update_input_state, InputMode,
    LineBuffer, LineType,
};

fn contents(buf: &LineBuffer) -> Vec<String> {
    buf.get_all_lines().into_iter().map(|l| l.content).collect()
}

#[test]
fn buffer_bound_is_fifo() {
    let mut buf = LineBuffer::new();
    buf.max_lines = 3;
    for i in 0..5 {
        buf.add_line(format!("line {}", i), LineType::Output, None);
    }
    assert_eq!(buf.line_count(), 3);
    assert_eq!(
        contents(&buf),
        vec!["line 2".to_string(), "line 3".to_string(), "line 4".to_string()]
    );
}

#[test]
fn default_bound_is_one_thousand() {
    let mut buf = LineBuffer::new();
    for i in 0..1005 {
        buf.add_line(format!("{}", i), LineType::Output, None);
    }
    assert_eq!(buf.line_count(), 1000);
    assert_eq!(contents(&buf)[0], "5");
}

#[test]
fn timestamps_are_monotonic() {
    let mut buf = LineBuffer::new();
    for _ in 0..4 {
        buf.add_line("x".to_string(), LineType::Output, None);
    }
    let stamps: Vec<u64> = buf.get_all_lines().into_iter().map(|l| l.timestamp).collect();
    assert_eq!(stamps, vec![0, 1, 2, 3]);
}

#[test]
fn add_lines_splits_on_newlines_preserving_empties() {
    let mut buf = LineBuffer::new();
    buf.add_lines("a\n\nb\n", LineType::Output, None);
    assert_eq!(contents(&buf), vec!["a".to_string(), "".to_string(), "b".to_string()]);
}

#[test]
fn add_lines_of_empty_text_adds_nothing() {
    let mut buf = LineBuffer::new();
    buf.add_lines("", LineType::Output, None);
    assert_eq!(buf.line_count(), 0);
}

#[test]
fn add_command_concatenates_prompt_and_input() {
    let mut buf = LineBuffer::new();
    buf.add_command("objz@objz:~$ ", "ls");
    let lines = buf.get_all_lines();
    assert_eq!(lines.len(), 1);
    assert_eq!(lines[0].content, "objz@objz:~$ ls");
    assert_eq!(lines[0].line_type, LineType::Command);
    assert_eq!(lines[0].color.as_deref(), Some("cyan"));
}

#[test]
fn clear_empties_and_resets_scroll() {
    let mut buf = LineBuffer::new();
    for _ in 0..50 {
        buf.add_line("x".to_string(), LineType::Output, None);
    }
    buf.scroll_up(10);
    buf.clear();
    assert_eq!(buf.line_count(), 0);
    assert_eq!(buf.get_state().scroll_offset, 0);
}

#[test]
fn scroll_clamps_between_zero_and_max() {
    let mut buf = LineBuffer::new();
    // 40 single-row lines on a 25-row terminal: max scroll is 15
    for i in 0..40 {
        buf.add_line(format!("{}", i), LineType::Output, None);
    }
    assert_eq!(buf.visual_line_count(), 40);
    buf.scroll_up(1000);
    assert_eq!(buf.get_state().scroll_offset, 15);
    buf.scroll_down(3);
    assert_eq!(buf.get_state().scroll_offset, 12);
    buf.scroll_down(1000);
    assert_eq!(buf.get_state().scroll_offset, 0);
    buf.scroll_up(7);
    assert_eq!(buf.get_state().scroll_offset, 7);
}

#[test]
fn scroll_stays_in_range_through_random_walk() {
    let mut buf = LineBuffer::new();
    for i in 0..60 {
        buf.add_line(format!("{}", i), LineType::Output, None);
    }
    let max = 60 - buf.terminal_height;
    let mut seed: u64 = 11;
    for _ in 0..200 {
        seed = seed.wrapping_mul(6364136223846793005).wrapping_add(1442695040888963407);
        let n = (seed >> 33) as usize % 20;
        if seed % 2 == 0 {
            buf.scroll_up(n);
        } else {
            buf.scroll_down(n);
        }
        let off = buf.get_state().scroll_offset;
        assert!(off <= max, "offset {} exceeds {}", off, max);
    }
}

#[test]
fn should_auto_scroll_only_at_bottom() {
    let mut buf = LineBuffer::new();
    for i in 0..40 {
        buf.add_line(format!("{}", i), LineType::Output, None);
    }
    assert!(buf.should_auto_scroll());
    buf.scroll_up(2);
    assert!(!buf.should_auto_scroll());
    buf.auto_scroll_to_bottom();
    assert_eq!(buf.get_state().scroll_offset, 2);
    buf.reset_scroll();
    buf.auto_scroll_to_bottom();
    assert_eq!(buf.get_state().scroll_offset, 0);
}

#[test]
fn visible_window_takes_trailing_lines_whole() {
    let mut buf = LineBuffer::new();
    buf.set_dimensions(3, 25);
    buf.add_line("aaa".to_string(), LineType::Output, None); // 1 row
    buf.add_line("bb bb".to_string(), LineType::Output, None); // 2 rows
    buf.add_line("c".to_string(), LineType::Output, None); // 1 row
    // budget 3: the two newest lines fill it; the 2-row line fits
    let vis = buf.get_visible_lines(3);
    let texts: Vec<String> = vis.into_iter().map(|l| l.content).collect();
    assert_eq!(texts, vec!["bb bb".to_string(), "c".to_string()]);
    // budget 2: the newest line leaves one row, too little for the 2-row
    // line, which is excluded whole
    let vis = buf.get_visible_lines(2);
    let texts: Vec<String> = vis.into_iter().map(|l| l.content).collect();
    assert_eq!(texts, vec!["c".to_string()]);
}

#[test]
fn visible_window_never_splits_a_line() {
    let mut buf = LineBuffer::new();
    buf.set_dimensions(3, 25);
    buf.add_line("ab cd ef".to_string(), LineType::Output, None); // 3 rows
    let vis = buf.get_visible_lines(2);
    assert!(vis.is_empty());
    let vis = buf.get_visible_lines(3);
    assert_eq!(vis.len(), 1);
}

#[test]
fn scroll_offset_widens_the_window_budget() {
    let mut buf = LineBuffer::new();
    for i in 0..30 {
        buf.add_line(format!("{}", i), LineType::Output, None);
    }
    assert_eq!(buf.get_visible_lines(4).len(), 4);
    buf.scroll_up(3); // clamped to the 5 rows beyond the 25-row screen
    assert_eq!(buf.get_visible_lines(4).len(), 7);
}

#[test]
fn set_dimensions_rewraps_every_line() {
    let mut buf = LineBuffer::new();
    buf.add_line("hello world".to_string(), LineType::Output, None);
    assert_eq!(buf.get_all_lines()[0].wrapped_lines, vec!["hello world".to_string()]);
    buf.set_dimensions(8, 25);
    assert_eq!(
        buf.get_all_lines()[0].wrapped_lines,
        vec!["hello".to_string(), "world".to_string()]
    );
    buf.set_dimensions(80, 25);
    assert_eq!(buf.get_all_lines()[0].wrapped_lines, vec!["hello world".to_string()]);
}

#[test]
fn update_input_clamps_cursor() {
    let mut buf = LineBuffer::new();
    buf.update_input("abc".to_string(), 99);
    let st = buf.get_state();
    assert_eq!(st.current_input, "abc");
    assert_eq!(st.cursor_position, 3);
    buf.update_input("abc".to_string(), 1);
    assert_eq!(buf.get_state().cursor_position, 1);
}

#[test]
fn state_accessors_round_trip() {
    let mut buf = LineBuffer::new();
    buf.set_prompt("guest@host:~$ ".to_string());
    buf.set_input_mode(InputMode::Disabled);
    let st = buf.get_state();
    assert_eq!(st.prompt, "guest@host:~$ ");
    assert_eq!(st.input_mode, InputMode::Disabled);
    assert_eq!(buf.get_state().scroll_offset, 0);
}

#[test]
fn module_level_helpers_drive_one_buffer() {
    let mut buf = LineBuffer::new();
    set_terminal_dimensions(&mut buf, 8, 25);
    add_command_line(&mut buf, "p$ ", "echo hi");
    add_output_lines(&mut buf, "hi\nthere", None);
    add_line(&mut buf, "tail".to_string(), LineType::System, Some("red".to_string()));
    assert_eq!(
        contents(&buf),
        vec![
            "p$ echo hi".to_string(),
            "hi".to_string(),
            "there".to_string(),
            "tail".to_string()
        ]
    );
    update_input_state(&mut buf, "ls".to_string(), 2);
    set_current_prompt(&mut buf, "p$ ".to_string());
    set_input_mode(&mut buf, InputMode::Processing);
    let st = get_terminal_state(&buf);
    assert_eq!(st.current_input, "ls");
    assert_eq!(st.prompt, "p$ ");
    assert_eq!(st.input_mode, InputMode::Processing);
    scroll_up(&mut buf, 100);
    assert_eq!(get_terminal_state(&buf).scroll_offset, 0); // 5 rows < 25
    scroll_down(&mut buf, 1);
    reset_scroll(&mut buf);
    auto_scroll_to_bottom(&mut buf);
    assert_eq!(get_terminal_state(&buf).scroll_offset, 0);
    assert_eq!(get_visible_lines(&buf, 2).len(), 2);
    clear_buffer(&mut buf);
    assert_eq!(buf.line_count(), 0);
}
