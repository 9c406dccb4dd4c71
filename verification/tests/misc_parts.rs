use termsim::animator::Animator;
use termsim::input::autoscroll::{
    add_line_to_buffer, add_simple_line, clear_terminal_buffer, get_available_input_lines,
    get_line_count, get_terminal_lines, should_autoscroll, trim_output, LineStore, LineType,
};
use termsim::text::{str_contains, str_eq, tokenize, trim, u64_to_dec};

#[test]
fn loading_bar_fills_one_cell_per_five_percent() {
    let a = Animator::new();
    assert_eq!(
        a.get_loading_bar(0),
        format!("[{}] 0%", "\u{2591}".repeat(20))
    );
    assert_eq!(
        a.get_loading_bar(100),
        format!("[{}] 100%", "\u{2588}".repeat(20))
    );
    let bar = a.get_loading_bar(42);
    assert_eq!(
        bar,
        format!("[{}{}] 42%", "\u{2588}".repeat(8), "\u{2591}".repeat(12))
    );
}

#[test]
fn line_store_is_bounded_and_fifo() {
    let mut store = LineStore::new();
    assert_eq!(store.max_lines, 25);
    assert_eq!(get_available_input_lines(&store), 2);
    for i in 0..30 {
        add_simple_line(&mut store, format!("{}", i), None);
    }
    assert_eq!(get_line_count(&store), 25);
    let lines = get_terminal_lines(&store);
    assert_eq!(lines[0].text, "5");
    assert_eq!(lines[24].text, "29");
    assert!(should_autoscroll(&store));
    clear_terminal_buffer(&mut store);
    assert_eq!(get_line_count(&store), 0);
    assert!(!should_autoscroll(&store));
}

#[test]
fn trim_output_derives_the_bound_from_the_canvas() {
    let mut store = LineStore::new();
    for i in 0..25 {
        add_line_to_buffer(&mut store, format!("{}", i), None, LineType::Boot);
    }
    // 240 pixels: (240 - 40) / 20 = 10 rows, minus 2 reserved = 8 visible
    trim_output(&mut store, 240);
    assert_eq!(store.max_lines, 8);
    assert_eq!(get_line_count(&store), 8);
    assert_eq!(get_terminal_lines(&store)[0].text, "17");
    // a tiny canvas still keeps one line
    trim_output(&mut store, 10);
    assert_eq!(store.max_lines, 1);
    assert_eq!(get_line_count(&store), 1);
    assert_eq!(get_terminal_lines(&store)[0].text, "24");
}

#[test]
fn text_utilities_behave_like_the_shell_grammar() {
    assert_eq!(trim("  a b \t"), "a b");
    assert_eq!(trim("   "), "");
    assert_eq!(tokenize("  ls   ~/projects "), vec!["ls".to_string(), "~/projects".to_string()]);
    assert_eq!(tokenize(""), Vec::<String>::new());
    assert!(str_eq("abc", "abc"));
    assert!(!str_eq("abc", "abd"));
    assert!(str_contains("my.hacker.org", "hacker"));
    assert!(!str_contains("example.com", "hacker"));
    assert!(str_contains("anything", ""));
    assert_eq!(u64_to_dec(0), "0");
    assert_eq!(u64_to_dec(90210), "90210");
    assert_eq!(u64_to_dec(u64::MAX), "18446744073709551615");
}
