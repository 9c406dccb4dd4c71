use termsim::line_buffer::{BufferLine, LineType};

fn wrapped(content: &str, width: usize) -> Vec<String> {
    let mut line = BufferLine::new(content.to_string(), LineType::Normal, None);
    line.calculate_wrapping(width);
    line.wrapped_lines
}

#[test]
fn short_line_is_kept_whole() {
    assert_eq!(wrapped("hello", 80), vec!["hello".to_string()]);
}

#[test]
fn empty_content_is_one_empty_segment() {
    assert_eq!(wrapped("", 10), vec!["".to_string()]);
}

#[test]
fn exact_width_is_not_broken() {
    assert_eq!(wrapped("abcde", 5), vec!["abcde".to_string()]);
}

#[test]
fn breaks_at_last_space_and_consumes_it() {
    assert_eq!(wrapped("hello world", 8), vec!["hello".to_string(), "world".to_string()]);
}

#[test]
fn hard_breaks_without_space() {
    assert_eq!(
        wrapped("abcdefghij", 4),
        vec!["abcd".to_string(), "efgh".to_string(), "ij".to_string()]
    );
}

#[test]
fn wrap_counts_characters_not_bytes() {
    // four two-byte characters fit a width of four
    assert_eq!(wrapped("\u{e4}\u{f6}\u{fc}\u{df}", 4), vec!["\u{e4}\u{f6}\u{fc}\u{df}".to_string()]);
    assert_eq!(
        wrapped("\u{e4}\u{f6}\u{fc}\u{df}\u{e4}", 4),
        vec!["\u{e4}\u{f6}\u{fc}\u{df}".to_string(), "\u{e4}".to_string()]
    );
}

#[test]
fn space_at_window_start_gives_empty_segment() {
    // the window holds only the space: the segment before it is empty
    assert_eq!(wrapped(" abc", 1), vec!["".to_string(), "a".to_string(), "b".to_string(), "c".to_string()]);
}

#[test]
fn every_segment_fits_the_width() {
    let text = "the quick brown fox jumps over the lazy dog";
    for width in 1..12 {
        for seg in wrapped(text, width) {
            assert!(seg.chars().count() <= width, "width {}: segment {:?}", width, seg);
        }
    }
}

#[test]
fn round_trip_restores_content_minus_break_spaces() {
    let text = "the quick brown fox jumps over the lazy dog";
    for width in 1..20 {
        let segs = wrapped(text, width);
        // walk the content, matching each segment and an optional consumed space
        let chars: Vec<char> = text.chars().collect();
        let mut pos = 0;
        for (i, seg) in segs.iter().enumerate() {
            let seg_chars: Vec<char> = seg.chars().collect();
            assert_eq!(&chars[pos..pos + seg_chars.len()], &seg_chars[..]);
            pos += seg_chars.len();
            if i + 1 < segs.len() && pos < chars.len() && chars[pos] == ' ' {
                // a consumed breaking space may sit at the seam
                let next: Vec<char> = segs[i + 1].chars().collect();
                if chars[pos..].len() < next.len() || chars[pos..pos + next.len()] != next[..] {
                    pos += 1;
                }
            }
        }
        assert_eq!(pos, chars.len(), "width {}", width);
    }
}

#[test]
fn visual_line_count_is_segment_count() {
    let mut line = BufferLine::new("hello world".to_string(), LineType::Output, None);
    line.calculate_wrapping(8);
    assert_eq!(line.visual_line_count(), 2);
    let fresh = BufferLine::new("x".to_string(), LineType::Output, None);
    assert_eq!(fresh.visual_line_count(), 1);
}
