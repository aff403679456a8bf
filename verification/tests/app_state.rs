use sermonizer::ui::scrollback::MAX_LINES;
use sermonizer::ui::AppState;

fn lines_of(state: &AppState) -> Vec<String> {
    state.output_lines().clone()
}

fn fed(chunks: &[&str]) -> AppState {
    let mut state = AppState::new();
    for chunk in chunks {
        state.add_output(chunk.to_string());
    }
    state
}

#[test]
fn new_state_is_empty_and_follows() {
    let state = AppState::new();
    assert_eq!(state.input_line(), "");
    assert!(state.output_lines().is_empty());
    assert_eq!(state.partial_line(), "");
    assert_eq!(state.selected(), None);
    assert_eq!(state.auto_selected(), None);
    assert_eq!(state.anchor(), None);
    assert!(!state.should_quit());
    assert!(state.auto_scroll());
    assert!(state.needs_render());
}

#[test]
fn complete_lines_are_committed() {
    let state = fed(&["one\ntwo\n"]);
    assert_eq!(lines_of(&state), vec!["one", "two"]);
    assert_eq!(state.partial_line(), "");
}

#[test]
fn text_without_line_feed_waits() {
    let mut state = AppState::new();
    state.mark_rendered();
    state.add_output("no newline yet".to_string());
    assert!(state.output_lines().is_empty());
    assert_eq!(state.partial_line(), "no newline yet");
    assert!(!state.needs_render());
    assert_eq!(state.anchor(), None);
}

#[test]
fn partial_line_persists_across_reads() {
    let mut state = AppState::new();
    state.add_output("hel".to_string());
    state.add_output("lo\nwor".to_string());
    assert_eq!(lines_of(&state), vec!["hello"]);
    assert_eq!(state.partial_line(), "wor");
    state.add_output("ld\n".to_string());
    assert_eq!(lines_of(&state), vec!["hello", "world"]);
    assert_eq!(state.partial_line(), "");
}

#[test]
fn one_trailing_carriage_return_is_stripped() {
    let state = fed(&["a\r\nb\r\r\nc\rd\n\r\n"]);
    assert_eq!(lines_of(&state), vec!["a", "b\r", "c\rd", ""]);
}

#[test]
fn a_second_carriage_return_stays() {
    let state = fed(&["a\r\r\n"]);
    assert_eq!(lines_of(&state), vec!["a\r"]);
    assert_eq!(state.partial_line(), "");
    let state = fed(&["\r\r\r\n\r\n\n"]);
    assert_eq!(lines_of(&state), vec!["\r\r", "", ""]);
}

#[test]
fn carriage_return_split_from_its_line_feed() {
    let state = fed(&["abc\r", "\ndef"]);
    assert_eq!(lines_of(&state), vec!["abc"]);
    assert_eq!(state.partial_line(), "def");
}

#[test]
fn empty_lines_are_kept() {
    let state = fed(&["\n\nx\n"]);
    assert_eq!(lines_of(&state), vec!["", "", "x"]);
}

#[test]
fn empty_data_changes_nothing() {
    let mut state = fed(&["a\nb"]);
    state.mark_rendered();
    state.add_output(String::new());
    assert_eq!(lines_of(&state), vec!["a"]);
    assert_eq!(state.partial_line(), "b");
    assert!(!state.needs_render());
}

#[test]
fn chunking_is_transparent() {
    let text = "alpha\r\nbeta\n\ngamma\r\r\ndelta\nrest";
    let whole = fed(&[text]);
    let chars: Vec<char> = text.chars().collect();
    for cut in 0..=chars.len() {
        let head: String = chars[..cut].iter().collect();
        let tail: String = chars[cut..].iter().collect();
        let halves = fed(&[&head, &tail]);
        assert_eq!(lines_of(&halves), lines_of(&whole));
        assert_eq!(halves.partial_line(), whole.partial_line());
    }
    let mut single = AppState::new();
    for c in &chars {
        single.add_output(c.to_string());
    }
    assert_eq!(lines_of(&single), lines_of(&whole));
    assert_eq!(single.partial_line(), whole.partial_line());
    assert_eq!(lines_of(&whole), vec!["alpha", "beta", "", "gamma\r", "delta"]);
    assert_eq!(whole.partial_line(), "rest");
}

#[test]
fn scrollback_keeps_the_newest_thousand() {
    let mut state = AppState::new();
    for i in 1..=1050 {
        state.add_output(format!("line {}\n", i));
        assert!(state.output_lines().len() <= MAX_LINES);
    }
    let lines = lines_of(&state);
    assert_eq!(lines.len(), 1000);
    for (k, line) in lines.iter().enumerate() {
        assert_eq!(line, &format!("line {}", k + 51));
    }
    assert_eq!(lines[0], "line 51");
    assert_eq!(lines[999], "line 1050");
}

#[test]
fn one_burst_beyond_the_limit() {
    let mut burst = String::new();
    for i in 0..2500 {
        burst.push_str(&format!("{}\n", i));
    }
    let state = fed(&[&burst]);
    let lines = lines_of(&state);
    assert_eq!(lines.len(), 1000);
    assert_eq!(lines[0], "1500");
    assert_eq!(lines[999], "2499");
    assert_eq!(state.anchor(), Some(999));
}

#[test]
fn exactly_the_limit_evicts_nothing() {
    let mut state = AppState::new();
    for i in 0..1000 {
        state.add_output(format!("{}\n", i));
    }
    assert_eq!(state.output_lines().len(), 1000);
    assert_eq!(state.output_lines()[0], "0");
    state.add_output("1000\n".to_string());
    assert_eq!(state.output_lines().len(), 1000);
    assert_eq!(state.output_lines()[0], "1");
    assert_eq!(state.output_lines()[999], "1000");
}

#[test]
fn following_anchor_is_the_newest_line() {
    let mut state = AppState::new();
    state.add_output("a\nb\nc\n".to_string());
    assert!(state.auto_scroll());
    assert_eq!(state.anchor(), Some(2));
    assert_eq!(state.auto_selected(), Some(2));
    state.add_output("d\ne\nf\ng\n".to_string());
    assert_eq!(state.anchor(), Some(6));
    assert_eq!(state.anchor(), Some(state.output_lines().len() - 1));
    assert_eq!(state.selected(), None);
}

#[test]
fn new_data_leaves_the_cursor_alone() {
    let mut state = fed(&["0\n1\n2\n3\n4\n5\n6\n7\n"]);
    state.scroll_to_home();
    state.scroll_down();
    state.scroll_down();
    assert_eq!(state.selected(), Some(2));
    state.add_output("8\n9\n".to_string());
    assert!(!state.auto_scroll());
    assert_eq!(state.selected(), Some(2));
    assert_eq!(state.anchor(), Some(2));
    assert_eq!(state.auto_selected(), Some(9));
}

#[test]
fn cursor_survives_eviction() {
    let mut state = AppState::new();
    for i in 0..1000 {
        state.add_output(format!("{}\n", i));
    }
    state.scroll_to_bottom();
    assert_eq!(state.selected(), Some(999));
    for i in 1000..1500 {
        state.add_output(format!("{}\n", i));
    }
    assert_eq!(state.selected(), Some(999));
    assert!(state.selected().unwrap() < state.output_lines().len());
    assert_eq!(state.output_lines()[999], "1499");
}

#[test]
fn ctrl_a_while_positioned_returns_to_following() {
    let mut state = fed(&["0\n1\n2\n3\n4\n5\n6\n7\n8\n9\n"]);
    state.scroll_to_home();
    for _ in 0..5 {
        state.scroll_down();
    }
    assert!(!state.auto_scroll());
    assert_eq!(state.selected(), Some(5));
    assert_eq!(state.anchor(), Some(5));
    state.enable_auto_scroll();
    assert!(state.auto_scroll());
    assert_eq!(state.selected(), None);
    assert!(state.needs_render());
    state.add_output("10\n".to_string());
    assert!(state.auto_scroll());
    assert_eq!(state.anchor(), Some(10));
    assert_eq!(state.anchor(), Some(state.output_lines().len() - 1));
}

#[test]
fn scrolling_an_empty_scrollback_does_nothing() {
    let mut state = AppState::new();
    state.mark_rendered();
    state.scroll_up();
    state.scroll_down();
    state.scroll_page_up(10);
    state.scroll_page_down(10);
    state.scroll_to_home();
    state.scroll_to_bottom();
    assert!(state.auto_scroll());
    assert_eq!(state.selected(), None);
    assert!(!state.needs_render());
}

#[test]
fn scroll_up_starts_at_the_newest_line() {
    let mut state = fed(&["a\nb\nc\n"]);
    state.mark_rendered();
    state.scroll_up();
    assert!(!state.auto_scroll());
    assert_eq!(state.selected(), Some(1));
    assert!(state.needs_render());
    state.scroll_up();
    assert_eq!(state.selected(), Some(0));
    state.scroll_up();
    assert_eq!(state.selected(), Some(0));
}

#[test]
fn scroll_down_starts_at_the_newest_line() {
    let mut state = fed(&["a\nb\nc\n"]);
    state.mark_rendered();
    state.scroll_down();
    assert!(!state.auto_scroll());
    assert_eq!(state.selected(), Some(2));
    assert!(state.needs_render());
    state.scroll_down();
    assert_eq!(state.selected(), Some(2));
}

#[test]
fn scroll_down_while_following_ten_lines() {
    let mut state = fed(&["0\n1\n2\n3\n4\n5\n6\n7\n8\n9\n"]);
    assert!(state.auto_scroll());
    assert_eq!(state.anchor(), Some(9));
    state.scroll_down();
    assert!(!state.auto_scroll());
    assert_eq!(state.selected(), Some(9));
    assert_eq!(state.anchor(), Some(9));
}

#[test]
fn scroll_down_moves_the_cursor() {
    let mut state = fed(&["a\nb\nc\n"]);
    state.scroll_to_home();
    state.scroll_down();
    assert_eq!(state.selected(), Some(1));
    state.scroll_down();
    assert_eq!(state.selected(), Some(2));
    state.scroll_down();
    assert_eq!(state.selected(), Some(2));
}

#[test]
fn scroll_at_the_edge_of_a_single_line() {
    let mut state = fed(&["only\n"]);
    state.mark_rendered();
    state.scroll_up();
    assert!(!state.auto_scroll());
    assert_eq!(state.selected(), Some(0));
    assert!(state.needs_render());
    let mut state = fed(&["only\n"]);
    state.mark_rendered();
    state.scroll_down();
    assert!(!state.auto_scroll());
    assert_eq!(state.selected(), Some(0));
    assert!(state.needs_render());
}

#[test]
fn scroll_at_the_edge_marks_the_screen_stale() {
    let mut state = fed(&["a\nb\n"]);
    state.scroll_to_home();
    state.mark_rendered();
    state.scroll_up();
    assert_eq!(state.selected(), Some(0));
    assert!(state.needs_render());
    state.scroll_to_bottom();
    state.mark_rendered();
    state.scroll_down();
    assert_eq!(state.selected(), Some(1));
    assert!(state.needs_render());
}

#[test]
fn the_view_follows_or_has_a_cursor() {
    let mut state = fed(&["a\nb\nc\n"]);
    assert!(state.auto_scroll() && state.selected().is_none());
    state.scroll_page_up(1);
    assert!(!state.auto_scroll() && state.selected().is_some());
    state.add_output("d\n".to_string());
    assert!(!state.auto_scroll() && state.selected().is_some());
    state.update_input('x');
    state.backspace_input();
    assert!(!state.auto_scroll() && state.selected().is_some());
    state.enable_auto_scroll();
    assert!(state.auto_scroll() && state.selected().is_none());
    state.scroll_to_bottom();
    assert!(!state.auto_scroll() && state.selected() == Some(3));
}

#[test]
fn page_up_is_clamped_at_the_top() {
    let mut state = AppState::new();
    for i in 0..25 {
        state.add_output(format!("{}\n", i));
    }
    state.scroll_page_up(10);
    assert_eq!(state.selected(), Some(14));
    state.scroll_page_up(10);
    assert_eq!(state.selected(), Some(4));
    state.scroll_page_up(10);
    assert_eq!(state.selected(), Some(0));
    assert!(!state.auto_scroll());
}

#[test]
fn page_down_is_clamped_at_the_bottom() {
    let mut state = AppState::new();
    for i in 0..25 {
        state.add_output(format!("{}\n", i));
    }
    state.scroll_to_home();
    state.scroll_page_down(10);
    assert_eq!(state.selected(), Some(10));
    state.scroll_page_down(10);
    assert_eq!(state.selected(), Some(20));
    state.scroll_page_down(10);
    assert_eq!(state.selected(), Some(24));
    state.scroll_page_down(usize::MAX);
    assert_eq!(state.selected(), Some(24));
    state.scroll_page_up(usize::MAX);
    assert_eq!(state.selected(), Some(0));
}

#[test]
fn page_down_while_following_stays_on_the_newest_line() {
    let mut state = AppState::new();
    for i in 0..25 {
        state.add_output(format!("{}\n", i));
    }
    state.scroll_page_down(10);
    assert!(!state.auto_scroll());
    assert_eq!(state.selected(), Some(24));
}

#[test]
fn home_and_end() {
    let mut state = fed(&["a\nb\nc\nd\n"]);
    state.mark_rendered();
    state.scroll_to_home();
    assert_eq!(state.selected(), Some(0));
    assert!(!state.auto_scroll());
    assert!(state.needs_render());
    state.mark_rendered();
    state.scroll_to_bottom();
    assert_eq!(state.selected(), Some(3));
    assert!(!state.auto_scroll());
    assert!(state.needs_render());
}

#[test]
fn typing_and_backspace() {
    let mut state = AppState::new();
    state.mark_rendered();
    state.update_input('h');
    state.update_input('é');
    assert_eq!(state.input_line(), "hé");
    assert!(state.needs_render());
    state.mark_rendered();
    state.backspace_input();
    assert_eq!(state.input_line(), "h");
    assert!(state.needs_render());
    state.backspace_input();
    state.mark_rendered();
    state.backspace_input();
    assert_eq!(state.input_line(), "");
    assert!(!state.needs_render());
}

#[test]
fn clear_input_hands_the_line_out() {
    let mut state = AppState::new();
    state.mark_rendered();
    assert_eq!(state.clear_input(), "");
    assert!(!state.needs_render());
    state.update_input('o');
    state.update_input('k');
    state.mark_rendered();
    assert_eq!(state.clear_input(), "ok");
    assert_eq!(state.input_line(), "");
    assert!(state.needs_render());
}

#[test]
fn quit_and_mark_rendered() {
    let mut state = AppState::new();
    state.mark_rendered();
    assert!(!state.needs_render());
    state.quit();
    assert!(state.should_quit());
    assert!(state.needs_render());
    state.well_formed();
}

#[test]
fn new_lines_mark_the_screen_stale() {
    let mut state = AppState::new();
    state.mark_rendered();
    state.add_output("x\n".to_string());
    assert!(state.needs_render());
}
