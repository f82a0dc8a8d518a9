use termviz::tui::text::{
    fill_lines, longest_line, push_centered, push_decimal, push_fixed_point, push_left_aligned,
    push_repeated, push_right_aligned, repeat_char,
};

fn fixed(value: i64, decimals: u8) -> String {
    let mut s = String::new();
    push_fixed_point(&mut s, value, decimals);
    s
}

fn dec(n: u64) -> String {
    let mut s = String::new();
    push_decimal(&mut s, n);
    s
}

#[test]
fn repeat_char_builds_runs() {
    assert_eq!(repeat_char('-', 0), "");
    assert_eq!(repeat_char('-', 3), "---");
    assert_eq!(repeat_char(' ', 30), " ".repeat(30));
}

#[test]
fn push_repeated_appends() {
    let mut s = String::from("ab");
    push_repeated(&mut s, 'x', 2);
    assert_eq!(s, "abxx");
}

#[test]
fn digits_are_the_decimal_characters() {
    assert_eq!(dec(1234567890), "1234567890");
}

#[test]
fn decimal_matches_the_standard_formatting() {
    for n in [0u64, 1, 9, 10, 11, 99, 100, 101, 12345, 1_000_000, u64::MAX] {
        assert_eq!(dec(n), format!("{}", n));
    }
}

#[test]
fn decimal_appends_after_what_is_there() {
    let mut s = String::from("System ");
    push_decimal(&mut s, 12);
    assert_eq!(s, "System 12");
}

#[test]
fn fixed_point_two_decimals() {
    assert_eq!(fixed(1234, 2), "12.34");
    assert_eq!(fixed(800, 2), "8.00");
    assert_eq!(fixed(5, 2), "0.05");
    assert_eq!(fixed(50, 2), "0.50");
    assert_eq!(fixed(0, 2), "0.00");
    assert_eq!(fixed(100000, 2), "1000.00");
}

#[test]
fn fixed_point_one_decimal() {
    assert_eq!(fixed(500, 1), "50.0");
    assert_eq!(fixed(7, 1), "0.7");
    assert_eq!(fixed(1000, 1), "100.0");
}

#[test]
fn fixed_point_without_decimals_has_no_point() {
    assert_eq!(fixed(42, 0), "42");
    assert_eq!(fixed(-42, 0), "-42");
    assert_eq!(fixed(0, 0), "0");
}

#[test]
fn fixed_point_negative_values() {
    assert_eq!(fixed(-350, 2), "-3.50");
    assert_eq!(fixed(-5, 2), "-0.05");
    assert_eq!(fixed(-1, 1), "-0.1");
    assert_eq!(fixed(i64::MIN, 2), "-92233720368547758.08");
    assert_eq!(fixed(i64::MAX, 2), "92233720368547758.07");
}

#[test]
fn fixed_point_agrees_with_float_formatting() {
    for v in [0i64, 1, 25, 99, 100, 101, 500, 2000, 12345] {
        assert_eq!(fixed(v, 2), format!("{:.2}", v as f64 / 100.0));
    }
    for v in [0i64, 1, 9, 10, 500, 999, 1000] {
        assert_eq!(fixed(v, 1), format!("{:.1}", v as f64 / 10.0));
    }
}

#[test]
fn right_aligned_pads_on_the_left() {
    for text in ["", "a", "50.0", "123456", "1234567"] {
        let mut s = String::new();
        push_right_aligned(&mut s, text, 6);
        assert_eq!(s, format!("{:>6}", text));
    }
}

#[test]
fn centered_puts_the_extra_blank_on_the_right() {
    for text in ["", "a", "ab", "System 1", "System 12", &"x".repeat(30), &"y".repeat(31)] {
        let mut s = String::new();
        push_centered(&mut s, text, 30);
        assert_eq!(s, format!("{:^30}", text));
    }
    let mut s = String::new();
    push_centered(&mut s, "abc", 6);
    assert_eq!(s, " abc  ");
}

#[test]
fn widths_count_characters_not_bytes() {
    let mut s = String::new();
    push_right_aligned(&mut s, "\u{2588}\u{2588}", 4);
    assert_eq!(s, "  \u{2588}\u{2588}");
    let mut c = String::new();
    push_centered(&mut c, "\u{e9}", 3);
    assert_eq!(c, " \u{e9} ");
}

#[test]
fn left_aligned_pads_on_the_right() {
    for text in ["", "a", "NetSpeed:", "123456", "1234567"] {
        let mut s = String::from(">");
        push_left_aligned(&mut s, text, 6);
        assert_eq!(s, format!(">{:<6}", text));
    }
}

#[test]
fn longest_line_counts_characters() {
    assert_eq!(longest_line(&Vec::new()), 0);
    assert_eq!(longest_line(&vec!["ab".to_string(), "".to_string(), "abcd".to_string()]), 4);
    assert_eq!(longest_line(&vec!["\u{2588}\u{2588}\u{2588}".to_string(), "ab".to_string()]), 3);
}

#[test]
fn fill_lines_makes_a_rectangle() {
    let texts = vec!["ab".to_string(), "".to_string(), "abcd".to_string()];
    assert_eq!(fill_lines(&texts, 0), vec!["ab  ", "    ", "abcd"]);
    assert_eq!(fill_lines(&texts, 5), vec!["ab   ", "     ", "abcd "]);
    assert_eq!(fill_lines(&Vec::new(), 5), Vec::<String>::new());
}
