use wcr::{format_error_line, Cli, Stats};

#[test]
fn row_with_default_selection() {
    let st = Stats { filename: String::from("foo.txt"), lines: 2, words: 3, bytes: 12, chars: 12 };
    let cli = Cli {
        files: vec![String::from("foo.txt")],
        lines: true,
        words: true,
        bytes: true,
        chars: false,
    };
    assert_eq!(st.format_row(&cli), "       2       3      12 foo.txt");
}

#[test]
fn row_for_stdin_has_no_identifier() {
    let st = Stats { filename: String::from("-"), lines: 2, words: 3, bytes: 12, chars: 12 };
    let cli = Cli {
        files: vec![String::from("-")],
        lines: true,
        words: true,
        bytes: true,
        chars: false,
    };
    assert_eq!(st.format_row(&cli), "       2       3      12");
}

#[test]
fn row_shows_only_selected_counters() {
    let st = Stats { filename: String::from("f"), lines: 7, words: 8, bytes: 9, chars: 10 };
    let cli = Cli { files: vec![String::from("f")], lines: false, words: false, bytes: false, chars: true };
    assert_eq!(st.format_row(&cli), "      10 f");
}

#[test]
fn wide_value_overflows_its_field_unpadded() {
    let st = Stats { filename: String::from("-"), lines: 123456789, words: 0, bytes: 0, chars: 0 };
    let cli = Cli { files: vec![String::from("-")], lines: true, words: false, bytes: false, chars: false };
    assert_eq!(st.format_row(&cli), "123456789");
}

#[test]
fn zero_is_right_justified() {
    let st = Stats { filename: String::from("-"), lines: 0, words: 0, bytes: 0, chars: 0 };
    let cli = Cli { files: vec![String::from("-")], lines: true, words: false, bytes: false, chars: false };
    assert_eq!(st.format_row(&cli), "       0");
}

#[test]
fn total_row_after_two_sources() {
    let full = Stats::build(&String::from("full.txt"), &b"foo bar\nbaz\n".to_vec());
    let empty = Stats::build(&String::from("empty.txt"), &Vec::new());
    let cli = Cli {
        files: vec![String::from("full.txt"), String::from("empty.txt")],
        lines: true,
        words: true,
        bytes: true,
        chars: false,
    };
    assert_eq!(full.format_row(&cli), "       2       3      12 full.txt");
    assert_eq!(empty.format_row(&cli), "       0       0       0 empty.txt");
    let total = Stats::sum(&vec![full, empty]);
    assert!(cli.needs_total());
    assert_eq!(total.format_row(&cli), "       2       3      12 total");
}

#[test]
fn no_total_for_a_single_source() {
    let cli = Cli { files: vec![String::from("only")], lines: true, words: true, bytes: true, chars: false };
    assert!(!cli.needs_total());
}

#[test]
fn error_line_names_the_source() {
    let line = format_error_line(
        &String::from("missing.txt"),
        &String::from("No such file or directory (os error 2)"),
    );
    assert_eq!(line, "missing.txt: No such file or directory (os error 2)");
}
