use wcr::get_args;

#[test]
fn conflicting_byte_and_char_requests_are_rejected() {
    let r = get_args(vec![String::from("a.txt"), String::from("b.txt")], false, false, true, true);
    assert!(r.is_err());
}

#[test]
fn conflict_is_rejected_even_with_other_flags() {
    let r = get_args(vec![String::from("a.txt")], true, true, true, true);
    assert!(r.is_err());
}

#[test]
fn rejection_message_describes_the_conflict() {
    let r = get_args(Vec::new(), false, false, true, true);
    match r {
        Ok(_) => panic!("conflicting flags were accepted"),
        Err(e) => assert_eq!(
            e.message(),
            "the byte count and the character count cannot be requested together"
        ),
    }
}

#[test]
fn no_flags_selects_lines_words_bytes() {
    let cli = get_args(vec![String::from("a.txt")], false, false, false, false).unwrap();
    assert!(cli.lines);
    assert!(cli.words);
    assert!(cli.bytes);
    assert!(!cli.chars);
}

#[test]
fn explicit_flags_are_kept() {
    let cli = get_args(vec![String::from("a.txt")], true, false, false, true).unwrap();
    assert!(cli.lines);
    assert!(!cli.words);
    assert!(!cli.bytes);
    assert!(cli.chars);
}

#[test]
fn chars_alone_suppresses_bytes() {
    let cli = get_args(vec![String::from("a.txt")], false, false, false, true).unwrap();
    assert!(!cli.bytes);
    assert!(cli.chars);
}

#[test]
fn no_sources_means_standard_input() {
    let cli = get_args(Vec::new(), false, false, false, false).unwrap();
    assert_eq!(cli.files, vec![String::from("-")]);
}

#[test]
fn named_sources_are_kept_in_order() {
    let cli = get_args(
        vec![String::from("b.txt"), String::from("a.txt")],
        true,
        false,
        false,
        false,
    )
    .unwrap();
    assert_eq!(cli.files, vec![String::from("b.txt"), String::from("a.txt")]);
}
