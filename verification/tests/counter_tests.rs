use wcr::{Counter, Stats};

#[test]
fn fresh_counter_reports_zero() {
    let counter = Counter::new();
    let st = counter.stats(&String::from("-"));
    assert_eq!(st.filename, "-");
    assert_eq!(st.lines, 0);
    assert_eq!(st.words, 0);
    assert_eq!(st.bytes, 0);
    assert_eq!(st.chars, 0);
}

#[test]
fn feeding_line_by_line_matches_a_single_pass() {
    let whole: Vec<u8> = b"foo bar\nbaz\n".to_vec();
    let (wl, ww, wb, wc) = Stats::count(&whole);

    let mut counter = Counter::new();
    counter.feed(&b"foo bar\n".to_vec());
    counter.feed(&b"baz\n".to_vec());
    let st = counter.stats(&String::from("split.txt"));

    assert_eq!(st.filename, "split.txt");
    assert_eq!(st.lines, wl);
    assert_eq!(st.words, ww);
    assert_eq!(st.bytes, wb);
    assert_eq!(st.chars, wc);
}

#[test]
fn final_chunk_may_lack_a_newline() {
    let mut counter = Counter::new();
    counter.feed(&b"a b\n".to_vec());
    counter.feed(&b"c".to_vec());
    let st = counter.stats(&String::from("x"));
    assert_eq!(st.lines, 2);
    assert_eq!(st.words, 3);
    assert_eq!(st.bytes, 5);
    assert_eq!(st.chars, 5);
}

#[test]
fn bytes_so_far_tracks_the_feed() {
    let mut counter = Counter::new();
    assert_eq!(counter.bytes_so_far(), 0);
    counter.feed(&b"one two\n".to_vec());
    assert_eq!(counter.bytes_so_far(), 8);
    counter.feed(&b"three\n".to_vec());
    assert_eq!(counter.bytes_so_far(), 14);
}

#[test]
fn word_split_across_chunks_stays_one_word_per_chunk() {
    let mut counter = Counter::new();
    counter.feed(&b"ab\n".to_vec());
    counter.feed(&b"cd".to_vec());
    let st = counter.stats(&String::from("x"));
    assert_eq!(st.words, 2);
    assert_eq!(st.lines, 2);
}
