//! Byte-level text measurement: UTF-8 decoding, whitespace classification,
//! and the line / word / character counting functions over a byte source.
//!
//! A source is measured as raw bytes. Well-formed UTF-8 sequences decode to
//! their scalar value; each byte of an ill-formed sequence counts as one
//! replacement character (U+FFFD), so byte counts stay exact and character
//! counts are well defined on every input.

use vstd::prelude::*;

verus! {

/// A UTF-8 continuation byte: `0x80..=0xBF`.
pub open spec fn is_cont(b: u8) -> bool {
    0x80 <= b < 0xC0
}

/// A well-formed two-byte UTF-8 sequence starts at `i`.
pub open spec fn valid2_at(s: Seq<u8>, i: int) -> bool {
    &&& i + 2 <= s.len()
    &&& 0xC2 <= s[i] <= 0xDF
    &&& is_cont(s[i + 1])
}

/// The admissible second byte of a three-byte sequence, by lead byte:
/// `0xE0` excludes overlong forms, `0xED` excludes surrogates.
pub open spec fn valid3_second(b0: u8, b1: u8) -> bool {
    if b0 == 0xE0 {
        0xA0 <= b1 < 0xC0
    } else if b0 == 0xED {
        0x80 <= b1 < 0xA0
    } else {
        is_cont(b1)
    }
}

/// A well-formed three-byte UTF-8 sequence starts at `i`.
pub open spec fn valid3_at(s: Seq<u8>, i: int) -> bool {
    &&& i + 3 <= s.len()
    &&& 0xE0 <= s[i] <= 0xEF
    &&& valid3_second(s[i], s[i + 1])
    &&& is_cont(s[i + 2])
}

/// The admissible second byte of a four-byte sequence, by lead byte:
/// `0xF0` excludes overlong forms, `0xF4` excludes values past U+10FFFF.
pub open spec fn valid4_second(b0: u8, b1: u8) -> bool {
    if b0 == 0xF0 {
        0x90 <= b1 < 0xC0
    } else if b0 == 0xF4 {
        0x80 <= b1 < 0x90
    } else {
        is_cont(b1)
    }
}

/// A well-formed four-byte UTF-8 sequence starts at `i`.
pub open spec fn valid4_at(s: Seq<u8>, i: int) -> bool {
    &&& i + 4 <= s.len()
    &&& 0xF0 <= s[i] <= 0xF4
    &&& valid4_second(s[i], s[i + 1])
    &&& is_cont(s[i + 2])
    &&& is_cont(s[i + 3])
}

/// A well-formed UTF-8 sequence (of any length) starts at `i`.
pub open spec fn is_valid_seq_at(s: Seq<u8>, i: int) -> bool {
    ||| s[i] < 0x80
    ||| valid2_at(s, i)
    ||| valid3_at(s, i)
    ||| valid4_at(s, i)
}

/// How many bytes the decoded unit at `i` spans: the length of the
/// well-formed sequence starting there, or 1 for an ill-formed byte.
pub open spec fn unit_len(s: Seq<u8>, i: int) -> int
    recommends
        0 <= i < s.len(),
{
    if s[i] < 0x80 {
        1
    } else if valid2_at(s, i) {
        2
    } else if valid3_at(s, i) {
        3
    } else if valid4_at(s, i) {
        4
    } else {
        1
    }
}

/// The scalar value decoded at `i`: the UTF-8 value of a well-formed
/// sequence, or U+FFFD for an ill-formed byte.
pub open spec fn cp_at(s: Seq<u8>, i: int) -> int
    recommends
        0 <= i < s.len(),
{
    if s[i] < 0x80 {
        s[i] as int
    } else if valid2_at(s, i) {
        (s[i] - 0xC0) * 0x40 + (s[i + 1] - 0x80)
    } else if valid3_at(s, i) {
        (s[i] - 0xE0) * 0x1000 + (s[i + 1] - 0x80) * 0x40 + (s[i + 2] - 0x80)
    } else if valid4_at(s, i) {
        (s[i] - 0xF0) * 0x40000 + (s[i + 1] - 0x80) * 0x1000 + (s[i + 2] - 0x80) * 0x40 + (s[i + 3]
            - 0x80)
    } else {
        0xFFFD
    }
}

/// The Unicode whitespace scalar values, as `char::is_whitespace` has them.
pub open spec fn is_ws_code(c: int) -> bool {
    ||| c == 0x09
    ||| c == 0x0A
    ||| c == 0x0B
    ||| c == 0x0C
    ||| c == 0x0D
    ||| c == 0x20
    ||| c == 0x85
    ||| c == 0xA0
    ||| c == 0x1680
    ||| 0x2000 <= c <= 0x200A
    ||| c == 0x2028
    ||| c == 0x2029
    ||| c == 0x202F
    ||| c == 0x205F
    ||| c == 0x3000
}

/// The number of decoded units in `s` from position `i` on.
pub open spec fn chars_from(s: Seq<u8>, i: int) -> nat
    decreases s.len() - i,
{
    if i < 0 || i >= s.len() {
        0
    } else {
        1 + chars_from(s, i + unit_len(s, i))
    }
}

/// The number of maximal runs of non-whitespace units from position `i` on,
/// given whether position `i` is preceded by a non-whitespace unit.
pub open spec fn words_from(s: Seq<u8>, i: int, in_word: bool) -> nat
    decreases s.len() - i,
{
    if i < 0 || i >= s.len() {
        0
    } else {
        let ws = is_ws_code(cp_at(s, i));
        (if !ws && !in_word {
            1nat
        } else {
            0nat
        }) + words_from(s, i + unit_len(s, i), !ws)
    }
}

/// The number of newline bytes in `s` from position `i` on.
pub open spec fn newlines_from(s: Seq<u8>, i: int) -> nat
    decreases s.len() - i,
{
    if i < 0 || i >= s.len() {
        0
    } else {
        (if s[i] == 0x0A {
            1nat
        } else {
            0nat
        }) + newlines_from(s, i + 1)
    }
}

/// The number of decoded units in `s`.
pub open spec fn char_count(s: Seq<u8>) -> nat {
    chars_from(s, 0)
}

/// The number of maximal runs of non-whitespace units in `s`.
pub open spec fn word_count(s: Seq<u8>) -> nat {
    words_from(s, 0, false)
}

/// The number of newline-terminated segments of `s`, a final unterminated
/// segment included.
pub open spec fn line_count(s: Seq<u8>) -> nat {
    newlines_from(s, 0) + (if s.len() > 0 && s[s.len() - 1] != 0x0A {
        1nat
    } else {
        0nat
    })
}

/// Every byte of `s` is 7-bit ASCII.
pub open spec fn all_ascii(s: Seq<u8>) -> bool {
    forall|i: int| 0 <= i < s.len() ==> s[i] < 0x80
}

/// From position `i` on, `s` is a concatenation of well-formed UTF-8
/// sequences.
pub open spec fn valid_utf8_from(s: Seq<u8>, i: int) -> bool
    decreases s.len() - i,
{
    if i < 0 || i >= s.len() {
        true
    } else {
        is_valid_seq_at(s, i) && valid_utf8_from(s, i + unit_len(s, i))
    }
}

/// `s` is well-formed UTF-8 throughout.
pub open spec fn is_valid_utf8(s: Seq<u8>) -> bool {
    valid_utf8_from(s, 0)
}

/// A decoded unit spans at least one byte and stays inside the source.
pub proof fn lemma_unit_len_bounds(s: Seq<u8>, i: int)
    requires
        0 <= i < s.len(),
    ensures
        1 <= unit_len(s, i),
        i + unit_len(s, i) <= s.len(),
{
}

/// There are no more decoded units than remaining bytes.
pub proof fn lemma_chars_from_le(s: Seq<u8>, i: int)
    requires
        0 <= i <= s.len(),
    ensures
        chars_from(s, i) <= s.len() - i,
    decreases s.len() - i,
{
    if i < s.len() {
        lemma_unit_len_bounds(s, i);
        lemma_chars_from_le(s, i + unit_len(s, i));
    }
}

/// There are no more words than decoded units.
pub proof fn lemma_words_from_le_chars(s: Seq<u8>, i: int, in_word: bool)
    requires
        0 <= i <= s.len(),
    ensures
        words_from(s, i, in_word) <= chars_from(s, i),
    decreases s.len() - i,
{
    if i < s.len() {
        lemma_unit_len_bounds(s, i);
        lemma_words_from_le_chars(s, i + unit_len(s, i), !is_ws_code(cp_at(s, i)));
    }
}

/// There are no more newline bytes than remaining bytes; one fewer when the
/// last byte is not a newline.
pub proof fn lemma_newlines_from_bound(s: Seq<u8>, i: int)
    requires
        0 <= i <= s.len(),
    ensures
        newlines_from(s, i) <= s.len() - i,
        (i < s.len() && s[s.len() - 1] != 0x0A) ==> newlines_from(s, i) + 1 <= s.len() - i,
    decreases s.len() - i,
{
    if i < s.len() {
        lemma_newlines_from_bound(s, i + 1);
    }
}

/// A multi-byte unit contains no newline past its lead byte, so counting
/// newlines unit by unit agrees with counting them byte by byte.
pub proof fn lemma_unit_skip_newlines(s: Seq<u8>, i: int)
    requires
        0 <= i < s.len(),
    ensures
        newlines_from(s, i) == (if s[i] == 0x0A {
            1nat
        } else {
            0nat
        }) + newlines_from(s, i + unit_len(s, i)),
{
    let l = unit_len(s, i);
    if l == 2 {
        assert(s[i + 1] != 0x0A);
        assert(newlines_from(s, i + 1) == newlines_from(s, i + 2));
    } else if l == 3 {
        assert(s[i + 1] != 0x0A && s[i + 2] != 0x0A);
        assert(newlines_from(s, i + 2) == newlines_from(s, i + 3));
        assert(newlines_from(s, i + 1) == newlines_from(s, i + 3));
    } else if l == 4 {
        assert(s[i + 1] != 0x0A && s[i + 2] != 0x0A && s[i + 3] != 0x0A);
        assert(newlines_from(s, i + 3) == newlines_from(s, i + 4));
        assert(newlines_from(s, i + 2) == newlines_from(s, i + 4));
        assert(newlines_from(s, i + 1) == newlines_from(s, i + 4));
    }
}

/// A source never has more lines than bytes.
pub proof fn lemma_line_count_le(s: Seq<u8>)
    ensures
        line_count(s) <= s.len(),
{
    lemma_newlines_from_bound(s, 0);
}

/// A source never has more characters than bytes.
pub proof fn lemma_chars_le_bytes(s: Seq<u8>)
    ensures
        char_count(s) <= s.len(),
{
    lemma_chars_from_le(s, 0);
}

proof fn lemma_ascii_chars_eq(s: Seq<u8>, i: int)
    requires
        0 <= i <= s.len(),
        forall|j: int| i <= j < s.len() ==> s[j] < 0x80,
    ensures
        chars_from(s, i) == s.len() - i,
    decreases s.len() - i,
{
    if i < s.len() {
        assert(s[i] < 0x80);
        lemma_ascii_chars_eq(s, i + 1);
    }
}

proof fn lemma_chars_eq_implies_ascii(s: Seq<u8>, i: int)
    requires
        0 <= i <= s.len(),
        valid_utf8_from(s, i),
        chars_from(s, i) == s.len() - i,
    ensures
        forall|j: int| i <= j < s.len() ==> s[j] < 0x80,
    decreases s.len() - i,
{
    if i < s.len() {
        let l = unit_len(s, i);
        lemma_unit_len_bounds(s, i);
        if s[i] >= 0x80 {
            assert(l >= 2);
            lemma_chars_from_le(s, i + l);
            assert(false);
        }
        lemma_chars_eq_implies_ascii(s, i + 1);
    }
}

/// On well-formed UTF-8, the character count equals the byte count exactly
/// when every byte is 7-bit ASCII.
pub proof fn lemma_chars_eq_bytes_iff_ascii(s: Seq<u8>)
    requires
        is_valid_utf8(s),
    ensures
        char_count(s) == s.len() <==> all_ascii(s),
{
    if all_ascii(s) {
        lemma_ascii_chars_eq(s, 0);
    }
    if char_count(s) == s.len() {
        lemma_chars_eq_implies_ascii(s, 0);
    }
}

proof fn lemma_newlines_absent(s: Seq<u8>, i: int)
    requires
        0 <= i <= s.len(),
        forall|j: int| 0 <= j < s.len() ==> s[j] != 0x0A,
    ensures
        newlines_from(s, i) == 0,
    decreases s.len() - i,
{
    if i < s.len() {
        assert(s[i] != 0x0A);
        lemma_newlines_absent(s, i + 1);
    }
}

/// A nonempty source without a newline is a single unterminated line.
pub proof fn lemma_single_line_without_newline(s: Seq<u8>)
    requires
        s.len() > 0,
        forall|i: int| 0 <= i < s.len() ==> s[i] != 0x0A,
    ensures
        line_count(s) == 1,
{
    lemma_newlines_absent(s, 0);
    assert(s[s.len() - 1] != 0x0A);
}

proof fn lemma_push_ascii_unit_agree(s: Seq<u8>, w: u8, i: int)
    requires
        w < 0x80,
        0 <= i < s.len(),
    ensures
        unit_len(s.push(w), i) == unit_len(s, i),
        cp_at(s.push(w), i) == cp_at(s, i),
{
    let t = s.push(w);
    assert(t.len() == s.len() + 1);
    assert(forall|j: int| 0 <= j < s.len() ==> t[j] == s[j]);
    assert(t[s.len() as int] == w);
    assert(valid2_at(t, i) == valid2_at(s, i));
    assert(valid3_at(t, i) == valid3_at(s, i));
    assert(valid4_at(t, i) == valid4_at(s, i));
}

proof fn lemma_push_ws_words_from(s: Seq<u8>, w: u8, i: int, in_word: bool)
    requires
        w < 0x80,
        is_ws_code(w as int),
        0 <= i <= s.len(),
    ensures
        words_from(s.push(w), i, in_word) == words_from(s, i, in_word),
    decreases s.len() - i,
{
    let t = s.push(w);
    if i == s.len() {
        assert(t[i] == w);
        assert(unit_len(t, i) == 1);
        assert(cp_at(t, i) == w as int);
        assert(words_from(t, i + 1, false) == 0);
        assert(words_from(s, i, in_word) == 0);
    } else {
        lemma_push_ascii_unit_agree(s, w, i);
        lemma_unit_len_bounds(s, i);
        lemma_push_ws_words_from(s, w, i + unit_len(s, i), !is_ws_code(cp_at(s, i)));
    }
}

/// Appending a whitespace byte to a source never changes its word count:
/// trailing whitespace, however often repeated, produces no spurious word.
pub proof fn lemma_trailing_whitespace_adds_no_word(s: Seq<u8>, w: u8)
    requires
        w < 0x80,
        is_ws_code(w as int),
    ensures
        word_count(s.push(w)) == word_count(s),
{
    lemma_push_ws_words_from(s, w, 0, false);
}

proof fn lemma_concat_left_unit_agree(s1: Seq<u8>, s2: Seq<u8>, i: int)
    requires
        0 <= i < s1.len(),
        s1[s1.len() - 1] < 0x80,
    ensures
        unit_len(s1 + s2, i) == unit_len(s1, i),
        cp_at(s1 + s2, i) == cp_at(s1, i),
{
    let t = s1 + s2;
    assert(forall|j: int| 0 <= j < s1.len() ==> t[j] == s1[j]);
    assert(valid2_at(t, i) == valid2_at(s1, i));
    assert(valid3_at(t, i) == valid3_at(s1, i));
    assert(valid4_at(t, i) == valid4_at(s1, i));
}

proof fn lemma_concat_right_unit_agree(s1: Seq<u8>, s2: Seq<u8>, j: int)
    requires
        0 <= j < s2.len(),
    ensures
        unit_len(s1 + s2, s1.len() + j) == unit_len(s2, j),
        cp_at(s1 + s2, s1.len() + j) == cp_at(s2, j),
{
    let t = s1 + s2;
    assert(forall|k: int| 0 <= k < s2.len() ==> t[s1.len() + k] == s2[k]);
    assert(valid2_at(t, s1.len() + j) == valid2_at(s2, j));
    assert(valid3_at(t, s1.len() + j) == valid3_at(s2, j));
    assert(valid4_at(t, s1.len() + j) == valid4_at(s2, j));
}

proof fn lemma_right_counts(s1: Seq<u8>, s2: Seq<u8>, j: int, in_word: bool)
    requires
        0 <= j <= s2.len(),
    ensures
        chars_from(s1 + s2, s1.len() + j) == chars_from(s2, j),
        words_from(s1 + s2, s1.len() + j, in_word) == words_from(s2, j, in_word),
        newlines_from(s1 + s2, s1.len() + j) == newlines_from(s2, j),
    decreases s2.len() - j,
{
    if j < s2.len() {
        lemma_concat_right_unit_agree(s1, s2, j);
        lemma_unit_len_bounds(s2, j);
        lemma_right_counts(s1, s2, j + unit_len(s2, j), !is_ws_code(cp_at(s2, j)));
        lemma_right_counts(s1, s2, j + 1, in_word);
    }
}

proof fn lemma_left_newlines(s1: Seq<u8>, s2: Seq<u8>, i: int)
    requires
        0 <= i <= s1.len(),
    ensures
        newlines_from(s1 + s2, i) == newlines_from(s1, i) + newlines_from(
            s1 + s2,
            s1.len() as int,
        ),
    decreases s1.len() - i,
{
    let t = s1 + s2;
    if i < s1.len() {
        assert(t[i] == s1[i]);
        lemma_left_newlines(s1, s2, i + 1);
    }
}

proof fn lemma_left_chars(s1: Seq<u8>, s2: Seq<u8>, i: int)
    requires
        0 <= i <= s1.len(),
        s1.len() > 0,
        s1[s1.len() - 1] < 0x80,
    ensures
        chars_from(s1 + s2, i) == chars_from(s1, i) + chars_from(s1 + s2, s1.len() as int),
    decreases s1.len() - i,
{
    if i < s1.len() {
        lemma_concat_left_unit_agree(s1, s2, i);
        lemma_unit_len_bounds(s1, i);
        lemma_left_chars(s1, s2, i + unit_len(s1, i));
    }
}

proof fn lemma_left_words(s1: Seq<u8>, s2: Seq<u8>, i: int, in_word: bool)
    requires
        0 <= i <= s1.len(),
        s1.len() > 0,
        s1[s1.len() - 1] < 0x80,
        is_ws_code(s1[s1.len() - 1] as int),
        i == s1.len() ==> !in_word,
    ensures
        words_from(s1 + s2, i, in_word) == words_from(s1, i, in_word) + words_from(
            s1 + s2,
            s1.len() as int,
            false,
        ),
    decreases s1.len() - i,
{
    if i < s1.len() {
        lemma_concat_left_unit_agree(s1, s2, i);
        lemma_unit_len_bounds(s1, i);
        let l = unit_len(s1, i);
        if i + l == s1.len() {
            assert(l == 1);
        }
        lemma_left_words(s1, s2, i + l, !is_ws_code(cp_at(s1, i)));
    }
}

/// Splitting a source just after an ASCII whitespace byte splits the word
/// count: no word straddles such a cut.
pub proof fn lemma_split_after_ascii_whitespace_words(s1: Seq<u8>, s2: Seq<u8>)
    requires
        s1.len() > 0,
        s1[s1.len() - 1] < 0x80,
        is_ws_code(s1[s1.len() - 1] as int),
    ensures
        word_count(s1 + s2) == word_count(s1) + word_count(s2),
{
    lemma_left_words(s1, s2, 0, false);
    lemma_right_counts(s1, s2, 0, false);
}

/// Doubling an ASCII whitespace byte anywhere in a source never changes its
/// word count: words split on runs of whitespace, not on single separators.
pub proof fn lemma_repeated_whitespace_adds_no_word(s1: Seq<u8>, s2: Seq<u8>, w: u8)
    requires
        w < 0x80,
        is_ws_code(w as int),
    ensures
        word_count(s1 + seq![w] + s2) == word_count(s1 + seq![w, w] + s2),
{
    let a = s1 + seq![w];
    assert(a[a.len() - 1] == w);
    lemma_split_after_ascii_whitespace_words(a, s2);
    lemma_trailing_whitespace_adds_no_word(a, w);
    assert(a.push(w)[a.push(w).len() - 1] == w);
    lemma_split_after_ascii_whitespace_words(a.push(w), s2);
    assert(a.push(w) =~= s1 + seq![w, w]);
}

/// Splitting a source just after any newline splits every counter: the
/// counts of the whole are the element-wise sums of the parts' counts, so a
/// source may be measured line by line and the per-line results combined.
pub proof fn lemma_split_after_newline(s1: Seq<u8>, s2: Seq<u8>)
    requires
        s1.len() > 0,
        s1[s1.len() - 1] == 0x0A,
    ensures
        line_count(s1 + s2) == line_count(s1) + line_count(s2),
        word_count(s1 + s2) == word_count(s1) + word_count(s2),
        char_count(s1 + s2) == char_count(s1) + char_count(s2),
{
    let t = s1 + s2;
    lemma_left_newlines(s1, s2, 0);
    lemma_left_chars(s1, s2, 0);
    lemma_left_words(s1, s2, 0, false);
    lemma_right_counts(s1, s2, 0, false);
    assert(t.len() == s1.len() + s2.len());
    assert(t[s1.len() - 1] == s1[s1.len() - 1]);
    if s2.len() > 0 {
        assert(t[t.len() - 1] == s2[s2.len() - 1]);
    }
}

/// An empty source has zero lines, words, and characters.
pub proof fn lemma_empty_source(s: Seq<u8>)
    requires
        s.len() == 0,
    ensures
        line_count(s) == 0,
        word_count(s) == 0,
        char_count(s) == 0,
{
}

/// Whether `b` is a UTF-8 continuation byte.
fn is_cont_byte(b: u8) -> (r: bool)
    ensures
        r == is_cont(b),
{
    0x80 <= b && b < 0xC0
}

/// Decodes the unit starting at position `i`: how many bytes it spans and
/// the scalar value it stands for (U+FFFD for an ill-formed byte).
pub fn decode_unit(s: &Vec<u8>, i: usize) -> (r: (usize, u32))
    requires
        i < s@.len(),
    ensures
        r.0 == unit_len(s@, i as int),
        r.1 as int == cp_at(s@, i as int),
        1 <= r.0,
        i + r.0 <= s@.len(),
{
    let n = s.len();
    let b0 = s[i];
    if b0 < 0x80 {
        (1, b0 as u32)
    } else if 0xC2 <= b0 && b0 <= 0xDF {
        if n - i >= 2 && is_cont_byte(s[i + 1]) {
            let b1 = s[i + 1];
            (2, (b0 as u32 - 0xC0) * 0x40 + (b1 as u32 - 0x80))
        } else {
            (1, 0xFFFD)
        }
    } else if 0xE0 <= b0 && b0 <= 0xEF {
        if n - i >= 3 {
            let b1 = s[i + 1];
            let b2 = s[i + 2];
            let second_ok = if b0 == 0xE0 {
                0xA0 <= b1 && b1 < 0xC0
            } else if b0 == 0xED {
                0x80 <= b1 && b1 < 0xA0
            } else {
                is_cont_byte(b1)
            };
            if second_ok && is_cont_byte(b2) {
                (
                    3,
                    (b0 as u32 - 0xE0) * 0x1000 + (b1 as u32 - 0x80) * 0x40 + (b2 as u32 - 0x80),
                )
            } else {
                (1, 0xFFFD)
            }
        } else {
            (1, 0xFFFD)
        }
    } else if 0xF0 <= b0 && b0 <= 0xF4 {
        if n - i >= 4 {
            let b1 = s[i + 1];
            let b2 = s[i + 2];
            let b3 = s[i + 3];
            let second_ok = if b0 == 0xF0 {
                0x90 <= b1 && b1 < 0xC0
            } else if b0 == 0xF4 {
                0x80 <= b1 && b1 < 0x90
            } else {
                is_cont_byte(b1)
            };
            if second_ok && is_cont_byte(b2) && is_cont_byte(b3) {
                (
                    4,
                    (b0 as u32 - 0xF0) * 0x40000 + (b1 as u32 - 0x80) * 0x1000 + (b2 as u32 - 0x80)
                        * 0x40 + (b3 as u32 - 0x80),
                )
            } else {
                (1, 0xFFFD)
            }
        } else {
            (1, 0xFFFD)
        }
    } else {
        (1, 0xFFFD)
    }
}

/// Whether the scalar value `c` is Unicode whitespace.
pub fn is_whitespace_code(c: u32) -> (r: bool)
    ensures
        r == is_ws_code(c as int),
{
    c == 0x09 || c == 0x0A || c == 0x0B || c == 0x0C || c == 0x0D || c == 0x20 || c == 0x85 || c
        == 0xA0 || c == 0x1680 || (0x2000 <= c && c <= 0x200A) || c == 0x2028 || c == 0x2029 || c
        == 0x202F || c == 0x205F || c == 0x3000
}

} // verus!
