//! The `Stats` record: the four counters computed for one source, and their
//! element-wise combination into running totals.

use vstd::prelude::*;

use crate::text::{
    char_count, chars_from, cp_at, decode_unit, is_whitespace_code, is_ws_code,
    lemma_chars_from_le, lemma_newlines_from_bound, lemma_unit_skip_newlines,
    lemma_words_from_le_chars, line_count, newlines_from, unit_len, word_count, words_from,
};

verus! {

/// The mathematical content of a `Stats` value: the four counters, with the
/// label left out. Combination laws are stated over this view.
pub ghost struct Counts {
    pub lines: nat,
    pub words: nat,
    pub bytes: nat,
    pub chars: nat,
}

/// The identity element of `combined`: all four counters zero.
pub open spec fn zero_counts() -> Counts {
    Counts { lines: 0, words: 0, bytes: 0, chars: 0 }
}

/// Element-wise sum of two count records.
pub open spec fn combined(a: Counts, b: Counts) -> Counts {
    Counts {
        lines: a.lines + b.lines,
        words: a.words + b.words,
        bytes: a.bytes + b.bytes,
        chars: a.chars + b.chars,
    }
}

/// Combination is commutative.
pub proof fn lemma_combine_commutative(a: Counts, b: Counts)
    ensures
        combined(a, b) == combined(b, a),
{
}

/// Combination is associative.
pub proof fn lemma_combine_associative(a: Counts, b: Counts, c: Counts)
    ensures
        combined(combined(a, b), c) == combined(a, combined(b, c)),
{
}

/// The all-zero record is an identity for combination, on either side.
pub proof fn lemma_combine_identity(a: Counts)
    ensures
        combined(a, zero_counts()) == a,
        combined(zero_counts(), a) == a,
{
}

/// The count records of a sequence of `Stats` values.
pub open spec fn counts_seq(s: Seq<Stats>) -> Seq<Counts> {
    s.map_values(|st: Stats| st.counts())
}

/// The element-wise sum of a sequence of count records, the empty sequence
/// summing to the all-zero record.
pub open spec fn sum_counts(s: Seq<Counts>) -> Counts
    decreases s.len(),
{
    if s.len() == 0 {
        zero_counts()
    } else {
        combined(sum_counts(s.drop_last()), s.last())
    }
}

/// Every counter of a prefix sum is bounded by the whole sum.
pub proof fn lemma_sum_prefix_bound(s: Seq<Counts>, i: int)
    requires
        0 <= i <= s.len(),
    ensures
        sum_counts(s.take(i)).lines <= sum_counts(s).lines,
        sum_counts(s.take(i)).words <= sum_counts(s).words,
        sum_counts(s.take(i)).bytes <= sum_counts(s).bytes,
        sum_counts(s.take(i)).chars <= sum_counts(s).chars,
    decreases s.len() - i,
{
    if i == s.len() {
        assert(s.take(i) =~= s);
    } else {
        lemma_sum_prefix_bound(s, i + 1);
        assert(s.take(i + 1).drop_last() =~= s.take(i));
        assert(s.take(i + 1).last() == s[i]);
    }
}

/// The counters computed for one source (or for an aggregate of sources),
/// tagged with the source identifier, or with `"total"` for an aggregate.
#[derive(Debug)]
pub struct Stats {
    pub filename: String,
    pub lines: usize,
    pub words: usize,
    pub bytes: usize,
    pub chars: usize,
}

impl Stats {
    /// The four counters of this record, as mathematical integers.
    pub open spec fn counts(self) -> Counts {
        Counts {
            lines: self.lines as nat,
            words: self.words as nat,
            bytes: self.bytes as nat,
            chars: self.chars as nat,
        }
    }

    /// Measures a whole source in one forward pass: the line, word, byte,
    /// and character counts of `content`, in that order.
    pub fn count(content: &Vec<u8>) -> (r: (usize, usize, usize, usize))
        ensures
            r.0 == line_count(content@),
            r.1 == word_count(content@),
            r.2 == content@.len(),
            r.3 == char_count(content@),
            r.3 <= r.2,
    {
        let n = content.len();
        proof {
            lemma_chars_from_le(content@, 0);
            lemma_words_from_le_chars(content@, 0, false);
            lemma_newlines_from_bound(content@, 0);
        }
        let mut i: usize = 0;
        let mut nl: usize = 0;
        let mut w: usize = 0;
        let mut c: usize = 0;
        let mut in_word = false;
        while i < n
            invariant
                n == content@.len(),
                i <= n,
                newlines_from(content@, 0) == nl + newlines_from(content@, i as int),
                word_count(content@) == w + words_from(content@, i as int, in_word),
                char_count(content@) == c + chars_from(content@, i as int),
                newlines_from(content@, 0) <= n,
                word_count(content@) <= n,
                char_count(content@) <= n,
            decreases n - i,
        {
            let (l, cp) = decode_unit(content, i);
            let b = content[i];
            proof {
                lemma_unit_skip_newlines(content@, i as int);
                assert(chars_from(content@, i as int) == 1 + chars_from(
                    content@,
                    i as int + unit_len(content@, i as int),
                ));
                assert(words_from(content@, i as int, in_word) == (if !is_ws_code(
                    cp_at(content@, i as int),
                ) && !in_word {
                    1nat
                } else {
                    0nat
                }) + words_from(
                    content@,
                    i as int + unit_len(content@, i as int),
                    !is_ws_code(cp_at(content@, i as int)),
                ));
            }
            if b == 0x0A {
                nl = nl + 1;
            }
            let ws = is_whitespace_code(cp);
            if !ws && !in_word {
                w = w + 1;
            }
            in_word = !ws;
            c = c + 1;
            i = i + l;
        }
        let mut lines = nl;
        if n > 0 && content[n - 1] != 0x0A {
            proof {
                lemma_newlines_from_bound(content@, 0);
            }
            lines = lines + 1;
        }
        (lines, w, n, c)
    }

    /// Measures `content` and tags the result with the source identifier.
    pub fn build(filename: &String, content: &Vec<u8>) -> (r: Stats)
        ensures
            r.filename@ == filename@,
            r.lines == line_count(content@),
            r.words == word_count(content@),
            r.bytes == content@.len(),
            r.chars == char_count(content@),
    {
        let (l, w, b, c) = Stats::count(content);
        Stats { filename: filename.clone(), lines: l, words: w, bytes: b, chars: c }
    }

    /// Element-wise sum of two records, labelled as an aggregate.
    pub fn combine(self, rhs: Stats) -> (r: Stats)
        requires
            self.lines + rhs.lines <= usize::MAX,
            self.words + rhs.words <= usize::MAX,
            self.bytes + rhs.bytes <= usize::MAX,
            self.chars + rhs.chars <= usize::MAX,
        ensures
            r.counts() == combined(self.counts(), rhs.counts()),
            r.filename@ == "total"@,
    {
        Stats {
            filename: total_label(),
            lines: self.lines + rhs.lines,
            words: self.words + rhs.words,
            bytes: self.bytes + rhs.bytes,
            chars: self.chars + rhs.chars,
        }
    }

    /// `combine`, guarded against counter overflow: `None` exactly when some
    /// counter sum does not fit in `usize`.
    pub fn checked_combine(&self, rhs: &Stats) -> (r: Option<Stats>)
        ensures
            (self.lines + rhs.lines <= usize::MAX && self.words + rhs.words <= usize::MAX
                && self.bytes + rhs.bytes <= usize::MAX && self.chars + rhs.chars
                <= usize::MAX) ==> (r is Some && r->0.counts() == combined(
                self.counts(),
                rhs.counts(),
            ) && r->0.filename@ == "total"@),
            (self.lines + rhs.lines > usize::MAX || self.words + rhs.words > usize::MAX
                || self.bytes + rhs.bytes > usize::MAX || self.chars + rhs.chars > usize::MAX)
                ==> r is None,
    {
        if self.lines <= usize::MAX - rhs.lines && self.words <= usize::MAX - rhs.words
            && self.bytes <= usize::MAX - rhs.bytes && self.chars <= usize::MAX - rhs.chars {
            Some(
                Stats {
                    filename: total_label(),
                    lines: self.lines + rhs.lines,
                    words: self.words + rhs.words,
                    bytes: self.bytes + rhs.bytes,
                    chars: self.chars + rhs.chars,
                },
            )
        } else {
            None
        }
    }
}

impl Stats {
    /// Folds a batch of per-source records into one aggregate, the running
    /// total of the whole batch.
    pub fn sum(stats: &Vec<Stats>) -> (r: Stats)
        requires
            sum_counts(counts_seq(stats@)).lines <= usize::MAX,
            sum_counts(counts_seq(stats@)).words <= usize::MAX,
            sum_counts(counts_seq(stats@)).bytes <= usize::MAX,
            sum_counts(counts_seq(stats@)).chars <= usize::MAX,
        ensures
            r.counts() == sum_counts(counts_seq(stats@)),
            r.filename@ == "total"@,
    {
        let ghost cs = counts_seq(stats@);
        let mut total = Stats::default();
        let n = stats.len();
        let mut i: usize = 0;
        while i < n
            invariant
                n == stats@.len(),
                i <= n,
                cs == counts_seq(stats@),
                cs.len() == n,
                total.counts() == sum_counts(cs.take(i as int)),
                total.filename@ == "total"@,
                sum_counts(cs).lines <= usize::MAX,
                sum_counts(cs).words <= usize::MAX,
                sum_counts(cs).bytes <= usize::MAX,
                sum_counts(cs).chars <= usize::MAX,
            decreases n - i,
        {
            proof {
                lemma_sum_prefix_bound(cs, i + 1);
                assert(cs.take(i + 1).drop_last() =~= cs.take(i as int));
                assert(cs.take(i + 1).last() == cs[i as int]);
                assert(cs[i as int] == stats@[i as int].counts());
            }
            let s = &stats[i];
            total =
            Stats {
                filename: total.filename,
                lines: total.lines + s.lines,
                words: total.words + s.words,
                bytes: total.bytes + s.bytes,
                chars: total.chars + s.chars,
            };
            i = i + 1;
        }
        proof {
            assert(cs.take(n as int) =~= cs);
        }
        total
    }
}

impl Default for Stats {
    /// The empty aggregate: all counters zero, labelled `"total"`.
    fn default() -> (r: Stats)
        ensures
            r.counts() == zero_counts(),
            r.filename@ == "total"@,
    {
        Stats { filename: total_label(), lines: 0, words: 0, bytes: 0, chars: 0 }
    }
}

/// The fixed label carried by every aggregate record.
fn total_label() -> (r: String)
    ensures
        r@ == "total"@,
{
    "total".to_owned()
}

} // verus!
