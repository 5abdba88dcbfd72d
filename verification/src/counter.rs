//! Incremental measurement: a `Counter` consumes one source chunk by chunk,
//! each chunk cut just after a newline, so that an arbitrarily large source
//! can be measured without being held in memory at once.

use vstd::prelude::*;

use crate::stats::Stats;
use crate::text::{
    char_count, lemma_chars_le_bytes, lemma_line_count_le, lemma_split_after_newline,
    lemma_words_from_le_chars, line_count, word_count,
};

verus! {

/// A running measurement of a single source. Every chunk but the last must
/// end just after a newline byte; the counters then agree at every step
/// with a single pass over everything fed so far.
pub struct Counter {
    history: Ghost<Seq<u8>>,
    lines: usize,
    words: usize,
    bytes: usize,
    chars: usize,
}

impl Counter {
    /// Everything fed so far.
    pub closed spec fn history(self) -> Seq<u8> {
        self.history@
    }

    /// The counters agree with a single pass over the whole history.
    pub closed spec fn wf(self) -> bool {
        &&& self.lines == line_count(self.history@)
        &&& self.words == word_count(self.history@)
        &&& self.bytes == self.history@.len()
        &&& self.chars == char_count(self.history@)
    }

    /// A fresh counter: nothing fed, every counter zero.
    pub fn new() -> (r: Counter)
        ensures
            r.wf(),
            r.history() == Seq::<u8>::empty(),
    {
        Counter { history: Ghost(Seq::empty()), lines: 0, words: 0, bytes: 0, chars: 0 }
    }

    /// The number of bytes fed so far.
    pub fn bytes_so_far(&self) -> (r: usize)
        requires
            self.wf(),
        ensures
            r == self.history().len(),
    {
        self.bytes
    }

    /// Feeds the next chunk of the source. Everything fed before must end
    /// just after a newline (or be empty): a chunk cut anywhere else must
    /// be the source's last.
    pub fn feed(&mut self, chunk: &Vec<u8>)
        requires
            old(self).wf(),
            old(self).history().len() == 0 || old(self).history()[old(self).history().len() - 1]
                == 0x0A,
            old(self).history().len() + chunk@.len() <= usize::MAX,
        ensures
            final (self).wf(),
            final (self).history() == old(self).history() + chunk@,
    {
        let (l, w, b, c) = Stats::count(chunk);
        proof {
            let whole = old(self).history@ + chunk@;
            if old(self).history@.len() > 0 {
                lemma_split_after_newline(old(self).history@, chunk@);
            } else {
                assert(whole =~= chunk@);
            }
            lemma_line_count_le(whole);
            lemma_chars_le_bytes(whole);
            lemma_words_from_le_chars(whole, 0, false);
        }
        self.lines = self.lines + l;
        self.words = self.words + w;
        self.bytes = self.bytes + b;
        self.chars = self.chars + c;
        self.history = Ghost(old(self).history@ + chunk@);
    }

    /// The measurement so far, tagged with the source identifier.
    pub fn stats(&self, filename: &String) -> (r: Stats)
        requires
            self.wf(),
        ensures
            r.filename@ == filename@,
            r.lines == line_count(self.history()),
            r.words == word_count(self.history()),
            r.bytes == self.history().len(),
            r.chars == char_count(self.history()),
    {
        Stats {
            filename: filename.clone(),
            lines: self.lines,
            words: self.words,
            bytes: self.bytes,
            chars: self.chars,
        }
    }
}

} // verus!
