//! Report formatting: each selected counter right-justified in an
//! eight-character field, followed by the source identifier (or by nothing
//! for the standard-input sentinel), and the per-source error line.

use vstd::prelude::*;
use vstd::string::{StrSliceExecFns, StringExecFns};

use crate::cli::Cli;
use crate::stats::Stats;

verus! {

/// The decimal digit character for a value below ten.
pub open spec fn digit_char(d: nat) -> char
    recommends
        d < 10,
{
    if d == 0 {
        '0'
    } else if d == 1 {
        '1'
    } else if d == 2 {
        '2'
    } else if d == 3 {
        '3'
    } else if d == 4 {
        '4'
    } else if d == 5 {
        '5'
    } else if d == 6 {
        '6'
    } else if d == 7 {
        '7'
    } else if d == 8 {
        '8'
    } else {
        '9'
    }
}

/// The decimal rendering of `n`, without padding or sign.
pub open spec fn dec_str(n: nat) -> Seq<char>
    decreases n,
{
    if n < 10 {
        seq![digit_char(n)]
    } else {
        dec_str(n / 10).push(digit_char(n % 10))
    }
}

/// `k` space characters.
pub open spec fn spaces(k: nat) -> Seq<char>
    decreases k,
{
    if k == 0 {
        Seq::<char>::empty()
    } else {
        spaces((k - 1) as nat).push(' ')
    }
}

/// The decimal rendering of `n`, right-justified in a field of eight
/// characters (wider values overflow the field unpadded).
pub open spec fn field8(n: nat) -> Seq<char> {
    if dec_str(n).len() < 8 {
        spaces((8 - dec_str(n).len()) as nat) + dec_str(n)
    } else {
        dec_str(n)
    }
}

/// The report row for one record: the selected counters in order, then a
/// space and the source identifier, or no identifier for standard input.
pub open spec fn row_view(st: Stats, lines: bool, words: bool, bytes: bool, chars: bool) -> Seq<
    char,
> {
    (if lines {
        field8(st.lines as nat)
    } else {
        Seq::<char>::empty()
    }) + (if words {
        field8(st.words as nat)
    } else {
        Seq::<char>::empty()
    }) + (if bytes {
        field8(st.bytes as nat)
    } else {
        Seq::<char>::empty()
    }) + (if chars {
        field8(st.chars as nat)
    } else {
        Seq::<char>::empty()
    }) + (if st.filename@ == "-"@ {
        Seq::<char>::empty()
    } else {
        " "@ + st.filename@
    })
}

/// The literal for one decimal digit.
fn digit_lit(d: usize) -> (r: &'static str)
    requires
        d < 10,
    ensures
        r@ == dec_str(d as nat),
{
    if d == 0 {
        proof {
            reveal_strlit("0");
            assert("0"@ =~= seq!['0']);
        }
        "0"
    } else if d == 1 {
        proof {
            reveal_strlit("1");
            assert("1"@ =~= seq!['1']);
        }
        "1"
    } else if d == 2 {
        proof {
            reveal_strlit("2");
            assert("2"@ =~= seq!['2']);
        }
        "2"
    } else if d == 3 {
        proof {
            reveal_strlit("3");
            assert("3"@ =~= seq!['3']);
        }
        "3"
    } else if d == 4 {
        proof {
            reveal_strlit("4");
            assert("4"@ =~= seq!['4']);
        }
        "4"
    } else if d == 5 {
        proof {
            reveal_strlit("5");
            assert("5"@ =~= seq!['5']);
        }
        "5"
    } else if d == 6 {
        proof {
            reveal_strlit("6");
            assert("6"@ =~= seq!['6']);
        }
        "6"
    } else if d == 7 {
        proof {
            reveal_strlit("7");
            assert("7"@ =~= seq!['7']);
        }
        "7"
    } else if d == 8 {
        proof {
            reveal_strlit("8");
            assert("8"@ =~= seq!['8']);
        }
        "8"
    } else {
        proof {
            reveal_strlit("9");
            assert("9"@ =~= seq!['9']);
        }
        "9"
    }
}

/// Appends the decimal rendering of `n` to `out`.
fn write_dec(n: usize, out: &mut String)
    ensures
        final (out)@ == old(out)@ + dec_str(n as nat),
    decreases n,
{
    if n >= 10 {
        write_dec(n / 10, out);
        out.append(digit_lit(n % 10));
        proof {
            assert(out@ =~= old(out)@ + dec_str(n as nat));
        }
    } else {
        out.append(digit_lit(n));
        proof {
            assert(out@ =~= old(out)@ + dec_str(n as nat));
        }
    }
}

/// Appends the decimal rendering of `n`, right-justified to eight
/// characters, to `out`.
fn push_field(out: &mut String, n: usize)
    ensures
        final (out)@ == old(out)@ + field8(n as nat),
{
    let mut digits = String::new();
    write_dec(n, &mut digits);
    let l = digits.as_str().unicode_len();
    proof {
        assert(out@ =~= old(out)@ + spaces(0));
    }
    let mut k = l;
    while k < 8
        invariant
            l == dec_str(n as nat).len(),
            digits@ == dec_str(n as nat),
            l <= k,
            l < 8 ==> k <= 8,
            l >= 8 ==> k == l,
            out@ == old(out)@ + spaces((k - l) as nat),
        decreases 8 - k,
    {
        proof {
            reveal_strlit(" ");
            assert(" "@ =~= seq![' ']);
        }
        out.append(" ");
        k = k + 1;
        proof {
            assert(out@ =~= old(out)@ + spaces((k - l) as nat));
        }
    }
    out.append(digits.as_str());
    proof {
        assert(out@ =~= old(out)@ + field8(n as nat));
    }
}

impl Stats {
    /// Renders this record as its report row under the display selection of
    /// `args`.
    pub fn format_row(&self, args: &Cli) -> (r: String)
        ensures
            r@ == row_view(*self, args.lines, args.words, args.bytes, args.chars),
    {
        let mut out = String::new();
        if args.lines {
            push_field(&mut out, self.lines);
        }
        if args.words {
            push_field(&mut out, self.words);
        }
        if args.bytes {
            push_field(&mut out, self.bytes);
        }
        if args.chars {
            push_field(&mut out, self.chars);
        }
        let stdin_sentinel = String::from_str("-");
        if !(self.filename == stdin_sentinel) {
            out.append(" ");
            out.append(self.filename.as_str());
        }
        proof {
            assert(out@ =~= row_view(*self, args.lines, args.words, args.bytes, args.chars));
        }
        out
    }
}

/// The per-source failure line: the source identifier, a separating colon,
/// and the reason.
pub fn format_error_line(filename: &String, message: &String) -> (r: String)
    ensures
        r@ == filename@ + ": "@ + message@,
{
    let mut out = filename.clone();
    out.append(": ");
    out.append(message.as_str());
    proof {
        assert(out@ =~= filename@ + ": "@ + message@);
    }
    out
}

} // verus!
