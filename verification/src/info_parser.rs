//! Parser for one line of engine search-progress output.
//!
//! A line is accepted only in the exact shape
//! `info depth D seldepth S multipv M score (cp C [upperbound|lowerbound] |
//! mate P) nodes N nps R hashfull H tbhits T time MS pv <move tokens>`,
//! where every numeric field is a run of decimal digits (the `cp` value may
//! carry a leading minus) and the principal variation is the non-empty run
//! of non-empty space-separated tokens after `pv`; whatever follows that run
//! is ignored. Any other line is rejected as a whole: most engine output is
//! not a search-progress line, and rejection is not an error.

use vstd::prelude::*;
use vstd::string::StrSliceExecFns;
use vstd::string::StringExecFns;

verus! {

/// Index of the first space at or after `i`, or the end of `s`.
pub open spec fn space_or_end(s: Seq<char>, i: int) -> int
    recommends
        0 <= i <= s.len(),
    decreases s.len() - i,
{
    if i < 0 || i >= s.len() {
        s.len() as int
    } else if s[i] == ' ' {
        i
    } else {
        space_or_end(s, i + 1)
    }
}

proof fn lemma_space_or_end_bounds(s: Seq<char>, i: int)
    requires
        0 <= i <= s.len(),
    ensures
        i <= space_or_end(s, i) <= s.len(),
    decreases s.len() - i,
{
    if i < s.len() && s[i] != ' ' {
        lemma_space_or_end_bounds(s, i + 1);
    }
}

/// The words of `s[i..]`, split on every single space: `n` spaces make
/// `n + 1` words, and runs of spaces make empty words.
pub open spec fn words_from(s: Seq<char>, i: int) -> Seq<Seq<char>>
    recommends
        0 <= i <= s.len(),
    decreases s.len() - i + 1,
        via words_from_decreases
{
    if i < 0 || i > s.len() {
        seq![]
    } else {
        let j = space_or_end(s, i);
        if j >= s.len() {
            seq![s.subrange(i, s.len() as int)]
        } else {
            seq![s.subrange(i, j)] + words_from(s, j + 1)
        }
    }
}

#[via_fn]
proof fn words_from_decreases(s: Seq<char>, i: int) {
    if 0 <= i <= s.len() {
        lemma_space_or_end_bounds(s, i);
    }
}

/// The words of the whole line.
pub open spec fn spec_words(s: Seq<char>) -> Seq<Seq<char>> {
    words_from(s, 0)
}

proof fn lemma_space_or_end(s: Seq<char>, i: int, j: int)
    requires
        0 <= i <= j <= s.len(),
        forall|t: int| i <= t < j ==> s[t] != ' ',
        j == s.len() || s[j] == ' ',
    ensures
        space_or_end(s, i) == j,
    decreases j - i,
{
    if i < j {
        lemma_space_or_end(s, i + 1, j);
    }
}

/// Splits a line into its single-space-separated words.
fn split_line(line: &str) -> (r: Vec<String>)
    ensures
        r.deep_view() == spec_words(line@),
        r@.len() >= 1,
{
    let ghost s = line@;
    let n = line.unicode_len();
    let mut words: Vec<String> = Vec::new();
    let mut start: usize = 0;
    let mut j: usize = 0;
    while j < n
        invariant
            start <= j <= n,
            n == s.len(),
            s == line@,
            forall|t: int| start <= t < j ==> s[t] != ' ',
            words.deep_view() + words_from(s, start as int) == words_from(s, 0),
        decreases n - j,
    {
        let c = line.get_char(j);
        if c == ' ' {
            proof {
                lemma_space_or_end(s, start as int, j as int);
            }
            let w = line.substring_char(start, j).to_owned();
            let ghost before = words.deep_view();
            words.push(w);
            proof {
                assert(words.deep_view() =~= before + seq![s.subrange(start as int, j as int)]);
                assert(words.deep_view() + words_from(s, j + 1) =~= words_from(s, 0));
            }
            start = j + 1;
        }
        j += 1;
    }
    proof {
        lemma_space_or_end(s, start as int, n as int);
    }
    let w = line.substring_char(start, n).to_owned();
    let ghost before = words.deep_view();
    words.push(w);
    proof {
        assert(words.deep_view() =~= before + seq![s.subrange(start as int, n as int)]);
        assert(words.deep_view() =~= words_from(s, 0));
    }
    words
}

/// Is `c` a decimal digit?
pub open spec fn is_digit(c: char) -> bool {
    48 <= c as u32 <= 57
}

/// The value of a digit.
pub open spec fn digit_val(c: char) -> int {
    c as u32 - 48
}

/// Is `w` a non-empty run of decimal digits?
pub open spec fn is_digits(w: Seq<char>) -> bool {
    w.len() >= 1 && forall|t: int| 0 <= t < w.len() ==> is_digit(#[trigger] w[t])
}

/// The decimal value of the first `upto` characters of `w`.
pub open spec fn dec_val(w: Seq<char>, upto: int) -> int
    decreases upto,
{
    if upto <= 0 {
        0
    } else {
        dec_val(w, upto - 1) * 10 + digit_val(w[upto - 1])
    }
}

proof fn lemma_dec_val_nonneg(w: Seq<char>, b: int)
    requires
        b <= w.len(),
        forall|t: int| 0 <= t < w.len() ==> is_digit(#[trigger] w[t]),
    ensures
        dec_val(w, b) >= 0,
    decreases b,
{
    if b > 0 {
        lemma_dec_val_nonneg(w, b - 1);
    }
}

proof fn lemma_dec_val_grows(w: Seq<char>, a: int, b: int)
    requires
        0 <= a <= b <= w.len(),
        forall|t: int| 0 <= t < w.len() ==> is_digit(#[trigger] w[t]),
    ensures
        dec_val(w, a) <= dec_val(w, b),
    decreases b - a,
{
    if a < b {
        lemma_dec_val_grows(w, a, b - 1);
        lemma_dec_val_nonneg(w, b - 1);
        assert(is_digit(w[b - 1]));
    }
}

/// A word read as an unsigned number, rejected unless it is all digits
/// with a value that fits the machine.
pub open spec fn spec_num(w: Seq<char>) -> Option<usize> {
    if is_digits(w) && dec_val(w, w.len() as int) <= usize::MAX {
        Some(dec_val(w, w.len() as int) as usize)
    } else {
        None
    }
}

/// A word read as a signed number: an optional leading minus, then digits.
pub open spec fn spec_signed(w: Seq<char>) -> Option<i64> {
    if w.len() >= 1 && w[0] == '-' {
        let rest = w.skip(1);
        if is_digits(rest) && dec_val(rest, rest.len() as int) <= i64::MAX {
            Some((-dec_val(rest, rest.len() as int)) as i64)
        } else {
            None
        }
    } else if is_digits(w) && dec_val(w, w.len() as int) <= i64::MAX {
        Some(dec_val(w, w.len() as int) as i64)
    } else {
        None
    }
}

fn parse_num(w: &str) -> (r: Option<usize>)
    ensures
        r == spec_num(w@),
{
    let n = w.unicode_len();
    if n == 0 {
        return None;
    }
    let mut val: usize = 0;
    let mut t: usize = 0;
    while t < n
        invariant
            t <= n,
            n == w@.len(),
            forall|u: int| 0 <= u < t ==> is_digit(#[trigger] w@[u]),
            val == dec_val(w@, t as int),
        decreases n - t,
    {
        let c = w.get_char(t);
        let cv: u32 = c as u32;
        if cv < 48 || cv > 57 {
            assert(!is_digit(w@[t as int]));
            return None;
        }
        let d = (cv - 48) as usize;
        if val > (usize::MAX - d) / 10 {
            proof {
                vstd::arithmetic::div_mod::lemma_fundamental_div_mod(
                    (usize::MAX - d) as int,
                    10,
                );
                assert(val * 10 + d > usize::MAX);
                assert(dec_val(w@, t + 1) > usize::MAX);
                if is_digits(w@) {
                    lemma_dec_val_grows(w@, t + 1, w@.len() as int);
                }
            }
            return None;
        }
        val = val * 10 + d;
        t += 1;
    }
    Some(val)
}

fn parse_digits_i64(w: &str) -> (r: Option<i64>)
    ensures
        match r {
            Some(v) => is_digits(w@) && dec_val(w@, w@.len() as int) <= i64::MAX && v == dec_val(
                w@,
                w@.len() as int,
            ) && v >= 0,
            None => !(is_digits(w@) && dec_val(w@, w@.len() as int) <= i64::MAX),
        },
{
    let n = w.unicode_len();
    if n == 0 {
        return None;
    }
    let mut val: i64 = 0;
    let mut t: usize = 0;
    while t < n
        invariant
            t <= n,
            n == w@.len(),
            forall|u: int| 0 <= u < t ==> is_digit(#[trigger] w@[u]),
            0 <= val,
            val == dec_val(w@, t as int),
        decreases n - t,
    {
        let c = w.get_char(t);
        let cv: u32 = c as u32;
        if cv < 48 || cv > 57 {
            assert(!is_digit(w@[t as int]));
            return None;
        }
        let d = (cv - 48) as i64;
        if val > (i64::MAX - d) / 10 {
            proof {
                vstd::arithmetic::div_mod::lemma_fundamental_div_mod((i64::MAX - d) as int, 10);
                assert(val * 10 + d > i64::MAX);
                assert(dec_val(w@, t + 1) > i64::MAX);
                if is_digits(w@) {
                    lemma_dec_val_grows(w@, t + 1, w@.len() as int);
                }
            }
            return None;
        }
        val = val * 10 + d;
        t += 1;
    }
    Some(val)
}

fn parse_signed(w: &str) -> (r: Option<i64>)
    ensures
        r == spec_signed(w@),
{
    let n = w.unicode_len();
    if n >= 1 && w.get_char(0) == '-' {
        let rest = w.substring_char(1, n);
        match parse_digits_i64(rest) {
            Some(v) => Some(-v),
            None => None,
        }
    } else {
        match parse_digits_i64(w) {
            Some(v) => Some(v),
            None => None,
        }
    }
}

/// Compares a word against an expected keyword.
fn word_is(w: &String, lit: &str) -> (r: bool)
    ensures
        r == (w@ == lit@),
{
    let owned: String = lit.to_owned();
    *w == owned
}

/// A bound qualifier on a centipawn score.
#[derive(Debug, PartialEq, Eq, Structural, Clone, Copy)]
pub enum Bound {
    Upper,
    Lower,
}

/// A centipawn score. `cp` is the raw signed value the engine printed; the
/// conventional pawn-unit score is `cp / 100`.
#[derive(Debug)]
pub struct CPScore {
    pub cp: i64,
    pub bound: Option<Bound>,
}

/// An engine score: mate in `plies`, or a centipawn evaluation.
#[derive(Debug)]
pub enum Score {
    Mate(usize),
    CP(CPScore),
}

/// One parsed search-progress record.
///
/// `hashfull` is the raw integer the engine printed; the stored fraction of
/// the original design is `hashfull / 100`, which for a conventional
/// permille reading lands in 0..10 rather than 0..1 — kept as the source
/// arithmetic had it.
#[derive(Debug)]
pub struct Info {
    pub depth: usize,
    pub seldepth: usize,
    pub multipv: usize,
    pub score: Score,
    pub nodes: usize,
    pub nps: usize,
    pub hashfull: usize,
    pub tbhits: usize,
    pub time: usize,
    pub pv: Vec<String>,
}

/// Spec-level image of a parsed score.
pub ghost enum ScoreV {
    Mate(int),
    CP(int, Option<Bound>),
}

/// Spec-level image of a parsed record.
pub ghost struct InfoV {
    pub depth: int,
    pub seldepth: int,
    pub multipv: int,
    pub score: ScoreV,
    pub nodes: int,
    pub nps: int,
    pub hashfull: int,
    pub tbhits: int,
    pub time: int,
    pub pv: Seq<Seq<char>>,
}

impl Score {
    pub open spec fn view_v(self) -> ScoreV {
        match self {
            Score::Mate(p) => ScoreV::Mate(p as int),
            Score::CP(c) => ScoreV::CP(c.cp as int, c.bound),
        }
    }
}

impl Info {
    pub open spec fn view_v(self) -> InfoV {
        InfoV {
            depth: self.depth as int,
            seldepth: self.seldepth as int,
            multipv: self.multipv as int,
            score: self.score.view_v(),
            nodes: self.nodes as int,
            nps: self.nps as int,
            hashfull: self.hashfull as int,
            tbhits: self.tbhits as int,
            time: self.time as int,
            pv: self.pv.deep_view(),
        }
    }
}

/// The score words starting at index `i`: `cp` with a value and an optional
/// bound, or `mate` with a value. Yields the score and the index after it.
pub open spec fn spec_score_at(w: Seq<Seq<char>>, i: int) -> Option<(ScoreV, int)> {
    if w.len() > i + 1 && w[i] == "cp"@ {
        match spec_signed(w[i + 1]) {
            Some(v) => if w.len() > i + 2 && w[i + 2] == "upperbound"@ {
                Some((ScoreV::CP(v as int, Some(Bound::Upper)), i + 3))
            } else if w.len() > i + 2 && w[i + 2] == "lowerbound"@ {
                Some((ScoreV::CP(v as int, Some(Bound::Lower)), i + 3))
            } else {
                Some((ScoreV::CP(v as int, None), i + 2))
            },
            None => None,
        }
    } else if w.len() > i + 1 && w[i] == "mate"@ {
        match spec_num(w[i + 1]) {
            Some(p) => Some((ScoreV::Mate(p as int), i + 2)),
            None => None,
        }
    } else {
        None
    }
}

/// The longest run of non-empty words starting at index `i`.
pub open spec fn pv_words(w: Seq<Seq<char>>, i: int) -> Seq<Seq<char>>
    decreases w.len() - i,
{
    if i < 0 || i >= w.len() || w[i].len() == 0 {
        seq![]
    } else {
        seq![w[i]] + pv_words(w, i + 1)
    }
}

/// What a line means: the parsed record of a line in the exact expected
/// shape, or nothing.
pub open spec fn spec_parse_info(s: Seq<char>) -> Option<InfoV> {
    let w = spec_words(s);
    if !(w.len() > 8 && w[0] == "info"@ && w[1] == "depth"@ && w[3] == "seldepth"@ && w[5]
        == "multipv"@ && w[7] == "score"@) {
        None
    } else {
        match (spec_num(w[2]), spec_num(w[4]), spec_num(w[6])) {
            (Some(depth), Some(seldepth), Some(multipv)) => match spec_score_at(w, 8) {
                Some((score, j)) => {
                    if !(w.len() > j + 10 && w[j] == "nodes"@ && w[j + 2] == "nps"@ && w[j + 4]
                        == "hashfull"@ && w[j + 6] == "tbhits"@ && w[j + 8] == "time"@ && w[j + 10]
                        == "pv"@) {
                        None
                    } else {
                        match (spec_num(w[j + 1]), spec_num(w[j + 3]), spec_num(w[j + 5]), spec_num(
                            w[j + 7],
                        ), spec_num(w[j + 9])) {
                            (
                                Some(nodes),
                                Some(nps),
                                Some(hashfull),
                                Some(tbhits),
                                Some(time),
                            ) => {
                                let pv = pv_words(w, j + 11);
                                if pv.len() >= 1 {
                                    Some(
                                        InfoV {
                                            depth: depth as int,
                                            seldepth: seldepth as int,
                                            multipv: multipv as int,
                                            score,
                                            nodes: nodes as int,
                                            nps: nps as int,
                                            hashfull: hashfull as int,
                                            tbhits: tbhits as int,
                                            time: time as int,
                                            pv,
                                        },
                                    )
                                } else {
                                    None
                                }
                            },
                            _ => None,
                        }
                    }
                },
                None => None,
            },
            _ => None,
        }
    }
}

impl Info {
    /// Parses one line of engine output into a record, or rejects it.
    /// A parsed record always carries at least one principal-variation move.
    pub fn parse_info(line: &str) -> (r: Option<Info>)
        ensures
            match r {
                Some(info) => spec_parse_info(line@) == Some(info.view_v()) && info.pv@.len() >= 1,
                None => spec_parse_info(line@) is None,
            },
    {
        let words = split_line(line);
        let ghost w = spec_words(line@);
        if !(words.len() > 8 && word_is(&words[0], "info") && word_is(&words[1], "depth")
            && word_is(&words[3], "seldepth") && word_is(&words[5], "multipv") && word_is(
            &words[7],
            "score",
        )) {
            return None;
        }
        let depth = match parse_num(words[2].as_str()) {
            Some(v) => v,
            None => {
                return None;
            },
        };
        let seldepth = match parse_num(words[4].as_str()) {
            Some(v) => v,
            None => {
                return None;
            },
        };
        let multipv = match parse_num(words[6].as_str()) {
            Some(v) => v,
            None => {
                return None;
            },
        };
        let (score, j): (Score, usize) = if words.len() > 9 && word_is(&words[8], "cp") {
            let v = match parse_signed(words[9].as_str()) {
                Some(v) => v,
                None => {
                    return None;
                },
            };
            if words.len() > 10 && word_is(&words[10], "upperbound") {
                (Score::CP(CPScore { cp: v, bound: Some(Bound::Upper) }), 11)
            } else if words.len() > 10 && word_is(&words[10], "lowerbound") {
                (Score::CP(CPScore { cp: v, bound: Some(Bound::Lower) }), 11)
            } else {
                (Score::CP(CPScore { cp: v, bound: None }), 10)
            }
        } else if words.len() > 9 && word_is(&words[8], "mate") {
            let p = match parse_num(words[9].as_str()) {
                Some(v) => v,
                None => {
                    return None;
                },
            };
            (Score::Mate(p), 10)
        } else {
            return None;
        };
        assert(spec_score_at(w, 8) == Some((score.view_v(), j as int)));
        if !(words.len() > j + 10 && word_is(&words[j], "nodes") && word_is(&words[j + 2], "nps")
            && word_is(&words[j + 4], "hashfull") && word_is(&words[j + 6], "tbhits") && word_is(
            &words[j + 8],
            "time",
        ) && word_is(&words[j + 10], "pv")) {
            return None;
        }
        let nodes = match parse_num(words[j + 1].as_str()) {
            Some(v) => v,
            None => {
                return None;
            },
        };
        let nps = match parse_num(words[j + 3].as_str()) {
            Some(v) => v,
            None => {
                return None;
            },
        };
        let hashfull = match parse_num(words[j + 5].as_str()) {
            Some(v) => v,
            None => {
                return None;
            },
        };
        let tbhits = match parse_num(words[j + 7].as_str()) {
            Some(v) => v,
            None => {
                return None;
            },
        };
        let time = match parse_num(words[j + 9].as_str()) {
            Some(v) => v,
            None => {
                return None;
            },
        };
        let mut pv: Vec<String> = Vec::new();
        let mut t: usize = j + 11;
        while t < words.len() && !words[t].as_str().is_empty()
            invariant
                j + 11 <= t <= words.len(),
                words.deep_view() == w,
                pv.deep_view() + pv_words(w, t as int) == pv_words(w, j + 11),
            decreases words@.len() - t,
        {
            let ghost before = pv.deep_view();
            pv.push(words[t].clone());
            proof {
                assert(pv.deep_view() =~= before + seq![w[t as int]]);
                assert(pv.deep_view() + pv_words(w, t + 1) =~= pv_words(w, j + 11));
            }
            t += 1;
        }
        assert(pv_words(w, t as int) =~= seq![]);
        assert(pv.deep_view() =~= pv_words(w, j + 11));
        if pv.is_empty() {
            return None;
        }
        let info = Info {
            depth,
            seldepth,
            multipv,
            score,
            nodes,
            nps,
            hashfull,
            tbhits,
            time,
            pv,
        };
        assert(spec_parse_info(line@) == Some(info.view_v()));
        Some(info)
    }
}

} // verus!
