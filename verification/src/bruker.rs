//! The pulse-file grammar.
//!
//! A pulse file is byte text: lines separated by newlines (a trailing
//! carriage return is dropped), blanks and tabs ignored everywhere,
//! lines beginning with `#` skipped, and every other line exactly two
//! comma-separated decimal numbers — the amplitude fraction (percent)
//! and the phase (degrees).  A malformed line is reported by its
//! 1-based line number.  A number is a sign, integer digits, and
//! optionally a dot and fraction digits, with at least one digit in
//! all; it is read into a saturating fixed-point scalar, fraction
//! digits beyond the ninth carrying no weight.

use crate::fixed::{clamp128, clip64, FX_MAX, FX_MIN, FX_SCALE};
use vstd::prelude::*;

verus! {

/// One pulse sample: amplitude fraction (percent of the nominal RF
/// amplitude) and phase (degrees), both fixed-point.
#[derive(Clone, Copy, Debug, PartialEq, Eq, Structural)]
pub struct PulseSample {
    pub amplitude_fraction: i64,
    pub phase_degrees: i64,
}

/// A parsed pulse file: its samples, in file order.
#[derive(Debug)]
pub struct BrukerData {
    pub pulse_sequence: Vec<PulseSample>,
}

/// A parse failure, naming the offending 1-based line.
#[derive(Clone, Copy, Debug, PartialEq, Eq, Structural)]
pub struct ParseError {
    pub line: usize,
}

/// A blank byte: space or tab.
pub open spec fn is_blank(b: u8) -> bool {
    b == 32 || b == 9
}

/// The text with every blank removed.
pub open spec fn spec_strip(s: Seq<u8>) -> Seq<u8>
    decreases s.len(),
{
    if s.len() == 0 {
        Seq::empty()
    } else if is_blank(s[0]) {
        spec_strip(s.skip(1))
    } else {
        seq![s[0]] + spec_strip(s.skip(1))
    }
}

/// Index of the first occurrence of `b`, or the length if absent.
pub open spec fn find_first(s: Seq<u8>, b: u8) -> int
    decreases s.len(),
{
    if s.len() == 0 {
        0
    } else if s[0] == b {
        0
    } else {
        1 + find_first(s.skip(1), b)
    }
}

/// `find_first` stays within the sequence.
pub proof fn lemma_find_first_bounds(s: Seq<u8>, b: u8)
    ensures
        0 <= find_first(s, b) <= s.len(),
        find_first(s, b) < s.len() ==> s[find_first(s, b)] == b,
    decreases s.len(),
{
    if s.len() != 0 && s[0] != b {
        lemma_find_first_bounds(s.skip(1), b);
    }
}

/// A scan that saw no `b` before `k`, and `b` (or the end) at `k`,
/// found the first occurrence.
proof fn lemma_find_first_char(s: Seq<u8>, b: u8, k: int)
    requires
        0 <= k <= s.len(),
        forall|j: int| 0 <= j < k ==> s[j] != b,
        k == s.len() || s[k] == b,
    ensures
        find_first(s, b) == k,
    decreases s.len(),
{
    if s.len() != 0 && s[0] != b {
        lemma_find_first_char(s.skip(1), b, k - 1);
    }
}

/// Every byte is a decimal digit.
pub open spec fn all_digits(s: Seq<u8>) -> bool {
    forall|i: int| 0 <= i < s.len() ==> 48 <= #[trigger] s[i] <= 57
}

/// The integer named by a digit string, most significant first.
pub open spec fn int_val(s: Seq<u8>) -> int
    decreases s.len(),
{
    if s.len() == 0 {
        0
    } else {
        int_val(s.take(s.len() - 1)) * 10 + (s[s.len() - 1] - 48)
    }
}

/// The fixed-point fraction named by the digits after the dot: the
/// first digit weighs `w` raw units (`10^8` at the top call), each
/// further digit a tenth of that, zero once the weight is exhausted.
pub open spec fn frac_val(s: Seq<u8>, w: int) -> int
    decreases s.len(),
{
    if s.len() == 0 || w <= 0 {
        0
    } else {
        (s[0] - 48) * w + frac_val(s.skip(1), w / 10)
    }
}

/// The fixed-point value of one decimal field: optional sign, integer
/// digits, optional dot and fraction digits; at least one digit in
/// all, and nothing else.  The value saturates at the fixed-point
/// range like every other operation.
pub open spec fn spec_parse_number(s: Seq<u8>) -> Option<i64> {
    let sl: int = if s.len() > 0 && (s[0] == 43 || s[0] == 45) {
        1
    } else {
        0
    };
    let neg = s.len() > 0 && s[0] == 45;
    let body = s.skip(sl);
    let dot = find_first(body, 46);
    let ip = body.take(dot);
    let fp = if dot < body.len() {
        body.skip(dot + 1)
    } else {
        Seq::<u8>::empty()
    };
    if ip.len() + fp.len() == 0 {
        None
    } else if !(all_digits(ip) && all_digits(fp)) {
        None
    } else {
        let mag = int_val(ip) * (FX_SCALE as int) + frac_val(fp, 100_000_000);
        if neg {
            Some(clip64(-mag))
        } else {
            Some(clip64(mag))
        }
    }
}

/// One data line: exactly two comma-separated numbers.
pub open spec fn spec_parse_line(line: Seq<u8>) -> Option<PulseSample> {
    let k = find_first(line, 44);
    if k >= line.len() {
        None
    } else {
        let a = line.take(k);
        let b = line.skip(k + 1);
        if find_first(b, 44) < b.len() {
            None
        } else {
            match (spec_parse_number(a), spec_parse_number(b)) {
                (Some(x), Some(y)) => Some(
                    PulseSample { amplitude_fraction: x, phase_degrees: y },
                ),
                _ => None,
            }
        }
    }
}

/// The whole (already blank-stripped) text, line by line from
/// `line_no`: comment lines are skipped, every other line must be a
/// data line, and the first failure is reported by its line number.
pub open spec fn spec_parse(s: Seq<u8>, line_no: int) -> Result<Seq<PulseSample>, int>
    decreases s.len(),
{
    if s.len() == 0 {
        Ok(Seq::empty())
    } else {
        let k0 = find_first(s, 10);
        let k: int = if 0 <= k0 <= s.len() {
            k0
        } else {
            s.len() as int
        };
        let rest = if k < s.len() {
            s.skip(k + 1)
        } else {
            Seq::<u8>::empty()
        };
        let line0 = s.take(k);
        let line = if line0.len() > 0 && line0[line0.len() - 1] == 13 {
            line0.take(line0.len() - 1)
        } else {
            line0
        };
        if line.len() > 0 && line[0] == 35 {
            spec_parse(rest, line_no + 1)
        } else {
            match spec_parse_line(line) {
                None => Err(line_no),
                Some(p) => match spec_parse(rest, line_no + 1) {
                    Err(e) => Err(e),
                    Ok(t) => Ok(seq![p] + t),
                },
            }
        }
    }
}

/// Stripping blanks never lengthens the text.
pub proof fn lemma_strip_len_le(s: Seq<u8>)
    ensures
        spec_strip(s).len() <= s.len(),
    decreases s.len(),
{
    if s.len() != 0 {
        lemma_strip_len_le(s.skip(1));
    }
}

/// Remove every blank from the text.
fn strip_blanks(s: &Vec<u8>) -> (r: Vec<u8>)
    ensures
        r@ == spec_strip(s@),
{
    let mut out: Vec<u8> = Vec::new();
    let mut i: usize = 0;
    proof {
        assert(s@.skip(0) =~= s@);
        assert(out@ + spec_strip(s@) =~= spec_strip(s@));
    }
    while i < s.len()
        invariant
            i <= s@.len(),
            spec_strip(s@) == out@ + spec_strip(s@.skip(i as int)),
        decreases s@.len() - i,
    {
        proof {
            assert(s@.skip(i as int).skip(1) =~= s@.skip(i as int + 1));
        }
        let b = s[i];
        if !(b == 32 || b == 9) {
            out.push(b);
            proof {
                assert((out@.drop_last() + seq![b]) + spec_strip(s@.skip(i as int + 1)) =~= out@
                    + spec_strip(s@.skip(i as int + 1)));
            }
        }
        i = i + 1;
    }
    proof {
        assert(s@.skip(s@.len() as int) =~= Seq::<u8>::empty());
        assert(out@ + spec_strip(Seq::<u8>::empty()) =~= out@);
    }
    out
}

/// Copy `v[lo..hi]` out.
fn copy_range(v: &Vec<u8>, lo: usize, hi: usize) -> (r: Vec<u8>)
    requires
        lo <= hi <= v@.len(),
    ensures
        r@ == v@.subrange(lo as int, hi as int),
{
    let mut out: Vec<u8> = Vec::new();
    let mut i: usize = lo;
    while i < hi
        invariant
            lo <= i <= hi <= v@.len(),
            out@ == v@.subrange(lo as int, i as int),
        decreases hi - i,
    {
        out.push(v[i]);
        proof {
            assert(v@.subrange(lo as int, i as int) + seq![v@[i as int]] =~= v@.subrange(
                lo as int,
                i as int + 1,
            ));
        }
        i = i + 1;
    }
    out
}

/// Parse one decimal field.
#[verifier::loop_isolation(false)]
#[verifier::rlimit(100)]
fn parse_number(s: &Vec<u8>) -> (r: Option<i64>)
    ensures
        r == spec_parse_number(s@),
{
    let n = s.len();
    let neg = n > 0 && s[0] == 45;
    let sl: usize = if n > 0 && (s[0] == 43 || s[0] == 45) {
        1
    } else {
        0
    };
    proof {
        assert(s@.skip(sl as int) =~= s@.subrange(sl as int, n as int));
    }
    // Find the dot.
    let mut dot: usize = sl;
    while dot < n && s[dot] != 46
        invariant
            sl <= dot <= n,
            n == s@.len(),
            forall|j: int| sl <= j < dot ==> s@[j] != 46,
        decreases n - dot,
    {
        dot = dot + 1;
    }
    proof {
        lemma_find_first_char(s@.skip(sl as int), 46, dot - sl);
        assert(s@.skip(sl as int).take(dot - sl) =~= s@.subrange(sl as int, dot as int));
        if dot < n {
            assert(s@.skip(sl as int).skip(dot - sl + 1) =~= s@.subrange(dot as int + 1, n as int));
        }
    }
    let ghost ip = s@.subrange(sl as int, dot as int);
    let ghost fp: Seq<u8> = if dot < n {
        s@.subrange(dot as int + 1, n as int)
    } else {
        Seq::<u8>::empty()
    };
    // Integer digits, capped once the value is surely saturated.
    let mut acc: u128 = 0;
    let mut over: bool = false;
    let mut j: usize = sl;
    while j < dot
        invariant
            sl <= j <= dot <= n,
            n == s@.len(),
            ip == s@.subrange(sl as int, dot as int),
            all_digits(s@.subrange(sl as int, j as int)),
            !over ==> acc == int_val(s@.subrange(sl as int, j as int)) && acc
                <= 10_000_000_000,
            over ==> int_val(s@.subrange(sl as int, j as int)) > 10_000_000_000,
        decreases dot - j,
    {
        let b = s[j];
        if !(48 <= b && b <= 57) {
            proof {
                assert(ip[j - sl] == s@[j as int]);
                assert(!all_digits(ip));
            }
            return None;
        }
        proof {
            let t = s@.subrange(sl as int, j as int + 1);
            assert(t.take(t.len() - 1) =~= s@.subrange(sl as int, j as int));
            assert(int_val(t) == int_val(s@.subrange(sl as int, j as int)) * 10 + (s@[j as int]
                - 48));
        }
        if over {
        } else {
            acc = acc * 10 + ((b - 48) as u128);
            if acc > 10_000_000_000 {
                over = true;
            }
        }
        j = j + 1;
    }
    // Fraction digits.
    let mut facc: u64 = 0;
    let mut w: u64 = 100_000_000;
    let fstart: usize = if dot < n {
        dot + 1
    } else {
        n
    };
    proof {
        if dot < n {
            assert(fp =~= s@.subrange(fstart as int, n as int));
        } else {
            assert(fp =~= s@.subrange(fstart as int, n as int));
        }
        assert(fp.skip(0) =~= fp);
    }
    let mut jf: usize = fstart;
    while jf < n
        invariant
            fstart <= jf <= n,
            n == s@.len(),
            fp == s@.subrange(fstart as int, n as int),
            all_digits(s@.subrange(fstart as int, jf as int)),
            frac_val(fp, 100_000_000) == facc + frac_val(
                s@.subrange(jf as int, n as int),
                w as int,
            ),
            w <= 100_000_000,
            facc + 10 * (w as int) <= 1_000_000_009,
        decreases n - jf,
    {
        let b = s[jf];
        if !(48 <= b && b <= 57) {
            proof {
                assert(fp[jf - fstart] == s@[jf as int]);
                assert(!all_digits(fp));
            }
            return None;
        }
        proof {
            let t = s@.subrange(jf as int, n as int);
            assert(t.skip(1) =~= s@.subrange(jf as int + 1, n as int));
            if w > 0 {
                assert(frac_val(t, w as int) == (s@[jf as int] - 48) * (w as int) + frac_val(
                    t.skip(1),
                    (w as int) / 10,
                ));
            }
        }
        if w > 0 {
            proof {
                crate::fixed::lemma_mul_bounds2((b - 48) as int, w as int, 9, w as int);
                vstd::arithmetic::div_mod::lemma_fundamental_div_mod(w as int, 10);
                vstd::arithmetic::div_mod::lemma_mod_bound(w as int, 10);
            }
            facc = facc + ((b - 48) as u64) * w;
            w = w / 10;
        } else {
            proof {
                let t = s@.subrange(jf as int, n as int);
                assert(frac_val(t, 0) == 0);
                assert(frac_val(s@.subrange(jf as int + 1, n as int), 0) == 0);
            }
        }
        jf = jf + 1;
    }
    proof {
        assert(s@.subrange(sl as int, dot as int) =~= ip);
        assert(s@.subrange(jf as int, n as int) =~= s@.subrange(n as int, n as int));
        assert(frac_val(s@.subrange(n as int, n as int), w as int) == 0);
        assert(s@.subrange(fstart as int, n as int) =~= fp);
        assert(s@.subrange(sl as int, dot as int).len() == dot - sl);
    }
    // At least one digit in all.
    let fp_len: usize = n - fstart;
    if dot == sl && fp_len == 0 {
        return None;
    }
    // Assemble, saturating.
    if over {
        proof {
            crate::fixed::lemma_mul_bounds(0, 0, 0);
            assert(int_val(ip) > 10_000_000_000);
            assert(int_val(ip) * (FX_SCALE as int) > 10_000_000_000 * (FX_SCALE as int))
                by (nonlinear_arith)
                requires
                    int_val(ip) > 10_000_000_000,
                    FX_SCALE == 1_000_000_000,
            ;
            assert(frac_val(fp, 100_000_000) == facc as int);
        }
        if neg {
            Some(FX_MIN)
        } else {
            Some(FX_MAX)
        }
    } else {
        proof {
            assert(frac_val(fp, 100_000_000) == facc as int);
        }
        let mag: i128 = (acc as i128) * 1_000_000_000 + (facc as i128);
        if neg {
            Some(clamp128(-mag))
        } else {
            Some(clamp128(mag))
        }
    }
}

/// Parse one data line: exactly two comma-separated numbers.
#[verifier::loop_isolation(false)]
fn parse_line(line: &Vec<u8>) -> (r: Option<PulseSample>)
    ensures
        r == spec_parse_line(line@),
{
    let n = line.len();
    let mut c: usize = 0;
    while c < n && line[c] != 44
        invariant
            c <= n,
            n == line@.len(),
            forall|j: int| 0 <= j < c ==> line@[j] != 44,
        decreases n - c,
    {
        c = c + 1;
    }
    proof {
        assert(line@.skip(0) =~= line@);
        lemma_find_first_char(line@, 44, c as int);
    }
    if c == n {
        return None;
    }
    let mut c2: usize = c + 1;
    while c2 < n && line[c2] != 44
        invariant
            c < c2 <= n,
            n == line@.len(),
            forall|j: int| c < j < c2 ==> line@[j] != 44,
        decreases n - c2,
    {
        c2 = c2 + 1;
    }
    proof {
        lemma_find_first_char(line@.skip(c as int + 1), 44, c2 - c - 1);
        assert(line@.take(c as int) =~= line@.subrange(0, c as int));
        assert(line@.skip(c as int + 1) =~= line@.subrange(c as int + 1, n as int));
    }
    if c2 < n {
        return None;
    }
    let a = copy_range(line, 0, c);
    let b = copy_range(line, c + 1, n);
    let xa = parse_number(&a);
    let xb = parse_number(&b);
    match (xa, xb) {
        (Some(x), Some(y)) => Some(PulseSample { amplitude_fraction: x, phase_degrees: y }),
        _ => None,
    }
}

impl BrukerData {
    /// Parse the byte text of a pulse file: blanks ignored, `#` lines
    /// skipped, every other line two comma-separated numbers; a
    /// failure names the first offending 1-based line.
    #[verifier::rlimit(100)]
    pub fn from_csv(contents: &Vec<u8>) -> (r: Result<BrukerData, ParseError>)
        requires
            contents@.len() < usize::MAX,
        ensures
            r matches Ok(d) ==> spec_parse(spec_strip(contents@), 1) == Ok::<Seq<PulseSample>, int>(
                d.pulse_sequence@,
            ),
            r matches Err(e) ==> spec_parse(spec_strip(contents@), 1) == Err::<
                Seq<PulseSample>,
                int,
            >(e.line as int),
    {
        let stripped = strip_blanks(contents);
        proof {
            lemma_strip_len_le(contents@);
        }
        let m = stripped.len();
        let mut out: Vec<PulseSample> = Vec::new();
        let mut i: usize = 0;
        let mut line_no: usize = 1;
        proof {
            assert(stripped@.skip(0) =~= stripped@);
            if spec_parse(stripped@, 1) is Ok {
                assert(out@ + spec_parse(stripped@, 1)->Ok_0 =~= spec_parse(stripped@, 1)->Ok_0);
            }
        }
        while i < m
            invariant
                i <= m,
                m == stripped@.len(),
                m <= contents@.len(),
                contents@.len() < usize::MAX,
                stripped@ == spec_strip(contents@),
                1 <= line_no <= i + 1,
                ({
                    let whole = spec_parse(stripped@, 1);
                    match spec_parse(stripped@.skip(i as int), line_no as int) {
                        Ok(t) => whole == Ok::<Seq<PulseSample>, int>(out@ + t),
                        Err(e) => whole == Err::<Seq<PulseSample>, int>(e),
                    }
                }),
            decreases m - i,
        {
            let ghost srest = stripped@.skip(i as int);
            // Find the end of the line.
            let mut k: usize = i;
            while k < m && stripped[k] != 10
                invariant
                    i <= k <= m,
                    m == stripped@.len(),
                    forall|j: int| i <= j < k ==> stripped@[j] != 10,
                decreases m - k,
            {
                k = k + 1;
            }
            proof {
                lemma_find_first_char(srest, 10, k - i);
                assert(srest.take(k - i) =~= stripped@.subrange(i as int, k as int));
            }
            // Drop a trailing carriage return.
            let mut end: usize = k;
            if end > i && stripped[end - 1] == 13 {
                end = end - 1;
                proof {
                    assert(stripped@.subrange(i as int, k as int).take(k - 1 - i) =~= stripped@
                        .subrange(i as int, end as int));
                }
            }
            let ghost sline = stripped@.subrange(i as int, end as int);
            let next: usize = if k < m {
                k + 1
            } else {
                k
            };
            proof {
                if k < m {
                    assert(srest.skip(k - i + 1) =~= stripped@.skip(next as int));
                } else {
                    assert(stripped@.skip(next as int) =~= Seq::<u8>::empty());
                }
            }
            if end > i && stripped[i] == 35 {
                proof {
                    assert(sline[0] == stripped@[i as int]);
                    assert(spec_parse(srest, line_no as int) == spec_parse(
                        stripped@.skip(next as int),
                        line_no as int + 1,
                    ));
                }
                i = next;
                line_no = line_no + 1;
            } else {
                let line = copy_range(&stripped, i, end);
                match parse_line(&line) {
                    None => {
                        return Err(ParseError { line: line_no });
                    },
                    Some(p) => {
                        let ghost old_out = out@;
                        proof {
                            if sline.len() > 0 {
                                assert(sline[0] == stripped@[i as int]);
                            }
                            assert(spec_parse(srest, line_no as int) == (match spec_parse(
                                stripped@.skip(next as int),
                                line_no as int + 1,
                            ) {
                                Err(e) => Err::<Seq<PulseSample>, int>(e),
                                Ok(t) => Ok::<Seq<PulseSample>, int>(seq![p] + t),
                            }));
                        }
                        out.push(p);
                        proof {
                            assert(out@ =~= old_out + seq![p]);
                            if spec_parse(stripped@.skip(next as int), line_no as int + 1) is Ok {
                                let t = spec_parse(
                                    stripped@.skip(next as int),
                                    line_no as int + 1,
                                )->Ok_0;
                                assert((old_out + seq![p]) + t =~= old_out + (seq![p] + t));
                            }
                        }
                        i = next;
                        line_no = line_no + 1;
                    },
                }
            }
        }
        proof {
            assert(stripped@.skip(m as int) =~= Seq::<u8>::empty());
            assert(out@ + Seq::<PulseSample>::empty() =~= out@);
        }
        Ok(BrukerData { pulse_sequence: out })
    }
}

} // verus!
