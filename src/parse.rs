use vstd::prelude::*;
use vstd::string::*;

verus! {

/// Every sample is held as a fixed-point number: an `i64` counting millionths.
pub const SCALE: i64 = 1_000_000;

/// The magnitude at which a decimal no longer fits an `i64` of either sign.
const LIMIT: i128 = 0x8000_0000_0000_0000;

/// What `str::split` hands back for a line and a separator.
pub uninterp spec fn split_of(line: Seq<char>, sep: Seq<char>) -> Seq<Seq<char>>;

/// Seconds since the epoch of a field read as a `%Y-%m-%d %H:%M:%S` timestamp,
/// when the field is one.
pub uninterp spec fn datetime_seconds(field: Seq<char>) -> Option<i64>;

pub open spec fn in_i64(v: int) -> bool {
    i64::MIN <= v <= i64::MAX
}

pub open spec fn is_digit(c: char) -> bool {
    '0' <= c <= '9'
}

pub open spec fn digit_of(c: char) -> int {
    c as int - '0' as int
}

/// Weight, in millionths, of the fractional digit at position `k` (from 0).
/// Digits past the sixth carry nothing: they are truncated.
pub open spec fn frac_weight(k: int) -> int {
    if k == 0 {
        100_000
    } else if k == 1 {
        10_000
    } else if k == 2 {
        1_000
    } else if k == 3 {
        100
    } else if k == 4 {
        10
    } else if k == 5 {
        1
    } else {
        0
    }
}

/// State of a left-to-right reading of an unsigned decimal `digits[.digits]`.
pub struct Scan {
    pub mag: int,
    pub seen_digit: bool,
    pub dot: bool,
    pub frac: nat,
    pub ok: bool,
}

pub open spec fn scan_start() -> Scan {
    Scan { mag: 0, seen_digit: false, dot: false, frac: 0, ok: true }
}

pub open spec fn scan_step(st: Scan, c: char) -> Scan {
    if !st.ok {
        st
    } else if is_digit(c) {
        if !st.dot {
            Scan { mag: st.mag * 10 + digit_of(c) * SCALE, seen_digit: true, ..st }
        } else {
            Scan {
                mag: st.mag + digit_of(c) * frac_weight(st.frac as int),
                seen_digit: true,
                frac: st.frac + 1,
                ..st
            }
        }
    } else if c == '.' && !st.dot {
        Scan { dot: true, ..st }
    } else {
        Scan { ok: false, ..st }
    }
}

pub open spec fn scan(s: Seq<char>) -> Scan
    decreases s.len(),
{
    if s.len() == 0 {
        scan_start()
    } else {
        scan_step(scan(s.drop_last()), s.last())
    }
}

/// Where the digits of a decimal start: after one leading sign, if any.
pub open spec fn body_start(s: Seq<char>) -> int {
    if s.len() > 0 && (s[0] == '-' || s[0] == '+') {
        1
    } else {
        0
    }
}

/// The value in millionths of `[+-]digits[.digits]` (at least one digit), or
/// `None` when the text is no such decimal.
pub open spec fn decimal_value(s: Seq<char>) -> Option<int> {
    let st = scan(s.skip(body_start(s)));
    if st.ok && st.seen_digit {
        Some(if s.len() > 0 && s[0] == '-' { -st.mag } else { st.mag })
    } else {
        None
    }
}

/// The value of one field: a decimal if it reads as one, else a timestamp in
/// seconds, else zero.
pub open spec fn field_value(f: Seq<char>) -> int {
    if decimal_value(f) is Some && in_i64(decimal_value(f)->0) {
        decimal_value(f)->0
    } else if datetime_seconds(f) is Some && in_i64(datetime_seconds(f)->0 * SCALE) {
        datetime_seconds(f)->0 * SCALE
    } else {
        0
    }
}

/// Relies on `str::split`: the pieces of `line` between occurrences of `sep`.
#[verifier::external_body]
fn split_fields(line: &str, sep: &str) -> (r: Vec<String>)
    ensures
        r@.len() == split_of(line@, sep@).len(),
        forall|i: int| 0 <= i < r@.len() ==> #[trigger] r@[i]@ == split_of(line@, sep@)[i],
{
    line.split(sep).map(|p| p.to_string()).collect()
}

/// Relies on chrono's `NaiveDateTime::parse_from_str` with the format
/// `%Y-%m-%d %H:%M:%S`, and on `timestamp` for its seconds since the epoch.
#[verifier::external_body]
fn timestamp_seconds(field: &str) -> (r: Option<i64>)
    ensures
        r == datetime_seconds(field@),
{
    chrono::NaiveDateTime::parse_from_str(field, "%Y-%m-%d %H:%M:%S").ok().map(
        |t| t.and_utc().timestamp(),
    )
}

fn frac_weight_exec(k: usize) -> (r: i128)
    ensures
        r == frac_weight(k as int),
        0 <= r <= 100_000,
{
    if k == 0 {
        100_000
    } else if k == 1 {
        10_000
    } else if k == 2 {
        1_000
    } else if k == 3 {
        100
    } else if k == 4 {
        10
    } else if k == 5 {
        1
    } else {
        0
    }
}

proof fn lemma_scan_step_grows(st: Scan, c: char)
    requires
        st.mag >= 0,
    ensures
        scan_step(st, c).mag >= st.mag,
{
    if st.ok && is_digit(c) && st.dot {
        let d = digit_of(c);
        let w = frac_weight(st.frac as int);
        assert(0 <= w);
        assert(d * w >= 0) by (nonlinear_arith)
            requires
                0 <= d,
                0 <= w,
        ;
    }
}

/// Reads `s` as a decimal in millionths; `None` when it is no decimal or does
/// not fit an `i64`.
pub fn parse_decimal(s: &str) -> (r: Option<i64>)
    ensures
        r == (match decimal_value(s@) {
            Some(v) => if in_i64(v) {
                Some(v as i64)
            } else {
                None
            },
            None => None,
        }),
{
    let n = s.unicode_len();
    let mut start: usize = 0;
    let mut neg = false;
    if n > 0 {
        let c0 = s.get_char(0);
        if c0 == '-' || c0 == '+' {
            start = 1;
            neg = c0 == '-';
        }
    }
    let ghost body = s@.skip(start as int);
    let mut mag: i128 = 0;
    let mut big = false;
    let mut seen_digit = false;
    let mut dot = false;
    let mut frac: usize = 0;
    let mut ok = true;
    let mut i: usize = start;
    proof {
        assert(body.take(0) =~= Seq::<char>::empty());
    }
    while i < n
        invariant
            n == s@.len(),
            start == body_start(s@),
            body == s@.skip(start as int),
            start <= i <= n,
            frac <= i,
            scan(body.take(i - start)).mag >= 0,
            big ==> scan(body.take(i - start)).mag > LIMIT,
            !big ==> mag == scan(body.take(i - start)).mag && mag <= LIMIT,
            seen_digit == scan(body.take(i - start)).seen_digit,
            dot == scan(body.take(i - start)).dot,
            frac == scan(body.take(i - start)).frac,
            ok == scan(body.take(i - start)).ok,
        decreases n - i,
    {
        let c = s.get_char(i);
        let ghost prev = scan(body.take(i - start));
        proof {
            assert(body.take(i + 1 - start).drop_last() =~= body.take(i - start));
            assert(body.take(i + 1 - start).last() == c);
            lemma_scan_step_grows(prev, c);
        }
        if ok {
            if '0' <= c && c <= '9' {
                let d = (c as u32 - '0' as u32) as i128;
                if !dot {
                    if !big {
                        mag = mag * 10 + d * 1_000_000;
                    }
                } else {
                    let w = frac_weight_exec(frac);
                    if !big {
                        proof {
                            assert(d * w <= 900_000) by (nonlinear_arith)
                                requires
                                    0 <= d <= 9,
                                    0 <= w <= 100_000,
                            ;
                        }
                        mag = mag + d * w;
                    }
                    frac = frac + 1;
                }
                seen_digit = true;
                if !big && mag > LIMIT {
                    big = true;
                }
            } else if c == '.' && !dot {
                dot = true;
            } else {
                ok = false;
            }
        }
        i = i + 1;
    }
    proof {
        assert(body.take(n - start) =~= body);
    }
    if !ok || !seen_digit || big {
        return None;
    }
    if neg {
        Some((0 - mag) as i64)
    } else if mag == LIMIT {
        None
    } else {
        Some(mag as i64)
    }
}

/// Reads one field: as a decimal, else as a timestamp (its seconds in
/// millionths), else as zero. Never fails.
pub fn parse_field(f: &str) -> (r: i64)
    ensures
        r == field_value(f@),
{
    match parse_decimal(f) {
        Some(v) => v,
        None => match timestamp_seconds(f) {
            Some(t) => {
                let m = t as i128 * SCALE as i128;
                if i64::MIN as i128 <= m && m <= i64::MAX as i128 {
                    m as i64
                } else {
                    0
                }
            },
            None => 0,
        },
    }
}

/// Turns one raw line into a record: one value per piece of the line between
/// separators, read as `parse_field` reads it.
pub fn parse_line(sep: &str, line: &str) -> (r: Vec<i64>)
    ensures
        r@.len() == split_of(line@, sep@).len(),
        forall|i: int| 0 <= i < r@.len() ==> #[trigger] r@[i] == field_value(split_of(line@, sep@)[i]),
{
    let fields = split_fields(line, sep);
    let mut out: Vec<i64> = Vec::new();
    let mut i: usize = 0;
    while i < fields.len()
        invariant
            i <= fields@.len(),
            fields@.len() == split_of(line@, sep@).len(),
            forall|j: int| 0 <= j < fields@.len() ==> #[trigger] fields@[j]@ == split_of(line@, sep@)[j],
            out@.len() == i,
            forall|j: int| 0 <= j < i ==> #[trigger] out@[j] == field_value(split_of(line@, sep@)[j]),
        decreases fields@.len() - i,
    {
        let v = parse_field(fields[i].as_str());
        out.push(v);
        i = i + 1;
    }
    out
}

} // verus!
