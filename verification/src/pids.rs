//! Reading the process ids listed in a control group's `cgroup.procs`: one
//! decimal number per line.
use vstd::prelude::*;
use vstd::string::StringSliceAdditionalSpecFns;

verus! {

/// The byte of a line feed.
pub const LF: u8 = 10;

/// The byte of a carriage return.
pub const CR: u8 = 13;

/// The position of the first line feed in `b`, or its length when it has none.
pub open spec fn first_newline(b: Seq<u8>) -> nat
    decreases b.len(),
{
    if b.len() == 0 {
        0
    } else if b[0] == LF {
        0
    } else {
        1 + first_newline(b.drop_first())
    }
}

/// `first_newline` is the position of the first line feed, or the length.
pub proof fn lemma_first_newline(b: Seq<u8>)
    ensures
        first_newline(b) <= b.len(),
        first_newline(b) < b.len() ==> b[first_newline(b) as int] == LF,
        forall|k: int| 0 <= k < first_newline(b) ==> b[k] != LF,
    decreases b.len(),
{
    if b.len() > 0 && b[0] != LF {
        lemma_first_newline(b.drop_first());
        assert forall|k: int| 0 <= k < first_newline(b) implies b[k] != LF by {
            if k > 0 {
                assert(b[k] == b.drop_first()[k - 1]);
            }
        }
    }
}

/// A position with no line feed before it and a line feed (or the end) at it
/// is the first line feed.
pub proof fn lemma_first_newline_at(b: Seq<u8>, n: int)
    requires
        0 <= n <= b.len(),
        n < b.len() ==> b[n] == LF,
        forall|k: int| 0 <= k < n ==> b[k] != LF,
    ensures
        first_newline(b) == n,
    decreases n,
{
    if n > 0 {
        lemma_first_newline_at(b.drop_first(), n - 1);
    }
}

/// A line without the carriage return that ended it.
pub open spec fn strip_cr(line: Seq<u8>) -> Seq<u8> {
    if line.len() > 0 && line.last() == CR {
        line.drop_last()
    } else {
        line
    }
}

/// The lines of `b`, as `str::lines` gives them: split after each line feed,
/// with the line feed and a carriage return just before it removed; a last
/// line without a line feed is kept as it is, and there is no empty line after
/// a final line feed.
pub open spec fn spec_lines(b: Seq<u8>) -> Seq<Seq<u8>>
    decreases b.len(),
{
    if b.len() == 0 {
        seq![]
    } else {
        let n = first_newline(b);
        if n < b.len() {
            seq![strip_cr(b.subrange(0, n as int))] + spec_lines(
                b.subrange(n as int + 1, b.len() as int),
            )
        } else {
            seq![b]
        }
    }
}

/// `b` is an ASCII decimal digit.
pub open spec fn is_digit(b: u8) -> bool {
    48 <= b <= 57
}

/// The number that the decimal digits `d` spell.
pub open spec fn digits_value(d: Seq<u8>) -> int
    decreases d.len(),
{
    if d.len() == 0 {
        0
    } else {
        digits_value(d.drop_last()) * 10 + (d.last() - 48)
    }
}

/// A longer run of digits spells no smaller a number.
pub proof fn lemma_digits_value_grows(d: Seq<u8>, k: int)
    requires
        0 <= k <= d.len(),
        forall|i: int| 0 <= i < d.len() ==> is_digit(#[trigger] d[i]),
    ensures
        0 <= digits_value(d.subrange(0, k)) <= digits_value(d),
    decreases d.len() - k,
{
    if k < d.len() {
        lemma_digits_value_grows(d, k + 1);
        let p = d.subrange(0, k + 1);
        assert(p.drop_last() =~= d.subrange(0, k));
        assert(is_digit(p.last()));
    } else {
        assert(d.subrange(0, k) =~= d);
        lemma_digits_value_nonneg(d);
    }
}

/// Digits spell a number that is not negative.
pub proof fn lemma_digits_value_nonneg(d: Seq<u8>)
    requires
        forall|i: int| 0 <= i < d.len() ==> is_digit(#[trigger] d[i]),
    ensures
        digits_value(d) >= 0,
    decreases d.len(),
{
    if d.len() > 0 {
        lemma_digits_value_nonneg(d.drop_last());
        assert(is_digit(d[d.len() - 1]));
    }
}

/// Every byte of `d` is a decimal digit.
pub open spec fn all_digits(d: Seq<u8>) -> bool {
    forall|i: int| 0 <= i < d.len() ==> is_digit(#[trigger] d[i])
}

/// The `i32` that `s` spells as `str::parse` reads it: an optional `+` or
/// `-`, then one or more decimal digits, within the range of `i32`.
pub open spec fn spec_parse_i32(s: Seq<u8>) -> Option<i32> {
    let neg = s.len() > 0 && s[0] == 45;
    let digits = unsigned_part(s);
    if digits.len() == 0 || !all_digits(digits) {
        None
    } else {
        let v = if neg { -digits_value(digits) } else { digits_value(digits) };
        if i32::MIN <= v <= i32::MAX { Some(v as i32) } else { None }
    }
}

/// The digits part of `s`, after an optional sign.
pub open spec fn unsigned_part(s: Seq<u8>) -> Seq<u8> {
    if s.len() > 0 && (s[0] == 45 || s[0] == 43) {
        s.drop_first()
    } else {
        s
    }
}

/// The decimal digits of `n`, without leading zeros (`0` for zero).
pub open spec fn decimal(n: nat) -> Seq<u8>
    decreases n,
{
    if n < 10 {
        seq![(48 + n) as u8]
    } else {
        decimal(n / 10).push((48 + n % 10) as u8)
    }
}

/// The decimal digits of `n` are digits and spell `n`.
pub proof fn lemma_decimal(n: nat)
    ensures
        all_digits(decimal(n)),
        decimal(n).len() > 0,
        digits_value(decimal(n)) == n,
        is_digit(decimal(n)[0]),
    decreases n,
{
    if n >= 10 {
        lemma_decimal(n / 10);
        let d = decimal(n);
        assert(d.drop_last() =~= decimal(n / 10));
        assert(d[0] == decimal(n / 10)[0]);
    } else {
        assert(digits_value(decimal(n).drop_last()) == 0);
    }
}

/// A number written in decimal reads back as itself, with or without a minus
/// sign in front, as long as it is an `i32`.
pub proof fn law_decimal_reads_back(n: nat)
    ensures
        n <= i32::MAX ==> spec_parse_i32(decimal(n)) == Some(n as i32),
        n <= 0x8000_0000 ==> spec_parse_i32(seq![45u8] + decimal(n)) == Some((-n) as i32),
{
    lemma_decimal(n);
    let d = decimal(n);
    assert(unsigned_part(d) == d);
    let neg = seq![45u8] + d;
    assert(neg.drop_first() =~= d);
    assert(unsigned_part(neg) == d);
}

/// The process ids listed in `b`, one per line, or `None` when a line is not
/// a number.
pub open spec fn spec_parse_pids(b: Seq<u8>) -> Option<Seq<i32>> {
    let lines = spec_lines(b);
    if forall|i: int| 0 <= i < lines.len() ==> (#[trigger] spec_parse_i32(lines[i])) is Some {
        Some(Seq::new(lines.len(), |i: int| spec_parse_i32(lines[i]).unwrap()))
    } else {
        None
    }
}

/// A non-digit after the sign, or digits too many for an `i32`, spell no `i32`.
proof fn lemma_parse_fails(s: Seq<u8>)
    requires
        !all_digits(unsigned_part(s)) || digits_value(unsigned_part(s)) > 0x8000_0000,
    ensures
        spec_parse_i32(s) is None,
{
    let d = unsigned_part(s);
    if all_digits(d) && d.len() > 0 {
        assert(digits_value(d) > 0x8000_0000);
    }
}

/// Reads the `i32` spelled by `bytes[lo..hi]`.
pub fn parse_i32(bytes: &[u8], lo: usize, hi: usize) -> (v: Option<i32>)
    requires
        lo <= hi <= bytes@.len(),
    ensures
        v == spec_parse_i32(bytes@.subrange(lo as int, hi as int)),
{
    let ghost s = bytes@.subrange(lo as int, hi as int);
    let mut start = lo;
    let mut neg = false;
    if lo < hi && (bytes[lo] == 45 || bytes[lo] == 43) {
        neg = bytes[lo] == 45;
        start = lo + 1;
    }
    let ghost digits = bytes@.subrange(start as int, hi as int);
    assert(digits =~= (if s.len() > 0 && (s[0] == 45 || s[0] == 43) {
        s.drop_first()
    } else {
        s
    }));
    if start == hi {
        return None;
    }
    let mut acc: i64 = 0;
    let mut k = start;
    while k < hi
        invariant
            lo <= start <= k <= hi <= bytes@.len(),
            digits == bytes@.subrange(start as int, hi as int),
            s == bytes@.subrange(lo as int, hi as int),
            digits == (if s.len() > 0 && (s[0] == 45 || s[0] == 43) {
                s.drop_first()
            } else {
                s
            }),
            neg == (s.len() > 0 && s[0] == 45),
            digits.len() > 0,
            forall|i: int| 0 <= i < k - start ==> is_digit(#[trigger] digits[i]),
            acc == digits_value(digits.subrange(0, k - start)),
            0 <= acc <= 0x8000_0000,
        decreases hi - k,
    {
        let c = bytes[k];
        if c < 48 || c > 57 {
            assert(!is_digit(digits[k - start]));
            assert(!(forall|i: int| 0 <= i < digits.len() ==> is_digit(#[trigger] digits[i])));
            proof {
                lemma_parse_fails(s);
            }
            return None;
        }
        let ghost pre = digits.subrange(0, k - start + 1);
        assert(pre.drop_last() =~= digits.subrange(0, k - start));
        acc = acc * 10 + (c - 48) as i64;
        k = k + 1;
        if acc > 0x8000_0000 {
            proof {
                if forall|i: int| 0 <= i < digits.len() ==> is_digit(#[trigger] digits[i]) {
                    lemma_digits_value_grows(digits, k - start);
                    assert(digits_value(digits) > 0x8000_0000);
                }
                lemma_parse_fails(s);
            }
            return None;
        }
    }
    assert(digits.subrange(0, hi - start) =~= digits);
    if neg {
        Some((-acc) as i32)
    } else if acc > 0x7FFF_FFFF {
        None
    } else {
        Some(acc as i32)
    }
}

/// Reads the process ids listed in `text`, one per line; `None` when a line
/// is not a number.
pub fn parse_pids(text: &str) -> (pids: Option<Vec<i32>>)
    ensures
        pids matches Some(v) ==> spec_parse_pids(text.spec_bytes()) == Some(v@),
        pids is None ==> spec_parse_pids(text.spec_bytes()) is None,
{
    let bytes = text.as_bytes();
    let ghost b = bytes@;
    let len = bytes.len();
    let mut pids: Vec<i32> = Vec::new();
    let ghost mut done: Seq<Seq<u8>> = seq![];
    let mut pos: usize = 0;
    assert(b.subrange(0, len as int) =~= b);
    while pos < len
        invariant
            b == bytes@,
            b == text.spec_bytes(),
            len == b.len(),
            pos <= len,
            spec_lines(b) == done + spec_lines(b.subrange(pos as int, len as int)),
            pids@.len() == done.len(),
            forall|i: int|
                0 <= i < done.len() ==> spec_parse_i32(#[trigger] done[i]) == Some(pids@[i]),
        decreases len - pos,
    {
        let ghost rest = b.subrange(pos as int, len as int);
        let mut j = pos;
        while j < len && bytes[j] != LF
            invariant
                pos <= j <= len,
                len == bytes@.len(),
                forall|k: int| pos <= k < j ==> bytes@[k] != LF,
            decreases len - j,
        {
            j = j + 1;
        }
        proof {
            lemma_first_newline_at(rest, j - pos);
            assert forall|k: int| 0 <= k < j - pos implies rest[k] != LF by {
                assert(rest[k] == b[pos + k]);
            }
        }
        let mut end = j;
        if j < len && j > pos && bytes[j - 1] == CR {
            end = j - 1;
        }
        let ghost line = if j < len {
            strip_cr(rest.subrange(0, j - pos))
        } else {
            rest
        };
        assert(line =~= b.subrange(pos as int, end as int));
        let v = parse_i32(bytes, pos, end);
        match v {
            Some(x) => {
                pids.push(x);
            },
            None => {
                proof {
                    let ls = spec_lines(b);
                    assert(ls[done.len() as int] == line) by {
                        if j < len {
                            assert(spec_lines(rest) =~= seq![line] + spec_lines(
                                b.subrange(j + 1, len as int),
                            )) by {
                                assert(rest.subrange(j - pos + 1, rest.len() as int) =~= b.subrange(
                                    j + 1,
                                    len as int,
                                ));
                            }
                        } else {
                            assert(spec_lines(rest) == seq![rest]);
                        }
                    }
                    assert(done.len() < ls.len());
                    assert(spec_parse_i32(ls[done.len() as int]) is None);
                    assert(b == text.spec_bytes());
                    assert(!(forall|i: int|
                        0 <= i < ls.len() ==> (#[trigger] spec_parse_i32(ls[i])) is Some));
                }
                return None;
            },
        }
        proof {
            if j < len {
                assert(rest.subrange(j - pos + 1, rest.len() as int) =~= b.subrange(
                    j + 1,
                    len as int,
                ));
                assert(spec_lines(rest) == seq![line] + spec_lines(b.subrange(j + 1, len as int)));
                done = done.push(line);
                assert(spec_lines(b) =~= done + spec_lines(b.subrange(j + 1, len as int)));
            } else {
                assert(spec_lines(rest) == seq![line]);
                done = done.push(line);
                assert(spec_lines(b) =~= done + spec_lines(b.subrange(len as int, len as int)));
            }
        }
        if j < len {
            pos = j + 1;
        } else {
            pos = len;
        }
    }
    proof {
        assert(spec_lines(b.subrange(pos as int, len as int)) =~= seq![]);
        assert(spec_lines(b) =~= done);
        let ls = spec_lines(b);
        assert(forall|i: int| 0 <= i < ls.len() ==> (#[trigger] spec_parse_i32(ls[i])) is Some);
        assert(pids@ =~= Seq::new(ls.len(), |i: int| spec_parse_i32(ls[i]).unwrap()));
    }
    Some(pids)
}

} // verus!
