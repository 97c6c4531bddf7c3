//! Parsing `[[HH:]MM:]SS` duration strings.
//!
//! The input's UTF-8 bytes are split on every `':'` into 1, 2 or 3 fields,
//! read most-significant-first: one field is seconds, two are
//! minutes:seconds, three are hours:minutes:seconds. Fields are not
//! range-checked ("90" minutes is accepted and simply contributes 90*60
//! seconds); a non-numeric field, a field count outside 1..=3, or a total
//! too large for a `u64` of milliseconds is an error.

use vstd::prelude::*;
use vstd::string::StrSliceExecFns;
use vstd::string::StringSliceAdditionalSpecFns;

verus! {

/// An ASCII decimal digit.
pub open spec fn is_digit(b: u8) -> bool {
    48 <= b <= 57
}

/// A non-empty, all-digit field.
pub open spec fn digit_seq(s: Seq<u8>) -> bool {
    s.len() > 0 && forall|i: int| 0 <= i < s.len() ==> is_digit(#[trigger] s[i])
}

/// The number a digit sequence denotes in decimal.
pub open spec fn dec_value(s: Seq<u8>) -> int
    decreases s.len(),
{
    if s.len() == 0 {
        0
    } else {
        dec_value(s.drop_last()) * 10 + (s.last() - 48)
    }
}

/// `s` split on every `':'` byte, as `str::split` splits: n separators make
/// n+1 fields, empty fields included.
pub open spec fn split_colon(s: Seq<u8>) -> Seq<Seq<u8>>
    decreases s.len(),
{
    if s.len() == 0 {
        seq![Seq::<u8>::empty()]
    } else if s[0] == 58 {
        seq![Seq::<u8>::empty()] + split_colon(s.skip(1))
    } else {
        let r = split_colon(s.skip(1));
        seq![seq![s[0]] + r[0]] + r.skip(1)
    }
}

/// The seconds denoted by 1 (SS), 2 (MM:SS) or 3 (HH:MM:SS) fields.
pub open spec fn time_secs(fields: Seq<Seq<u8>>) -> int
    recommends
        1 <= fields.len() <= 3,
{
    if fields.len() == 1 {
        dec_value(fields[0])
    } else if fields.len() == 2 {
        dec_value(fields[0]) * 60 + dec_value(fields[1])
    } else {
        dec_value(fields[0]) * 3600 + dec_value(fields[1]) * 60 + dec_value(fields[2])
    }
}

/// Whether the fields of a duration string parse: 1 to 3 of them, each
/// non-empty and numeric.
pub open spec fn fields_ok(fields: Seq<Seq<u8>>) -> bool {
    1 <= fields.len() <= 3 && forall|i: int|
        0 <= i < fields.len() ==> digit_seq(#[trigger] fields[i])
}

/// What parsing one field yields: its value, or an error if it is empty,
/// non-numeric, or too large for a `u64`.
pub open spec fn spec_parse_part(s: Seq<u8>) -> Result<u64, ()> {
    if digit_seq(s) && dec_value(s) <= u64::MAX {
        Ok(dec_value(s) as u64)
    } else {
        Err(())
    }
}

/// What already-split fields yield: the denoted time in milliseconds, or
/// an error.
pub open spec fn spec_parse_time_of(fields: Seq<Seq<u8>>) -> Result<u64, ()> {
    if fields_ok(fields) && time_secs(fields) * 1000 <= u64::MAX {
        Ok((time_secs(fields) * 1000) as u64)
    } else {
        Err(())
    }
}

/// What parsing the UTF-8 bytes of a duration string yields: the denoted
/// time in milliseconds, or an error.
pub open spec fn spec_parse_time(s: Seq<u8>) -> Result<u64, ()> {
    spec_parse_time_of(split_colon(s))
}

/// A sequence of digits denotes a non-negative number.
pub proof fn lemma_dec_value_nonneg(s: Seq<u8>)
    requires
        forall|i: int| 0 <= i < s.len() ==> is_digit(#[trigger] s[i]),
    ensures
        dec_value(s) >= 0,
    decreases s.len(),
{
    if s.len() > 0 {
        lemma_dec_value_nonneg(s.drop_last());
    }
}

/// In a sequence of digits, every prefix denotes at most the whole: reading
/// further digits can only grow the value.
pub proof fn lemma_dec_value_prefix(s: Seq<u8>, i: int)
    requires
        0 <= i <= s.len(),
        forall|k: int| 0 <= k < s.len() ==> is_digit(#[trigger] s[k]),
    ensures
        dec_value(s.take(i)) <= dec_value(s),
    decreases s.len() - i,
{
    if i == s.len() {
        assert(s.take(i) =~= s);
    } else {
        assert(s.take(i + 1).drop_last() =~= s.take(i));
        assert(forall|k: int| 0 <= k < s.take(i).len() ==> is_digit(#[trigger] s.take(i)[k]));
        lemma_dec_value_nonneg(s.take(i));
        assert(dec_value(s.take(i + 1)) == dec_value(s.take(i)) * 10 + (s[i] - 48));
        lemma_dec_value_prefix(s, i + 1);
    }
}

/// A sequence without separators is one single field.
proof fn lemma_split_no_colon(s: Seq<u8>)
    requires
        forall|i: int| 0 <= i < s.len() ==> s[i] != 58,
    ensures
        split_colon(s) == seq![s],
    decreases s.len(),
{
    if s.len() == 0 {
        assert(s =~= Seq::<u8>::empty());
    } else {
        let t = s.skip(1);
        assert(forall|i: int| 0 <= i < t.len() ==> #[trigger] t[i] == s[i + 1] && t[i] != 58);
        lemma_split_no_colon(t);
        assert(seq![s[0]] + t =~= s);
        assert((seq![seq![s[0]] + t] + split_colon(t).skip(1)) =~= seq![s]);
    }
}

/// Splitting takes off everything up to the first separator as the first
/// field and splits the rest on its own.
proof fn lemma_split_at_first_colon(s: Seq<u8>, k: int)
    requires
        0 <= k < s.len(),
        s[k] == 58,
        forall|i: int| 0 <= i < k ==> s[i] != 58,
    ensures
        split_colon(s) == seq![s.take(k)] + split_colon(s.skip(k + 1)),
    decreases k,
{
    if k == 0 {
        assert(s.take(0) =~= Seq::<u8>::empty());
        assert((seq![Seq::<u8>::empty()] + split_colon(s.skip(1))) =~= seq![s.take(0)]
            + split_colon(s.skip(1)));
    } else {
        let t = s.skip(1);
        assert(forall|i: int| 0 <= i < t.len() ==> #[trigger] t[i] == s[i + 1]);
        lemma_split_at_first_colon(t, k - 1);
        let r = split_colon(t);
        assert(r == seq![t.take(k - 1)] + split_colon(t.skip(k)));
        assert(t.skip(k) =~= s.skip(k + 1));
        assert(r[0] == t.take(k - 1));
        assert(r.skip(1) =~= split_colon(s.skip(k + 1)));
        assert(seq![s[0]] + t.take(k - 1) =~= s.take(k));
        assert((seq![seq![s[0]] + r[0]] + r.skip(1)) =~= seq![s.take(k)] + split_colon(
            s.skip(k + 1),
        ));
    }
}

/// Parse the digits of `bytes[from..to]` into a number.
fn parse_dec(bytes: &Vec<u8>, from: usize, to: usize) -> (r: Result<u64, ()>)
    requires
        from <= to <= bytes@.len(),
    ensures
        r == spec_parse_part(bytes@.subrange(from as int, to as int)),
{
    let ghost s = bytes@.subrange(from as int, to as int);
    if from == to {
        return Err(());
    }
    let mut acc: u64 = 0;
    let mut j: usize = from;
    while j < to
        invariant
            from <= j <= to <= bytes@.len(),
            s == bytes@.subrange(from as int, to as int),
            forall|i: int| 0 <= i < j - from ==> is_digit(#[trigger] s[i]),
            acc == dec_value(s.take(j - from)),
        decreases to - j,
    {
        let b = bytes[j];
        proof {
            assert(s[j - from] == b);
        }
        if b < 48 || b > 57 {
            proof {
                assert(!digit_seq(s));
            }
            return Err(());
        }
        let d = (b - 48) as u64;
        proof {
            assert(s.take(j - from + 1).drop_last() =~= s.take(j - from));
            assert(s.take(j - from + 1).last() == s[j - from]);
            assert(dec_value(s.take(j - from + 1)) == acc * 10 + d);
        }
        let next = match acc.checked_mul(10) {
            Some(x) => x.checked_add(d),
            None => None,
        };
        match next {
            Some(v) => {
                acc = v;
            },
            None => {
                proof {
                    if digit_seq(s) {
                        lemma_dec_value_prefix(s, j - from + 1);
                    }
                }
                return Err(());
            },
        }
        j += 1;
    }
    proof {
        assert(s.take(to - from) =~= s);
        assert(digit_seq(s));
        lemma_dec_value_nonneg(s);
    }
    Ok(acc)
}

/// Parse one whole string as a single numeric field.
pub fn parse_part(s: &str) -> (r: Result<u64, ()>)
    ensures
        r == spec_parse_part(s.spec_bytes()),
{
    let bytes = s.as_bytes_vec();
    let n = bytes.len();
    proof {
        assert(bytes@.subrange(0, n as int) =~= bytes@);
    }
    parse_dec(&bytes, 0, n)
}

/// Parse a `[[HH:]MM:]SS` duration string into milliseconds, per
/// [`spec_parse_time`] over the string's UTF-8 bytes.
pub fn parse_time(raw_time: &str) -> (r: Result<u64, ()>)
    ensures
        r == spec_parse_time(raw_time.spec_bytes()),
{
    let bytes = raw_time.as_bytes_vec();
    let ghost full = bytes@;
    let n = bytes.len();
    let mut fields: Vec<(usize, usize)> = Vec::new();
    let mut off: usize = 0;
    proof {
        assert(full.skip(0) =~= full);
        assert(Seq::new(
            fields@.len(),
            |i: int| full.subrange(fields@[i].0 as int, fields@[i].1 as int),
        ) + split_colon(full) =~= split_colon(full));
    }
    loop
        invariant_except_break
            split_colon(full) == Seq::new(
                fields@.len(),
                |i: int| full.subrange(fields@[i].0 as int, fields@[i].1 as int),
            ) + split_colon(full.skip(off as int)),
        invariant
            off <= n,
            n == full.len(),
            full == bytes@,
            forall|i: int|
                0 <= i < fields@.len() ==> 0 <= #[trigger] fields@[i].0 <= fields@[i].1 <= n,
        ensures
            n == full.len(),
            full == bytes@,
            fields@.len() >= 1,
            forall|i: int|
                0 <= i < fields@.len() ==> 0 <= #[trigger] fields@[i].0 <= fields@[i].1 <= n,
            split_colon(full) == Seq::new(
                fields@.len(),
                |i: int| full.subrange(fields@[i].0 as int, fields@[i].1 as int),
            ),
        decreases n - off,
    {
        let ghost fields_pre = fields@;
        let ghost suffix = full.skip(off as int);
        let mut j: usize = off;
        while j < n && bytes[j] != 58
            invariant
                off <= j <= n,
                n == full.len(),
                full == bytes@,
                forall|i: int| off <= i < j ==> full[i] != 58,
            decreases n - j,
        {
            j += 1;
        }
        proof {
            assert(forall|i: int|
                0 <= i < suffix.len() ==> #[trigger] suffix[i] == full[off + i]);
        }
        if j == n {
            fields.push((off, n));
            proof {
                lemma_split_no_colon(suffix);
                assert(suffix =~= full.subrange(off as int, n as int));
                assert(split_colon(full) =~= Seq::new(
                    fields@.len(),
                    |i: int| full.subrange(fields@[i].0 as int, fields@[i].1 as int),
                ));
            }
            break;
        } else {
            fields.push((off, j));
            proof {
                let k = j - off;
                assert(suffix[k] == 58);
                lemma_split_at_first_colon(suffix, k);
                assert(suffix.take(k) =~= full.subrange(off as int, j as int));
                assert(suffix.skip(k + 1) =~= full.skip(j + 1));
                assert(split_colon(full) =~= Seq::new(
                    fields@.len(),
                    |i: int| full.subrange(fields@[i].0 as int, fields@[i].1 as int),
                ) + split_colon(full.skip(j + 1)));
            }
            off = j + 1;
        }
    }
    let ghost fs = split_colon(full);
    let count = fields.len();
    if count > 3 {
        return Err(());
    }
    if count == 1 {
        let f0 = fields[0];
        match parse_dec(&bytes, f0.0, f0.1) {
            Ok(secs) => {
                proof {
                    assert(fs[0] == full.subrange(f0.0 as int, f0.1 as int));
                    lemma_dec_value_nonneg(fs[0]);
                }
                to_millis_1(secs, Ghost(fs))
            },
            Err(()) => {
                proof {
                    lemma_err_field(fs, 0);
                }
                Err(())
            },
        }
    } else if count == 2 {
        let f0 = fields[0];
        let f1 = fields[1];
        match (parse_dec(&bytes, f0.0, f0.1), parse_dec(&bytes, f1.0, f1.1)) {
            (Ok(mins), Ok(secs)) => {
                proof {
                    assert(fs[0] == full.subrange(f0.0 as int, f0.1 as int));
                    assert(fs[1] == full.subrange(f1.0 as int, f1.1 as int));
                    lemma_dec_value_nonneg(fs[0]);
                    lemma_dec_value_nonneg(fs[1]);
                }
                to_millis_2(mins, secs, Ghost(fs))
            },
            (Err(()), _) => {
                proof {
                    lemma_err_field(fs, 0);
                }
                Err(())
            },
            (_, Err(())) => {
                proof {
                    lemma_err_field(fs, 1);
                }
                Err(())
            },
        }
    } else {
        let f0 = fields[0];
        let f1 = fields[1];
        let f2 = fields[2];
        match (parse_dec(&bytes, f0.0, f0.1), parse_dec(&bytes, f1.0, f1.1), parse_dec(
            &bytes,
            f2.0,
            f2.1,
        )) {
            (Ok(hours), Ok(mins), Ok(secs)) => {
                proof {
                    assert(fs[0] == full.subrange(f0.0 as int, f0.1 as int));
                    assert(fs[1] == full.subrange(f1.0 as int, f1.1 as int));
                    assert(fs[2] == full.subrange(f2.0 as int, f2.1 as int));
                    lemma_dec_value_nonneg(fs[0]);
                    lemma_dec_value_nonneg(fs[1]);
                    lemma_dec_value_nonneg(fs[2]);
                }
                to_millis_3(hours, mins, secs, Ghost(fs))
            },
            (Err(()), _, _) => {
                proof {
                    lemma_err_field(fs, 0);
                }
                Err(())
            },
            (_, Err(()), _) => {
                proof {
                    lemma_err_field(fs, 1);
                }
                Err(())
            },
            (_, _, Err(())) => {
                proof {
                    lemma_err_field(fs, 2);
                }
                Err(())
            },
        }
    }
}

/// A field whose own parse failed makes the whole parse fail: either the
/// field is not numeric, or its value alone already pushes the total past
/// what a `u64` of milliseconds can hold.
proof fn lemma_err_field(fields: Seq<Seq<u8>>, i: int)
    requires
        0 <= i < fields.len() <= 3,
        spec_parse_part(fields[i]) is Err,
    ensures
        !(fields_ok(fields) && time_secs(fields) * 1000 <= u64::MAX),
{
    if fields_ok(fields) {
        assert(digit_seq(fields[i]));
        assert(dec_value(fields[i]) > u64::MAX);
        lemma_nonneg_all(fields);
        lemma_time_secs_lower(fields, i);
    }
}

/// All fields of a well-formed split are non-negative numbers.
proof fn lemma_nonneg_all(fields: Seq<Seq<u8>>)
    requires
        fields_ok(fields),
    ensures
        forall|k: int| 0 <= k < fields.len() ==> dec_value(#[trigger] fields[k]) >= 0,
{
    assert forall|k: int| 0 <= k < fields.len() implies dec_value(#[trigger] fields[k]) >= 0 by {
        lemma_dec_value_nonneg(fields[k]);
    }
}

/// The total is at least any single field's value: every positional
/// multiplier is at least 1 and every other term is non-negative.
proof fn lemma_time_secs_lower(fields: Seq<Seq<u8>>, i: int)
    requires
        1 <= fields.len() <= 3,
        0 <= i < fields.len(),
        forall|k: int| 0 <= k < fields.len() ==> dec_value(#[trigger] fields[k]) >= 0,
    ensures
        time_secs(fields) >= dec_value(fields[i]),
{
}

/// Seconds to milliseconds, or an error past `u64::MAX` milliseconds.
fn to_millis_1(secs: u64, Ghost(fs): Ghost<Seq<Seq<u8>>>) -> (r: Result<u64, ()>)
    requires
        fs.len() == 1,
        fields_ok(fs),
        secs == dec_value(fs[0]),
    ensures
        r == spec_parse_time_of(fs),
{
    proof {
        lemma_nonneg_all(fs);
    }
    match secs.checked_mul(1000) {
        Some(t) => Ok(t),
        None => Err(()),
    }
}

/// Minutes and seconds to milliseconds, or an error past `u64::MAX`
/// milliseconds.
fn to_millis_2(mins: u64, secs: u64, Ghost(fs): Ghost<Seq<Seq<u8>>>) -> (r: Result<u64, ()>)
    requires
        fs.len() == 2,
        fields_ok(fs),
        mins == dec_value(fs[0]),
        secs == dec_value(fs[1]),
    ensures
        r == spec_parse_time_of(fs),
{
    proof {
        lemma_nonneg_all(fs);
    }
    let total = match mins.checked_mul(60) {
        Some(m) => m.checked_add(secs),
        None => None,
    };
    match total {
        Some(t) => match t.checked_mul(1000) {
            Some(ms) => Ok(ms),
            None => Err(()),
        },
        None => Err(()),
    }
}

/// Hours, minutes and seconds to milliseconds, or an error past `u64::MAX`
/// milliseconds.
fn to_millis_3(hours: u64, mins: u64, secs: u64, Ghost(fs): Ghost<Seq<Seq<u8>>>) -> (r: Result<
    u64,
    (),
>)
    requires
        fs.len() == 3,
        fields_ok(fs),
        hours == dec_value(fs[0]),
        mins == dec_value(fs[1]),
        secs == dec_value(fs[2]),
    ensures
        r == spec_parse_time_of(fs),
{
    proof {
        lemma_nonneg_all(fs);
    }
    let hm = match hours.checked_mul(3600) {
        Some(h) => match mins.checked_mul(60) {
            Some(m) => h.checked_add(m),
            None => None,
        },
        None => None,
    };
    let total = match hm {
        Some(x) => x.checked_add(secs),
        None => None,
    };
    match total {
        Some(t) => match t.checked_mul(1000) {
            Some(ms) => Ok(ms),
            None => Err(()),
        },
        None => Err(()),
    }
}

} // verus!

