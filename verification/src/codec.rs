//! On-disk codec for the cycle configuration record.
//!
//! The settings file holds one JSON object with the six configuration
//! fields in a fixed order. The encoder and the parser below are written
//! against spec-level byte functions, and parsing exactly inverts
//! encoding: any record written by `encode_settings` is read back intact,
//! while bytes in any other shape are rejected, which the store recovers
//! from by substituting the default record.

use vstd::prelude::*;
use crate::engine::Settings;

verus! {

/// ASCII decimal digit.
pub open spec fn is_digit(b: u8) -> bool {
    48 <= b <= 57
}

/// Decimal digits of `n`, most significant first, no leading zeros.
pub open spec fn dec_digits(n: u64) -> Seq<u8>
    decreases n,
{
    if n < 10 {
        seq![(48 + n) as u8]
    } else {
        dec_digits((n / 10) as u64).push((48 + n % 10) as u8)
    }
}

/// Ten to the `k`.
pub open spec fn pow10(k: nat) -> int
    decreases k,
{
    if k == 0 {
        1
    } else {
        10 * pow10((k - 1) as nat)
    }
}

/// Consumes `lit` from the front of `s`, yielding the remainder.
pub open spec fn eat_lit(s: Seq<u8>, lit: Seq<u8>) -> Option<Seq<u8>> {
    if s.len() >= lit.len() && s.subrange(0, lit.len() as int) == lit {
        Some(s.skip(lit.len() as int))
    } else {
        None
    }
}

/// Consumes further digits from the front of `s` into the accumulator,
/// rejecting numbers that do not fit in a `u64`.
pub open spec fn eat_dec_loop(s: Seq<u8>, acc: u64) -> Option<(u64, Seq<u8>)>
    decreases s.len(),
{
    if s.len() > 0 && is_digit(s[0]) {
        let d = (s[0] - 48) as u64;
        if acc <= (u64::MAX - d) / 10 {
            eat_dec_loop(s.skip(1), (acc * 10 + d) as u64)
        } else {
            None
        }
    } else {
        Some((acc, s))
    }
}

/// Consumes a nonempty run of digits from the front of `s` as a `u64`.
pub open spec fn eat_dec(s: Seq<u8>) -> Option<(u64, Seq<u8>)> {
    if s.len() > 0 && is_digit(s[0]) {
        eat_dec_loop(s, 0)
    } else {
        None
    }
}

/// Consumes a `true` or `false` literal from the front of `s`.
pub open spec fn eat_bool(s: Seq<u8>) -> Option<(bool, Seq<u8>)> {
    match eat_lit(s, lit_true()) {
        Some(rest) => Some((true, rest)),
        None => match eat_lit(s, lit_false()) {
            Some(rest) => Some((false, rest)),
            None => None,
        },
    }
}

/// The byte literal that opens the record, `{"focus_minutes":`.
pub open spec fn lit_open() -> Seq<u8> {
    seq![123u8, 34u8, 102u8, 111u8, 99u8, 117u8, 115u8, 95u8, 109u8, 105u8, 110u8, 117u8, 116u8, 101u8, 115u8, 34u8, 58u8]
}

/// The byte literal `,"break_minutes":`.
pub open spec fn lit_key_break() -> Seq<u8> {
    seq![44u8, 34u8, 98u8, 114u8, 101u8, 97u8, 107u8, 95u8, 109u8, 105u8, 110u8, 117u8, 116u8, 101u8, 115u8, 34u8, 58u8]
}

/// The byte literal `,"micro_every":`.
pub open spec fn lit_key_micro_every() -> Seq<u8> {
    seq![44u8, 34u8, 109u8, 105u8, 99u8, 114u8, 111u8, 95u8, 101u8, 118u8, 101u8, 114u8, 121u8, 34u8, 58u8]
}

/// The byte literal `,"micro_minutes":`.
pub open spec fn lit_key_micro_minutes() -> Seq<u8> {
    seq![44u8, 34u8, 109u8, 105u8, 99u8, 114u8, 111u8, 95u8, 109u8, 105u8, 110u8, 117u8, 116u8, 101u8, 115u8, 34u8, 58u8]
}

/// The byte literal `,"hard_break":`.
pub open spec fn lit_key_hard_break() -> Seq<u8> {
    seq![44u8, 34u8, 104u8, 97u8, 114u8, 100u8, 95u8, 98u8, 114u8, 101u8, 97u8, 107u8, 34u8, 58u8]
}

/// The byte literal `,"snooze_sec":`.
pub open spec fn lit_key_snooze() -> Seq<u8> {
    seq![44u8, 34u8, 115u8, 110u8, 111u8, 111u8, 122u8, 101u8, 95u8, 115u8, 101u8, 99u8, 34u8, 58u8]
}

/// The byte literal `}` that closes the record.
pub open spec fn lit_close() -> Seq<u8> {
    seq![125u8]
}

/// The byte literal `true`.
pub open spec fn lit_true() -> Seq<u8> {
    seq![116u8, 114u8, 117u8, 101u8]
}

/// The byte literal `false`.
pub open spec fn lit_false() -> Seq<u8> {
    seq![102u8, 97u8, 108u8, 115u8, 101u8]
}

/// The encoding of a boolean field.
pub open spec fn bool_bytes(b: bool) -> Seq<u8> {
    if b {
        lit_true()
    } else {
        lit_false()
    }
}

/// The full encoding of a configuration record.
pub open spec fn enc_settings(v: Settings) -> Seq<u8> {
    lit_open() + dec_digits(v.focus_minutes) + lit_key_break() + dec_digits(v.break_minutes)
        + lit_key_micro_every() + dec_digits(v.micro_every) + lit_key_micro_minutes()
        + dec_digits(v.micro_minutes) + lit_key_hard_break() + bool_bytes(v.hard_break)
        + lit_key_snooze() + dec_digits(v.snooze_sec) + lit_close()
}

/// The parse of a settings file: the fixed key order with decimal and
/// boolean values, and nothing after the closing brace.
pub open spec fn spec_parse_settings(s: Seq<u8>) -> Option<Settings> {
    match eat_lit(s, lit_open()) {
        None => None,
        Some(s1) => match eat_dec(s1) {
            None => None,
            Some((focus_minutes, s2)) => match eat_lit(s2, lit_key_break()) {
                None => None,
                Some(s3) => match eat_dec(s3) {
                    None => None,
                    Some((break_minutes, s4)) => match eat_lit(s4, lit_key_micro_every()) {
                        None => None,
                        Some(s5) => match eat_dec(s5) {
                            None => None,
                            Some((micro_every, s6)) => match eat_lit(s6, lit_key_micro_minutes()) {
                                None => None,
                                Some(s7) => match eat_dec(s7) {
                                    None => None,
                                    Some((micro_minutes, s8)) => match eat_lit(
                                        s8,
                                        lit_key_hard_break(),
                                    ) {
                                        None => None,
                                        Some(s9) => match eat_bool(s9) {
                                            None => None,
                                            Some((hard_break, s10)) => match eat_lit(
                                                s10,
                                                lit_key_snooze(),
                                            ) {
                                                None => None,
                                                Some(s11) => match eat_dec(s11) {
                                                    None => None,
                                                    Some((snooze_sec, s12)) => match eat_lit(
                                                        s12,
                                                        lit_close(),
                                                    ) {
                                                        None => None,
                                                        Some(s13) => if s13.len() == 0 {
                                                            Some(
                                                                Settings {
                                                                    focus_minutes,
                                                                    break_minutes,
                                                                    micro_every,
                                                                    micro_minutes,
                                                                    hard_break,
                                                                    snooze_sec,
                                                                },
                                                            )
                                                        } else {
                                                            None
                                                        },
                                                    },
                                                },
                                            },
                                        },
                                    },
                                },
                            },
                        },
                    },
                },
            },
        },
    }
}

/// Executable copy of `lit_open`.
fn lit_open_vec() -> (v: Vec<u8>)
    ensures
        v@ == lit_open(),
{
    let mut v: Vec<u8> = Vec::new();
    v.push(123u8);
    v.push(34u8);
    v.push(102u8);
    v.push(111u8);
    v.push(99u8);
    v.push(117u8);
    v.push(115u8);
    v.push(95u8);
    v.push(109u8);
    v.push(105u8);
    v.push(110u8);
    v.push(117u8);
    v.push(116u8);
    v.push(101u8);
    v.push(115u8);
    v.push(34u8);
    v.push(58u8);
    proof {
        assert(v@ =~= lit_open());
    }
    v
}

/// Executable copy of `lit_key_break`.
fn lit_key_break_vec() -> (v: Vec<u8>)
    ensures
        v@ == lit_key_break(),
{
    let mut v: Vec<u8> = Vec::new();
    v.push(44u8);
    v.push(34u8);
    v.push(98u8);
    v.push(114u8);
    v.push(101u8);
    v.push(97u8);
    v.push(107u8);
    v.push(95u8);
    v.push(109u8);
    v.push(105u8);
    v.push(110u8);
    v.push(117u8);
    v.push(116u8);
    v.push(101u8);
    v.push(115u8);
    v.push(34u8);
    v.push(58u8);
    proof {
        assert(v@ =~= lit_key_break());
    }
    v
}

/// Executable copy of `lit_key_micro_every`.
fn lit_key_micro_every_vec() -> (v: Vec<u8>)
    ensures
        v@ == lit_key_micro_every(),
{
    let mut v: Vec<u8> = Vec::new();
    v.push(44u8);
    v.push(34u8);
    v.push(109u8);
    v.push(105u8);
    v.push(99u8);
    v.push(114u8);
    v.push(111u8);
    v.push(95u8);
    v.push(101u8);
    v.push(118u8);
    v.push(101u8);
    v.push(114u8);
    v.push(121u8);
    v.push(34u8);
    v.push(58u8);
    proof {
        assert(v@ =~= lit_key_micro_every());
    }
    v
}

/// Executable copy of `lit_key_micro_minutes`.
fn lit_key_micro_minutes_vec() -> (v: Vec<u8>)
    ensures
        v@ == lit_key_micro_minutes(),
{
    let mut v: Vec<u8> = Vec::new();
    v.push(44u8);
    v.push(34u8);
    v.push(109u8);
    v.push(105u8);
    v.push(99u8);
    v.push(114u8);
    v.push(111u8);
    v.push(95u8);
    v.push(109u8);
    v.push(105u8);
    v.push(110u8);
    v.push(117u8);
    v.push(116u8);
    v.push(101u8);
    v.push(115u8);
    v.push(34u8);
    v.push(58u8);
    proof {
        assert(v@ =~= lit_key_micro_minutes());
    }
    v
}

/// Executable copy of `lit_key_hard_break`.
fn lit_key_hard_break_vec() -> (v: Vec<u8>)
    ensures
        v@ == lit_key_hard_break(),
{
    let mut v: Vec<u8> = Vec::new();
    v.push(44u8);
    v.push(34u8);
    v.push(104u8);
    v.push(97u8);
    v.push(114u8);
    v.push(100u8);
    v.push(95u8);
    v.push(98u8);
    v.push(114u8);
    v.push(101u8);
    v.push(97u8);
    v.push(107u8);
    v.push(34u8);
    v.push(58u8);
    proof {
        assert(v@ =~= lit_key_hard_break());
    }
    v
}

/// Executable copy of `lit_key_snooze`.
fn lit_key_snooze_vec() -> (v: Vec<u8>)
    ensures
        v@ == lit_key_snooze(),
{
    let mut v: Vec<u8> = Vec::new();
    v.push(44u8);
    v.push(34u8);
    v.push(115u8);
    v.push(110u8);
    v.push(111u8);
    v.push(111u8);
    v.push(122u8);
    v.push(101u8);
    v.push(95u8);
    v.push(115u8);
    v.push(101u8);
    v.push(99u8);
    v.push(34u8);
    v.push(58u8);
    proof {
        assert(v@ =~= lit_key_snooze());
    }
    v
}

/// Executable copy of `lit_close`.
fn lit_close_vec() -> (v: Vec<u8>)
    ensures
        v@ == lit_close(),
{
    let mut v: Vec<u8> = Vec::new();
    v.push(125u8);
    proof {
        assert(v@ =~= lit_close());
    }
    v
}

/// Executable copy of `lit_true`.
fn lit_true_vec() -> (v: Vec<u8>)
    ensures
        v@ == lit_true(),
{
    let mut v: Vec<u8> = Vec::new();
    v.push(116u8);
    v.push(114u8);
    v.push(117u8);
    v.push(101u8);
    proof {
        assert(v@ =~= lit_true());
    }
    v
}

/// Executable copy of `lit_false`.
fn lit_false_vec() -> (v: Vec<u8>)
    ensures
        v@ == lit_false(),
{
    let mut v: Vec<u8> = Vec::new();
    v.push(102u8);
    v.push(97u8);
    v.push(108u8);
    v.push(115u8);
    v.push(101u8);
    proof {
        assert(v@ =~= lit_false());
    }
    v
}

/// The decimal digits of `n`, most significant first.
fn u64_to_dec(n: u64) -> (v: Vec<u8>)
    ensures
        v@ == dec_digits(n),
    decreases n,
{
    if n < 10 {
        let mut v: Vec<u8> = Vec::new();
        v.push((48 + n) as u8);
        proof {
            assert(v@ =~= dec_digits(n));
        }
        v
    } else {
        let mut v = u64_to_dec(n / 10);
        v.push((48 + (n % 10)) as u8);
        v
    }
}

/// Appends all of `bytes` to `out`.
fn append_bytes(out: &mut Vec<u8>, bytes: &Vec<u8>)
    ensures
        final(out)@ == old(out)@ + bytes@,
{
    let n = bytes.len();
    let mut k: usize = 0;
    proof {
        assert(out@ =~= old(out)@ + bytes@.subrange(0, 0));
    }
    while k < n
        invariant
            n == bytes@.len(),
            k <= n,
            out@ == old(out)@ + bytes@.subrange(0, k as int),
        decreases n - k,
    {
        out.push(bytes[k]);
        proof {
            assert(out@ =~= old(out)@ + bytes@.subrange(0, k + 1));
        }
        k += 1;
    }
    proof {
        assert(bytes@.subrange(0, n as int) =~= bytes@);
    }
}

/// Encodes a configuration record as the settings file's bytes.
pub fn encode_settings(v: &Settings) -> (out: Vec<u8>)
    ensures
        out@ == enc_settings(*v),
{
    let mut out = lit_open_vec();
    let d1 = u64_to_dec(v.focus_minutes);
    append_bytes(&mut out, &d1);
    let k1 = lit_key_break_vec();
    append_bytes(&mut out, &k1);
    let d2 = u64_to_dec(v.break_minutes);
    append_bytes(&mut out, &d2);
    let k2 = lit_key_micro_every_vec();
    append_bytes(&mut out, &k2);
    let d3 = u64_to_dec(v.micro_every);
    append_bytes(&mut out, &d3);
    let k3 = lit_key_micro_minutes_vec();
    append_bytes(&mut out, &k3);
    let d4 = u64_to_dec(v.micro_minutes);
    append_bytes(&mut out, &d4);
    let k4 = lit_key_hard_break_vec();
    append_bytes(&mut out, &k4);
    let b = if v.hard_break {
        lit_true_vec()
    } else {
        lit_false_vec()
    };
    append_bytes(&mut out, &b);
    let k5 = lit_key_snooze_vec();
    append_bytes(&mut out, &k5);
    let d5 = u64_to_dec(v.snooze_sec);
    append_bytes(&mut out, &d5);
    let kc = lit_close_vec();
    append_bytes(&mut out, &kc);
    out
}

/// Matches `lit` in `s` at offset `i`, returning the offset just past it.
fn match_at(s: &Vec<u8>, i: usize, lit: &Vec<u8>) -> (r: Option<usize>)
    requires
        i <= s@.len(),
    ensures
        match r {
            Some(j) => i <= j <= s@.len() && eat_lit(s@.skip(i as int), lit@) == Some(
                s@.skip(j as int),
            ),
            None => eat_lit(s@.skip(i as int), lit@) is None,
        },
{
    let n = lit.len();
    if s.len() - i < n {
        return None;
    }
    let mut k: usize = 0;
    while k < n
        invariant
            n == lit@.len(),
            i + n <= s@.len(),
            s@.len() <= usize::MAX,
            k <= n,
            forall|m: int| 0 <= m < k ==> s@[i + m] == lit@[m],
        decreases n - k,
    {
        if s[i + k] != lit[k] {
            proof {
                let suf = s@.skip(i as int);
                if suf.subrange(0, n as int) == lit@ {
                    assert(suf.subrange(0, n as int)[k as int] == lit@[k as int]);
                    assert(suf[k as int] == s@[i + k]);
                }
            }
            return None;
        }
        k += 1;
    }
    proof {
        let suf = s@.skip(i as int);
        assert(suf.subrange(0, n as int) =~= lit@);
        assert(suf.skip(n as int) =~= s@.skip(i + n));
    }
    Some(i + n)
}

/// Parses a nonempty decimal run in `s` at offset `i` as a `u64`.
fn parse_dec_at(s: &Vec<u8>, i: usize) -> (r: Option<(u64, usize)>)
    requires
        i <= s@.len(),
    ensures
        match r {
            Some(p) => i <= p.1 <= s@.len() && eat_dec(s@.skip(i as int)) == Some(
                (p.0, s@.skip(p.1 as int)),
            ),
            None => eat_dec(s@.skip(i as int)) is None,
        },
{
    if i == s.len() || s[i] < 48 || s[i] > 57 {
        return None;
    }
    let mut j: usize = i;
    let mut acc: u64 = 0;
    while j < s.len() && 48 <= s[j] && s[j] <= 57
        invariant
            i <= j <= s@.len(),
            eat_dec_loop(s@.skip(i as int), 0) == eat_dec_loop(s@.skip(j as int), acc),
        decreases s@.len() - j,
    {
        let d = (s[j] - 48) as u64;
        if acc > (u64::MAX - d) / 10 {
            proof {
                assert(s@.skip(j as int)[0] == s@[j as int]);
            }
            return None;
        }
        proof {
            assert(s@.skip(j as int)[0] == s@[j as int]);
            assert(s@.skip(j as int).skip(1) =~= s@.skip(j + 1));
        }
        acc = acc * 10 + d;
        j += 1;
    }
    proof {
        if j < s@.len() {
            assert(s@.skip(j as int)[0] == s@[j as int]);
        }
        assert(s@.skip(i as int)[0] == s@[i as int]);
    }
    Some((acc, j))
}

/// Parses a `true` or `false` literal in `s` at offset `i`.
fn parse_bool_at(s: &Vec<u8>, i: usize) -> (r: Option<(bool, usize)>)
    requires
        i <= s@.len(),
    ensures
        match r {
            Some(p) => i <= p.1 <= s@.len() && eat_bool(s@.skip(i as int)) == Some(
                (p.0, s@.skip(p.1 as int)),
            ),
            None => eat_bool(s@.skip(i as int)) is None,
        },
{
    let tv = lit_true_vec();
    match match_at(s, i, &tv) {
        Some(j) => Some((true, j)),
        None => {
            let fv = lit_false_vec();
            match match_at(s, i, &fv) {
                Some(j) => Some((false, j)),
                None => None,
            }
        },
    }
}

/// Parses the settings file's bytes; `None` on any malformed input.
pub fn parse_settings(s: &Vec<u8>) -> (r: Option<Settings>)
    ensures
        r == spec_parse_settings(s@),
{
    proof {
        assert(s@.skip(0) =~= s@);
    }
    let open_v = lit_open_vec();
    let i1 = match match_at(s, 0, &open_v) {
        Some(j) => j,
        None => {
            return None;
        },
    };
    let (focus_minutes, i2) = match parse_dec_at(s, i1) {
        Some(p) => p,
        None => {
            return None;
        },
    };
    let k1 = lit_key_break_vec();
    let i3 = match match_at(s, i2, &k1) {
        Some(j) => j,
        None => {
            return None;
        },
    };
    let (break_minutes, i4) = match parse_dec_at(s, i3) {
        Some(p) => p,
        None => {
            return None;
        },
    };
    let k2 = lit_key_micro_every_vec();
    let i5 = match match_at(s, i4, &k2) {
        Some(j) => j,
        None => {
            return None;
        },
    };
    let (micro_every, i6) = match parse_dec_at(s, i5) {
        Some(p) => p,
        None => {
            return None;
        },
    };
    let k3 = lit_key_micro_minutes_vec();
    let i7 = match match_at(s, i6, &k3) {
        Some(j) => j,
        None => {
            return None;
        },
    };
    let (micro_minutes, i8) = match parse_dec_at(s, i7) {
        Some(p) => p,
        None => {
            return None;
        },
    };
    let k4 = lit_key_hard_break_vec();
    let i9 = match match_at(s, i8, &k4) {
        Some(j) => j,
        None => {
            return None;
        },
    };
    let (hard_break, i10) = match parse_bool_at(s, i9) {
        Some(p) => p,
        None => {
            return None;
        },
    };
    let k5 = lit_key_snooze_vec();
    let i11 = match match_at(s, i10, &k5) {
        Some(j) => j,
        None => {
            return None;
        },
    };
    let (snooze_sec, i12) = match parse_dec_at(s, i11) {
        Some(p) => p,
        None => {
            return None;
        },
    };
    let kc = lit_close_vec();
    let i13 = match match_at(s, i12, &kc) {
        Some(j) => j,
        None => {
            return None;
        },
    };
    if i13 == s.len() {
        Some(
            Settings {
                focus_minutes,
                break_minutes,
                micro_every,
                micro_minutes,
                hard_break,
                snooze_sec,
            },
        )
    } else {
        None
    }
}


/// Ten to the `k` is positive.
proof fn lemma_pow10_pos(k: nat)
    ensures
        pow10(k) >= 1,
    decreases k,
{
    if k > 0 {
        lemma_pow10_pos((k - 1) as nat);
    }
}

/// A number's decimal digits are nonempty and all digits.
proof fn lemma_dec_digits_wf(n: u64)
    ensures
        dec_digits(n).len() >= 1,
        forall|k: int| 0 <= k < dec_digits(n).len() ==> is_digit(#[trigger] dec_digits(n)[k]),
    decreases n,
{
    if n >= 10 {
        lemma_dec_digits_wf(n / 10);
    }
}

/// A literal at the front of the input is consumed exactly.
proof fn lemma_eat_lit_exact(lit: Seq<u8>, rest: Seq<u8>)
    ensures
        eat_lit(lit + rest, lit) == Some(rest),
{
    let s = lit + rest;
    assert(s.subrange(0, lit.len() as int) =~= lit);
    assert(s.skip(lit.len() as int) =~= rest);
}

/// A boolean literal at the front of the input is consumed exactly.
proof fn lemma_eat_bool_exact(b: bool, rest: Seq<u8>)
    ensures
        eat_bool(bool_bytes(b) + rest) == Some((b, rest)),
{
    if b {
        lemma_eat_lit_exact(lit_true(), rest);
    } else {
        lemma_eat_lit_exact(lit_false(), rest);
        let s = lit_false() + rest;
        if s.len() >= lit_true().len() {
            if s.subrange(0, lit_true().len() as int) == lit_true() {
                assert(s.subrange(0, lit_true().len() as int)[0] == s[0]);
                assert(s[0] == 102u8);
                assert(lit_true()[0] == 116u8);
            }
        }
    }
}

/// The digit run of `n` at the front of the input folds into the
/// accumulator exactly as positional notation says.
proof fn lemma_eat_dec_loop_digits(n: u64, rest: Seq<u8>, acc: u64)
    requires
        acc * pow10(dec_digits(n).len()) + n <= u64::MAX,
    ensures
        eat_dec_loop(dec_digits(n) + rest, acc) == eat_dec_loop(
            rest,
            (acc * pow10(dec_digits(n).len()) + n) as u64,
        ),
    decreases n,
{
    lemma_dec_digits_wf(n);
    lemma_pow10_pos(dec_digits(n).len());
    if n < 10 {
        let s = dec_digits(n) + rest;
        assert(s[0] == (48 + n) as u8);
        let d = (s[0] - 48) as u64;
        assert(d == n);
        reveal_with_fuel(pow10, 2);
        assert(pow10(1) == 10);
        assert(acc * pow10(1) == acc * 10);
        assert(acc * 10 + d <= u64::MAX);
        assert(acc <= (u64::MAX - d) / 10);
        assert(s.skip(1) =~= rest);
    } else {
        let l = dec_digits(n).len();
        let hd = dec_digits((n / 10) as u64);
        let last = (48 + n % 10) as u8;
        assert(dec_digits(n) == hd.push(last));
        assert(l == hd.len() + 1);
        let rest2 = seq![last] + rest;
        assert(dec_digits(n) + rest =~= hd + rest2);
        lemma_pow10_pos(hd.len());
        let x = acc * pow10(hd.len() as nat);
        assert(pow10(l) == 10 * pow10(hd.len() as nat));
        assert(acc * pow10(l) == x * 10) by (nonlinear_arith)
            requires
                pow10(l) == 10 * pow10(hd.len() as nat),
                x == acc * pow10(hd.len() as nat),
        ;
        assert(x >= 0) by (nonlinear_arith)
            requires
                acc >= 0,
                pow10(hd.len() as nat) >= 1,
                x == acc * pow10(hd.len() as nat),
        ;
        vstd::arithmetic::div_mod::lemma_fundamental_div_mod(n as int, 10);
        assert(x + n / 10 <= u64::MAX);
        lemma_eat_dec_loop_digits((n / 10) as u64, rest2, acc);
        let a = (x + n / 10) as u64;
        assert(eat_dec_loop(dec_digits(n) + rest, acc) == eat_dec_loop(rest2, a));
        assert(rest2[0] == last);
        assert(is_digit(last));
        let d = (last - 48) as u64;
        assert(d == n % 10);
        assert(a * 10 + d == acc * pow10(l) + n);
        assert(a <= (u64::MAX - d) / 10);
        assert(rest2.skip(1) =~= rest);
        assert(eat_dec_loop(rest2, a) == eat_dec_loop(rest, (a * 10 + d) as u64));
    }
}

/// A digit run followed by a non-digit parses back to exactly the number
/// it encodes.
proof fn lemma_eat_dec_digits(n: u64, rest: Seq<u8>)
    requires
        rest.len() == 0 || !is_digit(rest[0]),
    ensures
        eat_dec(dec_digits(n) + rest) == Some((n, rest)),
{
    lemma_dec_digits_wf(n);
    let s = dec_digits(n) + rest;
    assert(s[0] == dec_digits(n)[0]);
    lemma_pow10_pos(dec_digits(n).len());
    assert(0 * pow10(dec_digits(n).len()) == 0) by (nonlinear_arith);
    lemma_eat_dec_loop_digits(n, rest, 0);
    if rest.len() > 0 {
        assert(!is_digit(rest[0]));
    }
}

/// Concatenation of byte sequences is associative.
proof fn lemma_assoc(a: Seq<u8>, b: Seq<u8>, c: Seq<u8>)
    ensures
        (a + b) + c == a + (b + c),
{
    assert((a + b) + c =~= a + (b + c));
}

/// Round trip: parsing the encoding of any record yields that record.
#[verifier::rlimit(100)]
pub proof fn lemma_settings_round_trip(v: Settings)
    ensures
        spec_parse_settings(enc_settings(v)) == Some(v),
{
    let d1 = dec_digits(v.focus_minutes);
    let d2 = dec_digits(v.break_minutes);
    let d3 = dec_digits(v.micro_every);
    let d4 = dec_digits(v.micro_minutes);
    let d5 = dec_digits(v.snooze_sec);
    let bb = bool_bytes(v.hard_break);
    let t12: Seq<u8> = lit_close();
    let t11 = d5 + t12;
    let t10 = lit_key_snooze() + t11;
    let t9 = bb + t10;
    let t8 = lit_key_hard_break() + t9;
    let t7 = d4 + t8;
    let t6 = lit_key_micro_minutes() + t7;
    let t5 = d3 + t6;
    let t4 = lit_key_micro_every() + t5;
    let t3 = d2 + t4;
    let t2 = lit_key_break() + t3;
    let t1 = d1 + t2;
    let p1 = lit_open();
    let p2 = p1 + d1;
    let p3 = p2 + lit_key_break();
    let p4 = p3 + d2;
    let p5 = p4 + lit_key_micro_every();
    let p6 = p5 + d3;
    let p7 = p6 + lit_key_micro_minutes();
    let p8 = p7 + d4;
    let p9 = p8 + lit_key_hard_break();
    let p10 = p9 + bb;
    let p11 = p10 + lit_key_snooze();
    let p12 = p11 + d5;
    let s = enc_settings(v);
    assert(s == p12 + t12);
    lemma_assoc(p11, d5, t12);
    assert(s == p11 + t11);
    lemma_assoc(p10, lit_key_snooze(), t11);
    assert(s == p10 + t10);
    lemma_assoc(p9, bb, t10);
    assert(s == p9 + t9);
    lemma_assoc(p8, lit_key_hard_break(), t9);
    assert(s == p8 + t8);
    lemma_assoc(p7, d4, t8);
    assert(s == p7 + t7);
    lemma_assoc(p6, lit_key_micro_minutes(), t7);
    assert(s == p6 + t6);
    lemma_assoc(p5, d3, t6);
    assert(s == p5 + t5);
    lemma_assoc(p4, lit_key_micro_every(), t5);
    assert(s == p4 + t4);
    lemma_assoc(p3, d2, t4);
    assert(s == p3 + t3);
    lemma_assoc(p2, lit_key_break(), t3);
    assert(s == p2 + t2);
    lemma_assoc(p1, d1, t2);
    assert(s == p1 + t1);
    lemma_eat_lit_exact(lit_open(), t1);
    assert(t2[0] == 44u8);
    lemma_eat_dec_digits(v.focus_minutes, t2);
    lemma_eat_lit_exact(lit_key_break(), t3);
    assert(t4[0] == 44u8);
    lemma_eat_dec_digits(v.break_minutes, t4);
    lemma_eat_lit_exact(lit_key_micro_every(), t5);
    assert(t6[0] == 44u8);
    lemma_eat_dec_digits(v.micro_every, t6);
    lemma_eat_lit_exact(lit_key_micro_minutes(), t7);
    assert(t8[0] == 44u8);
    lemma_eat_dec_digits(v.micro_minutes, t8);
    lemma_eat_lit_exact(lit_key_hard_break(), t9);
    lemma_eat_bool_exact(v.hard_break, t10);
    lemma_eat_lit_exact(lit_key_snooze(), t11);
    assert(t12[0] == 125u8);
    lemma_eat_dec_digits(v.snooze_sec, t12);
    assert(t12 =~= lit_close() + Seq::<u8>::empty());
    lemma_eat_lit_exact(lit_close(), Seq::<u8>::empty());
}

} // verus!
