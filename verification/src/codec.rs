//! The canonical byte encoding of a device record.
//!
//! This is the durable representation: the value stored under a device's
//! identifier, and the form bulk fetches decode. A record is a fixed-order
//! sequence of fields — identifier, name, the three coordinate bit patterns,
//! status, disabled flag and the two timestamps — each terminated by a
//! separator; byte-string fields are length-prefixed, so no byte of an
//! identifier or name needs escaping and every record has exactly one
//! reading. Encoding and decoding round-trip exactly; the proof is
//! `lemma_device_round_trip`.

use vstd::prelude::*;
use vstd::arithmetic::div_mod::lemma_fundamental_div_mod;
use vstd::arithmetic::mul::lemma_mul_inequality;
use crate::device::{Device, DeviceModel, DeviceStatusCode};

verus! {

/// Separator closing every field.
pub const FIELD_END: u8 = 59;

/// Separator between a byte string's length prefix and its bytes.
pub const LEN_END: u8 = 58;

/// Sign marker of a negative timestamp.
pub const MINUS: u8 = 45;

/// Whether a byte is an ASCII decimal digit.
pub open spec fn is_digit(b: u8) -> bool {
    48 <= b && b <= 57
}

/// Ten to the `k`-th power.
pub open spec fn pow10(k: nat) -> int
    decreases k,
{
    if k == 0 {
        1
    } else {
        10 * pow10((k - 1) as nat)
    }
}

/// The concrete powers of ten that the bounds below need.
pub proof fn lemma_pow10_values()
    ensures
        pow10(10) == 10000000000,
        pow10(19) == 10000000000000000000,
        pow10(20) == 100000000000000000000,
        pow10(21) == 1000000000000000000000,
{
    assert(pow10(0) == 1);
    assert(pow10(1) == 10);
    assert(pow10(2) == 100);
    assert(pow10(3) == 1000);
    assert(pow10(4) == 10000);
    assert(pow10(5) == 100000);
    assert(pow10(6) == 1000000);
    assert(pow10(7) == 10000000);
    assert(pow10(8) == 100000000);
    assert(pow10(9) == 1000000000);
    assert(pow10(10) == 10000000000);
    assert(pow10(11) == 100000000000);
    assert(pow10(12) == 1000000000000);
    assert(pow10(13) == 10000000000000);
    assert(pow10(14) == 100000000000000);
    assert(pow10(15) == 1000000000000000);
    assert(pow10(16) == 10000000000000000);
    assert(pow10(17) == 100000000000000000);
    assert(pow10(18) == 1000000000000000000);
    assert(pow10(19) == 10000000000000000000);
    assert(pow10(20) == 100000000000000000000);
    assert(pow10(21) == 1000000000000000000000);
}

/// Powers of ten grow with the exponent.
pub proof fn lemma_pow10_mono(a: nat, b: nat)
    requires
        a <= b,
    ensures
        pow10(a) <= pow10(b),
        pow10(a) >= 1,
    decreases b,
{
    if b > 0 {
        if a == b {
            lemma_pow10_mono((a - 1) as nat, (b - 1) as nat);
        } else {
            lemma_pow10_mono(a, (b - 1) as nat);
        }
    }
}

/// The number that a run of digit bytes denotes, most significant first.
pub open spec fn seq_num(ds: Seq<u8>) -> int
    decreases ds.len(),
{
    if ds.len() == 0 {
        0
    } else {
        seq_num(ds.drop_last()) * 10 + (ds.last() - 48)
    }
}

/// The canonical decimal digits of a nonnegative number, no leading zeros.
pub open spec fn spec_enc_nat(n: int) -> Seq<u8>
    decreases n,
{
    if n < 10 {
        seq![(48 + n) as u8]
    } else {
        spec_enc_nat(n / 10).push((48 + n % 10) as u8)
    }
}

/// The canonical digits are digits, nonempty, and denote their number.
pub proof fn lemma_enc_nat_props(n: int)
    requires
        0 <= n,
    ensures
        spec_enc_nat(n).len() >= 1,
        forall|k: int| 0 <= k < spec_enc_nat(n).len() ==> is_digit(#[trigger] spec_enc_nat(n)[k]),
        seq_num(spec_enc_nat(n)) == n,
    decreases n,
{
    if n < 10 {
        assert(seq_num(spec_enc_nat(n)) == seq_num(spec_enc_nat(n).drop_last()) * 10 + n);
        assert(spec_enc_nat(n).drop_last() =~= Seq::<u8>::empty());
    } else {
        lemma_enc_nat_props(n / 10);
        let e = spec_enc_nat(n);
        assert(e.drop_last() =~= spec_enc_nat(n / 10));
        lemma_fundamental_div_mod(n, 10);
    }
}

/// A number below ten to the `k` has at most `k` canonical digits.
pub proof fn lemma_enc_nat_len(n: int, k: nat)
    requires
        0 <= n < pow10(k),
        1 <= k,
    ensures
        spec_enc_nat(n).len() <= k,
    decreases n,
{
    if n >= 10 {
        assert(pow10(k) == 10 * pow10((k - 1) as nat));
        lemma_pow10_mono(1, (k - 1) as nat);
        lemma_fundamental_div_mod(n, 10);
        assert(n / 10 < pow10((k - 1) as nat)) by {
            if n / 10 >= pow10((k - 1) as nat) {
                lemma_mul_inequality(pow10((k - 1) as nat), n / 10, 10);
            }
        }
        lemma_enc_nat_len(n / 10, (k - 1) as nat);
    }
}

/// The index just past the run of digits that starts at `i`.
pub open spec fn spec_scan_digits(s: Seq<u8>, i: int) -> int
    decreases s.len() - i when 0 <= i <= s.len()
{
    if i < s.len() && is_digit(s[i]) {
        spec_scan_digits(s, i + 1)
    } else {
        i
    }
}

/// The scan ends inside the sequence, covers digits only, and stops at the
/// first non-digit.
pub proof fn lemma_scan_digits_props(s: Seq<u8>, i: int)
    requires
        0 <= i <= s.len(),
    ensures
        i <= spec_scan_digits(s, i) <= s.len(),
        forall|k: int| i <= k < spec_scan_digits(s, i) ==> is_digit(#[trigger] s[k]),
        spec_scan_digits(s, i) < s.len() ==> !is_digit(s[spec_scan_digits(s, i)]),
    decreases s.len() - i,
{
    if i < s.len() && is_digit(s[i]) {
        lemma_scan_digits_props(s, i + 1);
    }
}

/// A run of digits followed by the end or a non-digit is scanned exactly.
pub proof fn lemma_scan_digits_exact(s: Seq<u8>, i: int, j: int)
    requires
        0 <= i <= j <= s.len(),
        forall|k: int| i <= k < j ==> is_digit(#[trigger] s[k]),
        j < s.len() ==> !is_digit(s[j]),
    ensures
        spec_scan_digits(s, i) == j,
    decreases j - i,
{
    if i < j {
        assert(is_digit(s[i]));
        lemma_scan_digits_exact(s, i + 1, j);
    }
}

/// The number field starting at `i`: its value and the index just past its
/// digits. Fails on an empty run and on runs longer than twenty digits.
pub open spec fn spec_parse_num(s: Seq<u8>, i: int) -> Option<(int, int)> {
    let j = spec_scan_digits(s, i);
    if j == i || j - i > 20 {
        None
    } else {
        Some((seq_num(s.subrange(i, j)), j))
    }
}

/// Finds the end of the digit run starting at `i`.
fn scan_digits(s: &Vec<u8>, i: usize) -> (j: usize)
    requires
        i <= s.len(),
    ensures
        i <= j <= s.len(),
        j as int == spec_scan_digits(s@, i as int),
{
    let mut j: usize = i;
    while j < s.len() && 48 <= s[j] && s[j] <= 57
        invariant
            i <= j <= s.len(),
            spec_scan_digits(s@, i as int) == spec_scan_digits(s@, j as int),
        decreases s.len() - j,
    {
        proof {
            assert(spec_scan_digits(s@, j as int) == spec_scan_digits(s@, j + 1));
        }
        j = j + 1;
    }
    j
}

/// Parses the number field starting at `i`.
fn parse_num(s: &Vec<u8>, i: usize) -> (r: Option<(u128, usize)>)
    requires
        i <= s.len(),
    ensures
        match r {
            Some(p) => {
                &&& spec_parse_num(s@, i as int) == Some((p.0 as int, p.1 as int))
                &&& (p.0 as int) < pow10(20)
                &&& i < p.1 <= s.len()
            },
            None => spec_parse_num(s@, i as int) is None,
        },
{
    let j = scan_digits(s, i);
    proof {
        lemma_scan_digits_props(s@, i as int);
    }
    if j == i || j - i > 20 {
        return None;
    }
    let mut v: u128 = 0;
    let mut k: usize = i;
    proof {
        lemma_pow10_values();
        assert(s@.subrange(i as int, i as int) =~= Seq::<u8>::empty());
    }
    while k < j
        invariant
            i <= k <= j <= s.len(),
            j - i <= 20,
            j as int == spec_scan_digits(s@, i as int),
            forall|m: int| i <= m < j ==> is_digit(#[trigger] s@[m]),
            v as int == seq_num(s@.subrange(i as int, k as int)),
            (v as int) < pow10((k - i) as nat),
            pow10(20) == 100000000000000000000,
            pow10(21) == 1000000000000000000000,
        decreases j - k,
    {
        proof {
            lemma_pow10_mono((k - i) as nat, 19);
            lemma_pow10_values();
            assert(pow10(((k + 1) - i) as nat) == 10 * pow10((k - i) as nat));
            assert(s@.subrange(i as int, k + 1).drop_last() =~= s@.subrange(i as int, k as int));
        }
        let d = s[k] - 48;
        v = v * 10 + d as u128;
        k = k + 1;
    }
    proof {
        lemma_pow10_mono((j - i) as nat, 20);
    }
    Some((v, j))
}

/// The byte-string field starting at `i`: a length prefix, the bytes, and
/// the field separator.
pub open spec fn spec_parse_bytes(s: Seq<u8>, i: int) -> Option<(Seq<u8>, int)> {
    match spec_parse_num(s, i) {
        None => None,
        Some((n, j)) => {
            if j < s.len() && s[j] == LEN_END && j + 1 + n + 1 <= s.len()
                && s[j + 1 + n] == FIELD_END {
                Some((s.subrange(j + 1, j + 1 + n), j + 1 + n + 1))
            } else {
                None
            }
        },
    }
}

/// The 32-bit number field starting at `i`.
pub open spec fn spec_parse_u32_field(s: Seq<u8>, i: int) -> Option<(u32, int)> {
    match spec_parse_num(s, i) {
        None => None,
        Some((n, j)) => {
            if n <= u32::MAX && j < s.len() && s[j] == FIELD_END {
                Some((n as u32, j + 1))
            } else {
                None
            }
        },
    }
}

/// The signed 64-bit number field starting at `i`.
pub open spec fn spec_parse_i64_field(s: Seq<u8>, i: int) -> Option<(i64, int)> {
    if 0 <= i < s.len() && s[i] == MINUS {
        match spec_parse_num(s, i + 1) {
            None => None,
            Some((n, j)) => {
                if 1 <= n <= 9223372036854775808 && j < s.len() && s[j] == FIELD_END {
                    Some(((-n) as i64, j + 1))
                } else {
                    None
                }
            },
        }
    } else {
        match spec_parse_num(s, i) {
            None => None,
            Some((n, j)) => {
                if n <= i64::MAX && j < s.len() && s[j] == FIELD_END {
                    Some((n as i64, j + 1))
                } else {
                    None
                }
            },
        }
    }
}

/// The boolean field starting at `i`: one byte, 0 or 1, then the separator.
pub open spec fn spec_parse_bool_field(s: Seq<u8>, i: int) -> Option<(bool, int)> {
    if 0 <= i && i + 2 <= s.len() && (s[i] == 48 || s[i] == 49) && s[i + 1] == FIELD_END {
        Some((s[i] == 49, i + 2))
    } else {
        None
    }
}

/// The status field starting at `i`: one status code byte, then the separator.
pub open spec fn spec_parse_status_field(s: Seq<u8>, i: int) -> Option<(DeviceStatusCode, int)> {
    if 0 <= i && i + 2 <= s.len() && (s[i] == 48 || s[i] == 49) && s[i + 1] == FIELD_END {
        Some((
            if s[i] == 49 {
                DeviceStatusCode::Fire
            } else {
                DeviceStatusCode::NoFire
            },
            i + 2,
        ))
    } else {
        None
    }
}

/// Copies the bytes of `s` between `a` and `b`.
fn copy_range(s: &Vec<u8>, a: usize, b: usize) -> (r: Vec<u8>)
    requires
        a <= b <= s.len(),
    ensures
        r@ == s@.subrange(a as int, b as int),
{
    let mut r: Vec<u8> = Vec::new();
    let mut i: usize = a;
    while i < b
        invariant
            a <= i <= b <= s.len(),
            r@ == s@.subrange(a as int, i as int),
        decreases b - i,
    {
        r.push(s[i]);
        i = i + 1;
        proof {
            assert(s@.subrange(a as int, i as int)
                =~= s@.subrange(a as int, i - 1).push(s@[i - 1]));
        }
    }
    r
}

/// Parses the byte-string field starting at `i`.
fn parse_bytes(s: &Vec<u8>, i: usize) -> (r: Option<(Vec<u8>, usize)>)
    requires
        i <= s.len(),
    ensures
        match r {
            Some(p) => {
                &&& spec_parse_bytes(s@, i as int) == Some((p.0@, p.1 as int))
                &&& i < p.1 <= s.len()
            },
            None => spec_parse_bytes(s@, i as int) is None,
        },
{
    match parse_num(s, i) {
        None => None,
        Some((n, j)) => {
            if j >= s.len() || s[j] != LEN_END {
                return None;
            }
            proof {
                lemma_pow10_values();
            }
            if n + 2 > (s.len() - j) as u128 {
                return None;
            }
            let nn = n as usize;
            let start = j + 1;
            let end = start + nn;
            if s[end] != FIELD_END {
                return None;
            }
            let b = copy_range(s, start, end);
            Some((b, end + 1))
        },
    }
}

/// Parses the 32-bit number field starting at `i`.
fn parse_u32_field(s: &Vec<u8>, i: usize) -> (r: Option<(u32, usize)>)
    requires
        i <= s.len(),
    ensures
        match r {
            Some(p) => {
                &&& spec_parse_u32_field(s@, i as int) == Some((p.0, p.1 as int))
                &&& i < p.1 <= s.len()
            },
            None => spec_parse_u32_field(s@, i as int) is None,
        },
{
    match parse_num(s, i) {
        None => None,
        Some((n, j)) => {
            if n <= 4294967295u128 && j < s.len() && s[j] == FIELD_END {
                Some((n as u32, j + 1))
            } else {
                None
            }
        },
    }
}

/// Parses the signed 64-bit number field starting at `i`.
fn parse_i64_field(s: &Vec<u8>, i: usize) -> (r: Option<(i64, usize)>)
    requires
        i <= s.len(),
    ensures
        match r {
            Some(p) => {
                &&& spec_parse_i64_field(s@, i as int) == Some((p.0, p.1 as int))
                &&& i < p.1 <= s.len()
            },
            None => spec_parse_i64_field(s@, i as int) is None,
        },
{
    if i < s.len() && s[i] == MINUS {
        match parse_num(s, i + 1) {
            None => None,
            Some((n, j)) => {
                if 1 <= n && n <= 9223372036854775808u128 && j < s.len() && s[j] == FIELD_END {
                    let v: i64 = if n == 9223372036854775808u128 {
                        i64::MIN
                    } else {
                        -(n as i64)
                    };
                    Some((v, j + 1))
                } else {
                    None
                }
            },
        }
    } else {
        match parse_num(s, i) {
            None => None,
            Some((n, j)) => {
                if n <= 9223372036854775807u128 && j < s.len() && s[j] == FIELD_END {
                    Some((n as i64, j + 1))
                } else {
                    None
                }
            },
        }
    }
}

/// Parses the boolean field starting at `i`.
fn parse_bool_field(s: &Vec<u8>, i: usize) -> (r: Option<(bool, usize)>)
    requires
        i <= s.len(),
    ensures
        match r {
            Some(p) => {
                &&& spec_parse_bool_field(s@, i as int) == Some((p.0, p.1 as int))
                &&& i < p.1 <= s.len()
            },
            None => spec_parse_bool_field(s@, i as int) is None,
        },
{
    if s.len() >= 2 && i <= s.len() - 2 && (s[i] == 48 || s[i] == 49) && s[i + 1] == FIELD_END {
        Some((s[i] == 49, i + 2))
    } else {
        None
    }
}

/// Parses the status field starting at `i`.
fn parse_status_field(s: &Vec<u8>, i: usize) -> (r: Option<(DeviceStatusCode, usize)>)
    requires
        i <= s.len(),
    ensures
        match r {
            Some(p) => {
                &&& spec_parse_status_field(s@, i as int) == Some((p.0, p.1 as int))
                &&& i < p.1 <= s.len()
            },
            None => spec_parse_status_field(s@, i as int) is None,
        },
{
    if s.len() >= 2 && i <= s.len() - 2 && (s[i] == 48 || s[i] == 49) && s[i + 1] == FIELD_END {
        let st = if s[i] == 49 {
            DeviceStatusCode::Fire
        } else {
            DeviceStatusCode::NoFire
        };
        Some((st, i + 2))
    } else {
        None
    }
}

/// The encoding of a byte-string field.
pub open spec fn spec_enc_bytes(b: Seq<u8>) -> Seq<u8> {
    spec_enc_nat(b.len() as int) + seq![LEN_END] + b + seq![FIELD_END]
}

/// The encoding of a 32-bit number field.
pub open spec fn spec_enc_u32_field(v: u32) -> Seq<u8> {
    spec_enc_nat(v as int) + seq![FIELD_END]
}

/// The encoding of a signed 64-bit number field.
pub open spec fn spec_enc_i64_field(v: i64) -> Seq<u8> {
    if v >= 0 {
        spec_enc_nat(v as int) + seq![FIELD_END]
    } else {
        seq![MINUS] + spec_enc_nat(-(v as int)) + seq![FIELD_END]
    }
}

/// The encoding of a boolean field.
pub open spec fn spec_enc_bool_field(v: bool) -> Seq<u8> {
    seq![if v { 49u8 } else { 48u8 }, FIELD_END]
}

/// The encoding of a status field.
pub open spec fn spec_enc_status_field(v: DeviceStatusCode) -> Seq<u8> {
    seq![(48 + v.spec_code()) as u8, FIELD_END]
}

/// The canonical encoding of a whole device record.
pub open spec fn spec_encode_device(d: DeviceModel) -> Seq<u8> {
    spec_enc_bytes(d.id) + spec_enc_bytes(d.name) + spec_enc_u32_field(d.lat_bits)
        + spec_enc_u32_field(d.lng_bits) + spec_enc_u32_field(d.error_bits)
        + spec_enc_status_field(d.status_code) + spec_enc_bool_field(d.disabled)
        + spec_enc_i64_field(d.created_at_ms) + spec_enc_i64_field(d.updated_at_ms)
}

/// The device record that a byte string holds, if it holds exactly one.
pub open spec fn spec_decode_device(s: Seq<u8>) -> Option<DeviceModel> {
    match spec_parse_bytes(s, 0) {
        None => None,
        Some((id, i1)) => match spec_parse_bytes(s, i1) {
            None => None,
            Some((name, i2)) => match spec_parse_u32_field(s, i2) {
                None => None,
                Some((lat_bits, i3)) => match spec_parse_u32_field(s, i3) {
                    None => None,
                    Some((lng_bits, i4)) => match spec_parse_u32_field(s, i4) {
                        None => None,
                        Some((error_bits, i5)) => match spec_parse_status_field(s, i5) {
                            None => None,
                            Some((status_code, i6)) => match spec_parse_bool_field(s, i6) {
                                None => None,
                                Some((disabled, i7)) => match spec_parse_i64_field(s, i7) {
                                    None => None,
                                    Some((created_at_ms, i8)) => match spec_parse_i64_field(
                                        s,
                                        i8,
                                    ) {
                                        None => None,
                                        Some((updated_at_ms, i9)) => {
                                            if i9 == s.len() {
                                                Some(DeviceModel {
                                                    id,
                                                    name,
                                                    lat_bits,
                                                    lng_bits,
                                                    error_bits,
                                                    status_code,
                                                    disabled,
                                                    created_at_ms,
                                                    updated_at_ms,
                                                })
                                            } else {
                                                None
                                            }
                                        },
                                    },
                                },
                            },
                        },
                    },
                },
            },
        },
    }
}

/// Appends the canonical digits of `v`.
fn enc_nat_onto(v: u128, out: &mut Vec<u8>)
    ensures
        final(out)@ == old(out)@ + spec_enc_nat(v as int),
    decreases v,
{
    if v < 10 {
        out.push(48 + v as u8);
        proof {
            assert(final(out)@ =~= old(out)@ + spec_enc_nat(v as int));
        }
    } else {
        let ghost mid = out@ + spec_enc_nat((v / 10) as int);
        enc_nat_onto(v / 10, out);
        out.push(48 + (v % 10) as u8);
        proof {
            assert((v / 10) as int == (v as int) / 10);
            assert((v % 10) as int == (v as int) % 10);
            assert(final(out)@ =~= old(out)@ + spec_enc_nat(v as int));
        }
    }
}

/// Appends the bytes of `b`.
fn push_bytes(out: &mut Vec<u8>, b: &Vec<u8>)
    ensures
        final(out)@ == old(out)@ + b@,
{
    let mut i: usize = 0;
    while i < b.len()
        invariant
            i <= b.len(),
            out@ == old(out)@ + b@.take(i as int),
        decreases b.len() - i,
    {
        out.push(b[i]);
        i = i + 1;
        proof {
            assert(out@ =~= old(out)@ + b@.take(i as int));
        }
    }
    proof {
        assert(old(out)@ + b@.take(b@.len() as int) =~= old(out)@ + b@);
    }
}

/// Appends a byte-string field.
fn enc_bytes_onto(b: &Vec<u8>, out: &mut Vec<u8>)
    ensures
        final(out)@ == old(out)@ + spec_enc_bytes(b@),
{
    enc_nat_onto(b.len() as u128, out);
    out.push(LEN_END);
    push_bytes(out, b);
    out.push(FIELD_END);
    proof {
        assert(final(out)@ =~= old(out)@ + spec_enc_bytes(b@));
    }
}

/// Appends a 32-bit number field.
fn enc_u32_onto(v: u32, out: &mut Vec<u8>)
    ensures
        final(out)@ == old(out)@ + spec_enc_u32_field(v),
{
    enc_nat_onto(v as u128, out);
    out.push(FIELD_END);
    proof {
        assert(final(out)@ =~= old(out)@ + spec_enc_u32_field(v));
    }
}

/// Appends a signed 64-bit number field.
fn enc_i64_onto(v: i64, out: &mut Vec<u8>)
    ensures
        final(out)@ == old(out)@ + spec_enc_i64_field(v),
{
    if v >= 0 {
        enc_nat_onto(v as u128, out);
        out.push(FIELD_END);
        proof {
            assert(final(out)@ =~= old(out)@ + spec_enc_i64_field(v));
        }
    } else {
        out.push(MINUS);
        let mag: u128 = ((-(v + 1)) as u128) + 1;
        proof {
            assert(mag as int == -(v as int));
        }
        enc_nat_onto(mag, out);
        out.push(FIELD_END);
        proof {
            assert(final(out)@ =~= old(out)@ + spec_enc_i64_field(v));
        }
    }
}

/// Appends a boolean field.
fn enc_bool_onto(v: bool, out: &mut Vec<u8>)
    ensures
        final(out)@ == old(out)@ + spec_enc_bool_field(v),
{
    out.push(if v { 49 } else { 48 });
    out.push(FIELD_END);
    proof {
        assert(final(out)@ =~= old(out)@ + spec_enc_bool_field(v));
    }
}

/// Appends a status field.
fn enc_status_onto(v: DeviceStatusCode, out: &mut Vec<u8>)
    ensures
        final(out)@ == old(out)@ + spec_enc_status_field(v),
{
    match v {
        DeviceStatusCode::NoFire => out.push(48),
        DeviceStatusCode::Fire => out.push(49),
    }
    out.push(FIELD_END);
    proof {
        assert(final(out)@ =~= old(out)@ + spec_enc_status_field(v));
    }
}

/// A number field embedded at `i` and followed by a non-digit parses back
/// to its value.
proof fn lemma_parse_num_at(s: Seq<u8>, i: int, n: int)
    requires
        0 <= n < pow10(20),
        0 <= i,
        i + spec_enc_nat(n).len() <= s.len(),
        s.subrange(i, i + spec_enc_nat(n).len()) == spec_enc_nat(n),
        i + spec_enc_nat(n).len() < s.len() ==> !is_digit(s[i + spec_enc_nat(n).len()]),
    ensures
        spec_parse_num(s, i) == Some((n, i + spec_enc_nat(n).len())),
{
    let e = spec_enc_nat(n);
    lemma_enc_nat_props(n);
    lemma_enc_nat_len(n, 20);
    assert forall|k: int| i <= k < i + e.len() implies is_digit(#[trigger] s[k]) by {
        assert(s.subrange(i, i + e.len())[k - i] == s[k]);
        assert(is_digit(e[k - i]));
    }
    lemma_scan_digits_exact(s, i, i + e.len());
    assert(s.subrange(i, i + e.len()) =~= e);
}

/// A byte-string field embedded at `i` parses back to its bytes.
proof fn lemma_parse_bytes_at(s: Seq<u8>, i: int, b: Seq<u8>)
    requires
        b.len() < pow10(20),
        0 <= i,
        i + spec_enc_bytes(b).len() <= s.len(),
        s.subrange(i, i + spec_enc_bytes(b).len()) == spec_enc_bytes(b),
    ensures
        spec_parse_bytes(s, i) == Some((b, i + spec_enc_bytes(b).len())),
{
    let e = spec_enc_bytes(b);
    let en = spec_enc_nat(b.len() as int);
    lemma_enc_nat_props(b.len() as int);
    assert forall|k: int| 0 <= k < e.len() implies s[i + k] == e[k] by {
        assert(s.subrange(i, i + e.len())[k] == s[i + k]);
    }
    assert(s.subrange(i, i + en.len()) =~= en) by {
        assert(forall|k: int| 0 <= k < en.len() ==> e[k] == en[k]);
        assert(forall|k: int|
            0 <= k < en.len() ==> #[trigger] s.subrange(i, i + en.len())[k] == s[i + k]);
    }
    assert(e[en.len() as int] == LEN_END);
    assert(!is_digit(s[i + en.len()]));
    lemma_parse_num_at(s, i, b.len() as int);
    let j = i + en.len();
    assert(s[j] == LEN_END);
    assert(j + 1 + b.len() + 1 <= s.len());
    assert(e[(en.len() + 1 + b.len()) as int] == FIELD_END);
    assert(s[j + 1 + b.len()] == FIELD_END);
    assert(s.subrange(j + 1, j + 1 + b.len()) =~= b) by {
        assert(forall|k: int| 0 <= k < b.len() ==> e[en.len() + 1 + k] == b[k]);
        assert(forall|k: int|
            0 <= k < b.len() ==> #[trigger] s.subrange(j + 1, j + 1 + b.len())[k] == s[j + 1 + k]);
    }
    assert(i + e.len() == j + 1 + b.len() + 1);
}

/// A 32-bit number field embedded at `i` parses back to its value.
proof fn lemma_parse_u32_at(s: Seq<u8>, i: int, v: u32)
    requires
        0 <= i,
        i + spec_enc_u32_field(v).len() <= s.len(),
        s.subrange(i, i + spec_enc_u32_field(v).len()) == spec_enc_u32_field(v),
    ensures
        spec_parse_u32_field(s, i) == Some((v, i + spec_enc_u32_field(v).len())),
{
    let e = spec_enc_u32_field(v);
    let en = spec_enc_nat(v as int);
    lemma_pow10_values();
    lemma_enc_nat_props(v as int);
    assert forall|k: int| 0 <= k < e.len() implies s[i + k] == e[k] by {
        assert(s.subrange(i, i + e.len())[k] == s[i + k]);
    }
    assert(s.subrange(i, i + en.len()) =~= en) by {
        assert(forall|k: int| 0 <= k < en.len() ==> e[k] == en[k]);
        assert(forall|k: int|
            0 <= k < en.len() ==> #[trigger] s.subrange(i, i + en.len())[k] == s[i + k]);
    }
    assert(e[en.len() as int] == FIELD_END);
    assert(!is_digit(s[i + en.len()]));
    lemma_parse_num_at(s, i, v as int);
}

/// A signed 64-bit number field embedded at `i` parses back to its value.
proof fn lemma_parse_i64_at(s: Seq<u8>, i: int, v: i64)
    requires
        0 <= i,
        i + spec_enc_i64_field(v).len() <= s.len(),
        s.subrange(i, i + spec_enc_i64_field(v).len()) == spec_enc_i64_field(v),
    ensures
        spec_parse_i64_field(s, i) == Some((v, i + spec_enc_i64_field(v).len())),
{
    let e = spec_enc_i64_field(v);
    lemma_pow10_values();
    assert forall|k: int| 0 <= k < e.len() implies s[i + k] == e[k] by {
        assert(s.subrange(i, i + e.len())[k] == s[i + k]);
    }
    if v >= 0 {
        let en = spec_enc_nat(v as int);
        lemma_enc_nat_props(v as int);
        assert(s.subrange(i, i + en.len()) =~= en) by {
            assert(forall|k: int| 0 <= k < en.len() ==> e[k] == en[k]);
            assert(forall|k: int|
                0 <= k < en.len() ==> #[trigger] s.subrange(i, i + en.len())[k] == s[i + k]);
        }
        assert(e[en.len() as int] == FIELD_END);
        assert(!is_digit(s[i + en.len()]));
        assert(e[0] == en[0]);
        assert(is_digit(en[0]));
        assert(s[i + 0] == e[0]);
        assert(s[i] != MINUS);
        lemma_parse_num_at(s, i, v as int);
    } else {
        let m = -(v as int);
        let en = spec_enc_nat(m);
        lemma_enc_nat_props(m);
        assert(e[0] == (seq![MINUS] + en)[0]);
        assert((seq![MINUS] + en)[0] == seq![MINUS][0]);
        assert(seq![MINUS][0] == MINUS);
        assert(s[i + 0] == e[0]);
        assert(s[i] == MINUS);
        assert(s.subrange(i + 1, i + 1 + en.len()) =~= en) by {
            assert(forall|k: int| 0 <= k < en.len() ==> e[1 + k] == en[k]);
            assert(forall|k: int|
                0 <= k < en.len() ==> #[trigger] s.subrange(i + 1, i + 1 + en.len())[k] == s[i + 1 + k]);
        }
        assert(e[(1 + en.len()) as int] == FIELD_END);
        assert(!is_digit(s[i + 1 + en.len()]));
        lemma_parse_num_at(s, i + 1, m);
        assert(1 <= m <= 9223372036854775808);
        assert((-m) as i64 == v);
    }
}

/// A status field embedded at `i` parses back to its status.
proof fn lemma_parse_status_at(s: Seq<u8>, i: int, v: DeviceStatusCode)
    requires
        0 <= i,
        i + 2 <= s.len(),
        s.subrange(i, i + 2) == spec_enc_status_field(v),
    ensures
        spec_parse_status_field(s, i) == Some((v, i + 2)),
{
    let e = spec_enc_status_field(v);
    assert(s[i] == e[0]);
    assert(s[i + 1] == e[1]);
}

/// A boolean field embedded at `i` parses back to its value.
proof fn lemma_parse_bool_at(s: Seq<u8>, i: int, v: bool)
    requires
        0 <= i,
        i + 2 <= s.len(),
        s.subrange(i, i + 2) == spec_enc_bool_field(v),
    ensures
        spec_parse_bool_field(s, i) == Some((v, i + 2)),
{
    let e = spec_enc_bool_field(v);
    assert(s[i] == e[0]);
    assert(s[i + 1] == e[1]);
}

/// Law: decoding an encoded device record yields the record unchanged,
/// for every record — in particular for both status variants, both signs
/// of each timestamp, and identifiers and names of any realizable length.
#[verifier::rlimit(100)]
pub proof fn lemma_device_round_trip(d: DeviceModel)
    requires
        d.id.len() < pow10(20),
        d.name.len() < pow10(20),
    ensures
        spec_decode_device(spec_encode_device(d)) == Some(d),
{
    let s = spec_encode_device(d);
    let e1 = spec_enc_bytes(d.id);
    let e2 = spec_enc_bytes(d.name);
    let e3 = spec_enc_u32_field(d.lat_bits);
    let e4 = spec_enc_u32_field(d.lng_bits);
    let e5 = spec_enc_u32_field(d.error_bits);
    let e6 = spec_enc_status_field(d.status_code);
    let e7 = spec_enc_bool_field(d.disabled);
    let e8 = spec_enc_i64_field(d.created_at_ms);
    let e9 = spec_enc_i64_field(d.updated_at_ms);
    let o1 = e1.len() as int;
    let o2 = o1 + e2.len();
    let o3 = o2 + e3.len();
    let o4 = o3 + e4.len();
    let o5 = o4 + e5.len();
    let o6 = o5 + e6.len();
    let o7 = o6 + e7.len();
    let o8 = o7 + e8.len();
    let o9 = o8 + e9.len();
    assert(s.len() == o9);
    assert(s.subrange(0, o1) =~= e1);
    assert(s.subrange(o1, o2) =~= e2);
    assert(s.subrange(o2, o3) =~= e3);
    assert(s.subrange(o3, o4) =~= e4);
    assert(s.subrange(o4, o5) =~= e5);
    assert(s.subrange(o5, o6) =~= e6);
    assert(s.subrange(o6, o7) =~= e7);
    assert(s.subrange(o7, o8) =~= e8);
    assert(s.subrange(o8, o9) =~= e9);
    lemma_parse_bytes_at(s, 0, d.id);
    lemma_parse_bytes_at(s, o1, d.name);
    lemma_parse_u32_at(s, o2, d.lat_bits);
    lemma_parse_u32_at(s, o3, d.lng_bits);
    lemma_parse_u32_at(s, o4, d.error_bits);
    lemma_parse_status_at(s, o5, d.status_code);
    lemma_parse_bool_at(s, o6, d.disabled);
    lemma_parse_i64_at(s, o7, d.created_at_ms);
    lemma_parse_i64_at(s, o8, d.updated_at_ms);
}

/// Encodes a device record into its canonical bytes.
pub fn encode_device(d: &Device) -> (r: Vec<u8>)
    ensures
        r@ == spec_encode_device(d@),
{
    let mut out: Vec<u8> = Vec::new();
    enc_bytes_onto(&d.id, &mut out);
    enc_bytes_onto(&d.name, &mut out);
    enc_u32_onto(d.lat_bits, &mut out);
    enc_u32_onto(d.lng_bits, &mut out);
    enc_u32_onto(d.error_bits, &mut out);
    enc_status_onto(d.status_code, &mut out);
    enc_bool_onto(d.disabled, &mut out);
    enc_i64_onto(d.created_at_ms, &mut out);
    enc_i64_onto(d.updated_at_ms, &mut out);
    proof {
        assert(out@ =~= spec_encode_device(d@));
    }
    out
}

/// Decodes a device record from its canonical bytes. Succeeds exactly on
/// the byte strings that hold one whole record.
pub fn decode_device(s: &Vec<u8>) -> (r: Option<Device>)
    ensures
        match r {
            Some(d) => spec_decode_device(s@) == Some(d@),
            None => spec_decode_device(s@) is None,
        },
{
    let (id, i1) = match parse_bytes(s, 0) {
        None => { return None; },
        Some(p) => p,
    };
    let (name, i2) = match parse_bytes(s, i1) {
        None => { return None; },
        Some(p) => p,
    };
    let (lat_bits, i3) = match parse_u32_field(s, i2) {
        None => { return None; },
        Some(p) => p,
    };
    let (lng_bits, i4) = match parse_u32_field(s, i3) {
        None => { return None; },
        Some(p) => p,
    };
    let (error_bits, i5) = match parse_u32_field(s, i4) {
        None => { return None; },
        Some(p) => p,
    };
    let (status_code, i6) = match parse_status_field(s, i5) {
        None => { return None; },
        Some(p) => p,
    };
    let (disabled, i7) = match parse_bool_field(s, i6) {
        None => { return None; },
        Some(p) => p,
    };
    let (created_at_ms, i8) = match parse_i64_field(s, i7) {
        None => { return None; },
        Some(p) => p,
    };
    let (updated_at_ms, i9) = match parse_i64_field(s, i8) {
        None => { return None; },
        Some(p) => p,
    };
    if i9 != s.len() {
        return None;
    }
    Some(Device {
        id,
        name,
        lat_bits,
        lng_bits,
        error_bits,
        status_code,
        disabled,
        created_at_ms,
        updated_at_ms,
    })
}

} // verus!
