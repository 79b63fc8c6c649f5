//! Lifting content-store digests across the host boundary.
//!
//! A digest crosses the boundary as a 64-character hex fingerprint string
//! and a byte length: an integer in values the engine packed itself, a
//! decimal string in request values, where the host stringifies
//! attributes. Packing and lifting are proved inverse.

use vstd::prelude::*;

use crate::values::{spec_project_str, value_view, Value, ValueV};
use crate::vfs::{wf_digest, Digest, DigestV};

verus! {

/// Whether a character is a hex digit.
pub open spec fn is_hex_digit(c: char) -> bool {
    ('0' <= c && c <= '9') || ('a' <= c && c <= 'f') || ('A' <= c && c <= 'F')
}

/// The value of a hex digit.
pub open spec fn hex_val(c: char) -> int {
    if '0' <= c && c <= '9' {
        c as int - '0' as int
    } else if 'a' <= c && c <= 'f' {
        c as int - 'a' as int + 10
    } else {
        c as int - 'A' as int + 10
    }
}

/// Whether a string is entirely hex digits.
pub open spec fn all_hex(s: Seq<char>) -> bool {
    forall|i: int| 0 <= i < s.len() ==> is_hex_digit(#[trigger] s[i])
}

/// The bytes a hex string denotes, two digits per byte.
pub open spec fn spec_hex_decode(s: Seq<char>) -> Seq<u8> {
    Seq::new(s.len() / 2, |i: int| (hex_val(s[2 * i]) * 16 + hex_val(s[2 * i + 1])) as u8)
}

/// The value of one hex digit; `None` for any other character.
fn hex_digit_val(c: char) -> (r: Option<u8>)
    ensures
        match r {
            Some(v) => is_hex_digit(c) && v as int == hex_val(c),
            None => !is_hex_digit(c),
        },
{
    let u = c as u32;
    if 48 <= u && u <= 57 {
        Some((u - 48) as u8)
    } else if 97 <= u && u <= 102 {
        Some((u - 97 + 10) as u8)
    } else if 65 <= u && u <= 70 {
        Some((u - 65 + 10) as u8)
    } else {
        None
    }
}

/// Parses a 64-character hex fingerprint into its 32 bytes.
///
/// Returns `Ok` exactly when the string is 64 hex digits; the bytes are the
/// decoded pairs.
#[verifier::loop_isolation(false)]
pub fn fingerprint_from_hex(s: &str) -> (r: Result<Vec<u8>, String>)
    ensures
        match r {
            Ok(b) => s@.len() == 64 && all_hex(s@) && b@ == spec_hex_decode(s@),
            Err(_) => !(s@.len() == 64 && all_hex(s@)),
        },
{
    let n = s.unicode_len();
    if n != 64 {
        return Err("Fingerprint must be 64 hex characters".to_owned());
    }
    let mut out: Vec<u8> = Vec::new();
    let mut i: usize = 0;
    while i < 32
        invariant
            i <= 32,
            out@.len() == i,
            forall|j: int| 0 <= j < 2 * i ==> is_hex_digit(#[trigger] s@[j]),
            forall|j: int| 0 <= j < i
                ==> out@[j] as int == hex_val(s@[2 * j]) * 16 + hex_val(s@[2 * j + 1]),
        decreases 32 - i,
    {
        let hi = s.get_char(2 * i);
        let lo = s.get_char(2 * i + 1);
        let hv = match hex_digit_val(hi) {
            Some(v) => v,
            None => {
                return Err("Fingerprint holds a non-hex character".to_owned());
            },
        };
        let lv = match hex_digit_val(lo) {
            Some(v) => v,
            None => {
                return Err("Fingerprint holds a non-hex character".to_owned());
            },
        };
        out.push(hv * 16 + lv);
        i = i + 1;
    }
    proof {
        assert(out@ =~= spec_hex_decode(s@));
    }
    Ok(out)
}

/// The hex character of a nibble.
pub open spec fn spec_hex_char(n: int) -> char {
    if n == 0 { '0' } else if n == 1 { '1' } else if n == 2 { '2' } else if n == 3 { '3' }
    else if n == 4 { '4' } else if n == 5 { '5' } else if n == 6 { '6' } else if n == 7 { '7' }
    else if n == 8 { '8' } else if n == 9 { '9' } else if n == 10 { 'a' } else if n == 11 { 'b' }
    else if n == 12 { 'c' } else if n == 13 { 'd' } else if n == 14 { 'e' } else { 'f' }
}

/// The lowercase hex rendering of bytes, two characters per byte.
pub open spec fn spec_hex_encode(b: Seq<u8>) -> Seq<char> {
    Seq::new(b.len() * 2, |i: int| spec_hex_char(
        if i % 2 == 0 { b[i / 2] as int / 16 } else { b[i / 2] as int % 16 },
    ))
}

pub(crate) fn nibble_str(n: u8) -> (r: &'static str)
    requires
        n < 16,
    ensures
        r@.len() == 1 && r@[0] == spec_hex_char(n as int),
{
    let r: &'static str = match n {
        0 => "0", 1 => "1", 2 => "2", 3 => "3", 4 => "4", 5 => "5", 6 => "6", 7 => "7",
        8 => "8", 9 => "9", 10 => "a", 11 => "b", 12 => "c", 13 => "d", 14 => "e", _ => "f",
    };
    proof {
        reveal_strlit("0"); reveal_strlit("1"); reveal_strlit("2"); reveal_strlit("3");
        reveal_strlit("4"); reveal_strlit("5"); reveal_strlit("6"); reveal_strlit("7");
        reveal_strlit("8"); reveal_strlit("9"); reveal_strlit("a"); reveal_strlit("b");
        reveal_strlit("c"); reveal_strlit("d"); reveal_strlit("e"); reveal_strlit("f");
    }
    r
}

/// Renders bytes as lowercase hex, two characters per byte.
#[verifier::loop_isolation(false)]
pub fn to_hex(b: &Vec<u8>) -> (r: String)
    ensures
        r@ == spec_hex_encode(b@),
{
    let mut out = String::new();
    let mut i: usize = 0;
    while i < b.len()
        invariant
            i <= b.len(),
            out@.len() == 2 * i,
            out@ =~= spec_hex_encode(b@).subrange(0, 2 * i as int),
        decreases b.len() - i,
    {
        let byte = b[i];
        out.append(nibble_str(byte / 16));
        out.append(nibble_str(byte % 16));
        proof {
            assert(out@ =~= spec_hex_encode(b@).subrange(0, 2 * (i + 1) as int));
        }
        i = i + 1;
    }
    proof {
        assert(out@ =~= spec_hex_encode(b@));
    }
    out
}

/// Hex encoding and decoding are inverse: decoding the rendering of any
/// bytes gives the bytes back.
pub proof fn lemma_hex_round_trip(b: Seq<u8>)
    ensures
        spec_hex_encode(b).len() == 2 * b.len(),
        all_hex(spec_hex_encode(b)),
        spec_hex_decode(spec_hex_encode(b)) == b,
{
    let e = spec_hex_encode(b);
    assert forall|n: int| 0 <= n < 16 implies is_hex_digit(spec_hex_char(n))
        && hex_val(spec_hex_char(n)) == n by {}
    assert forall|i: int| 0 <= i < e.len() implies is_hex_digit(#[trigger] e[i]) by {
        assert(0 <= (if i % 2 == 0 { b[i / 2] as int / 16 } else { b[i / 2] as int % 16 }) < 16);
    }
    assert forall|i: int| 0 <= i < b.len()
        implies #[trigger] spec_hex_decode(e)[i] == b[i] by {
        assert(e[2 * i] == spec_hex_char(b[i] as int / 16));
        assert(e[2 * i + 1] == spec_hex_char(b[i] as int % 16));
        assert(hex_val(e[2 * i]) * 16 + hex_val(e[2 * i + 1]) == b[i] as int);
    }
    assert(spec_hex_decode(e) =~= b);
}

/// Whether a character is a decimal digit.
pub open spec fn is_dec_digit(c: char) -> bool {
    '0' <= c && c <= '9'
}

/// Whether a string is entirely decimal digits.
pub open spec fn all_dec(s: Seq<char>) -> bool {
    forall|i: int| 0 <= i < s.len() ==> is_dec_digit(#[trigger] s[i])
}

/// The number a decimal string denotes.
pub open spec fn spec_dec_val(s: Seq<char>) -> int
    decreases s.len(),
{
    if s.len() == 0 {
        0
    } else {
        spec_dec_val(s.drop_last()) * 10 + (s.last() as int - '0' as int)
    }
}

/// A prefix of digits never denotes more than the whole.
proof fn lemma_dec_val_prefix_le(s: Seq<char>, i: int)
    requires
        0 <= i <= s.len(),
        all_dec(s),
    ensures
        spec_dec_val(s.subrange(0, i)) <= spec_dec_val(s),
        spec_dec_val(s) >= 0,
    decreases s.len() - i,
{
    if i == s.len() {
        assert(s.subrange(0, i) =~= s);
        lemma_dec_val_nonneg(s);
    } else {
        lemma_dec_val_prefix_le(s, i + 1);
        let p = s.subrange(0, i);
        let q = s.subrange(0, i + 1);
        assert(q.drop_last() =~= p);
        lemma_dec_val_nonneg(p);
    }
}

proof fn lemma_dec_val_nonneg(s: Seq<char>)
    requires
        all_dec(s),
    ensures
        spec_dec_val(s) >= 0,
    decreases s.len(),
{
    if s.len() > 0 {
        assert(all_dec(s.drop_last())) by {
            assert(forall|i: int| 0 <= i < s.len() - 1 ==> s.drop_last()[i] == #[trigger] s[i]);
        }
        lemma_dec_val_nonneg(s.drop_last());
    }
}

/// Parses a decimal unsigned integer.
///
/// Returns `Ok` exactly when the string is nonempty, all digits, and its
/// value fits in 64 bits; the result is that value.
#[verifier::loop_isolation(false)]
pub fn parse_u64_decimal(s: &str) -> (r: Result<u64, String>)
    ensures
        match r {
            Ok(n) => s@.len() > 0 && all_dec(s@) && spec_dec_val(s@) <= u64::MAX
                && n as int == spec_dec_val(s@),
            Err(_) => !(s@.len() > 0 && all_dec(s@) && spec_dec_val(s@) <= u64::MAX),
        },
{
    let n = s.unicode_len();
    if n == 0 {
        return Err("Expected digits, found an empty string".to_owned());
    }
    let mut acc: u64 = 0;
    let mut i: usize = 0;
    while i < n
        invariant
            i <= n,
            n == s@.len(),
            forall|j: int| 0 <= j < i ==> is_dec_digit(#[trigger] s@[j]),
            acc as int == spec_dec_val(s@.subrange(0, i as int)),
        decreases n - i,
    {
        let c = s.get_char(i);
        let u = c as u32;
        if !(48 <= u && u <= 57) {
            return Err("Length was not an unsigned integer".to_owned());
        }
        let d = (u - 48) as u64;
        if acc > (u64::MAX - d) / 10 {
            proof {
                let p = s@.subrange(0, i as int + 1);
                assert(p.drop_last() =~= s@.subrange(0, i as int));
                assert(spec_dec_val(p) > u64::MAX);
                if all_dec(s@) && spec_dec_val(s@) <= u64::MAX {
                    lemma_dec_val_prefix_le(s@, i as int + 1);
                }
            }
            return Err("Length overflows 64 bits".to_owned());
        }
        proof {
            let p = s@.subrange(0, i as int + 1);
            assert(p.drop_last() =~= s@.subrange(0, i as int));
        }
        acc = acc * 10 + d;
        i = i + 1;
    }
    proof {
        assert(s@.subrange(0, n as int) =~= s@);
    }
    Ok(acc)
}

/// The byte length a host field denotes: a non-negative integer field as
/// it stands (the engine's own packing), or a decimal string field (the
/// request schema, where the host stringifies attributes).
pub open spec fn spec_lift_length(v: Option<ValueV>) -> Option<u64> {
    match v {
        Some(ValueV::IntV(n)) => if n >= 0 {
            Some(n as u64)
        } else {
            None
        },
        Some(ValueV::StrV(s)) => if s.len() > 0 && all_dec(s) && spec_dec_val(s) <= i64::MAX {
            Some(spec_dec_val(s) as u64)
        } else {
            None
        },
        _ => None,
    }
}

/// What lifting a digest host value yields: the decoded fingerprint and
/// length, if the value carries a valid `fingerprint` string field and a
/// valid `serialized_bytes_length` field.
pub open spec fn spec_lift_digest(v: ValueV) -> Option<DigestV> {
    match (
        spec_project_str(v, "fingerprint"@),
        spec_lift_length(crate::values::spec_project(v, "serialized_bytes_length"@)),
    ) {
        (Some(fp), Some(len)) => {
            if fp.len() == 64 && all_hex(fp) {
                Some(DigestV { fingerprint: spec_hex_decode(fp), serialized_bytes_length: len })
            } else {
                None
            }
        },
        _ => None,
    }
}

/// Lifts a host digest value into a typed `Digest`.
///
/// Succeeds exactly when the value carries a 64-hex-digit `fingerprint`
/// field and a `serialized_bytes_length` field that is either a
/// non-negative integer or a decimal string fitting the signed 64-bit
/// encoding; the result is then well formed.
pub fn lift_digest(digest: &Value) -> (r: Result<Digest, String>)
    ensures
        match r {
            Ok(d) => spec_lift_digest(value_view(*digest)) == Some(d.deep_view())
                && wf_digest(d.deep_view()),
            Err(_) => spec_lift_digest(value_view(*digest)) is None,
        },
{
    let fingerprint = match crate::values::project_str(digest, "fingerprint") {
        Some(s) => s,
        None => {
            return Err("Digest lacks a fingerprint field".to_owned());
        },
    };
    let length: u64 = match crate::values::find_field(digest, "serialized_bytes_length") {
        Some(Value::IntV(n)) => {
            if *n >= 0 {
                *n as u64
            } else {
                return Err("Length was negative".to_owned());
            }
        },
        Some(Value::StrV(s)) => {
            let parsed = match parse_u64_decimal(s.as_str()) {
                Ok(n) => n,
                Err(e) => {
                    return Err(e);
                },
            };
            if parsed > i64::MAX as u64 {
                return Err("Length overflows the signed 64-bit encoding".to_owned());
            }
            parsed
        },
        _ => {
            return Err("Digest lacks a serialized_bytes_length field".to_owned());
        },
    };
    let bytes = match fingerprint_from_hex(fingerprint.as_str()) {
        Ok(b) => b,
        Err(e) => {
            return Err(e);
        },
    };
    Ok(Digest { fingerprint: bytes, serialized_bytes_length: length })
}

/// Packing a digest and lifting it back is the identity: the engine's own
/// directory-digest values always lift to the digest they were packed
/// from.
pub proof fn lemma_digest_round_trip(t: crate::values::Types, d: DigestV)
    requires
        wf_digest(d),
    ensures
        spec_lift_digest(crate::snapshot::spec_store_directory(t, d)) == Some(d),
{
    let v = crate::snapshot::spec_store_directory(t, d);
    let fs = v->ObjV_1;
    assert(crate::values::spec_find_field(fs, "fingerprint"@)
        == Some(ValueV::StrV(spec_hex_encode(d.fingerprint))));
    assert(crate::values::spec_find_field(fs.drop_first(), "serialized_bytes_length"@)
        == Some(ValueV::IntV(d.serialized_bytes_length as i64))) by {
        assert(fs.drop_first()[0] == fs[1]);
    }
    assert("fingerprint"@ != "serialized_bytes_length"@) by {
        reveal_strlit("fingerprint");
        reveal_strlit("serialized_bytes_length");
        assert(("fingerprint"@).len() == 11);
        assert(("serialized_bytes_length"@).len() == 23);
    }
    lemma_hex_round_trip(d.fingerprint);
    assert(spec_lift_digest(v) == Some(DigestV {
        fingerprint: spec_hex_decode(spec_hex_encode(d.fingerprint)),
        serialized_bytes_length: d.serialized_bytes_length,
    }));
}

} // verus!
