//! Byte-level text encodings shared by the credential and the password
//! digest: lowercase hexadecimal, canonical decimal numerals, field
//! splitting, and a comparison whose running time does not depend on where
//! two byte strings differ.

use vstd::prelude::*;
use vstd::utf8::{decode_utf8, valid_utf8};

verus! {

/// The error of `String::from_utf8`, of which nothing is read.
#[verifier::external_type_specification]
#[verifier::external_body]
pub struct ExFromUtf8Error(std::string::FromUtf8Error);

/// `String::from_utf8` of the standard library: it succeeds exactly on
/// well-formed UTF-8, and the string it makes holds the characters that the
/// bytes encode.
pub assume_specification[ String::from_utf8 ](bytes: Vec<u8>) -> (text: Result<
    String,
    std::string::FromUtf8Error,
>)
    ensures
        text is Ok <==> valid_utf8(bytes@),
        text matches Ok(s) ==> s@ == decode_utf8(bytes@),
;

/// The ASCII code of the lowercase hexadecimal digit for `n < 16`.
pub open spec fn hex_digit(n: int) -> u8 {
    if n < 10 {
        (48 + n) as u8
    } else {
        (87 + n) as u8
    }
}

/// Whether `c` is one of `0-9a-f`.
pub open spec fn is_hex_digit(c: u8) -> bool {
    (48 <= c <= 57) || (97 <= c <= 102)
}

/// The value of the lowercase hexadecimal digit `c`.
pub open spec fn hex_value(c: u8) -> int {
    if c <= 57 {
        c - 48
    } else {
        c - 87
    }
}

/// The lowercase hexadecimal text of `bytes`: two digits per byte, high
/// nibble first.
pub open spec fn hex_text(bytes: Seq<u8>) -> Seq<u8> {
    Seq::new(
        2 * bytes.len(),
        |i: int|
            if i % 2 == 0 {
                hex_digit(bytes[i / 2] as int / 16)
            } else {
                hex_digit(bytes[i / 2] as int % 16)
            },
    )
}

/// Whether `text` is the hexadecimal text of some byte string.
pub open spec fn is_hex_text(text: Seq<u8>) -> bool {
    &&& text.len() % 2 == 0
    &&& forall|i: int| 0 <= i < text.len() ==> is_hex_digit(#[trigger] text[i])
}

/// The bytes that a hexadecimal text stands for.
pub open spec fn hex_bytes(text: Seq<u8>) -> Seq<u8> {
    Seq::new(
        text.len() / 2,
        |i: int| (16 * hex_value(text[2 * i]) + hex_value(text[2 * i + 1])) as u8,
    )
}

/// Decoding inverts encoding.
pub proof fn lemma_hex_round_trip(bytes: Seq<u8>)
    ensures
        is_hex_text(hex_text(bytes)),
        hex_bytes(hex_text(bytes)) == bytes,
{
    let text = hex_text(bytes);
    assert forall|i: int| 0 <= i < text.len() implies is_hex_digit(#[trigger] text[i]) by {
        let b = bytes[i / 2] as int;
        assert(0 <= b / 16 < 16 && 0 <= b % 16 < 16);
    }
    assert forall|i: int| 0 <= i < bytes.len() implies hex_bytes(text)[i] == bytes[i] by {
        let b = bytes[i] as int;
        assert((2 * i) / 2 == i && (2 * i + 1) / 2 == i);
        assert((2 * i) % 2 == 0 && (2 * i + 1) % 2 == 1);
        assert(hex_value(hex_digit(b / 16)) == b / 16);
        assert(hex_value(hex_digit(b % 16)) == b % 16);
        assert(16 * (b / 16) + b % 16 == b);
    }
    assert(hex_bytes(text) =~= bytes);
}

/// Encoding inverts decoding on hexadecimal texts, so a hexadecimal text has
/// exactly one spelling per byte string.
pub proof fn lemma_hex_canonical(text: Seq<u8>)
    requires
        is_hex_text(text),
    ensures
        hex_text(hex_bytes(text)) == text,
{
    let bytes = hex_bytes(text);
    assert forall|i: int| 0 <= i < text.len() implies hex_text(bytes)[i] == text[i] by {
        let k = i / 2;
        let hi = hex_value(text[2 * k]);
        let lo = hex_value(text[2 * k + 1]);
        assert(is_hex_digit(text[2 * k]) && is_hex_digit(text[2 * k + 1]));
        assert(0 <= hi < 16 && 0 <= lo < 16);
        assert((16 * hi + lo) / 16 == hi && (16 * hi + lo) % 16 == lo);
        assert(hex_digit(hi) == text[2 * k]);
        assert(hex_digit(lo) == text[2 * k + 1]);
        assert(i == 2 * k || i == 2 * k + 1);
    }
    assert(hex_text(bytes) =~= text);
}

fn hex_digit_of(n: u8) -> (c: u8)
    requires
        n < 16,
    ensures
        c == hex_digit(n as int),
{
    if n < 10 {
        48 + n
    } else {
        87 + n
    }
}

/// Writes `bytes` as lowercase hexadecimal text.
pub fn hex_encode(bytes: &[u8]) -> (text: Vec<u8>)
    ensures
        text@ == hex_text(bytes@),
{
    let mut text: Vec<u8> = Vec::new();
    let mut i: usize = 0;
    while i < bytes.len()
        invariant
            0 <= i <= bytes@.len(),
            text@.len() == 2 * i,
            forall|k: int| 0 <= k < text@.len() ==> text@[k] == hex_text(bytes@)[k],
        decreases bytes@.len() - i,
    {
        let b: u8 = bytes[i];
        text.push(hex_digit_of(b / 16));
        text.push(hex_digit_of(b % 16));
        assert((2 * i) / 2 == i && (2 * i + 1) / 2 == i);
        i += 1;
    }
    assert(text@ =~= hex_text(bytes@));
    text
}

fn hex_value_of(c: u8) -> (v: Option<u8>)
    ensures
        v is Some <==> is_hex_digit(c),
        v matches Some(n) ==> n == hex_value(c) && n < 16,
{
    if 48 <= c && c <= 57 {
        Some(c - 48)
    } else if 97 <= c && c <= 102 {
        Some(c - 87)
    } else {
        None
    }
}

/// Reads lowercase hexadecimal text back into bytes; `None` when `text` has
/// odd length or holds anything but `0-9a-f`.
pub fn hex_decode(text: &[u8]) -> (bytes: Option<Vec<u8>>)
    ensures
        bytes is Some <==> is_hex_text(text@),
        bytes matches Some(b) ==> b@ == hex_bytes(text@),
{
    if text.len() % 2 != 0 {
        return None;
    }
    let mut bytes: Vec<u8> = Vec::new();
    let mut i: usize = 0;
    while i < text.len() / 2
        invariant
            text@.len() % 2 == 0,
            0 <= i <= text@.len() / 2,
            bytes@.len() == i,
            forall|k: int| 0 <= k < 2 * i ==> is_hex_digit(#[trigger] text@[k]),
            forall|k: int| 0 <= k < i ==> bytes@[k] == hex_bytes(text@)[k],
        decreases text@.len() / 2 - i,
    {
        let hi = hex_value_of(text[2 * i]);
        let lo = hex_value_of(text[2 * i + 1]);
        match (hi, lo) {
            (Some(h), Some(l)) => {
                bytes.push(16 * h + l);
            },
            _ => {
                return None;
            },
        }
        i += 1;
    }
    assert(bytes@ =~= hex_bytes(text@));
    Some(bytes)
}


/// Whether `c` is one of `0-9`.
pub open spec fn is_digit(c: u8) -> bool {
    48 <= c <= 57
}

/// The value of the decimal digit `c` (zero for any other byte).
pub open spec fn digit_value(c: u8) -> nat {
    if is_digit(c) {
        (c - 48) as nat
    } else {
        0
    }
}

/// The decimal digits of `n`, most significant first, without leading zeros.
pub open spec fn digits(n: nat) -> Seq<u8>
    decreases n,
{
    if n < 10 {
        seq![(48 + n) as u8]
    } else {
        digits(n / 10).push((48 + n % 10) as u8)
    }
}

/// The number that a run of decimal digits spells.
pub open spec fn digits_value(text: Seq<u8>) -> nat
    decreases text.len(),
{
    if text.len() == 0 {
        0
    } else {
        digits_value(text.drop_last()) * 10 + digit_value(text.last())
    }
}

/// Whether `text` is a canonical unsigned numeral: at least one digit, only
/// digits, and no leading zero except for the numeral `0` itself.
pub open spec fn is_digits(text: Seq<u8>) -> bool {
    &&& text.len() > 0
    &&& forall|i: int| 0 <= i < text.len() ==> is_digit(#[trigger] text[i])
    &&& text.len() > 1 ==> text[0] != 48
}

/// The unsigned number that `text` spells, if it is a canonical numeral of a
/// number no greater than `limit`.
pub open spec fn unsigned_value(text: Seq<u8>, limit: nat) -> Option<nat> {
    if is_digits(text) && digits_value(text) <= limit {
        Some(digits_value(text))
    } else {
        None
    }
}

/// The decimal text of an integer: a minus sign for negative numbers, then
/// the digits of the magnitude.
pub open spec fn decimal_text(n: int) -> Seq<u8> {
    if n < 0 {
        seq![45u8] + digits((-n) as nat)
    } else {
        digits(n as nat)
    }
}

/// The integer that `text` spells, if it is the decimal text of one.
pub open spec fn decimal_value(text: Seq<u8>) -> Option<int> {
    if text.len() > 0 && text[0] == 45 {
        let magnitude = text.drop_first();
        if is_digits(magnitude) && digits_value(magnitude) > 0 {
            Some(-(digits_value(magnitude) as int))
        } else {
            None
        }
    } else if is_digits(text) {
        Some(digits_value(text) as int)
    } else {
        None
    }
}

/// The 64-bit signed integer that `text` spells, if it is the decimal text of
/// one.
pub open spec fn i64_value(text: Seq<u8>) -> Option<i64> {
    match decimal_value(text) {
        Some(v) => if i64::MIN <= v <= i64::MAX {
            Some(v as i64)
        } else {
            None
        },
        None => None,
    }
}

/// The digits of a number are a canonical numeral that spells it.
pub proof fn lemma_digits_round_trip(n: nat)
    ensures
        is_digits(digits(n)),
        digits_value(digits(n)) == n,
    decreases n,
{
    if n < 10 {
        let t = digits(n);
        assert(t.drop_last() =~= Seq::<u8>::empty());
        assert(digits_value(t.drop_last()) == 0);
    } else {
        lemma_digits_round_trip(n / 10);
        let head = digits(n / 10);
        let t = digits(n);
        assert(t.drop_last() =~= head);
        assert(t.last() == (48 + n % 10) as u8);
        assert(t[0] == head[0]);
        assert(head.len() == 1 ==> digits_value(head) == digit_value(head[0])) by {
            if head.len() == 1 {
                assert(head.drop_last() =~= Seq::<u8>::empty());
                assert(digits_value(head.drop_last()) == 0);
            }
        }
        assert forall|i: int| 0 <= i < t.len() implies is_digit(#[trigger] t[i]) by {
            if i < head.len() {
                assert(t[i] == head[i]);
            }
        }
    }
}

/// A canonical numeral is the digits of the number it spells.
pub proof fn lemma_digits_canonical(text: Seq<u8>)
    requires
        is_digits(text),
    ensures
        digits(digits_value(text)) == text,
    decreases text.len(),
{
    let head = text.drop_last();
    let d = digit_value(text.last());
    assert(is_digit(text.last()));
    if text.len() == 1 {
        assert(head =~= Seq::<u8>::empty());
        assert(digits_value(head) == 0);
        assert(digits(d) =~= text);
    } else {
        assert(is_digits(head)) by {
            assert forall|i: int| 0 <= i < head.len() implies is_digit(#[trigger] head[i]) by {
                assert(head[i] == text[i]);
            }
            assert(head[0] == text[0]);
        }
        lemma_digits_canonical(head);
        lemma_leading_digit(head);
        let v = digits_value(head);
        assert(v >= 1);
        assert((v * 10 + d) / 10 == v);
        assert((v * 10 + d) % 10 == d);
        assert(digits(v * 10 + d) =~= text);
    }
}

/// A canonical numeral spells zero only if it is the numeral `0`.
proof fn lemma_leading_digit(text: Seq<u8>)
    requires
        is_digits(text),
    ensures
        text[0] != 48 ==> digits_value(text) >= 1,
        text.len() > 1 ==> digits_value(text) >= 1,
    decreases text.len(),
{
    let head = text.drop_last();
    if text.len() == 1 {
        assert(head =~= Seq::<u8>::empty());
        assert(digits_value(head) == 0);
        assert(is_digit(text[0]));
    } else {
        assert(is_digits(head)) by {
            assert forall|i: int| 0 <= i < head.len() implies is_digit(#[trigger] head[i]) by {
                assert(head[i] == text[i]);
            }
            assert(head[0] == text[0]);
        }
        lemma_leading_digit(head);
    }
}

/// The number spelled by a prefix never exceeds the number spelled by the
/// whole run of digits.
proof fn lemma_prefix_value(text: Seq<u8>, k: int)
    requires
        0 <= k <= text.len(),
    ensures
        digits_value(text.take(k)) <= digits_value(text),
    decreases text.len() - k,
{
    if k == text.len() {
        assert(text.take(k) =~= text);
    } else {
        lemma_prefix_value(text.drop_last(), k);
        assert(text.drop_last().take(k) =~= text.take(k));
    }
}

/// Reading a decimal text gives back the integer that was written.
pub proof fn lemma_decimal_round_trip(n: int)
    ensures
        decimal_value(decimal_text(n)) == Some(n),
{
    if n < 0 {
        let m = (-n) as nat;
        lemma_digits_round_trip(m);
        assert(decimal_text(n).drop_first() =~= digits(m));
    } else {
        lemma_digits_round_trip(n as nat);
        assert(is_digit(digits(n as nat)[0]));
    }
}

/// Every integer has exactly one decimal text.
pub proof fn lemma_decimal_canonical(text: Seq<u8>)
    requires
        decimal_value(text) is Some,
    ensures
        decimal_text(decimal_value(text)->Some_0) == text,
{
    if text.len() > 0 && text[0] == 45 {
        let magnitude = text.drop_first();
        lemma_digits_canonical(magnitude);
        assert(seq![45u8] + magnitude =~= text);
    } else {
        lemma_digits_canonical(text);
    }
}

/// A decimal text holds digits and at most a leading minus sign.
pub proof fn lemma_decimal_alphabet(n: int, i: int)
    requires
        0 <= i < decimal_text(n).len(),
    ensures
        is_digit(decimal_text(n)[i]) || decimal_text(n)[i] == 45,
{
    if n < 0 {
        lemma_digits_round_trip((-n) as nat);
        if i > 0 {
            assert(decimal_text(n)[i] == digits((-n) as nat)[i - 1]);
        }
    } else {
        lemma_digits_round_trip(n as nat);
    }
}

fn push_digits(n: u64, out: &mut Vec<u8>)
    ensures
        final(out)@ == old(out)@ + digits(n as nat),
    decreases n,
{
    if n >= 10 {
        push_digits(n / 10, out);
    }
    let d: u8 = (n % 10) as u8;
    out.push(48 + d);
    assert(out@ =~= old(out)@ + digits(n as nat));
}

/// Writes `n` as an unsigned decimal numeral.
pub fn unsigned_encode(n: u64) -> (text: Vec<u8>)
    ensures
        text@ == digits(n as nat),
{
    let mut text: Vec<u8> = Vec::new();
    push_digits(n, &mut text);
    assert(text@ =~= digits(n as nat));
    text
}

/// Writes `n` as decimal text.
pub fn decimal_encode(n: i64) -> (text: Vec<u8>)
    ensures
        text@ == decimal_text(n as int),
{
    let mut text: Vec<u8> = Vec::new();
    if n < 0 {
        text.push(45);
        let magnitude: u64 = if n == i64::MIN {
            9223372036854775808u64
        } else {
            (-n) as u64
        };
        push_digits(magnitude, &mut text);
    } else {
        push_digits(n as u64, &mut text);
    }
    assert(text@ =~= decimal_text(n as int));
    text
}

/// Reads a canonical unsigned numeral of a number no greater than `limit`.
pub fn unsigned_decode(text: &[u8], limit: u64) -> (value: Option<u64>)
    ensures
        value is Some <==> unsigned_value(text@, limit as nat) is Some,
        value matches Some(v) ==> unsigned_value(text@, limit as nat) == Some(v as nat),
{
    let n = text.len();
    if n == 0 {
        return None;
    }
    if n > 1 && text[0] == 48 {
        return None;
    }
    let mut acc: u64 = 0;
    let mut i: usize = 0;
    assert(text@.take(0) =~= Seq::<u8>::empty());
    while i < n
        invariant
            n == text@.len(),
            0 <= i <= n,
            forall|k: int| 0 <= k < i ==> is_digit(#[trigger] text@[k]),
            acc == digits_value(text@.take(i as int)),
            acc <= limit,
        decreases n - i,
    {
        let c: u8 = text[i];
        if c < 48 || c > 57 {
            return None;
        }
        let d: u64 = (c - 48) as u64;
        proof {
            let next = text@.take(i + 1);
            assert(next.drop_last() =~= text@.take(i as int));
            assert(next.last() == c);
            lemma_prefix_value(text@, i + 1);
        }
        if d > limit || acc > (limit - d) / 10 {
            return None;
        }
        acc = acc * 10 + d;
        i += 1;
    }
    assert(text@.take(n as int) =~= text@);
    Some(acc)
}

/// Reads decimal text into a 64-bit signed integer; `None` when `text` is
/// not the decimal text of one.
pub fn decimal_decode(text: &[u8]) -> (value: Option<i64>)
    ensures
        value == i64_value(text@),
{
    if text.len() > 0 && text[0] == 45 {
        let magnitude = vstd::slice::slice_subrange(text, 1, text.len());
        assert(magnitude@ =~= text@.drop_first());
        match unsigned_decode(magnitude, 9223372036854775808u64) {
            Some(m) => {
                if m == 0 {
                    None
                } else if m == 9223372036854775808u64 {
                    Some(i64::MIN)
                } else {
                    Some(-(m as i64))
                }
            },
            None => None,
        }
    } else {
        match unsigned_decode(text, 9223372036854775807u64) {
            Some(m) => Some(m as i64),
            None => None,
        }
    }
}

/// The position of the first `sep` in `text`, or the length of `text` when
/// there is none.
pub open spec fn first_index(text: Seq<u8>, sep: u8) -> int
    decreases text.len(),
{
    if text.len() == 0 {
        0
    } else if text[0] == sep {
        0
    } else {
        1 + first_index(text.drop_first(), sep)
    }
}

/// `text` cut at its first `sep`: what stands before it and what stands
/// after it. `None` when `text` holds no `sep`.
pub open spec fn split_once(text: Seq<u8>, sep: u8) -> Option<(Seq<u8>, Seq<u8>)> {
    let i = first_index(text, sep);
    if i < text.len() {
        Some((text.take(i), text.skip(i + 1)))
    } else {
        None
    }
}

/// What `first_index` finds: no `sep` stands before it, and `sep` stands at
/// it unless it is the length of `text`.
pub proof fn lemma_first_index_found(text: Seq<u8>, sep: u8)
    ensures
        0 <= first_index(text, sep) <= text.len(),
        forall|k: int| 0 <= k < first_index(text, sep) ==> text[k] != sep,
        first_index(text, sep) < text.len() ==> text[first_index(text, sep)] == sep,
    decreases text.len(),
{
    if text.len() > 0 && text[0] != sep {
        let rest = text.drop_first();
        lemma_first_index_found(rest, sep);
        assert forall|k: int| 0 <= k < first_index(text, sep) implies text[k] != sep by {
            if k > 0 {
                assert(text[k] == rest[k - 1]);
            }
        }
        assert(first_index(rest, sep) < rest.len() ==> text[first_index(text, sep)]
            == rest[first_index(rest, sep)]);
    }
}

/// The two parts of a split, joined by `sep`, give the text back, and the
/// first part is free of `sep`.
pub proof fn lemma_split_parts(text: Seq<u8>, sep: u8)
    requires
        split_once(text, sep) is Some,
    ensures
        ({
            let (head, tail) = split_once(text, sep)->Some_0;
            &&& text == head + seq![sep] + tail
            &&& forall|k: int| 0 <= k < head.len() ==> head[k] != sep
        }),
{
    lemma_first_index_found(text, sep);
    let (head, tail) = split_once(text, sep)->Some_0;
    assert(text =~= head + seq![sep] + tail);
}

/// `first_index` is the one position that holds `sep` after a run without it.
pub proof fn lemma_first_index(text: Seq<u8>, sep: u8, i: int)
    requires
        0 <= i <= text.len(),
        forall|k: int| 0 <= k < i ==> text[k] != sep,
        i < text.len() ==> text[i] == sep,
    ensures
        first_index(text, sep) == i,
    decreases i,
{
    if i > 0 {
        let rest = text.drop_first();
        assert forall|k: int| 0 <= k < i - 1 implies rest[k] != sep by {
            assert(rest[k] == text[k + 1]);
        }
        lemma_first_index(rest, sep, i - 1);
    }
}

/// A text `head + [sep] + tail` whose `head` is free of `sep` splits into
/// `head` and `tail`.
pub proof fn lemma_split_joined(head: Seq<u8>, sep: u8, tail: Seq<u8>)
    requires
        forall|k: int| 0 <= k < head.len() ==> head[k] != sep,
    ensures
        split_once(head + seq![sep] + tail, sep) == Some((head, tail)),
{
    let text = head + seq![sep] + tail;
    let i = head.len() as int;
    assert forall|k: int| 0 <= k < i implies text[k] != sep by {
        assert(text[k] == head[k]);
    }
    assert(text[i] == sep);
    lemma_first_index(text, sep, i);
    assert(text.take(i) =~= head);
    assert(text.skip(i + 1) =~= tail);
}

/// Cuts `text` at its first `sep`.
pub fn split_first<'a>(text: &'a [u8], sep: u8) -> (parts: Option<(&'a [u8], &'a [u8])>)
    ensures
        parts is Some <==> split_once(text@, sep) is Some,
        parts matches Some((head, tail)) ==> split_once(text@, sep) == Some((head@, tail@)),
{
    let n = text.len();
    let mut i: usize = 0;
    while i < n && text[i] != sep
        invariant
            n == text@.len(),
            0 <= i <= n,
            forall|k: int| 0 <= k < i ==> text@[k] != sep,
        decreases n - i,
    {
        i += 1;
    }
    proof {
        lemma_first_index(text@, sep, i as int);
    }
    if i < n {
        let head = vstd::slice::slice_subrange(text, 0, i);
        let tail = vstd::slice::slice_subrange(text, i + 1, n);
        assert(head@ =~= text@.take(i as int));
        assert(tail@ =~= text@.skip(i + 1));
        Some((head, tail))
    } else {
        None
    }
}

/// Compares two byte strings. Strings of one length are always read to
/// the end, so the time taken does not tell where they first differ.
pub fn constant_time_eq(a: &[u8], b: &[u8]) -> (same: bool)
    ensures
        same == (a@ == b@),
{
    if a.len() != b.len() {
        return false;
    }
    let n = a.len();
    let mut diff: u8 = 0;
    let mut i: usize = 0;
    while i < n
        invariant
            n == a@.len(),
            n == b@.len(),
            0 <= i <= n,
            diff == 0 <==> (forall|k: int| 0 <= k < i ==> a@[k] == b@[k]),
        decreases n - i,
    {
        let x: u8 = a[i];
        let y: u8 = b[i];
        assert(((diff | (x ^ y)) == 0) <==> (diff == 0 && x == y)) by (bit_vector);
        diff = diff | (x ^ y);
        i += 1;
    }
    if diff == 0 {
        assert(a@ =~= b@);
    }
    diff == 0
}

} // verus!
