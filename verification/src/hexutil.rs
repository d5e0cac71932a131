//! Hexadecimal text helpers: rendering byte strings as lower-case hex and
//! parsing hex text back into bytes.

use vstd::prelude::*;
use vstd::string::StringExecFns;
use vstd::string::StringSliceAdditionalSpecFns;

verus! {

/// The lower-case hex digit for a value below 16.
pub open spec fn spec_hex_digit(v: u8) -> char
    recommends
        v < 16,
{
    if v == 0 { '0' } else if v == 1 { '1' } else if v == 2 { '2' } else if v == 3 { '3' }
    else if v == 4 { '4' } else if v == 5 { '5' } else if v == 6 { '6' } else if v == 7 { '7' }
    else if v == 8 { '8' } else if v == 9 { '9' } else if v == 10 { 'a' } else if v == 11 { 'b' }
    else if v == 12 { 'c' } else if v == 13 { 'd' } else if v == 14 { 'e' } else { 'f' }
}

/// The two-character lower-case hex rendering of one byte.
pub open spec fn spec_hex_byte(b: u8) -> Seq<char> {
    seq![spec_hex_digit(b / 16), spec_hex_digit(b % 16)]
}

/// The lower-case hex rendering of a byte string, two characters per byte.
pub open spec fn spec_hex_string(data: Seq<u8>) -> Seq<char>
    decreases data.len(),
{
    if data.len() == 0 {
        Seq::<char>::empty()
    } else {
        spec_hex_byte(data[0]) + spec_hex_string(data.skip(1))
    }
}

fn hex_digit_str(v: u8) -> (s: &'static str)
    requires
        v < 16,
    ensures
        s@ == seq![spec_hex_digit(v)],
{
    if v == 0 {
        proof { reveal_strlit("0"); }
        "0"
    } else if v == 1 {
        proof { reveal_strlit("1"); }
        "1"
    } else if v == 2 {
        proof { reveal_strlit("2"); }
        "2"
    } else if v == 3 {
        proof { reveal_strlit("3"); }
        "3"
    } else if v == 4 {
        proof { reveal_strlit("4"); }
        "4"
    } else if v == 5 {
        proof { reveal_strlit("5"); }
        "5"
    } else if v == 6 {
        proof { reveal_strlit("6"); }
        "6"
    } else if v == 7 {
        proof { reveal_strlit("7"); }
        "7"
    } else if v == 8 {
        proof { reveal_strlit("8"); }
        "8"
    } else if v == 9 {
        proof { reveal_strlit("9"); }
        "9"
    } else if v == 10 {
        proof { reveal_strlit("a"); }
        "a"
    } else if v == 11 {
        proof { reveal_strlit("b"); }
        "b"
    } else if v == 12 {
        proof { reveal_strlit("c"); }
        "c"
    } else if v == 13 {
        proof { reveal_strlit("d"); }
        "d"
    } else if v == 14 {
        proof { reveal_strlit("e"); }
        "e"
    } else {
        proof { reveal_strlit("f"); }
        "f"
    }
}

proof fn lemma_hex_string_snoc(data: Seq<u8>, b: u8)
    ensures
        spec_hex_string(data.push(b)) == spec_hex_string(data) + spec_hex_byte(b),
    decreases data.len(),
{
    if data.len() == 0 {
        assert(data.push(b)[0] == b);
        assert(data.push(b).skip(1) =~= Seq::<u8>::empty());
        assert(spec_hex_string(data.push(b).skip(1)) == Seq::<char>::empty());
        assert(spec_hex_string(data.push(b)) =~= spec_hex_string(data) + spec_hex_byte(b));
    } else {
        assert(data.push(b)[0] == data[0]);
        assert(data.push(b).skip(1) =~= data.skip(1).push(b));
        lemma_hex_string_snoc(data.skip(1), b);
        assert(spec_hex_string(data.push(b)) == spec_hex_byte(data[0]) + spec_hex_string(
            data.skip(1).push(b),
        ));
        assert(spec_hex_string(data) == spec_hex_byte(data[0]) + spec_hex_string(data.skip(1)));
        assert(spec_hex_string(data.push(b)) =~= spec_hex_string(data) + spec_hex_byte(b));
    }
}

/// Renders a byte string as lower-case hex text, two digits per byte.
pub fn to_hex_string(data: &[u8]) -> (r: String)
    ensures
        r@ == spec_hex_string(data@),
{
    let mut out = String::new();
    let mut i: usize = 0;
    while i < data.len()
        invariant
            i <= data.len(),
            out@ == spec_hex_string(data@.take(i as int)),
        decreases data.len() - i,
    {
        let b = data[i];
        out.append(hex_digit_str(b / 16));
        out.append(hex_digit_str(b % 16));
        proof {
            assert(data@.take(i as int).push(b) =~= data@.take(i + 1 as int));
            lemma_hex_string_snoc(data@.take(i as int), b);
            assert(out@ =~= spec_hex_string(data@.take(i + 1 as int)));
        }
        i = i + 1;
    }
    proof {
        assert(data@.take(data@.len() as int) =~= data@);
    }
    out
}

/// The value of an ASCII hex digit byte, or 255 where the byte is no hex
/// digit.
pub open spec fn spec_hex_value(c: u8) -> u8 {
    if 0x30 <= c <= 0x39 {
        (c - 0x30) as u8
    } else if 0x61 <= c <= 0x66 {
        (c - 0x61 + 10) as u8
    } else if 0x41 <= c <= 0x46 {
        (c - 0x41 + 10) as u8
    } else {
        255
    }
}

/// Whether the byte is an ASCII hex digit.
pub open spec fn spec_is_hex_digit(c: u8) -> bool {
    spec_hex_value(c) < 16
}

fn hex_value(c: u8) -> (v: u8)
    ensures
        v == spec_hex_value(c),
{
    if 0x30 <= c && c <= 0x39 {
        c - 0x30
    } else if 0x61 <= c && c <= 0x66 {
        c - 0x61 + 10
    } else if 0x41 <= c && c <= 0x46 {
        c - 0x41 + 10
    } else {
        255
    }
}

/// Whether every byte of the text is an ASCII hex digit.
pub open spec fn spec_all_hex(s: Seq<u8>) -> bool {
    forall|i: int| 0 <= i < s.len() ==> spec_is_hex_digit(#[trigger] s[i])
}

/// The bytes denoted by hex text of even length: each pair of digits gives
/// one byte, high nibble first.
pub open spec fn spec_hex_bytes(s: Seq<u8>) -> Seq<u8>
    recommends
        s.len() % 2 == 0,
    decreases s.len(),
{
    if s.len() < 2 {
        Seq::<u8>::empty()
    } else {
        seq![(spec_hex_value(s[0]) * 16 + spec_hex_value(s[1])) as u8] + spec_hex_bytes(s.skip(2))
    }
}

pub proof fn lemma_hex_bytes_len(s: Seq<u8>)
    ensures
        spec_hex_bytes(s).len() == s.len() / 2,
    decreases s.len(),
{
    if s.len() >= 2 {
        lemma_hex_bytes_len(s.skip(2));
    }
}

proof fn lemma_hex_bytes_append_pair(s: Seq<u8>, c0: u8, c1: u8)
    requires
        s.len() % 2 == 0,
    ensures
        spec_hex_bytes(s + seq![c0, c1]) == spec_hex_bytes(s).push(
            (spec_hex_value(c0) * 16 + spec_hex_value(c1)) as u8,
        ),
    decreases s.len(),
{
    let ext = s + seq![c0, c1];
    if s.len() == 0 {
        assert(ext[0] == c0 && ext[1] == c1);
        assert(ext.skip(2) =~= Seq::<u8>::empty());
        assert(spec_hex_bytes(ext.skip(2)) == Seq::<u8>::empty());
        assert(spec_hex_bytes(ext) =~= spec_hex_bytes(s).push(
            (spec_hex_value(c0) * 16 + spec_hex_value(c1)) as u8,
        ));
    } else {
        let v = (spec_hex_value(c0) * 16 + spec_hex_value(c1)) as u8;
        assert(ext[0] == s[0] && ext[1] == s[1]);
        assert(ext.skip(2) =~= s.skip(2) + seq![c0, c1]);
        lemma_hex_bytes_append_pair(s.skip(2), c0, c1);
        assert(spec_hex_bytes(ext) == seq![
            (spec_hex_value(s[0]) * 16 + spec_hex_value(s[1])) as u8,
        ] + spec_hex_bytes(s.skip(2)).push(v));
        assert(spec_hex_bytes(s) == seq![
            (spec_hex_value(s[0]) * 16 + spec_hex_value(s[1])) as u8,
        ] + spec_hex_bytes(s.skip(2)));
        assert(spec_hex_bytes(ext) =~= spec_hex_bytes(s).push(v));
    }
}

/// Parses the hex digits of a byte string into bytes. Fails exactly when
/// the length is odd or some byte is no hex digit.
pub fn hex_bytes_to_bytes(chars: &[u8]) -> (r: Result<Vec<u8>, HexError>)
    ensures
        r is Ok <==> chars@.len() % 2 == 0 && spec_all_hex(chars@),
        r matches Ok(v) ==> v@ == spec_hex_bytes(chars@),
        r matches Err(e) ==> (e is OddLength <==> chars@.len() % 2 != 0),
{
    if chars.len() % 2 != 0 {
        return Err(HexError::OddLength);
    }
    let n = chars.len();
    let mut out: Vec<u8> = Vec::new();
    let mut i: usize = 0;
    while i < n
        invariant
            n == chars.len(),
            n % 2 == 0,
            i % 2 == 0,
            i <= n,
            spec_all_hex(chars@.take(i as int)),
            out@ == spec_hex_bytes(chars@.take(i as int)),
        decreases n - i,
    {
        let hi = hex_value(chars[i]);
        let lo = hex_value(chars[i + 1]);
        if hi >= 16 || lo >= 16 {
            return Err(HexError::BadDigit);
        }
        out.push(hi * 16 + lo);
        proof {
            let pre = chars@.take(i as int);
            assert(chars@.take(i + 2 as int) =~= pre + seq![
                chars@[i as int],
                chars@[i as int + 1],
            ]);
            lemma_hex_bytes_append_pair(pre, chars@[i as int], chars@[i as int + 1]);
        }
        i = i + 2;
    }
    proof {
        assert(chars@.take(n as int) =~= chars@);
    }
    Ok(out)
}

/// Why hex text failed to parse.
#[derive(Debug, Clone, Copy, PartialEq, Eq, Structural)]
pub enum HexError {
    /// The text has an odd number of digits.
    OddLength,
    /// A character is no hex digit.
    BadDigit,
}

/// Parses hex text into bytes. Fails exactly when the length is odd or a
/// character is no hex digit.
pub fn hex_stream_to_bytes(hex: &str) -> (r: Result<Vec<u8>, HexError>)
    ensures
        r is Ok <==> hex.spec_bytes().len() % 2 == 0 && spec_all_hex(hex.spec_bytes()),
        r matches Ok(v) ==> v@ == spec_hex_bytes(hex.spec_bytes()),
{
    hex_bytes_to_bytes(hex.as_bytes())
}

/// Relies on str's equality: two texts are equal exactly when their
/// characters are.
#[verifier::external_body]
pub fn str_eq(a: &str, b: &str) -> (r: bool)
    ensures
        r == (a@ == b@),
{
    a == b
}

/// Whether a byte string is valid UTF-8.
pub uninterp spec fn is_utf8(bytes: Seq<u8>) -> bool;

/// Relies on str::from_utf8: it succeeds exactly on valid UTF-8, and the
/// returned text views the same bytes.
#[verifier::external_body]
pub fn utf8_check(b: &[u8]) -> (r: Option<&str>)
    ensures
        r is Some <==> is_utf8(b@),
        r matches Some(s) ==> s.spec_bytes() == b@,
{
    core::str::from_utf8(b).ok()
}

/// Copies a 16-byte vector into a fixed array; `None` for any other length.
pub fn vec_to_array_16_opt(v: &Vec<u8>) -> (r: Option<[u8; 16]>)
    ensures
        r is Some <==> v@.len() == 16,
        r matches Some(a) ==> a@ == v@,
{
    if v.len() != 16 {
        return None;
    }
    let a: [u8; 16] = [
        v[0], v[1], v[2], v[3], v[4], v[5], v[6], v[7],
        v[8], v[9], v[10], v[11], v[12], v[13], v[14], v[15],
    ];
    proof {
        assert(a@ =~= v@);
    }
    Some(a)
}

} // verus!
