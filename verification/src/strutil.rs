//! String helpers with exact character-level specifications: equality,
//! decimal and hexadecimal rendering, and prefix tests.

use vstd::prelude::*;
use vstd::string::StrSliceExecFns;
use vstd::string::StringExecFns;

verus! {

/// Compares two string slices by their UTF-8 bytes; equal bytes mean equal
/// character sequences because UTF-8 decoding inverts encoding.
#[verifier::loop_isolation(false)]
pub fn str_eq(a: &str, b: &str) -> (r: bool)
    ensures
        r == (a@ == b@),
{
    let ab = a.as_bytes();
    let bb = b.as_bytes();
    proof {
        vstd::utf8::encode_utf8_decode_utf8(a@);
        vstd::utf8::encode_utf8_decode_utf8(b@);
    }
    if ab.len() != bb.len() {
        assert(ab@ != bb@);
        return false;
    }
    let n = ab.len();
    let mut i: usize = 0;
    while i < n
        invariant
            n == ab@.len() == bb@.len(),
            0 <= i <= n,
            forall|j: int| 0 <= j < i ==> ab@[j] == bb@[j],
        decreases n - i,
    {
        if ab[i] != bb[i] {
            assert(ab@ != bb@);
            return false;
        }
        i += 1;
    }
    assert(ab@ =~= bb@);
    true
}

/// The decimal digit character for `d`, which must be below ten.
pub open spec fn dec_digit(d: nat) -> char
    recommends
        d < 10,
{
    if d == 0 { '0' }
    else if d == 1 { '1' }
    else if d == 2 { '2' }
    else if d == 3 { '3' }
    else if d == 4 { '4' }
    else if d == 5 { '5' }
    else if d == 6 { '6' }
    else if d == 7 { '7' }
    else if d == 8 { '8' }
    else { '9' }
}

/// The usual decimal rendering of `n`, without leading zeros.
pub open spec fn dec_of(n: nat) -> Seq<char>
    decreases n,
{
    if n < 10 {
        seq![dec_digit(n)]
    } else {
        dec_of(n / 10) + seq![dec_digit(n % 10)]
    }
}

/// The decimal rendering of a signed value: a minus sign before the
/// rendering of the magnitude when the value is negative.
pub open spec fn dec_of_i64(n: int) -> Seq<char>
    recommends
        i64::MIN <= n <= i64::MAX,
{
    if n < 0 {
        seq!['-'] + dec_of((-n) as nat)
    } else {
        dec_of(n as nat)
    }
}

fn dec_digit_str(d: u64) -> (r: &'static str)
    requires
        d < 10,
    ensures
        r@ == seq![dec_digit(d as nat)],
        r@.len() == 1,
{
    proof {
        reveal_strlit("0");
        reveal_strlit("1");
        reveal_strlit("2");
        reveal_strlit("3");
        reveal_strlit("4");
        reveal_strlit("5");
        reveal_strlit("6");
        reveal_strlit("7");
        reveal_strlit("8");
        reveal_strlit("9");
    }
    match d {
        0 => "0",
        1 => "1",
        2 => "2",
        3 => "3",
        4 => "4",
        5 => "5",
        6 => "6",
        7 => "7",
        8 => "8",
        _ => "9",
    }
}

/// Appends the decimal rendering of `n` to `out`.
pub fn append_u64(out: &mut String, n: u64)
    ensures
        final(out)@ == old(out)@ + dec_of(n as nat),
    decreases n,
{
    if n < 10 {
        out.append(dec_digit_str(n));
    } else {
        append_u64(out, n / 10);
        out.append(dec_digit_str(n % 10));
        proof {
            assert(final(out)@ =~= old(out)@ + dec_of(n as nat));
        }
    }
}

/// Renders `n` in decimal.
pub fn fmt_u64(n: u64) -> (r: String)
    ensures
        r@ == dec_of(n as nat),
{
    let mut out = String::new();
    append_u64(&mut out, n);
    proof {
        assert(out@ =~= dec_of(n as nat));
    }
    out
}

/// Renders a signed value in decimal, with a leading minus sign when negative.
pub fn fmt_i64(n: i64) -> (r: String)
    ensures
        r@ == dec_of_i64(n as int),
{
    proof {
        reveal_strlit("-");
    }
    if n < 0 {
        let magnitude: u64 = (-(n as i128)) as u64;
        let mut out = String::from_str("-");
        append_u64(&mut out, magnitude);
        proof {
            assert(out@ =~= dec_of_i64(n as int));
        }
        out
    } else {
        fmt_u64(n as u64)
    }
}

/// The lower-case hexadecimal digit character for `d`, which must be below sixteen.
pub open spec fn hex_digit(d: nat) -> char
    recommends
        d < 16,
{
    if d < 10 {
        dec_digit(d)
    } else if d == 10 { 'a' }
    else if d == 11 { 'b' }
    else if d == 12 { 'c' }
    else if d == 13 { 'd' }
    else if d == 14 { 'e' }
    else { 'f' }
}

pub fn hex_digit_str(d: u8) -> (r: &'static str)
    requires
        d < 16,
    ensures
        r@ == seq![hex_digit(d as nat)],
        r@.len() == 1,
{
    proof {
        reveal_strlit("a");
        reveal_strlit("b");
        reveal_strlit("c");
        reveal_strlit("d");
        reveal_strlit("e");
        reveal_strlit("f");
    }
    if d < 10 {
        dec_digit_str(d as u64)
    } else {
        match d {
            10 => "a",
            11 => "b",
            12 => "c",
            13 => "d",
            14 => "e",
            _ => "f",
        }
    }
}

/// The two-digit lower-case hexadecimal rendering of one byte.
pub open spec fn hex_byte(b: u8) -> Seq<char> {
    seq![hex_digit((b / 16) as nat), hex_digit((b % 16) as nat)]
}

/// The lower-case hexadecimal rendering of a byte sequence, two digits per
/// byte, in order.
pub open spec fn hex_bytes(s: Seq<u8>) -> Seq<char>
    decreases s.len(),
{
    if s.len() == 0 {
        Seq::empty()
    } else {
        hex_byte(s[0]) + hex_bytes(s.drop_first())
    }
}

/// Renders a byte slice as lower-case hexadecimal, two digits per byte.
pub fn hex_of_bytes(bytes: &[u8]) -> (r: String)
    ensures
        r@ == hex_bytes(bytes@),
        r@.len() == 2 * bytes@.len(),
{
    proof {
        lemma_hex_bytes_len(bytes@);
    }
    let n = bytes.len();
    let mut out = String::new();
    let mut i: usize = 0;
    while i < n
        invariant
            n == bytes@.len(),
            0 <= i <= n,
            out@ == hex_bytes(bytes@.take(i as int)),
        decreases n - i,
    {
        let b = bytes[i];
        out.append(hex_digit_str(b / 16));
        out.append(hex_digit_str(b % 16));
        proof {
            lemma_hex_bytes_push(bytes@, i as int);
        }
        i += 1;
    }
    proof {
        assert(bytes@.take(n as int) =~= bytes@);
    }
    out
}

/// The hexadecimal rendering of a byte sequence has two characters per byte.
pub proof fn lemma_hex_bytes_len(s: Seq<u8>)
    ensures
        hex_bytes(s).len() == 2 * s.len(),
    decreases s.len(),
{
    if s.len() > 0 {
        lemma_hex_bytes_len(s.drop_first());
    }
}

proof fn lemma_hex_bytes_push(s: Seq<u8>, i: int)
    requires
        0 <= i < s.len(),
    ensures
        hex_bytes(s.take(i + 1)) == hex_bytes(s.take(i)) + hex_byte(s[i]),
    decreases i,
{
    if i == 0 {
        assert(s.take(1).drop_first() =~= Seq::<u8>::empty());
        assert(s.take(1)[0] == s[0]);
        assert(hex_bytes(Seq::<u8>::empty()) =~= Seq::<char>::empty());
        assert(s.take(0) =~= Seq::<u8>::empty());
        assert(hex_bytes(s.take(1)) =~= hex_bytes(s.take(0)) + hex_byte(s[0]));
    } else {
        lemma_hex_bytes_push(s.drop_first(), i - 1);
        assert(s.take(i + 1).drop_first() =~= s.drop_first().take(i));
        assert(s.take(i).drop_first() =~= s.drop_first().take(i - 1));
        assert(hex_bytes(s.take(i + 1)) =~= hex_bytes(s.take(i)) + hex_byte(s[i]));
    }
}

/// The `len`-digit lower-case hexadecimal rendering of `n`, most
/// significant digit first, with leading zeros.
pub open spec fn hex_pad(n: nat, len: nat) -> Seq<char>
    decreases len,
{
    if len == 0 {
        Seq::empty()
    } else {
        hex_pad(n / 16, (len - 1) as nat) + seq![hex_digit(n % 16)]
    }
}

/// A padded hexadecimal rendering has exactly the asked-for length.
pub proof fn lemma_hex_pad_len(n: nat, len: nat)
    ensures
        hex_pad(n, len).len() == len,
    decreases len,
{
    if len > 0 {
        lemma_hex_pad_len(n / 16, (len - 1) as nat);
    }
}

fn append_hex_pad(out: &mut String, n: u128, len: usize)
    ensures
        final(out)@ == old(out)@ + hex_pad(n as nat, len as nat),
    decreases len,
{
    if len == 0 {
        proof {
            assert(final(out)@ =~= old(out)@ + hex_pad(n as nat, 0));
        }
        return;
    }
    append_hex_pad(out, n / 16, len - 1);
    out.append(hex_digit_str((n % 16) as u8));
    proof {
        assert(final(out)@ =~= old(out)@ + hex_pad(n as nat, len as nat));
    }
}

/// The hyphenated lower-case rendering of a 128-bit identifier: five groups
/// of 8, 4, 4, 4 and 12 hexadecimal digits.
pub open spec fn uuid_str_of(id: u128) -> Seq<char> {
    let h = hex_pad(id as nat, 32);
    h.subrange(0, 8) + seq!['-'] + h.subrange(8, 12) + seq!['-'] + h.subrange(12, 16) + seq!['-']
        + h.subrange(16, 20) + seq!['-'] + h.subrange(20, 32)
}

/// Renders a 128-bit identifier in the usual hyphenated form.
pub fn uuid_hyphenated(id: u128) -> (r: String)
    ensures
        r@ == uuid_str_of(id),
{
    proof {
        reveal_strlit("-");
        lemma_hex_pad_len(id as nat, 32);
    }
    let mut digits = String::new();
    append_hex_pad(&mut digits, id, 32);
    let d = digits.as_str();
    let mut out = String::new();
    out.append(d.substring_char(0, 8));
    out.append("-");
    out.append(d.substring_char(8, 12));
    out.append("-");
    out.append(d.substring_char(12, 16));
    out.append("-");
    out.append(d.substring_char(16, 20));
    out.append("-");
    out.append(d.substring_char(20, 32));
    proof {
        assert(out@ =~= uuid_str_of(id));
    }
    out
}

/// UTF-8 encoding distributes over concatenation.
pub proof fn lemma_encode_utf8_concat(a: Seq<char>, b: Seq<char>)
    ensures
        vstd::utf8::encode_utf8(a + b) == vstd::utf8::encode_utf8(a) + vstd::utf8::encode_utf8(b),
    decreases a.len(),
{
    if a.len() == 0 {
        assert(a + b =~= b);
        assert(vstd::utf8::encode_utf8(a) =~= Seq::<u8>::empty());
        assert(vstd::utf8::encode_utf8(a) + vstd::utf8::encode_utf8(b) =~= vstd::utf8::encode_utf8(
            b,
        ));
    } else {
        lemma_encode_utf8_concat(a.drop_first(), b);
        assert((a + b).drop_first() =~= a.drop_first() + b);
        assert((a + b)[0] == a[0]);
        assert((a + b).len() > 0);
        assert(vstd::utf8::encode_utf8(a + b) =~= vstd::utf8::encode_utf8(a) + vstd::utf8::encode_utf8(b));
    }
}

/// An optional request field: an empty string means absent.
pub fn optional_string(value: String) -> (r: Option<String>)
    ensures
        value@.len() == 0 ==> r is None,
        value@.len() > 0 ==> (r matches Some(s) && s@ == value@),
{
    if value.as_str().is_empty() {
        None
    } else {
        Some(value)
    }
}

/// The numeric value of a decimal digit character; ten for anything else.
pub open spec fn digit_val(c: char) -> nat {
    if c == '0' { 0 }
    else if c == '1' { 1 }
    else if c == '2' { 2 }
    else if c == '3' { 3 }
    else if c == '4' { 4 }
    else if c == '5' { 5 }
    else if c == '6' { 6 }
    else if c == '7' { 7 }
    else if c == '8' { 8 }
    else if c == '9' { 9 }
    else { 10 }
}

/// The value a digit string denotes.
pub open spec fn dec_val(s: Seq<char>) -> nat
    decreases s.len(),
{
    if s.len() == 0 {
        0
    } else {
        dec_val(s.drop_last()) * 10 + digit_val(s.last())
    }
}

/// A decimal digit reads back as its value.
proof fn lemma_digit_roundtrip(d: nat)
    requires
        d < 10,
    ensures
        digit_val(dec_digit(d)) == d,
{
}

/// Reading back a decimal rendering yields the rendered value, so two
/// distinct values never render alike.
pub proof fn lemma_dec_of_value(n: nat)
    ensures
        dec_val(dec_of(n)) == n,
    decreases n,
{
    if n < 10 {
        lemma_digit_roundtrip(n);
        assert(dec_of(n).drop_last() =~= Seq::<char>::empty());
        assert(dec_of(n).last() == dec_digit(n));
        assert(dec_val(dec_of(n)) == dec_val(Seq::<char>::empty()) * 10 + digit_val(dec_digit(n)));
    } else {
        lemma_dec_of_value(n / 10);
        lemma_digit_roundtrip(n % 10);
        assert(dec_of(n).drop_last() =~= dec_of(n / 10));
        assert(dec_of(n).last() == dec_digit(n % 10));
        assert(dec_val(dec_of(n)) == dec_val(dec_of(n / 10)) * 10 + digit_val(dec_digit(n % 10)));
    }
}

/// Decimal rendering is injective.
pub proof fn lemma_dec_of_injective(a: nat, b: nat)
    ensures
        a != b ==> dec_of(a) != dec_of(b),
{
    lemma_dec_of_value(a);
    lemma_dec_of_value(b);
}

} // verus!
