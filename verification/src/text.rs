use vstd::prelude::*;

verus! {

/// The decimal digits of `n`, most significant first.
pub open spec fn decimal_chars(n: nat) -> Seq<char>
    decreases n,
{
    if n < 10 {
        seq![digit_char(n)]
    } else {
        decimal_chars(n / 10).push(digit_char(n % 10))
    }
}

/// The character of a decimal digit.
pub open spec fn digit_char(d: nat) -> char {
    if d == 0 {
        '0'
    } else if d == 1 {
        '1'
    } else if d == 2 {
        '2'
    } else if d == 3 {
        '3'
    } else if d == 4 {
        '4'
    } else if d == 5 {
        '5'
    } else if d == 6 {
        '6'
    } else if d == 7 {
        '7'
    } else if d == 8 {
        '8'
    } else {
        '9'
    }
}

fn digit(d: u64) -> (c: char)
    requires
        d < 10,
    ensures
        c == digit_char(d as nat),
{
    if d == 0 {
        '0'
    } else if d == 1 {
        '1'
    } else if d == 2 {
        '2'
    } else if d == 3 {
        '3'
    } else if d == 4 {
        '4'
    } else if d == 5 {
        '5'
    } else if d == 6 {
        '6'
    } else if d == 7 {
        '7'
    } else if d == 8 {
        '8'
    } else {
        '9'
    }
}

/// `String::push`: appends one character.
#[verifier::external_body]
pub(crate) fn push_char(s: &mut String, c: char)
    ensures
        final(s)@ == old(s)@.push(c),
{
    s.push(c);
}

/// `String::push_str`: appends a string slice.
#[verifier::external_body]
pub(crate) fn push_str(s: &mut String, t: &str)
    ensures
        final(s)@ == old(s)@ + t@,
{
    s.push_str(t);
}

/// Append the decimal digits of `n` to `s`.
pub fn push_decimal(s: &mut String, n: u64)
    ensures
        final(s)@ == old(s)@ + decimal_chars(n as nat),
    decreases n,
{
    if n < 10 {
        push_char(s, digit(n));
        assert(old(s)@.push(digit_char(n as nat)) =~= old(s)@ + decimal_chars(n as nat));
    } else {
        push_decimal(s, n / 10);
        push_char(s, digit(n % 10));
        assert(old(s)@ + decimal_chars((n / 10) as nat) + seq![digit_char((n % 10) as nat)]
            =~= old(s)@ + decimal_chars(n as nat));
    }
}

/// A string made of `prefix`, the decimal digits of `n`, then `suffix`.
pub fn message_with_number(prefix: &str, n: u64, suffix: &str) -> (s: String)
    ensures
        s@ == prefix@ + decimal_chars(n as nat) + suffix@,
{
    let mut s = prefix.to_owned();
    push_decimal(&mut s, n);
    push_str(&mut s, suffix);
    s
}

/// The lowercase hexadecimal digit of a value below 16.
pub open spec fn hex_digit(d: nat) -> char {
    if d < 10 {
        digit_char(d)
    } else if d == 10 {
        'a'
    } else if d == 11 {
        'b'
    } else if d == 12 {
        'c'
    } else if d == 13 {
        'd'
    } else if d == 14 {
        'e'
    } else {
        'f'
    }
}

/// Two lowercase hexadecimal digits for each byte, the high one first.
pub open spec fn hex_chars(b: Seq<u8>) -> Seq<char>
    decreases b.len(),
{
    if b.len() == 0 {
        Seq::empty()
    } else {
        hex_chars(b.drop_last()) + seq![hex_digit(b.last() as nat / 16), hex_digit(b.last() as nat % 16)]
    }
}

/// `hex::encode`: the bytes as lowercase hexadecimal digits, two per byte.
#[verifier::external_body]
pub(crate) fn hex_encode(bytes: &[u8]) -> (s: String)
    ensures
        s@ == hex_chars(bytes@),
{
    hex::encode(bytes)
}

/// The value of a hexadecimal digit of either case.
pub open spec fn hex_value(c: char) -> Option<nat> {
    if '0' <= c && c <= '9' {
        Some((c as nat - '0' as nat) as nat)
    } else if 'a' <= c && c <= 'f' {
        Some((c as nat - 'a' as nat + 10) as nat)
    } else if 'A' <= c && c <= 'F' {
        Some((c as nat - 'A' as nat + 10) as nat)
    } else {
        None
    }
}

/// Whether `s` is an even number of hexadecimal digits.
pub open spec fn is_hex(s: Seq<char>) -> bool {
    &&& s.len() % 2 == 0
    &&& forall|i: int| 0 <= i < s.len() ==> (#[trigger] hex_value(s[i])) is Some
}

/// The bytes that pairs of hexadecimal digits stand for, the high digit first.
pub open spec fn hex_bytes(s: Seq<char>) -> Seq<u8> {
    Seq::new(
        s.len() / 2,
        |k: int| (16 * hex_value(s[2 * k])->0 + hex_value(s[2 * k + 1])->0) as u8,
    )
}

/// `hex::decode`: the bytes of an even number of hexadecimal digits of either
/// case; any other text is refused. Of a refusal it returns the text of the
/// crate's error, which this contract leaves open (which character was wrong,
/// at which position, or that the count was odd).
#[verifier::external_body]
pub(crate) fn hex_decode(s: &str) -> (r: Result<Vec<u8>, String>)
    ensures
        r is Ok <==> is_hex(s@),
        r matches Ok(v) ==> v@ == hex_bytes(s@),
{
    match hex::decode(s) {
        Ok(v) => Ok(v),
        Err(e) => Err(e.to_string()),
    }
}

} // verus!
