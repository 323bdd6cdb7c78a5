//! Text encodings of the wire formats: decimal numbers, JSON strings,
//! unpadded URL-safe base64 and form encoding.

use vstd::prelude::*;
use vstd::string::*;

verus! {

/// `String::push` of the standard library: the text grows by the one
/// character given, at its end.
#[verifier::external_body]
fn push_char(text: &mut String, c: char)
    ensures
        final(text)@ == old(text)@.push(c),
{
    text.push(c);
}

/// The digit `0` to `9` for a value below ten.
pub open spec fn digit_char(value: int) -> char {
    (48 + value) as char
}

/// The hexadecimal digit, `0` to `9` and `A` to `F`, for a value below
/// sixteen.
pub open spec fn hex_char(value: int) -> char {
    if value < 10 {
        (48 + value) as char
    } else {
        (55 + value) as char
    }
}

/// The character of the URL-safe base64 alphabet for a value below 64: `A`
/// to `Z`, `a` to `z`, `0` to `9`, `-` and `_`.
pub open spec fn sextet_char(value: int) -> char {
    if value < 26 {
        (65 + value) as char
    } else if value < 52 {
        (71 + value) as char
    } else if value < 62 {
        (value - 4) as char
    } else if value == 62 {
        '-'
    } else {
        '_'
    }
}

fn hex_digit(value: u8) -> (c: char)
    requires
        value < 16,
    ensures
        c == hex_char(value as int),
{
    if value < 10 {
        (48u8 + value) as char
    } else {
        (55u8 + value) as char
    }
}

fn sextet(value: u8) -> (c: char)
    requires
        value < 64,
    ensures
        c == sextet_char(value as int),
{
    if value < 26 {
        (65u8 + value) as char
    } else if value < 52 {
        (71u8 + value) as char
    } else if value < 62 {
        (value - 4u8) as char
    } else if value == 62 {
        '-'
    } else {
        '_'
    }
}

/// The decimal numeral of `n`, without leading zeros.
pub open spec fn decimal(n: nat) -> Seq<char>
    decreases n,
{
    if n < 10 {
        seq![digit_char(n as int)]
    } else {
        decimal(n / 10).push(digit_char((n % 10) as int))
    }
}

/// Appends the decimal numeral of `n` to `out`.
pub fn push_decimal(out: &mut String, n: u64)
    ensures
        final(out)@ == old(out)@ + decimal(n as nat),
    decreases n,
{
    if n >= 10 {
        push_decimal(out, n / 10);
    }
    let digit: u8 = (n % 10) as u8;
    push_char(out, (48u8 + digit) as char);
    assert(out@ =~= old(out)@ + decimal(n as nat));
}

/// What one character of a JSON string is written as: a quotation mark and
/// a reverse solidus are escaped by a reverse solidus, a control character
/// by its four-digit code, and every other character stands for itself.
pub open spec fn json_escaped_char(c: char) -> Seq<char> {
    if c == '"' {
        seq!['\\', '"']
    } else if c == '\\' {
        seq!['\\', '\\']
    } else if (c as u32) < 32 {
        seq!['\\', 'u', '0', '0', hex_char((c as u32) as int / 16), hex_char((c as u32) as int % 16)]
    } else {
        seq![c]
    }
}

/// A text with each character written as a JSON string holds it.
pub open spec fn json_escaped(text: Seq<char>) -> Seq<char>
    decreases text.len(),
{
    if text.len() == 0 {
        Seq::empty()
    } else {
        json_escaped(text.drop_last()) + json_escaped_char(text.last())
    }
}

/// The JSON string that holds `text`: the escaped text between quotation
/// marks.
pub open spec fn json_string(text: Seq<char>) -> Seq<char> {
    seq!['"'] + json_escaped(text) + seq!['"']
}

/// Appends the JSON string that holds `text` to `out`.
pub fn push_json_string(out: &mut String, text: &str)
    ensures
        final(out)@ == old(out)@ + json_string(text@),
{
    push_char(out, '"');
    for c in it: text.chars()
        invariant
            it.seq() == text@,
            out@ == old(out)@ + seq!['"'] + json_escaped(text@.take(it.index() as int)),
    {
        let ghost before = out@;
        let code = c as u32;
        if c == '"' {
            push_char(out, '\\');
            push_char(out, '"');
        } else if c == '\\' {
            push_char(out, '\\');
            push_char(out, '\\');
        } else if code < 32 {
            push_char(out, '\\');
            push_char(out, 'u');
            push_char(out, '0');
            push_char(out, '0');
            push_char(out, hex_digit((code / 16) as u8));
            push_char(out, hex_digit((code % 16) as u8));
        } else {
            push_char(out, c);
        }
        proof {
            let i = it.index() as int;
            assert(text@.take(i + 1).drop_last() =~= text@.take(i));
            assert(text@.take(i + 1).last() == c);
            assert(out@ =~= before + json_escaped_char(c));
            assert(out@ =~= old(out)@ + seq!['"'] + json_escaped(text@.take(i + 1)));
        }
    }
    push_char(out, '"');
    proof {
        assert(text@.take(text@.len() as int) =~= text@);
        assert(out@ =~= old(out)@ + json_string(text@));
    }
}

/// The unpadded URL-safe base64 text of `bytes`: every three bytes become
/// four characters of six bits each, most significant first; one or two
/// bytes left over become two or three characters, the last bits filled up
/// with zeros.
pub open spec fn base64url(bytes: Seq<u8>) -> Seq<char>
    decreases bytes.len(),
{
    if bytes.len() == 0 {
        Seq::empty()
    } else if bytes.len() == 1 {
        seq![sextet_char(bytes[0] as int / 4), sextet_char((bytes[0] as int % 4) * 16)]
    } else if bytes.len() == 2 {
        seq![
            sextet_char(bytes[0] as int / 4),
            sextet_char((bytes[0] as int % 4) * 16 + bytes[1] as int / 16),
            sextet_char((bytes[1] as int % 16) * 4),
        ]
    } else {
        seq![
            sextet_char(bytes[0] as int / 4),
            sextet_char((bytes[0] as int % 4) * 16 + bytes[1] as int / 16),
            sextet_char((bytes[1] as int % 16) * 4 + bytes[2] as int / 64),
            sextet_char(bytes[2] as int % 64),
        ] + base64url(bytes.skip(3))
    }
}

/// Appends the unpadded URL-safe base64 text of `bytes` to `out`.
pub fn push_base64url(out: &mut String, bytes: &[u8])
    ensures
        final(out)@ == old(out)@ + base64url(bytes@),
{
    let mut i: usize = 0;
    assert(bytes@.skip(0) =~= bytes@);
    assert(out@ + base64url(bytes@.skip(0)) =~= old(out)@ + base64url(bytes@));
    while bytes.len() - i >= 3
        invariant
            i <= bytes.len(),
            out@ + base64url(bytes@.skip(i as int)) == old(out)@ + base64url(bytes@),
        decreases bytes.len() - i,
    {
        let ghost before = out@;
        let ghost rest = bytes@.skip(i as int);
        let b0 = bytes[i];
        let b1 = bytes[i + 1];
        let b2 = bytes[i + 2];
        push_char(out, sextet(b0 / 4));
        push_char(out, sextet((b0 % 4) * 16 + b1 / 16));
        push_char(out, sextet((b1 % 16) * 4 + b2 / 64));
        push_char(out, sextet(b2 % 64));
        proof {
            assert(rest.skip(3) =~= bytes@.skip(i + 3));
            assert(out@ + base64url(bytes@.skip(i + 3)) =~= before + base64url(rest));
        }
        i += 3;
    }
    let ghost before = out@;
    let ghost rest = bytes@.skip(i as int);
    if bytes.len() - i == 1 {
        let b0 = bytes[i];
        push_char(out, sextet(b0 / 4));
        push_char(out, sextet((b0 % 4) * 16));
        assert(out@ =~= before + base64url(rest));
    } else if bytes.len() - i == 2 {
        let b0 = bytes[i];
        let b1 = bytes[i + 1];
        push_char(out, sextet(b0 / 4));
        push_char(out, sextet((b0 % 4) * 16 + b1 / 16));
        push_char(out, sextet((b1 % 16) * 4));
        assert(out@ =~= before + base64url(rest));
    } else {
        assert(out@ =~= before + base64url(rest));
    }
}

/// Whether a byte stands for itself in form encoding: the letters and
/// digits of ASCII and `*`, `-`, `.` and `_`.
pub open spec fn is_form_safe(byte: u8) -> bool {
    ||| 48 <= byte <= 57
    ||| 65 <= byte <= 90
    ||| 97 <= byte <= 122
    ||| byte == 42
    ||| byte == 45
    ||| byte == 46
    ||| byte == 95
}

/// What one byte is written as in form encoding: itself where it is safe,
/// `+` for a space, and else `%` with its two hexadecimal digits.
pub open spec fn form_encoded_byte(byte: u8) -> Seq<char> {
    if is_form_safe(byte) {
        seq![byte as char]
    } else if byte == 32 {
        seq!['+']
    } else {
        seq!['%', hex_char(byte as int / 16), hex_char(byte as int % 16)]
    }
}

/// The form encoding of a byte string.
pub open spec fn form_encoded(bytes: Seq<u8>) -> Seq<char>
    decreases bytes.len(),
{
    if bytes.len() == 0 {
        Seq::empty()
    } else {
        form_encoded(bytes.drop_last()) + form_encoded_byte(bytes.last())
    }
}

/// The form encoding of a text: that of its UTF-8 encoding.
pub open spec fn form_encoded_text(text: Seq<char>) -> Seq<char> {
    form_encoded(vstd::utf8::encode_utf8(text))
}

/// Appends the form encoding of `text` to `out`.
pub fn push_form_encoded(out: &mut String, text: &str)
    ensures
        final(out)@ == old(out)@ + form_encoded_text(text@),
{
    let bytes = text.as_bytes();
    let mut i: usize = 0;
    assert(bytes@.take(0) =~= Seq::<u8>::empty());
    assert(out@ =~= old(out)@ + form_encoded(bytes@.take(0)));
    while i < bytes.len()
        invariant
            i <= bytes.len(),
            out@ == old(out)@ + form_encoded(bytes@.take(i as int)),
        decreases bytes.len() - i,
    {
        let ghost before = out@;
        let byte = bytes[i];
        if (48 <= byte && byte <= 57) || (65 <= byte && byte <= 90) || (97 <= byte && byte <= 122)
            || byte == 42 || byte == 45 || byte == 46 || byte == 95 {
            push_char(out, byte as char);
        } else if byte == 32 {
            push_char(out, '+');
        } else {
            push_char(out, '%');
            push_char(out, hex_digit(byte / 16));
            push_char(out, hex_digit(byte % 16));
        }
        proof {
            assert(bytes@.take(i + 1).drop_last() =~= bytes@.take(i as int));
            assert(bytes@.take(i + 1).last() == byte);
            assert(out@ =~= before + form_encoded_byte(byte));
            assert(out@ =~= old(out)@ + form_encoded(bytes@.take(i + 1)));
        }
        i += 1;
    }
    assert(bytes@.take(i as int) =~= bytes@);
}

} // verus!
