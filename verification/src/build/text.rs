//! Writing generated code text: characters, numbers and escaped strings.
use vstd::prelude::*;
use vstd::utf8::{encode_scalar, has_width_1_encoding};

verus! {

/// Appends `c` to `out` (`String::push`, which the documentation says appends the given char to
/// the end of the string).
#[verifier::external_body]
pub(crate) fn push_char(out: &mut String, c: char)
    ensures
        final(out)@ == old(out)@.push(c),
{
    out.push(c);
}

/// The characters of `s` in upper case, as `str::to_uppercase` maps them under the Unicode
/// case tables.
pub uninterp spec fn upper_case(s: Seq<char>) -> Seq<char>;

/// `str::to_uppercase`: the result is named by `upper_case` of the argument; its case tables are
/// not restated here.
#[verifier::external_body]
pub(crate) fn to_upper(s: &str) -> (r: String)
    ensures
        r@ == upper_case(s@),
{
    s.to_uppercase()
}

/// Whether a character beyond ASCII has the Unicode `Alphabetic` property
/// (`char::is_alphabetic`).
pub uninterp spec fn alphabetic_beyond_ascii(c: char) -> bool;

/// Whether a character beyond ASCII is alphabetic or numeric under Unicode
/// (`char::is_alphanumeric`).
pub uninterp spec fn alphanumeric_beyond_ascii(c: char) -> bool;

/// Whether `c` has the Unicode `Alphabetic` property: among ASCII characters, the letters.
pub open spec fn alphabetic(c: char) -> bool {
    if (c as u32) < 0x80 {
        ascii_letter(c)
    } else {
        alphabetic_beyond_ascii(c)
    }
}

/// Whether `c` is alphabetic or numeric under Unicode: among ASCII characters, the letters and
/// the digits.
pub open spec fn alphanumeric(c: char) -> bool {
    if (c as u32) < 0x80 {
        ascii_letter(c) || ('0' <= c && c <= '9')
    } else {
        alphanumeric_beyond_ascii(c)
    }
}

/// Whether `c` has the Unicode `White_Space` property, as `char::is_whitespace` decides it: the
/// ASCII tab, line feed, vertical tab, form feed, carriage return and space, and U+0085, U+00A0,
/// U+1680, U+2000 to U+200A, U+2028, U+2029, U+202F, U+205F and U+3000.
pub open spec fn white_space(c: char) -> bool {
    let u = c as u32;
    ||| 0x09 <= u <= 0x0D
    ||| u == 0x20
    ||| u == 0x85
    ||| u == 0xA0
    ||| u == 0x1680
    ||| 0x2000 <= u <= 0x200A
    ||| u == 0x2028
    ||| u == 0x2029
    ||| u == 0x202F
    ||| u == 0x205F
    ||| u == 0x3000
}

/// An ASCII letter.
pub open spec fn ascii_letter(c: char) -> bool {
    ('a' <= c && c <= 'z') || ('A' <= c && c <= 'Z')
}

/// `char::is_alphabetic`: among ASCII characters exactly the letters are alphabetic; beyond
/// ASCII the result is named by `alphabetic_beyond_ascii`, and the Unicode tables are not restated
/// here.
#[verifier::external_body]
pub(crate) fn is_alphabetic(c: char) -> (r: bool)
    ensures
        (c as u32) < 0x80 ==> (r <==> ascii_letter(c)),
        (c as u32) >= 0x80 ==> r == alphabetic_beyond_ascii(c),
{
    c.is_alphabetic()
}

/// `char::is_alphanumeric`: among ASCII characters exactly the letters and the digits are
/// alphanumeric; beyond ASCII the result is named by `alphanumeric_beyond_ascii`, and the Unicode
/// tables are not restated here.
#[verifier::external_body]
pub(crate) fn is_alphanumeric(c: char) -> (r: bool)
    ensures
        (c as u32) < 0x80 ==> (r <==> (ascii_letter(c) || ('0' <= c && c <= '9'))),
        (c as u32) >= 0x80 ==> r == alphanumeric_beyond_ascii(c),
{
    c.is_alphanumeric()
}

/// Whether `c` is white space (`white_space`).
pub(crate) fn is_whitespace(c: char) -> (r: bool)
    ensures
        r == white_space(c),
{
    let u = c as u32;
    (0x09 <= u && u <= 0x0D) || u == 0x20 || u == 0x85 || u == 0xA0 || u == 0x1680 || (0x2000 <= u
        && u <= 0x200A) || u == 0x2028 || u == 0x2029 || u == 0x202F || u == 0x205F || u == 0x3000
}

/// An ASCII decimal digit.
pub open spec fn is_digit_spec(c: char) -> bool {
    '0' <= c <= '9'
}

/// Whether `c` is a decimal digit (`char::is_digit(10)`).
pub fn is_digit(c: char) -> (r: bool)
    ensures
        r == is_digit_spec(c),
{
    '0' <= c && c <= '9'
}

/// The characters of `s`.
pub fn chars_of(s: &str) -> (r: Vec<char>)
    ensures
        r@ == s@,
{
    let n = s.unicode_len();
    let mut r: Vec<char> = Vec::new();
    let mut i: usize = 0;
    while i < n
        invariant
            n == s@.len(),
            0 <= i <= n,
            r@ == s@.take(i as int),
        decreases n - i,
    {
        r.push(s.get_char(i));
        proof {
            assert(r@ =~= s@.take(i + 1));
        }
        i += 1;
    }
    proof {
        assert(s@.take(n as int) =~= s@);
    }
    r
}

/// Appends the characters `s` to `out`.
pub fn push_chars(out: &mut String, s: &[char])
    ensures
        final(out)@ == old(out)@ + s@,
{
    let mut i: usize = 0;
    while i < s.len()
        invariant
            0 <= i <= s@.len(),
            out@ == old(out)@ + s@.take(i as int),
        decreases s@.len() - i,
    {
        push_char(out, s[i]);
        proof {
            assert(s@.take(i + 1) =~= s@.take(i as int).push(s@[i as int]));
        }
        i += 1;
    }
    proof {
        assert(s@.take(s@.len() as int) =~= s@);
    }
}

/// The decimal digit for `d` in `[0, 9]`.
pub open spec fn digit_char(d: nat) -> char {
    (('0' as nat) + d) as char
}

/// The decimal text of `n`, without leading zeros.
pub open spec fn decimal(n: nat) -> Seq<char>
    decreases n,
{
    if n < 10 {
        seq![digit_char(n)]
    } else {
        decimal(n / 10).push(digit_char(n % 10))
    }
}

/// The decimal text of the signed integer `n`, with a `-` before negative numbers.
pub open spec fn signed_decimal(n: int) -> Seq<char> {
    if n < 0 {
        seq!['-'] + decimal((-n) as nat)
    } else {
        decimal(n as nat)
    }
}

fn digit(d: u64) -> (r: char)
    requires
        d < 10,
    ensures
        r == digit_char(d as nat),
{
    if d == 0 {
        '0'
    } else if d == 1 {
        '1'
    } else if d == 2 {
        '2'
    } else if d == 3 {
        '3'
    } else if d == 4 {
        '4'
    } else if d == 5 {
        '5'
    } else if d == 6 {
        '6'
    } else if d == 7 {
        '7'
    } else if d == 8 {
        '8'
    } else {
        '9'
    }
}

/// Appends the decimal text of `n` (as `{}` formats an unsigned integer).
pub fn push_decimal(out: &mut String, n: u64)
    ensures
        final(out)@ == old(out)@ + decimal(n as nat),
    decreases n,
{
    if n < 10 {
        push_char(out, digit(n));
    } else {
        push_decimal(out, n / 10);
        push_char(out, digit(n % 10));
    }
}

/// Appends the decimal text of `n` (as `{}` and `{:?}` format a signed integer).
pub fn push_signed(out: &mut String, n: i64)
    ensures
        final(out)@ == old(out)@ + signed_decimal(n as int),
{
    if n < 0 {
        push_char(out, '-');
        let magnitude: u64 = if n == i64::MIN {
            9223372036854775808u64
        } else {
            (-n) as u64
        };
        push_decimal(out, magnitude);
        proof {
            assert(final(out)@ =~= old(out)@ + signed_decimal(n as int));
        }
    } else {
        push_decimal(out, n as u64);
    }
}

/// The lowercase hexadecimal digit for `d` in `[0, 15]`.
pub open spec fn hex_char(d: nat) -> char {
    if d < 10 {
        digit_char(d)
    } else {
        (('a' as nat) + (d - 10)) as char
    }
}

/// `\xHH`: a byte as a two-digit lowercase hexadecimal escape.
pub open spec fn byte_escape(b: u8) -> Seq<char> {
    seq!['\\', 'x', hex_char((b / 16) as nat), hex_char((b % 16) as nat)]
}

/// The escapes of a sequence of bytes, one after another.
pub open spec fn bytes_escape(bytes: Seq<u8>) -> Seq<char>
    decreases bytes.len(),
{
    if bytes.len() == 0 {
        Seq::empty()
    } else {
        bytes_escape(bytes.drop_last()) + byte_escape(bytes.last())
    }
}

/// A character of a Rust byte string literal: a double quote or a backslash behind a backslash,
/// other ASCII as it is, anything else as the escapes of its UTF-8 bytes.
pub open spec fn char_escape(c: char) -> Seq<char> {
    if c == '"' || c == '\\' {
        seq!['\\', c]
    } else if has_width_1_encoding(c as u32) {
        seq![c]
    } else {
        bytes_escape(encode_scalar(c as u32))
    }
}

/// The escaped text of a string, character by character.
pub open spec fn utf8_escaped(s: Seq<char>) -> Seq<char>
    decreases s.len(),
{
    if s.len() == 0 {
        Seq::empty()
    } else {
        utf8_escaped(s.drop_last()) + char_escape(s.last())
    }
}

fn hex_digit(d: u8) -> (r: char)
    requires
        d < 16,
    ensures
        r == hex_char(d as nat),
{
    if d < 10 {
        digit(d as u64)
    } else if d == 10 {
        'a'
    } else if d == 11 {
        'b'
    } else if d == 12 {
        'c'
    } else if d == 13 {
        'd'
    } else if d == 14 {
        'e'
    } else {
        'f'
    }
}

fn push_byte_escape(out: &mut String, b: u8)
    ensures
        final(out)@ == old(out)@ + byte_escape(b),
{
    push_char(out, '\\');
    push_char(out, 'x');
    push_char(out, hex_digit(b / 16));
    push_char(out, hex_digit(b % 16));
    proof {
        assert(final(out)@ =~= old(out)@ + byte_escape(b));
    }
}

/// The UTF-8 bytes of `c`.
fn encode_char(c: char) -> (r: Vec<u8>)
    ensures
        r@ == encode_scalar(c as u32),
{
    let v = c as u32;
    let mut r: Vec<u8> = Vec::new();
    if v <= 0x7F {
        r.push(v as u8);
        proof {
            assert((v & 0x7F) as u8 == v as u8) by (bit_vector)
                requires
                    v <= 0x7F,
            ;
        }
    } else if v <= 0x7FF {
        r.push((0xC0u32 | ((v >> 6) & 0x1F)) as u8);
        r.push((0x80u32 | (v & 0x3F)) as u8);
        proof {
            assert((0xC0u32 | ((v >> 6) & 0x1F)) as u8 == (0xC0u8 | ((v >> 6) & 0x1F) as u8))
                by (bit_vector);
            assert((0x80u32 | (v & 0x3F)) as u8 == (0x80u8 | (v & 0x3F) as u8)) by (bit_vector);
        }
    } else if v <= 0xFFFF {
        r.push((0xE0u32 | ((v >> 12) & 0x0F)) as u8);
        r.push((0x80u32 | ((v >> 6) & 0x3F)) as u8);
        r.push((0x80u32 | (v & 0x3F)) as u8);
        proof {
            assert((0xE0u32 | ((v >> 12) & 0x0F)) as u8 == (0xE0u8 | ((v >> 12) & 0x0F) as u8))
                by (bit_vector);
            assert((0x80u32 | ((v >> 6) & 0x3F)) as u8 == (0x80u8 | ((v >> 6) & 0x3F) as u8))
                by (bit_vector);
            assert((0x80u32 | (v & 0x3F)) as u8 == (0x80u8 | (v & 0x3F) as u8)) by (bit_vector);
        }
    } else {
        r.push((0xF0u32 | ((v >> 18) & 0x7)) as u8);
        r.push((0x80u32 | ((v >> 12) & 0x3F)) as u8);
        r.push((0x80u32 | ((v >> 6) & 0x3F)) as u8);
        r.push((0x80u32 | (v & 0x3F)) as u8);
        proof {
            assert((0xF0u32 | ((v >> 18) & 0x7)) as u8 == (0xF0u8 | ((v >> 18) & 0x7) as u8))
                by (bit_vector);
            assert((0x80u32 | ((v >> 12) & 0x3F)) as u8 == (0x80u8 | ((v >> 12) & 0x3F) as u8))
                by (bit_vector);
            assert((0x80u32 | ((v >> 6) & 0x3F)) as u8 == (0x80u8 | ((v >> 6) & 0x3F) as u8))
                by (bit_vector);
            assert((0x80u32 | (v & 0x3F)) as u8 == (0x80u8 | (v & 0x3F) as u8)) by (bit_vector);
        }
    }
    proof {
        assert(r@ =~= encode_scalar(v));
    }
    r
}

/// Appends the byte string literal form of one character.
fn push_char_escaped(out: &mut String, c: char)
    ensures
        final(out)@ == old(out)@ + char_escape(c),
{
    if c == '"' || c == '\\' {
        push_char(out, '\\');
        push_char(out, c);
        proof {
            assert(final(out)@ =~= old(out)@ + char_escape(c));
        }
    } else if (c as u32) <= 0x7F {
        push_char(out, c);
        proof {
            assert(final(out)@ =~= old(out)@ + char_escape(c));
        }
    } else {
        let bytes = encode_char(c);
        let mut i: usize = 0;
        while i < bytes.len()
            invariant
                0 <= i <= bytes@.len(),
                out@ == old(out)@ + bytes_escape(bytes@.take(i as int)),
            decreases bytes@.len() - i,
        {
            push_byte_escape(out, bytes[i]);
            proof {
                assert(bytes@.take(i + 1).drop_last() =~= bytes@.take(i as int));
                assert(out@ =~= old(out)@ + bytes_escape(bytes@.take(i + 1)));
            }
            i += 1;
        }
        proof {
            assert(bytes@.take(bytes@.len() as int) =~= bytes@);
        }
    }
}

/// Appends the escaped text of every character of `s`.
pub fn push_escaped(out: &mut String, s: &str)
    ensures
        final(out)@ == old(out)@ + utf8_escaped(s@),
{
    let chars = chars_of(s);
    let mut i: usize = 0;
    while i < chars.len()
        invariant
            0 <= i <= chars@.len(),
            chars@ == s@,
            out@ == old(out)@ + utf8_escaped(chars@.take(i as int)),
        decreases chars@.len() - i,
    {
        push_char_escaped(out, chars[i]);
        proof {
            assert(chars@.take(i + 1).drop_last() =~= chars@.take(i as int));
            assert(out@ =~= old(out)@ + utf8_escaped(chars@.take(i + 1)));
        }
        i += 1;
    }
    proof {
        assert(chars@.take(chars@.len() as int) =~= chars@);
    }
}

/// Whether `a` and `b` hold the same text.
pub fn same_text(a: &str, b: &str) -> (r: bool)
    ensures
        r == (a@ == b@),
{
    let x = chars_of(a);
    let y = chars_of(b);
    if x.len() != y.len() {
        return false;
    }
    let mut i: usize = 0;
    while i < x.len()
        invariant
            x@ == a@,
            y@ == b@,
            x@.len() == y@.len(),
            0 <= i <= x@.len(),
            forall|k: int| 0 <= k < i ==> x@[k] == y@[k],
        decreases x@.len() - i,
    {
        if x[i] != y[i] {
            return false;
        }
        i += 1;
    }
    proof {
        assert(x@ =~= y@);
    }
    true
}

} // verus!
