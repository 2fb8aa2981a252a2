//! Text as the protocols measure it: by the bytes of its UTF-8 encoding.
use vstd::prelude::*;
use vstd::utf8::*;

verus! {

/// The UTF-8 bytes of a text.
pub open spec fn utf8(text: Seq<char>) -> Seq<u8> {
    encode_utf8(text)
}

/// Two texts are equal exactly when their UTF-8 bytes are.
pub proof fn utf8_is_injective(a: Seq<char>, b: Seq<char>)
    ensures
        utf8(a) == utf8(b) <==> a == b,
{
    encode_utf8_decode_utf8(a);
    encode_utf8_decode_utf8(b);
}

/// ASCII letters and digits.
pub open spec fn is_alphanumeric(b: u8) -> bool {
    0x30 <= b <= 0x39 || 0x41 <= b <= 0x5a || 0x61 <= b <= 0x7a
}

/// What an alias or an identifier is made of: ASCII letters, digits, `_` and `-`.
pub open spec fn is_alias_byte(b: u8) -> bool {
    is_alphanumeric(b) || b == 0x5f || b == 0x2d
}

/// An alias: 1 to 64 bytes, each an alias byte.
pub open spec fn is_alias(text: Seq<char>) -> bool {
    &&& 1 <= utf8(text).len() <= 64
    &&& forall|i: int| 0 <= i < utf8(text).len() ==> is_alias_byte(#[trigger] utf8(text)[i])
}

/// What an error code is made of: ASCII capitals and `_`.
pub open spec fn is_code_byte(b: u8) -> bool {
    0x41 <= b <= 0x5a || b == 0x5f
}

/// An error code: 1 to 64 bytes, each a capital or `_`.
pub open spec fn is_error_code(text: Seq<char>) -> bool {
    &&& 1 <= utf8(text).len() <= 64
    &&& forall|i: int| 0 <= i < utf8(text).len() ==> is_code_byte(#[trigger] utf8(text)[i])
}

/// Visible ASCII, space excluded.
pub open spec fn is_graphic(b: u8) -> bool {
    0x21 <= b <= 0x7e
}

/// Every byte of the text is visible ASCII.
pub open spec fn all_graphic(text: Seq<char>) -> bool {
    forall|i: int| 0 <= i < utf8(text).len() ==> is_graphic(#[trigger] utf8(text)[i])
}

/// Lower-case hexadecimal digits.
pub open spec fn is_hex_digit(b: u8) -> bool {
    0x30 <= b <= 0x39 || 0x61 <= b <= 0x66
}

/// Equality of byte strings.
pub fn bytes_equal(a: &[u8], b: &[u8]) -> (r: bool)
    ensures
        r == (a@ == b@),
{
    if a.len() != b.len() {
        return false;
    }
    let mut i: usize = 0;
    while i < a.len()
        invariant
            i <= a.len(),
            a.len() == b.len(),
            forall|k: int| 0 <= k < i ==> a@[k] == b@[k],
        decreases a.len() - i,
    {
        if a[i] != b[i] {
            return false;
        }
        i = i + 1;
    }
    assert(a@ =~= b@);
    true
}

/// Equality of texts.
pub fn text_equal(a: &str, b: &str) -> (r: bool)
    ensures
        r == (a@ == b@),
{
    proof {
        utf8_is_injective(a@, b@);
    }
    bytes_equal(a.as_bytes(), b.as_bytes())
}

/// The length of a text in bytes.
pub fn byte_len(text: &str) -> (r: usize)
    ensures
        r == utf8(text@).len(),
{
    text.as_bytes().len()
}

/// A copy of a text.
pub fn copy_text(text: &str) -> (r: String)
    ensures
        r@ == text@,
{
    text.to_owned()
}

/// Calls `String::from_utf8`. Claimed: bytes that are UTF-8, and no others,
/// become the text that they encode.
#[verifier::external_body]
pub(crate) fn text_from_utf8(bytes: Vec<u8>) -> (r: Option<String>)
    ensures
        r is Some <==> valid_utf8(bytes@),
        r matches Some(text) ==> utf8(text@) == bytes@,
{
    String::from_utf8(bytes).ok()
}

/// Whether a text is an alias.
pub fn alias_text(text: &str) -> (r: bool)
    ensures
        r == is_alias(text@),
{
    let bytes = text.as_bytes();
    if bytes.len() == 0 || bytes.len() > 64 {
        return false;
    }
    let mut i: usize = 0;
    while i < bytes.len()
        invariant
            i <= bytes.len(),
            bytes@ == utf8(text@),
            forall|k: int| 0 <= k < i ==> is_alias_byte(bytes@[k]),
        decreases bytes.len() - i,
    {
        let b: u8 = bytes[i];
        if !((0x30 <= b && b <= 0x39) || (0x41 <= b && b <= 0x5a) || (0x61 <= b && b <= 0x7a)
            || b == 0x5f || b == 0x2d) {
            return false;
        }
        i = i + 1;
    }
    true
}

/// Whether a text is an error code.
pub fn error_code_text(text: &str) -> (r: bool)
    ensures
        r == is_error_code(text@),
{
    let bytes = text.as_bytes();
    if bytes.len() == 0 || bytes.len() > 64 {
        return false;
    }
    let mut i: usize = 0;
    while i < bytes.len()
        invariant
            i <= bytes.len(),
            bytes@ == utf8(text@),
            forall|k: int| 0 <= k < i ==> is_code_byte(bytes@[k]),
        decreases bytes.len() - i,
    {
        let b: u8 = bytes[i];
        if !((0x41 <= b && b <= 0x5a) || b == 0x5f) {
            return false;
        }
        i = i + 1;
    }
    true
}

/// Whether every byte of a text is visible ASCII.
pub fn graphic_text(text: &str) -> (r: bool)
    ensures
        r == all_graphic(text@),
{
    let bytes = text.as_bytes();
    let mut i: usize = 0;
    while i < bytes.len()
        invariant
            i <= bytes.len(),
            bytes@ == utf8(text@),
            forall|k: int| 0 <= k < i ==> is_graphic(bytes@[k]),
        decreases bytes.len() - i,
    {
        let b: u8 = bytes[i];
        if b < 0x21 || b > 0x7e {
            return false;
        }
        i = i + 1;
    }
    true
}

/// Byte-wise lexicographic order, the order in which texts are kept.
pub open spec fn bytes_less(a: Seq<u8>, b: Seq<u8>) -> bool
    decreases a.len(),
{
    if b.len() == 0 {
        false
    } else if a.len() == 0 {
        true
    } else if a[0] != b[0] {
        a[0] < b[0]
    } else {
        bytes_less(a.drop_first(), b.drop_first())
    }
}

pub proof fn bytes_less_is_irreflexive(a: Seq<u8>)
    ensures
        !bytes_less(a, a),
    decreases a.len(),
{
    if a.len() > 0 {
        bytes_less_is_irreflexive(a.drop_first());
    }
}

pub proof fn bytes_less_is_transitive(a: Seq<u8>, b: Seq<u8>, c: Seq<u8>)
    requires
        bytes_less(a, b),
        bytes_less(b, c),
    ensures
        bytes_less(a, c),
    decreases a.len(),
{
    if a.len() > 0 && b.len() > 0 && c.len() > 0 && a[0] == b[0] && b[0] == c[0] {
        bytes_less_is_transitive(a.drop_first(), b.drop_first(), c.drop_first());
    }
}

pub proof fn bytes_less_is_total(a: Seq<u8>, b: Seq<u8>)
    ensures
        bytes_less(a, b) || bytes_less(b, a) || a == b,
    decreases a.len(),
{
    if a.len() > 0 && b.len() > 0 {
        if a[0] == b[0] {
            bytes_less_is_total(a.drop_first(), b.drop_first());
            if a.drop_first() == b.drop_first() {
                assert(a =~= seq![a[0]] + a.drop_first());
                assert(b =~= seq![b[0]] + b.drop_first());
            }
        }
    } else if a.len() == 0 && b.len() == 0 {
        assert(a =~= b);
    }
}

/// A common prefix does not decide the order.
pub proof fn bytes_less_skips_prefix(a: Seq<u8>, b: Seq<u8>, n: int)
    requires
        0 <= n <= a.len(),
        n <= b.len(),
        forall|k: int| 0 <= k < n ==> a[k] == b[k],
    ensures
        bytes_less(a, b) == bytes_less(a.skip(n), b.skip(n)),
    decreases n,
{
    if n > 0 {
        assert(a.drop_first().skip(n - 1) =~= a.skip(n));
        assert(b.drop_first().skip(n - 1) =~= b.skip(n));
        bytes_less_skips_prefix(a.drop_first(), b.drop_first(), n - 1);
    } else {
        assert(a.skip(0) =~= a);
        assert(b.skip(0) =~= b);
    }
}

/// The order of texts: that of their UTF-8 bytes.
pub open spec fn text_less(a: Seq<char>, b: Seq<char>) -> bool {
    bytes_less(utf8(a), utf8(b))
}

pub fn is_bytes_less(a: &[u8], b: &[u8]) -> (r: bool)
    ensures
        r == bytes_less(a@, b@),
{
    let mut i: usize = 0;
    while i < a.len() && i < b.len()
        invariant
            i <= a.len(),
            i <= b.len(),
            forall|k: int| 0 <= k < i ==> a@[k] == b@[k],
        decreases a.len() - i,
    {
        if a[i] != b[i] {
            proof {
                bytes_less_skips_prefix(a@, b@, i as int);
            }
            return a[i] < b[i];
        }
        i = i + 1;
    }
    proof {
        bytes_less_skips_prefix(a@, b@, i as int);
    }
    i < b.len()
}

pub fn is_text_less(a: &str, b: &str) -> (r: bool)
    ensures
        r == text_less(a@, b@),
{
    is_bytes_less(a.as_bytes(), b.as_bytes())
}

/// The character of a decimal digit.
pub open spec fn digit_char(digit: nat) -> char {
    (0x30 + digit) as char
}

/// The decimal text of a number.
pub open spec fn decimal_chars(value: nat) -> Seq<char>
    decreases value,
{
    if value < 10 {
        seq![digit_char(value)]
    } else {
        decimal_chars(value / 10).push(digit_char(value % 10))
    }
}

/// The decimal text of a number.
pub fn decimal_text(value: u64) -> (r: String)
    ensures
        r@ == decimal_chars(value as nat),
    decreases value,
{
    let digit: u64 = value % 10;
    let last: &str = if digit == 0 {
        "0"
    } else if digit == 1 {
        "1"
    } else if digit == 2 {
        "2"
    } else if digit == 3 {
        "3"
    } else if digit == 4 {
        "4"
    } else if digit == 5 {
        "5"
    } else if digit == 6 {
        "6"
    } else if digit == 7 {
        "7"
    } else if digit == 8 {
        "8"
    } else {
        "9"
    };
    proof {
        reveal_strlit("0");
        reveal_strlit("1");
        reveal_strlit("2");
        reveal_strlit("3");
        reveal_strlit("4");
        reveal_strlit("5");
        reveal_strlit("6");
        reveal_strlit("7");
        reveal_strlit("8");
        reveal_strlit("9");
        assert(last@ =~= seq![digit_char(digit as nat)]);
    }
    if value < 10 {
        return copy_text(last);
    }
    let mut out = decimal_text(value / 10);
    out.append(last);
    assert(out@ =~= decimal_chars((value / 10) as nat).push(digit_char(digit as nat)));
    out
}

/// The decimal text of an integer, with a minus sign where it is negative.
pub open spec fn integer_chars(value: int) -> Seq<char> {
    if value < 0 {
        "-"@ + decimal_chars((-value) as nat)
    } else {
        decimal_chars(value as nat)
    }
}

/// The decimal text of an integer.
pub fn integer_text(value: i64) -> (r: String)
    ensures
        r@ == integer_chars(value as int),
{
    if value >= 0 {
        return decimal_text(value as u64);
    }
    let mut out = copy_text("-");
    let magnitude = decimal_text((-(value + 1)) as u64 + 1);
    out.append(magnitude.as_str());
    out
}

/// A text whose bytes are all ASCII is made of ASCII characters.
pub proof fn ascii_bytes_are_ascii_text(text: Seq<char>)
    requires
        forall|i: int| 0 <= i < utf8(text).len() ==> #[trigger] utf8(text)[i] <= 0x7f,
    ensures
        is_ascii_chars(text),
    decreases text.len(),
{
    if text.len() > 0 {
        let c = text[0] as u32;
        char_is_scalar(text[0]);
        char_u32_cast(text[0], c);
        let rest = text.drop_first();
        let head = encode_scalar(c);
        assert(utf8(text) == head + utf8(rest));
        assert(utf8(text)[0] == head[0]);
        assert((0xC0u8 | ((c >> 6) & 0x1F) as u8) > 0x7f) by (bit_vector);
        assert((0xE0u8 | ((c >> 12) & 0x0F) as u8) > 0x7f) by (bit_vector);
        assert((0xF0u8 | ((c >> 18) & 0x7) as u8) > 0x7f) by (bit_vector);
        assert(has_width_1_encoding(c));
        assert forall|i: int| 0 <= i < utf8(rest).len() implies #[trigger] utf8(rest)[i] <= 0x7f by {
            assert(utf8(text)[i + 1] == utf8(rest)[i]);
        }
        ascii_bytes_are_ascii_text(rest);
        assert forall|i: int| 0 <= i < text.len() implies '\0' <= #[trigger] text[i] <= '\u{7f}' by {
            if i > 0 {
                assert(text[i] == rest[i - 1]);
            }
        }
    }
}

/// A word of 1 to 64 ASCII letters, digits, underscores and hyphens is an alias,
/// and nothing else is one.
pub proof fn aliases_are_short_words(text: Seq<char>)
    ensures
        is_alias(text) <==> {
            &&& 1 <= text.len() <= 64
            &&& forall|i: int|
                0 <= i < text.len() ==> ('a' <= #[trigger] text[i] <= 'z' || 'A' <= text[i] <= 'Z'
                    || '0' <= text[i] <= '9' || text[i] == '_' || text[i] == '-')
        },
{
    let is_word = forall|i: int|
        0 <= i < text.len() ==> ('a' <= #[trigger] text[i] <= 'z' || 'A' <= text[i] <= 'Z' || '0'
            <= text[i] <= '9' || text[i] == '_' || text[i] == '-');
    if is_alias(text) {
        ascii_bytes_are_ascii_text(text);
    }
    if is_alias(text) || is_word {
        is_ascii_chars_encode_utf8(text);
        assert forall|i: int| 0 <= i < text.len() implies utf8(text)[i] == #[trigger] text[i] as u8 by {
        }
    }
}

/// A word of 1 to 64 capitals and underscores is an error code, and nothing else
/// is one.
pub proof fn error_codes_are_capitals(text: Seq<char>)
    ensures
        is_error_code(text) <==> {
            &&& 1 <= text.len() <= 64
            &&& forall|i: int|
                0 <= i < text.len() ==> ('A' <= #[trigger] text[i] <= 'Z' || text[i] == '_')
        },
{
    let is_word = forall|i: int|
        0 <= i < text.len() ==> ('A' <= #[trigger] text[i] <= 'Z' || text[i] == '_');
    if is_error_code(text) {
        ascii_bytes_are_ascii_text(text);
    }
    if is_error_code(text) || is_word {
        is_ascii_chars_encode_utf8(text);
        assert forall|i: int| 0 <= i < text.len() implies utf8(text)[i] == #[trigger] text[i] as u8 by {
        }
    }
}

/// A text is visible where every character lies between the exclamation mark
/// and the tilde, and it is then as long in bytes as in characters.
pub proof fn visible_text_is_ascii(text: Seq<char>)
    ensures
        all_graphic(text) <==> forall|i: int|
            0 <= i < text.len() ==> '!' <= #[trigger] text[i] <= '~',
        all_graphic(text) ==> utf8(text).len() == text.len(),
{
    let is_visible = forall|i: int| 0 <= i < text.len() ==> '!' <= #[trigger] text[i] <= '~';
    if all_graphic(text) {
        ascii_bytes_are_ascii_text(text);
    }
    if all_graphic(text) || is_visible {
        is_ascii_chars_encode_utf8(text);
        assert forall|i: int| 0 <= i < text.len() implies utf8(text)[i] == #[trigger] text[i] as u8 by {
        }
    }
}

/// The first byte in which two byte strings differ decides their order, and a
/// byte string comes before those that it begins.
pub proof fn first_difference_decides(a: Seq<u8>, b: Seq<u8>, n: int)
    requires
        0 <= n <= a.len(),
        n < b.len(),
        forall|k: int| 0 <= k < n ==> a[k] == b[k],
        n == a.len() || a[n] < b[n],
    ensures
        bytes_less(a, b),
        !bytes_less(b, a),
{
    bytes_less_skips_prefix(a, b, n);
    bytes_less_skips_prefix(b, a, n);
}

/// A digit more makes a number ten times as large and adds the digit; a number
/// of one digit is that digit, and a minus sign makes it negative.
pub proof fn digits_count_by_tens(value: nat, digit: nat)
    requires
        digit < 10,
    ensures
        decimal_chars(digit) == seq!["0123456789"@[digit as int]],
        value > 0 ==> decimal_chars(10 * value + digit) == decimal_chars(value).push(
            "0123456789"@[digit as int],
        ),
        integer_chars(value as int) == decimal_chars(value),
        value > 0 ==> integer_chars(-value) == seq!['-'] + decimal_chars(value),
{
    reveal_strlit("0123456789");
    reveal_strlit("-");
    assert("-"@ =~= seq!['-']);
    if value > 0 {
        assert((10 * value + digit) / 10 == value && (10 * value + digit) % 10 == digit);
    }
}

} // verus!
