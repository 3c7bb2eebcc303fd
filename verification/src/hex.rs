//! Hexadecimal text: two digits per byte, the high one first.
use vstd::prelude::*;

verus! {

/// The lower-case digit for a value below sixteen.
pub open spec fn hex_digit(n: int) -> char {
    if n < 10 {
        (n + 48) as char
    } else {
        (n + 87) as char
    }
}

/// The value of a digit of either case.
pub open spec fn digit_value(c: char) -> Option<int> {
    if '0' <= c <= '9' {
        Some(c as int - 48)
    } else if 'a' <= c <= 'f' {
        Some(c as int - 87)
    } else if 'A' <= c <= 'F' {
        Some(c as int - 55)
    } else {
        None
    }
}

/// The text that stands for some bytes.
pub open spec fn hex_text(bytes: Seq<u8>) -> Seq<char> {
    Seq::new(
        2 * bytes.len(),
        |i: int|
            if i % 2 == 0 {
                hex_digit(bytes[i / 2] as int / 16)
            } else {
                hex_digit(bytes[i / 2] as int % 16)
            },
    )
}

/// Whether some text is made of pairs of digits only.
pub open spec fn is_hex(text: Seq<char>) -> bool {
    text.len() % 2 == 0 && forall|i: int|
        0 <= i < text.len() ==> digit_value(#[trigger] text[i]) is Some
}

/// The byte that a pair of digits stands for.
pub open spec fn pair_value(hi: char, lo: char) -> u8 {
    (16 * digit_value(hi)->0 + digit_value(lo)->0) as u8
}

/// The bytes that some text stands for, if it is made of pairs of digits.
pub open spec fn hex_bytes(text: Seq<char>) -> Option<Seq<u8>> {
    if is_hex(text) {
        Some(Seq::new(text.len() / 2, |i: int| pair_value(text[2 * i], text[2 * i + 1])))
    } else {
        None
    }
}

/// Reading back what was written gives the same bytes.
pub proof fn law_hex_round_trip(bytes: Seq<u8>)
    ensures
        hex_bytes(hex_text(bytes)) == Some(bytes),
{
    let text = hex_text(bytes);
    assert forall|i: int| 0 <= i < text.len() implies digit_value(#[trigger] text[i]) is Some by {
        assert(bytes[i / 2] as int / 16 < 16);
    }
    assert(is_hex(text));
    let back = hex_bytes(text)->0;
    assert(back.len() == bytes.len());
    assert forall|i: int| 0 <= i < bytes.len() implies back[i] == bytes[i] by {
        assert((2 * i) % 2 == 0 && (2 * i) / 2 == i);
        assert((2 * i + 1) % 2 == 1 && (2 * i + 1) / 2 == i);
        let hi = bytes[i] as int / 16;
        let lo = bytes[i] as int % 16;
        assert(digit_value(hex_digit(hi)) == Some(hi));
        assert(digit_value(hex_digit(lo)) == Some(lo));
        assert(16 * hi + lo == bytes[i] as int);
    }
    assert(back =~= bytes);
}

/// Different bytes are written differently.
pub proof fn law_hex_injective(a: Seq<u8>, b: Seq<u8>)
    requires
        hex_text(a) == hex_text(b),
    ensures
        a == b,
{
    law_hex_round_trip(a);
    law_hex_round_trip(b);
}

fn digit(n: u8) -> (c: char)
    requires
        n < 16,
    ensures
        c == hex_digit(n as int),
{
    if n < 10 {
        (n + 48) as char
    } else {
        (n + 87) as char
    }
}

fn value(c: char) -> (v: Option<u8>)
    ensures
        match v {
            Some(n) => digit_value(c) == Some(n as int) && n < 16,
            None => digit_value(c) is None,
        },
{
    if '0' <= c && c <= '9' {
        Some((c as u32 - 48) as u8)
    } else if 'a' <= c && c <= 'f' {
        Some((c as u32 - 87) as u8)
    } else if 'A' <= c && c <= 'F' {
        Some((c as u32 - 55) as u8)
    } else {
        None
    }
}

/// The text of a list of characters.
///
/// Calls `String::from_iter`, which the standard library documents as the string that holds the
/// given characters in order.
#[verifier::external_body]
pub(crate) fn string_of(chars: Vec<char>) -> (s: String)
    ensures
        s@ == chars@,
{
    String::from_iter(chars)
}

/// Writes bytes as lower-case hexadecimal text.
pub fn to_string(bytes: &[u8]) -> (s: String)
    ensures
        s@ == hex_text(bytes@),
{
    let mut chars: Vec<char> = Vec::new();
    let mut i: usize = 0;
    while i < bytes.len()
        invariant
            i <= bytes@.len(),
            chars@.len() == 2 * i,
            forall|j: int| 0 <= j < 2 * i ==> #[trigger] chars@[j] == hex_text(bytes@)[j],
        decreases bytes@.len() - i,
    {
        let b: u8 = bytes[i];
        chars.push(digit(b / 16));
        chars.push(digit(b % 16));
        i += 1;
    }
    assert(chars@ =~= hex_text(bytes@));
    string_of(chars)
}

/// Reads hexadecimal text of either case, or gives nothing if it is not made of pairs of digits.
pub fn to_vec(text: &str) -> (bytes: Option<Vec<u8>>)
    ensures
        match bytes {
            Some(b) => hex_bytes(text@) == Some(b@),
            None => hex_bytes(text@) is None,
        },
{
    let n: usize = text.unicode_len();
    if n % 2 != 0 {
        return None;
    }
    let mut out: Vec<u8> = Vec::new();
    let mut i: usize = 0;
    while i < n
        invariant
            i <= n,
            n == text@.len(),
            n % 2 == 0,
            i % 2 == 0,
            out@.len() == i / 2,
            forall|j: int| 0 <= j < i ==> digit_value(#[trigger] text@[j]) is Some,
            forall|j: int|
                0 <= j < out@.len() ==> #[trigger] out@[j] == pair_value(
                    text@[2 * j],
                    text@[2 * j + 1],
                ),
        decreases n - i,
    {
        let hi = match value(text.get_char(i)) {
            Some(v) => v,
            None => {
                return None;
            },
        };
        let lo = match value(text.get_char(i + 1)) {
            Some(v) => v,
            None => {
                return None;
            },
        };
        out.push(16 * hi + lo);
        i += 2;
    }
    assert(out@ =~= hex_bytes(text@)->0);
    Some(out)
}

/// Each byte is written as two digits, the higher one first, and the digits are those from `0` to `9` and
/// from `a` to `f`.
pub proof fn law_each_byte_has_two_digits(bytes: Seq<u8>, i: int)
    requires
        0 <= i < bytes.len(),
    ensures
        hex_text(bytes).len() == 2 * bytes.len(),
        ({
            let (high, low) = (hex_text(bytes)[2 * i], hex_text(bytes)[2 * i + 1]);
            &&& digit_value(high) is Some && digit_value(low) is Some
            &&& 16 * digit_value(high)->0 + digit_value(low)->0 == bytes[i]
            &&& '0' <= high <= '9' || 'a' <= high <= 'f'
            &&& '0' <= low <= '9' || 'a' <= low <= 'f'
        }),
{
    assert((2 * i) % 2 == 0 && (2 * i) / 2 == i);
    assert((2 * i + 1) % 2 == 1 && (2 * i + 1) / 2 == i);
    let n = bytes[i] as int;
    assert(0 <= n / 16 < 16 && 0 <= n % 16 < 16);
    assert(16 * (n / 16) + n % 16 == n);
}

/// What the digits are worth, large letters as much as small ones, and that nothing else is a digit.
pub proof fn law_what_digits_are_worth(c: char, n: int)
    ensures
        0 <= n <= 9 && c as int == '0' as int + n ==> digit_value(c) == Some(n),
        10 <= n <= 15 && c as int == 'a' as int + n - 10 ==> digit_value(c) == Some(n),
        10 <= n <= 15 && c as int == 'A' as int + n - 10 ==> digit_value(c) == Some(n),
        digit_value(c) is Some ==> '0' <= c <= '9' || 'a' <= c <= 'f' || 'A' <= c <= 'F',
        0 <= n <= 15 ==> digit_value(hex_digit(n)) == Some(n),
{
}

/// A text is read exactly if it has an even number of characters, all of them digits, and each two digits
/// give one byte.
pub proof fn law_two_digits_give_a_byte(text: Seq<char>, i: int)
    ensures
        hex_bytes(text) is Some ==> text.len() % 2 == 0 && hex_bytes(text)->0.len() * 2
            == text.len(),
        text.len() % 2 == 1 ==> hex_bytes(text) is None,
        0 <= i < text.len() && digit_value(text[i]) is None ==> hex_bytes(text) is None,
        text.len() % 2 == 0 && (forall|k: int|
            0 <= k < text.len() ==> digit_value(#[trigger] text[k]) is Some) ==> hex_bytes(
            text,
        ) is Some,
        hex_bytes(text) is Some && 0 <= i < hex_bytes(text)->0.len() ==> hex_bytes(text)->0[i]
            == 16 * digit_value(text[2 * i])->0 + digit_value(text[2 * i + 1])->0,
{
    if hex_bytes(text) is Some && 0 <= i < hex_bytes(text)->0.len() {
        assert(digit_value(text[2 * i]) is Some && digit_value(text[2 * i + 1]) is Some);
    }
}

/// What is written is read back, whatever the bytes.
pub proof fn law_what_is_written_is_read_back(
    bytes: &[u8],
    text: String,
    read: Option<Vec<u8>>,
    given: &str,
)
    requires
        call_ensures(to_string, (bytes,), text),
        given@ == text@,
        call_ensures(to_vec, (given,), read),
    ensures
        text@.len() == 2 * bytes@.len(),
        read matches Some(back) && back@ == bytes@,
{
    law_hex_round_trip(bytes@);
}

} // verus!
