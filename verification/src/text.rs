//! Small helpers for text.
use crate::hex::string_of;
use vstd::prelude::*;

verus! {

/// Whether two texts are the same.
pub fn text_eq(a: &str, b: &str) -> (same: bool)
    ensures
        same == (a@ == b@),
{
    a.to_owned() == b.to_owned()
}

/// The characters that count as white space.
pub open spec fn is_white_space(c: char) -> bool {
    ||| 0x09 <= c as int <= 0x0d
    ||| c as int == 0x20
    ||| c as int == 0x85
    ||| c as int == 0xa0
    ||| c as int == 0x1680
    ||| 0x2000 <= c as int <= 0x200a
    ||| c as int == 0x2028
    ||| c as int == 0x2029
    ||| c as int == 0x202f
    ||| c as int == 0x205f
    ||| c as int == 0x3000
}

/// A text without the white space that it begins with.
pub open spec fn trimmed_start(text: Seq<char>) -> Seq<char>
    decreases text.len(),
{
    if text.len() > 0 && is_white_space(text[0]) {
        trimmed_start(text.skip(1))
    } else {
        text
    }
}

/// A text without the white space that it ends with.
pub open spec fn trimmed_end(text: Seq<char>) -> Seq<char>
    decreases text.len(),
{
    if text.len() > 0 && is_white_space(text.last()) {
        trimmed_end(text.drop_last())
    } else {
        text
    }
}

/// A text without the white space around it.
pub open spec fn trimmed(text: Seq<char>) -> Seq<char> {
    trimmed_end(trimmed_start(text))
}

/// A text without the white space around it.
///
/// Calls `str::trim`, which the standard library documents to remove leading and trailing characters
/// that have the Unicode property `White_Space`.
#[verifier::external_body]
pub(crate) fn trim(text: &str) -> (inner: &str)
    ensures
        inner@ == trimmed(text@),
{
    text.trim()
}

/// The decimal digits of a number.
pub open spec fn decimal(n: nat) -> Seq<char>
    decreases n,
{
    if n < 10 {
        seq![(n + 48) as char]
    } else {
        decimal(n / 10).push((n % 10 + 48) as char)
    }
}

fn push_decimal(chars: &mut Vec<char>, n: u64)
    ensures
        final(chars)@ == old(chars)@ + decimal(n as nat),
    decreases n,
{
    if n >= 10 {
        push_decimal(chars, n / 10);
    }
    let ghost before = chars@;
    chars.push((n % 10 + 48) as u8 as char);
    proof {
        assert(chars@ =~= old(chars)@ + decimal(n as nat));
    }
}

/// Writes a number in decimal digits.
pub fn to_decimal(n: u64) -> (text: String)
    ensures
        text@ == decimal(n as nat),
{
    let mut chars: Vec<char> = Vec::new();
    push_decimal(&mut chars, n);
    assert(chars@ =~= decimal(n as nat));
    string_of(chars)
}

/// The value of decimal digits.
pub open spec fn decimal_value(text: Seq<char>) -> nat
    decreases text.len(),
{
    if text.len() == 0 {
        0
    } else {
        10 * decimal_value(text.drop_last()) + (text.last() as int - 48) as nat
    }
}

/// The digits of a number have its value, so that different numbers are written differently.
pub proof fn law_decimal_round_trip(n: nat)
    ensures
        decimal_value(decimal(n)) == n,
    decreases n,
{
    let digit = if n < 10 {
        n
    } else {
        n % 10
    };
    assert((digit + 48) as char as int == digit + 48);
    assert(decimal(n).last() == (digit + 48) as char);
    if n < 10 {
        assert(decimal(n).drop_last() =~= Seq::empty());
        assert(decimal_value(Seq::<char>::empty()) == 0);
    } else {
        law_decimal_round_trip(n / 10);
        assert(decimal(n).drop_last() =~= decimal(n / 10));
    }
}

/// Whether a text holds decimal digits only.
pub open spec fn is_decimal(text: Seq<char>) -> bool {
    forall|i: int| 0 <= i < text.len() ==> '0' <= #[trigger] text[i] <= '9'
}

/// Numbers are written in decimal digits only.
pub proof fn law_decimal_digits(n: nat)
    ensures
        is_decimal(decimal(n)),
        decimal(n).len() > 0,
    decreases n,
{
    if n >= 10 {
        law_decimal_digits(n / 10);
    }
}

/// Trimming takes white space from both ends and nothing else: what is left neither begins nor ends with
/// white space, and is the text between so many characters at its beginning and so many at its end, all of
/// them white space.
pub proof fn law_trimming_takes_the_white_space_around(text: Seq<char>)
    ensures
        ({
            let left = trimmed(text);
            &&& left.len() > 0 ==> !is_white_space(left[0]) && !is_white_space(left.last())
            &&& exists|i: int, j: int|
                #![trigger text.subrange(i, j)]
                0 <= i <= j <= text.len() && left == text.subrange(i, j) && (forall|k: int|
                    0 <= k < i || j <= k < text.len() ==> is_white_space(#[trigger] text[k]))
        }),
{
    lemma_trimmed_start(text);
    let start = trimmed_start(text);
    lemma_trimmed_end(start);
    let i = text.len() - start.len();
    let j = i + trimmed(text).len();
    assert(text.subrange(i, j) =~= trimmed(text));
    assert forall|k: int| 0 <= k < i || j <= k < text.len() implies is_white_space(
        #[trigger] text[k],
    ) by {
        if k >= j {
            assert(start[k - i] == text[k]);
        }
    }
}

proof fn lemma_trimmed_start(text: Seq<char>)
    ensures
        trimmed_start(text).len() <= text.len(),
        trimmed_start(text) == text.skip(text.len() - trimmed_start(text).len()),
        forall|k: int|
            0 <= k < text.len() - trimmed_start(text).len() ==> is_white_space(#[trigger] text[k]),
        trimmed_start(text).len() > 0 ==> !is_white_space(trimmed_start(text)[0]),
    decreases text.len(),
{
    if text.len() > 0 && is_white_space(text[0]) {
        let rest = text.skip(1);
        lemma_trimmed_start(rest);
        let n = text.len() - trimmed_start(text).len();
        assert(text.skip(n) =~= rest.skip(n - 1));
        assert forall|k: int| 0 <= k < n implies is_white_space(#[trigger] text[k]) by {
            if k > 0 {
                assert(rest[k - 1] == text[k]);
            }
        }
    } else {
        assert(text.skip(0) =~= text);
    }
}

proof fn lemma_trimmed_end(text: Seq<char>)
    ensures
        trimmed_end(text).len() <= text.len(),
        trimmed_end(text) == text.take(trimmed_end(text).len() as int),
        forall|k: int|
            trimmed_end(text).len() <= k < text.len() ==> is_white_space(#[trigger] text[k]),
        trimmed_end(text).len() > 0 ==> !is_white_space(trimmed_end(text).last()),
    decreases text.len(),
{
    if text.len() > 0 && is_white_space(text.last()) {
        let rest = text.drop_last();
        lemma_trimmed_end(rest);
        let n = trimmed_end(text).len() as int;
        assert(text.take(n) =~= rest.take(n));
        assert forall|k: int| n <= k < text.len() implies is_white_space(#[trigger] text[k]) by {
            if k < rest.len() {
                assert(rest[k] == text[k]);
            }
        }
    } else {
        assert(text.take(text.len() as int) =~= text);
    }
}

} // verus!
