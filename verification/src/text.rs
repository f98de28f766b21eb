use vstd::prelude::*;
use vstd::string::*;
use crate::decimal::decimal;

verus! {

/// The bytes of a text whose characters are all plain ASCII: one byte to a
/// character.
pub open spec fn ascii(text: Seq<char>) -> Seq<u8> {
    Seq::new(text.len(), |i: int| text[i] as u8)
}

/// The bytes of any text.
pub open spec fn utf8(text: Seq<char>) -> Seq<u8> {
    vstd::utf8::encode_utf8(text)
}

/// The bytes of a text.
pub fn utf8_bytes(text: &str) -> (bytes: Vec<u8>)
    ensures
        bytes@ == utf8(text@),
        text.is_ascii() ==> bytes@ == ascii(text@),
{
    proof {
        is_ascii_spec_bytes(text);
    }
    text.as_bytes_vec()
}

/// The bytes of a plain ASCII text.
pub fn ascii_bytes(text: &str) -> (bytes: Vec<u8>)
    ensures
        text.is_ascii() ==> bytes@ == ascii(text@),
{
    utf8_bytes(text)
}

/// The characters of a text of digits.
pub open spec fn as_chars(digits: Seq<u8>) -> Seq<char> {
    digits.map_values(|b: u8| b as char)
}

fn digit_text(d: u64) -> (s: &'static str)
    requires
        d < 10,
    ensures
        s@ == seq![((48 + d) as u8) as char],
{
    proof {
        reveal_strlit("0");
        reveal_strlit("1");
        reveal_strlit("2");
        reveal_strlit("3");
        reveal_strlit("4");
        reveal_strlit("5");
        reveal_strlit("6");
        reveal_strlit("7");
        reveal_strlit("8");
        reveal_strlit("9");
    }
    let s = if d == 0 {
        "0"
    } else if d == 1 {
        "1"
    } else if d == 2 {
        "2"
    } else if d == 3 {
        "3"
    } else if d == 4 {
        "4"
    } else if d == 5 {
        "5"
    } else if d == 6 {
        "6"
    } else if d == 7 {
        "7"
    } else if d == 8 {
        "8"
    } else {
        "9"
    };
    assert(s@ =~= seq![((48 + d) as u8) as char]);
    s
}

/// Adds a number in base ten to a text.
pub fn push_decimal(text: &mut String, n: u64)
    ensures
        final(text)@ == old(text)@ + as_chars(decimal(n as nat)),
    decreases n,
{
    if n < 10 {
        text.append(digit_text(n));
        assert(text@ =~= old(text)@ + as_chars(decimal(n as nat)));
    } else {
        push_decimal(text, n / 10);
        text.append(digit_text(n % 10));
        assert(text@ =~= old(text)@ + as_chars(decimal(n as nat)));
    }
}

/// Whether `s` holds `pattern` at the place `from`.
pub fn holds_at(s: &[u8], from: usize, pattern: &[u8]) -> (b: bool)
    ensures
        b == (from + pattern.len() <= s.len() && s@.subrange(
            from as int,
            from + pattern.len(),
        ) == pattern@),
{
    if from > s.len() || pattern.len() > s.len() - from {
        return false;
    }
    let mut i: usize = 0;
    while i < pattern.len()
        invariant
            i <= pattern.len(),
            from + pattern.len() <= s.len(),
            s@.subrange(from as int, from + i) == pattern@.subrange(0, i as int),
        decreases pattern.len() - i,
    {
        if s[from + i] != pattern[i] {
            assert(s@.subrange(from as int, from + pattern.len())[i as int] != pattern@[i as int]);
            return false;
        }
        assert(s@.subrange(from as int, from + i + 1) =~= s@.subrange(from as int, from + i).push(
            s@[from + i],
        ));
        assert(pattern@.subrange(0, i + 1) =~= pattern@.subrange(0, i as int).push(
            pattern@[i as int],
        ));
        i += 1;
    }
    assert(pattern@.subrange(0, i as int) =~= pattern@);
    true
}

} // verus!
