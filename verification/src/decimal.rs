use vstd::prelude::*;

verus! {

/// The byte `0`.
pub const ZERO: u8 = 48;

/// The byte `-`.
pub const MINUS: u8 = 45;

/// The byte `+`.
pub const PLUS: u8 = 43;

/// `b` is one of the bytes `0` to `9`.
pub open spec fn is_digit(b: u8) -> bool {
    48 <= b <= 57
}

/// Every byte of `s` is a digit.
pub open spec fn all_digits(s: Seq<u8>) -> bool {
    forall|i: int| 0 <= i < s.len() ==> is_digit(#[trigger] s[i])
}

/// The number that the digits of `s` write in base ten; 0 for no digits.
pub open spec fn digits_value(s: Seq<u8>) -> int
    decreases s.len(),
{
    if s.len() == 0 {
        0
    } else {
        digits_value(s.drop_last()) * 10 + (s.last() - 48)
    }
}

/// The digits of `n` in base ten, without leading zeros.
pub open spec fn decimal(n: nat) -> Seq<u8>
    decreases n,
{
    if n < 10 {
        seq![(48 + n) as u8]
    } else {
        decimal(n / 10).push((48 + n % 10) as u8)
    }
}

/// The text of `i` in base ten, with `-` in front of a negative number.
pub open spec fn signed_decimal(i: int) -> Seq<u8> {
    if i < 0 {
        seq![45u8] + decimal((-i) as nat)
    } else {
        decimal(i as nat)
    }
}

/// The digits of an integer text: what follows its sign, if it has one.
pub open spec fn unsigned_part(s: Seq<u8>) -> Seq<u8> {
    if s.len() > 0 && (s[0] == 45 || s[0] == 43) {
        s.subrange(1, s.len() as int)
    } else {
        s
    }
}

/// `s` is an integer as text: an optional sign, then one digit or more.
pub open spec fn is_integer_text(s: Seq<u8>) -> bool {
    unsigned_part(s).len() > 0 && all_digits(unsigned_part(s))
}

/// The number that an integer text writes.
pub open spec fn integer_value(s: Seq<u8>) -> int {
    if s.len() > 0 && s[0] == 45 {
        -digits_value(unsigned_part(s))
    } else {
        digits_value(unsigned_part(s))
    }
}

/// The `i32` that `s` writes: `None` unless `s` is an integer text whose value
/// an `i32` can hold.
pub open spec fn parse_i32(s: Seq<u8>) -> Option<i32> {
    if is_integer_text(s) && i32::MIN <= integer_value(s) <= i32::MAX {
        Some(integer_value(s) as i32)
    } else {
        None
    }
}

/// The `u64` that `s` writes: `None` unless `s` is one digit or more, after an
/// optional `+`, and a `u64` can hold the value.
pub open spec fn parse_u64(s: Seq<u8>) -> Option<u64> {
    if is_integer_text(s) && !(s[0] == 45) && digits_value(unsigned_part(s)) <= u64::MAX {
        Some(digits_value(unsigned_part(s)) as u64)
    } else {
        None
    }
}

/// One more digit multiplies the value by ten and adds the digit.
pub proof fn lemma_value_step(s: Seq<u8>, from: int, to: int)
    requires
        0 <= from <= to < s.len(),
    ensures
        digits_value(s.subrange(from, to + 1)) == digits_value(s.subrange(from, to)) * 10 + (s[to]
            - 48),
{
    assert(s.subrange(from, to + 1).drop_last() =~= s.subrange(from, to));
}

/// Digits never write a negative number, and more digits never write a
/// smaller one.
pub proof fn lemma_value_grows(s: Seq<u8>, k: int)
    requires
        all_digits(s),
        0 <= k <= s.len(),
    ensures
        0 <= digits_value(s.subrange(0, k)) <= digits_value(s),
    decreases s.len() - k,
{
    if k == s.len() {
        assert(s.subrange(0, k) =~= s);
        lemma_value_nonnegative(s);
    } else {
        lemma_value_grows(s, k + 1);
        lemma_value_step(s, 0, k);
        assert(is_digit(s[k]));
        lemma_value_nonnegative(s.subrange(0, k));
    }
}

/// Digits never write a negative number.
pub proof fn lemma_value_nonnegative(s: Seq<u8>)
    requires
        all_digits(s),
    ensures
        0 <= digits_value(s),
    decreases s.len(),
{
    if s.len() > 0 {
        assert(is_digit(s.last()));
        lemma_value_nonnegative(s.drop_last());
    }
}

/// What `decimal` writes is read back unchanged: it is one digit or more, it
/// has no sign, and its value is the number written.
pub proof fn lemma_decimal_reads_back(n: nat)
    ensures
        decimal(n).len() > 0,
        all_digits(decimal(n)),
        digits_value(decimal(n)) == n,
        is_digit(decimal(n)[0]),
    decreases n,
{
    if n < 10 {
        let s = decimal(n);
        assert(s.drop_last() =~= Seq::<u8>::empty());
        assert(digits_value(s.drop_last()) == 0);
    } else {
        lemma_decimal_reads_back(n / 10);
        let s = decimal(n);
        assert(s.drop_last() =~= decimal(n / 10));
        assert(s[0] == decimal(n / 10)[0]);
    }
}

/// Reads the digits of `s` from `start` on. `None` unless there is at least
/// one byte, all are digits, and their value is at most `limit`.
pub fn read_digits(s: &[u8], start: usize, limit: u64) -> (r: Option<u64>)
    ensures
        r matches Some(v) ==> v == digits_value(s@.subrange(start as int, s.len() as int)),
        r is Some <==> {
            &&& start < s.len()
            &&& all_digits(s@.subrange(start as int, s.len() as int))
            &&& digits_value(s@.subrange(start as int, s.len() as int)) <= limit
        },
{
    if start >= s.len() {
        return None;
    }
    let ghost body = s@.subrange(start as int, s.len() as int);
    let mut acc: u64 = 0;
    let mut i: usize = start;
    while i < s.len()
        invariant
            start <= i <= s.len(),
            body == s@.subrange(start as int, s.len() as int),
            all_digits(s@.subrange(start as int, i as int)),
            acc == digits_value(s@.subrange(start as int, i as int)),
            acc <= limit,
        decreases s.len() - i,
    {
        let b = s[i];
        if b < 48 || b > 57 {
            assert(body[i - start] == b);
            return None;
        }
        let next: u128 = acc as u128 * 10 + (b - 48) as u128;
        proof {
            lemma_value_step(s@, start as int, i as int);
            assert forall|j: int| 0 <= j < i + 1 - start implies is_digit(
                #[trigger] s@.subrange(start as int, i + 1)[j],
            ) by {
                if j < i - start {
                    assert(s@.subrange(start as int, i as int)[j] == s@[start + j]);
                }
            }
        }
        if next > limit as u128 {
            proof {
                if all_digits(body) {
                    lemma_value_grows(body, i + 1 - start);
                    assert(body.subrange(0, i + 1 - start) =~= s@.subrange(start as int, i + 1));
                }
            }
            return None;
        }
        acc = next as u64;
        i += 1;
    }
    assert(s@.subrange(start as int, i as int) =~= body);
    Some(acc)
}

/// Reads an `i32` as Rust writes one: an optional `+` or `-`, then digits.
pub fn read_i32(s: &[u8]) -> (r: Option<i32>)
    ensures
        r == parse_i32(s@),
{
    if s.len() == 0 {
        return None;
    }
    let first = s[0];
    if first == MINUS {
        match read_digits(s, 1, 2147483648) {
            Some(v) => Some((0 - v as i64) as i32),
            None => None,
        }
    } else {
        let start: usize = if first == PLUS { 1 } else { 0 };
        proof {
            if first != PLUS {
                assert(s@.subrange(0, s.len() as int) =~= s@);
            }
        }
        match read_digits(s, start, 2147483647) {
            Some(v) => Some(v as i32),
            None => {
                proof {
                    if all_digits(unsigned_part(s@)) {
                        lemma_value_nonnegative(unsigned_part(s@));
                    }
                }
                None
            },
        }
    }
}

/// Reads a `u64` as Rust writes one: an optional `+`, then digits.
pub fn read_u64(s: &[u8]) -> (r: Option<u64>)
    ensures
        r == parse_u64(s@),
{
    if s.len() == 0 {
        return None;
    }
    let first = s[0];
    if first == MINUS {
        return None;
    }
    let start: usize = if first == PLUS { 1 } else { 0 };
    proof {
        if first != PLUS {
            assert(s@.subrange(0, s.len() as int) =~= s@);
        }
    }
    read_digits(s, start, u64::MAX)
}

/// Writes `n` in base ten.
pub fn write_u64(n: u64) -> (r: Vec<u8>)
    ensures
        r@ == decimal(n as nat),
    decreases n,
{
    if n < 10 {
        let mut v: Vec<u8> = Vec::new();
        v.push(ZERO + n as u8);
        assert(v@ =~= decimal(n as nat));
        v
    } else {
        let mut v = write_u64(n / 10);
        v.push(ZERO + (n % 10) as u8);
        v
    }
}

/// Writes `i` in base ten, with `-` in front of a negative number.
pub fn write_i64(i: i64) -> (r: Vec<u8>)
    ensures
        r@ == signed_decimal(i as int),
{
    if i < 0 {
        let magnitude: u64 = if i == i64::MIN { 9223372036854775808 } else { (0 - i) as u64 };
        let mut v: Vec<u8> = Vec::new();
        v.push(MINUS);
        let mut digits = write_u64(magnitude);
        v.append(&mut digits);
        assert(v@ =~= signed_decimal(i as int));
        v
    } else {
        write_u64(i as u64)
    }
}

} // verus!
