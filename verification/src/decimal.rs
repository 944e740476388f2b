use vstd::prelude::*;

verus! {

/// The character for the decimal digit `d`.
pub open spec fn spec_digit_char(d: int) -> char
    recommends
        0 <= d <= 9,
{
    if d == 0 {
        '0'
    } else if d == 1 {
        '1'
    } else if d == 2 {
        '2'
    } else if d == 3 {
        '3'
    } else if d == 4 {
        '4'
    } else if d == 5 {
        '5'
    } else if d == 6 {
        '6'
    } else if d == 7 {
        '7'
    } else if d == 8 {
        '8'
    } else {
        '9'
    }
}

/// The decimal representation of `n`, most significant digit first, with no
/// leading zeros (`0` is written as "0").
pub open spec fn spec_dec(n: int) -> Seq<char>
    recommends
        n >= 0,
    decreases n,
{
    if n < 10 {
        seq![spec_digit_char(n)]
    } else {
        spec_dec(n / 10) + seq![spec_digit_char(n % 10)]
    }
}

fn digit_str(d: u64) -> (r: &'static str)
    requires
        d <= 9,
    ensures
        r@.len() == 1,
        r@[0] == spec_digit_char(d as int),
{
    proof {
        reveal_strlit("0");
        reveal_strlit("1");
        reveal_strlit("2");
        reveal_strlit("3");
        reveal_strlit("4");
        reveal_strlit("5");
        reveal_strlit("6");
        reveal_strlit("7");
        reveal_strlit("8");
        reveal_strlit("9");
    }
    match d {
        0 => "0",
        1 => "1",
        2 => "2",
        3 => "3",
        4 => "4",
        5 => "5",
        6 => "6",
        7 => "7",
        8 => "8",
        _ => "9",
    }
}

/// Writes `v` in decimal.
pub fn u64_to_dec_str(v: u64) -> (r: String)
    ensures
        r@ == spec_dec(v as int),
    decreases v,
{
    if v < 10 {
        let s = String::from_str(digit_str(v));
        proof {
            assert(s@ =~= spec_dec(v as int));
        }
        s
    } else {
        let mut s = u64_to_dec_str(v / 10);
        s.append(digit_str(v % 10));
        proof {
            assert(s@ =~= spec_dec(v as int));
        }
        s
    }
}

/// Every byte of `s` is an ASCII decimal digit.
pub open spec fn spec_all_digits(s: Seq<u8>) -> bool {
    forall|i: int| 0 <= i < s.len() ==> 48 <= #[trigger] s[i] <= 57
}

/// The value of the digit string `s` read in decimal (digit bytes are ASCII,
/// `48` is '0').
pub open spec fn spec_dec_value(s: Seq<u8>) -> int
    recommends
        spec_all_digits(s),
    decreases s.len(),
{
    if s.len() == 0 {
        0
    } else {
        spec_dec_value(s.drop_last()) * 10 + (s.last() - 48)
    }
}

/// Reading one more digit never shrinks the value.
proof fn lemma_dec_value_monotone(s: Seq<u8>, i: int)
    requires
        spec_all_digits(s),
        0 <= i < s.len(),
    ensures
        spec_dec_value(s.take(i)) <= spec_dec_value(s.take(i + 1)),
        spec_dec_value(s.take(i)) >= 0,
    decreases i,
{
    if i > 0 {
        lemma_dec_value_monotone(s, i - 1);
    }
    assert(s.take(i + 1).drop_last() =~= s.take(i));
    assert(s.take(i + 1).last() == s[i]);
    let v = spec_dec_value(s.take(i));
    assert(v * 10 >= v) by (nonlinear_arith)
        requires
            v >= 0,
    ;
}

/// Once a digit prefix overflows `u64`, the whole string does.
proof fn lemma_dec_value_overflow(s: Seq<u8>, i: int)
    requires
        spec_all_digits(s),
        0 <= i <= s.len(),
        spec_dec_value(s.take(i)) > u64::MAX,
    ensures
        spec_dec_value(s) > u64::MAX,
    decreases s.len() - i,
{
    if i == s.len() {
        assert(s.take(i) =~= s);
    } else {
        lemma_dec_value_monotone(s, i);
        lemma_dec_value_overflow(s, i + 1);
    }
}

/// Parses a decimal digit string into a `u64`.  Returns `Some` exactly when
/// the input is non-empty, holds only digits, and its value fits; the value
/// returned is the decimal value of the digits.
pub fn parse_u64_dec(bytes: &Vec<u8>) -> (r: Option<u64>)
    ensures
        r is Some <==> bytes@.len() > 0 && spec_all_digits(bytes@) && spec_dec_value(bytes@)
            <= u64::MAX,
        r matches Some(v) ==> v == spec_dec_value(bytes@),
{
    if bytes.len() == 0 {
        return Option::None;
    }
    let mut acc: u64 = 0;
    let mut i: usize = 0;
    while i < bytes.len()
        invariant
            0 <= i <= bytes@.len(),
            spec_all_digits(bytes@.take(i as int)),
            acc == spec_dec_value(bytes@.take(i as int)),
        decreases bytes@.len() - i,
    {
        let b = bytes[i];
        if b < 48 || b > 57 {
            assert(!spec_all_digits(bytes@));
            return Option::None;
        }
        let d: u64 = (b - 48) as u64;
        if acc > (u64::MAX - d) / 10 {
            proof {
                assert(bytes@.take(i as int + 1).drop_last() =~= bytes@.take(i as int));
                assert(acc * 10 + d > u64::MAX) by (nonlinear_arith)
                    requires
                        acc > (u64::MAX - d) / 10,
                        0 <= d <= 9,
                ;
                if spec_all_digits(bytes@) {
                    lemma_dec_value_overflow(bytes@, i as int + 1);
                }
            }
            return Option::None;
        }
        proof {
            assert(bytes@.take(i as int + 1).drop_last() =~= bytes@.take(i as int));
            assert(acc * 10 + d <= u64::MAX) by (nonlinear_arith)
                requires
                    acc <= (u64::MAX - d) / 10,
                    0 <= d <= 9,
            ;
        }
        acc = acc * 10 + d;
        i = i + 1;
    }
    proof {
        assert(bytes@.take(bytes@.len() as int) =~= bytes@);
    }
    Option::Some(acc)
}

} // verus!
