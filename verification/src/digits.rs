use vstd::prelude::*;
use vstd::string::StrSliceExecFns;
use vstd::string::StringExecFns;

verus! {

// The store keeps `score` and `level` as decimal-string-encoded numbers, and
// the service must round-trip integers exactly through that encoding. This
// module gives the encoding and the parser, both verified, and the round-trip
// proof that ties them together.

/// Whether `c` is a decimal digit.
pub open spec fn is_digit(c: char) -> bool {
    '0' <= c && c <= '9'
}

/// The numeric value of a digit character.
pub open spec fn digit_val(c: char) -> nat
    recommends
        is_digit(c),
{
    ((c as int) - 48) as nat
}

/// The digit character for a value below ten.
pub open spec fn digit_char(d: nat) -> char
    recommends
        d < 10,
{
    if d == 0 {
        '0'
    } else if d == 1 {
        '1'
    } else if d == 2 {
        '2'
    } else if d == 3 {
        '3'
    } else if d == 4 {
        '4'
    } else if d == 5 {
        '5'
    } else if d == 6 {
        '6'
    } else if d == 7 {
        '7'
    } else if d == 8 {
        '8'
    } else {
        '9'
    }
}

/// The canonical decimal spelling of `n`: no sign, no leading zero except
/// for `n == 0` itself.
pub open spec fn dec_digits(n: nat) -> Seq<char>
    decreases n,
{
    if n < 10 {
        seq![digit_char(n)]
    } else {
        dec_digits(n / 10).push(digit_char(n % 10))
    }
}

/// Whether every character of `s` is a decimal digit.
pub open spec fn all_digits(s: Seq<char>) -> bool {
    forall|i: int| 0 <= i < s.len() ==> is_digit(#[trigger] s[i])
}

/// The value of `s` read as big-endian decimal digits.
pub open spec fn dec_value(s: Seq<char>) -> nat
    decreases s.len(),
{
    if s.len() == 0 {
        0
    } else {
        dec_value(s.drop_last()) * 10 + digit_val(s.last())
    }
}

/// The digits of a decimal literal: everything after one optional leading
/// plus sign.
pub open spec fn digits_part(s: Seq<char>) -> Seq<char> {
    if s.len() > 0 && s[0] == '+' {
        s.drop_first()
    } else {
        s
    }
}

/// What a string parses to as an unsigned decimal number: an optional
/// leading plus sign, then one or more digits; anything else is rejected.
pub open spec fn dec_parsed(s: Seq<char>) -> Option<nat> {
    if digits_part(s).len() > 0 && all_digits(digits_part(s)) {
        Some(dec_value(digits_part(s)))
    } else {
        None
    }
}

/// `dec_parsed`, with values above `max` rejected as well, the way a parse
/// into a bounded integer type rejects them.
pub open spec fn bounded_dec_parsed(s: Seq<char>, max: nat) -> Option<nat> {
    match dec_parsed(s) {
        Some(v) => if v <= max {
            Some(v)
        } else {
            None
        },
        None => None,
    }
}

/// Reading one more digit multiplies the prefix value by ten and adds it.
proof fn lemma_dec_value_step(s: Seq<char>, j: int)
    requires
        0 <= j < s.len(),
    ensures
        dec_value(s.take(j + 1)) == dec_value(s.take(j)) * 10 + digit_val(s[j]),
{
    assert(s.take(j + 1).drop_last() =~= s.take(j));
    assert(s.take(j + 1).last() == s[j]);
}

/// The value of a prefix never exceeds the value of the whole.
proof fn lemma_dec_value_take_le(s: Seq<char>, j: int)
    requires
        0 <= j <= s.len(),
    ensures
        dec_value(s.take(j)) <= dec_value(s),
    decreases s.len() - j,
{
    if j < s.len() {
        lemma_dec_value_step(s, j);
        lemma_dec_value_take_le(s, j + 1);
        assert(dec_value(s.take(j)) <= dec_value(s.take(j)) * 10) by (nonlinear_arith);
        assert(s.take(s.len() as int) =~= s);
    } else {
        assert(s.take(j) =~= s);
    }
}

/// The single-character string for a digit value.
fn digit_str(d: u64) -> (s: &'static str)
    requires
        d < 10,
    ensures
        s@ =~= seq![digit_char(d as nat)],
{
    let s: &'static str = match d {
        0 => "0",
        1 => "1",
        2 => "2",
        3 => "3",
        4 => "4",
        5 => "5",
        6 => "6",
        7 => "7",
        8 => "8",
        _ => "9",
    };
    proof {
        reveal_strlit("0");
        reveal_strlit("1");
        reveal_strlit("2");
        reveal_strlit("3");
        reveal_strlit("4");
        reveal_strlit("5");
        reveal_strlit("6");
        reveal_strlit("7");
        reveal_strlit("8");
        reveal_strlit("9");
        assert(s@ =~= seq![digit_char(d as nat)]);
    }
    s
}

/// Appends the decimal spelling of `n` to `out`.
fn push_dec_digits(n: u64, out: &mut String)
    ensures
        final(out)@ == old(out)@ + dec_digits(n as nat),
    decreases n,
{
    if n >= 10 {
        push_dec_digits(n / 10, out);
    }
    out.append(digit_str(n % 10));
    proof {
        if n >= 10 {
            assert(old(out)@ + dec_digits((n / 10) as nat) + seq![digit_char((n % 10) as nat)]
                =~= old(out)@ + dec_digits(n as nat));
        } else {
            assert(old(out)@ + seq![digit_char(n as nat)] =~= old(out)@ + dec_digits(n as nat));
        }
    }
}

/// The decimal spelling of `n`, exactly as the canonical encoding gives it.
pub fn format_dec(n: u64) -> (s: String)
    ensures
        s@ == dec_digits(n as nat),
{
    let mut s = String::new();
    push_dec_digits(n, &mut s);
    proof {
        assert(s@ =~= dec_digits(n as nat));
    }
    s
}

/// Parses `s` as an unsigned decimal number no greater than `max`:
/// an optional leading plus sign, then one or more digits.
pub fn parse_dec(s: &str, max: u64) -> (r: Option<u64>)
    ensures
        r matches Some(v) ==> bounded_dec_parsed(s@, max as nat) == Some(v as nat),
        r is None ==> bounded_dec_parsed(s@, max as nat) is None,
{
    let len: usize = s.unicode_len();
    let start: usize = if len > 0 && s.get_char(0) == '+' {
        1
    } else {
        0
    };
    let ghost d = digits_part(s@);
    proof {
        assert(d.len() == len - start);
    }
    if start == len {
        return None;
    }
    let dlen: usize = len - start;
    let mut acc: u64 = 0;
    let mut j: usize = 0;
    while j < dlen
        invariant
            s@.len() == len,
            d == digits_part(s@),
            d.len() == dlen,
            dlen == len - start,
            start < len,
            j <= dlen,
            all_digits(d.take(j as int)),
            acc == dec_value(d.take(j as int)),
            acc <= max,
        decreases dlen - j,
    {
        let c = s.get_char(start + j);
        proof {
            assert(d[j as int] == s@[(start + j) as int]);
        }
        let u: u32 = c as u32;
        if !(48 <= u && u <= 57) {
            proof {
                assert(!is_digit(d[j as int]));
            }
            return None;
        }
        let dv: u64 = (u - 48) as u64;
        proof {
            lemma_dec_value_step(d, j as int);
            assert(digit_val(d[j as int]) == dv);
        }
        if acc > max / 10 {
            proof {
                lemma_dec_value_take_le(d, j + 1);
                assert(acc * 10 >= (max / 10 + 1) * 10) by (nonlinear_arith)
                    requires
                        acc >= max / 10 + 1,
                ;
                assert(dec_value(d) > max);
            }
            return None;
        }
        let tmp: u64 = {
            proof {
                assert(acc * 10 <= (max / 10) * 10) by (nonlinear_arith)
                    requires
                        acc <= max / 10,
                ;
            }
            acc * 10
        };
        if dv > max - tmp {
            proof {
                lemma_dec_value_take_le(d, j + 1);
                assert(dec_value(d) > max);
            }
            return None;
        }
        acc = tmp + dv;
        j = j + 1;
    }
    proof {
        assert(d.take(dlen as int) =~= d);
    }
    Some(acc)
}

/// The canonical spelling of a number is non-empty, all digits, unsigned.
pub proof fn lemma_dec_digits_wf(n: nat)
    ensures
        dec_digits(n).len() > 0,
        all_digits(dec_digits(n)),
        dec_digits(n)[0] != '+',
    decreases n,
{
    if n < 10 {
        assert(is_digit(dec_digits(n)[0]));
    } else {
        lemma_dec_digits_wf(n / 10);
        assert forall|i: int| 0 <= i < dec_digits(n).len() implies is_digit(
            #[trigger] dec_digits(n)[i],
        ) by {
            if i < dec_digits(n / 10).len() {
                assert(dec_digits(n)[i] == dec_digits(n / 10)[i]);
            } else {
                assert(dec_digits(n)[i] == digit_char(n % 10));
            }
        }
    }
}

/// The canonical spelling of a number reads back as that number.
pub proof fn lemma_dec_digits_value(n: nat)
    ensures
        dec_value(dec_digits(n)) == n,
    decreases n,
{
    if n < 10 {
        assert(seq![digit_char(n)].drop_last() =~= Seq::<char>::empty());
        assert(dec_value(Seq::<char>::empty()) == 0);
        assert(digit_val(digit_char(n)) == n);
    } else {
        lemma_dec_digits_value(n / 10);
        assert(dec_digits(n).drop_last() =~= dec_digits(n / 10));
        assert(dec_digits(n).last() == digit_char(n % 10));
        assert(digit_val(digit_char(n % 10)) == n % 10);
        vstd::arithmetic::div_mod::lemma_fundamental_div_mod(n as int, 10);
    }
}

/// Round-trip fidelity of the integer encoding: the canonical decimal
/// spelling of any number parses back to exactly that number.
pub proof fn lemma_dec_round_trip(n: nat)
    ensures
        dec_parsed(dec_digits(n)) == Some(n),
{
    lemma_dec_digits_wf(n);
    lemma_dec_digits_value(n);
    assert(digits_part(dec_digits(n)) =~= dec_digits(n));
}

} // verus!
