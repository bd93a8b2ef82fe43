//! Decimal rendering of unsigned integers, with the facts the rest of the
//! crate needs: every rendered character is a digit, and the rendering is
//! invertible (so it is injective).

use vstd::prelude::*;
use vstd::string::StringExecFns;
use vstd::arithmetic::div_mod::lemma_fundamental_div_mod;
use vstd::arithmetic::div_mod::lemma_div_decreases;

verus! {

/// The character standing for one decimal digit.
pub open spec fn digit_char(d: nat) -> char {
    if d == 0 {
        '0'
    } else if d == 1 {
        '1'
    } else if d == 2 {
        '2'
    } else if d == 3 {
        '3'
    } else if d == 4 {
        '4'
    } else if d == 5 {
        '5'
    } else if d == 6 {
        '6'
    } else if d == 7 {
        '7'
    } else if d == 8 {
        '8'
    } else {
        '9'
    }
}

/// The numeric value of a digit character; 10 marks a non-digit.
pub open spec fn digit_of(c: char) -> nat {
    if c == '0' {
        0
    } else if c == '1' {
        1
    } else if c == '2' {
        2
    } else if c == '3' {
        3
    } else if c == '4' {
        4
    } else if c == '5' {
        5
    } else if c == '6' {
        6
    } else if c == '7' {
        7
    } else if c == '8' {
        8
    } else if c == '9' {
        9
    } else {
        10
    }
}

pub open spec fn is_digit(c: char) -> bool {
    digit_of(c) < 10
}

/// The usual decimal rendering of `n`, most significant digit first,
/// without leading zeros (a lone zero for `n == 0`).
pub open spec fn dec_str(n: nat) -> Seq<char>
    decreases n,
{
    if n < 10 {
        seq![digit_char(n)]
    } else {
        dec_str(n / 10) + seq![digit_char(n % 10)]
    }
}

/// The value of a digit string read in base ten (the empty string reads as 0).
pub open spec fn dec_val(s: Seq<char>) -> nat
    decreases s.len(),
{
    if s.len() == 0 {
        0
    } else {
        dec_val(s.drop_last()) * 10 + digit_of(s.last())
    }
}

pub open spec fn all_digits(s: Seq<char>) -> bool {
    forall|i: int| 0 <= i < s.len() ==> is_digit(s[i])
}

pub proof fn lemma_dec_str_digits(n: nat)
    ensures
        all_digits(dec_str(n)),
        dec_str(n).len() >= 1,
    decreases n,
{
    if n < 10 {
    } else {
        lemma_dec_str_digits(n / 10);
        assert forall|i: int| 0 <= i < dec_str(n).len() implies is_digit(dec_str(n)[i]) by {
            if i < dec_str(n / 10).len() {
                assert(dec_str(n)[i] == dec_str(n / 10)[i]);
            } else {
                assert(dec_str(n)[i] == digit_char(n % 10));
            }
        }
    }
}

/// A digit character reads back as the digit it stands for.
pub proof fn lemma_digit_roundtrip(d: nat)
    requires
        d < 10,
    ensures
        digit_of(digit_char(d)) == d,
{
}

/// Reading a rendering back gives the number that was rendered.
pub proof fn lemma_dec_val_dec_str(n: nat)
    ensures
        dec_val(dec_str(n)) == n,
    decreases n,
{
    if n < 10 {
        let s = dec_str(n);
        assert(s.drop_last() =~= Seq::<char>::empty());
        assert(s.last() == digit_char(n));
        lemma_digit_roundtrip(n);
        assert(dec_val(s) == dec_val(s.drop_last()) * 10 + digit_of(s.last()));
        assert(dec_val(s.drop_last()) == 0);
    } else {
        lemma_digit_roundtrip(n % 10);
        lemma_dec_val_dec_str(n / 10);
        let s = dec_str(n);
        assert(s =~= dec_str(n / 10) + seq![digit_char(n % 10)]);
        assert(s.drop_last() =~= dec_str(n / 10));
        assert(s.last() == digit_char(n % 10));
        assert(dec_val(s) == dec_val(dec_str(n / 10)) * 10 + digit_of(digit_char(n % 10)));
        lemma_fundamental_div_mod(n as int, 10);
        assert(n == 10 * (n as int / 10) + n as int % 10);
    }
}

/// A rendering never starts with a superfluous zero: only the rendering of
/// zero itself, a single character, does.
pub proof fn lemma_dec_str_no_leading_zero(n: nat)
    ensures
        dec_str(n).len() > 1 ==> dec_str(n)[0] != '0',
    decreases n,
{
    if n >= 10 {
        lemma_dec_str_no_leading_zero(n / 10);
        lemma_dec_str_digits(n / 10);
        assert(dec_str(n)[0] == dec_str(n / 10)[0]);
        if n / 10 < 10 {
            assert(n / 10 >= 1);
            assert(dec_str(n / 10) == seq![digit_char(n / 10)]);
            assert(digit_char(n / 10) != '0');
        } else {
            lemma_dec_str_digits(n / 10 / 10);
            assert(dec_str(n / 10).len() > 1);
        }
    }
}

/// A non-empty digit string without a leading zero is the rendering of its
/// own value: canonical representations read back to themselves.
pub proof fn lemma_canonical_digits(d: Seq<char>)
    requires
        d.len() >= 1,
        all_digits(d),
        d.len() > 1 ==> d[0] != '0',
    ensures
        dec_str(dec_val(d)) == d,
    decreases d.len(),
{
    if d.len() == 1 {
        assert(is_digit(d[0]));
        assert(d.drop_last() =~= Seq::<char>::empty());
        assert(dec_val(Seq::<char>::empty()) == 0);
        assert(d.last() == d[0]);
        assert(dec_val(d) == digit_of(d[0]));
        assert(dec_val(d) < 10);
        assert(dec_str(dec_val(d)) == seq![digit_char(dec_val(d))]);
        assert(digit_char(digit_of(d[0])) == d[0]);
        assert(dec_str(dec_val(d)) =~= d);
    } else {
        let init = d.drop_last();
        assert(init.len() == d.len() - 1);
        assert forall|i: int| 0 <= i < init.len() implies is_digit(init[i]) by {
            assert(init[i] == d[i]);
        }
        assert(init[0] == d[0]);
        lemma_canonical_digits(init);
        let dig = digit_of(d.last());
        assert(dec_val(d) == dec_val(init) * 10 + dig);
        if dec_val(init) == 0 {
            // then init renders as the lone zero, contradicting the absent
            // leading zero
            assert(dec_str(dec_val(init)) =~= seq![digit_char(0)]);
            assert(init[0] == '0');
            assert(false);
        }
        assert(dec_val(d) >= 10);
        vstd::arithmetic::div_mod::lemma_fundamental_div_mod_converse_div(
            dec_val(d) as int,
            10,
            dec_val(init) as int,
            dig as int,
        );
        vstd::arithmetic::div_mod::lemma_fundamental_div_mod_converse_mod(
            dec_val(d) as int,
            10,
            dec_val(init) as int,
            dig as int,
        );
        assert(dec_val(d) / 10 == dec_val(init));
        assert(dec_val(d) % 10 == dig);
        assert(dec_str(dec_val(d)) == dec_str(dec_val(init)) + seq![digit_char(dig)]);
        assert(digit_char(digit_of(d.last())) == d.last());
        assert(dec_str(dec_val(d)) =~= d);
    }
}

/// Distinct numbers render as distinct strings.
pub proof fn lemma_dec_str_injective(a: nat, b: nat)
    ensures
        dec_str(a) == dec_str(b) ==> a == b,
{
    if dec_str(a) == dec_str(b) {
        lemma_dec_val_dec_str(a);
        lemma_dec_val_dec_str(b);
    }
}

pub proof fn lemma_dec_val_push(s: Seq<char>, c: char)
    ensures
        dec_val(s.push(c)) == dec_val(s) * 10 + digit_of(c),
{
    assert(s.push(c).drop_last() =~= s);
    assert(s.push(c).last() == c);
}

/// A digit string is worth at least any of its prefixes.
pub proof fn lemma_dec_val_prefix_le(t: Seq<char>, k: int)
    requires
        0 <= k <= t.len(),
    ensures
        dec_val(t.subrange(0, k)) <= dec_val(t),
    decreases t.len() - k,
{
    if k == t.len() {
        assert(t.subrange(0, k) =~= t);
    } else {
        lemma_dec_val_prefix_le(t, k + 1);
        assert(t.subrange(0, k + 1).drop_last() =~= t.subrange(0, k));
        assert(dec_val(t.subrange(0, k + 1)) == dec_val(t.subrange(0, k)) * 10 + digit_of(
            t.subrange(0, k + 1).last(),
        ));
    }
}

fn digit_str(d: u64) -> (s: &'static str)
    requires
        d < 10,
    ensures
        s@ == seq![digit_char(d as nat)],
{
    match d {
        0 => {
            proof {
                reveal_strlit("0");
                assert("0"@ =~= seq![digit_char(0)]);
            }
            "0"
        },
        1 => {
            proof {
                reveal_strlit("1");
                assert("1"@ =~= seq![digit_char(1)]);
            }
            "1"
        },
        2 => {
            proof {
                reveal_strlit("2");
                assert("2"@ =~= seq![digit_char(2)]);
            }
            "2"
        },
        3 => {
            proof {
                reveal_strlit("3");
                assert("3"@ =~= seq![digit_char(3)]);
            }
            "3"
        },
        4 => {
            proof {
                reveal_strlit("4");
                assert("4"@ =~= seq![digit_char(4)]);
            }
            "4"
        },
        5 => {
            proof {
                reveal_strlit("5");
                assert("5"@ =~= seq![digit_char(5)]);
            }
            "5"
        },
        6 => {
            proof {
                reveal_strlit("6");
                assert("6"@ =~= seq![digit_char(6)]);
            }
            "6"
        },
        7 => {
            proof {
                reveal_strlit("7");
                assert("7"@ =~= seq![digit_char(7)]);
            }
            "7"
        },
        8 => {
            proof {
                reveal_strlit("8");
                assert("8"@ =~= seq![digit_char(8)]);
            }
            "8"
        },
        _ => {
            proof {
                reveal_strlit("9");
                assert("9"@ =~= seq![digit_char(9)]);
            }
            "9"
        },
    }
}

/// Renders `n` in decimal.
pub fn u64_to_dec(n: u64) -> (s: String)
    ensures
        s@ == dec_str(n as nat),
    decreases n,
{
    if n < 10 {
        digit_str(n).to_owned()
    } else {
        proof {
            lemma_div_decreases(n as int, 10);
        }
        let mut s = u64_to_dec(n / 10);
        s.append(digit_str(n % 10));
        s
    }
}

/// Renders `n` in decimal.
pub fn usize_to_dec(n: usize) -> (s: String)
    ensures
        s@ == dec_str(n as nat),
{
    u64_to_dec(n as u64)
}

} // verus!
