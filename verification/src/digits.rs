use vstd::prelude::*;
use vstd::string::StringExecFns;

verus! {

/// The decimal digit character for one digit value.
pub open spec fn digit_char(d: nat) -> char {
    if d == 0 {
        '0'
    } else if d == 1 {
        '1'
    } else if d == 2 {
        '2'
    } else if d == 3 {
        '3'
    } else if d == 4 {
        '4'
    } else if d == 5 {
        '5'
    } else if d == 6 {
        '6'
    } else if d == 7 {
        '7'
    } else if d == 8 {
        '8'
    } else {
        '9'
    }
}

/// The decimal rendering of a number, most significant digit first, with no
/// leading zeroes (a lone zero for zero itself).
pub open spec fn dec_of(n: nat) -> Seq<char>
    decreases n,
{
    if n < 10 {
        seq![digit_char(n)]
    } else {
        dec_of(n / 10).push(digit_char(n % 10))
    }
}

/// Every rendering has at least one digit.
pub proof fn lemma_dec_of_positive_len(n: nat)
    ensures
        dec_of(n).len() >= 1,
    decreases n,
{
    if n >= 10 {
        lemma_dec_of_positive_len(n / 10);
    }
}

/// Distinct digit values render as distinct characters.
pub proof fn lemma_digit_char_injective(d1: nat, d2: nat)
    requires
        d1 < 10,
        d2 < 10,
        digit_char(d1) == digit_char(d2),
    ensures
        d1 == d2,
{
}

/// Two numbers with the same decimal rendering are the same number.
pub proof fn lemma_dec_of_injective(a: nat, b: nat)
    requires
        dec_of(a) == dec_of(b),
    ensures
        a == b,
    decreases a,
{
    if a < 10 && b < 10 {
        assert(dec_of(a) == seq![digit_char(a)]);
        assert(dec_of(b) == seq![digit_char(b)]);
        assert(dec_of(a)[0] == digit_char(a));
        assert(dec_of(b)[0] == digit_char(b));
        lemma_digit_char_injective(a, b);
    } else if a < 10 {
        lemma_dec_of_positive_len(b / 10);
        assert(dec_of(b).len() >= 2);
    } else if b < 10 {
        lemma_dec_of_positive_len(a / 10);
        assert(dec_of(a).len() >= 2);
    } else {
        assert(dec_of(a) == dec_of(a / 10).push(digit_char(a % 10)));
        assert(dec_of(b) == dec_of(b / 10).push(digit_char(b % 10)));
        assert(dec_of(a).last() == digit_char(a % 10));
        assert(dec_of(b).last() == digit_char(b % 10));
        assert(digit_char(a % 10) == digit_char(b % 10));
        lemma_digit_char_injective(a % 10, b % 10);
        assert(a % 10 == b % 10);
        assert(dec_of(a).drop_last() == dec_of(a / 10)) by {
            assert(dec_of(a / 10).push(digit_char(a % 10)).drop_last() =~= dec_of(a / 10));
        }
        assert(dec_of(b).drop_last() == dec_of(b / 10)) by {
            assert(dec_of(b / 10).push(digit_char(b % 10)).drop_last() =~= dec_of(b / 10));
        }
        lemma_dec_of_injective(a / 10, b / 10);
        assert(a == 10 * (a / 10) + a % 10) by {
            vstd::arithmetic::div_mod::lemma_fundamental_div_mod(a as int, 10);
        }
        assert(b == 10 * (b / 10) + b % 10) by {
            vstd::arithmetic::div_mod::lemma_fundamental_div_mod(b as int, 10);
        }
    }
}

fn digit_str(d: u32) -> (r: &'static str)
    requires
        d < 10,
    ensures
        r@ == seq![digit_char(d as nat)],
{
    match d {
        0 => {
            let s = "0";
            proof {
                reveal_strlit("0");
                assert(s@ =~= seq![digit_char(0)]);
            }
            s
        },
        1 => {
            let s = "1";
            proof {
                reveal_strlit("1");
                assert(s@ =~= seq![digit_char(1)]);
            }
            s
        },
        2 => {
            let s = "2";
            proof {
                reveal_strlit("2");
                assert(s@ =~= seq![digit_char(2)]);
            }
            s
        },
        3 => {
            let s = "3";
            proof {
                reveal_strlit("3");
                assert(s@ =~= seq![digit_char(3)]);
            }
            s
        },
        4 => {
            let s = "4";
            proof {
                reveal_strlit("4");
                assert(s@ =~= seq![digit_char(4)]);
            }
            s
        },
        5 => {
            let s = "5";
            proof {
                reveal_strlit("5");
                assert(s@ =~= seq![digit_char(5)]);
            }
            s
        },
        6 => {
            let s = "6";
            proof {
                reveal_strlit("6");
                assert(s@ =~= seq![digit_char(6)]);
            }
            s
        },
        7 => {
            let s = "7";
            proof {
                reveal_strlit("7");
                assert(s@ =~= seq![digit_char(7)]);
            }
            s
        },
        8 => {
            let s = "8";
            proof {
                reveal_strlit("8");
                assert(s@ =~= seq![digit_char(8)]);
            }
            s
        },
        _ => {
            let s = "9";
            proof {
                reveal_strlit("9");
                assert(s@ =~= seq![digit_char(9)]);
            }
            s
        },
    }
}

/// Renders a number in decimal.
pub fn u32_to_string(n: u32) -> (r: String)
    ensures
        r@ == dec_of(n as nat),
    decreases n,
{
    if n < 10 {
        let r = digit_str(n).to_owned();
        proof {
            assert(r@ =~= dec_of(n as nat));
        }
        r
    } else {
        let mut r = u32_to_string(n / 10);
        r.append(digit_str(n % 10));
        proof {
            assert(r@ =~= dec_of(n as nat));
        }
        r
    }
}

} // verus!
