//! What the numbers in the text of a class read back as: the decimal digits written for
//! an integer, and for the initial value of a field, stand for that very value.

use crate::node::element::SpecFieldInitialValue;
use crate::render::{int_text, value_text};
use crate::smali::{decimal, digit_char};
use vstd::prelude::*;

verus! {

/// Whether every character of `t` is a decimal digit.
pub open spec fn all_digits(t: Seq<char>) -> bool {
    forall|i: int| 0 <= i < t.len() ==> '0' <= #[trigger] t[i] <= '9'
}

/// The number that the decimal digits `t` stand for, most significant first.
pub open spec fn digits_value(t: Seq<char>) -> int
    decreases t.len(),
{
    if t.len() == 0 {
        0
    } else {
        digits_value(t.drop_last()) * 10 + (t.last() as int - '0' as int)
    }
}

/// Whether `t` is a decimal text of the number `x`: one or more digits, after a `-` where
/// `x` is negative.
pub open spec fn is_int_text(t: Seq<char>, x: int) -> bool {
    if x < 0 {
        &&& t.len() >= 2
        &&& t[0] == '-'
        &&& all_digits(t.skip(1))
        &&& -digits_value(t.skip(1)) == x
    } else {
        &&& t.len() >= 1
        &&& all_digits(t)
        &&& digits_value(t) == x
    }
}

/// The digits written for `n` read back as `n`.
pub proof fn lemma_decimal_reads_back(n: nat)
    ensures
        decimal(n).len() >= 1,
        all_digits(decimal(n)),
        digits_value(decimal(n)) == n,
    decreases n,
{
    let d = n % 10;
    assert(digit_char(d) as int == d + 48);
    assert('0' as int == 48);
    if n >= 10 {
        lemma_decimal_reads_back(n / 10);
        vstd::arithmetic::div_mod::lemma_fundamental_div_mod(n as int, 10);
        let t = decimal(n);
        assert(t.drop_last() =~= decimal(n / 10));
        assert(t.last() == digit_char(d));
        assert forall|i: int| 0 <= i < t.len() implies '0' <= #[trigger] t[i] <= '9' by {
            if i < t.len() - 1 {
                assert(t[i] == decimal(n / 10)[i]);
            }
        }
    } else {
        assert(decimal(n) =~= seq![digit_char(n)]);
        assert(decimal(n).drop_last() =~= Seq::<char>::empty());
        assert(d == n);
        assert(digits_value(decimal(n)) == digits_value(Seq::<char>::empty()) * 10 + (digit_char(n) as int - 48));
    }
}

/// The text written for an integer reads back as that integer, its sign included.
pub proof fn lemma_int_text_reads_back(x: int)
    ensures
        is_int_text(int_text(x), x),
{
    if x >= 0 {
        lemma_decimal_reads_back(x as nat);
    } else {
        lemma_decimal_reads_back((-x) as nat);
        reveal_strlit("-");
        assert(int_text(x).skip(1) =~= decimal((-x) as nat));
    }
}

/// The text of a numeric initial value is its kind, then `(`, then the number in decimal
/// that reads back as the value (signed for an `int` or a `long`, the unsigned bits for a
/// `float` or a `double`), then `)`.
pub proof fn lemma_value_text_numbers(v: SpecFieldInitialValue)
    ensures
        v matches SpecFieldInitialValue::Integer(i) ==> ({
            let t = value_text(v);
            &&& t.len() > 9 && t.subrange(0, 8) == "Integer("@ && t.last() == ')'
            &&& is_int_text(t.subrange(8, t.len() - 1), i as int)
        }),
        v matches SpecFieldInitialValue::Long(l) ==> ({
            let t = value_text(v);
            &&& t.len() > 6 && t.subrange(0, 5) == "Long("@ && t.last() == ')'
            &&& is_int_text(t.subrange(5, t.len() - 1), l as int)
        }),
        v matches SpecFieldInitialValue::Float(b) ==> ({
            let t = value_text(v);
            &&& t.len() > 7 && t.subrange(0, 6) == "Float("@ && t.last() == ')'
            &&& is_int_text(t.subrange(6, t.len() - 1), b as int)
        }),
        v matches SpecFieldInitialValue::Double(b) ==> ({
            let t = value_text(v);
            &&& t.len() > 8 && t.subrange(0, 7) == "Double("@ && t.last() == ')'
            &&& is_int_text(t.subrange(7, t.len() - 1), b as int)
        }),
{
    reveal_strlit("Integer(");
    reveal_strlit("Long(");
    reveal_strlit("Float(");
    reveal_strlit("Double(");
    reveal_strlit(")");
    match v {
        SpecFieldInitialValue::Integer(i) => {
            lemma_int_text_reads_back(i as int);
            let n = int_text(i as int);
            let t = value_text(v);
            assert(t.subrange(0, 8) =~= "Integer("@);
            assert(t.subrange(8, t.len() - 1) =~= n);
        },
        SpecFieldInitialValue::Long(l) => {
            lemma_int_text_reads_back(l as int);
            let n = int_text(l as int);
            let t = value_text(v);
            assert(t.subrange(0, 5) =~= "Long("@);
            assert(t.subrange(5, t.len() - 1) =~= n);
        },
        SpecFieldInitialValue::Float(b) => {
            lemma_decimal_reads_back(b as nat);
            let t = value_text(v);
            assert(t.subrange(0, 6) =~= "Float("@);
            assert(t.subrange(6, t.len() - 1) =~= decimal(b as nat));
        },
        SpecFieldInitialValue::Double(b) => {
            lemma_decimal_reads_back(b as nat);
            let t = value_text(v);
            assert(t.subrange(0, 7) =~= "Double("@);
            assert(t.subrange(7, t.len() - 1) =~= decimal(b as nat));
        },
        _ => {},
    }
}

} // verus!
