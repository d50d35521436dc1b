//! Text: comparison, decimal numerals and the printed form of optional integers.
use vstd::prelude::*;
use vstd::string::*;

verus! {

/// The character of the decimal digit `d`.
pub open spec fn digit(d: nat) -> char
    recommends
        d < 10,
{
    ('0' as nat + d) as char
}

/// The decimal numeral of `n`, without leading zeros.
pub open spec fn decimal(n: nat) -> Seq<char>
    decreases n,
{
    if n < 10 {
        seq![digit(n)]
    } else {
        decimal(n / 10).push(digit(n % 10))
    }
}

/// The decimal numeral of an integer, with a leading minus sign below zero.
pub open spec fn signed_decimal(n: int) -> Seq<char> {
    if n < 0 {
        seq!['-'] + decimal((-n) as nat)
    } else {
        decimal(n as nat)
    }
}

/// How an optional integer is printed for debugging: `Some(..)` around the numeral, or `None`.
pub open spec fn optional_text(n: Option<i32>) -> Seq<char> {
    match n {
        Some(value) => "Some("@ + signed_decimal(value as int) + ")"@,
        None => "None"@,
    }
}

/// The number that a sequence of decimal digits denotes.
pub open spec fn numeral_value(s: Seq<char>) -> int
    decreases s.len(),
{
    if s.len() == 0 {
        0
    } else {
        numeral_value(s.drop_last()) * 10 + (s.last() as int - '0' as int)
    }
}

/// A decimal numeral denotes the number it was made from.
pub proof fn decimal_denotes_its_number(n: nat)
    ensures
        numeral_value(decimal(n)) == n,
    decreases n,
{
    reveal_with_fuel(numeral_value, 2);
    if n < 10 {
        assert(decimal(n).drop_last() =~= Seq::<char>::empty());
    } else {
        decimal_denotes_its_number(n / 10);
        assert(decimal(n).drop_last() =~= decimal(n / 10));
    }
}

/// Whether two texts hold the same characters.
pub fn same_text(a: &str, b: &str) -> (same: bool)
    ensures
        same == (a@ == b@),
{
    a.to_owned() == b.to_owned()
}

fn digit_text(d: u32) -> (s: &'static str)
    requires
        d < 10,
    ensures
        s@ == seq![digit(d as nat)],
{
    proof {
        reveal_strlit("0");
        reveal_strlit("1");
        reveal_strlit("2");
        reveal_strlit("3");
        reveal_strlit("4");
        reveal_strlit("5");
        reveal_strlit("6");
        reveal_strlit("7");
        reveal_strlit("8");
        reveal_strlit("9");
    }
    if d == 0 {
        "0"
    } else if d == 1 {
        "1"
    } else if d == 2 {
        "2"
    } else if d == 3 {
        "3"
    } else if d == 4 {
        "4"
    } else if d == 5 {
        "5"
    } else if d == 6 {
        "6"
    } else if d == 7 {
        "7"
    } else if d == 8 {
        "8"
    } else {
        "9"
    }
}

/// Writes `n` in decimal.
pub fn decimal_text(n: u32) -> (s: String)
    ensures
        s@ == decimal(n as nat),
    decreases n,
{
    if n < 10 {
        digit_text(n).to_owned()
    } else {
        decimal_text(n / 10).concat(digit_text(n % 10))
    }
}

/// Prints an optional integer as `Some(..)` or `None`.
pub fn optional_to_text(n: Option<i32>) -> (s: String)
    ensures
        s@ == optional_text(n),
{
    match n {
        None => "None".to_owned(),
        Some(value) => {
            let magnitude: u32 = if value < 0 {
                (-(value as i64)) as u32
            } else {
                value as u32
            };
            let sign: &str = if value < 0 {
                "-"
            } else {
                ""
            };
            proof {
                reveal_strlit("-");
                reveal_strlit("");
            }
            let numeral = sign.to_owned().concat(decimal_text(magnitude).as_str());
            assert(numeral@ =~= signed_decimal(value as int));
            "Some(".to_owned().concat(numeral.as_str()).concat(")")
        },
    }
}

/// A decimal numeral is made of digits, and does not begin with a zero unless it is that of zero.
pub proof fn decimal_is_canonical(n: nat)
    ensures
        decimal(n).len() > 0,
        forall|i: int| 0 <= i < decimal(n).len() ==> '0' <= #[trigger] decimal(n)[i] && decimal(n)[i] <= '9',
        n > 0 ==> decimal(n)[0] != '0',
        n == 0 ==> decimal(n).len() == 1,
    decreases n,
{
    if n >= 10 {
        decimal_is_canonical(n / 10);
        assert forall|i: int| 0 <= i < decimal(n).len() implies '0' <= #[trigger] decimal(n)[i]
            && decimal(n)[i] <= '9' by {
            if i < decimal(n / 10).len() {
                assert(decimal(n)[i] == decimal(n / 10)[i]);
            }
        }
    }
}

/// The numeral of a negative integer is a minus sign and the numeral of its magnitude; that of
/// another integer denotes it.
pub proof fn signed_decimal_denotes_its_number(n: int)
    ensures
        n >= 0 ==> numeral_value(signed_decimal(n)) == n && signed_decimal(n)[0] != '-',
        n < 0 ==> {
            &&& signed_decimal(n)[0] == '-'
            &&& numeral_value(signed_decimal(n).drop_first()) == -n
        },
{
    if n < 0 {
        decimal_denotes_its_number((-n) as nat);
        assert(signed_decimal(n).drop_first() =~= decimal((-n) as nat));
    } else {
        decimal_denotes_its_number(n as nat);
        decimal_is_canonical(n as nat);
    }
}

/// Different exit codes are printed differently.
pub proof fn optional_texts_tell_codes_apart(one: Option<i32>, other: Option<i32>)
    requires
        optional_text(one) == optional_text(other),
    ensures
        one == other,
{
    reveal_strlit("Some(");
    reveal_strlit(")");
    reveal_strlit("None");
    if one is None || other is None {
        assert(optional_text(None)[0] == 'N');
        if one is Some {
            assert(optional_text(one)[0] == 'S');
        }
        if other is Some {
            assert(optional_text(other)[0] == 'S');
        }
    } else {
        let a = signed_decimal(one->0 as int);
        let b = signed_decimal(other->0 as int);
        assert(optional_text(one).subrange(5, optional_text(one).len() - 1) =~= a);
        assert(optional_text(other).subrange(5, optional_text(other).len() - 1) =~= b);
        signed_decimal_denotes_its_number(one->0 as int);
        signed_decimal_denotes_its_number(other->0 as int);
    }
}

} // verus!
