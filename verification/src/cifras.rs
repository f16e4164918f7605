//! Decimal rendering of machine integers, built by hand so that the
//! produced text is pinned down character by character.

use vstd::prelude::*;
use vstd::string::StringExecFns;

verus! {

/// The digit character for one decimal digit.
pub open spec fn digito_char(d: int) -> char {
    if d == 0 {
        '0'
    } else if d == 1 {
        '1'
    } else if d == 2 {
        '2'
    } else if d == 3 {
        '3'
    } else if d == 4 {
        '4'
    } else if d == 5 {
        '5'
    } else if d == 6 {
        '6'
    } else if d == 7 {
        '7'
    } else if d == 8 {
        '8'
    } else {
        '9'
    }
}

/// The decimal spelling of a natural number, most significant digit
/// first.
pub open spec fn texto_de_u64(n: int) -> Seq<char>
    decreases n,
{
    if n < 10 {
        seq![digito_char(n)]
    } else {
        texto_de_u64(n / 10).push(digito_char(n % 10))
    }
}

/// The decimal spelling of a signed number: a minus sign before the
/// spelling of the magnitude.
pub open spec fn texto_de_i64(n: int) -> Seq<char> {
    if n < 0 {
        seq!['-'].add(texto_de_u64(-n))
    } else {
        texto_de_u64(n)
    }
}

fn digito_str(d: u64) -> (r: &'static str)
    requires
        d < 10,
    ensures
        r@ == seq![digito_char(d as int)],
{
    proof {
        reveal_strlit("0");
        reveal_strlit("1");
        reveal_strlit("2");
        reveal_strlit("3");
        reveal_strlit("4");
        reveal_strlit("5");
        reveal_strlit("6");
        reveal_strlit("7");
        reveal_strlit("8");
        reveal_strlit("9");
    }
    match d {
        0 => "0",
        1 => "1",
        2 => "2",
        3 => "3",
        4 => "4",
        5 => "5",
        6 => "6",
        7 => "7",
        8 => "8",
        _ => "9",
    }
}

/// Spell a natural number in decimal.
pub fn u64_a_texto(n: u64) -> (r: String)
    ensures
        r@ == texto_de_u64(n as int),
    decreases n,
{
    if n < 10 {
        digito_str(n).to_owned()
    } else {
        let mut s = u64_a_texto(n / 10);
        s.append(digito_str(n % 10));
        proof {
            assert(s@ =~= texto_de_u64((n / 10) as int).push(digito_char((n % 10) as int)));
        }
        s
    }
}

/// Spell a signed number in decimal.
pub fn i64_a_texto(n: i64) -> (r: String)
    ensures
        r@ == texto_de_i64(n as int),
{
    if n >= 0 {
        u64_a_texto(n as u64)
    } else {
        proof {
            reveal_strlit("-");
        }
        let mut s: String = "-".to_owned();
        let mag: u64 = if n == i64::MIN {
            0x8000000000000000
        } else {
            (-n) as u64
        };
        let t = u64_a_texto(mag);
        s.append(t.as_str());
        proof {
            assert(s@ =~= texto_de_i64(n as int));
        }
        s
    }
}

} // verus!
