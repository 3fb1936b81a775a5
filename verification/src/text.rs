//! Decimal rendering of record numbers and the fixed description text.
//!
//! Record ids are decimal strings `"0"`, `"1"`, ... and every record `i`
//! carries the description `"I am foo number i"`. Both backends are fed from
//! this one generation rule, so it lives here, together with the fact that
//! distinct numbers get distinct ids.

use vstd::prelude::*;
use vstd::string::StringExecFns;
use vstd::arithmetic::div_mod::lemma_fundamental_div_mod;

verus! {

/// The character for one decimal digit.
pub open spec fn dec_digit(d: nat) -> char {
    if d == 0 {
        '0'
    } else if d == 1 {
        '1'
    } else if d == 2 {
        '2'
    } else if d == 3 {
        '3'
    } else if d == 4 {
        '4'
    } else if d == 5 {
        '5'
    } else if d == 6 {
        '6'
    } else if d == 7 {
        '7'
    } else if d == 8 {
        '8'
    } else {
        '9'
    }
}

/// The usual decimal rendering of `n`, most significant digit first,
/// without leading zeros (`0` itself is rendered as `"0"`).
pub open spec fn dec_str(n: nat) -> Seq<char>
    decreases n,
{
    if n < 10 {
        seq![dec_digit(n)]
    } else {
        dec_str(n / 10) + seq![dec_digit(n % 10)]
    }
}

pub proof fn lemma_dec_str_len(n: nat)
    ensures
        dec_str(n).len() >= 1,
        n >= 10 ==> dec_str(n).len() >= 2,
    decreases n,
{
    if n >= 10 {
        lemma_dec_str_len(n / 10);
    }
}

proof fn lemma_dec_digit_injective(a: nat, b: nat)
    requires
        a < 10,
        b < 10,
        dec_digit(a) == dec_digit(b),
    ensures
        a == b,
{
}

/// Distinct numbers render to distinct decimal strings, so decimal ids
/// never collide.
pub proof fn lemma_dec_str_injective(a: nat, b: nat)
    requires
        dec_str(a) == dec_str(b),
    ensures
        a == b,
    decreases a,
{
    if a < 10 && b < 10 {
        assert(dec_str(a)[0] == dec_str(b)[0]);
        assert(dec_str(a)[0] == dec_digit(a));
        assert(dec_str(b)[0] == dec_digit(b));
        lemma_dec_digit_injective(a, b);
    } else if a < 10 && b >= 10 {
        lemma_dec_str_len(b);
        assert(false);
    } else if a >= 10 && b < 10 {
        lemma_dec_str_len(a);
        assert(false);
    } else {
        let sa = dec_str(a / 10);
        let sb = dec_str(b / 10);
        assert(dec_str(a) == sa + seq![dec_digit(a % 10)]);
        assert(dec_str(b) == sb + seq![dec_digit(b % 10)]);
        assert(sa.len() == sb.len());
        assert forall|i: int| 0 <= i < sa.len() implies sa[i] == sb[i] by {
            assert(sa[i] == (sa + seq![dec_digit(a % 10)])[i]);
            assert(sb[i] == (sb + seq![dec_digit(b % 10)])[i]);
        }
        assert(sa =~= sb);
        lemma_dec_str_injective(a / 10, b / 10);
        assert((sa + seq![dec_digit(a % 10)]).last() == dec_digit(a % 10));
        assert((sb + seq![dec_digit(b % 10)]).last() == dec_digit(b % 10));
        lemma_dec_digit_injective(a % 10, b % 10);
        lemma_fundamental_div_mod(a as int, 10);
        lemma_fundamental_div_mod(b as int, 10);
    }
}

/// One-character string slice for a decimal digit.
fn dec_digit_str(d: usize) -> (s: &'static str)
    requires
        d < 10,
    ensures
        s@ == seq![dec_digit(d as nat)],
{
    proof {
        reveal_strlit("0");
        reveal_strlit("1");
        reveal_strlit("2");
        reveal_strlit("3");
        reveal_strlit("4");
        reveal_strlit("5");
        reveal_strlit("6");
        reveal_strlit("7");
        reveal_strlit("8");
        reveal_strlit("9");
    }
    let s: &'static str = if d == 0 {
        "0"
    } else if d == 1 {
        "1"
    } else if d == 2 {
        "2"
    } else if d == 3 {
        "3"
    } else if d == 4 {
        "4"
    } else if d == 5 {
        "5"
    } else if d == 6 {
        "6"
    } else if d == 7 {
        "7"
    } else if d == 8 {
        "8"
    } else {
        "9"
    };
    proof {
        assert(s@ =~= seq![dec_digit(d as nat)]);
    }
    s
}

/// Renders `n` in decimal, exactly as `dec_str` describes.
pub fn usize_to_string(n: usize) -> (s: String)
    ensures
        s@ == dec_str(n as nat),
    decreases n,
{
    if n < 10 {
        String::from_str(dec_digit_str(n))
    } else {
        let mut s = usize_to_string(n / 10);
        s.append(dec_digit_str(n % 10));
        proof {
            assert(s@ =~= dec_str(n as nat));
        }
        s
    }
}

/// The description text every generated record `i` carries.
pub open spec fn foo_description(i: nat) -> Seq<char> {
    "I am foo number "@ + dec_str(i)
}

/// Builds the description `"I am foo number i"`.
pub fn make_description(i: usize) -> (s: String)
    ensures
        s@ == foo_description(i as nat),
{
    let mut s = String::from_str("I am foo number ");
    let digits = usize_to_string(i);
    s.append(digits.as_str());
    proof {
        assert(s@ =~= foo_description(i as nat));
    }
    s
}

/// Relies on `String::push` from std: appends the given character to the
/// end of the string.
#[verifier::external_body]
pub fn push_char(s: &mut String, c: char)
    ensures
        final(s)@ == old(s)@.push(c),
{
    s.push(c);
}

} // verus!
