//! Numbers and names as text.
use vstd::prelude::*;

verus! {

/// The character of a decimal digit.
pub open spec fn digit_char(d: int) -> char {
    ('0' as u32 + d) as char
}

/// A number in decimal, without leading zeros.
pub open spec fn decimal_text(n: nat) -> Seq<char>
    decreases n,
{
    if n < 10 {
        seq![digit_char(n as int)]
    } else {
        decimal_text(n / 10).push(digit_char((n % 10) as int))
    }
}

/// A number in decimal, with a minus sign below zero.
pub open spec fn signed_text(n: int) -> Seq<char> {
    if n < 0 {
        "-"@ + decimal_text((-n) as nat)
    } else {
        decimal_text(n as nat)
    }
}

fn push_digit(s: &mut String, d: u128)
    requires
        d < 10,
    ensures
        final(s)@ == old(s)@.push(digit_char(d as int)),
{
    proof {
        reveal_strlit("0");
        reveal_strlit("1");
        reveal_strlit("2");
        reveal_strlit("3");
        reveal_strlit("4");
        reveal_strlit("5");
        reveal_strlit("6");
        reveal_strlit("7");
        reveal_strlit("8");
        reveal_strlit("9");
    }
    let digit: &str = if d == 0 {
        "0"
    } else if d == 1 {
        "1"
    } else if d == 2 {
        "2"
    } else if d == 3 {
        "3"
    } else if d == 4 {
        "4"
    } else if d == 5 {
        "5"
    } else if d == 6 {
        "6"
    } else if d == 7 {
        "7"
    } else if d == 8 {
        "8"
    } else {
        "9"
    };
    s.append(digit);
    assert(s@ =~= old(s)@.push(digit_char(d as int)));
}

/// Appends a number in decimal.
pub fn push_decimal(s: &mut String, n: u128)
    ensures
        final(s)@ == old(s)@ + decimal_text(n as nat),
    decreases n,
{
    if n >= 10 {
        push_decimal(s, n / 10);
    }
    push_digit(s, n % 10);
    assert(s@ =~= old(s)@ + decimal_text(n as nat));
}

/// Appends a number in decimal, with a minus sign below zero.
pub fn push_signed(s: &mut String, n: i32)
    ensures
        final(s)@ == old(s)@ + signed_text(n as int),
{
    if n < 0 {
        s.append("-");
        push_decimal(s, (-(n as i64)) as u128);
        assert(s@ =~= old(s)@ + signed_text(n as int));
    } else {
        push_decimal(s, n as u128);
    }
}

/// Whether two texts are the same.
pub fn same_text(a: &str, b: &str) -> (same: bool)
    ensures
        same == (a@ == b@),
{
    String::from_str(a) == String::from_str(b)
}

/// Whether a text is a number in decimal, and which: every character is a digit, the digits add up
/// to the number by their places, and there is no leading zero.
pub open spec fn denotes(s: Seq<char>, n: nat) -> bool {
    &&& s.len() > 0
    &&& forall|i: int| 0 <= i < s.len() ==> '0' <= #[trigger] s[i] <= '9'
    &&& place_value(s) == n
    &&& s.len() > 1 ==> s[0] != '0'
}

/// The sum of the digits by their places, the last digit counting once.
pub open spec fn place_value(s: Seq<char>) -> int
    decreases s.len(),
{
    if s.len() == 0 {
        0
    } else {
        (s[0] as u32 - '0' as u32) * vstd::arithmetic::power::pow(10, (s.len() - 1) as nat)
            + place_value(s.skip(1))
    }
}

/// One more digit makes ten of one and adds the digit.
pub proof fn place_value_of_push(s: Seq<char>, c: char)
    ensures
        place_value(s.push(c)) == 10 * place_value(s) + (c as u32 - '0' as u32),
    decreases s.len(),
{
    reveal(vstd::arithmetic::power::pow);
    let more = s.push(c);
    if s.len() == 0 {
        assert(more.skip(1) =~= Seq::<char>::empty());
        let d = c as u32 - '0' as u32;
        assert(vstd::arithmetic::power::pow(10, 0) == 1);
        assert(place_value(Seq::<char>::empty()) == 0);
        assert(s =~= Seq::<char>::empty());
        assert(d * 1 == d);
        assert(place_value(more) == d * vstd::arithmetic::power::pow(10, 0) + place_value(
            more.skip(1),
        ));
    } else {
        assert(more.skip(1) =~= s.skip(1).push(c));
        place_value_of_push(s.skip(1), c);
        let d = s[0] as u32 - '0' as u32;
        let p = vstd::arithmetic::power::pow(10, (s.len() - 1) as nat);
        assert(vstd::arithmetic::power::pow(10, s.len()) == 10 * p);
        assert(d * (10 * p) == 10 * (d * p)) by (nonlinear_arith);
        assert(more[0] == s[0]);
        assert((more.len() - 1) as nat == s.len());
        assert(place_value(more) == d * vstd::arithmetic::power::pow(10, s.len()) + place_value(
            more.skip(1),
        ));
    }
}

/// A number in decimal denotes that number.
pub proof fn decimal_text_denotes(n: nat)
    ensures
        denotes(decimal_text(n), n),
        n >= 10 <==> decimal_text(n).len() > 1,
    decreases n,
{
    if n < 10 {
        let c = digit_char(n as int);
        assert(seq![c] =~= Seq::<char>::empty().push(c));
        place_value_of_push(Seq::empty(), c);
        assert(place_value(Seq::<char>::empty()) == 0);
    } else {
        decimal_text_denotes(n / 10);
        place_value_of_push(decimal_text(n / 10), digit_char((n % 10) as int));
        assert(decimal_text(n)[0] == decimal_text(n / 10)[0]);
        if n / 10 < 10 {
            assert(decimal_text(n / 10)[0] == digit_char((n / 10) as int));
        }
    }
}

/// A signed number is its magnitude, after a minus sign below zero.
pub proof fn signed_text_denotes(n: int)
    ensures
        n >= 0 ==> denotes(signed_text(n), n as nat),
        n < 0 ==> signed_text(n)[0] == '-' && denotes(signed_text(n).skip(1), (-n) as nat),
{
    if n < 0 {
        reveal_strlit("-");
        decimal_text_denotes((-n) as nat);
        assert(signed_text(n).skip(1) =~= decimal_text((-n) as nat));
    } else {
        decimal_text_denotes(n as nat);
    }
}

} // verus!
