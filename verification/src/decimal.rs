//! Decimal numbers in text.

use crate::text::chars_of;
use vstd::prelude::*;

verus! {

/// The character of a decimal digit.
pub open spec fn digit(d: nat) -> char {
    (48 + d) as char
}

/// The value of a decimal digit.
pub open spec fn digit_value(c: char) -> Option<nat> {
    if '0' <= c <= '9' {
        Some((c as int - 48) as nat)
    } else {
        None
    }
}

/// `n` in decimal, without leading zeros.
pub open spec fn decimal(n: nat) -> Seq<char>
    decreases n,
{
    if n < 10 {
        seq![digit(n)]
    } else {
        decimal(n / 10).push(digit(n % 10))
    }
}

/// The number that a run of decimal digits stands for; nothing where another character is in
/// it. The empty run stands for zero.
pub open spec fn digits_value(s: Seq<char>) -> Option<nat>
    decreases s.len(),
{
    if s.len() == 0 {
        Some(0)
    } else {
        match (digits_value(s.drop_last()), digit_value(s.last())) {
            (Some(n), Some(d)) => Some(n * 10 + d),
            _ => None,
        }
    }
}

/// The port that a text names: an optional plus sign and at least one digit, at most 65535.
pub open spec fn port_value(s: Seq<char>) -> Option<nat> {
    let digits = if s.len() > 0 && s[0] == '+' {
        s.skip(1)
    } else {
        s
    };
    match digits_value(digits) {
        Some(n) => if digits.len() > 0 && n <= u16::MAX {
            Some(n)
        } else {
            None
        },
        None => None,
    }
}

fn digit_char(d: u128) -> (r: char)
    requires
        d < 10,
    ensures
        r == digit(d as nat),
{
    if d == 0 {
        '0'
    } else if d == 1 {
        '1'
    } else if d == 2 {
        '2'
    } else if d == 3 {
        '3'
    } else if d == 4 {
        '4'
    } else if d == 5 {
        '5'
    } else if d == 6 {
        '6'
    } else if d == 7 {
        '7'
    } else if d == 8 {
        '8'
    } else {
        '9'
    }
}

/// Appends `n` in decimal.
pub fn push_decimal(out: &mut String, n: u128)
    ensures
        final(out)@ == old(out)@ + decimal(n as nat),
    decreases n,
{
    if n >= 10 {
        push_decimal(out, n / 10);
    }
    out.push(digit_char(n % 10));
}

/// Reads a port number.
pub fn parse_port(s: &str) -> (r: Option<u16>)
    ensures
        match r {
            Some(p) => port_value(s@) == Some(p as nat),
            None => port_value(s@) is None,
        },
{
    let v = chars_of(s);
    let len: usize = v.len();
    let start: usize = if len > 0 && v[0] == '+' {
        1
    } else {
        0
    };
    let ghost digits = if s@.len() > 0 && s@[0] == '+' {
        s@.skip(1)
    } else {
        s@
    };
    assert(digits == v@.skip(start as int));
    if start == len {
        return None;
    }
    let mut n: u32 = 0;
    let mut i: usize = start;
    assert(digits.take(0) == Seq::<char>::empty());
    while i < len
        invariant
            start <= i <= len,
            len == v@.len(),
            start < len,
            v@ == s@,
            digits == v@.skip(start as int),
            digits == if s@.len() > 0 && s@[0] == '+' {
                s@.skip(1)
            } else {
                s@
            },
            n <= u16::MAX,
            digits_value(digits.take(i - start)) == Some(n as nat),
        decreases len - i,
    {
        let ghost seen = digits.take(i - start + 1);
        assert(seen.drop_last() == digits.take(i - start));
        assert(seen.last() == v@[i as int]);
        let d: u32 = match v[i] {
            '0' => 0,
            '1' => 1,
            '2' => 2,
            '3' => 3,
            '4' => 4,
            '5' => 5,
            '6' => 6,
            '7' => 7,
            '8' => 8,
            '9' => 9,
            _ => {
                proof {
                    prefix_decides(digits, i - start + 1);
                }
                return None;
            },
        };
        n = n * 10 + d;
        i += 1;
        if n > 65535 {
            proof {
                prefix_decides(digits, i - start);
            }
            return None;
        }
    }
    assert(digits.take(len - start) == digits);
    Some(n as u16)
}

/// What a prefix of a run of digits decides for the whole run: if it is no number the run is
/// none, and the run stands for no less.
proof fn prefix_decides(s: Seq<char>, n: int)
    requires
        0 <= n <= s.len(),
    ensures
        digits_value(s.take(n)) is None ==> digits_value(s) is None,
        digits_value(s.take(n)) is Some && digits_value(s) is Some ==> digits_value(s.take(n))->0
            <= digits_value(s)->0,
    decreases s.len(),
{
    if n == s.len() {
        assert(s.take(n) == s);
    } else {
        assert(s.drop_last().take(n) == s.take(n));
        prefix_decides(s.drop_last(), n);
    }
}

/// Reading back a number that was written in decimal gives the number, and what is written is
/// never empty and holds digits only.
pub proof fn decimal_reads_back(n: nat)
    ensures
        digits_value(decimal(n)) == Some(n),
        decimal(n).len() > 0,
        forall|i: int| 0 <= i < decimal(n).len() ==> digit_value(#[trigger] decimal(n)[i]) is Some,
    decreases n,
{
    if n < 10 {
        assert(decimal(n).drop_last() == Seq::<char>::empty());
        assert(decimal(n).last() == digit(n));
        assert(digits_value(decimal(n).drop_last()) == Some(0nat));
    } else {
        decimal_reads_back(n / 10);
        assert(decimal(n).drop_last() == decimal(n / 10));
        assert(n == (n / 10) * 10 + n % 10);
    }
}

/// A port that is written in decimal is read as that port.
pub proof fn port_reads_back(p: u16)
    ensures
        port_value(decimal(p as nat)) == Some(p as nat),
{
    decimal_reads_back(p as nat);
    assert(digit_value(decimal(p as nat)[0]) is Some);
}

/// A number other than zero is written without a leading zero.
pub proof fn decimal_has_no_leading_zero(n: nat)
    ensures
        n == 0 ==> decimal(n) == seq!['0'],
        n > 0 ==> decimal(n).len() > 0 && decimal(n)[0] != '0',
    decreases n,
{
    if n >= 10 {
        decimal_has_no_leading_zero(n / 10);
    }
}

/// The ten digits and their values; no other character is one.
pub proof fn digits_by_number(c: char)
    ensures
        48 <= c as u32 <= 57 ==> digit_value(c) == Some((c as u32 - 48) as nat),
        !(48 <= c as u32 <= 57) ==> digit_value(c) is None,
{
}

/// A further digit makes the number ten times as large and adds itself; any other character makes
/// it no number.
pub proof fn digits_add_up(s: Seq<char>, c: char)
    ensures
        digits_value(s) is Some && 48 <= c as u32 <= 57 ==> digits_value(s.push(c)) == Some(
            digits_value(s)->0 * 10 + (c as u32 - 48) as nat,
        ),
        digits_value(s) is None ==> digits_value(s.push(c)) is None,
        !(48 <= c as u32 <= 57) ==> digits_value(s.push(c)) is None,
        digits_value(Seq::empty()) == Some(0nat),
{
    assert(s.push(c).drop_last() =~= s);
}

/// A port is a run of digits that stands for at most 65535, with or without a plus sign before it,
/// and nothing else is one.
pub proof fn port_by_number(s: Seq<char>)
    ensures
        s.len() > 0 && digits_value(s) is Some && digits_value(s)->0 <= 65535 ==> port_value(s)
            == digits_value(s) && port_value(seq!['+'] + s) == digits_value(s),
        digits_value(s) is Some && digits_value(s)->0 > 65535 ==> port_value(s) is None
            && port_value(seq!['+'] + s) is None,
        digits_value(s) is None ==> port_value(seq!['+'] + s) is None,
        digits_value(s) is None && s[0] != '+' ==> port_value(s) is None,
        port_value(Seq::empty()) is None,
        port_value(seq!['+']) is None,
{
    assert((seq!['+'] + s).skip(1) =~= s);
    assert(seq!['+'].skip(1) =~= Seq::<char>::empty());
    if s.len() > 0 && s[0] == '+' {
        first_decides(s);
    }
}

proof fn first_decides(s: Seq<char>)
    requires
        s.len() > 0,
        digit_value(s[0]) is None,
    ensures
        digits_value(s) is None,
{
    assert(s.take(1).drop_last() =~= Seq::<char>::empty());
    assert(s.take(1).last() == s[0]);
    prefix_decides(s, 1);
}

} // verus!
