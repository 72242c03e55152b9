use crate::frame::text_of;
use vstd::prelude::*;

verus! {

/// Durations of this many nanoseconds and more have no unit to be shown in.
pub const SI_LIMIT: u64 = 1_000_000_000_000;

/// How many times a duration of `n` nanoseconds can be divided by 1000 before it drops under
/// 1000, up to seconds.
pub open spec fn si_level(n: nat) -> nat {
    if n >= 1_000_000_000 {
        3
    } else if n >= 1_000_000 {
        2
    } else if n >= 1000 {
        1
    } else {
        0
    }
}

pub open spec fn si_divisor(k: nat) -> nat {
    if k == 3 {
        1_000_000_000
    } else if k == 2 {
        1_000_000
    } else if k == 1 {
        1000
    } else {
        1
    }
}

pub open spec fn si_unit(k: nat) -> Seq<char> {
    if k == 3 {
        seq!['s']
    } else if k == 2 {
        seq!['m', 's']
    } else if k == 1 {
        seq!['u', 's']
    } else {
        seq!['n', 's']
    }
}

/// `n / d` rounded to the nearest integer, halves up.
pub open spec fn round_div(n: nat, d: nat) -> nat
    recommends
        d > 0,
{
    (2 * n + d) / (2 * d)
}

pub open spec fn digit_char(d: nat) -> char {
    if d == 0 {
        '0'
    } else if d == 1 {
        '1'
    } else if d == 2 {
        '2'
    } else if d == 3 {
        '3'
    } else if d == 4 {
        '4'
    } else if d == 5 {
        '5'
    } else if d == 6 {
        '6'
    } else if d == 7 {
        '7'
    } else if d == 8 {
        '8'
    } else {
        '9'
    }
}

/// The decimal digits of `n`, without leading zeros.
pub open spec fn decimal(n: nat) -> Seq<char>
    decreases n,
{
    if n < 10 {
        seq![digit_char(n)]
    } else {
        decimal(n / 10).push(digit_char(n % 10))
    }
}

/// A duration in the largest of ns, us, ms and s in which it is at least 1, rounded to a
/// whole number: `1500` gives `"2us"`.
pub open spec fn si_text(n: nat) -> Seq<char> {
    decimal(round_div(n, si_divisor(si_level(n)))) + si_unit(si_level(n))
}

fn digit_of(d: u64) -> (c: char)
    requires
        d < 10,
    ensures
        c == digit_char(d as nat),
{
    if d == 0 {
        '0'
    } else if d == 1 {
        '1'
    } else if d == 2 {
        '2'
    } else if d == 3 {
        '3'
    } else if d == 4 {
        '4'
    } else if d == 5 {
        '5'
    } else if d == 6 {
        '6'
    } else if d == 7 {
        '7'
    } else if d == 8 {
        '8'
    } else {
        '9'
    }
}

fn push_decimal(out: &mut Vec<char>, n: u64)
    ensures
        final(out)@ == old(out)@ + decimal(n as nat),
    decreases n,
{
    if n >= 10 {
        push_decimal(out, n / 10);
    }
    out.push(digit_of(n % 10));
    proof {
        if n < 10 {
            assert(n % 10 == n);
        }
        assert(old(out)@ + decimal(n as nat) =~= (old(out)@ + (if n >= 10 {
            decimal((n / 10) as nat)
        } else {
            Seq::<char>::empty()
        })).push(digit_char((n % 10) as nat)));
    }
}

/// Renders `nanoseconds` for a time axis: the duration in the largest unit among ns, us, ms
/// and s in which it is at least 1, rounded to a whole number.
pub fn to_si_time(nanoseconds: u64) -> (r: String)
    requires
        nanoseconds < SI_LIMIT,
    ensures
        r@ == si_text(nanoseconds as nat),
{
    let n = nanoseconds;
    let d: u64 = if n >= 1_000_000_000 {
        1_000_000_000
    } else if n >= 1_000_000 {
        1_000_000
    } else if n >= 1000 {
        1000
    } else {
        1
    };
    let q: u64 = (2 * n + d) / (2 * d);
    let mut out: Vec<char> = Vec::new();
    push_decimal(&mut out, q);
    let mut unit_chars: Vec<char> = Vec::new();
    if d == 1_000_000_000 {
        unit_chars.push('s');
    } else if d == 1_000_000 {
        unit_chars.push('m');
        unit_chars.push('s');
    } else if d == 1000 {
        unit_chars.push('u');
        unit_chars.push('s');
    } else {
        unit_chars.push('n');
        unit_chars.push('s');
    }
    let mut k: usize = 0;
    let ghost digits = out@;
    while k < unit_chars.len()
        invariant
            k <= unit_chars@.len(),
            out@ == digits + unit_chars@.take(k as int),
        decreases unit_chars@.len() - k,
    {
        out.push(unit_chars[k]);
        assert(unit_chars@.take(k + 1) =~= unit_chars@.take(k as int).push(unit_chars@[k as int]));
        k += 1;
    }
    proof {
        assert(unit_chars@.take(k as int) =~= unit_chars@);
        assert(unit_chars@ =~= si_unit(si_level(n as nat)));
    }
    text_of(out.as_slice())
}

} // verus!
